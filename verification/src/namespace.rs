//! Namespace kinds and sets of them.
use vstd::prelude::*;

verus! {

/// A kind of Linux namespace that a child process can be given.
#[derive(Clone, Copy, Debug, PartialEq, Eq, Hash, Structural)]
pub enum Namespace {
    Mount,
    Pid,
    Net,
    Uts,
    Ipc,
    User,
    Cgroup,
}

/// A set of namespace kinds.
#[derive(Clone, Copy, Debug, PartialEq, Eq)]
pub struct NamespaceSet {
    mount: bool,
    pid: bool,
    net: bool,
    uts: bool,
    ipc: bool,
    user: bool,
    cgroup: bool,
}

impl NamespaceSet {
    /// Whether the set holds `ns`.
    pub closed spec fn has(self, ns: Namespace) -> bool {
        match ns {
            Namespace::Mount => self.mount,
            Namespace::Pid => self.pid,
            Namespace::Net => self.net,
            Namespace::Uts => self.uts,
            Namespace::Ipc => self.ipc,
            Namespace::User => self.user,
            Namespace::Cgroup => self.cgroup,
        }
    }

    /// The set without any namespace.
    pub fn empty() -> (r: NamespaceSet)
        ensures
            r@ == Set::<Namespace>::empty(),
    {
        let r = NamespaceSet {
            mount: false,
            pid: false,
            net: false,
            uts: false,
            ipc: false,
            user: false,
            cgroup: false,
        };
        assert(r@ =~= Set::<Namespace>::empty());
        r
    }

    /// Whether `ns` is in the set.
    pub fn contains(&self, ns: Namespace) -> (r: bool)
        ensures
            r == self@.contains(ns),
    {
        match ns {
            Namespace::Mount => self.mount,
            Namespace::Pid => self.pid,
            Namespace::Net => self.net,
            Namespace::Uts => self.uts,
            Namespace::Ipc => self.ipc,
            Namespace::User => self.user,
            Namespace::Cgroup => self.cgroup,
        }
    }

    /// Adds `ns` to the set. Adding a namespace that is already there changes
    /// nothing.
    pub fn insert(&mut self, ns: Namespace)
        ensures
            final(self)@ == old(self)@.insert(ns),
    {
        match ns {
            Namespace::Mount => {
                self.mount = true;
            },
            Namespace::Pid => {
                self.pid = true;
            },
            Namespace::Net => {
                self.net = true;
            },
            Namespace::Uts => {
                self.uts = true;
            },
            Namespace::Ipc => {
                self.ipc = true;
            },
            Namespace::User => {
                self.user = true;
            },
            Namespace::Cgroup => {
                self.cgroup = true;
            },
        }
        assert(self@ =~= old(self)@.insert(ns));
    }
}

impl View for NamespaceSet {
    type V = Set<Namespace>;

    closed spec fn view(&self) -> Set<Namespace> {
        Set::new(|ns: Namespace| self.has(ns))
    }
}

} // verus!
