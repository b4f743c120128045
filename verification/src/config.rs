//! The isolation policy: everything that is decided about a child process
//! before it is spawned.
use crate::fakeroot::{FakeRootMount, FakeRootMountView};
use crate::namespace::{Namespace, NamespaceSet};
use vstd::prelude::*;

verus! {

/// Number of the signal that cannot be caught or ignored.
pub const SIGKILL: i32 = 9;

/// A range of user ids inside a user namespace and the range outside that it
/// stands for.
#[derive(Clone, Copy, Debug, PartialEq, Eq)]
pub struct UidMap {
    pub inside_uid: u32,
    pub outside_uid: u32,
    pub count: u32,
}

/// A range of group ids inside a user namespace and the range outside that it
/// stands for.
#[derive(Clone, Copy, Debug, PartialEq, Eq)]
pub struct GidMap {
    pub inside_gid: u32,
    pub outside_gid: u32,
    pub count: u32,
}

/// The isolation policy of one child process.
pub struct Config {
    /// Signal sent to the child when the parent dies.
    pub death_sig: Option<i32>,
    /// Working directory of the child.
    pub work_dir: Option<String>,
    /// User id that the child assumes.
    pub uid: Option<u32>,
    /// Group id that the child assumes.
    pub gid: Option<u32>,
    /// Supplementary group ids that the child assumes.
    pub supplementary_gids: Option<Vec<u32>>,
    /// Id ranges mapped into a new user namespace.
    pub id_maps: Option<(Vec<UidMap>, Vec<GidMap>)>,
    /// Namespaces that are created for the child.
    pub namespaces: NamespaceSet,
    /// Namespaces that the child joins, each with the open handle that names
    /// it. No kind occurs twice.
    pub setns_namespaces: Vec<(Namespace, i32)>,
    /// Whether the child gets the signal mask back that the parent had.
    pub restore_sigmask: bool,
    /// Whether the child leads a process group of its own.
    pub make_group_leader: bool,
    /// Directory that backs the child's root while it is built. `None` until
    /// the private root is enabled; the three lists below mean nothing before.
    pub fake_root_base: Option<String>,
    /// What is mounted into the child's root, in the order of registration.
    pub fake_root_mounts: Vec<FakeRootMount>,
    /// Directories created below the base before anything is mounted, each
    /// one after the directories above it.
    pub fake_root_mkdirs: Vec<String>,
    /// Empty files created below the base before anything is mounted.
    pub fake_root_touchs: Vec<String>,
}

/// A [`Config`] as plain values.
pub struct ConfigView {
    pub death_sig: Option<i32>,
    pub work_dir: Option<Seq<char>>,
    pub uid: Option<u32>,
    pub gid: Option<u32>,
    pub supplementary_gids: Option<Seq<u32>>,
    pub id_maps: Option<(Seq<UidMap>, Seq<GidMap>)>,
    pub namespaces: Set<Namespace>,
    pub setns_namespaces: Seq<(Namespace, i32)>,
    pub restore_sigmask: bool,
    pub make_group_leader: bool,
    pub fake_root_base: Option<Seq<char>>,
    pub fake_root_mounts: Seq<FakeRootMountView>,
    pub fake_root_mkdirs: Seq<Seq<char>>,
    pub fake_root_touchs: Seq<Seq<char>>,
}

/// The characters of each string of `paths`.
pub open spec fn path_views(paths: Seq<String>) -> Seq<Seq<char>> {
    paths.map_values(|s: String| s@)
}

/// The view of each entry of `mounts`.
pub open spec fn mount_views(mounts: Seq<FakeRootMount>) -> Seq<FakeRootMountView> {
    mounts.map_values(|m: FakeRootMount| m@)
}

impl View for Config {
    type V = ConfigView;

    open spec fn view(&self) -> ConfigView {
        ConfigView {
            death_sig: self.death_sig,
            work_dir: match self.work_dir {
                Some(dir) => Some(dir@),
                None => None,
            },
            uid: self.uid,
            gid: self.gid,
            supplementary_gids: match self.supplementary_gids {
                Some(gids) => Some(gids@),
                None => None,
            },
            id_maps: match self.id_maps {
                Some((uids, gids)) => Some((uids@, gids@)),
                None => None,
            },
            namespaces: self.namespaces@,
            setns_namespaces: self.setns_namespaces@,
            restore_sigmask: self.restore_sigmask,
            make_group_leader: self.make_group_leader,
            fake_root_base: match self.fake_root_base {
                Some(base) => Some(base@),
                None => None,
            },
            fake_root_mounts: mount_views(self.fake_root_mounts@),
            fake_root_mkdirs: path_views(self.fake_root_mkdirs@),
            fake_root_touchs: path_views(self.fake_root_touchs@),
        }
    }
}

impl ConfigView {
    /// Whether no kind of namespace is joined through two handles.
    pub open spec fn joins_each_kind_once(self) -> bool {
        forall|i: int, j: int|
            0 <= i < j < self.setns_namespaces.len() ==> (#[trigger] self.setns_namespaces[i]).0 != (
            #[trigger] self.setns_namespaces[j]).0
    }

    /// The policy of a child that is isolated from nothing: it is killed when
    /// its parent dies, gets the parent's signal mask back, and has no private
    /// root.
    pub open spec fn initial() -> ConfigView {
        ConfigView {
            death_sig: Some(SIGKILL),
            work_dir: None,
            uid: None,
            gid: None,
            supplementary_gids: None,
            id_maps: None,
            namespaces: Set::empty(),
            setns_namespaces: Seq::empty(),
            restore_sigmask: true,
            make_group_leader: false,
            fake_root_base: None,
            fake_root_mounts: Seq::empty(),
            fake_root_mkdirs: Seq::empty(),
            fake_root_touchs: Seq::empty(),
        }
    }
}

impl Default for Config {
    fn default() -> (r: Config)
        ensures
            r@ == ConfigView::initial(),
            r@.joins_each_kind_once(),
    {
        let r = Config {
            death_sig: Some(SIGKILL),
            work_dir: None,
            uid: None,
            gid: None,
            supplementary_gids: None,
            id_maps: None,
            namespaces: NamespaceSet::empty(),
            setns_namespaces: Vec::new(),
            restore_sigmask: true,
            make_group_leader: false,
            fake_root_base: None,
            fake_root_mounts: Vec::new(),
            fake_root_mkdirs: Vec::new(),
            fake_root_touchs: Vec::new(),
        };
        assert(r@.fake_root_mounts =~= Seq::empty());
        assert(r@.fake_root_mkdirs =~= Seq::empty());
        assert(r@.fake_root_touchs =~= Seq::empty());
        r
    }
}

} // verus!
