//! The mountpoint registry: what the child's private root will contain.
use crate::config::{Config, ConfigView};
use crate::consistency::{lemma_register_keeps_consistent, Registration};
use crate::namespace::Namespace;
use crate::path::{ancestors, lemma_parent_is_shorter, lineage, parent};
use vstd::prelude::*;
use vstd::string::*;

verus! {

/// How a mount entry gets its content.
#[derive(Clone, Copy, Debug, PartialEq, Eq, Structural)]
pub enum MountKind {
    /// A directory or file of the host is made visible.
    Bind,
    /// A fresh filesystem of a type that the kernel provides is mounted.
    VirtualFilesystem,
}

/// One thing that is mounted into the child's root.
#[derive(Clone, Debug, PartialEq, Eq)]
pub struct FakeRootMount {
    /// Where the mount appears inside the finished root.
    pub mountpoint: String,
    /// Where the mount is attached while the root is built: the mountpoint
    /// below the base directory.
    pub staging_path: String,
    /// For a bind mount the path on the host, for a virtual filesystem the
    /// name of its type.
    pub source: String,
    /// Whether the mount is made read-only once the root is switched.
    pub readonly: bool,
    pub kind: MountKind,
}

/// A [`FakeRootMount`] as plain values.
pub struct FakeRootMountView {
    pub mountpoint: Seq<char>,
    pub staging_path: Seq<char>,
    pub source: Seq<char>,
    pub readonly: bool,
    pub kind: MountKind,
}

impl View for FakeRootMount {
    type V = FakeRootMountView;

    open spec fn view(&self) -> FakeRootMountView {
        FakeRootMountView {
            mountpoint: self.mountpoint@,
            staging_path: self.staging_path@,
            source: self.source@,
            readonly: self.readonly,
            kind: self.kind,
        }
    }
}

/// Each path of `paths` below `base`: the characters of `base` followed by
/// those of the path.
pub open spec fn staged(base: Seq<char>, paths: Seq<Seq<char>>) -> Seq<Seq<char>> {
    paths.map_values(|p: Seq<char>| base + p)
}

impl ConfigView {
    /// The policy after a private root below `base` is enabled: the base is
    /// set, whatever it was, and a mount namespace is created for the child.
    pub open spec fn with_base(self, base: Seq<char>) -> ConfigView {
        ConfigView {
            namespaces: self.namespaces.insert(Namespace::Mount),
            fake_root_base: Some(base),
            ..self
        }
    }

    /// The policy after `dir` and the directories above it are added to the
    /// directories to create below `base`, outermost first.
    pub open spec fn with_directories(self, base: Seq<char>, dir: Seq<char>) -> ConfigView {
        ConfigView { fake_root_mkdirs: self.fake_root_mkdirs + staged(base, lineage(dir)), ..self }
    }

    /// The policy after the directories above `dst` are added to the
    /// directories to create below the base, outermost first. `dst` itself is
    /// not among them: it is what gets mounted.
    pub open spec fn with_ancestors(self, dst: Seq<char>) -> ConfigView {
        ConfigView {
            fake_root_mkdirs: self.fake_root_mkdirs + staged(
                self.fake_root_base->0,
                ancestors(dst),
            ),
            ..self
        }
    }

    /// The entry that mounts `source` at `mountpoint`, staged below the base
    /// of this policy.
    pub open spec fn entry(
        self,
        source: Seq<char>,
        mountpoint: Seq<char>,
        readonly: bool,
        kind: MountKind,
    ) -> FakeRootMountView {
        FakeRootMountView {
            mountpoint,
            staging_path: self.fake_root_base->0 + mountpoint,
            source,
            readonly,
            kind,
        }
    }

    /// The policy after the directory `src` of the host is registered at
    /// `dst`: the directories above `dst` are added, then the entry.
    pub open spec fn with_mount(self, src: Seq<char>, dst: Seq<char>, readonly: bool) -> ConfigView {
        ConfigView {
            fake_root_mounts: self.fake_root_mounts.push(
                self.entry(src, dst, readonly, MountKind::Bind),
            ),
            ..self.with_ancestors(dst)
        }
    }

    /// The policy after the file or device `src` of the host is registered at
    /// `dst`: as for a directory, and `dst` below the base is added to the
    /// files to create, for the entry to be attached to.
    pub open spec fn with_file_mount(
        self,
        src: Seq<char>,
        dst: Seq<char>,
        readonly: bool,
    ) -> ConfigView {
        ConfigView {
            fake_root_touchs: self.fake_root_touchs.push(self.fake_root_base->0 + dst),
            fake_root_mounts: self.fake_root_mounts.push(
                self.entry(src, dst, readonly, MountKind::Bind),
            ),
            ..self.with_ancestors(dst)
        }
    }

    /// The policy after a fresh filesystem of type `fstype` is registered at
    /// `dst`. Such an entry is never read-only.
    pub open spec fn with_filesystem(self, fstype: Seq<char>, dst: Seq<char>) -> ConfigView {
        ConfigView {
            fake_root_mounts: self.fake_root_mounts.push(
                self.entry(fstype, dst, false, MountKind::VirtualFilesystem),
            ),
            ..self.with_ancestors(dst)
        }
    }
}

/// The builder of a child's isolation policy.
pub struct Command {
    config: Config,
}

impl View for Command {
    type V = ConfigView;

    closed spec fn view(&self) -> ConfigView {
        self.config@
    }
}

impl Command {
    /// A command whose child is isolated from nothing yet.
    pub fn new() -> (r: Command)
        ensures
            r@ == ConfigView::initial(),
    {
        Command { config: Config::default() }
    }

    /// The policy as it stands.
    pub fn config(&self) -> (r: &Config)
        ensures
            r@ == self@,
    {
        &self.config
    }

    /// The base directory of the private root, once it is enabled.
    pub fn fakeroot_base(&self) -> (r: Option<&str>)
        ensures
            match r {
                Some(base) => self@.fake_root_base == Some(base@),
                None => self@.fake_root_base is None,
            },
    {
        match &self.config.fake_root_base {
            Some(base) => Some(base.as_str()),
            None => None,
        }
    }

    /// Roots the child in a private directory tree that is built below
    /// `base`, and gives it a mount namespace of its own.
    ///
    /// The tree is empty until directories, files and filesystems are
    /// registered. `base` names an empty directory, which is created if it is
    /// missing. Enabling again replaces the base; entries that were registered
    /// before keep the staging paths they were given.
    pub fn fakeroot_enable(&mut self, base: &str)
        ensures
            final(self)@ == old(self)@.with_base(base@),
            old(self)@.fake_root_mounts.len() == 0 && old(self)@.fake_root_mkdirs.len() == 0 && old(
                self,
            )@.fake_root_touchs.len() == 0 ==> final(self)@.consistent(),
    {
        self.config.namespaces.insert(Namespace::Mount);
        self.config.fake_root_base = Some(base.to_owned());
    }

    /// Adds `dir` and every directory above it to the directories that are
    /// created below `base`, each one behind the directory above it. A path
    /// without a parent, such as the root, adds nothing.
    fn fakeroot_mkdir(&mut self, base: &str, dir: &str)
        ensures
            final(self)@ == old(self)@.with_directories(base@, dir@),
        decreases dir@.len(),
    {
        match parent(dir) {
            Some(parent_dir) => {
                proof {
                    lemma_parent_is_shorter(dir@);
                }
                self.fakeroot_mkdir(base, parent_dir);
                let ghost above = self@.fake_root_mkdirs;
                let outer_dir = base.to_owned().concat(dir);
                self.config.fake_root_mkdirs.push(outer_dir);
                assert(self@.fake_root_mkdirs =~= above.push(base@ + dir@));
                assert(staged(base@, lineage(dir@)) =~= staged(base@, lineage(parent_dir@)).push(
                    base@ + dir@,
                ));
                assert(self@.fake_root_mkdirs =~= old(self)@.fake_root_mkdirs + staged(
                    base@,
                    lineage(dir@),
                ));
            },
            None => {
                assert(self@.fake_root_mkdirs =~= old(self)@.fake_root_mkdirs + staged(
                    base@,
                    lineage(dir@),
                ));
            },
        }
    }

    /// Adds the directories above `dst` to the directories that are created
    /// below `base`.
    fn fakeroot_mkdir_above(&mut self, base: &str, dst: &str)
        ensures
            final(self)@ == (ConfigView {
                fake_root_mkdirs: old(self)@.fake_root_mkdirs + staged(base@, ancestors(dst@)),
                ..old(self)@
            }),
    {
        match parent(dst) {
            Some(parent_dir) => {
                self.fakeroot_mkdir(base, parent_dir);
            },
            None => {
                assert(self@.fake_root_mkdirs =~= old(self)@.fake_root_mkdirs + staged(
                    base@,
                    ancestors(dst@),
                ));
            },
        }
    }

    /// Makes the directory `src` of the host visible at `dst` inside the
    /// child's root, read-only if `readonly` is set.
    ///
    /// The private root must be enabled first.
    pub fn fakeroot_mount(&mut self, src: &str, dst: &str, readonly: bool)
        requires
            old(self)@.fake_root_base is Some,
        ensures
            final(self)@ == old(self)@.with_mount(src@, dst@, readonly),
            old(self)@.consistent() ==> final(self)@.consistent(),
    {
        proof {
            if old(self)@.consistent() {
                lemma_register_keeps_consistent(
                    old(self)@,
                    Registration::Mount { src: src@, dst: dst@, readonly },
                );
            }
        }
        let base = self.config.fake_root_base.as_ref().expect(
            "fakeroot_enable() must be called first",
        ).clone();
        self.fakeroot_mkdir_above(base.as_str(), dst);
        let entry = FakeRootMount {
            mountpoint: dst.to_owned(),
            staging_path: base.concat(dst),
            source: src.to_owned(),
            readonly,
            kind: MountKind::Bind,
        };
        self.config.fake_root_mounts.push(entry);
        assert(self@.fake_root_mounts =~= old(self)@.with_mount(
            src@,
            dst@,
            readonly,
        ).fake_root_mounts);
    }

    /// Makes the file or device `src` of the host visible at `dst` inside the
    /// child's root, read-only if `readonly` is set. An empty file is created
    /// at `dst` first, because a file can only be mounted over a file.
    ///
    /// The private root must be enabled first.
    pub fn fakeroot_mount_file(&mut self, src: &str, dst: &str, readonly: bool)
        requires
            old(self)@.fake_root_base is Some,
        ensures
            final(self)@ == old(self)@.with_file_mount(src@, dst@, readonly),
            old(self)@.consistent() ==> final(self)@.consistent(),
    {
        proof {
            if old(self)@.consistent() {
                lemma_register_keeps_consistent(
                    old(self)@,
                    Registration::MountFile { src: src@, dst: dst@, readonly },
                );
            }
        }
        let base = self.config.fake_root_base.as_ref().expect(
            "fakeroot_enable() must be called first",
        ).clone();
        self.fakeroot_mkdir_above(base.as_str(), dst);
        self.config.fake_root_touchs.push(base.clone().concat(dst));
        let entry = FakeRootMount {
            mountpoint: dst.to_owned(),
            staging_path: base.concat(dst),
            source: src.to_owned(),
            readonly,
            kind: MountKind::Bind,
        };
        self.config.fake_root_mounts.push(entry);
        assert(self@.fake_root_mounts =~= old(self)@.with_file_mount(
            src@,
            dst@,
            readonly,
        ).fake_root_mounts);
        assert(self@.fake_root_touchs =~= old(self)@.with_file_mount(
            src@,
            dst@,
            readonly,
        ).fake_root_touchs);
    }

    /// Mounts a fresh filesystem of the type `fstype`, such as `tmpfs` or
    /// `proc`, at `dst` inside the child's root. The mount is never made
    /// read-only here.
    ///
    /// The private root must be enabled first.
    pub fn fakeroot_filesystem(&mut self, fstype: &str, dst: &str)
        requires
            old(self)@.fake_root_base is Some,
        ensures
            final(self)@ == old(self)@.with_filesystem(fstype@, dst@),
            old(self)@.consistent() ==> final(self)@.consistent(),
    {
        proof {
            if old(self)@.consistent() {
                lemma_register_keeps_consistent(
                    old(self)@,
                    Registration::Filesystem { fstype: fstype@, dst: dst@ },
                );
            }
        }
        let base = self.config.fake_root_base.as_ref().expect(
            "fakeroot_enable() must be called first",
        ).clone();
        self.fakeroot_mkdir_above(base.as_str(), dst);
        let entry = FakeRootMount {
            mountpoint: dst.to_owned(),
            staging_path: base.concat(dst),
            source: fstype.to_owned(),
            readonly: false,
            kind: MountKind::VirtualFilesystem,
        };
        self.config.fake_root_mounts.push(entry);
        assert(self@.fake_root_mounts =~= old(self)@.with_filesystem(
            fstype@,
            dst@,
        ).fake_root_mounts);
    }
}

} // verus!
