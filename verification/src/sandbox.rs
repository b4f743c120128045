//! The sandbox build: the order of kernel operations that turns a finished
//! policy into the child's root, and what follows from each result.
//!
//! The build performs nothing itself. It names the operation that is due,
//! is told whether the operation succeeded, and moves on. It borrows every
//! path from the policy and allocates nothing, so it can run between `fork`
//! and `exec`.
use crate::config::{Config, ConfigView};
use crate::fakeroot::{FakeRootMount, FakeRootMountView, MountKind};
use vstd::prelude::*;

verus! {

/// Mode of the directories that the build creates.
pub const DIRECTORY_MODE: u32 = 0o777;

/// The flags of a mount operation.
#[derive(Clone, Copy, Debug, PartialEq, Eq, Structural)]
pub struct MountFlags {
    /// Make a subtree visible at another place.
    pub bind: bool,
    /// Apply to the mounts below the target as well.
    pub recursive: bool,
    /// Keep mount and unmount events from spreading to or from other
    /// namespaces.
    pub private: bool,
    /// Change the flags of an existing mount.
    pub remount: bool,
    /// Forbid writing.
    pub readonly: bool,
}

/// The flags with which a file is opened.
#[derive(Clone, Copy, Debug, PartialEq, Eq, Structural)]
pub struct OpenFlags {
    /// Open for reading only.
    pub read_only: bool,
    /// Create the file if it is missing.
    pub create: bool,
    /// Close the descriptor when the process runs another program.
    pub close_on_exec: bool,
}

/// One request to the kernel.
#[derive(Clone, Copy, Debug, PartialEq, Eq)]
pub enum Operation<'a> {
    /// Create the directory `path` with the permission bits `mode`.
    MakeDir { path: &'a str, mode: u32 },
    /// Open `path` with `open_flags` and close the descriptor again at once.
    CreateFile { path: &'a str, open_flags: OpenFlags },
    /// Mount `source`, or a fresh filesystem of type `fstype`, at `target`.
    Mount { source: Option<&'a str>, target: &'a str, fstype: Option<&'a str>, flags: MountFlags },
    /// Make `new_root` the root of the mount namespace and move the old root
    /// to `put_old`.
    PivotRoot { new_root: &'a str, put_old: &'a str },
    /// Unmount `target`; with `detach`, lazily.
    Unmount { target: &'a str, detach: bool },
    /// Change the working directory to `path`.
    ChangeDir { path: &'a str },
    /// Change the root directory of the process to `path`.
    ChangeRoot { path: &'a str },
}

/// An [`Operation`] as plain values.
pub enum OperationView {
    MakeDir { path: Seq<char>, mode: u32 },
    CreateFile { path: Seq<char>, open_flags: OpenFlags },
    Mount { source: Option<Seq<char>>, target: Seq<char>, fstype: Option<Seq<char>>, flags: MountFlags },
    PivotRoot { new_root: Seq<char>, put_old: Seq<char> },
    Unmount { target: Seq<char>, detach: bool },
    ChangeDir { path: Seq<char> },
    ChangeRoot { path: Seq<char> },
}

/// The characters of an optional string.
pub open spec fn optional_path(path: Option<&str>) -> Option<Seq<char>> {
    match path {
        Some(p) => Some(p@),
        None => None,
    }
}

impl<'a> View for Operation<'a> {
    type V = OperationView;

    open spec fn view(&self) -> OperationView {
        match *self {
            Operation::MakeDir { path, mode } => OperationView::MakeDir { path: path@, mode },
            Operation::CreateFile { path, open_flags } => OperationView::CreateFile {
                path: path@,
                open_flags,
            },
            Operation::Mount { source, target, fstype, flags } => OperationView::Mount {
                source: optional_path(source),
                target: target@,
                fstype: optional_path(fstype),
                flags,
            },
            Operation::PivotRoot { new_root, put_old } => OperationView::PivotRoot {
                new_root: new_root@,
                put_old: put_old@,
            },
            Operation::Unmount { target, detach } => OperationView::Unmount {
                target: target@,
                detach,
            },
            Operation::ChangeDir { path } => OperationView::ChangeDir { path: path@ },
            Operation::ChangeRoot { path } => OperationView::ChangeRoot { path: path@ },
        }
    }
}

/// The steps of a build, in their order.
#[derive(Clone, Copy, Debug, PartialEq, Eq, Structural)]
pub enum BuildStep {
    /// Create the base directory and make the whole mount tree private.
    IsolatePropagation,
    /// Mount an in-memory filesystem at the base.
    StageFilesystem,
    /// Create the registered directories.
    MaterializeDirectories,
    /// Create the registered placeholder files.
    MaterializeFiles,
    /// Attach every mount entry at its staging path.
    AttachMounts,
    /// Make the base the root of the process.
    SwitchRoot,
    /// Make the root, and every entry that asks for it, read-only.
    HardenReadOnly,
}

/// How a build ended.
#[derive(Clone, Copy, Debug, PartialEq, Eq, Structural)]
pub enum BuildOutcome {
    /// Every step is done: the child may go on.
    Succeeded,
    /// The named step failed: the child must not run the target program.
    Failed(BuildStep),
}

/// Where a build stands: the operation that is due, or the outcome.
#[derive(Clone, Copy, Debug, PartialEq, Eq, Structural)]
pub enum Position {
    /// Create the base directory.
    CreateBase,
    /// Make the existing mount tree private, recursively.
    MakeTreePrivate,
    /// Mount the in-memory filesystem at the base.
    MountStaging,
    /// Create the directory with this index.
    MakeDirectory(usize),
    /// Create the placeholder file with this index.
    MakeFile(usize),
    /// Attach the mount entry with this index.
    AttachMount(usize),
    /// Pivot the root to the base.
    PivotRoot,
    /// After a pivot: detach the old root.
    DetachOldRoot,
    /// Without pivot: change the working directory to the base.
    EnterBase,
    /// Without pivot: bind the working directory over the root.
    BindOverRoot,
    /// Without pivot: change the root to the working directory.
    ChangeRoot,
    /// Remount the new root read-only.
    ProtectRoot,
    /// Remount the read-only mount entry with this index read-only.
    ProtectMount(usize),
    /// Nothing is left to do.
    Finished(BuildOutcome),
}

/// Whether the lists of `plan` have lengths that a machine can hold and its
/// base is set.
pub open spec fn buildable(plan: ConfigView) -> bool {
    &&& plan.fake_root_base is Some
    &&& plan.fake_root_mkdirs.len() <= usize::MAX
    &&& plan.fake_root_touchs.len() <= usize::MAX
    &&& plan.fake_root_mounts.len() <= usize::MAX
}

/// The first position at or after directory `i`.
pub open spec fn directories_from(plan: ConfigView, i: int) -> Position {
    if 0 <= i < plan.fake_root_mkdirs.len() {
        Position::MakeDirectory(i as usize)
    } else {
        files_from(plan, 0)
    }
}

/// The first position at or after placeholder file `i`.
pub open spec fn files_from(plan: ConfigView, i: int) -> Position {
    if 0 <= i < plan.fake_root_touchs.len() {
        Position::MakeFile(i as usize)
    } else {
        mounts_from(plan, 0)
    }
}

/// The first position at or after mount entry `i`.
pub open spec fn mounts_from(plan: ConfigView, i: int) -> Position {
    if 0 <= i < plan.fake_root_mounts.len() {
        Position::AttachMount(i as usize)
    } else {
        Position::PivotRoot
    }
}

/// Index of the first read-only entry of `mounts` at or after `i`, or the
/// length of `mounts` where there is none.
pub open spec fn next_readonly(mounts: Seq<FakeRootMountView>, i: int) -> int
    decreases mounts.len() - i,
{
    if i < 0 || i >= mounts.len() {
        mounts.len() as int
    } else if mounts[i].readonly {
        i
    } else {
        next_readonly(mounts, i + 1)
    }
}

/// The first position at or after the protection of mount entry `i`.
pub open spec fn protection_from(plan: ConfigView, i: int) -> Position {
    let j = next_readonly(plan.fake_root_mounts, i);
    if j < plan.fake_root_mounts.len() {
        Position::ProtectMount(j as usize)
    } else {
        Position::Finished(BuildOutcome::Succeeded)
    }
}

/// The flags with which a placeholder file is made: an empty file that is
/// only there to be mounted over.
pub open spec fn placeholder_flags() -> OpenFlags {
    OpenFlags { read_only: true, create: true, close_on_exec: true }
}

impl MountFlags {
    /// No flag at all: the mount of a fresh filesystem.
    pub open spec fn plain() -> MountFlags {
        MountFlags { bind: false, recursive: false, private: false, remount: false, readonly: false }
    }

    /// The flags that make a whole mount tree private.
    pub open spec fn private_tree() -> MountFlags {
        MountFlags { bind: false, recursive: true, private: true, remount: false, readonly: false }
    }

    /// The flags of a bind mount of a whole tree that stays private. The
    /// mount is writable: the kernel does not take a bind mount that is
    /// read-only from the start.
    pub open spec fn bind_tree() -> MountFlags {
        MountFlags { bind: true, recursive: true, private: true, remount: false, readonly: false }
    }

    /// The flags of a bind mount of one directory.
    pub open spec fn bind_only() -> MountFlags {
        MountFlags { bind: true, recursive: false, private: false, remount: false, readonly: false }
    }

    /// The flags of the remount that makes an existing mount read-only.
    pub open spec fn readonly_remount() -> MountFlags {
        MountFlags { bind: true, recursive: false, private: false, remount: true, readonly: true }
    }
}

impl Position {
    /// Whether the position names an entry that `plan` holds.
    pub open spec fn valid_for(self, plan: ConfigView) -> bool {
        match self {
            Position::MakeDirectory(i) => i < plan.fake_root_mkdirs.len(),
            Position::MakeFile(i) => i < plan.fake_root_touchs.len(),
            Position::AttachMount(i) => i < plan.fake_root_mounts.len(),
            Position::ProtectMount(i) => i < plan.fake_root_mounts.len()
                && plan.fake_root_mounts[i as int].readonly,
            _ => true,
        }
    }

    /// The step that the position belongs to; none once the build has
    /// finished.
    pub open spec fn step(self) -> Option<BuildStep> {
        match self {
            Position::CreateBase | Position::MakeTreePrivate => Some(BuildStep::IsolatePropagation),
            Position::MountStaging => Some(BuildStep::StageFilesystem),
            Position::MakeDirectory(_) => Some(BuildStep::MaterializeDirectories),
            Position::MakeFile(_) => Some(BuildStep::MaterializeFiles),
            Position::AttachMount(_) => Some(BuildStep::AttachMounts),
            Position::PivotRoot
            | Position::DetachOldRoot
            | Position::EnterBase
            | Position::BindOverRoot
            | Position::ChangeRoot => Some(BuildStep::SwitchRoot),
            Position::ProtectRoot | Position::ProtectMount(_) => Some(BuildStep::HardenReadOnly),
            Position::Finished(_) => None,
        }
    }

    /// Whether a failure of the operation at this position ends the build.
    pub open spec fn fatal(self) -> bool {
        match self {
            Position::MakeTreePrivate
            | Position::MountStaging
            | Position::AttachMount(_)
            | Position::ChangeRoot
            | Position::ProtectMount(_) => true,
            _ => false,
        }
    }

    /// The operation that is due at this position; none once the build has
    /// finished.
    pub open spec fn operation(self, plan: ConfigView) -> Option<OperationView> {
        let base = plan.fake_root_base->0;
        match self {
            Position::CreateBase => Some(OperationView::MakeDir { path: base, mode: DIRECTORY_MODE }),
            Position::MakeTreePrivate => Some(
                OperationView::Mount {
                    source: Some("/"@),
                    target: "/"@,
                    fstype: None,
                    flags: MountFlags::private_tree(),
                },
            ),
            Position::MountStaging => Some(
                OperationView::Mount {
                    source: None,
                    target: base,
                    fstype: Some("tmpfs"@),
                    flags: MountFlags::plain(),
                },
            ),
            Position::MakeDirectory(i) => Some(
                OperationView::MakeDir { path: plan.fake_root_mkdirs[i as int], mode: DIRECTORY_MODE },
            ),
            Position::MakeFile(i) => Some(
                OperationView::CreateFile {
                    path: plan.fake_root_touchs[i as int],
                    open_flags: placeholder_flags(),
                },
            ),
            Position::AttachMount(i) => {
                let entry = plan.fake_root_mounts[i as int];
                match entry.kind {
                    MountKind::VirtualFilesystem => Some(
                        OperationView::Mount {
                            source: None,
                            target: entry.staging_path,
                            fstype: Some(entry.source),
                            flags: MountFlags::plain(),
                        },
                    ),
                    MountKind::Bind => Some(
                        OperationView::Mount {
                            source: Some(entry.source),
                            target: entry.staging_path,
                            fstype: None,
                            flags: MountFlags::bind_tree(),
                        },
                    ),
                }
            },
            Position::PivotRoot => Some(OperationView::PivotRoot { new_root: base, put_old: base }),
            Position::DetachOldRoot => Some(OperationView::Unmount { target: "/"@, detach: true }),
            Position::EnterBase => Some(OperationView::ChangeDir { path: base }),
            Position::BindOverRoot => Some(
                OperationView::Mount {
                    source: Some("."@),
                    target: "/"@,
                    fstype: None,
                    flags: MountFlags::bind_only(),
                },
            ),
            Position::ChangeRoot => Some(OperationView::ChangeRoot { path: "."@ }),
            Position::ProtectRoot => Some(
                OperationView::Mount {
                    source: Some("/"@),
                    target: "/"@,
                    fstype: None,
                    flags: MountFlags::readonly_remount(),
                },
            ),
            Position::ProtectMount(i) => {
                let entry = plan.fake_root_mounts[i as int];
                Some(
                    OperationView::Mount {
                        source: Some(entry.mountpoint),
                        target: entry.mountpoint,
                        fstype: None,
                        flags: MountFlags::readonly_remount(),
                    },
                )
            },
            Position::Finished(_) => None,
        }
    }

    /// The position that follows once the operation at this position has
    /// succeeded or failed.
    ///
    /// A failed operation ends the build where the position is fatal. A
    /// failed pivot leads to the older way of changing the root. Every other
    /// failure is passed over. Nothing is tried twice, and a finished build
    /// stays as it is.
    pub open spec fn next(self, plan: ConfigView, succeeded: bool) -> Position {
        if self.fatal() && !succeeded {
            Position::Finished(BuildOutcome::Failed(self.step()->0))
        } else {
            match self {
                Position::CreateBase => Position::MakeTreePrivate,
                Position::MakeTreePrivate => Position::MountStaging,
                Position::MountStaging => directories_from(plan, 0),
                Position::MakeDirectory(i) => directories_from(plan, i + 1),
                Position::MakeFile(i) => files_from(plan, i + 1),
                Position::AttachMount(i) => mounts_from(plan, i + 1),
                Position::PivotRoot => if succeeded {
                    Position::DetachOldRoot
                } else {
                    Position::EnterBase
                },
                Position::DetachOldRoot => Position::ProtectRoot,
                Position::EnterBase => Position::BindOverRoot,
                Position::BindOverRoot => Position::ChangeRoot,
                Position::ChangeRoot => Position::ProtectRoot,
                Position::ProtectRoot => protection_from(plan, 0),
                Position::ProtectMount(i) => protection_from(plan, i + 1),
                Position::Finished(outcome) => Position::Finished(outcome),
            }
        }
    }
}

/// A [`SandboxBuild`] as plain values.
pub struct SandboxBuildView {
    /// The policy that is being built.
    pub plan: ConfigView,
    /// Where the build stands.
    pub position: Position,
}

/// The build of one child's root from a finished policy.
///
/// The caller asks for the [`operation`](SandboxBuild::operation) that is
/// due, performs it, and reports the result with
/// [`advance`](SandboxBuild::advance), until no operation is left. The
/// [`outcome`](SandboxBuild::outcome) then says whether the child may go on.
pub struct SandboxBuild<'a> {
    base: &'a str,
    config: &'a Config,
    position: Position,
}

/// The lists of a policy in memory have lengths that a machine can hold.
proof fn lemma_lists_fit(config: &Config)
    ensures
        config@.fake_root_mkdirs.len() <= usize::MAX,
        config@.fake_root_touchs.len() <= usize::MAX,
        config@.fake_root_mounts.len() <= usize::MAX,
{
    assert(config.fake_root_mkdirs.len() == config.fake_root_mkdirs@.len());
    assert(config.fake_root_touchs.len() == config.fake_root_touchs@.len());
    assert(config.fake_root_mounts.len() == config.fake_root_mounts@.len());
}

impl<'a> View for SandboxBuild<'a> {
    type V = SandboxBuildView;

    closed spec fn view(&self) -> SandboxBuildView {
        SandboxBuildView { plan: self.config@, position: self.position }
    }
}

fn directories_at(config: &Config, i: usize) -> (r: Position)
    ensures
        r == directories_from(config@, i as int),
        r.valid_for(config@),
{
    if i < config.fake_root_mkdirs.len() {
        Position::MakeDirectory(i)
    } else {
        files_at(config, 0)
    }
}

fn files_at(config: &Config, i: usize) -> (r: Position)
    ensures
        r == files_from(config@, i as int),
        r.valid_for(config@),
{
    if i < config.fake_root_touchs.len() {
        Position::MakeFile(i)
    } else {
        mounts_at(config, 0)
    }
}

fn mounts_at(config: &Config, i: usize) -> (r: Position)
    ensures
        r == mounts_from(config@, i as int),
        r.valid_for(config@),
{
    if i < config.fake_root_mounts.len() {
        Position::AttachMount(i)
    } else {
        Position::PivotRoot
    }
}

fn protection_at(config: &Config, i: usize) -> (r: Position)
    ensures
        r == protection_from(config@, i as int),
        r.valid_for(config@),
{
    let mut j: usize = i;
    while j < config.fake_root_mounts.len()
        invariant
            next_readonly(config@.fake_root_mounts, j as int) == next_readonly(
                config@.fake_root_mounts,
                i as int,
            ),
        decreases config.fake_root_mounts.len() - j,
    {
        if config.fake_root_mounts[j].readonly {
            return Position::ProtectMount(j);
        }
        j = j + 1;
    }
    Position::Finished(BuildOutcome::Succeeded)
}

impl<'a> SandboxBuild<'a> {
    #[verifier::type_invariant]
    spec fn well_formed(self) -> bool {
        &&& self.config@.fake_root_base == Some(self.base@)
        &&& self.position.valid_for(self.config@)
    }

    /// Begins the build of `config`, if a private root is enabled in it. The
    /// lists of a policy without a base directory mean nothing, and no build
    /// is made from them.
    pub fn new(config: &'a Config) -> (r: Option<SandboxBuild<'a>>)
        ensures
            match r {
                Some(build) => config@.fake_root_base is Some && build@ == (SandboxBuildView {
                    plan: config@,
                    position: Position::CreateBase,
                }),
                None => config@.fake_root_base is None,
            },
    {
        match &config.fake_root_base {
            Some(base) => Some(
                SandboxBuild { base: base.as_str(), config, position: Position::CreateBase },
            ),
            None => None,
        }
    }

    /// Where the build stands.
    pub fn position(&self) -> (r: Position)
        ensures
            r == self@.position,
            r.valid_for(self@.plan),
            buildable(self@.plan),
    {
        proof {
            use_type_invariant(self);
            lemma_lists_fit(self.config);
        }
        self.position
    }

    /// The step that the build is in; none once it has finished.
    pub fn step(&self) -> (r: Option<BuildStep>)
        ensures
            r == self@.position.step(),
    {
        match self.position {
            Position::CreateBase | Position::MakeTreePrivate => Some(BuildStep::IsolatePropagation),
            Position::MountStaging => Some(BuildStep::StageFilesystem),
            Position::MakeDirectory(_) => Some(BuildStep::MaterializeDirectories),
            Position::MakeFile(_) => Some(BuildStep::MaterializeFiles),
            Position::AttachMount(_) => Some(BuildStep::AttachMounts),
            Position::PivotRoot
            | Position::DetachOldRoot
            | Position::EnterBase
            | Position::BindOverRoot
            | Position::ChangeRoot => Some(BuildStep::SwitchRoot),
            Position::ProtectRoot | Position::ProtectMount(_) => Some(BuildStep::HardenReadOnly),
            Position::Finished(_) => None,
        }
    }

    /// How the build ended; none while an operation is due.
    pub fn outcome(&self) -> (r: Option<BuildOutcome>)
        ensures
            r == match self@.position {
                Position::Finished(outcome) => Some(outcome),
                _ => None,
            },
    {
        match self.position {
            Position::Finished(outcome) => Some(outcome),
            _ => None,
        }
    }

    /// The operation that is due; none once the build has finished.
    pub fn operation(&self) -> (r: Option<Operation<'a>>)
        ensures
            match r {
                Some(op) => self@.position.operation(self@.plan) == Some(op@),
                None => self@.position.operation(self@.plan) is None,
            },
    {
        proof {
            use_type_invariant(self);
        }
        let config: &'a Config = self.config;
        let base: &'a str = self.base;
        let plain = MountFlags {
            bind: false,
            recursive: false,
            private: false,
            remount: false,
            readonly: false,
        };
        let protect = MountFlags {
            bind: true,
            recursive: false,
            private: false,
            remount: true,
            readonly: true,
        };
        match self.position {
            Position::CreateBase => Some(Operation::MakeDir { path: base, mode: DIRECTORY_MODE }),
            Position::MakeTreePrivate => Some(
                Operation::Mount {
                    source: Some("/"),
                    target: "/",
                    fstype: None,
                    flags: MountFlags {
                        bind: false,
                        recursive: true,
                        private: true,
                        remount: false,
                        readonly: false,
                    },
                },
            ),
            Position::MountStaging => Some(
                Operation::Mount { source: None, target: base, fstype: Some("tmpfs"), flags: plain },
            ),
            Position::MakeDirectory(i) => Some(
                Operation::MakeDir {
                    path: config.fake_root_mkdirs[i].as_str(),
                    mode: DIRECTORY_MODE,
                },
            ),
            Position::MakeFile(i) => Some(
                Operation::CreateFile {
                    path: config.fake_root_touchs[i].as_str(),
                    open_flags: OpenFlags { read_only: true, create: true, close_on_exec: true },
                },
            ),
            Position::AttachMount(i) => {
                let entry: &'a FakeRootMount = &config.fake_root_mounts[i];
                match entry.kind {
                    MountKind::VirtualFilesystem => Some(
                        Operation::Mount {
                            source: None,
                            target: entry.staging_path.as_str(),
                            fstype: Some(entry.source.as_str()),
                            flags: plain,
                        },
                    ),
                    MountKind::Bind => Some(
                        Operation::Mount {
                            source: Some(entry.source.as_str()),
                            target: entry.staging_path.as_str(),
                            fstype: None,
                            flags: MountFlags {
                                bind: true,
                                recursive: true,
                                private: true,
                                remount: false,
                                readonly: false,
                            },
                        },
                    ),
                }
            },
            Position::PivotRoot => Some(Operation::PivotRoot { new_root: base, put_old: base }),
            Position::DetachOldRoot => Some(Operation::Unmount { target: "/", detach: true }),
            Position::EnterBase => Some(Operation::ChangeDir { path: base }),
            Position::BindOverRoot => Some(
                Operation::Mount {
                    source: Some("."),
                    target: "/",
                    fstype: None,
                    flags: MountFlags {
                        bind: true,
                        recursive: false,
                        private: false,
                        remount: false,
                        readonly: false,
                    },
                },
            ),
            Position::ChangeRoot => Some(Operation::ChangeRoot { path: "." }),
            Position::ProtectRoot => Some(
                Operation::Mount { source: Some("/"), target: "/", fstype: None, flags: protect },
            ),
            Position::ProtectMount(i) => {
                let entry: &'a FakeRootMount = &config.fake_root_mounts[i];
                Some(
                    Operation::Mount {
                        source: Some(entry.mountpoint.as_str()),
                        target: entry.mountpoint.as_str(),
                        fstype: None,
                        flags: protect,
                    },
                )
            },
            Position::Finished(_) => None,
        }
    }

    /// Takes note of the result of the operation that was due and moves to
    /// the next position. On a finished build it changes nothing.
    pub fn advance(&mut self, succeeded: bool)
        ensures
            final(self)@ == (SandboxBuildView {
                plan: old(self)@.plan,
                position: old(self)@.position.next(old(self)@.plan, succeeded),
            }),
    {
        proof {
            use_type_invariant(&*self);
            lemma_lists_fit(self.config);
        }
        let config: &'a Config = self.config;
        let next = match self.position {
            Position::CreateBase => Position::MakeTreePrivate,
            Position::MakeTreePrivate => if succeeded {
                Position::MountStaging
            } else {
                Position::Finished(BuildOutcome::Failed(BuildStep::IsolatePropagation))
            },
            Position::MountStaging => if succeeded {
                directories_at(config, 0)
            } else {
                Position::Finished(BuildOutcome::Failed(BuildStep::StageFilesystem))
            },
            Position::MakeDirectory(i) => directories_at(config, i + 1),
            Position::MakeFile(i) => files_at(config, i + 1),
            Position::AttachMount(i) => if succeeded {
                mounts_at(config, i + 1)
            } else {
                Position::Finished(BuildOutcome::Failed(BuildStep::AttachMounts))
            },
            Position::PivotRoot => if succeeded {
                Position::DetachOldRoot
            } else {
                Position::EnterBase
            },
            Position::DetachOldRoot => Position::ProtectRoot,
            Position::EnterBase => Position::BindOverRoot,
            Position::BindOverRoot => Position::ChangeRoot,
            Position::ChangeRoot => if succeeded {
                Position::ProtectRoot
            } else {
                Position::Finished(BuildOutcome::Failed(BuildStep::SwitchRoot))
            },
            Position::ProtectRoot => protection_at(config, 0),
            Position::ProtectMount(i) => if succeeded {
                protection_at(config, i + 1)
            } else {
                Position::Finished(BuildOutcome::Failed(BuildStep::HardenReadOnly))
            },
            Position::Finished(outcome) => Position::Finished(outcome),
        };
        self.position = next;
    }
}

} // verus!
