//! What holds of a policy however it was registered.
//!
//! A policy is consistent when its lists fit together: every entry is staged
//! below the base, every directory above a mountpoint is created, and none
//! before the directory above it. Enabling the private root once makes a
//! policy consistent, and every registration keeps it so.
use crate::config::ConfigView;
use crate::fakeroot::MountKind;
use crate::namespace::Namespace;
use crate::path::{ancestors, lemma_ancestors_are_closed};
use vstd::prelude::*;

verus! {

/// One call that registers something in the child's root.
pub enum Registration {
    /// A directory of the host, see [`crate::fakeroot::Command::fakeroot_mount`].
    Mount { src: Seq<char>, dst: Seq<char>, readonly: bool },
    /// A file or device of the host, see [`crate::fakeroot::Command::fakeroot_mount_file`].
    MountFile { src: Seq<char>, dst: Seq<char>, readonly: bool },
    /// A fresh filesystem, see [`crate::fakeroot::Command::fakeroot_filesystem`].
    Filesystem { fstype: Seq<char>, dst: Seq<char> },
}

impl Registration {
    /// Where the registered thing appears inside the child's root.
    pub open spec fn destination(self) -> Seq<char> {
        match self {
            Registration::Mount { dst, .. } => dst,
            Registration::MountFile { dst, .. } => dst,
            Registration::Filesystem { dst, .. } => dst,
        }
    }
}

impl ConfigView {
    /// The policy after the call `call`.
    pub open spec fn register(self, call: Registration) -> ConfigView {
        match call {
            Registration::Mount { src, dst, readonly } => self.with_mount(src, dst, readonly),
            Registration::MountFile { src, dst, readonly } => self.with_file_mount(
                src,
                dst,
                readonly,
            ),
            Registration::Filesystem { fstype, dst } => self.with_filesystem(fstype, dst),
        }
    }

    /// The policy after the calls `calls`, made in this order.
    pub open spec fn register_all(self, calls: Seq<Registration>) -> ConfigView
        decreases calls.len(),
    {
        if calls.len() == 0 {
            self
        } else {
            self.register_all(calls.drop_last()).register(calls.last())
        }
    }

    /// The part of a staged path that lies below the base: the path as the
    /// child will see it.
    pub open spec fn inside(self, staged_path: Seq<char>) -> Seq<char> {
        staged_path.skip(self.fake_root_base->0.len() as int)
    }

    /// Whether `path` is among the first `limit` directories to create.
    pub open spec fn creates_before(self, limit: int, path: Seq<char>) -> bool {
        exists|j: int|
            0 <= j < limit && j < self.fake_root_mkdirs.len() && #[trigger] self.fake_root_mkdirs[j]
                == path
    }

    /// Whether every directory to create lies below the base.
    pub open spec fn directories_staged(self) -> bool {
        forall|i: int|
            0 <= i < self.fake_root_mkdirs.len() ==> self.fake_root_base->0.is_prefix_of(
                #[trigger] self.fake_root_mkdirs[i],
            )
    }

    /// Whether every directory to create comes behind all the directories
    /// above it, so that none is created before its parent.
    pub open spec fn directories_in_order(self) -> bool {
        forall|i: int, k: int|
            0 <= i < self.fake_root_mkdirs.len() && 0 <= k < ancestors(
                self.inside(self.fake_root_mkdirs[i]),
            ).len() ==> self.creates_before(
                i,
                self.fake_root_base->0 + #[trigger] ancestors(
                    self.inside(self.fake_root_mkdirs[i]),
                )[k],
            )
    }

    /// Whether every directory above the mountpoint of an entry is among the
    /// directories to create.
    pub open spec fn mountpoints_covered(self) -> bool {
        forall|i: int, k: int|
            0 <= i < self.fake_root_mounts.len() && 0 <= k < ancestors(
                self.fake_root_mounts[i].mountpoint,
            ).len() ==> self.creates_before(
                self.fake_root_mkdirs.len() as int,
                self.fake_root_base->0 + #[trigger] ancestors(
                    self.fake_root_mounts[i].mountpoint,
                )[k],
            )
    }

    /// Whether every entry is staged at its mountpoint below the base.
    pub open spec fn entries_staged(self) -> bool {
        forall|i: int|
            0 <= i < self.fake_root_mounts.len() ==> (#[trigger] self.fake_root_mounts[i]).staging_path
                == self.fake_root_base->0 + self.fake_root_mounts[i].mountpoint
    }

    /// Whether no virtual filesystem is read-only.
    pub open spec fn filesystems_writable(self) -> bool {
        forall|i: int|
            0 <= i < self.fake_root_mounts.len() && (#[trigger] self.fake_root_mounts[i]).kind
                == MountKind::VirtualFilesystem ==> !self.fake_root_mounts[i].readonly
    }

    /// Whether every placeholder file is the staging path of a bind entry.
    pub open spec fn placeholders_mounted(self) -> bool {
        forall|f: int|
            0 <= f < self.fake_root_touchs.len() ==> self.mounts_over(
                #[trigger] self.fake_root_touchs[f],
            )
    }

    /// Whether a bind entry is staged at `path`.
    pub open spec fn mounts_over(self, path: Seq<char>) -> bool {
        exists|i: int|
            0 <= i < self.fake_root_mounts.len() && (#[trigger] self.fake_root_mounts[i]).staging_path
                == path && self.fake_root_mounts[i].kind == MountKind::Bind
    }

    /// What holds of a policy whose private root was enabled once, before
    /// anything was registered.
    pub open spec fn consistent(self) -> bool {
        &&& self.fake_root_base is Some
        &&& self.namespaces.contains(Namespace::Mount)
        &&& self.directories_staged()
        &&& self.directories_in_order()
        &&& self.mountpoints_covered()
        &&& self.entries_staged()
        &&& self.filesystems_writable()
        &&& self.placeholders_mounted()
    }
}

/// Adding the directories above a path keeps every directory behind the
/// directories above it, and covers the path.
proof fn lemma_with_ancestors(plan: ConfigView, dst: Seq<char>)
    requires
        plan.fake_root_base is Some,
        plan.directories_staged(),
        plan.directories_in_order(),
        plan.mountpoints_covered(),
    ensures
        plan.with_ancestors(dst).directories_staged(),
        plan.with_ancestors(dst).directories_in_order(),
        plan.with_ancestors(dst).mountpoints_covered(),
        forall|k: int|
            0 <= k < ancestors(dst).len() ==> plan.with_ancestors(dst).creates_before(
                plan.with_ancestors(dst).fake_root_mkdirs.len() as int,
                plan.fake_root_base->0 + #[trigger] ancestors(dst)[k],
            ),
{
    let base = plan.fake_root_base->0;
    let after = plan.with_ancestors(dst);
    let above = ancestors(dst);
    let old_len = plan.fake_root_mkdirs.len() as int;
    lemma_ancestors_are_closed(dst);
    assert forall|i: int| 0 <= i < after.fake_root_mkdirs.len() implies base.is_prefix_of(
        #[trigger] after.fake_root_mkdirs[i],
    ) by {
        if i < old_len {
            assert(after.fake_root_mkdirs[i] == plan.fake_root_mkdirs[i]);
        } else {
            assert(after.fake_root_mkdirs[i] == base + above[i - old_len]);
        }
    }
    assert forall|k: int| 0 <= k < above.len() implies after.creates_before(
        after.fake_root_mkdirs.len() as int,
        base + #[trigger] above[k],
    ) by {
        assert(after.fake_root_mkdirs[old_len + k] == base + above[k]);
    }
    assert forall|i: int, k: int|
        0 <= i < after.fake_root_mkdirs.len() && 0 <= k < ancestors(
            after.inside(after.fake_root_mkdirs[i]),
        ).len() implies after.creates_before(
        i,
        base + #[trigger] ancestors(after.inside(after.fake_root_mkdirs[i]))[k],
    ) by {
        if i < old_len {
            assert(after.fake_root_mkdirs[i] == plan.fake_root_mkdirs[i]);
            let wanted = base + ancestors(plan.inside(plan.fake_root_mkdirs[i]))[k];
            assert(plan.creates_before(i, wanted));
            let j = choose|j: int|
                0 <= j < i && j < plan.fake_root_mkdirs.len() && #[trigger] plan.fake_root_mkdirs[j]
                    == wanted;
            assert(after.fake_root_mkdirs[j] == wanted);
        } else {
            let m = i - old_len;
            assert(after.fake_root_mkdirs[i] == base + above[m]);
            assert(after.inside(base + above[m]) =~= above[m]);
            assert(ancestors(above[m]) == above.take(m));
            assert(after.fake_root_mkdirs[old_len + k] == base + above[k]);
        }
    }
    assert forall|i: int, k: int|
        0 <= i < after.fake_root_mounts.len() && 0 <= k < ancestors(
            after.fake_root_mounts[i].mountpoint,
        ).len() implies after.creates_before(
        after.fake_root_mkdirs.len() as int,
        base + #[trigger] ancestors(after.fake_root_mounts[i].mountpoint)[k],
    ) by {
        let wanted = base + ancestors(plan.fake_root_mounts[i].mountpoint)[k];
        assert(plan.creates_before(old_len, wanted));
        let j = choose|j: int|
            0 <= j < old_len && j < plan.fake_root_mkdirs.len() && #[trigger] plan.fake_root_mkdirs[j]
                == wanted;
        assert(after.fake_root_mkdirs[j] == wanted);
    }
}

/// A registration keeps a policy consistent, and the directories above its
/// destination are among the directories to create afterwards.
pub proof fn lemma_register_keeps_consistent(plan: ConfigView, call: Registration)
    requires
        plan.consistent(),
    ensures
        plan.register(call).consistent(),
        plan.register(call).fake_root_base == plan.fake_root_base,
        plan.register(call).fake_root_mounts.len() == plan.fake_root_mounts.len() + 1,
        plan.register(call).fake_root_mounts.last().mountpoint == call.destination(),
        plan.register(call).fake_root_mounts.drop_last() == plan.fake_root_mounts,
{
    let base = plan.fake_root_base->0;
    let dst = call.destination();
    let middle = plan.with_ancestors(dst);
    let after = plan.register(call);
    lemma_with_ancestors(plan, dst);
    assert(after.fake_root_mkdirs == middle.fake_root_mkdirs);
    assert(after.fake_root_mounts.drop_last() =~= plan.fake_root_mounts);
    let added = after.fake_root_mounts.last();
    assert(added.staging_path == base + dst);
    assert forall|i: int, k: int|
        0 <= i < after.fake_root_mounts.len() && 0 <= k < ancestors(
            after.fake_root_mounts[i].mountpoint,
        ).len() implies after.creates_before(
        after.fake_root_mkdirs.len() as int,
        base + #[trigger] ancestors(after.fake_root_mounts[i].mountpoint)[k],
    ) by {
        let wanted = base + ancestors(after.fake_root_mounts[i].mountpoint)[k];
        if i < plan.fake_root_mounts.len() {
            assert(after.fake_root_mounts[i] == middle.fake_root_mounts[i]);
            assert(middle.creates_before(middle.fake_root_mkdirs.len() as int, wanted));
        } else {
            assert(after.fake_root_mounts[i].mountpoint == dst);
            assert(middle.creates_before(middle.fake_root_mkdirs.len() as int, wanted));
        }
        let j = choose|j: int|
            0 <= j < middle.fake_root_mkdirs.len() && #[trigger] middle.fake_root_mkdirs[j]
                == wanted;
        assert(after.fake_root_mkdirs[j] == wanted);
    }
    assert forall|i: int, k: int|
        0 <= i < after.fake_root_mkdirs.len() && 0 <= k < ancestors(
            after.inside(after.fake_root_mkdirs[i]),
        ).len() implies after.creates_before(
        i,
        base + #[trigger] ancestors(after.inside(after.fake_root_mkdirs[i]))[k],
    ) by {
        let wanted = base + ancestors(middle.inside(middle.fake_root_mkdirs[i]))[k];
        assert(middle.creates_before(i, wanted));
        let j = choose|j: int|
            0 <= j < i && j < middle.fake_root_mkdirs.len() && #[trigger] middle.fake_root_mkdirs[j]
                == wanted;
        assert(after.fake_root_mkdirs[j] == wanted);
    }
    assert forall|f: int| 0 <= f < after.fake_root_touchs.len() implies after.mounts_over(
        #[trigger] after.fake_root_touchs[f],
    ) by {
        if f < plan.fake_root_touchs.len() {
            assert(after.fake_root_touchs[f] == plan.fake_root_touchs[f]);
            assert(plan.mounts_over(plan.fake_root_touchs[f]));
            let i = choose|i: int|
                0 <= i < plan.fake_root_mounts.len() && (#[trigger] plan.fake_root_mounts[i]).staging_path
                    == plan.fake_root_touchs[f] && plan.fake_root_mounts[i].kind == MountKind::Bind;
            assert(after.fake_root_mounts[i] == plan.fake_root_mounts[i]);
        } else {
            assert(after.fake_root_mounts[plan.fake_root_mounts.len() as int] == added);
        }
    }
}

/// Any number of registrations keep a policy consistent. Each of them adds
/// one entry, in the order of the calls, at the destination of its call.
pub proof fn lemma_register_all_keeps_consistent(plan: ConfigView, calls: Seq<Registration>)
    requires
        plan.consistent(),
    ensures
        plan.register_all(calls).consistent(),
        plan.register_all(calls).fake_root_base == plan.fake_root_base,
        plan.register_all(calls).fake_root_mounts.len() == plan.fake_root_mounts.len()
            + calls.len(),
        forall|n: int|
            0 <= n < calls.len() ==> plan.register_all(calls).fake_root_mounts[plan.fake_root_mounts.len()
                + n].mountpoint == (#[trigger] calls[n]).destination(),
    decreases calls.len(),
{
    if calls.len() > 0 {
        let before = plan.register_all(calls.drop_last());
        lemma_register_all_keeps_consistent(plan, calls.drop_last());
        lemma_register_keeps_consistent(before, calls.last());
        let after = plan.register_all(calls);
        assert forall|n: int| 0 <= n < calls.len() implies after.fake_root_mounts[plan.fake_root_mounts.len()
            + n].mountpoint == (#[trigger] calls[n]).destination() by {
            if n < calls.len() - 1 {
                assert(calls[n] == calls.drop_last()[n]);
                assert(after.fake_root_mounts.drop_last()[plan.fake_root_mounts.len() + n]
                    == after.fake_root_mounts[plan.fake_root_mounts.len() + n]);
            }
        }
    }
}

/// A policy in which the private root has just been enabled for the first
/// time is consistent.
pub proof fn lemma_enabled_is_consistent(base: Seq<char>)
    ensures
        ConfigView::initial().with_base(base).consistent(),
{
}

/// Whatever is registered after the private root is enabled, and in whatever
/// order: the directories to create hold every directory above every
/// registered destination, and each of them comes behind the directories
/// above it.
pub proof fn lemma_directories_hold_ancestors_in_order(base: Seq<char>, calls: Seq<Registration>)
    ensures
        ({
            let plan = ConfigView::initial().with_base(base).register_all(calls);
            &&& plan.directories_in_order()
            &&& forall|n: int, k: int|
                0 <= n < calls.len() && 0 <= k < ancestors(calls[n].destination()).len()
                    ==> plan.creates_before(
                    plan.fake_root_mkdirs.len() as int,
                    base + #[trigger] ancestors(calls[n].destination())[k],
                )
        }),
{
    let start = ConfigView::initial().with_base(base);
    let plan = start.register_all(calls);
    lemma_register_all_keeps_consistent(start, calls);
    assert forall|n: int, k: int|
        0 <= n < calls.len() && 0 <= k < ancestors(
            calls[n].destination(),
        ).len() implies plan.creates_before(
        plan.fake_root_mkdirs.len() as int,
        base + #[trigger] ancestors(calls[n].destination())[k],
    ) by {
        assert(plan.fake_root_mounts[n].mountpoint == calls[n].destination());
        assert(plan.creates_before(
            plan.fake_root_mkdirs.len() as int,
            base + ancestors(plan.fake_root_mounts[n].mountpoint)[k],
        ));
    }
}

/// Whatever is registered after the private root is enabled: every entry is
/// staged at the base followed by its mountpoint, and no virtual filesystem
/// is read-only.
pub proof fn lemma_entries_are_staged_below_base(base: Seq<char>, calls: Seq<Registration>)
    ensures
        ({
            let plan = ConfigView::initial().with_base(base).register_all(calls);
            &&& forall|i: int|
                0 <= i < plan.fake_root_mounts.len() ==> (#[trigger] plan.fake_root_mounts[i]).staging_path
                    == base + plan.fake_root_mounts[i].mountpoint
            &&& forall|i: int|
                0 <= i < plan.fake_root_mounts.len() && (#[trigger] plan.fake_root_mounts[i]).kind
                    == MountKind::VirtualFilesystem ==> !plan.fake_root_mounts[i].readonly
        }),
{
    lemma_register_all_keeps_consistent(ConfigView::initial().with_base(base), calls);
}

} // verus!
