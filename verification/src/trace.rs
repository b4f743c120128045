//! What holds of every build, whatever the kernel answers.
//!
//! A run is a build followed through a list of results. The laws here say
//! in which order a run passes the positions of a build, which results
//! shape it, and how the order fits the way a consistent policy lists its
//! directories.
use crate::config::ConfigView;
use crate::fakeroot::{FakeRootMountView, MountKind};
use crate::path::ancestors;
use crate::sandbox::{
    buildable, next_readonly, BuildOutcome, OperationView, Position, DIRECTORY_MODE,
};
use vstd::prelude::*;

verus! {

/// The position of a build of `plan` after the operations so far had the
/// results `responses`, the first operation's result first.
pub open spec fn run(plan: ConfigView, responses: Seq<bool>) -> Position
    decreases responses.len(),
{
    if responses.len() == 0 {
        Position::CreateBase
    } else {
        run(plan, responses.drop_last()).next(plan, responses.last())
    }
}

/// Whether a build of `plan` with the results `responses` stood at `position`
/// before it got where it is.
pub open spec fn passed(plan: ConfigView, responses: Seq<bool>, position: Position) -> bool {
    exists|n: int| 0 <= n < responses.len() && #[trigger] run(plan, responses.take(n)) == position
}

impl Position {
    /// Whether the result of the operation at this position decides how the
    /// build goes on. The result of any other operation is passed over.
    pub open spec fn decisive(self) -> bool {
        self.fatal() || self == Position::PivotRoot
    }

    /// For a position before the root is switched: the number of operations
    /// that come before it.
    pub open spec fn rank(self, plan: ConfigView) -> Option<int> {
        match self {
            Position::CreateBase => Some(0),
            Position::MakeTreePrivate => Some(1),
            Position::MountStaging => Some(2),
            Position::MakeDirectory(i) => Some(3 + i),
            Position::MakeFile(i) => Some(3 + plan.fake_root_mkdirs.len() + i),
            Position::AttachMount(i) => Some(
                3 + plan.fake_root_mkdirs.len() + plan.fake_root_touchs.len() + i,
            ),
            _ => None,
        }
    }
}

/// The first read-only entry at or after `i` lies between `i` and the end of
/// the list, and no entry between `i` and it is read-only.
pub proof fn lemma_next_readonly(mounts: Seq<FakeRootMountView>, i: int)
    requires
        0 <= i <= mounts.len(),
    ensures
        i <= next_readonly(mounts, i) <= mounts.len(),
        next_readonly(mounts, i) < mounts.len() ==> mounts[next_readonly(mounts, i)].readonly,
        forall|j: int| i <= j < next_readonly(mounts, i) ==> !(#[trigger] mounts[j]).readonly,
    decreases mounts.len() - i,
{
    if i < mounts.len() && !mounts[i].readonly {
        lemma_next_readonly(mounts, i + 1);
    }
}

/// A build never leaves the entries of its plan.
pub proof fn lemma_next_is_valid(plan: ConfigView, position: Position, succeeded: bool)
    requires
        buildable(plan),
        position.valid_for(plan),
    ensures
        position.next(plan, succeeded).valid_for(plan),
{
    match position {
        Position::ProtectRoot => {
            lemma_next_readonly(plan.fake_root_mounts, 0);
        },
        Position::ProtectMount(i) => {
            lemma_next_readonly(plan.fake_root_mounts, i + 1);
        },
        _ => {},
    }
}

/// Whatever the results, a build stands at an entry of its plan.
pub proof fn lemma_run_is_valid(plan: ConfigView, responses: Seq<bool>)
    requires
        buildable(plan),
    ensures
        run(plan, responses).valid_for(plan),
    decreases responses.len(),
{
    if responses.len() > 0 {
        lemma_run_is_valid(plan, responses.drop_last());
        lemma_next_is_valid(plan, run(plan, responses.drop_last()), responses.last());
    }
}

/// Before the root is switched, each operation leads to the position with
/// the next rank, and to no position from anywhere else.
proof fn lemma_rank_of_next(plan: ConfigView, position: Position, succeeded: bool)
    requires
        buildable(plan),
        position.valid_for(plan),
        position.next(plan, succeeded).rank(plan) is Some,
    ensures
        position.rank(plan) == Some(position.next(plan, succeeded).rank(plan)->0 - 1),
{
    match position {
        Position::ProtectRoot => {
            lemma_next_readonly(plan.fake_root_mounts, 0);
        },
        Position::ProtectMount(i) => {
            lemma_next_readonly(plan.fake_root_mounts, i + 1);
        },
        _ => {},
    }
}

/// Before the root is switched, the rank of the position is the number of
/// operations performed.
proof fn lemma_rank_counts_operations(plan: ConfigView, responses: Seq<bool>, n: int)
    requires
        buildable(plan),
        run(plan, responses).rank(plan) is Some,
        0 <= n <= responses.len(),
    ensures
        run(plan, responses.take(n)).rank(plan) == Some(n),
    decreases responses.len(),
{
    if responses.len() == 0 {
        assert(responses.take(n) =~= responses);
    } else {
        let before = responses.drop_last();
        lemma_run_is_valid(plan, before);
        lemma_rank_of_next(plan, run(plan, before), responses.last());
        lemma_rank_counts_operations(plan, before, before.len() as int);
        assert(before.take(before.len() as int) =~= before);
        if n == responses.len() {
            assert(responses.take(n) =~= responses);
        } else {
            lemma_rank_counts_operations(plan, before, n);
            assert(before.take(n) =~= responses.take(n));
        }
    }
}

/// Before the root is switched, a build has stood at every position of
/// lower rank: nothing is skipped and nothing is reordered, whatever the
/// results were.
pub proof fn lemma_lower_ranks_were_passed(
    plan: ConfigView,
    responses: Seq<bool>,
    earlier: Position,
)
    requires
        buildable(plan),
        earlier.valid_for(plan),
        run(plan, responses).rank(plan) is Some,
        earlier.rank(plan) is Some,
        earlier.rank(plan)->0 < run(plan, responses).rank(plan)->0,
    ensures
        passed(plan, responses, earlier),
{
    let n = earlier.rank(plan)->0;
    lemma_rank_counts_operations(plan, responses, responses.len() as int);
    assert(responses.take(responses.len() as int) =~= responses);
    lemma_rank_counts_operations(plan, responses, n);
    lemma_run_is_valid(plan, responses.take(n));
    assert(run(plan, responses.take(n)) == earlier);
}

/// No mount entry is attached before every registered directory and every
/// placeholder file has been created, or its creation has at least been
/// tried: when a build is about to attach an entry, it has stood at the
/// creation of each of them.
pub proof fn lemma_creation_comes_before_mounts(
    plan: ConfigView,
    responses: Seq<bool>,
    entry: usize,
)
    requires
        buildable(plan),
        run(plan, responses) == Position::AttachMount(entry),
    ensures
        forall|d: usize|
            d < plan.fake_root_mkdirs.len() ==> #[trigger] passed(
                plan,
                responses,
                Position::MakeDirectory(d),
            ),
        forall|f: usize|
            f < plan.fake_root_touchs.len() ==> #[trigger] passed(
                plan,
                responses,
                Position::MakeFile(f),
            ),
{
    assert forall|d: usize| d < plan.fake_root_mkdirs.len() implies #[trigger] passed(
        plan,
        responses,
        Position::MakeDirectory(d),
    ) by {
        lemma_lower_ranks_were_passed(plan, responses, Position::MakeDirectory(d));
    }
    assert forall|f: usize| f < plan.fake_root_touchs.len() implies #[trigger] passed(
        plan,
        responses,
        Position::MakeFile(f),
    ) by {
        lemma_lower_ranks_were_passed(plan, responses, Position::MakeFile(f));
    }
}

/// A directory is created only after the directories listed before it.
pub proof fn lemma_directories_are_created_in_order(
    plan: ConfigView,
    responses: Seq<bool>,
    directory: usize,
    earlier: usize,
)
    requires
        buildable(plan),
        run(plan, responses) == Position::MakeDirectory(directory),
        earlier < directory,
    ensures
        passed(plan, responses, Position::MakeDirectory(earlier)),
{
    lemma_run_is_valid(plan, responses);
    lemma_lower_ranks_were_passed(plan, responses, Position::MakeDirectory(earlier));
}

/// Only the results of decisive operations shape a build. Two builds of one
/// plan whose results differ only where the operation was not decisive, such
/// as the creation of a directory that exists already, stand at the same
/// position.
pub proof fn lemma_other_results_are_passed_over(
    plan: ConfigView,
    one: Seq<bool>,
    other: Seq<bool>,
)
    requires
        one.len() == other.len(),
        forall|n: int|
            0 <= n < one.len() && one[n] != other[n] ==> !(#[trigger] run(
                plan,
                one.take(n),
            )).decisive(),
    ensures
        run(plan, one) == run(plan, other),
    decreases one.len(),
{
    if one.len() > 0 {
        let n = one.len() - 1;
        assert(one.drop_last() =~= one.take(n));
        assert forall|m: int|
            0 <= m < one.drop_last().len() && one.drop_last()[m] != other.drop_last()[m] implies !(
        #[trigger] run(plan, one.drop_last().take(m))).decisive() by {
            assert(one.drop_last().take(m) =~= one.take(m));
        }
        lemma_other_results_are_passed_over(plan, one.drop_last(), other.drop_last());
    }
}

/// A fatal failure ends the build at once and for good: whatever is reported
/// afterwards, the outcome is the failure of the step that failed. Nothing
/// is tried again, and no earlier success outweighs it.
pub proof fn lemma_fatal_failure_is_final(plan: ConfigView, responses: Seq<bool>, n: int)
    requires
        0 <= n < responses.len(),
        run(plan, responses.take(n)).fatal(),
        !responses[n],
    ensures
        run(plan, responses) == Position::Finished(
            BuildOutcome::Failed(run(plan, responses.take(n)).step()->0),
        ),
    decreases responses.len(),
{
    let before = responses.drop_last();
    if n == responses.len() - 1 {
        assert(before =~= responses.take(n));
    } else {
        assert(before.take(n) =~= responses.take(n));
        lemma_fatal_failure_is_final(plan, before, n);
    }
}

impl Position {
    /// The most operations that a build at this position can still ask for.
    pub open spec fn distance(self, plan: ConfigView) -> int {
        let mounts = plan.fake_root_mounts.len() as int;
        let files = plan.fake_root_touchs.len() as int;
        let directories = plan.fake_root_mkdirs.len() as int;
        match self {
            Position::CreateBase => directories + files + 2 * mounts + 8,
            Position::MakeTreePrivate => directories + files + 2 * mounts + 7,
            Position::MountStaging => directories + files + 2 * mounts + 6,
            Position::MakeDirectory(i) => directories - i + files + 2 * mounts + 5,
            Position::MakeFile(i) => files - i + 2 * mounts + 5,
            Position::AttachMount(i) => mounts - i + mounts + 5,
            Position::PivotRoot => mounts + 5,
            Position::EnterBase => mounts + 4,
            Position::BindOverRoot => mounts + 3,
            Position::ChangeRoot => mounts + 2,
            Position::DetachOldRoot => mounts + 2,
            Position::ProtectRoot => mounts + 1,
            Position::ProtectMount(i) => mounts - i,
            Position::Finished(_) => 0,
        }
    }
}

/// Every operation brings a build closer to its end.
pub proof fn lemma_next_is_closer(plan: ConfigView, position: Position, succeeded: bool)
    requires
        buildable(plan),
        position.valid_for(plan),
    ensures
        0 <= position.next(plan, succeeded).distance(plan) <= position.distance(plan),
        position.next(plan, succeeded).distance(plan) < position.distance(plan)
            || position is Finished,
{
    match position {
        Position::ProtectRoot => {
            lemma_next_readonly(plan.fake_root_mounts, 0);
        },
        Position::ProtectMount(i) => {
            lemma_next_readonly(plan.fake_root_mounts, i + 1);
        },
        _ => {},
    }
}

/// A build comes to its end: however the operations turn out, it has an
/// outcome once as many results are in as the first position is away from
/// the end, and it does not take more operations than that.
pub proof fn lemma_build_finishes(plan: ConfigView, responses: Seq<bool>)
    requires
        buildable(plan),
    ensures
        run(plan, responses).distance(plan) <= Position::CreateBase.distance(plan)
            - responses.len() || run(plan, responses) is Finished,
        responses.len() >= Position::CreateBase.distance(plan) ==> run(plan, responses) is Finished,
    decreases responses.len(),
{
    if responses.len() > 0 {
        let before = responses.drop_last();
        lemma_build_finishes(plan, before);
        lemma_run_is_valid(plan, before);
        lemma_next_is_closer(plan, run(plan, before), responses.last());
    }
    lemma_run_is_valid(plan, responses);
}

/// Whether the operation `operation` was due in a build of `plan` with the
/// results `responses` before the build got where it is.
pub open spec fn requested(plan: ConfigView, responses: Seq<bool>, operation: OperationView) -> bool {
    exists|n: int|
        0 <= n < responses.len() && (#[trigger] run(plan, responses.take(n))).operation(plan)
            == Some(operation)
}

/// In the build of a consistent policy, no entry is attached before the
/// creation of every directory above its mountpoint has been requested.
pub proof fn lemma_mount_follows_its_directories(
    plan: ConfigView,
    responses: Seq<bool>,
    entry: usize,
    k: int,
)
    requires
        buildable(plan),
        plan.consistent(),
        run(plan, responses) == Position::AttachMount(entry),
        0 <= k < ancestors(plan.fake_root_mounts[entry as int].mountpoint).len(),
    ensures
        requested(
            plan,
            responses,
            OperationView::MakeDir {
                path: plan.fake_root_base->0 + ancestors(
                    plan.fake_root_mounts[entry as int].mountpoint,
                )[k],
                mode: DIRECTORY_MODE,
            },
        ),
{
    lemma_run_is_valid(plan, responses);
    let wanted = plan.fake_root_base->0 + ancestors(
        plan.fake_root_mounts[entry as int].mountpoint,
    )[k];
    assert(plan.creates_before(plan.fake_root_mkdirs.len() as int, wanted));
    let j = choose|j: int|
        0 <= j < plan.fake_root_mkdirs.len() && #[trigger] plan.fake_root_mkdirs[j] == wanted;
    lemma_lower_ranks_were_passed(plan, responses, Position::MakeDirectory(j as usize));
}

/// In the build of a consistent policy, no directory is created before the
/// creation of every directory above it has been requested.
pub proof fn lemma_directory_follows_its_parents(
    plan: ConfigView,
    responses: Seq<bool>,
    directory: usize,
    k: int,
)
    requires
        buildable(plan),
        plan.consistent(),
        run(plan, responses) == Position::MakeDirectory(directory),
        0 <= k < ancestors(plan.inside(plan.fake_root_mkdirs[directory as int])).len(),
    ensures
        requested(
            plan,
            responses,
            OperationView::MakeDir {
                path: plan.fake_root_base->0 + ancestors(
                    plan.inside(plan.fake_root_mkdirs[directory as int]),
                )[k],
                mode: DIRECTORY_MODE,
            },
        ),
{
    lemma_run_is_valid(plan, responses);
    let wanted = plan.fake_root_base->0 + ancestors(
        plan.inside(plan.fake_root_mkdirs[directory as int]),
    )[k];
    assert(plan.creates_before(directory as int, wanted));
    let j = choose|j: int|
        0 <= j < directory && j < plan.fake_root_mkdirs.len() && #[trigger] plan.fake_root_mkdirs[j]
            == wanted;
    lemma_lower_ranks_were_passed(plan, responses, Position::MakeDirectory(j as usize));
}

/// In the build of a consistent policy, only entries that were registered as
/// read-only are remounted read-only, and never a virtual filesystem.
pub proof fn lemma_only_readonly_entries_are_protected(
    plan: ConfigView,
    responses: Seq<bool>,
    entry: usize,
)
    requires
        buildable(plan),
        plan.consistent(),
        run(plan, responses) == Position::ProtectMount(entry),
    ensures
        plan.fake_root_mounts[entry as int].readonly,
        plan.fake_root_mounts[entry as int].kind == MountKind::Bind,
{
    lemma_run_is_valid(plan, responses);
}

} // verus!
