//! Moving one file into its folder, one file-system operation at a time.
//!
//! The library decides; the caller acts. A relocation begins with
//! [`first_step`]. The caller performs the operation it is asked for,
//! reports whether it succeeded, and is told by [`next_step`] what comes
//! next, until a step brings the outcome.

use vstd::prelude::*;

verus! {

/// A file-system operation that a relocation asks its caller to perform.
/// The source is the file being moved; the target is the path of the same
/// name inside the folder.
#[derive(Debug, Clone, Copy, PartialEq, Eq, Structural)]
pub enum Operation {
    /// Ask whether the folder exists. Succeeds if it does.
    FolderExists,
    /// Create the folder and every missing directory above it.
    CreateFolder,
    /// Ask whether anything exists at the target. Succeeds if it does.
    TargetExists,
    /// Rename the source to the target in one step.
    Rename,
    /// Copy the bytes of the source to the target.
    Copy,
    /// Remove whatever a failed copy left at the target.
    RemoveTarget,
    /// Remove the source once its bytes are at the target.
    RemoveSource,
}

/// Why a file was not moved.
#[derive(Debug, Clone, Copy, PartialEq, Eq, Structural)]
pub enum RelocateError {
    /// The folder could not be created. The file is untouched.
    FolderCreateFailed,
    /// Something already exists at the target. Nothing is overwritten and
    /// the file is untouched.
    AlreadyExists,
    /// The file could not be renamed, and copying it failed too. The
    /// file is still in place.
    CopyFailed,
    /// The file was copied, but the source could not be removed: its
    /// bytes are now in both places.
    CleanupFailed,
}

/// How a relocation ended.
#[derive(Debug, Clone, Copy, PartialEq, Eq, Structural)]
pub enum Outcome {
    /// The file is now at the target and no longer at the source.
    Moved,
    /// The file was not moved, for the reason given.
    Failed(RelocateError),
}

/// What a relocation does next.
#[derive(Debug, Clone, Copy, PartialEq, Eq, Structural)]
pub enum Step {
    /// The caller is to perform this operation and report back.
    Perform(Operation),
    /// The relocation has ended: the file was moved, or it was not.
    Finished(Outcome),
}

/// The step that follows an operation, given whether it succeeded.
pub open spec fn step_after(operation: Operation, succeeded: bool) -> Step {
    match operation {
        Operation::FolderExists => if succeeded {
            Step::Perform(Operation::TargetExists)
        } else {
            Step::Perform(Operation::CreateFolder)
        },
        Operation::CreateFolder => if succeeded {
            Step::Perform(Operation::TargetExists)
        } else {
            Step::Finished(Outcome::Failed(RelocateError::FolderCreateFailed))
        },
        Operation::TargetExists => if succeeded {
            Step::Finished(Outcome::Failed(RelocateError::AlreadyExists))
        } else {
            Step::Perform(Operation::Rename)
        },
        Operation::Rename => if succeeded {
            Step::Finished(Outcome::Moved)
        } else {
            Step::Perform(Operation::Copy)
        },
        Operation::Copy => if succeeded {
            Step::Perform(Operation::RemoveSource)
        } else {
            Step::Perform(Operation::RemoveTarget)
        },
        Operation::RemoveTarget => Step::Finished(Outcome::Failed(RelocateError::CopyFailed)),
        Operation::RemoveSource => if succeeded {
            Step::Finished(Outcome::Moved)
        } else {
            Step::Finished(Outcome::Failed(RelocateError::CleanupFailed))
        },
    }
}

/// The step a relocation begins with.
pub open spec fn initial_step() -> Step {
    Step::Perform(Operation::FolderExists)
}

/// Begins a relocation.
pub fn first_step() -> (step: Step)
    ensures
        step == initial_step(),
{
    Step::Perform(Operation::FolderExists)
}

/// Continues a relocation after the caller has performed `operation`.
pub fn next_step(operation: Operation, succeeded: bool) -> (step: Step)
    ensures
        step == step_after(operation, succeeded),
{
    match operation {
        Operation::FolderExists => {
            if succeeded {
                Step::Perform(Operation::TargetExists)
            } else {
                Step::Perform(Operation::CreateFolder)
            }
        },
        Operation::CreateFolder => {
            if succeeded {
                Step::Perform(Operation::TargetExists)
            } else {
                Step::Finished(Outcome::Failed(RelocateError::FolderCreateFailed))
            }
        },
        Operation::TargetExists => {
            if succeeded {
                Step::Finished(Outcome::Failed(RelocateError::AlreadyExists))
            } else {
                Step::Perform(Operation::Rename)
            }
        },
        Operation::Rename => {
            if succeeded {
                Step::Finished(Outcome::Moved)
            } else {
                Step::Perform(Operation::Copy)
            }
        },
        Operation::Copy => {
            if succeeded {
                Step::Perform(Operation::RemoveSource)
            } else {
                Step::Perform(Operation::RemoveTarget)
            }
        },
        Operation::RemoveTarget => Step::Finished(Outcome::Failed(RelocateError::CopyFailed)),
        Operation::RemoveSource => {
            if succeeded {
                Step::Finished(Outcome::Moved)
            } else {
                Step::Finished(Outcome::Failed(RelocateError::CleanupFailed))
            }
        },
    }
}

/// The step a relocation has reached once the caller has reported on each
/// operation it was asked for, in turn. Reports that come after the
/// relocation has ended change nothing.
pub open spec fn run(reports: Seq<bool>) -> Step
    decreases reports.len(),
{
    if reports.len() == 0 {
        initial_step()
    } else {
        match run(reports.drop_last()) {
            Step::Perform(operation) => step_after(operation, reports.last()),
            Step::Finished(outcome) => Step::Finished(outcome),
        }
    }
}

/// What one relocation sees of the file system: whether the folder
/// exists, and the bytes of the file at the source and at the target, if
/// there is one.
pub struct World {
    pub folder: bool,
    pub source: Option<Seq<u8>>,
    pub target: Option<Seq<u8>>,
}

/// How an operation with the given report takes the file system from one
/// state to the next. A question changes nothing and is answered truly. A
/// failed operation changes nothing, but for a failed copy, which may
/// leave anything at the target.
pub open spec fn performs(
    before: World,
    operation: Operation,
    succeeded: bool,
    after: World,
) -> bool {
    match operation {
        Operation::FolderExists => after == before && succeeded == before.folder,
        Operation::CreateFolder => if succeeded {
            after == (World { folder: true, ..before })
        } else {
            after == before
        },
        Operation::TargetExists => after == before && succeeded == before.target is Some,
        Operation::Rename => if succeeded {
            before.source is Some && after == (World {
                source: None,
                target: before.source,
                ..before
            })
        } else {
            after == before
        },
        Operation::Copy => if succeeded {
            before.source is Some && after == (World { target: before.source, ..before })
        } else {
            after.folder == before.folder && after.source == before.source
        },
        Operation::RemoveTarget => if succeeded {
            after == (World { target: None, ..before })
        } else {
            after == before
        },
        Operation::RemoveSource => if succeeded {
            after == (World { source: None, ..before })
        } else {
            after == before
        },
    }
}

/// True where `worlds` are the states the file system went through while
/// the caller performed, one after the other, the operations that the
/// relocation asked for, and `reports` are what it reported of them.
pub open spec fn follows(reports: Seq<bool>, worlds: Seq<World>) -> bool {
    &&& worlds.len() == reports.len() + 1
    &&& forall|i: int|
        0 <= i < reports.len() ==> match #[trigger] run(reports.take(i)) {
            Step::Perform(operation) => performs(worlds[i], operation, reports[i], worlds[i + 1]),
            Step::Finished(_) => false,
        }
}

/// What an outcome says of the file system, from the state in which the
/// relocation began to the state in which it ended.
pub open spec fn achieved(outcome: Outcome, start: World, end: World) -> bool {
    match outcome {
        Outcome::Moved => {
            &&& start.source is Some
            &&& start.target is None
            &&& end.source is None
            &&& end.target == start.source
        },
        Outcome::Failed(RelocateError::FolderCreateFailed) => {
            &&& !start.folder
            &&& end == start
        },
        Outcome::Failed(RelocateError::AlreadyExists) => {
            &&& start.target is Some
            &&& end.source == start.source
            &&& end.target == start.target
        },
        Outcome::Failed(RelocateError::CopyFailed) => {
            &&& start.target is None
            &&& end.source == start.source
        },
        Outcome::Failed(RelocateError::CleanupFailed) => {
            &&& start.source is Some
            &&& start.target is None
            &&& end.source == start.source
            &&& end.target == start.source
        },
    }
}

/// What holds of the file system while a relocation is under way.
spec fn on_course(step: Step, start: World, now: World) -> bool {
    match step {
        Step::Perform(operation) => {
            &&& now.source == start.source
            &&& match operation {
                Operation::FolderExists => now == start,
                Operation::CreateFolder => now == start && !start.folder,
                Operation::TargetExists => now.target == start.target,
                Operation::Rename => now.target is None && start.target is None,
                Operation::Copy => now.target is None && start.target is None,
                Operation::RemoveTarget => start.target is None,
                Operation::RemoveSource => {
                    &&& start.target is None
                    &&& start.source is Some
                    &&& now.target == start.source
                },
            }
        },
        Step::Finished(outcome) => achieved(outcome, start, now),
    }
}

/// One operation keeps a relocation on course.
proof fn lemma_stays_on_course(
    operation: Operation,
    succeeded: bool,
    start: World,
    before: World,
    after: World,
)
    requires
        on_course(Step::Perform(operation), start, before),
        performs(before, operation, succeeded, after),
    ensures
        on_course(step_after(operation, succeeded), start, after),
{
}

/// A relocation stays on course as far as it has gone.
proof fn lemma_on_course(reports: Seq<bool>, worlds: Seq<World>)
    requires
        follows(reports, worlds),
    ensures
        on_course(run(reports), worlds.first(), worlds.last()),
    decreases reports.len(),
{
    if reports.len() > 0 {
        let n = reports.len() - 1;
        let earlier = reports.drop_last();
        let seen = worlds.drop_last();
        assert forall|i: int| 0 <= i < earlier.len() implies match #[trigger] run(earlier.take(i)) {
            Step::Perform(operation) => performs(seen[i], operation, earlier[i], seen[i + 1]),
            Step::Finished(_) => false,
        } by {
            assert(earlier.take(i) =~= reports.take(i));
        }
        lemma_on_course(earlier, seen);
        match run(reports.take(n)) {
            Step::Perform(operation) => {
                lemma_stays_on_course(
                    operation,
                    reports[n],
                    worlds.first(),
                    worlds[n],
                    worlds[n + 1],
                );
            },
            Step::Finished(_) => {},
        }
    }
}

/// The outcome of a relocation tells what became of the file. Where the
/// file was moved, its bytes are at the target and the source is gone.
/// Where the folder could not be made or the target was taken, nothing
/// was touched. Where the copy failed, the file is still at the source.
/// Where the source could not be removed, its bytes are in both places.
pub proof fn lemma_outcome_achieved(reports: Seq<bool>, worlds: Seq<World>, outcome: Outcome)
    requires
        follows(reports, worlds),
        run(reports) == Step::Finished(outcome),
    ensures
        achieved(outcome, worlds.first(), worlds.last()),
{
    lemma_on_course(reports, worlds);
}

/// Collision safety: where something already stands at the target, a
/// relocation that runs to its end moves nothing, overwrites nothing, and
/// says why: the target is taken, or the folder could not be made.
pub proof fn lemma_taken_target_is_kept(reports: Seq<bool>, worlds: Seq<World>, outcome: Outcome)
    requires
        follows(reports, worlds),
        run(reports) == Step::Finished(outcome),
        worlds.first().target is Some,
    ensures
        outcome == Outcome::Failed(RelocateError::AlreadyExists) || outcome == Outcome::Failed(
            RelocateError::FolderCreateFailed,
        ),
        worlds.first().folder ==> outcome == Outcome::Failed(RelocateError::AlreadyExists),
        worlds.last().source == worlds.first().source,
        worlds.last().target == worlds.first().target,
{
    lemma_on_course(reports, worlds);
}

/// Fallback: where the rename fails and the copy and the removal of the
/// source succeed, the file counts as moved, its bytes are at the target
/// and the source is gone.
pub proof fn lemma_fallback_moves(reports: Seq<bool>, worlds: Seq<World>)
    requires
        reports.len() >= 3,
        run(reports.take(reports.len() - 3)) == Step::Perform(Operation::Rename),
        reports.skip(reports.len() - 3) == seq![false, true, true],
        follows(reports, worlds),
    ensures
        run(reports) == Step::Finished(Outcome::Moved),
        worlds.first().source is Some,
        worlds.last().source is None,
        worlds.last().target == worlds.first().source,
{
    let n = reports.len() as int;
    assert(reports.take(n - 1).drop_last() =~= reports.take(n - 2));
    assert(reports.take(n - 2).drop_last() =~= reports.take(n - 3));
    assert(run(reports.take(n - 2)) == Step::Perform(Operation::Copy));
    assert(run(reports.take(n - 1)) == Step::Perform(Operation::RemoveSource));
    lemma_on_course(reports, worlds);
}

/// A failed copy leaves nothing behind: where the removal of what it
/// left at the target succeeds, the target is free again, and the file
/// is still at the source.
pub proof fn lemma_failed_copy_is_cleared(reports: Seq<bool>, worlds: Seq<World>)
    requires
        follows(reports, worlds),
        run(reports) == Step::Finished(Outcome::Failed(RelocateError::CopyFailed)),
        reports.len() > 0 && reports.last(),
    ensures
        worlds.last().target is None,
        worlds.last().source == worlds.first().source,
{
    let n = reports.len() - 1;
    assert(reports.drop_last() =~= reports.take(n));
    assert(run(reports.take(n)) == Step::Perform(Operation::RemoveTarget));
    lemma_on_course(reports, worlds);
}

/// How many more operations a relocation can ask for, at most.
pub open spec fn operations_left(step: Step) -> nat {
    match step {
        Step::Perform(Operation::FolderExists) => 6,
        Step::Perform(Operation::CreateFolder) => 5,
        Step::Perform(Operation::TargetExists) => 4,
        Step::Perform(Operation::Rename) => 3,
        Step::Perform(Operation::Copy) => 2,
        Step::Perform(Operation::RemoveTarget) => 1,
        Step::Perform(Operation::RemoveSource) => 1,
        Step::Finished(_) => 0,
    }
}

/// Every relocation ends: each report brings it nearer to its outcome,
/// and the sixth report at the latest brings the outcome itself.
pub proof fn lemma_relocation_ends(reports: Seq<bool>)
    ensures
        operations_left(run(reports)) + reports.len() <= 6 || run(reports) is Finished,
        reports.len() >= 6 ==> run(reports) is Finished,
    decreases reports.len(),
{
    if reports.len() > 0 {
        lemma_relocation_ends(reports.drop_last());
    }
}

} // verus!
