//! The decisions of a file move: make the destination's folder, try a rename,
//! and where the rename fails copy the file and then remove the original.
//!
//! The caller performs each step on the filesystem and reports how it went;
//! `next_move_action` says what comes next.
use vstd::prelude::*;

use crate::text::has_prefix;

verus! {

/// One step of a move, performed by the caller.
#[derive(Clone, Copy, Debug, PartialEq, Eq, Structural)]
pub enum MoveStep {
    /// Create the destination's parent folder, with its ancestors (nothing to
    /// do where the destination has no parent).
    CreateParent,
    /// Rename the source to the destination.
    Rename,
    /// Copy the source to the destination.
    Copy,
    /// Remove the source.
    RemoveSource,
}

/// What follows a step.
#[derive(Debug)]
pub enum MoveAction {
    /// Perform this step next.
    Run(MoveStep),
    /// The move is over, with this result.
    Finish(Result<(), String>),
}

/// The value a `MoveAction` holds.
pub ghost enum MoveNext {
    Run(MoveStep),
    Finish(Result<(), Seq<char>>),
}

/// The value an action holds.
pub open spec fn move_next_of(a: MoveAction) -> MoveNext {
    match a {
        MoveAction::Run(s) => MoveNext::Run(s),
        MoveAction::Finish(Ok(())) => MoveNext::Finish(Ok(())),
        MoveAction::Finish(Err(m)) => MoveNext::Finish(Err(m@)),
    }
}

/// The value of a step's outcome: nothing, or the reason it failed.
pub open spec fn outcome_of(r: Result<(), String>) -> Result<(), Seq<char>> {
    match r {
        Ok(()) => Ok(()),
        Err(e) => Err(e@),
    }
}

/// The step a move begins with.
pub open spec fn first_step() -> MoveStep {
    MoveStep::CreateParent
}

/// What follows each step and outcome. A failed rename falls back to a copy;
/// a failed copy or removal names the step that failed.
pub open spec fn move_transition(step: MoveStep, outcome: Result<(), Seq<char>>) -> MoveNext {
    match (step, outcome) {
        (MoveStep::CreateParent, Ok(())) => MoveNext::Run(MoveStep::Rename),
        (MoveStep::CreateParent, Err(e)) => MoveNext::Finish(Err(e)),
        (MoveStep::Rename, Ok(())) => MoveNext::Finish(Ok(())),
        (MoveStep::Rename, Err(_)) => MoveNext::Run(MoveStep::Copy),
        (MoveStep::Copy, Ok(())) => MoveNext::Run(MoveStep::RemoveSource),
        (MoveStep::Copy, Err(e)) => MoveNext::Finish(Err("Copy failed: "@ + e)),
        (MoveStep::RemoveSource, Ok(())) => MoveNext::Finish(Ok(())),
        (MoveStep::RemoveSource, Err(e)) => MoveNext::Finish(Err("Delete original failed: "@ + e)),
    }
}

/// The step a move begins with.
pub fn first_move_step() -> (s: MoveStep)
    ensures
        s == first_step(),
{
    MoveStep::CreateParent
}

/// `prefix` followed by `reason`.
fn prefixed(prefix: &str, reason: String) -> (r: String)
    ensures
        r@ == prefix@ + reason@,
{
    let mut r = String::from_str(prefix);
    r.append(reason.as_str());
    r
}

/// What follows a step of a move, given how the step went.
pub fn next_move_action(step: MoveStep, outcome: Result<(), String>) -> (a: MoveAction)
    ensures
        move_next_of(a) == move_transition(step, outcome_of(outcome)),
{
    match step {
        MoveStep::CreateParent => match outcome {
            Ok(()) => MoveAction::Run(MoveStep::Rename),
            Err(e) => MoveAction::Finish(Err(e)),
        },
        MoveStep::Rename => match outcome {
            Ok(()) => MoveAction::Finish(Ok(())),
            Err(_) => MoveAction::Run(MoveStep::Copy),
        },
        MoveStep::Copy => match outcome {
            Ok(()) => MoveAction::Run(MoveStep::RemoveSource),
            Err(e) => MoveAction::Finish(Err(prefixed("Copy failed: ", e))),
        },
        MoveStep::RemoveSource => match outcome {
            Ok(()) => MoveAction::Finish(Ok(())),
            Err(e) => MoveAction::Finish(Err(prefixed("Delete original failed: ", e))),
        },
    }
}

/// A rename that succeeds ends the move at once: nothing is copied and the
/// source is not removed by a separate step.
pub proof fn lemma_rename_success_finishes()
    ensures
        move_transition(MoveStep::Rename, Ok(())) == MoveNext::Finish(Ok(())),
        move_transition(first_step(), Ok(())) == MoveNext::Run(MoveStep::Rename),
{
}

/// The source is removed only right after a copy that succeeded; a copy that
/// fails ends the move with an error that begins with "Copy failed", and the
/// source stays.
pub proof fn lemma_source_survives_failed_copy(step: MoveStep, outcome: Result<(), Seq<char>>)
    ensures
        move_transition(step, outcome) == MoveNext::Run(MoveStep::RemoveSource) ==> step
            == MoveStep::Copy && outcome is Ok,
        step == MoveStep::Copy && outcome is Err ==> (move_transition(step, outcome) matches MoveNext::Finish(Err(m)) && has_prefix(m, "Copy failed"@)),
{
    if step == MoveStep::Copy && outcome is Err {
        let m = "Copy failed: "@ + outcome->Err_0;
        reveal_strlit("Copy failed: ");
        reveal_strlit("Copy failed");
        assert(m.subrange(0, 11) =~= "Copy failed"@);
    }
}

} // verus!
