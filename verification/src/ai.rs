pub mod add_cube;
pub mod fast_unit;
pub mod ground;
pub mod pathfind;
pub mod platform;
pub mod slow_unit;
pub mod sparse_grid;
pub mod velocity;

use vstd::prelude::*;

verus! {

/// The state of an action in the utility AI.
#[derive(Debug, Copy, Clone, PartialEq, Eq, Structural)]
pub enum ActionState {
    Init,
    Requested,
    Executing,
    Cancelled,
    Success,
    Failure,
}

/// What becomes of an actor's move target.
#[derive(Debug, Copy, Clone, PartialEq, Eq, Structural)]
pub enum MoveTargetChange {
    /// Leave it as it is.
    Keep,
    /// Give the actor a new, random move target.
    SetRandom,
    /// Take the move target away.
    Remove,
}

/// The random-move action's next state and move-target change.
pub open spec fn random_move_step(state: ActionState, actor_found: bool, has_move_target: bool) -> (
    ActionState,
    MoveTargetChange,
) {
    if !actor_found {
        (ActionState::Failure, MoveTargetChange::Keep)
    } else {
        match state {
            ActionState::Requested => (ActionState::Executing, MoveTargetChange::SetRandom),
            ActionState::Executing => if has_move_target {
                (ActionState::Executing, MoveTargetChange::Keep)
            } else {
                (ActionState::Success, MoveTargetChange::Keep)
            },
            ActionState::Cancelled => (ActionState::Failure, MoveTargetChange::Remove),
            other => (other, MoveTargetChange::Keep),
        }
    }
}

/// The idle action's next state.
pub open spec fn idle_step(state: ActionState) -> ActionState {
    match state {
        ActionState::Requested => ActionState::Executing,
        ActionState::Cancelled => ActionState::Failure,
        other => other,
    }
}

/// One update of the random-move action: the next state, and what becomes of
/// the actor's move target. `actor_found` says whether the actor of the
/// action still exists; `has_move_target` whether it still has a target.
pub fn random_move_action(state: ActionState, actor_found: bool, has_move_target: bool) -> (r: (
    ActionState,
    MoveTargetChange,
))
    ensures
        r == random_move_step(state, actor_found, has_move_target),
{
    if !actor_found {
        return (ActionState::Failure, MoveTargetChange::Keep);
    }
    match state {
        ActionState::Requested => (ActionState::Executing, MoveTargetChange::SetRandom),
        ActionState::Executing => {
            if !has_move_target {
                (ActionState::Success, MoveTargetChange::Keep)
            } else {
                (ActionState::Executing, MoveTargetChange::Keep)
            }
        },
        ActionState::Cancelled => (ActionState::Failure, MoveTargetChange::Remove),
        other => (other, MoveTargetChange::Keep),
    }
}

/// One update of the idle action: a request starts it, a cancellation fails
/// it, and it otherwise stays as it is.
pub fn idle_action(state: ActionState) -> (r: ActionState)
    ensures
        r == idle_step(state),
{
    match state {
        ActionState::Requested => ActionState::Executing,
        ActionState::Cancelled => ActionState::Failure,
        other => other,
    }
}

/// The drunk scorer scores 1 (true) for an actor that is selectable and
/// either every unit walks randomly or the selected ones do and it is
/// selected; otherwise 0 (false).
pub fn drunk_scorer(selection: Option<bool>, random_walk_all: bool, random_walk_selected: bool) -> (r: bool)
    ensures
        r == match selection {
            Some(selected) => random_walk_all || (random_walk_selected && selected),
            None => false,
        },
{
    let mut new_score = false;
    if let Some(selected) = selection {
        if random_walk_all || (random_walk_selected && selected) {
            new_score = true;
        }
    }
    new_score
}

/// The action is over: it succeeded or failed.
pub open spec fn is_finished(state: ActionState) -> bool {
    state == ActionState::Success || state == ActionState::Failure
}

/// A finished action stays as it is under either update (the random move of
/// a vanished actor is marked failed), and neither update touches its move
/// target.
pub proof fn law_finished_actions_stay(state: ActionState, actor_found: bool, has_move_target: bool)
    requires
        is_finished(state),
    ensures
        idle_step(state) == state,
        actor_found ==> random_move_step(state, actor_found, has_move_target) == (state, MoveTargetChange::Keep),
        is_finished(random_move_step(state, actor_found, has_move_target).0),
{
}

/// A cancelled action always ends as a failure, and a cancelled random move
/// gives up its target.
pub proof fn law_cancel_fails(actor_found: bool, has_move_target: bool)
    ensures
        idle_step(ActionState::Cancelled) == ActionState::Failure,
        random_move_step(ActionState::Cancelled, actor_found, has_move_target).0 == ActionState::Failure,
        actor_found ==> random_move_step(ActionState::Cancelled, actor_found, has_move_target).1
            == MoveTargetChange::Remove,
{
}

/// A random move is given a target only when it is requested, and succeeds
/// only once it is executing and its target is gone.
pub proof fn law_random_move_progress(state: ActionState, actor_found: bool, has_move_target: bool)
    ensures
        random_move_step(state, actor_found, has_move_target).1 == MoveTargetChange::SetRandom
            <==> actor_found && state == ActionState::Requested,
        random_move_step(state, actor_found, has_move_target).0 == ActionState::Success
            ==> state == ActionState::Success || (state == ActionState::Executing && !has_move_target),
{
}

/// A random move whose actor has gone fails, whatever state it was in, and
/// leaves the move target alone.
pub proof fn law_lost_actor_fails(state: ActionState, has_move_target: bool)
    ensures
        random_move_step(state, false, has_move_target) == (ActionState::Failure, MoveTargetChange::Keep),
{
}

} // verus!
