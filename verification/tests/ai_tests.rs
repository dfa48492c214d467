use protos::ai::fast_unit::spawn_cells;
use protos::ai::{drunk_scorer, idle_action, random_move_action, ActionState, MoveTargetChange};

#[test]
fn idle_action_transitions() {
    assert_eq!(idle_action(ActionState::Requested), ActionState::Executing);
    assert_eq!(idle_action(ActionState::Cancelled), ActionState::Failure);
    assert_eq!(idle_action(ActionState::Executing), ActionState::Executing);
    assert_eq!(idle_action(ActionState::Init), ActionState::Init);
    assert_eq!(idle_action(ActionState::Success), ActionState::Success);
    assert_eq!(idle_action(ActionState::Failure), ActionState::Failure);
}

#[test]
fn random_move_action_transitions() {
    assert_eq!(
        random_move_action(ActionState::Requested, true, false),
        (ActionState::Executing, MoveTargetChange::SetRandom)
    );
    assert_eq!(
        random_move_action(ActionState::Executing, true, true),
        (ActionState::Executing, MoveTargetChange::Keep)
    );
    assert_eq!(
        random_move_action(ActionState::Executing, true, false),
        (ActionState::Success, MoveTargetChange::Keep)
    );
    assert_eq!(
        random_move_action(ActionState::Cancelled, true, true),
        (ActionState::Failure, MoveTargetChange::Remove)
    );
    assert_eq!(random_move_action(ActionState::Init, true, false), (ActionState::Init, MoveTargetChange::Keep));
    assert_eq!(
        random_move_action(ActionState::Requested, false, false),
        (ActionState::Failure, MoveTargetChange::Keep)
    );
}

#[test]
fn drunk_scorer_scores() {
    assert!(!drunk_scorer(None, true, true));
    assert!(drunk_scorer(Some(false), true, false));
    assert!(drunk_scorer(Some(true), false, true));
    assert!(!drunk_scorer(Some(false), false, true));
    assert!(!drunk_scorer(Some(true), false, false));
}

#[test]
fn unit_spawn_cells() {
    assert!(spawn_cells(10).is_empty());
    assert!(spawn_cells(20).is_empty());
    assert_eq!(spawn_cells(21), vec![(10, 10)]);
    assert_eq!(spawn_cells(71), vec![(10, 10), (10, 60), (60, 10), (60, 60)]);
    let c = spawn_cells(1024);
    assert_eq!(c.len(), 21 * 21);
    assert_eq!(c[0], (10, 10));
    assert_eq!(c[21], (60, 10));
    assert_eq!(c[21 * 21 - 1], (1010, 1010));
}
