use compositor::dnd::{
    negotiate_dnd_action, start_drag_actions, DndError, DragNegotiation, DND_ASK, DND_COPY,
    DND_MOVE,
};

#[test]
fn the_preferred_action_wins_when_both_sides_offer_it() {
    assert_eq!(negotiate_dnd_action(7, 7, DND_MOVE), Some(DND_MOVE));
    assert_eq!(negotiate_dnd_action(7, 7, DND_ASK), Some(DND_ASK));
}

#[test]
fn otherwise_copy_then_move_then_ask() {
    assert_eq!(negotiate_dnd_action(3, 3, DND_ASK), Some(DND_COPY));
    assert_eq!(negotiate_dnd_action(DND_COPY | DND_MOVE, DND_MOVE | DND_ASK, 0), Some(DND_MOVE));
    assert_eq!(negotiate_dnd_action(DND_ASK, DND_ASK, 0), Some(DND_ASK));
    assert_eq!(negotiate_dnd_action(DND_COPY, DND_MOVE, 0), None);
}

#[test]
fn an_empty_destination_mask_has_chosen_nothing() {
    assert_eq!(negotiate_dnd_action(7, 0, 0), None);
}

#[test]
fn a_legacy_destination_takes_copy() {
    let n = DragNegotiation::enter(DND_COPY | DND_MOVE, 2);
    assert_eq!(n.action, Some(DND_COPY));
    assert!(n.action_announced);
    let n = DragNegotiation::enter(DND_MOVE, 2);
    assert_eq!(n.action, None);
    let n = DragNegotiation::enter(DND_COPY, 3);
    assert_eq!((n.action, n.action_announced, n.offer_actions), (None, false, 0));
}

#[test]
fn set_actions_renegotiates_and_announces_once() {
    let mut n = DragNegotiation::enter(DND_COPY | DND_MOVE, 3);
    assert_eq!(n.set_destination_actions(DND_COPY | DND_MOVE, DND_MOVE), Ok(Some(DND_MOVE)));
    assert_eq!(n.action, Some(DND_MOVE));
    assert_eq!(n.set_destination_actions(DND_COPY | DND_MOVE, DND_MOVE), Ok(None));
    assert_eq!(n.set_destination_actions(DND_ASK, 0), Ok(Some(0)));
    assert_eq!(n.action, None);
}

#[test]
fn set_actions_refuses_bad_masks_and_leaves_the_state() {
    let mut n = DragNegotiation::enter(DND_COPY, 3);
    let before = n;
    assert_eq!(n.set_destination_actions(8, 0), Err(DndError::InvalidActionMask));
    assert_eq!(n.set_destination_actions(3, 8), Err(DndError::InvalidAction));
    assert_eq!(n.set_destination_actions(3, 3), Err(DndError::InvalidAction));
    assert_eq!(n.set_destination_actions(3, DND_ASK), Err(DndError::InvalidAction));
    assert_eq!(n, before);
}

#[test]
fn drop_and_finish_need_a_negotiated_action() {
    let mut n = DragNegotiation::enter(DND_COPY | DND_ASK, 3);
    assert!(!n.drop_valid(3, true));
    assert_eq!(n.set_destination_actions(DND_ASK, DND_ASK), Ok(Some(DND_ASK)));
    assert!(n.drop_valid(3, true));
    assert!(!n.drop_valid(3, false));
    assert!(n.drop_valid(2, false));
    assert!(!n.finish_valid(true, true), "ask cannot be finished");
    assert_eq!(n.set_destination_actions(DND_COPY, 0), Ok(Some(DND_COPY)));
    assert!(n.finish_valid(true, true));
    assert!(!n.finish_valid(false, true));
}

#[test]
fn a_drag_source_must_set_actions_from_version_3() {
    assert_eq!(start_drag_actions(2, None), Some(DND_COPY));
    assert_eq!(start_drag_actions(3, None), None);
    assert_eq!(start_drag_actions(3, Some(DND_MOVE | DND_ASK)), Some(DND_MOVE | DND_ASK));
}
