use compositor::popup::{FocusMove, PopupGrabs};

#[test]
fn a_grabbing_popup_takes_the_keyboard_once() {
    let mut g = PopupGrabs::new();
    assert!(g.is_empty());
    assert_eq!(g.grab(1), Some(FocusMove { leave: None, enter: Some(1) }));
    assert_eq!(g.grab(1), None, "a re-grab must not enter twice");
    assert_eq!(g.keyboard_popup(), Some(1));
    assert!(g.contains(1));
}

#[test]
fn closing_a_submenu_returns_to_its_parent_menu() {
    let mut g = PopupGrabs::new();
    g.grab(1);
    assert_eq!(g.grab(2), Some(FocusMove { leave: Some(1), enter: Some(2) }));
    assert_eq!(g.release(2), Some(FocusMove { leave: Some(2), enter: Some(1) }));
    assert_eq!(g.keyboard_popup(), Some(1));
    assert_eq!(g.release(1), Some(FocusMove { leave: Some(1), enter: None }));
    assert_eq!(g.keyboard_popup(), None);
    assert!(g.is_empty());
}

#[test]
fn releasing_an_unfocused_popup_disturbs_nothing() {
    let mut g = PopupGrabs::new();
    g.grab(1);
    g.grab(2);
    assert_eq!(g.release(1), None);
    assert_eq!(g.keyboard_popup(), Some(2));
    assert!(!g.contains(1));
}

#[test]
fn dismissal_tears_down_topmost_first() {
    let mut g = PopupGrabs::new();
    g.grab(1);
    g.grab(2);
    g.grab(3);
    let dismissed = g.dismiss_all();
    assert_eq!(
        dismissed,
        vec![
            (3, Some(FocusMove { leave: Some(3), enter: Some(2) })),
            (2, Some(FocusMove { leave: Some(2), enter: Some(1) })),
            (1, Some(FocusMove { leave: Some(1), enter: None })),
        ]
    );
    assert!(g.is_empty());
    assert_eq!(g.keyboard_popup(), None);
}

#[test]
fn a_dead_focus_holder_hands_the_keyboard_down() {
    let mut g = PopupGrabs::new();
    g.grab(1);
    g.grab(2);
    assert_eq!(g.surface_died(2), Some(Some(1)));
    assert_eq!(g.surface_died(9), None);
    assert_eq!(g.surface_died(1), Some(None));
}

#[test]
fn dismissal_after_a_regrab_walks_down_the_new_order() {
    let mut g = PopupGrabs::new();
    g.grab(1);
    g.grab(2);
    g.release(2);
    g.grab(3);
    g.grab(1);
    // Stack is now [3, 1] with the keyboard on 1.
    let dismissed = g.dismiss_all();
    assert_eq!(
        dismissed,
        vec![
            (1, Some(FocusMove { leave: Some(1), enter: Some(3) })),
            (3, Some(FocusMove { leave: Some(3), enter: None })),
        ]
    );
}
