use compositor::input_clock::InputClock;
use compositor::keyboard::{
    char_to_keycode, keycode_to_mod, plan_text_input, ModifierState, TextInputStep, MOD_LOCK,
    MOD_SHIFT,
};
use compositor::text_input::{preedit_cursor, TextInputModel};

#[test]
fn characters_map_to_us_qwerty_keys() {
    assert_eq!(char_to_keycode('a'), Some((30, false)));
    assert_eq!(char_to_keycode('A'), Some((30, true)));
    assert_eq!(char_to_keycode('z'), Some((44, false)));
    assert_eq!(char_to_keycode('1'), Some((2, false)));
    assert_eq!(char_to_keycode('0'), Some((11, false)));
    assert_eq!(char_to_keycode('!'), Some((2, true)));
    assert_eq!(char_to_keycode('\n'), Some((28, false)));
    assert_eq!(char_to_keycode('é'), None);
}

#[test]
fn modifier_keys_name_their_bits() {
    assert_eq!(keycode_to_mod(42), MOD_SHIFT);
    assert_eq!(keycode_to_mod(54), MOD_SHIFT);
    assert_eq!(keycode_to_mod(58), MOD_LOCK);
    assert_eq!(keycode_to_mod(30), 0);
}

#[test]
fn press_then_release_clears_a_modifier_and_caps_lock_toggles() {
    let mut m = ModifierState::new();
    assert!(m.update_modifiers(42, true));
    assert_eq!(m.depressed, MOD_SHIFT);
    assert!(m.update_modifiers(42, false));
    assert_eq!(m.depressed, 0);
    assert!(!m.update_modifiers(30, true));
    m.update_modifiers(58, true);
    assert_eq!(m.locked, MOD_LOCK);
    m.update_modifiers(58, false);
    assert_eq!(m.locked, MOD_LOCK);
    m.update_modifiers(58, true);
    assert_eq!(m.locked, 0);
}

#[test]
fn an_observed_caps_lock_replaces_the_toggle() {
    let mut m = ModifierState::new();
    let u = m.key_input(58, true, Some(true));
    assert!(u.lock_snapshot_changed);
    assert!(!u.key_is_modifier, "the snapshot already includes the key");
    assert_eq!(m.locked, MOD_LOCK);
    let u = m.key_input(42, true, Some(true));
    assert!(!u.lock_snapshot_changed);
    assert!(u.key_is_modifier);
    assert_eq!(m.for_synthesis(), ModifierState { depressed: 0, locked: 0 });
}

#[test]
fn text_is_planned_as_keys_with_commit_runs_between() {
    let steps = plan_text_input("hi€é!");
    assert_eq!(
        steps,
        vec![
            TextInputStep::Key { keycode: 35, shift: false },
            TextInputStep::Key { keycode: 23, shift: false },
            TextInputStep::Commit(vec!['€', 'é']),
            TextInputStep::Key { keycode: 2, shift: true },
        ]
    );
    assert!(plan_text_input("").is_empty());
}

#[test]
fn seat_time_anchors_the_browser_clock_and_never_goes_back() {
    let mut c = InputClock::new();
    assert_eq!(c.input_event_time(1_000, 5_000), 1_000);
    assert_eq!(c.input_event_time(1_010, 5_016), 1_016);
    assert_eq!(c.input_event_time(1_020, 0), 1_020);
    assert_eq!(c.input_event_time(900, 0), 1_020);
}

#[test]
fn touch_spacing_is_kept_per_owner() {
    let mut c = InputClock::new();
    assert_eq!(c.touch_event_time(2_000, 7, 10_000), 2_000);
    assert_eq!(c.touch_event_time(2_005, 7, 10_016), 2_016);
    c.reset_touch_clock(Some(7));
    assert_eq!(c.touch_time_anchor, None);
}

#[test]
fn preedit_cursor_is_clamped_to_the_text() {
    assert_eq!(preedit_cursor(3, 10), 3);
    assert_eq!(preedit_cursor(30, 10), 10);
}

#[test]
fn an_enable_commit_requests_a_panel_and_counts() {
    let mut ti = TextInputModel::new(true);
    ti.enable();
    ti.set_content_type(1, 2);
    let out = ti.commit();
    assert_eq!(out.done, Some(1));
    let report = out.report.expect("a state change is reported");
    assert!(report.enabled && report.requested);
    assert_eq!((report.hint, report.purpose), (1, 2));
    let again = ti.commit();
    assert_eq!(again.done, Some(2));
    assert!(again.report.is_none());
}

#[test]
fn after_leave_commits_owe_nothing() {
    let mut ti = TextInputModel::new(true);
    ti.enable();
    ti.commit();
    assert!(ti.leave());
    ti.enable();
    let out = ti.commit();
    assert_eq!(out.done, None);
    assert!(!ti.enabled);
    assert_eq!(ti.set_preedit(String::from("ka"), 2), Some(2));
    assert_eq!(ti.clear_preedit(), Some(2));
    assert_eq!(ti.clear_preedit(), None);
}

#[test]
fn a_committed_disable_ends_the_composition() {
    let mut ti = TextInputModel::new(true);
    ti.enable();
    ti.set_cursor_rectangle((1, 2, 3, 4));
    ti.commit();
    assert_eq!(ti.set_preedit(String::from("日本"), 3), Some(1));
    ti.disable();
    let out = ti.commit();
    assert!(ti.preedit.is_none());
    let report = out.report.expect("disabling is reported");
    assert!(!report.enabled && !report.requested);
    assert_eq!(report.cursor_rect, None);
}

#[test]
fn committed_text_is_applied_by_the_current_serial() {
    let mut ti = TextInputModel::new(true);
    ti.enable();
    ti.commit();
    ti.set_preedit(String::from("にほ"), 2);
    assert_eq!(ti.commit_text(), 1);
    assert!(ti.preedit.is_none());
}
