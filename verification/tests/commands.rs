use compositor::commands::{
    command_step, surface_destroyed, toplevel_committed, Command, CompositorState, PointerEnter, Toplevel,
    WireAction,
};
use compositor::geometry::SizeHints;

fn key(serial: u32, time: u32, keycode: u32, pressed: bool) -> WireAction {
    WireAction::Key { serial, time, keycode, pressed }
}

fn mods(serial: u32, depressed: u32, locked: u32) -> WireAction {
    WireAction::Modifiers { serial, depressed, locked }
}

fn toplevel(min: (i32, i32), max: (i32, i32)) -> Toplevel {
    Toplevel { hints: SizeHints { min_size: min, max_size: max }, maximized: false, fullscreen: false }
}

#[test]
fn shift_key_is_sent_then_announced() {
    let mut st = CompositorState::new(60_000);
    let out = command_step(
        &mut st,
        Command::KeyInput { keycode: 42, pressed: true, caps_lock: None, time_ms: 0, now_ms: 500 },
    );
    assert_eq!(out, vec![key(1, 500, 42, true), mods(2, 1, 0)]);
    assert_eq!(st.serial, 2);
    assert_eq!(st.modifiers.depressed, 1);
}

#[test]
fn plain_key_sends_no_modifiers() {
    let mut st = CompositorState::new(60_000);
    let out = command_step(
        &mut st,
        Command::KeyInput { keycode: 30, pressed: true, caps_lock: None, time_ms: 0, now_ms: 10 },
    );
    assert_eq!(out, vec![key(1, 10, 30, true)]);
}

#[test]
fn observed_caps_lock_is_not_toggled_again() {
    let mut st = CompositorState::new(60_000);
    let out = command_step(
        &mut st,
        Command::KeyInput { keycode: 58, pressed: true, caps_lock: Some(true), time_ms: 0, now_ms: 10 },
    );
    // The snapshot is announced before the key; the key adds nothing.
    assert_eq!(out, vec![mods(1, 0, 2), key(2, 10, 58, true)]);
    assert_eq!(st.modifiers.locked, 2);
    // Repeating the keydown must not invert the lock.
    let out = command_step(
        &mut st,
        Command::KeyInput { keycode: 58, pressed: true, caps_lock: Some(true), time_ms: 0, now_ms: 11 },
    );
    assert_eq!(out, vec![key(3, 11, 58, true)]);
    assert_eq!(st.modifiers.locked, 2);
}

#[test]
fn capital_letter_is_typed_under_synthetic_shift() {
    let mut st = CompositorState::new(60_000);
    let out = command_step(
        &mut st,
        Command::TextInput { text: "A".to_string(), has_keyboard_focus: true, now_ms: 500 },
    );
    assert_eq!(
        out,
        vec![
            WireAction::ClearStalePreedit,
            key(1, 500, 42, true),
            mods(2, 1, 0),
            key(3, 500, 30, true),
            key(4, 500, 30, false),
            key(5, 500, 42, false),
            mods(6, 0, 0),
        ]
    );
    assert_eq!(st.serial, 6);
}

#[test]
fn held_shift_is_lifted_for_text_and_restored() {
    let mut st = CompositorState::new(60_000);
    command_step(
        &mut st,
        Command::KeyInput { keycode: 42, pressed: true, caps_lock: None, time_ms: 0, now_ms: 100 },
    );
    let out = command_step(
        &mut st,
        Command::TextInput { text: "a".to_string(), has_keyboard_focus: true, now_ms: 100 },
    );
    assert_eq!(
        out,
        vec![
            WireAction::ClearStalePreedit,
            mods(3, 0, 0),
            key(4, 100, 30, true),
            key(5, 100, 30, false),
            mods(6, 1, 0),
        ]
    );
    assert_eq!(st.modifiers.depressed, 1);
}

#[test]
fn unmapped_characters_go_through_the_input_method_in_order() {
    let mut st = CompositorState::new(60_000);
    let out = command_step(
        &mut st,
        Command::TextInput { text: "hé!".to_string(), has_keyboard_focus: true, now_ms: 7 },
    );
    assert_eq!(
        out,
        vec![
            WireAction::ClearStalePreedit,
            key(1, 7, 35, true),
            key(2, 7, 35, false),
            WireAction::CommitString { text: vec!['é'] },
            key(3, 7, 42, true),
            mods(4, 1, 0),
            key(5, 7, 2, true),
            key(6, 7, 2, false),
            key(7, 7, 42, false),
            mods(8, 0, 0),
        ]
    );
}

#[test]
fn text_without_keyboard_focus_is_dropped() {
    let mut st = CompositorState::new(60_000);
    let out = command_step(
        &mut st,
        Command::TextInput { text: "abc".to_string(), has_keyboard_focus: false, now_ms: 7 },
    );
    assert!(out.is_empty());
    assert_eq!(st.serial, 0);
}

#[test]
fn preedit_cursor_is_capped_at_text_length() {
    let mut st = CompositorState::new(60_000);
    let out = command_step(
        &mut st,
        Command::Preedit { text: "ab".to_string(), cursor: 9, has_keyboard_focus: true },
    );
    assert_eq!(out, vec![WireAction::Preedit { text: "ab".to_string(), cursor: 2 }]);
    let out = command_step(
        &mut st,
        Command::Preedit { text: "ab".to_string(), cursor: 1, has_keyboard_focus: false },
    );
    assert!(out.is_empty());
}

#[test]
fn axis_needs_focus_and_travel() {
    let mut st = CompositorState::new(60_000);
    let axis = |focused: bool, zero: bool, stop: bool, live: bool| Command::PointerAxis {
        pointer_focused: focused,
        entered_live: live,
        dx_zero: zero,
        dy_zero: zero,
        v120_x: 0,
        v120_y: 0,
        source: Some(1),
        stop,
        time_ms: 0,
        now_ms: 40,
    };
    assert!(command_step(&mut st, axis(false, false, false, true)).is_empty());
    assert!(command_step(&mut st, axis(true, true, false, true)).is_empty());
    assert!(command_step(&mut st, axis(true, false, false, false)).is_empty());
    assert_eq!(
        command_step(&mut st, axis(true, true, true, true)),
        vec![WireAction::Axis { time: 40, v120_x: 0, v120_y: 0, source: Some(1), stop: true }]
    );
}

#[test]
fn resize_configures_within_hints_and_reissues_enters_on_new_density() {
    let mut st = CompositorState::new(60_000);
    st.toplevels.insert(5, toplevel((200, 100), (0, 0)));
    let out = command_step(
        &mut st,
        Command::SurfaceResize { surface_id: 5, width: 300, height: 200, scale_120: 240 },
    );
    assert_eq!(
        out,
        vec![
            WireAction::RefreshOutput { surface_id: 5 },
            WireAction::Configure {
                surface_id: 5,
                width: 200,
                height: 100,
                maximized: false,
                fullscreen: false,
                serial: 1,
            },
            WireAction::FireFrameCallbacks { surface_id: 5 },
            WireAction::NoteNativeSize { surface_id: 5 },
        ]
    );
    assert_eq!(st.surface_sizes.get(5), Some((150, 100)));
    assert_eq!(st.surface_scales.get(5), Some(240));
    assert!(st.pending_kb_reenter);
}

#[test]
fn resize_forgets_pointer_on_that_toplevel_only_when_density_moves() {
    let mut st = CompositorState::new(60_000);
    st.toplevels.insert(5, toplevel((0, 0), (0, 0)));
    st.pointer_entered = PointerEnter::Root(5);
    let out = command_step(
        &mut st,
        Command::SurfaceResize { surface_id: 5, width: 800, height: 600, scale_120: 120 },
    );
    assert!(!out.contains(&WireAction::ForgetPointerEnter));
    assert_eq!(st.pointer_entered, PointerEnter::Root(5));
    assert!(!st.pending_kb_reenter);
    let out = command_step(
        &mut st,
        Command::SurfaceResize { surface_id: 5, width: 800, height: 600, scale_120: 180 },
    );
    assert_eq!(out.last(), Some(&WireAction::ForgetPointerEnter));
    assert_eq!(st.pointer_entered, PointerEnter::Nothing);
}

#[test]
fn resize_of_unknown_surface_only_stores_size() {
    let mut st = CompositorState::new(60_000);
    let out = command_step(
        &mut st,
        Command::SurfaceResize { surface_id: 9, width: 640, height: 480, scale_120: 0 },
    );
    assert_eq!(
        out,
        vec![
            WireAction::RefreshOutput { surface_id: 9 },
            WireAction::FireFrameCallbacks { surface_id: 9 },
            WireAction::NoteNativeSize { surface_id: 9 },
        ]
    );
    assert_eq!(st.surface_sizes.get(9), Some((640, 480)));
    assert_eq!(st.surface_scales.get(9), None);
    assert_eq!(st.serial, 0);
}

fn focus(surface_id: u16, focus_holder: bool) -> Command {
    Command::SurfaceFocus { surface_id, focus_holder, popup_holds: false }
}

fn enter(surface_id: Option<u16>, serial: u32, depressed: u32) -> WireAction {
    WireAction::KeyboardEnter { surface_id, serial, modifiers_serial: serial + 1, depressed, locked: 0 }
}

#[test]
fn refocus_sends_nothing() {
    let mut st = CompositorState::new(60_000);
    st.toplevels.insert(3, toplevel((0, 0), (0, 0)));
    let out = command_step(&mut st, focus(3, false));
    assert_eq!(out, vec![WireAction::ClearPopupFocus, enter(Some(3), 1, 0)]);
    assert!(command_step(&mut st, focus(3, true)).is_empty());
    assert_eq!(st.focused_surface_id, 3);
    assert_eq!(st.serial, 2);
}

#[test]
fn focus_change_leaves_the_holder_and_states_held_modifiers() {
    let mut st = CompositorState::new(60_000);
    st.toplevels.insert(3, toplevel((0, 0), (0, 0)));
    st.toplevels.insert(4, toplevel((0, 0), (0, 0)));
    command_step(&mut st, focus(3, false));
    command_step(
        &mut st,
        Command::KeyInput { keycode: 29, pressed: true, caps_lock: None, time_ms: 0, now_ms: 1 },
    );
    let out = command_step(&mut st, focus(4, true));
    assert_eq!(
        out,
        vec![WireAction::KeyboardLeave { serial: 5 }, WireAction::ClearPopupFocus, enter(Some(4), 6, 4)]
    );
    // Focus moving to an id with no toplevel enters nothing.
    let out = command_step(&mut st, focus(9, true));
    assert_eq!(out, vec![WireAction::KeyboardLeave { serial: 8 }, WireAction::ClearPopupFocus]);
}

#[test]
fn destroying_the_focused_toplevel_lets_its_id_be_entered_again() {
    let mut st = CompositorState::new(60_000);
    st.toplevels.insert(3, toplevel((0, 0), (0, 0)));
    command_step(&mut st, focus(3, false));
    command_step(&mut st, Command::SurfaceResize { surface_id: 3, width: 10, height: 10, scale_120: 0 });
    command_step(&mut st, Command::RequestFrame { surface_id: 3, now_ms: 5 });
    st.pointer_entered = PointerEnter::Root(3);
    let out = surface_destroyed(&mut st, 3);
    assert_eq!(out, vec![WireAction::ForgetPointerEnter, WireAction::SurfaceDestroyed { surface_id: 3 }]);
    assert_eq!(st.focused_surface_id, 0);
    assert_eq!(st.toplevels.get(3).map(|_| ()), None);
    assert_eq!(st.surface_sizes.get(3), None);
    assert_eq!(st.last_request_frame_ms.get(3), None);
    assert_eq!(st.pointer_entered, PointerEnter::Nothing);
    st.toplevels.insert(3, toplevel((0, 0), (0, 0)));
    let out = command_step(&mut st, focus(3, false));
    assert_eq!(out.last(), Some(&enter(Some(3), 4, 0)));
    assert!(surface_destroyed(&mut st, 0).is_empty());
}

#[test]
fn commit_fires_frames_by_pacing() {
    let mut st = CompositorState::new(60_000);
    st.toplevels.insert(2, toplevel((0, 0), (0, 0)));
    // Never paced: fire at once, dropping any latch.
    assert_eq!(
        toplevel_committed(&mut st, 2, true, false, 100),
        vec![
            WireAction::DropPendingPresentation { surface_id: 2 },
            WireAction::FireFrameCallbacks { surface_id: 2 },
        ]
    );
    command_step(&mut st, Command::RequestFrame { surface_id: 2, now_ms: 1000 });
    // Paced with a latched presentation: fire at it.
    assert_eq!(
        toplevel_committed(&mut st, 2, true, false, 1200),
        vec![WireAction::FirePendingPresentation { surface_id: 2 }]
    );
    // Paced without one: the server drives frames.
    assert!(toplevel_committed(&mut st, 2, false, false, 1499).is_empty());
    // Pacing lapsed after the grace window.
    assert_eq!(toplevel_committed(&mut st, 2, false, false, 1500).len(), 2);
}

#[test]
fn density_change_reenters_the_keyboard_holder_on_the_next_commit() {
    let mut st = CompositorState::new(60_000);
    st.toplevels.insert(2, toplevel((0, 0), (0, 0)));
    command_step(&mut st, Command::SurfaceResize { surface_id: 2, width: 10, height: 10, scale_120: 240 });
    assert!(st.pending_kb_reenter);
    let serial = st.serial;
    command_step(&mut st, Command::RequestFrame { surface_id: 2, now_ms: 0 });
    let out = toplevel_committed(&mut st, 2, false, true, 10);
    assert_eq!(
        out,
        vec![WireAction::KeyboardLeave { serial: serial + 1 }, enter(None, serial + 2, 0)]
    );
    assert!(!st.pending_kb_reenter);
    assert!(toplevel_committed(&mut st, 2, false, true, 20).is_empty());
}

#[test]
fn close_reaches_live_toplevels_only() {
    let mut st = CompositorState::new(60_000);
    st.toplevels.insert(4, toplevel((0, 0), (0, 0)));
    assert_eq!(
        command_step(&mut st, Command::SurfaceClose { surface_id: 4 }),
        vec![WireAction::Close { surface_id: 4 }]
    );
    assert!(command_step(&mut st, Command::SurfaceClose { surface_id: 6 }).is_empty());
}

#[test]
fn clipboard_offer_announces_and_answers_its_generation() {
    let mut st = CompositorState::new(60_000);
    let out = command_step(
        &mut st,
        Command::ClipboardOffer { mime_type: "image/png".to_string(), data: vec![1, 2, 3] },
    );
    assert_eq!(
        out,
        vec![
            WireAction::CancelSelectionSource,
            WireAction::OfferSelection,
            WireAction::ClipboardOwner {
                wayland: false,
                generation: 1,
                mime_types: vec!["image/png".to_string()],
            },
        ]
    );
    let read = command_step(
        &mut st,
        Command::ClipboardGet { generation: 1, mime_type: "image/png".to_string() },
    );
    assert_eq!(read, vec![WireAction::ClipboardData { bytes: Some(vec![1, 2, 3]) }]);
    let stale = command_step(
        &mut st,
        Command::ClipboardGet { generation: 0, mime_type: "image/png".to_string() },
    );
    assert_eq!(stale, vec![WireAction::ClipboardData { bytes: None }]);
}

#[test]
fn text_clipboard_answers_aliases() {
    let mut st = CompositorState::new(60_000);
    command_step(
        &mut st,
        Command::ClipboardOffers { items: vec![("text/plain".to_string(), b"hi".to_vec())] },
    );
    let read = command_step(
        &mut st,
        Command::ClipboardGet { generation: 1, mime_type: "UTF8_STRING".to_string() },
    );
    assert_eq!(read, vec![WireAction::ClipboardData { bytes: Some(b"hi".to_vec()) }]);
    let listed = command_step(&mut st, Command::ClipboardListMimes);
    match &listed[..] {
        [WireAction::ClipboardMimes { mime_types }] => {
            assert_eq!(mime_types[0], "text/plain");
            assert!(mime_types.iter().any(|m| m == "UTF8_STRING"));
        }
        other => panic!("unexpected {other:?}"),
    }
}

#[test]
fn wayland_selection_is_read_from_its_owner() {
    let mut st = CompositorState::new(60_000);
    st.wayland_selection_mimes = Some(vec!["text/html".to_string()]);
    let read = command_step(
        &mut st,
        Command::ClipboardGet { generation: 0, mime_type: "text/html".to_string() },
    );
    assert_eq!(
        read,
        vec![WireAction::ReadWaylandSelection { mime_type: "text/html".to_string(), generation: 0 }]
    );
    assert_eq!(
        command_step(&mut st, Command::ClipboardListMimes),
        vec![WireAction::ClipboardMimes { mime_types: vec!["text/html".to_string()] }]
    );
}

#[test]
fn clearing_the_clipboard_empties_it() {
    let mut st = CompositorState::new(60_000);
    command_step(
        &mut st,
        Command::ClipboardOffer { mime_type: "text/plain".to_string(), data: b"x".to_vec() },
    );
    let out = command_step(&mut st, Command::ClipboardClear);
    assert_eq!(
        out.last(),
        Some(&WireAction::ClipboardOwner { wayland: false, generation: 2, mime_types: vec![] })
    );
    let read = command_step(
        &mut st,
        Command::ClipboardGet { generation: 2, mime_type: "text/plain".to_string() },
    );
    assert_eq!(read, vec![WireAction::ClipboardData { bytes: None }]);
}

#[test]
fn released_keys_then_their_modifiers() {
    let mut st = CompositorState::new(60_000);
    command_step(
        &mut st,
        Command::KeyInput { keycode: 29, pressed: true, caps_lock: None, time_ms: 0, now_ms: 5 },
    );
    assert_eq!(st.modifiers.depressed, 4);
    let out = command_step(&mut st, Command::ReleaseKeys { keycodes: vec![29, 30], now_ms: 9 });
    assert_eq!(out, vec![key(3, 9, 29, false), key(4, 9, 30, false), mods(5, 0, 0)]);
    assert_eq!(st.modifiers.depressed, 0);
}

#[test]
fn touch_toggle_cancels_and_readvertises() {
    let mut st = CompositorState::new(60_000);
    assert_eq!(
        command_step(&mut st, Command::SetTouchEnabled { enabled: true }),
        vec![WireAction::SeatCapabilities { capabilities: 7 }]
    );
    assert!(command_step(&mut st, Command::SetTouchEnabled { enabled: true }).is_empty());
    assert_eq!(
        command_step(&mut st, Command::SetTouchEnabled { enabled: false }),
        vec![WireAction::CancelTouches, WireAction::SeatCapabilities { capabilities: 3 }]
    );
}

#[test]
fn refresh_moves_only_on_a_real_change() {
    let mut st = CompositorState::new(60_000);
    assert!(command_step(&mut st, Command::SetRefreshRate { mhz: 61_000 }).is_empty());
    assert_eq!(
        command_step(&mut st, Command::SetRefreshRate { mhz: 120_000 }),
        vec![WireAction::AnnounceOutputs]
    );
    assert_eq!(st.output_refresh_mhz, 120_000);
}

#[test]
fn request_frame_is_remembered_and_fired_for_toplevels() {
    let mut st = CompositorState::new(60_000);
    st.toplevels.insert(2, toplevel((0, 0), (0, 0)));
    assert_eq!(
        command_step(&mut st, Command::RequestFrame { surface_id: 2, now_ms: 77 }),
        vec![WireAction::RequestFrame { surface_id: 2 }]
    );
    assert!(command_step(&mut st, Command::RequestFrame { surface_id: 8, now_ms: 78 }).is_empty());
    assert_eq!(st.last_request_frame_ms.get(2), Some(77));
    assert_eq!(st.last_request_frame_ms.get(8), Some(78));
    assert_eq!(
        command_step(&mut st, Command::Recomposite { surface_id: 2 }),
        vec![WireAction::Recomposite { surface_id: 2 }]
    );
    assert!(command_step(&mut st, Command::Recomposite { surface_id: 8 }).is_empty());
}

#[test]
fn pointer_is_left_once() {
    let mut st = CompositorState::new(60_000);
    st.pointer_entered = PointerEnter::Other(4);
    assert!(command_step(&mut st, Command::PointerLeave { surface_id: 5, entered_live: true }).is_empty());
    assert_eq!(
        command_step(&mut st, Command::PointerLeave { surface_id: 4, entered_live: true }),
        vec![WireAction::LeavePointer { serial: Some(1) }]
    );
    assert!(command_step(&mut st, Command::PointerLeave { surface_id: 4, entered_live: true }).is_empty());
}

#[test]
fn primary_selection_is_taken_and_reoffered() {
    let mut st = CompositorState::new(60_000);
    let out = command_step(
        &mut st,
        Command::PrimaryOffer { mime_type: "text/plain".to_string(), data: b"p".to_vec() },
    );
    assert_eq!(out, vec![WireAction::CancelPrimarySource, WireAction::OfferPrimarySelection]);
    assert_eq!(st.external_primary.as_ref().map(|p| p.items.len()), Some(1));
    command_step(&mut st, Command::PrimaryOffers { items: vec![] });
    assert!(st.external_primary.is_none());
    assert_eq!(st.clipboard_generation, 0);
}

#[test]
fn screencast_composites_a_live_toplevel_when_it_starts() {
    let mut st = CompositorState::new(60_000);
    st.toplevels.insert(3, toplevel((0, 0), (0, 0)));
    assert_eq!(
        command_step(&mut st, Command::SetScreenCastActive { surface_id: 3, active: true }),
        vec![WireAction::CompositeNow { surface_id: 3 }]
    );
    assert_eq!(st.screencast.get(3), Some(true));
    assert!(command_step(&mut st, Command::SetScreenCastActive { surface_id: 3, active: false }).is_empty());
    assert_eq!(st.screencast.get(3), Some(false));
    assert!(command_step(&mut st, Command::SetScreenCastActive { surface_id: 9, active: true }).is_empty());
}

#[test]
fn serials_wrap_past_the_top() {
    let mut st = CompositorState::new(60_000);
    st.serial = u32::MAX;
    assert_eq!(st.next_serial(), 0);
    let out = command_step(
        &mut st,
        Command::KeyInput { keycode: 30, pressed: false, caps_lock: None, time_ms: 0, now_ms: 1 },
    );
    assert_eq!(out, vec![key(1, 1, 30, false)]);
}

#[test]
fn browser_drag_is_left_once() {
    let mut st = CompositorState::new(60_000);
    let out = command_step(&mut st, Command::DragEnter { target_found: true, device_available: true });
    assert_eq!(out, vec![WireAction::CancelClientDrag, WireAction::DragDeviceEnter { serial: 1 }]);
    assert_eq!(st.drag, Some(false));
    assert_eq!(command_step(&mut st, Command::DragMotion { target_found: true }), vec![WireAction::DragDeviceMotion]);
    assert!(command_step(&mut st, Command::DragMotion { target_found: false }).is_empty());
    // A new enter ends the undropped session with one leave.
    let out = command_step(&mut st, Command::DragEnter { target_found: false, device_available: false });
    assert_eq!(out, vec![WireAction::CancelClientDrag, WireAction::DragDeviceLeave]);
    assert_eq!(st.drag, None);
    assert!(command_step(&mut st, Command::DragDrop).is_empty());
    command_step(&mut st, Command::DragEnter { target_found: true, device_available: true });
    assert_eq!(command_step(&mut st, Command::DragDrop), vec![WireAction::DragDeviceDrop]);
    assert_eq!(st.drag, Some(true));
    // The drop already sent the terminal leave.
    assert!(command_step(&mut st, Command::DragLeave).is_empty());
    assert_eq!(st.drag, None);
}

#[test]
fn drag_without_a_data_device_keeps_no_session() {
    let mut st = CompositorState::new(60_000);
    let out = command_step(&mut st, Command::DragEnter { target_found: true, device_available: false });
    assert_eq!(out, vec![WireAction::CancelClientDrag, WireAction::DragDeviceEnter { serial: 1 }]);
    assert_eq!(st.drag, None);
    assert!(command_step(&mut st, Command::DragCancel).is_empty());
}
