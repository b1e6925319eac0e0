//! The compositor's command handler as a state machine: one command from the
//! frontend, the seat, focus, resize, clipboard and pacing state it changes,
//! and the Wayland sends and replies that carry the decision out.
//!
//! What a command decides is a function of the state and the command alone.
//! The host runs the loop: it hit-tests with its float geometry, hands the
//! outcome in as plain flags, and performs each returned action on the
//! client resources it owns.
use vstd::prelude::*;
use crate::table::Table;
use crate::keyboard::{
    ModifierState,
    modifiers_after_key,
    modifiers_with_caps,
    modifier_bit,
    text_plan,
    PlannedStep,
    TextInputStep,
    plan_text_input,
    KEY_LEFTSHIFT,
    KEY_CAPSLOCK,
    MOD_SHIFT,
    MOD_LOCK,
};
use crate::input_clock::{InputClock, input_time_step};
use crate::geometry::{SizeHints, fit_dimension, constrain_to_hints, spec_surface_resize, surface_resize};
use crate::clipboard::{
    ExternalClipboard,
    string_views,
    spec_clipboard_mimes,
    collect_clipboard_mime_types,
    has_exact,
    first_exact,
    has_text_like,
    first_text_like,
    is_text_alias,
    is_text_like,
};
use crate::seat::{SEAT_KEYBOARD, SEAT_POINTER, SEAT_TOUCH, seat_capabilities};
use crate::timing::{spec_refresh_update, refresh_rate_update, recently_paced, PACING_GRACE_MS};
use vstd::wrapping::u32_specs::wrapping_sub;
use crate::text_input::{spec_preedit_cursor, preedit_cursor};

verus! {

/// What the compositor knows of one toplevel: the size range its client
/// declared and the pane states it is shown in.
#[derive(Clone, Copy, Debug)]
pub struct Toplevel {
    pub hints: SizeHints,
    pub maximized: bool,
    pub fullscreen: bool,
}

/// Where the pointer's `wl_pointer.enter` currently stands.
#[derive(Clone, Copy, Debug, PartialEq, Eq, Structural)]
pub enum PointerEnter {
    /// No surface holds the pointer.
    Nothing,
    /// The root surface of this toplevel holds it.
    Root(u16),
    /// A subsurface or popup of this toplevel holds it (0: of none).
    Other(u16),
}

/// The decision state of the compositor.
pub struct CompositorState {
    /// The last serial handed out.
    pub serial: u32,
    /// The seat's modifier masks.
    pub modifiers: ModifierState,
    /// The seat's timestamp clock.
    pub clock: InputClock,
    /// The toplevel holding keyboard focus, 0 for none.
    pub focused_surface_id: u16,
    pub pointer_entered: PointerEnter,
    /// The keyboard enter has to be reissued (a density changed).
    pub pending_kb_reenter: bool,
    /// Logical size each viewer asked for, by toplevel id.
    pub surface_sizes: Table<(i32, i32)>,
    /// Density each viewer draws at, in 120ths, by toplevel id.
    pub surface_scales: Table<u16>,
    /// Live toplevels, by id.
    pub toplevels: Table<Toplevel>,
    /// When the server last paced each toplevel, in compositor ms.
    pub last_request_frame_ms: Table<u32>,
    /// Advertised output refresh, in mHz.
    pub output_refresh_mhz: u32,
    /// Whether a direct-touch viewer is connected.
    pub touch_enabled: bool,
    /// Bumped on every change of clipboard authority.
    pub clipboard_generation: u64,
    /// The browser's selection, while it owns the clipboard.
    pub external_clipboard: Option<ExternalClipboard>,
    /// The MIME types of a Wayland client's selection, while it owns one.
    pub wayland_selection_mimes: Option<Vec<String>>,
    /// The browser's primary selection, while it owns one.
    pub external_primary: Option<ExternalClipboard>,
    /// Toplevels a screencast is following (`true`), by id.
    pub screencast: Table<bool>,
    /// The browser drag in progress, if any: whether it has dropped.
    pub drag: Option<bool>,
}

/// The state as mathematical values.
#[verifier::ext_equal]
pub struct StateView {
    pub serial: u32,
    pub modifiers: ModifierState,
    pub clock: InputClock,
    pub focused_surface_id: u16,
    pub pointer_entered: PointerEnter,
    pub pending_kb_reenter: bool,
    pub surface_sizes: Map<u16, (i32, i32)>,
    pub surface_scales: Map<u16, u16>,
    pub toplevels: Map<u16, Toplevel>,
    pub last_request_frame_ms: Map<u16, u32>,
    pub output_refresh_mhz: u32,
    pub touch_enabled: bool,
    pub clipboard_generation: u64,
    pub external_clipboard: Option<Seq<(String, Vec<u8>)>>,
    pub wayland_selection_mimes: Option<Seq<String>>,
    pub external_primary: Option<Seq<(String, Vec<u8>)>>,
    pub screencast: Map<u16, bool>,
    pub drag: Option<bool>,
}

impl View for CompositorState {
    type V = StateView;

    open spec fn view(&self) -> StateView {
        StateView {
            serial: self.serial,
            modifiers: self.modifiers,
            clock: self.clock,
            focused_surface_id: self.focused_surface_id,
            pointer_entered: self.pointer_entered,
            pending_kb_reenter: self.pending_kb_reenter,
            surface_sizes: self.surface_sizes@,
            surface_scales: self.surface_scales@,
            toplevels: self.toplevels@,
            last_request_frame_ms: self.last_request_frame_ms@,
            output_refresh_mhz: self.output_refresh_mhz,
            touch_enabled: self.touch_enabled,
            clipboard_generation: self.clipboard_generation,
            external_clipboard: match self.external_clipboard {
                Some(cb) => Some(cb.items@),
                None => None,
            },
            wayland_selection_mimes: match self.wayland_selection_mimes {
                Some(m) => Some(m@),
                None => None,
            },
            external_primary: match self.external_primary {
                Some(cb) => Some(cb.items@),
                None => None,
            },
            screencast: self.screencast@,
            drag: self.drag,
        }
    }
}

/// One command from the frontend, with what the host measured for it.
///
/// `now_ms` is the compositor clock when the command is handled. Flags such
/// as `has_keyboard_focus` are the host's answers about the client
/// resources it holds.
pub enum Command {
    KeyInput { keycode: u32, pressed: bool, caps_lock: Option<bool>, time_ms: u32, now_ms: u32 },
    TextInput { text: String, has_keyboard_focus: bool, now_ms: u32 },
    Preedit { text: String, cursor: u16, has_keyboard_focus: bool },
    /// `pointer_focused`: the pointer (after the host's re-hit-test) is on
    /// the named surface. `dx_zero`/`dy_zero`: the smooth deltas, in
    /// surface-logical pixels, are zero. `entered_live`: the entered surface
    /// still exists.
    PointerAxis {
        pointer_focused: bool,
        entered_live: bool,
        dx_zero: bool,
        dy_zero: bool,
        v120_x: i16,
        v120_y: i16,
        source: Option<u8>,
        stop: bool,
        time_ms: u32,
        now_ms: u32,
    },
    /// The browser pointer left the view of `surface_id`; `entered_live`:
    /// the surface the pointer entered still exists.
    PointerLeave { surface_id: u16, entered_live: bool },
    SetTouchEnabled { enabled: bool },
    SurfaceResize { surface_id: u16, width: u16, height: u16, scale_120: u16 },
    /// `focus_holder`: some surface holds `wl_keyboard.enter` now;
    /// `popup_holds`: it is a grabbing popup.
    SurfaceFocus { surface_id: u16, focus_holder: bool, popup_holds: bool },
    SurfaceClose { surface_id: u16 },
    ClipboardOffer { mime_type: String, data: Vec<u8> },
    ClipboardOffers { items: Vec<(String, Vec<u8>)> },
    ClipboardClear,
    PrimaryOffer { mime_type: String, data: Vec<u8> },
    PrimaryOffers { items: Vec<(String, Vec<u8>)> },
    PrimaryClear,
    SetScreenCastActive { surface_id: u16, active: bool },
    /// A browser drag enters a view; `target_found`: the host's hit test
    /// found a surface under the point; `device_available`: its client has
    /// a data device to receive the offer.
    DragEnter { target_found: bool, device_available: bool },
    /// `target_found`: the hit test found a surface under the point.
    DragMotion { target_found: bool },
    DragLeave,
    DragDrop,
    DragCancel,
    RequestFrame { surface_id: u16, now_ms: u32 },
    Recomposite { surface_id: u16 },
    ReleaseKeys { keycodes: Vec<u32>, now_ms: u32 },
    ClipboardListMimes,
    ClipboardGet { generation: u64, mime_type: String },
    SetRefreshRate { mhz: u32 },
}

/// One send or reply the host performs for a command.
#[derive(Debug, PartialEq)]
pub enum WireAction {
    /// `wl_keyboard.modifiers` to the focused toplevel's client.
    Modifiers { serial: u32, depressed: u32, locked: u32 },
    /// `wl_keyboard.key` to the keyboard focus's client.
    Key { serial: u32, time: u32, keycode: u32, pressed: bool },
    /// Withdraw a composition the focused client still shows.
    ClearStalePreedit,
    /// `commit_string` + `done` to the focused input method.
    CommitString { text: Vec<char> },
    /// `preedit_string` + `done` to the focused input method.
    Preedit { text: String, cursor: i32 },
    /// One axis frame to the entered client's pointers.
    Axis { time: u32, v120_x: i16, v120_y: i16, source: Option<u8>, stop: bool },
    /// Drop the pointer enter and the cursor surface; with a serial, send
    /// `wl_pointer.leave` + `frame` to the surface that held it.
    LeavePointer { serial: Option<u32> },
    /// Retire every live direct-touch sequence.
    CancelTouches,
    /// `wl_seat.capabilities` to every seat.
    SeatCapabilities { capabilities: u32 },
    /// Re-announce the surface's output (scale and mode).
    RefreshOutput { surface_id: u16 },
    /// `xdg_toplevel.configure` then `xdg_surface.configure(serial)`.
    Configure { surface_id: u16, width: i32, height: i32, maximized: bool, fullscreen: bool, serial: u32 },
    /// Fire the toplevel's pending frame callbacks.
    FireFrameCallbacks { surface_id: u16 },
    /// Record the native composite size when no renderer publishes it.
    NoteNativeSize { surface_id: u16 },
    /// Drop the pointer enter and the cursor surface.
    ForgetPointerEnter,
    /// `wl_keyboard.leave` (and the text-input leave) to the surface that
    /// holds keyboard focus now.
    KeyboardLeave { serial: u32 },
    /// No popup holds keyboard focus any more.
    ClearPopupFocus,
    /// Offer the selections, then `wl_keyboard.enter` and
    /// `wl_keyboard.modifiers` (and the text-input enter) to the root of
    /// toplevel `surface_id`, or to the current holder when `None`.
    KeyboardEnter { surface_id: Option<u16>, serial: u32, modifiers_serial: u32, depressed: u32, locked: u32 },
    /// Fire the toplevel's frame callbacks at the presentation time latched
    /// for it.
    FirePendingPresentation { surface_id: u16 },
    /// Drop a latched presentation time.
    DropPendingPresentation { surface_id: u16 },
    /// Purge the host's caches for a destroyed toplevel, release its screen
    /// and announce its end.
    SurfaceDestroyed { surface_id: u16 },
    /// `xdg_toplevel.close`.
    Close { surface_id: u16 },
    /// Cancel the Wayland selection source, if any.
    CancelSelectionSource,
    /// Offer the current selection to the focused client.
    OfferSelection,
    /// Cancel the Wayland primary-selection source, if any.
    CancelPrimarySource,
    /// Offer the current primary selection to the focused client.
    OfferPrimarySelection,
    /// Composite the toplevel now, for a screencast that starts following it.
    CompositeNow { surface_id: u16 },
    /// Cancel a client-initiated drag, leaving its target.
    CancelClientDrag,
    /// `wl_data_device.leave` to the browser drag's target.
    DragDeviceLeave,
    /// Create the browser drag's offer and send `wl_data_device.enter`.
    DragDeviceEnter { serial: u32 },
    /// `wl_data_device.motion` to the browser drag's target.
    DragDeviceMotion,
    /// Final motion, answer parked reads from the dropped payload, then
    /// `drop` and `leave`.
    DragDeviceDrop,
    /// Announce clipboard authority.
    ClipboardOwner { wayland: bool, generation: u64, mime_types: Vec<String> },
    /// Fire frame callbacks at the server's presentation time, latching it
    /// when no frame request is pending.
    RequestFrame { surface_id: u16 },
    /// Queue a full recomposite of the toplevel.
    Recomposite { surface_id: u16 },
    /// Re-send every output's properties.
    AnnounceOutputs,
    /// Reply to a MIME listing.
    ClipboardMimes { mime_types: Vec<String> },
    /// Reply to a clipboard read.
    ClipboardData { bytes: Option<Vec<u8>> },
    /// Ask the Wayland selection owner for its bytes, for this generation.
    ReadWaylandSelection { mime_type: String, generation: u64 },
}

/// The actions as mathematical values.
pub enum WireEvent {
    Modifiers { serial: u32, depressed: u32, locked: u32 },
    Key { serial: u32, time: u32, keycode: u32, pressed: bool },
    ClearStalePreedit,
    CommitString { text: Seq<char> },
    Preedit { text: Seq<char>, cursor: i32 },
    Axis { time: u32, v120_x: i16, v120_y: i16, source: Option<u8>, stop: bool },
    LeavePointer { serial: Option<u32> },
    CancelTouches,
    SeatCapabilities { capabilities: u32 },
    RefreshOutput { surface_id: u16 },
    Configure { surface_id: u16, width: i32, height: i32, maximized: bool, fullscreen: bool, serial: u32 },
    FireFrameCallbacks { surface_id: u16 },
    NoteNativeSize { surface_id: u16 },
    ForgetPointerEnter,
    KeyboardLeave { serial: u32 },
    ClearPopupFocus,
    KeyboardEnter { surface_id: Option<u16>, serial: u32, modifiers_serial: u32, depressed: u32, locked: u32 },
    FirePendingPresentation { surface_id: u16 },
    DropPendingPresentation { surface_id: u16 },
    SurfaceDestroyed { surface_id: u16 },
    Close { surface_id: u16 },
    CancelSelectionSource,
    OfferSelection,
    CancelPrimarySource,
    OfferPrimarySelection,
    CompositeNow { surface_id: u16 },
    CancelClientDrag,
    DragDeviceLeave,
    DragDeviceEnter { serial: u32 },
    DragDeviceMotion,
    DragDeviceDrop,
    ClipboardOwner { wayland: bool, generation: u64, mime_types: Seq<Seq<char>> },
    RequestFrame { surface_id: u16 },
    Recomposite { surface_id: u16 },
    AnnounceOutputs,
    ClipboardMimes { mime_types: Seq<Seq<char>> },
    ClipboardData { bytes: Option<Seq<u8>> },
    ReadWaylandSelection { mime_type: Seq<char>, generation: u64 },
}

impl WireAction {
    pub open spec fn event(&self) -> WireEvent {
        match self {
            WireAction::Modifiers { serial, depressed, locked } => WireEvent::Modifiers {
                serial: *serial,
                depressed: *depressed,
                locked: *locked,
            },
            WireAction::Key { serial, time, keycode, pressed } => WireEvent::Key {
                serial: *serial,
                time: *time,
                keycode: *keycode,
                pressed: *pressed,
            },
            WireAction::ClearStalePreedit => WireEvent::ClearStalePreedit,
            WireAction::CommitString { text } => WireEvent::CommitString { text: text@ },
            WireAction::Preedit { text, cursor } => WireEvent::Preedit { text: text@, cursor: *cursor },
            WireAction::Axis { time, v120_x, v120_y, source, stop } => WireEvent::Axis {
                time: *time,
                v120_x: *v120_x,
                v120_y: *v120_y,
                source: *source,
                stop: *stop,
            },
            WireAction::LeavePointer { serial } => WireEvent::LeavePointer { serial: *serial },
            WireAction::CancelTouches => WireEvent::CancelTouches,
            WireAction::SeatCapabilities { capabilities } => WireEvent::SeatCapabilities {
                capabilities: *capabilities,
            },
            WireAction::RefreshOutput { surface_id } => WireEvent::RefreshOutput {
                surface_id: *surface_id,
            },
            WireAction::Configure { surface_id, width, height, maximized, fullscreen, serial } =>
                WireEvent::Configure {
                surface_id: *surface_id,
                width: *width,
                height: *height,
                maximized: *maximized,
                fullscreen: *fullscreen,
                serial: *serial,
            },
            WireAction::FireFrameCallbacks { surface_id } => WireEvent::FireFrameCallbacks {
                surface_id: *surface_id,
            },
            WireAction::NoteNativeSize { surface_id } => WireEvent::NoteNativeSize {
                surface_id: *surface_id,
            },
            WireAction::ForgetPointerEnter => WireEvent::ForgetPointerEnter,
            WireAction::KeyboardLeave { serial } => WireEvent::KeyboardLeave { serial: *serial },
            WireAction::ClearPopupFocus => WireEvent::ClearPopupFocus,
            WireAction::KeyboardEnter { surface_id, serial, modifiers_serial, depressed, locked } =>
                WireEvent::KeyboardEnter {
                surface_id: *surface_id,
                serial: *serial,
                modifiers_serial: *modifiers_serial,
                depressed: *depressed,
                locked: *locked,
            },
            WireAction::FirePendingPresentation { surface_id } => WireEvent::FirePendingPresentation {
                surface_id: *surface_id,
            },
            WireAction::DropPendingPresentation { surface_id } => WireEvent::DropPendingPresentation {
                surface_id: *surface_id,
            },
            WireAction::SurfaceDestroyed { surface_id } => WireEvent::SurfaceDestroyed {
                surface_id: *surface_id,
            },
            WireAction::Close { surface_id } => WireEvent::Close { surface_id: *surface_id },
            WireAction::CancelSelectionSource => WireEvent::CancelSelectionSource,
            WireAction::OfferSelection => WireEvent::OfferSelection,
            WireAction::CancelPrimarySource => WireEvent::CancelPrimarySource,
            WireAction::OfferPrimarySelection => WireEvent::OfferPrimarySelection,
            WireAction::CompositeNow { surface_id } => WireEvent::CompositeNow { surface_id: *surface_id },
            WireAction::CancelClientDrag => WireEvent::CancelClientDrag,
            WireAction::DragDeviceLeave => WireEvent::DragDeviceLeave,
            WireAction::DragDeviceEnter { serial } => WireEvent::DragDeviceEnter { serial: *serial },
            WireAction::DragDeviceMotion => WireEvent::DragDeviceMotion,
            WireAction::DragDeviceDrop => WireEvent::DragDeviceDrop,
            WireAction::ClipboardOwner { wayland, generation, mime_types } => WireEvent::ClipboardOwner {
                wayland: *wayland,
                generation: *generation,
                mime_types: string_views(mime_types@),
            },
            WireAction::RequestFrame { surface_id } => WireEvent::RequestFrame {
                surface_id: *surface_id,
            },
            WireAction::Recomposite { surface_id } => WireEvent::Recomposite {
                surface_id: *surface_id,
            },
            WireAction::AnnounceOutputs => WireEvent::AnnounceOutputs,
            WireAction::ClipboardMimes { mime_types } => WireEvent::ClipboardMimes {
                mime_types: string_views(mime_types@),
            },
            WireAction::ClipboardData { bytes } => WireEvent::ClipboardData {
                bytes: match bytes {
                    Some(b) => Some(b@),
                    None => None,
                },
            },
            WireAction::ReadWaylandSelection { mime_type, generation } =>
                WireEvent::ReadWaylandSelection { mime_type: mime_type@, generation: *generation },
        }
    }
}

/// A run of actions as mathematical values.
pub open spec fn events(actions: Seq<WireAction>) -> Seq<WireEvent> {
    actions.map_values(|a: WireAction| a.event())
}

/// The serial after `serial`, wrapping.
pub open spec fn bump(serial: u32) -> u32 {
    if serial == u32::MAX {
        0
    } else {
        (serial + 1) as u32
    }
}

/// The clipboard generation after `g`, wrapping.
pub open spec fn bump_generation(g: u64) -> u64 {
    if g == u64::MAX {
        0
    } else {
        (g + 1) as u64
    }
}

pub open spec fn modifiers_event(serial: u32, m: ModifierState) -> WireEvent {
    WireEvent::Modifiers { serial, depressed: m.depressed, locked: m.locked }
}

// ---------------------------------------------------------------------------
// The step, command by command.
// ---------------------------------------------------------------------------

/// A browser key: an observed CapsLock state is applied (and announced if it
/// moved the lock), the key is sent, and a modifier key's transition is
/// applied and announced, except for a CapsLock key whose effect the
/// observed state already holds.
pub open spec fn spec_key_input(
    s: StateView,
    keycode: u32,
    pressed: bool,
    caps_lock: Option<bool>,
    time_ms: u32,
    now_ms: u32,
) -> (StateView, Seq<WireEvent>) {
    let m1 = match caps_lock {
        Some(l) => modifiers_with_caps(s.modifiers, l),
        None => s.modifiers,
    };
    let lock_moved = m1.locked != s.modifiers.locked;
    let s1 = if lock_moved {
        bump(s.serial)
    } else {
        s.serial
    };
    let e1 = if lock_moved {
        seq![modifiers_event(s1, m1)]
    } else {
        Seq::empty()
    };
    let s2 = bump(s1);
    let (clock, time) = input_time_step(s.clock, now_ms, time_ms);
    let applies = keycode != KEY_CAPSLOCK || caps_lock is None;
    let m2 = if applies {
        modifiers_after_key(m1, keycode, pressed)
    } else {
        m1
    };
    let announces = applies && modifier_bit(keycode) != 0;
    let s3 = if announces {
        bump(s2)
    } else {
        s2
    };
    let e3 = if announces {
        seq![modifiers_event(s3, m2)]
    } else {
        Seq::empty()
    };
    (
        StateView { serial: s3, modifiers: m2, clock, ..s },
        e1 + seq![WireEvent::Key { serial: s2, time, keycode, pressed }] + e3,
    )
}

/// Typing state: serial, modifier masks and clock.
pub struct Typing {
    pub serial: u32,
    pub modifiers: ModifierState,
    pub clock: InputClock,
}

/// One planned step of typing: a key press and release, with a synthetic
/// Shift held around it (and announced) when the character needs one, or a
/// run committed through the input method.
pub open spec fn type_step(t: Typing, now_ms: u32, step: PlannedStep) -> (Typing, Seq<WireEvent>) {
    match step {
        PlannedStep::Commit(run) => (t, seq![WireEvent::CommitString { text: run }]),
        PlannedStep::Key(kc, shift) => {
            let (clock, time) = input_time_step(t.clock, now_ms, 0);
            if shift {
                let s1 = bump(t.serial);
                let m1 = modifiers_after_key(t.modifiers, KEY_LEFTSHIFT, true);
                let s2 = bump(s1);
                let s3 = bump(s2);
                let s4 = bump(s3);
                let s5 = bump(s4);
                let m2 = modifiers_after_key(m1, KEY_LEFTSHIFT, false);
                let s6 = bump(s5);
                (
                    Typing { serial: s6, modifiers: m2, clock },
                    seq![
                        WireEvent::Key { serial: s1, time, keycode: KEY_LEFTSHIFT, pressed: true },
                        modifiers_event(s2, m1),
                        WireEvent::Key { serial: s3, time, keycode: kc, pressed: true },
                        WireEvent::Key { serial: s4, time, keycode: kc, pressed: false },
                        WireEvent::Key { serial: s5, time, keycode: KEY_LEFTSHIFT, pressed: false },
                        modifiers_event(s6, m2),
                    ],
                )
            } else {
                let s1 = bump(t.serial);
                let s2 = bump(s1);
                (
                    Typing { serial: s2, modifiers: t.modifiers, clock },
                    seq![
                        WireEvent::Key { serial: s1, time, keycode: kc, pressed: true },
                        WireEvent::Key { serial: s2, time, keycode: kc, pressed: false },
                    ],
                )
            }
        },
    }
}

/// The planned steps, in order.
pub open spec fn type_steps(t: Typing, now_ms: u32, steps: Seq<PlannedStep>) -> (Typing, Seq<WireEvent>)
    decreases steps.len(),
{
    if steps.len() == 0 {
        (t, Seq::empty())
    } else {
        let (t1, e1) = type_steps(t, now_ms, steps.drop_last());
        let (t2, e2) = type_step(t1, now_ms, steps.last());
        (t2, e1 + e2)
    }
}

/// Text the browser resolved: nothing without keyboard focus; else a stale
/// composition is withdrawn, Shift and CapsLock are lifted for the
/// synthesis (announced if that changed the masks), the text is typed, and
/// the physical masks are restored (announced if they differ).
pub open spec fn spec_text_input(s: StateView, text: Seq<char>, has_keyboard_focus: bool, now_ms: u32) -> (
    StateView,
    Seq<WireEvent>,
) {
    if !has_keyboard_focus {
        (s, Seq::empty())
    } else {
        let saved = s.modifiers;
        let syn = ModifierState {
            depressed: saved.depressed & !MOD_SHIFT,
            locked: saved.locked & !MOD_LOCK,
        };
        let lifted = syn != saved;
        let s1 = if lifted {
            bump(s.serial)
        } else {
            s.serial
        };
        let pre = if lifted {
            seq![modifiers_event(s1, syn)]
        } else {
            Seq::empty()
        };
        let (t, typed) = type_steps(
            Typing { serial: s1, modifiers: syn, clock: s.clock },
            now_ms,
            text_plan(text),
        );
        let restore = t.modifiers != saved;
        let s2 = if restore {
            bump(t.serial)
        } else {
            t.serial
        };
        let post = if restore {
            seq![modifiers_event(s2, saved)]
        } else {
            Seq::empty()
        };
        (
            StateView { serial: s2, modifiers: saved, clock: t.clock, ..s },
            seq![WireEvent::ClearStalePreedit] + pre + typed + post,
        )
    }
}

/// A composition in progress, to the focused input method, with its cursor
/// capped at the text's byte length.
pub open spec fn spec_preedit(s: StateView, text: Seq<char>, cursor: u16, has_keyboard_focus: bool) -> (
    StateView,
    Seq<WireEvent>,
) {
    if !has_keyboard_focus {
        (s, Seq::empty())
    } else {
        (
            s,
            seq![
                WireEvent::Preedit {
                    text,
                    cursor: spec_preedit_cursor(cursor, vstd::utf8::encode_utf8(text).len() as usize),
                },
            ],
        )
    }
}

/// A scroll: dropped unless the pointer is on the named surface; then the
/// time is taken; an empty non-stop scroll, or one whose entered surface is
/// gone, sends nothing.
pub open spec fn spec_pointer_axis(
    s: StateView,
    pointer_focused: bool,
    entered_live: bool,
    dx_zero: bool,
    dy_zero: bool,
    v120_x: i16,
    v120_y: i16,
    source: Option<u8>,
    stop: bool,
    time_ms: u32,
    now_ms: u32,
) -> (StateView, Seq<WireEvent>) {
    if !pointer_focused {
        (s, Seq::empty())
    } else {
        let (clock, time) = input_time_step(s.clock, now_ms, time_ms);
        let s1 = StateView { clock, ..s };
        if !stop && dx_zero && dy_zero && v120_x == 0 && v120_y == 0 {
            (s1, Seq::empty())
        } else if !entered_live {
            (s1, Seq::empty())
        } else {
            (s1, seq![WireEvent::Axis { time, v120_x, v120_y, source, stop }])
        }
    }
}

/// The browser pointer left a view: if the pointer's enter is on that
/// toplevel (its root or one of its surfaces), the enter is dropped, and a
/// still-live surface is sent its leave under a fresh serial.
pub open spec fn spec_pointer_leave(s: StateView, surface_id: u16, entered_live: bool) -> (StateView, Seq<WireEvent>) {
    let hit = match s.pointer_entered {
        PointerEnter::Root(r) => r == surface_id,
        PointerEnter::Other(t) => t != 0 && t == surface_id,
        PointerEnter::Nothing => false,
    };
    if !hit {
        (s, Seq::empty())
    } else if entered_live {
        let serial = bump(s.serial);
        (
            StateView { serial, pointer_entered: PointerEnter::Nothing, ..s },
            seq![WireEvent::LeavePointer { serial: Some(serial) }],
        )
    } else {
        (
            StateView { pointer_entered: PointerEnter::Nothing, ..s },
            seq![WireEvent::LeavePointer { serial: None }],
        )
    }
}

/// Touch availability: a change cancels live sequences when disabling and
/// re-advertises the seat.
pub open spec fn spec_set_touch_enabled(s: StateView, enabled: bool) -> (StateView, Seq<WireEvent>) {
    if s.touch_enabled == enabled {
        (s, Seq::empty())
    } else {
        let caps = if enabled {
            SEAT_KEYBOARD | SEAT_POINTER | SEAT_TOUCH
        } else {
            SEAT_KEYBOARD | SEAT_POINTER
        };
        let cancel = if enabled {
            Seq::empty()
        } else {
            seq![WireEvent::CancelTouches]
        };
        (
            StateView { touch_enabled: enabled, ..s },
            cancel.push(WireEvent::SeatCapabilities { capabilities: caps }),
        )
    }
}

/// Whether a density change on `surface_id` drops the pointer enter: the
/// pointer is on that toplevel's root, or nothing is entered and the id
/// names no toplevel.
pub open spec fn forgets_pointer(s: StateView, surface_id: u16) -> bool {
    match s.pointer_entered {
        PointerEnter::Root(r) => r == surface_id && s.toplevels.contains_key(surface_id),
        PointerEnter::Nothing => !s.toplevels.contains_key(surface_id),
        PointerEnter::Other(_) => false,
    }
}

/// A viewer's resize: the logical size and any new density are stored, the
/// output re-announced, a live toplevel configured at the size fitted to
/// its hints, its frame callbacks fired, and a density change reissues the
/// pointer and keyboard enters.
pub open spec fn spec_surface_resize_step(
    s: StateView,
    surface_id: u16,
    width: u16,
    height: u16,
    scale_120: u16,
) -> (StateView, Seq<WireEvent>) {
    let stored = if s.surface_scales.contains_key(surface_id) {
        Some(s.surface_scales[surface_id])
    } else {
        None
    };
    let (size, new_scale) = spec_surface_resize(width, height, scale_120, stored);
    let sizes = s.surface_sizes.insert(surface_id, size);
    let scales = match new_scale {
        Some(n) => s.surface_scales.insert(surface_id, n),
        None => s.surface_scales,
    };
    let is_toplevel = s.toplevels.contains_key(surface_id);
    let tl = s.toplevels[surface_id];
    let serial = if is_toplevel {
        bump(s.serial)
    } else {
        s.serial
    };
    let configure = if is_toplevel {
        seq![
            WireEvent::Configure {
                surface_id,
                width: fit_dimension(size.0, tl.hints.min_size.0, tl.hints.max_size.0),
                height: fit_dimension(size.1, tl.hints.min_size.1, tl.hints.max_size.1),
                maximized: tl.maximized,
                fullscreen: tl.fullscreen,
                serial,
            },
        ]
    } else {
        Seq::empty()
    };
    let base = seq![WireEvent::RefreshOutput { surface_id }] + configure + seq![
        WireEvent::FireFrameCallbacks { surface_id },
        WireEvent::NoteNativeSize { surface_id },
    ];
    let s1 = StateView { serial, surface_sizes: sizes, surface_scales: scales, ..s };
    if new_scale is Some {
        let forget = forgets_pointer(s, surface_id);
        (
            StateView {
                pointer_entered: if forget {
                    PointerEnter::Nothing
                } else {
                    s.pointer_entered
                },
                pending_kb_reenter: true,
                ..s1
            },
            if forget {
                base.push(WireEvent::ForgetPointerEnter)
            } else {
                base
            },
        )
    } else {
        (s1, base)
    }
}

/// Keyboard focus moves only on a change of toplevel: the current holder
/// (a grabbing popup, or the old toplevel when there was one) is left,
/// any popup's hold ends, and a live new toplevel is entered and told the
/// seat's modifiers.
pub open spec fn spec_surface_focus(s: StateView, surface_id: u16, focus_holder: bool, popup_holds: bool) -> (
    StateView,
    Seq<WireEvent>,
) {
    if s.focused_surface_id == surface_id {
        (s, Seq::empty())
    } else {
        let leave = focus_holder && (s.focused_surface_id != 0 || popup_holds);
        let s1 = if leave {
            bump(s.serial)
        } else {
            s.serial
        };
        let e1 = if leave {
            seq![WireEvent::KeyboardLeave { serial: s1 }]
        } else {
            Seq::empty()
        };
        let enter = s.toplevels.contains_key(surface_id);
        let s2 = if enter {
            bump(s1)
        } else {
            s1
        };
        let s3 = if enter {
            bump(s2)
        } else {
            s2
        };
        let e3 = if enter {
            seq![
                WireEvent::KeyboardEnter {
                    surface_id: Some(surface_id),
                    serial: s2,
                    modifiers_serial: s3,
                    depressed: s.modifiers.depressed,
                    locked: s.modifiers.locked,
                },
            ]
        } else {
            Seq::empty()
        };
        (
            StateView { focused_surface_id: surface_id, serial: s3, ..s },
            e1 + seq![WireEvent::ClearPopupFocus] + e3,
        )
    }
}

/// A toplevel committed: its frame callbacks fire at a latched
/// presentation time while the server paces it, or at once (dropping any
/// latch) once pacing has lapsed; after a density change the keyboard
/// holder, if any, is left and entered again.
pub open spec fn spec_toplevel_committed(
    s: StateView,
    surface_id: u16,
    has_pending_presentation: bool,
    has_keyboard_focus: bool,
    now_ms: u32,
) -> (StateView, Seq<WireEvent>) {
    let paced = s.last_request_frame_ms.contains_key(surface_id) && wrapping_sub(
        now_ms,
        s.last_request_frame_ms[surface_id],
    ) < PACING_GRACE_MS;
    let frames = if paced && has_pending_presentation {
        seq![WireEvent::FirePendingPresentation { surface_id }]
    } else if !paced {
        seq![
            WireEvent::DropPendingPresentation { surface_id },
            WireEvent::FireFrameCallbacks { surface_id },
        ]
    } else {
        Seq::empty()
    };
    if s.pending_kb_reenter && has_keyboard_focus {
        let l = bump(s.serial);
        let e = bump(l);
        let m = bump(e);
        (
            StateView { pending_kb_reenter: false, serial: m, ..s },
            frames + seq![
                WireEvent::KeyboardLeave { serial: l },
                WireEvent::KeyboardEnter {
                    surface_id: None,
                    serial: e,
                    modifiers_serial: m,
                    depressed: s.modifiers.depressed,
                    locked: s.modifiers.locked,
                },
            ],
        )
    } else {
        (StateView { pending_kb_reenter: false, ..s }, frames)
    }
}

/// A toplevel's surface is gone: every table forgets its id, keyboard focus
/// naming it falls back to 0 (so a reused id is entered afresh), and a
/// pointer enter on its root is dropped.
pub open spec fn spec_surface_destroyed(s: StateView, surface_id: u16) -> (StateView, Seq<WireEvent>) {
    if surface_id == 0 {
        (s, Seq::empty())
    } else {
        let on_root = s.pointer_entered == PointerEnter::Root(surface_id);
        (
            StateView {
                toplevels: s.toplevels.remove(surface_id),
                surface_sizes: s.surface_sizes.remove(surface_id),
                last_request_frame_ms: s.last_request_frame_ms.remove(surface_id),
                screencast: s.screencast.remove(surface_id),
                focused_surface_id: if s.focused_surface_id == surface_id {
                    0
                } else {
                    s.focused_surface_id
                },
                pointer_entered: if on_root {
                    PointerEnter::Nothing
                } else {
                    s.pointer_entered
                },
                ..s
            },
            if on_root {
                seq![WireEvent::ForgetPointerEnter, WireEvent::SurfaceDestroyed { surface_id }]
            } else {
                seq![WireEvent::SurfaceDestroyed { surface_id }]
            },
        )
    }
}

/// A live toplevel is asked to close.
pub open spec fn spec_surface_close(s: StateView, surface_id: u16) -> (StateView, Seq<WireEvent>) {
    if s.toplevels.contains_key(surface_id) {
        (s, seq![WireEvent::Close { surface_id }])
    } else {
        (s, Seq::empty())
    }
}

/// The browser takes the clipboard (`None`: clears it): the Wayland owner
/// is cancelled, the selection re-offered, and the new authority announced
/// under the next generation.
pub open spec fn spec_set_clipboard(s: StateView, items: Option<Seq<(String, Vec<u8>)>>) -> (
    StateView,
    Seq<WireEvent>,
) {
    let generation = bump_generation(s.clipboard_generation);
    (
        StateView {
            external_clipboard: items,
            wayland_selection_mimes: None,
            clipboard_generation: generation,
            ..s
        },
        seq![
            WireEvent::CancelSelectionSource,
            WireEvent::OfferSelection,
            WireEvent::ClipboardOwner {
                wayland: false,
                generation,
                mime_types: spec_clipboard_mimes(None, items),
            },
        ],
    )
}

/// The browser takes the primary selection (`None`: clears it): the
/// Wayland owner is cancelled and the selection re-offered.
pub open spec fn spec_set_primary(s: StateView, items: Option<Seq<(String, Vec<u8>)>>) -> (
    StateView,
    Seq<WireEvent>,
) {
    (
        StateView { external_primary: items, ..s },
        seq![WireEvent::CancelPrimarySource, WireEvent::OfferPrimarySelection],
    )
}

/// A screencast starts or stops following a toplevel; a live one it starts
/// on is composited at once.
pub open spec fn spec_set_screencast(s: StateView, surface_id: u16, active: bool) -> (
    StateView,
    Seq<WireEvent>,
) {
    (
        StateView { screencast: s.screencast.insert(surface_id, active), ..s },
        if active && s.toplevels.contains_key(surface_id) {
            seq![WireEvent::CompositeNow { surface_id }]
        } else {
            Seq::empty()
        },
    )
}

/// End the browser drag: its target is left unless it already dropped
/// (the drop sent the terminal leave).
pub open spec fn spec_drag_end(s: StateView) -> (StateView, Seq<WireEvent>) {
    (
        StateView { drag: None, ..s },
        if s.drag == Some(false) {
            seq![WireEvent::DragDeviceLeave]
        } else {
            Seq::empty()
        },
    )
}

/// A browser drag enters: any client drag is cancelled and any earlier
/// browser drag ended; a hit surface is entered under a fresh serial, and
/// the session lives if its client could take the offer.
pub open spec fn spec_drag_enter(s: StateView, target_found: bool, device_available: bool) -> (
    StateView,
    Seq<WireEvent>,
) {
    let (s1, e1) = spec_drag_end(s);
    if target_found {
        let serial = bump(s1.serial);
        (
            StateView {
                serial,
                drag: if device_available {
                    Some(false)
                } else {
                    None
                },
                ..s1
            },
            seq![WireEvent::CancelClientDrag] + e1 + seq![WireEvent::DragDeviceEnter { serial }],
        )
    } else {
        (s1, seq![WireEvent::CancelClientDrag] + e1)
    }
}

/// Drag motion reaches the target while a session exists and the point
/// hits a surface.
pub open spec fn spec_drag_motion(s: StateView, target_found: bool) -> (StateView, Seq<WireEvent>) {
    if s.drag is Some && target_found {
        (s, seq![WireEvent::DragDeviceMotion])
    } else {
        (s, Seq::empty())
    }
}

/// The browser drops: a live session drops (and is marked dropped).
pub open spec fn spec_drag_drop(s: StateView) -> (StateView, Seq<WireEvent>) {
    if s.drag is Some {
        (StateView { drag: Some(true), ..s }, seq![WireEvent::DragDeviceDrop])
    } else {
        (s, Seq::empty())
    }
}

/// The server paced a frame: remember when, and fire a live toplevel's
/// callbacks.
pub open spec fn spec_request_frame(s: StateView, surface_id: u16, now_ms: u32) -> (StateView, Seq<WireEvent>) {
    (
        StateView { last_request_frame_ms: s.last_request_frame_ms.insert(surface_id, now_ms), ..s },
        if s.toplevels.contains_key(surface_id) {
            seq![WireEvent::RequestFrame { surface_id }]
        } else {
            Seq::empty()
        },
    )
}

/// Release each key to the focused client, one serial each.
pub open spec fn release_keys(serial: u32, time: u32, keys: Seq<u32>) -> (u32, Seq<WireEvent>)
    decreases keys.len(),
{
    if keys.len() == 0 {
        (serial, Seq::empty())
    } else {
        let (s1, e1) = release_keys(serial, time, keys.drop_last());
        let s2 = bump(s1);
        (s2, e1.push(WireEvent::Key { serial: s2, time, keycode: keys.last(), pressed: false }))
    }
}

/// Apply each release to the masks, announcing every modifier key.
pub open spec fn release_modifiers(serial: u32, m: ModifierState, keys: Seq<u32>) -> (
    u32,
    ModifierState,
    Seq<WireEvent>,
)
    decreases keys.len(),
{
    if keys.len() == 0 {
        (serial, m, Seq::empty())
    } else {
        let (s1, m1, e1) = release_modifiers(serial, m, keys.drop_last());
        let k = keys.last();
        if modifier_bit(k) != 0 {
            let m2 = modifiers_after_key(m1, k, false);
            let s2 = bump(s1);
            (s2, m2, e1.push(modifiers_event(s2, m2)))
        } else {
            (s1, m1, e1)
        }
    }
}

/// A viewer went away holding keys: all are released, then the masks follow.
pub open spec fn spec_release_keys(s: StateView, keys: Seq<u32>, now_ms: u32) -> (StateView, Seq<WireEvent>) {
    let (clock, time) = input_time_step(s.clock, now_ms, 0);
    let (s1, e1) = release_keys(s.serial, time, keys);
    let (s2, m2, e2) = release_modifiers(s1, s.modifiers, keys);
    (StateView { serial: s2, modifiers: m2, clock, ..s }, e1 + e2)
}

/// What the browser's selection answers to `mime`: the first item of that
/// type, else for a text alias the first text item.
pub open spec fn clipboard_answer(items: Seq<(String, Vec<u8>)>, mime: Seq<char>) -> Option<Seq<u8>> {
    if has_exact(items, mime) {
        Some(items[choose|i: int| first_exact(items, mime, i)].1@)
    } else if is_text_alias(mime) && has_text_like(items) {
        Some(items[choose|i: int| first_text_like(items, i)].1@)
    } else {
        None
    }
}

/// A generation-pinned clipboard read.
pub open spec fn spec_clipboard_get(s: StateView, generation: u64, mime: Seq<char>) -> Seq<WireEvent> {
    let wayland_owned = s.wayland_selection_mimes is Some;
    if s.clipboard_generation != generation {
        seq![WireEvent::ClipboardData { bytes: None }]
    } else if s.external_clipboard is Some && !wayland_owned {
        seq![WireEvent::ClipboardData { bytes: clipboard_answer(s.external_clipboard->0, mime) }]
    } else if wayland_owned {
        seq![WireEvent::ReadWaylandSelection { mime_type: mime, generation }]
    } else {
        seq![WireEvent::ClipboardData { bytes: None }]
    }
}

/// A refresh report moves the advertised rate only on a meaningful change.
pub open spec fn spec_set_refresh_rate(s: StateView, mhz: u32) -> (StateView, Seq<WireEvent>) {
    match spec_refresh_update(s.output_refresh_mhz, mhz) {
        Some(m) => (StateView { output_refresh_mhz: m, ..s }, seq![WireEvent::AnnounceOutputs]),
        None => (s, Seq::empty()),
    }
}

/// The next state and the sends for one command.
pub open spec fn spec_command_step(s: StateView, c: Command) -> (StateView, Seq<WireEvent>) {
    match c {
        Command::KeyInput { keycode, pressed, caps_lock, time_ms, now_ms } => spec_key_input(
            s,
            keycode,
            pressed,
            caps_lock,
            time_ms,
            now_ms,
        ),
        Command::TextInput { text, has_keyboard_focus, now_ms } => spec_text_input(
            s,
            text@,
            has_keyboard_focus,
            now_ms,
        ),
        Command::Preedit { text, cursor, has_keyboard_focus } => spec_preedit(
            s,
            text@,
            cursor,
            has_keyboard_focus,
        ),
        Command::PointerAxis {
            pointer_focused,
            entered_live,
            dx_zero,
            dy_zero,
            v120_x,
            v120_y,
            source,
            stop,
            time_ms,
            now_ms,
        } => spec_pointer_axis(
            s,
            pointer_focused,
            entered_live,
            dx_zero,
            dy_zero,
            v120_x,
            v120_y,
            source,
            stop,
            time_ms,
            now_ms,
        ),
        Command::PointerLeave { surface_id, entered_live } => spec_pointer_leave(s, surface_id, entered_live),
        Command::SetTouchEnabled { enabled } => spec_set_touch_enabled(s, enabled),
        Command::SurfaceResize { surface_id, width, height, scale_120 } => spec_surface_resize_step(
            s,
            surface_id,
            width,
            height,
            scale_120,
        ),
        Command::SurfaceFocus { surface_id, focus_holder, popup_holds } => spec_surface_focus(
            s,
            surface_id,
            focus_holder,
            popup_holds,
        ),
        Command::SurfaceClose { surface_id } => spec_surface_close(s, surface_id),
        Command::ClipboardOffer { mime_type, data } => spec_set_clipboard(
            s,
            Some(seq![(mime_type, data)]),
        ),
        Command::ClipboardOffers { items } => spec_set_clipboard(
            s,
            if items@.len() > 0 {
                Some(items@)
            } else {
                None
            },
        ),
        Command::ClipboardClear => spec_set_clipboard(s, None),
        Command::PrimaryOffer { mime_type, data } => spec_set_primary(s, Some(seq![(mime_type, data)])),
        Command::PrimaryOffers { items } => spec_set_primary(
            s,
            if items@.len() > 0 {
                Some(items@)
            } else {
                None
            },
        ),
        Command::PrimaryClear => spec_set_primary(s, None),
        Command::SetScreenCastActive { surface_id, active } => spec_set_screencast(s, surface_id, active),
        Command::DragEnter { target_found, device_available } => spec_drag_enter(
            s,
            target_found,
            device_available,
        ),
        Command::DragMotion { target_found } => spec_drag_motion(s, target_found),
        Command::DragLeave => spec_drag_end(s),
        Command::DragDrop => spec_drag_drop(s),
        Command::DragCancel => spec_drag_end(s),
        Command::RequestFrame { surface_id, now_ms } => spec_request_frame(s, surface_id, now_ms),
        Command::Recomposite { surface_id } => (
            s,
            if s.toplevels.contains_key(surface_id) {
                seq![WireEvent::Recomposite { surface_id }]
            } else {
                Seq::empty()
            },
        ),
        Command::ReleaseKeys { keycodes, now_ms } => spec_release_keys(s, keycodes@, now_ms),
        Command::ClipboardListMimes => (
            s,
            seq![
                WireEvent::ClipboardMimes {
                    mime_types: spec_clipboard_mimes(s.wayland_selection_mimes, s.external_clipboard),
                },
            ],
        ),
        Command::ClipboardGet { generation, mime_type } => (
            s,
            spec_clipboard_get(s, generation, mime_type@),
        ),
        Command::SetRefreshRate { mhz } => spec_set_refresh_rate(s, mhz),
    }
}

// ---------------------------------------------------------------------------
// The executable step.
// ---------------------------------------------------------------------------

fn emit(actions: &mut Vec<WireAction>, a: WireAction)
    ensures
        events(final(actions)@) == events(old(actions)@).push(a.event()),
{
    let ghost before = actions@;
    actions.push(a);
    proof {
        assert(events(actions@) =~= events(before).push(a.event()));
    }
}

fn next(serial: u32) -> (n: u32)
    ensures
        n == bump(serial),
{
    if serial == u32::MAX {
        0
    } else {
        serial + 1
    }
}

fn modifiers_action(serial: u32, m: ModifierState) -> (a: WireAction)
    ensures
        a.event() == modifiers_event(serial, m),
{
    WireAction::Modifiers { serial, depressed: m.depressed, locked: m.locked }
}

impl CompositorState {
    /// A fresh compositor advertising `refresh_mhz`.
    pub fn new(refresh_mhz: u32) -> (s: Self)
        ensures
            s@.serial == 0,
            s@.modifiers == (ModifierState { depressed: 0, locked: 0 }),
            s@.clock.input_time_anchor is None,
            s@.clock.touch_time_anchor is None,
            s@.clock.touch_time_last_arrival is None,
            s@.clock.last_input_time is None,
            s@.focused_surface_id == 0,
            s@.pointer_entered == PointerEnter::Nothing,
            !s@.pending_kb_reenter,
            s@.surface_sizes == Map::<u16, (i32, i32)>::empty(),
            s@.surface_scales == Map::<u16, u16>::empty(),
            s@.toplevels == Map::<u16, Toplevel>::empty(),
            s@.last_request_frame_ms == Map::<u16, u32>::empty(),
            s@.output_refresh_mhz == refresh_mhz,
            !s@.touch_enabled,
            s@.clipboard_generation == 0,
            s@.external_clipboard is None,
            s@.wayland_selection_mimes is None,
            s@.external_primary is None,
            s@.screencast == Map::<u16, bool>::empty(),
            s@.drag is None,
    {
        CompositorState {
            serial: 0,
            modifiers: ModifierState::new(),
            clock: InputClock::new(),
            focused_surface_id: 0,
            pointer_entered: PointerEnter::Nothing,
            pending_kb_reenter: false,
            surface_sizes: Table::new(),
            surface_scales: Table::new(),
            toplevels: Table::new(),
            last_request_frame_ms: Table::new(),
            output_refresh_mhz: refresh_mhz,
            touch_enabled: false,
            clipboard_generation: 0,
            external_clipboard: None,
            wayland_selection_mimes: None,
            external_primary: None,
            screencast: Table::new(),
            drag: None,
        }
    }

    /// Hand out the next serial, for a send the host makes on its own
    /// (a pointer enter found by its hit test).
    pub fn next_serial(&mut self) -> (serial: u32)
        ensures
            serial == bump(old(self)@.serial),
            final(self)@ == (StateView { serial, ..old(self)@ }),
    {
        let serial = next(self.serial);
        self.serial = serial;
        serial
    }

    fn key_input(&mut self, keycode: u32, pressed: bool, caps_lock: Option<bool>, time_ms: u32, now_ms: u32) -> (actions: Vec<WireAction>)
        ensures
            (final(self)@, events(actions@)) == spec_key_input(
                old(self)@,
                keycode,
                pressed,
                caps_lock,
                time_ms,
                now_ms,
            ),
    {
        let mut actions: Vec<WireAction> = Vec::new();
        let mut serial = self.serial;
        let mut mods = self.modifiers;
        let mut clock = self.clock;
        if let Some(locked) = caps_lock {
            if mods.apply_caps_lock(locked) {
                serial = next(serial);
                emit(&mut actions, modifiers_action(serial, mods));
            }
        }
        serial = next(serial);
        let time = clock.input_event_time(now_ms, time_ms);
        emit(&mut actions, WireAction::Key { serial, time, keycode, pressed });
        if keycode != KEY_CAPSLOCK || caps_lock.is_none() {
            if mods.update_modifiers(keycode, pressed) {
                serial = next(serial);
                emit(&mut actions, modifiers_action(serial, mods));
            }
        }
        self.serial = serial;
        self.modifiers = mods;
        self.clock = clock;
        proof {
            assert(events(actions@) =~= spec_key_input(
                old(self)@,
                keycode,
                pressed,
                caps_lock,
                time_ms,
                now_ms,
            ).1);
        }
        actions
    }
}


fn copy_chars(run: &Vec<char>) -> (copy: Vec<char>)
    ensures
        copy@ == run@,
{
    let mut copy: Vec<char> = Vec::new();
    let mut i: usize = 0;
    while i < run.len()
        invariant
            0 <= i <= run@.len(),
            copy@ == run@.take(i as int),
        decreases run@.len() - i,
    {
        copy.push(run[i]);
        i += 1;
        proof {
            assert(copy@ =~= run@.take(i as int));
        }
    }
    proof {
        assert(run@.take(run@.len() as int) =~= run@);
    }
    copy
}

proof fn lemma_clipboard_answer(items: Seq<(String, Vec<u8>)>, mime: Seq<char>, res: Option<Seq<u8>>)
    requires
        match res {
            Some(b) => {
                ||| exists|i: int| first_exact(items, mime, i) && b == items[i].1@
                ||| !has_exact(items, mime) && is_text_alias(mime) && exists|i: int|
                    first_text_like(items, i) && b == items[i].1@
            },
            None => !has_exact(items, mime) && (!is_text_alias(mime) || !has_text_like(items)),
        },
    ensures
        res == clipboard_answer(items, mime),
{
    if let Some(b) = res {
        if exists|i: int| first_exact(items, mime, i) && b == items[i].1@ {
            let i = choose|i: int| first_exact(items, mime, i) && b == items[i].1@;
            assert(items[i].0@ == mime);
            assert(has_exact(items, mime));
            let k = choose|k: int| first_exact(items, mime, k);
            assert(first_exact(items, mime, k));
            if k < i {
                assert(items[k].0@ == mime);
            }
            if i < k {
                assert(items[i].0@ == mime);
            }
            assert(k == i);
        } else {
            let i = choose|i: int| first_text_like(items, i) && b == items[i].1@;
            assert(is_text_like(items[i].0@));
            assert(has_text_like(items));
            let k = choose|k: int| first_text_like(items, k);
            assert(first_text_like(items, k));
            if k < i {
                assert(is_text_like(items[k].0@));
            }
            if i < k {
                assert(is_text_like(items[i].0@));
            }
            assert(k == i);
        }
    }
}

impl CompositorState {
    fn text_input(&mut self, text: &str, has_keyboard_focus: bool, now_ms: u32) -> (actions: Vec<WireAction>)
        ensures
            (final(self)@, events(actions@)) == spec_text_input(old(self)@, text@, has_keyboard_focus, now_ms),
    {
        let mut actions: Vec<WireAction> = Vec::new();
        if !has_keyboard_focus {
            proof {
                assert(events(actions@) =~= Seq::<WireEvent>::empty());
            }
            return actions;
        }
        emit(&mut actions, WireAction::ClearStalePreedit);
        let saved = self.modifiers;
        let syn = saved.for_synthesis();
        let mut serial = self.serial;
        if syn.depressed != saved.depressed || syn.locked != saved.locked {
            serial = next(serial);
            emit(&mut actions, modifiers_action(serial, syn));
        }
        let ghost prefix = events(actions@);
        let ghost t0 = Typing { serial, modifiers: syn, clock: self.clock };
        let steps = plan_text_input(text);
        let ghost plan = steps@.map_values(|s: TextInputStep| s.planned());
        let mut mods = syn;
        let mut clock = self.clock;
        let mut i: usize = 0;
        proof {
            assert(plan.take(0) =~= Seq::<PlannedStep>::empty());
            assert(prefix + Seq::<WireEvent>::empty() =~= prefix);
        }
        while i < steps.len()
            invariant
                0 <= i <= steps@.len(),
                plan == steps@.map_values(|s: TextInputStep| s.planned()),
                plan == text_plan(text@),
                type_steps(t0, now_ms, plan.take(i as int)).0 == (Typing { serial, modifiers: mods, clock }),
                events(actions@) == prefix + type_steps(t0, now_ms, plan.take(i as int)).1,
            decreases steps@.len() - i,
        {
            let ghost before = events(actions@);
            let ghost t_i = Typing { serial, modifiers: mods, clock };
            proof {
                assert(plan.take(i + 1).drop_last() =~= plan.take(i as int));
                assert(plan.take(i + 1).last() == steps@[i as int].planned());
            }
            match &steps[i] {
                TextInputStep::Key { keycode, shift } => {
                    let kc = *keycode;
                    let time = clock.input_event_time(now_ms, 0);
                    if *shift {
                        serial = next(serial);
                        emit(&mut actions, WireAction::Key { serial, time, keycode: KEY_LEFTSHIFT, pressed: true });
                        mods.update_modifiers(KEY_LEFTSHIFT, true);
                        serial = next(serial);
                        emit(&mut actions, modifiers_action(serial, mods));
                        serial = next(serial);
                        emit(&mut actions, WireAction::Key { serial, time, keycode: kc, pressed: true });
                        serial = next(serial);
                        emit(&mut actions, WireAction::Key { serial, time, keycode: kc, pressed: false });
                        serial = next(serial);
                        emit(&mut actions, WireAction::Key { serial, time, keycode: KEY_LEFTSHIFT, pressed: false });
                        mods.update_modifiers(KEY_LEFTSHIFT, false);
                        serial = next(serial);
                        emit(&mut actions, modifiers_action(serial, mods));
                    } else {
                        serial = next(serial);
                        emit(&mut actions, WireAction::Key { serial, time, keycode: kc, pressed: true });
                        serial = next(serial);
                        emit(&mut actions, WireAction::Key { serial, time, keycode: kc, pressed: false });
                    }
                    proof {
                        let step = type_step(t_i, now_ms, steps@[i as int].planned());
                        assert(step.0 == (Typing { serial, modifiers: mods, clock }));
                        assert(events(actions@) =~= before + step.1);
                    }
                },
                TextInputStep::Commit(run) => {
                    let copy = copy_chars(run);
                    emit(&mut actions, WireAction::CommitString { text: copy });
                    proof {
                        let step = type_step(t_i, now_ms, steps@[i as int].planned());
                        assert(events(actions@) =~= before + step.1);
                    }
                },
            }
            proof {
                assert(events(actions@) =~= prefix + type_steps(t0, now_ms, plan.take(i + 1)).1);
            }
            i += 1;
        }
        proof {
            assert(plan.take(steps@.len() as int) =~= plan);
        }
        if mods.depressed != saved.depressed || mods.locked != saved.locked {
            serial = next(serial);
            emit(&mut actions, modifiers_action(serial, saved));
        }
        self.serial = serial;
        self.modifiers = saved;
        self.clock = clock;
        proof {
            assert(events(actions@) =~= spec_text_input(old(self)@, text@, has_keyboard_focus, now_ms).1);
        }
        actions
    }
}


impl CompositorState {
    fn preedit(&self, text: String, cursor: u16, has_keyboard_focus: bool) -> (actions: Vec<WireAction>)
        ensures
            (self@, events(actions@)) == spec_preedit(self@, text@, cursor, has_keyboard_focus),
    {
        let mut actions: Vec<WireAction> = Vec::new();
        if has_keyboard_focus {
            let len = text.as_str().len();
            let c = preedit_cursor(cursor, len);
            emit(&mut actions, WireAction::Preedit { text, cursor: c });
        }
        proof {
            assert(events(actions@) =~= spec_preedit(self@, text@, cursor, has_keyboard_focus).1);
        }
        actions
    }

    fn pointer_axis(
        &mut self,
        pointer_focused: bool,
        entered_live: bool,
        dx_zero: bool,
        dy_zero: bool,
        v120_x: i16,
        v120_y: i16,
        source: Option<u8>,
        stop: bool,
        time_ms: u32,
        now_ms: u32,
    ) -> (actions: Vec<WireAction>)
        ensures
            (final(self)@, events(actions@)) == spec_pointer_axis(
                old(self)@,
                pointer_focused,
                entered_live,
                dx_zero,
                dy_zero,
                v120_x,
                v120_y,
                source,
                stop,
                time_ms,
                now_ms,
            ),
    {
        let mut actions: Vec<WireAction> = Vec::new();
        if pointer_focused {
            let mut clock = self.clock;
            let time = clock.input_event_time(now_ms, time_ms);
            self.clock = clock;
            let empty = !stop && dx_zero && dy_zero && v120_x == 0 && v120_y == 0;
            if !empty && entered_live {
                emit(&mut actions, WireAction::Axis { time, v120_x, v120_y, source, stop });
            }
        }
        proof {
            assert(events(actions@) =~= spec_pointer_axis(
                old(self)@,
                pointer_focused,
                entered_live,
                dx_zero,
                dy_zero,
                v120_x,
                v120_y,
                source,
                stop,
                time_ms,
                now_ms,
            ).1);
        }
        actions
    }

    fn pointer_leave(&mut self, surface_id: u16, entered_live: bool) -> (actions: Vec<WireAction>)
        ensures
            (final(self)@, events(actions@)) == spec_pointer_leave(old(self)@, surface_id, entered_live),
    {
        let mut actions: Vec<WireAction> = Vec::new();
        let hit = match self.pointer_entered {
            PointerEnter::Root(r) => r == surface_id,
            PointerEnter::Other(t) => t != 0 && t == surface_id,
            PointerEnter::Nothing => false,
        };
        if hit {
            self.pointer_entered = PointerEnter::Nothing;
            if entered_live {
                let serial = next(self.serial);
                self.serial = serial;
                emit(&mut actions, WireAction::LeavePointer { serial: Some(serial) });
            } else {
                emit(&mut actions, WireAction::LeavePointer { serial: None });
            }
        }
        proof {
            assert(events(actions@) =~= spec_pointer_leave(old(self)@, surface_id, entered_live).1);
        }
        actions
    }

    fn set_touch_enabled(&mut self, enabled: bool) -> (actions: Vec<WireAction>)
        ensures
            (final(self)@, events(actions@)) == spec_set_touch_enabled(old(self)@, enabled),
    {
        let mut actions: Vec<WireAction> = Vec::new();
        if self.touch_enabled != enabled {
            if !enabled {
                emit(&mut actions, WireAction::CancelTouches);
            }
            self.touch_enabled = enabled;
            let capabilities = seat_capabilities(enabled);
            emit(&mut actions, WireAction::SeatCapabilities { capabilities });
        }
        proof {
            assert(events(actions@) =~= spec_set_touch_enabled(old(self)@, enabled).1);
        }
        actions
    }

    fn surface_resize(&mut self, surface_id: u16, width: u16, height: u16, scale_120: u16) -> (actions: Vec<WireAction>)
        ensures
            (final(self)@, events(actions@)) == spec_surface_resize_step(
                old(self)@,
                surface_id,
                width,
                height,
                scale_120,
            ),
    {
        let mut actions: Vec<WireAction> = Vec::new();
        let stored = self.surface_scales.get(surface_id);
        let (size, new_scale) = surface_resize(width, height, scale_120, stored);
        self.surface_sizes.insert(surface_id, size);
        if let Some(n) = new_scale {
            self.surface_scales.insert(surface_id, n);
        }
        emit(&mut actions, WireAction::RefreshOutput { surface_id });
        let toplevel = self.toplevels.get(surface_id);
        if let Some(tl) = toplevel {
            let (cw, ch) = constrain_to_hints(&tl.hints, size.0, size.1);
            let serial = next(self.serial);
            self.serial = serial;
            emit(
                &mut actions,
                WireAction::Configure {
                    surface_id,
                    width: cw,
                    height: ch,
                    maximized: tl.maximized,
                    fullscreen: tl.fullscreen,
                    serial,
                },
            );
        }
        emit(&mut actions, WireAction::FireFrameCallbacks { surface_id });
        emit(&mut actions, WireAction::NoteNativeSize { surface_id });
        if new_scale.is_some() {
            let forget = match self.pointer_entered {
                PointerEnter::Root(r) => r == surface_id && toplevel.is_some(),
                PointerEnter::Nothing => toplevel.is_none(),
                PointerEnter::Other(_) => false,
            };
            if forget {
                self.pointer_entered = PointerEnter::Nothing;
                emit(&mut actions, WireAction::ForgetPointerEnter);
            }
            self.pending_kb_reenter = true;
        }
        proof {
            assert(self@ =~= spec_surface_resize_step(old(self)@, surface_id, width, height, scale_120).0);
            assert(events(actions@) =~= spec_surface_resize_step(
                old(self)@,
                surface_id,
                width,
                height,
                scale_120,
            ).1);
        }
        actions
    }

    fn surface_focus(&mut self, surface_id: u16, focus_holder: bool, popup_holds: bool) -> (actions: Vec<WireAction>)
        ensures
            (final(self)@, events(actions@)) == spec_surface_focus(
                old(self)@,
                surface_id,
                focus_holder,
                popup_holds,
            ),
    {
        let mut actions: Vec<WireAction> = Vec::new();
        if self.focused_surface_id != surface_id {
            let mut serial = self.serial;
            if focus_holder && (self.focused_surface_id != 0 || popup_holds) {
                serial = next(serial);
                emit(&mut actions, WireAction::KeyboardLeave { serial });
            }
            emit(&mut actions, WireAction::ClearPopupFocus);
            if self.toplevels.get(surface_id).is_some() {
                let enter_serial = next(serial);
                serial = next(enter_serial);
                emit(
                    &mut actions,
                    WireAction::KeyboardEnter {
                        surface_id: Some(surface_id),
                        serial: enter_serial,
                        modifiers_serial: serial,
                        depressed: self.modifiers.depressed,
                        locked: self.modifiers.locked,
                    },
                );
            }
            self.serial = serial;
            self.focused_surface_id = surface_id;
        }
        proof {
            assert(events(actions@) =~= spec_surface_focus(
                old(self)@,
                surface_id,
                focus_holder,
                popup_holds,
            ).1);
        }
        actions
    }

    fn surface_close(&self, surface_id: u16) -> (actions: Vec<WireAction>)
        ensures
            (self@, events(actions@)) == spec_surface_close(self@, surface_id),
    {
        let mut actions: Vec<WireAction> = Vec::new();
        if self.toplevels.get(surface_id).is_some() {
            emit(&mut actions, WireAction::Close { surface_id });
        }
        proof {
            assert(events(actions@) =~= spec_surface_close(self@, surface_id).1);
        }
        actions
    }

    fn set_clipboard(&mut self, clipboard: Option<ExternalClipboard>) -> (actions: Vec<WireAction>)
        ensures
            (final(self)@, events(actions@)) == spec_set_clipboard(
                old(self)@,
                match clipboard {
                    Some(cb) => Some(cb.items@),
                    None => None,
                },
            ),
    {
        let ghost items = match clipboard {
            Some(ref cb) => Some(cb.items@),
            None => None,
        };
        let mut actions: Vec<WireAction> = Vec::new();
        self.external_clipboard = clipboard;
        self.wayland_selection_mimes = None;
        let generation = if self.clipboard_generation == u64::MAX {
            0
        } else {
            self.clipboard_generation + 1
        };
        self.clipboard_generation = generation;
        emit(&mut actions, WireAction::CancelSelectionSource);
        emit(&mut actions, WireAction::OfferSelection);
        let mime_types = match &self.external_clipboard {
            Some(cb) => collect_clipboard_mime_types(None, Some(cb)),
            None => collect_clipboard_mime_types(None, None),
        };
        emit(&mut actions, WireAction::ClipboardOwner { wayland: false, generation, mime_types });
        proof {
            assert(events(actions@) =~= spec_set_clipboard(old(self)@, items).1);
        }
        actions
    }

    fn set_primary(&mut self, primary: Option<ExternalClipboard>) -> (actions: Vec<WireAction>)
        ensures
            (final(self)@, events(actions@)) == spec_set_primary(
                old(self)@,
                match primary {
                    Some(cb) => Some(cb.items@),
                    None => None,
                },
            ),
    {
        let ghost items = match primary {
            Some(ref cb) => Some(cb.items@),
            None => None,
        };
        let mut actions: Vec<WireAction> = Vec::new();
        self.external_primary = primary;
        emit(&mut actions, WireAction::CancelPrimarySource);
        emit(&mut actions, WireAction::OfferPrimarySelection);
        proof {
            assert(events(actions@) =~= spec_set_primary(old(self)@, items).1);
        }
        actions
    }

    fn set_screencast(&mut self, surface_id: u16, active: bool) -> (actions: Vec<WireAction>)
        ensures
            (final(self)@, events(actions@)) == spec_set_screencast(old(self)@, surface_id, active),
    {
        let mut actions: Vec<WireAction> = Vec::new();
        self.screencast.insert(surface_id, active);
        if active && self.toplevels.get(surface_id).is_some() {
            emit(&mut actions, WireAction::CompositeNow { surface_id });
        }
        proof {
            assert(events(actions@) =~= spec_set_screencast(old(self)@, surface_id, active).1);
        }
        actions
    }

    fn drag_end(&mut self) -> (actions: Vec<WireAction>)
        ensures
            (final(self)@, events(actions@)) == spec_drag_end(old(self)@),
    {
        let mut actions: Vec<WireAction> = Vec::new();
        if self.drag == Some(false) {
            emit(&mut actions, WireAction::DragDeviceLeave);
        }
        self.drag = None;
        proof {
            assert(events(actions@) =~= spec_drag_end(old(self)@).1);
        }
        actions
    }

    fn drag_enter(&mut self, target_found: bool, device_available: bool) -> (actions: Vec<WireAction>)
        ensures
            (final(self)@, events(actions@)) == spec_drag_enter(old(self)@, target_found, device_available),
    {
        let mut actions: Vec<WireAction> = Vec::new();
        emit(&mut actions, WireAction::CancelClientDrag);
        if self.drag == Some(false) {
            emit(&mut actions, WireAction::DragDeviceLeave);
        }
        self.drag = None;
        if target_found {
            let serial = next(self.serial);
            self.serial = serial;
            emit(&mut actions, WireAction::DragDeviceEnter { serial });
            if device_available {
                self.drag = Some(false);
            }
        }
        proof {
            assert(events(actions@) =~= spec_drag_enter(old(self)@, target_found, device_available).1);
        }
        actions
    }

    fn drag_motion(&self, target_found: bool) -> (actions: Vec<WireAction>)
        ensures
            (self@, events(actions@)) == spec_drag_motion(self@, target_found),
    {
        let mut actions: Vec<WireAction> = Vec::new();
        if self.drag.is_some() && target_found {
            emit(&mut actions, WireAction::DragDeviceMotion);
        }
        proof {
            assert(events(actions@) =~= spec_drag_motion(self@, target_found).1);
        }
        actions
    }

    fn drag_drop(&mut self) -> (actions: Vec<WireAction>)
        ensures
            (final(self)@, events(actions@)) == spec_drag_drop(old(self)@),
    {
        let mut actions: Vec<WireAction> = Vec::new();
        if self.drag.is_some() {
            self.drag = Some(true);
            emit(&mut actions, WireAction::DragDeviceDrop);
        }
        proof {
            assert(events(actions@) =~= spec_drag_drop(old(self)@).1);
        }
        actions
    }

    fn request_frame(&mut self, surface_id: u16, now_ms: u32) -> (actions: Vec<WireAction>)
        ensures
            (final(self)@, events(actions@)) == spec_request_frame(old(self)@, surface_id, now_ms),
    {
        let mut actions: Vec<WireAction> = Vec::new();
        self.last_request_frame_ms.insert(surface_id, now_ms);
        if self.toplevels.get(surface_id).is_some() {
            emit(&mut actions, WireAction::RequestFrame { surface_id });
        }
        proof {
            assert(events(actions@) =~= spec_request_frame(old(self)@, surface_id, now_ms).1);
        }
        actions
    }

    fn recomposite(&self, surface_id: u16) -> (actions: Vec<WireAction>)
        ensures
            events(actions@) == (if self@.toplevels.contains_key(surface_id) {
                seq![WireEvent::Recomposite { surface_id }]
            } else {
                Seq::<WireEvent>::empty()
            }),
    {
        let mut actions: Vec<WireAction> = Vec::new();
        if self.toplevels.get(surface_id).is_some() {
            emit(&mut actions, WireAction::Recomposite { surface_id });
        }
        proof {
            assert(events(actions@) =~= (if self@.toplevels.contains_key(surface_id) {
                seq![WireEvent::Recomposite { surface_id }]
            } else {
                Seq::<WireEvent>::empty()
            }));
        }
        actions
    }

    fn release_keys(&mut self, keycodes: &Vec<u32>, now_ms: u32) -> (actions: Vec<WireAction>)
        ensures
            (final(self)@, events(actions@)) == spec_release_keys(old(self)@, keycodes@, now_ms),
    {
        let mut actions: Vec<WireAction> = Vec::new();
        let mut clock = self.clock;
        let time = clock.input_event_time(now_ms, 0);
        let serial0 = self.serial;
        let mut serial = serial0;
        let mut i: usize = 0;
        proof {
            assert(keycodes@.take(0) =~= Seq::<u32>::empty());
            assert(events(actions@) =~= Seq::<WireEvent>::empty());
        }
        while i < keycodes.len()
            invariant
                0 <= i <= keycodes@.len(),
                release_keys(serial0, time, keycodes@.take(i as int)).0 == serial,
                release_keys(serial0, time, keycodes@.take(i as int)).1 == events(actions@),
            decreases keycodes@.len() - i,
        {
            proof {
                assert(keycodes@.take(i + 1).drop_last() =~= keycodes@.take(i as int));
            }
            serial = next(serial);
            emit(&mut actions, WireAction::Key { serial, time, keycode: keycodes[i], pressed: false });
            i += 1;
        }
        proof {
            assert(keycodes@.take(keycodes@.len() as int) =~= keycodes@);
        }
        let ghost mid = events(actions@);
        let serial1 = serial;
        let mods0 = self.modifiers;
        let mut mods = mods0;
        let mut j: usize = 0;
        proof {
            assert(mid + Seq::<WireEvent>::empty() =~= mid);
        }
        while j < keycodes.len()
            invariant
                0 <= j <= keycodes@.len(),
                release_modifiers(serial1, mods0, keycodes@.take(j as int)).0 == serial,
                release_modifiers(serial1, mods0, keycodes@.take(j as int)).1 == mods,
                events(actions@) == mid + release_modifiers(serial1, mods0, keycodes@.take(j as int)).2,
            decreases keycodes@.len() - j,
        {
            let ghost before = events(actions@);
            proof {
                assert(keycodes@.take(j + 1).drop_last() =~= keycodes@.take(j as int));
            }
            if mods.update_modifiers(keycodes[j], false) {
                serial = next(serial);
                emit(&mut actions, modifiers_action(serial, mods));
            }
            proof {
                assert(events(actions@) =~= mid + release_modifiers(serial1, mods0, keycodes@.take(j + 1)).2);
            }
            j += 1;
        }
        self.serial = serial;
        self.modifiers = mods;
        self.clock = clock;
        proof {
            assert(events(actions@) =~= spec_release_keys(old(self)@, keycodes@, now_ms).1);
        }
        actions
    }

    fn clipboard_list_mimes(&self) -> (actions: Vec<WireAction>)
        ensures
            events(actions@) == seq![
                WireEvent::ClipboardMimes {
                    mime_types: spec_clipboard_mimes(self@.wayland_selection_mimes, self@.external_clipboard),
                },
            ],
    {
        let mut actions: Vec<WireAction> = Vec::new();
        let mime_types = match (&self.wayland_selection_mimes, &self.external_clipboard) {
            (Some(m), Some(cb)) => collect_clipboard_mime_types(Some(m), Some(cb)),
            (Some(m), None) => collect_clipboard_mime_types(Some(m), None),
            (None, Some(cb)) => collect_clipboard_mime_types(None, Some(cb)),
            (None, None) => collect_clipboard_mime_types(None, None),
        };
        emit(&mut actions, WireAction::ClipboardMimes { mime_types });
        proof {
            assert(events(actions@) =~= seq![
                WireEvent::ClipboardMimes {
                    mime_types: spec_clipboard_mimes(self@.wayland_selection_mimes, self@.external_clipboard),
                },
            ]);
        }
        actions
    }

    fn clipboard_get(&self, generation: u64, mime_type: String) -> (actions: Vec<WireAction>)
        ensures
            events(actions@) == spec_clipboard_get(self@, generation, mime_type@),
    {
        let mut actions: Vec<WireAction> = Vec::new();
        let wayland_owned = self.wayland_selection_mimes.is_some();
        if self.clipboard_generation != generation {
            emit(&mut actions, WireAction::ClipboardData { bytes: None });
        } else if self.external_clipboard.is_some() && !wayland_owned {
            match &self.external_clipboard {
                Some(cb) => {
                    let found = cb.data(mime_type.as_str());
                    let bytes = match found {
                        Some(b) => Some(vstd::slice::slice_to_vec(b)),
                        None => None,
                    };
                    proof {
                        let res = match found {
                            Some(b) => Some(b@),
                            None => None,
                        };
                        lemma_clipboard_answer(cb.items@, mime_type@, res);
                    }
                    emit(&mut actions, WireAction::ClipboardData { bytes });
                },
                None => {},
            }
        } else if wayland_owned {
            emit(&mut actions, WireAction::ReadWaylandSelection { mime_type, generation });
        } else {
            emit(&mut actions, WireAction::ClipboardData { bytes: None });
        }
        proof {
            assert(events(actions@) =~= spec_clipboard_get(self@, generation, mime_type@));
        }
        actions
    }

    fn set_refresh_rate(&mut self, mhz: u32) -> (actions: Vec<WireAction>)
        ensures
            (final(self)@, events(actions@)) == spec_set_refresh_rate(old(self)@, mhz),
    {
        let mut actions: Vec<WireAction> = Vec::new();
        if let Some(m) = refresh_rate_update(self.output_refresh_mhz, mhz) {
            self.output_refresh_mhz = m;
            emit(&mut actions, WireAction::AnnounceOutputs);
        }
        proof {
            assert(events(actions@) =~= spec_set_refresh_rate(old(self)@, mhz).1);
        }
        actions
    }
}

/// Handle one command: the next state, and the sends and replies that carry
/// the decision out, in the order they are to be made.
pub fn command_step(state: &mut CompositorState, cmd: Command) -> (actions: Vec<WireAction>)
    ensures
        (final(state)@, events(actions@)) == spec_command_step(old(state)@, cmd),
{
    match cmd {
        Command::KeyInput { keycode, pressed, caps_lock, time_ms, now_ms } => state.key_input(
            keycode,
            pressed,
            caps_lock,
            time_ms,
            now_ms,
        ),
        Command::TextInput { text, has_keyboard_focus, now_ms } => state.text_input(
            text.as_str(),
            has_keyboard_focus,
            now_ms,
        ),
        Command::Preedit { text, cursor, has_keyboard_focus } => state.preedit(
            text,
            cursor,
            has_keyboard_focus,
        ),
        Command::PointerAxis {
            pointer_focused,
            entered_live,
            dx_zero,
            dy_zero,
            v120_x,
            v120_y,
            source,
            stop,
            time_ms,
            now_ms,
        } => state.pointer_axis(
            pointer_focused,
            entered_live,
            dx_zero,
            dy_zero,
            v120_x,
            v120_y,
            source,
            stop,
            time_ms,
            now_ms,
        ),
        Command::PointerLeave { surface_id, entered_live } => state.pointer_leave(surface_id, entered_live),
        Command::SetTouchEnabled { enabled } => state.set_touch_enabled(enabled),
        Command::SurfaceResize { surface_id, width, height, scale_120 } => state.surface_resize(
            surface_id,
            width,
            height,
            scale_120,
        ),
        Command::SurfaceFocus { surface_id, focus_holder, popup_holds } => state.surface_focus(
            surface_id,
            focus_holder,
            popup_holds,
        ),
        Command::SurfaceClose { surface_id } => state.surface_close(surface_id),
        Command::ClipboardOffer { mime_type, data } => {
            let ghost item = (mime_type, data);
            let mut items: Vec<(String, Vec<u8>)> = Vec::new();
            items.push((mime_type, data));
            proof {
                assert(items@ =~= seq![item]);
            }
            state.set_clipboard(Some(ExternalClipboard { items }))
        },
        Command::ClipboardOffers { items } => {
            if items.len() > 0 {
                state.set_clipboard(Some(ExternalClipboard { items }))
            } else {
                state.set_clipboard(None)
            }
        },
        Command::ClipboardClear => state.set_clipboard(None),
        Command::PrimaryOffer { mime_type, data } => {
            let ghost item = (mime_type, data);
            let mut items: Vec<(String, Vec<u8>)> = Vec::new();
            items.push((mime_type, data));
            proof {
                assert(items@ =~= seq![item]);
            }
            state.set_primary(Some(ExternalClipboard { items }))
        },
        Command::PrimaryOffers { items } => {
            if items.len() > 0 {
                state.set_primary(Some(ExternalClipboard { items }))
            } else {
                state.set_primary(None)
            }
        },
        Command::PrimaryClear => state.set_primary(None),
        Command::SetScreenCastActive { surface_id, active } => state.set_screencast(surface_id, active),
        Command::DragEnter { target_found, device_available } => state.drag_enter(
            target_found,
            device_available,
        ),
        Command::DragMotion { target_found } => state.drag_motion(target_found),
        Command::DragLeave => state.drag_end(),
        Command::DragDrop => state.drag_drop(),
        Command::DragCancel => state.drag_end(),
        Command::RequestFrame { surface_id, now_ms } => state.request_frame(surface_id, now_ms),
        Command::Recomposite { surface_id } => state.recomposite(surface_id),
        Command::ReleaseKeys { keycodes, now_ms } => state.release_keys(&keycodes, now_ms),
        Command::ClipboardListMimes => state.clipboard_list_mimes(),
        Command::ClipboardGet { generation, mime_type } => state.clipboard_get(generation, mime_type),
        Command::SetRefreshRate { mhz } => state.set_refresh_rate(mhz),
    }
}


/// A toplevel committed; the host says whether a presentation time is
/// latched for it and whether any surface holds keyboard focus.
pub fn toplevel_committed(
    state: &mut CompositorState,
    surface_id: u16,
    has_pending_presentation: bool,
    has_keyboard_focus: bool,
    now_ms: u32,
) -> (actions: Vec<WireAction>)
    ensures
        (final(state)@, events(actions@)) == spec_toplevel_committed(
            old(state)@,
            surface_id,
            has_pending_presentation,
            has_keyboard_focus,
            now_ms,
        ),
{
    let mut actions: Vec<WireAction> = Vec::new();
    let paced = recently_paced(state.last_request_frame_ms.get(surface_id), now_ms);
    if paced && has_pending_presentation {
        emit(&mut actions, WireAction::FirePendingPresentation { surface_id });
    } else if !paced {
        emit(&mut actions, WireAction::DropPendingPresentation { surface_id });
        emit(&mut actions, WireAction::FireFrameCallbacks { surface_id });
    }
    if state.pending_kb_reenter && has_keyboard_focus {
        let leave_serial = next(state.serial);
        let enter_serial = next(leave_serial);
        let modifiers_serial = next(enter_serial);
        emit(&mut actions, WireAction::KeyboardLeave { serial: leave_serial });
        emit(
            &mut actions,
            WireAction::KeyboardEnter {
                surface_id: None,
                serial: enter_serial,
                modifiers_serial,
                depressed: state.modifiers.depressed,
                locked: state.modifiers.locked,
            },
        );
        state.serial = modifiers_serial;
    }
    state.pending_kb_reenter = false;
    proof {
        assert(events(actions@) =~= spec_toplevel_committed(
            old(state)@,
            surface_id,
            has_pending_presentation,
            has_keyboard_focus,
            now_ms,
        ).1);
    }
    actions
}

/// A toplevel's surface was destroyed.
pub fn surface_destroyed(state: &mut CompositorState, surface_id: u16) -> (actions: Vec<WireAction>)
    ensures
        (final(state)@, events(actions@)) == spec_surface_destroyed(old(state)@, surface_id),
{
    let mut actions: Vec<WireAction> = Vec::new();
    if surface_id != 0 {
        state.toplevels.remove(surface_id);
        state.surface_sizes.remove(surface_id);
        state.last_request_frame_ms.remove(surface_id);
        state.screencast.remove(surface_id);
        if state.focused_surface_id == surface_id {
            state.focused_surface_id = 0;
        }
        if state.pointer_entered == PointerEnter::Root(surface_id) {
            state.pointer_entered = PointerEnter::Nothing;
            emit(&mut actions, WireAction::ForgetPointerEnter);
        }
        emit(&mut actions, WireAction::SurfaceDestroyed { surface_id });
    }
    proof {
        assert(state@ =~= spec_surface_destroyed(old(state)@, surface_id).0);
        assert(events(actions@) =~= spec_surface_destroyed(old(state)@, surface_id).1);
    }
    actions
}

// ---------------------------------------------------------------------------
// Laws of the step.
// ---------------------------------------------------------------------------

/// Typing text leaves the physical modifier masks as they were, so a key
/// combination that follows still sees a Shift held on the real keyboard.
pub proof fn lemma_text_input_restores_modifiers(s: StateView, text: Seq<char>, has_keyboard_focus: bool, now_ms: u32)
    ensures
        spec_text_input(s, text, has_keyboard_focus, now_ms).0.modifiers == s.modifiers,
{
}

/// Focusing the toplevel that already holds keyboard focus changes nothing
/// and sends nothing: no second `wl_keyboard.enter` without a `leave`.
pub proof fn lemma_refocus_is_silent(s: StateView, surface_id: u16, holder: bool, popup: bool, holder_again: bool, popup_again: bool)
    ensures
        ({
            let (s1, _) = spec_surface_focus(s, surface_id, holder, popup);
            let (s2, e2) = spec_surface_focus(s1, surface_id, holder_again, popup_again);
            s2 == s1 && e2.len() == 0 && s1.focused_surface_id == surface_id
        }),
{
}

/// After the browser offers `data` as `mime_type`, a read pinned to the
/// generation that offer announced gets `data` back.
pub proof fn lemma_clipboard_offer_then_read(s: StateView, mime_type: String, data: Vec<u8>)
    ensures
        ({
            let (s1, e1) = spec_set_clipboard(s, Some(seq![(mime_type, data)]));
            let generation = s1.clipboard_generation;
            &&& e1.last() == (WireEvent::ClipboardOwner {
                wayland: false,
                generation,
                mime_types: spec_clipboard_mimes(None, Some(seq![(mime_type, data)])),
            })
            &&& spec_clipboard_get(s1, generation, mime_type@) == seq![
                WireEvent::ClipboardData { bytes: Some(data@) },
            ]
        }),
{
    let items = seq![(mime_type, data)];
    assert(first_exact(items, mime_type@, 0));
    assert(has_exact(items, mime_type@));
    let k = choose|k: int| first_exact(items, mime_type@, k);
    assert(k == 0);
}

/// A read pinned to any other generation than the current one answers
/// nothing.
pub proof fn lemma_stale_read_answers_nothing(s: StateView, generation: u64, mime: Seq<char>)
    requires
        generation != s.clipboard_generation,
    ensures
        spec_clipboard_get(s, generation, mime) == seq![WireEvent::ClipboardData { bytes: None }],
{
}

proof fn lemma_clear_keeps_clear(d: u32, m: u32, m2: u32)
    requires
        d & m == 0,
    ensures
        (d & !m2) & m == 0,
{
    assert((d & m == 0) ==> ((d & !m2) & m == 0)) by (bit_vector);
}

proof fn lemma_clear_bit(d: u32, m: u32)
    ensures
        (d & !m) & m == 0,
{
    assert((d & !m) & m == 0) by (bit_vector);
}

/// Releasing keys never changes the locked mask, and leaves none of the
/// released modifier keys (CapsLock aside) held.
pub proof fn lemma_released_modifiers_not_held(serial: u32, m: ModifierState, keys: Seq<u32>)
    ensures
        ({
            let (_, after, _) = release_modifiers(serial, m, keys);
            &&& after.locked == m.locked
            &&& forall|i: int|
                0 <= i < keys.len() && keys[i] != KEY_CAPSLOCK ==> after.depressed & modifier_bit(
                    #[trigger] keys[i],
                ) == 0
        }),
    decreases keys.len(),
{
    if keys.len() > 0 {
        let prev = keys.drop_last();
        lemma_released_modifiers_not_held(serial, m, prev);
        let (_, m1, _) = release_modifiers(serial, m, prev);
        let (_, after, _) = release_modifiers(serial, m, keys);
        let k = keys.last();
        assert forall|i: int|
            0 <= i < keys.len() && keys[i] != KEY_CAPSLOCK implies after.depressed & modifier_bit(
                #[trigger] keys[i],
            ) == 0 by {
            if i == keys.len() - 1 {
                if modifier_bit(k) != 0 {
                    lemma_clear_bit(m1.depressed, modifier_bit(k));
                } else {
                    assert(modifier_bit(k) == 0);
                    assert(m1.depressed & 0 == 0) by (bit_vector);
                }
            } else {
                assert(prev[i] == keys[i]);
                if modifier_bit(k) != 0 {
                    if k != KEY_CAPSLOCK {
                        lemma_clear_keeps_clear(m1.depressed, modifier_bit(keys[i]), modifier_bit(k));
                    }
                }
            }
        }
    }
}

/// A resize at the surface's current density leaves the pointer and
/// keyboard enters alone.
pub proof fn lemma_same_density_keeps_enters(s: StateView, surface_id: u16, width: u16, height: u16, scale_120: u16)
    requires
        scale_120 == 0 || scale_120 == crate::geometry::spec_surface_scale_120(
            if s.surface_scales.contains_key(surface_id) {
                Some(s.surface_scales[surface_id])
            } else {
                None
            },
        ),
    ensures
        ({
            let (s1, e1) = spec_surface_resize_step(s, surface_id, width, height, scale_120);
            &&& s1.pointer_entered == s.pointer_entered
            &&& s1.pending_kb_reenter == s.pending_kb_reenter
            &&& s1.surface_scales == s.surface_scales
            &&& !e1.contains(WireEvent::ForgetPointerEnter)
        }),
{
    let (s1, e1) = spec_surface_resize_step(s, surface_id, width, height, scale_120);
    assert forall|i: int| 0 <= i < e1.len() implies e1[i] != WireEvent::ForgetPointerEnter by {
    }
}


/// A second leave for the same view finds nothing entered and sends
/// nothing: the pointer is left once.
pub proof fn lemma_pointer_leave_once(s: StateView, surface_id: u16, live: bool, live_again: bool)
    ensures
        ({
            let (s1, _) = spec_pointer_leave(s, surface_id, live);
            let (s2, e2) = spec_pointer_leave(s1, surface_id, live_again);
            s2 == s1 && e2.len() == 0
        }),
{
}


/// A destroyed toplevel's id is forgotten by every table, and keyboard focus
/// no longer names it.
pub proof fn lemma_destroyed_id_is_forgotten(s: StateView, surface_id: u16)
    requires
        surface_id != 0,
    ensures
        ({
            let (s1, _) = spec_surface_destroyed(s, surface_id);
            &&& !s1.toplevels.contains_key(surface_id)
            &&& !s1.surface_sizes.contains_key(surface_id)
            &&& !s1.last_request_frame_ms.contains_key(surface_id)
            &&& !s1.screencast.contains_key(surface_id)
            &&& s1.focused_surface_id != surface_id
            &&& s1.pointer_entered != PointerEnter::Root(surface_id)
        }),
{
}

/// A surface id reused after the focused toplevel died is a real focus
/// change: focusing the new toplevel under that id sends it a fresh
/// `wl_keyboard.enter`.
pub proof fn lemma_reused_id_is_entered_afresh(
    s: StateView,
    surface_id: u16,
    reborn: Toplevel,
    holder: bool,
    popup: bool,
)
    requires
        surface_id != 0,
        s.focused_surface_id == surface_id,
    ensures
        ({
            let (s1, _) = spec_surface_destroyed(s, surface_id);
            let s2 = StateView { toplevels: s1.toplevels.insert(surface_id, reborn), ..s1 };
            let (s3, e3) = spec_surface_focus(s2, surface_id, holder, popup);
            &&& s3.focused_surface_id == surface_id
            &&& e3.len() > 0
            &&& e3.last() matches WireEvent::KeyboardEnter { surface_id: target, .. } && target == Some(
                surface_id,
            )
        }),
{
}

/// After a density change the next toplevel commit leaves and re-enters the
/// keyboard holder, once: a commit after it sends no keyboard events.
pub proof fn lemma_density_change_reenters_once(
    s: StateView,
    surface_id: u16,
    width: u16,
    height: u16,
    scale_120: u16,
    committed: u16,
    pending: bool,
    pending_again: bool,
    now_ms: u32,
    later_ms: u32,
)
    requires
        scale_120 > 0,
        scale_120 != crate::geometry::spec_surface_scale_120(
            if s.surface_scales.contains_key(surface_id) {
                Some(s.surface_scales[surface_id])
            } else {
                None
            },
        ),
    ensures
        ({
            let (s1, _) = spec_surface_resize_step(s, surface_id, width, height, scale_120);
            let (s2, e2) = spec_toplevel_committed(s1, committed, pending, true, now_ms);
            let (s3, e3) = spec_toplevel_committed(s2, committed, pending_again, true, later_ms);
            &&& s1.pending_kb_reenter
            &&& !s2.pending_kb_reenter
            &&& e2.len() >= 2
            &&& e2[e2.len() - 2] is KeyboardLeave
            &&& e2.last() matches WireEvent::KeyboardEnter { surface_id: target, .. } && target is None
            &&& forall|i: int|
                0 <= i < e3.len() ==> !(#[trigger] e3[i] is KeyboardLeave) && !(e3[i] is KeyboardEnter)
        }),
{
    let (s1, _) = spec_surface_resize_step(s, surface_id, width, height, scale_120);
    let (s2, e2) = spec_toplevel_committed(s1, committed, pending, true, now_ms);
    let (s3, e3) = spec_toplevel_committed(s2, committed, pending_again, true, later_ms);
    assert(!s2.pending_kb_reenter);
}


/// A dropped browser drag already sent its target the terminal leave:
/// ending it afterwards (leave or cancel) sends none, while ending an
/// undropped one sends exactly one.
pub proof fn lemma_drag_is_left_once(s: StateView)
    requires
        s.drag is Some,
    ensures
        spec_drag_end(spec_drag_drop(s).0).1.len() == 0,
        spec_drag_end(spec_drag_drop(s).0).0.drag is None,
        s.drag == Some(false) ==> spec_drag_end(s).1 == seq![WireEvent::DragDeviceLeave],
        spec_drag_end(spec_drag_end(s).0).1.len() == 0,
{
}

} // verus!
