//! The seat: its advertised devices, touch ids, and scroll sources.
use vstd::prelude::*;
use vstd::set_lib::{lemma_int_range, lemma_len_subset, set_int_range};

verus! {

/// `wl_seat.capability` bits.
pub const SEAT_POINTER: u32 = 1;
pub const SEAT_KEYBOARD: u32 = 2;
pub const SEAT_TOUCH: u32 = 4;

/// The seat's advertised device set: keyboard and pointer always, touch
/// while a direct-touch viewer is connected.
pub fn seat_capabilities(touch_enabled: bool) -> (caps: u32)
    ensures
        caps == if touch_enabled {
            SEAT_KEYBOARD | SEAT_POINTER | SEAT_TOUCH
        } else {
            SEAT_KEYBOARD | SEAT_POINTER
        },
{
    let caps = SEAT_KEYBOARD | SEAT_POINTER;
    if touch_enabled {
        caps | SEAT_TOUCH
    } else {
        caps
    }
}

/// The phase of a batch of touch contacts from a viewer.
#[derive(Clone, Copy, Debug, PartialEq, Eq, Structural)]
pub enum TouchPhase {
    Down,
    Up,
    Motion,
    Cancel,
}

/// Whether `id` is among the live touch ids.
pub open spec fn touch_id_live(live: Seq<i32>, id: int) -> bool {
    exists|k: int| 0 <= k < live.len() && live[k] == id
}

proof fn lemma_free_id_below_len(live: Seq<i32>)
    ensures
        exists|id: int| 0 <= id <= live.len() && !touch_id_live(live, id),
{
    let ints = live.map_values(|v: i32| v as int);
    if forall|id: int| 0 <= id <= live.len() ==> touch_id_live(live, id) {
        let range = set_int_range(0, live.len() as int + 1);
        lemma_int_range(0, live.len() as int + 1);
        assert forall|id: int| range.contains(id) implies ints.to_set().contains(id) by {
            assert(touch_id_live(live, id));
            let k = choose|k: int| 0 <= k < live.len() && live[k] == id;
            assert(ints[k] == id);
        }
        ints.lemma_cardinality_of_set();
        vstd::seq_lib::seq_to_set_is_finite(ints);
        lemma_len_subset(range, ints.to_set());
        assert(false);
    }
}

/// The lowest touch id not held by a live contact. Wayland only needs ids
/// unique while their contacts are down; reusing the lowest free one, as a
/// physical touchscreen does, keeps ids small.
pub fn allocate_touch_id(live: &[i32]) -> (id: i32)
    requires
        live@.len() < i32::MAX,
    ensures
        0 <= id,
        !touch_id_live(live@, id as int),
        forall|j: int| 0 <= j < id ==> touch_id_live(live@, j),
{
    proof {
        lemma_free_id_below_len(live@);
    }
    let mut id: i32 = 0;
    loop
        invariant
            0 <= id <= live@.len(),
            live@.len() < i32::MAX,
            exists|f: int| id <= f <= live@.len() && !touch_id_live(live@, f),
            forall|j: int| 0 <= j < id ==> touch_id_live(live@, j),
        decreases live@.len() - id,
    {
        let mut k: usize = 0;
        let mut taken = false;
        while k < live.len()
            invariant
                0 <= k <= live@.len(),
                taken ==> touch_id_live(live@, id as int),
                !taken ==> forall|m: int| 0 <= m < k ==> live@[m] != id,
            decreases live@.len() - k,
        {
            if live[k] == id {
                taken = true;
            }
            k += 1;
        }
        if !taken {
            return id;
        }
        id += 1;
    }
}

/// Where a scroll came from, as `wl_pointer.axis_source` names it.
#[derive(Clone, Copy, Debug, PartialEq, Eq, Structural)]
pub enum AxisSource {
    Wheel,
    Finger,
    Continuous,
    WheelTilt,
}

/// The `wl_pointer.axis_source` for a scroll source number, for a pointer
/// bound at `version`: wheel 0, finger 1, continuous 2, and wheel tilt 3
/// from version 6 on. Anything else, or a source the client's version
/// predates, stays unclassified.
pub open spec fn spec_axis_source(source: u8, version: u32) -> Option<AxisSource> {
    if source == 0 {
        Some(AxisSource::Wheel)
    } else if source == 1 {
        Some(AxisSource::Finger)
    } else if source == 2 {
        Some(AxisSource::Continuous)
    } else if source == 3 && version >= 6 {
        Some(AxisSource::WheelTilt)
    } else {
        None
    }
}

/// Map a scroll source onto `wl_pointer.axis_source`.
pub fn axis_source_from_wire(source: u8, version: u32) -> (axis: Option<AxisSource>)
    ensures
        axis == spec_axis_source(source, version),
{
    match source {
        0 => Some(AxisSource::Wheel),
        1 => Some(AxisSource::Finger),
        2 => Some(AxisSource::Continuous),
        3 if version >= 6 => Some(AxisSource::WheelTilt),
        _ => None,
    }
}

/// A scroll axis of `wl_pointer.axis`.
#[derive(Clone, Copy, Debug, PartialEq, Eq, Structural)]
pub enum ScrollAxis {
    Vertical,
    Horizontal,
}

/// One event of a `wl_pointer` scroll frame. `Motion` carries the smooth
/// distance, which the caller scales for the client.
#[derive(Clone, Copy, Debug, PartialEq, Eq, Structural)]
pub enum AxisEvent {
    Source(AxisSource),
    Stop(ScrollAxis),
    Value120(ScrollAxis, i32),
    Discrete(ScrollAxis, i32),
    Motion(ScrollAxis),
    Frame,
}

/// `a / b` rounded toward zero, as Rust's integer division does.
pub open spec fn trunc_div(a: int, b: int) -> int {
    if a >= 0 {
        a / b
    } else {
        -((-a) / b)
    }
}

/// The events one axis contributes to a scroll frame for a pointer bound
/// at `version`: a stop (from version 5), or the high-resolution detents
/// (`value120` from version 8; whole `discrete` detents from version 5)
/// followed by the smooth motion. An axis with no travel sends nothing.
pub open spec fn axis_events(axis: ScrollAxis, version: u32, stop: bool, delta_zero: bool, v120: i16) -> Seq<AxisEvent> {
    if stop {
        if version >= 5 {
            seq![AxisEvent::Stop(axis)]
        } else {
            Seq::empty()
        }
    } else if delta_zero && v120 == 0 {
        Seq::empty()
    } else {
        let detents = if v120 != 0 && version >= 8 {
            seq![AxisEvent::Value120(axis, v120 as i32)]
        } else if v120 != 0 && version >= 5 && (v120 >= 120 || v120 <= -120) {
            seq![AxisEvent::Discrete(axis, trunc_div(v120 as int, 120) as i32)]
        } else {
            Seq::empty()
        };
        detents.push(AxisEvent::Motion(axis))
    }
}

/// The scroll frame a pointer bound at `version` receives: the source
/// first, then the vertical and horizontal axes, then `frame` (from
/// version 5). A scroll with no travel and no stop sends nothing at all.
pub open spec fn spec_axis_frame(
    version: u32,
    source: Option<u8>,
    stop: bool,
    dx_zero: bool,
    dy_zero: bool,
    v120_x: i16,
    v120_y: i16,
) -> Seq<AxisEvent> {
    if !stop && dx_zero && dy_zero && v120_x == 0 && v120_y == 0 {
        Seq::empty()
    } else {
        let src = match source {
            Some(s) => if version >= 5 {
                match spec_axis_source(s, version) {
                    Some(a) => seq![AxisEvent::Source(a)],
                    None => Seq::empty(),
                }
            } else {
                Seq::empty()
            },
            None => Seq::empty(),
        };
        let tail = if version >= 5 {
            seq![AxisEvent::Frame]
        } else {
            Seq::empty()
        };
        src + axis_events(ScrollAxis::Vertical, version, stop, dy_zero, v120_y) + axis_events(
            ScrollAxis::Horizontal,
            version,
            stop,
            dx_zero,
            v120_x,
        ) + tail
    }
}

fn push_axis_events(out: &mut Vec<AxisEvent>, axis: ScrollAxis, version: u32, stop: bool, delta_zero: bool, v120: i16)
    ensures
        final(out)@ == old(out)@ + axis_events(axis, version, stop, delta_zero, v120),
{
    let ghost start = out@;
    if stop {
        if version >= 5 {
            out.push(AxisEvent::Stop(axis));
        }
        proof {
            assert(out@ =~= start + axis_events(axis, version, stop, delta_zero, v120));
        }
        return;
    }
    if delta_zero && v120 == 0 {
        proof {
            assert(out@ =~= start + axis_events(axis, version, stop, delta_zero, v120));
        }
        return;
    }
    let v = v120 as i32;
    if v120 != 0 && version >= 8 {
        out.push(AxisEvent::Value120(axis, v));
    } else if v120 != 0 && version >= 5 && (v >= 120 || v <= -120) {
        let d = if v >= 0 {
            v / 120
        } else {
            -((-v) / 120)
        };
        out.push(AxisEvent::Discrete(axis, d));
    }
    out.push(AxisEvent::Motion(axis));
    proof {
        assert(out@ =~= start + axis_events(axis, version, stop, delta_zero, v120));
    }
}

/// Plan the scroll frame for one pointer bound at `version`.
pub fn plan_axis_frame(
    version: u32,
    source: Option<u8>,
    stop: bool,
    dx_zero: bool,
    dy_zero: bool,
    v120_x: i16,
    v120_y: i16,
) -> (events: Vec<AxisEvent>)
    ensures
        events@ == spec_axis_frame(version, source, stop, dx_zero, dy_zero, v120_x, v120_y),
{
    let mut out: Vec<AxisEvent> = Vec::new();
    if !stop && dx_zero && dy_zero && v120_x == 0 && v120_y == 0 {
        return out;
    }
    if version >= 5 {
        if let Some(s) = source {
            if let Some(a) = axis_source_from_wire(s, version) {
                out.push(AxisEvent::Source(a));
            }
        }
    }
    let ghost src = out@;
    push_axis_events(&mut out, ScrollAxis::Vertical, version, stop, dy_zero, v120_y);
    push_axis_events(&mut out, ScrollAxis::Horizontal, version, stop, dx_zero, v120_x);
    if version >= 5 {
        out.push(AxisEvent::Frame);
    }
    proof {
        assert(out@ =~= spec_axis_frame(version, source, stop, dx_zero, dy_zero, v120_x, v120_y));
    }
    out
}

} // verus!
