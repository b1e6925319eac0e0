use compositor::seat::{
    allocate_touch_id, axis_source_from_wire, seat_capabilities, AxisSource, SEAT_KEYBOARD,
    SEAT_POINTER, SEAT_TOUCH,
};

#[test]
fn touch_ids_reuse_the_lowest_free_slot() {
    assert_eq!(allocate_touch_id(&[]), 0);
    assert_eq!(allocate_touch_id(&[0, 1, 3]), 2);
    assert_eq!(allocate_touch_id(&[1, 2]), 0);
    assert_eq!(allocate_touch_id(&[2, 0, 1]), 3);
}

#[test]
fn scroll_sources_map_to_the_wire_enum() {
    assert_eq!(axis_source_from_wire(0, 5), Some(AxisSource::Wheel));
    assert_eq!(axis_source_from_wire(1, 5), Some(AxisSource::Finger));
    assert_eq!(axis_source_from_wire(2, 5), Some(AxisSource::Continuous));
    assert_eq!(axis_source_from_wire(3, 5), None, "wheel tilt needs version 6");
    assert_eq!(axis_source_from_wire(3, 6), Some(AxisSource::WheelTilt));
    assert_eq!(axis_source_from_wire(9, 9), None);
}

#[test]
fn touch_is_advertised_only_while_enabled() {
    assert_eq!(seat_capabilities(false), SEAT_KEYBOARD | SEAT_POINTER);
    assert_eq!(seat_capabilities(true), SEAT_KEYBOARD | SEAT_POINTER | SEAT_TOUCH);
    assert_eq!(seat_capabilities(true), 7);
}

use compositor::seat::{plan_axis_frame, AxisEvent, ScrollAxis};

#[test]
fn a_wheel_detent_reaches_a_modern_pointer_as_value120() {
    assert_eq!(
        plan_axis_frame(8, Some(0), false, true, false, 0, 120),
        vec![
            AxisEvent::Source(AxisSource::Wheel),
            AxisEvent::Value120(ScrollAxis::Vertical, 120),
            AxisEvent::Motion(ScrollAxis::Vertical),
            AxisEvent::Frame,
        ]
    );
}

#[test]
fn older_pointers_get_whole_detents_or_none() {
    assert_eq!(
        plan_axis_frame(5, None, false, false, true, -250, 0),
        vec![
            AxisEvent::Discrete(ScrollAxis::Horizontal, -2),
            AxisEvent::Motion(ScrollAxis::Horizontal),
            AxisEvent::Frame,
        ]
    );
    assert_eq!(
        plan_axis_frame(5, None, false, false, true, 60, 0),
        vec![AxisEvent::Motion(ScrollAxis::Horizontal), AxisEvent::Frame]
    );
    assert_eq!(
        plan_axis_frame(4, Some(1), false, false, true, 240, 0),
        vec![AxisEvent::Motion(ScrollAxis::Horizontal)]
    );
}

#[test]
fn a_stop_ends_both_axes_and_an_empty_scroll_sends_nothing() {
    assert_eq!(
        plan_axis_frame(5, Some(1), true, true, true, 0, 0),
        vec![
            AxisEvent::Source(AxisSource::Finger),
            AxisEvent::Stop(ScrollAxis::Vertical),
            AxisEvent::Stop(ScrollAxis::Horizontal),
            AxisEvent::Frame,
        ]
    );
    assert!(plan_axis_frame(8, Some(0), false, true, true, 0, 0).is_empty());
}
