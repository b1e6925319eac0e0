use compositor::geometry::{
    clipped_shm_damage_rect, constrain_to_hints, native_size_after_render, surface_scale_120,
    xwayland_screen, ShmDamageRect, SizeHints,
};

#[test]
fn sidebar_target_is_not_promoted_to_native_size() {
    // An unsized 1342x1118 app can publish only a 512x426 sidebar frame.
    // Native metadata comes from the submission, never that frame list.
    let submitted_native = Some((7, 1342, 1118));
    let sidebar_frame = (7, 512, 426);

    let native = native_size_after_render(7, None, submitted_native, 120);

    assert_eq!(native, Some((7, 1342, 1118, 1342, 1118)));
    assert_ne!(
        native.map(|(_, w, h, _, _)| (w, h)),
        Some((sidebar_frame.1, sidebar_frame.2))
    );
}

#[test]
fn resize_is_not_published_before_its_composite_is_submitted() {
    let requested = Some((2400, 1600, 1200, 800));

    assert_eq!(native_size_after_render(7, requested, None, 240), None);
    assert_eq!(
        native_size_after_render(7, requested, Some((7, 2400, 1600)), 240),
        Some((7, 2400, 1600, 1200, 800)),
    );
}

#[test]
fn unconfigured_native_size_rounds_logical_pixels_up() {
    assert_eq!(
        native_size_after_render(3, None, Some((3, 1001, 700)), 240),
        Some((3, 1001, 700, 501, 350))
    );
}

#[test]
fn buffer_damage_is_clipped_to_the_buffer() {
    assert_eq!(
        clipped_shm_damage_rect(-10, 70, 40, 30, 100, 80),
        Some(ShmDamageRect { x: 0, y: 70, width: 30, height: 10 })
    );
    assert_eq!(
        clipped_shm_damage_rect(6, 8, 10, 12, 100, 80),
        Some(ShmDamageRect { x: 6, y: 8, width: 10, height: 12 })
    );
}

#[test]
fn empty_or_outside_damage_is_dropped() {
    assert_eq!(clipped_shm_damage_rect(0, 0, 0, 10, 100, 80), None);
    assert_eq!(clipped_shm_damage_rect(0, 0, 10, -1, 100, 80), None);
    assert_eq!(clipped_shm_damage_rect(100, 0, 10, 10, 100, 80), None);
    assert_eq!(clipped_shm_damage_rect(-20, 0, 10, 10, 100, 80), None);
}

#[test]
fn damage_reaching_past_i64_saturates() {
    assert_eq!(
        clipped_shm_damage_rect(i64::MAX - 1, 0, 10, 10, 100, 80),
        None
    );
    assert_eq!(
        clipped_shm_damage_rect(90, 75, i64::MAX, i64::MAX, 100, 80),
        Some(ShmDamageRect { x: 90, y: 75, width: 10, height: 5 })
    );
}

#[test]
fn size_hints_raise_to_the_minimum_and_cap_at_the_maximum() {
    let hints = SizeHints { min_size: (500, 0), max_size: (0, 900) };
    assert_eq!(constrain_to_hints(&hints, 300, 1000), (500, 900));
    assert_eq!(constrain_to_hints(&hints, 800, 600), (800, 600));
    let none = SizeHints { min_size: (0, 0), max_size: (0, 0) };
    assert_eq!(constrain_to_hints(&none, 12, 34), (12, 34));
}

#[test]
fn a_minimum_above_the_maximum_is_inconsistent() {
    assert!(SizeHints { min_size: (100, 100), max_size: (200, 0) }.consistent());
    assert!(!SizeHints { min_size: (300, 100), max_size: (200, 0) }.consistent());
    assert!(!SizeHints { min_size: (0, 101), max_size: (0, 100) }.consistent());
}

#[test]
fn surface_scale_never_drops_below_one() {
    assert_eq!(surface_scale_120(None), 120);
    assert_eq!(surface_scale_120(Some(60)), 120);
    assert_eq!(surface_scale_120(Some(240)), 240);
}

#[test]
fn the_bridge_screen_holds_every_window() {
    assert_eq!(xwayland_screen(1280, 720, &[]), (1280, 720, 120));
    assert_eq!(
        xwayland_screen(1280, 720, &[(1920, 600, 180), (800, 1000, 120)]),
        (1920, 1000, 180)
    );
}

use compositor::geometry::surface_resize;

#[test]
fn a_resize_converts_physical_pixels_to_logical() {
    assert_eq!(surface_resize(2400, 1600, 240, None), ((1200, 800), Some(240)));
    assert_eq!(surface_resize(2400, 1600, 240, Some(240)), ((1200, 800), None));
    assert_eq!(surface_resize(1000, 700, 0, Some(240)), ((1000, 700), None));
    assert_eq!(surface_resize(1000, 700, 60, None), ((1000, 700), Some(120)));
    assert_eq!(surface_resize(1000, 700, 60, Some(180)), ((1000, 700), Some(120)));
}

#[test]
fn constraining_twice_changes_nothing() {
    let hints = SizeHints { min_size: (200, 100), max_size: (800, 600) };
    let once = constrain_to_hints(&hints, 50, 5_000);
    assert_eq!(once, (200, 600));
    assert_eq!(constrain_to_hints(&hints, once.0, once.1), once);
}

#[test]
fn negative_size_hints_are_refused_and_change_nothing() {
    let mut pending = SizeHints::new();
    assert!(pending.set_hint(true, 300, 200));
    assert!(pending.set_hint(false, 1000, 0));
    assert!(!pending.set_hint(false, -1, 10));
    assert_eq!((pending.min_size, pending.max_size), ((300, 200), (1000, 0)));
    assert!(pending.consistent());
    assert!(pending.set_hint(false, 100, 0));
    assert!(!pending.consistent(), "a minimum above the maximum is refused at commit");
}
