use compositor::outputs::{Claim, OutputSlot, OutputSlots, Release};

#[test]
fn a_client_is_offered_one_empty_screen_up_front() {
    let mut slots = OutputSlots::new();
    assert_eq!(slots.ensure_client_output(1), Some(0));
    assert_eq!(slots.ensure_client_output(1), None);
    assert_eq!(slots.first_slot_of(1), Some(0));
    assert_eq!(slots.first_slot_of(2), None);
}

#[test]
fn the_first_window_claims_the_empty_screen_and_later_ones_get_their_own() {
    let mut slots = OutputSlots::new();
    slots.ensure_client_output(1);
    assert_eq!(slots.claim_output_for_surface(10, 1), Claim::Reused(0));
    assert_eq!(slots.claim_output_for_surface(11, 1), Claim::Created(1));
    assert_eq!(slots.claim_output_for_surface(10, 1), Claim::AlreadyOnScreen);
    assert_eq!(slots.slot_of_surface(10), Some(0));
    assert_eq!(slots.slot_of_surface(11), Some(1));
}

#[test]
fn closing_windows_withdraws_screens_but_keeps_the_last_one() {
    let mut slots = OutputSlots::new();
    slots.ensure_client_output(1);
    slots.claim_output_for_surface(10, 1);
    slots.claim_output_for_surface(11, 1);
    assert_eq!(slots.release_output_for_surface(11), Release::Withdrawn(1));
    assert_eq!(slots.release_output_for_surface(10), Release::Emptied(0));
    assert_eq!(slots.release_output_for_surface(10), Release::NotOnScreen);
    assert_eq!(
        slots.screens().clone(),
        vec![OutputSlot { slot: 0, owner: 1, surface_id: None }]
    );
}

#[test]
fn a_gone_client_loses_every_screen() {
    let mut slots = OutputSlots::new();
    slots.ensure_client_output(1);
    slots.ensure_client_output(2);
    slots.claim_output_for_surface(20, 2);
    slots.claim_output_for_surface(21, 2);
    assert_eq!(slots.remove_client(2), vec![1, 2]);
    assert_eq!(
        slots.screens().clone(),
        vec![OutputSlot { slot: 0, owner: 1, surface_id: None }]
    );
    assert_eq!(slots.ensure_client_output(2), Some(3));
}

use compositor::outputs::output_mode;

#[test]
fn the_mode_is_the_logical_size_at_the_rounded_up_scale() {
    assert_eq!(output_mode(1280, 720, 120, 4), (1280, 720, 1));
    assert_eq!(output_mode(1280, 720, 192, 4), (2560, 1440, 2));
    assert_eq!(output_mode(1280, 720, 240, 4), (2560, 1440, 2));
    assert_eq!(output_mode(1280, 720, 241, 4), (3840, 2160, 3));
    assert_eq!(output_mode(1280, 720, 240, 1), (1280, 720, 1));
}
