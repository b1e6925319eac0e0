use compositor::surface_id::{next_surface_id_after, scan_free_surface_id, SurfaceIdAllocator};
use std::collections::HashSet;

#[test]
fn scan_skips_zero_and_wraps() {
    assert_eq!(next_surface_id_after(1), 2);
    assert_eq!(next_surface_id_after(u16::MAX), 1, "0 is never handed out");

    // Seeded past the end of a small taken set, the scan wraps around
    // to the first free id rather than giving up.
    let taken: HashSet<u16> = (1..=10).collect();
    assert_eq!(scan_free_surface_id(5, |id| taken.contains(&id)), Some(11));
    assert_eq!(
        scan_free_surface_id(u16::MAX, |id| taken.contains(&id)),
        Some(u16::MAX)
    );
}

#[test]
fn scan_refuses_when_every_id_is_taken() {
    assert_eq!(scan_free_surface_id(1, |_| true), None);
    assert_eq!(scan_free_surface_id(40_000, |_| true), None);
    assert_eq!(scan_free_surface_id(u16::MAX, |_| true), None);
}

#[test]
fn scan_tolerates_a_zero_seed() {
    assert_eq!(scan_free_surface_id(0, |_| false), Some(1));
    assert_eq!(scan_free_surface_id(0, |_| true), None);
}

#[test]
fn scan_wraps_past_the_top_to_one() {
    let taken: HashSet<u16> = [u16::MAX - 1, u16::MAX].into_iter().collect();
    assert_eq!(scan_free_surface_id(u16::MAX - 1, |id| taken.contains(&id)), Some(1));
}

#[test]
fn allocator_hands_out_ids_in_order_and_skips_taken_ones() {
    let mut alloc = SurfaceIdAllocator::new();
    let first = alloc.allocate(|_| false);
    assert_eq!(first, Some(1));
    let taken: HashSet<u16> = [2, 3].into_iter().collect();
    assert_eq!(alloc.allocate(|id| taken.contains(&id)), Some(4));
    assert_eq!(alloc.allocate(|_| false), Some(5));
    assert_eq!(alloc.allocate(|_| true), None);
}

#[test]
fn id_cycle_visits_every_nonzero_id_once() {
    let mut seen = HashSet::new();
    let mut id: u16 = 7;
    for _ in 0..u16::MAX {
        assert!(seen.insert(id));
        id = next_surface_id_after(id);
    }
    assert_eq!(id, 7);
    assert_eq!(seen.len(), usize::from(u16::MAX));
    assert!(!seen.contains(&0));
}
