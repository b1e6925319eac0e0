use compositor::frame_clock::{consume_frame_clock_deadline, FrameClocks};

const MS: u64 = 1_000_000;

#[test]
fn frame_clock_skips_missed_ticks_without_drifting() {
    let base: u64 = 5_000 * MS;
    let interval = 8 * MS;
    let mut deadline = base + interval;
    let late = base + 21 * MS;

    let presentation = consume_frame_clock_deadline(&mut deadline, late, interval);

    assert_eq!(presentation, base + interval * 2);
    assert_eq!(deadline, base + interval * 3);
}

#[test]
fn unchanged_frame_clock_update_preserves_phase() {
    let interval = 8 * MS;
    let now = 1_000 * MS;
    let next = now + 1_000 * MS;
    let mut clocks = FrameClocks::new();
    clocks.update_frame_clock(1, Some(interval), next);

    clocks.update_frame_clock(1, Some(interval), now);

    assert_eq!(clocks.get(1).map(|e| e.next), Some(next));
}

#[test]
fn an_on_time_tick_presents_at_its_deadline() {
    let mut deadline = 100 * MS;
    let presentation = consume_frame_clock_deadline(&mut deadline, 100 * MS, 16 * MS);
    assert_eq!(presentation, 100 * MS);
    assert_eq!(deadline, 116 * MS);
}

#[test]
fn a_changed_interval_restarts_the_clock_and_none_stops_it() {
    let mut clocks = FrameClocks::new();
    clocks.update_frame_clock(3, Some(8 * MS), 50 * MS);
    clocks.update_frame_clock(3, Some(16 * MS), 60 * MS);
    let e = clocks.get(3).expect("clock is running");
    assert_eq!((e.interval, e.next), (16 * MS, 60 * MS));
    clocks.update_frame_clock(3, None, 70 * MS);
    assert!(clocks.get(3).is_none());
    clocks.update_frame_clock(4, Some(0), 70 * MS);
    assert!(clocks.get(4).is_none());
}

#[test]
fn a_pass_serves_only_due_clocks_and_reports_the_earliest_deadline() {
    let mut clocks = FrameClocks::new();
    assert_eq!(clocks.earliest_deadline(), None);
    clocks.update_frame_clock(1, Some(10 * MS), 100 * MS);
    clocks.update_frame_clock(2, Some(10 * MS), 200 * MS);
    assert_eq!(clocks.earliest_deadline(), Some(100 * MS));

    let requests = clocks.take_due(125 * MS);

    assert_eq!(requests, vec![(1, 120 * MS)]);
    assert_eq!(clocks.get(1).map(|e| e.next), Some(130 * MS));
    assert_eq!(clocks.get(2).map(|e| e.next), Some(200 * MS));
    assert_eq!(clocks.earliest_deadline(), Some(130 * MS));
}
