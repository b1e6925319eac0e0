use compositor::process::{descends_from_xwayland, dir_is_chromium, status_parent_pid};
use std::collections::HashMap;

#[test]
fn the_parent_is_read_from_the_status_text() {
    let status = "Name:\tsleep\nState:\tS (sleeping)\nTgid:\t4400\nPid:\t4400\nPPid:\t4321\nTracerPid:\t0\n";
    assert_eq!(status_parent_pid(status), Some(4321));
}

#[test]
fn only_a_line_that_begins_with_the_key_counts() {
    assert_eq!(status_parent_pid("xPPid: 3\nPPid: 4\n"), Some(4));
    assert_eq!(status_parent_pid("Name: a\nPid: 9\n"), None);
    assert_eq!(status_parent_pid(""), None);
}

#[test]
fn the_value_is_trimmed_and_parsed_as_u32() {
    assert_eq!(status_parent_pid("PPid: 7\r\n"), Some(7));
    assert_eq!(status_parent_pid("PPid:\t+12"), Some(12));
    assert_eq!(status_parent_pid("PPid:"), None);
    assert_eq!(status_parent_pid("PPid:\t12 3\n"), None);
    assert_eq!(status_parent_pid("PPid:\tabc\n"), None);
    assert_eq!(status_parent_pid("PPid:\t-1\n"), None);
    assert_eq!(status_parent_pid("PPid:\t4294967295\n"), Some(u32::MAX));
    assert_eq!(status_parent_pid("PPid:\t4294967296\n"), None);
    assert_eq!(status_parent_pid("PPid: 99999999999x\n"), None);
}

#[test]
fn the_first_ppid_line_decides() {
    assert_eq!(status_parent_pid("PPid: x\nPPid: 5\n"), None);
}

fn tree(pairs: &[(u32, u32)]) -> HashMap<u32, u32> {
    pairs.iter().copied().collect()
}

#[test]
fn a_child_of_the_bridge_descends_from_it() {
    let parents = tree(&[(100, 50), (50, 10), (10, 1)]);
    let parent_of = |p: u32| parents.get(&p).copied();
    assert!(descends_from_xwayland(Some(10), 100, parent_of));
    assert!(descends_from_xwayland(Some(100), 100, parent_of));
    assert!(!descends_from_xwayland(Some(7), 100, parent_of));
    assert!(!descends_from_xwayland(None, 100, parent_of));
}

#[test]
fn the_walk_stops_at_init_and_after_eight_generations() {
    let parents = tree(&[(5, 1)]);
    assert!(!descends_from_xwayland(Some(1), 5, |p: u32| parents.get(&p).copied()));
    let chain = |p: u32| if p > 11 { Some(p - 1) } else { None };
    assert!(descends_from_xwayland(Some(13), 20, chain));
    assert!(!descends_from_xwayland(Some(12), 20, chain));
}

#[test]
fn a_pid_cycle_cannot_hang_the_walk() {
    let cycle = |p: u32| if p == 5 { Some(6) } else { Some(5) };
    assert!(!descends_from_xwayland(Some(9), 5, cycle));
}

#[test]
fn chromium_is_recognised_by_its_runtime_payload() {
    assert!(dir_is_chromium(|f: &str| f == "chrome_crashpad_handler"));
    assert!(dir_is_chromium(|f: &str| f == "v8_context_snapshot.bin"));
    assert!(dir_is_chromium(|f: &str| f == "icudtl.dat"));
}

#[test]
fn an_ordinary_binary_is_not_chromium() {
    assert!(!dir_is_chromium(|f: &str| f == "alacritty"));
    assert!(!dir_is_chromium(|_: &str| false));
}
