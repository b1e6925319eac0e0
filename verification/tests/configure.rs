use compositor::configure::{encode_u32_array, pane_states, WM_CAPABILITY_FULLSCREEN};

#[test]
fn a_pane_is_always_activated() {
    assert_eq!(pane_states(false, false, true), vec![4, 0, 0, 0]);
    assert_eq!(pane_states(true, true, true), vec![4, 0, 0, 0, 1, 0, 0, 0, 2, 0, 0, 0]);
    assert_eq!(pane_states(false, true, false), vec![0, 0, 0, 4, 0, 0, 0, 2]);
}

#[test]
fn capabilities_encode_as_native_words() {
    assert_eq!(encode_u32_array(&[WM_CAPABILITY_FULLSCREEN], true), vec![3, 0, 0, 0]);
    assert_eq!(encode_u32_array(&[0x0102_0304], false), vec![1, 2, 3, 4]);
    assert!(encode_u32_array(&[], true).is_empty());
}
