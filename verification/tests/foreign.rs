use compositor::foreign::{foreign_handle_hex, foreign_parent_handle};

#[test]
fn handles_are_lowercase_hex_of_the_random_bytes() {
    let bytes: [u8; 16] = [0, 1, 2, 3, 4, 5, 6, 7, 8, 9, 10, 11, 12, 13, 0xab, 0xff];
    assert_eq!(foreign_handle_hex(&bytes), "000102030405060708090a0b0c0dabff");
    assert_eq!(foreign_handle_hex(&[0xff; 16]), "ff".repeat(16));
}

#[test]
fn a_formatted_handle_resolves_from_its_parent_string() {
    let handle = foreign_handle_hex(&[0x5a; 16]);
    let parent = format!("wayland:{handle}");
    assert_eq!(foreign_parent_handle(&parent), Some(handle.as_str()));
}

#[test]
fn malformed_or_foreign_parents_fail_closed() {
    let hex = "0123456789abcdef0123456789abcdef";
    assert_eq!(foreign_parent_handle(&format!("x11:{hex}")), None);
    assert_eq!(foreign_parent_handle(&format!("wayland:{}", &hex[1..])), None);
    assert_eq!(foreign_parent_handle(&format!("wayland:{hex}0")), None);
    assert_eq!(foreign_parent_handle("wayland:0123456789abcdef0123456789abcdeg"), None);
    assert_eq!(foreign_parent_handle(""), None);
    assert_eq!(foreign_parent_handle("wayland:"), None);
}

#[test]
fn uppercase_hex_is_accepted() {
    let parent = "wayland:0123456789ABCDEF0123456789ABCDEF";
    assert_eq!(foreign_parent_handle(parent), Some("0123456789ABCDEF0123456789ABCDEF"));
}
