use compositor::clipboard::{
    browser_drag_bytes, clipboard_read_route, collect_clipboard_mime_types, ClipboardRead,
    ExternalClipboard,
};

fn item(mime: &str, bytes: &[u8]) -> (String, Vec<u8>) {
    (mime.to_string(), bytes.to_vec())
}

#[test]
fn exact_mime_types_answer_first() {
    let cb = ExternalClipboard {
        items: vec![item("text/html", b"<b>x</b>"), item("image/png", b"PNG")],
    };
    assert_eq!(cb.data("image/png"), Some(&b"PNG"[..]));
    assert_eq!(cb.data("text/html"), Some(&b"<b>x</b>"[..]));
    assert_eq!(cb.data("application/json"), None);
}

#[test]
fn text_aliases_answer_for_one_another() {
    let cb = ExternalClipboard {
        items: vec![item("image/png", b"PNG"), item("text/plain;charset=utf-8", b"hello")],
    };
    assert_eq!(cb.data("UTF8_STRING"), Some(&b"hello"[..]));
    assert_eq!(cb.data("text/plain"), Some(&b"hello"[..]));
    assert_eq!(cb.data("TEXT"), None);
}

#[test]
fn text_selections_advertise_the_missing_aliases() {
    let cb = ExternalClipboard { items: vec![item("text/plain", b"hi")] };
    assert_eq!(
        cb.mime_types(),
        vec!["text/plain", "text/plain;charset=utf-8", "UTF8_STRING"]
    );
    let image = ExternalClipboard { items: vec![item("image/png", b"PNG")] };
    assert_eq!(image.mime_types(), vec!["image/png"]);
}

#[test]
fn octet_stream_falls_back_to_the_sole_non_uri_offer() {
    let offers = vec![item("text/uri-list", b"file:///a"), item("image/png", b"PNG")];
    assert_eq!(browser_drag_bytes(&offers, "application/octet-stream"), Some(&b"PNG"[..]));
    assert_eq!(browser_drag_bytes(&offers, "text/uri-list"), Some(&b"file:///a"[..]));
    let two = vec![item("image/png", b"PNG"), item("image/jpeg", b"JPG")];
    assert_eq!(browser_drag_bytes(&two, "application/octet-stream"), None);
}

#[test]
fn clipboard_reads_are_pinned_to_their_generation() {
    assert_eq!(clipboard_read_route(3, 2, true, false), ClipboardRead::Stale);
    assert_eq!(clipboard_read_route(3, 3, true, false), ClipboardRead::External);
    assert_eq!(clipboard_read_route(3, 3, true, true), ClipboardRead::Wayland);
    assert_eq!(clipboard_read_route(3, 3, false, false), ClipboardRead::Empty);
}

#[test]
fn a_wayland_owner_supplies_the_mime_list() {
    let own = vec!["text/html".to_string()];
    let cb = ExternalClipboard { items: vec![item("text/plain", b"hi")] };
    assert_eq!(collect_clipboard_mime_types(Some(&own), Some(&cb)), vec!["text/html"]);
    assert_eq!(
        collect_clipboard_mime_types(None, Some(&cb)),
        vec!["text/plain", "text/plain;charset=utf-8", "UTF8_STRING"]
    );
    let empty = ExternalClipboard { items: Vec::new() };
    assert!(collect_clipboard_mime_types(None, Some(&empty)).is_empty());
    assert!(collect_clipboard_mime_types(None, None).is_empty());
}

use compositor::clipboard::{clipboard_chunk_fits, MAX_CLIPBOARD_READ_BYTES};

#[test]
fn clipboard_reads_are_capped() {
    assert!(clipboard_chunk_fits(0, 8192));
    assert!(clipboard_chunk_fits(MAX_CLIPBOARD_READ_BYTES - 10, 10));
    assert!(!clipboard_chunk_fits(MAX_CLIPBOARD_READ_BYTES - 10, 11));
    assert!(!clipboard_chunk_fits(usize::MAX, 1));
}
