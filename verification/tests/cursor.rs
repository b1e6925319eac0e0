use compositor::cursor::{cursor_shape_name, custom_cursor_image, CursorImage};

#[test]
fn shapes_are_named_as_css_cursors() {
    assert_eq!(cursor_shape_name(1), "default");
    assert_eq!(cursor_shape_name(4), "pointer");
    assert_eq!(cursor_shape_name(9), "text");
    assert_eq!(cursor_shape_name(28), "nesw-resize");
    assert_eq!(cursor_shape_name(34), "zoom-out");
}

#[test]
fn unknown_shapes_fall_back_to_the_default_arrow() {
    assert_eq!(cursor_shape_name(0), "default");
    assert_eq!(cursor_shape_name(35), "default");
    assert_eq!(cursor_shape_name(u32::MAX), "default");
}

#[test]
fn committed_cursor_pixels_become_a_custom_cursor() {
    let rgba = vec![1, 2, 3, 4];
    assert_eq!(
        custom_cursor_image((3, 4), 2, 16, 16, &rgba),
        Some(CursorImage::Custom {
            hotspot_x: 3,
            hotspot_y: 4,
            width: 16,
            height: 16,
            scale: 2,
            rgba: vec![1, 2, 3, 4],
        })
    );
}

#[test]
fn a_cursor_without_pixels_is_not_drawn() {
    assert_eq!(custom_cursor_image((0, 0), 1, 0, 0, &Vec::new()), None);
}

#[test]
fn cursor_scale_is_clamped_to_sixteen_bits() {
    let rgba = vec![9; 4];
    match custom_cursor_image((-1, 70_000), 0, 1, 1, &rgba) {
        Some(CursorImage::Custom { hotspot_x, hotspot_y, scale, .. }) => {
            assert_eq!((hotspot_x, hotspot_y, scale), (u16::MAX, 4_464, 1));
        }
        other => panic!("unexpected cursor {:?}", other),
    }
    match custom_cursor_image((0, 0), 100_000, 1, 1, &rgba) {
        Some(CursorImage::Custom { scale, .. }) => assert_eq!(scale, u16::MAX),
        other => panic!("unexpected cursor {:?}", other),
    }
}
