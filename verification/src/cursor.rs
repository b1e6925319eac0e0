//! Pointer cursors as viewers draw them: a named shape, client pixels with
//! a hotspot, or nothing.
use vstd::prelude::*;

verus! {

/// A cursor state published for a surface.
#[derive(Clone, PartialEq, Eq, Debug)]
pub enum CursorImage {
    Named(String),
    Custom {
        /// Surface-local (logical) hotspot, from `wl_pointer.set_cursor`.
        hotspot_x: u16,
        hotspot_y: u16,
        /// Dimensions of `rgba`, in buffer pixels.
        width: u16,
        height: u16,
        /// The cursor surface's `buffer_scale`: `width / scale` is the
        /// cursor's logical size, the space the hotspot is in.
        scale: u16,
        rgba: Vec<u8>,
    },
    Hidden,
}

/// The CSS cursor name of a `wp_cursor_shape_device_v1.shape` value; a
/// shape this build does not know is drawn as the default arrow.
pub open spec fn spec_cursor_shape_name(shape: u32) -> &'static str {
    if shape == 2 {
        "context-menu"
    } else if shape == 3 {
        "help"
    } else if shape == 4 {
        "pointer"
    } else if shape == 5 {
        "progress"
    } else if shape == 6 {
        "wait"
    } else if shape == 7 {
        "cell"
    } else if shape == 8 {
        "crosshair"
    } else if shape == 9 {
        "text"
    } else if shape == 10 {
        "vertical-text"
    } else if shape == 11 {
        "alias"
    } else if shape == 12 {
        "copy"
    } else if shape == 13 {
        "move"
    } else if shape == 14 {
        "no-drop"
    } else if shape == 15 {
        "not-allowed"
    } else if shape == 16 {
        "grab"
    } else if shape == 17 {
        "grabbing"
    } else if shape == 18 {
        "e-resize"
    } else if shape == 19 {
        "n-resize"
    } else if shape == 20 {
        "ne-resize"
    } else if shape == 21 {
        "nw-resize"
    } else if shape == 22 {
        "s-resize"
    } else if shape == 23 {
        "se-resize"
    } else if shape == 24 {
        "sw-resize"
    } else if shape == 25 {
        "w-resize"
    } else if shape == 26 {
        "ew-resize"
    } else if shape == 27 {
        "ns-resize"
    } else if shape == 28 {
        "nesw-resize"
    } else if shape == 29 {
        "nwse-resize"
    } else if shape == 30 {
        "col-resize"
    } else if shape == 31 {
        "row-resize"
    } else if shape == 32 {
        "all-scroll"
    } else if shape == 33 {
        "zoom-in"
    } else if shape == 34 {
        "zoom-out"
    } else {
        "default"
    }
}

/// Distinct cursor shapes are drawn as distinct CSS cursors: no two of the
/// protocol's shapes (1 to 34) share a name, and only the default arrow
/// (shape 1) and shapes this build does not know are drawn as "default".
pub proof fn lemma_cursor_names_distinct(a: u32, b: u32)
    ensures
        1 <= a <= 34 && 1 <= b <= 34 && a != b ==> spec_cursor_shape_name(a)@ != spec_cursor_shape_name(
            b,
        )@,
        spec_cursor_shape_name(a)@ == "default"@ <==> !(2 <= a <= 34),
{
    reveal_strlit("context-menu");
    reveal_strlit("help");
    reveal_strlit("pointer");
    reveal_strlit("progress");
    reveal_strlit("wait");
    reveal_strlit("cell");
    reveal_strlit("crosshair");
    reveal_strlit("text");
    reveal_strlit("vertical-text");
    reveal_strlit("alias");
    reveal_strlit("copy");
    reveal_strlit("move");
    reveal_strlit("no-drop");
    reveal_strlit("not-allowed");
    reveal_strlit("grab");
    reveal_strlit("grabbing");
    reveal_strlit("e-resize");
    reveal_strlit("n-resize");
    reveal_strlit("ne-resize");
    reveal_strlit("nw-resize");
    reveal_strlit("s-resize");
    reveal_strlit("se-resize");
    reveal_strlit("sw-resize");
    reveal_strlit("w-resize");
    reveal_strlit("ew-resize");
    reveal_strlit("ns-resize");
    reveal_strlit("nesw-resize");
    reveal_strlit("nwse-resize");
    reveal_strlit("col-resize");
    reveal_strlit("row-resize");
    reveal_strlit("all-scroll");
    reveal_strlit("zoom-in");
    reveal_strlit("zoom-out");
    reveal_strlit("default");
    reveal_strlit("default");
    reveal_strlit("default");
    reveal_strlit("context-menu");
    reveal_strlit("help");
    reveal_strlit("pointer");
    reveal_strlit("progress");
    reveal_strlit("wait");
    reveal_strlit("cell");
    reveal_strlit("crosshair");
    reveal_strlit("text");
    reveal_strlit("vertical-text");
    reveal_strlit("alias");
    reveal_strlit("copy");
    reveal_strlit("move");
    reveal_strlit("no-drop");
    reveal_strlit("not-allowed");
    reveal_strlit("grab");
    reveal_strlit("grabbing");
    reveal_strlit("e-resize");
    reveal_strlit("n-resize");
    reveal_strlit("ne-resize");
    reveal_strlit("nw-resize");
    reveal_strlit("s-resize");
    reveal_strlit("se-resize");
    reveal_strlit("sw-resize");
    reveal_strlit("w-resize");
    reveal_strlit("ew-resize");
    reveal_strlit("ns-resize");
    reveal_strlit("nesw-resize");
    reveal_strlit("nwse-resize");
    reveal_strlit("col-resize");
    reveal_strlit("row-resize");
    reveal_strlit("all-scroll");
    reveal_strlit("zoom-in");
    reveal_strlit("zoom-out");
    reveal_strlit("default");
    assert("context-menu"@.len() == 12 && "context-menu"@[0] == 'c' && "context-menu"@[1] == 'o' && "context-menu"@[11] == 'u');
    assert("help"@.len() == 4 && "help"@[0] == 'h' && "help"@[1] == 'e' && "help"@[3] == 'p');
    assert("pointer"@.len() == 7 && "pointer"@[0] == 'p' && "pointer"@[1] == 'o' && "pointer"@[6] == 'r');
    assert("progress"@.len() == 8 && "progress"@[0] == 'p' && "progress"@[1] == 'r' && "progress"@[7] == 's');
    assert("wait"@.len() == 4 && "wait"@[0] == 'w' && "wait"@[1] == 'a' && "wait"@[3] == 't');
    assert("cell"@.len() == 4 && "cell"@[0] == 'c' && "cell"@[1] == 'e' && "cell"@[3] == 'l');
    assert("crosshair"@.len() == 9 && "crosshair"@[0] == 'c' && "crosshair"@[1] == 'r' && "crosshair"@[8] == 'r');
    assert("text"@.len() == 4 && "text"@[0] == 't' && "text"@[1] == 'e' && "text"@[3] == 't');
    assert("vertical-text"@.len() == 13 && "vertical-text"@[0] == 'v' && "vertical-text"@[1] == 'e' && "vertical-text"@[12] == 't');
    assert("alias"@.len() == 5 && "alias"@[0] == 'a' && "alias"@[1] == 'l' && "alias"@[4] == 's');
    assert("copy"@.len() == 4 && "copy"@[0] == 'c' && "copy"@[1] == 'o' && "copy"@[3] == 'y');
    assert("move"@.len() == 4 && "move"@[0] == 'm' && "move"@[1] == 'o' && "move"@[3] == 'e');
    assert("no-drop"@.len() == 7 && "no-drop"@[0] == 'n' && "no-drop"@[1] == 'o' && "no-drop"@[6] == 'p');
    assert("not-allowed"@.len() == 11 && "not-allowed"@[0] == 'n' && "not-allowed"@[1] == 'o' && "not-allowed"@[10] == 'd');
    assert("grab"@.len() == 4 && "grab"@[0] == 'g' && "grab"@[1] == 'r' && "grab"@[3] == 'b');
    assert("grabbing"@.len() == 8 && "grabbing"@[0] == 'g' && "grabbing"@[1] == 'r' && "grabbing"@[7] == 'g');
    assert("e-resize"@.len() == 8 && "e-resize"@[0] == 'e' && "e-resize"@[1] == '-' && "e-resize"@[7] == 'e');
    assert("n-resize"@.len() == 8 && "n-resize"@[0] == 'n' && "n-resize"@[1] == '-' && "n-resize"@[7] == 'e');
    assert("ne-resize"@.len() == 9 && "ne-resize"@[0] == 'n' && "ne-resize"@[1] == 'e' && "ne-resize"@[8] == 'e');
    assert("nw-resize"@.len() == 9 && "nw-resize"@[0] == 'n' && "nw-resize"@[1] == 'w' && "nw-resize"@[8] == 'e');
    assert("s-resize"@.len() == 8 && "s-resize"@[0] == 's' && "s-resize"@[1] == '-' && "s-resize"@[7] == 'e');
    assert("se-resize"@.len() == 9 && "se-resize"@[0] == 's' && "se-resize"@[1] == 'e' && "se-resize"@[8] == 'e');
    assert("sw-resize"@.len() == 9 && "sw-resize"@[0] == 's' && "sw-resize"@[1] == 'w' && "sw-resize"@[8] == 'e');
    assert("w-resize"@.len() == 8 && "w-resize"@[0] == 'w' && "w-resize"@[1] == '-' && "w-resize"@[7] == 'e');
    assert("ew-resize"@.len() == 9 && "ew-resize"@[0] == 'e' && "ew-resize"@[1] == 'w' && "ew-resize"@[8] == 'e');
    assert("ns-resize"@.len() == 9 && "ns-resize"@[0] == 'n' && "ns-resize"@[1] == 's' && "ns-resize"@[8] == 'e');
    assert("nesw-resize"@.len() == 11 && "nesw-resize"@[0] == 'n' && "nesw-resize"@[1] == 'e' && "nesw-resize"@[10] == 'e');
    assert("nwse-resize"@.len() == 11 && "nwse-resize"@[0] == 'n' && "nwse-resize"@[1] == 'w' && "nwse-resize"@[10] == 'e');
    assert("col-resize"@.len() == 10 && "col-resize"@[0] == 'c' && "col-resize"@[1] == 'o' && "col-resize"@[9] == 'e');
    assert("row-resize"@.len() == 10 && "row-resize"@[0] == 'r' && "row-resize"@[1] == 'o' && "row-resize"@[9] == 'e');
    assert("all-scroll"@.len() == 10 && "all-scroll"@[0] == 'a' && "all-scroll"@[1] == 'l' && "all-scroll"@[9] == 'l');
    assert("zoom-in"@.len() == 7 && "zoom-in"@[0] == 'z' && "zoom-in"@[1] == 'o' && "zoom-in"@[6] == 'n');
    assert("zoom-out"@.len() == 8 && "zoom-out"@[0] == 'z' && "zoom-out"@[1] == 'o' && "zoom-out"@[7] == 't');
    assert("default"@.len() == 7 && "default"@[0] == 'd' && "default"@[1] == 'e' && "default"@[6] == 't');
    assert("default"@.len() == 7 && "default"@[0] == 'd' && "default"@[1] == 'e' && "default"@[6] == 't');
    assert("default"@.len() == 7 && "default"@[0] == 'd' && "default"@[1] == 'e' && "default"@[6] == 't');
    assert("context-menu"@.len() == 12 && "context-menu"@[0] == 'c' && "context-menu"@[1] == 'o' && "context-menu"@[11] == 'u');
    assert("help"@.len() == 4 && "help"@[0] == 'h' && "help"@[1] == 'e' && "help"@[3] == 'p');
    assert("pointer"@.len() == 7 && "pointer"@[0] == 'p' && "pointer"@[1] == 'o' && "pointer"@[6] == 'r');
    assert("progress"@.len() == 8 && "progress"@[0] == 'p' && "progress"@[1] == 'r' && "progress"@[7] == 's');
    assert("wait"@.len() == 4 && "wait"@[0] == 'w' && "wait"@[1] == 'a' && "wait"@[3] == 't');
    assert("cell"@.len() == 4 && "cell"@[0] == 'c' && "cell"@[1] == 'e' && "cell"@[3] == 'l');
    assert("crosshair"@.len() == 9 && "crosshair"@[0] == 'c' && "crosshair"@[1] == 'r' && "crosshair"@[8] == 'r');
    assert("text"@.len() == 4 && "text"@[0] == 't' && "text"@[1] == 'e' && "text"@[3] == 't');
    assert("vertical-text"@.len() == 13 && "vertical-text"@[0] == 'v' && "vertical-text"@[1] == 'e' && "vertical-text"@[12] == 't');
    assert("alias"@.len() == 5 && "alias"@[0] == 'a' && "alias"@[1] == 'l' && "alias"@[4] == 's');
    assert("copy"@.len() == 4 && "copy"@[0] == 'c' && "copy"@[1] == 'o' && "copy"@[3] == 'y');
    assert("move"@.len() == 4 && "move"@[0] == 'm' && "move"@[1] == 'o' && "move"@[3] == 'e');
    assert("no-drop"@.len() == 7 && "no-drop"@[0] == 'n' && "no-drop"@[1] == 'o' && "no-drop"@[6] == 'p');
    assert("not-allowed"@.len() == 11 && "not-allowed"@[0] == 'n' && "not-allowed"@[1] == 'o' && "not-allowed"@[10] == 'd');
    assert("grab"@.len() == 4 && "grab"@[0] == 'g' && "grab"@[1] == 'r' && "grab"@[3] == 'b');
    assert("grabbing"@.len() == 8 && "grabbing"@[0] == 'g' && "grabbing"@[1] == 'r' && "grabbing"@[7] == 'g');
    assert("e-resize"@.len() == 8 && "e-resize"@[0] == 'e' && "e-resize"@[1] == '-' && "e-resize"@[7] == 'e');
    assert("n-resize"@.len() == 8 && "n-resize"@[0] == 'n' && "n-resize"@[1] == '-' && "n-resize"@[7] == 'e');
    assert("ne-resize"@.len() == 9 && "ne-resize"@[0] == 'n' && "ne-resize"@[1] == 'e' && "ne-resize"@[8] == 'e');
    assert("nw-resize"@.len() == 9 && "nw-resize"@[0] == 'n' && "nw-resize"@[1] == 'w' && "nw-resize"@[8] == 'e');
    assert("s-resize"@.len() == 8 && "s-resize"@[0] == 's' && "s-resize"@[1] == '-' && "s-resize"@[7] == 'e');
    assert("se-resize"@.len() == 9 && "se-resize"@[0] == 's' && "se-resize"@[1] == 'e' && "se-resize"@[8] == 'e');
    assert("sw-resize"@.len() == 9 && "sw-resize"@[0] == 's' && "sw-resize"@[1] == 'w' && "sw-resize"@[8] == 'e');
    assert("w-resize"@.len() == 8 && "w-resize"@[0] == 'w' && "w-resize"@[1] == '-' && "w-resize"@[7] == 'e');
    assert("ew-resize"@.len() == 9 && "ew-resize"@[0] == 'e' && "ew-resize"@[1] == 'w' && "ew-resize"@[8] == 'e');
    assert("ns-resize"@.len() == 9 && "ns-resize"@[0] == 'n' && "ns-resize"@[1] == 's' && "ns-resize"@[8] == 'e');
    assert("nesw-resize"@.len() == 11 && "nesw-resize"@[0] == 'n' && "nesw-resize"@[1] == 'e' && "nesw-resize"@[10] == 'e');
    assert("nwse-resize"@.len() == 11 && "nwse-resize"@[0] == 'n' && "nwse-resize"@[1] == 'w' && "nwse-resize"@[10] == 'e');
    assert("col-resize"@.len() == 10 && "col-resize"@[0] == 'c' && "col-resize"@[1] == 'o' && "col-resize"@[9] == 'e');
    assert("row-resize"@.len() == 10 && "row-resize"@[0] == 'r' && "row-resize"@[1] == 'o' && "row-resize"@[9] == 'e');
    assert("all-scroll"@.len() == 10 && "all-scroll"@[0] == 'a' && "all-scroll"@[1] == 'l' && "all-scroll"@[9] == 'l');
    assert("zoom-in"@.len() == 7 && "zoom-in"@[0] == 'z' && "zoom-in"@[1] == 'o' && "zoom-in"@[6] == 'n');
    assert("zoom-out"@.len() == 8 && "zoom-out"@[0] == 'z' && "zoom-out"@[1] == 'o' && "zoom-out"@[7] == 't');
    assert("default"@.len() == 7 && "default"@[0] == 'd' && "default"@[1] == 'e' && "default"@[6] == 't');
}

/// Name a `wp_cursor_shape_device_v1.set_shape` shape.
pub fn cursor_shape_name(shape: u32) -> (name: &'static str)
    ensures
        name == spec_cursor_shape_name(shape),
{
    match shape {
        2 => "context-menu",
        3 => "help",
        4 => "pointer",
        5 => "progress",
        6 => "wait",
        7 => "cell",
        8 => "crosshair",
        9 => "text",
        10 => "vertical-text",
        11 => "alias",
        12 => "copy",
        13 => "move",
        14 => "no-drop",
        15 => "not-allowed",
        16 => "grab",
        17 => "grabbing",
        18 => "e-resize",
        19 => "n-resize",
        20 => "ne-resize",
        21 => "nw-resize",
        22 => "s-resize",
        23 => "se-resize",
        24 => "sw-resize",
        25 => "w-resize",
        26 => "ew-resize",
        27 => "ns-resize",
        28 => "nesw-resize",
        29 => "nwse-resize",
        30 => "col-resize",
        31 => "row-resize",
        32 => "all-scroll",
        33 => "zoom-in",
        34 => "zoom-out",
        _ => "default",
    }
}

/// A surface's `buffer_scale` as a cursor scale: clamped to `1..=u16::MAX`.
pub open spec fn spec_cursor_scale(buffer_scale: i32) -> u16 {
    if buffer_scale < 1 {
        1
    } else if buffer_scale > u16::MAX {
        u16::MAX
    } else {
        buffer_scale as u16
    }
}

/// The cursor a surface's committed pixels make: `None` while it has none.
/// The hotspot and size are carried in 16 bits, as the wire event has them.
pub fn custom_cursor_image(
    hotspot: (i32, i32),
    buffer_scale: i32,
    width: u32,
    height: u32,
    rgba: &Vec<u8>,
) -> (cursor: Option<CursorImage>)
    ensures
        rgba@.len() == 0 ==> cursor is None,
        rgba@.len() > 0 ==> (cursor matches Some(CursorImage::Custom {
            hotspot_x,
            hotspot_y,
            width: w,
            height: h,
            scale,
            rgba: pixels,
        }) && hotspot_x == hotspot.0 as u16 && hotspot_y == hotspot.1 as u16 && w == width as u16
            && h == height as u16 && scale == spec_cursor_scale(buffer_scale) && pixels@ == rgba@),
{
    if rgba.len() == 0 {
        return None;
    }
    let scale: u16 = if buffer_scale < 1 {
        1
    } else if buffer_scale > 65535 {
        65535
    } else {
        buffer_scale as u16
    };
    let mut pixels: Vec<u8> = Vec::new();
    let mut i: usize = 0;
    while i < rgba.len()
        invariant
            0 <= i <= rgba@.len(),
            pixels@ == rgba@.subrange(0, i as int),
        decreases rgba@.len() - i,
    {
        pixels.push(rgba[i]);
        proof {
            assert(pixels@ =~= rgba@.subrange(0, i + 1));
        }
        i += 1;
    }
    proof {
        assert(pixels@ =~= rgba@);
    }
    Some(
        CursorImage::Custom {
            hotspot_x: hotspot.0 as u16,
            hotspot_y: hotspot.1 as u16,
            width: width as u16,
            height: height as u16,
            scale,
            rgba: pixels,
        },
    )
}

} // verus!
