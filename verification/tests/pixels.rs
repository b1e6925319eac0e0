use compositor::pixels::{shm_format_supported, NV12, XBGR16161616};
use compositor::pixels::{
    bgra_to_rgba, dmabuf_format_table, dmabuf_to_rgba, nv12_to_rgba, read_shm_pixels,
    shm_buffer_layout, shm_texel_bytes, unpack_2101010, yuv420_to_rgb, ShmPixels, ABGR16161616F,
    ARGB2101010, ARGB8888, XBGR8888, XRGB16161616, WL_SHM_ARGB8888, WL_SHM_XRGB8888,
};

#[test]
fn limited_range_black_and_white() {
    assert_eq!(yuv420_to_rgb(16, 128, 128), [0, 0, 0]);
    assert_eq!(yuv420_to_rgb(235, 128, 128), [255, 255, 255]);
    assert_eq!(yuv420_to_rgb(0, 128, 128), [0, 0, 0]);
}

#[test]
fn limited_range_red() {
    // BT.601: pure red is Y 81, U 90, V 240.
    assert_eq!(yuv420_to_rgb(81, 90, 240), [255, 0, 0]);
}

#[test]
fn bgra_swaps_red_and_blue() {
    assert_eq!(bgra_to_rgba(&[1, 2, 3, 4, 5, 6, 7, 8]), vec![3, 2, 1, 4, 7, 6, 5, 8]);
}

#[test]
fn nv12_grey_plane_is_opaque_black() {
    let data = [16, 16, 16, 16, 128, 128];
    assert_eq!(nv12_to_rgba(&data, 2, 2, 2, 2), vec![0, 0, 0, 255].repeat(4));
}

#[test]
fn dmabuf_rows_are_read_in_memory_order() {
    assert_eq!(dmabuf_to_rgba(&[1, 2, 3, 4], 0, 4, 1, 1, ARGB8888), vec![3, 2, 1, 4]);
    assert_eq!(dmabuf_to_rgba(&[1, 2, 3, 4], 0, 4, 1, 1, XBGR8888), vec![1, 2, 3, 255]);
    // A second row past the mapping is skipped.
    assert_eq!(dmabuf_to_rgba(&[1, 2, 3, 4], 0, 4, 1, 2, XBGR8888), vec![1, 2, 3, 255]);
}

#[test]
fn shm_geometry_is_checked_against_the_pool() {
    assert_eq!(shm_texel_bytes(WL_SHM_ARGB8888), 4);
    assert_eq!(shm_texel_bytes(ABGR16161616F), 8);
    assert_eq!(shm_buffer_layout(0, 2, 2, 8, 4, 16), Some(8));
    assert_eq!(shm_buffer_layout(0, 2, 2, 7, 4, 16), None);
    assert_eq!(shm_buffer_layout(1, 2, 2, 8, 4, 16), None);
    assert_eq!(shm_buffer_layout(-1, 2, 2, 8, 4, 64), None);
    assert_eq!(shm_buffer_layout(0, 0, 2, 8, 4, 64), None);
    assert_eq!(shm_buffer_layout(0, i32::MAX, i32::MAX, i32::MAX, 8, usize::MAX), None);
}

#[test]
fn shm_rows_drop_the_stride_padding() {
    let pool: Vec<u8> = (0..20).collect();
    match read_shm_pixels(&pool, 2, 1, 2, 8, WL_SHM_ARGB8888, true) {
        Some((1, 2, ShmPixels::Bgra(px))) => assert_eq!(px, vec![2, 3, 4, 5, 10, 11, 12, 13]),
        other => panic!("unexpected {:?}", other),
    }
    assert!(read_shm_pixels(&pool, 2, 1, 3, 8, WL_SHM_ARGB8888, true).is_none());
}

#[test]
fn formats_without_alpha_are_made_opaque() {
    let pool = [1, 2, 3, 4];
    match read_shm_pixels(&pool, 0, 1, 1, 4, WL_SHM_XRGB8888, true) {
        Some((1, 1, ShmPixels::Bgra(px))) => assert_eq!(px, vec![1, 2, 3, 255]),
        other => panic!("unexpected {:?}", other),
    }
    match read_shm_pixels(&pool, 0, 1, 1, 4, XBGR8888, true) {
        Some((1, 1, ShmPixels::Rgba(px))) => assert_eq!(px, vec![1, 2, 3, 255]),
        other => panic!("unexpected {:?}", other),
    }
}

#[test]
fn ten_bit_pixels_are_reduced_to_eight() {
    assert_eq!(unpack_2101010(1023, false), [255, 0, 0, 0]);
    assert_eq!(unpack_2101010(0xC000_0000, false), [0, 0, 0, 255]);
    assert_eq!(unpack_2101010(0, true), [0, 0, 0, 255]);
    assert_eq!(unpack_2101010(512 << 10, false), [0, 127, 0, 0]);
    let little = [0xff, 0x03, 0, 0];
    match read_shm_pixels(&little, 0, 1, 1, 4, ARGB2101010, true) {
        Some((1, 1, ShmPixels::Bgra(px))) => assert_eq!(px, vec![255, 0, 0, 0]),
        other => panic!("unexpected {:?}", other),
    }
    let big = [0, 0, 0x03, 0xff];
    match read_shm_pixels(&big, 0, 1, 1, 4, ARGB2101010, false) {
        Some((1, 1, ShmPixels::Bgra(px))) => assert_eq!(px, vec![255, 0, 0, 0]),
        other => panic!("unexpected {:?}", other),
    }
}

#[test]
fn wide_formats_pass_through_with_their_flags() {
    let pool = [0u8; 8];
    match read_shm_pixels(&pool, 0, 1, 1, 8, ABGR16161616F, true) {
        Some((1, 1, ShmPixels::Wide { texels, floating, opaque, swap })) => {
            assert_eq!(texels, vec![0; 8]);
            assert_eq!((floating, opaque, swap), (true, false, false));
        }
        other => panic!("unexpected {:?}", other),
    }
    match read_shm_pixels(&pool, 0, 1, 1, 8, XRGB16161616, true) {
        Some((_, _, ShmPixels::Wide { floating, opaque, swap, .. })) => {
            assert_eq!((floating, opaque, swap), (false, true, true));
        }
        other => panic!("unexpected {:?}", other),
    }
}

#[test]
fn the_feedback_table_packs_format_and_modifier() {
    let table = dmabuf_format_table(&[(ARGB8888, 0x0100_0000_0000_0001)], true);
    assert_eq!(
        table,
        vec![0x41, 0x52, 0x32, 0x34, 0, 0, 0, 0, 0x01, 0, 0, 0, 0, 0, 0, 0x01]
    );
    let table = dmabuf_format_table(&[(1, 2)], false);
    assert_eq!(table, vec![0, 0, 0, 1, 0, 0, 0, 0, 0, 0, 0, 0, 0, 0, 0, 2]);
    assert!(dmabuf_format_table(&[], true).is_empty());
}

#[test]
fn only_the_listed_shm_formats_are_supported() {
    assert!(shm_format_supported(WL_SHM_ARGB8888));
    assert!(shm_format_supported(WL_SHM_XRGB8888));
    assert!(shm_format_supported(XBGR16161616));
    assert!(shm_format_supported(ARGB2101010));
    assert!(!shm_format_supported(NV12));
    assert!(!shm_format_supported(2));
}
