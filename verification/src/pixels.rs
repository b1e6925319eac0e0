//! CPU conversions of client and encoder pixel buffers to RGBA.
use vstd::prelude::*;

verus! {

/// `x >> 8`, clamped to a byte.
pub open spec fn clamp_shift8(x: int) -> u8 {
    if x < 0 {
        0
    } else if x / 256 > 255 {
        255
    } else {
        (x / 256) as u8
    }
}

/// BT.601 limited-range YUV to RGB, the inverse of the forward conversion
/// used for every encode.
pub open spec fn spec_yuv_to_rgb(y: u8, u: u8, v: u8) -> [u8; 3] {
    let yy = if y >= 16 {
        y - 16
    } else {
        0
    };
    let uu = u - 128;
    let vv = v - 128;
    [
        clamp_shift8(298 * yy + 409 * vv + 128),
        clamp_shift8(298 * yy - 100 * uu - 208 * vv + 128),
        clamp_shift8(298 * yy + 516 * uu + 128),
    ]
}

proof fn lemma_clamp_shift8_monotone(x1: int, x2: int)
    requires
        x1 <= x2,
    ensures
        clamp_shift8(x1) <= clamp_shift8(x2),
{
    assert(x1 / 256 <= x2 / 256) by (nonlinear_arith)
        requires
            x1 <= x2,
    ;
}

/// How the colour of a BT.601 limited-range pixel follows its components:
/// every channel rises with luma; red rises with V and ignores U; blue rises
/// with U and ignores V; green falls as either chroma rises; with neutral
/// chroma the pixel is grey, black at or below the black level and white
/// at or above the white level.
pub proof fn lemma_yuv_to_rgb_directions(y1: u8, y2: u8, u1: u8, u2: u8, v1: u8, v2: u8)
    ensures
        y1 <= y2 ==> forall|c: int|
            0 <= c < 3 ==> spec_yuv_to_rgb(y1, u1, v1)[c] <= spec_yuv_to_rgb(y2, u1, v1)[c],
        spec_yuv_to_rgb(y1, u1, v1)[0] == spec_yuv_to_rgb(y1, u2, v1)[0],
        v1 <= v2 ==> spec_yuv_to_rgb(y1, u1, v1)[0] <= spec_yuv_to_rgb(y1, u1, v2)[0],
        spec_yuv_to_rgb(y1, u1, v1)[2] == spec_yuv_to_rgb(y1, u1, v2)[2],
        u1 <= u2 ==> spec_yuv_to_rgb(y1, u1, v1)[2] <= spec_yuv_to_rgb(y1, u2, v1)[2],
        u1 <= u2 ==> spec_yuv_to_rgb(y1, u1, v1)[1] >= spec_yuv_to_rgb(y1, u2, v1)[1],
        v1 <= v2 ==> spec_yuv_to_rgb(y1, u1, v1)[1] >= spec_yuv_to_rgb(y1, u1, v2)[1],
        spec_yuv_to_rgb(y1, 128, 128)[0] == spec_yuv_to_rgb(y1, 128, 128)[1] == spec_yuv_to_rgb(
            y1,
            128,
            128,
        )[2],
        y1 <= 16 ==> spec_yuv_to_rgb(y1, 128, 128) == [0u8, 0u8, 0u8],
        y1 >= 235 ==> spec_yuv_to_rgb(y1, 128, 128) == [255u8, 255u8, 255u8],
{
    let yy1: int = if y1 >= 16 { y1 - 16 } else { 0 };
    let yy2: int = if y2 >= 16 { y2 - 16 } else { 0 };
    let (uu1, uu2, vv1, vv2) = (u1 - 128, u2 - 128, v1 - 128, v2 - 128);
    if y1 <= y2 {
        lemma_clamp_shift8_monotone(298 * yy1 + 409 * vv1 + 128, 298 * yy2 + 409 * vv1 + 128);
        lemma_clamp_shift8_monotone(
            298 * yy1 - 100 * uu1 - 208 * vv1 + 128,
            298 * yy2 - 100 * uu1 - 208 * vv1 + 128,
        );
        lemma_clamp_shift8_monotone(298 * yy1 + 516 * uu1 + 128, 298 * yy2 + 516 * uu1 + 128);
    }
    if v1 <= v2 {
        lemma_clamp_shift8_monotone(298 * yy1 + 409 * vv1 + 128, 298 * yy1 + 409 * vv2 + 128);
        lemma_clamp_shift8_monotone(
            298 * yy1 - 100 * uu1 - 208 * vv2 + 128,
            298 * yy1 - 100 * uu1 - 208 * vv1 + 128,
        );
    }
    if u1 <= u2 {
        lemma_clamp_shift8_monotone(298 * yy1 + 516 * uu1 + 128, 298 * yy1 + 516 * uu2 + 128);
        lemma_clamp_shift8_monotone(
            298 * yy1 - 100 * uu2 - 208 * vv1 + 128,
            298 * yy1 - 100 * uu1 - 208 * vv1 + 128,
        );
    }
}

/// BT.601 limited-range forward conversion of one RGB colour, as encoders
/// compute it: `(Y, U, V)`.
pub open spec fn bt601_forward(r: u8, g: u8, b: u8) -> (u8, u8, u8) {
    (
        ((66 * r + 129 * g + 25 * b + 128) / 256 + 16) as u8,
        ((-38 * r - 74 * g + 112 * b + 128) / 256 + 128) as u8,
        ((112 * r - 94 * g - 18 * b + 128) / 256 + 128) as u8,
    )
}

pub open spec fn within(a: u8, b: u8, d: int) -> bool {
    a - b <= d && b - a <= d
}

/// Decoding undoes the BT.601 forward conversion: any RGB colour, encoded
/// and decoded, comes back within 3 levels in each channel.
#[verifier::rlimit(50)]
pub proof fn lemma_yuv_to_rgb_inverts_bt601(r: u8, g: u8, b: u8)
    ensures
        ({
            let (y, u, v) = bt601_forward(r, g, b);
            let rgb = spec_yuv_to_rgb(y, u, v);
            within(rgb[0], r, 3) && within(rgb[1], g, 3) && within(rgb[2], b, 3)
        }),
{
    let qy = (66 * r + 129 * g + 25 * b + 128) / 256;
    let qu = (-38 * r - 74 * g + 112 * b + 128) / 256;
    let qv = (112 * r - 94 * g - 18 * b + 128) / 256;
    assert(0 <= qy <= 219);
    assert(-112 <= qu <= 112);
    assert(-112 <= qv <= 112);
}

fn clamp_shift8_exec(x: i32) -> (b: u8)
    ensures
        b == clamp_shift8(x as int),
{
    if x < 0 {
        0
    } else if x / 256 > 255 {
        255
    } else {
        (x / 256) as u8
    }
}

/// BT.601 limited-range inverse, matching the forward conversion used
/// everywhere else (shaders and CPU paths).
pub fn yuv420_to_rgb(y: u8, u: u8, v: u8) -> (rgb: [u8; 3])
    ensures
        rgb == spec_yuv_to_rgb(y, u, v),
{
    let yy: i32 = if y >= 16 {
        y as i32 - 16
    } else {
        0
    };
    let uu: i32 = u as i32 - 128;
    let vv: i32 = v as i32 - 128;
    let r = clamp_shift8_exec(298 * yy + 409 * vv + 128);
    let g = clamp_shift8_exec(298 * yy - 100 * uu - 208 * vv + 128);
    let b = clamp_shift8_exec(298 * yy + 516 * uu + 128);
    [r, g, b]
}

/// The RGBA bytes of one pixel.
pub open spec fn rgba_px(rgb: [u8; 3]) -> Seq<u8> {
    seq![rgb[0], rgb[1], rgb[2], 255u8]
}

/// An opaque black pixel.
pub open spec fn black_px() -> Seq<u8> {
    seq![0u8, 0u8, 0u8, 255u8]
}

/// BGRA to RGBA over every whole 4-byte pixel; a trailing partial pixel is
/// dropped.
pub open spec fn bgra_as_rgba(data: Seq<u8>, n: int) -> Seq<u8>
    decreases n,
{
    if n <= 0 {
        Seq::empty()
    } else {
        let k = (n - 1) * 4;
        bgra_as_rgba(data, n - 1) + seq![data[k + 2], data[k + 1], data[k], data[k + 3]]
    }
}

/// Swap the red and blue channels of every whole BGRA pixel.
pub fn bgra_to_rgba(data: &[u8]) -> (rgba: Vec<u8>)
    ensures
        rgba@ == bgra_as_rgba(data@, data@.len() as int / 4),
{
    let n = data.len() / 4;
    let mut out: Vec<u8> = Vec::new();
    let mut i: usize = 0;
    while i < n
        invariant
            n == data@.len() / 4,
            0 <= i <= n,
            out@ == bgra_as_rgba(data@, i as int),
        decreases n - i,
    {
        let len = data.len();
        assert(i * 4 + 3 < len) by (nonlinear_arith)
            requires
                i < n,
                n == len / 4,
        ;
        let k = i * 4;
        out.push(data[k + 2]);
        out.push(data[k + 1]);
        out.push(data[k]);
        out.push(data[k + 3]);
        proof {
            assert(out@ =~= bgra_as_rgba(data@, i as int) + seq![
                data@[k + 2],
                data@[k + 1],
                data@[k as int],
                data@[k + 3],
            ]);
        }
        i += 1;
    }
    out
}

/// One NV12 pixel as RGBA: Y from the Y plane, the shared chroma pair from
/// the interleaved UV plane after it, or opaque black when that pair lies
/// past the end of `data`.
pub open spec fn nv12_px(
    data: Seq<u8>,
    y_size: int,
    y_stride: int,
    uv_stride: int,
    row: int,
    col: int,
) -> Seq<u8> {
    let uv_idx = (row / 2) * uv_stride + (col / 2) * 2;
    if uv_idx + 1 >= data.len() - y_size {
        black_px()
    } else {
        rgba_px(
            spec_yuv_to_rgb(
                data[row * y_stride + col],
                data[y_size + uv_idx],
                data[y_size + uv_idx + 1],
            ),
        )
    }
}

/// The first `ncols` pixels of one NV12 row.
pub open spec fn nv12_row(
    data: Seq<u8>,
    y_size: int,
    y_stride: int,
    uv_stride: int,
    row: int,
    ncols: int,
) -> Seq<u8>
    decreases ncols,
{
    if ncols <= 0 {
        Seq::empty()
    } else {
        nv12_row(data, y_size, y_stride, uv_stride, row, ncols - 1) + nv12_px(
            data,
            y_size,
            y_stride,
            uv_stride,
            row,
            ncols - 1,
        )
    }
}

/// The first `nrows` rows of an NV12 image `width` pixels wide.
pub open spec fn nv12_image(
    data: Seq<u8>,
    y_size: int,
    y_stride: int,
    uv_stride: int,
    nrows: int,
    width: int,
) -> Seq<u8>
    decreases nrows,
{
    if nrows <= 0 {
        Seq::empty()
    } else {
        nv12_image(data, y_size, y_stride, uv_stride, nrows - 1, width) + nv12_row(
            data,
            y_size,
            y_stride,
            uv_stride,
            nrows - 1,
            width,
        )
    }
}

/// Whether `data` holds both planes of a `height`-row NV12 image.
pub open spec fn nv12_fits(data_len: int, y_stride: int, uv_stride: int, height: int) -> bool {
    y_stride * height + uv_stride * ((height + 1) / 2) <= data_len
}

proof fn lemma_row_index(row: int, col: int, stride: int, rows: int)
    requires
        0 <= row < rows,
        0 <= col < stride,
    ensures
        0 <= row * stride + col < stride * rows,
        0 <= row * stride,
{
    assert(0 <= row * stride + col < stride * rows && 0 <= row * stride) by (nonlinear_arith)
        requires
            0 <= row < rows,
            0 <= col < stride,
    ;
}

/// Convert a packed NV12 buffer (`Y` plane, then interleaved `UV` at half
/// height) to RGBA. Empty when `data` is too short for both planes.
pub fn nv12_to_rgba(data: &[u8], y_stride: usize, uv_stride: usize, width: u32, height: u32) -> (rgba: Vec<u8>)
    requires
        y_stride * height + uv_stride * ((height + 1) / 2) <= usize::MAX,
        nv12_fits(data@.len() as int, y_stride as int, uv_stride as int, height as int) ==> width
            * height * 4 <= usize::MAX,
        width == 0 || height == 0 || width <= y_stride || !nv12_fits(
            data@.len() as int,
            y_stride as int,
            uv_stride as int,
            height as int,
        ),
    ensures
        nv12_fits(data@.len() as int, y_stride as int, uv_stride as int, height as int) ==> rgba@
            == nv12_image(
            data@,
            y_stride * height,
            y_stride as int,
            uv_stride as int,
            height as int,
            width as int,
        ),
        !nv12_fits(data@.len() as int, y_stride as int, uv_stride as int, height as int)
            ==> rgba@.len() == 0,
{
    let w = width as usize;
    let h = height as usize;
    assert(y_stride * h <= usize::MAX) by (nonlinear_arith)
        requires
            y_stride * height + uv_stride * ((height + 1) / 2) <= usize::MAX,
            h == height,
            uv_stride >= 0,
            height >= 0,
    ;
    let y_size = y_stride * h;
    let uv_h = h / 2 + h % 2;
    assert(uv_stride * uv_h <= usize::MAX) by (nonlinear_arith)
        requires
            y_stride * height + uv_stride * ((height + 1) / 2) <= usize::MAX,
            h == height,
            uv_h == (height + 1) / 2,
            y_stride >= 0,
            height >= 0,
    ;
    let uv_size = uv_stride * uv_h;
    if data.len() < y_size + uv_size {
        return Vec::new();
    }
    let uv_len = data.len() - y_size;
    let mut out: Vec<u8> = Vec::new();
    let mut row: usize = 0;
    while row < h
        invariant
            0 <= row <= h,
            h == height,
            w == width,
            y_size == y_stride * h,
            y_size + uv_size <= data@.len(),
            uv_len == data@.len() - y_size,
            w == 0 || h == 0 || w <= y_stride,
            uv_h == h / 2 + h % 2,
            uv_size == uv_stride * uv_h,
            out@ == nv12_image(data@, y_size as int, y_stride as int, uv_stride as int, row as int, w as int),
        decreases h - row,
    {
        let ghost before = out@;
        let mut col: usize = 0;
        while col < w
            invariant
                0 <= row < h,
                0 <= col <= w,
                h == height,
                w == width,
                y_size == y_stride * h,
                y_size + uv_size <= data@.len(),
                uv_len == data@.len() - y_size,
                w <= y_stride,
                uv_h == h / 2 + h % 2,
                uv_size == uv_stride * uv_h,
                out@ == before + nv12_row(data@, y_size as int, y_stride as int, uv_stride as int, row as int, col as int),
            decreases w - col,
        {
            proof {
                lemma_row_index(row as int, col as int, y_stride as int, h as int);
            }
            let y = data[row * y_stride + col];
            let half_row = row / 2;
            let half_col = col / 2;
            proof {
                assert(half_row * uv_stride + uv_stride <= uv_size) by (nonlinear_arith)
                    requires
                        half_row == row / 2,
                        row < h,
                        uv_h == h / 2 + h % 2,
                        uv_size == uv_stride * uv_h,
                        uv_stride >= 0,
                ;
                assert(y_stride <= y_size) by (nonlinear_arith)
                    requires
                        y_size == y_stride * h,
                        h >= 1,
                        y_stride >= 0,
                ;
            }
            let uv_idx = half_row * uv_stride + half_col * 2;
            let ghost px = nv12_px(data@, y_size as int, y_stride as int, uv_stride as int, row as int, col as int);
            if uv_idx + 1 < uv_len {
                let u = data[y_size + uv_idx];
                let v = data[y_size + uv_idx + 1];
                let rgb = yuv420_to_rgb(y, u, v);
                out.push(rgb[0]);
                out.push(rgb[1]);
                out.push(rgb[2]);
                out.push(255);
            } else {
                out.push(0);
                out.push(0);
                out.push(0);
                out.push(255);
            }
            proof {
                assert(out@ =~= before + nv12_row(data@, y_size as int, y_stride as int, uv_stride as int, row as int, col as int) + px);
            }
            col += 1;
        }
        row += 1;
    }
    out
}


/// A run of `n` opaque black pixels.
pub open spec fn black_run(n: int) -> Seq<u8>
    decreases n,
{
    if n <= 0 {
        Seq::empty()
    } else {
        black_run(n - 1) + black_px()
    }
}

/// One pixel of an NV12 surface mapped as one buffer: Y at `row * stride +
/// col` within the first `y_len` bytes, chroma at `uv_start` on. Opaque
/// black where either read would fall outside the mapping.
pub open spec fn surface_px(
    m: Seq<u8>,
    stride: int,
    y_len: int,
    uv_start: int,
    row: int,
    col: int,
) -> Seq<u8> {
    let y_idx = row * stride + col;
    let uv_idx = (row / 2) * stride + (col / 2) * 2;
    if y_idx >= y_len || uv_idx + 1 >= m.len() - uv_start {
        black_px()
    } else {
        rgba_px(spec_yuv_to_rgb(m[y_idx], m[uv_start + uv_idx], m[uv_start + uv_idx + 1]))
    }
}

/// The first `ncols` converted pixels of one surface row.
pub open spec fn surface_row(
    m: Seq<u8>,
    stride: int,
    y_len: int,
    uv_start: int,
    row: int,
    ncols: int,
) -> Seq<u8>
    decreases ncols,
{
    if ncols <= 0 {
        Seq::empty()
    } else {
        surface_row(m, stride, y_len, uv_start, row, ncols - 1) + surface_px(
            m,
            stride,
            y_len,
            uv_start,
            row,
            ncols - 1,
        )
    }
}

/// The first `nrows` output rows of a `width`-wide picture drawn from an
/// NV12 surface of `nv12_width` x `nv12_height`: what the surface holds,
/// padded with opaque black to the requested size.
pub open spec fn surface_image(
    m: Seq<u8>,
    stride: int,
    y_len: int,
    uv_start: int,
    nv12_width: int,
    nv12_height: int,
    width: int,
    nrows: int,
) -> Seq<u8>
    decreases nrows,
{
    if nrows <= 0 {
        Seq::empty()
    } else {
        let row = nrows - 1;
        let out_w = if width < nv12_width {
            width
        } else {
            nv12_width
        };
        let line = if row < nv12_height {
            surface_row(m, stride, y_len, uv_start, row, out_w) + black_run(width - out_w)
        } else {
            black_run(width)
        };
        surface_image(m, stride, y_len, uv_start, nv12_width, nv12_height, width, row) + line
    }
}

proof fn lemma_black_run_step(n: int)
    requires
        n >= 0,
    ensures
        black_run(n + 1) == black_run(n) + black_px(),
{
}

/// Convert an NV12 surface mapped as one buffer (Y plane of
/// `stride * nv12_height` bytes at the start, interleaved chroma from
/// `uv_offset`) to a `width` x `height` RGBA picture, padding with opaque
/// black wherever the surface is smaller than the picture.
pub fn nv12_surface_to_rgba(
    mapped: &[u8],
    stride: usize,
    uv_offset: usize,
    nv12_width: u32,
    nv12_height: u32,
    width: u32,
    height: u32,
) -> (rgba: Vec<u8>)
    requires
        stride * nv12_height + nv12_width <= usize::MAX,
        width * height * 4 <= usize::MAX,
    ensures
        ({
            let y_size = stride * nv12_height;
            let y_len = if y_size < mapped@.len() {
                y_size
            } else {
                mapped@.len() as int
            };
            let uv_start = if (uv_offset as int) < mapped@.len() {
                uv_offset as int
            } else {
                mapped@.len() as int
            };
            rgba@ == surface_image(
                mapped@,
                stride as int,
                y_len,
                uv_start,
                nv12_width as int,
                nv12_height as int,
                width as int,
                height as int,
            )
        }),
{
    let nw = nv12_width as usize;
    let nh = nv12_height as usize;
    let w = width as usize;
    let h = height as usize;
    let len = mapped.len();
    assert(stride * nh <= usize::MAX) by (nonlinear_arith)
        requires
            stride * nh + nw <= usize::MAX,
            nw >= 0,
    ;
    let y_size = stride * nh;
    let y_len = if y_size < len {
        y_size
    } else {
        len
    };
    let uv_start = if uv_offset < len {
        uv_offset
    } else {
        len
    };
    let out_w = if w < nw {
        w
    } else {
        nw
    };
    let mut out: Vec<u8> = Vec::new();
    let mut row: usize = 0;
    while row < h
        invariant
            0 <= row <= h,
            y_size == stride * nh,
            stride * nh + nw <= usize::MAX,
            len == mapped@.len(),
            y_len <= len,
            uv_start <= len,
            out_w <= w,
            out_w <= nw,
            out_w == (if w < nw { w } else { nw }),
            out@ == surface_image(mapped@, stride as int, y_len as int, uv_start as int, nw as int, nh as int, w as int, row as int),
        decreases h - row,
    {
        let ghost before = out@;
        if row < nh {
            let mut col: usize = 0;
            while col < out_w
                invariant
                    0 <= row < nh,
                    0 <= col <= out_w,
                    out_w <= nw,
                    y_size == stride * nh,
                    stride * nh + nw <= usize::MAX,
                    len == mapped@.len(),
                    y_len <= len,
                    uv_start <= len,
                    out@ == before + surface_row(mapped@, stride as int, y_len as int, uv_start as int, row as int, col as int),
                decreases out_w - col,
            {
                proof {
                    assert(row * stride + col <= stride * nh + nw && (row / 2) * stride + col
                        <= stride * nh + nw && (row / 2) * stride <= row * stride) by (nonlinear_arith)
                        requires
                            row < nh,
                            col < nw,
                            stride >= 0,
                    ;
                }
                let y_idx = row * stride + col;
                let uv_idx = (row / 2) * stride + (col / 2) * 2;
                let ghost px = surface_px(mapped@, stride as int, y_len as int, uv_start as int, row as int, col as int);
                if y_idx >= y_len || uv_idx + 1 >= len - uv_start {
                    out.push(0);
                    out.push(0);
                    out.push(0);
                    out.push(255);
                } else {
                    let y = mapped[y_idx];
                    let u = mapped[uv_start + uv_idx];
                    let v = mapped[uv_start + uv_idx + 1];
                    let rgb = yuv420_to_rgb(y, u, v);
                    out.push(rgb[0]);
                    out.push(rgb[1]);
                    out.push(rgb[2]);
                    out.push(255);
                }
                proof {
                    assert(out@ =~= before + surface_row(mapped@, stride as int, y_len as int, uv_start as int, row as int, col as int) + px);
                }
                col += 1;
            }
        }
        let ghost mid = out@;
        let pad_from = if row < nh {
            out_w
        } else {
            0
        };
        let mut col: usize = pad_from;
        while col < w
            invariant
                pad_from <= col <= w,
                out@ == mid + black_run(col - pad_from),
            decreases w - col,
        {
            proof {
                lemma_black_run_step(col - pad_from);
            }
            out.push(0);
            out.push(0);
            out.push(0);
            out.push(255);
            proof {
                assert(out@ =~= mid + black_run(col - pad_from) + black_px());
            }
            col += 1;
        }
        proof {
            if row < nh {
                assert(out@ =~= before + (surface_row(mapped@, stride as int, y_len as int, uv_start as int, row as int, out_w as int) + black_run(w - out_w)));
            } else {
                assert(out@ =~= before + black_run(w as int));
            }
        }
        row += 1;
    }
    out
}

/// The DRM format codes the compositor reads (`fourcc_code` of their
/// four-letter names, little-endian).
pub const ARGB8888: u32 = 0x34325241;
pub const XRGB8888: u32 = 0x34325258;
pub const ABGR8888: u32 = 0x34324241;
pub const XBGR8888: u32 = 0x34324258;
pub const ARGB2101010: u32 = 0x30335241;
pub const XRGB2101010: u32 = 0x30335258;
pub const ABGR2101010: u32 = 0x30334241;
pub const XBGR2101010: u32 = 0x30334258;
pub const ABGR16161616F: u32 = 0x48344241;
pub const ARGB16161616: u32 = 0x38345241;
pub const XRGB16161616: u32 = 0x38345258;
pub const ARGB16161616F: u32 = 0x48345241;
pub const XRGB16161616F: u32 = 0x48345258;
pub const ABGR16161616: u32 = 0x38344241;
pub const XBGR16161616: u32 = 0x38344258;
pub const XBGR16161616F: u32 = 0x48344258;
pub const NV12: u32 = 0x3231564e;

/// Whether a dma-buf of this format stores blue first in memory.
pub open spec fn is_bgr_memory(fourcc: u32) -> bool {
    fourcc == ARGB8888 || fourcc == XRGB8888
}

/// Whether a dma-buf of this format carries no alpha.
pub open spec fn has_padding_alpha(fourcc: u32) -> bool {
    fourcc == XRGB8888 || fourcc == XBGR8888
}

/// One 32-bit dma-buf pixel at `k`, as RGBA.
pub open spec fn dmabuf_px(m: Seq<u8>, k: int, fourcc: u32) -> Seq<u8> {
    let (c0, c2) = if is_bgr_memory(fourcc) {
        (m[k + 2], m[k])
    } else {
        (m[k], m[k + 2])
    };
    let a = if has_padding_alpha(fourcc) {
        255u8
    } else {
        m[k + 3]
    };
    seq![c0, m[k + 1], c2, a]
}

/// The first `ncols` RGBA pixels of the row starting at byte `start`.
pub open spec fn dmabuf_row(m: Seq<u8>, start: int, ncols: int, fourcc: u32) -> Seq<u8>
    decreases ncols,
{
    if ncols <= 0 {
        Seq::empty()
    } else {
        dmabuf_row(m, start, ncols - 1, fourcc) + dmabuf_px(m, start + (ncols - 1) * 4, fourcc)
    }
}

/// The first `nrows` rows of a mapped dma-buf plane: each row that lies
/// wholly inside the mapping, as RGBA; a row running past it is skipped.
pub open spec fn dmabuf_image(
    m: Seq<u8>,
    offset: int,
    stride: int,
    width: int,
    nrows: int,
    fourcc: u32,
) -> Seq<u8>
    decreases nrows,
{
    if nrows <= 0 {
        Seq::empty()
    } else {
        let start = offset + (nrows - 1) * stride;
        let prev = dmabuf_image(m, offset, stride, width, nrows - 1, fourcc);
        if start + width * 4 <= m.len() {
            prev + dmabuf_row(m, start, width, fourcc)
        } else {
            prev
        }
    }
}

/// Read a mapped single-plane 32-bit dma-buf as RGBA: row by row from
/// `plane_offset`, blue and red swapped for BGR memory order, and alpha
/// forced opaque for formats without one.
pub fn dmabuf_to_rgba(mapped: &[u8], plane_offset: usize, stride: usize, width: u32, height: u32, fourcc: u32) -> (rgba: Vec<u8>)
    requires
        plane_offset + stride * height <= usize::MAX,
        width * 4 <= usize::MAX,
    ensures
        rgba@ == dmabuf_image(
            mapped@,
            plane_offset as int,
            stride as int,
            width as int,
            height as int,
            fourcc,
        ),
{
    let w = width as usize;
    let h = height as usize;
    let row_bytes = w * 4;
    let len = mapped.len();
    let swap = fourcc == ARGB8888 || fourcc == XRGB8888;
    let opaque = fourcc == XRGB8888 || fourcc == XBGR8888;
    let mut out: Vec<u8> = Vec::new();
    let mut row: usize = 0;
    while row < h
        invariant
            0 <= row <= h,
            plane_offset + stride * h <= usize::MAX,
            row_bytes == w * 4,
            len == mapped@.len(),
            swap == is_bgr_memory(fourcc),
            opaque == has_padding_alpha(fourcc),
            out@ == dmabuf_image(mapped@, plane_offset as int, stride as int, w as int, row as int, fourcc),
        decreases h - row,
    {
        assert(plane_offset + row * stride <= plane_offset + stride * h) by (nonlinear_arith)
            requires
                row < h,
                stride >= 0,
        ;
        let start = plane_offset + row * stride;
        if start <= len && row_bytes <= len - start {
            let ghost before = out@;
            let mut col: usize = 0;
            while col < w
                invariant
                    0 <= col <= w,
                    row_bytes == w * 4,
                    start + row_bytes <= len,
                    len == mapped@.len(),
                    swap == is_bgr_memory(fourcc),
                    opaque == has_padding_alpha(fourcc),
                    out@ == before + dmabuf_row(mapped@, start as int, col as int, fourcc),
                decreases w - col,
            {
                assert(col * 4 + 4 <= row_bytes) by (nonlinear_arith)
                    requires
                        col < w,
                        row_bytes == w * 4,
                ;
                let k = start + col * 4;
                let c0 = if swap {
                    mapped[k + 2]
                } else {
                    mapped[k]
                };
                let c2 = if swap {
                    mapped[k]
                } else {
                    mapped[k + 2]
                };
                let a = if opaque {
                    255u8
                } else {
                    mapped[k + 3]
                };
                out.push(c0);
                out.push(mapped[k + 1]);
                out.push(c2);
                out.push(a);
                proof {
                    assert(out@ =~= before + dmabuf_row(mapped@, start as int, col as int, fourcc) + dmabuf_px(mapped@, k as int, fourcc));
                }
                col += 1;
            }
        }
        row += 1;
    }
    out
}

/// Bytes per texel of a `wl_shm` format code: the 16-bit-per-channel
/// formats take 8, everything else 4.
pub open spec fn spec_shm_texel_bytes(format: u32) -> usize {
    if format == ABGR16161616F || format == XBGR16161616F || format == ARGB16161616F || format
        == XRGB16161616F || format == ABGR16161616 || format == XBGR16161616 || format
        == ARGB16161616 || format == XRGB16161616 {
        8
    } else {
        4
    }
}

/// Bytes per texel of a `wl_shm` format code.
pub fn shm_texel_bytes(format: u32) -> (bytes: usize)
    ensures
        bytes == spec_shm_texel_bytes(format),
{
    if format == ABGR16161616F || format == XBGR16161616F || format == ARGB16161616F || format
        == XRGB16161616F || format == ABGR16161616 || format == XBGR16161616 || format
        == ARGB16161616 || format == XRGB16161616 {
        8
    } else {
        4
    }
}

/// The row size of a client SHM buffer whose geometry fits its pool, or
/// `None` for geometry that is negative, degenerate, overflows, or reaches
/// past the pool's `pool_size` bytes.
pub open spec fn spec_shm_layout(
    offset: i32,
    width: i32,
    height: i32,
    stride: i32,
    texel_bytes: usize,
    pool_size: usize,
) -> Option<usize> {
    if offset < 0 || width <= 0 || height <= 0 || stride < 0 {
        None
    } else {
        let row_bytes = width * texel_bytes;
        let needed = stride * (height - 1) + offset + row_bytes;
        if row_bytes > usize::MAX || stride < row_bytes || needed > usize::MAX || needed > pool_size {
            None
        } else {
            Some(row_bytes as usize)
        }
    }
}

/// Validate client-controlled SHM geometry against its pool with checked
/// arithmetic; the row size when every row lies inside the pool.
pub fn shm_buffer_layout(
    offset: i32,
    width: i32,
    height: i32,
    stride: i32,
    texel_bytes: usize,
    pool_size: usize,
) -> (row_bytes: Option<usize>)
    ensures
        row_bytes == spec_shm_layout(offset, width, height, stride, texel_bytes, pool_size),
{
    if offset < 0 || width <= 0 || height <= 0 || stride < 0 {
        return None;
    }
    let w = width as usize;
    let h = height as usize;
    let s = stride as usize;
    let off = offset as usize;
    let row_bytes = match w.checked_mul(texel_bytes) {
        Some(r) => r,
        None => return None,
    };
    if s < row_bytes {
        return None;
    }
    let body = match s.checked_mul(h - 1) {
        Some(b) => b,
        None => {
            proof {
                assert(s * (h - 1) + off + row_bytes > usize::MAX) by (nonlinear_arith)
                    requires
                        s * (h - 1) > usize::MAX,
                        off >= 0,
                        row_bytes >= 0,
                ;
            }
            return None;
        },
    };
    let with_offset = match body.checked_add(off) {
        Some(n) => n,
        None => return None,
    };
    let needed = match with_offset.checked_add(row_bytes) {
        Some(n) => n,
        None => return None,
    };
    if needed > pool_size {
        return None;
    }
    Some(row_bytes)
}

/// The `nrows` rows of `row_bytes` bytes, `stride` apart from `offset`,
/// packed back to back.
pub open spec fn shm_rows(pool: Seq<u8>, offset: int, stride: int, row_bytes: int, nrows: int) -> Seq<u8>
    decreases nrows,
{
    if nrows <= 0 {
        Seq::empty()
    } else {
        let start = offset + (nrows - 1) * stride;
        shm_rows(pool, offset, stride, row_bytes, nrows - 1) + pool.subrange(start, start + row_bytes)
    }
}

/// Copy a client buffer's rows out of its pool, dropping the stride padding.
pub fn pack_shm_rows(pool: &[u8], offset: usize, stride: usize, row_bytes: usize, height: usize) -> (packed: Vec<u8>)
    requires
        height >= 1,
        stride >= row_bytes,
        stride * (height - 1) + offset + row_bytes <= pool@.len(),
    ensures
        packed@ == shm_rows(pool@, offset as int, stride as int, row_bytes as int, height as int),
{
    let plen = pool.len();
    let mut out: Vec<u8> = Vec::new();
    let mut row: usize = 0;
    while row < height
        invariant
            0 <= row <= height,
            plen == pool@.len(),
            stride >= row_bytes,
            stride * (height - 1) + offset + row_bytes <= plen,
            out@ == shm_rows(pool@, offset as int, stride as int, row_bytes as int, row as int),
        decreases height - row,
    {
        assert(row * stride <= stride * (height - 1)) by (nonlinear_arith)
            requires
                row < height,
                stride >= 0,
        ;
        assert(offset + row * stride + row_bytes <= plen);
        let start = offset + row * stride;
        let ghost before = out@;
        let mut k: usize = 0;
        while k < row_bytes
            invariant
                0 <= k <= row_bytes,
                plen == pool@.len(),
                start + row_bytes <= plen,
                out@ == before + pool@.subrange(start as int, start + k),
            decreases row_bytes - k,
        {
            out.push(pool[start + k]);
            proof {
                assert(out@ =~= before + pool@.subrange(start as int, start + k + 1));
            }
            k += 1;
        }
        row += 1;
    }
    out
}

/// One packed 10-bit-per-channel pixel as 8-bit RGBA in memory order:
/// each 10-bit channel scaled to a byte, the 2-bit alpha scaled (or opaque).
pub open spec fn spec_unpack_2101010(v: u32, opaque: bool) -> [u8; 4] {
    [
        ((v & 1023) * 255 / 1023) as u8,
        (((v >> 10) & 1023) * 255 / 1023) as u8,
        (((v >> 20) & 1023) * 255 / 1023) as u8,
        if opaque {
            255u8
        } else {
            ((v >> 30) * 85) as u8
        },
    ]
}

/// Reduce one 2:10:10:10 pixel (read as a native `u32`) to 8 bits a channel.
pub fn unpack_2101010(v: u32, opaque: bool) -> (px: [u8; 4])
    ensures
        px == spec_unpack_2101010(v, opaque),
{
    let c0 = v & 1023;
    let c1 = (v >> 10) & 1023;
    let c2 = (v >> 20) & 1023;
    let a = v >> 30;
    assert(c0 <= 1023 && c1 <= 1023 && c2 <= 1023 && a <= 3) by (bit_vector)
        requires
            c0 == v & 1023,
            c1 == (v >> 10) & 1023,
            c2 == (v >> 20) & 1023,
            a == v >> 30,
    ;
    [
        (c0 * 255 / 1023) as u8,
        (c1 * 255 / 1023) as u8,
        (c2 * 255 / 1023) as u8,
        if opaque {
            255u8
        } else {
            (a * 85) as u8
        },
    ]
}

/// The 10-bit field of colour channel `i` (0, 1 or 2) of a 2:10:10:10
/// word: bits `10i .. 10i + 9`.
pub open spec fn field_10(v: u32, i: int) -> u32 {
    if i == 0 {
        v % 1024
    } else if i == 1 {
        (v / 1024) % 1024
    } else {
        (v / 1048576) % 1024
    }
}

proof fn lemma_scale_10_to_8(f1: u32, f2: u32)
    requires
        f1 <= f2 <= 1023,
    ensures
        f1 * 255 / 1023 <= f2 * 255 / 1023 <= 255,
        f2 == 1023 ==> f2 * 255 / 1023 == 255,
        f1 == 0 ==> f1 * 255 / 1023 == 0,
{
    assert(f1 * 255 <= f2 * 255) by (nonlinear_arith)
        requires
            f1 <= f2,
    ;
    assert(f1 * 255 / 1023 <= f2 * 255 / 1023) by (nonlinear_arith)
        requires
            f1 * 255 <= f2 * 255,
    ;
}

proof fn lemma_fields_2101010(v: u32)
    ensures
        v & 1023 == field_10(v, 0),
        (v >> 10) & 1023 == field_10(v, 1),
        (v >> 20) & 1023 == field_10(v, 2),
        v >> 30 == v / 1073741824,
        field_10(v, 0) <= 1023,
        field_10(v, 1) <= 1023,
        field_10(v, 2) <= 1023,
{
    assert(v & 1023 == v % 1024) by (bit_vector);
    assert((v >> 10) & 1023 == (v / 1024) % 1024) by (bit_vector);
    assert((v >> 20) & 1023 == (v / 1048576) % 1024) by (bit_vector);
    assert(v >> 30 == v / 1073741824) by (bit_vector);
}

/// Each colour byte of an unpacked 2:10:10:10 pixel is its whole 10-bit
/// field scaled to a byte: it grows with that field and with nothing else,
/// a zero field is 0 and a full-scale field is 255; the 2-bit alpha does
/// the same, or is 255 when the format has none.
pub proof fn lemma_unpack_2101010_scales_fields(v1: u32, v2: u32, opaque: bool)
    ensures
        forall|i: int|
            0 <= i < 3 ==> {
                &&& field_10(v1, i) <= field_10(v2, i) ==> spec_unpack_2101010(v1, opaque)[i]
                    <= spec_unpack_2101010(v2, opaque)[i]
                &&& field_10(v1, i) == 1023 ==> spec_unpack_2101010(v1, opaque)[i] == 255
                &&& field_10(v1, i) == 0 ==> spec_unpack_2101010(v1, opaque)[i] == 0
            },
        opaque ==> spec_unpack_2101010(v1, opaque)[3] == 255,
        !opaque && v1 / 1073741824 <= v2 / 1073741824 ==> spec_unpack_2101010(v1, opaque)[3]
            <= spec_unpack_2101010(v2, opaque)[3],
        !opaque && v1 / 1073741824 == 3 ==> spec_unpack_2101010(v1, opaque)[3] == 255,
        !opaque && v1 / 1073741824 == 0 ==> spec_unpack_2101010(v1, opaque)[3] == 0,
{
    lemma_fields_2101010(v1);
    lemma_fields_2101010(v2);
    assert forall|i: int|
        0 <= i < 3 implies {
            &&& field_10(v1, i) <= field_10(v2, i) ==> spec_unpack_2101010(v1, opaque)[i]
                <= spec_unpack_2101010(v2, opaque)[i]
            &&& field_10(v1, i) == 1023 ==> spec_unpack_2101010(v1, opaque)[i] == 255
            &&& field_10(v1, i) == 0 ==> spec_unpack_2101010(v1, opaque)[i] == 0
        } by {
        let f1 = field_10(v1, i);
        let f2 = field_10(v2, i);
        if f1 <= f2 {
            lemma_scale_10_to_8(f1, f2);
        } else {
            lemma_scale_10_to_8(f2, f1);
        }
        lemma_scale_10_to_8(f1, f1);
    }
}

/// `s` with the alpha byte of every whole 4-byte pixel set to 255.
pub open spec fn opaque_alpha(s: Seq<u8>) -> Seq<u8> {
    Seq::new(
        s.len(),
        |k: int|
            if k % 4 == 3 && k < (s.len() / 4) * 4 {
                255u8
            } else {
                s[k]
            },
    )
}

/// Force every whole pixel's alpha byte to opaque.
pub fn set_alpha_opaque(pixels: &mut Vec<u8>)
    ensures
        final(pixels)@ == opaque_alpha(old(pixels)@),
{
    let n = pixels.len() / 4;
    let ghost orig = pixels@;
    let mut i: usize = 0;
    while i < n
        invariant
            n == orig.len() / 4,
            pixels@.len() == orig.len(),
            0 <= i <= n,
            forall|k: int|
                0 <= k < orig.len() ==> pixels@[k] == if k % 4 == 3 && k < i * 4 {
                    255u8
                } else {
                    orig[k]
                },
        decreases n - i,
    {
        let len = pixels.len();
        assert(i * 4 + 3 < len) by (nonlinear_arith)
            requires
                i < n,
                n == len / 4,
        ;
        pixels.set(i * 4 + 3, 255);
        i += 1;
    }
    proof {
        assert(pixels@ =~= opaque_alpha(orig));
    }
}

/// The 32-bit word of the four bytes at `k`, in the machine's byte order.
pub open spec fn ne_word(s: Seq<u8>, k: int, little_endian: bool) -> u32 {
    if little_endian {
        (s[k] as int + s[k + 1] as int * 0x100 + s[k + 2] as int * 0x1_0000 + s[k + 3] as int
            * 0x100_0000) as u32
    } else {
        (s[k + 3] as int + s[k + 2] as int * 0x100 + s[k + 1] as int * 0x1_0000 + s[k] as int
            * 0x100_0000) as u32
    }
}

/// `s` with every whole 4-byte pixel, read as a 2:10:10:10 word, reduced
/// to 8 bits a channel.
pub open spec fn unpacked_2101010(s: Seq<u8>, opaque: bool, little_endian: bool) -> Seq<u8> {
    Seq::new(
        s.len(),
        |k: int|
            if k < (s.len() / 4) * 4 {
                spec_unpack_2101010(ne_word(s, k - k % 4, little_endian), opaque)[k % 4]
            } else {
                s[k]
            },
    )
}

fn read_ne_word(s: &Vec<u8>, k: usize, little_endian: bool) -> (w: u32)
    requires
        k + 4 <= s@.len(),
    ensures
        w == ne_word(s@, k as int, little_endian),
{
    let len = s.len();
    assert(k + 4 <= len);
    let (b0, b1, b2, b3) = if little_endian {
        (s[k] as u32, s[k + 1] as u32, s[k + 2] as u32, s[k + 3] as u32)
    } else {
        (s[k + 3] as u32, s[k + 2] as u32, s[k + 1] as u32, s[k] as u32)
    };
    b0 + b1 * 0x100 + b2 * 0x1_0000 + b3 * 0x100_0000
}

/// Reduce every whole 2:10:10:10 pixel of `pixels` in place to 8 bits a
/// channel, reading each pixel as a word in the machine's byte order.
pub fn unpack_2101010_in_place(pixels: &mut Vec<u8>, opaque: bool, little_endian: bool)
    ensures
        final(pixels)@ == unpacked_2101010(old(pixels)@, opaque, little_endian),
{
    let n = pixels.len() / 4;
    let ghost orig = pixels@;
    let mut i: usize = 0;
    while i < n
        invariant
            n == orig.len() / 4,
            pixels@.len() == orig.len(),
            0 <= i <= n,
            forall|k: int|
                0 <= k < orig.len() ==> pixels@[k] == if k < i * 4 {
                    spec_unpack_2101010(ne_word(orig, k - k % 4, little_endian), opaque)[k % 4]
                } else {
                    orig[k]
                },
        decreases n - i,
    {
        let len = pixels.len();
        assert(i * 4 + 4 <= len) by (nonlinear_arith)
            requires
                i < n,
                n == len / 4,
        ;
        let k = i * 4;
        let ghost before = pixels@;
        proof {
            assert(pixels@[k as int] == orig[k as int]);
            assert(pixels@[k + 1] == orig[k + 1]);
            assert(pixels@[k + 2] == orig[k + 2]);
            assert(pixels@[k + 3] == orig[k + 3]);
        }
        let px = unpack_2101010(read_ne_word(pixels, k, little_endian), opaque);
        pixels.set(k, px[0]);
        pixels.set(k + 1, px[1]);
        pixels.set(k + 2, px[2]);
        pixels.set(k + 3, px[3]);
        proof {
            assert forall|m: int| 0 <= m < orig.len() implies pixels@[m] == if m < (i + 1) * 4 {
                spec_unpack_2101010(ne_word(orig, m - m % 4, little_endian), opaque)[m % 4]
            } else {
                orig[m]
            } by {
                if k <= m < k + 4 {
                    assert(m - m % 4 == k && m % 4 == m - k) by (nonlinear_arith)
                        requires
                            k <= m < k + 4,
                            k == i * 4,
                    ;
                    assert(ne_word(before, k as int, little_endian) == ne_word(orig, k as int, little_endian));
                }
            }
        }
        i += 1;
    }
    proof {
        assert(pixels@ =~= unpacked_2101010(orig, opaque, little_endian));
    }
}

/// `wl_shm` format codes: the two mandatory formats are numbered 0 and 1;
/// the rest share the DRM fourcc codes.
pub const WL_SHM_ARGB8888: u32 = 0;
pub const WL_SHM_XRGB8888: u32 = 1;

/// The pixels of a client SHM buffer, as the renderer takes them.
#[derive(Debug)]
pub enum ShmPixels {
    /// 8 bits a channel, in R, G, B, A byte order.
    Rgba(Vec<u8>),
    /// 8 bits a channel, in B, G, R, A byte order.
    Bgra(Vec<u8>),
    /// Four little-endian 16-bit channels a texel, still to be reduced to
    /// 8 bits: half floats when `floating`, otherwise unsigned normalized;
    /// red and blue swapped when `swap`; alpha ignored when `opaque`.
    Wide { texels: Vec<u8>, floating: bool, opaque: bool, swap: bool },
}

/// Whether a `wl_shm` format is one of the 2:10:10:10 formats.
pub open spec fn is_2101010(format: u32) -> bool {
    format == ARGB2101010 || format == XRGB2101010 || format == ABGR2101010 || format == XBGR2101010
}

/// Whether an 8- or 10-bit `wl_shm` format ends up in R, G, B, A order.
pub open spec fn lands_rgba(format: u32) -> bool {
    format == ABGR8888 || format == XBGR8888 || format == ABGR2101010 || format == XBGR2101010
}

/// What the packed rows of a buffer become, by format: wide texels pass
/// through with the fourcc's flags (`H` in the last byte for floats, `X`
/// in the first for no alpha, `R` in the second for red first), 10-bit
/// pixels are reduced to 8 bits, and 8-bit formats without alpha are made
/// opaque.
pub open spec fn shm_pixels_match(px: ShmPixels, packed: Seq<u8>, format: u32, little_endian: bool) -> bool {
    if spec_shm_texel_bytes(format) == 8 {
        px matches ShmPixels::Wide { texels, floating, opaque, swap } && texels@ == packed && floating
            == (format / 0x100_0000 == 0x48) && opaque == (format % 0x100 == 0x58) && swap == ((
        format / 0x100) % 0x100 == 0x52)
    } else {
        let bytes = if is_2101010(format) {
            unpacked_2101010(packed, format == XRGB2101010 || format == XBGR2101010, little_endian)
        } else if format == WL_SHM_XRGB8888 || format == XBGR8888 {
            opaque_alpha(packed)
        } else {
            packed
        };
        if lands_rgba(format) {
            px matches ShmPixels::Rgba(v) && v@ == bytes
        } else {
            px matches ShmPixels::Bgra(v) && v@ == bytes
        }
    }
}

/// Read a client SHM buffer out of its pool: validate the geometry against
/// the pool, pack the rows, and bring the pixels to a renderer format.
/// `None` when the geometry does not fit the pool.
pub fn read_shm_pixels(
    pool: &[u8],
    offset: i32,
    width: i32,
    height: i32,
    stride: i32,
    format: u32,
    little_endian: bool,
) -> (pixels: Option<(u32, u32, ShmPixels)>)
    ensures
        match spec_shm_layout(offset, width, height, stride, spec_shm_texel_bytes(format), pool@.len() as usize) {
            None => pixels is None,
            Some(row_bytes) => pixels matches Some((w, h, px)) && w == width as u32 && h == height as u32
                && shm_pixels_match(
                px,
                shm_rows(pool@, offset as int, stride as int, row_bytes as int, height as int),
                format,
                little_endian,
            ),
        },
{
    let texel = shm_texel_bytes(format);
    let row_bytes = match shm_buffer_layout(offset, width, height, stride, texel, pool.len()) {
        Some(r) => r,
        None => return None,
    };
    let mut packed = pack_shm_rows(pool, offset as usize, stride as usize, row_bytes, height as usize);
    let w = width as u32;
    let h = height as u32;
    if texel == 8 {
        let floating = format / 0x100_0000 == 0x48;
        let opaque = format % 0x100 == 0x58;
        let swap = (format / 0x100) % 0x100 == 0x52;
        return Some((w, h, ShmPixels::Wide { texels: packed, floating, opaque, swap }));
    }
    if format == ARGB2101010 || format == XRGB2101010 || format == ABGR2101010 || format
        == XBGR2101010 {
        let opaque = format == XRGB2101010 || format == XBGR2101010;
        unpack_2101010_in_place(&mut packed, opaque, little_endian);
    } else if format == WL_SHM_XRGB8888 || format == XBGR8888 {
        set_alpha_opaque(&mut packed);
    }
    if format == ABGR8888 || format == XBGR8888 || format == ABGR2101010 || format == XBGR2101010 {
        Some((w, h, ShmPixels::Rgba(packed)))
    } else {
        Some((w, h, ShmPixels::Bgra(packed)))
    }
}

/// The bytes of a 32-bit value in the machine's byte order.
pub open spec fn ne_bytes_u32(v: u32, little_endian: bool) -> Seq<u8> {
    let le = seq![
        (v % 0x100) as u8,
        ((v / 0x100) % 0x100) as u8,
        ((v / 0x1_0000) % 0x100) as u8,
        ((v / 0x100_0000) % 0x100) as u8,
    ];
    if little_endian {
        le
    } else {
        le.reverse()
    }
}

/// The bytes of a 64-bit value in the machine's byte order.
pub open spec fn ne_bytes_u64(v: u64, little_endian: bool) -> Seq<u8> {
    let lo = ne_bytes_u32((v % 0x1_0000_0000) as u32, true);
    let hi = ne_bytes_u32((v / 0x1_0000_0000) as u32, true);
    if little_endian {
        lo + hi
    } else {
        (lo + hi).reverse()
    }
}

/// The `zwp_linux_dmabuf_feedback_v1` format table: one 16-byte entry per
/// (format, modifier) pair, the format, four bytes of padding, then the
/// modifier, in the machine's byte order.
pub open spec fn format_table(pairs: Seq<(u32, u64)>, little_endian: bool) -> Seq<u8>
    decreases pairs.len(),
{
    if pairs.len() == 0 {
        Seq::empty()
    } else {
        let (format, modifier) = pairs.last();
        format_table(pairs.drop_last(), little_endian) + ne_bytes_u32(format, little_endian) + seq![
            0u8,
            0u8,
            0u8,
            0u8,
        ] + ne_bytes_u64(modifier, little_endian)
    }
}

/// Append a 32-bit value in the machine's byte order.
pub fn push_u32_ne(out: &mut Vec<u8>, v: u32, little_endian: bool)
    ensures
        final(out)@ == old(out)@ + ne_bytes_u32(v, little_endian),
{
    let b0 = (v % 0x100) as u8;
    let b1 = ((v / 0x100) % 0x100) as u8;
    let b2 = ((v / 0x1_0000) % 0x100) as u8;
    let b3 = ((v / 0x100_0000) % 0x100) as u8;
    let ghost start = out@;
    if little_endian {
        out.push(b0);
        out.push(b1);
        out.push(b2);
        out.push(b3);
    } else {
        out.push(b3);
        out.push(b2);
        out.push(b1);
        out.push(b0);
    }
    proof {
        let le = seq![b0, b1, b2, b3];
        if little_endian {
            assert(out@ =~= start + le);
        } else {
            assert(out@ =~= start + le.reverse());
        }
    }
}

fn push_u64(out: &mut Vec<u8>, v: u64, little_endian: bool)
    ensures
        final(out)@ == old(out)@ + ne_bytes_u64(v, little_endian),
{
    let lo = (v % 0x1_0000_0000) as u32;
    let hi = (v / 0x1_0000_0000) as u32;
    let ghost start = out@;
    let mut le: Vec<u8> = Vec::new();
    push_u32_ne(&mut le, lo, true);
    push_u32_ne(&mut le, hi, true);
    let ghost le_bytes = le@;
    proof {
        assert(le_bytes =~= ne_bytes_u32(lo, true) + ne_bytes_u32(hi, true));
    }
    let mut k: usize = 0;
    while k < 8
        invariant
            le@ == le_bytes,
            le_bytes.len() == 8,
            0 <= k <= 8,
            out@ == start + if little_endian {
                le_bytes.subrange(0, k as int)
            } else {
                le_bytes.reverse().subrange(0, k as int)
            },
        decreases 8 - k,
    {
        let b = if little_endian {
            le[k]
        } else {
            le[7 - k]
        };
        out.push(b);
        proof {
            if little_endian {
                assert(le_bytes.subrange(0, k + 1) =~= le_bytes.subrange(0, k as int).push(b));
            } else {
                assert(le_bytes.reverse().subrange(0, k + 1) =~= le_bytes.reverse().subrange(0, k as int).push(b));
            }
        }
        k += 1;
    }
    proof {
        assert(le_bytes.subrange(0, 8) =~= le_bytes);
        assert(le_bytes.reverse().subrange(0, 8) =~= le_bytes.reverse());
    }
}

/// Build the dma-buf feedback format table for the supported
/// (format, modifier) pairs.
pub fn dmabuf_format_table(pairs: &[(u32, u64)], little_endian: bool) -> (table: Vec<u8>)
    ensures
        table@ == format_table(pairs@, little_endian),
{
    let mut out: Vec<u8> = Vec::new();
    let mut i: usize = 0;
    while i < pairs.len()
        invariant
            0 <= i <= pairs@.len(),
            out@ == format_table(pairs@.subrange(0, i as int), little_endian),
        decreases pairs@.len() - i,
    {
        let (format, modifier) = pairs[i];
        push_u32_ne(&mut out, format, little_endian);
        out.push(0);
        out.push(0);
        out.push(0);
        out.push(0);
        push_u64(&mut out, modifier, little_endian);
        proof {
            let sub = pairs@.subrange(0, i + 1);
            assert(sub.drop_last() =~= pairs@.subrange(0, i as int));
            assert(out@ =~= format_table(sub, little_endian));
        }
        i += 1;
    }
    proof {
        assert(pairs@.subrange(0, pairs@.len() as int) =~= pairs@);
    }
    out
}

/// The `wl_shm` formats clients may create buffers in.
pub open spec fn spec_shm_format_supported(format: u32) -> bool {
    format == WL_SHM_ARGB8888 || format == WL_SHM_XRGB8888 || format == ABGR8888 || format
        == XBGR8888 || is_2101010(format) || format == ARGB16161616F || format == XRGB16161616F
        || format == ABGR16161616F || format == XBGR16161616F || format == ARGB16161616 || format
        == XRGB16161616 || format == ABGR16161616 || format == XBGR16161616
}

/// Whether a `wl_shm_pool.create_buffer` format is supported; anything
/// else is a protocol error.
pub fn shm_format_supported(format: u32) -> (supported: bool)
    ensures
        supported == spec_shm_format_supported(format),
{
    format == WL_SHM_ARGB8888 || format == WL_SHM_XRGB8888 || format == ABGR8888 || format
        == XBGR8888 || format == ARGB2101010 || format == XRGB2101010 || format == ABGR2101010
        || format == XBGR2101010 || format == ARGB16161616F || format == XRGB16161616F || format
        == ABGR16161616F || format == XBGR16161616F || format == ARGB16161616 || format
        == XRGB16161616 || format == ABGR16161616 || format == XBGR16161616
}

} // verus!
