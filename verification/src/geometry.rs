//! Sizes and rectangles: SHM damage clipping, client size hints, the
//! per-surface density, and the logical size published after a render.
use vstd::prelude::*;

verus! {

/// A damaged region of a client buffer, in buffer pixels.
#[derive(Clone, Copy, Debug, PartialEq, Eq, Structural)]
pub struct ShmDamageRect {
    pub x: u32,
    pub y: u32,
    pub width: u32,
    pub height: u32,
}

/// `v` clamped into `[lo, hi]` (`lo <= hi`).
pub open spec fn clamp_int(v: int, lo: int, hi: int) -> int {
    if v < lo {
        lo
    } else if v > hi {
        hi
    } else {
        v
    }
}

/// `x + width` as `i64::saturating_add` computes it.
pub open spec fn saturating_end(x: i64, width: i64) -> int {
    if x + width > i64::MAX {
        i64::MAX as int
    } else if x + width < i64::MIN {
        i64::MIN as int
    } else {
        x + width
    }
}

/// The part of a damage rectangle that lies inside a
/// `buffer_width` x `buffer_height` buffer, or `None` when nothing does.
pub open spec fn spec_clipped_damage(
    x: i64,
    y: i64,
    width: i64,
    height: i64,
    buffer_width: u32,
    buffer_height: u32,
) -> Option<ShmDamageRect> {
    if width <= 0 || height <= 0 {
        None
    } else {
        let x0 = clamp_int(x as int, 0, buffer_width as int);
        let y0 = clamp_int(y as int, 0, buffer_height as int);
        let x1 = clamp_int(saturating_end(x, width), 0, buffer_width as int);
        let y1 = clamp_int(saturating_end(y, height), 0, buffer_height as int);
        if x1 <= x0 || y1 <= y0 {
            None
        } else {
            Some(
                ShmDamageRect {
                    x: x0 as u32,
                    y: y0 as u32,
                    width: (x1 - x0) as u32,
                    height: (y1 - y0) as u32,
                },
            )
        }
    }
}

fn clamp_i64(v: i64, hi: u32) -> (r: i64)
    ensures
        r == clamp_int(v as int, 0, hi as int),
{
    if v < 0 {
        0
    } else if v > hi as i64 {
        hi as i64
    } else {
        v
    }
}

fn saturating_add_i64(x: i64, width: i64) -> (r: i64)
    requires
        width > 0,
    ensures
        r == saturating_end(x, width),
{
    if x > i64::MAX - width {
        i64::MAX
    } else {
        x + width
    }
}

/// Clip a buffer-space damage rectangle to the buffer. A rectangle with no
/// positive extent, or one wholly outside the buffer, yields `None`.
pub fn clipped_shm_damage_rect(
    x: i64,
    y: i64,
    width: i64,
    height: i64,
    buffer_width: u32,
    buffer_height: u32,
) -> (rect: Option<ShmDamageRect>)
    ensures
        rect == spec_clipped_damage(x, y, width, height, buffer_width, buffer_height),
        rect matches Some(r) ==> r.width > 0 && r.height > 0 && r.x + r.width <= buffer_width
            && r.y + r.height <= buffer_height,
{
    if width <= 0 || height <= 0 {
        return None;
    }
    let x0 = clamp_i64(x, buffer_width);
    let y0 = clamp_i64(y, buffer_height);
    let x1 = clamp_i64(saturating_add_i64(x, width), buffer_width);
    let y1 = clamp_i64(saturating_add_i64(y, height), buffer_height);
    if x1 <= x0 || y1 <= y0 {
        return None;
    }
    Some(
        ShmDamageRect {
            x: x0 as u32,
            y: y0 as u32,
            width: (x1 - x0) as u32,
            height: (y1 - y0) as u32,
        },
    )
}

/// The size range a client declared with `xdg_toplevel.set_min_size` and
/// `set_max_size`; 0 in a dimension means no opinion there.
#[derive(Clone, Copy, Debug)]
pub struct SizeHints {
    pub min_size: (i32, i32),
    pub max_size: (i32, i32),
}

/// One dimension fitted to its hints: raised to a positive minimum, then
/// lowered to a positive maximum.
pub open spec fn fit_dimension(v: i32, min: i32, max: i32) -> i32 {
    let raised = if min > 0 && v < min {
        min
    } else {
        v
    };
    if max > 0 && raised > max {
        max
    } else {
        raised
    }
}

fn fit(v: i32, min: i32, max: i32) -> (r: i32)
    ensures
        r == fit_dimension(v, min, max),
{
    let v = if min > 0 && v < min {
        min
    } else {
        v
    };
    if max > 0 && v > max {
        max
    } else {
        v
    }
}

/// Fit a size about to be quoted in a configure into the range the client
/// said it can draw.
pub fn constrain_to_hints(hints: &SizeHints, w: i32, h: i32) -> (size: (i32, i32))
    ensures
        size == (
            fit_dimension(w, hints.min_size.0, hints.max_size.0),
            fit_dimension(h, hints.min_size.1, hints.max_size.1),
        ),
{
    (fit(w, hints.min_size.0, hints.max_size.0), fit(h, hints.min_size.1, hints.max_size.1))
}

/// Whether committed size hints agree: in each dimension a positive
/// maximum is at least the minimum (0 is no opinion and never conflicts).
pub open spec fn spec_hints_consistent(hints: SizeHints) -> bool {
    !((hints.max_size.0 > 0 && hints.min_size.0 > hints.max_size.0) || (hints.max_size.1 > 0
        && hints.min_size.1 > hints.max_size.1))
}

impl SizeHints {
    /// Whether the hints can be applied at commit; a minimum above a
    /// maximum is refused there.
    pub fn consistent(&self) -> (ok: bool)
        ensures
            ok == spec_hints_consistent(*self),
    {
        !((self.max_size.0 > 0 && self.min_size.0 > self.max_size.0) || (self.max_size.1 > 0
            && self.min_size.1 > self.max_size.1))
    }
}

/// Under hints that were accepted at commit, a constrained size lies in
/// the declared range, constraining it again changes nothing, and a size
/// already in range is left alone.
pub proof fn lemma_constrained_size_within_hints(hints: SizeHints, w: i32, h: i32)
    requires
        spec_hints_consistent(hints),
    ensures
        ({
            let fw = fit_dimension(w, hints.min_size.0, hints.max_size.0);
            let fh = fit_dimension(h, hints.min_size.1, hints.max_size.1);
            &&& hints.min_size.0 > 0 ==> fw >= hints.min_size.0
            &&& hints.max_size.0 > 0 ==> fw <= hints.max_size.0
            &&& hints.min_size.1 > 0 ==> fh >= hints.min_size.1
            &&& hints.max_size.1 > 0 ==> fh <= hints.max_size.1
            &&& fit_dimension(fw, hints.min_size.0, hints.max_size.0) == fw
            &&& fit_dimension(fh, hints.min_size.1, hints.max_size.1) == fh
            &&& (hints.min_size.0 <= 0 || w >= hints.min_size.0) && (hints.max_size.0 <= 0 || w
                <= hints.max_size.0) ==> fw == w
            &&& (hints.min_size.1 <= 0 || h >= hints.min_size.1) && (hints.max_size.1 <= 0 || h
                <= hints.max_size.1) ==> fh == h
        }),
{
}

/// The density a surface is drawn at, in 120ths: what a viewer asked
/// for, never below 1x, and 1x for a surface nobody has scaled.
pub open spec fn spec_surface_scale_120(requested: Option<u16>) -> u16 {
    match requested {
        Some(s) if s > 120 => s,
        _ => 120,
    }
}

/// The density a surface is drawn at, in 120ths.
pub fn surface_scale_120(requested: Option<u16>) -> (s120: u16)
    ensures
        s120 == spec_surface_scale_120(requested),
        s120 >= 120,
{
    match requested {
        Some(s) => if s > 120 {
            s
        } else {
            120
        },
        None => 120,
    }
}

/// `n / d` rounded up, as `u32::div_ceil` computes it.
pub open spec fn div_ceil(n: int, d: int) -> int {
    (n + d - 1) / d
}

/// The physical size a render submitted, with the logical size to publish
/// beside it: the configured one, or else the physical size brought back
/// to logical pixels at `scale_120`, rounding up.
pub open spec fn spec_native_size(
    configured: Option<(u32, u32, u32, u32)>,
    submitted: Option<(u16, u32, u32)>,
    scale_120: u32,
) -> Option<(u16, u32, u32, u32, u32)> {
    match submitted {
        None => None,
        Some((sid, w, h)) => match configured {
            Some((_, _, log_w, log_h)) => Some((sid, w, h, log_w, log_h)),
            None => Some(
                (
                    sid,
                    w,
                    h,
                    div_ceil(w * 120, scale_120 as int) as u32,
                    div_ceil(h * 120, scale_120 as int) as u32,
                ),
            ),
        },
    }
}

fn div_ceil_u32(n: u32, d: u32) -> (q: u32)
    requires
        d > 0,
    ensures
        q == div_ceil(n as int, d as int),
{
    let q = n / d;
    let r = n % d;
    proof {
        let (ni, di, qi, ri) = (n as int, d as int, q as int, r as int);
        assert(qi * di + ri == ni && 0 <= ri < di) by (nonlinear_arith)
            requires
                di > 0,
                qi == ni / di,
                ri == ni % di,
        ;
        if ri == 0 {
            assert((ni + di - 1) / di == qi) by (nonlinear_arith)
                requires
                    qi * di == ni,
                    di > 0,
            ;
        } else {
            assert((ni + di - 1) / di == qi + 1) by (nonlinear_arith)
                requires
                    qi * di + ri == ni,
                    0 < ri < di,
            ;
            assert(qi < u32::MAX) by (nonlinear_arith)
                requires
                    qi * di + ri == ni,
                    0 < ri < di,
                    ni <= u32::MAX,
                    qi >= 0,
            ;
        }
    }
    if r == 0 {
        q
    } else {
        q + 1
    }
}

/// Resolve the native size to publish after one render attempt.
///
/// A configured composite size becomes visible only once a render using
/// it was submitted: with no submission there is nothing to publish.
pub fn native_size_after_render(
    toplevel_sid: u16,
    configured: Option<(u32, u32, u32, u32)>,
    submitted: Option<(u16, u32, u32)>,
    scale_120: u32,
) -> (native: Option<(u16, u32, u32, u32, u32)>)
    requires
        submitted matches Some((sid, w, h)) ==> sid == toplevel_sid && (configured is None ==> scale_120
            > 0 && w * 120 <= u32::MAX && h * 120 <= u32::MAX),
    ensures
        native == spec_native_size(configured, submitted, scale_120),
{
    let (sid, w, h) = match submitted {
        Some(s) => s,
        None => return None,
    };
    let (log_w, log_h) = match configured {
        Some((_, _, log_w, log_h)) => (log_w, log_h),
        None => (div_ceil_u32(w * 120, scale_120), div_ceil_u32(h * 120, scale_120)),
    };
    Some((sid, w, h, log_w, log_h))
}

/// The screen offered to the X11 bridge: the default size grown to hold
/// every one of its windows, and the highest density among them (never
/// below 1x).
pub open spec fn spec_xwayland_screen(default_w: i32, default_h: i32, windows: Seq<(i32, i32, u16)>) -> (
    i32,
    i32,
    u16,
)
    decreases windows.len(),
{
    if windows.len() == 0 {
        (default_w, default_h, 120)
    } else {
        let (w, h, s) = spec_xwayland_screen(default_w, default_h, windows.drop_last());
        let (lw, lh, ls) = windows.last();
        (
            if lw > w {
                lw
            } else {
                w
            },
            if lh > h {
                lh
            } else {
                h
            },
            if ls > s {
                ls
            } else {
                s
            },
        )
    }
}

/// Fold the bridge's windows (logical width, height, density in 120ths)
/// into its one screen.
pub fn xwayland_screen(default_w: i32, default_h: i32, windows: &[(i32, i32, u16)]) -> (screen: (
    i32,
    i32,
    i32,
))
    ensures
        ({
            let (w, h, s) = spec_xwayland_screen(default_w, default_h, windows@);
            screen == (w, h, s as i32)
        }),
{
    let mut w = default_w;
    let mut h = default_h;
    let mut s120: u16 = 120;
    let mut i: usize = 0;
    while i < windows.len()
        invariant
            0 <= i <= windows@.len(),
            (w, h, s120) == spec_xwayland_screen(default_w, default_h, windows@.subrange(0, i as int)),
        decreases windows@.len() - i,
    {
        let (lw, lh, ls) = windows[i];
        proof {
            assert(windows@.subrange(0, i + 1).drop_last() =~= windows@.subrange(0, i as int));
        }
        if lw > w {
            w = lw;
        }
        if lh > h {
            h = lh;
        }
        if ls > s120 {
            s120 = ls;
        }
        i += 1;
    }
    proof {
        assert(windows@.subrange(0, windows@.len() as int) =~= windows@);
    }
    (w, h, s120 as i32)
}

/// The bridge's screen holds each of its windows and is never smaller than
/// the default, nor below 1x.
pub proof fn lemma_xwayland_screen_holds_windows(
    default_w: i32,
    default_h: i32,
    windows: Seq<(i32, i32, u16)>,
)
    ensures
        ({
            let (w, h, s) = spec_xwayland_screen(default_w, default_h, windows);
            &&& w >= default_w
            &&& h >= default_h
            &&& s >= 120
            &&& forall|i: int|
                0 <= i < windows.len() ==> w >= (#[trigger] windows[i]).0 && h >= windows[i].1 && s
                    >= windows[i].2
        }),
    decreases windows.len(),
{
    if windows.len() > 0 {
        lemma_xwayland_screen_holds_windows(default_w, default_h, windows.drop_last());
        let prev = windows.drop_last();
        assert forall|i: int| 0 <= i < windows.len() - 1 implies windows[i] == prev[i] by {}
    }
}

/// A viewer's resize of a surface, in physical pixels at `scale_120`: the
/// logical size to configure (physical size over the scale, never below
/// 1x), and the new density when the viewer's scale is set and differs
/// from the surface's current one.
pub open spec fn spec_surface_resize(width: u16, height: u16, scale_120: u16, stored_scale: Option<u16>) -> (
    (i32, i32),
    Option<u16>,
) {
    let s_in: int = if scale_120 > 120 {
        scale_120 as int
    } else {
        120
    };
    let changed = scale_120 > 0 && scale_120 != spec_surface_scale_120(stored_scale);
    (
        ((width * 120 / s_in) as i32, (height * 120 / s_in) as i32),
        if changed {
            Some(
                if scale_120 > 120 {
                    scale_120
                } else {
                    120
                },
            )
        } else {
            None
        },
    )
}

/// Work out what a viewer's resize means for a surface.
pub fn surface_resize(width: u16, height: u16, scale_120: u16, stored_scale: Option<u16>) -> (r: (
    (i32, i32),
    Option<u16>,
))
    ensures
        r == spec_surface_resize(width, height, scale_120, stored_scale),
{
    let s_in: i32 = if scale_120 > 120 {
        scale_120 as i32
    } else {
        120
    };
    let w = (width as i32) * 120 / s_in;
    let h = (height as i32) * 120 / s_in;
    let current = surface_scale_120(stored_scale);
    let new_scale = if scale_120 > 0 && scale_120 != current {
        Some(
            if scale_120 > 120 {
                scale_120
            } else {
                120
            },
        )
    } else {
        None
    };
    ((w, h), new_scale)
}

impl SizeHints {
    /// No opinion in either direction.
    pub fn new() -> (hints: Self)
        ensures
            hints.min_size == (0i32, 0i32),
            hints.max_size == (0i32, 0i32),
    {
        SizeHints { min_size: (0, 0), max_size: (0, 0) }
    }

    /// `xdg_toplevel.set_min_size` (`is_min`) or `set_max_size`, into the
    /// pending hints. A negative dimension is refused (a protocol error)
    /// and changes nothing; the pair is checked against each other only at
    /// commit.
    pub fn set_hint(&mut self, is_min: bool, width: i32, height: i32) -> (accepted: bool)
        ensures
            accepted == (width >= 0 && height >= 0),
            !accepted ==> *final(self) == *old(self),
            accepted && is_min ==> final(self).min_size == (width, height) && final(self).max_size
                == old(self).max_size,
            accepted && !is_min ==> final(self).max_size == (width, height) && final(self).min_size
                == old(self).min_size,
    {
        if width < 0 || height < 0 {
            return false;
        }
        if is_min {
            self.min_size = (width, height);
        } else {
            self.max_size = (width, height);
        }
        true
    }
}

} // verus!
