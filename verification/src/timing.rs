//! The Wayland clock domain: `CLOCK_MONOTONIC` readings turned into the
//! millisecond stamps of `wl_callback.done` and input events, the
//! presentation time of a scheduled frame, and the output refresh period.
//!
//! Reading the clock itself is the caller's part; everything here works on
//! a sampled `(tv_sec, tv_nsec)` pair.
use vstd::prelude::*;
use vstd::arithmetic::div_mod::{lemma_add_mod_noop, lemma_small_mod};
use vstd::wrapping::u32_specs::{wrapping_add, wrapping_mul, wrapping_sub};

verus! {

pub const NANOS_PER_SEC: u128 = 1_000_000_000;

/// The millisecond stamp of a clock reading: whole milliseconds since the
/// clock's origin, modulo 2^32 (the seconds are taken modulo 2^32 first).
pub open spec fn spec_timestamp_ms(sec: i64, nsec: i64) -> u32 {
    (((sec as u32) as int * 1000 + (nsec as u32) as int / 1_000_000) % 0x1_0000_0000) as u32
}

/// The sub-millisecond part of a clock reading, in microseconds.
pub open spec fn spec_timestamp_us(nsec: i64) -> u16 {
    (((nsec as u32) as int % 1_000_000) / 1_000) as u16
}

/// The millisecond stamp of a `CLOCK_MONOTONIC` reading, the time base
/// Wayland clients expect for frame callbacks and input events.
pub fn elapsed_ms(sec: i64, nsec: i64) -> (ms: u32)
    ensures
        ms == spec_timestamp_ms(sec, nsec),
{
    let s = sec as u32;
    let sub_ms = nsec as u32 / 1_000_000;
    let ms = s.wrapping_mul(1000).wrapping_add(sub_ms);
    proof {
        let m: int = 0x1_0000_0000;
        let x: int = s as int * 1000;
        assert(wrapping_mul(s, 1000) as int == x % m);
        lemma_small_mod(sub_ms as nat, m as nat);
        lemma_add_mod_noop(x, sub_ms as int, m);
        assert(wrapping_add(wrapping_mul(s, 1000), sub_ms) as int == (x % m + sub_ms) % m);
    }
    ms
}

/// The same stamp as [`elapsed_ms`], with the sub-millisecond part kept
/// in microseconds.
pub fn elapsed_timestamp(sec: i64, nsec: i64) -> (stamp: (u32, u16))
    ensures
        stamp == (spec_timestamp_ms(sec, nsec), spec_timestamp_us(nsec)),
{
    let ms = elapsed_ms(sec, nsec);
    (ms, ((nsec as u32 % 1_000_000) / 1_000) as u16)
}

/// `a * b` as `u128::saturating_mul` computes it.
pub open spec fn sat_mul_u128(a: u128, b: u128) -> u128 {
    if a * b > u128::MAX {
        u128::MAX
    } else {
        (a * b) as u128
    }
}

/// `a + b` as `u128::saturating_add` computes it.
pub open spec fn sat_add_u128(a: u128, b: u128) -> u128 {
    if a + b > u128::MAX {
        u128::MAX
    } else {
        (a + b) as u128
    }
}

/// `a - b` as `u128::saturating_sub` computes it.
pub open spec fn sat_sub_u128(a: u128, b: u128) -> u128 {
    if a < b {
        0
    } else {
        (a - b) as u128
    }
}

/// A clock reading in nanoseconds, saturating.
pub open spec fn reading_ns(sec: i64, nsec: i64) -> u128 {
    sat_add_u128(sat_mul_u128(sec as u128, NANOS_PER_SEC), nsec as u128)
}

/// The clock time, in nanoseconds, of an instant `distance_ns` before
/// (`is_past`) or after the reading `(sec, nsec)`, capped at the reading:
/// presentation feedback never describes an event in the future.
pub open spec fn presentation_ns(sec: i64, nsec: i64, is_past: bool, distance_ns: u128) -> u128 {
    let now = reading_ns(sec, nsec);
    let scheduled = if is_past {
        sat_sub_u128(now, distance_ns)
    } else {
        sat_add_u128(now, distance_ns)
    };
    if scheduled < now {
        scheduled
    } else {
        now
    }
}

/// A nanosecond count as a `(tv_sec, tv_nsec)` pair.
pub open spec fn spec_split_ns(ns: u128) -> (i64, i64) {
    ((ns / NANOS_PER_SEC) as i64, (ns % NANOS_PER_SEC) as i64)
}

fn saturating_mul_u128(a: u128, b: u128) -> (r: u128)
    ensures
        r == sat_mul_u128(a, b),
{
    match a.checked_mul(b) {
        Some(v) => v,
        None => u128::MAX,
    }
}

/// Convert an instant into the presentation clock domain, given a reading
/// `(sec, nsec)` of `CLOCK_MONOTONIC` taken just before the instant clock
/// was sampled, and the distance from that sample to the instant
/// (`is_past` when the instant had already passed).
pub fn monotonic_timespec_at(sec: i64, nsec: i64, is_past: bool, distance_ns: u128) -> (ts: (i64, i64))
    ensures
        ts == spec_split_ns(presentation_ns(sec, nsec, is_past, distance_ns)),
{
    let now_ns = saturating_mul_u128(sec as u128, NANOS_PER_SEC).saturating_add(nsec as u128);
    let scheduled_ns = if is_past {
        now_ns.saturating_sub(distance_ns)
    } else {
        now_ns.saturating_add(distance_ns)
    };
    let when_ns = if scheduled_ns < now_ns {
        scheduled_ns
    } else {
        now_ns
    };
    ((when_ns / NANOS_PER_SEC) as i64, (when_ns % NANOS_PER_SEC) as i64)
}

/// A presented instant is never after the reading it was derived from, and
/// an instant in the past keeps its exact distance from it.
pub proof fn lemma_presentation_never_in_future(sec: i64, nsec: i64, is_past: bool, distance_ns: u128)
    ensures
        presentation_ns(sec, nsec, is_past, distance_ns) <= reading_ns(sec, nsec),
        !is_past ==> presentation_ns(sec, nsec, is_past, distance_ns) == reading_ns(sec, nsec),
        is_past && distance_ns <= reading_ns(sec, nsec) ==> presentation_ns(
            sec,
            nsec,
            is_past,
            distance_ns,
        ) == reading_ns(sec, nsec) - distance_ns,
{
}

/// The `wp_presentation_feedback.presented` time words of a reading:
/// high and low halves of the seconds, and the nanoseconds.
pub open spec fn spec_presented_words(sec: i64, nsec: i64) -> (u32, u32, u32) {
    ((sec >> 32) as u32, sec as u32, nsec as u32)
}

/// Split a reading into `wp_presentation_feedback.presented` time words.
pub fn presented_words(sec: i64, nsec: i64) -> (words: (u32, u32, u32))
    ensures
        words == spec_presented_words(sec, nsec),
{
    ((sec >> 32) as u32, sec as u32, nsec as u32)
}

/// The refresh period in nanoseconds of an output refreshing at `mhz`
/// millihertz, 0 when the rate is unknown.
pub open spec fn spec_refresh_ns(mhz: u32) -> u32 {
    if mhz > 0 {
        (1_000_000_000_000u64 / mhz as u64) as u32
    } else {
        0
    }
}

/// The output refresh period in nanoseconds.
pub fn refresh_ns(mhz: u32) -> (ns: u32)
    ensures
        ns == spec_refresh_ns(mhz),
{
    if mhz > 0 {
        (1_000_000_000_000u64 / mhz as u64) as u32
    } else {
        0
    }
}

/// Jitter below this (2 Hz) in a requested refresh rate is ignored.
pub const REFRESH_CHANGE_MIN_MHZ: u32 = 2000;

/// The refresh rate to adopt when a viewer reports `requested_mhz` while the
/// output runs at `current_mhz`: only a non-zero rate at least 2 Hz away
/// replaces the current one.
pub open spec fn spec_refresh_update(current_mhz: u32, requested_mhz: u32) -> Option<u32> {
    let diff = if requested_mhz >= current_mhz {
        requested_mhz - current_mhz
    } else {
        current_mhz - requested_mhz
    };
    if diff >= REFRESH_CHANGE_MIN_MHZ && requested_mhz > 0 {
        Some(requested_mhz)
    } else {
        None
    }
}

/// Decide whether a reported refresh rate changes the output's.
pub fn refresh_rate_update(current_mhz: u32, requested_mhz: u32) -> (adopted: Option<u32>)
    ensures
        adopted == spec_refresh_update(current_mhz, requested_mhz),
{
    let diff = if requested_mhz >= current_mhz {
        requested_mhz - current_mhz
    } else {
        current_mhz - requested_mhz
    };
    if diff >= REFRESH_CHANGE_MIN_MHZ && requested_mhz > 0 {
        Some(requested_mhz)
    } else {
        None
    }
}

/// A surface without a toplevel gets its frame callbacks at most this often.
pub const TOPLESS_FRAME_INTERVAL_MS: u32 = 250;

/// How long after a paced frame request eager callbacks stay suppressed.
pub const PACING_GRACE_MS: u32 = 500;

/// Whether a surface without a toplevel, last served at `last_ms`, is due
/// its frame callbacks at `now_ms`; the clock may wrap.
pub fn topless_frame_due(last_ms: Option<u32>, now_ms: u32) -> (due: bool)
    ensures
        due == match last_ms {
            None => true,
            Some(t) => wrapping_sub(now_ms, t) >= TOPLESS_FRAME_INTERVAL_MS,
        },
{
    match last_ms {
        None => true,
        Some(t) => now_ms.wrapping_sub(t) >= TOPLESS_FRAME_INTERVAL_MS,
    }
}

/// Whether a toplevel last paced by a frame request at `last_ms` is still
/// inside the grace window at `now_ms`.
pub fn recently_paced(last_ms: Option<u32>, now_ms: u32) -> (paced: bool)
    ensures
        paced == match last_ms {
            None => false,
            Some(t) => wrapping_sub(now_ms, t) < PACING_GRACE_MS,
        },
{
    match last_ms {
        None => false,
        Some(t) => now_ms.wrapping_sub(t) < PACING_GRACE_MS,
    }
}

} // verus!
