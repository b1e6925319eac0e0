//! The `xdg_toplevel` configure payloads: state and capability arrays,
//! encoded as the protocol expects (native-endian `u32`s).
use vstd::prelude::*;
use crate::pixels::{ne_bytes_u32, push_u32_ne};

verus! {

/// `xdg_toplevel.state` values.
pub const STATE_MAXIMIZED: u32 = 1;
pub const STATE_FULLSCREEN: u32 = 2;
pub const STATE_ACTIVATED: u32 = 4;

/// `xdg_toplevel.wm_capabilities` value for fullscreen.
pub const WM_CAPABILITY_FULLSCREEN: u32 = 3;

/// An array of protocol enum values as wire bytes.
pub open spec fn u32_array(values: Seq<u32>, little_endian: bool) -> Seq<u8>
    decreases values.len(),
{
    if values.len() == 0 {
        Seq::empty()
    } else {
        u32_array(values.drop_last(), little_endian) + ne_bytes_u32(values.last(), little_endian)
    }
}

/// Encode protocol enum values as the raw byte array of an `array` argument.
pub fn encode_u32_array(values: &[u32], little_endian: bool) -> (bytes: Vec<u8>)
    ensures
        bytes@ == u32_array(values@, little_endian),
{
    let mut out: Vec<u8> = Vec::new();
    let mut i: usize = 0;
    while i < values.len()
        invariant
            0 <= i <= values@.len(),
            out@ == u32_array(values@.subrange(0, i as int), little_endian),
        decreases values@.len() - i,
    {
        push_u32_ne(&mut out, values[i], little_endian);
        proof {
            assert(values@.subrange(0, i + 1).drop_last() =~= values@.subrange(0, i as int));
        }
        i += 1;
    }
    proof {
        assert(values@.subrange(0, values@.len() as int) =~= values@);
    }
    out
}

/// The states a pane's configure carries: always activated, then maximized
/// and fullscreen as requested.
pub open spec fn spec_pane_states(maximized: bool, fullscreen: bool) -> Seq<u32> {
    let s = seq![STATE_ACTIVATED];
    let s = if maximized {
        s.push(STATE_MAXIMIZED)
    } else {
        s
    };
    if fullscreen {
        s.push(STATE_FULLSCREEN)
    } else {
        s
    }
}

/// Encode the states of a pane's configure.
pub fn pane_states(maximized: bool, fullscreen: bool, little_endian: bool) -> (bytes: Vec<u8>)
    ensures
        bytes@ == u32_array(spec_pane_states(maximized, fullscreen), little_endian),
{
    let mut states: Vec<u32> = Vec::new();
    states.push(STATE_ACTIVATED);
    if maximized {
        states.push(STATE_MAXIMIZED);
    }
    if fullscreen {
        states.push(STATE_FULLSCREEN);
    }
    proof {
        assert(states@ =~= spec_pane_states(maximized, fullscreen));
    }
    encode_u32_array(states.as_slice(), little_endian)
}

} // verus!
