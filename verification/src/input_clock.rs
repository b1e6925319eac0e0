//! Seat input timestamps.
//!
//! Browser events carry their own `timeStamp` in milliseconds, in an epoch
//! of their own. The seat speaks one millisecond domain, so a client's epoch
//! is anchored to the compositor clock and its deltas ride on top: the
//! *spacing* between events is the browser's, which is what lets apps derive
//! velocities from them. Emitted times never go backwards.
use vstd::prelude::*;
use vstd::wrapping::u32_specs::{wrapping_add, wrapping_sub};

verus! {

/// Drop the anchor after this much quiet: nothing needs continuity across a
/// pause.
pub const REANCHOR_IDLE_MS: u32 = 200;

/// The largest client delta trusted against an anchor.
pub const MAX_DRIFT_MS: u32 = 60_000;

/// How far ahead of the compositor clock an emitted time may run.
pub const MAX_AHEAD_MS: u32 = 1_000;

/// The seat's timestamp state.
#[derive(Clone, Copy, Debug, PartialEq, Eq)]
pub struct InputClock {
    /// `(our clock, the client's)` at the first event of the live sequence.
    pub input_time_anchor: Option<(u32, u32)>,
    /// Direct touch's own anchor: `(owner, our clock, the owner's clock)`.
    pub touch_time_anchor: Option<(u64, u32, u32)>,
    /// Local arrival time of the last timestamped direct-touch event.
    pub touch_time_last_arrival: Option<u32>,
    /// Last timestamp emitted, to keep the seat monotonic.
    pub last_input_time: Option<u32>,
}

pub open spec fn max_u32(a: u32, b: u32) -> u32 {
    if a >= b {
        a
    } else {
        b
    }
}

/// `t`, raised to the last emitted time.
pub open spec fn monotone(last: Option<u32>, t: u32) -> u32 {
    match last {
        Some(l) => max_u32(t, l),
        None => t,
    }
}

/// The generic anchor that survives the staleness checks at `now`.
pub open spec fn surviving_input_anchor(c: InputClock, now: u32) -> Option<(u32, u32)> {
    let a1 = match c.input_time_anchor {
        Some((al, ac)) => if now > al && now - al > MAX_DRIFT_MS {
            None
        } else {
            Some((al, ac))
        },
        None => None,
    };
    match c.last_input_time {
        Some(last) => if now > last && now - last > REANCHOR_IDLE_MS {
            None
        } else {
            a1
        },
        None => a1,
    }
}

/// The clock after `input_event_time(now, client_time_ms)`, and the time
/// emitted.
pub open spec fn input_time_step(c: InputClock, now: u32, client_time_ms: u32) -> (InputClock, u32) {
    if client_time_ms == 0 {
        let t = monotone(c.last_input_time, now);
        (InputClock { last_input_time: Some(t), ..c }, t)
    } else {
        let anchor = match surviving_input_anchor(c, now) {
            Some(a) => a,
            None => (now, client_time_ms),
        };
        let elapsed = wrapping_sub(client_time_ms, anchor.1);
        let t1 = if elapsed <= MAX_DRIFT_MS {
            wrapping_add(anchor.0, elapsed)
        } else {
            now
        };
        let ahead = t1 > now && t1 - now > MAX_AHEAD_MS;
        let anchor2 = if ahead {
            (now, client_time_ms)
        } else {
            anchor
        };
        let t2 = if ahead {
            now
        } else {
            t1
        };
        let t3 = monotone(c.last_input_time, t2);
        (InputClock { input_time_anchor: Some(anchor2), last_input_time: Some(t3), ..c }, t3)
    }
}

/// The touch anchor that survives the owner and staleness checks at `now`.
pub open spec fn surviving_touch_anchor(c: InputClock, now: u32, owner_id: u64) -> Option<(u64, u32, u32)> {
    let (a0, arrival0) = match c.touch_time_anchor {
        Some((owner, _, _)) => if owner != owner_id {
            (None, None)
        } else {
            (c.touch_time_anchor, c.touch_time_last_arrival)
        },
        None => (None, c.touch_time_last_arrival),
    };
    let a1 = match a0 {
        Some((o, al, ac)) => if now > al && now - al > MAX_DRIFT_MS {
            None
        } else {
            Some((o, al, ac))
        },
        None => None,
    };
    match arrival0 {
        Some(la) => if now > la && now - la > REANCHOR_IDLE_MS {
            None
        } else {
            a1
        },
        None => a1,
    }
}

/// The clock after `touch_event_time(now, owner_id, client_time_ms)`, and
/// the time emitted.
pub open spec fn touch_time_step(c: InputClock, now: u32, owner_id: u64, client_time_ms: u32) -> (
    InputClock,
    u32,
) {
    if client_time_ms == 0 {
        input_time_step(c, now, 0)
    } else {
        let local_base = monotone(c.last_input_time, now);
        let anchor = match surviving_touch_anchor(c, now, owner_id) {
            Some(a) => a,
            None => (owner_id, local_base, client_time_ms),
        };
        let elapsed = wrapping_sub(client_time_ms, anchor.2);
        let fresh = (owner_id, local_base, client_time_ms);
        let anchor1 = if elapsed <= MAX_DRIFT_MS {
            anchor
        } else {
            fresh
        };
        let t1 = if elapsed <= MAX_DRIFT_MS {
            wrapping_add(anchor.1, elapsed)
        } else {
            local_base
        };
        let ahead = t1 > now && t1 - now > MAX_AHEAD_MS;
        let anchor2 = if ahead {
            fresh
        } else {
            anchor1
        };
        let t2 = if ahead {
            local_base
        } else {
            t1
        };
        let t3 = monotone(c.last_input_time, t2);
        (
            InputClock {
                touch_time_anchor: Some(anchor2),
                touch_time_last_arrival: Some(now),
                last_input_time: Some(t3),
                ..c
            },
            t3,
        )
    }
}

/// The clock after `reset_touch_clock(owner)`.
pub open spec fn touch_reset(c: InputClock, owner: Option<u64>) -> InputClock {
    let clears = match owner {
        None => true,
        Some(o) => match c.touch_time_anchor {
            Some((active, _, _)) => active == o,
            None => false,
        },
    };
    if clears {
        InputClock { touch_time_anchor: None, touch_time_last_arrival: None, ..c }
    } else {
        c
    }
}

impl InputClock {
    /// A clock that has emitted nothing.
    pub fn new() -> (c: Self)
        ensures
            c.input_time_anchor is None,
            c.touch_time_anchor is None,
            c.touch_time_last_arrival is None,
            c.last_input_time is None,
    {
        InputClock {
            input_time_anchor: None,
            touch_time_anchor: None,
            touch_time_last_arrival: None,
            last_input_time: None,
        }
    }

    /// Turn a browser event's `timeStamp` into a seat input timestamp, at
    /// compositor time `now`. `0` means no browser event stands behind the
    /// input: the compositor clock is used and the anchor left alone.
    pub fn input_event_time(&mut self, now: u32, client_time_ms: u32) -> (time: u32)
        ensures
            (*final(self), time) == input_time_step(*old(self), now, client_time_ms),
    {
        if client_time_ms == 0 {
            let time = match self.last_input_time {
                Some(last) => if now >= last {
                    now
                } else {
                    last
                },
                None => now,
            };
            self.last_input_time = Some(time);
            return time;
        }
        if let Some((anchor_local, _)) = self.input_time_anchor {
            if now > anchor_local && now - anchor_local > MAX_DRIFT_MS {
                self.input_time_anchor = None;
            }
        }
        if let Some(last) = self.last_input_time {
            if now > last && now - last > REANCHOR_IDLE_MS {
                self.input_time_anchor = None;
            }
        }
        let (anchor_local, anchor_client) = match self.input_time_anchor {
            Some(a) => a,
            None => (now, client_time_ms),
        };
        let elapsed = client_time_ms.wrapping_sub(anchor_client);
        let time = if elapsed <= MAX_DRIFT_MS {
            anchor_local.wrapping_add(elapsed)
        } else {
            now
        };
        let (anchor, time) = if time > now && time - now > MAX_AHEAD_MS {
            ((now, client_time_ms), now)
        } else {
            ((anchor_local, anchor_client), time)
        };
        self.input_time_anchor = Some(anchor);
        let time = match self.last_input_time {
            Some(last) => if time >= last {
                time
            } else {
                last
            },
            None => time,
        };
        self.last_input_time = Some(time);
        time
    }

    /// Map one direct-touch owner's browser clock into the seat domain, at
    /// compositor time `now`. Direct touch keeps its own anchor, reset when
    /// the owner changes, because viewers' page epochs are unrelated.
    pub fn touch_event_time(&mut self, now: u32, owner_id: u64, client_time_ms: u32) -> (time: u32)
        ensures
            (*final(self), time) == touch_time_step(*old(self), now, owner_id, client_time_ms),
    {
        if client_time_ms == 0 {
            return self.input_event_time(now, 0);
        }
        if let Some((owner, _, _)) = self.touch_time_anchor {
            if owner != owner_id {
                self.touch_time_anchor = None;
                self.touch_time_last_arrival = None;
            }
        }
        if let Some((_, anchor_local, _)) = self.touch_time_anchor {
            if now > anchor_local && now - anchor_local > MAX_DRIFT_MS {
                self.touch_time_anchor = None;
            }
        }
        if let Some(last_arrival) = self.touch_time_last_arrival {
            if now > last_arrival && now - last_arrival > REANCHOR_IDLE_MS {
                self.touch_time_anchor = None;
            }
        }
        self.touch_time_last_arrival = Some(now);
        let local_base = match self.last_input_time {
            Some(last) => if now >= last {
                now
            } else {
                last
            },
            None => now,
        };
        let fresh = (owner_id, local_base, client_time_ms);
        let anchor = match self.touch_time_anchor {
            Some(a) => a,
            None => fresh,
        };
        let elapsed = client_time_ms.wrapping_sub(anchor.2);
        let (anchor, time) = if elapsed <= MAX_DRIFT_MS {
            (anchor, anchor.1.wrapping_add(elapsed))
        } else {
            (fresh, local_base)
        };
        let (anchor, time) = if time > now && time - now > MAX_AHEAD_MS {
            (fresh, local_base)
        } else {
            (anchor, time)
        };
        self.touch_time_anchor = Some(anchor);
        let time = match self.last_input_time {
            Some(last) => if time >= last {
                time
            } else {
                last
            },
            None => time,
        };
        self.last_input_time = Some(time);
        time
    }

    /// Forget the touch anchor of `owner`, or of every owner with `None`.
    pub fn reset_touch_clock(&mut self, owner: Option<u64>)
        ensures
            *final(self) == touch_reset(*old(self), owner),
    {
        let clears = match owner {
            None => true,
            Some(o) => match self.touch_time_anchor {
                Some((active, _, _)) => active == o,
                None => false,
            },
        };
        if clears {
            self.touch_time_anchor = None;
            self.touch_time_last_arrival = None;
        }
    }
}

/// Seat time never runs backwards: whatever event arrives, pointer or touch,
/// the emitted time is at least the last one, and becomes the new last one.
pub proof fn lemma_seat_time_is_monotonic(c: InputClock, now: u32, owner_id: u64, client_time_ms: u32)
    ensures
        ({
            let (c2, t) = input_time_step(c, now, client_time_ms);
            &&& c2.last_input_time == Some(t)
            &&& (c.last_input_time matches Some(l) ==> l <= t)
        }),
        ({
            let (c2, t) = touch_time_step(c, now, owner_id, client_time_ms);
            &&& c2.last_input_time == Some(t)
            &&& (c.last_input_time matches Some(l) ==> l <= t)
        }),
{
}

/// Within one gesture the browser's spacing is kept exactly: once anchored,
/// an event `d` ms after the anchor lands `d` ms after the anchor's local
/// time, as long as the anchor is fresh and the result neither runs ahead of
/// the clock nor behind the last emitted time.
pub proof fn lemma_gesture_spacing_is_kept(c: InputClock, now: u32, client_time_ms: u32)
    requires
        client_time_ms != 0,
        surviving_input_anchor(c, now) matches Some((al, ac)) && {
            let d = wrapping_sub(client_time_ms, ac);
            &&& d <= MAX_DRIFT_MS
            &&& al + d <= now + MAX_AHEAD_MS
            &&& al + d <= u32::MAX
            &&& (c.last_input_time matches Some(l) ==> l <= al + d)
        },
    ensures
        ({
            let (al, ac) = surviving_input_anchor(c, now).unwrap();
            input_time_step(c, now, client_time_ms).1 == al + wrapping_sub(client_time_ms, ac)
        }),
{
}

} // verus!
