//! Fixed-rate frame clocks, one per surface.
//!
//! Time points are nanoseconds on one monotonic timeline, held in `u64`;
//! an addition that would leave that range fails, as a checked add does.
use vstd::prelude::*;

verus! {

/// How many whole intervals `now` is past `deadline`, capped at `u32::MAX`.
pub open spec fn clock_steps(deadline: u64, now: u64, interval: u64) -> int
    recommends
        interval > 0,
{
    let elapsed = if now > deadline {
        (now - deadline) / (interval as int)
    } else {
        0
    };
    if elapsed > u32::MAX {
        u32::MAX as int
    } else {
        elapsed
    }
}

/// The tick a late clock presents at: the last whole-interval point on the
/// deadline's phase, or `now` when that point is not representable.
pub open spec fn clock_presentation(deadline: u64, now: u64, interval: u64) -> int {
    let p = deadline + interval * clock_steps(deadline, now, interval);
    if p <= u64::MAX {
        p
    } else {
        now as int
    }
}

/// The deadline after a tick presented at `clock_presentation`.
pub open spec fn clock_next_deadline(deadline: u64, now: u64, interval: u64) -> int {
    let p = clock_presentation(deadline, now, interval);
    if p + interval <= u64::MAX {
        p + interval
    } else {
        now + interval
    }
}

proof fn lemma_steps_bounds(deadline: u64, now: u64, interval: u64)
    requires
        interval > 0,
    ensures
        0 <= clock_steps(deadline, now, interval) <= u32::MAX,
        deadline <= now ==> deadline + interval * clock_steps(deadline, now, interval) <= now,
        deadline <= now && (now - deadline) / (interval as int) < u32::MAX ==> now < deadline
            + interval * clock_steps(deadline, now, interval) + interval,
{
    if now > deadline {
        let d = (now - deadline) as int;
        let q = d / (interval as int);
        assert(q * interval <= d && d < q * interval + interval) by (nonlinear_arith)
            requires
                q == d / (interval as int),
                interval > 0,
                d >= 0,
        ;
        assert(q >= 0) by (nonlinear_arith)
            requires
                q == d / (interval as int),
                interval > 0,
                d >= 0,
        ;
        let s = clock_steps(deadline, now, interval);
        assert(s <= q);
        assert(interval * s <= interval * q) by (nonlinear_arith)
            requires
                s <= q,
                interval > 0,
        ;
    }
}

/// Consume one fixed-clock tick: the presentation point for this wakeup,
/// with `deadline` advanced one interval past it. Ticks missed while the
/// clock slept are skipped rather than replayed, and the phase is kept.
pub fn consume_frame_clock_deadline(deadline: &mut u64, now: u64, interval: u64) -> (presentation_at: u64)
    requires
        interval > 0,
        clock_next_deadline(*old(deadline), now, interval) <= u64::MAX,
    ensures
        presentation_at == clock_presentation(*old(deadline), now, interval),
        *final(deadline) == clock_next_deadline(*old(deadline), now, interval),
{
    let d = *deadline;
    let elapsed_u64: u64 = if now > d {
        (now - d) / interval
    } else {
        0
    };
    let elapsed: u64 = if elapsed_u64 > 4294967295u64 {
        4294967295u64
    } else {
        elapsed_u64
    };
    assert(elapsed == clock_steps(d, now, interval));
    assert(interval as int * elapsed as int <= u64::MAX as int * u32::MAX as int) by (nonlinear_arith)
        requires
            0 <= interval <= u64::MAX,
            0 <= elapsed <= u32::MAX,
    ;
    let product: u128 = (interval as u128) * (elapsed as u128);
    let sum: u128 = d as u128 + product;
    let presentation_at: u64 = if sum <= u64::MAX as u128 {
        sum as u64
    } else {
        now
    };
    let next: u64 = if presentation_at <= u64::MAX - interval {
        presentation_at + interval
    } else {
        now + interval
    };
    *deadline = next;
    presentation_at
}

/// A presented tick never lies in the future, and lies on the deadline's
/// phase unless the timeline ran out.
pub proof fn lemma_presentation_not_in_future(deadline: u64, now: u64, interval: u64)
    requires
        interval > 0,
        deadline <= now,
    ensures
        clock_presentation(deadline, now, interval) <= now,
        clock_presentation(deadline, now, interval) >= deadline,
        (clock_presentation(deadline, now, interval) - deadline) % (interval as int) == 0,
{
    lemma_steps_bounds(deadline, now, interval);
    let s = clock_steps(deadline, now, interval);
    let p = deadline + interval * s;
    if p <= u64::MAX {
        assert((interval * s) % (interval as int) == 0) by (nonlinear_arith)
            requires
                interval > 0,
                s >= 0,
        ;
        assert(interval * s >= 0) by (nonlinear_arith)
            requires
                interval > 0,
                s >= 0,
        ;
    } else {
        assert(p <= now);
    }
}

/// After a tick, the next deadline lies beyond `now`: a late clock catches
/// up in one step instead of firing once per missed interval.
pub proof fn lemma_next_deadline_after_now(deadline: u64, now: u64, interval: u64)
    requires
        interval > 0,
        deadline <= now,
        (now - deadline) / (interval as int) < u32::MAX,
    ensures
        clock_next_deadline(deadline, now, interval) > now,
{
    lemma_steps_bounds(deadline, now, interval);
}

/// One surface's clock: its interval and the next deadline.
#[derive(Clone, Copy, Debug, PartialEq, Eq)]
pub struct FrameClockEntry {
    pub surface_id: u16,
    pub interval: u64,
    pub next: u64,
}

/// Every live surface clock, at most one per surface.
pub struct FrameClocks {
    entries: Vec<FrameClockEntry>,
}

/// The clocks as a map from surface to `(interval, next deadline)`.
pub open spec fn entries_map(entries: Seq<FrameClockEntry>) -> Map<u16, (u64, u64)>
    decreases entries.len(),
{
    if entries.len() == 0 {
        Map::empty()
    } else {
        let e = entries.last();
        entries_map(entries.drop_last()).insert(e.surface_id, (e.interval, e.next))
    }
}

/// No surface has two clocks, and every interval is non-zero.
pub open spec fn entries_wf(entries: Seq<FrameClockEntry>) -> bool {
    &&& forall|i: int, j: int|
        0 <= i < j < entries.len() ==> entries[i].surface_id != entries[j].surface_id
    &&& forall|i: int| 0 <= i < entries.len() ==> entries[i].interval > 0
}

/// The tick requests one pass emits, in clock order.
pub open spec fn due_requests(entries: Seq<FrameClockEntry>, now: u64) -> Seq<(u16, u64)>
    decreases entries.len(),
{
    if entries.len() == 0 {
        Seq::empty()
    } else {
        let e = entries.last();
        let prev = due_requests(entries.drop_last(), now);
        if e.next <= now {
            prev.push((e.surface_id, clock_presentation(e.next, now, e.interval) as u64))
        } else {
            prev
        }
    }
}

/// One clock after a pass at `now`.
pub open spec fn clock_after_pass(e: FrameClockEntry, now: u64) -> FrameClockEntry {
    if e.next <= now {
        FrameClockEntry { next: clock_next_deadline(e.next, now, e.interval) as u64, ..e }
    } else {
        e
    }
}

proof fn lemma_map_lookup(entries: Seq<FrameClockEntry>, i: int)
    requires
        entries_wf(entries),
        0 <= i < entries.len(),
    ensures
        entries_map(entries).contains_key(entries[i].surface_id),
        entries_map(entries)[entries[i].surface_id] == (entries[i].interval, entries[i].next),
    decreases entries.len(),
{
    if i < entries.len() - 1 {
        lemma_map_lookup(entries.drop_last(), i);
    }
}

proof fn lemma_map_domain(entries: Seq<FrameClockEntry>, sid: u16)
    requires
        entries_wf(entries),
    ensures
        entries_map(entries).contains_key(sid) <==> exists|i: int|
            0 <= i < entries.len() && entries[i].surface_id == sid,
    decreases entries.len(),
{
    if entries.len() > 0 {
        lemma_map_domain(entries.drop_last(), sid);
        if entries_map(entries).contains_key(sid) {
            if sid != entries.last().surface_id {
                let i = choose|i: int|
                    0 <= i < entries.len() - 1 && entries.drop_last()[i].surface_id == sid;
                assert(entries[i].surface_id == sid);
            } else {
                assert(entries[entries.len() - 1].surface_id == sid);
            }
        }
        if exists|i: int| 0 <= i < entries.len() && entries[i].surface_id == sid {
            let i = choose|i: int| 0 <= i < entries.len() && entries[i].surface_id == sid;
            if i < entries.len() - 1 {
                assert(entries.drop_last()[i].surface_id == sid);
            }
        }
    }
}

/// Where `surface_id`'s clock stands in `entries`, if anywhere.
fn position_of(entries: &Vec<FrameClockEntry>, surface_id: u16) -> (pos: Option<usize>)
    ensures
        match pos {
            Some(i) => i < entries@.len() && entries@[i as int].surface_id == surface_id,
            None => forall|j: int| 0 <= j < entries@.len() ==> entries@[j].surface_id != surface_id,
        },
{
    let mut i: usize = 0;
    while i < entries.len()
        invariant
            0 <= i <= entries@.len(),
            forall|j: int| 0 <= j < i ==> entries@[j].surface_id != surface_id,
        decreases entries@.len() - i,
    {
        if entries[i].surface_id == surface_id {
            return Some(i);
        }
        i += 1;
    }
    None
}

impl FrameClocks {
    /// The clocks by surface.
    pub closed spec fn view(&self) -> Map<u16, (u64, u64)> {
        entries_map(self.entries@)
    }

    /// The clocks in the order a pass visits them.
    pub closed spec fn entries(&self) -> Seq<FrameClockEntry> {
        self.entries@
    }

    #[verifier::type_invariant]
    closed spec fn wf(&self) -> bool {
        entries_wf(self.entries@)
    }

    /// No clocks.
    pub fn new() -> (clocks: Self)
        ensures
            clocks.entries().len() == 0,
            clocks.view() == Map::<u16, (u64, u64)>::empty(),
    {
        FrameClocks { entries: Vec::new() }
    }

    /// The clock of `surface_id`, if it has one.
    pub fn get(&self, surface_id: u16) -> (clock: Option<FrameClockEntry>)
        ensures
            match clock {
                Some(e) => self.view().contains_key(surface_id) && e.surface_id == surface_id
                    && self.view()[surface_id] == (e.interval, e.next),
                None => !self.view().contains_key(surface_id),
            },
    {
        proof {
            use_type_invariant(self);
            lemma_map_domain(self.entries@, surface_id);
        }
        let mut i: usize = 0;
        while i < self.entries.len()
            invariant
                0 <= i <= self.entries@.len(),
                entries_wf(self.entries@),
                forall|j: int| 0 <= j < i ==> self.entries@[j].surface_id != surface_id,
            decreases self.entries@.len() - i,
        {
            if self.entries[i].surface_id == surface_id {
                proof {
                    lemma_map_lookup(self.entries@, i as int);
                }
                return Some(self.entries[i]);
            }
            i += 1;
        }
        None
    }

    /// Set or clear one surface's interval. `None` and a zero interval stop
    /// the clock. An unchanged interval keeps the clock's phase; a new or
    /// changed one first fires at `now`.
    pub fn update_frame_clock(&mut self, surface_id: u16, interval: Option<u64>, now: u64)
        ensures
            match interval {
                Some(iv) if iv > 0 => {
                    &&& old(self).view().contains_key(surface_id) && old(self).view()[surface_id].0
                        == iv ==> final(self).view() == old(self).view()
                    &&& !(old(self).view().contains_key(surface_id) && old(self).view()[surface_id].0
                        == iv) ==> final(self).view() == old(self).view().insert(
                        surface_id,
                        (iv, now),
                    )
                },
                _ => final(self).view() == old(self).view().remove(surface_id),
            },
    {
        proof {
            use_type_invariant(&*self);
        }
        let ghost old_entries = self.entries@;
        let pos = position_of(&self.entries, surface_id);
        let iv = match interval {
            Some(iv) => iv,
            None => 0,
        };
        proof {
            lemma_map_domain(old_entries, surface_id);
        }
        if let Some(i) = pos {
            proof {
                lemma_map_lookup(old_entries, i as int);
            }
            if iv == 0 {
                let mut entries: Vec<FrameClockEntry> = Vec::new();
                std::mem::swap(&mut entries, &mut self.entries);
                entries.remove(i);
                proof {
                    lemma_remove_map(old_entries, i as int);
                }
                self.entries = entries;
            } else if self.entries[i].interval != iv {
                let mut entries: Vec<FrameClockEntry> = Vec::new();
                std::mem::swap(&mut entries, &mut self.entries);
                let e = FrameClockEntry { surface_id, interval: iv, next: now };
                entries.set(i, e);
                proof {
                    lemma_set_map(old_entries, i as int, e);
                }
                self.entries = entries;
            }
        } else {
            if iv == 0 {
                proof {
                    assert(!entries_map(old_entries).contains_key(surface_id));
                    assert(entries_map(old_entries).remove(surface_id) =~= entries_map(
                        old_entries,
                    ));
                }
            } else {
                let mut entries: Vec<FrameClockEntry> = Vec::new();
                std::mem::swap(&mut entries, &mut self.entries);
                let e = FrameClockEntry { surface_id, interval: iv, next: now };
                entries.push(e);
                proof {
                    assert(entries@.drop_last() == old_entries);
                    assert(entries_wf(entries@)) by {
                        assert forall|a: int, b: int|
                            0 <= a < b < entries@.len() implies entries@[a].surface_id
                            != entries@[b].surface_id by {
                            if b == entries@.len() - 1 {
                                assert(old_entries[a].surface_id != surface_id);
                            }
                        }
                    }
                }
                self.entries = entries;
            }
        }
    }

    /// The earliest deadline of any clock, or `None` with no clocks.
    pub fn earliest_deadline(&self) -> (earliest: Option<u64>)
        ensures
            match earliest {
                Some(d) => {
                    &&& exists|i: int| 0 <= i < self.entries().len() && self.entries()[i].next == d
                    &&& forall|i: int| 0 <= i < self.entries().len() ==> d <= self.entries()[i].next
                },
                None => self.entries().len() == 0,
            },
    {
        if self.entries.len() == 0 {
            return None;
        }
        let mut best: usize = 0;
        let mut i: usize = 1;
        while i < self.entries.len()
            invariant
                1 <= i <= self.entries@.len(),
                best < i,
                forall|k: int| 0 <= k < i ==> self.entries@[best as int].next <= self.entries@[k].next,
            decreases self.entries@.len() - i,
        {
            if self.entries[i].next < self.entries[best].next {
                best = i;
            }
            i += 1;
        }
        proof {
            assert(self.entries()[best as int].next == self.entries@[best as int].next);
        }
        Some(self.entries[best].next)
    }

    /// One pass of the clock thread at `now`: every clock whose deadline has
    /// come presents one tick and moves to its next deadline. Returns the
    /// `(surface, presentation point)` requests in clock order.
    pub fn take_due(&mut self, now: u64) -> (requests: Vec<(u16, u64)>)
        requires
            forall|i: int|
                0 <= i < old(self).entries().len() && old(self).entries()[i].next <= now
                    ==> clock_next_deadline(
                    old(self).entries()[i].next,
                    now,
                    old(self).entries()[i].interval,
                ) <= u64::MAX,
        ensures
            requests@ == due_requests(old(self).entries(), now),
            final(self).entries().len() == old(self).entries().len(),
            forall|i: int|
                0 <= i < old(self).entries().len() ==> final(self).entries()[i] == clock_after_pass(
                    old(self).entries()[i],
                    now,
                ),
    {
        proof {
            use_type_invariant(&*self);
        }
        let ghost old_entries = self.entries@;
        assert(old_entries == old(self).entries());
        let mut entries: Vec<FrameClockEntry> = Vec::new();
        std::mem::swap(&mut entries, &mut self.entries);
        let mut requests: Vec<(u16, u64)> = Vec::new();
        let mut i: usize = 0;
        while i < entries.len()
            invariant
                0 <= i <= entries@.len(),
                entries@.len() == old_entries.len(),
                entries_wf(old_entries),
                forall|j: int| 0 <= j < i ==> entries@[j] == clock_after_pass(old_entries[j], now),
                forall|j: int| i <= j < entries@.len() ==> entries@[j] == old_entries[j],
                forall|j: int|
                    0 <= j < old_entries.len() && old_entries[j].next <= now ==> clock_next_deadline(
                        old_entries[j].next,
                        now,
                        old_entries[j].interval,
                    ) <= u64::MAX,
                requests@ == due_requests(old_entries.take(i as int), now),
            decreases entries@.len() - i,
        {
            let e = entries[i];
            proof {
                assert(old_entries.take(i + 1).drop_last() == old_entries.take(i as int));
                assert(old_entries.take(i + 1).last() == old_entries[i as int]);
            }
            if e.next <= now {
                let mut next = e.next;
                let presentation_at = consume_frame_clock_deadline(&mut next, now, e.interval);
                entries.set(i, FrameClockEntry { next, ..e });
                requests.push((e.surface_id, presentation_at));
            }
            i += 1;
        }
        proof {
            assert(old_entries.take(old_entries.len() as int) == old_entries);
            assert(entries_wf(entries@)) by {
                assert forall|a: int, b: int|
                    0 <= a < b < entries@.len() implies entries@[a].surface_id
                    != entries@[b].surface_id by {
                    assert(entries@[a].surface_id == old_entries[a].surface_id);
                    assert(entries@[b].surface_id == old_entries[b].surface_id);
                }
            }
        }
        self.entries = entries;
        requests
    }
}

proof fn lemma_remove_map(entries: Seq<FrameClockEntry>, i: int)
    requires
        entries_wf(entries),
        0 <= i < entries.len(),
    ensures
        entries_wf(entries.remove(i)),
        entries_map(entries.remove(i)) == entries_map(entries).remove(entries[i].surface_id),
    decreases entries.len(),
{
    let r = entries.remove(i);
    assert(entries_wf(r)) by {
        assert forall|a: int, b: int| 0 <= a < b < r.len() implies r[a].surface_id
            != r[b].surface_id by {
            let a2 = if a < i {
                a
            } else {
                a + 1
            };
            let b2 = if b < i {
                b
            } else {
                b + 1
            };
            assert(r[a] == entries[a2]);
            assert(r[b] == entries[b2]);
        }
    }
    if i == entries.len() - 1 {
        assert(r == entries.drop_last());
        lemma_map_domain(entries.drop_last(), entries[i].surface_id);
        assert(!entries_map(entries.drop_last()).contains_key(entries[i].surface_id));
        assert(entries_map(r) =~= entries_map(entries).remove(entries[i].surface_id));
    } else {
        let d = entries.drop_last();
        assert(entries_wf(d));
        lemma_remove_map(d, i);
        assert(r.drop_last() == d.remove(i));
        assert(r.last() == entries.last());
        assert(entries_map(r) =~= entries_map(entries).remove(entries[i].surface_id));
    }
}

proof fn lemma_set_map(entries: Seq<FrameClockEntry>, i: int, e: FrameClockEntry)
    requires
        entries_wf(entries),
        0 <= i < entries.len(),
        e.surface_id == entries[i].surface_id,
        e.interval > 0,
    ensures
        entries_wf(entries.update(i, e)),
        entries_map(entries.update(i, e)) == entries_map(entries).insert(
            e.surface_id,
            (e.interval, e.next),
        ),
    decreases entries.len(),
{
    let u = entries.update(i, e);
    assert(entries_wf(u)) by {
        assert forall|a: int, b: int| 0 <= a < b < u.len() implies u[a].surface_id
            != u[b].surface_id by {
            assert(u[a].surface_id == entries[a].surface_id);
            assert(u[b].surface_id == entries[b].surface_id);
        }
    }
    if i == entries.len() - 1 {
        assert(u.drop_last() == entries.drop_last());
        assert(entries_map(u) =~= entries_map(entries).insert(e.surface_id, (e.interval, e.next)));
    } else {
        let d = entries.drop_last();
        lemma_set_map(d, i, e);
        assert(u.drop_last() == d.update(i, e));
        assert(u.last() == entries.last());
        assert(entries.last().surface_id != e.surface_id);
        assert(entries_map(u) =~= entries_map(entries).insert(e.surface_id, (e.interval, e.next)));
    }
}

} // verus!
