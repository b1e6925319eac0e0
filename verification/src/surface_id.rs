//! Wire-visible toplevel ids: a cyclic scan over the non-zero `u16` values.
use vstd::prelude::*;

verus! {

/// Where a scan seeded with `from` begins: 0 is reserved as "no surface".
pub open spec fn scan_start(from: u16) -> u16 {
    if from == 0 {
        1
    } else {
        from
    }
}

/// The id that follows `id` in the cycle `1, 2, ..., u16::MAX, 1, ...`.
pub open spec fn spec_next_surface_id(id: u16) -> u16 {
    if id == u16::MAX {
        1
    } else {
        (id + 1) as u16
    }
}

/// How many steps a scan starting at `start` takes to reach `id`; both are
/// non-zero ids, and the cycle has `u16::MAX` of them.
pub open spec fn scan_offset(start: u16, id: u16) -> int {
    (id as int - start as int + 65535) % 65535
}

/// The id to try after `id`, wrapping past `u16::MAX` back to 1.
pub fn next_surface_id_after(id: u16) -> (next: u16)
    ensures
        next == spec_next_surface_id(id),
        next != 0,
{
    if id == u16::MAX {
        1
    } else {
        id + 1
    }
}

/// The id reached from `id` after `k` steps of the cycle.
pub open spec fn surface_id_steps(id: u16, k: nat) -> u16
    decreases k,
{
    if k == 0 {
        id
    } else {
        spec_next_surface_id(surface_id_steps(id, (k - 1) as nat))
    }
}

proof fn lemma_surface_id_steps_closed(id: u16, k: nat)
    requires
        id != 0,
    ensures
        surface_id_steps(id, k) as int == (id as int - 1 + k) % 65535 + 1,
    decreases k,
{
    if k > 0 {
        lemma_surface_id_steps_closed(id, (k - 1) as nat);
        let prev = (id as int - 1 + k - 1) % 65535;
        assert(0 <= prev < 65535);
        if prev == 65534 {
            assert((id as int - 1 + k) % 65535 == 0);
        } else {
            assert((id as int - 1 + k) % 65535 == prev + 1);
        }
    }
}

/// The id cycle covers every id but 0: from any non-zero id, `u16::MAX`
/// steps return to it, the steps before that visit each non-zero id
/// exactly once, and none of them is 0.
pub proof fn lemma_surface_id_cycle(id: u16)
    requires
        id != 0,
    ensures
        surface_id_steps(id, 65535) == id,
        forall|k: nat| k < 65535 ==> #[trigger] surface_id_steps(id, k) != 0,
        forall|j: nat, k: nat|
            j < 65535 && k < 65535 && #[trigger] surface_id_steps(id, j) == #[trigger] surface_id_steps(id, k)
                ==> j == k,
        forall|t: u16| t != 0 ==> #[trigger] surface_id_steps(id, scan_offset(id, t) as nat) == t,
{
    lemma_surface_id_steps_closed(id, 65535);
    assert forall|k: nat| k < 65535 implies #[trigger] surface_id_steps(id, k) != 0 by {
        lemma_surface_id_steps_closed(id, k);
    }
    assert forall|j: nat, k: nat|
        j < 65535 && k < 65535 && #[trigger] surface_id_steps(id, j) == #[trigger] surface_id_steps(id, k)
            implies j == k by {
        lemma_surface_id_steps_closed(id, j);
        lemma_surface_id_steps_closed(id, k);
        let a = id as int - 1;
        assert(0 <= a < 65535);
        if a + j < 65535 && a + k >= 65535 {
            assert((a + k) % 65535 == a + k - 65535);
        } else if a + j >= 65535 && a + k < 65535 {
            assert((a + j) % 65535 == a + j - 65535);
        } else if a + j >= 65535 && a + k >= 65535 {
            assert((a + j) % 65535 == a + j - 65535);
            assert((a + k) % 65535 == a + k - 65535);
        }
    }
    assert forall|t: u16| t != 0 implies #[trigger] surface_id_steps(id, scan_offset(id, t) as nat) == t by {
        let k = scan_offset(id, t);
        assert(0 <= k < 65535);
        lemma_surface_id_steps_closed(id, k as nat);
        let a = id as int - 1;
        if t >= id {
            assert(k == t - id);
        } else {
            assert(k == t - id + 65535);
        }
    }
}

proof fn lemma_scan_offset_step(start: u16, id: u16)
    requires
        start != 0,
        id != 0,
    ensures
        scan_offset(start, spec_next_surface_id(id)) == (scan_offset(start, id) + 1) % 65535,
        0 <= scan_offset(start, id) < 65535,
        scan_offset(start, start) == 0,
        scan_offset(start, id) == 0 ==> id == start,
{
}

/// Scan for a free surface id starting at `from`, wrapping past `u16::MAX`
/// and skipping 0 (reserved as "no surface"). `None` when every non-zero id
/// is taken.
///
/// `Some(id)`: `id` is non-zero, `taken` answered `false` for it, and every
/// id the scan passed before it was answered `true`. `None`: `taken`
/// answered `true` for every non-zero id.
pub fn scan_free_surface_id(from: u16, taken: impl Fn(u16) -> bool) -> (found: Option<u16>)
    requires
        forall|id: u16| id != 0 ==> taken.requires((id,)),
    ensures
        match found {
            Some(id) => {
                &&& id != 0
                &&& taken.ensures((id,), false)
                &&& forall|x: u16|
                    x != 0 && scan_offset(scan_start(from), x) < scan_offset(scan_start(from), id)
                        ==> taken.ensures((x,), true)
            },
            None => forall|x: u16| x != 0 ==> taken.ensures((x,), true),
        },
{
    let start = if from == 0 {
        1
    } else {
        from
    };
    let mut id = start;
    loop
        invariant
            start == scan_start(from),
            start != 0,
            id != 0,
            forall|x: u16| x != 0 ==> taken.requires((x,)),
            forall|x: u16|
                x != 0 && scan_offset(start, x) < scan_offset(start, id) ==> taken.ensures(
                    (x,),
                    true,
                ),
        decreases 65535 - scan_offset(start, id),
    {
        proof {
            lemma_scan_offset_step(start, id);
        }
        let is_taken = taken(id);
        if !is_taken {
            return Some(id);
        }
        let next = next_surface_id_after(id);
        proof {
            lemma_scan_offset_step(start, next);
            assert forall|x: u16|
                x != 0 && scan_offset(start, x) < scan_offset(start, next) implies taken.ensures(
                (x,),
                true,
            ) by {
                if x != id {
                    lemma_scan_offset_step(start, x);
                }
            }
        }
        if next == start {
            proof {
                assert forall|x: u16| x != 0 implies taken.ensures((x,), true) by {
                    lemma_scan_offset_step(start, x);
                    if x != id {
                        assert(scan_offset(start, x) < scan_offset(start, id));
                    }
                }
            }
            return None;
        }
        id = next;
    }
}

/// The toplevel id counter: the next id a scan starts from.
pub struct SurfaceIdAllocator {
    pub next: u16,
}

impl SurfaceIdAllocator {
    /// A fresh counter; ids are handed out from 1.
    pub fn new() -> (alloc: Self)
        ensures
            alloc.next == 1,
    {
        SurfaceIdAllocator { next: 1 }
    }

    /// Allocate a wire-visible id for a new toplevel, or `None` when every
    /// non-zero `u16` is taken. On success the counter moves past the id.
    pub fn allocate(&mut self, taken: impl Fn(u16) -> bool) -> (found: Option<u16>)
        requires
            forall|id: u16| id != 0 ==> taken.requires((id,)),
        ensures
            match found {
                Some(id) => {
                    &&& id != 0
                    &&& taken.ensures((id,), false)
                    &&& final(self).next == spec_next_surface_id(id)
                    &&& forall|x: u16|
                        x != 0 && scan_offset(scan_start(old(self).next), x) < scan_offset(
                            scan_start(old(self).next),
                            id,
                        ) ==> taken.ensures((x,), true)
                },
                None => {
                    &&& final(self).next == old(self).next
                    &&& forall|x: u16| x != 0 ==> taken.ensures((x,), true)
                },
            },
    {
        let found = scan_free_surface_id(self.next, taken);
        if let Some(id) = found {
            self.next = next_surface_id_after(id);
        }
        found
    }
}

} // verus!
