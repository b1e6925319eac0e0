//! The screens (`wl_output` globals) offered to clients: one screen per
//! toplevel, each visible to one client only, so two windows of one
//! application can render at two densities.
//!
//! A screen outlives the window on it: every client is offered one empty
//! screen up front, its first toplevel claims it, and a client's last
//! screen is emptied rather than withdrawn when its window goes. Clients
//! are numbered by the caller.
use vstd::prelude::*;

verus! {

/// One published screen: its number, the client it is offered to, and the
/// toplevel on it.
#[derive(Clone, Copy, Debug, PartialEq, Eq, Structural)]
pub struct OutputSlot {
    pub slot: u32,
    pub owner: u64,
    pub surface_id: Option<u16>,
}

/// No two screens share a number, and no toplevel is on two screens.
pub open spec fn screens_wf(s: Seq<OutputSlot>) -> bool {
    &&& forall|i: int, j: int| 0 <= i < j < s.len() ==> s[i].slot != s[j].slot
    &&& forall|i: int, j: int|
        0 <= i < j < s.len() && s[i].surface_id is Some ==> s[i].surface_id != s[j].surface_id
}

/// Whether some screen in `s` holds `surface_id`.
pub open spec fn surface_on_screen(s: Seq<OutputSlot>, surface_id: u16) -> bool {
    exists|i: int| 0 <= i < s.len() && s[i].surface_id == Some(surface_id)
}

/// Whether some screen in `s` is offered to `owner`.
pub open spec fn owner_has_screen(s: Seq<OutputSlot>, owner: u64) -> bool {
    exists|i: int| 0 <= i < s.len() && s[i].owner == owner
}

/// The screens of `s` that satisfy `keep`, in order.
pub open spec fn keep(s: Seq<OutputSlot>, keep_it: spec_fn(OutputSlot) -> bool) -> Seq<OutputSlot>
    decreases s.len(),
{
    if s.len() == 0 {
        s
    } else {
        let prev = keep(s.drop_last(), keep_it);
        if keep_it(s.last()) {
            prev.push(s.last())
        } else {
            prev
        }
    }
}

/// Screens not numbered `slot`.
pub open spec fn other_slot(slot: u32) -> spec_fn(OutputSlot) -> bool {
    |e: OutputSlot| e.slot != slot
}

/// Screens not offered to `owner`.
pub open spec fn other_owner(owner: u64) -> spec_fn(OutputSlot) -> bool {
    |e: OutputSlot| e.owner != owner
}

/// `s` without the screens numbered `slot`.
pub open spec fn without_slot(s: Seq<OutputSlot>, slot: u32) -> Seq<OutputSlot> {
    keep(s, other_slot(slot))
}

/// The numbers of the screens in `s` offered to `owner`, in order.
pub open spec fn slots_of(s: Seq<OutputSlot>, owner: u64) -> Seq<u32>
    decreases s.len(),
{
    if s.len() == 0 {
        Seq::empty()
    } else {
        let prev = slots_of(s.drop_last(), owner);
        if s.last().owner == owner {
            prev.push(s.last().slot)
        } else {
            prev
        }
    }
}

/// Where `claim_output_for_surface` put a toplevel.
#[derive(Clone, Copy, Debug, PartialEq, Eq, Structural)]
pub enum Claim {
    /// It already had a screen; nothing changed.
    AlreadyOnScreen,
    /// It took the client's empty screen with this number.
    Reused(u32),
    /// A new screen with this number was published for it.
    Created(u32),
}

/// What `release_output_for_surface` did.
#[derive(Clone, Copy, Debug, PartialEq, Eq, Structural)]
pub enum Release {
    /// The toplevel held no screen of its own.
    NotOnScreen,
    /// Its screen was the client's last one: emptied and kept.
    Emptied(u32),
    /// Its screen was withdrawn.
    Withdrawn(u32),
}

/// Every published screen, in publication order.
pub struct OutputSlots {
    slots: Vec<OutputSlot>,
    next_slot: u32,
}

impl View for OutputSlots {
    type V = Seq<OutputSlot>;

    closed spec fn view(&self) -> Seq<OutputSlot> {
        self.slots@
    }
}

fn find_surface(slots: &Vec<OutputSlot>, surface_id: u16) -> (pos: Option<usize>)
    ensures
        match pos {
            Some(i) => i < slots@.len() && slots@[i as int].surface_id == Some(surface_id),
            None => !surface_on_screen(slots@, surface_id),
        },
{
    let mut i: usize = 0;
    while i < slots.len()
        invariant
            0 <= i <= slots@.len(),
            forall|j: int| 0 <= j < i ==> slots@[j].surface_id != Some(surface_id),
        decreases slots@.len() - i,
    {
        if slots[i].surface_id == Some(surface_id) {
            return Some(i);
        }
        i += 1;
    }
    None
}

/// The index of the first screen offered to `owner` that is empty (when
/// `empty_only`) or any of its screens.
fn find_owner(slots: &Vec<OutputSlot>, owner: u64, empty_only: bool) -> (pos: Option<usize>)
    ensures
        match pos {
            Some(i) => i < slots@.len() && slots@[i as int].owner == owner && (empty_only
                ==> slots@[i as int].surface_id is None) && forall|j: int|
                0 <= j < i ==> !(slots@[j].owner == owner && (empty_only ==> slots@[j].surface_id is None)),
            None => forall|j: int|
                0 <= j < slots@.len() ==> !(slots@[j].owner == owner && (empty_only
                    ==> slots@[j].surface_id is None)),
        },
{
    let mut i: usize = 0;
    while i < slots.len()
        invariant
            0 <= i <= slots@.len(),
            forall|j: int|
                0 <= j < i ==> !(slots@[j].owner == owner && (empty_only ==> slots@[j].surface_id is None)),
        decreases slots@.len() - i,
    {
        if slots[i].owner == owner && (!empty_only || slots[i].surface_id.is_none()) {
            return Some(i);
        }
        i += 1;
    }
    None
}

/// Kept screens satisfy the predicate and come from `s`.
proof fn lemma_keep_from(s: Seq<OutputSlot>, keep_it: spec_fn(OutputSlot) -> bool, a: int)
    requires
        0 <= a < keep(s, keep_it).len(),
    ensures
        keep_it(keep(s, keep_it)[a]),
        exists|i: int| 0 <= i < s.len() && s[i] == keep(s, keep_it)[a],
    decreases s.len(),
{
    let t = s.drop_last();
    let pf = keep(t, keep_it);
    if a < pf.len() {
        lemma_keep_from(t, keep_it, a);
        let i = choose|i: int| 0 <= i < t.len() && t[i] == pf[a];
        assert(s[i] == keep(s, keep_it)[a]);
    } else {
        assert(s[s.len() - 1] == keep(s, keep_it)[a]);
    }
}

/// Kept screens keep their order.
proof fn lemma_keep_order(s: Seq<OutputSlot>, keep_it: spec_fn(OutputSlot) -> bool, a: int, b: int)
    requires
        0 <= a < b < keep(s, keep_it).len(),
    ensures
        exists|i: int, j: int|
            0 <= i < j < s.len() && s[i] == keep(s, keep_it)[a] && s[j] == keep(s, keep_it)[b],
    decreases s.len(),
{
    let t = s.drop_last();
    let pf = keep(t, keep_it);
    if b < pf.len() {
        lemma_keep_order(t, keep_it, a, b);
        let (i, j) = choose|i: int, j: int| 0 <= i < j < t.len() && t[i] == pf[a] && t[j] == pf[b];
        assert(s[i] == keep(s, keep_it)[a] && s[j] == keep(s, keep_it)[b]);
    } else {
        lemma_keep_from(t, keep_it, a);
        let i = choose|i: int| 0 <= i < t.len() && t[i] == pf[a];
        assert(s[i] == keep(s, keep_it)[a] && s[s.len() - 1] == keep(s, keep_it)[b]);
    }
}

/// Every screen of `s` that satisfies the predicate is kept.
proof fn lemma_keep_complete(s: Seq<OutputSlot>, keep_it: spec_fn(OutputSlot) -> bool, i: int)
    requires
        0 <= i < s.len(),
        keep_it(s[i]),
    ensures
        exists|a: int| 0 <= a < keep(s, keep_it).len() && keep(s, keep_it)[a] == s[i],
    decreases s.len(),
{
    let t = s.drop_last();
    let f = keep(s, keep_it);
    if i < s.len() - 1 {
        assert(t[i] == s[i]);
        lemma_keep_complete(t, keep_it, i);
        let a = choose|a: int| 0 <= a < keep(t, keep_it).len() && keep(t, keep_it)[a] == t[i];
        assert(f[a] == s[i]);
    } else {
        assert(f[f.len() - 1] == s[i]);
    }
}

/// Dropping screens keeps the screens well formed.
proof fn lemma_keep_wf(s: Seq<OutputSlot>, keep_it: spec_fn(OutputSlot) -> bool)
    requires
        screens_wf(s),
    ensures
        screens_wf(keep(s, keep_it)),
{
    let f = keep(s, keep_it);
    assert forall|a: int, b: int| 0 <= a < b < f.len() implies f[a].slot != f[b].slot && (
    f[a].surface_id is Some ==> f[a].surface_id != f[b].surface_id) by {
        lemma_keep_order(s, keep_it, a, b);
    }
}

impl OutputSlots {
    #[verifier::type_invariant]
    closed spec fn wf(&self) -> bool {
        screens_wf(self.slots@)
    }

    /// The number the next published screen gets.
    pub closed spec fn next_slot(&self) -> u32 {
        self.next_slot
    }

    /// No screens; the first one published is number 0.
    pub fn new() -> (s: Self)
        ensures
            s@ == Seq::<OutputSlot>::empty(),
            s.next_slot() == 0,
    {
        OutputSlots { slots: Vec::new(), next_slot: 0 }
    }

    /// Every screen holds at most one toplevel and no toplevel is on two
    /// screens: what every operation here keeps.
    pub fn screens(&self) -> (s: &Vec<OutputSlot>)
        ensures
            s@ == self@,
            screens_wf(self@),
    {
        proof {
            use_type_invariant(self);
        }
        &self.slots
    }

    /// The screen a toplevel is on, if any.
    pub fn slot_of_surface(&self, surface_id: u16) -> (slot: Option<u32>)
        ensures
            match slot {
                Some(n) => exists|i: int|
                    0 <= i < self@.len() && self@[i].slot == n && self@[i].surface_id == Some(surface_id),
                None => !surface_on_screen(self@, surface_id),
            },
    {
        match find_surface(&self.slots, surface_id) {
            Some(i) => {
                assert(self@[i as int] == self.slots@[i as int]);
                Some(self.slots[i].slot)
            },
            None => None,
        }
    }

    /// The first screen offered to `owner`, if any: the shared screen of
    /// the X11 bridge.
    pub fn first_slot_of(&self, owner: u64) -> (slot: Option<u32>)
        ensures
            match slot {
                Some(n) => exists|i: int|
                    0 <= i < self@.len() && self@[i].slot == n && self@[i].owner == owner,
                None => !owner_has_screen(self@, owner),
            },
    {
        match find_owner(&self.slots, owner, false) {
            Some(i) => {
                assert(self@[i as int] == self.slots@[i as int]);
                Some(self.slots[i].slot)
            },
            None => None,
        }
    }

    /// Publish a screen for `owner`, replacing any screen that already had
    /// the next number.
    fn create(&mut self, owner: u64, surface_id: Option<u16>) -> (slot: u32)
        requires
            surface_id matches Some(sid) ==> !surface_on_screen(old(self)@, sid),
        ensures
            slot == old(self).next_slot,
            final(self).next_slot == old(self).next_slot.wrapping_add(1),
            final(self)@ == without_slot(old(self)@, slot).push(
                OutputSlot { slot, owner, surface_id },
            ),
    {
        proof {
            use_type_invariant(&*self);
        }
        let slot = self.next_slot;
        let ghost before = self.slots@;
        let mut slots: Vec<OutputSlot> = Vec::new();
        std::mem::swap(&mut slots, &mut self.slots);
        let mut kept: Vec<OutputSlot> = Vec::new();
        let mut i: usize = 0;
        while i < slots.len()
            invariant
                0 <= i <= slots@.len(),
                slots@ == before,
                kept@ == without_slot(before.subrange(0, i as int), slot),
            decreases slots@.len() - i,
        {
            let e = slots[i];
            proof {
                assert(before.subrange(0, i + 1).drop_last() =~= before.subrange(0, i as int));
            }
            if e.slot != slot {
                kept.push(e);
            }
            i += 1;
        }
        proof {
            assert(before.subrange(0, before.len() as int) =~= before);
            lemma_keep_wf(before, other_slot(slot));
        }
        let entry = OutputSlot { slot, owner, surface_id };
        kept.push(entry);
        proof {
            let f = without_slot(before, slot);
            assert(kept@ == f.push(entry));
            assert forall|a: int, b: int| 0 <= a < b < kept@.len() implies kept@[a].slot != kept@[b].slot && (kept@[a].surface_id is Some ==> kept@[a].surface_id != kept@[b].surface_id) by {
                if b == kept@.len() - 1 {
                    assert(kept@[a] == f[a]);
                    lemma_keep_from(before, other_slot(slot), a);
                    let k = choose|k: int| 0 <= k < before.len() && before[k] == f[a];
                }
            }
        }
        self.slots = kept;
        self.next_slot = self.next_slot.wrapping_add(1);
        slot
    }

    /// Guarantee a client a screen before it has a window: publish an
    /// empty one unless it already has one. Returns the new screen.
    pub fn ensure_client_output(&mut self, owner: u64) -> (created: Option<u32>)
        ensures
            owner_has_screen(final(self)@, owner),
            owner_has_screen(old(self)@, owner) ==> created is None && final(self)@ == old(self)@
                && final(self).next_slot() == old(self).next_slot(),
            !owner_has_screen(old(self)@, owner) ==> created == Some(old(self).next_slot())
                && final(self)@ == without_slot(old(self)@, old(self).next_slot()).push(
                OutputSlot { slot: old(self).next_slot(), owner, surface_id: None },
            ) && final(self).next_slot() == old(self).next_slot().wrapping_add(1),
    {
        if let Some(i) = find_owner(&self.slots, owner, false) {
            return None;
        }
        let slot = self.create(owner, None);
        proof {
            let n = self.slots@.len() - 1;
            assert(self.slots@[n].owner == owner);
        }
        Some(slot)
    }

    /// Put a toplevel on a screen: the client's empty one when it has one,
    /// a newly published one otherwise. A toplevel that already has a
    /// screen keeps it.
    pub fn claim_output_for_surface(&mut self, surface_id: u16, owner: u64) -> (claim: Claim)
        ensures
            surface_on_screen(final(self)@, surface_id),
            surface_on_screen(old(self)@, surface_id) ==> claim == Claim::AlreadyOnScreen
                && final(self)@ == old(self)@ && final(self).next_slot() == old(self).next_slot(),
            !surface_on_screen(old(self)@, surface_id) ==> match claim {
                Claim::Reused(n) => exists|i: int|
                    0 <= i < old(self)@.len() && old(self)@[i].slot == n && old(self)@[i].owner
                        == owner && old(self)@[i].surface_id is None && (forall|j: int|
                        0 <= j < i ==> !(old(self)@[j].owner == owner && old(self)@[j].surface_id is None))
                        && final(self)@ == old(self)@.update(
                        i,
                        OutputSlot { slot: n, owner, surface_id: Some(surface_id) },
                    ) && final(self).next_slot() == old(self).next_slot(),
                Claim::Created(n) => n == old(self).next_slot() && (forall|i: int|
                    0 <= i < old(self)@.len() ==> !(old(self)@[i].owner == owner && old(
                        self,
                    )@[i].surface_id is None)) && final(self)@ == without_slot(old(self)@, n).push(
                    OutputSlot { slot: n, owner, surface_id: Some(surface_id) },
                ) && final(self).next_slot() == old(self).next_slot().wrapping_add(1),
                Claim::AlreadyOnScreen => false,
            },
    {
        proof {
            use_type_invariant(&*self);
        }
        if let Some(i) = find_surface(&self.slots, surface_id) {
            return Claim::AlreadyOnScreen;
        }
        match find_owner(&self.slots, owner, true) {
            Some(i) => {
                let n = self.slots[i].slot;
                let entry = OutputSlot { slot: n, owner, surface_id: Some(surface_id) };
                let ghost before = self.slots@;
                let mut slots: Vec<OutputSlot> = Vec::new();
                std::mem::swap(&mut slots, &mut self.slots);
                slots.set(i, entry);
                proof {
                    assert(slots@ == before.update(i as int, entry));
                    assert forall|a: int, b: int| 0 <= a < b < slots@.len() implies slots@[a].slot != slots@[b].slot && (slots@[a].surface_id is Some ==> slots@[a].surface_id != slots@[b].surface_id) by {
                        if a != i && b != i {
                            assert(slots@[a] == before[a] && slots@[b] == before[b]);
                        }
                    }
                    assert(slots@[i as int].surface_id == Some(surface_id));
                }
                self.slots = slots;
                Claim::Reused(n)
            },
            None => {
                let n = self.create(owner, Some(surface_id));
                proof {
                    let k = self.slots@.len() - 1;
                    assert(self.slots@[k].surface_id == Some(surface_id));
                }
                Claim::Created(n)
            },
        }
    }

    /// Take a toplevel off its screen, and withdraw the screen unless it is
    /// the client's last one, which is emptied and kept: an app that closes
    /// its only window may open another.
    pub fn release_output_for_surface(&mut self, surface_id: u16) -> (release: Release)
        ensures
            !surface_on_screen(final(self)@, surface_id),
            final(self).next_slot() == old(self).next_slot(),
            forall|o: u64| owner_has_screen(old(self)@, o) ==> owner_has_screen(final(self)@, o),
            !surface_on_screen(old(self)@, surface_id) ==> release == Release::NotOnScreen
                && final(self)@ == old(self)@,
            surface_on_screen(old(self)@, surface_id) ==> exists|i: int|
                0 <= i < old(self)@.len() && old(self)@[i].surface_id == Some(surface_id) && ({
                    let e = old(self)@[i];
                    let shared = exists|j: int|
                        0 <= j < old(self)@.len() && j != i && old(self)@[j].owner == e.owner;
                    &&& shared ==> release == Release::Withdrawn(e.slot) && final(self)@ == old(
                        self,
                    )@.remove(i)
                    &&& !shared ==> release == Release::Emptied(e.slot) && final(self)@ == old(
                        self,
                    )@.update(i, OutputSlot { surface_id: None, ..e })
                }),
    {
        proof {
            use_type_invariant(&*self);
        }
        let i = match find_surface(&self.slots, surface_id) {
            Some(i) => i,
            None => return Release::NotOnScreen,
        };
        let e = self.slots[i];
        let ghost before = self.slots@;
        let mut shared = false;
        let mut j: usize = 0;
        while j < self.slots.len()
            invariant
                0 <= j <= before.len(),
                self.slots@ == before,
                i < before.len(),
                e == before[i as int],
                shared <==> exists|k: int| 0 <= k < j && k != i && before[k].owner == e.owner,
            decreases before.len() - j,
        {
            if j != i && self.slots[j].owner == e.owner {
                shared = true;
            }
            j += 1;
        }
        let mut slots: Vec<OutputSlot> = Vec::new();
        std::mem::swap(&mut slots, &mut self.slots);
        if shared {
            slots.remove(i);
            proof {
                assert(slots@ == before.remove(i as int));
                assert forall|a: int, b: int| 0 <= a < b < slots@.len() implies slots@[a].slot != slots@[b].slot && (slots@[a].surface_id is Some ==> slots@[a].surface_id != slots@[b].surface_id) by {
                    let a0 = if a < i { a } else { a + 1 };
                    let b0 = if b < i { b } else { b + 1 };
                    assert(slots@[a] == before[a0] && slots@[b] == before[b0]);
                }
                assert forall|k: int| 0 <= k < slots@.len() implies slots@[k].surface_id != Some(surface_id) by {
                    let k0 = if k < i { k } else { k + 1 };
                    assert(slots@[k] == before[k0]);
                }
                assert forall|o: u64| owner_has_screen(before, o) implies owner_has_screen(slots@, o) by {
                    let k = choose|k: int| 0 <= k < before.len() && before[k].owner == o;
                    let k1 = if k == i {
                        choose|m: int| 0 <= m < before.len() && m != i && before[m].owner == e.owner
                    } else {
                        k
                    };
                    let k2 = if k1 < i { k1 } else { k1 - 1 };
                    assert(slots@[k2] == before[k1]);
                }
            }
            self.slots = slots;
            Release::Withdrawn(e.slot)
        } else {
            let emptied = OutputSlot { surface_id: None, ..e };
            slots.set(i, emptied);
            proof {
                assert(slots@ == before.update(i as int, emptied));
                assert forall|a: int, b: int| 0 <= a < b < slots@.len() implies slots@[a].slot != slots@[b].slot && (slots@[a].surface_id is Some ==> slots@[a].surface_id != slots@[b].surface_id) by {
                    if a != i && b != i {
                        assert(slots@[a] == before[a] && slots@[b] == before[b]);
                    }
                }
                assert forall|k: int| 0 <= k < slots@.len() implies slots@[k].surface_id != Some(surface_id) by {
                    if k != i {
                        assert(slots@[k] == before[k]);
                    }
                }
                assert forall|o: u64| owner_has_screen(before, o) implies owner_has_screen(slots@, o) by {
                    let k = choose|k: int| 0 <= k < before.len() && before[k].owner == o;
                    assert(slots@[k].owner == o);
                }
            }
            self.slots = slots;
            Release::Emptied(e.slot)
        }
    }

    /// Drop every screen of a client that has gone, returning their
    /// numbers in publication order.
    pub fn remove_client(&mut self, owner: u64) -> (removed: Vec<u32>)
        ensures
            final(self)@ == keep(old(self)@, other_owner(owner)),
            removed@ == slots_of(old(self)@, owner),
            final(self).next_slot() == old(self).next_slot(),
            !owner_has_screen(final(self)@, owner),
    {
        proof {
            use_type_invariant(&*self);
        }
        let ghost before = self.slots@;
        let mut slots: Vec<OutputSlot> = Vec::new();
        std::mem::swap(&mut slots, &mut self.slots);
        let mut kept: Vec<OutputSlot> = Vec::new();
        let mut gone: Vec<u32> = Vec::new();
        let mut i: usize = 0;
        while i < slots.len()
            invariant
                0 <= i <= slots@.len(),
                slots@ == before,
                kept@ == keep(before.subrange(0, i as int), other_owner(owner)),
                gone@ == slots_of(before.subrange(0, i as int), owner),
            decreases slots@.len() - i,
        {
            let e = slots[i];
            proof {
                assert(before.subrange(0, i + 1).drop_last() =~= before.subrange(0, i as int));
            }
            if e.owner != owner {
                kept.push(e);
            } else {
                gone.push(e.slot);
            }
            i += 1;
        }
        proof {
            assert(before.subrange(0, before.len() as int) =~= before);
            lemma_keep_wf(before, other_owner(owner));
            assert forall|k: int| 0 <= k < kept@.len() implies kept@[k].owner != owner by {
                lemma_keep_from(before, other_owner(owner), k);
            }
        }
        self.slots = kept;
        gone
    }
}

/// The integer scale a `wl_output` can name for a density in 120ths:
/// rounded up from version 2 on, 1 before it.
pub open spec fn spec_output_scale(scale_120: i32, version: u32) -> int {
    if version >= 2 {
        (scale_120 + 119) / 120
    } else {
        1
    }
}

/// The mode and scale a screen announces for a logical size at a density:
/// the mode is the logical size times the integer scale, so a toolkit that
/// divides the mode by the scale gets the logical size back.
pub fn output_mode(logical_w: i32, logical_h: i32, scale_120: i32, version: u32) -> (mode: (i32, i32, i32))
    requires
        0 <= scale_120 <= i32::MAX - 119,
        logical_w * spec_output_scale(scale_120, version) <= i32::MAX,
        logical_w * spec_output_scale(scale_120, version) >= i32::MIN,
        logical_h * spec_output_scale(scale_120, version) <= i32::MAX,
        logical_h * spec_output_scale(scale_120, version) >= i32::MIN,
    ensures
        mode.2 == spec_output_scale(scale_120, version),
        scale_120 >= 1 ==> mode.2 >= 1,
        mode.0 == logical_w * mode.2,
        mode.1 == logical_h * mode.2,
{
    let scale: i32 = if version >= 2 {
        (scale_120 + 119) / 120
    } else {
        1
    };
    (logical_w * scale, logical_h * scale, scale)
}

} // verus!
