//! Live direct-touch contacts: each browser contact `(owner, id)` holds one
//! `wl_touch` id from touch-down to touch-up, and ids are reused lowest
//! first, as a physical touchscreen does.
use vstd::prelude::*;
use crate::seat::{allocate_touch_id, touch_id_live};

verus! {

/// One live contact and the surface it went down on.
pub struct TouchContact<T> {
    pub owner: u64,
    pub browser_id: i32,
    pub wayland_id: i32,
    pub surface_id: u16,
    pub target: T,
}

/// A contact as a plain value: `(owner, browser id, wl_touch id, surface)`.
pub open spec fn contact_view<T>(c: TouchContact<T>) -> (u64, i32, i32, u16) {
    (c.owner, c.browser_id, c.wayland_id, c.surface_id)
}

/// No browser contact is live twice, no `wl_touch` id is held twice, and
/// every id is non-negative.
pub open spec fn contacts_wf(s: Seq<(u64, i32, i32, u16)>) -> bool {
    &&& forall|i: int, j: int|
        0 <= i < j < s.len() ==> (s[i].0, s[i].1) != (s[j].0, s[j].1) && s[i].2 != s[j].2
    &&& forall|i: int| 0 <= i < s.len() ==> s[i].2 >= 0
}

/// Whether contact `(owner, browser_id)` is live in `s`.
pub open spec fn has_contact(s: Seq<(u64, i32, i32, u16)>, owner: u64, browser_id: i32) -> bool {
    exists|i: int| 0 <= i < s.len() && s[i].0 == owner && s[i].1 == browser_id
}

/// The `wl_touch` ids held in `s`.
pub open spec fn held_ids(s: Seq<(u64, i32, i32, u16)>) -> Seq<i32> {
    s.map_values(|c: (u64, i32, i32, u16)| c.2)
}

/// Whether a contact belongs to the owner being retired (`None`: all).
pub open spec fn retired_by(c: (u64, i32, i32, u16), owner: Option<u64>) -> bool {
    match owner {
        None => true,
        Some(o) => c.0 == o,
    }
}

/// The contacts of `s` that survive retiring `owner`, in order.
pub open spec fn surviving(s: Seq<(u64, i32, i32, u16)>, owner: Option<u64>) -> Seq<(u64, i32, i32, u16)>
    decreases s.len(),
{
    if s.len() == 0 {
        s
    } else {
        let prev = surviving(s.drop_last(), owner);
        if retired_by(s.last(), owner) {
            prev
        } else {
            prev.push(s.last())
        }
    }
}

/// The ids of the contacts of `s` that retiring `owner` removes, in order.
pub open spec fn retired_ids(s: Seq<(u64, i32, i32, u16)>, owner: Option<u64>) -> Seq<i32>
    decreases s.len(),
{
    if s.len() == 0 {
        Seq::empty()
    } else {
        let prev = retired_ids(s.drop_last(), owner);
        if retired_by(s.last(), owner) {
            prev.push(s.last().2)
        } else {
            prev
        }
    }
}

proof fn lemma_surviving_from(s: Seq<(u64, i32, i32, u16)>, owner: Option<u64>, a: int)
    requires
        0 <= a < surviving(s, owner).len(),
    ensures
        !retired_by(surviving(s, owner)[a], owner),
        exists|i: int| 0 <= i < s.len() && s[i] == surviving(s, owner)[a],
    decreases s.len(),
{
    let t = s.drop_last();
    let pf = surviving(t, owner);
    if a < pf.len() {
        lemma_surviving_from(t, owner, a);
        let i = choose|i: int| 0 <= i < t.len() && t[i] == pf[a];
        assert(s[i] == surviving(s, owner)[a]);
    } else {
        assert(s[s.len() - 1] == surviving(s, owner)[a]);
    }
}

proof fn lemma_surviving_order(s: Seq<(u64, i32, i32, u16)>, owner: Option<u64>, a: int, b: int)
    requires
        0 <= a < b < surviving(s, owner).len(),
    ensures
        exists|i: int, j: int|
            0 <= i < j < s.len() && s[i] == surviving(s, owner)[a] && s[j] == surviving(s, owner)[b],
    decreases s.len(),
{
    let t = s.drop_last();
    let pf = surviving(t, owner);
    if b < pf.len() {
        lemma_surviving_order(t, owner, a, b);
        let (i, j) = choose|i: int, j: int| 0 <= i < j < t.len() && t[i] == pf[a] && t[j] == pf[b];
        assert(s[i] == surviving(s, owner)[a] && s[j] == surviving(s, owner)[b]);
    } else {
        lemma_surviving_from(t, owner, a);
        let i = choose|i: int| 0 <= i < t.len() && t[i] == pf[a];
        assert(s[i] == surviving(s, owner)[a] && s[s.len() - 1] == surviving(s, owner)[b]);
    }
}

proof fn lemma_surviving_wf(s: Seq<(u64, i32, i32, u16)>, owner: Option<u64>)
    requires
        contacts_wf(s),
    ensures
        contacts_wf(surviving(s, owner)),
        forall|k: int| 0 <= k < surviving(s, owner).len() ==> !retired_by(#[trigger] surviving(s, owner)[k], owner),
{
    let f = surviving(s, owner);
    assert forall|a: int, b: int| 0 <= a < b < f.len() implies (f[a].0, f[a].1) != (f[b].0, f[b].1) && f[a].2 != f[b].2 by {
        lemma_surviving_order(s, owner, a, b);
    }
    assert forall|a: int| 0 <= a < f.len() implies f[a].2 >= 0 && !retired_by(f[a], owner) by {
        lemma_surviving_from(s, owner, a);
    }
    assert forall|k: int| 0 <= k < f.len() implies !retired_by(#[trigger] f[k], owner) by {
        lemma_surviving_from(s, owner, k);
    }
}

/// The targets of the contacts of `s` that retiring `owner` removes, in
/// order.
pub open spec fn retired_targets<T>(s: Seq<TouchContact<T>>, owner: Option<u64>) -> Seq<T>
    decreases s.len(),
{
    if s.len() == 0 {
        Seq::empty()
    } else {
        let prev = retired_targets(s.drop_last(), owner);
        if retired_by(contact_view(s.last()), owner) {
            prev.push(s.last().target)
        } else {
            prev
        }
    }
}

/// Every live contact.
pub struct TouchContacts<T> {
    contacts: Vec<TouchContact<T>>,
}

impl<T> TouchContacts<T> {
    /// The live contacts, in touch-down order.
    pub closed spec fn entries(&self) -> Seq<TouchContact<T>> {
        self.contacts@
    }

    /// The live contacts as plain values, in touch-down order.
    pub open spec fn view(&self) -> Seq<(u64, i32, i32, u16)> {
        self.entries().map_values(|c: TouchContact<T>| contact_view(c))
    }

    #[verifier::type_invariant]
    closed spec fn wf(&self) -> bool {
        contacts_wf(self.view())
    }

    /// No contacts.
    pub fn new() -> (t: Self)
        ensures
            t.view() == Seq::<(u64, i32, i32, u16)>::empty(),
    {
        let t = TouchContacts { contacts: Vec::new() };
        proof {
            assert(t.view() =~= Seq::<(u64, i32, i32, u16)>::empty());
        }
        t
    }

    /// Whether no contact is live; and in every state, no contact and no
    /// `wl_touch` id is live twice.
    pub fn is_empty(&self) -> (empty: bool)
        ensures
            empty == (self.view().len() == 0),
            contacts_wf(self.view()),
    {
        proof {
            use_type_invariant(self);
        }
        self.contacts.len() == 0
    }

    fn position(&self, owner: u64, browser_id: i32) -> (pos: Option<usize>)
        ensures
            match pos {
                Some(i) => i < self.view().len() && self.view()[i as int].0 == owner
                    && self.view()[i as int].1 == browser_id,
                None => !has_contact(self.view(), owner, browser_id),
            },
    {
        let mut i: usize = 0;
        while i < self.contacts.len()
            invariant
                0 <= i <= self.contacts@.len(),
                forall|k: int|
                    0 <= k < i ==> !(self.view()[k].0 == owner && self.view()[k].1 == browser_id),
            decreases self.contacts@.len() - i,
        {
            if self.contacts[i].owner == owner && self.contacts[i].browser_id == browser_id {
                return Some(i);
            }
            i += 1;
        }
        None
    }

    /// Whether any contact of `owner` (`None`: of anyone) is live.
    pub fn has_contacts(&self, owner: Option<u64>) -> (any: bool)
        ensures
            any == exists|i: int| 0 <= i < self.view().len() && retired_by(self.view()[i], owner),
    {
        let mut i: usize = 0;
        while i < self.contacts.len()
            invariant
                0 <= i <= self.contacts@.len(),
                forall|k: int| 0 <= k < i ==> !retired_by(self.view()[k], owner),
            decreases self.contacts@.len() - i,
        {
            let c = &self.contacts[i];
            let hit = match owner {
                None => true,
                Some(o) => c.owner == o,
            };
            if hit {
                proof {
                    assert(retired_by(self.view()[i as int], owner));
                }
                return true;
            }
            i += 1;
        }
        false
    }

    /// A touch-down: a contact already live is ignored (`None`); a new one
    /// takes the lowest free `wl_touch` id.
    pub fn down(&mut self, owner: u64, browser_id: i32, surface_id: u16, target: T) -> (id: Option<i32>)
        requires
            old(self).view().len() < i32::MAX,
        ensures
            has_contact(old(self).view(), owner, browser_id) ==> id is None && final(self).entries()
                == old(self).entries(),
            !has_contact(old(self).view(), owner, browser_id) ==> (id matches Some(w) && w >= 0
                && !touch_id_live(held_ids(old(self).view()), w as int) && (forall|j: int|
                0 <= j < w ==> touch_id_live(held_ids(old(self).view()), j)) && final(self).entries()
                == old(self).entries().push(
                TouchContact { owner, browser_id, wayland_id: w, surface_id, target },
            )),
    {
        proof {
            use_type_invariant(&*self);
        }
        if let Some(_) = self.position(owner, browser_id) {
            return None;
        }
        let ghost before = self.view();
        let mut live: Vec<i32> = Vec::new();
        let mut i: usize = 0;
        while i < self.contacts.len()
            invariant
                0 <= i <= self.contacts@.len(),
                before == self.view(),
                live@ == held_ids(before).subrange(0, i as int),
            decreases self.contacts@.len() - i,
        {
            live.push(self.contacts[i].wayland_id);
            proof {
                assert(live@ =~= held_ids(before).subrange(0, i + 1));
            }
            i += 1;
        }
        proof {
            assert(live@ =~= held_ids(before));
        }
        let w = allocate_touch_id(live.as_slice());
        let mut contacts: Vec<TouchContact<T>> = Vec::new();
        std::mem::swap(&mut contacts, &mut self.contacts);
        contacts.push(TouchContact { owner, browser_id, wayland_id: w, surface_id, target });
        proof {
            let v = contacts@.map_values(|c: TouchContact<T>| contact_view(c));
            assert(v =~= before.push((owner, browser_id, w, surface_id)));
            assert forall|a: int, b: int| 0 <= a < b < v.len() implies (v[a].0, v[a].1) != (v[b].0, v[b].1) && v[a].2 != v[b].2 by {
                if b == v.len() - 1 {
                    assert(v[a] == before[a]);
                    assert(held_ids(before)[a] == v[a].2);
                }
            }
        }
        self.contacts = contacts;
        Some(w)
    }

    /// The `wl_touch` id and surface of a live contact, for its motion.
    pub fn motion(&self, owner: u64, browser_id: i32) -> (found: Option<(i32, u16, &T)>)
        ensures
            match found {
                Some((w, sid, target)) => exists|i: int|
                    0 <= i < self.view().len() && self.view()[i] == (owner, browser_id, w, sid)
                        && *target == self.entries()[i].target,
                None => !has_contact(self.view(), owner, browser_id),
            },
    {
        match self.position(owner, browser_id) {
            Some(i) => {
                let c = &self.contacts[i];
                Some((c.wayland_id, c.surface_id, &c.target))
            },
            None => None,
        }
    }

    /// A touch-up: the contact ends and gives back its id, surface and
    /// target; an unknown contact yields `None`.
    pub fn up(&mut self, owner: u64, browser_id: i32) -> (ended: Option<(i32, u16, T)>)
        ensures
            !has_contact(old(self).view(), owner, browser_id) ==> ended is None && final(self).entries()
                == old(self).entries(),
            has_contact(old(self).view(), owner, browser_id) ==> exists|i: int|
                0 <= i < old(self).view().len() && old(self).view()[i].0 == owner && old(
                    self,
                ).view()[i].1 == browser_id && (ended matches Some((w, sid, t)) && w == old(
                    self,
                ).view()[i].2 && sid == old(self).view()[i].3 && t == old(self).entries()[i].target)
                    && final(self).entries() == old(self).entries().remove(i),
            !has_contact(final(self).view(), owner, browser_id),
    {
        proof {
            use_type_invariant(&*self);
        }
        let i = match self.position(owner, browser_id) {
            Some(i) => i,
            None => return None,
        };
        let ghost before = self.view();
        let mut contacts: Vec<TouchContact<T>> = Vec::new();
        std::mem::swap(&mut contacts, &mut self.contacts);
        let c = contacts.remove(i);
        proof {
            let v = contacts@.map_values(|c: TouchContact<T>| contact_view(c));
            assert(v =~= before.remove(i as int));
            assert forall|a: int, b: int| 0 <= a < b < v.len() implies (v[a].0, v[a].1) != (v[b].0, v[b].1) && v[a].2 != v[b].2 by {
                let a0 = if a < i { a } else { a + 1 };
                let b0 = if b < i { b } else { b + 1 };
                assert(v[a] == before[a0] && v[b] == before[b0]);
            }
            assert forall|k: int| 0 <= k < v.len() implies !(v[k].0 == owner && v[k].1 == browser_id) by {
                let k0 = if k < i { k } else { k + 1 };
                assert(v[k] == before[k0]);
            }
        }
        self.contacts = contacts;
        Some((c.wayland_id, c.surface_id, c.target))
    }

    /// Retire every contact of `owner` (`None`: everyone's), returning
    /// their targets in touch-down order.
    pub fn retire(&mut self, owner: Option<u64>) -> (targets: Vec<T>)
        ensures
            final(self).view() == surviving(old(self).view(), owner),
            targets@ == retired_targets(old(self).entries(), owner),
            forall|i: int| 0 <= i < final(self).view().len() ==> !retired_by(#[trigger] final(self).view()[i], owner),
    {
        proof {
            use_type_invariant(&*self);
        }
        let ghost before = self.view();
        let mut rest: Vec<TouchContact<T>> = Vec::new();
        std::mem::swap(&mut rest, &mut self.contacts);
        let total = rest.len();
        let ghost orig = rest@;
        assert(orig.len() == total);
        let mut kept: Vec<TouchContact<T>> = Vec::new();
        let mut gone: Vec<T> = Vec::new();
        let mut n: usize = 0;
        while rest.len() > 0
            invariant
                orig.map_values(|c: TouchContact<T>| contact_view(c)) == before,
                orig.len() <= usize::MAX,
                0 <= n <= orig.len(),
                rest@ == orig.subrange(n as int, orig.len() as int),
                kept@.map_values(|c: TouchContact<T>| contact_view(c)) == surviving(before.subrange(0, n as int), owner),
                gone@ == retired_targets(orig.subrange(0, n as int), owner),
            decreases rest@.len(),
        {
            let c = rest.remove(0);
            proof {
                assert(c == orig[n as int]);
                assert(before.subrange(0, n + 1).drop_last() =~= before.subrange(0, n as int));
                assert(before.subrange(0, n + 1).last() == contact_view(c));
                assert(orig.subrange(0, n + 1).drop_last() =~= orig.subrange(0, n as int));
                assert(orig.subrange(0, n + 1).last() == c);
            }
            let retire = match owner {
                None => true,
                Some(o) => c.owner == o,
            };
            let ghost kept_before = kept@;
            if retire {
                gone.push(c.target);
            } else {
                kept.push(c);
                proof {
                    assert(kept@.map_values(|c: TouchContact<T>| contact_view(c)) =~= kept_before.map_values(
                        |c: TouchContact<T>| contact_view(c),
                    ).push(contact_view(c)));
                }
            }
            n += 1;
            proof {
                assert(rest@ =~= orig.subrange(n as int, orig.len() as int));
            }
        }
        proof {
            assert(before.subrange(0, n as int) =~= before);
            assert(orig.subrange(0, n as int) =~= orig);
            lemma_surviving_wf(before, owner);
        }
        self.contacts = kept;
        gone
    }
}

} // verus!
