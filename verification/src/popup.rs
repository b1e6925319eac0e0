//! Popup grabs and the keyboard focus they take.
//!
//! A popup that grabs goes on top of the grab stack and takes the keyboard
//! from whatever held it; when it goes away the keyboard returns to the
//! popup still grabbing beneath it, or to the focused toplevel. Popups are
//! named by handles the caller assigns.
use vstd::prelude::*;

verus! {

/// A keyboard focus move: `leave` the first holder, `enter` the second;
/// `None` stands for the focused toplevel.
#[derive(Clone, Copy, Debug, PartialEq, Eq, Structural)]
pub struct FocusMove {
    pub leave: Option<u64>,
    pub enter: Option<u64>,
}

/// `s` without `id`.
pub open spec fn without(s: Seq<u64>, id: u64) -> Seq<u64>
    decreases s.len(),
{
    if s.len() == 0 {
        s
    } else {
        let prev = without(s.drop_last(), id);
        if s.last() == id {
            prev
        } else {
            prev.push(s.last())
        }
    }
}

/// The top of a stack, if any.
pub open spec fn top(s: Seq<u64>) -> Option<u64> {
    if s.len() == 0 {
        None
    } else {
        Some(s.last())
    }
}

/// No popup is on the stack twice, and a popup holding the keyboard is
/// one that grabs.
pub open spec fn grabs_wf(stack: Seq<u64>, focus: Option<u64>) -> bool {
    &&& forall|i: int, j: int| 0 <= i < j < stack.len() ==> stack[i] != stack[j]
    &&& focus matches Some(f) ==> stack.contains(f)
}

/// The state after `grab(id)`.
pub open spec fn spec_grab(stack: Seq<u64>, focus: Option<u64>, id: u64) -> (Seq<u64>, Option<u64>) {
    (without(stack, id).push(id), Some(id))
}

/// The state after `release(id)`: off the stack, and the keyboard handed
/// to the popup now on top (or the toplevel) when `id` held it.
pub open spec fn spec_release(stack: Seq<u64>, focus: Option<u64>, id: u64) -> (Seq<u64>, Option<u64>) {
    let rest = without(stack, id);
    (rest, if focus == Some(id) {
        top(rest)
    } else {
        focus
    })
}

proof fn lemma_without(s: Seq<u64>, id: u64)
    ensures
        !without(s, id).contains(id),
        without(s, id).len() <= s.len(),
        forall|x: u64| x != id ==> (#[trigger] without(s, id).contains(x) <==> s.contains(x)),
        (forall|i: int, j: int| 0 <= i < j < s.len() ==> s[i] != s[j]) ==> forall|i: int, j: int|
            0 <= i < j < without(s, id).len() ==> without(s, id)[i] != without(s, id)[j],
        !s.contains(id) ==> without(s, id) == s,
    decreases s.len(),
{
    if s.len() > 0 {
        let t = s.drop_last();
        lemma_without(t, id);
        let w = without(s, id);
        let wt = without(t, id);
        assert forall|x: u64| x != id implies (#[trigger] w.contains(x) <==> s.contains(x)) by {
            if s.contains(x) {
                let k = choose|k: int| 0 <= k < s.len() && s[k] == x;
                if k < s.len() - 1 {
                    assert(t[k] == x);
                    assert(wt.contains(x));
                    let m = choose|m: int| 0 <= m < wt.len() && wt[m] == x;
                    if s.last() != id {
                        assert(w[m] == x);
                    }
                } else {
                    assert(w[w.len() - 1] == x);
                }
            }
            if w.contains(x) {
                let m = choose|m: int| 0 <= m < w.len() && w[m] == x;
                if s.last() != id && m == w.len() - 1 {
                    assert(s[s.len() - 1] == x);
                } else {
                    assert(wt[m] == x);
                    assert(wt.contains(x));
                    let k = choose|k: int| 0 <= k < t.len() && t[k] == x;
                    assert(s[k] == x);
                }
            }
        }
        if forall|i: int, j: int| 0 <= i < j < s.len() ==> s[i] != s[j] {
            assert(forall|i: int, j: int| 0 <= i < j < t.len() ==> t[i] != t[j]) by {
                assert forall|i: int, j: int| 0 <= i < j < t.len() implies t[i] != t[j] by {
                    assert(t[i] == s[i] && t[j] == s[j]);
                }
            }
            if s.last() != id {
                assert(!t.contains(s.last())) by {
                    if t.contains(s.last()) {
                        let k = choose|k: int| 0 <= k < t.len() && t[k] == s.last();
                        assert(s[k] == s[s.len() - 1]);
                    }
                }
                assert(!wt.contains(s.last()));
                assert forall|i: int, j: int| 0 <= i < j < w.len() implies w[i] != w[j] by {
                    if j == w.len() - 1 {
                        assert(wt[i] == w[i]);
                        assert(wt.contains(w[i]));
                    } else {
                        assert(wt[i] == w[i] && wt[j] == w[j]);
                    }
                }
            }
        }
        if !s.contains(id) {
            assert(!t.contains(id)) by {
                if t.contains(id) {
                    let k = choose|k: int| 0 <= k < t.len() && t[k] == id;
                    assert(s[k] == id);
                }
            }
            assert(s.last() != id) by {
                assert(s[s.len() - 1] == s.last());
            }
            assert(w =~= t.push(s.last()));
            assert(t.push(s.last()) =~= s);
        }
    }
}

/// Whether the popup holding the keyboard sits at index `i` or above.
pub open spec fn focus_at_or_above(stack: Seq<u64>, focus: Option<u64>, i: int) -> bool {
    focus matches Some(f) && exists|j: int| i <= j < stack.len() && stack[j] == f
}

/// The keyboard holder once the stack has been popped down to its first
/// `m` popups, topmost first.
pub open spec fn focus_after_pops(stack: Seq<u64>, focus: Option<u64>, m: int) -> Option<u64> {
    if focus_at_or_above(stack, focus, m) {
        if m > 0 {
            Some(stack[m - 1])
        } else {
            None
        }
    } else {
        focus
    }
}

/// What popping the popup at index `i` of a full dismissal reports.
pub open spec fn dismissal(stack: Seq<u64>, focus: Option<u64>, i: int) -> (u64, Option<FocusMove>) {
    (
        stack[i],
        if focus_at_or_above(stack, focus, i) {
            Some(
                FocusMove {
                    leave: Some(stack[i]),
                    enter: if i > 0 {
                        Some(stack[i - 1])
                    } else {
                        None
                    },
                },
            )
        } else {
            None
        },
    )
}

proof fn lemma_focus_at(stack: Seq<u64>, focus: Option<u64>, i: int)
    requires
        grabs_wf(stack, focus),
        0 <= i < stack.len(),
    ensures
        (focus_after_pops(stack, focus, i + 1) == Some(stack[i])) == focus_at_or_above(stack, focus, i),
        !focus_at_or_above(stack, focus, i) ==> focus_after_pops(stack, focus, i) == focus_after_pops(
            stack,
            focus,
            i + 1,
        ),
{
    if focus_at_or_above(stack, focus, i + 1) {
        let j = choose|j: int| i + 1 <= j < stack.len() && stack[j] == focus->0;
        assert(focus_at_or_above(stack, focus, i));
    } else {
        if let Some(f) = focus {
            let j = choose|j: int| 0 <= j < stack.len() && stack[j] == f;
            if j >= i {
                assert(j == i);
                assert(focus_at_or_above(stack, focus, i));
            } else {
                if focus_at_or_above(stack, focus, i) {
                    let j2 = choose|j2: int| i <= j2 < stack.len() && stack[j2] == f;
                    assert(stack[j] == stack[j2]);
                }
                assert(stack[j] != stack[i]);
            }
        }
    }
}

/// The popup grab stack, topmost last, and the popup holding the keyboard.
pub struct PopupGrabs {
    stack: Vec<u64>,
    focus: Option<u64>,
}

fn remove_id(stack: &Vec<u64>, id: u64) -> (rest: Vec<u64>)
    ensures
        rest@ == without(stack@, id),
{
    let mut rest: Vec<u64> = Vec::new();
    let mut i: usize = 0;
    while i < stack.len()
        invariant
            0 <= i <= stack@.len(),
            rest@ == without(stack@.subrange(0, i as int), id),
        decreases stack@.len() - i,
    {
        proof {
            assert(stack@.subrange(0, i + 1).drop_last() =~= stack@.subrange(0, i as int));
        }
        if stack[i] != id {
            rest.push(stack[i]);
        }
        i += 1;
    }
    proof {
        assert(stack@.subrange(0, stack@.len() as int) =~= stack@);
    }
    rest
}

fn copy_stack(stack: &Vec<u64>) -> (copy: Vec<u64>)
    ensures
        copy@ == stack@,
{
    let mut copy: Vec<u64> = Vec::new();
    let mut i: usize = 0;
    while i < stack.len()
        invariant
            0 <= i <= stack@.len(),
            copy@ == stack@.subrange(0, i as int),
        decreases stack@.len() - i,
    {
        copy.push(stack[i]);
        proof {
            assert(copy@ =~= stack@.subrange(0, i + 1));
        }
        i += 1;
    }
    proof {
        assert(copy@ =~= stack@);
    }
    copy
}

impl PopupGrabs {
    #[verifier::type_invariant]
    closed spec fn wf(&self) -> bool {
        grabs_wf(self.stack@, self.focus)
    }

    /// The grabbing popups, bottom first.
    pub closed spec fn stack(&self) -> Seq<u64> {
        self.stack@
    }

    /// The popup holding the keyboard; `None` when the toplevel has it.
    pub closed spec fn focus(&self) -> Option<u64> {
        self.focus
    }

    /// No grabs.
    pub fn new() -> (g: Self)
        ensures
            g.stack() == Seq::<u64>::empty(),
            g.focus() is None,
    {
        PopupGrabs { stack: Vec::new(), focus: None }
    }

    /// The popup holding the keyboard, if one does; and in every state no
    /// popup grabs twice and a popup with the keyboard is one that grabs.
    pub fn keyboard_popup(&self) -> (f: Option<u64>)
        ensures
            f == self.focus(),
            grabs_wf(self.stack(), self.focus()),
    {
        proof {
            use_type_invariant(self);
        }
        self.focus
    }

    /// Whether any popup grabs.
    pub fn is_empty(&self) -> (empty: bool)
        ensures
            empty == (self.stack().len() == 0),
    {
        self.stack.len() == 0
    }

    /// Whether `id` grabs.
    pub fn contains(&self, id: u64) -> (grabbing: bool)
        ensures
            grabbing == self.stack().contains(id),
    {
        let mut i: usize = 0;
        while i < self.stack.len()
            invariant
                0 <= i <= self.stack@.len(),
                forall|k: int| 0 <= k < i ==> self.stack@[k] != id,
            decreases self.stack@.len() - i,
        {
            if self.stack[i] == id {
                proof {
                    assert(self.stack@[i as int] == id);
                }
                return true;
            }
            i += 1;
        }
        false
    }

    /// `xdg_popup.grab`: the popup moves to the top of the stack and takes
    /// the keyboard, unless it already holds it.
    pub fn grab(&mut self, id: u64) -> (moved: Option<FocusMove>)
        ensures
            (final(self).stack(), final(self).focus()) == spec_grab(old(self).stack(), old(self).focus(), id),
            moved == if old(self).focus() == Some(id) {
                None
            } else {
                Some(FocusMove { leave: old(self).focus(), enter: Some(id) })
            },
    {
        proof {
            use_type_invariant(&*self);
            lemma_without(self.stack@, id);
        }
        let mut rest = remove_id(&self.stack, id);
        rest.push(id);
        let moved = if self.focus == Some(id) {
            None
        } else {
            Some(FocusMove { leave: self.focus, enter: Some(id) })
        };
        proof {
            let w = without(self.stack@, id);
            assert(rest@ == w.push(id));
            assert forall|i: int, j: int| 0 <= i < j < rest@.len() implies rest@[i] != rest@[j] by {
                if j == rest@.len() - 1 {
                    assert(w.contains(rest@[i]));
                }
            }
            assert(rest@[rest@.len() - 1] == id);
        }
        *self = PopupGrabs { stack: rest, focus: Some(id) };
        moved
    }

    /// A popup destroyed or unmapped: off the stack, and when it held the
    /// keyboard, the keyboard moves to the popup still grabbing beneath it
    /// or to the toplevel.
    pub fn release(&mut self, id: u64) -> (moved: Option<FocusMove>)
        ensures
            (final(self).stack(), final(self).focus()) == spec_release(old(self).stack(), old(self).focus(), id),
            moved == if old(self).focus() == Some(id) {
                Some(FocusMove { leave: Some(id), enter: final(self).focus() })
            } else {
                None
            },
    {
        proof {
            use_type_invariant(&*self);
            lemma_without(self.stack@, id);
        }
        let rest = remove_id(&self.stack, id);
        let focus_here = self.focus == Some(id);
        let next = if focus_here {
            if rest.len() == 0 {
                None
            } else {
                Some(rest[rest.len() - 1])
            }
        } else {
            self.focus
        };
        proof {
            if let Some(n) = next {
                if focus_here {
                    assert(rest@[rest@.len() - 1] == n);
                } else {
                    assert(self.stack@.contains(n));
                }
            }
        }
        *self = PopupGrabs { stack: rest, focus: next };
        if focus_here {
            Some(FocusMove { leave: Some(id), enter: next })
        } else {
            None
        }
    }

    /// A client clicked or touched outside the popup chain: tear the
    /// whole stack down, topmost first. Returns each popup with the focus
    /// move its removal makes, in that order: once the popup holding the
    /// keyboard is reached, each removal hands it to the popup beneath, and
    /// the last to the toplevel.
    pub fn dismiss_all(&mut self) -> (dismissed: Vec<(u64, Option<FocusMove>)>)
        ensures
            final(self).stack().len() == 0,
            final(self).focus() is None,
            dismissed@.len() == old(self).stack().len(),
            forall|k: int|
                0 <= k < dismissed@.len() ==> (#[trigger] dismissed@[k]) == dismissal(
                    old(self).stack(),
                    old(self).focus(),
                    old(self).stack().len() - 1 - k,
                ),
    {
        proof {
            use_type_invariant(&*self);
        }
        let ghost orig = self.stack@;
        let ghost f0 = self.focus;
        let mut stack = copy_stack(&self.stack);
        let mut focus = self.focus;
        let mut out: Vec<(u64, Option<FocusMove>)> = Vec::new();
        while stack.len() > 0
            invariant
                stack@ == orig.subrange(0, orig.len() - out@.len()),
                out@.len() <= orig.len(),
                grabs_wf(orig, f0),
                focus == focus_after_pops(orig, f0, orig.len() - out@.len()),
                forall|k: int|
                    0 <= k < out@.len() ==> (#[trigger] out@[k]) == dismissal(orig, f0, orig.len() - 1 - k),
            decreases stack@.len(),
        {
            let n = stack.len();
            let id = stack[n - 1];
            let ghost i = (n - 1) as int;
            proof {
                assert(orig[i] == id);
                lemma_focus_at(orig, f0, i);
            }
            stack.pop();
            let moved = if focus == Some(id) {
                let next = if stack.len() == 0 {
                    None
                } else {
                    Some(stack[stack.len() - 1])
                };
                focus = next;
                Some(FocusMove { leave: Some(id), enter: next })
            } else {
                None
            };
            proof {
                assert(stack@ =~= orig.subrange(0, orig.len() - out@.len() - 1));
                if i > 0 {
                    assert(stack@[i - 1] == orig[i - 1]);
                }
            }
            let ghost before_out = out@;
            out.push((id, moved));
            proof {
                assert forall|k: int| 0 <= k < out@.len() implies (#[trigger] out@[k]) == dismissal(orig, f0, orig.len() - 1 - k) by {
                    if k < out@.len() - 1 {
                        assert(out@[k] == before_out[k]);
                    }
                }
            }
        }
        *self = PopupGrabs { stack, focus: None };
        out
    }

    /// The client behind a popup died without destroying it: off the stack;
    /// when it held the keyboard, the next holder is entered (there is no
    /// one left to leave).
    pub fn surface_died(&mut self, id: u64) -> (enter: Option<Option<u64>>)
        ensures
            (final(self).stack(), final(self).focus()) == spec_release(old(self).stack(), old(self).focus(), id),
            enter == if old(self).focus() == Some(id) {
                Some(final(self).focus())
            } else {
                None
            },
    {
        match self.release(id) {
            Some(m) => Some(m.enter),
            None => None,
        }
    }
}

/// Closing a submenu returns the keyboard to its parent menu: a popup
/// grabbed on top of the menu holding the keyboard, then released, leaves
/// the stack and the keyboard as they were.
pub proof fn lemma_grab_then_release_restores(stack: Seq<u64>, focus: Option<u64>, id: u64)
    requires
        grabs_wf(stack, focus),
        !stack.contains(id),
        focus == top(stack),
    ensures
        ({
            let (s1, f1) = spec_grab(stack, focus, id);
            spec_release(s1, f1, id) == (stack, focus)
        }),
{
    lemma_without(stack, id);
    let s1 = stack.push(id);
    assert(without(stack, id).push(id) == s1);
    assert(s1.drop_last() =~= stack);
    assert(without(s1, id) == without(stack, id));
}

/// Releasing a popup that does not hold the keyboard leaves the keyboard
/// where it is, and a released popup no longer grabs.
pub proof fn lemma_release_spares_other_focus(stack: Seq<u64>, focus: Option<u64>, id: u64)
    requires
        grabs_wf(stack, focus),
    ensures
        !spec_release(stack, focus, id).0.contains(id),
        focus != Some(id) ==> spec_release(stack, focus, id).1 == focus,
        grabs_wf(spec_release(stack, focus, id).0, spec_release(stack, focus, id).1),
{
    lemma_without(stack, id);
    let rest = without(stack, id);
    if focus == Some(id) {
        if rest.len() > 0 {
            assert(rest.contains(rest.last())) by {
                assert(rest[rest.len() - 1] == rest.last());
            }
        }
    }
}

} // verus!
