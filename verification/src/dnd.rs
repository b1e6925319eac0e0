//! Drag-and-drop action negotiation between a `wl_data_source` and the
//! `wl_data_offer` of the surface under the pointer.
//!
//! Actions are `wl_data_device_manager.dnd_action` masks: copy 1, move 2,
//! ask 4, and 0 for none.
use vstd::prelude::*;

verus! {

pub const DND_NONE: u32 = 0;
pub const DND_COPY: u32 = 1;
pub const DND_MOVE: u32 = 2;
pub const DND_ASK: u32 = 4;

/// Whether `mask` names only known actions.
pub open spec fn known_actions(mask: u32) -> bool {
    mask <= 7
}

/// Whether every action of `sub` is in `mask`.
pub open spec fn has_actions(mask: u32, sub: u32) -> bool {
    mask & sub == sub
}

/// Whether `a` is exactly one action.
pub open spec fn single_action(a: u32) -> bool {
    a == DND_COPY || a == DND_MOVE || a == DND_ASK
}

/// The negotiated action: the destination's preferred one when both sides
/// offer it, otherwise copy, move, then ask, as far as both offer them. An
/// empty destination mask has not chosen anything yet.
pub open spec fn spec_negotiate(source: u32, offer: u32, preferred: u32) -> Option<u32> {
    let both = source & offer;
    if offer == 0 {
        None
    } else if preferred != 0 && has_actions(both, preferred) {
        Some(preferred)
    } else if has_actions(both, DND_COPY) {
        Some(DND_COPY)
    } else if has_actions(both, DND_MOVE) {
        Some(DND_MOVE)
    } else if has_actions(both, DND_ASK) {
        Some(DND_ASK)
    } else {
        None
    }
}

/// Negotiate the drag-and-drop action after the destination's
/// `set_actions`.
pub fn negotiate_dnd_action(source: u32, offer: u32, preferred: u32) -> (action: Option<u32>)
    ensures
        action == spec_negotiate(source, offer, preferred),
{
    if offer == 0 {
        return None;
    }
    let both = source & offer;
    if preferred != 0 && both & preferred == preferred {
        Some(preferred)
    } else if both & DND_COPY == DND_COPY {
        Some(DND_COPY)
    } else if both & DND_MOVE == DND_MOVE {
        Some(DND_MOVE)
    } else if both & DND_ASK == DND_ASK {
        Some(DND_ASK)
    } else {
        None
    }
}

/// A negotiated action is offered by both sides, and is a single action
/// whenever the destination's preferred one is.
pub proof fn lemma_negotiated_action_is_shared(source: u32, offer: u32, preferred: u32)
    requires
        preferred == 0 || single_action(preferred),
    ensures
        spec_negotiate(source, offer, preferred) matches Some(a) ==> single_action(a) && has_actions(
            source,
            a,
        ) && has_actions(offer, a),
{
    assert forall|a: u32| #[trigger] has_actions(source & offer, a) implies has_actions(source, a)
        && has_actions(offer, a) by {
        assert((source & offer) & a == a ==> source & a == a && offer & a == a) by (bit_vector);
    }
}

/// The compositor's fallback order of actions: copy, then move, then ask.
pub open spec fn fallback_rank(a: u32) -> int {
    if a == DND_COPY {
        0
    } else if a == DND_MOVE {
        1
    } else {
        2
    }
}

/// Both sides offer the single action `a`.
pub open spec fn shared(source: u32, offer: u32, a: u32) -> bool {
    single_action(a) && source & a == a && offer & a == a
}

proof fn lemma_shared_bits(source: u32, offer: u32)
    ensures
        forall|a: u32|
            #![trigger (source & offer) & a]
            ((source & offer) & a == a) == (source & a == a && offer & a == a),
{
    assert forall|a: u32| #![trigger (source & offer) & a]
        ((source & offer) & a == a) == (source & a == a && offer & a == a) by {
        assert(((source & offer) & a == a) == (source & a == a && offer & a == a)) by (bit_vector);
    }
}

/// The negotiation's laws, for a destination that has set actions: its
/// preferred action wins when both sides offer it; otherwise the result is
/// an action both sides offer, and no action before it in the order copy,
/// move, ask is offered by both; and there is a result exactly when both
/// sides share some action (or the preferred one).
pub proof fn lemma_negotiation_order(source: u32, offer: u32, preferred: u32)
    requires
        offer != 0,
        preferred == 0 || single_action(preferred),
    ensures
        shared(source, offer, preferred) ==> spec_negotiate(source, offer, preferred) == Some(
            preferred,
        ),
        !shared(source, offer, preferred) ==> match spec_negotiate(source, offer, preferred) {
            Some(a) => shared(source, offer, a) && forall|b: u32|
                #![trigger shared(source, offer, b)]
                single_action(b) && fallback_rank(b) < fallback_rank(a) ==> !shared(source, offer, b),
            None => forall|b: u32| #![trigger shared(source, offer, b)] !shared(source, offer, b),
        },
{
    lemma_shared_bits(source, offer);
    assert((source & offer) & DND_COPY == DND_COPY <==> shared(source, offer, DND_COPY));
    assert((source & offer) & DND_MOVE == DND_MOVE <==> shared(source, offer, DND_MOVE));
    assert((source & offer) & DND_ASK == DND_ASK <==> shared(source, offer, DND_ASK));
    if preferred != 0 {
        assert((source & offer) & preferred == preferred <==> shared(source, offer, preferred));
    }
}

/// Why the destination's `set_actions` is refused.
#[derive(Clone, Copy, Debug, PartialEq, Eq, Structural)]
pub enum DndError {
    /// The mask holds an unknown action bit.
    InvalidActionMask,
    /// The preferred action is not one action of the destination's mask.
    InvalidAction,
}

/// Whether a destination's preferred action is acceptable: none, or one
/// action out of its own mask.
pub open spec fn spec_preferred_valid(actions: u32, preferred: u32) -> bool {
    preferred == 0 || (single_action(preferred) && has_actions(actions, preferred))
}

/// The actions a drag source offers at `start_drag`: copy for a client
/// older than version 3, where `set_actions` does not exist; otherwise what
/// it set, and `None` (a protocol error) when it set nothing.
pub open spec fn spec_start_drag_actions(source_version: u32, set_actions: Option<u32>) -> Option<u32> {
    if source_version < 3 {
        Some(DND_COPY)
    } else {
        set_actions
    }
}

/// The actions a drag source offers at `start_drag`.
pub fn start_drag_actions(source_version: u32, set_actions: Option<u32>) -> (actions: Option<u32>)
    ensures
        actions == spec_start_drag_actions(source_version, set_actions),
{
    if source_version < 3 {
        Some(DND_COPY)
    } else {
        set_actions
    }
}

/// The action state of the surface a drag is over.
#[derive(Clone, Copy, Debug, PartialEq, Eq, Structural)]
pub struct DragNegotiation {
    /// The source's actions.
    pub source_actions: u32,
    /// The destination's mask from `set_actions`; 0 until it sends one.
    pub offer_actions: u32,
    /// The destination's preferred action; 0 for none.
    pub preferred_action: u32,
    /// The action last negotiated.
    pub action: Option<u32>,
    /// Whether `action` has been announced to both sides.
    pub action_announced: bool,
}

/// The state on entering a surface whose offer is at `offer_version`: a
/// destination older than version 3 cannot choose, and takes copy when the
/// source offers it.
pub open spec fn spec_enter(source_actions: u32, offer_version: u32) -> DragNegotiation {
    let legacy = offer_version < 3 && has_actions(source_actions, DND_COPY);
    DragNegotiation {
        source_actions,
        offer_actions: if legacy {
            DND_COPY
        } else {
            0
        },
        preferred_action: if legacy {
            DND_COPY
        } else {
            0
        },
        action: if legacy {
            Some(DND_COPY)
        } else {
            None
        },
        action_announced: legacy,
    }
}

/// The state after renegotiating: the negotiated action, announced.
pub open spec fn spec_renegotiated(n: DragNegotiation) -> DragNegotiation {
    DragNegotiation {
        action: spec_negotiate(n.source_actions, n.offer_actions, n.preferred_action),
        action_announced: true,
        ..n
    }
}

/// Whether renegotiating has something new to announce.
pub open spec fn announcement_due(n: DragNegotiation) -> bool {
    !n.action_announced || n.action != spec_negotiate(
        n.source_actions,
        n.offer_actions,
        n.preferred_action,
    )
}

/// The mask announced for an action (`None` is announced as 0).
pub open spec fn announced_mask(action: Option<u32>) -> u32 {
    match action {
        Some(a) => a,
        None => DND_NONE,
    }
}

impl DragNegotiation {
    /// The state on entering a surface.
    pub fn enter(source_actions: u32, offer_version: u32) -> (n: DragNegotiation)
        ensures
            n == spec_enter(source_actions, offer_version),
    {
        let legacy = offer_version < 3 && source_actions & DND_COPY == DND_COPY;
        DragNegotiation {
            source_actions,
            offer_actions: if legacy {
                DND_COPY
            } else {
                0
            },
            preferred_action: if legacy {
                DND_COPY
            } else {
                0
            },
            action: if legacy {
                Some(DND_COPY)
            } else {
                None
            },
            action_announced: legacy,
        }
    }

    /// Recompute the action after the destination's `set_actions`. Returns
    /// the mask to announce to both sides when it changed or was never
    /// announced, `None` when there is nothing new to say.
    pub fn renegotiate(&mut self) -> (announce: Option<u32>)
        ensures
            announce == if announcement_due(*old(self)) {
                Some(announced_mask(spec_negotiate(old(self).source_actions, old(self).offer_actions, old(self).preferred_action)))
            } else {
                None
            },
            *final(self) == if announcement_due(*old(self)) {
                spec_renegotiated(*old(self))
            } else {
                *old(self)
            },
    {
        let new = negotiate_dnd_action(self.source_actions, self.offer_actions, self.preferred_action);
        if !self.action_announced || self.action != new {
            self.action = new;
            self.action_announced = true;
            Some(
                match new {
                    Some(a) => a,
                    None => DND_NONE,
                },
            )
        } else {
            None
        }
    }

    /// The destination's `set_actions`: refused for an unknown action bit
    /// or a preferred action outside its own mask; otherwise recorded and
    /// renegotiated, with the mask to announce, if any.
    pub fn set_destination_actions(&mut self, actions: u32, preferred: u32) -> (r: Result<
        Option<u32>,
        DndError,
    >)
        ensures
            !known_actions(actions) ==> r == Err::<Option<u32>, DndError>(
                DndError::InvalidActionMask,
            ) && *final(self) == *old(self),
            known_actions(actions) && !known_actions(preferred) ==> r == Err::<
                Option<u32>,
                DndError,
            >(DndError::InvalidAction) && *final(self) == *old(self),
            known_actions(actions) && known_actions(preferred) && !spec_preferred_valid(
                actions,
                preferred,
            ) ==> r == Err::<Option<u32>, DndError>(DndError::InvalidAction) && *final(self)
                == *old(self),
            known_actions(actions) && known_actions(preferred) && spec_preferred_valid(
                actions,
                preferred,
            ) ==> ({
                let set = DragNegotiation {
                    offer_actions: actions,
                    preferred_action: preferred,
                    ..*old(self)
                };
                &&& r == Ok::<Option<u32>, DndError>(
                    if announcement_due(set) {
                        Some(announced_mask(spec_negotiate(set.source_actions, actions, preferred)))
                    } else {
                        None
                    },
                )
                &&& *final(self) == if announcement_due(set) {
                    spec_renegotiated(set)
                } else {
                    set
                }
            }),
    {
        if actions > 7 {
            return Err(DndError::InvalidActionMask);
        }
        if preferred > 7 {
            return Err(DndError::InvalidAction);
        }
        let single = preferred == DND_COPY || preferred == DND_MOVE || preferred == DND_ASK;
        if !(preferred == 0 || (single && actions & preferred == preferred)) {
            return Err(DndError::InvalidAction);
        }
        self.offer_actions = actions;
        self.preferred_action = preferred;
        Ok(self.renegotiate())
    }

    /// Whether releasing the button drops on this destination: an action
    /// was negotiated and, from version 3 on, a MIME type accepted.
    pub fn drop_valid(&self, offer_version: u32, accepted_mime: bool) -> (valid: bool)
        ensures
            valid == (self.action is Some && (offer_version < 3 || accepted_mime)),
    {
        self.action.is_some() && (offer_version < 3 || accepted_mime)
    }

    /// Whether the destination may `finish`: the offer was dropped, a MIME
    /// type accepted, and the action is copy or move.
    pub fn finish_valid(&self, dropped: bool, accepted_mime: bool) -> (valid: bool)
        ensures
            valid == (dropped && accepted_mime && (self.action == Some(DND_COPY) || self.action
                == Some(DND_MOVE))),
    {
        dropped && accepted_mime && match self.action {
            Some(a) => a == DND_COPY || a == DND_MOVE,
            None => false,
        }
    }
}

/// Renegotiating twice in a row announces nothing the second time.
pub proof fn lemma_renegotiate_settles(n: DragNegotiation)
    ensures
        !announcement_due(spec_renegotiated(n)),
        !announcement_due(n) ==> n.action == spec_negotiate(
            n.source_actions,
            n.offer_actions,
            n.preferred_action,
        ),
{
}

} // verus!
