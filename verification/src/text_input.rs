//! The state of one `zwp_text_input_v3` object.
//!
//! Every request but `commit` names pending state; `commit` promotes it,
//! counts itself, and — while a surface is entered — is acknowledged with a
//! `done` carrying that count.
use vstd::prelude::*;
use vstd::wrapping::u32_specs::wrapping_add;

verus! {

/// `(x, y, width, height)` in surface-local logical coordinates.
pub type CursorRect = (i32, i32, i32, i32);

/// One text-input object's double-buffered state.
#[derive(Debug)]
pub struct TextInputModel {
    /// A surface is entered (requests after `leave` are ignored).
    pub entered: bool,
    /// Text input is active: `enable` and the `commit` applying it arrived.
    pub enabled: bool,
    pub pending_enabled: bool,
    /// The pending enable value was set since the last commit.
    pub pending_enabled_changed: bool,
    /// A committed enable is the app asking for an input panel.
    pub pending_show_requested: bool,
    pub content_hint: u32,
    pub content_purpose: u32,
    pub pending_content_hint: u32,
    pub pending_content_purpose: u32,
    pub pending_content_type_changed: bool,
    pub cursor_rect: Option<CursorRect>,
    pub pending_cursor_rect: Option<CursorRect>,
    /// Active preedit and its UTF-8 cursor offset.
    pub preedit: Option<(String, i32)>,
    /// How many `commit` requests this object has issued: the `done` serial.
    pub commits: u32,
}

/// What a viewer is told about a toplevel's text input after a commit.
#[derive(Clone, Copy, Debug, PartialEq, Eq)]
pub struct TextInputReport {
    pub enabled: bool,
    /// A fresh `enable` that asks for an input panel.
    pub requested: bool,
    pub hint: u32,
    pub purpose: u32,
    /// Only while enabled.
    pub cursor_rect: Option<CursorRect>,
}

/// What a `commit` owes the client and the viewers.
#[derive(Debug)]
pub struct CommitOutcome {
    /// `done` with this serial, when a surface is entered.
    pub done: Option<u32>,
    /// The preedit to restate before that `done`, so it is not erased.
    pub replay_preedit: Option<(String, i32)>,
    /// A state change worth reporting.
    pub report: Option<TextInputReport>,
}

pub open spec fn fresh_model() -> TextInputModel {
    TextInputModel {
        entered: false,
        enabled: false,
        pending_enabled: false,
        pending_enabled_changed: false,
        pending_show_requested: false,
        content_hint: 0,
        content_purpose: 0,
        pending_content_hint: 0,
        pending_content_purpose: 0,
        pending_content_type_changed: false,
        cursor_rect: None,
        pending_cursor_rect: None,
        preedit: None,
        commits: 0,
    }
}

pub open spec fn enable_step(m: TextInputModel) -> TextInputModel {
    TextInputModel {
        pending_enabled: true,
        pending_enabled_changed: true,
        pending_show_requested: true,
        pending_content_hint: 0,
        pending_content_purpose: 0,
        pending_content_type_changed: true,
        pending_cursor_rect: None,
        preedit: None,
        ..m
    }
}

pub open spec fn disable_step(m: TextInputModel) -> TextInputModel {
    TextInputModel {
        pending_enabled: false,
        pending_enabled_changed: true,
        pending_show_requested: false,
        pending_content_hint: 0,
        pending_content_purpose: 0,
        pending_content_type_changed: true,
        pending_cursor_rect: None,
        ..m
    }
}

/// The model after `commit`, with what it owes.
pub open spec fn commit_step(m: TextInputModel) -> (TextInputModel, CommitOutcome) {
    let commits = wrapping_add(m.commits, 1);
    let rect_changed = m.pending_enabled && m.pending_cursor_rect != m.cursor_rect;
    let changed = m.pending_enabled_changed || m.pending_content_type_changed || rect_changed;
    let requested = m.pending_show_requested;
    let cleared = TextInputModel {
        commits,
        pending_enabled_changed: false,
        pending_show_requested: false,
        pending_content_type_changed: false,
        ..m
    };
    if m.entered {
        let applied = TextInputModel {
            enabled: m.pending_enabled,
            content_hint: m.pending_content_hint,
            content_purpose: m.pending_content_purpose,
            cursor_rect: m.pending_cursor_rect,
            preedit: if m.pending_enabled {
                m.preedit
            } else {
                None
            },
            ..cleared
        };
        let report = if changed {
            Some(
                TextInputReport {
                    enabled: m.pending_enabled,
                    requested: requested && m.pending_enabled,
                    hint: m.pending_content_hint,
                    purpose: m.pending_content_purpose,
                    cursor_rect: if m.pending_enabled {
                        m.pending_cursor_rect
                    } else {
                        None
                    },
                },
            )
        } else {
            None
        };
        (
            applied,
            CommitOutcome { done: Some(commits), replay_preedit: applied.preedit, report },
        )
    } else {
        (cleared, CommitOutcome { done: None, replay_preedit: None, report: None })
    }
}

/// The model after the keyboard leaves its surface.
pub open spec fn leave_step(m: TextInputModel) -> TextInputModel {
    TextInputModel {
        entered: false,
        enabled: false,
        pending_enabled: false,
        pending_enabled_changed: false,
        pending_show_requested: false,
        content_hint: 0,
        content_purpose: 0,
        pending_content_hint: 0,
        pending_content_purpose: 0,
        pending_content_type_changed: false,
        cursor_rect: None,
        pending_cursor_rect: None,
        preedit: None,
        ..m
    }
}

/// The model after the keyboard enters a surface of its client.
pub open spec fn enter_step(m: TextInputModel) -> TextInputModel {
    TextInputModel {
        entered: true,
        enabled: false,
        pending_enabled: false,
        pending_enabled_changed: false,
        pending_show_requested: false,
        content_hint: 0,
        content_purpose: 0,
        pending_content_hint: 0,
        pending_content_purpose: 0,
        pending_content_type_changed: false,
        ..m
    }
}

/// The preedit cursor as sent: the requested byte offset, capped at the
/// text's length (taken, as the wire does, through `u16`).
pub open spec fn spec_preedit_cursor(cursor: u16, text_len: usize) -> i32 {
    let capped_len = if text_len > i32::MAX {
        i32::MAX as int
    } else {
        text_len as int
    };
    let len16 = capped_len % 65536;
    if (cursor as int) < len16 {
        cursor as i32
    } else {
        len16 as i32
    }
}

/// The preedit cursor sent for `cursor` into a text of `text_len` bytes.
pub fn preedit_cursor(cursor: u16, text_len: usize) -> (c: i32)
    ensures
        c == spec_preedit_cursor(cursor, text_len),
{
    let capped: usize = if text_len > 2147483647usize {
        2147483647usize
    } else {
        text_len
    };
    let len16: u16 = (capped % 65536) as u16;
    let c: u16 = if cursor < len16 {
        cursor
    } else {
        len16
    };
    c as i32
}

fn same_rect(a: Option<CursorRect>, b: Option<CursorRect>) -> (same: bool)
    ensures
        same == (a == b),
{
    match (a, b) {
        (Some(x), Some(y)) => x.0 == y.0 && x.1 == y.1 && x.2 == y.2 && x.3 == y.3,
        (None, None) => true,
        _ => false,
    }
}

impl TextInputModel {
    /// A new object; `entered` when its client already holds keyboard focus.
    pub fn new(entered: bool) -> (m: Self)
        ensures
            m == (TextInputModel { entered, ..fresh_model() }),
    {
        TextInputModel {
            entered,
            enabled: false,
            pending_enabled: false,
            pending_enabled_changed: false,
            pending_show_requested: false,
            content_hint: 0,
            content_purpose: 0,
            pending_content_hint: 0,
            pending_content_purpose: 0,
            pending_content_type_changed: false,
            cursor_rect: None,
            pending_cursor_rect: None,
            preedit: None,
            commits: 0,
        }
    }

    /// `enable`: pending, and resetting every other pending field.
    pub fn enable(&mut self)
        ensures
            *final(self) == enable_step(*old(self)),
    {
        self.pending_enabled = true;
        self.pending_enabled_changed = true;
        self.pending_show_requested = true;
        self.pending_content_hint = 0;
        self.pending_content_purpose = 0;
        self.pending_content_type_changed = true;
        self.pending_cursor_rect = None;
        self.preedit = None;
    }

    /// `disable`: pending.
    pub fn disable(&mut self)
        ensures
            *final(self) == disable_step(*old(self)),
    {
        self.pending_enabled = false;
        self.pending_enabled_changed = true;
        self.pending_show_requested = false;
        self.pending_content_hint = 0;
        self.pending_content_purpose = 0;
        self.pending_content_type_changed = true;
        self.pending_cursor_rect = None;
    }

    /// `set_content_type`: pending.
    pub fn set_content_type(&mut self, hint: u32, purpose: u32)
        ensures
            *final(self) == (TextInputModel {
                pending_content_hint: hint,
                pending_content_purpose: purpose,
                pending_content_type_changed: true,
                ..*old(self)
            }),
    {
        self.pending_content_hint = hint;
        self.pending_content_purpose = purpose;
        self.pending_content_type_changed = true;
    }

    /// `set_cursor_rectangle`: pending.
    pub fn set_cursor_rectangle(&mut self, rect: CursorRect)
        ensures
            *final(self) == (TextInputModel { pending_cursor_rect: Some(rect), ..*old(self) }),
    {
        self.pending_cursor_rect = Some(rect);
    }

    /// `commit`: count it, promote the pending state when a surface is
    /// entered, and say what is owed.
    pub fn commit(&mut self) -> (outcome: CommitOutcome)
        ensures
            (*final(self), outcome) == commit_step(*old(self)),
    {
        let commits = self.commits.wrapping_add(1);
        let rect_changed = self.pending_enabled && !same_rect(self.pending_cursor_rect, self.cursor_rect);
        let changed = self.pending_enabled_changed || self.pending_content_type_changed
            || rect_changed;
        let requested = self.pending_show_requested;
        self.commits = commits;
        self.pending_enabled_changed = false;
        self.pending_show_requested = false;
        self.pending_content_type_changed = false;
        if !self.entered {
            return CommitOutcome { done: None, replay_preedit: None, report: None };
        }
        self.enabled = self.pending_enabled;
        self.content_hint = self.pending_content_hint;
        self.content_purpose = self.pending_content_purpose;
        self.cursor_rect = self.pending_cursor_rect;
        if !self.enabled {
            self.preedit = None;
        }
        let report = if changed {
            Some(
                TextInputReport {
                    enabled: self.enabled,
                    requested: requested && self.enabled,
                    hint: self.content_hint,
                    purpose: self.content_purpose,
                    cursor_rect: if self.enabled {
                        self.cursor_rect
                    } else {
                        None
                    },
                },
            )
        } else {
            None
        };
        let replay_preedit = match &self.preedit {
            Some((text, cursor)) => Some((text.clone(), *cursor)),
            None => None,
        };
        CommitOutcome { done: Some(commits), replay_preedit, report }
    }

    /// The keyboard left: every piece of state goes back to rest. Returns
    /// whether text input was enabled, which the viewers must hear ended.
    pub fn leave(&mut self) -> (was_enabled: bool)
        ensures
            was_enabled == old(self).enabled,
            *final(self) == leave_step(*old(self)),
    {
        let was_enabled = self.enabled;
        self.entered = false;
        self.enabled = false;
        self.pending_enabled = false;
        self.pending_enabled_changed = false;
        self.pending_show_requested = false;
        self.content_hint = 0;
        self.content_purpose = 0;
        self.pending_content_hint = 0;
        self.pending_content_purpose = 0;
        self.pending_content_type_changed = false;
        self.cursor_rect = None;
        self.pending_cursor_rect = None;
        self.preedit = None;
        was_enabled
    }

    /// The keyboard entered a surface: an enable belongs to the surface
    /// named by the preceding enter, so none is carried over.
    pub fn enter(&mut self)
        ensures
            *final(self) == enter_step(*old(self)),
    {
        self.entered = true;
        self.enabled = false;
        self.pending_enabled = false;
        self.pending_enabled_changed = false;
        self.pending_show_requested = false;
        self.content_hint = 0;
        self.content_purpose = 0;
        self.pending_content_hint = 0;
        self.pending_content_purpose = 0;
        self.pending_content_type_changed = false;
    }

    /// Composed text was committed through `commit_string`: the `done` that
    /// applies it carries this serial and resets the preedit.
    pub fn commit_text(&mut self) -> (serial: u32)
        ensures
            serial == old(self).commits,
            *final(self) == (TextInputModel { preedit: None, ..*old(self) }),
    {
        self.preedit = None;
        self.commits
    }

    /// Show `text` as the composition, or withdraw it when empty. `None`
    /// when there is nothing to withdraw; otherwise the `done` serial.
    pub fn set_preedit(&mut self, text: String, cursor: i32) -> (done: Option<u32>)
        ensures
            text@.len() == 0 && old(self).preedit is None ==> done is None && *final(self)
                == *old(self),
            !(text@.len() == 0 && old(self).preedit is None) ==> done == Some(old(self).commits)
                && *final(self) == (TextInputModel {
                preedit: if text@.len() == 0 {
                    None
                } else {
                    Some((text, cursor))
                },
                ..*old(self)
            }),
    {
        let empty = text.unicode_len() == 0;
        if empty && self.preedit.is_none() {
            return None;
        }
        self.preedit = if empty {
            None
        } else {
            Some((text, cursor))
        };
        Some(self.commits)
    }

    /// Take back a preedit the key path left standing: the `done` serial,
    /// or `None` when nothing was shown.
    pub fn clear_preedit(&mut self) -> (done: Option<u32>)
        ensures
            old(self).preedit is None ==> done is None && *final(self) == *old(self),
            old(self).preedit is Some ==> done == Some(old(self).commits) && *final(self) == (
            TextInputModel { preedit: None, ..*old(self) }),
    {
        if self.preedit.is_none() {
            return None;
        }
        self.preedit = None;
        Some(self.commits)
    }
}

/// Every commit counts itself: the serial advances by one (wrapping), and
/// any `done` it owes carries exactly the new count.
pub proof fn lemma_commit_counts(m: TextInputModel)
    ensures
        commit_step(m).0.commits == wrapping_add(m.commits, 1),
        commit_step(m).1.done matches Some(s) ==> s == commit_step(m).0.commits,
        commit_step(m).1.done is Some <==> m.entered,
{
}

/// Requests after `leave` are ignored until the next `enter`: a commit then
/// owes no `done` and enables nothing, whatever was requested.
pub proof fn lemma_leave_silences_commits(m: TextInputModel)
    ensures
        commit_step(enable_step(leave_step(m))).1.done is None,
        !commit_step(enable_step(leave_step(m))).0.enabled,
        commit_step(enable_step(leave_step(m))).1.report is None,
{
}

/// A committed disable ends the composition and reports no caret.
pub proof fn lemma_disable_clears_preedit(m: TextInputModel)
    requires
        m.entered,
    ensures
        commit_step(disable_step(m)).0.preedit is None,
        !commit_step(disable_step(m)).0.enabled,
        commit_step(disable_step(m)).1.report matches Some(r) && !r.enabled && !r.requested
            && r.cursor_rect is None,
{
}

/// An `enable` committed on an entered surface is a request for a panel.
pub proof fn lemma_enable_commit_requests_panel(m: TextInputModel)
    requires
        m.entered,
    ensures
        commit_step(enable_step(m)).0.enabled,
        commit_step(enable_step(m)).1.report matches Some(r) && r.enabled && r.requested,
{
}

/// Resending the committed state changes nothing worth reporting.
pub proof fn lemma_idle_commit_reports_nothing(m: TextInputModel)
    requires
        m.entered,
        !m.pending_enabled_changed,
        !m.pending_content_type_changed,
        m.pending_cursor_rect == m.cursor_rect,
    ensures
        commit_step(m).1.report is None,
{
}

} // verus!
