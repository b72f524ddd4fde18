//! The focus-history state machine.
//!
//! `FocusState` pairs the MRU stack with the identifier of the window
//! currently believed to hold input focus, and applies window-manager
//! notifications to that pair: a focus change pushes the *outgoing* focus
//! onto the stack (that is what makes the stack a "previous focus"
//! history), and closing the focused window falls back to the top of the
//! stack.  The event loop that reads notifications from the window manager
//! lives outside the library and hands each event in as a plain value.

use vstd::prelude::*;
use crate::mru::MruStack;
use crate::mru::seq_remove_id;
use crate::mru::seq_push_most_recent;
use crate::mru::lemma_seq_remove_id;
use crate::mru::lemma_push_fresh_no_duplicates;
use crate::mru::lemma_drop_last_no_duplicates;
use crate::NONE_WINDOW;

verus! {

/// The mathematical model of the shared state: the stack contents (MRU
/// entry last) and the currently focused window.
#[verifier::ext_equal]
pub struct FocusModel {
    pub stack: Seq<i64>,
    pub current: i64,
}

/// A window-manager notification, reduced to the two kinds the state
/// machine reacts to.
#[derive(Clone, Copy, Debug, PartialEq, Eq, Structural)]
pub enum WindowEvent {
    /// Input focus moved to the window with this identifier.
    FocusChanged(i64),
    /// The window with this identifier was closed.
    WindowClosed(i64),
}

/// The stack never holds an identifier twice.
pub open spec fn model_no_duplicates(m: FocusModel) -> bool {
    m.stack.no_duplicates()
}

/// Full separation: the stack is duplicate-free and the focused window is
/// not in it.
pub open spec fn model_inv(m: FocusModel) -> bool {
    m.stack.no_duplicates() && !m.stack.contains(m.current)
}

/// The state after a focus-change notification: a self-notification is
/// ignored; otherwise the outgoing focus is pushed at the MRU end and the
/// named window becomes the focused one.
pub open spec fn spec_focus_changed(m: FocusModel, new_id: i64) -> FocusModel {
    if new_id == m.current {
        m
    } else {
        FocusModel { stack: seq_push_most_recent(m.stack, m.current), current: new_id }
    }
}

/// The state after a window-closed notification: a stack entry is simply
/// deleted; closing the focused window additionally makes the top of the
/// stack (popped) the new focus, or the reserved "no window" identifier
/// when the stack is empty.
pub open spec fn spec_window_closed(m: FocusModel, id: i64) -> FocusModel {
    if id == m.current {
        let s = seq_remove_id(m.stack, id);
        if s.len() > 0 {
            FocusModel { stack: s.drop_last(), current: s.last() }
        } else {
            FocusModel { stack: s, current: NONE_WINDOW }
        }
    } else {
        FocusModel { stack: seq_remove_id(m.stack, id), current: m.current }
    }
}

/// The state after any one notification.
pub open spec fn spec_apply_event(m: FocusModel, ev: WindowEvent) -> FocusModel {
    match ev {
        WindowEvent::FocusChanged(id) => spec_focus_changed(m, id),
        WindowEvent::WindowClosed(id) => spec_window_closed(m, id),
    }
}

/// The condition under which an event also preserves full separation: a
/// focus change must name the focused window itself or a window that is
/// not in the history stack.  (Refocusing a window that still sits in the
/// stack leaves its entry there while it becomes the focus; the entry is
/// then stale and is cleaned up lazily.)
pub open spec fn event_keeps_separation(m: FocusModel, ev: WindowEvent) -> bool {
    match ev {
        WindowEvent::FocusChanged(id) => id == m.current || !m.stack.contains(id),
        WindowEvent::WindowClosed(_) => true,
    }
}

/// A focus change keeps the stack duplicate-free; when the incoming
/// identifier is the focused window itself or absent from the stack, it
/// also keeps the focused window out of the stack.
pub proof fn lemma_focus_changed_preserves(m: FocusModel, new_id: i64)
    requires
        model_no_duplicates(m),
    ensures
        model_no_duplicates(spec_focus_changed(m, new_id)),
        model_inv(m) && (new_id == m.current || !m.stack.contains(new_id))
            ==> model_inv(spec_focus_changed(m, new_id)),
{
    if new_id != m.current {
        lemma_seq_remove_id(m.stack, m.current);
        lemma_push_fresh_no_duplicates(seq_remove_id(m.stack, m.current), m.current);
        if model_inv(m) && !m.stack.contains(new_id) {
            let p = seq_push_most_recent(m.stack, m.current);
            assert forall|k: int| 0 <= k < p.len() implies p[k] != new_id by {
                let r = seq_remove_id(m.stack, m.current);
                if k < p.len() - 1 {
                    assert(p[k] == r[k]);
                    if r[k] == new_id {
                        assert(r.contains(new_id));
                    }
                } else {
                    assert(p[k] == m.current);
                }
            }
            assert(!p.contains(new_id));
        }
    }
}

/// Every identifier named by the state after a focus change was named
/// before it or is the incoming identifier itself.
pub proof fn lemma_focus_changed_ids(m: FocusModel, new_id: i64, x: i64)
    requires
        model_no_duplicates(m),
        spec_focus_changed(m, new_id).stack.contains(x)
            || spec_focus_changed(m, new_id).current == x,
    ensures
        m.stack.contains(x) || m.current == x || x == new_id,
{
    if new_id != m.current {
        lemma_seq_remove_id(m.stack, m.current);
        let p = seq_push_most_recent(m.stack, m.current);
        if p.contains(x) {
            let k = choose|k: int| 0 <= k < p.len() && p[k] == x;
            let r = seq_remove_id(m.stack, m.current);
            if k < p.len() - 1 {
                assert(r[k] == x);
                assert(r.contains(x));
                if x != m.current {
                    assert(m.stack.contains(x));
                }
            } else {
                assert(p[k] == m.current);
            }
        }
    }
}

/// A window-closed notification keeps the stack duplicate-free and keeps
/// the focused window out of the stack.
pub proof fn lemma_window_closed_preserves(m: FocusModel, id: i64)
    requires
        model_no_duplicates(m),
    ensures
        model_no_duplicates(spec_window_closed(m, id)),
        model_inv(m) ==> model_inv(spec_window_closed(m, id)),
{
    lemma_seq_remove_id(m.stack, id);
    if id == m.current {
        let s = seq_remove_id(m.stack, id);
        if s.len() > 0 {
            lemma_drop_last_no_duplicates(s);
        }
    }
}

/// Every identifier named by the state after a window-closed notification
/// was named before it or is the reserved "no window" identifier.
pub proof fn lemma_window_closed_ids(m: FocusModel, id: i64, x: i64)
    requires
        model_no_duplicates(m),
        spec_window_closed(m, id).stack.contains(x)
            || spec_window_closed(m, id).current == x,
    ensures
        m.stack.contains(x) || m.current == x || x == NONE_WINDOW,
{
    lemma_seq_remove_id(m.stack, id);
    let s = seq_remove_id(m.stack, id);
    if id == m.current && s.len() > 0 {
        let after = spec_window_closed(m, id);
        if after.stack.contains(x) {
            let k = choose|k: int| 0 <= k < after.stack.len() && after.stack[k] == x;
            assert(s[k] == x);
            assert(s.contains(x));
        } else {
            assert(s.contains(s.last()));
        }
    }
}

/// The shared state: the MRU stack and the currently focused window.
/// Callers that share it between an event loop and a trigger handler must
/// serialize access (one lock around the whole structure).
pub struct FocusState {
    stack: MruStack,
    current_focus: i64,
}

impl View for FocusState {
    type V = FocusModel;

    closed spec fn view(&self) -> FocusModel {
        FocusModel { stack: self.stack@, current: self.current_focus }
    }
}

impl FocusState {
    /// Well-formedness: the stack holds no identifier twice.
    pub open spec fn wf(&self) -> bool {
        model_no_duplicates(self@)
    }

    /// The state as at process start: empty history, focus seeded from the
    /// window manager's answer to the initial focus query.
    pub fn new(initial_focus: i64) -> (r: FocusState)
        ensures
            r@.stack == Seq::<i64>::empty(),
            r@.current == initial_focus,
            r.wf(),
            model_inv(r@),
    {
        FocusState { stack: MruStack::new(), current_focus: initial_focus }
    }

    /// The window currently believed to hold input focus.
    pub fn current_focus(&self) -> (r: i64)
        ensures
            r == self@.current,
    {
        self.current_focus
    }

    /// The number of entries in the history stack.
    pub fn stack_len(&self) -> (r: usize)
        ensures
            r == self@.stack.len(),
    {
        self.stack.len()
    }

    /// Whether the history stack holds `id`.
    pub fn stack_contains(&self, id: i64) -> (r: bool)
        ensures
            r == self@.stack.contains(id),
    {
        self.stack.contains_id(id)
    }

    /// Applies a focus-change notification, exactly as `spec_focus_changed`
    /// says: a self-notification is a no-op, anything else pushes the
    /// outgoing focus and records the new one.
    pub fn on_focus_changed(&mut self, new_id: i64)
        requires
            old(self).wf(),
        ensures
            final(self)@ == spec_focus_changed(old(self)@, new_id),
            final(self).wf(),
            model_inv(old(self)@) && event_keeps_separation(
                old(self)@,
                WindowEvent::FocusChanged(new_id),
            ) ==> model_inv(final(self)@),
    {
        proof {
            lemma_focus_changed_preserves(old(self)@, new_id);
        }
        if new_id != self.current_focus {
            let outgoing = self.current_focus;
            self.stack.push_most_recent(outgoing);
            self.current_focus = new_id;
        }
    }

    /// Applies a window-closed notification, exactly as
    /// `spec_window_closed` says: deletes the entry if it is in the stack,
    /// and if the closed window is the focused one, pops the MRU entry (or
    /// the reserved "no window" identifier) as the new focus.
    pub fn on_window_closed(&mut self, id: i64)
        requires
            old(self).wf(),
        ensures
            final(self)@ == spec_window_closed(old(self)@, id),
            final(self).wf(),
            model_inv(old(self)@) ==> model_inv(final(self)@),
    {
        proof {
            lemma_seq_remove_id(old(self)@.stack, id);
            lemma_window_closed_preserves(old(self)@, id);
        }
        if id == self.current_focus {
            self.stack.remove(id);
            match self.stack.pop_most_recent() {
                Some(top) => {
                    self.current_focus = top;
                }
                None => {
                    self.current_focus = NONE_WINDOW;
                }
            }
        } else {
            self.stack.remove(id);
        }
    }

    /// The candidates one trigger scans, from most- to least-recently-used.
    /// Reading them does not change the state; the caller attempts the
    /// focus command for each in this order and stops at the first success.
    pub fn trigger_candidates(&self) -> (r: Vec<i64>)
        ensures
            r@ == self@.stack.reverse(),
    {
        self.stack.peek_from_most_recent()
    }

    /// Removes exactly the entry a successful trigger switched to, so the
    /// same entry cannot be offered again before the matching focus-change
    /// notification arrives.  Entries that were scanned but failed stay in
    /// the stack for lazy cleanup.
    pub fn trigger_commit(&mut self, id: i64)
        requires
            old(self).wf(),
        ensures
            final(self)@.stack == seq_remove_id(old(self)@.stack, id),
            final(self)@.current == old(self)@.current,
            final(self).wf(),
            model_inv(old(self)@) ==> model_inv(final(self)@),
    {
        proof {
            lemma_seq_remove_id(old(self)@.stack, id);
        }
        self.stack.remove(id);
    }

    /// Applies any one notification, exactly as `spec_apply_event` says.
    pub fn apply_event(&mut self, ev: WindowEvent)
        requires
            old(self).wf(),
        ensures
            final(self)@ == spec_apply_event(old(self)@, ev),
            final(self).wf(),
            model_inv(old(self)@) && event_keeps_separation(old(self)@, ev)
                ==> model_inv(final(self)@),
    {
        match ev {
            WindowEvent::FocusChanged(id) => self.on_focus_changed(id),
            WindowEvent::WindowClosed(id) => self.on_window_closed(id),
        }
    }
}

} // verus!
