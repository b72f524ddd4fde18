//! The library's global guarantees, stated and proved over the
//! mathematical model of the shared state.
//!
//! The event loop and the trigger handler mutate one shared `FocusState`
//! under a single lock, so every concurrent execution is some serialized
//! sequence of operations.  The lemmas here therefore quantify over
//! arbitrary operation sequences: what they prove of every sequence holds
//! of every interleaving the lock admits, and of every prefix, since a
//! prefix is itself such a sequence.

use vstd::prelude::*;
use crate::mru::seq_remove_id;
use crate::mru::seq_push_most_recent;
use crate::mru::lemma_seq_remove_id;
use crate::mru::lemma_push_fresh_no_duplicates;
use crate::mru::lemma_index_of_unique;
use crate::state::FocusModel;
use crate::state::WindowEvent;
use crate::state::model_no_duplicates;
use crate::state::model_inv;
use crate::state::spec_focus_changed;
use crate::state::spec_window_closed;
use crate::state::spec_apply_event;
use crate::state::event_keeps_separation;
use crate::state::lemma_focus_changed_preserves;
use crate::state::lemma_focus_changed_ids;
use crate::state::lemma_window_closed_preserves;
use crate::state::lemma_window_closed_ids;
use crate::trigger::spec_first_valid;
use crate::trigger::spec_trigger;
use crate::NONE_WINDOW;

verus! {

/// One serialized operation on the shared state: the event processor
/// applies a notification, or a trigger handler removes the entry it
/// successfully switched to.
pub enum SharedOp {
    Event(WindowEvent),
    TriggerCommit(i64),
}

/// The state after one serialized operation.
pub open spec fn spec_apply_op(m: FocusModel, op: SharedOp) -> FocusModel {
    match op {
        SharedOp::Event(ev) => spec_apply_event(m, ev),
        SharedOp::TriggerCommit(id) => FocusModel {
            stack: seq_remove_id(m.stack, id),
            current: m.current,
        },
    }
}

/// The state after a serialized sequence of operations, first first.
pub open spec fn spec_apply_ops(m: FocusModel, ops: Seq<SharedOp>) -> FocusModel
    decreases ops.len(),
{
    if ops.len() == 0 {
        m
    } else {
        spec_apply_ops(spec_apply_op(m, ops.first()), ops.drop_first())
    }
}

/// The incoming identifier of a focus-change operation, if the operation
/// is one.
pub open spec fn op_focus_id(op: SharedOp) -> Option<i64> {
    match op {
        SharedOp::Event(WindowEvent::FocusChanged(id)) => Some(id),
        SharedOp::Event(WindowEvent::WindowClosed(_)) => None,
        SharedOp::TriggerCommit(_) => None,
    }
}

/// The focus-change identifiers of `ops` are fresh for the state `m`:
/// pairwise distinct, absent from the stack, and different from both the
/// focused window and the reserved "no window" identifier.  A focus
/// change whose identifier still sits in the stack — the user clicking
/// back into a window the history already holds — leaves that entry in
/// place as the window becomes the focus, so separation cannot be promised
/// for it; such events are the ones this predicate excludes.
pub open spec fn fresh_focus_ids(m: FocusModel, ops: Seq<SharedOp>) -> bool {
    &&& forall|i: int| 0 <= i < ops.len() ==> match op_focus_id(#[trigger] ops[i]) {
            Option::Some(id) => !m.stack.contains(id) && id != m.current && id != NONE_WINDOW,
            Option::None => true,
        }
    &&& forall|i: int, j: int|
            0 <= i < ops.len() && 0 <= j < ops.len() && i != j ==> !(
                op_focus_id(#[trigger] ops[i]) is Some
                    && op_focus_id(ops[i]) == op_focus_id(#[trigger] ops[j])
            )
}

/// Every identifier named by the state after one operation was named
/// before it, or is the operation's own focus-change identifier, or is
/// the reserved "no window" identifier.
pub proof fn lemma_apply_op_ids(m: FocusModel, op: SharedOp, x: i64)
    requires
        model_no_duplicates(m),
        spec_apply_op(m, op).stack.contains(x) || spec_apply_op(m, op).current == x,
    ensures
        m.stack.contains(x) || m.current == x || op_focus_id(op) == Some(x)
            || x == NONE_WINDOW,
{
    match op {
        SharedOp::Event(WindowEvent::FocusChanged(id)) => {
            lemma_focus_changed_ids(m, id, x);
        }
        SharedOp::Event(WindowEvent::WindowClosed(id)) => {
            lemma_window_closed_ids(m, id, x);
        }
        SharedOp::TriggerCommit(id) => {
            lemma_seq_remove_id(m.stack, id);
        }
    }
}

/// One operation keeps the stack duplicate-free; an operation whose event
/// keeps separation (and any trigger commit) also keeps the focused
/// window out of the stack.
pub proof fn lemma_apply_op_preserves(m: FocusModel, op: SharedOp)
    requires
        model_no_duplicates(m),
    ensures
        model_no_duplicates(spec_apply_op(m, op)),
        model_inv(m) && (match op {
            SharedOp::Event(ev) => event_keeps_separation(m, ev),
            SharedOp::TriggerCommit(_) => true,
        }) ==> model_inv(spec_apply_op(m, op)),
{
    match op {
        SharedOp::Event(WindowEvent::FocusChanged(id)) => {
            lemma_focus_changed_preserves(m, id);
        }
        SharedOp::Event(WindowEvent::WindowClosed(id)) => {
            lemma_window_closed_preserves(m, id);
        }
        SharedOp::TriggerCommit(id) => {
            lemma_seq_remove_id(m.stack, id);
        }
    }
}

/// However event processing and trigger commits interleave — that is,
/// for every serialization the lock admits — the stack never comes to
/// hold a duplicate entry.  No assumption on the events is needed.
pub proof fn lemma_ops_keep_no_duplicates(m: FocusModel, ops: Seq<SharedOp>)
    requires
        model_no_duplicates(m),
    ensures
        model_no_duplicates(spec_apply_ops(m, ops)),
    decreases ops.len(),
{
    if ops.len() > 0 {
        lemma_apply_op_preserves(m, ops.first());
        lemma_ops_keep_no_duplicates(spec_apply_op(m, ops.first()), ops.drop_first());
    }
}

/// However event processing and trigger commits interleave, as long as
/// the focus-change identifiers are fresh (see `fresh_focus_ids`), the
/// stack also never comes to hold the focused window.
pub proof fn lemma_ops_keep_inv(m: FocusModel, ops: Seq<SharedOp>)
    requires
        model_inv(m),
        fresh_focus_ids(m, ops),
    ensures
        model_inv(spec_apply_ops(m, ops)),
    decreases ops.len(),
{
    if ops.len() > 0 {
        let op = ops.first();
        let rest = ops.drop_first();
        let m1 = spec_apply_op(m, op);
        assert(ops[0] == op);
        lemma_apply_op_preserves(m, op);
        match op {
            SharedOp::Event(ev) => {
                assert(event_keeps_separation(m, ev));
            }
            SharedOp::TriggerCommit(_) => {}
        }
        assert(model_inv(m1));
        assert forall|i: int| 0 <= i < rest.len() implies match op_focus_id(#[trigger] rest[i]) {
            Option::Some(id) => !m1.stack.contains(id) && id != m1.current && id != NONE_WINDOW,
            Option::None => true,
        } by {
            assert(rest[i] == ops[i + 1]);
            match op_focus_id(rest[i]) {
                Option::Some(id) => {
                    if m1.stack.contains(id) || m1.current == id {
                        lemma_apply_op_ids(m, op, id);
                        assert(!(op_focus_id(ops[0]) is Some
                            && op_focus_id(ops[0]) == op_focus_id(ops[i + 1])));
                    }
                }
                Option::None => {}
            }
        }
        assert forall|i: int, j: int|
            0 <= i < rest.len() && 0 <= j < rest.len() && i != j implies !(
                op_focus_id(#[trigger] rest[i]) is Some
                    && op_focus_id(rest[i]) == op_focus_id(#[trigger] rest[j])
            ) by {
            assert(rest[i] == ops[i + 1]);
            assert(rest[j] == ops[j + 1]);
        }
        lemma_ops_keep_inv(m1, rest);
    }
}

/// A run of focus-change events, as serialized operations.
pub open spec fn focus_ops(ids: Seq<i64>) -> Seq<SharedOp> {
    ids.map_values(|id: i64| SharedOp::Event(WindowEvent::FocusChanged(id)))
}

/// For a run of focus-change events whose identifiers are fresh in the
/// sense of `fresh_focus_ids`, the stack never holds a duplicate and
/// never holds the focused window.
pub proof fn lemma_distinct_focus_events_keep_inv(m: FocusModel, ids: Seq<i64>)
    requires
        model_inv(m),
        ids.no_duplicates(),
        forall|i: int| 0 <= i < ids.len() ==> !m.stack.contains(#[trigger] ids[i])
            && ids[i] != m.current && ids[i] != NONE_WINDOW,
    ensures
        model_inv(spec_apply_ops(m, focus_ops(ids))),
{
    let ops = focus_ops(ids);
    assert(fresh_focus_ids(m, ops)) by {
        assert forall|i: int| 0 <= i < ops.len() implies match op_focus_id(#[trigger] ops[i]) {
            Option::Some(id) => !m.stack.contains(id) && id != m.current && id != NONE_WINDOW,
            Option::None => true,
        } by {
            assert(ops[i] == SharedOp::Event(WindowEvent::FocusChanged(ids[i])));
        }
        assert forall|i: int, j: int|
            0 <= i < ops.len() && 0 <= j < ops.len() && i != j implies !(
                op_focus_id(#[trigger] ops[i]) is Some
                    && op_focus_id(ops[i]) == op_focus_id(#[trigger] ops[j])
            ) by {
            assert(ops[i] == SharedOp::Event(WindowEvent::FocusChanged(ids[i])));
            assert(ops[j] == SharedOp::Event(WindowEvent::FocusChanged(ids[j])));
        }
    }
    lemma_ops_keep_inv(m, ops);
}

/// Pushing an identifier that is already present moves it to the MRU end
/// instead of duplicating it: the result is duplicate-free, ends in the
/// pushed identifier, holds exactly the old identifiers plus the pushed
/// one, and grows only when the identifier was absent.
pub proof fn lemma_push_moves_to_most_recent(s: Seq<i64>, id: i64)
    requires
        s.no_duplicates(),
    ensures
        seq_push_most_recent(s, id).no_duplicates(),
        seq_push_most_recent(s, id).last() == id,
        forall|x: i64| (#[trigger] seq_push_most_recent(s, id).contains(x))
            <==> s.contains(x) || x == id,
        s.contains(id) ==> seq_push_most_recent(s, id).len() == s.len(),
        !s.contains(id) ==> seq_push_most_recent(s, id).len() == s.len() + 1,
{
    lemma_seq_remove_id(s, id);
    let r = seq_remove_id(s, id);
    lemma_push_fresh_no_duplicates(r, id);
    let p = seq_push_most_recent(s, id);
    assert forall|x: i64| #[trigger] p.contains(x) implies s.contains(x) || x == id by {
        let k = choose|k: int| 0 <= k < p.len() && p[k] == x;
        if k < p.len() - 1 {
            assert(r[k] == x);
            assert(r.contains(x));
        }
    }
    assert forall|x: i64| s.contains(x) || x == id implies #[trigger] p.contains(x) by {
        if x == id {
            assert(p[p.len() - 1] == id);
        } else if s.contains(x) {
            assert(r.contains(x));
            let k = choose|k: int| 0 <= k < r.len() && r[k] == x;
            assert(p[k] == x);
        }
    }
}

/// Closing the currently focused window falls back to the history: with a
/// non-empty stack the new focus is the stack's MRU entry and exactly
/// that entry is popped; with an empty stack the focus becomes the
/// reserved "no window" identifier and the stack stays empty.
pub proof fn lemma_close_focused_window(m: FocusModel)
    requires
        model_inv(m),
    ensures
        m.stack.len() > 0 ==> spec_window_closed(m, m.current)
            == (FocusModel { stack: m.stack.drop_last(), current: m.stack.last() }),
        m.stack.len() == 0 ==> spec_window_closed(m, m.current)
            == (FocusModel { stack: m.stack, current: NONE_WINDOW }),
{
    lemma_seq_remove_id(m.stack, m.current);
    assert(seq_remove_id(m.stack, m.current) == m.stack);
}

/// A trigger on an empty stack selects no candidate — so no focus command
/// is owed at all — and leaves the state unchanged.
pub proof fn lemma_trigger_empty_stack(m: FocusModel, ok: Set<i64>)
    requires
        m.stack.len() == 0,
    ensures
        spec_first_valid(m.stack, ok) is None,
        spec_trigger(m, ok) == m,
{
}

/// A trigger whose MRU-top candidate is stale (its focus command fails)
/// while the next candidate succeeds: the scan selects the next-from-top
/// entry, exactly that entry is removed, the stale top stays in the stack
/// for lazy cleanup, and the focused window is untouched.
pub proof fn lemma_trigger_stale_top(m: FocusModel, ok: Set<i64>)
    requires
        model_no_duplicates(m),
        m.stack.len() >= 2,
        !ok.contains(m.stack.last()),
        ok.contains(m.stack[m.stack.len() - 2]),
    ensures
        spec_first_valid(m.stack, ok) == Some(m.stack[m.stack.len() - 2]),
        spec_trigger(m, ok).current == m.current,
        spec_trigger(m, ok).stack == m.stack.remove(m.stack.len() - 2),
        spec_trigger(m, ok).stack.contains(m.stack.last()),
        !spec_trigger(m, ok).stack.contains(m.stack[m.stack.len() - 2]),
        spec_trigger(m, ok).stack.len() == m.stack.len() - 1,
{
    let n = m.stack.len() as int;
    let w = m.stack[n - 2];
    let t = m.stack.drop_last();
    assert(t.last() == w);
    assert(spec_first_valid(m.stack, ok) == spec_first_valid(t, ok));
    assert(spec_first_valid(t, ok) == Some(w));
    lemma_seq_remove_id(m.stack, w);
    lemma_index_of_unique(m.stack, w, n - 2);
    assert(spec_trigger(m, ok).stack == m.stack.remove(n - 2));
    assert(m.stack.remove(n - 2)[n - 2] == m.stack[n - 1]);
    assert(spec_trigger(m, ok).stack.contains(m.stack.last()));
}

} // verus!
