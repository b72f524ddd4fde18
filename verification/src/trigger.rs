//! The switch-trigger decision logic.
//!
//! On an external "switch to previous window" trigger the handler walks
//! the stack from most- to least-recently-used, attempts the window
//! manager's focus command for each candidate, stops at the first success,
//! and removes exactly that entry; candidates whose command failed are
//! stale and remain in the stack for lazy cleanup.  Issuing the command is
//! window-manager I/O and happens outside the library; here the candidate
//! order comes from `FocusState::trigger_candidates`, the removal is
//! `FocusState::trigger_commit`, and this module states what the whole
//! protocol does for every possible pattern of command outcomes, modelled
//! as the set `ok` of identifiers the window manager would accept.

use vstd::prelude::*;
use crate::mru::seq_remove_id;
use crate::state::FocusModel;

verus! {

/// The first identifier, scanning from the MRU end of `stack`, that the
/// window manager accepts; `None` when it accepts no entry.
pub open spec fn spec_first_valid(stack: Seq<i64>, ok: Set<i64>) -> Option<i64>
    decreases stack.len(),
{
    if stack.len() == 0 {
        None
    } else if ok.contains(stack.last()) {
        Some(stack.last())
    } else {
        spec_first_valid(stack.drop_last(), ok)
    }
}

/// The state after one trigger: unchanged when no candidate is accepted,
/// otherwise the accepted candidate's entry — and only it — is removed.
/// The focused window is never touched by a trigger; the focus-change
/// notification that the successful command provokes updates it later.
pub open spec fn spec_trigger(m: FocusModel, ok: Set<i64>) -> FocusModel {
    match spec_first_valid(m.stack, ok) {
        Option::None => m,
        Option::Some(id) => FocusModel {
            stack: seq_remove_id(m.stack, id),
            current: m.current,
        },
    }
}

/// The first candidate of `c` whose outcome at the same position of `a`
/// is acceptance; `None` when every attempt failed.
pub open spec fn spec_first_accepted(c: Seq<i64>, a: Seq<bool>) -> Option<i64>
    decreases c.len(),
{
    if c.len() == 0 || a.len() == 0 {
        None
    } else if a.first() {
        Some(c.first())
    } else {
        spec_first_accepted(c.drop_first(), a.drop_first())
    }
}

/// Scanning the candidates (the stack read MRU-first) with per-candidate
/// outcomes that agree with `ok` selects exactly the entry that
/// `spec_first_valid` names.
pub proof fn lemma_scan_selects_first_valid(stack: Seq<i64>, ok: Set<i64>, a: Seq<bool>)
    requires
        a.len() == stack.len(),
        forall|i: int| 0 <= i < stack.len() ==> a[i] == ok.contains(#[trigger] stack.reverse()[i]),
    ensures
        spec_first_accepted(stack.reverse(), a) == spec_first_valid(stack, ok),
    decreases stack.len(),
{
    if stack.len() > 0 {
        let c = stack.reverse();
        assert(c[0] == stack.last());
        assert(c.first() == stack.last());
        assert(a[0] == ok.contains(c[0]));
        if !ok.contains(stack.last()) {
            let t = stack.drop_last();
            assert(c.drop_first() =~= t.reverse());
            assert forall|i: int| 0 <= i < t.len()
                implies a.drop_first()[i] == ok.contains(#[trigger] t.reverse()[i]) by {
                assert(a.drop_first()[i] == a[i + 1]);
                assert(c[i + 1] == stack[stack.len() - 2 - i]);
                assert(t.reverse()[i] == t[t.len() - 1 - i]);
                assert(t[t.len() - 1 - i] == stack[stack.len() - 2 - i]);
            }
            lemma_scan_selects_first_valid(t, ok, a.drop_first());
        }
    }
}

/// Applies the trigger handler's selection rule to recorded command
/// outcomes: the first candidate, in the given order, whose focus command
/// succeeded, or nothing when every attempt failed.
pub fn select_switch_target(candidates: &Vec<i64>, accepted: &Vec<bool>) -> (r: Option<i64>)
    requires
        candidates@.len() == accepted@.len(),
    ensures
        r == spec_first_accepted(candidates@, accepted@),
{
    proof {
        assert(candidates@.skip(0) =~= candidates@);
        assert(accepted@.skip(0) =~= accepted@);
    }
    let n: usize = candidates.len();
    let mut i: usize = 0;
    while i < n
        invariant
            n == candidates@.len(),
            n == accepted@.len(),
            0 <= i <= n,
            spec_first_accepted(candidates@, accepted@)
                == spec_first_accepted(candidates@.skip(i as int), accepted@.skip(i as int)),
        decreases n - i,
    {
        proof {
            assert(candidates@.skip(i as int).first() == candidates@[i as int]);
            assert(accepted@.skip(i as int).first() == accepted@[i as int]);
        }
        if accepted[i] {
            return Some(candidates[i]);
        }
        proof {
            assert(candidates@.skip(i as int).drop_first() =~= candidates@.skip(i as int + 1));
            assert(accepted@.skip(i as int).drop_first() =~= accepted@.skip(i as int + 1));
        }
        i = i + 1;
    }
    None
}

} // verus!
