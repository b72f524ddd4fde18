use sway_alttab::mru::MruStack;
use sway_alttab::state::FocusState;
use sway_alttab::trigger::select_switch_target;
use sway_alttab::NONE_WINDOW;

fn assert_no_duplicates(ids: &[i64]) {
    for i in 0..ids.len() {
        for j in 0..ids.len() {
            if i != j {
                assert_ne!(ids[i], ids[j], "duplicate entry {} in stack", ids[i]);
            }
        }
    }
}

#[test]
fn mru_new_is_empty() {
    let s = MruStack::new();
    assert_eq!(s.len(), 0);
    assert!(s.peek_from_most_recent().is_empty());
}

#[test]
fn mru_push_orders_most_recent_first() {
    let mut s = MruStack::new();
    s.push_most_recent(1);
    s.push_most_recent(2);
    s.push_most_recent(3);
    assert_eq!(s.len(), 3);
    assert_eq!(s.peek_from_most_recent(), vec![3, 2, 1]);
}

#[test]
fn mru_push_existing_moves_instead_of_duplicating() {
    let mut s = MruStack::new();
    s.push_most_recent(1);
    s.push_most_recent(2);
    s.push_most_recent(3);
    s.push_most_recent(1);
    assert_eq!(s.len(), 3);
    assert_eq!(s.peek_from_most_recent(), vec![1, 3, 2]);
}

#[test]
fn mru_remove_present_deletes_exactly_that_entry() {
    let mut s = MruStack::new();
    s.push_most_recent(1);
    s.push_most_recent(2);
    s.push_most_recent(3);
    s.remove(2);
    assert_eq!(s.peek_from_most_recent(), vec![3, 1]);
    assert!(!s.contains_id(2));
}

#[test]
fn mru_remove_absent_is_a_noop() {
    let mut s = MruStack::new();
    s.push_most_recent(1);
    s.remove(42);
    assert_eq!(s.peek_from_most_recent(), vec![1]);
}

#[test]
fn mru_pop_returns_most_recent_then_reports_empty() {
    let mut s = MruStack::new();
    s.push_most_recent(1);
    s.push_most_recent(2);
    assert_eq!(s.pop_most_recent(), Some(2));
    assert_eq!(s.pop_most_recent(), Some(1));
    assert_eq!(s.pop_most_recent(), None);
    assert_eq!(s.len(), 0);
}

#[test]
fn peek_does_not_mutate() {
    let mut s = MruStack::new();
    s.push_most_recent(5);
    s.push_most_recent(6);
    let _ = s.peek_from_most_recent();
    assert_eq!(s.peek_from_most_recent(), vec![6, 5]);
    assert_eq!(s.len(), 2);
}

#[test]
fn focus_chain_stacks_outgoing_windows() {
    // Focus-changed(A), Focus-changed(B), Focus-changed(C) starting from
    // current_focus == A: the stack is [A, B] in MRU-last order, so the
    // candidates read MRU-first are [B, A], and C holds focus.
    let mut st = FocusState::new(1);
    st.on_focus_changed(1); // self-notification: no-op
    st.on_focus_changed(2);
    st.on_focus_changed(3);
    assert_eq!(st.current_focus(), 3);
    assert_eq!(st.trigger_candidates(), vec![2, 1]);
}

#[test]
fn self_notification_changes_nothing() {
    let mut st = FocusState::new(7);
    st.on_focus_changed(7);
    assert_eq!(st.current_focus(), 7);
    assert_eq!(st.stack_len(), 0);
}

#[test]
fn close_focused_window_falls_back_to_top_of_stack() {
    let mut st = FocusState::new(1);
    st.on_focus_changed(2);
    st.on_focus_changed(3);
    // stack is [1, 2] (MRU last), focus 3; closing 3 pops 2 as new focus
    st.on_window_closed(3);
    assert_eq!(st.current_focus(), 2);
    assert_eq!(st.trigger_candidates(), vec![1]);
}

#[test]
fn close_focused_window_with_empty_stack_yields_reserved_id() {
    let mut st = FocusState::new(4);
    st.on_window_closed(4);
    assert_eq!(st.current_focus(), NONE_WINDOW);
    assert_eq!(st.stack_len(), 0);
}

#[test]
fn close_unfocused_window_only_deletes_its_entry() {
    let mut st = FocusState::new(1);
    st.on_focus_changed(2);
    st.on_focus_changed(3);
    st.on_window_closed(1);
    assert_eq!(st.current_focus(), 3);
    assert_eq!(st.trigger_candidates(), vec![2]);
}

#[test]
fn close_unknown_window_is_ignored() {
    let mut st = FocusState::new(1);
    st.on_focus_changed(2);
    st.on_window_closed(99);
    assert_eq!(st.current_focus(), 2);
    assert_eq!(st.trigger_candidates(), vec![1]);
}

#[test]
fn trigger_with_empty_stack_attempts_nothing_and_changes_nothing() {
    let mut st = FocusState::new(5);
    let candidates = st.trigger_candidates();
    assert!(candidates.is_empty());
    let mut attempts: u32 = 0;
    for id in candidates {
        attempts += 1;
        let _ = id;
    }
    assert_eq!(attempts, 0);
    // no commit happens; the state is untouched
    assert_eq!(st.current_focus(), 5);
    assert_eq!(st.stack_len(), 0);
    // even a stray commit of an absent id leaves the state as it was
    st.trigger_commit(17);
    assert_eq!(st.current_focus(), 5);
    assert_eq!(st.stack_len(), 0);
}

#[test]
fn trigger_skips_stale_top_and_removes_the_entry_that_succeeded() {
    // stack [1, 2] (MRU last), focus 3; the focus command fails for the
    // MRU-top candidate 2 (stale) and succeeds for 1.
    let mut st = FocusState::new(1);
    st.on_focus_changed(2);
    st.on_focus_changed(3);
    let candidates = st.trigger_candidates();
    assert_eq!(candidates, vec![2, 1]);

    let command_succeeds = |id: i64| id == 1; // 2 is stale
    let mut attempts: Vec<i64> = Vec::new();
    let mut valid_id = None;
    for &id in &candidates {
        attempts.push(id); // exactly one command attempt per candidate
        if command_succeeds(id) {
            valid_id = Some(id);
            break;
        }
    }
    assert_eq!(attempts, vec![2, 1]);
    assert_eq!(valid_id, Some(1));
    if let Some(id) = valid_id {
        st.trigger_commit(id);
    }
    // the stale entry remains, the succeeding entry is gone
    assert_eq!(st.trigger_candidates(), vec![2]);
    assert!(st.stack_contains(2));
    assert!(!st.stack_contains(1));
    assert_eq!(st.current_focus(), 3);
}

#[test]
fn select_switch_target_picks_first_success() {
    assert_eq!(select_switch_target(&vec![2, 1], &vec![false, true]), Some(1));
    assert_eq!(select_switch_target(&vec![2, 1], &vec![true, true]), Some(2));
    assert_eq!(select_switch_target(&vec![2, 1], &vec![false, false]), None);
    assert_eq!(select_switch_target(&Vec::new(), &Vec::new()), None);
}

#[test]
fn distinct_focus_events_never_duplicate_nor_keep_current_in_stack() {
    // a run of focus changes with pairwise distinct, never-seen ids
    let mut st = FocusState::new(100);
    for id in 101..130 {
        st.on_focus_changed(id);
        let candidates = st.trigger_candidates();
        assert_no_duplicates(&candidates);
        assert!(!st.stack_contains(st.current_focus()));
    }
    assert_eq!(st.stack_len(), 29);
}

#[test]
fn interleaved_events_and_triggers_never_duplicate() {
    // a deterministic pseudo-random interleaving of focus changes (with
    // colliding ids), closes, and trigger scans, as the lock would
    // serialize them; the stack must stay duplicate-free throughout
    let mut st = FocusState::new(1);
    let mut seed: u64 = 0x2545F491_4F6C_DD1D;
    let mut next = || {
        seed = seed.wrapping_mul(6364136223846793005).wrapping_add(1442695040888963407);
        (seed >> 33) as i64
    };
    for _ in 0..500 {
        let id = 1 + next().rem_euclid(8);
        match next().rem_euclid(4) {
            0 | 1 => st.on_focus_changed(id),
            2 => st.on_window_closed(id),
            _ => {
                // a trigger whose command succeeds for even ids only
                let candidates = st.trigger_candidates();
                let mut valid_id = None;
                for &c in &candidates {
                    if c % 2 == 0 {
                        valid_id = Some(c);
                        break;
                    }
                }
                if let Some(v) = valid_id {
                    st.trigger_commit(v);
                }
            }
        }
        let candidates = st.trigger_candidates();
        assert_no_duplicates(&candidates);
    }
}

#[test]
fn trigger_commit_touches_only_the_named_entry() {
    let mut st = FocusState::new(1);
    st.on_focus_changed(2);
    st.on_focus_changed(3);
    st.on_focus_changed(4);
    assert_eq!(st.trigger_candidates(), vec![3, 2, 1]);
    st.trigger_commit(2);
    assert_eq!(st.trigger_candidates(), vec![3, 1]);
    assert_eq!(st.current_focus(), 4);
}
