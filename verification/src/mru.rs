//! The most-recently-used stack of window identifiers.
//!
//! The stack is an ordered sequence of window identifiers with the most
//! recently used entry at the end.  It never holds the same identifier
//! twice: pushing an identifier that is already present moves it to the
//! MRU end instead of duplicating it.

use vstd::prelude::*;

verus! {

/// `s` without its occurrence of `id`; `s` itself when `id` is absent.
///
/// On a duplicate-free sequence the occurrence is unique, so the index
/// picked by `index_of` is determined.
pub open spec fn seq_remove_id(s: Seq<i64>, id: i64) -> Seq<i64> {
    if s.contains(id) {
        s.remove(s.index_of(id))
    } else {
        s
    }
}

/// The sequence after pushing `id` at the MRU end: any existing occurrence
/// of `id` is removed first, then `id` is appended.
pub open spec fn seq_push_most_recent(s: Seq<i64>, id: i64) -> Seq<i64> {
    seq_remove_id(s, id).push(id)
}

/// On a duplicate-free sequence, the index of `id` is the one position
/// where `id` is found.
pub proof fn lemma_index_of_unique(s: Seq<i64>, id: i64, i: int)
    requires
        s.no_duplicates(),
        0 <= i < s.len(),
        s[i] == id,
    ensures
        s.contains(id),
        s.index_of(id) == i,
{
    assert(s.contains(id));
    let j = s.index_of(id);
    assert(0 <= j < s.len() && s[j] == id);
    assert(j == i);
}

/// What removing `id` does to a duplicate-free sequence: the result is
/// duplicate-free, no longer holds `id`, holds every other element exactly
/// as before, and is shorter by one exactly when `id` was present.
pub proof fn lemma_seq_remove_id(s: Seq<i64>, id: i64)
    requires
        s.no_duplicates(),
    ensures
        seq_remove_id(s, id).no_duplicates(),
        !seq_remove_id(s, id).contains(id),
        s.contains(id) ==> seq_remove_id(s, id).len() == s.len() - 1,
        !s.contains(id) ==> seq_remove_id(s, id) == s,
        forall|x: i64| x != id ==> (seq_remove_id(s, id).contains(x) <==> s.contains(x)),
{
    if s.contains(id) {
        let i = s.index_of(id);
        assert(0 <= i < s.len() && s[i] == id);
        let r = s.remove(i);
        s.remove_ensures(i);
        assert forall|a: int, b: int|
            0 <= a < r.len() && 0 <= b < r.len() && a != b implies r[a] != r[b] by {
            let sa: int = if a < i { a } else { a + 1 };
            let sb: int = if b < i { b } else { b + 1 };
            assert(r[a] == s[sa]);
            assert(r[b] == s[sb]);
        }
        assert forall|a: int| 0 <= a < r.len() implies r[a] != id by {
            let sa: int = if a < i { a } else { a + 1 };
            assert(r[a] == s[sa]);
            assert(sa != i);
        }
        assert(!r.contains(id));
        assert forall|x: i64| x != id && s.contains(x) implies r.contains(x) by {
            let k = choose|k: int| 0 <= k < s.len() && s[k] == x;
            let rk: int = if k < i { k } else { k - 1 };
            assert(r[rk] == s[k]);
        }
        assert forall|x: i64| x != id && r.contains(x) implies s.contains(x) by {
            let k = choose|k: int| 0 <= k < r.len() && r[k] == x;
            let sk: int = if k < i { k } else { k + 1 };
            assert(r[k] == s[sk]);
        }
    }
}

/// Appending an element that is absent from a duplicate-free sequence keeps
/// it duplicate-free.
pub proof fn lemma_push_fresh_no_duplicates(s: Seq<i64>, id: i64)
    requires
        s.no_duplicates(),
        !s.contains(id),
    ensures
        s.push(id).no_duplicates(),
{
    let p = s.push(id);
    assert forall|a: int, b: int|
        0 <= a < p.len() && 0 <= b < p.len() && a != b implies p[a] != p[b] by {
        if a < s.len() && b < s.len() {
            assert(p[a] == s[a] && p[b] == s[b]);
        } else if a < s.len() {
            assert(p[b] == id && p[a] == s[a]);
            assert(s[a] != id) by {
                if s[a] == id {
                    assert(s.contains(id));
                }
            }
        } else {
            assert(p[a] == id && p[b] == s[b]);
            assert(s[b] != id) by {
                if s[b] == id {
                    assert(s.contains(id));
                }
            }
        }
    }
}

/// Dropping the last element of a duplicate-free sequence keeps it
/// duplicate-free, and the dropped element is not among the rest.
pub proof fn lemma_drop_last_no_duplicates(s: Seq<i64>)
    requires
        s.no_duplicates(),
        s.len() > 0,
    ensures
        s.drop_last().no_duplicates(),
        !s.drop_last().contains(s.last()),
{
    let d = s.drop_last();
    assert forall|a: int, b: int|
        0 <= a < d.len() && 0 <= b < d.len() && a != b implies d[a] != d[b] by {
        assert(d[a] == s[a]);
        assert(d[b] == s[b]);
    }
    assert forall|a: int| 0 <= a < d.len() implies d[a] != s.last() by {
        assert(d[a] == s[a]);
    }
    assert(!d.contains(s.last()));
}

/// The ordered most-recently-used stack of window identifiers, MRU entry
/// last.  All operations keep the stack free of duplicates.
pub struct MruStack {
    ids: Vec<i64>,
}

impl View for MruStack {
    type V = Seq<i64>;

    closed spec fn view(&self) -> Seq<i64> {
        self.ids@
    }
}

impl MruStack {
    /// Well-formedness: no identifier occurs twice.
    pub open spec fn wf(&self) -> bool {
        self@.no_duplicates()
    }

    /// Creates an empty stack.
    pub fn new() -> (r: MruStack)
        ensures
            r@ == Seq::<i64>::empty(),
            r.wf(),
    {
        MruStack { ids: Vec::new() }
    }

    /// The number of entries currently held.
    pub fn len(&self) -> (r: usize)
        ensures
            r == self@.len(),
    {
        self.ids.len()
    }

    /// Whether `id` is currently held in the stack.
    pub fn contains_id(&self, id: i64) -> (r: bool)
        ensures
            r == self@.contains(id),
    {
        let n: usize = self.ids.len();
        let mut i: usize = 0;
        while i < n
            invariant
                n == self@.len(),
                0 <= i <= n,
                forall|j: int| 0 <= j < i ==> self@[j] != id,
            decreases n - i,
        {
            if self.ids[i] == id {
                return true;
            }
            i = i + 1;
        }
        assert(!self@.contains(id));
        false
    }

    /// Deletes `id` if present; does nothing (and reports nothing) if absent.
    pub fn remove(&mut self, id: i64)
        requires
            old(self).wf(),
        ensures
            final(self)@ == seq_remove_id(old(self)@, id),
            final(self).wf(),
    {
        let n: usize = self.ids.len();
        let mut i: usize = 0;
        while i < n
            invariant
                old(self).wf(),
                self@ == old(self)@,
                n == self@.len(),
                0 <= i <= n,
                forall|j: int| 0 <= j < i ==> self@[j] != id,
            decreases n - i,
        {
            if self.ids[i] == id {
                proof {
                    lemma_index_of_unique(self@, id, i as int);
                    lemma_seq_remove_id(old(self)@, id);
                }
                self.ids.remove(i);
                return;
            }
            i = i + 1;
        }
        assert(!old(self)@.contains(id));
    }

    /// Appends `id` at the MRU end, removing any existing occurrence first,
    /// so that `id` ends up present exactly once, in the MRU position.
    pub fn push_most_recent(&mut self, id: i64)
        requires
            old(self).wf(),
        ensures
            final(self)@ == seq_push_most_recent(old(self)@, id),
            final(self).wf(),
    {
        self.remove(id);
        proof {
            lemma_seq_remove_id(old(self)@, id);
            lemma_push_fresh_no_duplicates(self@, id);
        }
        self.ids.push(id);
    }

    /// Removes and returns the MRU-end entry, or reports an empty stack.
    pub fn pop_most_recent(&mut self) -> (r: Option<i64>)
        requires
            old(self).wf(),
        ensures
            old(self)@.len() == 0 ==> r is None && final(self)@ == old(self)@,
            old(self)@.len() > 0 ==> r == Some(old(self)@.last())
                && final(self)@ == old(self)@.drop_last(),
            final(self).wf(),
    {
        let r = self.ids.pop();
        proof {
            if old(self)@.len() > 0 {
                lemma_drop_last_no_duplicates(old(self)@);
                assert(self@ =~= old(self)@.drop_last());
            }
        }
        r
    }

    /// Returns the entries in a fresh vector, walking from most- to
    /// least-recently-used.  The stack itself is not changed.
    pub fn peek_from_most_recent(&self) -> (r: Vec<i64>)
        ensures
            r@ == self@.reverse(),
    {
        let n: usize = self.ids.len();
        let mut r: Vec<i64> = Vec::new();
        let mut i: usize = 0;
        while i < n
            invariant
                n == self@.len(),
                0 <= i <= n,
                r@.len() == i,
                forall|j: int| 0 <= j < i ==> r@[j] == self@[n - 1 - j],
            decreases n - i,
        {
            r.push(self.ids[n - 1 - i]);
            i = i + 1;
        }
        proof {
            assert(r@ =~= self@.reverse());
        }
        r
    }
}

} // verus!
