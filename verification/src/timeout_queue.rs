//! A min-ordered schedule of deferred actions.
//!
//! The queue holds (scheduled time, action) pairs and always hands back
//! the earliest one first, whatever the push order was.  It is kept as a
//! vector sorted by ascending time; pushing with a later time than an
//! existing equal entry keeps the earlier entry in front.

use vstd::prelude::*;

verus! {

/// A deferred state transition, scheduled on the timeout queue and
/// consumed exactly once.
#[derive(Clone, Copy, Debug, PartialEq, Eq, Structural)]
pub enum Timeout {
    /// Clears the player's active powerup.
    RemovePowerup,
    /// Puts the game-over message on screen.
    ShowGameOverScreen,
}

/// Entries sorted by non-decreasing scheduled time.
pub open spec fn entries_sorted(s: Seq<(u64, Timeout)>) -> bool {
    forall|i: int, j: int| 0 <= i < j < s.len() ==> #[trigger] s[i].0 <= #[trigger] s[j].0
}

/// The given entry placed into a sorted sequence, after every entry
/// scheduled no later than it.
pub open spec fn insert_sorted(s: Seq<(u64, Timeout)>, e: (u64, Timeout)) -> Seq<(u64, Timeout)>
    decreases s.len(),
{
    if s.len() == 0 {
        seq![e]
    } else if e.0 < s[0].0 {
        seq![e] + s
    } else {
        seq![s[0]] + insert_sorted(s.drop_first(), e)
    }
}

/// The multiset of a sequence with one entry placed in front.
proof fn lemma_cons_to_multiset(e: (u64, Timeout), s: Seq<(u64, Timeout)>)
    ensures
        (seq![e] + s).to_multiset() == s.to_multiset().insert(e),
{
    broadcast use vstd::multiset::group_multiset_axioms;

    vstd::seq_lib::lemma_multiset_commutative(seq![e], s);
    assert(seq![e] =~= Seq::<(u64, Timeout)>::empty().push(e));
    vstd::seq_lib::to_multiset_build(Seq::<(u64, Timeout)>::empty(), e);
    Seq::<(u64, Timeout)>::empty().to_multiset_ensures();
    vstd::multiset::lemma_multiset_empty_len(Seq::<(u64, Timeout)>::empty().to_multiset());
    assert((seq![e] + s).to_multiset() =~= s.to_multiset().insert(e));
}

/// Inserting into a sorted sequence keeps it sorted, grows it by one, and
/// adds exactly the new entry to its contents.
pub proof fn lemma_insert_sorted(s: Seq<(u64, Timeout)>, e: (u64, Timeout))
    requires
        entries_sorted(s),
    ensures
        entries_sorted(insert_sorted(s, e)),
        insert_sorted(s, e).len() == s.len() + 1,
        insert_sorted(s, e).to_multiset() == s.to_multiset().insert(e),
    decreases s.len(),
{
    broadcast use vstd::multiset::group_multiset_axioms;

    s.to_multiset_ensures();
    insert_sorted(s, e).to_multiset_ensures();
    if s.len() == 0 {
        assert(insert_sorted(s, e) =~= seq![e]);
        assert(seq![e] =~= seq![e] + s);
        lemma_cons_to_multiset(e, s);
    } else if e.0 < s[0].0 {
        let r = seq![e] + s;
        assert forall|i: int, j: int| 0 <= i < j < r.len() implies #[trigger] r[i].0
            <= #[trigger] r[j].0 by {
            if i > 0 {
                assert(s[i - 1].0 <= s[j - 1].0);
            } else {
                assert(r[j] == s[j - 1]);
                if j > 1 {
                    assert(s[0].0 <= s[j - 1].0);
                }
            }
        }
        lemma_cons_to_multiset(e, s);
    } else {
        let tail = s.drop_first();
        assert(entries_sorted(tail)) by {
            assert forall|i: int, j: int| 0 <= i < j < tail.len() implies #[trigger] tail[i].0
                <= #[trigger] tail[j].0 by {
                assert(s[i + 1].0 <= s[j + 1].0);
            }
        }
        lemma_insert_sorted(tail, e);
        let it = insert_sorted(tail, e);
        let r = seq![s[0]] + it;
        assert(insert_sorted(s, e) =~= r);
        // the head is no later than everything in the inserted tail
        assert forall|i: int, j: int| 0 <= i < j < r.len() implies #[trigger] r[i].0
            <= #[trigger] r[j].0 by {
            if i > 0 {
                assert(it[i - 1].0 <= it[j - 1].0);
            } else {
                assert(r[j] == it[j - 1]);
                assert(it.to_multiset().contains(it[j - 1])) by {
                    it.to_multiset_ensures();
                }
                assert(tail.to_multiset().insert(e).contains(it[j - 1]));
                if it[j - 1] == e && tail.to_multiset().count(e) == 0 {
                    assert(s[0].0 <= e.0);
                } else {
                    assert(tail.to_multiset().contains(it[j - 1]));
                    tail.to_multiset_ensures();
                    let k = choose|k: int| 0 <= k < tail.len() && tail[k] == it[j - 1];
                    assert(s[0].0 <= s[k + 1].0);
                }
            }
        }
        assert(r.to_multiset() == s.to_multiset().insert(e)) by {
            lemma_cons_to_multiset(s[0], it);
            lemma_cons_to_multiset(s[0], tail);
            assert(s =~= seq![s[0]] + tail);
            assert(it.to_multiset().insert(s[0]) =~= tail.to_multiset().insert(e).insert(s[0]));
            assert(tail.to_multiset().insert(e).insert(s[0]) =~= tail.to_multiset().insert(
                s[0],
            ).insert(e));
        }
    }
}

/// The timeout queue: entries kept sorted by ascending scheduled time.
pub struct TimeoutQueue {
    /// The scheduled entries, sorted by non-decreasing time.
    pub entries: Vec<(u64, Timeout)>,
}

/// The queue's entries are sorted by scheduled time.
pub open spec fn queue_wf(q: TimeoutQueue) -> bool {
    entries_sorted(q.entries@)
}

impl TimeoutQueue {
    /// Returns an empty queue.
    pub fn new() -> (r: TimeoutQueue)
        ensures
            r.entries@.len() == 0,
            queue_wf(r),
    {
        TimeoutQueue { entries: Vec::new() }
    }

    /// The earliest scheduled time, if any, without removing the entry.
    pub fn peek(&self) -> (r: Option<u64>)
        ensures
            self.entries@.len() == 0 ==> r is None,
            self.entries@.len() > 0 ==> r == Some(self.entries@[0].0),
    {
        if self.entries.len() == 0 {
            None
        } else {
            Some(self.entries[0].0)
        }
    }

    /// Schedules an action at the given time.
    pub fn push(&mut self, time: u64, event: Timeout)
        requires
            queue_wf(*old(self)),
        ensures
            queue_wf(*final(self)),
            final(self).entries@ == insert_sorted(old(self).entries@, (time, event)),
            final(self).entries@.len() == old(self).entries@.len() + 1,
    {
        proof {
            lemma_insert_sorted(self.entries@, (time, event));
        }
        let ghost orig = self.entries@;
        let mut i: usize = 0;
        while i < self.entries.len() && self.entries[i].0 <= time
            invariant
                0 <= i <= self.entries@.len(),
                self.entries@ == orig,
                entries_sorted(orig),
                forall|k: int| 0 <= k < i ==> #[trigger] orig[k].0 <= time,
            decreases self.entries@.len() - i,
        {
            i = i + 1;
        }
        self.entries.insert(i, (time, event));
        proof {
            lemma_insert_at_found_index(orig, (time, event), i as int);
            assert(self.entries@ =~= insert_sorted(orig, (time, event)));
        }
    }

    /// Removes and returns the action of the earliest entry, if any.
    pub fn pop(&mut self) -> (r: Option<Timeout>)
        ensures
            old(self).entries@.len() == 0 ==> r is None && *final(self) == *old(self),
            old(self).entries@.len() > 0 ==> r == Some(old(self).entries@[0].1)
                && final(self).entries@ == old(self).entries@.drop_first(),
            queue_wf(*old(self)) ==> queue_wf(*final(self)),
    {
        if self.entries.len() == 0 {
            None
        } else {
            let (_, event) = self.entries.remove(0);
            proof {
                assert(self.entries@ =~= old(self).entries@.drop_first());
                if queue_wf(*old(self)) {
                    assert forall|i: int, j: int|
                        0 <= i < j < self.entries@.len() implies #[trigger] self.entries@[i].0
                        <= #[trigger] self.entries@[j].0 by {
                        assert(old(self).entries@[i + 1].0 <= old(self).entries@[j + 1].0);
                    }
                }
            }
            Some(event)
        }
    }
}

/// Inserting at the first index whose entry is scheduled later matches the
/// recursive sorted insertion.
proof fn lemma_insert_at_found_index(s: Seq<(u64, Timeout)>, e: (u64, Timeout), i: int)
    requires
        entries_sorted(s),
        0 <= i <= s.len(),
        forall|k: int| 0 <= k < i ==> #[trigger] s[k].0 <= e.0,
        i < s.len() ==> s[i].0 > e.0,
    ensures
        insert_sorted(s, e) == s.insert(i, e),
    decreases s.len(),
{
    if s.len() == 0 {
        assert(insert_sorted(s, e) =~= s.insert(0, e));
    } else if e.0 < s[0].0 {
        assert(i == 0);
        assert(insert_sorted(s, e) =~= s.insert(0, e));
    } else {
        assert(i >= 1) by {
            assert(s[0].0 <= e.0);
        }
        let tail = s.drop_first();
        assert(entries_sorted(tail)) by {
            assert forall|p: int, q: int| 0 <= p < q < tail.len() implies #[trigger] tail[p].0
                <= #[trigger] tail[q].0 by {
                assert(s[p + 1].0 <= s[q + 1].0);
            }
        }
        assert(forall|k: int| 0 <= k < i - 1 ==> #[trigger] tail[k].0 <= e.0) by {
            assert forall|k: int| 0 <= k < i - 1 implies #[trigger] tail[k].0 <= e.0 by {
                assert(s[k + 1].0 <= e.0);
            }
        }
        lemma_insert_at_found_index(tail, e, i - 1);
        assert(insert_sorted(s, e) =~= seq![s[0]] + tail.insert(i - 1, e));
        assert(seq![s[0]] + tail.insert(i - 1, e) =~= s.insert(i, e));
    }
}

/// Popped order is non-decreasing in scheduled time: in a well-formed
/// queue the head entry, the one `pop` removes, is scheduled no later than
/// any other entry.
pub proof fn lemma_pop_order(q: TimeoutQueue, i: int)
    requires
        queue_wf(q),
        0 <= i < q.entries@.len(),
    ensures
        q.entries@[0].0 <= q.entries@[i].0,
{
    if i > 0 {
        assert(q.entries@[0].0 <= q.entries@[i].0);
    }
}

} // verus!
