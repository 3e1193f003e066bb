//! Bounded record of recent child exits: a fixed-capacity ring of
//! `(sequence number, exit code)` pairs, oldest entries overwritten first.

use vstd::prelude::*;
use vstd::pervasive::VecAdditionalExecFns;

verus! {

/// First exit code stored under `id`, scanning the stored entries in slot
/// order, or `None`.
pub open spec fn ring_lookup(entries: Seq<(u32, i32)>, id: u32) -> Option<i32>
    decreases entries.len(),
{
    if entries.len() == 0 {
        None
    } else if entries[0].0 == id {
        Some(entries[0].1)
    } else {
        ring_lookup(entries.skip(1), id)
    }
}

/// A lookup succeeds exactly when some stored entry carries the id, and any
/// code it returns is the code of such an entry.
pub proof fn lemma_ring_lookup_some(entries: Seq<(u32, i32)>, id: u32)
    ensures
        (ring_lookup(entries, id) is Some) <==> exists|i: int|
            0 <= i < entries.len() && entries[i].0 == id,
        ring_lookup(entries, id) matches Some(c) ==> exists|i: int|
            0 <= i < entries.len() && entries[i] == (id, c),
    decreases entries.len(),
{
    if entries.len() > 0 && entries[0].0 != id {
        lemma_ring_lookup_some(entries.skip(1), id);
        if exists|i: int| 0 <= i < entries.len() && entries[i].0 == id {
            let i = choose|i: int| 0 <= i < entries.len() && entries[i].0 == id;
            assert(entries.skip(1)[i - 1].0 == id);
        }
        if let Some(c) = ring_lookup(entries, id) {
            let i = choose|i: int|
                0 <= i < entries.skip(1).len() && entries.skip(1)[i] == (id, c);
            assert(entries[i + 1] == (id, c));
        }
    }
}

/// Fixed-capacity record of `(seq, exit_code)` pairs; once full, each new
/// entry overwrites the oldest one.
pub struct ExitInfoRecord {
    child_ids: Vec<u32>,
    exit_codes: Vec<i32>,
    limit: usize,
    start: usize,
    count: usize,
    history: Ghost<Seq<(u32, i32)>>,
}

impl ExitInfoRecord {
    /// Every pair ever recorded, in recording order.
    pub closed spec fn history(self) -> Seq<(u32, i32)> {
        self.history@
    }

    /// The pairs currently stored, in slot order.
    pub closed spec fn entries(self) -> Seq<(u32, i32)> {
        Seq::new(self.count as nat, |i: int| (self.child_ids@[i], self.exit_codes@[i]))
    }

    pub closed spec fn capacity(self) -> nat {
        self.limit as nat
    }

    /// History index held by slot `i`.
    spec fn slot_hist_index(self, i: int) -> int {
        let n = self.history@.len() as int;
        if n <= self.limit {
            i
        } else if i >= self.start {
            n - self.limit + (i - self.start)
        } else {
            n - self.start + i
        }
    }

    pub closed spec fn wf(self) -> bool {
        let n = self.history@.len() as int;
        &&& self.limit >= 1
        &&& self.child_ids@.len() == self.limit
        &&& self.exit_codes@.len() == self.limit
        &&& self.count == if n <= self.limit {
            n
        } else {
            self.limit as int
        }
        &&& (n <= self.limit ==> self.start == 0)
        &&& (n > self.limit ==> self.start < self.limit)
        &&& forall|i: int|
            0 <= i < self.count ==> #[trigger] self.entries()[i] == self.history@[
                self.slot_hist_index(i)]
    }

    /// The stored entries are exactly the last `min(history, capacity)`
    /// recordings: nothing is forgotten before `capacity` newer exits exist.
    pub proof fn lemma_recent_exit_recorded(self, k: int)
        requires
            self.wf(),
            0 <= k < self.history().len(),
            self.history().len() - k <= self.capacity(),
        ensures
            exists|i: int| 0 <= i < self.entries().len() && self.entries()[i] == self.history()[k],
    {
        let n = self.history@.len() as int;
        if n <= self.limit {
            assert(self.entries()[k] == self.history@[self.slot_hist_index(k)]);
        } else {
            let offset = k - (n - self.limit);
            let i = if self.start + offset < self.limit {
                self.start + offset
            } else {
                self.start + offset - self.limit
            };
            assert(self.entries()[i] == self.history@[self.slot_hist_index(i)]);
            assert(self.slot_hist_index(i) == k);
        }
    }

    /// Every stored entry is one of the recordings.
    pub proof fn lemma_entries_recorded(self, i: int)
        requires
            self.wf(),
            0 <= i < self.entries().len(),
        ensures
            exists|k: int| 0 <= k < self.history().len() && self.history()[k] == self.entries()[i],
    {
        let k = self.slot_hist_index(i);
        assert(self.entries()[i] == self.history@[k]);
        assert(0 <= k < self.history().len());
    }

    pub fn new(limit: usize) -> (r: ExitInfoRecord)
        requires
            limit >= 1,
        ensures
            r.wf(),
            r.history() == Seq::<(u32, i32)>::empty(),
            r.capacity() == limit,
    {
        let r = ExitInfoRecord {
            child_ids: vec![0u32; limit],
            exit_codes: vec![0i32; limit],
            limit,
            start: 0,
            count: 0,
            history: Ghost(Seq::empty()),
        };
        proof {
            assert(r.entries() =~= Seq::<(u32, i32)>::empty());
        }
        r
    }

    /// Record one exit, overwriting the oldest entry when full.
    pub fn set(&mut self, child_id: u32, exit_code: i32)
        requires
            old(self).wf(),
        ensures
            final(self).wf(),
            final(self).history() == old(self).history().push((child_id, exit_code)),
            final(self).capacity() == old(self).capacity(),
    {
        proof {
            self.history@ = self.history@.push((child_id, exit_code));
        }
        if self.count < self.limit {
            self.child_ids.set(self.count, child_id);
            self.exit_codes.set(self.count, exit_code);
            self.count = self.count + 1;
            proof {
                assert forall|i: int| 0 <= i < self.count implies #[trigger] self.entries()[i]
                    == self.history@[self.slot_hist_index(i)] by {
                    if i < self.count - 1 {
                        assert(old(self).entries()[i] == old(self).history@[old(
                            self,
                        ).slot_hist_index(i)]);
                    }
                }
            }
        } else {
            let idx = self.start;
            self.child_ids.set(idx, child_id);
            self.exit_codes.set(idx, exit_code);
            self.start = if idx + 1 == self.limit {
                0
            } else {
                idx + 1
            };
            proof {
                assert forall|i: int| 0 <= i < self.count implies #[trigger] self.entries()[i]
                    == self.history@[self.slot_hist_index(i)] by {
                    if i != idx {
                        assert(old(self).entries()[i] == old(self).history@[old(
                            self,
                        ).slot_hist_index(i)]);
                    }
                }
            }
        }
    }

    /// Look an exit code up by sequence number.
    pub fn get(&self, child_id: u32) -> (r: Option<i32>)
        requires
            self.wf(),
        ensures
            r == ring_lookup(self.entries(), child_id),
    {
        let mut i: usize = 0;
        proof {
            assert(self.entries().skip(0) =~= self.entries());
        }
        while i < self.count
            invariant
                0 <= i <= self.count,
                self.wf(),
                ring_lookup(self.entries(), child_id) == ring_lookup(
                    self.entries().skip(i as int),
                    child_id,
                ),
                forall|j: int| 0 <= j < i ==> #[trigger] self.entries()[j].0 != child_id,
            decreases self.count - i,
    {
            let rest = Ghost(self.entries().skip(i as int));
            if self.child_ids[i] == child_id {
                assert(rest@[0] == self.entries()[i as int]);
                return Some(self.exit_codes[i]);
            }
            proof {
                assert(rest@[0] == self.entries()[i as int]);
                assert(rest@.skip(1) =~= self.entries().skip(i + 1));
            }
            i = i + 1;
        }
        proof {
            assert(self.entries().skip(self.count as int) =~= Seq::<(u32, i32)>::empty());
        }
        None
    }
}

} // verus!
