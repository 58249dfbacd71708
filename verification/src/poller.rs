//! Idempotent tracking of batches already surfaced for execution.
//!
//! The poller's periodic cycle scans the ledger for finalized batches
//! and surfaces each at most once. The process-lifetime memory of
//! surfaced ids — the processed set — and the per-cycle selection of
//! fresh ids live here; the interval loop and the ledger reads around
//! them are I/O and live outside the library.

use vstd::hash_set::HashSetWithView;
use vstd::prelude::*;

verus! {

/// The ids a cycle surfaces: those of the finalized batches seen in
/// this cycle's snapshot that are not yet in the processed set, in
/// snapshot order.
pub open spec fn spec_new_ids(processed: Set<u64>, ids: Seq<u64>) -> Seq<u64> {
    ids.filter(|id: u64| !processed.contains(id))
}

/// The processed set after a cycle over the given snapshot: it grows by
/// every id seen, and never shrinks.
pub open spec fn spec_after_cycle(processed: Set<u64>, ids: Seq<u64>) -> Set<u64> {
    processed.union(ids.to_set())
}

/// Process-lifetime memory of batch ids already surfaced for
/// execution. It only ever grows.
pub struct ProcessedSet {
    processed: HashSetWithView<u64>,
}

impl View for ProcessedSet {
    type V = Set<u64>;

    closed spec fn view(&self) -> Set<u64> {
        self.processed@
    }
}

impl ProcessedSet {
    /// Create an empty processed set.
    pub fn new() -> (r: ProcessedSet)
        ensures
            r@ == Set::<u64>::empty(),
    {
        proof {
            broadcast use vstd::std_specs::hash::axiom_u64_obeys_hash_table_key_model;

        }
        ProcessedSet { processed: HashSetWithView::new() }
    }

    /// Whether a batch id has already been surfaced.
    pub fn contains(&self, id: u64) -> (r: bool)
        ensures
            r == self@.contains(id),
    {
        self.processed.contains(&id)
    }

    /// Record a batch id as surfaced.
    pub fn insert(&mut self, id: u64)
        ensures
            final(self)@ == old(self)@.insert(id),
    {
        self.processed.insert(id);
    }

    /// One poll cycle's decision over a snapshot of finalized batch
    /// ids: select the ids not yet surfaced — filtered against the set
    /// as it stood when the cycle began — then mark every id in the
    /// snapshot as surfaced.
    pub fn surface_new_batches(&mut self, finalized_ids: &Vec<u64>) -> (fresh: Vec<u64>)
        ensures
            fresh@ == spec_new_ids(old(self)@, finalized_ids@),
            final(self)@ == spec_after_cycle(old(self)@, finalized_ids@),
    {
        let ghost p0 = self@;
        let ghost pred = |id: u64| !p0.contains(id);
        let mut fresh: Vec<u64> = Vec::new();
        let mut i: usize = 0;
        proof {
            reveal(Seq::filter);
            assert(finalized_ids@.take(0) =~= Seq::<u64>::empty());
            assert(fresh@ =~= finalized_ids@.take(0).filter(pred));
        }
        while i < finalized_ids.len()
            invariant
                i <= finalized_ids.len(),
                self@ == p0,
                pred == (|id: u64| !p0.contains(id)),
                fresh@ == finalized_ids@.take(i as int).filter(pred),
            decreases finalized_ids.len() - i,
        {
            let id = finalized_ids[i];
            if !self.contains(id) {
                fresh.push(id);
            }
            proof {
                reveal(Seq::filter);
                let s1 = finalized_ids@.take(i + 1);
                assert(s1.drop_last() =~= finalized_ids@.take(i as int));
                assert(s1.last() == id);
                if pred(id) {
                    assert(s1.filter(pred) == s1.drop_last().filter(pred).push(id));
                } else {
                    assert(s1.filter(pred) == s1.drop_last().filter(pred));
                }
            }
            i = i + 1;
        }
        proof {
            assert(finalized_ids@.take(finalized_ids.len() as int) =~= finalized_ids@);
        }
        let mut j: usize = 0;
        proof {
            assert(self@ =~= p0.union(finalized_ids@.take(0).to_set()));
        }
        while j < finalized_ids.len()
            invariant
                j <= finalized_ids.len(),
                fresh@ == spec_new_ids(p0, finalized_ids@),
                self@ == p0.union(finalized_ids@.take(j as int).to_set()),
            decreases finalized_ids.len() - j,
        {
            let id = finalized_ids[j];
            self.insert(id);
            proof {
                let before = finalized_ids@.take(j as int);
                let after = finalized_ids@.take(j + 1);
                assert forall|a: u64| after.to_set().contains(a) implies before.to_set().insert(
                    id,
                ).contains(a) by {
                    let idx = choose|idx: int| 0 <= idx < after.len() && after[idx] == a;
                    if idx < j {
                        assert(before[idx] == a);
                        assert(before.to_set().contains(a));
                    }
                }
                assert forall|a: u64| before.to_set().insert(id).contains(a) implies
                    after.to_set().contains(a) by {
                    if before.to_set().contains(a) {
                        let idx = choose|idx: int| 0 <= idx < before.len() && before[idx] == a;
                        assert(after[idx] == a);
                    } else {
                        assert(after[j as int] == id);
                    }
                }
                assert(after.to_set() =~= before.to_set().insert(id));
                assert(self@ =~= p0.union(after.to_set()));
            }
            j = j + 1;
        }
        proof {
            assert(finalized_ids@.take(finalized_ids.len() as int) =~= finalized_ids@);
        }
        fresh
    }
}

/// Every id of a snapshot whose ids are all in the processed set is
/// filtered out: the selection is empty.
proof fn lemma_new_ids_all_processed(processed: Set<u64>, ids: Seq<u64>)
    requires
        forall|i: int| 0 <= i < ids.len() ==> processed.contains(#[trigger] ids[i]),
    ensures
        spec_new_ids(processed, ids) == Seq::<u64>::empty(),
    decreases ids.len(),
{
    reveal(Seq::filter);
    if ids.len() > 0 {
        lemma_new_ids_all_processed(processed, ids.drop_last());
        assert(processed.contains(ids.last()));
    }
}

/// Running the poller's cycle twice over an unchanged ledger state
/// never surfaces the same batch id twice: after one cycle has marked
/// the snapshot's ids, a second cycle over the same snapshot selects
/// nothing.
pub proof fn lemma_second_cycle_surfaces_nothing(processed: Set<u64>, ids: Seq<u64>)
    ensures
        spec_new_ids(spec_after_cycle(processed, ids), ids) == Seq::<u64>::empty(),
{
    let after = spec_after_cycle(processed, ids);
    assert forall|i: int| 0 <= i < ids.len() implies after.contains(#[trigger] ids[i]) by {
        assert(ids.to_set().contains(ids[i]));
    }
    lemma_new_ids_all_processed(after, ids);
}

} // verus!
