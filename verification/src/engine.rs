//! The bounded-concurrency fetch engine for one batch.
//!
//! The engine is the coordinator's state machine: it decides, one step at
//! a time, whether to admit the next candidate id, wait for an in-flight
//! operation, or stop. The surrounding binary performs the network work
//! and feeds each operation's outcome back through `complete`. The window
//! never exceeds the concurrency limit, no candidate is admitted once the
//! invalid-id count has reached the threshold, and the accumulated records
//! stay strictly ascending by id.

use vstd::prelude::*;

use crate::batch::BATCH_SIZE;
use crate::batch::Batch;
use crate::batch::sorted_strict;
use crate::record::BatchResult;
use crate::record::FetchOutcome;
use crate::record::Record;
verus! {

/// What the engine asks its driving loop to do next.
pub enum Action {
    /// Start the per-id fetch-and-classify operation for this id.
    Launch { id: u64 },
    /// Wait for any one in-flight operation to complete, then report it
    /// through `complete`.
    Await,
    /// Nothing is in flight and nothing more will be admitted.
    Done,
}

/// The batch coordinator's state.
pub struct FetchEngine {
    batch: Batch,
    concurrency_limit: usize,
    invalid_threshold: usize,
    next_offset: u64,
    in_flight: usize,
    invalid_count: usize,
    outstanding: Ghost<Set<u64>>,
}

impl FetchEngine {
    /// The batch being filled.
    pub closed spec fn spec_batch(self) -> Batch {
        self.batch
    }

    /// The records accumulated so far.
    pub open spec fn spec_records(self) -> Seq<Record> {
        self.spec_batch().spec_records()
    }

    /// The batch index.
    pub open spec fn spec_from_id(self) -> u64 {
        self.spec_batch().spec_from_id()
    }

    /// The window size: how many operations may be in flight at once.
    pub closed spec fn spec_limit(self) -> usize {
        self.concurrency_limit
    }

    /// The invalid-id count at which admission stops.
    pub closed spec fn spec_threshold(self) -> usize {
        self.invalid_threshold
    }

    /// How many of the batch's candidates have been admitted so far.
    pub closed spec fn spec_next_offset(self) -> u64 {
        self.next_offset
    }

    /// How many admitted operations have not completed yet.
    pub closed spec fn spec_in_flight(self) -> usize {
        self.in_flight
    }

    /// How many operations have been classified `InvalidId` so far.
    pub closed spec fn spec_invalid_count(self) -> usize {
        self.invalid_count
    }

    /// The ids admitted but not yet completed.
    pub closed spec fn spec_outstanding(self) -> Set<u64> {
        self.outstanding@
    }

    /// The first candidate id of the batch.
    pub open spec fn spec_base(self) -> int {
        self.spec_from_id() * BATCH_SIZE
    }

    /// Whether `id` is one of the candidates admitted so far.
    pub open spec fn spec_id_admitted(self, id: u64) -> bool {
        self.spec_base() <= id < self.spec_base() + self.spec_next_offset()
    }

    /// The engine's invariant; every exposed operation preserves it.
    pub open spec fn wf(self) -> bool {
        &&& 1 <= self.spec_limit()
        &&& self.spec_in_flight() <= self.spec_limit()
        &&& self.spec_next_offset() <= BATCH_SIZE
        &&& self.spec_base() + (BATCH_SIZE - 1) <= u64::MAX
        &&& self.spec_outstanding().finite()
        &&& self.spec_outstanding().len() == self.spec_in_flight()
        &&& forall|id: u64|
            self.spec_outstanding().contains(id) ==> self.spec_id_admitted(id)
        &&& sorted_strict(self.spec_records())
        &&& forall|k: int|
            0 <= k < self.spec_records().len() ==> self.spec_id_admitted(
                #[trigger] self.spec_records()[k].id,
            ) && !self.spec_outstanding().contains(self.spec_records()[k].id)
        &&& self.spec_records().len() + self.spec_invalid_count() + self.spec_in_flight()
            <= self.spec_next_offset()
    }

    /// Whether one more candidate may be admitted: the batch still has
    /// candidates, the invalid-id threshold has not been reached, and a
    /// window slot is free.
    pub open spec fn can_admit(self) -> bool {
        &&& self.spec_next_offset() < BATCH_SIZE
        &&& self.spec_invalid_count() < self.spec_threshold()
        &&& self.spec_in_flight() < self.spec_limit()
    }

    /// The id the next admission would launch.
    pub open spec fn spec_next_id(self) -> u64 {
        (self.spec_base() + self.spec_next_offset()) as u64
    }

    /// What `next_action` decides, as a function of the state.
    pub open spec fn spec_action(self) -> Action {
        if self.can_admit() {
            Action::Launch { id: self.spec_next_id() }
        } else if self.spec_in_flight() > 0 {
            Action::Await
        } else {
            Action::Done
        }
    }

    /// The whole batch is dealt with: nothing in flight, nothing more to
    /// admit.
    pub open spec fn spec_done(self) -> bool {
        !self.can_admit() && self.spec_in_flight() == 0
    }

    /// A fresh engine for `batch`, which must not have been filled yet.
    pub fn new(batch: Batch, concurrency_limit: usize, invalid_threshold: usize) -> (e:
        FetchEngine)
        requires
            concurrency_limit >= 1,
            batch.spec_records().len() == 0,
            batch.spec_from_id() * BATCH_SIZE + (BATCH_SIZE - 1) <= u64::MAX,
        ensures
            e.wf(),
            e.spec_batch() == batch,
            e.spec_limit() == concurrency_limit,
            e.spec_threshold() == invalid_threshold,
            e.spec_next_offset() == 0,
            e.spec_in_flight() == 0,
            e.spec_invalid_count() == 0,
            e.spec_outstanding() == Set::<u64>::empty(),
    {
        FetchEngine {
            batch,
            concurrency_limit,
            invalid_threshold,
            next_offset: 0,
            in_flight: 0,
            invalid_count: 0,
            outstanding: Ghost(Set::empty()),
        }
    }

    /// Decides the next step. A candidate is launched exactly when the
    /// window has room, candidates remain and the invalid-id count is
    /// still below the threshold; otherwise the loop waits for in-flight
    /// work, and is done once none is left.
    pub fn next_action(&self) -> (a: Action)
        requires
            self.wf(),
        ensures
            a == self.spec_action(),
    {
        if self.next_offset < BATCH_SIZE && self.invalid_count < self.invalid_threshold
            && self.in_flight < self.concurrency_limit {
            let id = self.batch.from_id() * BATCH_SIZE + self.next_offset;
            Action::Launch { id }
        } else if self.in_flight > 0 {
            Action::Await
        } else {
            Action::Done
        }
    }

    /// Brings the next candidate id into the window and hands it out to
    /// be fetched. This happens only while `can_admit` holds.
    pub fn launch(&mut self) -> (id: u64)
        requires
            old(self).wf(),
            old(self).can_admit(),
        ensures
            final(self).wf(),
            id == old(self).spec_next_id(),
            final(self).spec_next_offset() == old(self).spec_next_offset() + 1,
            final(self).spec_in_flight() == old(self).spec_in_flight() + 1,
            final(self).spec_outstanding() == old(self).spec_outstanding().insert(id),
            final(self).spec_records() == old(self).spec_records(),
            final(self).spec_invalid_count() == old(self).spec_invalid_count(),
            final(self).spec_limit() == old(self).spec_limit(),
            final(self).spec_threshold() == old(self).spec_threshold(),
            final(self).spec_batch().spec_from_id() == old(self).spec_batch().spec_from_id(),
            final(self).spec_batch().spec_service_center() == old(
                self,
            ).spec_batch().spec_service_center(),
    {
        let id = self.batch.from_id() * BATCH_SIZE + self.next_offset;
        self.next_offset = self.next_offset + 1;
        self.in_flight = self.in_flight + 1;
        proof {
            if old(self).spec_outstanding().contains(id) {
                assert(old(self).spec_id_admitted(id));
            }
            assert(!old(self).spec_outstanding().contains(id));
        }
        self.outstanding = Ghost(self.outstanding@.insert(id));
        proof {
            assert forall|x: u64| self.outstanding@.contains(x) implies self.spec_id_admitted(
                x,
            ) by {
                if x != id {
                    assert(old(self).spec_outstanding().contains(x));
                    assert(old(self).spec_id_admitted(x));
                }
            }
        }
        id
    }

    /// Takes one completed operation's outcome out of the window and
    /// classifies it: a found record is filed in id order, an invalid id
    /// raises the invalid-id counter by exactly one, and a transport
    /// failure or an unrecognized page leaves the batch untouched — each
    /// outcome is counted exactly once, under exactly one of the four
    /// kinds. The outcome must belong to an id that is actually in
    /// flight.
    pub fn complete(&mut self, outcome: FetchOutcome)
        requires
            old(self).wf(),
            old(self).spec_outstanding().contains(outcome.spec_id()),
        ensures
            final(self).wf(),
            final(self).spec_in_flight() == old(self).spec_in_flight() - 1,
            final(self).spec_outstanding() == old(self).spec_outstanding().remove(
                outcome.spec_id(),
            ),
            final(self).spec_next_offset() == old(self).spec_next_offset(),
            final(self).spec_limit() == old(self).spec_limit(),
            final(self).spec_threshold() == old(self).spec_threshold(),
            final(self).spec_batch().spec_from_id() == old(self).spec_batch().spec_from_id(),
            final(self).spec_batch().spec_service_center() == old(
                self,
            ).spec_batch().spec_service_center(),
            outcome is InvalidId ==> final(self).spec_invalid_count() == old(
                self,
            ).spec_invalid_count() + 1,
            !(outcome is InvalidId) ==> final(self).spec_invalid_count() == old(
                self,
            ).spec_invalid_count(),
            final(self).spec_invalid_count() >= old(self).spec_invalid_count(),
            (outcome matches FetchOutcome::Found { record } ==> exists|k: int|
                0 <= k <= old(self).spec_records().len() && final(self).spec_records() == old(
                    self,
                ).spec_records().insert(k, record)),
            !(outcome is Found) ==> final(self).spec_records() == old(self).spec_records(),
    {
        proof {
            assert(old(self).spec_outstanding().remove(outcome.spec_id()).len() == old(
                self,
            ).spec_outstanding().len() - 1);
        }
        let ghost removed = outcome.spec_id();
        let ghost out_spec = outcome;
        match outcome {
            FetchOutcome::Found { record } => {
                proof {
                    let recs = self.spec_records();
                    assert forall|k: int| 0 <= k < recs.len() implies (#[trigger] recs[k]).id
                        != record.id by {
                        assert(!old(self).spec_outstanding().contains(recs[k].id));
                    }
                }
                self.batch.insert_record_sorted(record);
            },
            FetchOutcome::InvalidId { .. } => {
                self.invalid_count = self.invalid_count + 1;
            },
            FetchOutcome::TransportFailure { .. } => {},
            FetchOutcome::UnrecognizedPage { .. } => {},
        }
        self.in_flight = self.in_flight - 1;
        self.outstanding = Ghost(self.outstanding@.remove(removed));
        proof {
            assert forall|x: u64| self.outstanding@.contains(x) implies self.spec_id_admitted(
                x,
            ) by {
                assert(old(self).spec_outstanding().contains(x));
                assert(old(self).spec_id_admitted(x));
            }
            let s = old(self).spec_records();
            let t = self.spec_records();
            assert forall|k: int|
                0 <= k < t.len() implies self.spec_id_admitted((#[trigger] t[k]).id)
                && !self.outstanding@.contains(t[k].id) by {
                match out_spec {
                    FetchOutcome::Found { record } => {
                        let pos = choose|p: int| 0 <= p <= s.len() && t == s.insert(p, record);
                        assert(0 <= pos <= s.len() && t == s.insert(pos, record));
                        if k < pos {
                            assert(t[k] == s[k]);
                            assert(old(self).spec_id_admitted(s[k].id));
                            assert(!old(self).spec_outstanding().contains(s[k].id));
                        } else if k == pos {
                            assert(t[k] == record);
                            assert(old(self).spec_outstanding().contains(record.id));
                            assert(old(self).spec_id_admitted(record.id));
                        } else {
                            assert(t[k] == s[k - 1]);
                            assert(old(self).spec_id_admitted(s[k - 1].id));
                            assert(!old(self).spec_outstanding().contains(s[k - 1].id));
                        }
                    },
                    _ => {
                        assert(t == s);
                        assert(old(self).spec_id_admitted(s[k].id));
                        assert(!old(self).spec_outstanding().contains(s[k].id));
                    },
                }
            }
        }
    }

    /// Hands the finished batch back, together with its result: `Success`
    /// exactly when at least one record was obtained. The records are
    /// strictly ascending by id, whatever order the operations completed
    /// in.
    pub fn finish(self) -> (r: (Batch, BatchResult))
        requires
            self.wf(),
            self.spec_done(),
        ensures
            r.0 == self.spec_batch(),
            sorted_strict(r.0.spec_records()),
            r.1 is Success <==> r.0.spec_records().len() > 0,
    {
        let result = self.batch.result();
        (self.batch, result)
    }
}

/// The window is bounded: a well-formed engine never has more operations
/// in flight than its concurrency limit.
pub proof fn lemma_concurrency_bound(e: FetchEngine)
    requires
        e.wf(),
    ensures
        e.spec_in_flight() <= e.spec_limit(),
{
}

/// The records a well-formed engine holds are strictly ascending by id —
/// no duplicates — at every point, so in particular when `finish` hands
/// them out, whatever order the operations completed in.
pub proof fn lemma_records_sorted(e: FetchEngine)
    requires
        e.wf(),
    ensures
        sorted_strict(e.spec_records()),
        forall|i: int, j: int|
            0 <= i < j < e.spec_records().len() ==> e.spec_records()[i].id != e.spec_records()[j].id,
{
}

/// Early abort: once the invalid-id count has reached the threshold, no
/// further candidate is admitted. `complete` never lowers the count and
/// never launches, and `launch` demands `can_admit`, so the block is
/// permanent: only in-flight operations are still drained, and each is
/// still counted.
pub proof fn lemma_threshold_blocks_admission(e: FetchEngine)
    requires
        e.spec_invalid_count() >= e.spec_threshold(),
    ensures
        !e.can_admit(),
        !(e.spec_action() is Launch),
{
}

/// What `complete`'s contract guarantees of one completion, whatever the
/// outcome was: no new candidate, the same threshold, and an invalid-id
/// count that never goes down.
pub open spec fn completion_step(pre: FetchEngine, post: FetchEngine) -> bool {
    &&& post.spec_next_offset() == pre.spec_next_offset()
    &&& post.spec_threshold() == pre.spec_threshold()
    &&& post.spec_invalid_count() >= pre.spec_invalid_count()
}

proof fn lemma_abort_chain(states: Seq<FetchEngine>, i: int)
    requires
        0 <= i < states.len(),
        forall|j: int|
            0 <= j < states.len() - 1 ==> completion_step(#[trigger] states[j], states[j + 1]),
    ensures
        states[i].spec_invalid_count() >= states[0].spec_invalid_count(),
        states[i].spec_threshold() == states[0].spec_threshold(),
        states[i].spec_next_offset() == states[0].spec_next_offset(),
    decreases i,
{
    if i > 0 {
        lemma_abort_chain(states, i - 1);
        assert(completion_step(states[i - 1], states[i]));
    }
}

/// Early abort is permanent: along any run of completions that starts
/// with the invalid-id count at or above the threshold, no state ever
/// admits a candidate, and the set of admitted candidates never grows —
/// only the work already in flight is drained.
pub proof fn lemma_abort_is_permanent(states: Seq<FetchEngine>)
    requires
        states.len() > 0,
        states[0].spec_invalid_count() >= states[0].spec_threshold(),
        forall|j: int|
            0 <= j < states.len() - 1 ==> completion_step(#[trigger] states[j], states[j + 1]),
    ensures
        forall|i: int|
            0 <= i < states.len() ==> !(#[trigger] states[i]).can_admit(),
        forall|i: int|
            0 <= i < states.len() ==> (#[trigger] states[i]).spec_next_offset()
                == states[0].spec_next_offset(),
{
    assert forall|i: int| 0 <= i < states.len() implies !(#[trigger] states[i]).can_admit()
        && states[i].spec_next_offset() == states[0].spec_next_offset() by {
        lemma_abort_chain(states, i);
    }
}

} // verus!
