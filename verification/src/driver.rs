//! The driver: decides which batch index to process next.
//!
//! Two modes. With an end index, every batch in `[from_id, to_id)` is
//! processed whatever each one yields. Without one, the run advances one
//! batch at a time and halts the first time a batch yields no record.

use vstd::prelude::*;

use crate::record::BatchResult;

verus! {

/// The run configuration: where to fetch from, which batches, and where
/// the files go.
pub struct App {
    service_center: String,
    from_id: u64,
    to_id: Option<u64>,
    save_path: String,
}

impl App {
    /// The service-center code.
    pub closed spec fn spec_service_center(self) -> Seq<char> {
        self.service_center@
    }

    /// The first batch index.
    pub closed spec fn spec_from_id(self) -> u64 {
        self.from_id
    }

    /// The end of the fixed range, or `None` for auto-stop.
    pub closed spec fn spec_to_id(self) -> Option<u64> {
        self.to_id
    }

    /// The directory the batch files are written into.
    pub closed spec fn spec_save_path(self) -> Seq<char> {
        self.save_path@
    }

    /// A run over batches `[from_id, to_id)`, or with auto-stop when
    /// `to_id` is `None`.
    pub fn new(service_center: String, from_id: u64, to_id: Option<u64>, save_path: String) -> (a:
        App)
        ensures
            a.spec_service_center() == service_center@,
            a.spec_from_id() == from_id,
            a.spec_to_id() == to_id,
            a.spec_save_path() == save_path@,
    {
        App { service_center, from_id, to_id, save_path }
    }

    /// The service-center code.
    pub fn service_center(&self) -> (r: &String)
        ensures
            r@ == self.spec_service_center(),
    {
        &self.service_center
    }

    /// The end of the fixed range, or `None` for auto-stop.
    pub fn to_id(&self) -> (r: Option<u64>)
        ensures
            r == self.spec_to_id(),
    {
        self.to_id
    }

    /// The directory the batch files are written into.
    pub fn save_path(&self) -> (r: &String)
        ensures
            r@ == self.spec_save_path(),
    {
        &self.save_path
    }

    /// The driver for this run, standing at the first batch.
    pub fn driver(&self) -> (d: Driver)
        ensures
            d.spec_next_id() == self.spec_from_id(),
            d.spec_to_id() == self.spec_to_id(),
            !d.spec_stopped(),
    {
        Driver { next_id: self.from_id, to_id: self.to_id, stopped: false }
    }
}

/// The driver's state: the next batch index, the optional end index, and
/// whether an auto-stop run has halted.
pub struct Driver {
    next_id: u64,
    to_id: Option<u64>,
    stopped: bool,
}

impl Driver {
    /// The batch index the driver stands at.
    pub closed spec fn spec_next_id(self) -> u64 {
        self.next_id
    }

    /// The end of the fixed range, or `None` for auto-stop.
    pub closed spec fn spec_to_id(self) -> Option<u64> {
        self.to_id
    }

    /// Whether an auto-stop run has halted.
    pub closed spec fn spec_stopped(self) -> bool {
        self.stopped
    }

    /// The batch to process next: `None` once the run is over. A fixed
    /// range ends when the end index is reached; an auto-stop run ends
    /// when a batch has come back empty.
    pub open spec fn spec_next_batch(self) -> Option<u64> {
        if self.spec_stopped() {
            None
        } else {
            match self.spec_to_id() {
                Some(t) => if self.spec_next_id() < t {
                    Some(self.spec_next_id())
                } else {
                    None
                },
                None => Some(self.spec_next_id()),
            }
        }
    }

    /// A driver standing at `from_id`.
    pub fn new(from_id: u64, to_id: Option<u64>) -> (d: Driver)
        ensures
            d.spec_next_id() == from_id,
            d.spec_to_id() == to_id,
            !d.spec_stopped(),
    {
        Driver { next_id: from_id, to_id, stopped: false }
    }

    /// The batch to process next, or `None` once the run is over.
    pub fn next_batch(&self) -> (r: Option<u64>)
        ensures
            r == self.spec_next_batch(),
    {
        if self.stopped {
            None
        } else {
            match self.to_id {
                Some(t) => if self.next_id < t {
                    Some(self.next_id)
                } else {
                    None
                },
                None => Some(self.next_id),
            }
        }
    }

    /// Where one processed batch with this result takes the driver: a
    /// fixed range advances unconditionally; an auto-stop run advances on
    /// `Success` and halts on `Empty`.
    pub closed spec fn spec_step(self, result: BatchResult) -> Driver {
        match self.to_id {
            Some(_) => Driver { next_id: (self.next_id + 1) as u64, ..self },
            None => if result is Success {
                Driver { next_id: (self.next_id + 1) as u64, ..self }
            } else {
                Driver { stopped: true, ..self }
            },
        }
    }

    /// Records the result of the batch just processed and moves on. In a
    /// fixed range the driver advances whatever the result was; in an
    /// auto-stop run it advances on `Success` and halts on `Empty`.
    pub fn advance(&mut self, result: BatchResult)
        requires
            old(self).spec_next_batch() is Some,
            old(self).spec_next_id() < u64::MAX,
        ensures
            *final(self) == old(self).spec_step(result),
            final(self).spec_to_id() == old(self).spec_to_id(),
            old(self).spec_to_id() is Some ==> final(self).spec_next_id() == old(
                self,
            ).spec_next_id() + 1 && !final(self).spec_stopped(),
            old(self).spec_to_id() is None && result is Success ==> final(self).spec_next_id()
                == old(self).spec_next_id() + 1 && !final(self).spec_stopped(),
            old(self).spec_to_id() is None && !(result is Success) ==> final(self).spec_stopped()
                && final(self).spec_next_id() == old(self).spec_next_id(),
    {
        match self.to_id {
            Some(_) => {
                self.next_id = self.next_id + 1;
            },
            None => {
                match result {
                    BatchResult::Success => {
                        self.next_id = self.next_id + 1;
                    },
                    BatchResult::Empty => {
                        self.stopped = true;
                    },
                }
            },
        }
    }
}

/// The batch indices a run processes when the batches it reaches come
/// back with `results`, in order: each processed batch consumes the next
/// result, and the run ends when the driver has no next batch (or the
/// results run out).
pub open spec fn spec_run(d: Driver, results: Seq<BatchResult>) -> Seq<u64>
    decreases results.len(),
{
    if d.spec_next_batch() is None || results.len() == 0 {
        Seq::empty()
    } else {
        seq![d.spec_next_batch()->0] + spec_run(d.spec_step(results[0]), results.drop_first())
    }
}

/// Auto-stop termination: a driver standing at `from` with no end index,
/// fed `k` batches that each yield a record and then one that yields
/// none, processes exactly the `k + 1` batches `from ..= from + k` and
/// halts.
pub proof fn lemma_auto_stop_exact(d: Driver, results: Seq<BatchResult>, k: int)
    requires
        d.spec_to_id() is None,
        !d.spec_stopped(),
        0 <= k < results.len(),
        forall|i: int| 0 <= i < k ==> results[i] is Success,
        results[k] is Empty,
        d.spec_next_id() + k <= u64::MAX,
    ensures
        spec_run(d, results) == Seq::new((k + 1) as nat, |i: int| (d.spec_next_id() + i) as u64),
    decreases k,
{
    let from = d.spec_next_id();
    assert(d.spec_next_batch() == Some(from));
    if k == 0 {
        let d2 = d.spec_step(results[0]);
        assert(d2.spec_stopped());
        assert(spec_run(d2, results.drop_first()) == Seq::<u64>::empty());
        assert(spec_run(d, results) =~= Seq::new(1nat, |i: int| (from + i) as u64));
    } else {
        let d2 = d.spec_step(results[0]);
        assert(d2.spec_next_id() == from + 1 && d2.spec_to_id() is None && !d2.spec_stopped());
        assert(forall|i: int| 0 <= i < k - 1 ==> results.drop_first()[i] is Success);
        assert(results.drop_first()[k - 1] is Empty);
        lemma_auto_stop_exact(d2, results.drop_first(), k - 1);
        assert(spec_run(d, results) =~= Seq::new((k + 1) as nat, |i: int| (from + i) as u64));
    }
}

} // verus!
