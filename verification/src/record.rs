//! Per-id data: parsed records, parser results, and the classification of
//! one fetch-and-parse operation into exactly one outcome.

use vstd::prelude::*;
use vstd::string::StringExecFns;

use crate::csv::append_decimal;
use crate::csv::spec_decimal;

verus! {

/// A successfully parsed, existing case.
pub struct Record {
    /// Numeric suffix of the receipt number (service-center code excluded).
    pub id: u64,
    /// Case title extracted from the page.
    pub title: String,
    /// Case body text extracted from the page.
    pub body: String,
}

/// What the page parser reports for one response body.
pub enum ParseResult {
    /// The page describes an existing case.
    Valid { title: String, body: String },
    /// The remote system reports the id as not a valid case.
    InvalidCase { reason: String },
    /// The page matches neither known shape; a structural fault.
    Unrecognized,
}

/// The classification of one per-id fetch-and-parse operation.
pub enum FetchOutcome {
    /// The id exists and its page parsed.
    Found { record: Record },
    /// The remote system reports the id as not a valid case.
    InvalidId { id: u64 },
    /// The transport layer failed even after its retries were exhausted.
    TransportFailure { id: u64, cause: String },
    /// The response had a shape the parser does not recognize.
    UnrecognizedPage { id: u64 },
}

impl FetchOutcome {
    /// The id the outcome speaks of.
    pub open spec fn spec_id(self) -> u64 {
        match self {
            FetchOutcome::Found { record } => record.id,
            FetchOutcome::InvalidId { id } => id,
            FetchOutcome::TransportFailure { id, .. } => id,
            FetchOutcome::UnrecognizedPage { id } => id,
        }
    }
}

/// Result of one whole batch: `Success` when at least one record was
/// obtained, `Empty` when none was.
pub enum BatchResult {
    Success,
    Empty,
}

impl BatchResult {
    pub open spec fn is_success(self) -> bool {
        self is Success
    }
}

/// Classifies what the parser reported for the page of `id` into the one
/// outcome it corresponds to: a valid page yields the record, a reported
/// invalid case yields `InvalidId`, and an unrecognized shape stays a
/// distinct fault, never conflated with the other two.
pub fn classify(id: u64, parsed: ParseResult) -> (outcome: FetchOutcome)
    ensures
        outcome == spec_classify(id, parsed),
        outcome.spec_id() == id,
{
    match parsed {
        ParseResult::Valid { title, body } => FetchOutcome::Found {
            record: Record { id, title, body },
        },
        ParseResult::InvalidCase { reason: _ } => FetchOutcome::InvalidId { id },
        ParseResult::Unrecognized => FetchOutcome::UnrecognizedPage { id },
    }
}

/// What `classify` returns.
pub open spec fn spec_classify(id: u64, parsed: ParseResult) -> FetchOutcome {
    match parsed {
        ParseResult::Valid { title, body } => FetchOutcome::Found {
            record: Record { id, title, body },
        },
        ParseResult::InvalidCase { .. } => FetchOutcome::InvalidId { id },
        ParseResult::Unrecognized => FetchOutcome::UnrecognizedPage { id },
    }
}

/// Classification is a partition: every outcome is exactly one of the four
/// kinds, so none is double-counted and none is dropped silently.
pub proof fn lemma_outcome_partition(outcome: FetchOutcome)
    ensures
        (outcome is Found) as int + (outcome is InvalidId) as int + (
        outcome is TransportFailure) as int + (outcome is UnrecognizedPage) as int == 1,
{
}

/// The full receipt number of one case: the service-center code followed
/// by the decimal rendering of the numeric suffix.
pub fn receipt_number(service_center: &str, id: u64) -> (r: String)
    ensures
        r@ == service_center@ + spec_decimal(id as nat),
{
    let mut r = String::new();
    r.append(service_center);
    append_decimal(&mut r, id);
    proof {
        assert(r@ =~= service_center@ + spec_decimal(id as nat));
    }
    r
}

} // verus!
