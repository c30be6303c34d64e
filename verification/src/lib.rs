//! Bounded-concurrency batch fetch engine for sequential case-status records.
//!
//! The library holds the verified core: the per-id outcome classification,
//! the sliding-window fetch engine with its early-abort rule, the driver
//! that decides which batch to process next, and the CSV rendering of a
//! finished batch. The network, the HTML extraction and the file writes
//! live outside, in the surrounding binary, which drives these state
//! machines and hands them plain values.

pub mod batch;
pub mod csv;
pub mod driver;
pub mod engine;
pub mod record;

pub use batch::Batch;
pub use driver::App;
pub use driver::Driver;
pub use engine::Action;
pub use engine::FetchEngine;
pub use record::BatchResult;
pub use record::FetchOutcome;
pub use record::ParseResult;
pub use record::Record;
