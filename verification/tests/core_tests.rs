use opt_scraper::csv::append_decimal;
use opt_scraper::csv::unescape_body;
use opt_scraper::csv::unescape_title;
use opt_scraper::Action;
use opt_scraper::App;
use opt_scraper::Batch;
use opt_scraper::BatchResult;
use opt_scraper::Driver;
use opt_scraper::FetchEngine;
use opt_scraper::FetchOutcome;
use opt_scraper::ParseResult;
use opt_scraper::Record;

fn classify_is(parsed: ParseResult, id: u64) -> FetchOutcome {
    opt_scraper::record::classify(id, parsed)
}

#[test]
fn classify_valid_page_yields_record() {
    let outcome = classify_is(
        ParseResult::Valid { title: String::from("T"), body: String::from("B") },
        42,
    );
    match outcome {
        FetchOutcome::Found { record } => {
            assert_eq!(record.id, 42);
            assert_eq!(record.title, "T");
            assert_eq!(record.body, "B");
        }
        _ => panic!("a valid page must classify as a found record"),
    }
}

#[test]
fn classify_invalid_case_yields_invalid_id() {
    let outcome = classify_is(
        ParseResult::InvalidCase { reason: String::from("Validation Error") },
        7,
    );
    assert!(matches!(outcome, FetchOutcome::InvalidId { id: 7 }));
}

#[test]
fn classify_unrecognized_stays_distinct() {
    let outcome = classify_is(ParseResult::Unrecognized, 9);
    assert!(matches!(outcome, FetchOutcome::UnrecognizedPage { id: 9 }));
    assert!(!matches!(outcome, FetchOutcome::InvalidId { .. }));
}

#[test]
fn decimal_rendering_exact() {
    let mut s = String::new();
    append_decimal(&mut s, 0);
    assert_eq!(s, "0");
    let mut s = String::new();
    append_decimal(&mut s, 1000);
    assert_eq!(s, "1000");
    let mut s = String::new();
    append_decimal(&mut s, u64::MAX);
    assert_eq!(s, "18446744073709551615");
}

#[test]
fn receipt_number_joins_center_and_suffix() {
    assert_eq!(opt_scraper::record::receipt_number("YSC", 1001), "YSC1001");
    assert_eq!(opt_scraper::record::receipt_number("", 0), "0");
}

#[test]
fn empty_batch_file_is_header_only() {
    let batch = Batch::new(String::from("YSC"), 2190042);
    assert_eq!(batch.csv_text(), "id,title,body\n");
    assert!(matches!(batch.result(), BatchResult::Empty));
}

#[test]
fn file_name_joins_center_and_index() {
    let batch = Batch::new(String::from("YSC"), 2190042);
    assert_eq!(batch.file_name(), "YSC2190042.csv");
}

#[test]
fn unescape_title_reads_backslash_quotes() {
    assert_eq!(unescape_title("a\\\"b"), "a\"b");
    assert_eq!(unescape_title("no quotes"), "no quotes");
    assert_eq!(unescape_title(""), "");
}

#[test]
fn unescape_body_reads_doubled_quotes() {
    assert_eq!(unescape_body("a\"\"b"), "a\"b");
    assert_eq!(unescape_body("no quotes"), "no quotes");
    assert_eq!(unescape_body(""), "");
}

/// Drives one whole batch: answers every launched id with `outcome_of`,
/// completing in-flight operations latest-first, so completion order
/// differs from submission order. Checks the concurrency bound as it goes.
fn drive_batch(
    batch: Batch,
    limit: usize,
    threshold: usize,
    outcome_of: impl Fn(u64) -> FetchOutcome,
) -> (Batch, BatchResult, usize) {
    let mut engine = FetchEngine::new(batch, limit, threshold);
    let mut pending: Vec<u64> = Vec::new();
    let mut launched: usize = 0;
    let mut invalid_seen: usize = 0;
    loop {
        assert!(pending.len() <= limit, "more operations in flight than the limit");
        match engine.next_action() {
            Action::Launch { id } => {
                assert!(pending.len() < limit);
                assert!(
                    invalid_seen < threshold,
                    "a candidate was launched after the abort threshold was reached"
                );
                let got = engine.launch();
                assert_eq!(got, id);
                pending.push(id);
                launched += 1;
            }
            Action::Await => {
                let id = pending.pop().expect("nothing in flight to wait for");
                let outcome = outcome_of(id);
                if matches!(outcome, FetchOutcome::InvalidId { .. }) {
                    invalid_seen += 1;
                }
                engine.complete(outcome);
            }
            Action::Done => {
                assert!(pending.is_empty());
                break;
            }
        }
    }
    let (batch, result) = engine.finish();
    (batch, result, launched)
}

#[test]
fn records_sorted_regardless_of_completion_order() {
    let batch = Batch::new(String::from("YSC"), 7);
    let (batch, result, _) = drive_batch(batch, 50, 100, |id| {
        // A handful of existing cases among early candidates, found in
        // whatever order the window drains them.
        if id == 7005 || id == 7010 || id == 7031 {
            FetchOutcome::Found {
                record: Record {
                    id,
                    title: format!("title {}", id),
                    body: format!("body {}", id),
                },
            }
        } else {
            FetchOutcome::InvalidId { id }
        }
    });
    assert!(matches!(result, BatchResult::Success));
    let ids: Vec<u64> = batch.records().iter().map(|r| r.id).collect();
    assert_eq!(ids, vec![7005, 7010, 7031]);
    for w in ids.windows(2) {
        assert!(w[0] < w[1], "records must be strictly ascending by id");
    }
}

#[test]
fn early_abort_stops_admission_but_drains() {
    let batch = Batch::new(String::from("YSC"), 0);
    let (batch, result, launched) = drive_batch(batch, 50, 100, |id| FetchOutcome::InvalidId {
        id,
    });
    assert!(matches!(result, BatchResult::Empty));
    assert_eq!(batch.records().len(), 0);
    // Admission stops once 100 invalid ids have been seen; everything
    // already in flight is still drained, so the total stays well under
    // the batch size but can exceed the bare threshold by the window.
    assert!(launched >= 100);
    assert!(launched <= 100 + 50);
}

#[test]
fn transport_failures_and_faults_are_dropped_not_counted() {
    let batch = Batch::new(String::from("YSC"), 1);
    // Every id fails in a way that must not move the invalid counter: the
    // whole batch is admitted, and the result is empty.
    let (batch, result, launched) = drive_batch(batch, 10, 100, |id| {
        if id % 2 == 0 {
            FetchOutcome::TransportFailure { id, cause: String::from("connection reset") }
        } else {
            FetchOutcome::UnrecognizedPage { id }
        }
    });
    assert!(matches!(result, BatchResult::Empty));
    assert_eq!(batch.records().len(), 0);
    assert_eq!(launched, 1000);
}

#[test]
fn csv_round_trip_recovers_fields() {
    let batch = Batch::new(String::from("YSC"), 1);
    let (batch, result, _) = drive_batch(batch, 3, 100, |id| {
        if id == 1001 {
            FetchOutcome::Found {
                record: Record {
                    id,
                    title: String::from("Title \"A\""),
                    body: String::from("Body \"B\""),
                },
            }
        } else {
            FetchOutcome::InvalidId { id }
        }
    });
    assert!(matches!(result, BatchResult::Success));
    let text = batch.csv_text();
    assert_eq!(
        text,
        "id,title,body\n\"YSC1001\",\"Title \\\"A\\\"\",\"Body \"\"B\"\"\"\n"
    );

    // Re-parse the produced file: one header line, then quote-enclosed
    // fields split on the `","` separators.
    let mut lines = text.lines();
    assert_eq!(lines.next(), Some("id,title,body"));
    let row = lines.next().expect("one record row");
    assert_eq!(lines.next(), None);
    let inner = row.strip_prefix('"').unwrap().strip_suffix('"').unwrap();
    let fields: Vec<&str> = inner.split("\",\"").collect();
    assert_eq!(fields.len(), 3);
    let id: u64 = fields[0].strip_prefix("YSC").unwrap().parse().unwrap();
    let title = unescape_title(fields[1]);
    let body = unescape_body(fields[2]);
    assert_eq!(id, 1001);
    assert_eq!(title, "Title \"A\"");
    assert_eq!(body, "Body \"B\"");
}

#[test]
fn auto_stop_processes_exactly_through_first_empty() {
    // Batches 0 through 4 yield a record each; batch 5 yields none.
    let mut driver = Driver::new(0, None);
    let mut processed: Vec<u64> = Vec::new();
    while let Some(batch_index) = driver.next_batch() {
        processed.push(batch_index);
        let result = if batch_index < 5 { BatchResult::Success } else { BatchResult::Empty };
        driver.advance(result);
    }
    assert_eq!(processed, vec![0, 1, 2, 3, 4, 5]);
    assert!(driver.next_batch().is_none());
}

#[test]
fn fixed_range_continues_past_empty_batches() {
    let mut driver = Driver::new(3, Some(6));
    let mut processed: Vec<u64> = Vec::new();
    while let Some(batch_index) = driver.next_batch() {
        processed.push(batch_index);
        // Every batch comes back empty; a fixed range advances anyway.
        driver.advance(BatchResult::Empty);
    }
    assert_eq!(processed, vec![3, 4, 5]);
}

#[test]
fn app_carries_run_configuration() {
    let app = App::new(
        String::from("YSC"),
        2190042,
        None,
        String::from("./data"),
    );
    assert_eq!(app.service_center().as_str(), "YSC");
    assert_eq!(app.save_path().as_str(), "./data");
    let driver = app.driver();
    assert_eq!(driver.next_batch(), Some(2190042));
}
