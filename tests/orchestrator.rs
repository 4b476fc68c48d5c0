use dukascopy::meta::{instrument_key, missing_symbols, start_within_history, strip_envelope};
use dukascopy::{classify, Disposition, Outcome, Retrier, UtcDay};

fn urls(names: &[&str]) -> Vec<String> {
    names.iter().map(|s| s.to_string()).collect()
}

#[test]
fn responses_are_classified() {
    assert_eq!(classify(Some(200), 10), Disposition::Decode);
    assert_eq!(classify(Some(200), 0), Disposition::NoData);
    assert_eq!(classify(Some(404), 0), Disposition::NoData);
    assert_eq!(classify(Some(404), 5), Disposition::NoData);
    assert_eq!(classify(Some(500), 5), Disposition::Retry);
    assert_eq!(classify(Some(503), 0), Disposition::Retry);
    assert_eq!(classify(None, 0), Disposition::Retry);
}

#[test]
fn not_found_is_never_failed_and_transient_fails_after_retries() {
    let mut run = Retrier::new(urls(&["missing", "flaky", "good"]), 2);
    assert!(run.settle(&vec![Outcome::NoData, Outcome::Transient, Outcome::Stored]));
    assert_eq!(run.pending(), &urls(&["flaky"]));
    assert_eq!(run.retries_left(), 1);
    assert!(run.settle(&vec![Outcome::Transient]));
    assert_eq!(run.retries_left(), 0);
    assert!(!run.settle(&vec![Outcome::Transient]));
    assert!(run.pending().is_empty());
    assert_eq!(run.failed(), &urls(&["flaky"]));
}

#[test]
fn retry_that_succeeds_leaves_nothing_failed() {
    let mut run = Retrier::new(urls(&["a", "b"]), 3);
    assert!(run.settle(&vec![Outcome::Transient, Outcome::Transient]));
    assert!(run.settle(&vec![Outcome::Stored, Outcome::Transient]));
    assert_eq!(run.pending(), &urls(&["b"]));
    assert!(!run.settle(&vec![Outcome::NoData]));
    assert!(run.failed().is_empty());
}

#[test]
fn corrupt_payload_is_reported_without_touching_siblings() {
    let mut run = Retrier::new(urls(&["x", "y", "z"]), 1);
    assert!(run.settle(&vec![Outcome::Corrupt, Outcome::Transient, Outcome::Stored]));
    assert_eq!(run.failed(), &urls(&["x"]));
    assert_eq!(run.pending(), &urls(&["y"]));
    assert!(!run.settle(&vec![Outcome::Stored]));
    assert_eq!(run.failed(), &urls(&["x"]));
}

#[test]
fn zero_retries_reports_first_failures() {
    let mut run = Retrier::new(urls(&["a", "b"]), 0);
    assert!(!run.settle(&vec![Outcome::Transient, Outcome::Stored]));
    assert_eq!(run.failed(), &urls(&["a"]));
}

#[test]
fn empty_run_is_over_at_once() {
    let mut run = Retrier::new(Vec::new(), 5);
    assert!(!run.settle(&Vec::new()));
    assert!(run.failed().is_empty());
}

#[test]
fn envelope_is_stripped() {
    assert_eq!(strip_envelope("jsonp({\"a\":1})"), Some(String::from("{\"a\":1}")));
    assert_eq!(strip_envelope("jsonp()"), Some(String::new()));
    assert_eq!(strip_envelope("short"), None);
}

#[test]
fn instrument_keys_drop_slashes() {
    assert_eq!(instrument_key("EUR/USD"), "EURUSD");
    assert_eq!(instrument_key("BRENT.CMD/USD"), "BRENT.CMDUSD");
    assert_eq!(instrument_key("XAUUSD"), "XAUUSD");
}

#[test]
fn unknown_symbols_are_found_case_blind() {
    let known = urls(&["EURUSD", "GBPUSD"]);
    let asked = urls(&["eurusd", "XYZ", "GBPUSD", "abc"]);
    assert_eq!(missing_symbols(&asked, &known), urls(&["XYZ", "abc"]));
    assert!(missing_symbols(&urls(&["gbpusd"]), &known).is_empty());
}

#[test]
fn start_is_moved_to_history_start() {
    let start = UtcDay::from_ymd(2003, 1, 5).unwrap();
    // 2003-05-05T12:00:00Z
    let history = 1052136000000i64;
    let moved = start_within_history(start, history).unwrap();
    assert_eq!(moved.ymd(), (2003, 5, 5));
    let early = start_within_history(start, 0).unwrap();
    assert_eq!(early, start);
    // 1969-12-31T23:59:59.999Z lies on the day before the epoch
    let old = UtcDay::from_ymd(1969, 1, 1).unwrap();
    let before_epoch = start_within_history(old, -1).unwrap();
    assert_eq!(before_epoch.ymd(), (1969, 12, 31));
    assert!(start_within_history(start, i64::MAX).is_none());
}
