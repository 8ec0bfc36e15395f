use homemetrics::email::{
    batch_size, BatchAction, BatchState, BlueRiotStrategy, MessageOutcome, ProcessingResult,
    XSenseStrategy,
};
use homemetrics::timestamp::{first_parsed, parse_export_timestamp, parse_timestamp, Timestamp};

fn ts(seconds: i64) -> Option<Timestamp> {
    Some(Timestamp { seconds, nanos: 0 })
}

#[test]
fn timestamp_formats() {
    assert_eq!(parse_timestamp("2025-01-02T03:04:05+01:00"), ts(1735783445));
    assert_eq!(parse_timestamp("2025-01-02T03:04:05Z"), ts(1735787045));
    assert_eq!(parse_timestamp("2025-01-02 03:04:05"), ts(1735787045));
    assert_eq!(parse_timestamp("2025-01-02T03:04:05"), ts(1735787045));
    assert_eq!(parse_timestamp("02/01/2025 03:04:05"), ts(1735787045));
    assert_eq!(parse_timestamp("12/31/2025 03:04:05"), ts(1767150245));
    assert_eq!(parse_timestamp("yesterday"), None);
    assert_eq!(parse_export_timestamp("2025/11/04 23:59"), ts(1762300740));
}

#[test]
fn first_parsed_takes_the_first_present() {
    assert_eq!(first_parsed(&vec![None, ts(5), ts(7)]), ts(5));
    assert_eq!(first_parsed(&vec![None, None]), None);
}

#[test]
fn processing_counters() {
    let mut r = ProcessingResult::new();
    r.success();
    r.success();
    r.failure();
    assert_eq!(r.emails_processed, 2);
    assert_eq!(r.emails_failed, 1);
    assert_eq!(ProcessingResult::default(), ProcessingResult::new());
}

#[test]
fn strategy_names_and_labels() {
    assert_eq!(XSenseStrategy.processor_name(), "X-Sense");
    assert_eq!(XSenseStrategy.label_name(), "homemetrics-todo-xsense");
    assert_eq!(BlueRiotStrategy.processor_name(), "Blue Riot");
    assert_eq!(BlueRiotStrategy.label_name(), "homemetrics/todo/blueriot");
}

#[test]
fn batch_decisions() {
    let s = BatchState::new();
    let (s, a) = s.step(MessageOutcome::Extracted { records: 3 }, false);
    assert_eq!(a, BatchAction::MarkProcessed);
    let (s, a) = s.step(MessageOutcome::Extracted { records: 0 }, false);
    assert_eq!(a, BatchAction::LeaveUnmarked);
    let (s, a) = s.step(MessageOutcome::Failed, false);
    assert_eq!(a, BatchAction::ReportFailure);
    assert_eq!(s, BatchState { processed: 2, records: 3, failed: 1 });
    let (s, a) = s.step(MessageOutcome::Extracted { records: 2 }, true);
    assert_eq!(a, BatchAction::LeaveUnmarked);
    let (s, a) = s.step(MessageOutcome::Failed, true);
    assert_eq!(a, BatchAction::LeaveUnmarked);
    assert_eq!(s, BatchState { processed: 3, records: 5, failed: 2 });
    assert_eq!(batch_size(10, Some(3)), 3);
    assert_eq!(batch_size(2, Some(3)), 2);
    assert_eq!(batch_size(7, None), 7);
}
