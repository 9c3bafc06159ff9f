use datadog_archives::batch::{BatchAccumulator, DatadogArchivesDefaultBatchSettings};
use datadog_archives::value::LogEvent;

const KEY16: &str = "/dt=20210823/hour=16/";
const KEY17: &str = "/dt=20210823/hour=17/";

#[test]
fn default_batch_settings() {
    assert_eq!(DatadogArchivesDefaultBatchSettings::max_bytes(), 100_000_000);
    assert!(DatadogArchivesDefaultBatchSettings::max_events().is_none());
    assert_eq!(DatadogArchivesDefaultBatchSettings::timeout_secs(), 900);
}

#[test]
fn flushes_when_size_threshold_crossed() {
    let mut acc = BatchAccumulator::new(100, 900_000);
    let r1 = acc.push(KEY16.to_string(), LogEvent::new(1), 60, 0);
    assert!(r1.is_none());
    let r2 = acc.push(KEY16.to_string(), LogEvent::new(2), 60, 1);
    let b = r2.expect("batch must flush once the estimate reaches the threshold");
    assert_eq!(b.partition_key, KEY16);
    assert_eq!(b.size_estimate, 120);
    assert_eq!(b.events.len(), 2);
    assert_eq!(b.events[0].token, 1);
    assert_eq!(b.events[1].token, 2);

    // the key is empty again: a new batch opens for the next event
    let r3 = acc.push(KEY16.to_string(), LogEvent::new(3), 10, 2);
    assert!(r3.is_none());
}

#[test]
fn single_oversized_event_flushes_immediately() {
    let mut acc = BatchAccumulator::new(100, 900_000);
    let r = acc.push(KEY16.to_string(), LogEvent::new(1), 150, 0);
    let b = r.expect("an event at or over the threshold flushes its batch at once");
    assert_eq!(b.events.len(), 1);
    assert_eq!(b.size_estimate, 150);
}

#[test]
fn keys_accumulate_independently() {
    let mut acc = BatchAccumulator::new(100, 900_000);
    assert!(acc.push(KEY16.to_string(), LogEvent::new(1), 60, 0).is_none());
    assert!(acc.push(KEY17.to_string(), LogEvent::new(2), 60, 0).is_none());
    // crossing the threshold on one key leaves the other batch open
    let b = acc
        .push(KEY16.to_string(), LogEvent::new(3), 60, 1)
        .expect("first key must flush");
    assert_eq!(b.partition_key, KEY16);
    assert!(acc.push(KEY17.to_string(), LogEvent::new(4), 10, 1).is_none());
}

#[test]
fn flushes_on_timeout() {
    let mut acc = BatchAccumulator::new(1_000_000, 900_000);
    assert!(acc.push(KEY16.to_string(), LogEvent::new(1), 10, 0).is_none());
    assert!(acc
        .push(KEY17.to_string(), LogEvent::new(2), 10, 600_000)
        .is_none());

    // nothing is due before the timeout
    let early = acc.poll_expired(899_999);
    assert!(early.is_empty());

    // the first batch is 900 s old, the second only 300 s
    let flushed = acc.poll_expired(900_000);
    assert_eq!(flushed.len(), 1);
    assert_eq!(flushed[0].partition_key, KEY16);
    assert_eq!(flushed[0].events.len(), 1);

    let flushed = acc.poll_expired(1_500_000);
    assert_eq!(flushed.len(), 1);
    assert_eq!(flushed[0].partition_key, KEY17);

    assert!(acc.poll_expired(2_000_000).is_empty());
}
