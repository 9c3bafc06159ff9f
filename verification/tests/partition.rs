use datadog_archives::normalize::partition_key_for;
use datadog_archives::time::{capture_now, partition_key};
use datadog_archives::value::{LogEvent, Value};

fn millis_of(rfc3339: &str) -> i64 {
    chrono::DateTime::parse_from_rfc3339(rfc3339)
        .expect("invalid test case")
        .timestamp_millis()
}

#[test]
fn generates_valid_key_for_an_event() {
    let mut log = LogEvent::from_message("test message".to_string(), 1);
    let timestamp = millis_of("2021-08-23T18:00:27.879+02:00");
    log.insert("timestamp".to_string(), Value::Timestamp(timestamp));

    let key = partition_key_for(&log, capture_now());

    assert_eq!(key, "/dt=20210823/hour=16/");
}

#[test]
fn same_hour_same_key_adjacent_hours_differ() {
    let t1 = millis_of("2021-08-23T16:00:00+00:00") as u64;
    let t2 = millis_of("2021-08-23T16:59:59.999+00:00") as u64;
    let t3 = millis_of("2021-08-23T17:00:00+00:00") as u64;
    assert_eq!(partition_key(t1), partition_key(t2));
    assert_eq!(partition_key(t1), "/dt=20210823/hour=16/");
    assert_ne!(partition_key(t2), partition_key(t3));
    assert_eq!(partition_key(t3), "/dt=20210823/hour=17/");
}

#[test]
fn key_changes_across_midnight() {
    let t1 = millis_of("2021-12-31T23:59:59.999+00:00") as u64;
    let t2 = millis_of("2022-01-01T00:00:00+00:00") as u64;
    assert_eq!(partition_key(t1), "/dt=20211231/hour=23/");
    assert_eq!(partition_key(t2), "/dt=20220101/hour=00/");
}

#[test]
fn event_without_timestamp_partitions_by_now() {
    let log = LogEvent::from_message("no timestamp".to_string(), 1);
    let now = capture_now();
    let key = partition_key_for(&log, now);
    assert_eq!(key, partition_key(now));
}
