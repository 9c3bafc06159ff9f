use datadog_archives::batch::Batch;
use datadog_archives::config::S3Config;
use datadog_archives::normalize::partition_key_for;
use datadog_archives::object_key::{generate_object_key, object_key_from};
use datadog_archives::request::DatadogS3RequestBuilder;
use datadog_archives::time::capture_now;
use datadog_archives::value::{LogEvent, Value};

#[test]
fn s3_build_request() {
    let fake_buf: Vec<u8> = Vec::new();
    let mut log = LogEvent::from_message("test message".to_string(), 1);
    let timestamp = chrono::DateTime::parse_from_rfc3339("2021-08-23T18:00:27.879+02:00")
        .expect("invalid test case")
        .timestamp_millis();
    log.insert("timestamp".to_string(), Value::Timestamp(timestamp));
    let key = partition_key_for(&log, capture_now());

    let request_builder = DatadogS3RequestBuilder::new(
        "dd-logs".to_string(),
        Some("audit".to_string()),
        S3Config::default(),
    );

    let batch = Batch {
        partition_key: key,
        events: vec![log],
        size_estimate: 42,
        opened_at: 0,
    };
    let (metadata, _events) = request_builder.split_input(batch);
    assert_eq!(metadata.byte_size, 42);
    let req = request_builder.build_request(metadata, fake_buf.clone());

    let expected_key_prefix = "audit/dt=20210823/hour=16/archive_";
    let expected_key_ext = ".json.gz";
    println!("{}", req.key);
    assert!(req.key.starts_with(expected_key_prefix));
    assert!(req.key.ends_with(expected_key_ext));
    let uuid1 = &req.key[expected_key_prefix.len()..req.key.len() - expected_key_ext.len()];
    assert_eq!(uuid1.len(), 36);
    let uuid1 = uuid1.to_string();

    // check that the second batch has a different UUID
    let log2 = LogEvent::from_message("test message".to_string(), 2);
    let key = partition_key_for(&log2, capture_now());
    let batch = Batch {
        partition_key: key,
        events: vec![log2],
        size_estimate: 42,
        opened_at: 0,
    };
    let (metadata, _events) = request_builder.split_input(batch);
    let req = request_builder.build_request(metadata, fake_buf);

    let uuid2 = &req.key[expected_key_prefix.len()..req.key.len() - expected_key_ext.len()];

    assert_ne!(uuid1, uuid2);
}

#[test]
fn object_key_never_contains_double_slash() {
    let key = object_key_from(
        &Some("logs//archive/".to_string()),
        "/dt=20210823/hour=16/",
        "the-uuid",
    );
    assert!(!key.contains("//"));
    assert_eq!(key, "logs/archive/dt=20210823/hour=16/archive_the-uuid.json.gz");
}

#[test]
fn empty_prefix_collapses_leading_separator() {
    let key = object_key_from(&None, "/dt=20210823/hour=16/", "u");
    assert_eq!(key, "/dt=20210823/hour=16/archive_u.json.gz");
    assert!(!key.contains("//"));
}

#[test]
fn distinct_flushes_same_partition_distinct_keys() {
    let k1 = generate_object_key(Some("audit".to_string()), "/dt=20210823/hour=16/".to_string());
    let k2 = generate_object_key(Some("audit".to_string()), "/dt=20210823/hour=16/".to_string());
    assert_ne!(k1, k2);
    assert!(!k1.contains("//"));
    assert!(!k2.contains("//"));
}

#[test]
fn delivery_tokens_survive_split_and_build() {
    let events = vec![
        LogEvent::from_message("a".to_string(), 11),
        LogEvent::from_message("b".to_string(), 22),
        LogEvent::from_message("c".to_string(), 33),
    ];
    let builder = DatadogS3RequestBuilder::new(
        "dd-logs".to_string(),
        None,
        S3Config::default(),
    );
    let batch = Batch {
        partition_key: "/dt=20210823/hour=16/".to_string(),
        events,
        size_estimate: 777,
        opened_at: 5,
    };
    let (metadata, events_back) = builder.split_input(batch);
    assert_eq!(metadata.finalizers, vec![11, 22, 33]);
    assert_eq!(metadata.count, 3);
    assert_eq!(metadata.byte_size, 777);
    assert_eq!(events_back.len(), 3);
    let req = builder.build_request(metadata, vec![1, 2, 3]);
    assert_eq!(req.metadata.finalizers, vec![11, 22, 33]);
    assert_eq!(req.metadata.byte_size, 777);
    assert_eq!(req.body, vec![1, 2, 3]);
    assert_eq!(req.content_encoding, "gzip");
}
