use datadog_archives::config::{
    AzureBlobConfig, ConfigError, DatadogArchivesSinkConfig, GcsConfig, S3Config, S3Options,
    S3StorageClass, ServiceKind,
};

fn gcs_sink_config(metadata: Option<Vec<(String, String)>>) -> DatadogArchivesSinkConfig {
    DatadogArchivesSinkConfig {
        service: "gcp_cloud_storage".to_owned(),
        bucket: "b".to_owned(),
        key_prefix: None,
        aws_s3: None,
        azure_blob: None,
        gcp_cloud_storage: Some(GcsConfig {
            acl: None,
            storage_class: None,
            metadata,
        }),
    }
}

fn s3_config_with_class(class: S3StorageClass) -> DatadogArchivesSinkConfig {
    DatadogArchivesSinkConfig {
        service: "aws_s3".to_owned(),
        bucket: "vector-datadog-archives".to_owned(),
        key_prefix: Some("logs/".to_owned()),
        aws_s3: Some(S3Config {
            options: S3Options {
                storage_class: class,
                ..Default::default()
            },
            region: Some("us-east-1".to_owned()),
            endpoint: None,
        }),
        azure_blob: None,
        gcp_cloud_storage: None,
    }
}

#[test]
fn error_if_unsupported_s3_storage_class() {
    for (class, supported) in [
        (S3StorageClass::Standard, true),
        (S3StorageClass::StandardIa, true),
        (S3StorageClass::IntelligentTiering, true),
        (S3StorageClass::OnezoneIa, true),
        (S3StorageClass::ReducedRedundancy, true),
        (S3StorageClass::DeepArchive, false),
        (S3StorageClass::Glacier, false),
    ] {
        let config = s3_config_with_class(class);

        let res = config.select_service();

        if supported {
            assert!(res.is_ok());
        } else {
            assert_eq!(
                res.err().unwrap().message(),
                format!("Unsupported storage class: {:?}", class)
            );
        }
    }
}

#[test]
fn error_if_unsupported_service() {
    let config = DatadogArchivesSinkConfig {
        service: "local_disk".to_owned(),
        bucket: "b".to_owned(),
        key_prefix: None,
        aws_s3: None,
        azure_blob: None,
        gcp_cloud_storage: None,
    };
    let err = config.select_service().err().expect("service must be rejected");
    assert_eq!(err.message(), "Unsupported service: local_disk");
}

#[test]
fn selects_each_known_service() {
    let s3 = s3_config_with_class(S3StorageClass::Standard);
    assert_eq!(s3.select_service().ok(), Some(ServiceKind::S3));

    let azure = DatadogArchivesSinkConfig {
        service: "azure_blob".to_owned(),
        bucket: "b".to_owned(),
        key_prefix: None,
        aws_s3: None,
        azure_blob: Some(AzureBlobConfig {
            connection_string: "SECRET-REDACTED".to_owned(),
        }),
        gcp_cloud_storage: None,
    };
    assert_eq!(azure.select_service().ok(), Some(ServiceKind::AzureBlob));

    let gcs = gcs_sink_config(None);
    assert_eq!(gcs.select_service().ok(), Some(ServiceKind::Gcs));
}

#[test]
fn validates_gcs_metadata_headers() {
    let good = gcs_sink_config(Some(vec![
        ("x-goog-meta-env".to_string(), "prod logs".to_string()),
        ("x-goog-meta-team".to_string(), "observability".to_string()),
    ]));
    assert_eq!(good.select_service().ok(), Some(ServiceKind::Gcs));

    let bad_name = gcs_sink_config(Some(vec![
        ("x-goog-meta-env".to_string(), "prod".to_string()),
        ("bad header".to_string(), "v".to_string()),
    ]));
    let err = bad_name.select_service().err().expect("invalid header name must be rejected");
    assert_eq!(err.message(), "Invalid metadata header: bad header");

    let bad_value = gcs_sink_config(Some(vec![(
        "x-goog-meta-env".to_string(),
        "line\u{7f}break".to_string(),
    )]));
    let err = bad_value.select_service().err().expect("invalid header value must be rejected");
    assert_eq!(err.message(), "Invalid metadata header: x-goog-meta-env");
}

#[test]
fn unsupported_class_message_names_the_class() {
    let err = ConfigError::UnsupportedStorageClass {
        storage_class: "Glacier".to_owned(),
    };
    assert_eq!(err.message(), "Unsupported storage class: Glacier");
}
