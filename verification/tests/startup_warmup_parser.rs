use statsig_forward_proxy::datastore::data_providers::startup_warmup_parser::{
    load_startup_warmup_keys_from_env, parse_startup_warmup_encodings,
    parse_startup_warmup_keys_json, parse_startup_warmup_path, read_warmup_entries,
    validate_startup_warmup_sdk_key, EnvValue, StartupWarmupParseError,
};
use statsig_forward_proxy::servers::normalized_path::NormalizedPath;
use statsig_forward_proxy::utils::compress_encoder::CompressionEncoder;

#[test]
fn parse_startup_warmup_keys_json_parses_valid_entries() {
    let raw = r#"
    [
      {
        "sdk_key": "client-a",
        "path": "/v1/download_config_specs"
      },
      {
        "sdk_key": "client-b",
        "path": "/v2/download_config_specs",
        "encodings": ["gzip"]
      }
    ]
    "#;

    let parsed = parse_startup_warmup_keys_json(raw).unwrap_or_else(|e| panic!("{e:?}"));
    assert_eq!(parsed.configured_count, 2);
    assert_eq!(parsed.invalid_count, 0);
    assert_eq!(parsed.store_items.len(), 2);

    let plain_item = parsed
        .store_items
        .iter()
        .find(|item| item.request_context.path == NormalizedPath::V1DownloadConfigSpecs)
        .expect("Expected /v1/download_config_specs entry");
    assert_eq!(plain_item.request_context.sdk_key, "client-a");
    assert_eq!(
        plain_item.request_context.encodings,
        vec![CompressionEncoder::PlainText]
    );
    assert_eq!(plain_item.lcut, 0);

    let gzip_item = parsed
        .store_items
        .iter()
        .find(|item| item.request_context.path == NormalizedPath::V2DownloadConfigSpecs)
        .expect("Expected /v2/download_config_specs entry");
    assert_eq!(gzip_item.request_context.sdk_key, "client-b");
    assert_eq!(
        gzip_item.request_context.encodings,
        vec![CompressionEncoder::Gzip]
    );
    assert_eq!(gzip_item.lcut, 0);
}

#[test]
fn parse_startup_warmup_keys_json_accepts_current_statsig_sdk_key_prefixes() {
    let raw = r#"
    [
      {
        "sdk_key": "client-key",
        "path": "/v1/download_config_specs"
      },
      {
        "sdk_key": "secret-key",
        "path": "/v2/download_config_specs"
      },
      {
        "sdk_key": "server-key",
        "path": "/v1/get_id_lists"
      }
    ]
    "#;

    let parsed = parse_startup_warmup_keys_json(raw).unwrap_or_else(|e| panic!("{e:?}"));

    assert_eq!(parsed.configured_count, 3);
    assert_eq!(parsed.invalid_count, 0);
    assert_eq!(parsed.store_items.len(), 3);
    assert_eq!(parsed.store_items[0].request_context.sdk_key, "client-key");
    assert_eq!(parsed.store_items[1].request_context.sdk_key, "secret-key");
    assert_eq!(parsed.store_items[2].request_context.sdk_key, "server-key");
}

#[test]
fn parse_startup_warmup_keys_json_applies_current_encoding_normalization() {
    let raw = r#"
    [
      {
        "sdk_key": "client-a",
        "path": "/v1/download_config_specs",
        "encodings": ["br"]
      },
      {
        "sdk_key": "client-b",
        "path": "/v1/get_id_lists",
        "encodings": ["statsig-br", "gzip"]
      }
    ]
    "#;

    let parsed = parse_startup_warmup_keys_json(raw).unwrap_or_else(|e| panic!("{e:?}"));
    assert_eq!(parsed.configured_count, 2);
    assert_eq!(parsed.invalid_count, 0);
    assert_eq!(parsed.store_items.len(), 2);
    assert_eq!(
        parsed.store_items[0].request_context.encodings,
        vec![CompressionEncoder::PlainText]
    );
    assert_eq!(
        parsed.store_items[1].request_context.encodings,
        vec![CompressionEncoder::StatsigBrotli, CompressionEncoder::Gzip]
    );
}

#[test]
fn parse_startup_warmup_keys_json_skips_invalid_entries() {
    let raw = r#"
    [
      {
        "sdk_key": "",
        "path": "/v1/download_config_specs"
      },
      {
        "sdk_key": "client-a",
        "path": "/v1/unknown"
      },
      {
        "sdk_key": "client-b",
        "path": "/v2/download_config_specs",
        "encodings": []
      },
      {
        "sdk_key": "client-c",
        "path": "/v1/get_id_lists"
      }
    ]
    "#;

    let parsed = parse_startup_warmup_keys_json(raw).unwrap_or_else(|e| panic!("{e:?}"));
    assert_eq!(parsed.configured_count, 4);
    assert_eq!(parsed.invalid_count, 3);
    assert_eq!(parsed.store_items.len(), 1);
    assert_eq!(parsed.store_items[0].request_context.sdk_key, "client-c");
    assert_eq!(
        parsed.store_items[0].request_context.path,
        NormalizedPath::V1GetIdLists
    );
    assert_eq!(
        parsed.store_items[0].request_context.encodings,
        vec![CompressionEncoder::PlainText]
    );
}

#[test]
fn parse_startup_warmup_keys_json_skips_entries_with_invalid_sdk_key_prefixes() {
    let raw = r#"
    [
      {
        "sdk_key": "invalid-key",
        "path": "/v1/download_config_specs"
      },
      {
        "sdk_key": "not-a-client-secret-or-server-key",
        "path": "/v2/download_config_specs"
      },
      {
        "sdk_key": " server-key ",
        "path": "/v1/get_id_lists"
      }
    ]
    "#;

    let parsed = parse_startup_warmup_keys_json(raw).unwrap_or_else(|e| panic!("{e:?}"));

    assert_eq!(parsed.configured_count, 3);
    assert_eq!(parsed.invalid_count, 2);
    assert_eq!(parsed.store_items.len(), 1);
    assert_eq!(parsed.store_items[0].request_context.sdk_key, "server-key");
}

#[test]
fn parse_startup_warmup_keys_json_skips_schema_invalid_entries_without_dropping_valid_ones() {
    let raw = r#"
    [
      {
        "sdk_key": "client-a",
        "path": "/v1/download_config_specs"
      },
      {
        "sdk_key": "client-b"
      },
      {
        "sdk_key": "client-c",
        "path": 123
      },
      {
        "sdk_key": "client-d",
        "path": "/v2/download_config_specs"
      }
    ]
    "#;

    let parsed = parse_startup_warmup_keys_json(raw).unwrap_or_else(|e| panic!("{e:?}"));
    assert_eq!(parsed.configured_count, 4);
    assert_eq!(parsed.invalid_count, 2);
    assert_eq!(parsed.store_items.len(), 2);
    assert_eq!(parsed.store_items[0].request_context.sdk_key, "client-a");
    assert_eq!(parsed.store_items[1].request_context.sdk_key, "client-d");
}

#[test]
fn warmup_errors_are_told_apart() {
    assert!(matches!(
        validate_startup_warmup_sdk_key(""),
        Err(StartupWarmupParseError::EmptySdkKey)
    ));
    assert!(matches!(
        validate_startup_warmup_sdk_key("other-key"),
        Err(StartupWarmupParseError::InvalidSdkKeyPrefix)
    ));
    assert!(matches!(
        parse_startup_warmup_path("/v1/unknown"),
        Err(StartupWarmupParseError::UnsupportedPath(path)) if path == "/v1/unknown"
    ));
    assert!(matches!(
        parse_startup_warmup_encodings(&Some(vec!["snappy".to_string()])),
        Err(StartupWarmupParseError::InvalidEncodings(_))
    ));
    assert!(matches!(
        parse_startup_warmup_keys_json("{"),
        Err(StartupWarmupParseError::InvalidJson(_))
    ));
    assert!(matches!(
        load_startup_warmup_keys_from_env(&EnvValue::NotUnicode),
        Err(StartupWarmupParseError::InvalidUtf8Env)
    ));
}

#[test]
fn a_missing_variable_warms_nothing_up() {
    assert!(matches!(
        load_startup_warmup_keys_from_env(&EnvValue::Missing),
        Ok(None)
    ));
    let text = EnvValue::Text(
        "[{\"sdk_key\": \"client-a\", \"path\": \"/v1/get_id_lists\"}]".to_string(),
    );
    match load_startup_warmup_keys_from_env(&text) {
        Ok(Some(parsed)) => assert_eq!(parsed.store_items.len(), 1),
        _ => panic!("expected an entry"),
    }
}

#[test]
fn entries_are_read_one_by_one() {
    let parsed = read_warmup_entries(&vec![
        "{\"sdk_key\": \"client-a\", \"path\": \"/v1/get_id_lists\"}".to_string(),
        "17".to_string(),
    ]);
    assert_eq!(parsed.configured_count, 2);
    assert_eq!(parsed.invalid_count, 1);
    assert_eq!(parsed.store_items.len(), 1);
}
