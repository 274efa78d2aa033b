use statsig_forward_proxy::clock::Duration;
use statsig_forward_proxy::datastore::config_spec_store::ConfigSpecStore;
use statsig_forward_proxy::datastore::data_providers::http_data_provider::ResponsePayload;
use statsig_forward_proxy::datastore::deltas_store::{
    DeltaProtoBuildResult, DeltasStore, ParsedDelta, SpecsEnvelope, SpecsEnvelopeKind,
    SpecsTopLevel,
};
use statsig_forward_proxy::datastore::sdk_key_store::SdkKeyStore;
use statsig_forward_proxy::observers::ProxyEventType;
use statsig_forward_proxy::servers::authorized_request_context::{
    AuthorizedRequestContext, AuthorizedRequestContextCache, DownloadIdListFileRequestError,
    DownloadIdListFileRequestGuard, RequestHead,
};
use statsig_forward_proxy::servers::http_apis::healthchecks::{
    health, ready, startup, HealthResponse, ReadyResponse, StartupResponse,
};
use statsig_forward_proxy::servers::http_server::{
    answer_with_deltas, build_download_id_list_file_payload, config_spec_payload,
    config_specs_as_deltas, default_catcher, get_download_config_specs_deltas,
    id_list_file_response, id_lists_payload, to_request_payload,
    to_request_payload_with_delta_used, validate_direct_delta_request, DeltaPayloadError,
    HttpResponse, RequestPayloads, ResponseBody,
};
use statsig_forward_proxy::servers::normalized_path::NormalizedPath;
use statsig_forward_proxy::servers::request_logging_fairing::{
    classify_response_payload_type, on_response, parse_logged_id_list_file_range_start,
    parse_logged_id_list_file_size, request_duration_ms, should_log_response_payload_type,
    LoggedExchange, MISSING_TIMER_SENTINEL_MS,
};
use statsig_forward_proxy::servers::sdk_key_normalizer::{
    extract_download_id_list_file_sdk_key, normalize_sdk_key, redact_sdk_keys, sdk_key_of_path,
    sdk_key_prefix, SdkKeyCache,
};
use statsig_forward_proxy::utils::compress_encoder::CompressionEncoder;
use std::sync::Arc;

fn make_id_list_rc(range_start: Option<u64>) -> Arc<AuthorizedRequestContext> {
    Arc::new(
        AuthorizedRequestContext::new(
            "secret-key".to_string(),
            NormalizedPath::V1DownloadIdListFile,
            vec![CompressionEncoder::PlainText],
        )
        .with_raw_request(
            Some("/v1/download_id_list_file/file_123".to_string()),
            Some("k=secret-key".to_string()),
        )
        .with_id_list_request(Some("file_123".to_string()), range_start, Some(6)),
    )
}

fn make_delta_rc(supports_proto: bool) -> Arc<AuthorizedRequestContext> {
    Arc::new(
        AuthorizedRequestContext::new(
            "secret-key".to_string(),
            NormalizedPath::V2DownloadConfigSpecsDeltas,
            vec![CompressionEncoder::Gzip],
        )
        .with_request_capabilities(supports_proto, true),
    )
}

fn plain(data: &[u8]) -> ResponsePayload {
    ResponsePayload {
        encoding: CompressionEncoder::PlainText,
        use_proto: false,
        data: data.to_vec(),
    }
}

fn header<'a>(response: &'a HttpResponse, name: &str) -> Option<&'a str> {
    response
        .headers
        .iter()
        .find(|(n, _)| n.eq_ignore_ascii_case(name))
        .map(|(_, v)| v.as_str())
}

#[test]
fn build_download_id_list_file_payload_returns_partial_content_for_valid_range() {
    let payload = build_download_id_list_file_payload(
        &make_id_list_rc(Some(2)),
        b"abcdef".to_vec(),
    );

    match payload {
        RequestPayloads::Text {
            data,
            status,
            content_range,
        } => {
            assert_eq!(status, 206);
            assert_eq!(data, b"cdef".to_vec());
            assert_eq!(content_range.as_deref(), Some("bytes 2-5/6"));
        }
        _ => panic!("expected partial text payload"),
    }
}

#[test]
fn build_download_id_list_file_payload_returns_416_for_unsatisfiable_range() {
    let payload = build_download_id_list_file_payload(
        &make_id_list_rc(Some(6)),
        b"abcdef".to_vec(),
    );

    match payload {
        RequestPayloads::RangeNotSatisfiable { complete_length } => {
            assert_eq!(complete_length, 6);
        }
        _ => panic!("expected range not satisfiable payload"),
    }
}

#[test]
fn to_request_payload_preserves_gzip_response_payloads() {
    let payload = Arc::new(ResponsePayload {
        encoding: CompressionEncoder::Gzip,
        use_proto: false,
        data: b"compressed".to_vec(),
    });

    match to_request_payload(&payload, 0) {
        RequestPayloads::Gzipped(data, lcut, delta_used) => {
            assert_eq!(lcut, 0);
            assert!(!delta_used);
            assert_eq!(data, b"compressed".to_vec());
        }
        _ => panic!("expected gzipped request payload"),
    }
}

#[test]
fn direct_delta_request_requires_supports_proto_before_since_time() {
    let rc = make_delta_rc(false);
    let error = validate_direct_delta_request(&rc, None).expect_err("expected error");

    assert_eq!(error.http_status(), 400);
    assert_eq!(error.body(), "supports_proto=true is required");
}

#[test]
fn direct_delta_request_rejects_missing_since_time() {
    let rc = make_delta_rc(true);
    let error = validate_direct_delta_request(&rc, None).expect_err("expected error");

    assert_eq!(error.http_status(), 400);
    assert_eq!(error.body(), "Missing sinceTime parameter");
}

#[test]
fn direct_delta_request_rejects_zero_since_time() {
    let rc = make_delta_rc(true);
    let error = validate_direct_delta_request(&rc, Some(0)).expect_err("expected error");

    assert_eq!(error.http_status(), 400);
    assert_eq!(
        error.body(),
        "sinceTime must be greater than 0 for download_config_specs_deltas"
    );
}

#[test]
fn direct_delta_request_accepts_positive_since_time() {
    let rc = make_delta_rc(true);

    assert_eq!(
        validate_direct_delta_request(&rc, Some(123)).unwrap_or_else(|e| panic!("{e:?}")),
        123
    );
}

#[test]
fn try_from_str_dummy_path_is_raw_path() {
    let dummy_path = "/v1/dummy_path";
    let normalized_path = NormalizedPath::from(dummy_path);
    assert!(normalized_path == NormalizedPath::RawPath(dummy_path.to_string()));
}

#[test]
fn compare_normalized_paths_same_are_equal() {
    let path0 = NormalizedPath::V1DownloadConfigSpecs;
    let path1 = NormalizedPath::V1DownloadConfigSpecs;
    assert_eq!(path0, path1);
}

#[test]
fn compare_normalized_paths_different_are_not_equal() {
    let path0 = NormalizedPath::V1DownloadConfigSpecs;
    let path1 = NormalizedPath::V2DownloadConfigSpecs;
    assert_ne!(path0, path1);
}

#[test]
fn extract_download_id_list_file_sdk_key_handles_realistic_signed_query() {
    let query = "sv=2020-10-02&se=2026-01-27T00%3A23%3A42Z&sr=b&sp=r&sig=L6Sl%2BFRaRQVWVC0E%2B7XGuUCi9SRw1kLEK7FJE%2BnHYiY%3D&k=secret-VcKN8Xxxxxxxx";
    let sdk_key = extract_download_id_list_file_sdk_key(query);

    assert_eq!(sdk_key.as_deref(), Some("secret-VcKN8Xxxxxxxx"));
}

#[test]
fn extract_download_id_list_file_sdk_key_returns_none_when_missing() {
    let query = "sv=2020-10-02&sig=abc";

    assert_eq!(extract_download_id_list_file_sdk_key(query), None);
}

#[test]
fn sdk_key_prefix_matches_existing_logging_behavior() {
    assert_eq!(
        sdk_key_prefix("client-abcdefghijklmnopqrstuvwxyz"),
        "client-abcdefghijklm***"
    );
    assert_eq!(sdk_key_prefix("client-short"), "client-short");
}

#[test]
fn redact_sdk_keys_truncates_every_key_anywhere_in_a_url() {
    assert_eq!(
        redact_sdk_keys(
            "/rgstr/client-abcdefghijklmnopqrstuvwxyz?token=server-abcdefghijklmnopqrstuvwxyz&credential=secret-abcdefghijklmnopqrstuvwxyz&st=javascript-client"
        ),
        "/rgstr/client-abcdefghijklm***?token=server-abcdefghijklm***&credential=secret-abcdefghijklm***&st=javascript-client"
    );
}

#[test]
fn redact_sdk_keys_catches_keys_after_percent_escapes_and_word_characters() {
    assert_eq!(
        redact_sdk_keys(
            "/v1/download_config_specs%2Fclient-abcdefghijklmnopqrstuvwxyz.json?k%3Dsecret-abcdefghijklmnopqrstuvwxyz&x=1server-abcdefghijklmnopqrstuvwxyz"
        ),
        "/v1/download_config_specs%2Fclient-abcdefghijklm***.json?k%3Dsecret-abcdefghijklm***&x=1server-abcdefghijklm***"
    );
}

#[test]
fn redact_sdk_keys_leaves_text_without_long_keys_untouched() {
    let short_key = "No matching routes for GET /v1/nope?k=client-short&st=javascript-client.";
    assert_eq!(redact_sdk_keys(short_key), short_key);

    let no_key = "No matching routes for GET /v1/nope?st=javascript-client.";
    assert!(matches!(
        redact_sdk_keys(no_key),
        std::borrow::Cow::Borrowed(_)
    ));
}

#[test]
fn delta_payloads_include_x_deltas_used_header() {
    let response = to_request_payload_with_delta_used(&plain(b"{}"), 1, true).respond_to();
    assert_eq!(header(&response, "x-deltas-used"), Some("true"));
}

#[test]
fn standard_payloads_do_not_include_x_deltas_used_header() {
    let response = to_request_payload(&plain(b"{}"), 1).respond_to();
    assert_eq!(header(&response, "x-deltas-used"), None);
}

#[test]
fn parse_logged_id_list_file_size_reads_explicit_header() {
    assert_eq!(
        parse_logged_id_list_file_size(&Some("270".to_string())),
        Some(270)
    );
}

#[test]
fn parse_logged_id_list_file_range_start_reads_range_header() {
    assert_eq!(
        parse_logged_id_list_file_range_start(&Some("bytes=270-".to_string())),
        Some(270)
    );
}

#[test]
fn parse_logged_id_list_file_helpers_return_none_for_invalid_headers() {
    assert_eq!(
        parse_logged_id_list_file_size(&Some("not-a-number".to_string())),
        None
    );
    assert_eq!(
        parse_logged_id_list_file_range_start(&Some("items=270-".to_string())),
        None
    );
}

#[test]
fn classify_response_payload_type_uses_existing_headers() {
    let yes = Some("true".to_string());
    assert_eq!(classify_response_payload_type(&yes, &None), "no_update");
    assert_eq!(
        classify_response_payload_type(&yes, &yes),
        "delta_no_update"
    );
}

#[test]
fn response_payload_type_is_only_logged_for_successful_dcs_requests() {
    assert!(should_log_response_payload_type(
        &NormalizedPath::V2DownloadConfigSpecs,
        200
    ));
    assert!(!should_log_response_payload_type(
        &NormalizedPath::V1LogEvent,
        200
    ));
    assert!(!should_log_response_payload_type(
        &NormalizedPath::V2DownloadConfigSpecs,
        404
    ));
}

/// The key that a request for a file is authorized with, as it passes through the
/// normalization first.
fn normalized_file_key(query: Option<&str>) -> Result<String, &'static str> {
    let path = "/v1/download_id_list_file/file_123";
    let query = query.map(str::to_string);
    let mut cache = SdkKeyCache::new();
    let sdk_key = normalize_sdk_key(&mut cache, false, true, path, &query);
    let head = RequestHead {
        path: path.to_string(),
        query,
        sdk_key,
        range: None,
        id_list_file_size: None,
        accept_encoding: vec![],
        supports_proto_query: None,
        supports_proto_header: None,
    };
    match DownloadIdListFileRequestGuard::from_request(&head) {
        Ok(DownloadIdListFileRequestGuard::Authorized(rc)) => Ok(rc.sdk_key.clone()),
        Ok(DownloadIdListFileRequestGuard::Invalid(error)) => Err(error.body()),
        Err(error) => panic!("{error:?}"),
    }
}

#[test]
fn normalize_sdk_key_fairing_skips_download_id_list_file_signed_queries() {
    assert_eq!(
        normalized_file_key(Some("k=secret-key")),
        Ok("secret-key".to_string())
    );
}

#[test]
fn normalize_sdk_key_fairing_preserves_missing_sdk_key_for_download_id_list_file() {
    assert_eq!(normalized_file_key(None), Err("Missing statsig-api-key"));
}

#[test]
fn keys_are_read_from_the_ends_of_paths() {
    assert_eq!(
        sdk_key_of_path("/v1/download_config_specs/secret-key.json"),
        "secret-key"
    );
    assert_eq!(sdk_key_of_path("/v1/download_config_specs/client-key.js"), "client-key");
    let mut cache = SdkKeyCache::new();
    assert_eq!(
        normalize_sdk_key(
            &mut cache,
            false,
            true,
            "/v1/download_config_specs/secret-key.json",
            &None
        ),
        Some("secret-key".to_string())
    );
    assert_eq!(
        normalize_sdk_key(
            &mut cache,
            true,
            true,
            "/v1/download_config_specs/secret-key.json",
            &None
        ),
        None
    );
}

#[test]
fn paths_are_read_and_written() {
    assert_eq!(
        NormalizedPath::from("/v1/get_id_lists"),
        NormalizedPath::V1GetIdLists
    );
    assert_eq!(
        NormalizedPath::V2DownloadConfigSpecs.as_str(),
        "/v2/download_config_specs/"
    );
}

#[test]
fn responses_carry_their_encoding_and_age() {
    let response = RequestPayloads::Gzipped(b"z".to_vec(), 7, false).respond_to();
    assert_eq!(response.status, 200);
    assert_eq!(header(&response, "content-encoding"), Some("gzip"));
    assert_eq!(header(&response, "x-since-time"), Some("7"));
    let response = RequestPayloads::Unauthorized().respond_to();
    assert_eq!(response.status, 401);
    let response = RequestPayloads::RangeNotSatisfiable { complete_length: 6 }.respond_to();
    assert_eq!(response.status, 416);
    assert_eq!(header(&response, "content-range"), Some("bytes */6"));
    let response = RequestPayloads::Error(500, "broken").respond_to();
    assert_eq!(response.status, 500);
    assert!(matches!(response.body, ResponseBody::Text(text) if text == "broken"));
}

#[test]
fn a_file_is_served_whole_without_a_range() {
    match build_download_id_list_file_payload(&make_id_list_rc(None), b"abcdef".to_vec()) {
        RequestPayloads::Text {
            data,
            status,
            content_range,
        } => {
            assert_eq!((data, status, content_range), (b"abcdef".to_vec(), 200, None));
        }
        _ => panic!("expected a whole file"),
    }
    let authorized = DownloadIdListFileRequestGuard::Authorized(make_id_list_rc(None));
    let missing = id_list_file_response(&authorized, None).respond_to();
    assert_ne!(missing.status, 200);
    let invalid = DownloadIdListFileRequestGuard::Invalid(
        DownloadIdListFileRequestError::MissingFileId,
    );
    assert_eq!(id_list_file_response(&invalid, None).respond_to().status, 400);
}

#[test]
fn missing_specs_and_lists_are_answered_as_unauthorized() {
    assert_eq!(config_spec_payload(&None).respond_to().status, 401);
    assert_eq!(id_lists_payload(None).respond_to().status, 401);
    assert_eq!(
        id_lists_payload(Some(&plain(b"{}"))).respond_to().status,
        200
    );
}

#[test]
fn deltas_that_cannot_be_served_are_errors() {
    let no_update = ConfigSpecStore::new().no_update_payload();
    let rc = make_delta_rc(true);
    for (built, error) in [
        (
            DeltaProtoBuildResult::SdkKeyNotRegistered,
            DeltaPayloadError::SdkKeyNotRegistered,
        ),
        (
            DeltaProtoBuildResult::NoCachedDeltas,
            DeltaPayloadError::NoCachedDeltas,
        ),
        (
            DeltaProtoBuildResult::SinceTimeTooOld {
                earliest_since_time: 9,
            },
            DeltaPayloadError::SinceTimeTooOld {
                since_time: 5,
                earliest_since_time: 9,
            },
        ),
        (
            DeltaProtoBuildResult::SerializationFailed,
            DeltaPayloadError::SerializationFailed,
        ),
    ] {
        match answer_with_deltas(built, &rc, 5, &no_update) {
            Err(e) => assert_eq!(e, error),
            Ok(_) => panic!("expected an error"),
        }
    }
    let mut sdk_keys = SdkKeyStore::new();
    let disabled =
        get_download_config_specs_deltas(false, None, &mut sdk_keys, &rc, Some(5), &no_update)
            .respond_to();
    assert_ne!(disabled.status, 200);
}

#[test]
fn deltas_are_served_combined() {
    let no_update = ConfigSpecStore::new().no_update_payload();
    let rc = Arc::new(
        AuthorizedRequestContext::new(
            "secret-key".to_string(),
            NormalizedPath::V2DownloadConfigSpecs,
            vec![],
        )
        .with_request_capabilities(true, true),
    );
    let mut deltas = DeltasStore::new(5);
    let mut sdk_keys = SdkKeyStore::new();
    deltas.register_sdk_key(&mut sdk_keys, &rc, 10);
    deltas.persist_delta(
        &rc,
        ParsedDelta {
            envelopes: vec![SpecsEnvelope {
                kind: SpecsEnvelopeKind::Other(1),
                name: "gate".to_string(),
                data: None,
                encoded: b"gate".to_vec(),
            }],
            top_level: SpecsTopLevel { time: 30 },
        },
        10,
    );
    let served = config_specs_as_deltas(
        true,
        Some(&deltas),
        &sdk_keys,
        &rc,
        Some(10),
        Some(true),
        &no_update,
    )
    .expect("deltas")
    .respond_to();
    assert_eq!(served.status, 200);
    assert_eq!(header(&served, "x-deltas-used"), Some("true"));
    assert!(config_specs_as_deltas(
        true,
        Some(&deltas),
        &sdk_keys,
        &rc,
        Some(10),
        Some(false),
        &no_update,
    )
    .is_none());
}

#[test]
fn unknown_errors_have_a_default_answer() {
    let response = default_catcher(404, Some("Not Found"));
    assert_eq!((response.code, response.reason), (404, "Not Found"));
}

#[test]
fn exchanges_are_logged_with_what_is_known_of_them() {
    assert_eq!(request_duration_ms(None), MISSING_TIMER_SENTINEL_MS);
    assert_eq!(request_duration_ms(Some(Duration::from_millis(12))), 12);
    let mut cache = AuthorizedRequestContextCache::new();
    let event = on_response(
        &mut cache,
        &LoggedExchange {
            head: RequestHead {
                path: "/v2/download_config_specs/secret-key.json".to_string(),
                query: None,
                sdk_key: Some("secret-key".to_string()),
                range: None,
                id_list_file_size: None,
                accept_encoding: vec!["gzip, foo".to_string()],
                supports_proto_query: None,
                supports_proto_header: None,
            },
            sdk_type: Some("rust".to_string()),
            sdk_version: None,
            service: None,
            status: 200,
            x_since_time: Some("5".to_string()),
            content_encoding: vec!["gzip".to_string()],
            x_cache_hit: None,
            x_deltas_used: None,
            elapsed: Some(Duration::from_millis(3)),
        },
    );
    assert_eq!(event.event_type, ProxyEventType::HttpServerRequestSuccess);
    assert_eq!(event.lcut, Some(5));
    assert_eq!(event.stat.expect("a value").value, 3);
    assert_eq!(event.accept_encoding.as_deref(), Some("gzip+unknown"));
    assert_eq!(event.response_encoding.as_deref(), Some("gzip"));
    assert_eq!(event.sdk_type.as_deref(), Some("rust"));
}

#[test]
fn the_service_is_always_healthy() {
    assert_eq!(startup(), StartupResponse {});
    assert_eq!(ready(), ReadyResponse {});
    assert_eq!(health(), HealthResponse {});
}

#[test]
fn redacting_twice_changes_nothing() {
    for text in [
        "GET /v1/client-abcdefghijklmnopqrstuvwxyz.json?k=secret-abcdefghijklmnopqrstuvwxyz",
        "client-server-abcdefghijklmnopqrstuvwxyz",
        "no keys here",
    ] {
        let once = redact_sdk_keys(text).into_owned();
        assert_eq!(redact_sdk_keys(&once), once);
    }
}
