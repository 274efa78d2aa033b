use statsig_forward_proxy::servers::authorized_request_context::{
    parse_id_list_file_id, parse_required_id_list_file_id, parse_strict_id_list_file_range_start,
    parse_strict_id_list_file_size, AuthorizedRequestContext, AuthorizedRequestContextCache,
    AuthorizedRequestContextWrapper, DownloadIdListFileRequestError,
    DownloadIdListFileRequestGuard, RequestHead,
};
use statsig_forward_proxy::servers::normalized_path::NormalizedPath;
use statsig_forward_proxy::utils::compress_encoder::{CompressionEncoder, ParsedAcceptEncoding};
use std::collections::hash_map::DefaultHasher;
use std::collections::HashSet;
use std::hash::{Hash, Hasher};
use std::sync::Arc;

fn make_rc(raw_path: Option<&str>, raw_query: Option<&str>) -> AuthorizedRequestContext {
    AuthorizedRequestContext::new(
        "sdk-key-test".to_string(),
        NormalizedPath::V1DownloadIdListFile,
        vec![CompressionEncoder::PlainText],
    )
    .with_raw_request(raw_path.map(str::to_string), raw_query.map(str::to_string))
    .with_id_list_request(raw_path.and_then(parse_id_list_file_id), None, None)
}

#[test]
fn raw_query_does_not_affect_equality_and_hashing_behavior() {
    let rc_a = make_rc(
        Some("/v1/download_id_list_file/file_123"),
        Some("sv=2020-10-02&se=2026-01-27T00%3A23%3A42Z&sr=b&sp=r&sig=abc%3D&k=secret-test"),
    );
    let rc_b = make_rc(
        Some("/v1/download_id_list_file/file_123"),
        Some("sv=2020-10-02&se=2026-01-27T00%3A23%3A42Z&sr=b&sp=r&sig=def%3D&k=secret-test"),
    );

    assert_eq!(rc_a, rc_b);

    let mut set = HashSet::new();
    set.insert(rc_a);
    set.insert(rc_b);
    assert_eq!(set.len(), 1);
}

#[test]
fn cache_reuses_same_key_for_stable_single_file_identity() {
    let mut cache = AuthorizedRequestContextCache::new();

    let ctx_1 = cache.get_or_insert(
        "sdk-key-test".to_string(),
        NormalizedPath::V1DownloadIdListFile,
        vec![CompressionEncoder::PlainText],
        false,
        false,
        Some("file_123".to_string()),
    );
    let ctx_1_same = cache.get_or_insert(
        "sdk-key-test".to_string(),
        NormalizedPath::V1DownloadIdListFile,
        vec![CompressionEncoder::PlainText],
        false,
        false,
        Some("file_123".to_string()),
    );
    let ctx_2 = cache.get_or_insert(
        "sdk-key-test".to_string(),
        NormalizedPath::V1DownloadIdListFile,
        vec![CompressionEncoder::PlainText],
        false,
        false,
        Some("file_123".to_string()),
    );

    assert!(Arc::ptr_eq(&ctx_1, &ctx_1_same));
    assert!(Arc::ptr_eq(&ctx_1, &ctx_2));
}

#[test]
fn parse_required_id_list_file_id_requires_non_empty_file_id() {
    assert_eq!(
        parse_required_id_list_file_id("/v1/download_id_list_file/").unwrap_err(),
        DownloadIdListFileRequestError::MissingFileId
    );
}

#[test]
fn parse_strict_id_list_file_size_rejects_invalid_values() {
    let header = Some("abc".to_string());

    assert_eq!(
        parse_strict_id_list_file_size(&header).unwrap_err(),
        DownloadIdListFileRequestError::InvalidIdListFileSize
    );
}

#[test]
fn parse_strict_id_list_file_size_accepts_valid_values() {
    let header = Some("270".to_string());

    assert_eq!(parse_strict_id_list_file_size(&header).unwrap(), Some(270));
}

#[test]
fn parse_strict_id_list_file_range_start_accepts_start_only_ranges() {
    let header = Some("bytes=270-".to_string());

    assert_eq!(
        parse_strict_id_list_file_range_start(&header).unwrap(),
        Some(270)
    );
}

#[test]
fn parse_strict_id_list_file_range_start_rejects_suffix_ranges() {
    let header = Some("bytes=-10".to_string());

    assert_eq!(
        parse_strict_id_list_file_range_start(&header).unwrap_err(),
        DownloadIdListFileRequestError::InvalidRange
    );
}

#[test]
fn parse_strict_id_list_file_range_start_rejects_explicit_end_ranges() {
    let header = Some("bytes=0-10".to_string());

    assert_eq!(
        parse_strict_id_list_file_range_start(&header).unwrap_err(),
        DownloadIdListFileRequestError::InvalidRange
    );
}

#[test]
fn parse_strict_id_list_file_range_start_rejects_multi_ranges() {
    let header = Some("bytes=0-,10-".to_string());

    assert_eq!(
        parse_strict_id_list_file_range_start(&header).unwrap_err(),
        DownloadIdListFileRequestError::InvalidRange
    );
}

#[test]
fn parse_strict_id_list_file_range_start_rejects_invalid_units() {
    let header = Some("items=270-".to_string());

    assert_eq!(
        parse_strict_id_list_file_range_start(&header).unwrap_err(),
        DownloadIdListFileRequestError::InvalidRange
    );
}

#[test]
fn parse_strict_id_list_file_range_start_rejects_non_numeric_starts() {
    let header = Some("bytes=abc-".to_string());

    assert_eq!(
        parse_strict_id_list_file_range_start(&header).unwrap_err(),
        DownloadIdListFileRequestError::InvalidRange
    );
}

/// What a request for a file is answered.
fn guard_result(head: &RequestHead) -> Result<&'static str, &'static str> {
    match DownloadIdListFileRequestGuard::from_request(head) {
        Ok(DownloadIdListFileRequestGuard::Authorized(_)) => Ok("authorized"),
        Ok(DownloadIdListFileRequestGuard::Invalid(error)) => Err(error.body()),
        Err(error) => panic!("{error:?}"),
    }
}

fn file_request(query: Option<&str>, sdk_key: Option<&str>, range: Option<&str>) -> RequestHead {
    RequestHead {
        path: "/v1/download_id_list_file/file_123".to_string(),
        query: query.map(str::to_string),
        sdk_key: sdk_key.map(str::to_string),
        range: range.map(str::to_string),
        id_list_file_size: None,
        accept_encoding: vec![],
        supports_proto_query: None,
        supports_proto_header: None,
    }
}

#[test]
fn download_id_list_file_request_guard_reports_invalid_range() {
    let head = file_request(None, Some("secret-key"), Some("bytes=-10"));

    assert_eq!(
        guard_result(&head),
        Err("Range must be absent or formatted as bytes=<start>-")
    );
}

#[test]
fn download_id_list_file_request_guard_uses_header_sdk_key() {
    let head = file_request(None, Some("secret-key"), None);

    assert_eq!(guard_result(&head), Ok("authorized"));
}

#[test]
fn download_id_list_file_request_guard_uses_signed_query_sdk_key() {
    let head = file_request(Some("k=secret-key"), None, None);

    assert_eq!(guard_result(&head), Ok("authorized"));
}

#[test]
fn download_id_list_file_request_guard_rejects_conflicting_header_and_signed_query_sdk_keys() {
    let head = file_request(Some("k=signed-secret"), Some("header-secret"), None);

    assert_eq!(
        guard_result(&head),
        Err("Signed query sdk key does not match statsig-api-key header")
    );
}

#[test]
fn download_id_list_file_request_guard_requires_sdk_key_when_header_and_query_are_missing() {
    let head = file_request(None, None, None);

    assert_eq!(guard_result(&head), Err("Missing statsig-api-key"));
}

#[test]
fn authorized_request_context_hash_and_eq_ignore_encoding_order() {
    let rc1 = AuthorizedRequestContext::new(
        "secret-key".to_string(),
        NormalizedPath::V1DownloadConfigSpecs,
        vec![
            CompressionEncoder::Brotli,
            CompressionEncoder::Gzip,
            CompressionEncoder::Brotli,
        ],
    );
    let rc2 = AuthorizedRequestContext::new(
        "secret-key".to_string(),
        NormalizedPath::V1DownloadConfigSpecs,
        vec![CompressionEncoder::Gzip, CompressionEncoder::Brotli],
    );

    assert_eq!(rc1, rc2);

    let mut h1 = DefaultHasher::new();
    rc1.hash(&mut h1);
    let mut h2 = DefaultHasher::new();
    rc2.hash(&mut h2);
    assert_eq!(h1.finish(), h2.finish());
}

#[test]
fn cache_get_or_insert_reuses_context_for_permuted_encodings() {
    let mut cache = AuthorizedRequestContextCache::new();
    let rc1 = cache.get_or_insert(
        "secret-key".to_string(),
        NormalizedPath::V1DownloadConfigSpecs,
        vec![CompressionEncoder::Brotli, CompressionEncoder::Gzip],
        false,
        false,
        None,
    );
    let rc2 = cache.get_or_insert(
        "secret-key".to_string(),
        NormalizedPath::V1DownloadConfigSpecs,
        vec![CompressionEncoder::Gzip, CompressionEncoder::Brotli],
        false,
        false,
        None,
    );

    assert!(
        Arc::ptr_eq(&rc1, &rc2),
        "cache should reuse same Arc for equivalent encoding sets"
    );
}

#[test]
fn cache_get_or_insert_uses_file_id_only_for_single_file_requests() {
    let mut cache = AuthorizedRequestContextCache::new();
    let rc1 = cache.get_or_insert(
        "secret-key".to_string(),
        NormalizedPath::V1DownloadIdListFile,
        vec![CompressionEncoder::PlainText],
        false,
        false,
        Some("file_123".to_string()),
    );
    let rc2 = cache.get_or_insert(
        "secret-key".to_string(),
        NormalizedPath::V1DownloadIdListFile,
        vec![CompressionEncoder::PlainText],
        false,
        false,
        Some("file_123".to_string()),
    );

    assert!(Arc::ptr_eq(&rc1, &rc2));
    assert_eq!(rc1.range_start, None);
    assert_eq!(rc2.range_start, None);
    assert_eq!(rc1.id_list_size, None);
    assert_eq!(rc2.id_list_size, None);
}

#[test]
fn authorized_request_context_equality_uses_required_id_list_size_not_range_start() {
    let rc1 = AuthorizedRequestContext::new(
        "secret-key".to_string(),
        NormalizedPath::V1DownloadIdListFile,
        vec![CompressionEncoder::PlainText],
    )
    .with_raw_request(
        Some("/v1/download_id_list_file/file_123".to_string()),
        Some("k=secret-key-a".to_string()),
    )
    .with_id_list_request(Some("file_123".to_string()), Some(270), Some(512));
    let rc2 = AuthorizedRequestContext::new(
        "secret-key".to_string(),
        NormalizedPath::V1DownloadIdListFile,
        vec![CompressionEncoder::PlainText],
    )
    .with_raw_request(
        Some("/v1/download_id_list_file/file_123".to_string()),
        Some("k=secret-key-b".to_string()),
    )
    .with_id_list_request(Some("file_123".to_string()), Some(1024), Some(512));

    assert_eq!(rc1, rc2);

    let mut h1 = DefaultHasher::new();
    rc1.hash(&mut h1);
    let mut h2 = DefaultHasher::new();
    rc2.hash(&mut h2);
    assert_eq!(h1.finish(), h2.finish());

    let newer_size_context = AuthorizedRequestContext::new(
        "secret-key".to_string(),
        NormalizedPath::V1DownloadIdListFile,
        vec![CompressionEncoder::PlainText],
    )
    .with_raw_request(
        Some("/v1/download_id_list_file/file_123".to_string()),
        Some("k=secret-key-c".to_string()),
    )
    .with_id_list_request(Some("file_123".to_string()), Some(270), Some(2048));

    assert_ne!(rc1, newer_size_context);
}

#[test]
fn cache_get_or_insert_reuses_context_for_gzip_plaintext_variants() {
    let mut cache = AuthorizedRequestContextCache::new();
    let rc1 = cache.get_or_insert(
        "secret-key".to_string(),
        NormalizedPath::V1DownloadConfigSpecs,
        vec![CompressionEncoder::Gzip, CompressionEncoder::PlainText],
        false,
        false,
        None,
    );
    let rc2 = cache.get_or_insert(
        "secret-key".to_string(),
        NormalizedPath::V1DownloadConfigSpecs,
        vec![CompressionEncoder::Identity, CompressionEncoder::Gzip],
        false,
        false,
        None,
    );

    assert!(
        Arc::ptr_eq(&rc1, &rc2),
        "implicit plain/identity fallbacks should not create a new Arc"
    );
    assert_eq!(rc1.encodings, vec![CompressionEncoder::Gzip]);
}

#[test]
fn cache_get_or_insert_reuses_get_id_lists_context_for_gzip_plaintext_variants() {
    let mut cache = AuthorizedRequestContextCache::new();
    let rc1 = cache.get_or_insert(
        "secret-key".to_string(),
        NormalizedPath::V1GetIdLists,
        vec![CompressionEncoder::Gzip, CompressionEncoder::PlainText],
        false,
        false,
        None,
    );
    let rc2 = cache.get_or_insert(
        "secret-key".to_string(),
        NormalizedPath::V1GetIdLists,
        vec![CompressionEncoder::Identity, CompressionEncoder::Gzip],
        false,
        false,
        None,
    );

    assert!(
        Arc::ptr_eq(&rc1, &rc2),
        "gzip-capable get_id_lists requests should share the same cached context"
    );
    assert_eq!(rc1.encodings, vec![CompressionEncoder::Gzip]);
}

#[test]
fn cache_get_or_insert_reuses_context_for_plaintext_and_identity_variants() {
    let mut cache = AuthorizedRequestContextCache::new();
    let rc1 = cache.get_or_insert(
        "secret-key".to_string(),
        NormalizedPath::V1DownloadConfigSpecs,
        vec![CompressionEncoder::PlainText],
        false,
        false,
        None,
    );
    let rc2 = cache.get_or_insert(
        "secret-key".to_string(),
        NormalizedPath::V1DownloadConfigSpecs,
        vec![CompressionEncoder::Identity],
        false,
        false,
        None,
    );

    assert!(
        Arc::ptr_eq(&rc1, &rc2),
        "plain_text and identity should share the same cache key"
    );
    assert_eq!(rc1.encodings, vec![CompressionEncoder::PlainText]);
}

#[test]
fn cache_get_or_insert_keeps_no_accept_encoding_as_plain_text() {
    let mut cache = AuthorizedRequestContextCache::new();
    let rc = cache.get_or_insert(
        "secret-key".to_string(),
        NormalizedPath::V1DownloadConfigSpecs,
        vec![],
        false,
        false,
        None,
    );

    assert_eq!(rc.encodings, vec![CompressionEncoder::PlainText]);
}

#[test]
fn cache_get_or_insert_ignores_unsupported_br_zstd_and_deflate() {
    let mut cache = AuthorizedRequestContextCache::new();
    let rc = cache.get_or_insert(
        "secret-key".to_string(),
        NormalizedPath::V1DownloadConfigSpecs,
        vec![
            CompressionEncoder::Brotli,
            CompressionEncoder::Zstd,
            CompressionEncoder::Deflate,
        ],
        false,
        false,
        None,
    );

    assert_eq!(rc.encodings, vec![CompressionEncoder::PlainText]);
}

#[test]
fn cache_get_or_insert_keeps_statsig_brotli_distinct_from_gzip_only() {
    let mut cache = AuthorizedRequestContextCache::new();
    let gzip_only = cache.get_or_insert(
        "secret-key".to_string(),
        NormalizedPath::V1DownloadConfigSpecs,
        vec![CompressionEncoder::Gzip],
        false,
        false,
        None,
    );
    let gzip_and_statsig_br = cache.get_or_insert(
        "secret-key".to_string(),
        NormalizedPath::V1DownloadConfigSpecs,
        vec![CompressionEncoder::StatsigBrotli, CompressionEncoder::Gzip],
        false,
        false,
        None,
    );

    assert!(
        !Arc::ptr_eq(&gzip_only, &gzip_and_statsig_br),
        "statsig-br capability must remain distinct from gzip-only requests"
    );
    assert_eq!(
        gzip_and_statsig_br.encodings,
        vec![CompressionEncoder::StatsigBrotli, CompressionEncoder::Gzip]
    );
}

#[test]
fn parsed_accept_encoding_preserves_current_request_context_key_behavior() {
    let rc = AuthorizedRequestContext::new(
        "secret-key".to_string(),
        NormalizedPath::V1DownloadConfigSpecs,
        ParsedAcceptEncoding::from_raw_value("gzip;q=0, statsig-br, identity, foo")
            .acceptable_encodings(),
    );

    assert_eq!(rc.encodings, vec![CompressionEncoder::StatsigBrotli]);
}

#[test]
fn contexts_are_written_with_what_tells_them_apart() {
    let rc = AuthorizedRequestContext::new(
        "key".to_string(),
        NormalizedPath::V1DownloadConfigSpecs,
        vec![CompressionEncoder::Gzip, CompressionEncoder::StatsigBrotli],
    )
    .with_request_capabilities(true, false);
    assert_eq!(
        rc.to_string(),
        "key|/v1/download_config_specs/|[StatsigBrotli, Gzip]|true|false"
    );
}

#[test]
fn requests_without_a_key_are_not_authorized() {
    let mut cache = AuthorizedRequestContextCache::new();
    let mut head = file_request(None, None, None);
    head.path = "/v1/download_config_specs/".to_string();
    assert!(AuthorizedRequestContextWrapper::from_request(&mut cache, &head).is_err());
    head.sdk_key = Some("secret-key".to_string());
    head.accept_encoding = vec!["gzip".to_string()];
    let wrapper = AuthorizedRequestContextWrapper::from_request(&mut cache, &head)
        .unwrap_or_else(|e| panic!("{e:?}"));
    assert_eq!(wrapper.inner().sdk_key, "secret-key");
    assert_eq!(wrapper.inner().encodings, vec![CompressionEncoder::Gzip]);
    assert_eq!(wrapper.inner().path, NormalizedPath::V1DownloadConfigSpecs);
}

#[test]
fn a_size_that_is_no_number_is_an_invalid_request() {
    let mut head = file_request(None, Some("secret-key"), None);
    head.id_list_file_size = Some("many".to_string());
    assert_eq!(
        guard_result(&head),
        Err(DownloadIdListFileRequestError::InvalidIdListFileSize.body())
    );
    head.id_list_file_size = Some(" 12 ".to_string());
    assert_eq!(guard_result(&head), Ok("authorized"));
}
