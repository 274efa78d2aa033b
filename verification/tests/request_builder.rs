use statsig_forward_proxy::clock::{Duration, Instant};
use statsig_forward_proxy::datastore::data_providers::dcs_blob_url_generator::{
    url_or_reason, DcsBlobUrlGenerator, DcsBlobUrlGeneratorError, DcsBlobVersion,
    EARLIEST_EXPIRY, LATEST_EXPIRY,
};
use statsig_forward_proxy::datastore::data_providers::request_builder::{
    build_idlist_url, maybe_outbound_accept_encoding, CachedRequestBuilders, DcsBlobConfig,
    DcsRequestBuilder, DcsSource, DcsStep, IdListFileRequestBuilder, IdlistRequestBuilder,
    MetadataReply, NoopRequestBuilder, RequestMethod, UpstreamRequest,
};
use statsig_forward_proxy::servers::authorized_request_context::AuthorizedRequestContext;
use statsig_forward_proxy::servers::normalized_path::NormalizedPath;
use statsig_forward_proxy::utils::compress_encoder::CompressionEncoder;
use std::sync::Arc;

const CONNECTION_STRING: &str = "DefaultEndpointsProtocol=https;AccountName=idliststorage;AccountKey=ZmFrZS1rZXk=;EndpointSuffix=core.windows.net";

const NOW: i64 = 1_700_000_000;

fn make_request_context(path: NormalizedPath) -> Arc<AuthorizedRequestContext> {
    Arc::new(
        AuthorizedRequestContext::new(
            "secret-test".to_string(),
            path,
            vec![CompressionEncoder::Gzip],
        )
        .with_request_capabilities(true, false),
    )
}

fn make_id_list_file_request_context(
    range_start: Option<u64>,
    id_list_size: Option<u64>,
) -> Arc<AuthorizedRequestContext> {
    Arc::new(
        AuthorizedRequestContext::new(
            "secret-test".to_string(),
            NormalizedPath::V1DownloadIdListFile,
            vec![CompressionEncoder::PlainText],
        )
        .with_raw_request(
            Some("/v1/download_id_list_file/file_123".to_string()),
            Some("k=secret-test&sig=signed-value".to_string()),
        )
        .with_id_list_request(Some("file_123".to_string()), range_start, id_list_size),
    )
}

fn dcs_builder(dcs_blob_config: Option<DcsBlobConfig>) -> DcsRequestBuilder {
    DcsRequestBuilder::new(
        "https://api.statsigcdn.com".to_string(),
        "1.0.0".to_string(),
        dcs_blob_config,
    )
}

fn blob_config() -> DcsBlobConfig {
    DcsBlobConfig {
        url_generator: DcsBlobUrlGenerator::from_connection_string(CONNECTION_STRING)
            .expect("connection string should parse"),
        company_id: "50aWbk2p4R76rNX9lN5VUw".to_string(),
    }
}

/// The request as the HTTP client sends it.
fn sent(request: &UpstreamRequest) -> reqwest::Request {
    let method = match request.method {
        RequestMethod::Get => reqwest::Method::GET,
        RequestMethod::Head => reqwest::Method::HEAD,
        RequestMethod::Post => reqwest::Method::POST,
    };
    let mut builder = reqwest::Client::new().request(method, request.url.as_str());
    if !request.query.is_empty() {
        builder = builder.query(&request.query);
    }
    for (name, value) in &request.headers {
        builder = builder.header(name.as_str(), value.as_str());
    }
    builder.build().expect("request should build")
}

fn header<'a>(request: &'a reqwest::Request, name: &str) -> Option<&'a str> {
    request
        .headers()
        .get(name)
        .and_then(|value| value.to_str().ok())
}

#[test]
fn outbound_accept_encoding_omits_plain_text_only() {
    let value = maybe_outbound_accept_encoding(&[CompressionEncoder::PlainText]);
    assert_eq!(value, None);
}

#[test]
fn outbound_accept_encoding_omits_empty_encodings() {
    let value = maybe_outbound_accept_encoding(&[]);
    assert_eq!(value, None);
}

#[test]
fn outbound_accept_encoding_sets_header_for_compression() {
    let value = maybe_outbound_accept_encoding(&[
        CompressionEncoder::Gzip,
        CompressionEncoder::PlainText,
    ]);
    assert_eq!(value, Some("gzip,plain_text".to_string()));
}

#[test]
fn build_idlist_url_handles_trailing_slashes() {
    let value = build_idlist_url("https://api.statsigcdn.com///");
    assert_eq!(value, "https://api.statsigcdn.com/v1/get_id_lists");
}

#[test]
fn build_idlist_url_uses_override_base_url() {
    let value = build_idlist_url("https://override.example.com");
    assert_eq!(value, "https://override.example.com/v1/get_id_lists");
}

#[test]
fn dcs_request_builder_does_not_set_per_request_timeout_override() {
    let request_context = make_request_context(NormalizedPath::V1DownloadConfigSpecs);
    let request = dcs_builder(None).build_request(&request_context, 123, None);

    assert_eq!(sent(&request).timeout(), None);
}

#[test]
fn dcs_request_builder_uses_cdn_url() {
    let request_context = make_request_context(NormalizedPath::V1DownloadConfigSpecs);
    let request = sent(&dcs_builder(None).build_request(&request_context, 123, None));

    let request_url = request.url().as_str();
    assert!(request_url
        .starts_with("https://api.statsigcdn.com/v1/download_config_specs/secret-test.json?"));
    assert!(request_url.contains("sinceTime=123"));
    assert!(request_url.contains("supports_proto=true"));
}

#[test]
fn dcs_request_builder_includes_since_time_for_direct_delta_polling() {
    let request_context = make_request_context(NormalizedPath::V2DownloadConfigSpecsDeltas);
    let request = sent(&dcs_builder(None).build_request(&request_context, 123, None));

    let request_url = request.url().as_str();
    assert!(request_url.starts_with(
        "https://api.statsigcdn.com/v2/download_config_specs_deltas/secret-test.json?"
    ));
    assert!(request_url.contains("sinceTime=123"));
    assert!(request_url.contains("supports_proto=true"));
}

#[test]
fn dcs_request_builder_uses_signed_blob_url_for_metadata_precheck() {
    let builder = dcs_builder(Some(blob_config()));
    let request_context = make_request_context(NormalizedPath::V1DownloadConfigSpecs);
    let blob_url = builder
        .blob_url(&request_context, NOW)
        .expect("metadata request should build");
    let request = sent(&builder.build_blob_metadata_request(blob_url));

    assert_eq!(request.method(), reqwest::Method::HEAD);
    assert!(request.url().as_str().starts_with(
        "https://idliststorage.blob.core.windows.net/dcs-v1/50aWbk2p4R76rNX9lN5VUw/secret-test"
    ));
    assert!(request.url().as_str().contains("sig="));
}

#[test]
fn dcs_request_builder_uses_signed_blob_url_for_body_download() {
    let builder = dcs_builder(Some(blob_config()));
    let request_context = make_request_context(NormalizedPath::V1DownloadConfigSpecs);
    let blob_url = builder.blob_url(&request_context, NOW);
    let request = sent(&builder.build_request(&request_context, 123, blob_url));

    assert!(request.url().as_str().starts_with(
        "https://idliststorage.blob.core.windows.net/dcs-v1/50aWbk2p4R76rNX9lN5VUw/secret-test"
    ));
    assert!(request.url().as_str().contains("sig="));
    assert!(!request.url().as_str().contains("sinceTime="));
    assert!(!request.url().as_str().contains("supports_proto=true"));
}

#[test]
fn dcs_request_builder_skips_blob_download_when_blob_lcut_is_not_newer() {
    assert!(DcsRequestBuilder::should_skip_blob_download(100, 100));
    assert!(DcsRequestBuilder::should_skip_blob_download(100, 99));
}

#[test]
fn dcs_request_builder_does_not_skip_blob_download_when_blob_lcut_is_newer() {
    assert!(!DcsRequestBuilder::should_skip_blob_download(100, 101));
}

#[test]
fn dcs_request_builder_falls_back_to_cdn_only_on_404() {
    assert!(DcsRequestBuilder::should_fallback_to_cdn(404));
    assert!(!DcsRequestBuilder::should_fallback_to_cdn(401));
    assert!(!DcsRequestBuilder::should_fallback_to_cdn(500));
}

fn idlist_builder() -> IdlistRequestBuilder {
    IdlistRequestBuilder::new(
        "https://api.statsigcdn.com".to_string(),
        "1.0.0".to_string(),
    )
}

#[test]
fn idlist_request_builder_does_not_set_per_request_timeout_override() {
    let request_context = make_request_context(NormalizedPath::V1GetIdLists);
    let request = sent(&idlist_builder().build_request(&request_context));

    assert_eq!(request.timeout(), None);
}

#[test]
fn idlist_request_builder_sets_accept_encoding_for_gzip_requests() {
    let request_context = Arc::new(AuthorizedRequestContext::new(
        "secret-test".to_string(),
        NormalizedPath::V1GetIdLists,
        vec![CompressionEncoder::Gzip, CompressionEncoder::PlainText],
    ));
    let request = sent(&idlist_builder().build_request(&request_context));

    assert_eq!(header(&request, "accept-encoding"), Some("gzip"));
}

#[test]
fn idlist_request_builder_does_not_forward_statsig_brotli() {
    let request_context = Arc::new(AuthorizedRequestContext::new(
        "secret-test".to_string(),
        NormalizedPath::V1GetIdLists,
        vec![CompressionEncoder::StatsigBrotli, CompressionEncoder::Gzip],
    ));
    let request = sent(&idlist_builder().build_request(&request_context));

    assert_eq!(header(&request, "accept-encoding"), Some("gzip"));
}

fn file_builder() -> IdListFileRequestBuilder {
    IdListFileRequestBuilder::new(
        "https://api.statsigcdn.com".to_string(),
        "1.0.0".to_string(),
    )
}

#[test]
fn id_list_file_request_builder_forwards_size_hint_but_not_nonzero_range() {
    let request_context = make_id_list_file_request_context(Some(270), Some(1024));
    let request = sent(&file_builder().build_request(&request_context));

    assert_eq!(
        request.url().as_str(),
        "https://api.statsigcdn.com/v1/download_id_list_file/file_123?k=secret-test&sig=signed-value"
    );
    assert!(header(&request, "range").is_none());
    assert_eq!(header(&request, "statsig-id-list-file-size"), Some("1024"));
}

#[test]
fn id_list_file_request_builder_forwards_full_refresh_range_and_size_hint() {
    let request_context = make_id_list_file_request_context(Some(0), Some(1024));
    let request = sent(&file_builder().build_request(&request_context));

    assert_eq!(header(&request, "range"), Some("bytes=0-"));
    assert_eq!(header(&request, "statsig-id-list-file-size"), Some("1024"));
}

#[test]
fn id_list_file_request_builder_omits_cache_headers_when_absent() {
    let request_context = make_id_list_file_request_context(None, None);
    let request = sent(&file_builder().build_request(&request_context));

    assert!(header(&request, "range").is_none());
    assert!(header(&request, "statsig-id-list-file-size").is_none());
}

#[test]
fn generates_signed_url_with_expected_path() {
    let generator = DcsBlobUrlGenerator::from_connection_string(CONNECTION_STRING)
        .expect("connection string should parse");

    let url = generator
        .build_download_url(
            DcsBlobVersion::V1,
            "50aWbk2p4R76rNX9lN5VUw",
            "secret-test",
            NOW,
        )
        .expect("signed URL should generate");

    assert!(url.starts_with(
        "https://idliststorage.blob.core.windows.net/dcs-v1/50aWbk2p4R76rNX9lN5VUw/secret-test"
    ));
    assert!(url.contains("sig="));
}

#[test]
fn signed_urls_depend_on_version_and_time() {
    let generator = DcsBlobUrlGenerator::from_connection_string(CONNECTION_STRING)
        .expect("connection string should parse");
    assert!(generator.can_sign());
    let url = |version, now| {
        generator
            .try_build_download_url(version, "company", "key", now)
            .expect("can be signed")
            .expect("signed")
    };
    assert_eq!(url(DcsBlobVersion::V1, NOW), url(DcsBlobVersion::V1, NOW));
    assert_ne!(
        url(DcsBlobVersion::V1, NOW),
        url(DcsBlobVersion::V1, NOW + 60)
    );
    assert!(url(DcsBlobVersion::V2, NOW).contains("/dcs-v2/company/key?"));
}

#[test]
fn urls_are_signed_for_years_of_four_digits() {
    let generator = DcsBlobUrlGenerator::from_connection_string(CONNECTION_STRING)
        .expect("connection string should parse");
    let signed = |now| generator.try_build_download_url(DcsBlobVersion::V1, "company", "key", now);
    let first = signed(EARLIEST_EXPIRY - 300).expect("can be signed");
    assert!(first.expect("signed").contains("0000-01-01"));
    let last = signed(LATEST_EXPIRY - 300).expect("can be signed");
    assert!(last.expect("signed").contains("9999-12-31"));
    assert!(signed(EARLIEST_EXPIRY - 301).is_none());
    assert!(signed(LATEST_EXPIRY - 299).is_none());
    assert!(signed(-100_000_000_000).is_none());
}

#[test]
fn connection_strings_without_an_account_are_refused() {
    let missing = DcsBlobUrlGenerator::from_connection_string("AccountKey=ZmFrZS1rZXk=")
        .err()
        .expect("expected an error");
    assert!(matches!(
        missing,
        DcsBlobUrlGeneratorError::MissingAccountName
    ));
    let malformed = DcsBlobUrlGenerator::from_connection_string("nonsense")
        .err()
        .expect("expected an error");
    assert!(matches!(
        malformed,
        DcsBlobUrlGeneratorError::ParseConnectionString(_)
    ));
    let no_key = DcsBlobUrlGenerator::from_connection_string("AccountName=name")
        .err()
        .expect("expected an error");
    assert!(matches!(
        no_key,
        DcsBlobUrlGeneratorError::ParseStorageCredentials(_)
    ));
    let bad_key =
        DcsBlobUrlGenerator::from_connection_string("AccountName=name;AccountKey=!not base 64!")
            .expect("credentials are read");
    assert!(!bad_key.can_sign());
    assert!(bad_key
        .try_build_download_url(DcsBlobVersion::V1, "company", "key", NOW)
        .is_none());
}

#[test]
fn signing_reasons_are_told_apart() {
    assert_eq!(
        url_or_reason(Ok("url".to_string())).expect("a url"),
        "url".to_string()
    );
    assert!(matches!(
        url_or_reason(Err((true, "t".to_string()))),
        Err(DcsBlobUrlGeneratorError::GenerateSasToken(reason)) if reason == "t"
    ));
    assert!(matches!(
        url_or_reason(Err((false, "u".to_string()))),
        Err(DcsBlobUrlGeneratorError::GenerateSignedBlobUrl(reason)) if reason == "u"
    ));
}

#[test]
fn specs_come_from_blob_storage_first_and_from_the_cdn_where_they_are_missing() {
    let builder = dcs_builder(Some(blob_config()));
    let rc = make_request_context(NormalizedPath::V1DownloadConfigSpecs);
    let blob_url = || builder.blob_url(&rc, NOW);
    assert!(matches!(
        builder.start(&rc, 100, blob_url()),
        DcsStep::AskMetadata { .. }
    ));
    // Without anything to compare with, the specs are fetched at once.
    assert!(matches!(
        builder.start(&rc, 0, blob_url()),
        DcsStep::Fetch {
            source: DcsSource::Blob,
            ..
        }
    ));
    let reply = |lcut: &str| {
        Some(MetadataReply {
            status: 200,
            x_ms_meta_lcut: Some(lcut.to_string()),
        })
    };
    assert!(matches!(
        builder.after_metadata(&rc, 100, &reply("100"), blob_url()),
        DcsStep::NoDataAvailable { .. }
    ));
    assert!(matches!(
        builder.after_metadata(&rc, 100, &reply("101"), blob_url()),
        DcsStep::Fetch {
            source: DcsSource::Blob,
            ..
        }
    ));
    assert!(matches!(
        builder.after_response(&rc, 100, DcsSource::Blob, 404),
        DcsStep::Fetch {
            source: DcsSource::CdnFallback,
            ..
        }
    ));
    assert!(matches!(
        builder.after_response(&rc, 100, DcsSource::Blob, 200),
        DcsStep::Deliver { .. }
    ));
    assert!(matches!(
        dcs_builder(None).start(&rc, 100, None),
        DcsStep::Fetch {
            source: DcsSource::Cdn,
            ..
        }
    ));
}

#[test]
fn id_lists_are_asked_for_once_a_minute_and_compared_by_digest() {
    let mut builder = idlist_builder();
    let rc = make_request_context(NormalizedPath::V1GetIdLists);
    let at = |secs| Instant::at(Duration::from_secs(secs));
    assert!(builder.should_make_request(&rc, at(1000)));
    assert!(!builder.should_make_request(&rc, at(1059)));
    assert!(builder.should_make_request(&rc, at(1061)));
    assert!(builder.is_an_update(b"{}", &rc));
    assert!(!builder.is_an_update(b"{}", &rc));
    assert!(builder.is_an_update(b"{\"a\":1}", &rc));
}

#[test]
fn builders_are_found_by_path() {
    let mut builders = CachedRequestBuilders::new();
    builders.add_request_builder(NormalizedPath::V1GetIdLists, 3);
    builders.add_request_builder(NormalizedPath::V1GetIdLists, 4);
    assert_eq!(
        builders.get_request_builder(&NormalizedPath::V1GetIdLists),
        Some(4)
    );
    assert_eq!(
        builders.get_request_builder(&NormalizedPath::V1LogEvent),
        None
    );
    let rc = make_request_context(NormalizedPath::V1LogEvent);
    assert!(!NoopRequestBuilder {}.should_make_request(&rc));
}
