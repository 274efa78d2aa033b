use statsig_forward_proxy::datastore::data_providers::http_data_provider::ResponsePayload;
use statsig_forward_proxy::datastore::data_providers::{
    DataProviderRequestResult, FullRequestContext, ResponseContext,
};
use statsig_forward_proxy::datastore::id_list_file_refresh_observer::{
    parse_id_list_file_id_from_blob_path, request_context_from_manifest_url,
    request_context_from_url_parts, IdListFileRefreshObserver,
};
use statsig_forward_proxy::datastore::id_list_file_store::{FileLookup, IdListFileStore};
use statsig_forward_proxy::datastore::id_list_manifest::{
    decode_response_payload, manifest_parse_error, IdListManifest, IdListManifestEntry,
};
use statsig_forward_proxy::datastore::id_list_store::GetIdListStore;
use statsig_forward_proxy::datastore::sdk_key_store::SdkKeyStore;
use statsig_forward_proxy::servers::authorized_request_context::AuthorizedRequestContext;
use statsig_forward_proxy::servers::normalized_path::NormalizedPath;
use statsig_forward_proxy::utils::compress_encoder::CompressionEncoder;
use std::io::Write;
use std::sync::Arc;

fn make_rc(
    raw_path: Option<&str>,
    raw_query: Option<&str>,
    file_id: Option<&str>,
    range_start: Option<u64>,
    id_list_size: Option<u64>,
) -> Arc<AuthorizedRequestContext> {
    Arc::new(
        AuthorizedRequestContext::new(
            "sdk-key-test".to_string(),
            NormalizedPath::V1DownloadIdListFile,
            vec![CompressionEncoder::PlainText],
        )
        .with_raw_request(raw_path.map(str::to_string), raw_query.map(str::to_string))
        .with_id_list_request(file_id.map(str::to_string), range_start, id_list_size),
    )
}

#[test]
fn file_id_is_used_as_cache_key_when_present() {
    let rc = make_rc(
        Some("/v1/download_id_list_file/3wHgh0FhoQH0p7RvCFqgqJ%2F3zrTq6LjhhQpuTjegJ1X8P"),
        None,
        Some("3wHgh0FhoQH0p7RvCFqgqJ%2F3zrTq6LjhhQpuTjegJ1X8P"),
        None,
        Some(0),
    );
    assert_eq!(
        rc.file_id.as_deref(),
        Some("3wHgh0FhoQH0p7RvCFqgqJ%2F3zrTq6LjhhQpuTjegJ1X8P")
    );
}

#[test]
fn file_id_cache_key_ignores_range_size_and_query() {
    let rc = make_rc(
        Some("/v1/download_id_list_file/file_123"),
        Some("sv=2020-10-02&range=270-&sig=abc%3D&k=secret-test"),
        Some("file_123"),
        Some(270),
        Some(512),
    );
    assert_eq!(rc.file_id.as_deref(), Some("file_123"));
}

#[test]
fn file_id_cache_key_ignores_volatile_signed_query_params() {
    let rc_a = make_rc(
        Some("/v1/download_id_list_file/file_123"),
        Some("sv=2020-10-02&sig=abc%3D&k=secret-test"),
        Some("file_123"),
        Some(270),
        Some(270),
    );
    let rc_b = make_rc(
        Some("/v1/download_id_list_file/file_123"),
        Some("sv=2020-10-02&sig=def%3D&k=secret-test"),
        Some("file_123"),
        Some(1024),
        Some(270),
    );

    assert_eq!(rc_a.file_id, rc_b.file_id);
}

#[test]
fn file_id_cache_key_is_none_when_file_id_is_missing() {
    let rc = make_rc(Some("/v1/download_id_list_file/"), None, None, None, None);
    assert_eq!(rc.file_id, None);
}

#[test]
fn cached_body_satisfies_request_rejects_stale_short_body() {
    let rc = make_rc(
        Some("/v1/download_id_list_file/file_123"),
        None,
        Some("file_123"),
        Some(6),
        Some(6),
    );

    assert!(!IdListFileStore::cached_body_satisfies_request(
        &b"abc".to_vec(),
        rc.as_ref()
    ));
}

#[test]
fn cached_body_satisfies_request_accepts_equal_range_boundary_when_size_matches_cache() {
    let rc = make_rc(
        Some("/v1/download_id_list_file/file_123"),
        None,
        Some("file_123"),
        Some(3),
        Some(3),
    );

    assert!(IdListFileStore::cached_body_satisfies_request(
        &b"abc".to_vec(),
        rc.as_ref()
    ));
}

#[test]
fn cached_body_satisfies_request_rejects_equal_range_boundary_without_size_hint() {
    let rc = make_rc(
        Some("/v1/download_id_list_file/file_123"),
        None,
        Some("file_123"),
        Some(3),
        None,
    );

    assert!(!IdListFileStore::cached_body_satisfies_request(
        &b"abc".to_vec(),
        rc.as_ref()
    ));
}

#[test]
fn cached_body_satisfies_request_accepts_cached_suffix_for_range() {
    let rc = make_rc(
        Some("/v1/download_id_list_file/file_123"),
        None,
        Some("file_123"),
        Some(2),
        Some(2),
    );

    assert!(IdListFileStore::cached_body_satisfies_request(
        &b"abc".to_vec(),
        rc.as_ref()
    ));
}

#[test]
fn cached_body_satisfies_request_rejects_ranged_request_when_size_hint_is_newer_than_cache() {
    let rc = make_rc(
        Some("/v1/download_id_list_file/file_123"),
        None,
        Some("file_123"),
        Some(2),
        Some(4),
    );

    assert!(!IdListFileStore::cached_body_satisfies_request(
        &b"abc".to_vec(),
        rc.as_ref()
    ));
}

#[test]
fn cached_body_satisfies_request_accepts_full_refresh_when_size_matches_cache() {
    let rc = make_rc(
        Some("/v1/download_id_list_file/file_123"),
        None,
        Some("file_123"),
        Some(0),
        Some(3),
    );

    assert!(IdListFileStore::cached_body_satisfies_request(
        &b"abc".to_vec(),
        rc.as_ref()
    ));
}

#[test]
fn cached_body_satisfies_request_accepts_full_refresh_when_cache_is_newer_than_manifest() {
    let rc = make_rc(
        Some("/v1/download_id_list_file/file_123"),
        None,
        Some("file_123"),
        Some(0),
        Some(3),
    );

    assert!(IdListFileStore::cached_body_satisfies_request(
        &b"abcdef".to_vec(),
        rc.as_ref()
    ));
}

#[test]
fn cached_body_satisfies_request_accepts_cached_body_when_headers_are_missing() {
    let rc = make_rc(
        Some("/v1/download_id_list_file/file_123"),
        None,
        Some("file_123"),
        None,
        None,
    );

    assert!(IdListFileStore::cached_body_satisfies_request(
        &b"abc".to_vec(),
        rc.as_ref()
    ));
}

#[test]
fn cached_body_satisfies_request_accepts_size_only_match() {
    let rc = make_rc(
        Some("/v1/download_id_list_file/file_123"),
        None,
        Some("file_123"),
        None,
        Some(3),
    );

    assert!(IdListFileStore::cached_body_satisfies_request(
        &b"abc".to_vec(),
        rc.as_ref()
    ));
}

#[test]
fn cached_body_satisfies_request_accepts_size_only_when_cache_is_newer_than_client() {
    let rc = make_rc(
        Some("/v1/download_id_list_file/file_123"),
        None,
        Some("file_123"),
        None,
        Some(2),
    );

    assert!(IdListFileStore::cached_body_satisfies_request(
        &b"abc".to_vec(),
        rc.as_ref()
    ));
}

#[test]
fn cached_body_satisfies_request_rejects_size_only_when_cache_is_older_than_client() {
    let rc = make_rc(
        Some("/v1/download_id_list_file/file_123"),
        None,
        Some("file_123"),
        None,
        Some(4),
    );

    assert!(!IdListFileStore::cached_body_satisfies_request(
        &b"abc".to_vec(),
        rc.as_ref()
    ));
}

#[test]
fn cached_body_satisfies_request_rejects_full_refresh_when_cache_is_older_than_manifest() {
    let rc = make_rc(
        Some("/v1/download_id_list_file/file_123"),
        None,
        Some("file_123"),
        Some(0),
        Some(4),
    );

    assert!(!IdListFileStore::cached_body_satisfies_request(
        &b"abc".to_vec(),
        rc.as_ref()
    ));
}

#[test]
fn cached_body_satisfies_request_forces_revalidation_when_size_is_missing() {
    let rc = make_rc(
        Some("/v1/download_id_list_file/file_123"),
        None,
        Some("file_123"),
        Some(1),
        None,
    );

    assert!(IdListFileStore::cached_body_satisfies_request(
        &b"abc".to_vec(),
        rc.as_ref()
    ));
}

#[test]
fn file_id_cache_key_returns_none_for_missing_or_invalid_raw_path() {
    let no_raw_path = make_rc(None, None, None, None, None);
    assert_eq!(no_raw_path.file_id, None);

    let empty_file_id = make_rc(Some("/v1/download_id_list_file/"), None, None, None, None);
    assert_eq!(empty_file_id.file_id, None);

    let wrong_prefix = make_rc(Some("/v1/get_id_lists"), None, None, None, None);
    assert_eq!(wrong_prefix.file_id, None);
}

fn file(file_id: &str) -> Arc<AuthorizedRequestContext> {
    make_rc(None, None, Some(file_id), None, None)
}

fn plaintext_payload(text: &str) -> ResponsePayload {
    ResponsePayload {
        encoding: CompressionEncoder::PlainText,
        use_proto: false,
        data: text.as_bytes().to_vec(),
    }
}

fn gzip_payload(text: &str) -> ResponsePayload {
    let mut encoder =
        flate2::write::GzEncoder::new(Vec::new(), flate2::Compression::default());
    encoder.write_all(text.as_bytes()).expect("gzip write");
    ResponsePayload {
        encoding: CompressionEncoder::Gzip,
        use_proto: false,
        data: encoder.finish().expect("gzip finish"),
    }
}

fn store_file(
    store: &mut IdListFileStore,
    rc: &Arc<AuthorizedRequestContext>,
    result_type: DataProviderRequestResult,
    body: &str,
) {
    store.update(
        &FullRequestContext {
            authorized_request_context: Arc::clone(rc),
        },
        &ResponseContext {
            result_type,
            lcut: 0,
            request_since_time: 0,
            body: Arc::new(plaintext_payload(body)),
        },
    );
}

#[test]
fn moka_admission_keeps_existing_entries_when_capacity_is_reached() {
    let mut store = IdListFileStore::with_capacity(2);
    let data = DataProviderRequestResult::DataAvailable;
    store_file(&mut store, &file("file_1"), data, "a");
    store_file(&mut store, &file("file_2"), data, "b");
    store.settle();
    store_file(&mut store, &file("file_3"), data, "c");
    store_file(&mut store, &file("file_4"), data, "d");

    assert_eq!(store.settle(), 2);

    assert!(store.get_stored_body(&file("file_1")).is_some());
    assert!(store.get_stored_body(&file("file_2")).is_some());
    assert!(store.get_stored_body(&file("file_3")).is_none());
    assert!(store.get_stored_body(&file("file_4")).is_none());
}

#[test]
fn stored_files_are_read_back_while_there_is_room() {
    let mut store = IdListFileStore::with_capacity(3);
    let data = DataProviderRequestResult::DataAvailable;
    for (id, body) in [("a", "1"), ("b", "22"), ("c", "333"), ("b", "4444")] {
        store_file(&mut store, &file(id), data, body);
    }
    assert_eq!(store.settle(), 3);
    let read = |store: &mut IdListFileStore, id: &str| {
        store.get_stored_body(&file(id)).map(|body| body.to_vec())
    };
    assert_eq!(read(&mut store, "a"), Some(b"1".to_vec()));
    assert_eq!(read(&mut store, "b"), Some(b"4444".to_vec()));
    assert_eq!(read(&mut store, "c"), Some(b"333".to_vec()));
    store_file(
        &mut store,
        &file("a"),
        DataProviderRequestResult::Unauthorized,
        "",
    );
    store_file(&mut store, &file("d"), data, "5");
    assert_eq!(store.settle(), 3);
    assert_eq!(read(&mut store, "a"), None);
    assert_eq!(read(&mut store, "d"), Some(b"5".to_vec()));
}

#[test]
fn files_are_fetched_where_they_are_missing_or_short() {
    let mut store = IdListFileStore::new();
    let rc = make_rc(None, None, Some("file"), Some(0), Some(3));
    assert!(matches!(store.look_up(&rc), FileLookup::Fetch));
    assert!(matches!(
        store.look_up(&make_rc(None, None, None, None, None)),
        FileLookup::NoFile
    ));
    store_file(
        &mut store,
        &rc,
        DataProviderRequestResult::DataAvailable,
        "ab",
    );
    assert!(matches!(store.look_up(&rc), FileLookup::Fetch));
    store_file(
        &mut store,
        &rc,
        DataProviderRequestResult::DataAvailable,
        "abc",
    );
    match store.look_up(&rc) {
        FileLookup::Hit(bytes) => assert_eq!(bytes.as_slice(), b"abc"),
        other => panic!("{other:?}"),
    }
    assert!(store.is_fresh_enough(&rc));
    store_file(&mut store, &rc, DataProviderRequestResult::Unauthorized, "");
    assert!(store.get_cached_hit(&rc).is_none());
}

#[test]
fn manifest_url_context_preserves_signed_path_query_and_file_cache_key() {
    let request_context = request_context_from_manifest_url(
        "secret-test",
        "https://api.statsigcdn.com/v1/download_id_list_file/company%2Ffile_123?sv=2020&sig=signed%3D&k=secret-test",
        1024,
    )
    .expect("manifest URL should build a request context");

    assert_eq!(request_context.sdk_key, "secret-test");
    assert_eq!(
        request_context.raw_path.as_deref(),
        Some("/v1/download_id_list_file/company%2Ffile_123")
    );
    assert_eq!(
        request_context.raw_query.as_deref(),
        Some("sv=2020&sig=signed%3D&k=secret-test")
    );
    assert_eq!(
        request_context.file_id.as_deref(),
        Some("company%2Ffile_123")
    );
    assert_eq!(request_context.range_start, Some(0));
    assert_eq!(request_context.id_list_size, Some(1024));
    assert_eq!(request_context.path, NormalizedPath::V1DownloadIdListFile);
    assert_eq!(
        request_context.encodings,
        vec![CompressionEncoder::PlainText]
    );
}

#[test]
fn manifest_blob_url_context_maps_blob_path_to_local_download_path_and_file_cache_key() {
    let manifest_url = "https://idliststorage.blob.core.windows.net/idlists/company%2Ffile_123?sv=2020&sig=signed%3D&k=secret-test";
    let request_context = request_context_from_manifest_url("secret-test", manifest_url, 1024)
        .expect("blob manifest URL should build a request context");

    assert_eq!(
        request_context.raw_path.as_deref(),
        Some("/v1/download_id_list_file/company%2Ffile_123")
    );
    assert_eq!(
        request_context.raw_query.as_deref(),
        Some("sv=2020&sig=signed%3D&k=secret-test")
    );
    assert_eq!(
        request_context.file_id.as_deref(),
        Some("company%2Ffile_123")
    );
    assert_eq!(request_context.range_start, Some(0));
    assert_eq!(request_context.id_list_size, Some(1024));
    assert_eq!(request_context.path, NormalizedPath::V1DownloadIdListFile);
}

#[test]
fn manifest_url_context_rejects_unservable_urls() {
    let error = request_context_from_manifest_url("secret-test", "https://example.com/blob", 1024)
        .unwrap_err();

    assert!(error.contains("/v1/download_id_list_file"));
}

#[test]
fn manifest_urls_that_are_no_urls_are_rejected() {
    assert!(request_context_from_manifest_url("secret-test", "not a url", 1).is_err());
    assert!(
        request_context_from_url_parts("secret-test", Err("broken".to_string()), 1).is_err()
    );
    assert_eq!(
        parse_id_list_file_id_from_blob_path("/idlists/company%2Ffile"),
        Some("company%2Ffile".to_string())
    );
    assert_eq!(parse_id_list_file_id_from_blob_path("/other/file"), None);
}

/// Reads a manifest as the service does: the entries of a JSON object.
fn parse_id_list_manifest(payload: &ResponsePayload) -> Result<IdListManifest, String> {
    let bytes = decode_response_payload(payload)?;
    let value: serde_json::Value = serde_json::from_slice(&bytes)
        .map_err(|e| manifest_parse_error(e.to_string().as_str()))?;
    let mut entries = Vec::new();
    for entry in value.as_object().into_iter().flat_map(|m| m.values()) {
        let text = |name: &str| entry.get(name).and_then(|v| v.as_str()).map(str::to_string);
        let number = |name: &str| entry.get(name).and_then(|v| v.as_u64());
        match (
            text("name"),
            number("size"),
            text("url"),
            number("creationTime"),
            text("fileID"),
        ) {
            (Some(name), Some(size), Some(url), Some(creation_time), Some(file_id)) => entries
                .push(IdListManifestEntry {
                    name,
                    size,
                    url,
                    creation_time,
                    file_id,
                }),
            _ => return Err(manifest_parse_error("invalid entry")),
        }
    }
    Ok(IdListManifest::from_entries(entries))
}

#[test]
fn parses_object_shaped_manifest_and_keys_by_entry_name() {
    let payload = plaintext_payload(
        r#"{
            "manifest_key": {
                "name": "stable_name",
                "size": 99990,
                "url": "https://api.statsigcdn.com/v1/download_id_list_file/company%2Ffile?sig=signed&k=secret-test",
                "creationTime": 1772477815000,
                "fileID": "file"
            }
        }"#,
    );

    let parsed = parse_id_list_manifest(&payload).unwrap_or_else(|e| panic!("{e}"));

    assert!(parsed.contains_key("stable_name"));
    let entry = parsed.get("stable_name").expect("an entry");
    assert_eq!(entry.file_id, "file");
    assert_eq!(entry.size, 99990);
}

#[test]
fn parses_gzip_manifest_payload() {
    let payload = gzip_payload(
        r#"{
            "list": {
                "name": "list",
                "size": 1,
                "url": "https://api.statsigcdn.com/v1/download_id_list_file/company%2Ffile?sig=signed&k=secret-test",
                "creationTime": 2,
                "fileID": "file"
            }
        }"#,
    );

    let parsed = parse_id_list_manifest(&payload).unwrap_or_else(|e| panic!("{e}"));

    assert_eq!(parsed.get("list").expect("an entry").creation_time, 2);
}

#[test]
fn malformed_manifest_json_is_rejected() {
    let payload = plaintext_payload(r#"{"list": "not_an_entry"}"#);

    let error = parse_id_list_manifest(&payload).err().expect("expected an error");

    assert!(error.contains("get_id_lists JSON could not be parsed"));
}

#[test]
fn payloads_that_cannot_be_decoded_have_no_manifest() {
    let mut payload = plaintext_payload("{\"list\": \"is no gzip stream\"}");
    payload.encoding = CompressionEncoder::Gzip;
    assert_eq!(
        decode_response_payload(&payload),
        Err("get_id_lists gzip payload could not be decoded: invalid gzip header".to_string())
    );
    payload.encoding = CompressionEncoder::Brotli;
    payload.data = vec![0xff; 8];
    let error = decode_response_payload(&payload).err().expect("expected an error");
    let start = "get_id_lists brotli payload could not be decoded: ";
    assert!(error.starts_with(start) && error.len() > start.len());
}

#[test]
fn listed_files_are_asked_for_unless_they_are_at_hand() {
    let entry = |name: &str, file_id: &str, size: u64| IdListManifestEntry {
        name: name.to_string(),
        size,
        url: format!("https://api.statsigcdn.com/v1/download_id_list_file/{file_id}?k=k"),
        creation_time: 1,
        file_id: file_id.to_string(),
    };
    let mut unservable = entry("c", "file_c", 3);
    unservable.url = "https://example.com/blob".to_string();
    // A later entry replaces an earlier one of the same name.
    let manifest = IdListManifest::from_entries(vec![
        entry("a", "file_x", 3),
        entry("a", "file_a", 3),
        entry("b", "file_b", 3),
        unservable,
    ]);
    assert_eq!(manifest.values().len(), 3);
    let mut store = IdListFileStore::new();
    store_file(
        &mut store,
        &file("file_a"),
        DataProviderRequestResult::DataAvailable,
        "abc",
    );
    let wanted = IdListFileRefreshObserver::download_request_contexts_from_manifest(
        &mut store, "secret", &manifest,
    );
    assert_eq!(wanted.len(), 1);
    assert_eq!(wanted[0].file_id.as_deref(), Some("file_b"));
    assert_eq!(wanted[0].range_start, Some(0));
    assert_eq!(wanted[0].id_list_size, Some(3));
}

#[test]
fn lists_are_read_as_they_were_stored() {
    let rc = Arc::new(AuthorizedRequestContext::new(
        "secret".to_string(),
        NormalizedPath::V1GetIdLists,
        vec![],
    ));
    let full = FullRequestContext {
        authorized_request_context: Arc::clone(&rc),
    };
    let response = |result_type, body: &str| ResponseContext {
        result_type,
        lcut: 0,
        request_since_time: 0,
        body: Arc::new(plaintext_payload(body)),
    };
    let mut keys = SdkKeyStore::new();
    let mut store = GetIdListStore::new();
    assert!(GetIdListStore::needs_fetch(&keys, &rc));
    let stored = response(DataProviderRequestResult::DataAvailable, "{\"a\":1}");
    keys.update(&full, &stored);
    store.update(&full, &stored);
    assert!(!GetIdListStore::needs_fetch(&keys, &rc));
    let lists = store.get_id_lists(&rc).expect("lists");
    assert_eq!(lists.idlists.data, b"{\"a\":1}".to_vec());
    assert!(IdListFileRefreshObserver::wants(&full, &stored));
    store.update(&full, &response(DataProviderRequestResult::Unauthorized, ""));
    assert!(store.get_id_lists(&rc).is_none());
}
