use statsig_forward_proxy::datastore::data_providers::http_data_provider::ResponsePayload;
use statsig_forward_proxy::datastore::data_providers::{
    DataProviderRequestResult, FullRequestContext, ResponseContext,
};
use statsig_forward_proxy::datastore::deltas_store::{
    assemble_envelopes_in_delta_order, decode_envelopes, decompress, is_meta_envelope,
    parse_payload_to_protos, to_delta_request_context, top_level_data, DeltaCacheEntry,
    DeltaProtoBuildResult, DeltasStore, ParsedDelta, SpecsEnvelope, SpecsEnvelopeKind,
    SpecsTopLevel,
};
use statsig_forward_proxy::datastore::sdk_key_store::SdkKeyStore;
use statsig_forward_proxy::servers::authorized_request_context::AuthorizedRequestContext;
use statsig_forward_proxy::servers::normalized_path::NormalizedPath;
use statsig_forward_proxy::utils::compress_encoder::CompressionEncoder;
use std::sync::Arc;

const FEATURE_GATE: SpecsEnvelopeKind = SpecsEnvelopeKind::Other(17);
const DYNAMIC_CONFIG: SpecsEnvelopeKind = SpecsEnvelopeKind::Other(18);

fn make_rc() -> Arc<AuthorizedRequestContext> {
    Arc::new(
        AuthorizedRequestContext::new(
            "sdk-key-test".to_string(),
            NormalizedPath::V2DownloadConfigSpecsDeltas,
            vec![CompressionEncoder::StatsigBrotli],
        )
        .with_request_capabilities(true, true),
    )
}

/// An envelope whose encoding is its name.
fn make_envelope(kind: SpecsEnvelopeKind, name: &str) -> SpecsEnvelope {
    SpecsEnvelope {
        kind,
        name: name.to_string(),
        data: Some(vec![1]),
        encoded: name.as_bytes().to_vec(),
    }
}

fn entry(since: u64, lcut: u64, envelopes: Vec<SpecsEnvelope>) -> Arc<DeltaCacheEntry> {
    Arc::new(DeltaCacheEntry {
        since_time_requested: since,
        lcut,
        top_level: SpecsTopLevel { time: lcut },
        envelopes,
    })
}

fn delta(lcut: u64, envelopes: Vec<SpecsEnvelope>) -> ParsedDelta {
    ParsedDelta {
        envelopes,
        top_level: SpecsTopLevel { time: lcut },
    }
}

/// The names of length-delimited envelopes.
fn names(payload: &[u8]) -> Vec<String> {
    let mut r = Vec::new();
    let mut cursor = payload;
    while !cursor.is_empty() {
        let len = prost::decode_length_delimiter(&mut cursor).expect("a length");
        r.push(String::from_utf8(cursor[..len].to_vec()).expect("a name"));
        cursor = &cursor[len..];
    }
    r
}

fn registered() -> (DeltasStore, SdkKeyStore, Arc<AuthorizedRequestContext>) {
    let rc = make_rc();
    let mut sdk_keys = SdkKeyStore::new();
    sdk_keys.upsert(&rc, 0);
    (DeltasStore::new(10), sdk_keys, rc)
}

#[test]
fn assemble_envelopes_in_delta_order_returns_empty_payload_for_empty_input() {
    let payload = assemble_envelopes_in_delta_order(&vec![])
        .expect("empty input should serialize to an empty payload");
    assert!(payload.is_empty());
}

#[test]
fn assemble_envelopes_in_delta_order_filters_meta_envelopes_from_earlier_deltas() {
    let deltas = vec![
        entry(
            10,
            30,
            vec![
                make_envelope(SpecsEnvelopeKind::TopLevel, "old-top"),
                make_envelope(SpecsEnvelopeKind::CopyPrev, "old-copy-prev"),
                make_envelope(FEATURE_GATE, "old-data"),
                make_envelope(SpecsEnvelopeKind::Checksums, "old-checksums"),
                make_envelope(SpecsEnvelopeKind::Done, "old-done"),
            ],
        ),
        entry(
            30,
            50,
            vec![
                make_envelope(SpecsEnvelopeKind::TopLevel, "latest-top"),
                make_envelope(SpecsEnvelopeKind::CopyPrev, "latest-copy-prev"),
                make_envelope(DYNAMIC_CONFIG, "latest-data"),
                make_envelope(SpecsEnvelopeKind::Checksums, "latest-checksums"),
                make_envelope(SpecsEnvelopeKind::Done, "latest-done"),
            ],
        ),
    ];

    let payload =
        assemble_envelopes_in_delta_order(&deltas).expect("multiple deltas should serialize");

    assert_eq!(
        names(&payload),
        vec![
            "latest-top",
            "latest-copy-prev",
            "old-data",
            "latest-data",
            "latest-checksums",
            "latest-done"
        ]
    );
}

#[test]
fn build_combined_delta_proto_payload_returns_key_not_registered_when_key_is_missing() {
    let store = DeltasStore::new(10);
    let rc = make_rc();

    let result = store.build_combined_delta_proto_payload(&SdkKeyStore::new(), &rc, 5);
    assert_eq!(result, DeltaProtoBuildResult::SdkKeyNotRegistered);
}

#[test]
fn build_combined_delta_proto_payload_returns_since_time_too_old() {
    let (mut store, sdk_keys, rc) = registered();

    store.persist_delta(
        &rc,
        delta(30, vec![make_envelope(SpecsEnvelopeKind::TopLevel, "t1")]),
        10,
    );

    let result = store.build_combined_delta_proto_payload(&sdk_keys, &rc, 5);
    assert_eq!(
        result,
        DeltaProtoBuildResult::SinceTimeTooOld {
            earliest_since_time: 10
        }
    );
}

fn two_deltas() -> (DeltasStore, SdkKeyStore, Arc<AuthorizedRequestContext>) {
    let (mut store, sdk_keys, rc) = registered();
    store.persist_delta(
        &rc,
        delta(30, vec![make_envelope(SpecsEnvelopeKind::TopLevel, "t1")]),
        10,
    );
    store.persist_delta(
        &rc,
        delta(50, vec![make_envelope(SpecsEnvelopeKind::TopLevel, "t2")]),
        30,
    );
    (store, sdk_keys, rc)
}

#[test]
fn build_combined_delta_proto_payload_returns_no_updates_when_selected_deltas_empty() {
    let (store, sdk_keys, rc) = two_deltas();

    let result = store.build_combined_delta_proto_payload(&sdk_keys, &rc, 50);
    assert_eq!(result, DeltaProtoBuildResult::NoUpdates { lcut: 50 });
}

#[test]
fn build_combined_delta_proto_payload_returns_no_updates_when_since_time_equals_latest_lcut() {
    let (store, sdk_keys, rc) = two_deltas();

    let result = store.build_combined_delta_proto_payload(&sdk_keys, &rc, 50);
    assert_eq!(result, DeltaProtoBuildResult::NoUpdates { lcut: 50 });
}

#[test]
fn build_combined_delta_proto_payload_assembles_in_required_order() {
    let (mut store, sdk_keys, rc) = registered();
    store.persist_delta(
        &rc,
        delta(
            80,
            vec![
                make_envelope(SpecsEnvelopeKind::TopLevel, "oldest-top"),
                make_envelope(SpecsEnvelopeKind::CopyPrev, "oldest-copy-prev"),
                make_envelope(DYNAMIC_CONFIG, "oldest-data"),
                make_envelope(SpecsEnvelopeKind::Done, "oldest-done"),
            ],
        ),
        60,
    );
    store.persist_delta(
        &rc,
        delta(
            100,
            vec![
                make_envelope(SpecsEnvelopeKind::TopLevel, "older-top"),
                make_envelope(SpecsEnvelopeKind::CopyPrev, "older-copy-prev"),
                make_envelope(DYNAMIC_CONFIG, "older-data"),
                make_envelope(SpecsEnvelopeKind::Checksums, "older-checksum"),
                make_envelope(SpecsEnvelopeKind::Done, "older-done"),
            ],
        ),
        80,
    );
    store.persist_delta(
        &rc,
        delta(
            120,
            vec![
                make_envelope(SpecsEnvelopeKind::TopLevel, "latest-top"),
                make_envelope(SpecsEnvelopeKind::CopyPrev, "latest-copy-prev"),
                make_envelope(FEATURE_GATE, "latest-data"),
                make_envelope(SpecsEnvelopeKind::Checksums, "latest-checksum"),
                make_envelope(SpecsEnvelopeKind::Done, "latest-done"),
            ],
        ),
        100,
    );

    let result = store.build_combined_delta_proto_payload(&sdk_keys, &rc, 60);
    let (lcut, payload) = match result {
        DeltaProtoBuildResult::Combined { lcut, payload } => (lcut, payload),
        other => panic!("expected combined payload, got {other:?}"),
    };
    assert_eq!(lcut, 120);

    assert_eq!(
        names(&payload),
        vec![
            "latest-top",
            "latest-copy-prev",
            "oldest-data",
            "older-data",
            "latest-data",
            "latest-checksum",
            "latest-done",
        ]
    );
}

#[test]
fn a_registered_key_without_deltas_has_none_to_combine() {
    let (store, sdk_keys, rc) = registered();
    assert_eq!(
        store.build_combined_delta_proto_payload(&sdk_keys, &rc, 5),
        DeltaProtoBuildResult::NoCachedDeltas
    );
    assert!(store.has_registered_key(&sdk_keys, &rc));
    let mut sdk_keys = sdk_keys;
    assert!(!store.needs_fetch(&mut sdk_keys, &rc));
}

#[test]
fn only_the_latest_deltas_are_kept() {
    let rc = make_rc();
    let mut store = DeltasStore::new(2);
    for n in 1..5 {
        store.persist_delta(
            &rc,
            delta(
                n * 10 + 10,
                vec![make_envelope(SpecsEnvelopeKind::TopLevel, "t")],
            ),
            n * 10,
        );
    }
    let kept: Vec<u64> = store
        .get_cached_deltas(&rc)
        .iter()
        .map(|d| d.since_time_requested)
        .collect();
    assert_eq!(kept, vec![30, 40]);
}

#[test]
fn responses_with_deltas_are_stored_and_refusals_drop_them() {
    let (mut store, mut sdk_keys, rc) = registered();
    let full = FullRequestContext {
        authorized_request_context: Arc::clone(&rc),
    };
    let response = |result_type, lcut| ResponseContext {
        result_type,
        lcut,
        request_since_time: 10,
        body: Arc::new(ResponsePayload {
            encoding: CompressionEncoder::StatsigBrotli,
            use_proto: true,
            data: vec![],
        }),
    };
    store.update(
        &mut sdk_keys,
        &full,
        &response(DataProviderRequestResult::DataAvailable, 30),
        Some(delta(
            30,
            vec![make_envelope(SpecsEnvelopeKind::TopLevel, "t")],
        )),
    );
    assert_eq!(store.get_cached_deltas(&rc).len(), 1);
    store.update(
        &mut sdk_keys,
        &full,
        &response(DataProviderRequestResult::Unauthorized, 0),
        None,
    );
    assert!(store.get_cached_deltas(&rc).is_empty());
    assert!(!store.has_registered_key(&sdk_keys, &rc));
}

#[test]
fn envelopes_are_frames_or_the_payload_as_a_whole() {
    let top = || make_envelope(SpecsEnvelopeKind::TopLevel, "top");
    let frames = decode_envelopes(vec![Some(top()), Some(top())], true, None).expect("frames");
    assert_eq!(frames.len(), 2);
    assert!(decode_envelopes(vec![Some(top()), None], false, Some(top())).is_none());
    assert!(decode_envelopes(vec![None], false, None).is_none());
    let read = decode_envelopes(vec![None], false, Some(top())).expect("an envelope");
    assert_eq!(read.len(), 1);
    assert_eq!(top_level_data(&read), Some(vec![1]));
    let parsed = parse_payload_to_protos(Some(read), Some(SpecsTopLevel { time: 7 }), None)
        .expect("a delta");
    assert_eq!(parsed.top_level.time, 7);
    assert!(parse_payload_to_protos(None, None, None).is_none());
    assert!(is_meta_envelope(SpecsEnvelopeKind::Done));
    assert!(!is_meta_envelope(FEATURE_GATE));
}

#[test]
fn payloads_are_decompressed_by_their_encoding() {
    let payload = |encoding, data: &[u8]| ResponsePayload {
        encoding,
        use_proto: true,
        data: data.to_vec(),
    };
    assert_eq!(
        decompress(&payload(CompressionEncoder::PlainText, b"abc")),
        Some(b"abc".to_vec())
    );
    assert_eq!(
        decompress(&payload(CompressionEncoder::Gzip, b"not gzip")),
        None
    );
    let rc = to_delta_request_context(&AuthorizedRequestContext::new(
        "key".to_string(),
        NormalizedPath::V1DownloadConfigSpecs,
        vec![],
    ));
    assert_eq!(rc.path, NormalizedPath::V2DownloadConfigSpecsDeltas);
    assert_eq!(rc.sdk_key, "key");
}
