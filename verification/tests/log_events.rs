use statsig_forward_proxy::datastore::log_event_store::LogEventStore;
use statsig_forward_proxy::datatypes::gzip_data::{
    from_data, parse_error_status, BodyError, BodyRead,
};
use statsig_forward_proxy::datatypes::log_event::{
    EventName, LogEvent, LogEventRequest, LogEventResponse, PossiblyLogEvent, StatsigMetadata,
    User,
};
use statsig_forward_proxy::json::{read_text, read_texts};
use statsig_forward_proxy::observers::ProxyEventType;
use statsig_forward_proxy::servers::authorized_request_context::AuthorizedRequestContext;
use statsig_forward_proxy::servers::normalized_path::NormalizedPath;
use std::io::Write;
use std::sync::Arc;

const NOW_MS: i64 = 1_700_000_000_000;

fn exposure(name: EventName, gate: &str, time: u64) -> LogEvent {
    LogEvent {
        event_name: name,
        user: Some(User {
            user_id: Some("user".to_string()),
            custom_ids: None,
        }),
        time: Some(time),
        metadata: Some(vec![("gate".to_string(), format!("\"{gate}\""))]),
        statsig_metadata: None,
    }
}

#[test]
fn repeated_exposures_of_a_minute_are_sent_once() {
    let mut store = LogEventStore::new("https://statsigapi.net", 100);
    assert_eq!(store.url(), "https://statsigapi.net/v1/log_event");
    let time = NOW_MS as u64;
    let gate = |time| PossiblyLogEvent::ValidLogEvent(exposure(EventName::GateExposure, "g", time));
    let request = LogEventRequest {
        events: vec![
            gate(time),
            gate(time + 1),
            gate(time + 120_000),
            PossiblyLogEvent::ValidLogEvent(exposure(
                EventName::Other {
                    event_name: "click".to_string(),
                },
                "g",
                time,
            )),
            PossiblyLogEvent::ValidLogEvent(exposure(
                EventName::Other {
                    event_name: "click".to_string(),
                },
                "g",
                time,
            )),
            PossiblyLogEvent::InvalidLogEvent,
        ],
        statsig_metadata: None,
    };
    let kept = store.keep_events(&request, "secret-key", NOW_MS);
    assert_eq!(kept.kept, vec![true, false, true, true, true, false]);
    assert_eq!(kept.kept_count, 4);
    assert_eq!(kept.cleared, 0);
}

#[test]
fn keys_differ_by_what_was_exposed_to_whom() {
    let key = |sdk_key: &str, gate: &str, time: u64| {
        LogEventStore::compute_key(
            sdk_key,
            &exposure(EventName::GateExposure, gate, time),
            &Some(StatsigMetadata {
                stable_id: Some("s".to_string()),
            }),
            NOW_MS,
        )
    };
    let time = NOW_MS as u64;
    assert_eq!(key("k", "g", time), key("k", "g", time + 1));
    assert_ne!(key("k", "g", time), key("k", "h", time));
    assert_ne!(key("k", "g", time), key("l", "g", time));
    assert_ne!(key("k", "g", time), key("k", "g", time + 120_000));
}

#[test]
fn a_full_memory_is_cleared() {
    let mut store = LogEventStore::new("https://statsigapi.net", 2);
    let (first, _) = store.check_hash(1);
    assert!(first);
    let (repeat, _) = store.check_hash(1);
    assert!(!repeat);
    let mut cleared = false;
    for hash in 2..10 {
        let (_, did) = store.check_hash(hash);
        cleared = cleared || did;
    }
    assert!(cleared);
    assert_eq!(
        LogEventStore::cleared_event().event_type,
        ProxyEventType::LogEventStoreDedupeCacheCleared
    );
}

#[test]
fn dropped_events_are_counted() {
    let rc = Arc::new(AuthorizedRequestContext::new(
        "k".to_string(),
        NormalizedPath::V1LogEvent,
        vec![],
    ));
    let event = LogEventStore::dedupe_events(&rc, 10, 7);
    assert_eq!(event.event_type, ProxyEventType::LogEventStoreDeduped);
    assert_eq!(event.stat.expect("a value").value, 3);
    assert_eq!(LogEventStore::failure_status(Some(429)), 429);
    assert!(LogEventResponse::accepted().success);
}

#[test]
fn bodies_are_inflated() {
    let mut encoder = flate2::write::GzEncoder::new(Vec::new(), flate2::Compression::default());
    encoder.write_all(b"{\"events\":[]}").expect("gzip write");
    let compressed = encoder.finish().expect("gzip finish");
    let gzip = Some("gzip".to_string());
    let read = from_data(&gzip, BodyRead::Complete(compressed), 1000)
        .unwrap_or_else(|e| panic!("{e:?}"));
    assert_eq!(read.into_inner(), "{\"events\":[]}");
    let plain = from_data(&None, BodyRead::Complete(b"{}".to_vec()), 1000)
        .unwrap_or_else(|e| panic!("{e:?}"));
    assert_eq!(plain.size, 2);
    assert_eq!(plain.into_inner(), "{}");
}

#[test]
fn bodies_that_cannot_be_read_are_told_apart() {
    let gzip = Some("gzip".to_string());
    let error = |encoding: &Option<String>, body: BodyRead| {
        from_data(encoding, body, 1000).err().expect("expected an error")
    };
    assert_eq!(
        error(&None, BodyRead::Incomplete),
        BodyError::DataLimitExceeded
    );
    assert_eq!(
        error(&None, BodyRead::Complete(vec![0xff, 0xfe])),
        BodyError::NotUtf8
    );
    assert_eq!(
        error(
            &None,
            BodyRead::Failed {
                ended_too_soon: true
            }
        ),
        BodyError::EndsTooSoon
    );
    assert_eq!(
        error(
            &None,
            BodyRead::Failed {
                ended_too_soon: false
            }
        ),
        BodyError::ReadFailed
    );
    assert_eq!(
        error(&gzip, BodyRead::Complete(b"not gzip at all".to_vec())),
        BodyError::CannotDecodeGzip
    );
    let mut encoder = flate2::write::GzEncoder::new(Vec::new(), flate2::Compression::default());
    encoder.write_all(b"{\"events\":[]}").expect("gzip write");
    let compressed = encoder.finish().expect("gzip finish");
    let cut = compressed[..compressed.len() - 10].to_vec();
    assert_eq!(error(&gzip, BodyRead::Complete(cut)), BodyError::EndsTooSoon);
    let mut spoiled = compressed;
    let checksum = spoiled.len() - 8;
    spoiled[checksum] ^= 1;
    assert_eq!(error(&gzip, BodyRead::Complete(spoiled)), BodyError::BadGzip);
    assert_eq!(BodyError::DataLimitExceeded.status(), 413);
    assert_eq!(parse_error_status(true), 422);
    assert_eq!(parse_error_status(false), 400);
}

#[test]
fn bodies_that_inflate_past_the_limit_are_refused() {
    let gzip = Some("gzip".to_string());
    let zeros = |n: usize| {
        let mut encoder = flate2::write::GzEncoder::new(Vec::new(), flate2::Compression::default());
        encoder.write_all(&vec![b'0'; n]).expect("gzip write");
        BodyRead::Complete(encoder.finish().expect("gzip finish"))
    };
    let fits = from_data(&gzip, zeros(1000), 1000).unwrap_or_else(|e| panic!("{e:?}"));
    assert_eq!(fits.size, 1000);
    assert_eq!(
        from_data(&gzip, zeros(1001), 1000).err(),
        Some(BodyError::DataLimitExceeded)
    );
    assert_eq!(
        from_data(&gzip, zeros(1_000_000), 1000).err(),
        Some(BodyError::DataLimitExceeded)
    );
}

#[test]
fn metadata_is_found_by_name() {
    let event = exposure(EventName::GateExposure, "g", 0);
    assert!(event.get_metadata("gate").contains('g'));
    assert!(!event.get_metadata("other").contains('g'));
}

#[test]
fn json_texts_are_read() {
    assert_eq!(read_text("\"a\\nb\""), Some("a\nb".to_string()));
    assert_eq!(read_text("17"), None);
    assert_eq!(
        read_texts(&vec!["\"a\"".to_string(), "\"b\"".to_string()]),
        Some(vec!["a".to_string(), "b".to_string()])
    );
    assert_eq!(read_texts(&vec!["\"a\"".to_string(), "1".to_string()]), None);
}

#[test]
fn exposures_are_sent_again_once_the_memory_was_cleared() {
    let mut store = LogEventStore::new("https://statsigapi.net", 1);
    let time = NOW_MS as u64;
    let gate = |name| PossiblyLogEvent::ValidLogEvent(exposure(EventName::GateExposure, name, time));
    let request = LogEventRequest {
        events: vec![gate("a"), gate("b"), gate("a")],
        statsig_metadata: None,
    };
    let kept = store.keep_events(&request, "secret-key", NOW_MS);
    assert_eq!(kept.kept, vec![true, true, true]);
    assert_eq!(kept.cleared, 2);
}
