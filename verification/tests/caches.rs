use statsig_forward_proxy::datastore::caching::disabled_cache::DisabledCache;
use statsig_forward_proxy::datastore::caching::in_memory_cache::InMemoryCache;
use statsig_forward_proxy::datastore::data_providers::http_data_provider::ResponsePayload;
use statsig_forward_proxy::datastore::data_providers::{
    DataProviderRequestResult, FullRequestContext, ResponseContext,
};
use statsig_forward_proxy::datastore::shared_dict_config_spec_store::{
    dictionary_shadow_request_context, SharedDictConfigSpecStore,
};
use statsig_forward_proxy::keyed_store::{KeyedStore, StoreKey};
use statsig_forward_proxy::lru_store::LruStore;
use statsig_forward_proxy::observers::ProxyEventType;
use statsig_forward_proxy::servers::authorized_request_context::{
    AuthorizedRequestContext, AuthorizedRequestContextCache,
};
use statsig_forward_proxy::servers::normalized_path::NormalizedPath;
use statsig_forward_proxy::utils::compress_encoder::CompressionEncoder;
use std::sync::Arc;

fn context() -> Arc<AuthorizedRequestContext> {
    Arc::new(AuthorizedRequestContext::new(
        "secret-key".to_string(),
        NormalizedPath::V1DownloadConfigSpecs,
        vec![],
    ))
}

fn payload(data: &[u8]) -> Arc<ResponsePayload> {
    Arc::new(ResponsePayload {
        encoding: CompressionEncoder::PlainText,
        use_proto: false,
        data: data.to_vec(),
    })
}

fn response(result_type: DataProviderRequestResult, lcut: u64, body: &[u8]) -> ResponseContext {
    ResponseContext {
        result_type,
        lcut,
        request_since_time: 0,
        body: payload(body),
    }
}

#[test]
fn maps_of_any_size_can_be_made() {
    let mut store: LruStore<u64> = LruStore::new(usize::MAX);
    store.push(Some("a"), 1);
    assert_eq!(store.peek(Some("a")), Some(&1));
}

#[test]
fn the_entry_that_was_written_longest_ago_makes_room() {
    let mut store: LruStore<u64> = LruStore::new(2);
    store.push(Some("a"), 1);
    store.push(None, 2);
    // A read does not move an entry, and a write does.
    assert_eq!(store.peek(Some("a")), Some(&1));
    store.push(Some("a"), 3);
    store.push(Some("c"), 4);
    assert_eq!(store.peek(None), None);
    assert_eq!(store.peek(Some("a")), Some(&3));
    assert_eq!(store.peek(Some("c")), Some(&4));
    store.pop(Some("a"));
    assert_eq!(store.peek(Some("a")), None);
    store.push(None, 5);
    assert_eq!(store.peek(Some("c")), Some(&4));
    assert_eq!(store.peek(None), Some(&5));
}

#[test]
fn keyed_stores_are_maps() {
    let key = |name: &str, n: u64| StoreKey {
        names: vec![name.to_string()],
        numbers: vec![n],
    };
    let mut store: KeyedStore<u64> = KeyedStore::new();
    store.insert(key("a", 1), 10);
    store.insert(key("a", 2), 20);
    store.insert(key("a", 1), 11);
    assert_eq!(store.len(), 2);
    assert_eq!(store.get(&key("a", 1)), Some(&11));
    assert_eq!(store.remove(&key("a", 1)), Some(11));
    assert!(!store.contains(&key("a", 1)));
    assert_eq!(store.keys().len(), 1);
    store.clear();
    assert_eq!(store.len(), 0);
}

#[test]
fn the_disabled_cache_keeps_nothing() {
    let mut cache = DisabledCache::default();
    cache.update(
        &FullRequestContext {
            authorized_request_context: context(),
        },
        &response(DataProviderRequestResult::DataAvailable, 1, b"x"),
    );
    assert!(cache.get(&context()).is_none());
    assert!(!cache.force_notifier_to_wait_for_update());
}

#[test]
fn the_in_memory_cache_tells_what_it_did() {
    let mut cache = InMemoryCache::new(2);
    let rc = context();
    let event = cache
        .update(
            &DataProviderRequestResult::DataAvailable,
            &rc,
            5,
            &payload(b"x"),
        )
        .expect("an event");
    assert_eq!(event.event_type, ProxyEventType::InMemoryCacheWriteSucceed);
    // Data of a context that is not kept yet is not kept.
    let (found, event) = cache.get(&rc);
    assert!(found.is_none());
    assert_eq!(event.event_type, ProxyEventType::InMemoryCacheReadSucceed);
    assert!(cache
        .update(
            &DataProviderRequestResult::Unauthorized,
            &rc,
            0,
            &payload(b"")
        )
        .is_none());
}

#[test]
fn specs_are_kept_by_dictionary() {
    let rc = context();
    let data = DataProviderRequestResult::DataAvailable;
    let mut store = SharedDictConfigSpecStore::new(2);
    assert!(store.needs_fetch(&rc, Some("d1")));
    assert!(store
        .update(
            &rc,
            Some("d1"),
            &response(data, 10, b"one"),
            Some("d1".to_string()),
            1000
        )
        .is_none());
    assert!(!store.needs_fetch(&rc, Some("d1")));
    // Older specs are not stored, and newer ones tell how long they took.
    assert!(store
        .update(&rc, Some("d1"), &response(data, 9, b"old"), None, 1000)
        .is_none());
    let event = store
        .update(
            &rc,
            Some("d1"),
            &response(data, 400, b"two"),
            Some("d2".to_string()),
            1000,
        )
        .expect("an event");
    assert_eq!(event.stat.expect("a value").value, 600);
    let read = store.get_config_spec(&rc, 0, Some("d1")).expect("specs");
    assert_eq!(read.config.data, b"two".to_vec());
    assert_eq!(read.zstd_dict_id.as_deref(), Some("d2"));
    let no_news = store.get_config_spec(&rc, 400, Some("d1")).expect("specs");
    assert_eq!(no_news.lcut, 400);
    assert_eq!(no_news.config.data, b"{\"has_updates\":false}".to_vec());
    assert_eq!(no_news.zstd_dict_id, None);
    // The text `null` asks for specs without a dictionary.
    assert!(store.needs_fetch(&rc, Some("null")));
    let _ = store.update(&rc, None, &response(data, 1, b"plain"), None, 1000);
    assert!(!store.needs_fetch(&rc, Some("null")));
    // A third dictionary displaces the one that was written longest ago.
    let _ = store.update(&rc, Some("d3"), &response(data, 1, b"three"), None, 1000);
    assert!(store.needs_fetch(&rc, Some("d1")));
    let refused = response(DataProviderRequestResult::Unauthorized, 0, b"");
    let _ = store.update(&rc, None, &refused, None, 1000);
    assert!(store.get(&rc, Some("d3")).is_none());
}

#[test]
fn a_dictionary_request_is_shadowed_by_a_plain_one() {
    let mut cache = AuthorizedRequestContextCache::new();
    let shadow = dictionary_shadow_request_context(&mut cache, &context());
    assert_eq!(shadow.sdk_key, "secret-key");
    assert_eq!(shadow.path, NormalizedPath::V2DownloadConfigSpecs);
    assert_eq!(shadow.encodings, vec![CompressionEncoder::Gzip]);
}
