use statsig_forward_proxy::clock::{Duration, Instant};
use statsig_forward_proxy::loggers::datadog_logger::{
    compress_batch, operation_for, should_flush, EnvConfig as DatadogConfig, Operation,
};
use statsig_forward_proxy::loggers::debug_logger::DebugLogger;
use statsig_forward_proxy::loggers::nginx_cache_monitor::{
    cache_paths, calculate_cache_size, event_stat_value, max_cache_size_bytes, NginxCacheConfig,
    NginxCacheMonitor,
};
use statsig_forward_proxy::loggers::stats_logger::{
    convert_tags, create_counter_name, event_metadata, initialize_datadog_client_options,
    instrument_of, parse_key_value, sender_buffer_size, DefaultTagsConfig, EnvConfig, Instrument,
    Operation as StatsOperation, OperationBatch, Sinks, StatsLogger,
};
use statsig_forward_proxy::observers::http_data_provider_observer::HttpDataProviderObserver;
use statsig_forward_proxy::observers::new_dcs_observer::NewDcsObserver;
use statsig_forward_proxy::observers::proxy_event_observer::EnvConfig as EventConfig;
use statsig_forward_proxy::observers::{EventStat, OperationType, ProxyEvent, ProxyEventType};
use statsig_forward_proxy::servers::authorized_request_context::AuthorizedRequestContext;
use statsig_forward_proxy::servers::normalized_path::NormalizedPath;
use statsig_forward_proxy::utils::compress_encoder::CompressionEncoder;
use std::collections::hash_map::DefaultHasher;
use std::hash::{Hash, Hasher};
use std::sync::Arc;

fn at(secs: u64) -> Instant {
    Instant::at(Duration::from_secs(secs))
}

fn operation(operation_type: OperationType, name: &str, value: &str, tag: &str) -> Operation {
    Operation {
        operation_type,
        counter_name: name.to_string(),
        value: Some(value.to_string()),
        tags: vec![tag.to_string()],
    }
}

fn hash_of(event: &ProxyEvent) -> u64 {
    let mut hasher = DefaultHasher::new();
    event.hash(&mut hasher);
    hasher.finish()
}

#[test]
fn same_events_hash_alike() {
    let event = |lcut| ProxyEvent::new(ProxyEventType::DcsFetchSource).with_lcut(lcut);
    let told = event(3).with_stat(EventStat {
        operation_type: OperationType::IncrByValue,
        value: 7,
    });
    assert!(told == event(3));
    assert_eq!(hash_of(&told), hash_of(&event(3)));
    assert_ne!(hash_of(&event(3)), hash_of(&event(4)));
}

#[test]
fn test_compress_batch() {
    // One distribution operation
    let operation1 = operation(OperationType::Distribution, "counter1", "100", "tag1");

    let compressed_batch1 = compress_batch(&vec![operation1.clone()]);
    assert_eq!(compressed_batch1, vec![operation1]);

    // Several increments with the same counter and tags
    let operation2_1 = operation(OperationType::IncrByValue, "counter2", "10", "tag2");
    let operation2_2 = operation(OperationType::IncrByValue, "counter2", "20", "tag2");

    let compressed_batch2 = compress_batch(&vec![operation2_1.clone(), operation2_2.clone()]);
    assert_eq!(
        compressed_batch2,
        vec![operation(
            OperationType::IncrByValue,
            "counter2",
            "30",
            "tag2"
        )]
    );
}

#[test]
fn increments_with_other_tags_are_kept_apart() {
    let mut compressed = compress_batch(&vec![
        operation(OperationType::IncrByValue, "c", "-3", "a"),
        operation(OperationType::Gauge, "g", "7", "a"),
        operation(OperationType::IncrByValue, "c", "5", "b"),
        operation(OperationType::IncrByValue, "c", "1", "a"),
    ]);
    assert_eq!(
        compressed.remove(0),
        operation(OperationType::Gauge, "g", "7", "a")
    );
    compressed.sort_by(|x, y| x.tags.cmp(&y.tags));
    assert_eq!(
        compressed,
        vec![
            operation(OperationType::IncrByValue, "c", "-2", "a"),
            operation(OperationType::IncrByValue, "c", "5", "b"),
        ]
    );
}

#[test]
fn batches_are_flushed_when_they_are_old_or_large() {
    let config = DatadogConfig {
        datadog_sampling_rate: None,
        datadog_max_batch_time_ms: None,
        datadog_max_batch_event_count: Some(2),
        datadog_max_backoff_ms: None,
        dogstatsd_max_buffer_size: None,
        dogstatsd_max_time_ms: None,
        dogstatsd_max_retry_attempt: None,
        dogstatsd_initial_retry_delay: None,
        dogstatsd_client_initialization_retry_delay: None,
        dogstatsd_client_initialization_max_retry_attempt: None,
        statsd_socket: None,
        datadog_sender_buffer_size: None,
    };
    assert!(!should_flush(&config, 2, at(0), at(10)));
    assert!(should_flush(&config, 3, at(0), at(10)));
    assert!(should_flush(&config, 0, at(0), at(11)));
}

fn context(key: &str) -> Arc<AuthorizedRequestContext> {
    Arc::new(AuthorizedRequestContext::new(
        key.to_string(),
        NormalizedPath::V1DownloadConfigSpecs,
        vec![CompressionEncoder::Gzip],
    ))
}

fn event(value: i64) -> ProxyEvent {
    ProxyEvent::new_with_rc(
        ProxyEventType::HttpServerRequestSuccess,
        &context("secret-abcdefghijklmnopqrstuvwxyz"),
    )
    .with_lcut(5)
    .with_status_code(200)
    .with_response_encoding("gzip, br".to_string())
    .with_stat(EventStat {
        operation_type: OperationType::Distribution,
        value,
    })
}

#[test]
fn events_become_tagged_statistics() {
    let mut logger = StatsLogger::new(true);
    let operation = logger.handle_event(&event(7), at(0)).expect("a statistic");
    assert_eq!(operation.operation_type, OperationType::Distribution);
    assert_eq!(
        operation.counter_name,
        "statsig.forward_proxy.HttpServerRequestSuccess.latency"
    );
    assert_eq!(operation.value, 7);
    assert_eq!(
        *operation.tags,
        vec![
            "sdk_key:secret-abcdefghijklm***",
            "path:/v1/download_config_specs/",
            "lcut:5",
            "status_code:200",
            "accept-encoding:gzip",
            "content-encoding:gzip+br",
        ]
    );
    // The same event again shares its tags.
    let again = logger.handle_event(&event(8), at(1)).expect("a statistic");
    assert!(Arc::ptr_eq(&operation.tags, &again.tags));
    // Tags of the last minute are dropped, and made anew.
    logger.prune_tag_cache(at(60));
    let anew = logger.handle_event(&event(9), at(61)).expect("a statistic");
    assert!(!Arc::ptr_eq(&operation.tags, &anew.tags));
    assert_eq!(operation.tags, anew.tags);
    // Older ones are kept.
    logger.prune_tag_cache(at(122));
    let kept = logger.handle_event(&event(9), at(123)).expect("a statistic");
    assert!(Arc::ptr_eq(&anew.tags, &kept.tags));
    let timing = StatsLogger::new(false)
        .handle_event(&event(1), at(0))
        .expect("a statistic");
    assert_eq!(timing.operation_type, OperationType::Timing);
    assert!(StatsLogger::new(false)
        .handle_event(&ProxyEvent::new(ProxyEventType::NginxCacheBytesUsed), at(0))
        .is_none());
    assert_eq!(
        create_counter_name("A", "count"),
        "statsig.forward_proxy.A.count"
    );
}

#[test]
fn datadog_statistics_have_fewer_tags() {
    let operation = operation_for(&event(-7)).expect("a statistic");
    assert_eq!(operation.value.as_deref(), Some("-7"));
    assert_eq!(
        operation.tags,
        vec![
            "sdk_key:secret-abcdefghijklm***",
            "lcut:5",
            "path:/v1/download_config_specs/",
        ]
    );
}

fn env_config() -> EnvConfig {
    EnvConfig {
        datadog_max_batch_time_ms: None,
        datadog_max_batch_event_count: Some(3),
        dogstatsd_max_buffer_size: None,
        dogstatsd_max_time_ms: None,
        dogstatsd_max_retry_attempt: None,
        dogstatsd_initial_retry_delay: None,
        statsd_host_override: None,
        statsd_port_override: None,
        statsd_socket: None,
        datadog_sender_buffer_size: None,
        otel_exporter_endpoint: None,
    }
}

fn statistic(operation_type: OperationType, name: &str, value: i64) -> StatsOperation {
    StatsOperation {
        operation_type,
        counter_name: name.to_string(),
        value,
        tags: Arc::new(vec!["a:b".to_string()]),
    }
}

#[test]
fn a_batch_adds_increments_up_and_is_sent_when_it_is_full() {
    let mut batch = OperationBatch::new(&env_config(), at(0));
    let incr = OperationType::IncrByValue;
    assert!(batch.record(statistic(incr, "c", 2), at(1)).is_none());
    assert!(batch.record(statistic(incr, "c", 3), at(1)).is_none());
    assert!(batch
        .record(statistic(OperationType::Gauge, "g", 9), at(1))
        .is_none());
    let sent = batch
        .record(statistic(incr, "d", 1), at(1))
        .expect("a full batch");
    assert_eq!(sent.len(), 3);
    assert_eq!(sent[2].counter_name, "g");
    let mut sums: Vec<(String, i64)> = sent[..2]
        .iter()
        .map(|o| (o.counter_name.clone(), o.value))
        .collect();
    sums.sort();
    assert_eq!(sums, vec![("c".to_string(), 5), ("d".to_string(), 1)]);
    // After the flush the batch is empty, and is sent again once it is old.
    assert!(batch.record(statistic(incr, "c", 1), at(10)).is_none());
    assert!(batch.can_record(&statistic(incr, "c", i64::MAX - 1)));
    assert!(!batch.can_record(&statistic(incr, "c", i64::MAX)));
    assert_eq!(
        batch
            .record(statistic(incr, "c", 1), at(11))
            .expect("an old batch")
            .len(),
        1
    );
}

#[test]
fn tags_are_taken_apart() {
    assert_eq!(
        parse_key_value("path:/a:b"),
        Some(("path".to_string(), "/a:b".to_string()))
    );
    assert_eq!(parse_key_value("plain"), None);
    let tags = vec!["a:1".to_string(), "plain".to_string()];
    assert_eq!(
        event_metadata(&tags),
        vec![("a".to_string(), "1".to_string())]
    );
    assert_eq!(
        convert_tags(&tags),
        vec![("a".to_string(), ":1".to_string())]
    );
    assert_eq!(
        instrument_of(&OperationType::Timing),
        Instrument::Histogram
    );
    assert_eq!(
        Sinks::new(false, true, false, false),
        Sinks {
            statsd: true,
            statsig: false,
            otlp: false
        }
    );
}

#[test]
fn the_statsd_client_is_set_up_from_the_environment() {
    let mut config = env_config();
    config.statsd_host_override = Some("host".to_string());
    let tags = DefaultTagsConfig {
        dd_env: Some("prod".to_string()),
        dd_version: None,
        dd_service: Some("sfp".to_string()),
    };
    let options = initialize_datadog_client_options(&config, &tags, &None);
    assert_eq!(options.to_addr, None);
    assert_eq!(options.max_buffer_size, 8000);
    assert_eq!(options.max_time, Duration::from_secs(30));
    assert_eq!(
        options.default_tags,
        vec!["env:prod", "service:sfp", "pod_name:localhost"]
    );
    config.statsd_port_override = Some("9125".to_string());
    let options =
        initialize_datadog_client_options(&config, &tags, &Some("pod-1".to_string()));
    assert_eq!(options.to_addr.as_deref(), Some("host:9125"));
    assert_eq!(options.default_tags[2], "pod_name:pod-1");
    assert_eq!(sender_buffer_size(&config), 50000);
}

#[test]
fn debug_lines_tell_events() {
    assert_eq!(
        DebugLogger::new().handle_event(&event(-1)),
        "[Debug][Event: HttpServerRequestSuccess] sdk_key: secret-abcdefghijklm***, lcut: 5, \
         stat: Some(EventStat { operation_type: Distribution, value: -1 })"
    );
    assert_eq!(
        DebugLogger::default().handle_event(&ProxyEvent::new(ProxyEventType::DcsFetchSource)),
        "[Debug][Event: DcsFetchSource] sdk_key: None, lcut: None, stat: None"
    );
}

fn config(download_path: &str, id_list_path: &str, max_size_mb: u64) -> NginxCacheConfig {
    NginxCacheConfig {
        proxy_cache_path_configuration: None,
        proxy_cache_download_path_configuration: Some(download_path.to_string()),
        proxy_cache_download_id_list_path_configuration: Some(id_list_path.to_string()),
        proxy_cache_max_size_in_mb: max_size_mb,
    }
}

#[test]
fn cache_paths_uses_split_nginx_cache_directories() {
    let config = config("/cache/download_cache", "/cache/download_id_list", 1024);

    assert_eq!(
        cache_paths(&config),
        vec!["/cache/download_cache", "/cache/download_id_list"]
    );
}

#[test]
fn cache_paths_falls_back_to_legacy_root_cache_directory() {
    let config = NginxCacheConfig {
        proxy_cache_path_configuration: Some("/cache".to_string()),
        proxy_cache_download_path_configuration: None,
        proxy_cache_download_id_list_path_configuration: None,
        proxy_cache_max_size_in_mb: 1024,
    };

    assert_eq!(cache_paths(&config), vec!["/cache"]);
}

#[test]
fn max_cache_size_bytes_accounts_for_both_nginx_caches() {
    let config = config("/cache/download_cache", "/cache/download_id_list", 1024);

    assert_eq!(max_cache_size_bytes(&config), 2 * 1024 * 1024 * 1024);
}

#[test]
fn event_stat_value_saturates_when_u64_exceeds_i64() {
    assert_eq!(event_stat_value(u64::MAX), i64::MAX);
}

#[test]
fn the_caches_are_measured_together() {
    assert_eq!(calculate_cache_size(&vec![7, 11]), 18);
    assert_eq!(calculate_cache_size(&vec![u64::MAX, 11]), u64::MAX);
    let config = config("/a", "/b", u64::MAX);
    let (used, limit) = NginxCacheMonitor::measure(&config, &vec![7, 11]);
    assert_eq!(used.event_type, ProxyEventType::NginxCacheBytesUsed);
    assert_eq!(used.stat.expect("a value").value, 18);
    assert_eq!(limit.event_type, ProxyEventType::NginxCacheBytesLimit);
    assert_eq!(limit.stat.expect("a value").value, i64::MAX);
}

#[test]
fn observers_that_wait_are_told_in_order() {
    let mut observers = HttpDataProviderObserver::new();
    for waits in [true, false, true, false] {
        observers.add_observer(waits);
    }
    let notification = observers.notify_all();
    assert_eq!(notification.background, vec![1, 3]);
    assert_eq!(notification.awaited, vec![0, 2]);
    let mut specs = NewDcsObserver::default();
    assert_eq!(specs.add_observer(true), 0);
    assert_eq!(specs.notify_all().awaited, vec![0]);
}

#[test]
fn events_are_the_same_whatever_their_values() {
    assert_eq!(event(1), event(2));
    assert_ne!(event(1), event(1).with_lcut(6));
    assert_eq!(event(1).event_type.to_string(), "HttpServerRequestSuccess");
    assert_eq!(
        EventConfig {
            event_channel_size: Some(3)
        }
        .channel_size(),
        3
    );
}
