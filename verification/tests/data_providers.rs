use statsig_forward_proxy::clock::{Duration, Instant};
use statsig_forward_proxy::datastore::config_spec_store::{
    propagation_delay, ConfigSpecForCompany, ConfigSpecStore,
};
use statsig_forward_proxy::datastore::data_providers::background_data_provider::{
    needs_backup, order_for_dispatch, prepare_requests, process_request, BackgroundDataProvider,
    FetchAction, FetchExecutionMode, FetchRun, ForegroundFetchLocks, LockOutcome, PollSchedule,
};
use statsig_forward_proxy::datastore::data_providers::background_poll_dispatch::{
    cycle_jitter_mix, dispatch_rank, order_by_rank, rank_of_hash, BackgroundPollDispatchConfig,
};
use statsig_forward_proxy::datastore::data_providers::background_request_interval_tracker::BackgroundRequestIntervalTracker;
use statsig_forward_proxy::datastore::data_providers::http_data_provider::ResponsePayload;
use statsig_forward_proxy::datastore::data_providers::request_backoff::{
    RequestBackoffController, RequestBackoffPolicy,
};
use statsig_forward_proxy::datastore::data_providers::{
    DataProviderRequestResult, DataProviderResult, FullRequestContext, HttpClientConfig,
    ResponseContext,
};
use statsig_forward_proxy::datastore::sdk_key_store::{SdkKeyStore, SdkKeyStoreItem};
use statsig_forward_proxy::observers::{OperationType, ProxyEventType};
use statsig_forward_proxy::servers::authorized_request_context::AuthorizedRequestContext;
use statsig_forward_proxy::servers::normalized_path::NormalizedPath;
use statsig_forward_proxy::utils::compress_encoder::CompressionEncoder;
use std::sync::Arc;

fn secs(n: u64) -> Duration {
    Duration::from_secs(n)
}

fn millis(n: u64) -> Duration {
    Duration::from_millis(n)
}

fn now() -> Instant {
    Instant::at(secs(1_000_000))
}

fn payload(data: &[u8]) -> Arc<ResponsePayload> {
    Arc::new(ResponsePayload {
        encoding: CompressionEncoder::PlainText,
        use_proto: false,
        data: data.to_vec(),
    })
}

fn context(
    key: &str,
    path: NormalizedPath,
    encodings: Vec<CompressionEncoder>,
) -> Arc<AuthorizedRequestContext> {
    Arc::new(AuthorizedRequestContext::new(
        key.to_string(),
        path,
        encodings,
    ))
}

fn stored(store: &mut ConfigSpecStore, rc: &Arc<AuthorizedRequestContext>, lcut: u64) {
    let _ = store.update(
        &FullRequestContext {
            authorized_request_context: Arc::clone(rc),
        },
        &ResponseContext {
            result_type: DataProviderRequestResult::DataAvailable,
            lcut,
            request_since_time: 0,
            body: payload(b"{}"),
        },
        0,
    );
}

#[test]
fn current_lcut_events_report_unchanged_initial_config() {
    let mut store = ConfigSpecStore::new();
    for (encoding, lcut) in [
        (CompressionEncoder::PlainText, 1234),
        (CompressionEncoder::Gzip, 2345),
    ] {
        let rc = context(
            "secret-test-key",
            NormalizedPath::V1DownloadConfigSpecs,
            vec![encoding],
        );
        stored(&mut store, &rc, lcut);
    }

    for events in [store.current_lcut_events(), store.current_lcut_events()] {
        assert_eq!(events.len(), 1);
        let event = &events[0];
        assert_eq!(event.event_type, ProxyEventType::ConfigSpecCurrentLcut);
        assert_eq!(event.get_sdk_key().as_deref(), Some("secret-test-key"));
        assert_eq!(
            event.get_path(),
            Some(NormalizedPath::V1DownloadConfigSpecs.as_str())
        );
        assert_eq!(event.lcut, None);
        let stat = event.stat.as_ref().unwrap();
        assert_eq!(stat.operation_type, OperationType::Gauge);
        assert_eq!(stat.value, 1234);
    }
}

#[test]
fn current_lcut_events_saturate_values_above_i64_max() {
    let rc = context(
        "secret-test-key",
        NormalizedPath::V2DownloadConfigSpecs,
        vec![CompressionEncoder::PlainText],
    );
    let mut store = ConfigSpecStore::new();
    stored(&mut store, &rc, u64::MAX);

    assert_eq!(
        store.current_lcut_events()[0].stat.as_ref().unwrap().value,
        i64::MAX
    );
}

#[test]
fn stored_specs_move_forward_and_go_with_a_refusal() {
    let rc = context(
        "secret-test-key",
        NormalizedPath::V1DownloadConfigSpecs,
        vec![],
    );
    let full = FullRequestContext {
        authorized_request_context: Arc::clone(&rc),
    };
    let response = |result_type, lcut, since, body: &[u8]| ResponseContext {
        result_type,
        lcut,
        request_since_time: since,
        body: payload(body),
    };
    let mut store = ConfigSpecStore::new();
    assert!(store.get_config_spec(&rc, 0).is_none());
    let data = DataProviderRequestResult::DataAvailable;
    assert!(store
        .update(&full, &response(data, 10, 0, b"a"), 1000)
        .is_none());
    // An older response changes nothing.
    assert!(store
        .update(&full, &response(data, 9, 0, b"b"), 1000)
        .is_none());
    let served = store.get_config_spec(&rc, 5).expect("specs");
    assert!(served.has_updates);
    assert_eq!(served.spec.config.data, b"a".to_vec());
    // A newer one tells how long it took.
    let event = store
        .update(&full, &response(data, 400, 10, b"c"), 1000)
        .expect("an event");
    assert_eq!(
        event.event_type,
        ProxyEventType::UpdateConfigSpecStorePropagationDelayMs
    );
    assert_eq!(event.stat.expect("a value").value, 600);
    let served = store.get_config_spec(&rc, 400).expect("specs");
    assert!(!served.has_updates);
    assert_eq!(
        served.spec.config.data,
        b"{\"has_updates\":false}".to_vec()
    );
    let refused = DataProviderRequestResult::Unauthorized;
    let _ = store.update(&full, &response(refused, 0, 0, b""), 1000);
    assert!(store.get(&rc).is_none());
}

fn is_held(locks: &mut ForegroundFetchLocks, rc: &AuthorizedRequestContext) -> bool {
    !locks.claim(rc)
}

#[test]
fn foreground_fetch_lock_key_is_order_insensitive() {
    let mut locks = ForegroundFetchLocks::new();

    let rc1 = context(
        "secret-key",
        NormalizedPath::V1DownloadConfigSpecs,
        vec![CompressionEncoder::Brotli, CompressionEncoder::Gzip],
    );
    let rc2 = context(
        "secret-key",
        NormalizedPath::V1DownloadConfigSpecs,
        vec![CompressionEncoder::Gzip, CompressionEncoder::Brotli],
    );

    assert!(locks.claim(&rc1));
    let _ = locks.finish(&rc1, 1);
    assert!(
        is_held(&mut locks, &rc2),
        "equivalent request context should map to same lock"
    );
}

#[test]
fn foreground_fetch_lock_key_reuses_get_id_lists_gzip_variants() {
    let mut locks = ForegroundFetchLocks::new();

    let rc1 = context(
        "secret-key",
        NormalizedPath::V1GetIdLists,
        vec![CompressionEncoder::Gzip, CompressionEncoder::PlainText],
    );
    let rc2 = context(
        "secret-key",
        NormalizedPath::V1GetIdLists,
        vec![CompressionEncoder::Identity, CompressionEncoder::Gzip],
    );

    assert!(locks.claim(&rc1));
    let _ = locks.finish(&rc1, 1);
    assert!(
        is_held(&mut locks, &rc2),
        "equivalent gzip-capable get_id_lists context should map to same lock"
    );
}

fn file_context(range_start: u64, size: u64) -> Arc<AuthorizedRequestContext> {
    Arc::new(
        AuthorizedRequestContext::new(
            "secret-key".to_string(),
            NormalizedPath::V1DownloadIdListFile,
            vec![CompressionEncoder::PlainText],
        )
        .with_id_list_request(Some("file_123".to_string()), Some(range_start), Some(size)),
    )
}

#[test]
fn foreground_fetch_lock_key_ignores_id_list_file_range_start() {
    let mut locks = ForegroundFetchLocks::new();

    let first_range_context = file_context(270, 512);
    let second_range_context = file_context(1024, 512);

    assert!(locks.claim(&first_range_context));
    let _ = locks.finish(&first_range_context, 1);
    assert!(
        is_held(&mut locks, &second_range_context),
        "different ranges for the same required full file should share a fetch lock"
    );
}

#[test]
fn foreground_fetch_lock_key_distinguishes_id_list_file_required_size() {
    let mut locks = ForegroundFetchLocks::new();

    let stale_size_context = file_context(270, 512);
    let updated_size_context = file_context(270, 2048);

    assert!(locks.claim(&stale_size_context));
    let _ = locks.finish(&stale_size_context, 1);
    assert!(
        !is_held(&mut locks, &updated_size_context),
        "different required file sizes must not share a foreground fetch lock"
    );
}

#[test]
fn a_lock_is_held_after_a_try_and_released_without_one() {
    let mut locks = ForegroundFetchLocks::new();
    let rc = context("k", NormalizedPath::V1GetIdLists, vec![]);
    assert!(locks.claim(&rc));
    assert!(matches!(locks.finish(&rc, 0), LockOutcome::Released));
    assert!(locks.claim(&rc));
    assert!(matches!(locks.finish(&rc, 1), LockOutcome::HeldFor(_)));
    assert!(!locks.claim(&rc));
    locks.drop_lock(&rc);
    assert!(locks.claim(&rc));
}

#[test]
fn background_data_provider_stores_http_client_config() {
    let config = HttpClientConfig::new(45, 20, 5, 30, 25);
    let provider =
        BackgroundDataProvider::new(10, false, config, BackgroundPollDispatchConfig::new(1, 0));

    assert_eq!(provider.http_client_config(), config);
}

#[test]
fn background_poll_dispatch_config_detects_when_dispatch_shaping_is_needed() {
    let config = BackgroundPollDispatchConfig::new(10, 5);
    assert!(config.background_dispatch_shaping_enabled(4));

    let config = BackgroundPollDispatchConfig::new(2, 0);
    assert!(config.background_dispatch_shaping_enabled(4));

    let config = BackgroundPollDispatchConfig::new(4, 0);
    assert!(!config.background_dispatch_shaping_enabled(4));
}

#[test]
fn background_poll_dispatch_config_returns_launch_spacing() {
    let config = BackgroundPollDispatchConfig::new(2, 25);
    assert_eq!(config.launch_spacing(), millis(25));
}

#[test]
fn background_poll_dispatch_rank_is_stable_per_cycle_and_changes_across_cycles() {
    let key = context(
        "secret-key",
        NormalizedPath::V1DownloadConfigSpecs,
        vec![CompressionEncoder::Gzip],
    );

    let rank1 = dispatch_rank(&key, 7, 12345);
    let rank2 = dispatch_rank(&key, 7, 12345);
    let next_cycle_rank = dispatch_rank(&key, 8, 12345);

    assert_eq!(rank1, rank2);
    assert_ne!(rank1, next_cycle_rank);
}

#[test]
fn background_poll_dispatch_config_jitters_poll_interval_within_expected_bounds() {
    let config = BackgroundPollDispatchConfig {
        max_in_flight: 4,
        item_spacing_ms: 0,
        jitter_seed: 12345,
    };

    let base_interval = secs(10);
    let cycle_1_interval = config.poll_interval_for_cycle(base_interval, 1);
    let cycle_2_interval = config.poll_interval_for_cycle(base_interval, 2);

    assert_eq!(
        cycle_1_interval,
        config.poll_interval_for_cycle(base_interval, 1)
    );
    assert!(cycle_1_interval >= secs(9));
    assert!(cycle_1_interval <= secs(11));
    assert!(cycle_2_interval >= secs(9));
    assert!(cycle_2_interval <= secs(11));
    assert_ne!(cycle_1_interval, cycle_2_interval);
}

#[test]
fn dispatch_goes_by_rank() {
    assert_eq!(order_by_rank(&vec![30, 10, 20]), vec![1, 2, 0]);
    assert_eq!(order_by_rank(&vec![]), Vec::<usize>::new());
    assert_eq!(rank_of_hash(5, 7, 9), 5 ^ cycle_jitter_mix(7, 9));
    let config = BackgroundPollDispatchConfig::with_seed(1, 0, 99);
    let items: Vec<SdkKeyStoreItem> = ["a", "b", "c"]
        .iter()
        .map(|key| SdkKeyStoreItem {
            request_context: context(key, NormalizedPath::V1GetIdLists, vec![]),
            lcut: 1,
        })
        .collect();
    let ordered = order_for_dispatch(
        &items,
        FetchExecutionMode::BackgroundPoll { poll_cycle: 3 },
        &config,
    );
    let ranks: Vec<u64> = ordered
        .iter()
        .map(|item| dispatch_rank(&item.request_context, 3, 99))
        .collect();
    assert!(ranks.windows(2).all(|pair| pair[0] <= pair[1]));
    let mut keys: Vec<String> = ordered
        .iter()
        .map(|item| item.request_context.sdk_key.clone())
        .collect();
    keys.sort();
    assert_eq!(keys, vec!["a", "b", "c"]);
}

#[test]
fn equal_requests_have_equal_ranks() {
    let path = NormalizedPath::V1DownloadConfigSpecs;
    let a = context("key", path.clone(), vec![CompressionEncoder::Gzip]);
    let b = context(
        "key",
        path.clone(),
        vec![CompressionEncoder::Brotli, CompressionEncoder::Gzip],
    );
    let other = context("other", path, vec![CompressionEncoder::Gzip]);
    assert_eq!(dispatch_rank(&a, 7, 1), dispatch_rank(&b, 7, 1));
    assert_ne!(dispatch_rank(&a, 7, 1), dispatch_rank(&other, 7, 1));
}

#[test]
fn requests_wait_for_their_own_failures_alone() {
    let mut controller = RequestBackoffController::new(policy());
    let key = backoff_key();
    let other = context("other", NormalizedPath::V1GetIdLists, vec![]);
    let start = now();
    for _ in 0..5 {
        controller.record_failure_at(&other, start);
    }
    assert!(controller.can_attempt_at(&key, start));
    controller.record_failure_at(&key, start);
    controller.record_success(&other);
    assert!(!controller.can_attempt_at(&key, start.plus(millis(999))));
    assert!(controller.can_attempt_at(&key, start.plus(secs(1))));
    assert!(controller.can_attempt_at(&other, start));
}

#[test]
fn delays_are_told_where_newer_specs_replace_older_ones() {
    let rc = backoff_key();
    let full = FullRequestContext {
        authorized_request_context: Arc::clone(&rc),
    };
    let response = |lcut, request_since_time| ResponseContext {
        result_type: DataProviderRequestResult::DataAvailable,
        lcut,
        request_since_time,
        body: payload(b"specs"),
    };
    let mut store = ConfigSpecStore::new();
    assert!(!store.will_tell_delay(&full, &response(5, 1)));
    assert!(store.update(&full, &response(5, 1), i64::MIN).is_none());
    assert!(!store.will_tell_delay(&full, &response(5, 1)));
    assert!(!store.will_tell_delay(&full, &response(6, 0)));
    assert!(store.will_tell_delay(&full, &response(6, 1)));
    assert!(store.update(&full, &response(6, 1), 10).is_some());
    assert!(ConfigSpecStore::needs_fetch(&SdkKeyStore::new(), &rc));
}

#[test]
fn requests_keep_the_context_they_were_registered_with() {
    let with_path = |raw_path: &str| {
        Arc::new(
            AuthorizedRequestContext::new(
                "key".to_string(),
                NormalizedPath::V1DownloadIdListFile,
                vec![],
            )
            .with_raw_request(Some(raw_path.to_string()), None),
        )
    };
    let response = |result_type, lcut| ResponseContext {
        result_type,
        lcut,
        request_since_time: 0,
        body: payload(b""),
    };
    let full = |raw_path: &str| FullRequestContext {
        authorized_request_context: with_path(raw_path),
    };
    let registered = |store: &SdkKeyStore| -> Vec<(Option<String>, u64)> {
        let items = store.get_registered_store();
        items
            .iter()
            .map(|item| (item.request_context.raw_path.clone(), item.lcut))
            .collect()
    };
    let available = DataProviderRequestResult::DataAvailable;
    let mut store = SdkKeyStore::new();
    store.update(&full("/first"), &response(available, 1));
    store.update(&full("/second"), &response(available, 2));
    assert_eq!(registered(&store), vec![(Some("/first".to_string()), 2)]);
    store.update(
        &full("/second"),
        &response(DataProviderRequestResult::Unauthorized, 2),
    );
    store.update(&full("/second"), &response(available, 3));
    assert_eq!(registered(&store), vec![(Some("/second".to_string()), 3)]);
}

#[test]
fn record_completed_request_returns_interval_after_first_completion() {
    let request_context = context(
        "secret-key",
        NormalizedPath::V1DownloadConfigSpecs,
        vec![CompressionEncoder::Gzip],
    );
    let mut tracker = BackgroundRequestIntervalTracker::new();
    let first_completion = now();
    let second_completion = first_completion.plus(millis(1234));

    assert_eq!(
        tracker.record_completed_request_at(&request_context, first_completion),
        None
    );
    assert_eq!(
        tracker.record_completed_request_at(&request_context, second_completion),
        Some(1234)
    );
    let event = tracker
        .publish_completed_request_interval(&request_context, second_completion.plus(secs(2)))
        .expect("an event");
    assert_eq!(event.stat.expect("a value").value, 2000);
}

#[test]
fn background_request_guard_timeout_uses_existing_floor() {
    let config = HttpClientConfig::new(30, 10, 10, 30, 10);

    assert_eq!(config.background_request_guard_timeout(), secs(60));
}

#[test]
fn background_request_guard_timeout_tracks_larger_request_timeout() {
    let config = HttpClientConfig::new(90, 10, 10, 30, 10);

    assert_eq!(config.background_request_guard_timeout(), secs(95));
}

fn policy() -> RequestBackoffPolicy {
    RequestBackoffPolicy {
        initial_delay: secs(1),
        max_delay: secs(8),
    }
}

fn backoff_key() -> Arc<AuthorizedRequestContext> {
    context(
        "secret-key",
        NormalizedPath::V1DownloadConfigSpecs,
        vec![CompressionEncoder::Gzip],
    )
}

#[test]
fn backoff_policy_doubles_delay_and_caps_at_max() {
    let policy = policy();

    assert_eq!(policy.delay_for_failure(1), secs(1));
    assert_eq!(policy.delay_for_failure(2), secs(2));
    assert_eq!(policy.delay_for_failure(3), secs(4));
    assert_eq!(policy.delay_for_failure(4), secs(8));
    assert_eq!(policy.delay_for_failure(5), secs(8));
}

#[test]
fn request_backoff_controller_blocks_until_retry_window_expires() {
    let mut controller = RequestBackoffController::new(policy());
    let key = backoff_key();

    let now = now();
    assert!(controller.can_attempt_at(&key, now));

    controller.record_failure_at(&key, now);
    assert!(!controller.can_attempt_at(&key, now.plus(millis(900))));
    assert!(controller.can_attempt_at(&key, now.plus(secs(1))));

    controller.record_failure_at(&key, now.plus(secs(1)));
    assert!(!controller.can_attempt_at(&key, now.plus(secs(2)).plus(millis(900))));
    assert!(controller.can_attempt_at(&key, now.plus(secs(3))));

    controller.record_success(&key);
    assert!(controller.can_attempt_at(&key, now.plus(secs(3))));
}

#[test]
fn request_backoff_controller_clears_state_on_unauthorized() {
    let mut controller = RequestBackoffController::new(policy());
    let key = backoff_key();

    let now = now();
    controller.record_failure_at(&key, now);
    assert!(!controller.can_attempt_at(&key, now));

    controller.record_result(&key, DataProviderRequestResult::Unauthorized, now);
    assert!(controller.can_attempt_at(&key, now));
}

#[test]
fn request_backoff_controller_prunes_stale_entries() {
    let mut controller = RequestBackoffController::new(policy());
    let key = backoff_key();

    let now = now();
    controller.record_failure_at(&key, now);

    // stale_after = max_delay * 2 = 16s
    let later = now.plus(secs(17));
    controller.prune_stale_at(later);

    // If the entry wasn't pruned, this would be the 2nd failure and the next delay would be 2s.
    // If it was pruned, the next delay will reset to 1s.
    controller.record_failure_at(&key, later);
    assert!(
        controller.can_attempt_at(&key, later.plus(millis(1100))),
        "expected pruned entry to reset backoff to initial delay"
    );
}

#[test]
fn prepared_requests_leave_out_what_waits_or_is_not_wanted() {
    let mut controller = RequestBackoffController::new(policy());
    let items: Vec<SdkKeyStoreItem> = ["a", "b", "c"]
        .iter()
        .map(|key| SdkKeyStoreItem {
            request_context: context(key, NormalizedPath::V1DownloadConfigSpecs, vec![]),
            lcut: 1,
        })
        .collect();
    controller.record_failure_at(&items[0].request_context, now());
    let prepared = prepare_requests(&mut controller, &items, &vec![true, true, false], now());
    assert_eq!(prepared.len(), 1);
    assert_eq!(prepared[0].request_context.sdk_key, "b");
}

#[test]
fn launches_are_spaced_and_limited() {
    let config = BackgroundPollDispatchConfig::with_seed(2, 100, 1);
    let mut run = FetchRun::new(
        3,
        &config,
        FetchExecutionMode::BackgroundPoll { poll_cycle: 1 },
        now(),
    );
    assert_eq!(
        run.next(now()),
        FetchAction::Launch {
            index: 0,
            at: Some(now())
        }
    );
    assert_eq!(
        run.next(now()),
        FetchAction::Launch {
            index: 1,
            at: Some(now().plus(millis(100)))
        }
    );
    assert_eq!(run.next(now()), FetchAction::AwaitOne);
    run.one_ended();
    assert!(matches!(
        run.next(now().plus(secs(1))),
        FetchAction::Launch { index: 2, .. }
    ));
    run.one_ended();
    run.one_ended();
    assert_eq!(run.next(now().plus(secs(1))), FetchAction::Done);
}

#[test]
fn polls_advance_by_their_interval() {
    let config = BackgroundPollDispatchConfig::with_seed(2, 100, 1);
    let mut schedule = PollSchedule::new(0, now());
    assert_eq!(schedule.base_poll_interval, secs(1));
    let first = schedule.next_poll_at;
    schedule.advance(&config);
    assert!(schedule.next_poll_at > first);
    assert_eq!(schedule.poll_cycle, 1);
}

#[test]
fn backups_stand_in_for_errors_only() {
    assert!(needs_backup(DataProviderRequestResult::Error));
    assert!(!needs_backup(DataProviderRequestResult::DataAvailable));
    let rc = backoff_key();
    let failed = DataProviderResult {
        result: DataProviderRequestResult::Error,
        body: None,
        lcut: 0,
    };
    let backup = ConfigSpecForCompany {
        lcut: 7,
        config: payload(b"backup"),
    };
    let response =
        process_request(&rc, 3, &failed, Some(&backup), false).expect("a response");
    assert_eq!(response.lcut, 7);
    assert_eq!(response.body.data, b"backup".to_vec());
    assert!(process_request(&rc, 3, &failed, None, false).is_none());
}

#[test]
fn keys_are_registered_with_what_they_have_seen() {
    let mut keys = SdkKeyStore::new();
    let rc = backoff_key();
    assert!(!keys.has_key(&rc));
    keys.update(
        &FullRequestContext {
            authorized_request_context: Arc::clone(&rc),
        },
        &ResponseContext {
            result_type: DataProviderRequestResult::DataAvailable,
            lcut: 5,
            request_since_time: 0,
            body: payload(b""),
        },
    );
    assert!(keys.has_key(&rc));
}

#[test]
fn propagation_delays_are_told_where_they_fit() {
    assert_eq!(propagation_delay(400, 1_000), Some(600));
    assert_eq!(propagation_delay(1_000, 400), Some(-600));
    assert_eq!(propagation_delay(u64::MAX, 1_000), Some(1_001));
    assert_eq!(propagation_delay(i64::MAX as u64 + 1, 0), None);
    assert_eq!(propagation_delay(1, i64::MIN), None);
}
