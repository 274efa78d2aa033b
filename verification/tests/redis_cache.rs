use statsig_forward_proxy::clock::Duration;
use statsig_forward_proxy::datastore::caching::redis_auth::MIN_REFRESH_MARGIN;
use statsig_forward_proxy::datastore::caching::redis_cache::{
    bytes_to_store, finish_read, read_commands, LeaderReply, ReadReply, RedisCache, RedisCommand,
    RedisUpdate, UpdateAction, UpdateReply,
};
use statsig_forward_proxy::datastore::caching::redis_config::{
    apply_key_prefix, default_entra_authority_host, entra_config_from_env,
    is_secure_authority_host, min_idle_is_too_low_for_oauth, oauth_transport_is_plaintext,
    parse_auth_mode, resolve_redis_auth, startup_plan, RedisAuthMode, RedisEnvConfig,
    StartupCredentials,
};
use statsig_forward_proxy::datastore::data_providers::http_data_provider::ResponsePayload;
use statsig_forward_proxy::datastore::data_providers::DataProviderRequestResult;
use statsig_forward_proxy::observers::ProxyEventType;
use statsig_forward_proxy::servers::authorized_request_context::AuthorizedRequestContext;
use statsig_forward_proxy::servers::normalized_path::NormalizedPath;
use statsig_forward_proxy::utils::compress_encoder::CompressionEncoder;
use std::sync::Arc;

const REDIS_LEADER_KEY: &str = "statsig_forward_proxy::leader";

fn oauth_env_config() -> RedisEnvConfig {
    RedisEnvConfig {
        redis_enterprise_user: None,
        redis_enterprise_password: None,
        redis_enterprise_host: "cache.example.com".to_string(),
        redis_enterprise_port: "6380".to_string(),
        redis_connection_pool_max_size: None,
        redis_connection_pool_min_size: None,
        redis_memorystore: None,
        redis_tls: Some(true),
        redis_key_prefix: None,
        redis_auth_mode: Some("oauth".to_string()),
        redis_oauth_tenant_id: Some("tenant".to_string()),
        redis_oauth_client_id: Some("client".to_string()),
        redis_oauth_client_secret: Some("secret".to_string()),
        redis_oauth_scope: Some("https://example.onmicrosoft.com/app/.default".to_string()),
        redis_oauth_username: None,
        redis_oauth_refresh_margin_in_s: None,
        redis_oauth_authority_host: None,
        redis_oauth_allow_plaintext: None,
    }
}

#[test]
fn auth_user_and_password_sends_both() {
    let (username, password) = resolve_redis_auth("acl-user", Some("hunter2"));
    assert_eq!(username, Some("acl-user".to_string()));
    assert_eq!(password, Some("hunter2".to_string()));
}

#[test]
fn auth_user_without_password_forces_empty_password() {
    // The redis-rs #1713 case: username-only ACL user with an empty password must still
    // send AUTH, so password must be Some("") rather than None.
    let (username, password) = resolve_redis_auth("acl-user", None);
    assert_eq!(username, Some("acl-user".to_string()));
    assert_eq!(password, Some(String::new()));
}

#[test]
fn auth_password_only_has_no_username() {
    let (username, password) = resolve_redis_auth("", Some("hunter2"));
    assert_eq!(username, None);
    assert_eq!(password, Some("hunter2".to_string()));
}

#[test]
fn auth_no_credentials_is_unauthenticated() {
    let (username, password) = resolve_redis_auth("", None);
    assert_eq!(username, None);
    assert_eq!(password, None);
}

#[test]
fn prefix_empty_returns_key_unchanged() {
    assert_eq!(
        apply_key_prefix("", "statsig|foo".to_string()),
        "statsig|foo"
    );
    assert_eq!(
        apply_key_prefix("   ", "statsig|foo".to_string()),
        "statsig|foo"
    );
}

#[test]
fn prefix_without_colon_inserts_separator() {
    assert_eq!(
        apply_key_prefix("sfp-np", "statsig|foo".to_string()),
        "sfp-np:statsig|foo"
    );
}

#[test]
fn prefix_with_trailing_colon_is_not_doubled() {
    assert_eq!(
        apply_key_prefix("sfp-np:", "statsig|foo".to_string()),
        "sfp-np:statsig|foo"
    );
}

#[test]
fn prefix_is_trimmed_before_applying() {
    assert_eq!(
        apply_key_prefix("  sfp-np  ", "statsig|foo".to_string()),
        "sfp-np:statsig|foo"
    );
}

#[test]
fn prefix_applies_to_leader_key() {
    assert_eq!(
        apply_key_prefix("sfp-np:", REDIS_LEADER_KEY.to_string()),
        format!("sfp-np:{REDIS_LEADER_KEY}")
    );
}

#[test]
fn auth_mode_defaults_to_password() {
    // Existing deployments set nothing, and must not take the Entra path.
    assert_eq!(parse_auth_mode(None), Ok(RedisAuthMode::Password));
    assert_eq!(parse_auth_mode(Some("")), Ok(RedisAuthMode::Password));
    assert_eq!(
        parse_auth_mode(Some("password")),
        Ok(RedisAuthMode::Password)
    );
}

#[test]
fn auth_mode_parsing_is_case_and_whitespace_insensitive() {
    assert_eq!(parse_auth_mode(Some("  OAuth ")), Ok(RedisAuthMode::Oauth));
    assert_eq!(
        parse_auth_mode(Some(" Password")),
        Ok(RedisAuthMode::Password)
    );
}

#[test]
fn auth_mode_rejects_unknown_values() {
    // Better to fail startup than to silently fall back to a different auth mode.
    let error = parse_auth_mode(Some("mtls")).err().expect("expected an error");
    assert!(error.contains("mtls"), "{error}");
}

#[test]
fn entra_config_reads_all_oauth_settings() {
    let config = entra_config_from_env(&oauth_env_config()).expect("config should be valid");
    assert_eq!(config.tenant_id, "tenant");
    assert_eq!(config.client_id, "client");
    assert_eq!(config.client_secret, "secret");
    assert_eq!(config.scope, "https://example.onmicrosoft.com/app/.default");
    assert_eq!(config.authority_host, default_entra_authority_host());
    // The default user authenticates with the token alone.
    assert_eq!(config.username, None);
    assert_eq!(config.refresh_margin, None);
}

#[test]
fn entra_config_reports_every_missing_variable() {
    let mut env_config = oauth_env_config();
    env_config.redis_oauth_tenant_id = None;
    env_config.redis_oauth_scope = Some("   ".to_string());

    let error = entra_config_from_env(&env_config).err().expect("expected an error");
    assert!(error.contains("REDIS_OAUTH_TENANT_ID"), "{error}");
    assert!(error.contains("REDIS_OAUTH_SCOPE"), "{error}");
    assert!(!error.contains("REDIS_OAUTH_CLIENT_ID"), "{error}");
}

#[test]
fn entra_config_treats_blank_username_as_default_user() {
    let mut env_config = oauth_env_config();
    env_config.redis_oauth_username = Some("  ".to_string());
    let config = entra_config_from_env(&env_config).expect("config should be valid");
    assert_eq!(config.username, None);
}

#[test]
fn entra_config_keeps_explicit_username_and_margin() {
    let mut env_config = oauth_env_config();
    env_config.redis_oauth_username = Some(" object-id ".to_string());
    env_config.redis_oauth_refresh_margin_in_s = Some("300".to_string());

    let config = entra_config_from_env(&env_config).expect("config should be valid");
    assert_eq!(config.username, Some("object-id".to_string()));
    assert_eq!(config.refresh_margin, Some(Duration::from_secs(300)));
}

#[test]
fn entra_config_requires_tls_because_the_token_is_the_password() {
    // Unset is the case that matters: forgetting REDIS_TLS should not quietly put a live
    // Entra credential on the wire in cleartext.
    for tls in [None, Some(false)] {
        let mut env_config = oauth_env_config();
        env_config.redis_tls = tls;

        let error = entra_config_from_env(&env_config).err().expect("expected an error");
        assert!(error.contains("REDIS_TLS"), "{error}");
        assert!(error.contains("REDIS_OAUTH_ALLOW_PLAINTEXT"), "{error}");
    }
}

#[test]
fn entra_config_allows_plaintext_only_when_explicitly_acknowledged() {
    // The sidecar case: something else encrypts the hop, so the operator opts in by name.
    let mut env_config = oauth_env_config();
    env_config.redis_tls = None;
    env_config.redis_oauth_allow_plaintext = Some("true".to_string());

    entra_config_from_env(&env_config).expect("an explicit opt-in should be honored");
}

#[test]
fn the_plaintext_opt_in_is_inert_when_tls_is_on() {
    // It must not read as "turn TLS off"; it only waives the requirement.
    let mut env_config = oauth_env_config();
    env_config.redis_oauth_allow_plaintext = Some("true".to_string());

    entra_config_from_env(&env_config).expect("config should be valid");
    assert!(!oauth_transport_is_plaintext(&env_config));
}

#[test]
fn entra_config_rejects_a_plaintext_authority_host() {
    // The client secret and the access token both travel to this host.
    let mut env_config = oauth_env_config();
    env_config.redis_oauth_authority_host =
        Some("http://login.microsoftonline.com".to_string());

    let error = entra_config_from_env(&env_config).err().expect("expected an error");
    assert!(error.contains("REDIS_OAUTH_AUTHORITY_HOST"), "{error}");
    assert!(error.contains("https"), "{error}");
}

#[test]
fn entra_config_rejects_an_authority_host_without_a_scheme() {
    // Would otherwise fail later as an opaque relative-URL transport error.
    let mut env_config = oauth_env_config();
    env_config.redis_oauth_authority_host = Some("login.microsoftonline.com".to_string());

    let error = entra_config_from_env(&env_config).err().expect("expected an error");
    assert!(error.contains("REDIS_OAUTH_AUTHORITY_HOST"), "{error}");
}

#[test]
fn entra_config_accepts_a_sovereign_cloud_authority_host() {
    let mut env_config = oauth_env_config();
    env_config.redis_oauth_authority_host =
        Some("  https://login.microsoftonline.us  ".to_string());

    let config = entra_config_from_env(&env_config).expect("config should be valid");
    assert_eq!(config.authority_host, "https://login.microsoftonline.us");
}

#[test]
fn entra_config_falls_back_to_the_default_authority_host() {
    let mut env_config = oauth_env_config();
    env_config.redis_oauth_authority_host = Some("   ".to_string());

    let config = entra_config_from_env(&env_config).expect("config should be valid");
    assert_eq!(config.authority_host, default_entra_authority_host());
    assert!(is_secure_authority_host(default_entra_authority_host()));
}

#[test]
fn authority_host_scheme_check_is_case_insensitive() {
    assert!(is_secure_authority_host(
        "HTTPS://login.microsoftonline.com"
    ));
    assert!(!is_secure_authority_host(
        "HTTP://login.microsoftonline.com"
    ));
    // A scheme that merely starts with the right letters must not slip through.
    assert!(!is_secure_authority_host(
        "https:/login.microsoftonline.com"
    ));
}

#[test]
fn entra_config_rejects_a_refresh_margin_below_the_floor() {
    // A margin at or under the hard-expiry guard mints the next token only once checkouts
    // are already being refused, so the tail of every token becomes an outage window.
    for margin in [0, 30, 59] {
        let mut env_config = oauth_env_config();
        env_config.redis_oauth_refresh_margin_in_s = Some(margin.to_string());

        let error = entra_config_from_env(&env_config)
            .err().expect("expected a margin of {margin} to be rejected");
        assert!(error.contains("REDIS_OAUTH_REFRESH_MARGIN_IN_S"), "{error}");
    }
}

#[test]
fn entra_config_accepts_the_smallest_allowed_refresh_margin() {
    let mut env_config = oauth_env_config();
    env_config.redis_oauth_refresh_margin_in_s = Some(MIN_REFRESH_MARGIN.to_string());

    let config = entra_config_from_env(&env_config).expect("config should be valid");
    assert_eq!(config.refresh_margin, Some(Duration::from_secs(MIN_REFRESH_MARGIN)));
}

#[test]
fn entra_config_rejects_an_unparsable_refresh_margin_by_name() {
    let mut env_config = oauth_env_config();
    env_config.redis_oauth_refresh_margin_in_s = Some("60s".to_string());

    let error = entra_config_from_env(&env_config).err().expect("expected an error");
    assert!(error.contains("REDIS_OAUTH_REFRESH_MARGIN_IN_S"), "{error}");
    assert!(
        error.contains("60s"),
        "the error should show the value: {error}"
    );
}

#[test]
fn entra_config_rejects_an_unparsable_plaintext_flag_by_name() {
    let mut env_config = oauth_env_config();
    env_config.redis_oauth_allow_plaintext = Some("maybe".to_string());

    let error = entra_config_from_env(&env_config).err().expect("expected an error");
    assert!(error.contains("REDIS_OAUTH_ALLOW_PLAINTEXT"), "{error}");
    assert!(
        error.contains("maybe"),
        "the error should show the value: {error}"
    );
}

#[test]
fn oauth_flags_accept_the_usual_spellings() {
    for raw in ["true", "TRUE", " True ", "1", "yes"] {
        let mut env_config = oauth_env_config();
        env_config.redis_tls = None;
        env_config.redis_oauth_allow_plaintext = Some(raw.to_string());

        entra_config_from_env(&env_config)
            .unwrap_or_else(|e| panic!("'{raw}' should waive the TLS requirement: {e}"));
    }
}

#[test]
fn a_blank_oauth_value_reads_as_unset() {
    // A Kubernetes ConfigMap entry with no value arrives as an empty string, which should
    // mean "not configured" rather than a parse failure.
    let mut env_config = oauth_env_config();
    env_config.redis_oauth_refresh_margin_in_s = Some("  ".to_string());
    env_config.redis_oauth_allow_plaintext = Some(String::new());

    let config = entra_config_from_env(&env_config).expect("config should be valid");
    assert_eq!(config.refresh_margin, None);
}

#[test]
fn entra_config_trims_values_from_file_backed_secrets() {
    // A secret created from a file routinely carries a trailing newline. It passes the
    // presence check, so it has to be trimmed before it reaches the token URL.
    let mut env_config = oauth_env_config();
    env_config.redis_oauth_tenant_id = Some("tenant\n".to_string());
    env_config.redis_oauth_client_id = Some("  client  ".to_string());
    env_config.redis_oauth_client_secret = Some("secret\r\n".to_string());
    env_config.redis_oauth_scope = Some("\thttps://example.com/app/.default\n".to_string());

    let config = entra_config_from_env(&env_config).expect("config should be valid");
    assert_eq!(config.tenant_id, "tenant");
    assert_eq!(config.client_id, "client");
    assert_eq!(config.client_secret, "secret");
    assert_eq!(config.scope, "https://example.com/app/.default");
}

#[test]
fn min_idle_warning_tracks_pool_size() {
    assert!(min_idle_is_too_low_for_oauth(1, 10));
    assert!(!min_idle_is_too_low_for_oauth(5, 10));
    assert!(!min_idle_is_too_low_for_oauth(10, 10));
}

#[test]
fn oauth_only_values_are_not_parsed_until_oauth_mode_is_selected() {
    // A stale entry in a shared configuration must not stop a deployment that does not use it.
    let mut config = oauth_env_config();
    config.redis_auth_mode = Some("password".to_string());
    config.redis_oauth_refresh_margin_in_s = Some("not-a-number".to_string());
    config.redis_oauth_allow_plaintext = Some("maybe".to_string());

    assert_eq!(
        parse_auth_mode(config.redis_auth_mode.as_deref()),
        Ok(RedisAuthMode::Password)
    );
    assert!(startup_plan(&config).is_ok());
}

#[test]
fn a_startup_plan_has_the_defaults_of_the_pool() {
    let plan = startup_plan(&oauth_env_config()).unwrap_or_else(|e| panic!("{e}"));
    assert_eq!(plan.host, "cache.example.com");
    assert_eq!(plan.port, 6380);
    assert!(plan.tls);
    assert_eq!((plan.max_size, plan.min_idle), (10, 1));
    assert_eq!(plan.warnings.len(), 1);
    assert!(matches!(plan.credentials, StartupCredentials::Oauth(_)));
    let mut config = oauth_env_config();
    config.redis_enterprise_port = "port".to_string();
    assert!(startup_plan(&config).is_err());
}

#[test]
fn redis_secrets_are_redacted_in_debug_output() {
    let mut config = oauth_env_config();
    config.redis_enterprise_password = Some("hunter2".to_string());
    let rendered = config.debug_text();
    assert!(!rendered.contains("hunter2"), "{rendered}");
    assert!(!rendered.contains("client_secret: Some(\"secret\")"), "{rendered}");
    assert!(rendered.starts_with(
        "RedisEnvConfig { redis_enterprise_user: None, redis_enterprise_password: \
         Some(\"<redacted>\"), redis_enterprise_host: \"cache.example.com\", \
         redis_enterprise_port: \"6380\", redis_connection_pool_max_size: None, "
    ));
    assert!(rendered.contains("redis_tls: Some(true), "));
}

fn context(encodings: Vec<CompressionEncoder>) -> Arc<AuthorizedRequestContext> {
    Arc::new(AuthorizedRequestContext::new(
        "secret-abcdefghijklmnopqrstuvwxyz".to_string(),
        NormalizedPath::V1DownloadConfigSpecs,
        encodings,
    ))
}

fn cache() -> RedisCache {
    RedisCache::new(70, "me", true, 86400, true, "sfp".to_string())
}

fn plain(data: &str) -> Arc<ResponsePayload> {
    Arc::new(ResponsePayload {
        encoding: CompressionEncoder::PlainText,
        use_proto: false,
        data: data.as_bytes().to_vec(),
    })
}

#[test]
fn redis_keys_hold_a_prefix_or_a_digest_of_the_sdk_key() {
    let mut cache = cache();
    let rc = context(vec![]);
    assert_eq!(
        cache.get_redis_key(&rc, Some(false), false),
        "sfp:statsig|/v1/download_config_specs|plain_text|secret-abcdefghijklm"
    );
    assert_eq!(
        cache.get_redis_key(&rc, Some(true), false),
        "sfp:statsig|/v1/download_config_specs|statsig-br|secret-abcdefghijklm"
    );
    // The digest of `abc` is a well-known one.
    assert_eq!(
        cache.hash_key("abc"),
        "ungWv48Bz+pBQUDeXa4iI7ADYaOWF3qctBD/YfIAFa0="
    );
    assert_eq!(cache.hash_key("abc"), cache.hash_key("abc"));
    assert_eq!(cache.update_keys(&rc, &plain("{}")).len(), 2);
    assert_eq!(cache.leader_key(), "sfp:statsig_forward_proxy::leader");
}

fn leader(ttl: i32, leader: &str, stored_lcut: Option<&str>) -> UpdateReply {
    UpdateReply::Leader(LeaderReply {
        ttl,
        leader: leader.to_string(),
        stored_lcut: stored_lcut.map(|s| s.to_string()),
    })
}

fn published(action: UpdateAction) -> ProxyEventType {
    match action {
        UpdateAction::Publish(event) => event.event_type,
        other => panic!("{other:?}"),
    }
}

fn asked(result: DataProviderRequestResult) -> (RedisUpdate, UpdateAction) {
    let cache = cache();
    let (mut update, action) = RedisUpdate::start(
        &cache,
        true,
        "key".to_string(),
        result,
        &context(vec![]),
        7,
        &plain("{}"),
    );
    assert!(matches!(action, UpdateAction::Connect));
    let action = update.step(UpdateReply::Succeeded);
    (update, action)
}

#[test]
fn the_leader_writes_what_is_newer() {
    let (mut update, action) = asked(DataProviderRequestResult::DataAvailable);
    match action {
        UpdateAction::Query(commands) => assert_eq!(commands.len(), 4),
        other => panic!("{other:?}"),
    }
    match update.step(leader(60, "me", Some("6"))) {
        UpdateAction::Query(commands) => {
            assert_eq!(commands.len(), 9);
            assert!(matches!(
                &commands[6],
                RedisCommand::HSetBytes { key, field, bytes }
                    if key == "key" && field == "config" && bytes == b"{}"
            ));
            assert!(matches!(
                &commands[7],
                RedisCommand::Expire { key, seconds: 86400 } if key == "key"
            ));
        }
        other => panic!("{other:?}"),
    }
    assert_eq!(
        published(update.step(UpdateReply::Succeeded)),
        ProxyEventType::RedisCacheWriteSucceed
    );
    assert!(matches!(
        update.step(UpdateReply::Succeeded),
        UpdateAction::Finish
    ));
}

#[test]
fn stale_data_and_followers_skip_the_write() {
    for reply in [leader(60, "me", Some("7")), leader(60, "other", Some("1"))] {
        let (mut update, _) = asked(DataProviderRequestResult::DataAvailable);
        assert_eq!(
            published(update.step(reply)),
            ProxyEventType::RedisCacheWriteSkipped
        );
    }
}

#[test]
fn the_key_of_a_leader_that_left_is_given_an_expiry() {
    let (mut update, _) = asked(DataProviderRequestResult::DataAvailable);
    match update.step(leader(-1, "other", None)) {
        UpdateAction::QueryBestEffort(commands) => {
            assert!(matches!(
                &commands[4],
                RedisCommand::Expire { seconds: 70, .. }
            ));
        }
        other => panic!("{other:?}"),
    }
    assert_eq!(
        published(update.step(UpdateReply::Failed)),
        ProxyEventType::RedisCacheWriteSkipped
    );
}

#[test]
fn failures_of_redis_are_published() {
    let (mut update, _) = asked(DataProviderRequestResult::DataAvailable);
    let _ = update.step(leader(60, "me", None));
    assert_eq!(
        published(update.step(UpdateReply::Failed)),
        ProxyEventType::RedisCacheWriteFailed
    );
    let (mut update, action) = asked(DataProviderRequestResult::Unauthorized);
    assert!(matches!(action, UpdateAction::Delete(key) if key == "key"));
    assert_eq!(
        published(update.step(UpdateReply::Failed)),
        ProxyEventType::RedisCacheDeleteFailed
    );
    let (mut update, _) = asked(DataProviderRequestResult::Unauthorized);
    assert_eq!(
        published(update.step(UpdateReply::Succeeded)),
        ProxyEventType::RedisCacheDeleteSucceed
    );
}

#[test]
fn nothing_is_done_without_a_pool_or_without_data() {
    let cache = cache();
    for (has_pool, result) in [
        (false, DataProviderRequestResult::DataAvailable),
        (true, DataProviderRequestResult::NoDataAvailable),
        (true, DataProviderRequestResult::Error),
    ] {
        let (_, action) = RedisUpdate::start(
            &cache,
            has_pool,
            "key".to_string(),
            result,
            &context(vec![]),
            7,
            &plain("{}"),
        );
        assert!(matches!(action, UpdateAction::Finish));
    }
}

#[test]
fn reads_bring_back_what_was_written() {
    let (spec, event) = finish_read(
        &context(vec![CompressionEncoder::Gzip]),
        ReadReply::Found {
            lcut: Some(5),
            data: b"{\"a\":1}".to_vec(),
        },
    );
    let spec = spec.expect("specs");
    assert_eq!(spec.lcut, 5);
    assert_eq!(spec.config.encoding, CompressionEncoder::Gzip);
    assert_ne!(spec.config.data, b"{\"a\":1}".to_vec());
    assert_eq!(
        bytes_to_store(&spec.config),
        Some(b"{\"a\":1}".to_vec())
    );
    assert_eq!(event.event_type, ProxyEventType::RedisCacheReadSucceed);
    let (none, event) = finish_read(
        &context(vec![]),
        ReadReply::Found {
            lcut: Some(5),
            data: vec![],
        },
    );
    assert!(none.is_none());
    assert_eq!(event.event_type, ProxyEventType::RedisCacheReadMiss);
    let (none, event) = finish_read(&context(vec![]), ReadReply::NoConnection);
    assert!(none.is_none());
    assert_eq!(event.event_type, ProxyEventType::RedisCacheReadFailed);
    assert!(matches!(
        &read_commands("k")[1],
        RedisCommand::HGet { key, field } if key == "k" && field == "config"
    ));
}

#[test]
fn payloads_that_cannot_be_decompressed_are_not_stored() {
    for encoding in [CompressionEncoder::Gzip, CompressionEncoder::Brotli] {
        let payload = ResponsePayload {
            encoding,
            use_proto: false,
            data: b"not compressed".to_vec(),
        };
        assert_eq!(bytes_to_store(&payload), None);
    }
}
