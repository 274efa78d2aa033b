use statsig_forward_proxy::clock::{Duration, Instant};
use statsig_forward_proxy::datastore::caching::redis_auth::{
    accept_token, check_token_reply, configured_margin_fits, is_token_expiring,
    max_connection_lifetime, refresh_delay, refresh_margin, should_retire_connection,
    truncate_for_log, usable_token_lifetime, EntraOauthConfig, EntraTokenProvider,
    RedisCredentials, RetryStep, StatsigRedisConnectionManager, TokenError, TokenReply,
    TokenResponse, TokenRetry, TrackedConnection, MAX_LOGGED_ERROR_BODY_LEN, MAX_TOKEN_LIFETIME,
    MIN_CONNECTION_LIFETIME, MIN_REFRESH_DELAY, MIN_REFRESH_MARGIN, TOKEN_HARD_EXPIRY_MARGIN,
};
use std::sync::Arc;

fn secs(n: u64) -> Duration {
    Duration::from_secs(n)
}

fn hour() -> Duration {
    secs(3600)
}

fn at(n: u64) -> Instant {
    Instant::at(secs(n))
}

fn config() -> EntraOauthConfig {
    EntraOauthConfig {
        tenant_id: "tenant".to_string(),
        client_id: "client".to_string(),
        client_secret: "super-secret".to_string(),
        scope: "https://example.com/app/.default".to_string(),
        username: None,
        refresh_margin: None,
        authority_host: "https://login.microsoftonline.com".to_string(),
    }
}

fn provider_at_generation(generation: u64) -> Arc<EntraTokenProvider> {
    let mut provider = EntraTokenProvider::new(config(), at(0));
    provider.token.generation = generation;
    Arc::new(provider)
}

#[test]
fn refresh_defaults_to_three_quarters_of_lifetime() {
    assert_eq!(refresh_delay(hour(), None), secs(2700));
}

#[test]
fn refresh_honors_configured_margin() {
    assert_eq!(refresh_delay(hour(), Some(secs(120))), secs(3480));
}

#[test]
fn a_margin_larger_than_the_lifetime_falls_back_to_the_default() {
    // Capping it instead would refresh every MIN_REFRESH_DELAY, churning the whole pool on
    // that cadence, so an unusable value has to degrade to the default rather than to the
    // floor. The millisecond mix-up is the realistic way to get here.
    for configured in [hour(), secs(7200), secs(3_600_000)] {
        assert_eq!(
            refresh_delay(hour(), Some(configured)),
            refresh_delay(hour(), None),
            "a {configured:?} margin should behave as if unset"
        );
    }
}

#[test]
fn a_margin_that_fits_is_still_honored_exactly() {
    // The fallback must not swallow legitimate values, including the largest usable one.
    let largest_usable = hour().saturating_sub(secs(MIN_REFRESH_DELAY));
    assert_eq!(
        refresh_delay(hour(), Some(largest_usable)),
        secs(MIN_REFRESH_DELAY),
        "the boundary value should still be honored"
    );
    assert_eq!(
        refresh_delay(hour(), Some(secs(600))),
        hour().saturating_sub(secs(600))
    );
}

#[test]
fn refresh_floor_never_exceeds_short_lifetimes() {
    // The 30s floor must not push the refresh past a 10s token's expiry.
    let lifetime = secs(10);
    let delay = refresh_delay(lifetime, Some(secs(60)));
    assert!(delay < lifetime, "expected {delay:?} < {lifetime:?}");
}

#[test]
fn max_connection_lifetime_stays_under_the_refresh_margin() {
    // A connection opened just before a refresh inherits only one margin of token life, so
    // the cap has to be under the margin (15 min here) rather than under the lifetime.
    let cap = max_connection_lifetime(hour(), None);
    assert_eq!(cap, secs(675));
    assert!(cap < refresh_margin(hour(), None), "{cap:?}");
}

#[test]
fn max_connection_lifetime_is_floored_for_small_margins() {
    // A 2 minute margin must not recycle the entire pool every 90 seconds.
    let cap = max_connection_lifetime(hour(), Some(secs(120)));
    assert_eq!(cap, secs(MIN_CONNECTION_LIFETIME));
}

#[test]
fn max_connection_lifetime_never_exceeds_half_the_lifetime() {
    // The floor must not push the cap above the token lifetime for short-lived tokens.
    let lifetime = secs(60);
    assert_eq!(max_connection_lifetime(lifetime, None), secs(30));
}

#[test]
fn max_connection_lifetime_is_never_zero() {
    // bb8's builder panics on a zero max_lifetime.
    assert_eq!(max_connection_lifetime(secs(0), None), secs(1));
}

#[test]
fn a_normal_token_lifetime_is_accepted_unchanged() {
    assert_eq!(usable_token_lifetime(3600).expect("accepted"), hour());
}

#[test]
fn a_zero_lifetime_token_is_rejected() {
    // Accepting it would make refresh_delay zero and spin the refresh loop against the token
    // endpoint with no delay between attempts.
    let error = usable_token_lifetime(0).expect_err("expected an error");
    assert!(matches!(error, TokenError::Malformed(_)), "{error:?}");
    assert!(refresh_delay(hour(), None) >= secs(MIN_REFRESH_DELAY));
}

#[test]
fn a_token_below_the_usable_floor_is_rejected() {
    assert!(usable_token_lifetime(119).is_err());
    assert!(usable_token_lifetime(120).is_ok());
}

#[test]
fn an_absurd_lifetime_is_clamped_rather_than_overflowing() {
    // `now + lifetime` panics on overflow, and expires_in is untrusted input.
    let lifetime = usable_token_lifetime(u64::MAX).expect("should clamp rather than reject");
    assert_eq!(lifetime, secs(MAX_TOKEN_LIFETIME));
    let _ = at(1_700_000_000).plus(lifetime);
}

#[test]
fn every_accepted_lifetime_yields_a_nonzero_refresh_delay() {
    // The property that keeps the refresh loop from hot-looping, checked across the whole
    // accepted range rather than at a single point.
    for expires_in in [120, 121, 300, 3600, 86_400, u64::MAX] {
        let lifetime = usable_token_lifetime(expires_in).expect("should be accepted");
        let delay = refresh_delay(lifetime, None);
        assert!(
            delay >= secs(MIN_REFRESH_DELAY),
            "expires_in={expires_in} gave {delay:?}"
        );
        let margin_delay = refresh_delay(lifetime, Some(secs(MIN_REFRESH_MARGIN)));
        assert!(
            margin_delay >= secs(MIN_REFRESH_DELAY),
            "expires_in={expires_in} with the smallest margin gave {margin_delay:?}"
        );
    }
}

#[test]
fn the_smallest_allowed_margin_stays_ahead_of_the_checkout_guard() {
    // Otherwise the replacement token is minted only after connections start being refused.
    assert!(secs(MIN_REFRESH_MARGIN) > secs(TOKEN_HARD_EXPIRY_MARGIN));
}

#[test]
fn no_accepted_lifetime_refreshes_after_the_checkout_guard_engages() {
    // The invariant the whole rotation scheme rests on: the replacement token is always
    // minted while the current one can still serve checkouts. A margin at or below the hard
    // expiry margin opens a recurring outage in the tail of every token lifetime, so check
    // the derived margin too, not just configured ones: a quarter of a short lifetime is
    // small enough to fall through on its own.
    let margins = [
        None,
        Some(Duration::zero()),
        Some(secs(1)),
        Some(secs(TOKEN_HARD_EXPIRY_MARGIN)),
        Some(secs(MIN_REFRESH_MARGIN)),
        Some(secs(600)),
        Some(secs(86_400)),
    ];
    for expires_in in [120, 121, 180, 300, 3600, 86_400, u64::MAX] {
        let lifetime = usable_token_lifetime(expires_in).expect("should be accepted");
        for margin in margins {
            let resolved = refresh_margin(lifetime, margin);
            assert!(
                resolved > secs(TOKEN_HARD_EXPIRY_MARGIN),
                "expires_in={expires_in} margin={margin:?} resolved to {resolved:?}"
            );
            let delay = refresh_delay(lifetime, margin);
            assert!(
                delay >= secs(MIN_REFRESH_DELAY),
                "expires_in={expires_in} margin={margin:?} gave delay {delay:?}"
            );
        }
    }
}

#[test]
fn token_with_ample_life_is_not_expiring() {
    assert!(!is_token_expiring(
        at(1000),
        at(1600),
        secs(TOKEN_HARD_EXPIRY_MARGIN)
    ));
}

#[test]
fn token_inside_margin_is_expiring() {
    assert!(is_token_expiring(
        at(1000),
        at(1005),
        secs(TOKEN_HARD_EXPIRY_MARGIN)
    ));
}

#[test]
fn already_expired_token_is_expiring() {
    assert!(is_token_expiring(
        at(1000),
        at(999),
        secs(TOKEN_HARD_EXPIRY_MARGIN)
    ));
}

#[test]
fn static_credentials_never_retire_connections() {
    let credentials = RedisCredentials::Static {
        username: Some("acl-user".to_string()),
        password: Some(String::new()),
    };
    // Static mode must not opt into any generation bookkeeping, whatever the tag says.
    assert!(!should_retire_connection(&credentials, 0));
    assert!(!should_retire_connection(&credentials, 42));
}

#[test]
fn oauth_connection_on_current_generation_is_kept() {
    let credentials = RedisCredentials::Oauth(provider_at_generation(7));
    assert!(!should_retire_connection(&credentials, 7));
}

#[test]
fn oauth_connection_on_superseded_generation_is_retired() {
    let credentials = RedisCredentials::Oauth(provider_at_generation(8));
    assert!(should_retire_connection(&credentials, 7));
}

#[test]
fn client_secret_is_redacted_in_debug_output() {
    let config = config();
    let rendered = config.debug_text();
    assert!(!rendered.contains("super-secret"), "{rendered}");
    assert!(rendered.contains("<redacted>"), "{rendered}");
}

#[test]
fn long_error_bodies_are_truncated_for_logs() {
    let body = "x".repeat(MAX_LOGGED_ERROR_BODY_LEN * 2);
    let truncated = truncate_for_log(&body);
    assert_eq!(truncated.len(), MAX_LOGGED_ERROR_BODY_LEN + 3);
    assert_eq!(truncate_for_log("short"), "short");
}

#[test]
fn debug_output_quotes_texts_and_writes_spans() {
    let mut config = config();
    config.tenant_id = "a\"b".to_string();
    config.username = Some("user".to_string());
    config.refresh_margin = Some(secs(90));
    assert_eq!(
        config.debug_text(),
        "EntraOauthConfig { tenant_id: \"a\\\"b\", client_id: \"client\", client_secret: \
         \"<redacted>\", scope: \"https://example.com/app/.default\", username: Some(\"user\"), \
         refresh_margin: Some(90s), authority_host: \"https://login.microsoftonline.com\" }"
    );
}

#[test]
fn token_errors_have_their_texts() {
    assert_eq!(
        TokenError::Transport("refused".to_string()).to_string(),
        "failed to reach the Entra token endpoint: refused"
    );
    assert_eq!(
        TokenError::Endpoint {
            status: 401,
            body: "no".to_string()
        }
        .to_string(),
        "Entra token endpoint returned 401: no"
    );
}

#[test]
fn a_token_request_goes_to_the_tenant() {
    let mut config = config();
    config.authority_host = "https://login.example.com//".to_string();
    let provider = EntraTokenProvider::new(config, at(0));
    let request = provider.token_request();
    assert_eq!(
        request.url,
        "https://login.example.com/tenant/oauth2/v2.0/token"
    );
    assert_eq!(
        request.form,
        vec![
            ("grant_type".to_string(), "client_credentials".to_string()),
            ("client_id".to_string(), "client".to_string()),
            ("client_secret".to_string(), "super-secret".to_string()),
            (
                "scope".to_string(),
                "https://example.com/app/.default".to_string()
            ),
        ]
    );
}

#[test]
fn a_reply_that_is_no_success_is_an_error() {
    let reply = TokenReply {
        status: 200,
        location: None,
        body: String::new(),
    };
    assert!(check_token_reply(&reply).is_ok());
    let refused = TokenReply {
        status: 401,
        location: None,
        body: "denied".to_string(),
    };
    let error = check_token_reply(&refused).expect_err("expected an error");
    assert_eq!(
        error.to_string(),
        "Entra token endpoint returned 401: denied"
    );
}

#[test]
fn an_empty_token_is_malformed() {
    assert!(accept_token(Ok(TokenResponse {
        access_token: "token".to_string(),
        expires_in: 3600
    }))
    .is_ok());
    for parsed in [
        Err("bad json".to_string()),
        Ok(TokenResponse {
            access_token: "  ".to_string(),
            expires_in: 3600,
        }),
    ] {
        let error = accept_token(parsed).expect_err("expected an error");
        assert!(matches!(error, TokenError::Malformed(_)), "{error:?}");
    }
}

#[test]
fn a_taken_token_supersedes_and_a_failure_does_not() {
    let mut provider = EntraTokenProvider::new(config(), at(0));
    provider
        .refresh(
            Ok(TokenResponse {
                access_token: "first".to_string(),
                expires_in: 3600,
            }),
            at(100),
        )
        .expect("accepted");
    assert_eq!(provider.current().secret, "first");
    assert_eq!(provider.current().expires_at, at(3700));
    assert_eq!(provider.current().refresh_at, at(2800));
    assert_eq!(provider.current_generation(), 1);
    assert_eq!(provider.max_connection_lifetime(), secs(675));
    assert!(provider
        .refresh(Err(TokenError::Transport("down".to_string())), at(200))
        .is_err());
    assert!(provider
        .refresh(
            Ok(TokenResponse {
                access_token: "short".to_string(),
                expires_in: 5,
            }),
            at(200)
        )
        .is_err());
    assert_eq!(provider.current().secret, "first");
    assert_eq!(provider.current_generation(), 1);
    assert!(provider.claim_refresh_task());
    assert!(!provider.claim_refresh_task());
}

#[test]
fn a_margin_that_does_not_fit_is_warned_about() {
    assert!(configured_margin_fits(hour(), secs(120)));
    assert!(!configured_margin_fits(hour(), hour()));
    let mut config = config();
    config.refresh_margin = Some(secs(7200));
    let provider = EntraTokenProvider::new(config, at(0));
    assert_eq!(
        provider.margin_warning(hour()).expect("a warning"),
        "REDIS_OAUTH_REFRESH_MARGIN_IN_S=7200 does not fit the 3600s token lifetime the endpoint \
         reported, so the 900s default is being used instead. Honoring it would mint a \
         replacement token every 30s and retire the whole connection pool on each rotation."
    );
    assert!(provider.margin_warning(secs(86_400)).is_none());
}

#[test]
fn startup_retries_give_up_at_their_deadline() {
    let mut retry = TokenRetry::for_startup(at(0), secs(10));
    assert_eq!(retry.after_failure(at(1)), RetryStep::Sleep(secs(1)));
    assert_eq!(retry.after_failure(at(3)), RetryStep::Sleep(secs(2)));
    assert_eq!(retry.after_failure(at(11)), RetryStep::GiveUp);
    let mut refresh = TokenRetry::for_refresh();
    for expected in [1, 2, 4, 8, 16, 32, 60, 60] {
        assert_eq!(
            refresh.after_failure(at(1_000_000)),
            RetryStep::Sleep(secs(expected))
        );
    }
}

#[test]
fn connections_carry_the_generation_of_their_token() {
    let manager = StatsigRedisConnectionManager::new(RedisCredentials::Oauth(
        provider_at_generation(7),
    ));
    let auth = manager.connection_auth();
    assert_eq!(auth.username, None);
    assert_eq!(auth.tag.generation, 7);
    assert!(!manager.has_broken(&auth.tag));
    let fixed = StatsigRedisConnectionManager::new(RedisCredentials::Static {
        username: Some("u".to_string()),
        password: Some("p".to_string()),
    });
    let auth = fixed.connection_auth();
    assert_eq!(auth.username.as_deref(), Some("u"));
    assert_eq!(auth.password.as_deref(), Some("p"));
    assert!(!auth.tag.is_refused_at_checkout(at(u64::MAX)));
    let tag = TrackedConnection {
        generation: 1,
        token_expires_at: Some(at(100)),
    };
    assert!(!tag.is_refused_at_checkout(at(60)));
    assert!(tag.is_refused_at_checkout(at(75)));
}
