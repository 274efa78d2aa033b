//! What the environment says of Redis: how to reach it and how to authenticate.

use crate::clock;
use crate::clock::Duration;
use crate::datastore::caching::redis_auth;
use crate::datastore::caching::redis_auth::{EntraOauthConfig, MIN_REFRESH_MARGIN};
use crate::text;
use vstd::prelude::*;

verus! {

broadcast use crate::clock::group_time;

/// The `REDIS_*` variables. The numbers and flags of the token flow stay texts
/// until that flow is selected, so that a malformed one cannot stop a deployment
/// that does not use it.
pub struct RedisEnvConfig {
    pub redis_enterprise_user: Option<String>,
    pub redis_enterprise_password: Option<String>,
    pub redis_enterprise_host: String,
    pub redis_enterprise_port: String,
    pub redis_connection_pool_max_size: Option<u32>,
    pub redis_connection_pool_min_size: Option<u32>,
    pub redis_memorystore: Option<bool>,
    pub redis_tls: Option<bool>,
    pub redis_key_prefix: Option<String>,
    pub redis_auth_mode: Option<String>,
    pub redis_oauth_tenant_id: Option<String>,
    pub redis_oauth_client_id: Option<String>,
    pub redis_oauth_client_secret: Option<String>,
    pub redis_oauth_scope: Option<String>,
    pub redis_oauth_username: Option<String>,
    pub redis_oauth_refresh_margin_in_s: Option<String>,
    pub redis_oauth_authority_host: Option<String>,
    pub redis_oauth_allow_plaintext: Option<String>,
}

/// How connections authenticate.
#[derive(Debug, Clone, Copy, PartialEq, Eq, Structural)]
pub enum RedisAuthMode {
    Password,
    Oauth,
}

/// The mode that a text names; no text, or a blank one, is the password mode.
pub open spec fn auth_mode_named(raw: Option<Seq<char>>) -> Option<RedisAuthMode> {
    match raw {
        None => Some(RedisAuthMode::Password),
        Some(s) => {
            let mode = text::lowered(text::trimmed(s));
            if mode.len() == 0 || mode == "password"@ {
                Some(RedisAuthMode::Password)
            } else if mode == "oauth"@ {
                Some(RedisAuthMode::Oauth)
            } else {
                None
            }
        },
    }
}

pub open spec fn auth_mode_error(raw: Seq<char>) -> Seq<char> {
    "Unsupported REDIS_AUTH_MODE '"@ + text::lowered(text::trimmed(raw))
        + "'. Expected 'password' or 'oauth'."@
}

pub open spec fn str_option(o: Option<&str>) -> Option<Seq<char>> {
    match o {
        Some(s) => Some(s@),
        None => None,
    }
}

pub fn parse_auth_mode(raw: Option<&str>) -> (r: Result<RedisAuthMode, String>)
    ensures
        match r {
            Ok(mode) => auth_mode_named(str_option(raw)) == Some(mode),
            Err(e) => auth_mode_named(str_option(raw)) is None && e@ == auth_mode_error(
                str_option(raw)->0,
            ),
        },
{
    let s = match raw {
        Some(s) => s,
        None => {
            return Ok(RedisAuthMode::Password);
        },
    };
    let mode = text::to_lowered(text::trim(s));
    if mode.as_str().is_empty() || text::same_text(mode.as_str(), "password") {
        return Ok(RedisAuthMode::Password);
    }
    if text::same_text(mode.as_str(), "oauth") {
        return Ok(RedisAuthMode::Oauth);
    }
    let mut e = "Unsupported REDIS_AUTH_MODE '".to_owned();
    e.append(mode.as_str());
    e.append("'. Expected 'password' or 'oauth'.");
    Err(e)
}

/// Whether connections that a new token retires are opened again on demand: the
/// pool replenishes in the background only up to its least size.
pub fn min_idle_is_too_low_for_oauth(min_idle: u32, max_size: u32) -> (r: bool)
    requires
        min_idle * 2 <= u32::MAX,
    ensures
        r == (min_idle * 2 < max_size),
{
    min_idle * 2 < max_size
}

/// The warning about a least pool size that is too low.
pub open spec fn min_idle_warning_text(min_idle: u32, max_size: u32) -> Option<Seq<char>> {
    if min_idle * 2 < max_size {
        Some(
            "REDIS_AUTH_MODE=oauth with REDIS_CONNECTION_POOL_MIN_SIZE="@ + text::decimal(
                min_idle as nat,
            ) + " and REDIS_CONNECTION_POOL_MAX_SIZE="@ + text::decimal(max_size as nat)
                + ". Connections retired on token rotation are replenished in the background only up to the min size, so consider raising REDIS_CONNECTION_POOL_MIN_SIZE closer to your working set to keep reconnects off the request path."@,
        )
    } else {
        None
    }
}

pub fn min_idle_warning(min_idle: u32, max_size: u32) -> (r: Option<String>)
    requires
        min_idle * 2 <= u32::MAX,
    ensures
        text::text_option(r) == min_idle_warning_text(min_idle, max_size),
{
    if !min_idle_is_too_low_for_oauth(min_idle, max_size) {
        return None;
    }
    let mut out = "REDIS_AUTH_MODE=oauth with REDIS_CONNECTION_POOL_MIN_SIZE=".to_owned();
    text::push_decimal(&mut out, min_idle as u64);
    out.append(" and REDIS_CONNECTION_POOL_MAX_SIZE=");
    text::push_decimal(&mut out, max_size as u64);
    out.append(
        ". Connections retired on token rotation are replenished in the background only up to the min size, so consider raising REDIS_CONNECTION_POOL_MIN_SIZE closer to your working set to keep reconnects off the request path.",
    );
    Some(out)
}

/// Whether tokens would cross an unencrypted connection.
pub open spec fn is_plaintext(config: RedisEnvConfig) -> bool {
    config.redis_tls != Some(true)
}

pub fn oauth_transport_is_plaintext(config: &RedisEnvConfig) -> (r: bool)
    ensures
        r == is_plaintext(*config),
{
    match config.redis_tls {
        Some(tls) => !tls,
        None => true,
    }
}

/// The warning about an unencrypted connection.
pub open spec fn plaintext_warning_text(config: RedisEnvConfig) -> Option<Seq<char>> {
    if is_plaintext(config) {
        Some(
            "REDIS_AUTH_MODE=oauth with REDIS_OAUTH_ALLOW_PLAINTEXT=true and REDIS_TLS unset or false. Entra access tokens will be sent to Redis in cleartext. This is only safe if something else encrypts the hop, such as a TLS-terminating sidecar reached over loopback."@,
        )
    } else {
        None
    }
}

pub fn plaintext_warning(config: &RedisEnvConfig) -> (r: Option<String>)
    ensures
        text::text_option(r) == plaintext_warning_text(*config),
{
    if oauth_transport_is_plaintext(config) {
        Some(
            "REDIS_AUTH_MODE=oauth with REDIS_OAUTH_ALLOW_PLAINTEXT=true and REDIS_TLS unset or false. Entra access tokens will be sent to Redis in cleartext. This is only safe if something else encrypts the hop, such as a TLS-terminating sidecar reached over loopback.".to_owned(),
        )
    } else {
        None
    }
}

/// A value without the white space around it; blank where there is none.
pub open spec fn trimmed_value(value: Option<Seq<char>>) -> Seq<char> {
    match value {
        Some(s) => text::trimmed(s),
        None => text::trimmed(Seq::empty()),
    }
}

pub fn trimmed_or_default(value: &Option<String>) -> (r: String)
    ensures
        r@ == trimmed_value(text::text_option(*value)),
{
    match value {
        Some(s) => text::trim(s.as_str()).to_owned(),
        None => {
            proof {
                reveal_strlit("");
                assert(""@ =~= Seq::<char>::empty());
            }
            text::trim("").to_owned()
        },
    }
}

/// A value without the white space around it, where anything is left.
pub open spec fn non_blank(value: Option<Seq<char>>) -> Option<Seq<char>> {
    match value {
        Some(s) => if text::trimmed(s).len() > 0 {
            Some(text::trimmed(s))
        } else {
            None
        },
        None => None,
    }
}

pub fn trimmed_non_empty(value: &Option<String>) -> (r: Option<&str>)
    ensures
        str_option(r) == non_blank(text::text_option(*value)),
{
    match value {
        Some(s) => {
            let t = text::trim(s.as_str());
            if t.is_empty() {
                None
            } else {
                Some(t)
            }
        },
        None => None,
    }
}

/// What a variable with a number of seconds says; the error names the variable
/// and the value.
pub open spec fn seconds_value(name: Seq<char>, raw: Option<Seq<char>>) -> Result<
    Option<u64>,
    Seq<char>,
> {
    match non_blank(raw) {
        None => Ok(None),
        Some(value) => match text::parse_unsigned(value, u64::MAX as int) {
            Some(n) => Ok(Some(n as u64)),
            None => Err(name + " must be a whole number of seconds, got '"@ + value + "'"@),
        },
    }
}

/// The view of a result whose error is a text.
pub open spec fn result_view<T>(r: Result<T, String>) -> Result<T, Seq<char>> {
    match r {
        Ok(t) => Ok(t),
        Err(e) => Err(e@),
    }
}

pub fn oauth_seconds_from_env(name: &str, raw: &Option<String>) -> (r: Result<Option<u64>, String>)
    ensures
        result_view(r) == seconds_value(name@, text::text_option(*raw)),
{
    let value = match trimmed_non_empty(raw) {
        Some(value) => value,
        None => {
            return Ok(None);
        },
    };
    match text::parse_u64(value) {
        Some(n) => Ok(Some(n)),
        None => {
            let mut e = name.to_owned();
            e.append(" must be a whole number of seconds, got '");
            e.append(value);
            e.append("'");
            Err(e)
        },
    }
}

/// What a variable with a flag says.
pub open spec fn flag_value(name: Seq<char>, raw: Option<Seq<char>>) -> Result<
    Option<bool>,
    Seq<char>,
> {
    match non_blank(raw) {
        None => Ok(None),
        Some(value) => {
            let v = text::lowered(value);
            if v == "true"@ || v == "1"@ || v == "yes"@ {
                Ok(Some(true))
            } else if v == "false"@ || v == "0"@ || v == "no"@ {
                Ok(Some(false))
            } else {
                Err(name + " must be true or false, got '"@ + value + "'"@)
            }
        },
    }
}

pub fn oauth_flag_from_env(name: &str, raw: &Option<String>) -> (r: Result<Option<bool>, String>)
    ensures
        result_view(r) == flag_value(name@, text::text_option(*raw)),
{
    let value = match trimmed_non_empty(raw) {
        Some(value) => value,
        None => {
            return Ok(None);
        },
    };
    let lowered = text::to_lowered(value);
    let v = lowered.as_str();
    if text::same_text(v, "true") || text::same_text(v, "1") || text::same_text(v, "yes") {
        return Ok(Some(true));
    }
    if text::same_text(v, "false") || text::same_text(v, "0") || text::same_text(v, "no") {
        return Ok(Some(false));
    }
    let mut e = name.to_owned();
    e.append(" must be true or false, got '");
    e.append(value);
    e.append("'");
    Err(e)
}

/// Whether the secret reaches the host over an encrypted connection.
pub open spec fn is_secure_host(host: Seq<char>) -> bool {
    text::has_prefix(text::lowered(text::trimmed(host)), "https://"@)
}

pub fn is_secure_authority_host(host: &str) -> (r: bool)
    ensures
        r == is_secure_host(host@),
{
    text::starts_with(text::to_lowered(text::trim(host)).as_str(), "https://")
}

/// The host that issues tokens where none is configured.
pub open spec fn default_authority_host() -> Seq<char> {
    "https://login.microsoftonline.com"@
}

pub fn default_entra_authority_host() -> (r: &'static str)
    ensures
        r@ == default_authority_host(),
{
    "https://login.microsoftonline.com"
}

/// The configured host that issues tokens, or the default one.
pub open spec fn authority_host_of(config: RedisEnvConfig) -> Seq<char> {
    match non_blank(text::text_option(config.redis_oauth_authority_host)) {
        Some(host) => host,
        None => default_authority_host(),
    }
}

/// The required variables and their values, in the order they are reported.
pub open spec fn required_variables(config: RedisEnvConfig) -> Seq<
    (Seq<char>, Option<Seq<char>>),
> {
    seq![
        ("REDIS_OAUTH_TENANT_ID"@, text::text_option(config.redis_oauth_tenant_id)),
        ("REDIS_OAUTH_CLIENT_ID"@, text::text_option(config.redis_oauth_client_id)),
        ("REDIS_OAUTH_CLIENT_SECRET"@, text::text_option(config.redis_oauth_client_secret)),
        ("REDIS_OAUTH_SCOPE"@, text::text_option(config.redis_oauth_scope)),
    ]
}

/// The names of those variables that are not set, or blank.
pub open spec fn missing_of(vars: Seq<(Seq<char>, Option<Seq<char>>)>) -> Seq<Seq<char>>
    decreases vars.len(),
{
    if vars.len() == 0 {
        Seq::empty()
    } else {
        let rest = missing_of(vars.drop_last());
        if non_blank(vars.last().1) is None {
            rest.push(vars.last().0)
        } else {
            rest
        }
    }
}

/// Why there is no unencrypted connection without being asked for.
pub open spec fn tls_error() -> Seq<char> {
    "REDIS_AUTH_MODE=oauth requires REDIS_TLS=true. The Entra access token is sent to Redis as the AUTH password, so without TLS it crosses the network in cleartext on every handshake. If another layer already encrypts the connection, such as a TLS-terminating sidecar reached over loopback, set REDIS_OAUTH_ALLOW_PLAINTEXT=true to acknowledge that."@
}

pub open spec fn host_error(host: Seq<char>) -> Seq<char> {
    "REDIS_OAUTH_AUTHORITY_HOST must be an https:// URL, got '"@ + host
        + "'. The client secret and the returned access token are sent to this host."@
}

pub open spec fn margin_error(margin: u64) -> Seq<char> {
    "REDIS_OAUTH_REFRESH_MARGIN_IN_S must be at least "@ + text::decimal(MIN_REFRESH_MARGIN as nat)
        + ", got "@ + text::decimal(margin as nat)
        + ". A smaller margin mints the next token only once connections are already being refused for being too close to expiry."@
}

/// Whether an unencrypted connection was asked for.
pub open spec fn plaintext_flag(config: RedisEnvConfig) -> Result<Option<bool>, Seq<char>> {
    flag_value(
        "REDIS_OAUTH_ALLOW_PLAINTEXT"@,
        text::text_option(config.redis_oauth_allow_plaintext),
    )
}

/// The configured refresh margin in seconds.
pub open spec fn margin_seconds(config: RedisEnvConfig) -> Result<Option<u64>, Seq<char>> {
    seconds_value(
        "REDIS_OAUTH_REFRESH_MARGIN_IN_S"@,
        text::text_option(config.redis_oauth_refresh_margin_in_s),
    )
}

/// What is wrong with the variables of the token flow, the first fault first.
/// All required variables that are missing are reported together.
pub open spec fn entra_error(config: RedisEnvConfig) -> Option<Seq<char>> {
    let missing = missing_of(required_variables(config));
    if missing.len() > 0 {
        Some("REDIS_AUTH_MODE=oauth requires "@ + text::join_spec(missing, ", "@))
    } else if plaintext_flag(config) is Err {
        Some(plaintext_flag(config)->Err_0)
    } else if is_plaintext(config) && plaintext_flag(config) != Ok::<Option<bool>, Seq<char>>(
        Some(true),
    ) {
        Some(tls_error())
    } else if !is_secure_host(authority_host_of(config)) {
        Some(host_error(authority_host_of(config)))
    } else if margin_seconds(config) is Err {
        Some(margin_seconds(config)->Err_0)
    } else if (margin_seconds(config)->Ok_0) is Some && (margin_seconds(config)->Ok_0)->0
        < MIN_REFRESH_MARGIN {
        Some(margin_error((margin_seconds(config)->Ok_0)->0))
    } else {
        None
    }
}

/// Whether `e` is what the variables of the token flow say.
pub open spec fn is_entra_config(e: EntraOauthConfig, config: RedisEnvConfig) -> bool {
    &&& e.tenant_id@ == trimmed_value(text::text_option(config.redis_oauth_tenant_id))
    &&& e.client_id@ == trimmed_value(text::text_option(config.redis_oauth_client_id))
    &&& e.client_secret@ == trimmed_value(text::text_option(config.redis_oauth_client_secret))
    &&& e.scope@ == trimmed_value(text::text_option(config.redis_oauth_scope))
    &&& text::text_option(e.username) == non_blank(text::text_option(config.redis_oauth_username))
    &&& redis_auth::span_option(e.refresh_margin) == (match margin_seconds(config)->Ok_0 {
        Some(n) => Some(redis_auth::secs(n as int)),
        None => None,
    })
    &&& e.authority_host@ == authority_host_of(config)
}

fn push_if_missing(missing: &mut Vec<String>, name: &str, value: &Option<String>)
    ensures
        text::texts(final(missing)@) == (if non_blank(text::text_option(*value)) is None {
            text::texts(old(missing)@).push(name@)
        } else {
            text::texts(old(missing)@)
        }),
{
    let ghost before = missing@;
    if trimmed_non_empty(value).is_none() {
        missing.push(name.to_owned());
        assert(text::texts(missing@) =~= text::texts(before).push(name@));
    }
}

/// Collects the settings of the token flow.
pub fn entra_config_from_env(config: &RedisEnvConfig) -> (r: Result<EntraOauthConfig, String>)
    ensures
        match r {
            Ok(e) => entra_error(*config) is None && is_entra_config(e, *config),
            Err(e) => entra_error(*config) == Some(e@),
        },
{
    let mut missing: Vec<String> = Vec::new();
    assert(text::texts(missing@) =~= Seq::<Seq<char>>::empty());
    push_if_missing(&mut missing, "REDIS_OAUTH_TENANT_ID", &config.redis_oauth_tenant_id);
    push_if_missing(&mut missing, "REDIS_OAUTH_CLIENT_ID", &config.redis_oauth_client_id);
    push_if_missing(&mut missing, "REDIS_OAUTH_CLIENT_SECRET", &config.redis_oauth_client_secret);
    push_if_missing(&mut missing, "REDIS_OAUTH_SCOPE", &config.redis_oauth_scope);
    proof {
        let v = required_variables(*config);
        reveal_with_fuel(missing_of, 5);
        assert(v.drop_last().drop_last().drop_last().drop_last().len() == 0);
        assert(text::texts(missing@) == missing_of(v));
        assert(missing_of(v).len() == missing@.len());
    }
    if missing.len() > 0 {
        let mut e = "REDIS_AUTH_MODE=oauth requires ".to_owned();
        e.append(text::join(&missing, ", ").as_str());
        return Err(e);
    }
    let flag = match oauth_flag_from_env(
        "REDIS_OAUTH_ALLOW_PLAINTEXT",
        &config.redis_oauth_allow_plaintext,
    ) {
        Ok(flag) => flag,
        Err(e) => {
            return Err(e);
        },
    };
    let allow_plaintext = match flag {
        Some(b) => b,
        None => false,
    };
    if oauth_transport_is_plaintext(config) && !allow_plaintext {
        return Err(
            "REDIS_AUTH_MODE=oauth requires REDIS_TLS=true. The Entra access token is sent to Redis as the AUTH password, so without TLS it crosses the network in cleartext on every handshake. If another layer already encrypts the connection, such as a TLS-terminating sidecar reached over loopback, set REDIS_OAUTH_ALLOW_PLAINTEXT=true to acknowledge that.".to_owned(),
        );
    }
    let authority_host = match trimmed_non_empty(&config.redis_oauth_authority_host) {
        Some(host) => host,
        None => default_entra_authority_host(),
    };
    if !is_secure_authority_host(authority_host) {
        let mut e = "REDIS_OAUTH_AUTHORITY_HOST must be an https:// URL, got '".to_owned();
        e.append(authority_host);
        e.append("'. The client secret and the returned access token are sent to this host.");
        return Err(e);
    }
    let seconds = match oauth_seconds_from_env(
        "REDIS_OAUTH_REFRESH_MARGIN_IN_S",
        &config.redis_oauth_refresh_margin_in_s,
    ) {
        Ok(seconds) => seconds,
        Err(e) => {
            return Err(e);
        },
    };
    let refresh_margin = match seconds {
        Some(margin) => {
            if margin < MIN_REFRESH_MARGIN {
                let mut e = "REDIS_OAUTH_REFRESH_MARGIN_IN_S must be at least ".to_owned();
                text::push_decimal(&mut e, MIN_REFRESH_MARGIN);
                e.append(", got ");
                text::push_decimal(&mut e, margin);
                e.append(
                    ". A smaller margin mints the next token only once connections are already being refused for being too close to expiry.",
                );
                return Err(e);
            }
            Some(Duration::from_secs(margin))
        },
        None => None,
    };
    let username = match trimmed_non_empty(&config.redis_oauth_username) {
        Some(name) => Some(name.to_owned()),
        None => None,
    };
    Ok(
        EntraOauthConfig {
            tenant_id: trimmed_or_default(&config.redis_oauth_tenant_id),
            client_id: trimmed_or_default(&config.redis_oauth_client_id),
            client_secret: trimmed_or_default(&config.redis_oauth_client_secret),
            scope: trimmed_or_default(&config.redis_oauth_scope),
            username,
            refresh_margin,
            authority_host: authority_host.to_owned(),
        },
    )
}

/// Every accepted configuration names a tenant, a client, a secret and a scope,
/// talks to an encrypted host, and never sends tokens in the clear without being
/// asked to.
pub proof fn law_accepted_token_flow_is_complete_and_encrypted(
    e: EntraOauthConfig,
    config: RedisEnvConfig,
)
    requires
        entra_error(config) is None,
        is_entra_config(e, config),
    ensures
        e.tenant_id@.len() > 0,
        e.client_id@.len() > 0,
        e.client_secret@.len() > 0,
        e.scope@.len() > 0,
        is_secure_host(e.authority_host@),
        config.redis_tls == Some(true) || plaintext_flag(config) == Ok::<Option<bool>, Seq<char>>(
            Some(true),
        ),
        e.refresh_margin matches Some(d) ==> d@ >= redis_auth::secs(MIN_REFRESH_MARGIN as int),
{
    let v = required_variables(config);
    reveal_with_fuel(missing_of, 5);
    assert(v.drop_last().drop_last().drop_last().drop_last().len() == 0);
    assert(missing_of(v).len() == 0);
}

/// The name and the password of the fixed credentials. A name without a password
/// gets a blank one, since a connection without a password is not authenticated
/// at all.
pub open spec fn static_auth(user: Seq<char>, password: Option<Seq<char>>) -> (
    Option<Seq<char>>,
    Option<Seq<char>>,
) {
    (
        if user.len() == 0 {
            None
        } else {
            Some(user)
        },
        match password {
            Some(p) => Some(p),
            None => if user.len() == 0 {
                None
            } else {
                Some(Seq::empty())
            },
        },
    )
}

pub fn resolve_redis_auth(user: &str, configured_password: Option<&str>) -> (r: (
    Option<String>,
    Option<String>,
))
    ensures
        (text::text_option(r.0), text::text_option(r.1)) == static_auth(
            user@,
            str_option(configured_password),
        ),
{
    let username = if user.is_empty() {
        None
    } else {
        Some(user.to_owned())
    };
    let password = match configured_password {
        Some(p) => Some(p.to_owned()),
        None => {
            if user.is_empty() {
                None
            } else {
                Some(String::new())
            }
        },
    };
    (username, password)
}

/// A key behind its prefix, with one colon between them.
pub open spec fn prefixed(prefix: Seq<char>, key: Seq<char>) -> Seq<char> {
    let p = text::trimmed(prefix);
    if p.len() == 0 {
        key
    } else if text::has_suffix(p, ":"@) {
        p + key
    } else {
        p + ":"@ + key
    }
}

pub fn apply_key_prefix(prefix: &str, key: String) -> (r: String)
    ensures
        r@ == prefixed(prefix@, key@),
{
    let p = text::trim(prefix);
    if p.is_empty() {
        return key;
    }
    let mut out = p.to_owned();
    if !text::ends_with(p, ":") {
        out.append(":");
    }
    out.append(key.as_str());
    out
}

/// White space in front of a text goes, and none is left there.
proof fn lemma_trimmed_start(s: Seq<char>)
    ensures
        text::trim_start(s).len() > 0 ==> !text::is_space(text::trim_start(s)[0]),
    decreases s.len(),
{
    if s.len() > 0 && text::is_space(s[0]) {
        lemma_trimmed_start(s.drop_first());
    }
}

/// What is left of a text without the white space at its end starts as the text does.
proof fn lemma_trimmed_end(s: Seq<char>)
    ensures
        text::trim_end(s).len() > 0 ==> s.len() > 0 && text::trim_end(s)[0] == s[0],
    decreases s.len(),
{
    if s.len() > 0 && text::is_space(s.last()) {
        lemma_trimmed_end(s.drop_last());
    }
}

/// A prefix with and without a colon at its end gives the same keys.
pub proof fn law_one_colon_separates_the_prefix(prefix: Seq<char>, key: Seq<char>)
    requires
        text::trimmed(prefix).len() > 0,
        !text::has_suffix(text::trimmed(prefix), ":"@),
    ensures
        prefixed(prefix, key) == prefixed(text::trimmed(prefix) + ":"@, key),
{
    reveal_strlit(":");
    lemma_trimmed_start(prefix);
    lemma_trimmed_end(text::trim_start(prefix));
    let p = text::trimmed(prefix) + ":"@;
    assert(p[0] == text::trim_start(prefix)[0]);
    assert(p.last() == ':');
    assert(text::trimmed(p) == p);
    assert(p.skip(p.len() - 1) =~= ":"@);
}

/// What connections authenticate with from the start.
pub enum StartupCredentials {
    Static { username: Option<String>, password: Option<String> },
    Oauth(EntraOauthConfig),
}

/// How the cache is set up.
pub struct RedisStartupPlan {
    pub host: String,
    pub port: u16,
    pub tls: bool,
    pub max_size: u32,
    pub min_idle: u32,
    pub credentials: StartupCredentials,
    pub warnings: Vec<String>,
    pub key_prefix: String,
}

pub open spec fn pool_max_size(config: RedisEnvConfig) -> u32 {
    match config.redis_connection_pool_max_size {
        Some(n) => n,
        None => 10,
    }
}

pub open spec fn pool_min_idle(config: RedisEnvConfig) -> u32 {
    match config.redis_connection_pool_min_size {
        Some(n) => n,
        None => 1,
    }
}

/// The mode that the configuration selects.
pub open spec fn auth_mode_of(config: RedisEnvConfig) -> Option<RedisAuthMode> {
    auth_mode_named(text::text_option(config.redis_auth_mode))
}

/// The port that the configuration names.
pub open spec fn port_of(config: RedisEnvConfig) -> Option<int> {
    text::parse_unsigned(config.redis_enterprise_port@, u16::MAX as int)
}

/// Why the cache cannot be set up: the mode, then the port, then the token flow
/// where it is selected.
pub open spec fn startup_error(config: RedisEnvConfig) -> Option<Seq<char>> {
    if auth_mode_of(config) is None {
        Some(auth_mode_error(text::text_option(config.redis_auth_mode)->0))
    } else if port_of(config) is None {
        Some("Invalid REDIS_ENTERPRISE_PORT"@)
    } else if auth_mode_of(config) == Some(RedisAuthMode::Oauth) {
        entra_error(config)
    } else {
        None
    }
}

/// The fixed name of the configuration.
pub open spec fn user_of(config: RedisEnvConfig) -> Seq<char> {
    match config.redis_enterprise_user {
        Some(u) => u@,
        None => Seq::empty(),
    }
}

/// Two optional texts as a list of those that are there.
pub open spec fn both(a: Option<Seq<char>>, b: Option<Seq<char>>) -> Seq<Seq<char>> {
    let first = match a {
        Some(t) => seq![t],
        None => Seq::empty(),
    };
    match b {
        Some(t) => first.push(t),
        None => first,
    }
}

/// Whether `plan` is what the configuration says.
pub open spec fn is_startup_plan(plan: RedisStartupPlan, config: RedisEnvConfig) -> bool {
    &&& plan.host@ == config.redis_enterprise_host@
    &&& port_of(config) == Some(plan.port as int)
    &&& plan.tls == (config.redis_tls == Some(true))
    &&& plan.max_size == pool_max_size(config)
    &&& plan.min_idle == pool_min_idle(config)
    &&& plan.key_prefix@ == (match config.redis_key_prefix {
        Some(p) => p@,
        None => Seq::empty(),
    })
    &&& match plan.credentials {
        StartupCredentials::Static { username, password } => {
            &&& auth_mode_of(config) == Some(RedisAuthMode::Password)
            &&& (text::text_option(username), text::text_option(password)) == static_auth(
                user_of(config),
                text::text_option(config.redis_enterprise_password),
            )
            &&& text::texts(plan.warnings@) == Seq::<Seq<char>>::empty()
        },
        StartupCredentials::Oauth(e) => {
            &&& auth_mode_of(config) == Some(RedisAuthMode::Oauth)
            &&& is_entra_config(e, config)
            &&& text::texts(plan.warnings@) == both(
                plaintext_warning_text(config),
                min_idle_warning_text(pool_min_idle(config), pool_max_size(config)),
            )
        },
    }
}

/// Works out how the cache is set up. The variables of the token flow are not
/// looked at in password mode.
pub fn startup_plan(config: &RedisEnvConfig) -> (r: Result<RedisStartupPlan, String>)
    requires
        auth_mode_of(*config) == Some(RedisAuthMode::Oauth) && startup_error(*config) is None
            ==> pool_min_idle(*config) * 2 <= u32::MAX,
    ensures
        match r {
            Ok(plan) => startup_error(*config) is None && is_startup_plan(plan, *config),
            Err(e) => startup_error(*config) == Some(e@),
        },
{
    let raw_mode = match &config.redis_auth_mode {
        Some(s) => Some(s.as_str()),
        None => None,
    };
    let mode = match parse_auth_mode(raw_mode) {
        Ok(mode) => mode,
        Err(e) => {
            return Err(e);
        },
    };
    let port: u16 = match text::parse_up_to(
        config.redis_enterprise_port.as_str(),
        u16::MAX as u64,
    ) {
        Some(n) => n as u16,
        None => {
            return Err("Invalid REDIS_ENTERPRISE_PORT".to_owned());
        },
    };
    let tls = match config.redis_tls {
        Some(b) => b,
        None => false,
    };
    let max_size: u32 = match config.redis_connection_pool_max_size {
        Some(n) => n,
        None => 10,
    };
    let min_idle: u32 = match config.redis_connection_pool_min_size {
        Some(n) => n,
        None => 1,
    };
    let key_prefix = match &config.redis_key_prefix {
        Some(p) => p.clone(),
        None => String::new(),
    };
    let mut warnings: Vec<String> = Vec::new();
    assert(text::texts(warnings@) =~= Seq::<Seq<char>>::empty());
    let credentials = match mode {
        RedisAuthMode::Password => {
            let user = match &config.redis_enterprise_user {
                Some(u) => u.clone(),
                None => String::new(),
            };
            let password = match &config.redis_enterprise_password {
                Some(p) => Some(p.as_str()),
                None => None,
            };
            let (username, password) = resolve_redis_auth(user.as_str(), password);
            StartupCredentials::Static { username, password }
        },
        RedisAuthMode::Oauth => {
            let e = match entra_config_from_env(config) {
                Ok(e) => e,
                Err(e) => {
                    return Err(e);
                },
            };
            if let Some(w) = plaintext_warning(config) {
                warnings.push(w);
                assert(text::texts(warnings@) =~= seq![w@]);
            }
            let ghost before = warnings@;
            if let Some(w) = min_idle_warning(min_idle, max_size) {
                warnings.push(w);
                assert(text::texts(warnings@) =~= text::texts(before).push(w@));
            }
            StartupCredentials::Oauth(e)
        },
    };
    Ok(
        RedisStartupPlan {
            host: config.redis_enterprise_host.clone(),
            port,
            tls,
            max_size,
            min_idle,
            credentials,
            warnings,
            key_prefix,
        },
    )
}

/// In password mode the variables of the token flow do not matter, whatever they
/// hold.
pub proof fn law_password_mode_ignores_the_token_flow(config: RedisEnvConfig)
    requires
        auth_mode_of(config) == Some(RedisAuthMode::Password),
        port_of(config) is Some,
    ensures
        startup_error(config) is None,
{
}

/// A secret in a text: whether there is one.
pub open spec fn redacted_option(is_set: bool) -> Seq<char> {
    if is_set {
        "Some(\"<redacted>\")"@
    } else {
        "None"@
    }
}

/// A number in a text.
pub open spec fn number_option(n: Option<u32>) -> Seq<char> {
    match n {
        Some(v) => "Some("@ + text::decimal(v as nat) + ")"@,
        None => "None"@,
    }
}

/// A flag in a text.
pub open spec fn flag_option(b: Option<bool>) -> Seq<char> {
    match b {
        Some(true) => "Some(true)"@,
        Some(false) => "Some(false)"@,
        None => "None"@,
    }
}

/// The text of a configuration, in which the two secrets are blotted out.
pub open spec fn config_text(c: RedisEnvConfig) -> Seq<char> {
    "RedisEnvConfig { redis_enterprise_user: "@ + redis_auth::debug_option_text(text::text_option(c.redis_enterprise_user)) + ", redis_enterprise_password: "@ + redacted_option(c.redis_enterprise_password is Some) + ", redis_enterprise_host: "@ + redis_auth::debug_quoted(c.redis_enterprise_host@) + ", redis_enterprise_port: "@ + redis_auth::debug_quoted(c.redis_enterprise_port@) + ", redis_connection_pool_max_size: "@ + number_option(c.redis_connection_pool_max_size) + ", redis_connection_pool_min_size: "@ + number_option(c.redis_connection_pool_min_size) + ", redis_memorystore: "@ + flag_option(c.redis_memorystore) + ", redis_tls: "@ + flag_option(c.redis_tls) + ", redis_key_prefix: "@ + redis_auth::debug_option_text(text::text_option(c.redis_key_prefix)) + ", redis_auth_mode: "@ + redis_auth::debug_option_text(text::text_option(c.redis_auth_mode)) + ", redis_oauth_tenant_id: "@ + redis_auth::debug_option_text(text::text_option(c.redis_oauth_tenant_id)) + ", redis_oauth_client_id: "@ + redis_auth::debug_option_text(text::text_option(c.redis_oauth_client_id)) + ", redis_oauth_client_secret: "@ + redacted_option(c.redis_oauth_client_secret is Some) + ", redis_oauth_scope: "@ + redis_auth::debug_option_text(text::text_option(c.redis_oauth_scope)) + ", redis_oauth_username: "@ + redis_auth::debug_option_text(text::text_option(c.redis_oauth_username)) + ", redis_oauth_refresh_margin_in_s: "@ + redis_auth::debug_option_text(text::text_option(c.redis_oauth_refresh_margin_in_s)) + ", redis_oauth_authority_host: "@ + redis_auth::debug_option_text(text::text_option(c.redis_oauth_authority_host)) + ", redis_oauth_allow_plaintext: "@ + redis_auth::debug_option_text(text::text_option(c.redis_oauth_allow_plaintext)) + " }"@
}

fn push_option_text(out: &mut String, t: &Option<String>)
    ensures
        final(out)@ == old(out)@ + redis_auth::debug_option_text(text::text_option(*t)),
{
    let ghost before = out@;
    match t {
        Some(s) => {
            out.append("Some(");
            out.append(redis_auth::quote(s.as_str()).as_str());
            out.append(")");
        },
        None => out.append("None"),
    }
    assert(out@ =~= before + redis_auth::debug_option_text(text::text_option(*t)));
}

fn push_redacted(out: &mut String, is_set: bool)
    ensures
        final(out)@ == old(out)@ + redacted_option(is_set),
{
    if is_set {
        out.append("Some(\"<redacted>\")");
    } else {
        out.append("None");
    }
}

fn push_number(out: &mut String, n: Option<u32>)
    ensures
        final(out)@ == old(out)@ + number_option(n),
{
    let ghost before = out@;
    match n {
        Some(v) => {
            out.append("Some(");
            text::push_decimal(out, v as u64);
            out.append(")");
        },
        None => out.append("None"),
    }
    assert(out@ =~= before + number_option(n));
}

fn push_flag(out: &mut String, b: Option<bool>)
    ensures
        final(out)@ == old(out)@ + flag_option(b),
{
    match b {
        Some(true) => out.append("Some(true)"),
        Some(false) => out.append("Some(false)"),
        None => out.append("None"),
    }
}

impl RedisEnvConfig {
    /// The text of the configuration, without its secrets.
    pub fn debug_text(&self) -> (r: String)
        ensures
            r@ == config_text(*self),
    {
        let mut out = String::new();
        out.append("RedisEnvConfig { redis_enterprise_user: ");
        push_option_text(&mut out, &self.redis_enterprise_user);
        out.append(", redis_enterprise_password: ");
        push_redacted(&mut out, self.redis_enterprise_password.is_some());
        out.append(", redis_enterprise_host: ");
        out.append(redis_auth::quote(self.redis_enterprise_host.as_str()).as_str());
        out.append(", redis_enterprise_port: ");
        out.append(redis_auth::quote(self.redis_enterprise_port.as_str()).as_str());
        out.append(", redis_connection_pool_max_size: ");
        push_number(&mut out, self.redis_connection_pool_max_size);
        out.append(", redis_connection_pool_min_size: ");
        push_number(&mut out, self.redis_connection_pool_min_size);
        out.append(", redis_memorystore: ");
        push_flag(&mut out, self.redis_memorystore);
        out.append(", redis_tls: ");
        push_flag(&mut out, self.redis_tls);
        out.append(", redis_key_prefix: ");
        push_option_text(&mut out, &self.redis_key_prefix);
        out.append(", redis_auth_mode: ");
        push_option_text(&mut out, &self.redis_auth_mode);
        out.append(", redis_oauth_tenant_id: ");
        push_option_text(&mut out, &self.redis_oauth_tenant_id);
        out.append(", redis_oauth_client_id: ");
        push_option_text(&mut out, &self.redis_oauth_client_id);
        out.append(", redis_oauth_client_secret: ");
        push_redacted(&mut out, self.redis_oauth_client_secret.is_some());
        out.append(", redis_oauth_scope: ");
        push_option_text(&mut out, &self.redis_oauth_scope);
        out.append(", redis_oauth_username: ");
        push_option_text(&mut out, &self.redis_oauth_username);
        out.append(", redis_oauth_refresh_margin_in_s: ");
        push_option_text(&mut out, &self.redis_oauth_refresh_margin_in_s);
        out.append(", redis_oauth_authority_host: ");
        push_option_text(&mut out, &self.redis_oauth_authority_host);
        out.append(", redis_oauth_allow_plaintext: ");
        push_option_text(&mut out, &self.redis_oauth_allow_plaintext);
        out.append(" }");
        assert(out@ =~= config_text(*self));
        out
    }
}

/// The text of a configuration tells of its secrets only whether they are set.
pub proof fn law_redis_secrets_are_never_written(a: RedisEnvConfig, b: RedisEnvConfig)
    requires
        a == (RedisEnvConfig {
            redis_enterprise_password: a.redis_enterprise_password,
            redis_oauth_client_secret: a.redis_oauth_client_secret,
            ..b
        }),
        a.redis_enterprise_password is Some == b.redis_enterprise_password is Some,
        a.redis_oauth_client_secret is Some == b.redis_oauth_client_secret is Some,
    ensures
        config_text(a) == config_text(b),
{
}

/// A value that is blank is none, and any other counts without the space around it.
pub proof fn law_blank_values_are_none(value: Seq<char>)
    ensures
        non_blank(None) is None,
        non_blank(Some(value)) is None <==> text::trimmed(value).len() == 0,
        non_blank(Some(value)) is Some ==> non_blank(Some(value)) == Some(trimmed_value(Some(value))),
        trimmed_value(Some(value)) == text::trimmed(value),
        trimmed_value(None).len() == 0,
{
}

/// A flag is read from the usual words for it, however they are cased, and nothing is read
/// from a blank one. Any other word is an error that names the variable.
pub proof fn law_flags_are_read_from_words(name: Seq<char>, raw: Seq<char>)
    ensures
        ({
            let v = text::lowered(text::trimmed(raw));
            let on = v == "true"@ || v == "1"@ || v == "yes"@;
            let off = v == "false"@ || v == "0"@ || v == "no"@;
            &&& flag_value(name, None) == Ok::<Option<bool>, Seq<char>>(None)
            &&& flag_value(name, Some(raw)) == Ok::<Option<bool>, Seq<char>>(None)
                <==> text::trimmed(raw).len() == 0
            &&& on ==> flag_value(name, Some(raw)) == Ok::<Option<bool>, Seq<char>>(Some(true))
            &&& off ==> flag_value(name, Some(raw)) == Ok::<Option<bool>, Seq<char>>(Some(false))
            &&& v.len() > 0 && !on && !off ==> flag_value(name, Some(raw)) is Err
            &&& flag_value(name, Some(raw)) is Err ==> text::has_prefix(
                flag_value(name, Some(raw))->Err_0,
                name,
            )
        }),
{
    reveal_strlit("true");
    reveal_strlit("1");
    reveal_strlit("yes");
    reveal_strlit("false");
    reveal_strlit("0");
    reveal_strlit("no");
    assert("true"@.len() == 4 && "1"@.len() == 1 && "yes"@.len() == 3 && "false"@.len() == 5
        && "0"@.len() == 1 && "no"@.len() == 2);
    assert("1"@[0] == '1' && "0"@[0] == '0');
    if flag_value(name, Some(raw)) is Err {
        let e = flag_value(name, Some(raw))->Err_0;
        assert(e.take(name.len() as int) =~= name);
    }
}

/// Seconds are the number that a variable writes, and none where it is blank. Anything
/// else is an error that names the variable.
pub proof fn law_seconds_are_read_from_numbers(name: Seq<char>, raw: Seq<char>, n: u64)
    ensures
        seconds_value(name, None) == Ok::<Option<u64>, Seq<char>>(None),
        text::trimmed(raw).len() == 0 ==> seconds_value(name, Some(raw)) == Ok::<
            Option<u64>,
            Seq<char>,
        >(None),
        text::trimmed(raw) == text::decimal(n as nat) ==> seconds_value(name, Some(raw)) == Ok::<
            Option<u64>,
            Seq<char>,
        >(Some(n)),
        text::trimmed(raw).len() > 0 && text::parse_unsigned(
            text::trimmed(raw),
            u64::MAX as int,
        ) is None ==> seconds_value(name, Some(raw)) is Err,
        seconds_value(name, Some(raw)) is Err ==> text::has_prefix(
            seconds_value(name, Some(raw))->Err_0,
            name,
        ),
{
    text::law_numbers_are_read_back(n as nat, n as nat, u64::MAX as int);
    text::lemma_decimal_round_trip(n as nat);
    if seconds_value(name, Some(raw)) is Err {
        let e = seconds_value(name, Some(raw))->Err_0;
        assert(e.take(name.len() as int) =~= name);
    }
}

/// Passwords are used unless tokens are asked for, and nothing else can be asked for.
pub proof fn law_passwords_are_the_default(raw: Seq<char>)
    ensures
        auth_mode_named(None) == Some(RedisAuthMode::Password),
        text::trimmed(raw).len() == 0 ==> auth_mode_named(Some(raw)) == Some(
            RedisAuthMode::Password,
        ),
        text::lowered(text::trimmed(raw)) == "password"@ ==> auth_mode_named(Some(raw)) == Some(
            RedisAuthMode::Password,
        ),
        auth_mode_named(Some(raw)) == Some(RedisAuthMode::Oauth) <==> text::lowered(
            text::trimmed(raw),
        ) == "oauth"@,
        auth_mode_named(Some(raw)) is None <==> text::trimmed(raw).len() > 0 && text::lowered(
            text::trimmed(raw),
        ) != "password"@ && text::lowered(text::trimmed(raw)) != "oauth"@,
{
    reveal_strlit("password");
    reveal_strlit("oauth");
    assert("password"@.len() == 8 && "oauth"@.len() == 5);
}

/// The variables that are missing are those that are blank, in their order.
pub proof fn law_blank_variables_are_missing(vars: Seq<(Seq<char>, Option<Seq<char>>)>)
    ensures
        missing_of(vars) == vars.filter(
            |v: (Seq<char>, Option<Seq<char>>)| non_blank(v.1) is None,
        ).map_values(|v: (Seq<char>, Option<Seq<char>>)| v.0),
    decreases vars.len(),
{
    reveal(Seq::filter);
    let blank = |v: (Seq<char>, Option<Seq<char>>)| non_blank(v.1) is None;
    let name = |v: (Seq<char>, Option<Seq<char>>)| v.0;
    if vars.len() > 0 {
        law_blank_variables_are_missing(vars.drop_last());
        let rest = vars.drop_last().filter(blank);
        assert(rest.push(vars.last()).map_values(name) =~= rest.map_values(name).push(
            vars.last().0,
        ));
    } else {
        assert(vars.filter(blank).map_values(name) =~= missing_of(vars));
    }
}

/// A token flow is accepted where nothing that it needs is missing, tokens go over an
/// encrypted connection or the operator says that this is not needed, the host that mints
/// them is secure, and there is time enough to mint the next.
pub proof fn law_complete_token_flows_are_accepted(config: RedisEnvConfig)
    requires
        non_blank(text::text_option(config.redis_oauth_tenant_id)) is Some,
        non_blank(text::text_option(config.redis_oauth_client_id)) is Some,
        non_blank(text::text_option(config.redis_oauth_client_secret)) is Some,
        non_blank(text::text_option(config.redis_oauth_scope)) is Some,
    ensures
        entra_error(config) is None <==> {
            &&& plaintext_flag(config) is Ok
            &&& config.redis_tls == Some(true) || plaintext_flag(config)->Ok_0 == Some(true)
            &&& text::has_prefix(
                text::lowered(text::trimmed(authority_host_of(config))),
                "https://"@,
            )
            &&& margin_seconds(config) is Ok
            &&& margin_seconds(config)->Ok_0 matches Some(n) ==> n >= MIN_REFRESH_MARGIN
        },
{
    let vars = required_variables(config);
    lemma_nothing_missing(vars);
}

proof fn lemma_nothing_missing(vars: Seq<(Seq<char>, Option<Seq<char>>)>)
    requires
        forall|i: int| 0 <= i < vars.len() ==> non_blank((#[trigger] vars[i]).1) is Some,
    ensures
        missing_of(vars).len() == 0,
    decreases vars.len(),
{
    if vars.len() > 0 {
        let rest = vars.drop_last();
        assert forall|i: int| 0 <= i < rest.len() implies non_blank((#[trigger] rest[i]).1)
            is Some by {
            assert(rest[i] == vars[i]);
        }
        lemma_nothing_missing(rest);
        assert(non_blank(vars[vars.len() - 1].1) is Some);
    }
}

/// A token flow with anything missing is refused, and told what.
pub proof fn law_incomplete_token_flows_are_refused(config: RedisEnvConfig)
    ensures
        non_blank(text::text_option(config.redis_oauth_tenant_id)) is None || non_blank(
            text::text_option(config.redis_oauth_client_id),
        ) is None || non_blank(text::text_option(config.redis_oauth_client_secret)) is None
            || non_blank(text::text_option(config.redis_oauth_scope)) is None ==> {
            &&& entra_error(config) is Some
            &&& missing_of(required_variables(config)).len() > 0
            &&& entra_error(config)->0 == "REDIS_AUTH_MODE=oauth requires "@ + text::join_spec(
                missing_of(required_variables(config)),
                ", "@,
            )
        },
{
    let vars = required_variables(config);
    reveal_with_fuel(missing_of, 5);
    assert(vars.drop_last().drop_last().drop_last() =~= seq![vars[0]]);
    assert(vars.drop_last().drop_last() =~= seq![vars[0], vars[1]]);
    assert(vars.drop_last() =~= seq![vars[0], vars[1], vars[2]]);
    assert(seq![vars[0]].drop_last() =~= Seq::<(Seq<char>, Option<Seq<char>>)>::empty());
}

/// The host that mints tokens is the one that is configured, or Entra's own.
pub proof fn law_the_authority_host_can_be_set(config: RedisEnvConfig)
    ensures
        non_blank(text::text_option(config.redis_oauth_authority_host)) matches Some(host)
            ==> authority_host_of(config) == host,
        non_blank(text::text_option(config.redis_oauth_authority_host)) is None
            ==> authority_host_of(config) == "https://login.microsoftonline.com"@,
{
}

/// A user without a password logs in with an empty one, a password without a user logs in
/// alone, and without either nothing does.
pub proof fn law_users_log_in_with_a_password(user: Seq<char>, password: Option<Seq<char>>)
    ensures
        static_auth(user, password).0 is Some <==> user.len() > 0,
        user.len() > 0 ==> static_auth(user, password).0 == Some(user),
        password is Some ==> static_auth(user, password).1 == password,
        password is None && user.len() > 0 ==> static_auth(user, password).1 == Some(
            Seq::<char>::empty(),
        ),
        password is None && user.len() == 0 ==> static_auth(user, password).1 is None,
{
}

/// A pool has ten connections and keeps one where nothing else is set. Fewer kept than
/// half of them is warned of.
pub proof fn law_pools_have_a_size(config: RedisEnvConfig, n: u32, min_idle: u32, max_size: u32)
    ensures
        config.redis_connection_pool_max_size is None ==> pool_max_size(config) == 10,
        config.redis_connection_pool_max_size == Some(n) ==> pool_max_size(config) == n,
        config.redis_connection_pool_min_size is None ==> pool_min_idle(config) == 1,
        config.redis_connection_pool_min_size == Some(n) ==> pool_min_idle(config) == n,
        min_idle_warning_text(min_idle, max_size) is Some <==> min_idle + min_idle < max_size,
        plaintext_warning_text(config) is Some <==> config.redis_tls != Some(true),
{
}

/// The proxy starts exactly where the way to log in is known, the port can be read, and a
/// token flow that is asked for is accepted.
pub proof fn law_the_proxy_starts_with_a_sound_config(config: RedisEnvConfig)
    ensures
        startup_error(config) is None <==> {
            &&& auth_mode_named(text::text_option(config.redis_auth_mode)) is Some
            &&& text::parse_unsigned(config.redis_enterprise_port@, 65535) is Some
            &&& auth_mode_named(text::text_option(config.redis_auth_mode)) == Some(
                RedisAuthMode::Oauth,
            ) ==> entra_error(config) is None
        },
{
}

/// A key stands behind its prefix as it is, and alone where the prefix is blank.
pub proof fn law_keys_end_with_what_is_prefixed(prefix: Seq<char>, key: Seq<char>)
    ensures
        text::has_suffix(prefixed(prefix, key), key),
        text::trimmed(prefix).len() == 0 ==> prefixed(prefix, key) == key,
        text::has_prefix(prefixed(prefix, key), text::trimmed(prefix)),
        text::trimmed(prefix).len() > 0 && text::has_suffix(text::trimmed(prefix), ":"@)
            ==> prefixed(prefix, key) == text::trimmed(prefix) + key,
{
    let p = text::trimmed(prefix);
    let r = prefixed(prefix, key);
    assert(r.skip(r.len() - key.len()) =~= key);
    assert(r.take(p.len() as int) =~= p);
}

/// The proxy connects to what is configured: the host, the port, with or without encryption,
/// with the pool and the prefix that are set, and with the credentials of its mode.
pub proof fn law_the_proxy_connects_as_configured(plan: RedisStartupPlan, config: RedisEnvConfig)
    requires
        is_startup_plan(plan, config),
    ensures
        plan.host@ == config.redis_enterprise_host@,
        text::parse_unsigned(config.redis_enterprise_port@, 65535) == Some(plan.port as int),
        plan.tls <==> config.redis_tls == Some(true),
        config.redis_connection_pool_max_size matches Some(n) ==> plan.max_size == n,
        config.redis_connection_pool_min_size matches Some(n) ==> plan.min_idle == n,
        config.redis_key_prefix matches Some(p) ==> plan.key_prefix@ == p@,
        config.redis_key_prefix is None ==> plan.key_prefix@.len() == 0,
        plan.credentials is Oauth <==> auth_mode_named(text::text_option(config.redis_auth_mode))
            == Some(RedisAuthMode::Oauth),
        plan.credentials matches StartupCredentials::Static { username, password } ==> {
            &&& config.redis_enterprise_password matches Some(p) ==> text::text_option(password)
                == Some(p@)
            &&& config.redis_enterprise_user matches Some(u) ==> (u@.len() > 0
                ==> text::text_option(username) == Some(u@))
        },
        plan.credentials matches StartupCredentials::Oauth(e) ==> {
            &&& e.tenant_id@ == trimmed_value(text::text_option(config.redis_oauth_tenant_id))
            &&& e.client_id@ == trimmed_value(text::text_option(config.redis_oauth_client_id))
            &&& e.client_secret@ == trimmed_value(
                text::text_option(config.redis_oauth_client_secret),
            )
            &&& e.scope@ == trimmed_value(text::text_option(config.redis_oauth_scope))
            &&& e.authority_host@ == authority_host_of(config)
        },
{
}

} // verus!
