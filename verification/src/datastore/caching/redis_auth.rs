//! Credentials for Redis connections.
//!
//! A connection authenticates either with a fixed name and password, or with a
//! short-lived access token of a client-credentials flow. Tokens expire, and a
//! connection whose token has expired is shut out, so a token is replaced ahead
//! of its expiry and each replacement bumps a generation counter by which older
//! connections are told apart.

use crate::clock;
use crate::clock::{Duration, Instant};
use crate::text;
use std::sync::Arc;
use vstd::prelude::*;

verus! {

broadcast use crate::clock::group_time;

/// The default margin is one part in so many of the lifetime of a token.
pub const DEFAULT_REFRESH_MARGIN_DIVISOR: u32 = 4;

/// The shortest wait between refreshes, in seconds, so that an odd margin cannot
/// turn into a hot loop against the token endpoint.
pub const MIN_REFRESH_DELAY: u64 = 30;

/// The first wait after a failed request, in seconds.
pub const MIN_RETRY_BACKOFF: u64 = 1;

/// The longest wait after failed requests, in seconds.
pub const MAX_RETRY_BACKOFF: u64 = 60;

/// The shortest lifetime of a token that is accepted, in seconds. It is the
/// shortest one whose margin can still be [`MIN_REFRESH_MARGIN`].
pub const MIN_USABLE_TOKEN_LIFETIME: u64 = 120;

/// The longest time that is spent on the first token, in seconds.
pub const MAX_STARTUP_TIMEOUT: u64 = 86_400;

/// The longest lifetime of a token that is honoured, in seconds.
pub const MAX_TOKEN_LIFETIME: u64 = 86_400;

/// The smallest refresh margin, in seconds.
pub const MIN_REFRESH_MARGIN: u64 = 60;

/// A connection is refused at checkout once its token has so few seconds left.
pub const TOKEN_HARD_EXPIRY_MARGIN: u64 = 30;

pub const CONNECTION_LIFETIME_MARGIN_NUMERATOR: u32 = 3;

pub const CONNECTION_LIFETIME_MARGIN_DENOMINATOR: u32 = 4;

/// The least age cap of pooled connections, in seconds.
pub const MIN_CONNECTION_LIFETIME: u64 = 300;

/// How many characters of a failed response are logged.
pub const MAX_LOGGED_ERROR_BODY_LEN: usize = 512;

/// The nanoseconds of so many seconds.
pub open spec fn secs(n: int) -> int {
    n * clock::SECOND
}

/// Whether a configured margin leaves enough time before the next refresh.
pub open spec fn fits(lifetime: int, margin: int) -> bool {
    margin <= lifetime - clock::min(secs(MIN_REFRESH_DELAY as int), lifetime / 2)
}

/// How far ahead of expiry the next token is fetched: the configured margin
/// where it fits and a quarter of the lifetime otherwise, no less than the
/// smallest margin, and never so much that the next fetch is at once.
pub open spec fn margin_of(lifetime: int, configured: Option<int>) -> int {
    let wanted = match configured {
        Some(m) => if fits(lifetime, m) {
            m
        } else {
            lifetime / 4
        },
        None => lifetime / 4,
    };
    clock::min(
        clock::max(wanted, secs(MIN_REFRESH_MARGIN as int)),
        lifetime - clock::min(secs(MIN_REFRESH_DELAY as int), lifetime / 2),
    )
}

/// The view of an optional span.
pub open spec fn span_option(d: Option<Duration>) -> Option<int> {
    match d {
        Some(d) => Some(d@),
        None => None,
    }
}

pub fn configured_margin_fits(lifetime: Duration, configured_margin: Duration) -> (r: bool)
    ensures
        r == fits(lifetime@, configured_margin@),
{
    configured_margin.at_most(
        &lifetime.saturating_sub(
            Duration::from_secs(MIN_REFRESH_DELAY).shorter(lifetime.part(2)),
        ),
    )
}

pub fn refresh_margin(lifetime: Duration, configured_margin: Option<Duration>) -> (r: Duration)
    ensures
        r@ == margin_of(lifetime@, span_option(configured_margin)),
{
    let default = lifetime.part(DEFAULT_REFRESH_MARGIN_DIVISOR);
    let wanted = match configured_margin {
        Some(m) => if configured_margin_fits(lifetime, m) {
            m
        } else {
            default
        },
        None => default,
    };
    let margin = wanted.longer(Duration::from_secs(MIN_REFRESH_MARGIN));
    let shortest_delay = Duration::from_secs(MIN_REFRESH_DELAY).shorter(lifetime.part(2));
    margin.shorter(lifetime.saturating_sub(shortest_delay))
}

/// How long to wait before the next token is fetched.
pub open spec fn delay_of(lifetime: int, configured: Option<int>) -> int {
    lifetime - margin_of(lifetime, configured)
}

pub fn refresh_delay(lifetime: Duration, configured_margin: Option<Duration>) -> (r: Duration)
    ensures
        r@ == delay_of(lifetime@, span_option(configured_margin)),
{
    lifetime.saturating_sub(refresh_margin(lifetime, configured_margin))
}

/// The age cap of pooled connections: three quarters of the margin, no less than
/// the least cap, but at most half the lifetime, which counts as a second at
/// least.
pub open spec fn connection_cap(lifetime: int, configured: Option<int>) -> int {
    clock::min(
        clock::max(margin_of(lifetime, configured) * 3 / 4, secs(MIN_CONNECTION_LIFETIME as int)),
        clock::max(lifetime / 2, secs(1)),
    )
}

pub fn max_connection_lifetime(lifetime: Duration, configured_margin: Option<Duration>) -> (r:
    Duration)
    requires
        margin_of(lifetime@, span_option(configured_margin)) * 3 <= clock::LONGEST,
    ensures
        r@ == connection_cap(lifetime@, span_option(configured_margin)),
{
    let target = refresh_margin(lifetime, configured_margin).times(
        CONNECTION_LIFETIME_MARGIN_NUMERATOR,
    ).part(CONNECTION_LIFETIME_MARGIN_DENOMINATOR);
    let ceiling = lifetime.part(2).longer(Duration::from_secs(1));
    target.longer(Duration::from_secs(MIN_CONNECTION_LIFETIME)).shorter(ceiling)
}

/// Whether a token has expired or expires within the margin.
pub open spec fn expiring(now: int, expires_at: int, margin: int) -> bool {
    expires_at - now <= margin
}

pub fn is_token_expiring(now: Instant, expires_at: Instant, margin: Duration) -> (r: bool)
    ensures
        r == expiring(now@, expires_at@, margin@),
{
    match expires_at.checked_duration_since(&now) {
        Some(remaining) => remaining.at_most(&margin),
        None => true,
    }
}

/// The start of a failed response, marked where it was cut.
pub open spec fn log_excerpt(body: Seq<char>) -> Seq<char> {
    if body.len() > MAX_LOGGED_ERROR_BODY_LEN {
        body.take(MAX_LOGGED_ERROR_BODY_LEN as int) + "..."@
    } else {
        body
    }
}

pub fn truncate_for_log(body: &str) -> (r: String)
    ensures
        r@ == log_excerpt(body@),
{
    if body.unicode_len() > MAX_LOGGED_ERROR_BODY_LEN {
        assert(body@.subrange(0, 512) == body@.take(512));
        let mut out = body.substring_char(0, MAX_LOGGED_ERROR_BODY_LEN).to_owned();
        out.append("...");
        out
    } else {
        body.to_owned()
    }
}

/// Why there is no new token.
#[derive(Debug)]
pub enum TokenError {
    Transport(String),
    /// The endpoint answered with a status that is no success.
    Endpoint { status: u16, body: String },
    Malformed(String),
}

/// The model of a token error.
pub enum TokenErrorView {
    Transport(Seq<char>),
    Endpoint(u16, Seq<char>),
    Malformed(Seq<char>),
}

impl View for TokenError {
    type V = TokenErrorView;

    open spec fn view(&self) -> TokenErrorView {
        match self {
            TokenError::Transport(e) => TokenErrorView::Transport(e@),
            TokenError::Endpoint { status, body } => TokenErrorView::Endpoint(*status, body@),
            TokenError::Malformed(e) => TokenErrorView::Malformed(e@),
        }
    }
}

/// The text of a token error.
pub open spec fn token_error_text(e: TokenErrorView) -> Seq<char> {
    match e {
        TokenErrorView::Transport(e) => "failed to reach the Entra token endpoint: "@ + e,
        TokenErrorView::Endpoint(status, body) => "Entra token endpoint returned "@ + text::decimal(
            status as nat,
        ) + ": "@ + body,
        TokenErrorView::Malformed(e) => "malformed Entra token response: "@ + e,
    }
}

impl TokenError {
    pub fn to_string(&self) -> (r: String)
        ensures
            r@ == token_error_text(self@),
    {
        match self {
            TokenError::Transport(e) => {
                let mut out = "failed to reach the Entra token endpoint: ".to_owned();
                out.append(e.as_str());
                out
            },
            TokenError::Endpoint { status, body } => {
                let mut out = "Entra token endpoint returned ".to_owned();
                text::push_decimal(&mut out, *status as u64);
                out.append(": ");
                out.append(body.as_str());
                out
            },
            TokenError::Malformed(e) => {
                let mut out = "malformed Entra token response: ".to_owned();
                out.append(e.as_str());
                out
            },
        }
    }
}

/// Why a lifetime is not accepted.
pub open spec fn short_lifetime_text(expires_in: u64) -> Seq<char> {
    "token lifetime of "@ + text::decimal(expires_in as nat) + "s is below the "@ + text::decimal(
        MIN_USABLE_TOKEN_LIFETIME as nat,
    ) + "s minimum"@
}

/// The lifetime that is assumed of a token: what the endpoint reports, up to the
/// longest one that is honoured. What is too short is refused.
pub fn usable_token_lifetime(expires_in: u64) -> (r: Result<Duration, TokenError>)
    ensures
        match r {
            Ok(d) => expires_in >= MIN_USABLE_TOKEN_LIFETIME && d@ == secs(
                clock::min(expires_in as int, MAX_TOKEN_LIFETIME as int),
            ),
            Err(e) => expires_in < MIN_USABLE_TOKEN_LIFETIME && e@ == TokenErrorView::Malformed(
                short_lifetime_text(expires_in),
            ),
        },
{
    let lifetime = Duration::from_secs(expires_in);
    if lifetime.less(&Duration::from_secs(MIN_USABLE_TOKEN_LIFETIME)) {
        let mut message = "token lifetime of ".to_owned();
        text::push_decimal(&mut message, expires_in);
        message.append("s is below the ");
        text::push_decimal(&mut message, MIN_USABLE_TOKEN_LIFETIME);
        message.append("s minimum");
        return Err(TokenError::Malformed(message));
    }
    Ok(lifetime.shorter(Duration::from_secs(MAX_TOKEN_LIFETIME)))
}

/// Whether some endpoint can report the lifetime and have its token accepted.
pub open spec fn is_accepted_lifetime(lifetime: int) -> bool {
    exists|n: int|
        MIN_USABLE_TOKEN_LIFETIME <= n <= MAX_TOKEN_LIFETIME && #[trigger] secs(n) == lifetime
}

/// For every accepted lifetime and every configured margin, the next token is
/// fetched while the present one can still be checked out, and not at once.
pub proof fn law_refresh_precedes_the_checkout_guard(lifetime: int, configured: Option<int>)
    requires
        is_accepted_lifetime(lifetime),
    ensures
        margin_of(lifetime, configured) >= secs(MIN_REFRESH_MARGIN as int),
        margin_of(lifetime, configured) > secs(TOKEN_HARD_EXPIRY_MARGIN as int),
        delay_of(lifetime, configured) >= secs(MIN_REFRESH_DELAY as int),
        delay_of(lifetime, configured) < lifetime,
{
}

/// A margin that does not fit the lifetime counts for nothing.
pub proof fn law_an_oversized_margin_is_ignored(lifetime: int, margin: int)
    requires
        lifetime >= 0,
        !fits(lifetime, margin),
    ensures
        margin_of(lifetime, Some(margin)) == margin_of(lifetime, None),
        delay_of(lifetime, Some(margin)) == delay_of(lifetime, None),
        connection_cap(lifetime, Some(margin)) == connection_cap(lifetime, None),
{
}

/// A margin that fits is honoured to the nanosecond, where it is not below the
/// smallest one.
pub proof fn law_a_fitting_margin_is_honoured(lifetime: int, margin: int)
    requires
        lifetime >= 0,
        fits(lifetime, margin),
        margin >= secs(MIN_REFRESH_MARGIN as int),
    ensures
        margin_of(lifetime, Some(margin)) == margin,
        delay_of(lifetime, Some(margin)) == lifetime - margin,
{
}

/// The refresh never falls behind the expiry, and the age cap is a second at
/// least and never above half the lifetime otherwise.
pub proof fn law_refresh_and_cap_stay_within_the_lifetime(lifetime: int, configured: Option<int>)
    requires
        lifetime >= 0,
        configured matches Some(m) ==> m >= 0,
    ensures
        0 <= margin_of(lifetime, configured) <= lifetime,
        0 <= delay_of(lifetime, configured) <= lifetime,
        lifetime > 1 ==> delay_of(lifetime, configured) < lifetime,
        secs(1) <= connection_cap(lifetime, configured) <= clock::max(lifetime / 2, secs(1)),
{
}

/// What the client-credentials flow needs. The secret is kept out of every text
/// made of it.
#[derive(Clone)]
pub struct EntraOauthConfig {
    pub tenant_id: String,
    pub client_id: String,
    pub client_secret: String,
    pub scope: String,
    /// Set where connections authenticate under a name; else the token goes alone.
    pub username: Option<String>,
    /// Overrides the default refresh margin.
    pub refresh_margin: Option<Duration>,
    pub authority_host: String,
}

/// A text between quotation marks, with escapes.
pub uninterp spec fn debug_quoted(s: Seq<char>) -> Seq<char>;

/// `Debug` of `str` quotes and escapes a text. Which characters it escapes is
/// not said here.
#[verifier::external_body]
pub(crate) fn quote(s: &str) -> (r: String)
    ensures
        r@ == debug_quoted(s@),
{
    format!("{s:?}")
}

/// A span of time as text.
pub uninterp spec fn debug_duration(secs: u64, nanos: u32) -> Seq<char>;

/// `Debug` of `std::time::Duration` writes a span with a unit. How it picks the
/// unit is not said here.
#[verifier::external_body]
fn duration_text(secs: u64, nanos: u32) -> (r: String)
    requires
        nanos < clock::SECOND,
    ensures
        r@ == debug_duration(secs, nanos),
{
    format!("{:?}", std::time::Duration::new(secs, nanos))
}

pub open spec fn debug_option_text(o: Option<Seq<char>>) -> Seq<char> {
    match o {
        Some(s) => "Some("@ + debug_quoted(s) + ")"@,
        None => "None"@,
    }
}

pub open spec fn debug_span_text(o: Option<int>) -> Seq<char> {
    match o {
        Some(d) => "Some("@ + debug_duration(
            (d / clock::SECOND as int) as u64,
            (d % clock::SECOND as int) as u32,
        ) + ")"@,
        None => "None"@,
    }
}

/// The text of a configuration, in which the secret is blotted out.
pub open spec fn config_text(c: EntraOauthConfig) -> Seq<char> {
    "EntraOauthConfig { tenant_id: "@ + debug_quoted(c.tenant_id@) + ", client_id: "@
        + debug_quoted(c.client_id@) + ", client_secret: \"<redacted>\", scope: "@ + debug_quoted(
        c.scope@,
    ) + ", username: "@ + debug_option_text(text::text_option(c.username)) + ", refresh_margin: "@
        + debug_span_text(span_option(c.refresh_margin)) + ", authority_host: "@ + debug_quoted(
        c.authority_host@,
    ) + " }"@
}

impl EntraOauthConfig {
    pub fn debug_text(&self) -> (r: String)
        ensures
            r@ == config_text(*self),
    {
        let mut out = "EntraOauthConfig { tenant_id: ".to_owned();
        out.append(quote(self.tenant_id.as_str()).as_str());
        out.append(", client_id: ");
        out.append(quote(self.client_id.as_str()).as_str());
        out.append(", client_secret: \"<redacted>\", scope: ");
        out.append(quote(self.scope.as_str()).as_str());
        out.append(", username: ");
        let username = match &self.username {
            Some(name) => {
                let mut t = "Some(".to_owned();
                t.append(quote(name.as_str()).as_str());
                t.append(")");
                t
            },
            None => "None".to_owned(),
        };
        out.append(username.as_str());
        out.append(", refresh_margin: ");
        let margin = match &self.refresh_margin {
            Some(d) => {
                let mut t = "Some(".to_owned();
                t.append(duration_text(d.as_secs(), d.subsec_nanos()).as_str());
                t.append(")");
                t
            },
            None => "None".to_owned(),
        };
        out.append(margin.as_str());
        out.append(", authority_host: ");
        out.append(quote(self.authority_host.as_str()).as_str());
        out.append(" }");
        out
    }
}

/// The text of a configuration does not depend on its secret.
pub proof fn law_the_secret_is_never_written(a: EntraOauthConfig, b: EntraOauthConfig)
    requires
        a == (EntraOauthConfig { client_secret: a.client_secret, ..b }),
    ensures
        config_text(a) == config_text(b),
{
}

/// The request for a token.
pub struct TokenRequest {
    pub url: String,
    pub form: Vec<(String, String)>,
}

/// Where tokens are requested.
pub open spec fn token_url(c: EntraOauthConfig) -> Seq<char> {
    text::trim_end_char(c.authority_host@, '/') + "/"@ + c.tenant_id@ + "/oauth2/v2.0/token"@
}

/// What a token request carries.
pub open spec fn token_form(c: EntraOauthConfig) -> Seq<(Seq<char>, Seq<char>)> {
    seq![
        ("grant_type"@, "client_credentials"@),
        ("client_id"@, c.client_id@),
        ("client_secret"@, c.client_secret@),
        ("scope"@, c.scope@),
    ]
}

pub open spec fn form_view(v: Seq<(String, String)>) -> Seq<(Seq<char>, Seq<char>)> {
    Seq::new(v.len(), |i: int| (v[i].0@, v[i].1@))
}

/// What the endpoint sent back, before its body is read.
pub struct TokenReply {
    pub status: u16,
    /// The `location` header, where it is text.
    pub location: Option<String>,
    pub body: String,
}

pub open spec fn is_redirection(status: u16) -> bool {
    300 <= status < 400
}

pub open spec fn is_success(status: u16) -> bool {
    200 <= status < 300
}

/// Where a refused redirect pointed.
pub open spec fn redirect_target(location: Option<Seq<char>>) -> Seq<char> {
    match location {
        Some(l) => log_excerpt(l),
        None => "an unspecified location"@,
    }
}

pub open spec fn redirect_text(location: Option<Seq<char>>) -> Seq<char> {
    "refused to follow a redirect to "@ + redirect_target(location)
        + "; this request carries client_secret, so it is only ever sent to the configured authority host"@
}

/// Whether the reply carries a token to read. A redirect is never followed,
/// since the request carries the secret.
pub fn check_token_reply(reply: &TokenReply) -> (r: Result<(), TokenError>)
    ensures
        match r {
            Ok(_) => is_success(reply.status),
            Err(e) => !is_success(reply.status) && e@ == TokenErrorView::Endpoint(
                reply.status,
                if is_redirection(reply.status) {
                    redirect_text(text::text_option(reply.location))
                } else {
                    log_excerpt(reply.body@)
                },
            ),
        },
{
    let status = reply.status;
    if 300 <= status && status < 400 {
        let target = match &reply.location {
            Some(l) => truncate_for_log(l.as_str()),
            None => "an unspecified location".to_owned(),
        };
        let mut body = "refused to follow a redirect to ".to_owned();
        body.append(target.as_str());
        body.append(
            "; this request carries client_secret, so it is only ever sent to the configured authority host",
        );
        return Err(TokenError::Endpoint { status, body });
    }
    if !(200 <= status && status < 300) {
        return Err(TokenError::Endpoint { status, body: truncate_for_log(reply.body.as_str()) });
    }
    Ok(())
}

/// A token as the endpoint issued it.
#[derive(Debug)]
pub struct TokenResponse {
    pub access_token: String,
    pub expires_in: u64,
}

/// Takes a token only where it is not blank: a blank one authenticates nothing,
/// and publishing it would end the retries that exist for this.
pub fn accept_token(parsed: Result<TokenResponse, String>) -> (r: Result<
    TokenResponse,
    TokenError,
>)
    ensures
        match r {
            Ok(t) => parsed == Ok::<TokenResponse, String>(t) && text::trimmed(
                t.access_token@,
            ).len() > 0,
            Err(e) => match parsed {
                Ok(t) => text::trimmed(t.access_token@).len() == 0 && e@
                    == TokenErrorView::Malformed("token endpoint returned an empty access_token"@),
                Err(m) => e@ == TokenErrorView::Malformed(m@),
            },
        },
{
    match parsed {
        Err(m) => Err(TokenError::Malformed(m)),
        Ok(t) => {
            if text::trim(t.access_token.as_str()).is_empty() {
                return Err(
                    TokenError::Malformed("token endpoint returned an empty access_token".to_owned()),
                );
            }
            Ok(t)
        },
    }
}

/// The token in use.
#[derive(Clone)]
pub struct TokenSnapshot {
    pub secret: String,
    pub expires_at: Instant,
    /// When the next token is to be fetched.
    pub refresh_at: Instant,
    /// Counts the tokens, so that connections of an older one are told apart.
    pub generation: u64,
    /// The age cap of connections opened with this token.
    pub max_connection_lifetime: Duration,
}

/// Hands out the token in use and replaces it.
#[derive(Clone)]
pub struct EntraTokenProvider {
    pub config: EntraOauthConfig,
    pub token: TokenSnapshot,
    pub refresh_task_started: bool,
}

impl EntraTokenProvider {
    /// A provider that has no token yet.
    pub fn new(config: EntraOauthConfig, now: Instant) -> (r: Self)
        ensures
            r.config == config,
            r.token.secret@ == Seq::<char>::empty(),
            r.token.expires_at == now,
            r.token.refresh_at == now,
            r.token.generation == 0,
            r.token.max_connection_lifetime@ == 0,
            !r.refresh_task_started,
    {
        EntraTokenProvider {
            config,
            token: TokenSnapshot {
                secret: String::new(),
                expires_at: now,
                refresh_at: now,
                generation: 0,
                max_connection_lifetime: Duration::zero(),
            },
            refresh_task_started: false,
        }
    }

    pub fn current(&self) -> (r: &TokenSnapshot)
        ensures
            *r == self.token,
    {
        &self.token
    }

    pub fn current_generation(&self) -> (r: u64)
        ensures
            r == self.token.generation,
    {
        self.token.generation
    }

    pub fn max_connection_lifetime(&self) -> (r: Duration)
        ensures
            r == self.token.max_connection_lifetime,
    {
        self.token.max_connection_lifetime
    }

    pub fn username(&self) -> (r: Option<String>)
        ensures
            text::text_option(r) == text::text_option(self.config.username),
    {
        self.config.username.clone()
    }

    /// Claims the refresh task: only the first caller may start it.
    pub fn claim_refresh_task(&mut self) -> (r: bool)
        ensures
            r == !old(self).refresh_task_started,
            final(self).refresh_task_started,
            final(self).config == old(self).config,
            final(self).token == old(self).token,
    {
        let first = !self.refresh_task_started;
        self.refresh_task_started = true;
        first
    }

    /// The request for the next token.
    pub fn token_request(&self) -> (r: TokenRequest)
        ensures
            r.url@ == token_url(self.config),
            form_view(r.form@) == token_form(self.config),
    {
        let mut url = text::trim_end_matches(self.config.authority_host.as_str(), '/').to_owned();
        url.append("/");
        url.append(self.config.tenant_id.as_str());
        url.append("/oauth2/v2.0/token");
        let mut form: Vec<(String, String)> = Vec::new();
        form.push(("grant_type".to_owned(), "client_credentials".to_owned()));
        form.push(("client_id".to_owned(), self.config.client_id.clone()));
        form.push(("client_secret".to_owned(), self.config.client_secret.clone()));
        form.push(("scope".to_owned(), self.config.scope.clone()));
        assert(form_view(form@) =~= token_form(self.config));
        TokenRequest { url, form }
    }

    /// Whether `self` is what `before` becomes when the token is taken at `now`.
    pub open spec fn holds_token(&self, before: &Self, t: TokenResponse, now: int) -> bool {
        let lifetime = secs(clock::min(t.expires_in as int, MAX_TOKEN_LIFETIME as int));
        let configured = span_option(before.config.refresh_margin);
        &&& self.token.secret@ == t.access_token@
        &&& self.token.expires_at@ == now + lifetime
        &&& self.token.refresh_at@ == now + delay_of(lifetime, configured)
        &&& self.token.generation == before.token.generation + 1
        &&& self.token.max_connection_lifetime@ == connection_cap(lifetime, configured)
        &&& self.config == before.config
        &&& self.refresh_task_started == before.refresh_task_started
    }

    /// Takes the outcome of a token request. Only a token that can be used
    /// supersedes the present one; after a failure everything stays.
    pub fn refresh(
        &mut self,
        response: Result<TokenResponse, TokenError>,
        now: Instant,
    ) -> (r: Result<(), TokenError>)
        requires
            now@ + secs(MAX_TOKEN_LIFETIME as int) <= clock::LONGEST,
            old(self).token.generation < u64::MAX,
        ensures
            match response {
                Ok(t) => if t.expires_in >= MIN_USABLE_TOKEN_LIFETIME {
                    r is Ok && final(self).holds_token(old(self), t, now@)
                } else {
                    &&& r matches Err(e)
                    &&& e@ == TokenErrorView::Malformed(short_lifetime_text(t.expires_in))
                    &&& *final(self) == *old(self)
                },
                Err(e) => r == Err::<(), TokenError>(e) && *final(self) == *old(self),
            },
    {
        let t = match response {
            Ok(t) => t,
            Err(e) => {
                return Err(e);
            },
        };
        let lifetime = match usable_token_lifetime(t.expires_in) {
            Ok(d) => d,
            Err(e) => {
                return Err(e);
            },
        };
        let configured = self.config.refresh_margin;
        let delay = refresh_delay(lifetime, configured);
        let generation: u64 = self.token.generation + 1;
        self.token =
        TokenSnapshot {
            secret: t.access_token,
            expires_at: now.plus(lifetime),
            refresh_at: now.plus(delay),
            generation,
            max_connection_lifetime: max_connection_lifetime(lifetime, configured),
        };
        Ok(())
    }

    /// What is logged where the configured margin does not fit the lifetime that
    /// the endpoint reported.
    pub fn margin_warning(&self, lifetime: Duration) -> (r: Option<String>)
        ensures
            text::text_option(r) == margin_warning_text(
                lifetime@,
                span_option(self.config.refresh_margin),
            ),
    {
        let configured = match self.config.refresh_margin {
            Some(d) => d,
            None => {
                return None;
            },
        };
        if configured_margin_fits(lifetime, configured) {
            return None;
        }
        let mut out = "REDIS_OAUTH_REFRESH_MARGIN_IN_S=".to_owned();
        text::push_decimal(&mut out, configured.as_secs());
        out.append(" does not fit the ");
        text::push_decimal(&mut out, lifetime.as_secs());
        out.append("s token lifetime the endpoint reported, so the ");
        text::push_decimal(&mut out, refresh_margin(lifetime, None).as_secs());
        out.append(
            "s default is being used instead. Honoring it would mint a replacement token every ",
        );
        text::push_decimal(&mut out, MIN_REFRESH_DELAY);
        out.append("s and retire the whole connection pool on each rotation.");
        Some(out)
    }
}

/// The warning about a margin that does not fit.
pub open spec fn margin_warning_text(lifetime: int, configured: Option<int>) -> Option<Seq<char>> {
    match configured {
        Some(m) => if fits(lifetime, m) {
            None
        } else {
            Some(
                "REDIS_OAUTH_REFRESH_MARGIN_IN_S="@ + text::decimal(
                    (m / clock::SECOND as int) as nat,
                ) + " does not fit the "@ + text::decimal((lifetime / clock::SECOND as int) as nat)
                    + "s token lifetime the endpoint reported, so the "@ + text::decimal(
                    (margin_of(lifetime, None) / clock::SECOND as int) as nat,
                )
                    + "s default is being used instead. Honoring it would mint a replacement token every "@
                    + text::decimal(MIN_REFRESH_DELAY as nat)
                    + "s and retire the whole connection pool on each rotation."@,
            )
        },
        None => None,
    }
}

/// A failed refresh keeps the token in use, and a token that is taken can be
/// checked out until its successor is due.
pub proof fn law_a_taken_token_outlives_its_refresh(
    before: EntraTokenProvider,
    after: EntraTokenProvider,
    t: TokenResponse,
    now: int,
)
    requires
        after.holds_token(&before, t, now),
        t.expires_in >= MIN_USABLE_TOKEN_LIFETIME,
    ensures
        after.token.generation > before.token.generation,
        after.token.refresh_at@ > now,
        after.token.refresh_at@ < after.token.expires_at@,
        !expiring(
            after.token.refresh_at@,
            after.token.expires_at@,
            secs(TOKEN_HARD_EXPIRY_MARGIN as int),
        ),
{
    let n = clock::min(t.expires_in as int, MAX_TOKEN_LIFETIME as int);
    assert(is_accepted_lifetime(secs(n)));
    law_refresh_precedes_the_checkout_guard(secs(n), span_option(before.config.refresh_margin));
}

/// What to do after a failed token request.
#[derive(Clone, Copy, Debug, PartialEq, Eq, Structural)]
pub enum RetryStep {
    GiveUp,
    Sleep(Duration),
}

/// The waits between token requests: each twice the one before, up to a limit.
pub struct TokenRetry {
    pub backoff: Duration,
    /// The end of the time for the first token; none once there has been one.
    pub deadline: Option<Instant>,
}

impl TokenRetry {
    /// The wait is at least the first one and at most the longest one.
    pub open spec fn wf(&self) -> bool {
        secs(MIN_RETRY_BACKOFF as int) <= self.backoff@ <= secs(MAX_RETRY_BACKOFF as int)
    }

    /// The retries for the first token, which end with the startup budget. A
    /// budget beyond a day counts as a day.
    pub fn for_startup(now: Instant, startup_timeout: Duration) -> (r: Self)
        requires
            now@ + secs(MAX_STARTUP_TIMEOUT as int) <= clock::LONGEST,
        ensures
            r.wf(),
            r.backoff@ == secs(MIN_RETRY_BACKOFF as int),
            r.deadline matches Some(d) && d@ == now@ + clock::min(
                startup_timeout@,
                secs(MAX_STARTUP_TIMEOUT as int),
            ),
    {
        let budget = startup_timeout.shorter(Duration::from_secs(MAX_STARTUP_TIMEOUT));
        TokenRetry {
            backoff: Duration::from_secs(MIN_RETRY_BACKOFF),
            deadline: Some(now.plus(budget)),
        }
    }

    /// The retries for a later token, which never end.
    pub fn for_refresh() -> (r: Self)
        ensures
            r.wf(),
            r.backoff@ == secs(MIN_RETRY_BACKOFF as int),
            r.deadline is None,
    {
        TokenRetry { backoff: Duration::from_secs(MIN_RETRY_BACKOFF), deadline: None }
    }

    /// What to do after a failure at `now`.
    pub fn after_failure(&mut self, now: Instant) -> (r: RetryStep)
        requires
            old(self).wf(),
        ensures
            final(self).wf(),
            final(self).deadline == old(self).deadline,
            r is GiveUp <==> (old(self).deadline matches Some(d) && d@ <= now@),
            r is Sleep ==> final(self).backoff@ == backoff_after(old(self).backoff@),
            match old(self).deadline {
                Some(d) => if d@ <= now@ {
                    r == RetryStep::GiveUp && final(self).backoff == old(self).backoff
                } else {
                    &&& r matches RetryStep::Sleep(s)
                    &&& s@ == clock::min(old(self).backoff@, d@ - now@)
                    &&& final(self).backoff@ == clock::min(
                        2 * old(self).backoff@,
                        secs(MAX_RETRY_BACKOFF as int),
                    )
                },
                None => {
                    &&& r == RetryStep::Sleep(old(self).backoff)
                    &&& final(self).backoff@ == clock::min(
                        2 * old(self).backoff@,
                        secs(MAX_RETRY_BACKOFF as int),
                    )
                },
            },
    {
        let wait = match self.deadline {
            Some(d) => {
                let remaining = d.saturating_duration_since(&now);
                if remaining.is_zero() {
                    return RetryStep::GiveUp;
                }
                self.backoff.shorter(remaining)
            },
            None => self.backoff,
        };
        self.backoff = self.backoff.times(2).shorter(Duration::from_secs(MAX_RETRY_BACKOFF));
        RetryStep::Sleep(wait)
    }
}

/// Where connections get their credentials.
pub enum RedisCredentials {
    Static { username: Option<String>, password: Option<String> },
    Oauth(Arc<EntraTokenProvider>),
}

/// Whether a connection was opened with a token that has been superseded. Fixed
/// credentials are never superseded.
pub open spec fn is_superseded(credentials: RedisCredentials, generation: u64) -> bool {
    match credentials {
        RedisCredentials::Oauth(provider) => generation != provider.token.generation,
        RedisCredentials::Static { .. } => false,
    }
}

pub fn should_retire_connection(
    credentials: &RedisCredentials,
    connection_generation: u64,
) -> (r: bool)
    ensures
        r == is_superseded(*credentials, connection_generation),
{
    match credentials {
        RedisCredentials::Oauth(provider) => connection_generation
            != provider.current_generation(),
        RedisCredentials::Static { .. } => false,
    }
}

/// What a connection authenticates with, and the token it is tagged with.
pub struct ConnectionAuth {
    pub username: Option<String>,
    pub password: Option<String>,
    pub tag: TrackedConnection,
}

/// The token that a connection was opened with; with fixed credentials neither
/// field means anything.
#[derive(Clone, Copy, Debug)]
pub struct TrackedConnection {
    pub generation: u64,
    pub token_expires_at: Option<Instant>,
}

impl TrackedConnection {
    /// Whether the connection may not be handed out any more.
    pub open spec fn dead(&self, now: int) -> bool {
        self.token_expires_at matches Some(t) && expiring(
            now,
            t@,
            secs(TOKEN_HARD_EXPIRY_MARGIN as int),
        )
    }

    pub fn is_refused_at_checkout(&self, now: Instant) -> (r: bool)
        ensures
            r == self.dead(now@),
    {
        match self.token_expires_at {
            Some(expires_at) => is_token_expiring(
                now,
                expires_at,
                Duration::from_secs(TOKEN_HARD_EXPIRY_MARGIN),
            ),
            None => false,
        }
    }
}

/// Gives each new connection the credentials of the moment.
pub struct StatsigRedisConnectionManager {
    pub credentials: RedisCredentials,
}

impl StatsigRedisConnectionManager {
    pub fn new(credentials: RedisCredentials) -> (r: Self)
        ensures
            r.credentials == credentials,
    {
        StatsigRedisConnectionManager { credentials }
    }

    /// What a new connection authenticates with.
    pub fn connection_auth(&self) -> (r: ConnectionAuth)
        ensures
            match self.credentials {
                RedisCredentials::Static { username, password } => {
                    &&& text::text_option(r.username) == text::text_option(username)
                    &&& text::text_option(r.password) == text::text_option(password)
                    &&& r.tag.generation == 0
                    &&& r.tag.token_expires_at is None
                },
                RedisCredentials::Oauth(provider) => {
                    &&& text::text_option(r.username) == text::text_option(provider.config.username)
                    &&& text::text_option(r.password) == Some(provider.token.secret@)
                    &&& r.tag.generation == provider.token.generation
                    &&& r.tag.token_expires_at == Some(provider.token.expires_at)
                },
            },
    {
        match &self.credentials {
            RedisCredentials::Static { username, password } => ConnectionAuth {
                username: username.clone(),
                password: password.clone(),
                tag: TrackedConnection { generation: 0, token_expires_at: None },
            },
            RedisCredentials::Oauth(provider) => ConnectionAuth {
                username: provider.username(),
                password: Some(provider.token.secret.clone()),
                tag: TrackedConnection {
                    generation: provider.token.generation,
                    token_expires_at: Some(provider.token.expires_at),
                },
            },
        }
    }

    /// Whether a connection is dropped when it is handed back.
    pub fn has_broken(&self, conn: &TrackedConnection) -> (r: bool)
        ensures
            r == is_superseded(self.credentials, conn.generation),
    {
        should_retire_connection(&self.credentials, conn.generation)
    }
}

/// With fixed credentials a connection is never retired and never refused.
pub proof fn law_static_connections_are_kept(
    username: Option<String>,
    password: Option<String>,
    conn: TrackedConnection,
    now: int,
)
    requires
        conn.token_expires_at is None,
    ensures
        !is_superseded(RedisCredentials::Static { username, password }, conn.generation),
        !conn.dead(now),
{
}

/// A connection just opened is neither retired nor, while its token has more
/// than the checkout margin left, refused.
pub proof fn law_a_fresh_connection_is_kept(
    manager: StatsigRedisConnectionManager,
    conn: TrackedConnection,
    now: int,
)
    requires
        match manager.credentials {
            RedisCredentials::Static { .. } => conn.token_expires_at is None,
            RedisCredentials::Oauth(provider) => {
                &&& conn.generation == provider.token.generation
                &&& conn.token_expires_at == Some(provider.token.expires_at)
                &&& provider.token.expires_at@ - now > secs(TOKEN_HARD_EXPIRY_MARGIN as int)
            },
        },
    ensures
        !is_superseded(manager.credentials, conn.generation),
        !conn.dead(now),
{
}

/// Where no margin is set, a token is refreshed with a quarter of its lifetime left, unless
/// that is less than the least margin or leaves less than the least delay.
pub proof fn law_tokens_are_refreshed_in_their_last_quarter(lifetime: int)
    requires
        lifetime >= 0,
        lifetime / 4 >= secs(MIN_REFRESH_MARGIN as int),
        lifetime - lifetime / 4 >= secs(MIN_REFRESH_DELAY as int),
    ensures
        4 * margin_of(lifetime, None) <= lifetime < 4 * (margin_of(lifetime, None) + 1),
        delay_of(lifetime, None) + margin_of(lifetime, None) == lifetime,
{
}

/// A margin fits a lifetime where what is left of it is the least delay, or half of the
/// lifetime where that is shorter.
pub proof fn law_margins_leave_time_to_use_a_token(lifetime: int, margin: int, smaller: int)
    requires
        lifetime >= 0,
        smaller <= margin,
    ensures
        fits(lifetime, margin) <==> lifetime - margin >= secs(MIN_REFRESH_DELAY as int) || lifetime
            - margin >= lifetime / 2,
        fits(lifetime, margin) ==> fits(lifetime, smaller),
{
}

/// A connection lives for three quarters of the margin, but for the least time and for half
/// of the token's lifetime at most.
pub proof fn law_connections_end_within_the_margin(lifetime: int, configured: Option<int>)
    requires
        lifetime >= 0,
    ensures
        ({
            let margin = margin_of(lifetime, configured);
            let cap = connection_cap(lifetime, configured);
            &&& margin * 3 / 4 >= secs(MIN_CONNECTION_LIFETIME as int) && margin * 3 / 4 <= lifetime
                / 2 ==> 4 * cap <= 3 * margin < 4 * (cap + 1)
            &&& margin * 3 / 4 < secs(MIN_CONNECTION_LIFETIME as int) && secs(
                MIN_CONNECTION_LIFETIME as int,
            ) <= lifetime / 2 ==> cap == secs(MIN_CONNECTION_LIFETIME as int)
        }),
{
}

/// A token is about to expire from the margin before its end on, and stays so.
pub proof fn law_expiring_tokens_stay_so(now: int, later: int, expires_at: int, margin: int)
    requires
        now <= later,
    ensures
        expiring(now, expires_at, margin) <==> now + margin >= expires_at,
        expiring(now, expires_at, margin) ==> expiring(later, expires_at, margin),
{
}

/// A connection is retired exactly where its token is no longer the current one, and
/// refused exactly where its token is about to end.
pub proof fn law_old_connections_are_retired(
    provider: Arc<EntraTokenProvider>,
    conn: TrackedConnection,
    now: int,
    t: Instant,
)
    ensures
        is_superseded(RedisCredentials::Oauth(provider), conn.generation) <==> conn.generation
            != provider.token.generation,
        conn.token_expires_at == Some(t) ==> (conn.dead(now) <==> t@ - now <= secs(
            TOKEN_HARD_EXPIRY_MARGIN as int,
        )),
        conn.token_expires_at is None ==> !conn.dead(now),
{
}

/// Tokens are asked for at the host's path for the tenant, whatever slashes the host ends
/// with, and with the credentials that are configured.
pub proof fn law_tokens_are_asked_for_with_the_credentials(
    c: EntraOauthConfig,
    host: Seq<char>,
)
    requires
        c.authority_host@ == host || c.authority_host@ == host + seq!['/'],
        host.len() > 0 ==> host.last() != '/',
    ensures
        token_url(c) == host + "/"@ + c.tenant_id@ + "/oauth2/v2.0/token"@,
        token_form(c).contains(("grant_type"@, "client_credentials"@)),
        token_form(c).contains(("client_id"@, c.client_id@)),
        token_form(c).contains(("client_secret"@, c.client_secret@)),
        token_form(c).contains(("scope"@, c.scope@)),
        token_form(c).len() == 4,
{
    assert((host + seq!['/']).drop_last() =~= host);
    assert(text::trim_end_char(host, '/') == host);
    assert(text::trim_end_char(host + seq!['/'], '/') == host);
    let f = token_form(c);
    assert(f[0].0 == "grant_type"@ && f[1].1 == c.client_id@ && f[2].1 == c.client_secret@ && f[3].1
        == c.scope@);
}

/// An answer is taken where its status is one of success, and is a redirect where it is one
/// of those. Long bodies are logged by their start.
pub proof fn law_statuses_have_their_class(status: u16, body: Seq<char>)
    ensures
        is_success(status) <==> status / 100 == 2,
        is_redirection(status) <==> status / 100 == 3,
        body.len() <= MAX_LOGGED_ERROR_BODY_LEN ==> log_excerpt(body) == body,
        body.len() > MAX_LOGGED_ERROR_BODY_LEN ==> {
            &&& log_excerpt(body).take(MAX_LOGGED_ERROR_BODY_LEN as int) == body.take(
                MAX_LOGGED_ERROR_BODY_LEN as int,
            )
            &&& log_excerpt(body).skip(MAX_LOGGED_ERROR_BODY_LEN as int) == "..."@
        },
        redirect_target(Some(body)) == log_excerpt(body),
{
    if body.len() > MAX_LOGGED_ERROR_BODY_LEN {
        assert(log_excerpt(body).take(MAX_LOGGED_ERROR_BODY_LEN as int) =~= body.take(
            MAX_LOGGED_ERROR_BODY_LEN as int,
        ));
        assert(log_excerpt(body).skip(MAX_LOGGED_ERROR_BODY_LEN as int) =~= "..."@);
    }
}

/// A margin is warned of exactly where it is set and does not fit.
pub proof fn law_margins_that_do_not_fit_are_warned_of(lifetime: int, margin: int)
    ensures
        margin_warning_text(lifetime, None) is None,
        margin_warning_text(lifetime, Some(margin)) is Some <==> !fits(lifetime, margin),
{
}

/// The delay before the next try but one.
pub open spec fn backoff_after(backoff: int) -> int {
    clock::min(2 * backoff, secs(MAX_RETRY_BACKOFF as int))
}

/// Tries are spaced by delays that double up to the longest, and stay within it.
pub proof fn law_retries_back_off(backoff: int)
    requires
        secs(MIN_RETRY_BACKOFF as int) <= backoff <= secs(MAX_RETRY_BACKOFF as int),
    ensures
        backoff <= backoff_after(backoff) <= secs(MAX_RETRY_BACKOFF as int),
        2 * backoff <= secs(MAX_RETRY_BACKOFF as int) ==> backoff_after(backoff) == backoff
            + backoff,
        2 * backoff > secs(MAX_RETRY_BACKOFF as int) ==> backoff_after(backoff) == secs(
            MAX_RETRY_BACKOFF as int,
        ),
{
}

/// A token that was taken is the one that came, ends when it said, or after the longest that
/// is taken, and is refreshed before that by the margin.
pub proof fn law_taken_tokens_are_the_ones_that_came(
    before: EntraTokenProvider,
    after: EntraTokenProvider,
    t: TokenResponse,
    now: int,
)
    requires
        after.holds_token(&before, t, now),
    ensures
        after.token.secret@ == t.access_token@,
        t.expires_in <= MAX_TOKEN_LIFETIME ==> after.token.expires_at@ == now + secs(
            t.expires_in as int,
        ),
        t.expires_in > MAX_TOKEN_LIFETIME ==> after.token.expires_at@ == now + secs(
            MAX_TOKEN_LIFETIME as int,
        ),
        after.token.expires_at@ - after.token.refresh_at@ == margin_of(
            after.token.expires_at@ - now,
            span_option(before.config.refresh_margin),
        ),
        after.token.generation == before.token.generation + 1,
        after.config == before.config,
{
}

} // verus!
