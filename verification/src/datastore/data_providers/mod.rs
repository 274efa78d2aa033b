//! Where the specs come from.

pub mod background_data_provider;
pub mod background_poll_dispatch;
pub mod background_request_interval_tracker;
pub mod dcs_blob_url_generator;
pub mod http_data_provider;
pub mod request_backoff;
pub mod request_builder;
pub mod startup_warmup_parser;

use crate::clock;
use crate::clock::Duration;
use crate::datastore::data_providers::http_data_provider::ResponsePayload;
use crate::servers::authorized_request_context::AuthorizedRequestContext;
use std::sync::Arc;
use vstd::prelude::*;

verus! {

broadcast use crate::clock::group_time;

/// The timeouts and limits of the upstream client.
#[derive(Clone, Copy, Debug, PartialEq, Eq, Structural)]
pub struct HttpClientConfig {
    request_timeout: Duration,
    read_timeout: Duration,
    connect_timeout: Duration,
    pool_idle_timeout: Duration,
    pool_max_idle_per_host: usize,
}

/// The model of a client configuration, in nanoseconds.
pub struct HttpClientConfigView {
    pub request_timeout: int,
    pub read_timeout: int,
    pub connect_timeout: int,
    pub pool_idle_timeout: int,
    pub pool_max_idle_per_host: usize,
}

impl View for HttpClientConfig {
    type V = HttpClientConfigView;

    closed spec fn view(&self) -> HttpClientConfigView {
        HttpClientConfigView {
            request_timeout: self.request_timeout@,
            read_timeout: self.read_timeout@,
            connect_timeout: self.connect_timeout@,
            pool_idle_timeout: self.pool_idle_timeout@,
            pool_max_idle_per_host: self.pool_max_idle_per_host,
        }
    }
}

/// How long a background request may take as a whole: five seconds beyond the
/// request timeout, where there is such a span, and a minute at least.
pub open spec fn guard_timeout(request_timeout: int) -> int {
    let buffered = if request_timeout + 5 * clock::SECOND <= clock::LONGEST {
        request_timeout + 5 * clock::SECOND
    } else {
        request_timeout
    };
    clock::max(buffered, 60 * clock::SECOND)
}

impl HttpClientConfig {
    pub fn new(
        request_timeout_in_s: u64,
        read_timeout_in_s: u64,
        connect_timeout_in_s: u64,
        pool_idle_timeout_in_s: u64,
        pool_max_idle_per_host: usize,
    ) -> (r: Self)
        ensures
            r@ == (HttpClientConfigView {
                request_timeout: request_timeout_in_s * clock::SECOND,
                read_timeout: read_timeout_in_s * clock::SECOND,
                connect_timeout: connect_timeout_in_s * clock::SECOND,
                pool_idle_timeout: pool_idle_timeout_in_s * clock::SECOND,
                pool_max_idle_per_host,
            }),
    {
        HttpClientConfig {
            request_timeout: Duration::from_secs(request_timeout_in_s),
            read_timeout: Duration::from_secs(read_timeout_in_s),
            connect_timeout: Duration::from_secs(connect_timeout_in_s),
            pool_idle_timeout: Duration::from_secs(pool_idle_timeout_in_s),
            pool_max_idle_per_host,
        }
    }

    pub fn request_timeout(self) -> (r: Duration)
        ensures
            r@ == self@.request_timeout,
    {
        self.request_timeout
    }

    pub fn read_timeout(self) -> (r: Duration)
        ensures
            r@ == self@.read_timeout,
    {
        self.read_timeout
    }

    pub fn connect_timeout(self) -> (r: Duration)
        ensures
            r@ == self@.connect_timeout,
    {
        self.connect_timeout
    }

    pub fn pool_max_idle_per_host(self) -> (r: usize)
        ensures
            r == self@.pool_max_idle_per_host,
    {
        self.pool_max_idle_per_host
    }

    pub fn pool_idle_timeout(self) -> (r: Duration)
        ensures
            r@ == self@.pool_idle_timeout,
    {
        self.pool_idle_timeout
    }

    pub fn background_request_guard_timeout(self) -> (r: Duration)
        ensures
            r@ == guard_timeout(self@.request_timeout),
    {
        let buffered = match self.request_timeout.checked_add(Duration::from_secs(5)) {
            Some(d) => d,
            None => self.request_timeout,
        };
        buffered.longer(Duration::from_secs(60))
    }
}

impl Default for HttpClientConfig {
    fn default() -> (r: Self)
        ensures
            r@ == (HttpClientConfigView {
                request_timeout: 30 * clock::SECOND,
                read_timeout: 10 * clock::SECOND,
                connect_timeout: 10 * clock::SECOND,
                pool_idle_timeout: 30 * clock::SECOND,
                pool_max_idle_per_host: 10,
            }),
    {
        Self::new(30, 10, 10, 30, 10)
    }
}

/// A background request is given longer than its request timeout.
pub proof fn law_guard_outlasts_the_request(request_timeout: int)
    requires
        0 <= request_timeout,
        request_timeout + 5 * clock::SECOND <= clock::LONGEST,
    ensures
        guard_timeout(request_timeout) >= request_timeout + 5 * clock::SECOND,
        guard_timeout(request_timeout) >= 60 * clock::SECOND,
{
}

/// The request behind an update.
pub struct FullRequestContext {
    pub authorized_request_context: Arc<AuthorizedRequestContext>,
}

/// The response behind an update.
pub struct ResponseContext {
    pub result_type: DataProviderRequestResult,
    pub lcut: u64,
    pub request_since_time: u64,
    pub body: Arc<ResponsePayload>,
}

/// How a request to the upstream ended.
#[derive(PartialEq, Eq, Debug, Clone, Copy, Structural)]
pub enum DataProviderRequestResult {
    DataAvailable,
    NoDataAvailable,
    Unauthorized,
    ClientError,
    Error,
}

/// What a request to the upstream brought.
#[derive(Debug)]
pub struct DataProviderResult {
    pub result: DataProviderRequestResult,
    pub body: Option<Arc<ResponsePayload>>,
    pub lcut: u64,
}

/// A request is guarded for five seconds more than it may take, and for a minute where that
/// is longer, and for no longer than that.
pub proof fn law_guards_last_no_longer(request_timeout: int)
    requires
        0 <= request_timeout,
        request_timeout + 5 * clock::SECOND <= clock::LONGEST,
    ensures
        request_timeout >= 55 * clock::SECOND ==> guard_timeout(request_timeout) == request_timeout
            + 5 * clock::SECOND,
        request_timeout <= 55 * clock::SECOND ==> guard_timeout(request_timeout) == 60
            * clock::SECOND,
{
}

} // verus!
