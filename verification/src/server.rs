//! How the proxy is set up: its command line, its environment, and what the two
//! make of it.

use crate::clock;
use crate::datastore::data_providers;
use crate::datastore::data_providers::dcs_blob_url_generator;
use crate::datastore::data_providers::dcs_blob_url_generator::DcsBlobUrlGenerator;
use crate::datastore::data_providers::request_builder::DcsBlobConfig;
use crate::datastore::data_providers::HttpClientConfig;
use crate::text;
use vstd::prelude::*;

verus! {

/// What the proxy is served over.
#[derive(Debug, Copy, Clone, PartialEq, Eq, Structural)]
pub enum TransportMode {
    GrpcAndHttp,
    Grpc,
    Http,
}

/// What stands behind the stores in memory.
#[derive(Debug, Copy, Clone, PartialEq, Eq, Structural)]
pub enum CacheMode {
    Disabled,
    Redis,
}

/// What the command line sets.
#[derive(Debug, Clone)]
pub struct Cli {
    pub mode: TransportMode,
    pub cache: CacheMode,
    pub double_write_cache_for_legacy_key: bool,
    pub datadog_logging: bool,
    pub statsd_logging: bool,
    pub otlp_logging: bool,
    pub statsig_logging: bool,
    pub statsig_logging_tags: Option<Vec<(String, String)>>,
    pub debug_logging: bool,
    pub maximum_concurrent_sdk_keys: u16,
    pub polling_interval_in_s: u64,
    pub max_in_flight: u64,
    /// The least time between the launches of background requests. Zero disables
    /// the pacing.
    pub background_poll_item_spacing_ms: u64,
    pub redis_connection_timeout_in_s: u64,
    pub redis_leader_key_ttl: i64,
    pub redis_cache_ttl_in_s: i64,
    pub log_event_process_queue_size: usize,
    pub force_gcp_profiling_enabled: bool,
    pub grpc_max_concurrent_streams: u32,
    /// How many of all streams may be connected, in percent, while the proxy still
    /// tells that it is ready for more.
    pub grpc_ready_endpoint_percentage_of_total_streams_threshold: usize,
    /// Whether what is stored for a key goes where the key is refused. Where it does
    /// not, there still is something to serve while authorization is down, and a
    /// deleted key is served until the next restart.
    pub clear_datastore_on_unauthorized: bool,
    pub x509_server_cert_path: Option<String>,
    pub x509_server_key_path: Option<String>,
    pub x509_client_cert_path: Option<String>,
    pub enforce_tls: bool,
    pub enforce_mtls: bool,
    pub http_connection_pool_max_idle_per_host: usize,
    pub http_connection_pool_idle_timeout_in_s: u64,
    pub http_request_timeout_in_s: u64,
    pub http_read_timeout_in_s: u64,
    pub http_connect_timeout_in_s: u64,
    pub deltas_background_loop_enabled: bool,
    pub id_list_file_refresh_observer_enabled: bool,
    pub deltas_background_loop_sleep_time_in_s: Option<u64>,
    pub deltas_num_responses_to_persist: Option<usize>,
}

/// What a command line sets that gives nothing but the modes.
pub open spec fn default_cli(mode: TransportMode, cache: CacheMode) -> Cli {
    Cli {
        mode,
        cache,
        double_write_cache_for_legacy_key: false,
        datadog_logging: false,
        statsd_logging: false,
        otlp_logging: false,
        statsig_logging: false,
        statsig_logging_tags: None,
        debug_logging: false,
        maximum_concurrent_sdk_keys: 1000,
        polling_interval_in_s: 10,
        max_in_flight: 64,
        background_poll_item_spacing_ms: 0,
        redis_connection_timeout_in_s: 5,
        redis_leader_key_ttl: 70,
        redis_cache_ttl_in_s: 86400,
        log_event_process_queue_size: 20000,
        force_gcp_profiling_enabled: false,
        grpc_max_concurrent_streams: 500,
        grpc_ready_endpoint_percentage_of_total_streams_threshold: 90,
        clear_datastore_on_unauthorized: false,
        x509_server_cert_path: None,
        x509_server_key_path: None,
        x509_client_cert_path: None,
        enforce_tls: false,
        enforce_mtls: false,
        http_connection_pool_max_idle_per_host: 10,
        http_connection_pool_idle_timeout_in_s: 30,
        http_request_timeout_in_s: 30,
        http_read_timeout_in_s: 10,
        http_connect_timeout_in_s: 10,
        deltas_background_loop_enabled: false,
        id_list_file_refresh_observer_enabled: false,
        deltas_background_loop_sleep_time_in_s: None,
        deltas_num_responses_to_persist: None,
    }
}

/// The timeouts and limits of the upstream client, as the command line sets them.
pub open spec fn client_config_of(cli: Cli) -> data_providers::HttpClientConfigView {
    data_providers::HttpClientConfigView {
        request_timeout: cli.http_request_timeout_in_s * clock::SECOND,
        read_timeout: cli.http_read_timeout_in_s * clock::SECOND,
        connect_timeout: cli.http_connect_timeout_in_s * clock::SECOND,
        pool_idle_timeout: cli.http_connection_pool_idle_timeout_in_s * clock::SECOND,
        pool_max_idle_per_host: cli.http_connection_pool_max_idle_per_host,
    }
}

/// How changes are polled.
#[derive(Debug, Copy, Clone, PartialEq, Eq, Structural)]
pub struct DeltasSettings {
    pub polling_interval_in_s: u64,
    pub num_responses_to_persist: usize,
}

/// Which loggers there are.
#[derive(Debug, Copy, Clone, PartialEq, Eq, Structural)]
pub struct LoggerSettings {
    pub stats: bool,
    pub debug: bool,
}

impl Cli {
    /// A command line that gives nothing but the modes.
    pub fn new(mode: TransportMode, cache: CacheMode) -> (r: Self)
        ensures
            r == default_cli(mode, cache),
    {
        Cli {
            mode,
            cache,
            double_write_cache_for_legacy_key: false,
            datadog_logging: false,
            statsd_logging: false,
            otlp_logging: false,
            statsig_logging: false,
            statsig_logging_tags: None,
            debug_logging: false,
            maximum_concurrent_sdk_keys: 1000,
            polling_interval_in_s: 10,
            max_in_flight: 64,
            background_poll_item_spacing_ms: 0,
            redis_connection_timeout_in_s: 5,
            redis_leader_key_ttl: 70,
            redis_cache_ttl_in_s: 86400,
            log_event_process_queue_size: 20000,
            force_gcp_profiling_enabled: false,
            grpc_max_concurrent_streams: 500,
            grpc_ready_endpoint_percentage_of_total_streams_threshold: 90,
            clear_datastore_on_unauthorized: false,
            x509_server_cert_path: None,
            x509_server_key_path: None,
            x509_client_cert_path: None,
            enforce_tls: false,
            enforce_mtls: false,
            http_connection_pool_max_idle_per_host: 10,
            http_connection_pool_idle_timeout_in_s: 30,
            http_request_timeout_in_s: 30,
            http_read_timeout_in_s: 10,
            http_connect_timeout_in_s: 10,
            deltas_background_loop_enabled: false,
            id_list_file_refresh_observer_enabled: false,
            deltas_background_loop_sleep_time_in_s: None,
            deltas_num_responses_to_persist: None,
        }
    }

    pub fn http_client_config(&self) -> (r: HttpClientConfig)
        ensures
            r@ == client_config_of(*self),
    {
        HttpClientConfig::new(
            self.http_request_timeout_in_s,
            self.http_read_timeout_in_s,
            self.http_connect_timeout_in_s,
            self.http_connection_pool_idle_timeout_in_s,
            self.http_connection_pool_max_idle_per_host,
        )
    }

    /// How changes are polled, where they are: as often as everything else and with
    /// twenty responses kept, unless the command line says otherwise.
    pub fn deltas_settings(&self) -> (r: Option<DeltasSettings>)
        ensures
            r == if self.deltas_background_loop_enabled {
                Some(
                    DeltasSettings {
                        polling_interval_in_s: match self.deltas_background_loop_sleep_time_in_s {
                            Some(n) => n,
                            None => self.polling_interval_in_s,
                        },
                        num_responses_to_persist: match self.deltas_num_responses_to_persist {
                            Some(n) => n,
                            None => 20,
                        },
                    },
                )
            } else {
                None
            },
    {
        if !self.deltas_background_loop_enabled {
            return None;
        }
        let polling_interval_in_s: u64 = match self.deltas_background_loop_sleep_time_in_s {
            Some(n) => n,
            None => self.polling_interval_in_s,
        };
        let num_responses_to_persist: usize = match self.deltas_num_responses_to_persist {
            Some(n) => n,
            None => 20,
        };
        Some(DeltasSettings { polling_interval_in_s, num_responses_to_persist })
    }

    /// Which loggers there are: one for statistics, wherever they go, and one for
    /// the console.
    pub fn logger_settings(&self) -> (r: LoggerSettings)
        ensures
            r == (LoggerSettings {
                stats: self.datadog_logging || self.statsd_logging || self.statsig_logging
                    || self.otlp_logging,
                debug: self.debug_logging,
            }),
    {
        LoggerSettings {
            stats: self.datadog_logging || self.statsd_logging || self.statsig_logging
                || self.otlp_logging,
            debug: self.debug_logging,
        }
    }
}

/// What the environment sets.
#[derive(Debug)]
pub struct ConfigurationAndOverrides {
    pub statsig_endpoint: Option<String>,
    pub statsig_endpoint_deltas: Option<String>,
    pub statsig_endpoint_download_id_list_file: Option<String>,
    pub enable_blob_storage_for_download_config_specs: Option<bool>,
    pub dcs_blob_storage_connection_string: Option<String>,
    pub dcs_blob_storage_company_id: Option<String>,
    pub statsig_server_sdk_key: Option<String>,
    pub log_event_statsig_endpoint: Option<String>,
    pub log_event_dedupe_cache_limit: Option<usize>,
    pub tokio_worker_threads_background: Option<usize>,
}

/// An endpoint, or the one that holds for all.
pub open spec fn endpoint_or_default(endpoint: Option<String>) -> Seq<char> {
    match endpoint {
        Some(e) => e@,
        None => "https://api.statsigcdn.com"@,
    }
}

fn endpoint_text(endpoint: &Option<String>) -> (r: String)
    ensures
        r@ == endpoint_or_default(*endpoint),
{
    match endpoint {
        Some(e) => e.clone(),
        None => "https://api.statsigcdn.com".to_owned(),
    }
}

/// Where config specs and lists are fetched.
pub fn resolve_base_url(overrides: &ConfigurationAndOverrides) -> (r: String)
    ensures
        r@ == endpoint_or_default(overrides.statsig_endpoint),
{
    endpoint_text(&overrides.statsig_endpoint)
}

/// Where changes are fetched.
pub fn resolve_deltas_base_url(overrides: &ConfigurationAndOverrides) -> (r: String)
    ensures
        r@ == endpoint_or_default(overrides.statsig_endpoint_deltas),
{
    endpoint_text(&overrides.statsig_endpoint_deltas)
}

/// Where the files of lists are fetched: an endpoint of their own comes first.
pub fn resolve_download_id_list_file_base_url(overrides: &ConfigurationAndOverrides) -> (r: String)
    ensures
        r@ == (match overrides.statsig_endpoint_download_id_list_file {
            Some(e) => e@,
            None => endpoint_or_default(overrides.statsig_endpoint),
        }),
{
    match &overrides.statsig_endpoint_download_id_list_file {
        Some(e) => e.clone(),
        None => endpoint_text(&overrides.statsig_endpoint),
    }
}

/// Where logged events go.
pub fn resolve_log_event_base_url(overrides: &ConfigurationAndOverrides) -> (r: String)
    ensures
        r@ == (match overrides.log_event_statsig_endpoint {
            Some(e) => e@,
            None => "https://statsigapi.net"@,
        }),
{
    match &overrides.log_event_statsig_endpoint {
        Some(e) => e.clone(),
        None => "https://statsigapi.net".to_owned(),
    }
}

/// How many logged events are remembered.
pub fn log_event_dedupe_cache_limit(overrides: &ConfigurationAndOverrides) -> (r: usize)
    ensures
        r == (match overrides.log_event_dedupe_cache_limit {
            Some(n) => n,
            None => 2_000_000,
        }),
{
    match overrides.log_event_dedupe_cache_limit {
        Some(n) => n,
        None => 2_000_000,
    }
}

/// Where specs lie in blob storage, where it is enabled and set up.
pub open spec fn blob_config_of(overrides: ConfigurationAndOverrides) -> Option<
    (Seq<char>, Seq<char>),
> {
    match (
        overrides.dcs_blob_storage_connection_string,
        overrides.dcs_blob_storage_company_id,
    ) {
        (Some(connection), Some(company)) => if overrides.enable_blob_storage_for_download_config_specs
            == Some(true) && text::trimmed(company@).len() > 0
            && dcs_blob_url_generator::generator_failure(connection@) is None {
            Some((connection@, company@))
        } else {
            None
        },
        _ => None,
    }
}

/// Sets blob storage up. An account that cannot be read and a blank company leave
/// it out.
pub fn create_dcs_blob_config(overrides: &ConfigurationAndOverrides) -> (r: Option<DcsBlobConfig>)
    ensures
        (match r {
            Some(config) => Some((config.url_generator.source(), config.company_id@)),
            None => None,
        }) == blob_config_of(*overrides),
{
    let enabled = match overrides.enable_blob_storage_for_download_config_specs {
        Some(b) => b,
        None => false,
    };
    if !enabled {
        return None;
    }
    let connection_string = match &overrides.dcs_blob_storage_connection_string {
        Some(c) => c,
        None => {
            return None;
        },
    };
    let company_id = match &overrides.dcs_blob_storage_company_id {
        Some(c) => c,
        None => {
            return None;
        },
    };
    if text::trim(company_id.as_str()).is_empty() {
        return None;
    }
    match DcsBlobUrlGenerator::from_connection_string(connection_string.as_str()) {
        Ok(url_generator) => Some(DcsBlobConfig { url_generator, company_id: company_id.clone() }),
        Err(_) => None,
    }
}

/// How many threads work in the background: as many as the environment sets, or as
/// the machine runs at once, where that can be told.
pub fn background_worker_threads(
    overrides: &ConfigurationAndOverrides,
    available: Option<usize>,
) -> (r: Result<usize, String>)
    ensures
        ({
            let n = match overrides.tokio_worker_threads_background {
                Some(n) => n,
                None => match available {
                    Some(n) => n,
                    None => 1,
                },
            };
            match r {
                Ok(threads) => threads == n && n > 0,
                Err(message) => n == 0 && message@
                    == "TOKIO_WORKER_THREADS_BACKGROUND must be greater than 0"@,
            }
        }),
{
    let threads: usize = match overrides.tokio_worker_threads_background {
        Some(n) => n,
        None => match available {
            Some(n) => n,
            None => 1,
        },
    };
    if threads == 0 {
        return Err("TOKIO_WORKER_THREADS_BACKGROUND must be greater than 0".to_owned());
    }
    Ok(threads)
}

/// The key with which the proxy logs its own statistics, which has to be there where
/// they are logged.
pub fn own_sdk_key<'a>(cli: &Cli, overrides: &'a ConfigurationAndOverrides) -> (r: Result<
    Option<&'a str>,
    String,
>)
    ensures
        match r {
            Ok(Some(key)) => text::text_option(overrides.statsig_server_sdk_key) == Some(key@),
            Ok(None) => overrides.statsig_server_sdk_key is None && !cli.statsig_logging,
            Err(message) => overrides.statsig_server_sdk_key is None && cli.statsig_logging
                && message@ == "Must define statsig server sdk key if using statsig logging"@,
        },
{
    match &overrides.statsig_server_sdk_key {
        Some(key) => Ok(Some(key.as_str())),
        None => {
            if cli.statsig_logging {
                return Err(
                    "Must define statsig server sdk key if using statsig logging".to_owned(),
                );
            }
            Ok(None)
        },
    }
}

/// Blobs are read exactly where that is switched on, a company is named and the connection
/// can be set up, and with those.
pub proof fn law_blobs_are_read_where_they_are_set_up(
    overrides: ConfigurationAndOverrides,
    connection: Seq<char>,
    company: Seq<char>,
)
    ensures
        blob_config_of(overrides) == Some((connection, company)) <==> {
            &&& text::text_option(overrides.dcs_blob_storage_connection_string) == Some(connection)
            &&& text::text_option(overrides.dcs_blob_storage_company_id) == Some(company)
            &&& overrides.enable_blob_storage_for_download_config_specs == Some(true)
            &&& text::trimmed(company).len() > 0
            &&& dcs_blob_url_generator::generator_failure(connection) is None
        },
{
}

/// The endpoint is the one that is set, or Statsig's own, and the times of the client are
/// those that are set, in seconds.
pub proof fn law_settings_are_taken_over(cli: Cli, endpoint: String)
    ensures
        endpoint_or_default(Some(endpoint)) == endpoint@,
        endpoint_or_default(None) == "https://api.statsigcdn.com"@,
        client_config_of(cli).request_timeout == cli.http_request_timeout_in_s * 1_000_000_000,
        client_config_of(cli).read_timeout == cli.http_read_timeout_in_s * 1_000_000_000,
        client_config_of(cli).connect_timeout == cli.http_connect_timeout_in_s * 1_000_000_000,
        client_config_of(cli).pool_idle_timeout == cli.http_connection_pool_idle_timeout_in_s
            * 1_000_000_000,
        client_config_of(cli).pool_max_idle_per_host == cli.http_connection_pool_max_idle_per_host,
{
}

} // verus!
