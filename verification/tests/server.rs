use statsig_forward_proxy::client::last_500_char;
use statsig_forward_proxy::datastore::data_providers::HttpClientConfig;
use statsig_forward_proxy::server::{
    background_worker_threads, create_dcs_blob_config, log_event_dedupe_cache_limit, own_sdk_key,
    resolve_base_url, resolve_deltas_base_url, resolve_download_id_list_file_base_url,
    resolve_log_event_base_url, CacheMode, Cli, ConfigurationAndOverrides, DeltasSettings,
    TransportMode,
};

fn make_overrides(
    statsig_endpoint: Option<&str>,
    statsig_endpoint_download_id_list_file: Option<&str>,
) -> ConfigurationAndOverrides {
    ConfigurationAndOverrides {
        statsig_endpoint: statsig_endpoint.map(str::to_string),
        statsig_endpoint_deltas: None,
        statsig_endpoint_download_id_list_file: statsig_endpoint_download_id_list_file
            .map(str::to_string),
        enable_blob_storage_for_download_config_specs: None,
        dcs_blob_storage_connection_string: None,
        dcs_blob_storage_company_id: None,
        statsig_server_sdk_key: None,
        log_event_statsig_endpoint: None,
        log_event_dedupe_cache_limit: None,
        tokio_worker_threads_background: None,
    }
}

fn default_cli() -> Cli {
    Cli::new(TransportMode::Http, CacheMode::Disabled)
}

#[test]
fn cli_http_client_config_defaults_match_existing_values() {
    let cli = default_cli();

    assert_eq!(cli.http_client_config(), HttpClientConfig::default());
}

#[test]
fn cli_http_client_config_uses_explicit_override_values() {
    let mut cli = default_cli();
    cli.http_connection_pool_max_idle_per_host = 25;
    cli.http_request_timeout_in_s = 45;
    cli.http_read_timeout_in_s = 20;
    cli.http_connect_timeout_in_s = 5;
    cli.http_connection_pool_idle_timeout_in_s = 15;

    assert_eq!(
        cli.http_client_config(),
        HttpClientConfig::new(45, 20, 5, 15, 25)
    );
}

#[test]
fn cli_disables_id_list_file_refresh_observer_by_default() {
    let cli = default_cli();

    assert!(!cli.id_list_file_refresh_observer_enabled);
}

#[test]
fn download_id_list_file_base_url_uses_specific_override_first() {
    let overrides = make_overrides(
        Some("https://api.statsigcdn.com"),
        Some("https://idliststorage.blob.core.windows.net/idlists"),
    );
    assert_eq!(
        resolve_download_id_list_file_base_url(&overrides),
        "https://idliststorage.blob.core.windows.net/idlists"
    );
}

#[test]
fn download_id_list_file_base_url_falls_back_to_statsig_endpoint() {
    let overrides = make_overrides(Some("https://proxy.example.com"), None);
    assert_eq!(
        resolve_download_id_list_file_base_url(&overrides),
        "https://proxy.example.com"
    );
}

#[test]
fn download_id_list_file_base_url_falls_back_to_legacy_default() {
    let overrides = make_overrides(None, None);
    assert_eq!(
        resolve_download_id_list_file_base_url(&overrides),
        "https://api.statsigcdn.com"
    );
}

#[test]
fn create_dcs_blob_config_returns_none_for_empty_company_id() {
    let mut overrides = make_overrides(None, None);
    overrides.enable_blob_storage_for_download_config_specs = Some(true);
    overrides.dcs_blob_storage_connection_string = Some("DefaultEndpointsProtocol=https;AccountName=idliststorage;AccountKey=ZmFrZS1rZXk=;EndpointSuffix=core.windows.net".to_string());
    overrides.dcs_blob_storage_company_id = Some("   ".to_string());

    assert!(create_dcs_blob_config(&overrides).is_none());
}

#[test]
fn blob_storage_is_set_up_where_it_is_enabled() {
    let mut overrides = make_overrides(None, None);
    overrides.dcs_blob_storage_connection_string = Some("DefaultEndpointsProtocol=https;AccountName=idliststorage;AccountKey=ZmFrZS1rZXk=;EndpointSuffix=core.windows.net".to_string());
    overrides.dcs_blob_storage_company_id = Some("company".to_string());
    assert!(create_dcs_blob_config(&overrides).is_none());
    overrides.enable_blob_storage_for_download_config_specs = Some(true);
    let config = create_dcs_blob_config(&overrides).expect("blob storage");
    assert_eq!(config.company_id, "company");
    overrides.dcs_blob_storage_connection_string = Some("nonsense".to_string());
    assert!(create_dcs_blob_config(&overrides).is_none());
}

#[test]
fn endpoints_and_limits_have_defaults() {
    let mut overrides = make_overrides(None, None);
    assert_eq!(resolve_base_url(&overrides), "https://api.statsigcdn.com");
    assert_eq!(
        resolve_deltas_base_url(&overrides),
        "https://api.statsigcdn.com"
    );
    assert_eq!(
        resolve_log_event_base_url(&overrides),
        "https://statsigapi.net"
    );
    assert_eq!(log_event_dedupe_cache_limit(&overrides), 2_000_000);
    overrides.statsig_endpoint_deltas = Some("https://deltas.example.com".to_string());
    assert_eq!(
        resolve_deltas_base_url(&overrides),
        "https://deltas.example.com"
    );
}

#[test]
fn background_threads_are_counted() {
    let mut overrides = make_overrides(None, None);
    assert_eq!(background_worker_threads(&overrides, None), Ok(1));
    assert_eq!(background_worker_threads(&overrides, Some(8)), Ok(8));
    overrides.tokio_worker_threads_background = Some(0);
    assert_eq!(
        background_worker_threads(&overrides, Some(8)),
        Err("TOKIO_WORKER_THREADS_BACKGROUND must be greater than 0".to_string())
    );
}

#[test]
fn own_statistics_need_a_key() {
    let mut cli = default_cli();
    let mut overrides = make_overrides(None, None);
    assert_eq!(own_sdk_key(&cli, &overrides), Ok(None));
    cli.statsig_logging = true;
    assert!(cli.logger_settings().stats);
    assert_eq!(
        own_sdk_key(&cli, &overrides),
        Err("Must define statsig server sdk key if using statsig logging".to_string())
    );
    overrides.statsig_server_sdk_key = Some("secret-own".to_string());
    assert_eq!(own_sdk_key(&cli, &overrides), Ok(Some("secret-own")));
}

#[test]
fn deltas_are_polled_where_they_are_enabled() {
    let mut cli = default_cli();
    assert_eq!(cli.deltas_settings(), None);
    cli.deltas_background_loop_enabled = true;
    assert_eq!(
        cli.deltas_settings(),
        Some(DeltasSettings {
            polling_interval_in_s: 10,
            num_responses_to_persist: 20
        })
    );
    cli.deltas_background_loop_sleep_time_in_s = Some(3);
    cli.deltas_num_responses_to_persist = Some(4);
    assert_eq!(
        cli.deltas_settings(),
        Some(DeltasSettings {
            polling_interval_in_s: 3,
            num_responses_to_persist: 4
        })
    );
}

#[test]
fn only_the_end_of_a_long_text_is_printed() {
    assert_eq!(last_500_char("short"), "short");
    let long = "a".repeat(10) + &"b".repeat(500);
    assert_eq!(last_500_char(&long), "b".repeat(500));
    let wide = "x".to_string() + &"\u{e9}".repeat(250);
    assert_eq!(last_500_char(&wide), "\u{e9}".repeat(250));
}
