//! What the proxy keeps, and how it gets it.

pub mod caching;
pub mod config_spec_store;
pub mod data_providers;
pub mod deltas_store;
pub mod envelope_frames;
pub mod id_list_file_refresh_observer;
pub mod id_list_file_store;
pub mod id_list_manifest;
pub mod id_list_store;
pub mod log_event_store;
pub mod sdk_key_store;
pub mod shared_dict_config_spec_store;
