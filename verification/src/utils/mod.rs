//! Helpers that several parts of the proxy share.

pub mod compress_encoder;
pub mod deserialization_helpers;
pub mod quality;
pub mod request_helper;
pub mod response_compression;
pub mod sdk_key_redacting_logger;
pub mod statsig_sdk_wrapper;
