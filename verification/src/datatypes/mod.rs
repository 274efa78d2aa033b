//! What clients send.

pub mod gzip_data;
pub mod log_event;
