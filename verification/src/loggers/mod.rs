//! Where events go.

pub mod datadog_logger;
pub mod debug_logger;
pub mod nginx_cache_monitor;
pub mod stats_logger;
