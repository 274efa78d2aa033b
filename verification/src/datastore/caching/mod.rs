//! Caches behind the in-memory stores.

pub mod disabled_cache;
pub mod in_memory_cache;
pub mod redis_auth;
pub mod redis_cache;
pub mod redis_config;
