//! Verified logic of a caching proxy that sits between feature-flag SDKs and
//! their configuration service.

pub mod client;
pub mod clock;
pub mod codecs;
pub mod datastore;
pub mod datatypes;
pub mod json;
pub mod keyed_store;
pub mod loggers;
pub mod lru_store;
pub mod observers;
pub mod server;
pub mod servers;
pub mod text;
pub mod utils;
