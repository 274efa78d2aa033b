//! Endpoints beside those of the service itself.

pub mod healthchecks;
