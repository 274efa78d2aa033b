//! Endpoints that tell an orchestrator how the service is.

use vstd::prelude::*;

verus! {

#[derive(Debug, Clone, Copy, PartialEq, Eq, Structural)]
pub struct StartupResponse {}

#[derive(Debug, Clone, Copy, PartialEq, Eq, Structural)]
pub struct ReadyResponse {}

#[derive(Debug, Clone, Copy, PartialEq, Eq, Structural)]
pub struct HealthResponse {}

/// The service has started.
pub fn startup() -> (r: StartupResponse)
    ensures
        r == (StartupResponse {  }),
{
    StartupResponse {  }
}

/// The service can take requests.
pub fn ready() -> (r: ReadyResponse)
    ensures
        r == (ReadyResponse {  }),
{
    ReadyResponse {  }
}

/// The service is alive.
pub fn health() -> (r: HealthResponse)
    ensures
        r == (HealthResponse {  }),
{
    HealthResponse {  }
}

} // verus!
