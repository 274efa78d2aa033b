//! The cache that keeps nothing.

use crate::datastore::config_spec_store::ConfigSpecForCompany;
use crate::datastore::data_providers::{FullRequestContext, ResponseContext};
use crate::servers::authorized_request_context::AuthorizedRequestContext;
use std::sync::Arc;
use vstd::prelude::*;

verus! {

/// A cache that keeps nothing.
#[derive(Debug, Clone, Copy, PartialEq, Eq, Structural)]
pub struct DisabledCache {}

impl Default for DisabledCache {
    fn default() -> (r: Self)
        ensures
            r == (DisabledCache {  }),
    {
        DisabledCache {  }
    }
}

impl DisabledCache {
    pub fn force_notifier_to_wait_for_update(&self) -> (r: bool)
        ensures
            !r,
    {
        false
    }

    pub fn update(
        &mut self,
        _request_context: &FullRequestContext,
        _response_context: &ResponseContext,
    )
        ensures
            *final(self) == *old(self),
    {
    }

    pub fn get(&self, _request_context: &AuthorizedRequestContext) -> (r: Option<
        Arc<ConfigSpecForCompany>,
    >)
        ensures
            r is None,
    {
        None
    }
}

} // verus!
