//! The lists of ids that were fetched last.

use crate::datastore::data_providers::http_data_provider::ResponsePayload;
use crate::datastore::data_providers::{
    DataProviderRequestResult, FullRequestContext, ResponseContext,
};
use crate::datastore::sdk_key_store;
use crate::datastore::sdk_key_store::SdkKeyStore;
use crate::keyed_store;
use crate::keyed_store::KeyedStore;
use crate::servers::authorized_request_context::AuthorizedRequestContext;
use std::sync::Arc;
use vstd::prelude::*;

verus! {

/// The lists of one company.
#[derive(Debug)]
pub struct IdlistForCompany {
    pub idlists: Arc<ResponsePayload>,
}

/// The stored lists.
pub struct GetIdListStore {
    store: KeyedStore<Arc<IdlistForCompany>>,
}

/// What a response makes of the stored lists.
pub open spec fn lists_after(
    m: Map<keyed_store::KeyView, Arc<ResponsePayload>>,
    k: keyed_store::KeyView,
    result: DataProviderRequestResult,
    body: Arc<ResponsePayload>,
) -> Map<keyed_store::KeyView, Arc<ResponsePayload>> {
    match result {
        DataProviderRequestResult::Error => m.insert(k, body),
        DataProviderRequestResult::DataAvailable => m.insert(k, body),
        DataProviderRequestResult::Unauthorized => m.remove(k),
        _ => m,
    }
}

impl GetIdListStore {
    pub closed spec fn wf(&self) -> bool {
        self.store.wf()
    }

    /// The stored lists by the keys of their contexts.
    pub closed spec fn lists(&self) -> Map<keyed_store::KeyView, Arc<ResponsePayload>> {
        self.store@.map_values(|l: Arc<IdlistForCompany>| l.idlists)
    }

    pub fn new() -> (r: Self)
        ensures
            r.wf(),
            r.lists() == Map::<keyed_store::KeyView, Arc<ResponsePayload>>::empty(),
    {
        let r = GetIdListStore { store: KeyedStore::new() };
        assert(r.lists() =~= Map::<keyed_store::KeyView, Arc<ResponsePayload>>::empty());
        r
    }

    /// Takes a response.
    pub fn update(
        &mut self,
        request_context: &FullRequestContext,
        response_context: &ResponseContext,
    )
        requires
            old(self).wf(),
        ensures
            final(self).wf(),
            final(self).lists() == lists_after(
                old(self).lists(),
                sdk_key_store::context_key(request_context.authorized_request_context@),
                response_context.result_type,
                response_context.body,
            ),
    {
        let ghost before = *self;
        let key = request_context.authorized_request_context.store_key();
        let ghost k = key@;
        match response_context.result_type {
            DataProviderRequestResult::Error | DataProviderRequestResult::DataAvailable => {
                self.store.insert(
                    key,
                    Arc::new(
                        IdlistForCompany { idlists: keyed_store::share(&response_context.body) },
                    ),
                );
                assert(self.lists() =~= before.lists().insert(k, response_context.body));
            },
            DataProviderRequestResult::Unauthorized => {
                let _ = self.store.remove(&key);
                assert(self.lists() =~= before.lists().remove(k));
            },
            _ => {},
        }
    }

    /// Whether the lists must be fetched before they can be read.
    pub fn needs_fetch(sdk_keys: &SdkKeyStore, request_context: &AuthorizedRequestContext) -> (r:
        bool)
        requires
            sdk_keys.wf(),
        ensures
            r == !sdk_keys.lcuts().contains_key(sdk_key_store::context_key(request_context@)),
    {
        !sdk_keys.has_key(request_context)
    }

    /// The lists of a context, once they have been fetched where they were
    /// missing.
    pub fn get_id_lists(&self, request_context: &AuthorizedRequestContext) -> (r: Option<
        Arc<IdlistForCompany>,
    >)
        requires
            self.wf(),
        ensures
            ({
                let k = sdk_key_store::context_key(request_context@);
                match r {
                    Some(l) => self.lists().contains_key(k) && l.idlists == self.lists()[k],
                    None => !self.lists().contains_key(k),
                }
            }),
    {
        match self.store.get(&request_context.store_key()) {
            Some(l) => Some(keyed_store::share(l)),
            None => None,
        }
    }
}

/// Lists are read as they were stored last, and are gone once they are refused.
pub proof fn law_lists_are_read_as_stored(
    m: Map<keyed_store::KeyView, Arc<ResponsePayload>>,
    k: keyed_store::KeyView,
    body: Arc<ResponsePayload>,
)
    ensures
        lists_after(m, k, DataProviderRequestResult::DataAvailable, body)[k] == body,
        !lists_after(m, k, DataProviderRequestResult::Unauthorized, body).contains_key(k),
        lists_after(m, k, DataProviderRequestResult::NoDataAvailable, body) == m,
{
}

/// A response changes the lists of its own request alone, and only where it brings some or
/// refuses them.
pub proof fn law_responses_change_their_own_lists(
    m: Map<keyed_store::KeyView, Arc<ResponsePayload>>,
    k: keyed_store::KeyView,
    result: DataProviderRequestResult,
    body: Arc<ResponsePayload>,
    other: keyed_store::KeyView,
)
    ensures
        ({
            let after = lists_after(m, k, result, body);
            &&& result == DataProviderRequestResult::DataAvailable || result
                == DataProviderRequestResult::Error ==> after.contains_key(k) && after[k] == body
            &&& result == DataProviderRequestResult::Unauthorized ==> !after.contains_key(k)
            &&& result == DataProviderRequestResult::NoDataAvailable || result
                == DataProviderRequestResult::ClientError ==> after == m
            &&& other != k ==> (after.contains_key(other) <==> m.contains_key(other)) && (
            m.contains_key(other) ==> after[other] == m[other])
        }),
{
}

} // verus!
