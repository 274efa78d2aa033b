//! The requests that are kept up to date, and how far each has come.

use crate::datastore::data_providers::{
    DataProviderRequestResult, FullRequestContext, ResponseContext,
};
use crate::keyed_store;
use crate::keyed_store::{KeyedStore, StoreKey};
use crate::servers::authorized_request_context;
use crate::servers::authorized_request_context::AuthorizedRequestContext;
use std::sync::Arc;
use vstd::prelude::*;

verus! {

/// A registered request and the time of the last change that it has seen.
#[derive(Debug)]
pub struct SdkKeyStoreItem {
    pub request_context: Arc<AuthorizedRequestContext>,
    pub lcut: u64,
}

/// The key of a context.
pub open spec fn context_key(
    c: authorized_request_context::ContextView,
) -> keyed_store::KeyView {
    authorized_request_context::identity_key(c.identity())
}

/// What a response makes of the registered requests: data registers a request
/// and moves it forward, a refusal drops it, and all else leaves it alone.
pub open spec fn registered_after(
    m: Map<keyed_store::KeyView, u64>,
    c: authorized_request_context::ContextView,
    result: DataProviderRequestResult,
    lcut: u64,
) -> Map<keyed_store::KeyView, u64> {
    let k = context_key(c);
    match result {
        DataProviderRequestResult::DataAvailable => if !c.use_lcut || !m.contains_key(k) || m[k]
            < lcut {
            m.insert(k, lcut)
        } else {
            m
        },
        DataProviderRequestResult::Unauthorized => m.remove(k),
        _ => m,
    }
}

/// The registered requests by their keys: the context that each was first registered
/// with, and how far it has come.
pub type RegisteredRequests = Map<
    keyed_store::KeyView,
    (authorized_request_context::ContextView, u64),
>;

/// The registered requests once one of them was moved to `lcut`, or registered there.
pub open spec fn upserted(
    m: RegisteredRequests,
    c: authorized_request_context::ContextView,
    lcut: u64,
) -> RegisteredRequests {
    let k = context_key(c);
    m.insert(
        k,
        (
            if m.contains_key(k) {
                m[k].0
            } else {
                c
            },
            lcut,
        ),
    )
}

/// What a response makes of the registered requests and their contexts.
pub open spec fn requests_after(
    m: RegisteredRequests,
    c: authorized_request_context::ContextView,
    result: DataProviderRequestResult,
    lcut: u64,
) -> RegisteredRequests {
    let k = context_key(c);
    match result {
        DataProviderRequestResult::DataAvailable => if !c.use_lcut || !m.contains_key(k) || m[k].1
            < lcut {
            upserted(m, c, lcut)
        } else {
            m
        },
        DataProviderRequestResult::Unauthorized => m.remove(k),
        _ => m,
    }
}

/// The registered requests.
pub struct SdkKeyStore {
    keystore: KeyedStore<SdkKeyStoreItem>,
}

impl SdkKeyStore {
    /// Every request is registered under its own key.
    pub closed spec fn wf(&self) -> bool {
        &&& self.keystore.wf()
        &&& forall|k: keyed_store::KeyView| #[trigger]
            self.keystore@.contains_key(k) ==> context_key(self.keystore@[k].request_context@) == k
    }

    /// The registered requests by their keys.
    pub closed spec fn items(&self) -> Map<keyed_store::KeyView, SdkKeyStoreItem> {
        self.keystore@
    }

    /// How far each registered request has come.
    pub open spec fn lcuts(&self) -> Map<keyed_store::KeyView, u64> {
        self.items().map_values(|i: SdkKeyStoreItem| i.lcut)
    }

    /// The registered requests, each with the context it was first registered with.
    pub open spec fn requests(&self) -> RegisteredRequests {
        self.items().map_values(|i: SdkKeyStoreItem| (i.request_context@, i.lcut))
    }

    pub fn new() -> (r: SdkKeyStore)
        ensures
            r.wf(),
            r.lcuts() == Map::<keyed_store::KeyView, u64>::empty(),
            r.requests() == RegisteredRequests::empty(),
    {
        let r = SdkKeyStore { keystore: KeyedStore::new() };
        assert(r.lcuts() =~= Map::<keyed_store::KeyView, u64>::empty());
        assert(r.requests() =~= RegisteredRequests::empty());
        r
    }

    pub fn has_key(&self, request_context: &AuthorizedRequestContext) -> (r: bool)
        requires
            self.wf(),
        ensures
            r == self.lcuts().contains_key(context_key(request_context@)),
    {
        self.keystore.contains(&request_context.store_key())
    }

    /// How far a request has come.
    pub fn lcut_of(&self, request_context: &AuthorizedRequestContext) -> (r: Option<u64>)
        requires
            self.wf(),
        ensures
            match r {
                Some(n) => self.lcuts().contains_key(context_key(request_context@))
                    && self.lcuts()[context_key(request_context@)] == n,
                None => !self.lcuts().contains_key(context_key(request_context@)),
            },
    {
        match self.keystore.get(&request_context.store_key()) {
            Some(item) => Some(item.lcut),
            None => None,
        }
    }

    /// Registers a request, or moves it to `lcut`. The context it was first
    /// registered with stays.
    pub fn upsert(&mut self, request_context: &Arc<AuthorizedRequestContext>, lcut: u64)
        requires
            old(self).wf(),
        ensures
            final(self).wf(),
            final(self).lcuts() == old(self).lcuts().insert(context_key(request_context@), lcut),
            final(self).requests() == upserted(old(self).requests(), request_context@, lcut),
            final(self).items() == old(self).items().insert(
                context_key(request_context@),
                SdkKeyStoreItem {
                    request_context: if old(self).items().contains_key(
                        context_key(request_context@),
                    ) {
                        old(self).items()[context_key(request_context@)].request_context
                    } else {
                        *request_context
                    },
                    lcut,
                },
            ),
    {
        let ghost before = *self;
        let key = request_context.store_key();
        let context = match self.keystore.get(&key) {
            Some(item) => keyed_store::share(&item.request_context),
            None => keyed_store::share(request_context),
        };
        self.keystore.insert(key, SdkKeyStoreItem { request_context: context, lcut });
        assert(self.lcuts() =~= before.lcuts().insert(context_key(request_context@), lcut));
        assert(self.requests() =~= upserted(before.requests(), request_context@, lcut));
    }

    /// Drops a request.
    pub fn remove_key(&mut self, request_context: &AuthorizedRequestContext)
        requires
            old(self).wf(),
        ensures
            final(self).wf(),
            final(self).lcuts() == old(self).lcuts().remove(context_key(request_context@)),
            final(self).requests() == old(self).requests().remove(context_key(request_context@)),
            final(self).items() == old(self).items().remove(context_key(request_context@)),
    {
        let ghost before = *self;
        let _ = self.keystore.remove(&request_context.store_key());
        assert(self.lcuts() =~= before.lcuts().remove(context_key(request_context@)));
        assert(self.requests() =~= before.requests().remove(context_key(request_context@)));
    }

    /// Takes a response.
    pub fn update(
        &mut self,
        request_context: &FullRequestContext,
        response_context: &ResponseContext,
    )
        requires
            old(self).wf(),
        ensures
            final(self).wf(),
            final(self).lcuts() == registered_after(
                old(self).lcuts(),
                request_context.authorized_request_context@,
                response_context.result_type,
                response_context.lcut,
            ),
            final(self).requests() == requests_after(
                old(self).requests(),
                request_context.authorized_request_context@,
                response_context.result_type,
                response_context.lcut,
            ),
            forall|k: keyed_store::KeyView| #[trigger]
                final(self).items().contains_key(k) ==> final(self).items()[k].request_context == (
                if old(self).items().contains_key(k) {
                    old(self).items()[k].request_context
                } else {
                    request_context.authorized_request_context
                }),
    {
        let context = &request_context.authorized_request_context;
        match response_context.result_type {
            DataProviderRequestResult::DataAvailable => {
                let older = match self.lcut_of(context) {
                    Some(n) => n < response_context.lcut,
                    None => true,
                };
                if !context.use_lcut || older {
                    self.upsert(context, response_context.lcut);
                }
            },
            DataProviderRequestResult::Unauthorized => {
                self.remove_key(context);
            },
            _ => {},
        }
    }

    /// All registered requests, each once, in no particular order.
    pub fn get_registered_store(&self) -> (r: Vec<SdkKeyStoreItem>)
        requires
            self.wf(),
        ensures
            forall|i: int|
                0 <= i < r@.len() ==> {
                    let k = context_key((#[trigger] r@[i]).request_context@);
                    self.items().contains_key(k) && self.items()[k] == r@[i]
                },
            forall|k: keyed_store::KeyView| #[trigger]
                self.items().contains_key(k) ==> exists|i: int|
                    0 <= i < r@.len() && context_key((#[trigger] r@[i]).request_context@) == k,
            forall|i: int, j: int|
                0 <= i < j < r@.len() ==> context_key((#[trigger] r@[i]).request_context@)
                    != context_key((#[trigger] r@[j]).request_context@),
    {
        let keys = self.keystore.keys();
        let mut r: Vec<SdkKeyStoreItem> = Vec::new();
        let mut i: usize = 0;
        while i < keys.len()
            invariant
                self.wf(),
                i <= keys@.len(),
                r@.len() == i,
                forall|k: keyed_store::KeyView|
                    self.keystore@.contains_key(k) <==> exists|j: int|
                        0 <= j < keys@.len() && #[trigger] keys@[j]@ == k,
                forall|a: int, b: int|
                    0 <= a < b < keys@.len() ==> (#[trigger] keys@[a])@ != (#[trigger] keys@[b])@,
                forall|j: int|
                    0 <= j < i ==> {
                        let k = context_key((#[trigger] r@[j]).request_context@);
                        &&& k == keys@[j]@
                        &&& self.keystore@.contains_key(k)
                        &&& self.keystore@[k] == r@[j]
                    },
            decreases keys@.len() - i,
        {
            assert(self.keystore@.contains_key(keys@[i as int]@));
            if let Some(item) = self.keystore.get(&keys[i]) {
                r.push(
                    SdkKeyStoreItem {
                        request_context: keyed_store::share(&item.request_context),
                        lcut: item.lcut,
                    },
                );
            }
            i += 1;
        }
        assert forall|k: keyed_store::KeyView| #[trigger]
            self.items().contains_key(k) implies exists|i: int|
            0 <= i < r@.len() && context_key((#[trigger] r@[i]).request_context@) == k by {
            let j = choose|j: int| 0 <= j < keys@.len() && #[trigger] keys@[j]@ == k;
            assert(context_key(r@[j].request_context@) == k);
        }
        r
    }
}

/// A request keeps the context it was first registered with for as long as it is
/// registered, and other requests are left alone.
pub proof fn law_registered_contexts_stay(
    m: RegisteredRequests,
    c: authorized_request_context::ContextView,
    result: DataProviderRequestResult,
    lcut: u64,
    k: keyed_store::KeyView,
)
    requires
        requests_after(m, c, result, lcut).contains_key(k),
    ensures
        m.contains_key(k) ==> requests_after(m, c, result, lcut)[k].0 == m[k].0,
        !m.contains_key(k) ==> k == context_key(c) && requests_after(m, c, result, lcut)[k] == (
            c,
            lcut,
        ),
        k != context_key(c) ==> requests_after(m, c, result, lcut)[k] == m[k],
{
}

/// A request that carries the time of its last change never goes back while it
/// stays registered, and other requests are left alone.
pub proof fn law_registered_requests_only_move_forward(
    m: Map<keyed_store::KeyView, u64>,
    c: authorized_request_context::ContextView,
    result: DataProviderRequestResult,
    lcut: u64,
    k: keyed_store::KeyView,
)
    requires
        m.contains_key(k),
        registered_after(m, c, result, lcut).contains_key(k),
        c.use_lcut,
    ensures
        registered_after(m, c, result, lcut)[k] >= m[k],
        k != context_key(c) ==> registered_after(m, c, result, lcut)[k] == m[k],
{
}

/// Only a refusal drops a request.
pub proof fn law_only_a_refusal_drops_a_request(
    m: Map<keyed_store::KeyView, u64>,
    c: authorized_request_context::ContextView,
    result: DataProviderRequestResult,
    lcut: u64,
    k: keyed_store::KeyView,
)
    requires
        m.contains_key(k),
        !registered_after(m, c, result, lcut).contains_key(k),
    ensures
        result == DataProviderRequestResult::Unauthorized,
        k == context_key(c),
{
}

/// Requests are told apart by their key, path, encodings, capabilities, file and size, and
/// by nothing else.
pub proof fn law_requests_are_told_apart(
    a: authorized_request_context::ContextView,
    b: authorized_request_context::ContextView,
)
    ensures
        context_key(a) == context_key(b) <==> {
            &&& a.sdk_key == b.sdk_key
            &&& a.path == b.path
            &&& a.encodings == b.encodings
            &&& a.supports_proto == b.supports_proto
            &&& a.accept_deltas == b.accept_deltas
            &&& a.file_id == b.file_id
            &&& a.id_list_size == b.id_list_size
        },
{
    if context_key(a) == context_key(b) {
        authorized_request_context::lemma_identity_key_injective(a.identity(), b.identity());
    }
}

/// Data registers its request with the later of the two times, or with its own where times
/// do not count. A refusal takes the request out. Nothing else changes anything, and no
/// other request is ever touched.
pub proof fn law_responses_register_their_request(
    m: Map<keyed_store::KeyView, u64>,
    c: authorized_request_context::ContextView,
    result: DataProviderRequestResult,
    lcut: u64,
    k: keyed_store::KeyView,
)
    ensures
        ({
            let after = registered_after(m, c, result, lcut);
            let key = context_key(c);
            &&& result == DataProviderRequestResult::DataAvailable ==> {
                &&& after.contains_key(key)
                &&& !c.use_lcut || !m.contains_key(key) ==> after[key] == lcut
                &&& c.use_lcut && m.contains_key(key) ==> after[key] == (if m[key] < lcut {
                    lcut
                } else {
                    m[key]
                })
            }
            &&& result == DataProviderRequestResult::Unauthorized ==> !after.contains_key(key)
            &&& result != DataProviderRequestResult::DataAvailable && result
                != DataProviderRequestResult::Unauthorized ==> after == m
            &&& k != key ==> (after.contains_key(k) <==> m.contains_key(k)) && (m.contains_key(k)
                ==> after[k] == m[k])
        }),
{
}

/// The times that are registered alone and those beside their contexts stay the same.
pub proof fn law_times_stay_with_their_requests(
    m: Map<keyed_store::KeyView, u64>,
    requests: RegisteredRequests,
    c: authorized_request_context::ContextView,
    result: DataProviderRequestResult,
    lcut: u64,
)
    requires
        m == requests.map_values(
            |p: (authorized_request_context::ContextView, u64)| p.1,
        ),
    ensures
        registered_after(m, c, result, lcut) == requests_after(
            requests,
            c,
            result,
            lcut,
        ).map_values(|p: (authorized_request_context::ContextView, u64)| p.1),
        requests_after(requests, c, result, lcut).contains_key(context_key(c))
            && !requests.contains_key(context_key(c)) ==> requests_after(
            requests,
            c,
            result,
            lcut,
        )[context_key(c)].0 == c,
{
    assert(registered_after(m, c, result, lcut) =~= requests_after(
        requests,
        c,
        result,
        lcut,
    ).map_values(|p: (authorized_request_context::ContextView, u64)| p.1));
}

} // verus!
