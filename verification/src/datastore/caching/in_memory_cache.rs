//! A cache in memory for a limited number of keys.

use crate::datastore::config_spec_store::ConfigSpecForCompany;
use crate::datastore::data_providers::http_data_provider::ResponsePayload;
use crate::datastore::data_providers::DataProviderRequestResult;
use crate::keyed_store;
use crate::lru_store;
use crate::lru_store::LruStore;
use crate::observers;
use crate::observers::{ProxyEvent, ProxyEventType};
use crate::servers::authorized_request_context;
use crate::servers::authorized_request_context::AuthorizedRequestContext;
use std::sync::Arc;
use vstd::prelude::*;

verus! {

/// The config specs of contexts, by their names.
pub struct InMemoryCache {
    data: LruStore<ConfigSpecForCompany>,
}

/// The key of a context.
pub open spec fn cache_key(c: authorized_request_context::ContextView) -> lru_store::LruKey {
    (true, authorized_request_context::context_text(c))
}

/// What is kept after a response: new data takes the place of older data that is
/// kept already, and a refusal drops it.
pub open spec fn kept_after(
    s: Seq<(lru_store::LruKey, ConfigSpecForCompany)>,
    limit: int,
    c: authorized_request_context::ContextView,
    result: DataProviderRequestResult,
    spec: ConfigSpecForCompany,
) -> Seq<(lru_store::LruKey, ConfigSpecForCompany)> {
    match result {
        DataProviderRequestResult::DataAvailable => if lru_store::has_key(s, cache_key(c)) {
            lru_store::pushed(s, limit, cache_key(c), spec)
        } else {
            s
        },
        DataProviderRequestResult::Unauthorized => lru_store::popped(s, cache_key(c)),
        _ => s,
    }
}

/// The event of a response with data: whether it is newer than what was kept.
pub open spec fn write_event(
    s: Seq<(lru_store::LruKey, ConfigSpecForCompany)>,
    c: authorized_request_context::ContextView,
    lcut: u64,
) -> observers::EventView {
    let k = cache_key(c);
    observers::counted_event(
        if lru_store::has_key(s, k) && lcut <= s[lru_store::key_index(s, k)].1.lcut {
            ProxyEventType::InMemoryCacheWriteSkipped
        } else {
            ProxyEventType::InMemoryCacheWriteSucceed
        },
        c,
        None,
    )
}

impl InMemoryCache {
    pub closed spec fn wf(&self) -> bool {
        self.data.wf()
    }

    /// What is kept, the entry that was written last first.
    pub closed spec fn kept(&self) -> Seq<(lru_store::LruKey, ConfigSpecForCompany)> {
        self.data@
    }

    pub closed spec fn limit(&self) -> int {
        self.data.limit()
    }

    pub fn new(maximum_concurrent_sdk_keys: u16) -> (r: Self)
        requires
            maximum_concurrent_sdk_keys > 0,
        ensures
            r.wf(),
            r.kept() == Seq::<(lru_store::LruKey, ConfigSpecForCompany)>::empty(),
            r.limit() == maximum_concurrent_sdk_keys,
    {
        InMemoryCache { data: LruStore::new(maximum_concurrent_sdk_keys as usize) }
    }

    pub fn force_notifier_to_wait_for_update(&self) -> (r: bool)
        ensures
            !r,
    {
        false
    }

    /// Takes a response.
    pub fn update(
        &mut self,
        result: &DataProviderRequestResult,
        request_context: &Arc<AuthorizedRequestContext>,
        lcut: u64,
        data: &Arc<ResponsePayload>,
    ) -> (r: Option<ProxyEvent>)
        requires
            old(self).wf(),
        ensures
            final(self).wf(),
            final(self).limit() == old(self).limit(),
            final(self).kept() == kept_after(
                old(self).kept(),
                old(self).limit(),
                request_context@,
                *result,
                ConfigSpecForCompany { lcut, config: *data },
            ),
            match r {
                Some(e) => *result is DataAvailable && e@ == write_event(
                    old(self).kept(),
                    request_context@,
                    lcut,
                ),
                None => !(*result is DataAvailable),
            },
    {
        let storage_key = request_context.to_string();
        match result {
            DataProviderRequestResult::DataAvailable => {
                let kept: Option<u64> = match self.data.peek(Some(storage_key.as_str())) {
                    Some(record) => Some(record.lcut),
                    None => None,
                };
                match kept {
                    Some(stored) => {
                        self.data.push(
                            Some(storage_key.as_str()),
                            ConfigSpecForCompany { lcut, config: keyed_store::share(data) },
                        );
                        Some(
                            ProxyEvent::counted(
                                if lcut > stored {
                                    ProxyEventType::InMemoryCacheWriteSucceed
                                } else {
                                    ProxyEventType::InMemoryCacheWriteSkipped
                                },
                                request_context,
                                None,
                            ),
                        )
                    },
                    None => Some(
                        ProxyEvent::counted(
                            ProxyEventType::InMemoryCacheWriteSucceed,
                            request_context,
                            None,
                        ),
                    ),
                }
            },
            DataProviderRequestResult::Unauthorized => {
                self.data.pop(Some(storage_key.as_str()));
                None
            },
            _ => None,
        }
    }

    /// What is kept for a context, and the event of the read.
    pub fn get(&self, request_context: &Arc<AuthorizedRequestContext>) -> (r: (
        Option<Arc<ResponsePayload>>,
        ProxyEvent,
    ))
        requires
            self.wf(),
        ensures
            match r.0 {
                Some(config) => lru_store::has_key(self.kept(), cache_key(request_context@))
                    && config == self.kept()[lru_store::key_index(
                    self.kept(),
                    cache_key(request_context@),
                )].1.config,
                None => !lru_store::has_key(self.kept(), cache_key(request_context@)),
            },
            r.1@ == observers::counted_event(
                ProxyEventType::InMemoryCacheReadSucceed,
                request_context@,
                None,
            ),
    {
        let event = ProxyEvent::counted(
            ProxyEventType::InMemoryCacheReadSucceed,
            request_context,
            None,
        );
        let storage_key = request_context.to_string();
        let found = match self.data.peek(Some(storage_key.as_str())) {
            Some(record) => Some(keyed_store::share(&record.config)),
            None => None,
        };
        (found, event)
    }
}

/// What a result changes in memory. New data replaces what is kept for its request, and
/// starts nothing where nothing is. A refusal drops what is kept. Any other result, and any
/// other request, changes nothing.
pub proof fn law_results_change_their_own_entry(
    s: Seq<(lru_store::LruKey, ConfigSpecForCompany)>,
    limit: int,
    c: authorized_request_context::ContextView,
    result: DataProviderRequestResult,
    spec: ConfigSpecForCompany,
    e: (lru_store::LruKey, ConfigSpecForCompany),
)
    requires
        lru_store::keys_differ(s),
        s.len() <= limit,
        limit > 0,
    ensures
        ({
            let after = kept_after(s, limit, c, result, spec);
            let k = (true, authorized_request_context::context_text(c));
            &&& result == DataProviderRequestResult::DataAvailable && lru_store::has_key(s, k) ==> {
                &&& after.contains((k, spec))
                &&& e.0 == k && after.contains(e) ==> e.1 == spec
            }
            &&& result == DataProviderRequestResult::DataAvailable && !lru_store::has_key(s, k)
                ==> after == s
            &&& result == DataProviderRequestResult::Unauthorized ==> !lru_store::has_key(after, k)
            &&& result != DataProviderRequestResult::DataAvailable && result
                != DataProviderRequestResult::Unauthorized ==> after == s
            &&& e.0 != k ==> (after.contains(e) <==> s.contains(e))
            &&& lru_store::keys_differ(after)
            &&& after.len() <= limit
        }),
{
    let k = cache_key(c);
    lru_store::law_the_oldest_entry_makes_room(s, limit, k, spec, e);
    lru_store::law_the_oldest_entry_makes_room(s, limit, k, spec, (k, spec));
    lru_store::law_only_the_popped_entry_goes(s, k, e);
}

/// A write is told as skipped exactly where what is kept is not older.
pub proof fn law_skipped_writes_are_told(
    s: Seq<(lru_store::LruKey, ConfigSpecForCompany)>,
    c: authorized_request_context::ContextView,
    lcut: u64,
    i: int,
)
    requires
        lru_store::keys_differ(s),
    ensures
        0 <= i < s.len() && s[i].0 == (true, authorized_request_context::context_text(c)) ==> (
        write_event(s, c, lcut).event_type == ProxyEventType::InMemoryCacheWriteSkipped <==> lcut
            <= s[i].1.lcut),
        !lru_store::has_key(s, (true, authorized_request_context::context_text(c)))
            ==> write_event(s, c, lcut).event_type == ProxyEventType::InMemoryCacheWriteSucceed,
        write_event(s, c, lcut).event_type == ProxyEventType::InMemoryCacheWriteSkipped
            || write_event(s, c, lcut).event_type == ProxyEventType::InMemoryCacheWriteSucceed,
        write_event(s, c, lcut).context == Some(c),
{
    let k = cache_key(c);
    if 0 <= i < s.len() && s[i].0 == k {
        let n = lru_store::key_index(s, k);
        assert(0 <= n < s.len() && s[n].0 == k);
        if n < i {
            assert(s[n].0 != s[i].0);
        } else if i < n {
            assert(s[i].0 != s[n].0);
        }
    }
}

} // verus!
