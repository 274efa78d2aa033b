//! How far apart the requests of each context are.

use crate::clock;
use crate::clock::Instant;
use crate::datastore::sdk_key_store;
use crate::keyed_store;
use crate::keyed_store::KeyedStore;
use crate::observers;
use crate::observers::{EventStat, OperationType, ProxyEvent, ProxyEventType};
use crate::servers::authorized_request_context;
use crate::servers::authorized_request_context::AuthorizedRequestContext;
use std::sync::Arc;
use vstd::prelude::*;

verus! {

/// Remembers when the last request of each context was completed.
pub struct BackgroundRequestIntervalTracker {
    completed_at_by_context: KeyedStore<Instant>,
}

/// The time since the last request was completed, in whole milliseconds, where
/// there was one.
pub open spec fn interval_ms(
    m: Map<keyed_store::KeyView, Instant>,
    k: keyed_store::KeyView,
    completed_at: Instant,
) -> Option<i64> {
    if m.contains_key(k) {
        Some(
            clock::min(
                clock::max(completed_at@ - m[k]@, 0) / 1_000_000,
                i64::MAX as int,
            ) as i64,
        )
    } else {
        None
    }
}

/// The event with an interval.
pub open spec fn interval_event(
    c: authorized_request_context::ContextView,
    interval_ms: i64,
) -> observers::EventView {
    observers::EventView {
        stat: Some(EventStat { operation_type: OperationType::Distribution, value: interval_ms }),
        ..observers::bare_event(
            ProxyEventType::BackgroundDataProviderRequestInterval,
            Some(c),
        )
    }
}

impl BackgroundRequestIntervalTracker {
    pub closed spec fn wf(&self) -> bool {
        self.completed_at_by_context.wf()
    }

    /// When the last request was completed, by the keys of the contexts.
    pub closed spec fn completed(&self) -> Map<keyed_store::KeyView, Instant> {
        self.completed_at_by_context@
    }

    pub fn new() -> (r: Self)
        ensures
            r.wf(),
            r.completed() == Map::<keyed_store::KeyView, Instant>::empty(),
    {
        BackgroundRequestIntervalTracker { completed_at_by_context: KeyedStore::new() }
    }

    pub fn record_completed_request_at(
        &mut self,
        request_context: &AuthorizedRequestContext,
        completed_at: Instant,
    ) -> (r: Option<i64>)
        requires
            old(self).wf(),
        ensures
            final(self).wf(),
            r == interval_ms(
                old(self).completed(),
                sdk_key_store::context_key(request_context@),
                completed_at,
            ),
            final(self).completed() == old(self).completed().insert(
                sdk_key_store::context_key(request_context@),
                completed_at,
            ),
    {
        let key = request_context.store_key();
        let r = match self.completed_at_by_context.get(&key) {
            Some(previous) => {
                let ms: u128 = completed_at.saturating_duration_since(previous).as_millis();
                if ms <= i64::MAX as u128 {
                    Some(ms as i64)
                } else {
                    Some(i64::MAX)
                }
            },
            None => None,
        };
        self.completed_at_by_context.insert(key, completed_at);
        r
    }

    /// The event of a request that was completed, from the second on.
    pub fn publish_completed_request_interval(
        &mut self,
        request_context: &Arc<AuthorizedRequestContext>,
        completed_at: Instant,
    ) -> (r: Option<ProxyEvent>)
        requires
            old(self).wf(),
        ensures
            final(self).wf(),
            final(self).completed() == old(self).completed().insert(
                sdk_key_store::context_key(request_context@),
                completed_at,
            ),
            (match r {
                Some(e) => Some(e@),
                None => None,
            }) == (match interval_ms(
                old(self).completed(),
                sdk_key_store::context_key(request_context@),
                completed_at,
            ) {
                Some(ms) => Some(interval_event(request_context@, ms)),
                None => None,
            }),
    {
        match self.record_completed_request_at(request_context, completed_at) {
            Some(value) => Some(
                ProxyEvent::new_with_rc(
                    ProxyEventType::BackgroundDataProviderRequestInterval,
                    request_context,
                ).with_stat(EventStat { operation_type: OperationType::Distribution, value }),
            ),
            None => None,
        }
    }
}

/// The first request has no interval, and each after it the whole milliseconds since the
/// one before.
pub proof fn law_intervals_are_the_time_between(
    m: Map<keyed_store::KeyView, Instant>,
    k: keyed_store::KeyView,
    c: authorized_request_context::ContextView,
    first: Instant,
    second: Instant,
)
    requires
        0 <= second@ - first@ <= clock::LONGEST,
        (second@ - first@) / 1_000_000 <= i64::MAX,
    ensures
        !m.contains_key(k) ==> interval_ms(m, k, first) is None,
        ({
            let ms = interval_ms(m.insert(k, first), k, second);
            &&& ms is Some
            &&& (ms->0) * 1_000_000 <= second@ - first@ < (ms->0 + 1) * 1_000_000
            &&& interval_event(c, ms->0).stat == Some(
                EventStat { operation_type: OperationType::Distribution, value: ms->0 },
            )
            &&& interval_event(c, ms->0).event_type
                == ProxyEventType::BackgroundDataProviderRequestInterval
            &&& interval_event(c, ms->0).context == Some(c)
        }),
{
}

} // verus!
