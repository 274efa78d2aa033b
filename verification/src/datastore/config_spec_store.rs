//! The config specs that were fetched last.

use crate::datastore::data_providers::http_data_provider::ResponsePayload;
use crate::datastore::data_providers::{
    DataProviderRequestResult, FullRequestContext, ResponseContext,
};
use crate::datastore::sdk_key_store;
use crate::datastore::sdk_key_store::SdkKeyStore;
use crate::keyed_store;
use crate::keyed_store::{KeyedStore, StoreKey};
use crate::observers;
use crate::observers::{EventStat, OperationType, ProxyEvent, ProxyEventType};
use crate::servers::authorized_request_context;
use crate::servers::authorized_request_context::{
    AuthorizedRequestContext, AuthorizedRequestContextCache,
};
use crate::utils::compress_encoder::CompressionEncoder;
use std::sync::Arc;
use vstd::prelude::*;

verus! {

/// The specs of one company, and when they were last changed.
#[derive(Debug)]
pub struct ConfigSpecForCompany {
    pub lcut: u64,
    pub config: Arc<ResponsePayload>,
}

/// A stored record and the context it was stored for.
struct Record {
    context: Arc<AuthorizedRequestContext>,
    spec: Arc<ConfigSpecForCompany>,
}

/// Whether a response is stored over what there is: where there is nothing yet,
/// or where it is newer.
pub open spec fn is_stored(
    m: Map<keyed_store::KeyView, ConfigSpecForCompany>,
    k: keyed_store::KeyView,
    result: DataProviderRequestResult,
    lcut: u64,
) -> bool {
    &&& result == DataProviderRequestResult::Error || result
        == DataProviderRequestResult::DataAvailable
    &&& !m.contains_key(k) || m[k].lcut < lcut
}

/// What a response makes of the stored specs.
pub open spec fn stored_after(
    m: Map<keyed_store::KeyView, ConfigSpecForCompany>,
    k: keyed_store::KeyView,
    r: ResponseContext,
) -> Map<keyed_store::KeyView, ConfigSpecForCompany> {
    if is_stored(m, k, r.result_type, r.lcut) {
        m.insert(k, ConfigSpecForCompany { lcut: r.lcut, config: r.body })
    } else if r.result_type == DataProviderRequestResult::Unauthorized {
        m.remove(k)
    } else {
        m
    }
}

/// What a response makes of the contexts of the stored specs. The context that specs
/// were first stored with stays.
pub open spec fn contexts_after(
    contexts: Map<keyed_store::KeyView, authorized_request_context::ContextView>,
    m: Map<keyed_store::KeyView, ConfigSpecForCompany>,
    c: authorized_request_context::ContextView,
    r: ResponseContext,
) -> Map<keyed_store::KeyView, authorized_request_context::ContextView> {
    let k = sdk_key_store::context_key(c);
    if is_stored(m, k, r.result_type, r.lcut) {
        if contexts.contains_key(k) {
            contexts
        } else {
            contexts.insert(k, c)
        }
    } else if r.result_type == DataProviderRequestResult::Unauthorized {
        contexts.remove(k)
    } else {
        contexts
    }
}

/// Whether an update tells how long a change took to get here: only where it
/// replaces older specs, and was asked for from a given time on. The age of a
/// first or full fetch says nothing of the delay.
pub open spec fn tells_delay(
    m: Map<keyed_store::KeyView, ConfigSpecForCompany>,
    k: keyed_store::KeyView,
    r: ResponseContext,
) -> bool {
    m.contains_key(k) && is_stored(m, k, r.result_type, r.lcut) && r.request_since_time > 0
}

/// The milliseconds from a change to now. The time of the change is read as a
/// signed number.
pub open spec fn delay_ms(lcut: u64, now_ms: i64) -> int {
    if lcut <= i64::MAX {
        now_ms - lcut
    } else {
        now_ms - (lcut - 0x1_0000_0000_0000_0000)
    }
}

/// Whether a delay can be told in a statistic.
pub open spec fn is_tellable(lcut: u64, now_ms: i64) -> bool {
    i64::MIN <= delay_ms(lcut, now_ms) <= i64::MAX
}

/// How long a change took to get here, where that can be told.
pub fn propagation_delay(lcut: u64, now_ms: i64) -> (r: Option<i64>)
    ensures
        match r {
            Some(delay) => delay == delay_ms(lcut, now_ms),
            None => !is_tellable(lcut, now_ms),
        },
{
    let changed_at: i64 = if lcut <= i64::MAX as u64 {
        lcut as i64
    } else {
        -1 - (u64::MAX - lcut) as i64
    };
    now_ms.checked_sub(changed_at)
}

/// The event with the delay of a change.
pub open spec fn delay_event(
    c: authorized_request_context::ContextView,
    lcut: u64,
    now_ms: i64,
) -> observers::EventView {
    observers::EventView {
        lcut: Some(lcut),
        stat: Some(
            EventStat {
                operation_type: OperationType::Distribution,
                value: delay_ms(lcut, now_ms) as i64,
            },
        ),
        ..observers::bare_event(
            ProxyEventType::UpdateConfigSpecStorePropagationDelayMs,
            Some(c),
        )
    }
}

/// The body of an answer without news.
pub open spec fn no_update_bytes() -> Seq<u8> {
    seq![
        0x7bu8,
        0x22,
        0x68,
        0x61,
        0x73,
        0x5f,
        0x75,
        0x70,
        0x64,
        0x61,
        0x74,
        0x65,
        0x73,
        0x22,
        0x3a,
        0x66,
        0x61,
        0x6c,
        0x73,
        0x65,
        0x7d,
    ]
}

/// The body of an answer without news.
pub fn no_update_json() -> (r: Vec<u8>)
    ensures
        r@ == no_update_bytes(),
{
    let data: Vec<u8> = vec![
        0x7bu8,
        0x22,
        0x68,
        0x61,
        0x73,
        0x5f,
        0x75,
        0x70,
        0x64,
        0x61,
        0x74,
        0x65,
        0x73,
        0x22,
        0x3a,
        0x66,
        0x61,
        0x6c,
        0x73,
        0x65,
        0x7d,
    ];
    assert(data@ =~= no_update_bytes());
    data
}

/// What a reader is given: the specs, or word that there are none newer.
pub struct ServedConfigSpec {
    pub spec: Arc<ConfigSpecForCompany>,
    pub has_updates: bool,
}

/// The stored specs.
pub struct ConfigSpecStore {
    store: KeyedStore<Record>,
    no_update_config: Arc<ResponsePayload>,
}

impl ConfigSpecStore {
    /// Every record is stored under the key of its context, and the payload
    /// without news is plain.
    pub closed spec fn wf(&self) -> bool {
        &&& self.store.wf()
        &&& forall|k: keyed_store::KeyView| #[trigger]
            self.store@.contains_key(k) ==> sdk_key_store::context_key(self.store@[k].context@) == k
        &&& self.no_update_config.data@ == no_update_bytes()
        &&& self.no_update_config.encoding == CompressionEncoder::PlainText
        &&& !self.no_update_config.use_proto
    }

    /// The stored specs by the keys of their contexts.
    pub closed spec fn specs(&self) -> Map<keyed_store::KeyView, ConfigSpecForCompany> {
        self.store@.map_values(|r: Record| *r.spec)
    }

    /// The contexts of the stored specs by their keys.
    pub closed spec fn contexts(&self) -> Map<
        keyed_store::KeyView,
        authorized_request_context::ContextView,
    > {
        self.store@.map_values(|r: Record| r.context@)
    }

    /// The payload that tells there is nothing newer.
    pub closed spec fn no_update(&self) -> Arc<ResponsePayload> {
        self.no_update_config
    }

    /// The payload that tells there is nothing newer.
    pub fn no_update_payload(&self) -> (r: Arc<ResponsePayload>)
        requires
            self.wf(),
        ensures
            r == self.no_update(),
            r@.data == no_update_bytes(),
            r@.encoding == CompressionEncoder::PlainText,
            !r@.use_proto,
    {
        keyed_store::share(&self.no_update_config)
    }

    pub fn new() -> (r: Self)
        ensures
            r.wf(),
            r.specs() == Map::<keyed_store::KeyView, ConfigSpecForCompany>::empty(),
            r.contexts() == Map::<
                keyed_store::KeyView,
                authorized_request_context::ContextView,
            >::empty(),
            r.no_update()@.data == no_update_bytes(),
    {
        let data = no_update_json();
        let r = ConfigSpecStore {
            store: KeyedStore::new(),
            no_update_config: Arc::new(
                ResponsePayload {
                    use_proto: false,
                    encoding: CompressionEncoder::PlainText,
                    data,
                },
            ),
        };
        assert(r.specs() =~= Map::<keyed_store::KeyView, ConfigSpecForCompany>::empty());
        assert(r.contexts() =~= Map::<
            keyed_store::KeyView,
            authorized_request_context::ContextView,
        >::empty());
        r
    }

    /// Whether a response will tell how long a change took to get here.
    pub fn will_tell_delay(
        &self,
        request_context: &FullRequestContext,
        response_context: &ResponseContext,
    ) -> (r: bool)
        requires
            self.wf(),
        ensures
            r == tells_delay(
                self.specs(),
                sdk_key_store::context_key(request_context.authorized_request_context@),
                *response_context,
            ),
    {
        let carries = match response_context.result_type {
            DataProviderRequestResult::Error | DataProviderRequestResult::DataAvailable => true,
            _ => false,
        };
        if !carries || response_context.request_since_time == 0 {
            return false;
        }
        match self.store.get(&request_context.authorized_request_context.store_key()) {
            Some(record) => response_context.lcut > record.spec.lcut,
            None => false,
        }
    }

    /// Takes a response at the time `now_ms`, in milliseconds.
    pub fn update(
        &mut self,
        request_context: &FullRequestContext,
        response_context: &ResponseContext,
        now_ms: i64,
    ) -> (r: Option<ProxyEvent>)
        requires
            old(self).wf(),
            tells_delay(
                old(self).specs(),
                sdk_key_store::context_key(request_context.authorized_request_context@),
                *response_context,
            ) ==> is_tellable(response_context.lcut, now_ms),
        ensures
            final(self).wf(),
            final(self).no_update() == old(self).no_update(),
            final(self).specs() == stored_after(
                old(self).specs(),
                sdk_key_store::context_key(request_context.authorized_request_context@),
                *response_context,
            ),
            final(self).contexts() == contexts_after(
                old(self).contexts(),
                old(self).specs(),
                request_context.authorized_request_context@,
                *response_context,
            ),
            match r {
                Some(e) => tells_delay(
                    old(self).specs(),
                    sdk_key_store::context_key(request_context.authorized_request_context@),
                    *response_context,
                ) && e@ == delay_event(
                    request_context.authorized_request_context@,
                    response_context.lcut,
                    now_ms,
                ),
                None => !tells_delay(
                    old(self).specs(),
                    sdk_key_store::context_key(request_context.authorized_request_context@),
                    *response_context,
                ),
            },
    {
        let ghost before = *self;
        let context = &request_context.authorized_request_context;
        let key = context.store_key();
        let ghost k = key@;
        match response_context.result_type {
            DataProviderRequestResult::Error | DataProviderRequestResult::DataAvailable => {
                let spec = Arc::new(
                    ConfigSpecForCompany {
                        lcut: response_context.lcut,
                        config: keyed_store::share(&response_context.body),
                    },
                );
                let (stored_context, replaces) = match self.store.get(&key) {
                    Some(record) => {
                        if response_context.lcut <= record.spec.lcut {
                            return None;
                        }
                        (keyed_store::share(&record.context), true)
                    },
                    None => (keyed_store::share(context), false),
                };
                self.store.insert(key, Record { context: stored_context, spec });
                assert(self.specs() =~= stored_after(before.specs(), k, *response_context));
                assert(self.contexts() =~= contexts_after(
                    before.contexts(),
                    before.specs(),
                    context@,
                    *response_context,
                ));
                if replaces && response_context.request_since_time > 0 {
                    let value: i64 = propagation_delay(response_context.lcut, now_ms).unwrap();
                    let event = ProxyEvent::new_with_rc(
                        ProxyEventType::UpdateConfigSpecStorePropagationDelayMs,
                        context,
                    ).with_lcut(response_context.lcut).with_stat(
                        EventStat { operation_type: OperationType::Distribution, value },
                    );
                    return Some(event);
                }
                None
            },
            DataProviderRequestResult::Unauthorized => {
                let _ = self.store.remove(&key);
                assert(self.specs() =~= stored_after(before.specs(), k, *response_context));
                assert(self.contexts() =~= contexts_after(
                    before.contexts(),
                    before.specs(),
                    context@,
                    *response_context,
                ));
                None
            },
            _ => None,
        }
    }

    /// The stored specs of a context.
    pub fn get(&self, request_context: &AuthorizedRequestContext) -> (r: Option<
        Arc<ConfigSpecForCompany>,
    >)
        requires
            self.wf(),
        ensures
            match r {
                Some(spec) => self.specs().contains_key(
                    sdk_key_store::context_key(request_context@),
                ) && *spec == self.specs()[sdk_key_store::context_key(request_context@)],
                None => !self.specs().contains_key(sdk_key_store::context_key(request_context@)),
            },
    {
        match self.store.get(&request_context.store_key()) {
            Some(record) => Some(keyed_store::share(&record.spec)),
            None => None,
        }
    }

    /// Whether specs must be fetched before they can be read.
    pub fn needs_fetch(sdk_keys: &SdkKeyStore, request_context: &AuthorizedRequestContext) -> (r:
        bool)
        requires
            sdk_keys.wf(),
        ensures
            r == !sdk_keys.lcuts().contains_key(sdk_key_store::context_key(request_context@)),
    {
        !sdk_keys.has_key(request_context)
    }

    /// What a reader who has seen everything up to `since_time` is given, once
    /// the specs have been fetched where they were missing: nothing where there
    /// still are none, since the key is refused then.
    pub fn get_config_spec(
        &self,
        request_context: &AuthorizedRequestContext,
        since_time: u64,
    ) -> (r: Option<ServedConfigSpec>)
        requires
            self.wf(),
        ensures
            ({
                let k = sdk_key_store::context_key(request_context@);
                match r {
                    Some(served) => {
                        &&& self.specs().contains_key(k)
                        &&& served.has_updates == (self.specs()[k].lcut > since_time)
                        &&& served.spec.lcut == self.specs()[k].lcut
                        &&& served.spec.config == (if served.has_updates {
                            self.specs()[k].config
                        } else {
                            self.no_update()
                        })
                        &&& (*served.spec, served.has_updates) == served_spec(
                            self.specs()[k],
                            self.no_update(),
                            since_time,
                        )
                        &&& since_time < self.specs()[k].lcut ==> served.spec.config.data@
                            == self.specs()[k].config.data@
                        &&& since_time >= self.specs()[k].lcut ==> served.spec.config.data@
                            == no_update_bytes()
                    },
                    None => !self.specs().contains_key(k),
                }
            }),
    {
        match self.store.get(&request_context.store_key()) {
            Some(record) => {
                let lcut: u64 = record.spec.lcut;
                if lcut > since_time {
                    Some(
                        ServedConfigSpec {
                            spec: keyed_store::share(&record.spec),
                            has_updates: true,
                        },
                    )
                } else {
                    Some(
                        ServedConfigSpec {
                            spec: Arc::new(
                                ConfigSpecForCompany {
                                    lcut,
                                    config: keyed_store::share(&self.no_update_config),
                                },
                            ),
                            has_updates: false,
                        },
                    )
                }
            },
            None => None,
        }
    }
}

/// A stored spec never goes back while it stays stored, and a response touches
/// its own context only.
pub proof fn law_stored_specs_only_move_forward(
    m: Map<keyed_store::KeyView, ConfigSpecForCompany>,
    k: keyed_store::KeyView,
    r: ResponseContext,
    other: keyed_store::KeyView,
)
    requires
        m.contains_key(other),
        stored_after(m, k, r).contains_key(other),
    ensures
        stored_after(m, k, r)[other].lcut >= m[other].lcut,
        other != k ==> stored_after(m, k, r)[other] == m[other],
{
}

/// A response that is stored is what a reader of its context is given, unless
/// the reader has seen it already.
pub proof fn law_readers_get_what_was_stored(
    m: Map<keyed_store::KeyView, ConfigSpecForCompany>,
    k: keyed_store::KeyView,
    r: ResponseContext,
)
    requires
        r.result_type == DataProviderRequestResult::DataAvailable,
        !m.contains_key(k) || m[k].lcut < r.lcut,
    ensures
        stored_after(m, k, r).contains_key(k),
        stored_after(m, k, r)[k] == (ConfigSpecForCompany { lcut: r.lcut, config: r.body }),
{
}

/// After a refusal there is nothing to give.
pub proof fn law_refused_specs_are_gone(
    m: Map<keyed_store::KeyView, ConfigSpecForCompany>,
    k: keyed_store::KeyView,
    r: ResponseContext,
)
    requires
        r.result_type == DataProviderRequestResult::Unauthorized,
    ensures
        !stored_after(m, k, r).contains_key(k),
{
}

/// Whether two contexts are of one key and endpoint.
pub open spec fn same_group(
    a: authorized_request_context::ContextView,
    b: authorized_request_context::ContextView,
) -> bool {
    a.sdk_key == b.sdk_key && a.path == b.path
}

/// The event with the oldest specs that are served for a key and an endpoint.
pub open spec fn current_lcut_event(
    c: authorized_request_context::ContextView,
    lcut: u64,
) -> observers::EventView {
    observers::EventView {
        stat: Some(
            EventStat {
                operation_type: OperationType::Gauge,
                value: if lcut <= i64::MAX {
                    lcut as i64
                } else {
                    i64::MAX
                },
            },
        ),
        ..observers::bare_event(ProxyEventType::ConfigSpecCurrentLcut, Some(c))
    }
}

/// One key and endpoint, and the oldest specs of it so far.
struct Group {
    context: Arc<AuthorizedRequestContext>,
    lcut: u64,
}

impl ConfigSpecStore {
    /// Whether `lcut` is the time of the oldest specs of a key and an endpoint.
    pub open spec fn is_least(
        &self,
        c: authorized_request_context::ContextView,
        lcut: u64,
    ) -> bool {
        &&& exists|k: keyed_store::KeyView| #[trigger]
            self.specs().contains_key(k) && same_group(self.contexts()[k], c)
                && self.specs()[k].lcut == lcut
        &&& forall|k: keyed_store::KeyView| #[trigger]
            self.specs().contains_key(k) && same_group(self.contexts()[k], c)
                ==> self.specs()[k].lcut >= lcut
    }

    fn find_group(groups: &Vec<Group>, context: &AuthorizedRequestContext) -> (r: Option<usize>)
        ensures
            match r {
                Some(j) => j < groups@.len() && same_group(groups@[j as int].context@, context@),
                None => forall|j: int|
                    0 <= j < groups@.len() ==> !same_group(
                        (#[trigger] groups@[j]).context@,
                        context@,
                    ),
            },
    {
        let mut j: usize = 0;
        while j < groups.len()
            invariant
                j <= groups@.len(),
                forall|i: int|
                    0 <= i < j ==> !same_group((#[trigger] groups@[i]).context@, context@),
            decreases groups@.len() - j,
        {
            if groups[j].context.sdk_key == context.sdk_key && groups[j].context.path
                == context.path {
                return Some(j);
            }
            j += 1;
        }
        None
    }

    /// The groups of some entries, each with its least time. `from` names an
    /// entry that each group has its time from, and `group` the group of each
    /// entry.
    fn minima(entries: &Vec<Group>) -> (r: (Vec<Group>, Ghost<Seq<int>>, Ghost<Seq<int>>))
        ensures
            ({
                let (groups, from, group) = (r.0@, r.1@, r.2@);
                &&& from.len() == groups.len()
                &&& group.len() == entries@.len()
                &&& forall|j: int|
                    #![trigger groups[j]]
                    #![trigger from[j]]
                    0 <= j < groups.len() ==> {
                        &&& 0 <= from[j] < entries@.len()
                        &&& same_group(entries@[from[j]].context@, groups[j].context@)
                        &&& entries@[from[j]].lcut == groups[j].lcut
                    }
                &&& forall|h: int|
                    #![trigger group[h]]
                    0 <= h < entries@.len() ==> {
                        &&& 0 <= group[h] < groups.len()
                        &&& same_group(groups[group[h]].context@, entries@[h].context@)
                        &&& groups[group[h]].lcut <= entries@[h].lcut
                    }
                &&& forall|a: int, b: int|
                    0 <= a < b < groups.len() ==> !same_group(
                        (#[trigger] groups[a]).context@,
                        (#[trigger] groups[b]).context@,
                    )
            }),
    {
        let mut groups: Vec<Group> = Vec::new();
        let ghost mut from: Seq<int> = Seq::empty();
        let ghost mut group: Seq<int> = Seq::empty();
        let mut i: usize = 0;
        while i < entries.len()
            invariant
                i <= entries@.len(),
                from.len() == groups@.len(),
                group.len() == i,
                forall|j: int|
                    #![trigger groups@[j]]
                    #![trigger from[j]]
                    0 <= j < groups@.len() ==> {
                        &&& 0 <= from[j] < i
                        &&& same_group(entries@[from[j]].context@, groups@[j].context@)
                        &&& entries@[from[j]].lcut == groups@[j].lcut
                    },
                forall|h: int|
                    #![trigger group[h]]
                    0 <= h < i ==> {
                        &&& 0 <= group[h] < groups@.len()
                        &&& same_group(groups@[group[h]].context@, entries@[h].context@)
                        &&& groups@[group[h]].lcut <= entries@[h].lcut
                    },
                forall|a: int, b: int|
                    0 <= a < b < groups@.len() ==> !same_group(
                        (#[trigger] groups@[a]).context@,
                        (#[trigger] groups@[b]).context@,
                    ),
            decreases entries@.len() - i,
        {
            let lcut: u64 = entries[i].lcut;
            match Self::find_group(&groups, &entries[i].context) {
                Some(j) => {
                    proof {
                        group = group.push(j as int);
                    }
                    if lcut < groups[j].lcut {
                        let context = keyed_store::share(&groups[j].context);
                        groups.set(j, Group { context, lcut });
                        proof {
                            from = from.update(j as int, i as int);
                        }
                    }
                },
                None => {
                    groups.push(
                        Group { context: keyed_store::share(&entries[i].context), lcut },
                    );
                    proof {
                        group = group.push(groups@.len() - 1);
                        from = from.push(i as int);
                    }
                },
            }
            i += 1;
        }
        (groups, Ghost(from), Ghost(group))
    }

    /// The contexts and times of all stored specs, each once.
    fn entries(&self) -> (r: (Vec<Group>, Ghost<Seq<keyed_store::KeyView>>))
        requires
            self.wf(),
        ensures
            r.1@.len() == r.0@.len(),
            forall|j: int|
                #![trigger r.0@[j]]
                #![trigger r.1@[j]]
                0 <= j < r.0@.len() ==> {
                    &&& self.specs().contains_key(r.1@[j])
                    &&& self.contexts()[r.1@[j]] == r.0@[j].context@
                    &&& self.specs()[r.1@[j]].lcut == r.0@[j].lcut
                },
            forall|k: keyed_store::KeyView| #[trigger]
                self.specs().contains_key(k) ==> r.1@.contains(k),
    {
        let keys = self.store.keys();
        let ghost views = Seq::new(keys@.len(), |j: int| keys@[j]@);
        let mut r: Vec<Group> = Vec::new();
        let mut i: usize = 0;
        while i < keys.len()
            invariant
                self.wf(),
                i <= keys@.len(),
                r@.len() == i,
                views == Seq::new(keys@.len(), |j: int| keys@[j]@),
                forall|j: int|
                    0 <= j < keys@.len() ==> self.store@.contains_key((#[trigger] keys@[j])@),
                forall|j: int|
                    #![trigger r@[j]]
                    #![trigger views[j]]
                    0 <= j < i ==> {
                        &&& self.specs().contains_key(views[j])
                        &&& self.contexts()[views[j]] == r@[j].context@
                        &&& self.specs()[views[j]].lcut == r@[j].lcut
                    },
            decreases keys@.len() - i,
        {
            assert(self.store@.contains_key(keys@[i as int]@));
            if let Some(record) = self.store.get(&keys[i]) {
                r.push(
                    Group {
                        context: keyed_store::share(&record.context),
                        lcut: record.spec.lcut,
                    },
                );
            }
            i += 1;
        }
        assert forall|k: keyed_store::KeyView| #[trigger]
            self.specs().contains_key(k) implies views.contains(k) by {
            assert(self.store@.contains_key(k));
            let j = choose|j: int| 0 <= j < keys@.len() && #[trigger] keys@[j]@ == k;
            assert(views[j] == k);
        }
        (r, Ghost(views))
    }

    /// One event for each key and endpoint with stored specs, with the time of
    /// the oldest of them.
    pub fn current_lcut_events(&self) -> (r: Vec<ProxyEvent>)
        requires
            self.wf(),
        ensures
            forall|j: int|
                0 <= j < r@.len() ==> exists|m: u64|
                    (#[trigger] r@[j])@ == current_lcut_event(r@[j]@.context->0, m)
                        && #[trigger] self.is_least(r@[j]@.context->0, m),
            forall|k: keyed_store::KeyView| #[trigger]
                self.specs().contains_key(k) ==> exists|j: int|
                    0 <= j < r@.len() && same_group(
                        (#[trigger] r@[j])@.context->0,
                        self.contexts()[k],
                    ),
            forall|i: int, j: int|
                0 <= i < j < r@.len() ==> !same_group(
                    (#[trigger] r@[i])@.context->0,
                    (#[trigger] r@[j])@.context->0,
                ),
    {
        let (entries, Ghost(keys)) = self.entries();
        let (groups, Ghost(from), Ghost(group)) = Self::minima(&entries);
        let mut r: Vec<ProxyEvent> = Vec::new();
        let mut g: usize = 0;
        while g < groups.len()
            invariant
                g <= groups@.len(),
                r@.len() == g,
                forall|j: int|
                    0 <= j < g ==> (#[trigger] r@[j])@ == current_lcut_event(
                        groups@[j].context@,
                        groups@[j].lcut,
                    ),
            decreases groups@.len() - g,
        {
            let lcut: u64 = groups[g].lcut;
            let value: i64 = if lcut <= i64::MAX as u64 {
                lcut as i64
            } else {
                i64::MAX
            };
            r.push(
                ProxyEvent::new_with_rc(
                    ProxyEventType::ConfigSpecCurrentLcut,
                    &groups[g].context,
                ).with_stat(EventStat { operation_type: OperationType::Gauge, value }),
            );
            g += 1;
        }
        proof {
            assert forall|j: int| 0 <= j < r@.len() implies exists|m: u64|
                (#[trigger] r@[j])@ == current_lcut_event(r@[j]@.context->0, m)
                    && #[trigger] self.is_least(r@[j]@.context->0, m) by {
                let c = groups@[j].context@;
                let m = groups@[j].lcut;
                assert(self.specs().contains_key(keys[from[j]]));
                assert forall|k: keyed_store::KeyView| #[trigger]
                    self.specs().contains_key(k) && same_group(
                        self.contexts()[k],
                        c,
                    ) implies self.specs()[k].lcut >= m by {
                    let h = choose|h: int| 0 <= h < keys.len() && keys[h] == k;
                    assert(entries@[h].context@ == self.contexts()[k]);
                    let t = group[h];
                    if t < j {
                        assert(!same_group(groups@[t].context@, groups@[j].context@));
                    } else if j < t {
                        assert(!same_group(groups@[j].context@, groups@[t].context@));
                    }
                }
                assert(same_group(self.contexts()[keys[from[j]]], c));
                assert(r@[j]@ == current_lcut_event(c, m));
                assert(self.is_least(r@[j]@.context->0, m));
            }
            assert forall|k: keyed_store::KeyView| #[trigger]
                self.specs().contains_key(k) implies exists|j: int|
                0 <= j < r@.len() && same_group(
                    (#[trigger] r@[j])@.context->0,
                    self.contexts()[k],
                ) by {
                let h = choose|h: int| 0 <= h < keys.len() && keys[h] == k;
                assert(entries@[h].context@ == self.contexts()[k]);
                let t = group[h];
                assert(same_group(r@[t]@.context->0, self.contexts()[k]));
            }
            assert forall|x: int, y: int| 0 <= x < y < r@.len() implies !same_group(
                (#[trigger] r@[x])@.context->0,
                (#[trigger] r@[y])@.context->0,
            ) by {
                assert(!same_group(groups@[x].context@, groups@[y].context@));
            }
        }
        r
    }
}

/// The context with which specs are fetched as JSON in the shadow of a binary
/// request.
pub fn shadow_request_context(
    cache: &mut AuthorizedRequestContextCache,
    rc: &AuthorizedRequestContext,
) -> (r: Arc<AuthorizedRequestContext>)
    requires
        old(cache).wf(),
    ensures
        final(cache).wf(),
        r@ == authorized_request_context::cached_context(
            rc@.sdk_key,
            rc@.path,
            seq![CompressionEncoder::Gzip],
            false,
            false,
            None,
        ),
        final(cache).shared() == authorized_request_context::shared_after(old(cache).shared(), r),
        final(cache).shared()[authorized_request_context::identity_key(r@.identity())] == r,
{
    let mut encodings: Vec<CompressionEncoder> = Vec::new();
    encodings.push(CompressionEncoder::Gzip);
    assert(encodings@ =~= seq![CompressionEncoder::Gzip]);
    cache.get_or_insert(rc.sdk_key.clone(), rc.path.clone(), encodings, false, false, None)
}

/// What a response changes. Data, and what stands in for it after an error, is stored where
/// it is the first or newer. A refusal takes out what is stored. Nothing else changes
/// anything, and no other request is ever touched.
pub proof fn law_responses_change_their_own_specs(
    m: Map<keyed_store::KeyView, ConfigSpecForCompany>,
    k: keyed_store::KeyView,
    r: ResponseContext,
    other: keyed_store::KeyView,
)
    ensures
        ({
            let after = stored_after(m, k, r);
            let brings = r.result_type == DataProviderRequestResult::DataAvailable || r.result_type
                == DataProviderRequestResult::Error;
            &&& brings ==> after.contains_key(k)
            &&& brings && m.contains_key(k) && m[k].lcut >= r.lcut ==> after == m
            &&& brings && (!m.contains_key(k) || m[k].lcut < r.lcut) ==> after[k].lcut == r.lcut
                && after[k].config == r.body
            &&& r.result_type == DataProviderRequestResult::Unauthorized ==> !after.contains_key(k)
            &&& r.result_type == DataProviderRequestResult::NoDataAvailable || r.result_type
                == DataProviderRequestResult::ClientError ==> after == m
            &&& other != k ==> (after.contains_key(other) <==> m.contains_key(other)) && (
            m.contains_key(other) ==> after[other] == m[other])
        }),
{
}

/// Each stored spec has the context of the first request that brought it.
pub proof fn law_contexts_stay_with_their_specs(
    contexts: Map<keyed_store::KeyView, authorized_request_context::ContextView>,
    m: Map<keyed_store::KeyView, ConfigSpecForCompany>,
    c: authorized_request_context::ContextView,
    r: ResponseContext,
    k: keyed_store::KeyView,
)
    requires
        contexts.dom() == m.dom(),
    ensures
        contexts_after(contexts, m, c, r).dom() == stored_after(
            m,
            sdk_key_store::context_key(c),
            r,
        ).dom(),
        contexts_after(contexts, m, c, r).contains_key(k) ==> contexts_after(contexts, m, c, r)[k]
            == (if contexts.contains_key(k) {
            contexts[k]
        } else {
            c
        }),
{
    let key = sdk_key_store::context_key(c);
    assert(contexts.contains_key(key) == contexts.dom().contains(key));
    assert(m.contains_key(key) == m.dom().contains(key));
    assert(contexts_after(contexts, m, c, r).dom() =~= stored_after(m, key, r).dom());
}

/// How late an update came is told exactly where it replaces an older one for a client that
/// has had one, and is the time from the update to the clock.
pub proof fn law_delays_are_told_of_replaced_specs(
    m: Map<keyed_store::KeyView, ConfigSpecForCompany>,
    k: keyed_store::KeyView,
    r: ResponseContext,
    c: authorized_request_context::ContextView,
    now_ms: i64,
)
    ensures
        tells_delay(m, k, r) <==> m.contains_key(k) && stored_after(m, k, r).contains_key(k)
            && stored_after(m, k, r)[k].lcut > m[k].lcut && r.request_since_time > 0,
        r.lcut <= i64::MAX ==> delay_ms(r.lcut, now_ms) + r.lcut == now_ms,
        r.lcut <= i64::MAX && is_tellable(r.lcut, now_ms) ==> {
            &&& delay_event(c, r.lcut, now_ms).stat matches Some(stat)
            &&& stat.value + r.lcut == now_ms
            &&& stat.operation_type == OperationType::Distribution
            &&& delay_event(c, r.lcut, now_ms).lcut == Some(r.lcut)
            &&& delay_event(c, r.lcut, now_ms).context == Some(c)
            &&& delay_event(c, r.lcut, now_ms).event_type
                == ProxyEventType::UpdateConfigSpecStorePropagationDelayMs
        },
        now_ms >= 0 && r.lcut <= i64::MAX ==> is_tellable(r.lcut, now_ms),
{
}

/// The word that nothing is new is the text of that JSON.
pub proof fn law_no_updates_are_said_in_json()
    ensures
        no_update_bytes() == vstd::utf8::encode_utf8("{\"has_updates\":false}"@),
{
    reveal_strlit("{\"has_updates\":false}");
    let t = "{\"has_updates\":false}"@;
    assert(vstd::utf8::is_ascii_chars(t));
    vstd::utf8::is_ascii_chars_encode_utf8(t);
    let b = no_update_bytes();
    assert forall|i: int| 0 <= i < 21 implies b[i] == t[i] as u8 by {}
    assert(b =~= vstd::utf8::encode_utf8(t));
}

/// The time that a key's specs have is told as it is, of the context and as a level.
pub proof fn law_current_times_are_told(c: authorized_request_context::ContextView, lcut: u64)
    ensures
        ({
            let e = current_lcut_event(c, lcut);
            &&& e.event_type == ProxyEventType::ConfigSpecCurrentLcut
            &&& e.context == Some(c)
            &&& e.stat matches Some(stat)
            &&& stat.operation_type == OperationType::Gauge
            &&& lcut <= i64::MAX ==> stat.value == lcut
            &&& lcut > i64::MAX ==> stat.value == i64::MAX
        }),
{
}

/// What a reader is given of a stored spec, and whether it is news to it.
pub open spec fn served_spec(
    stored: ConfigSpecForCompany,
    no_update: Arc<ResponsePayload>,
    since_time: u64,
) -> (ConfigSpecForCompany, bool) {
    if stored.lcut > since_time {
        (stored, true)
    } else {
        (ConfigSpecForCompany { lcut: stored.lcut, config: no_update }, false)
    }
}

/// A reader is given what is stored exactly where that is later than what it has, and told
/// that nothing is new where it is not. Either way it is told the time of what is stored. A
/// reader that has seen it once is not given it again, and one that is behind another is
/// given at least what that one is.
pub proof fn law_readers_are_given_what_they_lack(
    stored: ConfigSpecForCompany,
    no_update: Arc<ResponsePayload>,
    since_time: u64,
    earlier: u64,
)
    ensures
        served_spec(stored, no_update, since_time).0.lcut == stored.lcut,
        served_spec(stored, no_update, since_time).1 <==> since_time < stored.lcut,
        since_time < stored.lcut ==> served_spec(stored, no_update, since_time).0.config
            == stored.config,
        since_time >= stored.lcut ==> served_spec(stored, no_update, since_time).0.config
            == no_update,
        !served_spec(stored, no_update, stored.lcut).1,
        earlier <= since_time && served_spec(stored, no_update, since_time).1 ==> served_spec(
            stored,
            no_update,
            earlier,
        ) == served_spec(stored, no_update, since_time),
{
}

} // verus!
