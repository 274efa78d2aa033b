//! Config specs that are compressed with a dictionary: for each context, those of
//! the dictionaries that were asked for last.

use crate::datastore::config_spec_store;
use crate::datastore::data_providers::http_data_provider::ResponsePayload;
use crate::datastore::data_providers::{DataProviderRequestResult, ResponseContext};
use crate::datastore::sdk_key_store;
use crate::keyed_store;
use crate::keyed_store::KeyedStore;
use crate::lru_store;
use crate::lru_store::LruStore;
use crate::observers::{EventStat, OperationType, ProxyEvent, ProxyEventType};
use crate::servers::authorized_request_context;
use crate::servers::authorized_request_context::{
    AuthorizedRequestContext, AuthorizedRequestContextCache,
};
use crate::servers::normalized_path;
use crate::servers::normalized_path::NormalizedPath;
use crate::text;
use crate::utils::compress_encoder::CompressionEncoder;
use std::sync::Arc;
use vstd::prelude::*;

verus! {

/// Specs, and the dictionary they are compressed with.
#[derive(Debug)]
pub struct DictConfigSpec {
    pub lcut: u64,
    pub zstd_dict_id: Option<String>,
    pub config: Arc<ResponsePayload>,
}

/// The specs of one context, by the dictionaries that they were asked for with.
pub type DictEntries = Seq<(lru_store::LruKey, Arc<DictConfigSpec>)>;

/// The specs of a context that may have none.
pub open spec fn entries_of(
    m: Map<keyed_store::KeyView, DictEntries>,
    k: keyed_store::KeyView,
) -> DictEntries {
    if m.contains_key(k) {
        m[k]
    } else {
        Seq::empty()
    }
}

/// When the specs for a dictionary were last changed, where there are any.
pub open spec fn entry_lcut(s: DictEntries, dict: lru_store::LruKey) -> Option<u64> {
    if lru_store::has_key(s, dict) {
        Some(s[lru_store::key_index(s, dict)].1.lcut)
    } else {
        None
    }
}

/// Whether a response carries specs, be they from the network or from a backup.
pub open spec fn carries_specs(result: DataProviderRequestResult) -> bool {
    result == DataProviderRequestResult::Error || result
        == DataProviderRequestResult::DataAvailable
}

/// Whether a response is stored over what there is: where there is nothing yet,
/// or where it is newer.
pub open spec fn is_stored(s: DictEntries, dict: lru_store::LruKey, lcut: u64) -> bool {
    match entry_lcut(s, dict) {
        Some(stored) => lcut > stored,
        None => true,
    }
}

/// What a response makes of the stored specs.
pub open spec fn stored_after(
    m: Map<keyed_store::KeyView, DictEntries>,
    limit: int,
    k: keyed_store::KeyView,
    dict: lru_store::LruKey,
    result: DataProviderRequestResult,
    spec: Arc<DictConfigSpec>,
) -> Map<keyed_store::KeyView, DictEntries> {
    let s = entries_of(m, k);
    if carries_specs(result) {
        m.insert(
            k,
            if is_stored(s, dict, spec.lcut) {
                lru_store::pushed(s, limit, dict, spec)
            } else {
                s
            },
        )
    } else if result == DataProviderRequestResult::Unauthorized {
        m.remove(k)
    } else {
        m
    }
}

/// The dictionary that is asked for: the text `null` asks for none.
pub open spec fn actual_dict(dict: Option<Seq<char>>) -> lru_store::LruKey {
    if dict == Some("null"@) {
        lru_store::key_of(None)
    } else {
        lru_store::key_of(dict)
    }
}

/// The stored specs.
pub struct SharedDictConfigSpecStore {
    store: KeyedStore<LruStore<Arc<DictConfigSpec>>>,
    per_key_cache_size: usize,
    no_update_config: Arc<ResponsePayload>,
}

fn actual_dict_id<'a>(zstd_dict_id: Option<&'a str>) -> (r: Option<&'a str>)
    ensures
        lru_store::key_of(lru_store::option_text(r)) == actual_dict(
            lru_store::option_text(zstd_dict_id),
        ),
{
    match zstd_dict_id {
        Some(id) => if text::same_text(id, "null") {
            None
        } else {
            Some(id)
        },
        None => None,
    }
}

/// Whether a response replaces older specs for a dictionary.
pub open spec fn replaces(s: DictEntries, dict: lru_store::LruKey, r: ResponseContext) -> bool {
    carries_specs(r.result_type) && lru_store::has_key(s, dict) && is_stored(s, dict, r.lcut)
}

impl SharedDictConfigSpecStore {
    /// Every context has a cache of the same size.
    pub closed spec fn wf(&self) -> bool {
        &&& self.store.wf()
        &&& 0 < self.per_key_cache_size
        &&& forall|k: keyed_store::KeyView| #[trigger]
            self.store@.contains_key(k) ==> self.store@[k].wf() && self.store@[k].limit()
                == self.per_key_cache_size
        &&& self.no_update_config.data@ == config_spec_store::no_update_bytes()
        &&& self.no_update_config.encoding == CompressionEncoder::PlainText
        &&& !self.no_update_config.use_proto
    }

    /// The stored specs by the keys of their contexts.
    pub closed spec fn specs(&self) -> Map<keyed_store::KeyView, DictEntries> {
        self.store@.map_values(|c: LruStore<Arc<DictConfigSpec>>| c@)
    }

    /// How many dictionaries are kept for one context.
    pub closed spec fn limit(&self) -> int {
        self.per_key_cache_size as int
    }

    /// The payload that tells there is nothing newer.
    pub closed spec fn no_update(&self) -> Arc<ResponsePayload> {
        self.no_update_config
    }

    pub fn new(per_key_cache_size: usize) -> (r: Self)
        requires
            0 < per_key_cache_size,
        ensures
            r.wf(),
            r.specs() == Map::<keyed_store::KeyView, DictEntries>::empty(),
            r.limit() == per_key_cache_size,
            r.no_update().data@ == config_spec_store::no_update_bytes(),
            r.no_update().encoding == CompressionEncoder::PlainText,
    {
        let r = SharedDictConfigSpecStore {
            store: KeyedStore::new(),
            per_key_cache_size,
            no_update_config: Arc::new(
                ResponsePayload {
                    encoding: CompressionEncoder::PlainText,
                    use_proto: false,
                    data: config_spec_store::no_update_json(),
                },
            ),
        };
        assert(r.specs() =~= Map::<keyed_store::KeyView, DictEntries>::empty());
        r
    }

    pub fn force_notifier_to_wait_for_update(&self) -> (r: bool)
        ensures
            r,
    {
        true
    }

    /// Takes a response to a request for one dictionary at the time `now_ms`, in
    /// milliseconds. Where it replaces older specs, its event tells how long the
    /// change took to get here.
    pub fn update(
        &mut self,
        request_context: &Arc<AuthorizedRequestContext>,
        zstd_dict_id: Option<&str>,
        response_context: &ResponseContext,
        response_dict_id: Option<String>,
        now_ms: i64,
    ) -> (r: Option<ProxyEvent>)
        requires
            old(self).wf(),
            replaces(
                entries_of(old(self).specs(), sdk_key_store::context_key(request_context@)),
                lru_store::key_of(lru_store::option_text(zstd_dict_id)),
                *response_context,
            ) ==> config_spec_store::is_tellable(response_context.lcut, now_ms),
        ensures
            final(self).wf(),
            final(self).limit() == old(self).limit(),
            final(self).no_update() == old(self).no_update(),
            final(self).specs() == stored_after(
                old(self).specs(),
                old(self).limit(),
                sdk_key_store::context_key(request_context@),
                lru_store::key_of(lru_store::option_text(zstd_dict_id)),
                response_context.result_type,
                Arc::new(
                    DictConfigSpec {
                        lcut: response_context.lcut,
                        zstd_dict_id: response_dict_id,
                        config: response_context.body,
                    },
                ),
            ),
            ({
                let s = entries_of(
                    old(self).specs(),
                    sdk_key_store::context_key(request_context@),
                );
                let dict = lru_store::key_of(lru_store::option_text(zstd_dict_id));
                match r {
                    Some(e) => replaces(s, dict, *response_context) && e@ == config_spec_store::delay_event(
                        request_context@,
                        response_context.lcut,
                        now_ms,
                    ),
                    None => !replaces(s, dict, *response_context),
                }
            }),
    {
        let ghost before = *self;
        let key = request_context.store_key();
        let ghost k = key@;
        let ghost dict = lru_store::key_of(lru_store::option_text(zstd_dict_id));
        match response_context.result_type {
            DataProviderRequestResult::Error | DataProviderRequestResult::DataAvailable => {
                let spec = Arc::new(
                    DictConfigSpec {
                        lcut: response_context.lcut,
                        zstd_dict_id: response_dict_id,
                        config: keyed_store::share(&response_context.body),
                    },
                );
                let mut cache = match self.store.remove(&key) {
                    Some(c) => c,
                    None => LruStore::new(self.per_key_cache_size),
                };
                assert(cache@ =~= entries_of(before.specs(), k));
                let stored: Option<u64> = match cache.peek(zstd_dict_id) {
                    Some(found) => Some(found.lcut),
                    None => None,
                };
                let newer = match stored {
                    Some(lcut) => response_context.lcut > lcut,
                    None => true,
                };
                if newer {
                    cache.push(zstd_dict_id, spec);
                }
                self.store.insert(key, cache);
                proof {
                    assert forall|q: keyed_store::KeyView| #[trigger]
                        self.store@.contains_key(q) implies self.store@[q].wf()
                        && self.store@[q].limit() == self.per_key_cache_size by {
                        if q != k {
                            assert(before.store@.contains_key(q));
                        }
                    }
                    assert(self.specs() =~= stored_after(
                        before.specs(),
                        before.limit(),
                        k,
                        dict,
                        response_context.result_type,
                        spec,
                    ));
                }
                if newer && stored.is_some() {
                    let value: i64 = config_spec_store::propagation_delay(
                        response_context.lcut,
                        now_ms,
                    ).unwrap();
                    let event = ProxyEvent::new_with_rc(
                        ProxyEventType::UpdateConfigSpecStorePropagationDelayMs,
                        request_context,
                    ).with_lcut(response_context.lcut).with_stat(
                        EventStat { operation_type: OperationType::Distribution, value },
                    );
                    return Some(event);
                }
                None
            },
            DataProviderRequestResult::Unauthorized => {
                let _ = self.store.remove(&key);
                assert(self.specs() =~= before.specs().remove(k));
                None
            },
            _ => None,
        }
    }

    /// The stored specs for a dictionary.
    pub fn get(&self, request_context: &AuthorizedRequestContext, zstd_dict_id: Option<&str>) -> (r:
        Option<Arc<DictConfigSpec>>)
        requires
            self.wf(),
        ensures
            ({
                let s = entries_of(self.specs(), sdk_key_store::context_key(request_context@));
                let dict = lru_store::key_of(lru_store::option_text(zstd_dict_id));
                match r {
                    Some(spec) => lru_store::has_key(s, dict) && spec
                        == s[lru_store::key_index(s, dict)].1,
                    None => !lru_store::has_key(s, dict),
                }
            }),
    {
        match self.store.get(&request_context.store_key()) {
            Some(cache) => match cache.peek(zstd_dict_id) {
                Some(spec) => Some(keyed_store::share(spec)),
                None => None,
            },
            None => None,
        }
    }

    /// Whether the specs for a dictionary have to be fetched before they can be read.
    /// The fetch asks for all of them, whatever the reader has seen.
    pub fn needs_fetch(
        &self,
        request_context: &AuthorizedRequestContext,
        zstd_dict_id: Option<&str>,
    ) -> (r: bool)
        requires
            self.wf(),
        ensures
            r == !lru_store::has_key(
                entries_of(self.specs(), sdk_key_store::context_key(request_context@)),
                actual_dict(lru_store::option_text(zstd_dict_id)),
            ),
    {
        self.get(request_context, actual_dict_id(zstd_dict_id)).is_none()
    }

    /// What a reader who has seen everything up to `since_time` is given, once the
    /// specs have been fetched where they were missing: nothing where there still are
    /// none, since the key is refused then.
    pub fn get_config_spec(
        &self,
        request_context: &AuthorizedRequestContext,
        since_time: u64,
        zstd_dict_id: Option<&str>,
    ) -> (r: Option<Arc<DictConfigSpec>>)
        requires
            self.wf(),
        ensures
            ({
                let s = entries_of(self.specs(), sdk_key_store::context_key(request_context@));
                let dict = actual_dict(lru_store::option_text(zstd_dict_id));
                let stored = s[lru_store::key_index(s, dict)].1;
                match r {
                    Some(spec) => {
                        &&& lru_store::has_key(s, dict)
                        &&& *spec == served_spec(*stored, self.no_update(), since_time)
                        &&& if stored.lcut > since_time {
                            spec == stored
                        } else {
                            *spec == (DictConfigSpec {
                                lcut: stored.lcut,
                                zstd_dict_id: None,
                                config: self.no_update(),
                            })
                        }
                    },
                    None => !lru_store::has_key(s, dict),
                }
            }),
    {
        match self.get(request_context, actual_dict_id(zstd_dict_id)) {
            Some(record) => {
                if record.lcut > since_time {
                    Some(record)
                } else {
                    Some(
                        Arc::new(
                            DictConfigSpec {
                                lcut: record.lcut,
                                zstd_dict_id: None,
                                config: keyed_store::share(&self.no_update_config),
                            },
                        ),
                    )
                }
            },
            None => None,
        }
    }
}

/// The context with which plain specs are fetched in the shadow of a request for
/// specs with a dictionary. Data stores hold plain specs only.
pub fn dictionary_shadow_request_context(
    cache: &mut AuthorizedRequestContextCache,
    rc: &AuthorizedRequestContext,
) -> (r: Arc<AuthorizedRequestContext>)
    requires
        old(cache).wf(),
    ensures
        final(cache).wf(),
        r@ == authorized_request_context::cached_context(
            rc@.sdk_key,
            normalized_path::PathView::V2DownloadConfigSpecs,
            seq![CompressionEncoder::Gzip],
            false,
            false,
            None,
        ),
        final(cache).shared() == authorized_request_context::shared_after(old(cache).shared(), r),
        final(cache).shared()[authorized_request_context::identity_key(r@.identity())] == r,
{
    let mut encodings: Vec<CompressionEncoder> = Vec::new();
    encodings.push(CompressionEncoder::Gzip);
    assert(encodings@ =~= seq![CompressionEncoder::Gzip]);
    cache.get_or_insert(
        rc.sdk_key.clone(),
        NormalizedPath::V2DownloadConfigSpecs,
        encodings,
        false,
        false,
        None,
    )
}

/// What was stored for a dictionary is what a reader of it is given, and no context
/// keeps more dictionaries than it may.
pub proof fn law_dictionary_specs_are_read_as_stored(
    m: Map<keyed_store::KeyView, DictEntries>,
    limit: int,
    k: keyed_store::KeyView,
    dict: lru_store::LruKey,
    result: DataProviderRequestResult,
    spec: Arc<DictConfigSpec>,
)
    requires
        limit > 0,
        carries_specs(result),
        is_stored(entries_of(m, k), dict, spec.lcut),
        entries_of(m, k).len() <= limit,
        lru_store::keys_differ(entries_of(m, k)),
    ensures
        ({
            let s = entries_of(stored_after(m, limit, k, dict, result, spec), k);
            &&& lru_store::has_key(s, dict)
            &&& s[lru_store::key_index(s, dict)].1 == spec
            &&& s.len() <= limit
            &&& lru_store::keys_differ(s)
        }),
{
    let before = entries_of(m, k);
    let s = entries_of(stored_after(m, limit, k, dict, result, spec), k);
    assert(s[0].0 == dict);
    if lru_store::has_key(before, dict) {
        let at = lru_store::key_index(before, dict);
        assert forall|i: int, j: int| 0 <= i < j < s.len() implies (#[trigger] s[i]).0 != (
        #[trigger] s[j]).0 by {
            let jj = if j - 1 < at {
                j - 1
            } else {
                j
            };
            assert(s[j] == before[jj]);
            if i == 0 {
                if jj < at {
                    assert(before[jj].0 != before[at].0);
                } else {
                    assert(before[at].0 != before[jj].0);
                }
            } else {
                let ii = if i - 1 < at {
                    i - 1
                } else {
                    i
                };
                assert(s[i] == before[ii]);
                assert(before[ii].0 != before[jj].0);
            }
        }
    } else {
        assert forall|i: int, j: int| 0 <= i < j < s.len() implies (#[trigger] s[i]).0 != (
        #[trigger] s[j]).0 by {
            assert(s[j] == before[j - 1]);
            if i > 0 {
                assert(s[i] == before[i - 1]);
                assert(before[i - 1].0 != before[j - 1].0);
            } else {
                assert(before[j - 1].0 != dict);
            }
        }
    }
    assert(lru_store::has_key(s, dict));
    let at = lru_store::key_index(s, dict);
    if at > 0 {
        assert(s[0].0 != s[at].0);
    }
}

/// What a result changes. Specs that are the first of their dictionary or newer are kept
/// for it, and nothing else of the request's changes but the oldest dictionary where there
/// are too many. Specs that are not newer change nothing of what is kept. A refusal drops
/// all of the request's. Any other result, and any other request, changes nothing.
pub proof fn law_results_change_their_own_dictionary(
    m: Map<keyed_store::KeyView, DictEntries>,
    limit: int,
    k: keyed_store::KeyView,
    dict: lru_store::LruKey,
    result: DataProviderRequestResult,
    spec: Arc<DictConfigSpec>,
    other: keyed_store::KeyView,
    e: (lru_store::LruKey, Arc<DictConfigSpec>),
)
    requires
        limit > 0,
        entries_of(m, k).len() <= limit,
        lru_store::keys_differ(entries_of(m, k)),
    ensures
        ({
            let s = entries_of(m, k);
            let after = stored_after(m, limit, k, dict, result, spec);
            let t = entries_of(after, k);
            let brings = result == DataProviderRequestResult::DataAvailable || result
                == DataProviderRequestResult::Error;
            &&& brings && !lru_store::has_key(s, dict) ==> t.contains((dict, spec))
            &&& brings && s.contains((dict, e.1)) && spec.lcut > e.1.lcut ==> t.contains(
                (dict, spec),
            )
            &&& brings && s.contains((dict, e.1)) && spec.lcut <= e.1.lcut ==> t == s
            &&& brings && e.0 != dict && t.contains(e) ==> s.contains(e)
            &&& brings && e.0 != dict && s.contains(e) && (s.len() < limit || lru_store::has_key(
                s,
                dict,
            )) ==> t.contains(e)
            &&& result == DataProviderRequestResult::Unauthorized ==> !after.contains_key(k)
            &&& result == DataProviderRequestResult::NoDataAvailable || result
                == DataProviderRequestResult::ClientError ==> after == m
            &&& other != k ==> (after.contains_key(other) <==> m.contains_key(other)) && entries_of(
                after,
                other,
            ) == entries_of(m, other)
        }),
{
    let s = entries_of(m, k);
    lru_store::law_the_oldest_entry_makes_room(s, limit, dict, spec, e);
    lru_store::law_the_oldest_entry_makes_room(s, limit, dict, spec, (dict, spec));
    if s.contains((dict, e.1)) {
        let i = choose|i: int| 0 <= i < s.len() && s[i] == (dict, e.1);
        assert(s[i].0 == dict);
        let n = lru_store::key_index(s, dict);
        assert(0 <= n < s.len() && s[n].0 == dict);
        if n < i {
            assert(s[n].0 != s[i].0);
        } else if i < n {
            assert(s[i].0 != s[n].0);
        }
    }
}

/// The dictionary that is named "null" is none, and every other one is its own.
pub proof fn law_null_is_no_dictionary(a: Option<Seq<char>>, b: Option<Seq<char>>)
    ensures
        actual_dict(Some("null"@)) == actual_dict(None),
        a != Some("null"@) && b != Some("null"@) ==> (actual_dict(a) == actual_dict(b) <==> a == b),
{
}

/// Specs replace others exactly where there are some of their dictionary, and older ones.
pub proof fn law_newer_specs_replace_older_ones(
    s: DictEntries,
    dict: lru_store::LruKey,
    r: ResponseContext,
    stored: Arc<DictConfigSpec>,
)
    requires
        lru_store::keys_differ(s),
    ensures
        s.contains((dict, stored)) ==> (replaces(s, dict, r) <==> (r.result_type
            == DataProviderRequestResult::DataAvailable || r.result_type
            == DataProviderRequestResult::Error) && r.lcut > stored.lcut),
        !lru_store::has_key(s, dict) ==> !replaces(s, dict, r),
{
    if s.contains((dict, stored)) {
        let i = choose|i: int| 0 <= i < s.len() && s[i] == (dict, stored);
        assert(s[i].0 == dict);
        let n = lru_store::key_index(s, dict);
        assert(0 <= n < s.len() && s[n].0 == dict);
        if n < i {
            assert(s[n].0 != s[i].0);
        } else if i < n {
            assert(s[i].0 != s[n].0);
        }
    }
}

/// What a reader is given of the stored specs of a dictionary.
pub open spec fn served_spec(
    stored: DictConfigSpec,
    no_update: Arc<ResponsePayload>,
    since_time: u64,
) -> DictConfigSpec {
    if stored.lcut > since_time {
        stored
    } else {
        DictConfigSpec { lcut: stored.lcut, zstd_dict_id: None, config: no_update }
    }
}

/// A reader is given what is stored where that is later than what it has, and where it is
/// not, the time of it and the word that nothing is new, which needs no dictionary.
pub proof fn law_readers_of_dictionaries_are_given_what_they_lack(
    stored: DictConfigSpec,
    no_update: Arc<ResponsePayload>,
    since_time: u64,
)
    ensures
        served_spec(stored, no_update, since_time).lcut == stored.lcut,
        since_time < stored.lcut ==> served_spec(stored, no_update, since_time).config
            == stored.config && served_spec(stored, no_update, since_time).zstd_dict_id
            == stored.zstd_dict_id,
        since_time >= stored.lcut ==> served_spec(stored, no_update, since_time).config == no_update
            && served_spec(stored, no_update, since_time).zstd_dict_id is None,
{
}

} // verus!
