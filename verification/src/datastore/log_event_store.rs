//! Events on their way to the upstream, without those that were sent before.

use crate::datatypes::log_event;
use crate::datatypes::log_event::{
    EventName, LogEvent, LogEventRequest, PossiblyLogEvent, StatsigMetadata, User,
};
use crate::keyed_store;
use crate::keyed_store::{KeyedStore, StoreKey};
use crate::observers;
use crate::observers::{EventStat, OperationType, ProxyEvent, ProxyEventType};
use crate::servers::authorized_request_context;
use crate::servers::authorized_request_context::AuthorizedRequestContext;
use crate::text;
use chrono::{DateTime, Timelike};
use std::collections::hash_map::RandomState;
use std::hash::BuildHasher;
use std::sync::Arc;
use vstd::prelude::*;

verus! {

/// The first and the last time that `chrono` can hold, in milliseconds since
/// 1970: the start of the year -262143 and the end of the year 262142.
pub const EARLIEST_MILLIS: i64 = -8_334_601_228_800_000;

pub const LATEST_MILLIS: i64 = 8_210_266_876_799_999;

/// The start of the minute that a time is in, in milliseconds.
pub open spec fn minute_of(millis: int) -> int {
    millis - millis % 60_000
}

/// `DateTime::from_timestamp_millis`, `with_second(0)`, `with_nanosecond(0)` and
/// `timestamp_millis` of `chrono`: the start of the minute of a time that
/// `chrono` can hold.
#[verifier::external_body]
fn round_to_minute(millis: i64) -> (r: Option<i64>)
    ensures
        match r {
            Some(m) => EARLIEST_MILLIS <= millis <= LATEST_MILLIS && m == minute_of(millis as int),
            None => millis < EARLIEST_MILLIS || millis > LATEST_MILLIS,
        },
{
    let time = DateTime::from_timestamp_millis(millis)?;
    Some(time.with_second(0)?.with_nanosecond(0)?.timestamp_millis())
}

/// The hash that one source of hashes gives a text.
pub uninterp spec fn text_hash(state: RandomState, s: Seq<char>) -> u64;

/// `RandomState::hash_one`. One `RandomState` gives a text the same hash every time;
/// two of them mostly differ, so the hash is that of the text for this one.
#[verifier::external_body]
fn hash_text(state: &RandomState, s: &String) -> (r: u64)
    ensures
        r == text_hash(*state, s@),
{
    state.hash_one(s)
}

/// `RandomState::new`, which is random.
#[verifier::external_body]
fn random_state() -> (r: RandomState)
{
    RandomState::new()
}

/// The time of an event in its key: that of the event where it can be held, that
/// of the clock otherwise, rounded down to the minute.
pub open spec fn key_time(time: Option<u64>, now: i64) -> Option<u64> {
    let known = match time {
        Some(t) => t <= LATEST_MILLIS,
        None => false,
    };
    let millis = if known {
        time->0 as int
    } else {
        now as int
    };
    if EARLIEST_MILLIS <= millis <= LATEST_MILLIS && minute_of(millis) >= 0 {
        Some(minute_of(millis) as u64)
    } else {
        time
    }
}

fn rounded_time(time: Option<u64>, now: i64) -> (r: Option<u64>)
    ensures
        r == key_time(time, now),
{
    let known = match time {
        Some(t) => if t <= i64::MAX as u64 {
            round_to_minute(t as i64)
        } else {
            None
        },
        None => None,
    };
    let rounded = match known {
        Some(m) => Some(m),
        None => round_to_minute(now),
    };
    match rounded {
        Some(m) => if m >= 0 {
            Some(m as u64)
        } else {
            time
        },
        None => time,
    }
}

pub open spec fn text_or_blank(o: Option<Seq<char>>) -> Seq<char> {
    match o {
        Some(t) => t,
        None => Seq::empty(),
    }
}

/// The id of the user of an event.
pub open spec fn user_id_of(event: LogEvent) -> Seq<char> {
    match event.user {
        Some(u) => text_or_blank(text::text_option(u.user_id)),
        None => Seq::empty(),
    }
}

/// The stable id of an event, or that of its request where it has none.
pub open spec fn stable_id_of(event: LogEvent, global: Option<StatsigMetadata>) -> Seq<char> {
    let own = match event.statsig_metadata {
        Some(m) => text::text_option(m.stable_id),
        None => None,
    };
    match own {
        Some(t) => t,
        None => match global {
            Some(m) => text_or_blank(text::text_option(m.stable_id)),
            None => Seq::empty(),
        },
    }
}

/// Some ids in a key.
pub open spec fn ids_text(pairs: Seq<(Seq<char>, Seq<char>)>) -> Seq<char>
    decreases pairs.len(),
{
    if pairs.len() == 0 {
        Seq::empty()
    } else {
        ids_text(pairs.drop_last()) + pairs.last().0 + ":"@ + pairs.last().1 + ";"@
    }
}

/// The other ids of an event in its key.
pub open spec fn custom_ids_of(event: LogEvent) -> Seq<char> {
    match event.user {
        Some(u) => match u.custom_ids {
            Some(pairs) => ids_text(text::pair_texts(pairs@)),
            None => Seq::empty(),
        },
        None => Seq::empty(),
    }
}

/// What was exposed, in a key.
pub open spec fn exposure_of(event: LogEvent) -> Seq<char> {
    match event.event_name {
        EventName::ConfigExposure => "n:$"@ + log_event::metadata_value(event.metadata, "config"@)
            + ";r:"@ + log_event::metadata_value(event.metadata, "ruleID"@),
        EventName::GateExposure => "n:"@ + log_event::metadata_value(event.metadata, "gate"@)
            + ";r:"@ + log_event::metadata_value(event.metadata, "ruleID"@) + ";v:"@
            + log_event::metadata_value(event.metadata, "gateValue"@),
        EventName::Other { .. } => Seq::empty(),
    }
}

/// The key of an exposure: equal exposures in one minute have equal keys. Other
/// events have none.
pub open spec fn event_key(
    sdk_key: Seq<char>,
    event: LogEvent,
    global: Option<StatsigMetadata>,
    now: i64,
) -> Option<Seq<char>> {
    if event.event_name is Other {
        None
    } else {
        Some(
            "k:"@ + sdk_key + ";u:"@ + user_id_of(event) + ";s:"@ + stable_id_of(event, global)
                + ";"@ + custom_ids_of(event) + exposure_of(event) + (match key_time(
                event.time,
                now,
            ) {
                Some(t) => ";t"@ + text::decimal(t as nat),
                None => Seq::empty(),
            }),
        )
    }
}

fn push_ids(out: &mut String, pairs: &Vec<(String, String)>)
    ensures
        final(out)@ == old(out)@ + ids_text(text::pair_texts(pairs@)),
{
    let ghost all = text::pair_texts(pairs@);
    let mut i: usize = 0;
    assert(old(out)@ + ids_text(all.take(0)) =~= old(out)@);
    while i < pairs.len()
        invariant
            i <= pairs@.len(),
            all == text::pair_texts(pairs@),
            out@ == old(out)@ + ids_text(all.take(i as int)),
        decreases pairs@.len() - i,
    {
        proof {
            assert(all.take(i + 1).drop_last() =~= all.take(i as int));
            assert(all.take(i + 1).last() == (pairs@[i as int].0@, pairs@[i as int].1@));
        }
        out.append(pairs[i].0.as_str());
        out.append(":");
        out.append(pairs[i].1.as_str());
        out.append(";");
        assert(out@ =~= old(out)@ + ids_text(all.take(i + 1)));
        i += 1;
    }
    assert(all.take(i as int) =~= all);
}

/// What becomes of the events of a request.
#[derive(Debug)]
pub struct KeptEvents {
    /// Which events are sent on.
    pub kept: Vec<bool>,
    /// How many are.
    pub kept_count: usize,
    /// How often the memory of what was sent was cleared.
    pub cleared: usize,
}

/// Sends events on, but no exposure twice.
pub struct LogEventStore {
    url: String,
    random_state: RandomState,
    dedupe_cache: KeyedStore<bool>,
    dedupe_cache_limit: usize,
}

pub open spec fn hash_key(hash: u64) -> keyed_store::KeyView {
    (Seq::empty(), seq![hash])
}

fn store_key_of(hash: u64) -> (r: StoreKey)
    ensures
        r@ == hash_key(hash),
{
    let mut numbers: Vec<u64> = Vec::new();
    numbers.push(hash);
    let key = StoreKey { names: Vec::new(), numbers };
    assert(key@.0 =~= Seq::<Seq<char>>::empty());
    assert(key@.1 =~= seq![hash]);
    key
}

/// The event that tells how many events were left out.
pub open spec fn deduped_event(
    c: authorized_request_context::ContextView,
    count: i64,
) -> observers::EventView {
    observers::EventView {
        stat: Some(EventStat { operation_type: OperationType::IncrByValue, value: count }),
        ..observers::bare_event(ProxyEventType::LogEventStoreDeduped, Some(c))
    }
}

/// The event that tells that the memory of what was sent was cleared.
pub open spec fn cleared_event() -> observers::EventView {
    observers::EventView {
        stat: Some(EventStat { operation_type: OperationType::IncrByValue, value: 1 }),
        ..observers::bare_event(ProxyEventType::LogEventStoreDedupeCacheCleared, None)
    }
}

/// What is remembered of the exposures that were sent on, and what was decided.
pub struct Decisions {
    /// The hashes of the keys that were sent lately.
    pub seen: Set<u64>,
    /// How many keys are remembered.
    pub remembered: nat,
    /// Which events are sent on.
    pub kept: Seq<bool>,
    /// How often the memory was cleared.
    pub cleared: nat,
}

/// What there is before the first event of a request.
pub open spec fn undecided(seen: Set<u64>, remembered: nat) -> Decisions {
    Decisions { seen, remembered, kept: Seq::empty(), cleared: 0 }
}

pub open spec fn is_exposure(event: PossiblyLogEvent) -> bool {
    event matches PossiblyLogEvent::ValidLogEvent(e) && !(e.event_name is Other)
}

/// The decision on one event whose key has this hash: exposures are sent on where
/// they are new, after the memory was cleared where it was full; other events always
/// are, and what is no event never is.
pub open spec fn decide(
    d: Decisions,
    limit: usize,
    event: PossiblyLogEvent,
    hash: u64,
) -> Decisions {
    if is_exposure(event) {
        let full = d.remembered >= limit;
        let is_new = !d.seen.contains(hash);
        Decisions {
            seen: (if full {
                Set::<u64>::empty()
            } else {
                d.seen
            }).insert(hash),
            remembered: if full {
                1
            } else if is_new {
                d.remembered + 1
            } else {
                d.remembered
            },
            kept: d.kept.push(full || is_new),
            cleared: if full {
                d.cleared + 1
            } else {
                d.cleared
            },
        }
    } else {
        Decisions { kept: d.kept.push(event is ValidLogEvent), ..d }
    }
}

/// The decisions on some events, one after the other.
pub open spec fn decisions(
    start: Decisions,
    limit: usize,
    events: Seq<PossiblyLogEvent>,
    hashes: Seq<u64>,
) -> Decisions
    decreases events.len(),
{
    if events.len() == 0 {
        start
    } else {
        decide(
            decisions(start, limit, events.drop_last(), hashes),
            limit,
            events.last(),
            hashes[events.len() - 1],
        )
    }
}

/// The hash of the key of an event, where it has one.
pub open spec fn event_hash(
    hasher: RandomState,
    sdk_key: Seq<char>,
    global: Option<StatsigMetadata>,
    event: PossiblyLogEvent,
    now: i64,
) -> u64 {
    match event {
        PossiblyLogEvent::ValidLogEvent(e) => match event_key(sdk_key, e, global, now) {
            Some(key) => text_hash(hasher, key),
            None => 0,
        },
        PossiblyLogEvent::InvalidLogEvent => 0,
    }
}

/// The hashes of the keys of some events.
pub open spec fn event_hashes(
    hasher: RandomState,
    sdk_key: Seq<char>,
    global: Option<StatsigMetadata>,
    events: Seq<PossiblyLogEvent>,
    now: i64,
) -> Seq<u64> {
    Seq::new(events.len(), |i: int| event_hash(hasher, sdk_key, global, events[i], now))
}

impl LogEventStore {
    pub closed spec fn wf(&self) -> bool {
        self.dedupe_cache.wf()
    }

    /// Where the hashes of keys come from. It stays the same from the start.
    pub closed spec fn hasher(&self) -> RandomState {
        self.random_state
    }

    /// The hashes of the keys that were sent lately.
    pub closed spec fn seen(&self) -> Set<u64> {
        Set::new(|h: u64| self.dedupe_cache@.contains_key(hash_key(h)))
    }

    /// How many keys are remembered.
    pub closed spec fn remembered(&self) -> nat {
        self.dedupe_cache@.len()
    }

    pub closed spec fn limit(&self) -> usize {
        self.dedupe_cache_limit
    }

    pub closed spec fn target(&self) -> Seq<char> {
        self.url@
    }

    pub fn new(base_url: &str, dedupe_cache_limit: usize) -> (r: Self)
        ensures
            r.wf(),
            r.target() == base_url@ + "/v1/log_event"@,
            r.limit() == dedupe_cache_limit,
            r.seen() == Set::<u64>::empty(),
            r.remembered() == 0,
    {
        let mut url = base_url.to_owned();
        url.append("/v1/log_event");
        let r = LogEventStore {
            url,
            random_state: random_state(),
            dedupe_cache: KeyedStore::new(),
            dedupe_cache_limit,
        };
        assert(r.seen() =~= Set::<u64>::empty());
        r
    }

    /// Where events are sent to.
    pub fn url(&self) -> (r: &str)
        ensures
            r@ == self.target(),
    {
        self.url.as_str()
    }

    /// Whether a key with this hash was not sent lately, and whether the memory
    /// was full and cleared for it.
    pub fn check_hash(&mut self, hash: u64) -> (r: (bool, bool))
        requires
            old(self).wf(),
        ensures
            final(self).wf(),
            final(self).target() == old(self).target(),
            final(self).limit() == old(self).limit(),
            final(self).hasher() == old(self).hasher(),
            r.1 == (old(self).remembered() >= old(self).limit()),
            r.0 == (r.1 || !old(self).seen().contains(hash)),
            final(self).seen() == (if r.1 {
                Set::<u64>::empty()
            } else {
                old(self).seen()
            }).insert(hash),
            final(self).remembered() == (if r.1 {
                1
            } else if old(self).seen().contains(hash) {
                old(self).remembered()
            } else {
                old(self).remembered() + 1
            }),
    {
        let ghost before = *self;
        let full = self.dedupe_cache.len() >= self.dedupe_cache_limit;
        if full {
            self.dedupe_cache.clear();
        }
        let key = store_key_of(hash);
        let ghost k = key@;
        let ghost here = self.dedupe_cache@;
        let known = self.dedupe_cache.contains(&key);
        if !known {
            let count: usize = self.dedupe_cache.len();
            self.dedupe_cache.insert(key, true);
            assert(self.dedupe_cache@.dom() =~= here.dom().insert(k));
            assert(count == here.len());
        }
        proof {
            lemma_hash_keys();
            let start = if full {
                Set::<u64>::empty()
            } else {
                before.seen()
            };
            assert(self.seen() =~= start.insert(hash));
        }
        (!known, full)
    }

    /// Whether an event with this text for a key is new, and whether the memory
    /// was cleared for it. It goes by the hash of the text.
    pub fn check_key(&mut self, event: &String) -> (r: (bool, bool))
        requires
            old(self).wf(),
        ensures
            final(self).wf(),
            final(self).target() == old(self).target(),
            final(self).limit() == old(self).limit(),
            final(self).hasher() == old(self).hasher(),
            r.1 == (old(self).remembered() >= old(self).limit()),
            ({
                let hash = text_hash(old(self).hasher(), event@);
                &&& r.0 == (r.1 || !old(self).seen().contains(hash))
                &&& final(self).seen() == (if r.1 {
                    Set::<u64>::empty()
                } else {
                    old(self).seen()
                }).insert(hash)
                &&& final(self).remembered() == (if r.1 {
                    1
                } else if old(self).seen().contains(hash) {
                    old(self).remembered()
                } else {
                    old(self).remembered() + 1
                })
            }),
    {
        let hash: u64 = hash_text(&self.random_state, event);
        self.check_hash(hash)
    }

    /// The key of an event.
    pub fn compute_key(
        sdk_key: &str,
        event: &LogEvent,
        global_metadata: &Option<StatsigMetadata>,
        now_ms: i64,
    ) -> (r: Option<String>)
        ensures
            text::text_option(r) == event_key(sdk_key@, *event, *global_metadata, now_ms),
    {
        if let EventName::Other { .. } = event.event_name {
            return None;
        }
        let mut key = "k:".to_owned();
        key.append(sdk_key);
        key.append(";u:");
        if let Some(user) = &event.user {
            if let Some(id) = &user.user_id {
                key.append(id.as_str());
            }
        }
        key.append(";s:");
        let mut own = false;
        if let Some(m) = &event.statsig_metadata {
            if let Some(id) = &m.stable_id {
                own = true;
                key.append(id.as_str());
            }
        }
        if !own {
            if let Some(m) = global_metadata {
                if let Some(id) = &m.stable_id {
                    key.append(id.as_str());
                }
            }
        }
        key.append(";");
        let ghost ids = "k:"@ + sdk_key@ + ";u:"@ + user_id_of(*event) + ";s:"@ + stable_id_of(
            *event,
            *global_metadata,
        ) + ";"@;
        assert(key@ =~= ids);
        if let Some(user) = &event.user {
            if let Some(pairs) = &user.custom_ids {
                push_ids(&mut key, pairs);
            }
        }
        assert(key@ =~= ids + custom_ids_of(*event));
        let rule = event.get_metadata("ruleID");
        match &event.event_name {
            EventName::ConfigExposure => {
                let name = event.get_metadata("config");
                key.append("n:$");
                key.append(name.as_str());
                key.append(";r:");
                key.append(rule.as_str());
            },
            EventName::GateExposure => {
                let name = event.get_metadata("gate");
                let value = event.get_metadata("gateValue");
                key.append("n:");
                key.append(name.as_str());
                key.append(";r:");
                key.append(rule.as_str());
                key.append(";v:");
                key.append(value.as_str());
            },
            EventName::Other { .. } => {},
        }
        let ghost exposure = ids + custom_ids_of(*event) + exposure_of(*event);
        assert(key@ =~= exposure);
        if let Some(t) = rounded_time(event.time, now_ms) {
            key.append(";t");
            text::push_decimal(&mut key, t);
            assert(key@ =~= exposure + (";t"@ + text::decimal(t as nat)));
        } else {
            assert(key@ =~= exposure + Seq::<char>::empty());
        }
        Some(key)
    }

    /// Whether an event is sent on: exposures once, other events always, and what
    /// is no event never. Tells also whether the memory was cleared.
    pub fn process_event(
        &mut self,
        sdk_key: &str,
        global_metadata: &Option<StatsigMetadata>,
        event: &PossiblyLogEvent,
        now_ms: i64,
    ) -> (r: (bool, bool))
        requires
            old(self).wf(),
        ensures
            final(self).wf(),
            final(self).target() == old(self).target(),
            final(self).limit() == old(self).limit(),
            final(self).hasher() == old(self).hasher(),
            decide(
                undecided(old(self).seen(), old(self).remembered()),
                old(self).limit(),
                *event,
                event_hash(old(self).hasher(), sdk_key@, *global_metadata, *event, now_ms),
            ) == (Decisions {
                seen: final(self).seen(),
                remembered: final(self).remembered(),
                kept: seq![r.0],
                cleared: if r.1 {
                    1
                } else {
                    0
                },
            }),
    {
        let ghost start = undecided(self.seen(), self.remembered());
        let ghost before = *self;
        let r = match event {
            PossiblyLogEvent::ValidLogEvent(e) => match Self::compute_key(
                sdk_key,
                e,
                global_metadata,
                now_ms,
            ) {
                Some(key) => self.check_key(&key),
                None => (true, false),
            },
            PossiblyLogEvent::InvalidLogEvent => (false, false),
        };
        proof {
            let hash = event_hash(before.hasher(), sdk_key@, *global_metadata, *event, now_ms);
            assert(decide(start, before.limit(), *event, hash).kept =~= seq![r.0]);
        }
        r
    }

    /// Which events of a request are sent on.
    pub fn keep_events(&mut self, data: &LogEventRequest, sdk_key: &str, now_ms: i64) -> (r:
        KeptEvents)
        requires
            old(self).wf(),
        ensures
            final(self).wf(),
            final(self).target() == old(self).target(),
            final(self).limit() == old(self).limit(),
            final(self).hasher() == old(self).hasher(),
            r.kept_count == count_kept(r.kept@),
            decisions(
                undecided(old(self).seen(), old(self).remembered()),
                old(self).limit(),
                data.events@,
                event_hashes(
                    old(self).hasher(),
                    sdk_key@,
                    data.statsig_metadata,
                    data.events@,
                    now_ms,
                ),
            ) == (Decisions {
                seen: final(self).seen(),
                remembered: final(self).remembered(),
                kept: r.kept@,
                cleared: r.cleared as nat,
            }),
    {
        let mut kept: Vec<bool> = Vec::new();
        let mut kept_count: usize = 0;
        let mut cleared: usize = 0;
        let mut i: usize = 0;
        let ghost target = self.target();
        let ghost limit = self.limit();
        let ghost start = undecided(self.seen(), self.remembered());
        let ghost hasher = self.hasher();
        let ghost hashes = event_hashes(
            hasher,
            sdk_key@,
            data.statsig_metadata,
            data.events@,
            now_ms,
        );
        assert(count_kept(kept@) == 0);
        assert(data.events@.take(0) =~= Seq::<PossiblyLogEvent>::empty());
        assert(kept@ =~= Seq::<bool>::empty());
        while i < data.events.len()
            invariant
                i <= data.events@.len(),
                self.wf(),
                self.target() == target,
                self.limit() == limit,
                kept@.len() == i,
                kept_count == count_kept(kept@),
                kept_count <= i,
                cleared <= i,
                self.hasher() == hasher,
                hashes == event_hashes(
                    hasher,
                    sdk_key@,
                    data.statsig_metadata,
                    data.events@,
                    now_ms,
                ),
                decisions(start, limit, data.events@.take(i as int), hashes) == (Decisions {
                    seen: self.seen(),
                    remembered: self.remembered(),
                    kept: kept@,
                    cleared: cleared as nat,
                }),
            decreases data.events@.len() - i,
        {
            let ghost before = kept@;
            let ghost here = *self;
            let ghost seen_first = data.events@.take(i as int);
            let (keep, full) = self.process_event(
                sdk_key,
                &data.statsig_metadata,
                &data.events[i],
                now_ms,
            );
            if keep {
                kept_count += 1;
            }
            if full {
                cleared += 1;
            }
            kept.push(keep);
            proof {
                let event = data.events@[i as int];
                let hash = hashes[i as int];
                let next = data.events@.take(i + 1);
                assert(next.drop_last() =~= seen_first);
                let alone = decide(
                    undecided(here.seen(), here.remembered()),
                    limit,
                    event,
                    hash,
                );
                assert(alone.kept[0] == keep);
                assert(decisions(start, limit, next, hashes).kept =~= kept@);
                assert(kept@.drop_last() =~= before);
            }
            i += 1;
        }
        assert(data.events@.take(i as int) =~= data.events@);
        KeptEvents { kept, kept_count, cleared }
    }

    /// The events that tell what was left out.
    pub fn dedupe_events(
        request_context: &Arc<AuthorizedRequestContext>,
        batch_in_size: usize,
        batch_out_size: usize,
    ) -> (r: ProxyEvent)
        requires
            batch_out_size <= batch_in_size,
            batch_in_size <= i64::MAX,
        ensures
            r@ == deduped_event(request_context@, (batch_in_size - batch_out_size) as i64),
    {
        ProxyEvent::new_with_rc(ProxyEventType::LogEventStoreDeduped, request_context).with_stat(
            EventStat {
                operation_type: OperationType::IncrByValue,
                value: (batch_in_size - batch_out_size) as i64,
            },
        )
    }

    /// The event that tells that the memory of what was sent was cleared.
    pub fn cleared_event() -> (r: ProxyEvent)
        ensures
            r@ == cleared_event(),
    {
        ProxyEvent::new(ProxyEventType::LogEventStoreDedupeCacheCleared).with_stat(
            EventStat { operation_type: OperationType::IncrByValue, value: 1 },
        )
    }

    /// The status of a failed request, or the one that stands for none.
    pub fn failure_status(status: Option<u16>) -> (r: u16)
        ensures
            r == (match status {
                Some(s) => s,
                None => 500,
            }),
    {
        match status {
            Some(s) => s,
            None => 500,
        }
    }
}

/// How many are kept.
pub open spec fn count_kept(kept: Seq<bool>) -> int
    decreases kept.len(),
{
    if kept.len() == 0 {
        0
    } else {
        count_kept(kept.drop_last()) + if kept.last() {
            1int
        } else {
            0
        }
    }
}

proof fn lemma_hash_keys()
    ensures
        forall|a: u64, b: u64| #[trigger] hash_key(a) == #[trigger] hash_key(b) ==> a == b,
{
    assert forall|a: u64, b: u64| #[trigger] hash_key(a) == #[trigger] hash_key(b) implies a
        == b by {
        assert(hash_key(a).1[0] == a);
        assert(hash_key(b).1[0] == b);
    }
}

/// Two exposures that differ in nothing but their times have one key where the
/// times are in one minute.
pub proof fn law_exposures_of_one_minute_share_a_key(
    sdk_key: Seq<char>,
    a: LogEvent,
    b: LogEvent,
    global: Option<StatsigMetadata>,
    now_a: i64,
    now_b: i64,
)
    requires
        b == (LogEvent { time: b.time, ..a }),
        a.time matches Some(t) && t <= LATEST_MILLIS,
        b.time matches Some(t) && t <= LATEST_MILLIS,
        minute_of(a.time->0 as int) == minute_of(b.time->0 as int),
    ensures
        event_key(sdk_key, a, global, now_a) == event_key(sdk_key, b, global, now_b),
{
}

/// Only exposures have keys.
pub proof fn law_only_exposures_are_deduplicated(
    sdk_key: Seq<char>,
    event: LogEvent,
    global: Option<StatsigMetadata>,
    now: i64,
)
    ensures
        event_key(sdk_key, event, global, now) is None <==> event.event_name is Other,
{
}

/// Later events change no decision.
proof fn lemma_decision_stays(
    start: Decisions,
    limit: usize,
    events: Seq<PossiblyLogEvent>,
    hashes: Seq<u64>,
    j: int,
)
    requires
        start.kept.len() == 0,
        0 <= j < events.len(),
    ensures
        decisions(start, limit, events, hashes).kept.len() == events.len(),
        decisions(start, limit, events, hashes).kept[j] == decisions(
            start,
            limit,
            events.take(j + 1),
            hashes,
        ).kept[j],
    decreases events.len(),
{
    let before = events.drop_last();
    if j == events.len() - 1 {
        assert(events.take(j + 1) =~= events);
        if before.len() > 0 {
            lemma_decision_stays(start, limit, before, hashes, j - 1);
        } else {
            assert(decisions(start, limit, before, hashes) == start);
        }
    } else {
        lemma_decision_stays(start, limit, before, hashes, j);
        assert(before.take(j + 1) =~= events.take(j + 1));
    }
}

/// The memory is never cleared less often, and keeps a hash until it is cleared.
proof fn lemma_hash_stays(
    start: Decisions,
    limit: usize,
    events: Seq<PossiblyLogEvent>,
    hashes: Seq<u64>,
    i: int,
)
    requires
        0 <= i < events.len(),
        is_exposure(events[i]),
    ensures
        ({
            let then = decisions(start, limit, events.take(i + 1), hashes);
            let now = decisions(start, limit, events, hashes);
            &&& then.cleared <= now.cleared
            &&& then.cleared == now.cleared ==> now.seen.contains(hashes[i])
        }),
    decreases events.len(),
{
    if i == events.len() - 1 {
        assert(events.take(i + 1) =~= events);
    } else {
        lemma_hash_stays(start, limit, events.drop_last(), hashes, i);
        assert(events.drop_last().take(i + 1) =~= events.take(i + 1));
    }
}

/// An exposure with the key of an earlier one is not sent on, unless the memory was
/// cleared since.
pub proof fn law_repeated_exposures_are_left_out(
    start: Decisions,
    limit: usize,
    hasher: RandomState,
    sdk_key: Seq<char>,
    global: Option<StatsigMetadata>,
    events: Seq<PossiblyLogEvent>,
    now: i64,
    i: int,
    j: int,
)
    requires
        start.kept.len() == 0,
        0 <= i < j < events.len(),
        events[i] matches PossiblyLogEvent::ValidLogEvent(a) && events[j] matches
            PossiblyLogEvent::ValidLogEvent(b) && event_key(sdk_key, a, global, now) is Some
            && event_key(sdk_key, a, global, now) == event_key(sdk_key, b, global, now),
        ({
            let hashes = event_hashes(hasher, sdk_key, global, events, now);
            decisions(start, limit, events.take(i + 1), hashes).cleared == decisions(
                start,
                limit,
                events.take(j + 1),
                hashes,
            ).cleared
        }),
    ensures
        !decisions(
            start,
            limit,
            events,
            event_hashes(hasher, sdk_key, global, events, now),
        ).kept[j],
{
    let hashes = event_hashes(hasher, sdk_key, global, events, now);
    let before = events.take(j);
    assert(hashes[i] == hashes[j]);
    assert(events.take(j + 1).drop_last() =~= before);
    assert(before.take(i + 1) =~= events.take(i + 1));
    lemma_hash_stays(start, limit, before, hashes, i);
    lemma_decision_stays(start, limit, events, hashes, j);
    lemma_decision_stays(start, limit, before, hashes, i);
}

/// What is seen was seen at the start or is the hash of an exposure.
proof fn lemma_seen_hashes(
    start: Decisions,
    limit: usize,
    events: Seq<PossiblyLogEvent>,
    hashes: Seq<u64>,
    hash: u64,
)
    requires
        decisions(start, limit, events, hashes).seen.contains(hash),
    ensures
        start.seen.contains(hash) || exists|i: int|
            0 <= i < events.len() && is_exposure(#[trigger] events[i]) && hashes[i] == hash,
    decreases events.len(),
{
    if events.len() > 0 {
        let before = events.drop_last();
        if decisions(start, limit, before, hashes).seen.contains(hash) {
            lemma_seen_hashes(start, limit, before, hashes, hash);
            if !start.seen.contains(hash) {
                let i = choose|i: int|
                    0 <= i < before.len() && is_exposure(#[trigger] before[i]) && hashes[i] == hash;
                assert(events[i] == before[i]);
            }
        } else {
            assert(is_exposure(events[events.len() - 1]));
        }
    }
}

/// An exposure whose key has a hash of its own is sent on.
pub proof fn law_new_exposures_are_sent_on(
    start: Decisions,
    limit: usize,
    events: Seq<PossiblyLogEvent>,
    hashes: Seq<u64>,
    j: int,
)
    requires
        start.kept.len() == 0,
        0 <= j < events.len(),
        is_exposure(events[j]),
        !start.seen.contains(hashes[j]),
        forall|i: int|
            0 <= i < j && is_exposure(#[trigger] events[i]) ==> hashes[i] != hashes[j],
    ensures
        decisions(start, limit, events, hashes).kept[j],
{
    let before = events.take(j);
    assert(events.take(j + 1).drop_last() =~= before);
    lemma_decision_stays(start, limit, events, hashes, j);
    if j > 0 {
        lemma_decision_stays(start, limit, before, hashes, j - 1);
    }
    if decisions(start, limit, before, hashes).seen.contains(hashes[j]) {
        lemma_seen_hashes(start, limit, before, hashes, hashes[j]);
        let i = choose|i: int|
            0 <= i < before.len() && is_exposure(#[trigger] before[i]) && hashes[i] == hashes[j];
        assert(events[i] == before[i]);
    }
}

/// A time is rounded down to a whole minute, and by less than one. Where the event tells
/// no time that can be held, the clock is rounded in its place.
pub proof fn law_times_are_rounded_to_the_minute(t: u64, now: i64)
    ensures
        t <= LATEST_MILLIS ==> {
            &&& key_time(Some(t), now) matches Some(m)
            &&& m % 60_000 == 0
            &&& m <= t < m + 60_000
        },
        t > LATEST_MILLIS && 0 <= now <= LATEST_MILLIS ==> key_time(Some(t), now) == key_time(
            Some(now as u64),
            now,
        ),
        0 <= now <= LATEST_MILLIS ==> key_time(None, now) == key_time(Some(now as u64), now),
        now < 0 ==> key_time(None, now) is None,
{
}

/// What a key starts with up to the other ids.
proof fn lemma_key_start(
    sdk_key: Seq<char>,
    event: LogEvent,
    global: Option<StatsigMetadata>,
    now: i64,
)
    requires
        !(event.event_name is Other),
    ensures
        ({
            let time = match key_time(event.time, now) {
                Some(t) => ";t"@ + text::decimal(t as nat),
                None => Seq::empty(),
            };
            event_key(sdk_key, event, global, now) == Some(
                "k:"@ + (sdk_key + seq![';'] + ("u:"@ + (user_id_of(event) + seq![';'] + ("s:"@ + (
                stable_id_of(event, global) + seq![';'] + (custom_ids_of(event) + exposure_of(event)
                    + time)))))),
            )
        }),
{
    reveal_strlit(";u:");
    reveal_strlit("u:");
    reveal_strlit(";s:");
    reveal_strlit("s:");
    reveal_strlit(";");
    let time = match key_time(event.time, now) {
        Some(t) => ";t"@ + text::decimal(t as nat),
        None => Seq::empty(),
    };
    assert(";u:"@ =~= seq![';'] + "u:"@);
    assert(";s:"@ =~= seq![';'] + "s:"@);
    assert(";"@ =~= seq![';']);
    assert(event_key(sdk_key, event, global, now)->0 =~= "k:"@ + (sdk_key + seq![';'] + ("u:"@ + (
    user_id_of(event) + seq![';'] + ("s:"@ + (stable_id_of(event, global) + seq![';'] + (
    custom_ids_of(event) + exposure_of(event) + time)))))));
}

proof fn lemma_behind(a: Seq<char>, x: Seq<char>, y: Seq<char>)
    requires
        a + x == a + y,
    ensures
        x == y,
{
    assert(x =~= (a + x).skip(a.len() as int));
    assert(y =~= (a + y).skip(a.len() as int));
}

/// Exposures have different keys wherever they are those of different SDK keys, of
/// different users, or of different devices, whatever else they tell.
pub proof fn law_keys_tell_users_apart(
    sdk_key: Seq<char>,
    a: LogEvent,
    global: Option<StatsigMetadata>,
    now: i64,
    other_key: Seq<char>,
    b: LogEvent,
    other_global: Option<StatsigMetadata>,
    later: i64,
    user_a: Seq<char>,
    user_b: Seq<char>,
    device_a: Seq<char>,
    device_b: Seq<char>,
)
    requires
        !(a.event_name is Other),
        !(b.event_name is Other),
        a.user matches Some(u) && u.user_id matches Some(id) && id@ == user_a,
        b.user matches Some(u) && u.user_id matches Some(id) && id@ == user_b,
        a.statsig_metadata matches Some(m) && m.stable_id matches Some(id) && id@ == device_a,
        b.statsig_metadata matches Some(m) && m.stable_id matches Some(id) && id@ == device_b,
        !sdk_key.contains(';') && !other_key.contains(';'),
        !user_a.contains(';') && !user_b.contains(';'),
        !device_a.contains(';') && !device_b.contains(';'),
        event_key(sdk_key, a, global, now) == event_key(other_key, b, other_global, later),
    ensures
        sdk_key == other_key,
        user_a == user_b,
        device_a == device_b,
{
    lemma_keys_apart(sdk_key, a, global, now, other_key, b, other_global, later);
}

proof fn lemma_keys_apart(
    sdk_key: Seq<char>,
    a: LogEvent,
    global: Option<StatsigMetadata>,
    now: i64,
    other_key: Seq<char>,
    b: LogEvent,
    other_global: Option<StatsigMetadata>,
    later: i64,
)
    requires
        !(a.event_name is Other),
        !(b.event_name is Other),
        !sdk_key.contains(';') && !other_key.contains(';'),
        !user_id_of(a).contains(';') && !user_id_of(b).contains(';'),
        !stable_id_of(a, global).contains(';') && !stable_id_of(b, other_global).contains(';'),
        event_key(sdk_key, a, global, now) == event_key(other_key, b, other_global, later),
    ensures
        sdk_key == other_key,
        user_id_of(a) == user_id_of(b),
        stable_id_of(a, global) == stable_id_of(b, other_global),
        behind_ids(a, now) == behind_ids(b, later),
{
    lemma_key_start(sdk_key, a, global, now);
    lemma_key_start(other_key, b, other_global, later);
    let x3 = behind_ids(a, now);
    let y3 = behind_ids(b, later);
    let x2 = "s:"@ + (stable_id_of(a, global) + seq![';'] + x3);
    let y2 = "s:"@ + (stable_id_of(b, other_global) + seq![';'] + y3);
    let x1 = "u:"@ + (user_id_of(a) + seq![';'] + x2);
    let y1 = "u:"@ + (user_id_of(b) + seq![';'] + y2);
    lemma_behind("k:"@, sdk_key + seq![';'] + x1, other_key + seq![';'] + y1);
    text::lemma_same_up_to(sdk_key, x1, other_key, y1, ';');
    lemma_behind("u:"@, user_id_of(a) + seq![';'] + x2, user_id_of(b) + seq![';'] + y2);
    text::lemma_same_up_to(user_id_of(a), x2, user_id_of(b), y2, ';');
    lemma_behind(
        "s:"@,
        stable_id_of(a, global) + seq![';'] + x3,
        stable_id_of(b, other_global) + seq![';'] + y3,
    );
    text::lemma_same_up_to(stable_id_of(a, global), x3, stable_id_of(b, other_global), y3, ';');
}

/// What follows the ids of the user and the device in a key.
spec fn behind_ids(event: LogEvent, now: i64) -> Seq<char> {
    custom_ids_of(event) + exposure_of(event) + (match key_time(event.time, now) {
        Some(t) => ";t"@ + text::decimal(t as nat),
        None => Seq::empty(),
    })
}

/// Two exposures that differ in the ids of their users alone have different keys, also
/// where one of them has no id.
pub proof fn law_users_are_told_apart(
    sdk_key: Seq<char>,
    a: LogEvent,
    b: LogEvent,
    global: Option<StatsigMetadata>,
    now: i64,
)
    requires
        !(a.event_name is Other),
        a.user is Some && b.user is Some,
        b == (LogEvent { user: b.user, ..a }),
        b.user->0 == (User { user_id: (b.user->0).user_id, ..a.user->0 }),
        (match (a.user->0).user_id {
            Some(id) => id@,
            None => Seq::empty(),
        }) != (match (b.user->0).user_id {
            Some(id) => id@,
            None => Seq::empty(),
        }),
    ensures
        event_key(sdk_key, a, global, now) != event_key(sdk_key, b, global, now),
{
    let time = match key_time(a.time, now) {
        Some(t) => ";t"@ + text::decimal(t as nat),
        None => Seq::empty(),
    };
    let before = "k:"@ + sdk_key + ";u:"@;
    let x = user_id_of(a);
    let y = user_id_of(b);
    let device = stable_id_of(a, global);
    let others = custom_ids_of(a);
    assert(custom_ids_of(b) == others);
    assert(exposure_of(b) == exposure_of(a));
    lemma_regroup(before, x, device, others, exposure_of(a), time);
    lemma_regroup(before, y, device, others, exposure_of(a), time);
    if event_key(sdk_key, a, global, now) == event_key(sdk_key, b, global, now) {
        lemma_between(
            before,
            x,
            y,
            ";s:"@ + device + ";"@ + others + exposure_of(a) + time,
        );
    }
}

proof fn lemma_regroup(
    before: Seq<char>,
    id: Seq<char>,
    device: Seq<char>,
    others: Seq<char>,
    exposure: Seq<char>,
    time: Seq<char>,
)
    ensures
        before + id + ";s:"@ + device + ";"@ + others + exposure + time == before + id + (";s:"@
            + device + ";"@ + others + exposure + time),
{
    assert(before + id + ";s:"@ + device + ";"@ + others + exposure + time =~= before + id + (
    ";s:"@ + device + ";"@ + others + exposure + time));
}

proof fn lemma_between(before: Seq<char>, x: Seq<char>, y: Seq<char>, after: Seq<char>)
    requires
        before + x + after == before + y + after,
    ensures
        x == y,
{
    let s = before + x + after;
    assert(s.len() == before.len() + x.len() + after.len());
    assert((before + y + after).len() == before.len() + y.len() + after.len());
    assert(x =~= s.subrange(before.len() as int, (before.len() + x.len()) as int));
    assert(y =~= (before + y + after).subrange(
        before.len() as int,
        (before.len() + y.len()) as int,
    ));
}

/// The device of an event is its own where it tells one, and that of its request where it
/// does not.
pub proof fn law_the_own_device_comes_first(
    sdk_key: Seq<char>,
    a: LogEvent,
    b: LogEvent,
    id: String,
    global: Option<StatsigMetadata>,
    now: i64,
)
    requires
        b == (LogEvent {
            statsig_metadata: Some(StatsigMetadata { stable_id: Some(id) }),
            ..a
        }),
        a.statsig_metadata is None || (a.statsig_metadata->0).stable_id is None,
    ensures
        event_key(sdk_key, b, global, now) == event_key(sdk_key, b, None, now),
        event_key(sdk_key, a, Some(StatsigMetadata { stable_id: Some(id) }), now) == event_key(
            sdk_key,
            b,
            global,
            now,
        ),
{
}

/// Two exposures of one user have different keys where they are of different gates, of
/// different rules or with different outcomes, and where they are of different configs
/// or of different rules.
pub proof fn law_keys_tell_exposures_apart(
    sdk_key: Seq<char>,
    a: LogEvent,
    b: LogEvent,
    global: Option<StatsigMetadata>,
    now: i64,
)
    requires
        b == (LogEvent { metadata: b.metadata, ..a }),
        event_key(sdk_key, a, global, now) == event_key(sdk_key, b, global, now),
        !log_event::metadata_value(a.metadata, "gate"@).contains(';'),
        !log_event::metadata_value(b.metadata, "gate"@).contains(';'),
        !log_event::metadata_value(a.metadata, "config"@).contains(';'),
        !log_event::metadata_value(b.metadata, "config"@).contains(';'),
        !log_event::metadata_value(a.metadata, "ruleID"@).contains(';'),
        !log_event::metadata_value(b.metadata, "ruleID"@).contains(';'),
    ensures
        a.event_name is GateExposure ==> {
            &&& log_event::metadata_value(a.metadata, "gate"@) == log_event::metadata_value(
                b.metadata,
                "gate"@,
            )
            &&& log_event::metadata_value(a.metadata, "ruleID"@) == log_event::metadata_value(
                b.metadata,
                "ruleID"@,
            )
            &&& log_event::metadata_value(a.metadata, "gateValue"@) == log_event::metadata_value(
                b.metadata,
                "gateValue"@,
            )
        },
        a.event_name is ConfigExposure ==> {
            &&& log_event::metadata_value(a.metadata, "config"@) == log_event::metadata_value(
                b.metadata,
                "config"@,
            )
            &&& log_event::metadata_value(a.metadata, "ruleID"@) == log_event::metadata_value(
                b.metadata,
                "ruleID"@,
            )
        },
{
    if !(a.event_name is Other) {
        let before = "k:"@ + sdk_key + ";u:"@ + user_id_of(a) + ";s:"@ + stable_id_of(a, global)
            + ";"@ + custom_ids_of(a);
        let after = match key_time(a.time, now) {
            Some(t) => ";t"@ + text::decimal(t as nat),
            None => Seq::empty(),
        };
        lemma_between(before, exposure_of(a), exposure_of(b), after);
        let ra = log_event::metadata_value(a.metadata, "ruleID"@);
        let rb = log_event::metadata_value(b.metadata, "ruleID"@);
        if a.event_name is GateExposure {
            let va = log_event::metadata_value(a.metadata, "gateValue"@);
            let vb = log_event::metadata_value(b.metadata, "gateValue"@);
            lemma_gates_apart(
                log_event::metadata_value(a.metadata, "gate"@),
                ra,
                va,
                log_event::metadata_value(b.metadata, "gate"@),
                rb,
                vb,
            );
        } else {
            lemma_ruled_apart(
                "n:$"@,
                log_event::metadata_value(a.metadata, "config"@),
                ra,
                log_event::metadata_value(b.metadata, "config"@),
                rb,
            );
        }
    }
}

proof fn lemma_ruled_apart(
    start: Seq<char>,
    a: Seq<char>,
    rest_a: Seq<char>,
    b: Seq<char>,
    rest_b: Seq<char>,
)
    requires
        !a.contains(';') && !b.contains(';'),
        start + a + ";r:"@ + rest_a == start + b + ";r:"@ + rest_b,
    ensures
        a == b,
        rest_a == rest_b,
{
    reveal_strlit(";r:");
    reveal_strlit("r:");
    assert(start + a + ";r:"@ + rest_a =~= start + (a + seq![';'] + ("r:"@ + rest_a)));
    assert(start + b + ";r:"@ + rest_b =~= start + (b + seq![';'] + ("r:"@ + rest_b)));
    lemma_behind(start, a + seq![';'] + ("r:"@ + rest_a), b + seq![';'] + ("r:"@ + rest_b));
    text::lemma_same_up_to(a, "r:"@ + rest_a, b, "r:"@ + rest_b, ';');
    lemma_behind("r:"@, rest_a, rest_b);
}

proof fn lemma_gates_apart(
    a: Seq<char>,
    rule_a: Seq<char>,
    value_a: Seq<char>,
    b: Seq<char>,
    rule_b: Seq<char>,
    value_b: Seq<char>,
)
    requires
        !a.contains(';') && !b.contains(';'),
        !rule_a.contains(';') && !rule_b.contains(';'),
        "n:"@ + a + ";r:"@ + rule_a + ";v:"@ + value_a == "n:"@ + b + ";r:"@ + rule_b + ";v:"@
            + value_b,
    ensures
        a == b,
        rule_a == rule_b,
        value_a == value_b,
{
    reveal_strlit(";v:");
    reveal_strlit("v:");
    let xa = rule_a + seq![';'] + ("v:"@ + value_a);
    let xb = rule_b + seq![';'] + ("v:"@ + value_b);
    assert("n:"@ + a + ";r:"@ + rule_a + ";v:"@ + value_a =~= "n:"@ + a + ";r:"@ + xa);
    assert("n:"@ + b + ";r:"@ + rule_b + ";v:"@ + value_b =~= "n:"@ + b + ";r:"@ + xb);
    lemma_ruled_apart("n:"@, a, xa, b, xb);
    text::lemma_same_up_to(rule_a, "v:"@ + value_a, rule_b, "v:"@ + value_b, ';');
    lemma_behind("v:"@, value_a, value_b);
}

/// Exposures have different keys where one of the other ids of their users differs, in its
/// name or in its value, wherever it stands.
pub proof fn law_other_ids_are_told_apart(
    sdk_key: Seq<char>,
    a: LogEvent,
    b: LogEvent,
    global: Option<StatsigMetadata>,
    now: i64,
    before: Seq<(Seq<char>, Seq<char>)>,
    p: (Seq<char>, Seq<char>),
    q: (Seq<char>, Seq<char>),
    after: Seq<(Seq<char>, Seq<char>)>,
)
    requires
        !(a.event_name is Other),
        b == (LogEvent { user: b.user, ..a }),
        a.user matches Some(u) && u.custom_ids matches Some(ids) && text::pair_texts(ids@)
            == before + seq![p] + after,
        b.user matches Some(u) && u.custom_ids matches Some(ids) && text::pair_texts(ids@)
            == before + seq![q] + after,
        (a.user->0).user_id == (b.user->0).user_id,
        !p.0.contains(':') && !q.0.contains(':'),
        p != q,
    ensures
        event_key(sdk_key, a, global, now) != event_key(sdk_key, b, global, now),
{
    let time = match key_time(a.time, now) {
        Some(t) => ";t"@ + text::decimal(t as nat),
        None => Seq::empty(),
    };
    let x = p.0 + ":"@ + p.1;
    let y = q.0 + ":"@ + q.1;
    let end = ";"@ + ids_text(after);
    assert(exposure_of(a) == exposure_of(b));
    lemma_ids_text(before, p, after);
    lemma_ids_text(before, q, after);
    let head = "k:"@ + sdk_key + ";u:"@ + user_id_of(a) + ";s:"@ + stable_id_of(a, global) + ";"@;
    lemma_ids_between(head, ids_text(before), x, end, exposure_of(a), time);
    lemma_ids_between(head, ids_text(before), y, end, exposure_of(a), time);
    if event_key(sdk_key, a, global, now) == event_key(sdk_key, b, global, now) {
        lemma_between(head + ids_text(before), x, y, end + exposure_of(a) + time);
        reveal_strlit(":");
        assert(":"@ =~= seq![':']);
        text::lemma_same_up_to(p.0, p.1, q.0, q.1, ':');
    }
}

proof fn lemma_ids_between(
    head: Seq<char>,
    before: Seq<char>,
    x: Seq<char>,
    end: Seq<char>,
    exposure: Seq<char>,
    time: Seq<char>,
)
    ensures
        head + (before + x + end) + exposure + time == head + before + x + (end + exposure + time),
{
    assert(head + (before + x + end) + exposure + time =~= head + before + x + (end + exposure
        + time));
}

proof fn lemma_ids_text(
    before: Seq<(Seq<char>, Seq<char>)>,
    p: (Seq<char>, Seq<char>),
    after: Seq<(Seq<char>, Seq<char>)>,
)
    ensures
        ids_text(before + seq![p] + after) == ids_text(before) + (p.0 + ":"@ + p.1) + (";"@
            + ids_text(after)),
    decreases after.len(),
{
    let all = before + seq![p] + after;
    if after.len() == 0 {
        assert(all.drop_last() =~= before);
        assert(all.last() == p);
        assert(ids_text(all) =~= ids_text(before) + (p.0 + ":"@ + p.1) + (";"@ + ids_text(after)));
    } else {
        lemma_ids_text(before, p, after.drop_last());
        assert(all.drop_last() =~= before + seq![p] + after.drop_last());
        assert(all.last() == after.last());
        assert(ids_text(all) =~= ids_text(before) + (p.0 + ":"@ + p.1) + (";"@ + ids_text(after)));
    }
}

/// An exposure of a gate is never taken for that of a config.
pub proof fn law_gates_and_configs_are_told_apart(
    sdk_key: Seq<char>,
    a: LogEvent,
    b: LogEvent,
    global: Option<StatsigMetadata>,
    now: i64,
)
    requires
        b == (LogEvent { metadata: b.metadata, event_name: b.event_name, ..a }),
        a.event_name is GateExposure,
        b.event_name is ConfigExposure,
        log_event::metadata_value(a.metadata, "gate"@).len() > 0,
        log_event::metadata_value(a.metadata, "gate"@)[0] != '$',
    ensures
        event_key(sdk_key, a, global, now) != event_key(sdk_key, b, global, now),
{
    let before = "k:"@ + sdk_key + ";u:"@ + user_id_of(a) + ";s:"@ + stable_id_of(a, global) + ";"@
        + custom_ids_of(a);
    let after = match key_time(a.time, now) {
        Some(t) => ";t"@ + text::decimal(t as nat),
        None => Seq::empty(),
    };
    reveal_strlit("n:");
    reveal_strlit("n:$");
    if event_key(sdk_key, a, global, now) == event_key(sdk_key, b, global, now) {
        lemma_between(before, exposure_of(a), exposure_of(b), after);
        assert(exposure_of(a)[2] == log_event::metadata_value(a.metadata, "gate"@)[0]);
        assert(exposure_of(b)[2] == '$');
    }
}

/// Two exposures that differ in their times alone have different keys where the times are
/// in different minutes.
pub proof fn law_exposures_of_different_minutes_have_different_keys(
    sdk_key: Seq<char>,
    a: LogEvent,
    b: LogEvent,
    global: Option<StatsigMetadata>,
    now: i64,
    s: u64,
    t: u64,
)
    requires
        !(a.event_name is Other),
        b == (LogEvent { time: b.time, ..a }),
        a.time == Some(s) && b.time == Some(t),
        s <= LATEST_MILLIS && t <= LATEST_MILLIS,
        s / 60_000 != t / 60_000,
    ensures
        event_key(sdk_key, a, global, now) != event_key(sdk_key, b, global, now),
{
    law_times_are_rounded_to_the_minute(s, now);
    law_times_are_rounded_to_the_minute(t, now);
    let m = key_time(a.time, now)->0;
    let n = key_time(b.time, now)->0;
    assert(m != n);
    let before = "k:"@ + sdk_key + ";u:"@ + user_id_of(a) + ";s:"@ + stable_id_of(a, global) + ";"@
        + custom_ids_of(a) + exposure_of(a) + ";t"@;
    assert(exposure_of(a) == exposure_of(b));
    assert(event_key(sdk_key, a, global, now)->0 =~= before + text::decimal(m as nat));
    assert(event_key(sdk_key, b, global, now)->0 =~= before + text::decimal(n as nat));
    if event_key(sdk_key, a, global, now) == event_key(sdk_key, b, global, now) {
        lemma_behind(before, text::decimal(m as nat), text::decimal(n as nat));
        text::law_numbers_are_read_back(m as nat, n as nat, u64::MAX as int);
    }
}

/// What one decision does. Whatever is no exposure changes no memory, and is sent on where
/// it is an event. An exposure is remembered, and sent on unless it was remembered before;
/// the memory is cleared for it exactly where it is full, and never grows beyond its limit.
/// Earlier decisions stay.
pub proof fn law_each_event_is_decided_once(
    d: Decisions,
    limit: usize,
    event: PossiblyLogEvent,
    hash: u64,
    other: u64,
)
    requires
        d.remembered <= limit || d.remembered <= 1,
    ensures
        ({
            let n = decide(d, limit, event, hash);
            &&& n.kept.len() == d.kept.len() + 1
            &&& n.kept.take(d.kept.len() as int) == d.kept
            &&& event is InvalidLogEvent ==> !n.kept.last() && n.seen == d.seen && n.remembered
                == d.remembered && n.cleared == d.cleared
            &&& (event matches PossiblyLogEvent::ValidLogEvent(e) && e.event_name is Other)
                ==> n.kept.last() && n.seen == d.seen && n.remembered == d.remembered && n.cleared
                == d.cleared
            &&& (event matches PossiblyLogEvent::ValidLogEvent(e) && !(e.event_name is Other)) ==> {
                &&& n.seen.contains(hash)
                &&& n.cleared == d.cleared + (if d.remembered >= limit {
                    1int
                } else {
                    0
                })
                &&& d.remembered < limit ==> n.kept.last() == !d.seen.contains(hash)
                &&& d.remembered >= limit ==> n.kept.last()
                &&& other != hash ==> n.seen.contains(other) == (d.remembered < limit
                    && d.seen.contains(other))
                &&& n.remembered <= limit || n.remembered <= 1
                &&& n.remembered == (if d.remembered >= limit {
                    1int
                } else if d.seen.contains(hash) {
                    d.remembered as int
                } else {
                    d.remembered as int + 1
                })
            }
        }),
{
    let n = decide(d, limit, event, hash);
    assert(n.kept.take(d.kept.len() as int) =~= d.kept);
}

/// Events are decided one after the other, each by the hash of its own key.
pub proof fn law_events_are_decided_in_order(
    start: Decisions,
    limit: usize,
    events: Seq<PossiblyLogEvent>,
    event: PossiblyLogEvent,
    hasher: RandomState,
    sdk_key: Seq<char>,
    global: Option<StatsigMetadata>,
    now: i64,
)
    ensures
        ({
            let before = decisions(
                start,
                limit,
                events,
                event_hashes(hasher, sdk_key, global, events, now),
            );
            decisions(
                start,
                limit,
                events.push(event),
                event_hashes(hasher, sdk_key, global, events.push(event), now),
            ) == decide(before, limit, event, event_hash(hasher, sdk_key, global, event, now))
        }),
        decisions(start, limit, Seq::empty(), Seq::empty()) == start,
        (match event {
            PossiblyLogEvent::ValidLogEvent(e) => match event_key(sdk_key, e, global, now) {
                Some(key) => event_hash(hasher, sdk_key, global, event, now) == text_hash(
                    hasher,
                    key,
                ),
                None => e.event_name is Other,
            },
            PossiblyLogEvent::InvalidLogEvent => true,
        }),
{
    let all = events.push(event);
    let short = event_hashes(hasher, sdk_key, global, events, now);
    let long = event_hashes(hasher, sdk_key, global, all, now);
    assert(all.drop_last() =~= events);
    lemma_same_hashes(start, limit, events, short, long);
}

proof fn lemma_same_hashes(
    start: Decisions,
    limit: usize,
    events: Seq<PossiblyLogEvent>,
    a: Seq<u64>,
    b: Seq<u64>,
)
    requires
        forall|i: int| 0 <= i < events.len() ==> #[trigger] a[i] == b[i],
    ensures
        decisions(start, limit, events, a) == decisions(start, limit, events, b),
    decreases events.len(),
{
    if events.len() > 0 {
        lemma_same_hashes(start, limit, events.drop_last(), a, b);
        assert(a[events.len() - 1] == b[events.len() - 1]);
    }
}

/// The count of what is sent on is the number of events that are.
pub proof fn law_kept_events_are_counted(kept: Seq<bool>)
    ensures
        count_kept(kept) == kept.filter(|b: bool| b).len(),
    decreases kept.len(),
{
    reveal(Seq::filter);
    if kept.len() > 0 {
        law_kept_events_are_counted(kept.drop_last());
    }
}

/// An exposure that comes again is left out, unless the memory was full in between.
pub proof fn law_exposures_are_sent_once_while_remembered(
    d: Decisions,
    limit: usize,
    event: PossiblyLogEvent,
    hash: u64,
)
    requires
        event matches PossiblyLogEvent::ValidLogEvent(e) && !(e.event_name is Other),
    ensures
        ({
            let first = decide(d, limit, event, hash);
            let second = decide(first, limit, event, hash);
            &&& first.remembered < limit ==> !second.kept.last() && second.seen == first.seen
                && second.remembered == first.remembered
            &&& first.remembered >= limit ==> second.kept.last()
        }),
{
    let first = decide(d, limit, event, hash);
    if first.remembered < limit {
        assert(first.seen.insert(hash) =~= first.seen);
    }
}

/// How many events were left out is told as a count of the context, and that the memory was
/// cleared as one.
pub proof fn law_left_out_events_are_told(c: authorized_request_context::ContextView, count: i64)
    ensures
        deduped_event(c, count).event_type == ProxyEventType::LogEventStoreDeduped,
        deduped_event(c, count).context == Some(c),
        deduped_event(c, count).stat == Some(
            EventStat { operation_type: OperationType::IncrByValue, value: count },
        ),
        cleared_event().event_type == ProxyEventType::LogEventStoreDedupeCacheCleared,
        cleared_event().stat == Some(
            EventStat { operation_type: OperationType::IncrByValue, value: 1 },
        ),
{
}

} // verus!
