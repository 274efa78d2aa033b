//! Events as statistics: their names and tags, and batches in which increments
//! of one counter are added up.

use crate::clock;
use crate::clock::{Duration, Instant};
use crate::keyed_store;
use crate::keyed_store::{KeyedStore, StoreKey};
use crate::observers;
use crate::observers::{OperationType, ProxyEvent};
use crate::servers::authorized_request_context;
use crate::servers::normalized_path;
use crate::text;
use crate::utils::compress_encoder;
use std::sync::Arc;
use vstd::prelude::*;

verus! {

/// How statistics are sent, as the environment sets it.
#[derive(Debug, Clone)]
pub struct EnvConfig {
    pub datadog_max_batch_time_ms: Option<u64>,
    pub datadog_max_batch_event_count: Option<usize>,
    pub dogstatsd_max_buffer_size: Option<usize>,
    pub dogstatsd_max_time_ms: Option<u64>,
    pub dogstatsd_max_retry_attempt: Option<usize>,
    pub dogstatsd_initial_retry_delay: Option<u64>,
    pub statsd_host_override: Option<String>,
    pub statsd_port_override: Option<String>,
    pub statsd_socket: Option<String>,
    pub datadog_sender_buffer_size: Option<u64>,
    pub otel_exporter_endpoint: Option<String>,
}

/// The tags of the service as a whole, as the environment sets them.
#[derive(Debug, Clone)]
pub struct DefaultTagsConfig {
    pub dd_env: Option<String>,
    pub dd_version: Option<String>,
    pub dd_service: Option<String>,
}

/// One statistic to send.
#[derive(Debug)]
pub struct Operation {
    pub operation_type: OperationType,
    pub counter_name: String,
    pub value: i64,
    pub tags: Arc<Vec<String>>,
}

/// The model of a statistic.
pub struct OperationView {
    pub operation_type: OperationType,
    pub counter_name: Seq<char>,
    pub value: i64,
    pub tags: Seq<Seq<char>>,
}

impl View for Operation {
    type V = OperationView;

    open spec fn view(&self) -> OperationView {
        OperationView {
            operation_type: self.operation_type,
            counter_name: self.counter_name@,
            value: self.value,
            tags: text::texts(self.tags@),
        }
    }
}

/// The models of some statistics.
pub open spec fn operations(v: Seq<Operation>) -> Seq<OperationView> {
    v.map_values(|o: Operation| o@)
}

/// One tag, or none where there is no value for it.
pub open spec fn one_tag(name: Seq<char>, value: Option<Seq<char>>) -> Seq<Seq<char>> {
    match value {
        Some(v) => seq![name + v],
        None => Seq::empty(),
    }
}

/// The tags of an event.
pub open spec fn tags_of(e: observers::EventView) -> Seq<Seq<char>> {
    one_tag(
        "sdk_key:"@,
        match e.context {
            Some(c) => Some(observers::tagged_key(c.sdk_key)),
            None => None,
        },
    ) + one_tag(
        "path:"@,
        match e.context {
            Some(c) => Some(normalized_path::path_text(c.path)),
            None => None,
        },
    ) + one_tag(
        "lcut:"@,
        match e.lcut {
            Some(n) => Some(text::decimal(n as nat)),
            None => None,
        },
    ) + one_tag(
        "status_code:"@,
        match e.status_code {
            Some(n) => Some(text::decimal(n as nat)),
            None => None,
        },
    ) + one_tag("accept-encoding:"@, observers::accepted_tag(e)) + one_tag(
        "content-encoding:"@,
        e.response_encoding,
    )
}

/// The last part of the name of a counter.
pub open spec fn suffix_of(t: OperationType) -> Seq<char> {
    match t {
        OperationType::Distribution | OperationType::Timing => "latency"@,
        OperationType::Gauge => "gauge"@,
        OperationType::IncrByValue => "count"@,
    }
}

/// How a value is recorded: only one kind of sink takes distributions.
pub open spec fn recorded_type(t: OperationType, datadog: bool) -> OperationType {
    match t {
        OperationType::Distribution | OperationType::Timing => if datadog {
            OperationType::Distribution
        } else {
            OperationType::Timing
        },
        _ => t,
    }
}

/// The statistic of an event, where the event has a value.
pub open spec fn operation_of(e: observers::EventView, datadog: bool) -> Option<OperationView> {
    match e.stat {
        Some(stat) => Some(
            OperationView {
                operation_type: recorded_type(stat.operation_type, datadog),
                counter_name: "statsig.forward_proxy."@ + observers::event_name(e.event_type)
                    + "."@ + suffix_of(stat.operation_type),
                value: stat.value,
                tags: tags_of(e),
            },
        ),
        None => None,
    }
}

pub(crate) fn tag(name: &str, value: &str) -> (r: String)
    ensures
        r@ == name@ + value@,
{
    let mut s = name.to_owned();
    s.append(value);
    s
}

pub fn operation_suffix(operation_type: &OperationType) -> (r: &'static str)
    ensures
        r@ == suffix_of(*operation_type),
{
    match operation_type {
        OperationType::Distribution | OperationType::Timing => "latency",
        OperationType::Gauge => "gauge",
        OperationType::IncrByValue => "count",
    }
}

pub fn determine_operation_type(
    stat_operation_type: &OperationType,
    enable_datadog_logging: bool,
) -> (r: OperationType)
    ensures
        r == recorded_type(*stat_operation_type, enable_datadog_logging),
{
    match stat_operation_type {
        OperationType::Distribution | OperationType::Timing => if enable_datadog_logging {
            OperationType::Distribution
        } else {
            OperationType::Timing
        },
        _ => *stat_operation_type,
    }
}

pub fn create_counter_name(event_type: &str, suffix: &str) -> (r: String)
    ensures
        r@ == "statsig.forward_proxy."@ + event_type@ + "."@ + suffix@,
{
    let mut s = "statsig.forward_proxy.".to_owned();
    s.append(event_type);
    s.append(".");
    s.append(suffix);
    s
}

/// The tags of an event, in a fixed order.
pub fn create_tags(event: &ProxyEvent) -> (r: Vec<String>)
    requires
        event@.context matches Some(c) ==> observers::is_loggable(c.sdk_key),
    ensures
        text::texts(r@) == tags_of(event@),
{
    let mut tags: Vec<String> = Vec::new();
    let ghost none = Seq::<Seq<char>>::empty();
    assert(text::texts(tags@) =~= none);
    let ghost e = event@;
    if let Some(sdk_key) = event.get_sdk_key() {
        let ghost before = tags@;
        tags.push(tag("sdk_key:", sdk_key.as_str()));
        assert(text::texts(tags@) =~= text::texts(before).push("sdk_key:"@ + sdk_key@));
    }
    if let Some(path) = event.get_path() {
        let ghost before = tags@;
        tags.push(tag("path:", path));
        assert(text::texts(tags@) =~= text::texts(before).push("path:"@ + path@));
    }
    if let Some(lcut) = event.lcut {
        let ghost before = tags@;
        let number = text::decimal_string(lcut);
        tags.push(tag("lcut:", number.as_str()));
        assert(text::texts(tags@) =~= text::texts(before).push("lcut:"@ + number@));
    }
    if let Some(code) = event.status_code {
        let ghost before = tags@;
        let number = text::decimal_string(code as u64);
        tags.push(tag("status_code:", number.as_str()));
        assert(text::texts(tags@) =~= text::texts(before).push("status_code:"@ + number@));
    }
    if let Some(encodings) = event.get_accept_encodings() {
        let ghost before = tags@;
        tags.push(tag("accept-encoding:", encodings.as_str()));
        assert(text::texts(tags@) =~= text::texts(before).push("accept-encoding:"@ + encodings@));
    }
    if let Some(enc) = &event.response_encoding {
        let ghost before = tags@;
        tags.push(tag("content-encoding:", enc.as_str()));
        assert(text::texts(tags@) =~= text::texts(before).push("content-encoding:"@ + enc@));
    }
    assert(text::texts(tags@) =~= tags_of(e));
    tags
}

/// The text of an optional part of a key.
pub open spec fn key_text(t: Option<Seq<char>>) -> Seq<char> {
    match t {
        Some(v) => v,
        None => Seq::empty(),
    }
}

/// What the tags of an event depend on, as a key.
pub open spec fn tag_key(e: observers::EventView) -> keyed_store::KeyView {
    (
        seq![key_text(e.accept_encoding), key_text(e.response_encoding)] + (match e.context {
            Some(c) => authorized_request_context::identity_key(c.identity()).0,
            None => Seq::empty(),
        }),
        seq![
            authorized_request_context::bit(e.accept_encoding is Some),
            authorized_request_context::bit(e.response_encoding is Some),
            authorized_request_context::bit(e.lcut is Some),
            match e.lcut {
                Some(n) => n,
                None => 0,
            },
            authorized_request_context::bit(e.status_code is Some),
            match e.status_code {
                Some(n) => n as u64,
                None => 0,
            },
            authorized_request_context::bit(e.context is Some),
        ] + (match e.context {
            Some(c) => authorized_request_context::identity_key(c.identity()).1,
            None => Seq::empty(),
        }),
    )
}

/// Events with the same key have the same tags.
pub proof fn lemma_tag_key(a: observers::EventView, b: observers::EventView)
    requires
        tag_key(a) == tag_key(b),
    ensures
        tags_of(a) == tags_of(b),
{
    let (na, ma) = tag_key(a);
    let (nb, mb) = tag_key(b);
    assert(na[0] == nb[0] && na[1] == nb[1]);
    assert(ma[0] == mb[0] && ma[1] == mb[1] && ma[2] == mb[2] && ma[3] == mb[3] && ma[4] == mb[4]
        && ma[5] == mb[5] && ma[6] == mb[6]);
    assert(a.lcut == b.lcut);
    assert(a.status_code == b.status_code);
    assert(a.accept_encoding == b.accept_encoding);
    assert(a.response_encoding == b.response_encoding);
    if let (Some(c), Some(d)) = (a.context, b.context) {
        let ka = authorized_request_context::identity_key(c.identity());
        let kb = authorized_request_context::identity_key(d.identity());
        assert(ka.0 =~= na.skip(2));
        assert(kb.0 =~= nb.skip(2));
        assert(ka.1 =~= ma.skip(7));
        assert(kb.1 =~= mb.skip(7));
        authorized_request_context::lemma_identity_key_injective(c.identity(), d.identity());
        assert(c.encodings == d.encodings);
        assert((|x: compress_encoder::CompressionEncoder| c.encodings.contains(x))
            =~= (|x: compress_encoder::CompressionEncoder| d.encodings.contains(x)));
    }
}

/// The same event always has the same tags, whatever its value.
pub proof fn law_same_events_share_their_tags(a: observers::EventView, b: observers::EventView)
    requires
        observers::same_event(a, b),
    ensures
        tags_of(a) == tags_of(b),
{
    lemma_tag_key(a, b);
}

/// Tags that were made before.
struct CachedTags {
    tags: Arc<Vec<String>>,
    made_at: Instant,
}

/// Makes statistics of events.
pub struct StatsLogger {
    enable_datadog_logging: bool,
    tag_cache: KeyedStore<CachedTags>,
}

impl StatsLogger {
    /// Cached tags are those of every event with their key.
    pub closed spec fn wf(&self) -> bool {
        &&& self.tag_cache.wf()
        &&& forall|k: keyed_store::KeyView, e: observers::EventView|
            self.tag_cache@.contains_key(k) && #[trigger] tag_key(e) == k ==> text::texts(
                (#[trigger] self.tag_cache@[k]).tags@,
            ) == tags_of(e)
    }

    pub closed spec fn datadog(&self) -> bool {
        self.enable_datadog_logging
    }

    /// When the cached tags were made.
    pub closed spec fn made_at(&self) -> Map<keyed_store::KeyView, Instant> {
        self.tag_cache@.map_values(|t: CachedTags| t.made_at)
    }

    pub fn new(enable_datadog_logging: bool) -> (r: Self)
        ensures
            r.wf(),
            r.datadog() == enable_datadog_logging,
            r.made_at() == Map::<keyed_store::KeyView, Instant>::empty(),
    {
        let r = StatsLogger { enable_datadog_logging, tag_cache: KeyedStore::new() };
        assert(r.made_at() =~= Map::<keyed_store::KeyView, Instant>::empty());
        r
    }

    fn tag_store_key(event: &ProxyEvent) -> (r: StoreKey)
        ensures
            r@ == tag_key(event@),
    {
        let mut names: Vec<String> = Vec::new();
        let mut numbers: Vec<u64> = Vec::new();
        names.push(
            match &event.accept_encoding {
                Some(t) => t.clone(),
                None => String::new(),
            },
        );
        names.push(
            match &event.response_encoding {
                Some(t) => t.clone(),
                None => String::new(),
            },
        );
        numbers.push(if event.accept_encoding.is_some() { 1 } else { 0 });
        numbers.push(if event.response_encoding.is_some() { 1 } else { 0 });
        numbers.push(if event.lcut.is_some() { 1 } else { 0 });
        numbers.push(
            match event.lcut {
                Some(n) => n,
                None => 0,
            },
        );
        numbers.push(if event.status_code.is_some() { 1 } else { 0 });
        numbers.push(
            match event.status_code {
                Some(n) => n as u64,
                None => 0,
            },
        );
        numbers.push(if event.request_context.is_some() { 1 } else { 0 });
        if let Some(rc) = &event.request_context {
            let mut key = rc.store_key();
            let ghost k = key@;
            names.append(&mut key.names);
            numbers.append(&mut key.numbers);
            assert(text::texts(names@) =~= tag_key(event@).0);
        }
        assert(text::texts(names@) =~= tag_key(event@).0);
        assert(numbers@ =~= tag_key(event@).1);
        StoreKey { names, numbers }
    }

    /// The tags of an event, from the cache where they are there.
    pub fn get_or_create_tags(&mut self, event: &ProxyEvent, now: Instant) -> (r: Arc<Vec<String>>)
        requires
            old(self).wf(),
            event@.context matches Some(c) ==> observers::is_loggable(c.sdk_key),
        ensures
            final(self).wf(),
            final(self).datadog() == old(self).datadog(),
            text::texts(r@) == tags_of(event@),
            final(self).made_at() == if old(self).made_at().contains_key(tag_key(event@)) {
                old(self).made_at()
            } else {
                old(self).made_at().insert(tag_key(event@), now)
            },
    {
        let key = Self::tag_store_key(event);
        if let Some(cached) = self.tag_cache.get(&key) {
            return keyed_store::share(&cached.tags);
        }
        let tags = Arc::new(create_tags(event));
        let ghost before = self.tag_cache@;
        self.tag_cache.insert(key, CachedTags { tags: keyed_store::share(&tags), made_at: now });
        proof {
            assert forall|k: keyed_store::KeyView, e: observers::EventView|
                self.tag_cache@.contains_key(k) && #[trigger] tag_key(e) == k implies text::texts(
                (#[trigger] self.tag_cache@[k]).tags@,
            ) == tags_of(e) by {
                if k == tag_key(event@) {
                    lemma_tag_key(e, event@);
                } else {
                    assert(before.contains_key(k) && self.tag_cache@[k] == before[k]);
                }
            }
            assert(self.made_at() =~= old(self).made_at().insert(tag_key(event@), now));
        }
        tags
    }

    /// The statistic to send for an event.
    pub fn handle_event(&mut self, event: &ProxyEvent, now: Instant) -> (r: Option<Operation>)
        requires
            old(self).wf(),
            event@.context matches Some(c) ==> observers::is_loggable(c.sdk_key),
        ensures
            final(self).wf(),
            final(self).datadog() == old(self).datadog(),
            (match r {
                Some(o) => Some(o@),
                None => None,
            }) == operation_of(event@, old(self).datadog()),
            final(self).made_at() == if event@.stat is None || old(self).made_at().contains_key(
                tag_key(event@),
            ) {
                old(self).made_at()
            } else {
                old(self).made_at().insert(tag_key(event@), now)
            },
    {
        match event.stat {
            Some(stat) => {
                let tags = self.get_or_create_tags(event, now);
                Some(
                    Operation {
                        operation_type: determine_operation_type(
                            &stat.operation_type,
                            self.enable_datadog_logging,
                        ),
                        counter_name: create_counter_name(
                            event.event_type.to_str(),
                            operation_suffix(&stat.operation_type),
                        ),
                        value: stat.value,
                        tags,
                    },
                )
            },
            None => None,
        }
    }

    /// Keeps the cached tags that were made more than a minute ago.
    pub fn prune_tag_cache(&mut self, now: Instant)
        requires
            old(self).wf(),
        ensures
            final(self).wf(),
            final(self).datadog() == old(self).datadog(),
            final(self).made_at() == old(self).made_at().restrict(
                Set::new(
                    |k: keyed_store::KeyView|
                        old(self).made_at().contains_key(k) && now@ - old(self).made_at()[k]@
                            > 60_000_000_000,
                ),
            ),
    {
        let ghost before = self.tag_cache@;
        let keys = self.tag_cache.keys();
        let limit = Duration::from_secs(60);
        let mut i: usize = 0;
        while i < keys.len()
            invariant
                i <= keys@.len(),
                self.tag_cache.wf(),
                limit@ == 60_000_000_000,
                self.enable_datadog_logging == old(self).enable_datadog_logging,
                before == old(self).tag_cache@,
                forall|k: keyed_store::KeyView| #[trigger]
                    self.tag_cache@.contains_key(k) ==> before.contains_key(k)
                        && self.tag_cache@[k] == before[k],
                forall|k: keyed_store::KeyView|
                    before.contains_key(k) ==> exists|j: int|
                        0 <= j < keys@.len() && #[trigger] keys@[j]@ == k,
                forall|k: keyed_store::KeyView|
                    before.contains_key(k) && now@ - before[k].made_at@ > 60_000_000_000
                        ==> #[trigger] self.tag_cache@.contains_key(k),
                forall|j: int|
                    0 <= j < i && before.contains_key((#[trigger] keys@[j])@) && now@
                        - before[keys@[j]@].made_at@ <= 60_000_000_000
                        ==> !self.tag_cache@.contains_key(keys@[j]@),
            decreases keys@.len() - i,
        {
            let fresh = match self.tag_cache.get(&keys[i]) {
                Some(cached) => now.saturating_duration_since(&cached.made_at).at_most(&limit),
                None => false,
            };
            if fresh {
                self.tag_cache.remove(&keys[i]);
            }
            i += 1;
        }
        proof {
            let wanted = Set::new(
                |k: keyed_store::KeyView|
                    old(self).made_at().contains_key(k) && now@ - old(self).made_at()[k]@
                        > 60_000_000_000,
            );
            assert forall|k: keyed_store::KeyView|
                self.made_at().contains_key(k) == old(self).made_at().restrict(
                    wanted,
                ).contains_key(k) by {
                if before.contains_key(k) {
                    let j = choose|j: int| 0 <= j < keys@.len() && #[trigger] keys@[j]@ == k;
                    assert(keys@[j]@ == k);
                }
            }
            assert(self.made_at() =~= old(self).made_at().restrict(wanted));
        }
    }
}

/// What increments of one counter share, as a key.
pub open spec fn counter_key(o: OperationView) -> keyed_store::KeyView {
    (seq![o.counter_name] + o.tags, Seq::empty())
}

/// What is waiting to be sent: increments, added up by their counters, and all
/// other statistics in order.
pub struct BatchView {
    pub increments: Map<keyed_store::KeyView, i64>,
    pub others: Seq<OperationView>,
}

/// Nothing is waiting.
pub open spec fn empty_batch() -> BatchView {
    BatchView { increments: Map::empty(), others: Seq::empty() }
}

/// The sum that an increment makes.
pub open spec fn added_up(b: BatchView, o: OperationView) -> int {
    if b.increments.contains_key(counter_key(o)) {
        b.increments[counter_key(o)] + o.value
    } else {
        o.value as int
    }
}

/// Whether the sum that a statistic makes can be held.
pub open spec fn fits(b: BatchView, o: OperationView) -> bool {
    o.operation_type is IncrByValue ==> i64::MIN <= added_up(b, o) <= i64::MAX
}

/// A batch with one more statistic.
pub open spec fn with_operation(b: BatchView, o: OperationView) -> BatchView {
    if o.operation_type is IncrByValue {
        BatchView {
            increments: b.increments.insert(counter_key(o), added_up(b, o) as i64),
            others: b.others,
        }
    } else {
        BatchView { increments: b.increments, others: b.others.push(o) }
    }
}

/// Whether statistics are what a batch is sent as: one increment for each
/// counter, in any order, and then the others as they came.
pub open spec fn is_sent_as(b: BatchView, sent: Seq<OperationView>) -> bool {
    let n = b.increments.len() as int;
    &&& sent.len() == n + b.others.len()
    &&& sent.skip(n) == b.others
    &&& forall|k: keyed_store::KeyView| #[trigger]
        b.increments.contains_key(k) ==> exists|j: int|
            0 <= j < n && counter_key(#[trigger] sent[j]) == k
    &&& forall|j: int|
        0 <= j < n ==> (#[trigger] sent[j]).operation_type is IncrByValue
            && b.increments.contains_key(counter_key(sent[j])) && sent[j].value
            == b.increments[counter_key(sent[j])]
}

/// A sum of increments.
struct Increment {
    counter_name: String,
    tags: Arc<Vec<String>>,
    value: i64,
}

/// Statistics that wait to be sent together.
pub struct OperationBatch {
    batch: Vec<Operation>,
    incr_op_map: KeyedStore<Increment>,
    last_updated: Instant,
    max_batch_size: usize,
    max_batch_time: Duration,
}

impl View for OperationBatch {
    type V = BatchView;

    closed spec fn view(&self) -> BatchView {
        BatchView {
            increments: self.incr_op_map@.map_values(|i: Increment| i.value),
            others: operations(self.batch@),
        }
    }
}

impl OperationBatch {
    /// Sums are kept under the keys of their counters.
    pub closed spec fn wf(&self) -> bool {
        &&& self.incr_op_map.wf()
        &&& forall|k: keyed_store::KeyView| #[trigger]
            self.incr_op_map@.contains_key(k) ==> k == (
                seq![self.incr_op_map@[k].counter_name@] + text::texts(
                    self.incr_op_map@[k].tags@,
                ),
                Seq::<u64>::empty(),
            )
    }

    pub closed spec fn last_updated(&self) -> Instant {
        self.last_updated
    }

    pub closed spec fn max_size(&self) -> usize {
        self.max_batch_size
    }

    pub closed spec fn max_time(&self) -> Duration {
        self.max_batch_time
    }

    pub fn new(config: &EnvConfig, now: Instant) -> (r: Self)
        ensures
            r.wf(),
            r@ == empty_batch(),
            r.last_updated() == now,
            r.max_size() == (match config.datadog_max_batch_event_count {
                Some(n) => n,
                None => 3000,
            }),
            r.max_time()@ == 1_000_000 * (match config.datadog_max_batch_time_ms {
                Some(n) => n as int,
                None => 10000,
            }),
    {
        let size: usize = match config.datadog_max_batch_event_count {
            Some(n) => n,
            None => 3000,
        };
        let time: u64 = match config.datadog_max_batch_time_ms {
            Some(n) => n,
            None => 10000,
        };
        let r = OperationBatch {
            batch: Vec::new(),
            incr_op_map: KeyedStore::new(),
            last_updated: now,
            max_batch_size: size,
            max_batch_time: Duration::from_millis(time),
        };
        assert(r@.increments =~= Map::<keyed_store::KeyView, i64>::empty());
        assert(r@.others =~= Seq::<OperationView>::empty());
        r
    }

    /// A batch that nothing waits in.
    pub(crate) fn empty() -> (r: Self)
        ensures
            r.wf(),
            r@ == empty_batch(),
    {
        let r = OperationBatch {
            batch: Vec::new(),
            incr_op_map: KeyedStore::new(),
            last_updated: Instant::at(Duration::zero()),
            max_batch_size: usize::MAX,
            max_batch_time: Duration::zero(),
        };
        assert(r@.increments =~= Map::<keyed_store::KeyView, i64>::empty());
        assert(r@.others =~= Seq::<OperationView>::empty());
        r
    }

    fn key_of(counter_name: &String, tags: &Vec<String>) -> (r: StoreKey)
        ensures
            r@ == (seq![counter_name@] + text::texts(tags@), Seq::<u64>::empty()),
    {
        let mut names: Vec<String> = Vec::new();
        names.push(counter_name.clone());
        let mut rest = keyed_store::clone_texts(tags);
        names.append(&mut rest);
        let r = StoreKey { names, numbers: Vec::new() };
        assert(text::texts(r.names@) =~= seq![counter_name@] + text::texts(tags@));
        r
    }

    /// Whether the sum that a statistic makes can be held.
    pub fn can_record(&self, operation: &Operation) -> (r: bool)
        requires
            self.wf(),
        ensures
            r == fits(self@, operation@),
    {
        match operation.operation_type {
            OperationType::IncrByValue => {
                let key = Self::key_of(&operation.counter_name, &operation.tags);
                match self.incr_op_map.get(&key) {
                    Some(found) => found.value.checked_add(operation.value).is_some(),
                    None => true,
                }
            },
            _ => true,
        }
    }

    /// Adds one statistic to the batch.
    pub(crate) fn add(&mut self, operation: Operation)
        requires
            old(self).wf(),
            fits(old(self)@, operation@),
        ensures
            final(self).wf(),
            final(self)@ == with_operation(old(self)@, operation@),
            final(self).last_updated() == old(self).last_updated(),
            final(self).max_size() == old(self).max_size(),
            final(self).max_time() == old(self).max_time(),
    {
        let ghost b = with_operation(self@, operation@);
        match operation.operation_type {
            OperationType::IncrByValue => {
                let key = Self::key_of(&operation.counter_name, &operation.tags);
                let value: i64 = match self.incr_op_map.get(&key) {
                    Some(found) => found.value + operation.value,
                    None => operation.value,
                };
                self.incr_op_map.insert(
                    key,
                    Increment { counter_name: operation.counter_name, tags: operation.tags, value },
                );
                assert(self@.increments =~= b.increments);
            },
            _ => {
                self.batch.push(operation);
                assert(self@.others =~= b.others);
            },
        }
        assert(self@ == b);
    }

    /// Takes one statistic. Where the batch is then full or old, it is emptied, and
    /// what it held is what is to be sent.
    pub fn record(&mut self, operation: Operation, now: Instant) -> (r: Option<Vec<Operation>>)
        requires
            old(self).wf(),
            fits(old(self)@, operation@),
        ensures
            final(self).wf(),
            final(self).max_size() == old(self).max_size(),
            final(self).max_time() == old(self).max_time(),
            r is Some <==> batch_is_due(
                (with_operation(old(self)@, operation@).others.len() + with_operation(
                    old(self)@,
                    operation@,
                ).increments.len()) as int,
                clock::max(now@ - old(self).last_updated()@, 0),
                old(self).max_size() as int,
                old(self).max_time()@,
            ),
            ({
                let b = with_operation(old(self)@, operation@);
                let waited = clock::max(now@ - old(self).last_updated()@, 0);
                let due = b.others.len() + b.increments.len() >= old(self).max_size() || waited
                    >= old(self).max_time()@;
                match r {
                    Some(sent) => due && is_sent_as(b, operations(sent@)) && final(self)@
                        == empty_batch() && final(self).last_updated() == now,
                    None => !due && final(self)@ == b && final(self).last_updated() == old(
                        self,
                    ).last_updated(),
                }
            }),
    {
        self.add(operation);
        assert(self@.increments.dom() =~= self.incr_op_map@.dom());
        let waiting: usize = self.batch.len();
        let sums: usize = self.incr_op_map.len();
        let full = waiting >= self.max_batch_size || sums >= self.max_batch_size - waiting;
        broadcast use clock::group_time;
        let old_enough = self.max_batch_time.at_most(
            &now.saturating_duration_since(&self.last_updated),
        );
        if full || old_enough {
            let sent = self.flush();
            self.last_updated = now;
            Some(sent)
        } else {
            None
        }
    }

    /// Empties the batch.
    pub(crate) fn flush(&mut self) -> (r: Vec<Operation>)
        requires
            old(self).wf(),
        ensures
            final(self).wf(),
            final(self)@ == empty_batch(),
            final(self).last_updated() == old(self).last_updated(),
            final(self).max_size() == old(self).max_size(),
            final(self).max_time() == old(self).max_time(),
            is_sent_as(old(self)@, operations(r@)),
    {
        let ghost b = self@;
        let ghost sums = self.incr_op_map@;
        let keys = self.incr_op_map.keys();
        proof {
            let views = keys@.map_values(|k: StoreKey| k@);
            assert forall|i: int, j: int| 0 <= i < views.len() && 0 <= j < views.len() && i
                != j implies views[i] != views[j] by {
                if i < j {
                    assert(keys@[i]@ != keys@[j]@);
                } else {
                    assert(keys@[j]@ != keys@[i]@);
                }
            }
            assert(views.no_duplicates());
            views.unique_seq_to_set();
            assert forall|k: keyed_store::KeyView| views.to_set().contains(k)
                == sums.dom().contains(k) by {
                if sums.contains_key(k) {
                    let j = choose|j: int| 0 <= j < keys@.len() && #[trigger] keys@[j]@ == k;
                    assert(views[j] == k);
                } else if views.contains(k) {
                    let j = choose|j: int| 0 <= j < views.len() && views[j] == k;
                    assert(keys@[j]@ == k);
                }
            }
            assert(views.to_set() =~= sums.dom());
            assert(b.increments.dom() =~= sums.dom());
            assert(keys@.len() == b.increments.len());
        }
        let mut sent: Vec<Operation> = Vec::new();
        let mut i: usize = 0;
        while i < keys.len()
            invariant
                i <= keys@.len(),
                self.wf(),
                sums == self.incr_op_map@,
                b == self@,
                self.last_updated == old(self).last_updated,
                self.max_batch_size == old(self).max_batch_size,
                self.max_batch_time == old(self).max_batch_time,
                sent@.len() == i,
                forall|k: keyed_store::KeyView|
                    sums.contains_key(k) <==> exists|j: int|
                        0 <= j < keys@.len() && #[trigger] keys@[j]@ == k,
                forall|j: int|
                    0 <= j < i ==> (#[trigger] sent@[j])@.operation_type is IncrByValue
                        && counter_key(sent@[j]@) == keys@[j]@ && sums.contains_key(keys@[j]@)
                        && sent@[j]@.value == sums[keys@[j]@].value,
            decreases keys@.len() - i,
        {
            assert(keys@[i as int]@ == keys@[i as int]@);
            if let Some(sum) = self.incr_op_map.get(&keys[i]) {
                sent.push(
                    Operation {
                        operation_type: OperationType::IncrByValue,
                        counter_name: sum.counter_name.clone(),
                        value: sum.value,
                        tags: keyed_store::share(&sum.tags),
                    },
                );
            }
            i += 1;
        }
        let ghost firsts = sent@;
        let mut rest: Vec<Operation> = Vec::new();
        std::mem::swap(&mut rest, &mut self.batch);
        let ghost others = rest@;
        sent.append(&mut rest);
        self.incr_op_map.clear();
        proof {
            let n = b.increments.len() as int;
            let ops = operations(sent@);
            assert(sent@ =~= firsts + others);
            assert(ops.skip(n) =~= b.others);
            assert forall|k: keyed_store::KeyView| #[trigger]
                b.increments.contains_key(k) implies exists|j: int|
                0 <= j < n && counter_key(#[trigger] ops[j]) == k by {
                assert(sums.contains_key(k));
                let j = choose|j: int| 0 <= j < keys@.len() && #[trigger] keys@[j]@ == k;
                assert(firsts[j]@ == ops[j]);
            }
            assert forall|j: int| 0 <= j < n implies (#[trigger] ops[j]).operation_type is IncrByValue
                && b.increments.contains_key(counter_key(ops[j])) && ops[j].value
                == b.increments[counter_key(ops[j])] by {
                assert(firsts[j]@ == ops[j]);
            }
            assert(self@.increments =~= Map::<keyed_store::KeyView, i64>::empty());
            assert(self@.others =~= Seq::<OperationView>::empty());
        }
        sent
    }
}

/// A batch after some statistics.
pub open spec fn with_operations(ops: Seq<OperationView>) -> BatchView
    decreases ops.len(),
{
    if ops.len() == 0 {
        empty_batch()
    } else {
        with_operation(with_operations(ops.drop_last()), ops.last())
    }
}

/// What the increments of one counter come to.
pub open spec fn total(ops: Seq<OperationView>, k: keyed_store::KeyView) -> int
    decreases ops.len(),
{
    if ops.len() == 0 {
        0
    } else {
        total(ops.drop_last(), k) + if ops.last().operation_type is IncrByValue && counter_key(
            ops.last(),
        ) == k {
            ops.last().value as int
        } else {
            0
        }
    }
}

/// Every sum on the way can be held.
pub open spec fn all_fit(ops: Seq<OperationView>) -> bool {
    forall|i: int|
        0 <= i < ops.len() ==> fits(with_operations(ops.take(i)), #[trigger] ops[i])
}

/// Nothing gets lost in a batch: a counter has an entry where it was incremented,
/// with the sum of its increments, and all other statistics wait as they came.
pub proof fn law_batches_add_up(ops: Seq<OperationView>)
    requires
        all_fit(ops),
    ensures
        forall|k: keyed_store::KeyView| #[trigger]
            with_operations(ops).increments.contains_key(k) <==> exists|i: int|
                0 <= i < ops.len() && (#[trigger] ops[i]).operation_type is IncrByValue
                    && counter_key(ops[i]) == k,
        forall|k: keyed_store::KeyView| #[trigger]
            with_operations(ops).increments.contains_key(k)
                ==> with_operations(ops).increments[k] == total(ops, k),
        with_operations(ops).others == ops.filter(
            |o: OperationView| !(o.operation_type is IncrByValue),
        ),
{
    lemma_others(ops);
    lemma_incremented(ops);
    lemma_sums(ops);
}

proof fn lemma_others(ops: Seq<OperationView>)
    ensures
        with_operations(ops).others == ops.filter(
            |o: OperationView| !(o.operation_type is IncrByValue),
        ),
    decreases ops.len(),
{
    reveal(Seq::filter);
    if ops.len() > 0 {
        lemma_others(ops.drop_last());
    }
}

proof fn lemma_incremented(ops: Seq<OperationView>)
    ensures
        forall|k: keyed_store::KeyView| #[trigger]
            with_operations(ops).increments.contains_key(k) <==> exists|i: int|
                0 <= i < ops.len() && (#[trigger] ops[i]).operation_type is IncrByValue
                    && counter_key(ops[i]) == k,
    decreases ops.len(),
{
    if ops.len() > 0 {
        let init = ops.drop_last();
        let b = with_operations(init);
        lemma_incremented(init);
        assert forall|k: keyed_store::KeyView| #[trigger]
            with_operations(ops).increments.contains_key(k) implies exists|i: int|
            0 <= i < ops.len() && (#[trigger] ops[i]).operation_type is IncrByValue && counter_key(
                ops[i],
            ) == k by {
            if b.increments.contains_key(k) {
                let i = choose|i: int|
                    0 <= i < init.len() && (#[trigger] init[i]).operation_type is IncrByValue
                        && counter_key(init[i]) == k;
                assert(ops[i] == init[i]);
            } else {
                assert(ops[ops.len() - 1] == ops.last());
            }
        }
        assert forall|k: keyed_store::KeyView|
            (exists|i: int|
                0 <= i < ops.len() && (#[trigger] ops[i]).operation_type is IncrByValue
                    && counter_key(ops[i]) == k) implies #[trigger] with_operations(
            ops,
        ).increments.contains_key(k) by {
            let i = choose|i: int|
                0 <= i < ops.len() && (#[trigger] ops[i]).operation_type is IncrByValue
                    && counter_key(ops[i]) == k;
            if i < init.len() {
                assert(init[i] == ops[i]);
                assert(b.increments.contains_key(k));
            }
        }
    }
}

proof fn lemma_sums(ops: Seq<OperationView>)
    requires
        all_fit(ops),
    ensures
        forall|k: keyed_store::KeyView| #[trigger]
            with_operations(ops).increments.contains_key(k)
                ==> with_operations(ops).increments[k] == total(ops, k),
    decreases ops.len(),
{
    if ops.len() > 0 {
        let init = ops.drop_last();
        let b = with_operations(init);
        assert(init == ops.take(ops.len() - 1));
        assert forall|i: int| 0 <= i < init.len() implies fits(
            with_operations(init.take(i)),
            #[trigger] init[i],
        ) by {
            assert(init.take(i) =~= ops.take(i));
            assert(init[i] == ops[i]);
        }
        lemma_sums(init);
        lemma_incremented(init);
        assert(fits(b, ops[ops.len() - 1]));
        assert forall|k: keyed_store::KeyView| #[trigger]
            with_operations(ops).increments.contains_key(k) implies with_operations(
            ops,
        ).increments[k] == total(ops, k) by {
            if !b.increments.contains_key(k) {
                lemma_no_total(init, k);
            }
        }
    }
}

/// A counter that was never incremented has nothing to add up.
proof fn lemma_no_total(ops: Seq<OperationView>, k: keyed_store::KeyView)
    requires
        forall|i: int|
            0 <= i < ops.len() && (#[trigger] ops[i]).operation_type is IncrByValue ==> counter_key(
                ops[i],
            ) != k,
    ensures
        total(ops, k) == 0,
    decreases ops.len(),
{
    if ops.len() > 0 {
        assert forall|i: int|
            0 <= i < ops.drop_last().len() && (
            #[trigger] ops.drop_last()[i]).operation_type is IncrByValue implies counter_key(
            ops.drop_last()[i],
        ) != k by {
            assert(ops.drop_last()[i] == ops[i]);
        }
        lemma_no_total(ops.drop_last(), k);
        assert(ops[ops.len() - 1] == ops.last());
    }
}

/// The names and values of tags, without those that have no colon.
pub open spec fn metadata_of(tags: Seq<Seq<char>>) -> Seq<(Seq<char>, Seq<char>)>
    decreases tags.len(),
{
    if tags.len() == 0 {
        Seq::empty()
    } else {
        match text::split_once_spec(tags.last(), ':') {
            Some(pair) => metadata_of(tags.drop_last()).push(pair),
            None => metadata_of(tags.drop_last()),
        }
    }
}

/// Splits a tag at its first colon.
pub fn parse_key_value(s: &str) -> (r: Option<(String, String)>)
    ensures
        (match r {
            Some((k, v)) => Some((k@, v@)),
            None => None,
        }) == text::split_once_spec(s@, ':'),
{
    match text::split_once(s, ':') {
        Some((key, value)) => Some((key.to_owned(), value.to_owned())),
        None => None,
    }
}

/// The tags of a statistic as the metadata of an event.
pub fn event_metadata(tags: &Vec<String>) -> (r: Vec<(String, String)>)
    ensures
        text::pair_texts(r@) == metadata_of(text::texts(tags@)),
{
    let mut r: Vec<(String, String)> = Vec::new();
    let ghost all = text::texts(tags@);
    let mut i: usize = 0;
    while i < tags.len()
        invariant
            i <= tags@.len(),
            all == text::texts(tags@),
            text::pair_texts(r@) == metadata_of(all.take(i as int)),
        decreases tags@.len() - i,
    {
        let ghost before = r@;
        assert(all.take(i + 1).drop_last() =~= all.take(i as int));
        if let Some((key, value)) = parse_key_value(tags[i].as_str()) {
            r.push((key, value));
            assert(text::pair_texts(r@) =~= text::pair_texts(before).push((key@, value@)));
        }
        i += 1;
    }
    assert(all.take(i as int) =~= all);
    r
}

/// The names and values of tags as attributes: a value starts with its colon.
pub open spec fn attributes_of(tags: Seq<Seq<char>>) -> Seq<(Seq<char>, Seq<char>)>
    decreases tags.len(),
{
    if tags.len() == 0 {
        Seq::empty()
    } else {
        match text::split_once_spec(tags.last(), ':') {
            Some((name, value)) => attributes_of(tags.drop_last()).push((name, ":"@ + value)),
            None => attributes_of(tags.drop_last()),
        }
    }
}

/// The tags of a statistic as attributes of a measurement.
pub fn convert_tags(tags: &Vec<String>) -> (r: Vec<(String, String)>)
    ensures
        text::pair_texts(r@) == attributes_of(text::texts(tags@)),
{
    let mut r: Vec<(String, String)> = Vec::new();
    let ghost all = text::texts(tags@);
    let mut i: usize = 0;
    while i < tags.len()
        invariant
            i <= tags@.len(),
            all == text::texts(tags@),
            text::pair_texts(r@) == attributes_of(all.take(i as int)),
        decreases tags@.len() - i,
    {
        let ghost before = r@;
        assert(all.take(i + 1).drop_last() =~= all.take(i as int));
        if let Some((key, value)) = text::split_once(tags[i].as_str(), ':') {
            let attribute = tag(":", value);
            r.push((key.to_owned(), attribute));
            assert(text::pair_texts(r@) =~= text::pair_texts(before).push((key@, ":"@ + value@)));
        }
        i += 1;
    }
    assert(all.take(i as int) =~= all);
    r
}

/// What records a value in telemetry.
#[derive(Debug, Clone, Copy, PartialEq, Eq, Structural)]
pub enum Instrument {
    Histogram,
    Gauge,
    Counter,
}

/// What records a kind of value.
pub fn instrument_of(operation_type: &OperationType) -> (r: Instrument)
    ensures
        r == (match *operation_type {
            OperationType::Distribution | OperationType::Timing => Instrument::Histogram,
            OperationType::Gauge => Instrument::Gauge,
            OperationType::IncrByValue => Instrument::Counter,
        }),
{
    match operation_type {
        OperationType::Distribution => Instrument::Histogram,
        OperationType::Timing => Instrument::Histogram,
        OperationType::Gauge => Instrument::Gauge,
        OperationType::IncrByValue => Instrument::Counter,
    }
}

/// Where statistics go.
#[derive(Debug, Clone, Copy, PartialEq, Eq, Structural)]
pub struct Sinks {
    pub statsd: bool,
    pub statsig: bool,
    pub otlp: bool,
}

impl Sinks {
    /// Both statsd and datadog logging go to statsd.
    pub fn new(
        enable_statsd_logging: bool,
        enable_datadog_logging: bool,
        enable_statsig_logging: bool,
        enable_otlp_logging: bool,
    ) -> (r: Self)
        ensures
            r == (Sinks {
                statsd: enable_statsd_logging || enable_datadog_logging,
                statsig: enable_statsig_logging,
                otlp: enable_otlp_logging,
            }),
    {
        Sinks {
            statsd: enable_statsd_logging || enable_datadog_logging,
            statsig: enable_statsig_logging,
            otlp: enable_otlp_logging,
        }
    }
}

/// How many statistics may wait to be batched.
pub fn sender_buffer_size(config: &EnvConfig) -> (r: usize)
    requires
        config.datadog_sender_buffer_size matches Some(n) ==> n <= usize::MAX,
    ensures
        r == (match config.datadog_sender_buffer_size {
            Some(n) => n as int,
            None => 50000,
        }),
{
    match config.datadog_sender_buffer_size {
        Some(n) => n as usize,
        None => 50000,
    }
}

/// How the statsd client is set up.
#[derive(Debug)]
pub struct StatsdOptions {
    /// Where packets go, where it is not the default address.
    pub to_addr: Option<String>,
    pub socket_path: Option<String>,
    pub max_buffer_size: usize,
    pub max_time: Duration,
    pub max_retry_attempts: usize,
    pub initial_retry_delay: u64,
    pub default_tags: Vec<String>,
}

/// The name of the host, where the environment has one.
pub open spec fn hostname_of(hostname: Option<Seq<char>>) -> Seq<char> {
    match hostname {
        Some(h) => h,
        None => "localhost"@,
    }
}

pub fn get_hostname(hostname: &Option<String>) -> (r: String)
    ensures
        r@ == hostname_of(text::text_option(*hostname)),
{
    match hostname {
        Some(pod_id) => pod_id.clone(),
        None => "localhost".to_owned(),
    }
}

fn copy_option(o: &Option<String>) -> (r: Option<String>)
    ensures
        text::text_option(r) == text::text_option(*o),
{
    match o {
        Some(t) => Some(t.clone()),
        None => None,
    }
}

/// Sets the statsd client up. Its address is replaced only where both a host and
/// a port are given.
pub fn initialize_datadog_client_options(
    config: &EnvConfig,
    tags: &DefaultTagsConfig,
    hostname: &Option<String>,
) -> (r: StatsdOptions)
    ensures
        text::text_option(r.to_addr) == (match (
            config.statsd_host_override,
            config.statsd_port_override,
        ) {
            (Some(host), Some(port)) => Some(host@ + ":"@ + port@),
            _ => None,
        }),
        text::text_option(r.socket_path) == text::text_option(config.statsd_socket),
        r.max_buffer_size == (match config.dogstatsd_max_buffer_size {
            Some(n) => n,
            None => 8000,
        }),
        r.max_time@ == 1_000_000 * (match config.dogstatsd_max_time_ms {
            Some(n) => n as int,
            None => 30000,
        }),
        r.max_retry_attempts == (match config.dogstatsd_max_retry_attempt {
            Some(n) => n,
            None => 3,
        }),
        r.initial_retry_delay == (match config.dogstatsd_initial_retry_delay {
            Some(n) => n,
            None => 10,
        }),
        text::texts(r.default_tags@) == one_tag("version:"@, text::text_option(tags.dd_version))
            + one_tag("env:"@, text::text_option(tags.dd_env)) + one_tag(
            "service:"@,
            text::text_option(tags.dd_service),
        ) + seq!["pod_name:"@ + hostname_of(text::text_option(*hostname))],
{
    let to_addr = match (&config.statsd_host_override, &config.statsd_port_override) {
        (Some(host), Some(port)) => {
            let mut addr = host.clone();
            addr.append(":");
            addr.append(port.as_str());
            Some(addr)
        },
        _ => None,
    };
    let mut default_tags: Vec<String> = Vec::new();
    assert(text::texts(default_tags@) =~= Seq::<Seq<char>>::empty());
    if let Some(v) = &tags.dd_version {
        let ghost before = default_tags@;
        default_tags.push(tag("version:", v.as_str()));
        assert(text::texts(default_tags@) =~= text::texts(before).push("version:"@ + v@));
    }
    if let Some(v) = &tags.dd_env {
        let ghost before = default_tags@;
        default_tags.push(tag("env:", v.as_str()));
        assert(text::texts(default_tags@) =~= text::texts(before).push("env:"@ + v@));
    }
    if let Some(v) = &tags.dd_service {
        let ghost before = default_tags@;
        default_tags.push(tag("service:", v.as_str()));
        assert(text::texts(default_tags@) =~= text::texts(before).push("service:"@ + v@));
    }
    let ghost before = default_tags@;
    let pod = get_hostname(hostname);
    default_tags.push(tag("pod_name:", pod.as_str()));
    assert(text::texts(default_tags@) =~= text::texts(before).push("pod_name:"@ + pod@));
    let millis: u64 = match config.dogstatsd_max_time_ms {
        Some(n) => n,
        None => 30000,
    };
    StatsdOptions {
        to_addr,
        socket_path: copy_option(&config.statsd_socket),
        max_buffer_size: match config.dogstatsd_max_buffer_size {
            Some(n) => n,
            None => 8000,
        },
        max_time: Duration::from_millis(millis),
        max_retry_attempts: match config.dogstatsd_max_retry_attempt {
            Some(n) => n,
            None => 3,
        },
        initial_retry_delay: match config.dogstatsd_initial_retry_delay {
            Some(n) => n,
            None => 10,
        },
        default_tags,
    }
}

/// An event is tagged by all that it tells, each under its own name, and by nothing else.
pub proof fn law_events_are_tagged_by_all_they_tell(e: observers::EventView)
    ensures
        e.context matches Some(c) ==> tags_of(e).contains(
            "sdk_key:"@ + observers::tagged_key(c.sdk_key),
        ) && tags_of(e).contains("path:"@ + normalized_path::path_text(c.path)),
        e.lcut matches Some(n) ==> tags_of(e).contains("lcut:"@ + text::decimal(n as nat)),
        e.status_code matches Some(n) ==> tags_of(e).contains(
            "status_code:"@ + text::decimal(n as nat),
        ),
        observers::accepted_tag(e) matches Some(t) ==> tags_of(e).contains("accept-encoding:"@ + t),
        e.response_encoding matches Some(t) ==> tags_of(e).contains("content-encoding:"@ + t),
        tags_of(e).len() == there(e.context is Some) * 2 + there(e.lcut is Some) + there(
            e.status_code is Some,
        ) + there(observers::accepted_tag(e) is Some) + there(e.response_encoding is Some),
{
    let t = tags_of(e);
    let a = there(e.context is Some);
    let b = there(e.lcut is Some);
    let c = there(e.status_code is Some);
    let d = there(observers::accepted_tag(e) is Some);
    if let Some(x) = e.context {
        assert(t[0] == "sdk_key:"@ + observers::tagged_key(x.sdk_key));
        assert(t[1] == "path:"@ + normalized_path::path_text(x.path));
    }
    if let Some(n) = e.lcut {
        assert(t[2 * a] == "lcut:"@ + text::decimal(n as nat));
    }
    if let Some(n) = e.status_code {
        assert(t[2 * a + b] == "status_code:"@ + text::decimal(n as nat));
    }
    if let Some(x) = observers::accepted_tag(e) {
        assert(t[2 * a + b + c] == "accept-encoding:"@ + x);
    }
    if let Some(x) = e.response_encoding {
        assert(t[2 * a + b + c + d] == "content-encoding:"@ + x);
    }
}

/// One where something is there.
pub open spec fn there(b: bool) -> int {
    if b {
        1
    } else {
        0
    }
}

/// An event is recorded exactly where it measures something, with that value, under the name
/// of its type. Counts and gauges are recorded as they are, and times in the way that the
/// receiver takes.
pub proof fn law_events_are_recorded_by_what_they_measure(e: observers::EventView, datadog: bool)
    ensures
        operation_of(e, datadog) is Some <==> e.stat is Some,
        e.stat matches Some(stat) ==> {
            let o = operation_of(e, datadog)->0;
            let timed = stat.operation_type == OperationType::Distribution || stat.operation_type
                == OperationType::Timing;
            &&& o.value == stat.value
            &&& o.tags == tags_of(e)
            &&& text::has_prefix(
                o.counter_name,
                "statsig.forward_proxy."@ + observers::event_name(e.event_type),
            )
            &&& !timed ==> o.operation_type == stat.operation_type
            &&& timed && datadog ==> o.operation_type == OperationType::Distribution
            &&& timed && !datadog ==> o.operation_type == OperationType::Timing
            &&& timed ==> text::has_suffix(o.counter_name, ".latency"@)
            &&& stat.operation_type == OperationType::Gauge ==> text::has_suffix(
                o.counter_name,
                ".gauge"@,
            )
            &&& stat.operation_type == OperationType::IncrByValue ==> text::has_suffix(
                o.counter_name,
                ".count"@,
            )
        },
{
    if let Some(stat) = e.stat {
        let start = "statsig.forward_proxy."@ + observers::event_name(e.event_type);
        let name = start + "."@ + suffix_of(stat.operation_type);
        assert(name.take(start.len() as int) =~= start);
        reveal_strlit(".");
        reveal_strlit(".latency");
        reveal_strlit(".gauge");
        reveal_strlit(".count");
        reveal_strlit("latency");
        reveal_strlit("gauge");
        reveal_strlit("count");
        assert("."@ + "latency"@ =~= ".latency"@);
        assert("."@ + "gauge"@ =~= ".gauge"@);
        assert("."@ + "count"@ =~= ".count"@);
        let end = "."@ + suffix_of(stat.operation_type);
        assert(name =~= start + end);
        assert(name.skip(name.len() - end.len()) =~= end);
    }
}

/// A count is added to that of its name and tags, and all other counts stay. Anything else
/// is kept behind what is there.
pub proof fn law_counts_are_added_to_their_own(
    b: BatchView,
    o: OperationView,
    k: keyed_store::KeyView,
)
    requires
        fits(b, o),
    ensures
        ({
            let after = with_operation(b, o);
            let own = (seq![o.counter_name] + o.tags, Seq::<u64>::empty());
            &&& o.operation_type == OperationType::IncrByValue ==> {
                &&& after.others == b.others
                &&& after.increments.contains_key(own)
                &&& !b.increments.contains_key(own) ==> after.increments[own] == o.value
                &&& b.increments.contains_key(own) ==> after.increments[own] == b.increments[own]
                    + o.value
                &&& k != own ==> (after.increments.contains_key(k) <==> b.increments.contains_key(
                    k,
                )) && (b.increments.contains_key(k) ==> after.increments[k] == b.increments[k])
            }
            &&& o.operation_type != OperationType::IncrByValue ==> after.increments == b.increments
                && after.others == b.others.push(o)
        }),
{
}

/// A tag is read as what stands before and behind its first colon, and one without a colon
/// is left out.
pub proof fn law_tags_are_read_as_pairs(
    tags: Seq<Seq<char>>,
    name: Seq<char>,
    value: Seq<char>,
    blank: Seq<char>,
)
    requires
        !name.contains(':'),
        !blank.contains(':'),
    ensures
        metadata_of(tags.push(name + seq![':'] + value)) == metadata_of(tags).push((name, value)),
        metadata_of(tags.push(blank)) == metadata_of(tags),
        attributes_of(tags.push(name + seq![':'] + value)) == attributes_of(tags).push(
            (name, ":"@ + value),
        ),
        attributes_of(tags.push(blank)) == attributes_of(tags),
        metadata_of(Seq::empty()).len() == 0,
        attributes_of(Seq::empty()).len() == 0,
{
    text::law_texts_are_cut_at_the_first(name, value, ':');
    text::law_texts_are_cut_at_the_first(blank, value, ':');
    assert(tags.push(name + seq![':'] + value).drop_last() =~= tags);
    assert(tags.push(blank).drop_last() =~= tags);
}

/// The host is the one that is named, or the local one.
pub proof fn law_hosts_have_a_name(hostname: Seq<char>)
    ensures
        hostname_of(Some(hostname)) == hostname,
        hostname_of(None) == "localhost"@,
{
}

/// Whether a batch is due with so many operations and after so long.
pub open spec fn batch_is_due(count: int, waited: int, max_size: int, max_time: int) -> bool {
    count >= max_size || waited >= max_time
}

/// A batch is sent with the operation that fills it, or with the first one after its time,
/// and not before either.
pub proof fn law_full_batches_are_sent(
    count: int,
    waited: int,
    max_size: int,
    max_time: int,
)
    ensures
        batch_is_due(max_size, waited, max_size, max_time),
        batch_is_due(count, max_time, max_size, max_time),
        count < max_size && waited < max_time ==> !batch_is_due(count, waited, max_size, max_time),
        batch_is_due(count, waited, max_size, max_time) ==> batch_is_due(
            count + 1,
            waited + 1,
            max_size,
            max_time,
        ),
{
}

/// What is sent of a batch is one count for each counter, by all that was added to it, and
/// behind those everything else in its order.
pub proof fn law_sent_batches_add_up(ops: Seq<OperationView>, sent: Seq<OperationView>, j: int)
    requires
        all_fit(ops),
        is_sent_as(with_operations(ops), sent),
        0 <= j < with_operations(ops).increments.len(),
    ensures
        sent[j].operation_type is IncrByValue,
        sent[j].value == total(ops, counter_key(sent[j])),
        sent.skip(with_operations(ops).increments.len() as int) == ops.filter(
            |o: OperationView| !(o.operation_type is IncrByValue),
        ),
{
    law_batches_add_up(ops);
    assert(with_operations(ops).increments.contains_key(counter_key(sent[j])));
}

/// What was added to a counter is the sum of the counts of its name and tags.
pub proof fn law_totals_are_sums(ops: Seq<OperationView>, o: OperationView, k: keyed_store::KeyView)
    ensures
        total(Seq::empty(), k) == 0,
        o.operation_type == OperationType::IncrByValue ==> total(ops.push(o), counter_key(o))
            == total(ops, counter_key(o)) + o.value,
        o.operation_type != OperationType::IncrByValue || k != (
            seq![o.counter_name] + o.tags,
            Seq::<u64>::empty(),
        ) ==> total(ops.push(o), k) == total(ops, k),
{
    assert(ops.push(o).drop_last() =~= ops);
}

} // verus!
