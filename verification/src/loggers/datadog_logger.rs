//! Statistics whose values are texts, as the datadog client takes them.

use crate::clock;
use crate::clock::{Duration, Instant};
use crate::keyed_store;
use crate::loggers::stats_logger;
use crate::loggers::stats_logger::OperationBatch;
use crate::observers;
use crate::observers::{OperationType, ProxyEvent};
use crate::servers::normalized_path;
use crate::text;
use std::sync::Arc;
use vstd::prelude::*;

verus! {

/// How statistics are sent, as the environment sets it.
#[derive(Debug, Clone)]
pub struct EnvConfig {
    pub datadog_sampling_rate: Option<u64>,
    pub datadog_max_batch_time_ms: Option<u64>,
    pub datadog_max_batch_event_count: Option<usize>,
    pub datadog_max_backoff_ms: Option<u64>,
    pub dogstatsd_max_buffer_size: Option<usize>,
    pub dogstatsd_max_time_ms: Option<u64>,
    pub dogstatsd_max_retry_attempt: Option<usize>,
    pub dogstatsd_initial_retry_delay: Option<u64>,
    pub dogstatsd_client_initialization_retry_delay: Option<u64>,
    pub dogstatsd_client_initialization_max_retry_attempt: Option<usize>,
    pub statsd_socket: Option<String>,
    pub datadog_sender_buffer_size: Option<u64>,
}

/// One statistic to send.
#[derive(Debug, Clone, PartialEq)]
pub struct Operation {
    pub operation_type: OperationType,
    pub counter_name: String,
    pub value: Option<String>,
    pub tags: Vec<String>,
}

/// The model of a statistic.
pub struct OperationView {
    pub operation_type: OperationType,
    pub counter_name: Seq<char>,
    pub value: Option<Seq<char>>,
    pub tags: Seq<Seq<char>>,
}

impl View for Operation {
    type V = OperationView;

    open spec fn view(&self) -> OperationView {
        OperationView {
            operation_type: self.operation_type,
            counter_name: self.counter_name@,
            value: text::text_option(self.value),
            tags: text::texts(self.tags@),
        }
    }
}

/// The models of some statistics.
pub open spec fn operations(v: Seq<Operation>) -> Seq<OperationView> {
    v.map_values(|o: Operation| o@)
}

/// The number that a value writes.
pub open spec fn amount(o: OperationView) -> Option<int> {
    match o.value {
        Some(v) => text::parse_signed(v),
        None => None,
    }
}

/// A statistic with its value as a number.
pub open spec fn counted(o: OperationView) -> stats_logger::OperationView {
    stats_logger::OperationView {
        operation_type: o.operation_type,
        counter_name: o.counter_name,
        value: match amount(o) {
            Some(n) => n as i64,
            None => 0,
        },
        tags: o.tags,
    }
}

/// A batch that can be compressed: increments have numbers, and no sum of them on
/// the way is too large.
pub open spec fn compressible(batch: Seq<OperationView>) -> bool {
    &&& forall|i: int|
        0 <= i < batch.len() && (#[trigger] batch[i]).operation_type is IncrByValue ==> amount(
            batch[i],
        ) is Some
    &&& stats_logger::all_fit(increments(batch))
}

/// The increments of a batch.
pub open spec fn increments(batch: Seq<OperationView>) -> Seq<stats_logger::OperationView>
    decreases batch.len(),
{
    if batch.len() == 0 {
        Seq::empty()
    } else if batch.last().operation_type is IncrByValue {
        increments(batch.drop_last()).push(counted(batch.last()))
    } else {
        increments(batch.drop_last())
    }
}

/// The statistics of a batch that are no increments.
pub open spec fn others(batch: Seq<OperationView>) -> Seq<OperationView>
    decreases batch.len(),
{
    if batch.len() == 0 {
        Seq::empty()
    } else if batch.last().operation_type is IncrByValue {
        others(batch.drop_last())
    } else {
        others(batch.drop_last()).push(batch.last())
    }
}

/// Whether statistics are the compressed form of a batch: what is no increment, as
/// it came, and then one increment for each counter, in any order.
pub open spec fn is_compressed(batch: Seq<OperationView>, r: Seq<OperationView>) -> bool {
    let sums = stats_logger::with_operations(increments(batch)).increments;
    let n = others(batch).len() as int;
    &&& r.len() == n + sums.len()
    &&& r.take(n) == others(batch)
    &&& forall|k: keyed_store::KeyView| #[trigger]
        sums.contains_key(k) ==> exists|j: int|
            n <= j < r.len() && stats_logger::counter_key(counted(#[trigger] r[j])) == k
    &&& forall|j: int|
        n <= j < r.len() ==> (#[trigger] r[j]).operation_type is IncrByValue && sums.contains_key(
            stats_logger::counter_key(counted(r[j])),
        ) && r[j].value == Some(
            text::signed_decimal(sums[stats_logger::counter_key(counted(r[j]))] as int),
        )
}

fn copy_operation(o: &Operation) -> (r: Operation)
    ensures
        r@ == o@,
{
    Operation {
        operation_type: o.operation_type,
        counter_name: o.counter_name.clone(),
        value: match &o.value {
            Some(v) => Some(v.clone()),
            None => None,
        },
        tags: keyed_store::clone_texts(&o.tags),
    }
}

proof fn lemma_increments_prefix(batch: Seq<OperationView>, n: int)
    requires
        0 <= n <= batch.len(),
    ensures
        increments(batch.take(n)).len() <= increments(batch).len(),
        increments(batch.take(n)) == increments(batch).take(increments(batch.take(n)).len() as int),
    decreases batch.len() - n,
{
    if n == batch.len() {
        assert(batch.take(n) =~= batch);
    } else {
        lemma_increments_prefix(batch, n + 1);
        assert(batch.take(n + 1).drop_last() =~= batch.take(n));
        let m = increments(batch.take(n)).len() as int;
        let m1 = increments(batch.take(n + 1)).len() as int;
        assert(increments(batch.take(n)) =~= increments(batch.take(n + 1)).take(m));
        assert(increments(batch).take(m1).take(m) =~= increments(batch).take(m));
    }
}

proof fn lemma_no_others(incs: Seq<stats_logger::OperationView>)
    requires
        forall|i: int| 0 <= i < incs.len() ==> (#[trigger] incs[i]).operation_type is IncrByValue,
    ensures
        stats_logger::with_operations(incs).others == Seq::<stats_logger::OperationView>::empty(),
    decreases incs.len(),
{
    if incs.len() > 0 {
        assert(incs[incs.len() - 1] == incs.last());
        assert forall|i: int| 0 <= i < incs.drop_last().len() implies (
        #[trigger] incs.drop_last()[i]).operation_type is IncrByValue by {
            assert(incs.drop_last()[i] == incs[i]);
        }
        lemma_no_others(incs.drop_last());
    }
}

proof fn lemma_increments_are(batch: Seq<OperationView>)
    ensures
        forall|i: int|
            0 <= i < increments(batch).len() ==> (#[trigger] increments(
                batch,
            )[i]).operation_type is IncrByValue,
    decreases batch.len(),
{
    if batch.len() > 0 {
        lemma_increments_are(batch.drop_last());
    }
}

/// Adds the increments of each counter up.
pub fn compress_batch(batch: &Vec<Operation>) -> (r: Vec<Operation>)
    requires
        compressible(operations(batch@)),
    ensures
        is_compressed(operations(batch@), operations(r@)),
{
    let ghost all = operations(batch@);
    let ghost incs = increments(all);
    let mut sums = OperationBatch::empty();
    let mut compressed: Vec<Operation> = Vec::new();
    let mut i: usize = 0;
    assert(all.take(0) =~= Seq::<OperationView>::empty());
    assert(operations(compressed@) =~= Seq::<OperationView>::empty());
    while i < batch.len()
        invariant
            i <= batch@.len(),
            all == operations(batch@),
            incs == increments(all),
            compressible(all),
            sums.wf(),
            sums@ == stats_logger::with_operations(increments(all.take(i as int))),
            operations(compressed@) == others(all.take(i as int)),
        decreases batch@.len() - i,
    {
        let ghost before = compressed@;
        let event = &batch[i];
        proof {
            assert(all[i as int] == event@);
            assert(all.take(i + 1).drop_last() =~= all.take(i as int));
            assert(all.take(i + 1).last() == event@);
        }
        match event.operation_type {
            OperationType::IncrByValue => {
                let value: i64 = match &event.value {
                    Some(v) => match text::parse_i64(v.as_str()) {
                        Some(n) => n,
                        None => 0,
                    },
                    None => 0,
                };
                let one = stats_logger::Operation {
                    operation_type: OperationType::IncrByValue,
                    counter_name: event.counter_name.clone(),
                    value,
                    tags: Arc::new(keyed_store::clone_texts(&event.tags)),
                };
                proof {
                    assert(amount(event@) == Some(value as int));
                    assert(one@ == counted(event@));
                    let m = increments(all.take(i as int)).len() as int;
                    lemma_increments_prefix(all, i as int);
                    lemma_increments_prefix(all, i + 1);
                    assert(increments(all.take(i + 1))[m] == one@);
                    assert(incs[m] == one@);
                    assert(incs.take(m) == increments(all.take(i as int)));
                    assert(increments(all.take(i + 1)).drop_last() =~= increments(
                        all.take(i as int),
                    ));
                }
                sums.add(one);
            },
            _ => {
                compressed.push(copy_operation(event));
                assert(operations(compressed@) =~= operations(before).push(event@));
            },
        }
        i += 1;
    }
    assert(all.take(i as int) =~= all);
    proof {
        lemma_increments_are(all);
        lemma_no_others(incs);
    }
    let ghost b = sums@;
    let sent = sums.flush();
    let ghost ops = stats_logger::operations(sent@);
    let ghost first = compressed@;
    let ghost n = first.len() as int;
    let mut j: usize = 0;
    while j < sent.len()
        invariant
            j <= sent@.len(),
            ops == stats_logger::operations(sent@),
            compressed@.len() == n + j,
            n == first.len(),
            compressed@.take(n) == first,
            forall|m: int|
                0 <= m < j ==> (#[trigger] compressed@[n + m])@.operation_type == ops[m].operation_type
                    && compressed@[n + m]@.counter_name == ops[m].counter_name
                    && compressed@[n + m]@.tags == ops[m].tags && compressed@[n + m]@.value == Some(
                    text::signed_decimal(ops[m].value as int),
                ),
        decreases sent@.len() - j,
    {
        let ghost before = compressed@;
        let mut value = String::new();
        text::push_signed_decimal(&mut value, sent[j].value);
        assert(value@ =~= text::signed_decimal(sent@[j as int].value as int));
        compressed.push(
            Operation {
                operation_type: sent[j].operation_type,
                counter_name: sent[j].counter_name.clone(),
                value: Some(value),
                tags: keyed_store::clone_texts(&sent[j].tags),
            },
        );
        assert(compressed@.take(n) =~= before.take(n));
        assert forall|m: int| 0 <= m < j + 1 implies (#[trigger] compressed@[n + m])@.operation_type
            == ops[m].operation_type && compressed@[n + m]@.counter_name == ops[m].counter_name
            && compressed@[n + m]@.tags == ops[m].tags && compressed@[n + m]@.value == Some(
            text::signed_decimal(ops[m].value as int),
        ) by {
            if m < j {
                assert(compressed@[n + m] == before[n + m]);
            }
        }
        j += 1;
    }
    proof {
        let r = operations(compressed@);
        assert(r.take(n) =~= operations(first)) by {
            assert forall|m: int| 0 <= m < n implies r[m] == operations(first)[m] by {
                assert(compressed@[m] == compressed@.take(n)[m]);
            }
        }
        assert forall|k: keyed_store::KeyView| #[trigger]
            b.increments.contains_key(k) implies exists|q: int|
            n <= q < r.len() && stats_logger::counter_key(counted(#[trigger] r[q])) == k by {
            let m = choose|m: int|
                0 <= m < b.increments.len() && stats_logger::counter_key(#[trigger] ops[m]) == k;
            assert(r[n + m] == compressed@[n + m]@);
            assert(stats_logger::counter_key(counted(r[n + m])) == k);
        }
        assert forall|q: int| n <= q < r.len() implies (#[trigger] r[q]).operation_type is IncrByValue
            && b.increments.contains_key(stats_logger::counter_key(counted(r[q]))) && r[q].value
            == Some(
            text::signed_decimal(
                b.increments[stats_logger::counter_key(counted(r[q]))] as int,
            ),
        ) by {
            let m = q - n;
            assert(r[n + m] == compressed@[n + m]@);
            assert(ops[m].operation_type is IncrByValue);
            assert(stats_logger::counter_key(counted(r[q])) == stats_logger::counter_key(ops[m]));
        }
    }
    compressed
}

/// The tags of an event.
pub open spec fn tags_of(e: observers::EventView) -> Seq<Seq<char>> {
    stats_logger::one_tag(
        "sdk_key:"@,
        match e.context {
            Some(c) => Some(observers::tagged_key(c.sdk_key)),
            None => None,
        },
    ) + stats_logger::one_tag(
        "lcut:"@,
        match e.lcut {
            Some(n) => Some(text::decimal(n as nat)),
            None => None,
        },
    ) + stats_logger::one_tag(
        "path:"@,
        match e.context {
            Some(c) => Some(normalized_path::path_text(c.path)),
            None => None,
        },
    )
}

/// Whether a batch is due: it is old, or it holds too much.
pub fn should_flush(
    config: &EnvConfig,
    batch_len: usize,
    last_updated: Instant,
    now: Instant,
) -> (r: bool)
    ensures
        r == (now@ - last_updated@ > 1_000_000 * (match config.datadog_max_batch_time_ms {
            Some(n) => n as int,
            None => 10000,
        }) || batch_len > (match config.datadog_max_batch_event_count {
            Some(n) => n,
            None => 3000,
        })),
        r == is_due(*config, batch_len as int, now@ - last_updated@),
{
    broadcast use clock::group_time;
    let millis: u64 = match config.datadog_max_batch_time_ms {
        Some(n) => n,
        None => 10000,
    };
    let limit: usize = match config.datadog_max_batch_event_count {
        Some(n) => n,
        None => 3000,
    };
    let waited = now.saturating_duration_since(&last_updated);
    Duration::from_millis(millis).less(&waited) || limit < batch_len
}

/// The statistic to send for an event.
pub fn operation_for(event: &ProxyEvent) -> (r: Option<Operation>)
    requires
        event@.context matches Some(c) ==> observers::is_loggable(c.sdk_key),
    ensures
        (match r {
            Some(o) => Some(o@),
            None => None,
        }) == (match event@.stat {
            Some(stat) => Some(
                OperationView {
                    operation_type: stat.operation_type,
                    counter_name: "statsig.forward_proxy."@ + observers::event_name(
                        event@.event_type,
                    ) + "."@ + stats_logger::suffix_of(stat.operation_type),
                    value: Some(text::signed_decimal(stat.value as int)),
                    tags: tags_of(event@),
                },
            ),
            None => None,
        }),
{
    match event.stat {
        Some(stat) => {
            let mut tags: Vec<String> = Vec::new();
            assert(text::texts(tags@) =~= Seq::<Seq<char>>::empty());
            if let Some(sdk_key) = event.get_sdk_key() {
                let ghost before = tags@;
                tags.push(stats_logger::tag("sdk_key:", sdk_key.as_str()));
                assert(text::texts(tags@) =~= text::texts(before).push("sdk_key:"@ + sdk_key@));
            }
            if let Some(lcut) = event.lcut {
                let ghost before = tags@;
                let number = text::decimal_string(lcut);
                tags.push(stats_logger::tag("lcut:", number.as_str()));
                assert(text::texts(tags@) =~= text::texts(before).push("lcut:"@ + number@));
            }
            if let Some(path) = event.get_path() {
                let ghost before = tags@;
                tags.push(stats_logger::tag("path:", path));
                assert(text::texts(tags@) =~= text::texts(before).push("path:"@ + path@));
            }
            assert(text::texts(tags@) =~= tags_of(event@));
            let mut value = String::new();
            text::push_signed_decimal(&mut value, stat.value);
            assert(value@ =~= text::signed_decimal(stat.value as int));
            Some(
                Operation {
                    operation_type: stat.operation_type,
                    counter_name: stats_logger::create_counter_name(
                        event.event_type.to_str(),
                        stats_logger::operation_suffix(&stat.operation_type),
                    ),
                    value: Some(value),
                    tags,
                },
            )
        },
        None => None,
    }
}

/// Increments are added up by themselves, and all else is sent as it is and in its order.
pub proof fn law_increments_are_set_apart(batch: Seq<OperationView>)
    ensures
        others(batch) == batch.filter(|o: OperationView| !(o.operation_type is IncrByValue)),
        increments(batch) == batch.filter(
            |o: OperationView| o.operation_type is IncrByValue,
        ).map_values(|o: OperationView| counted(o)),
    decreases batch.len(),
{
    reveal(Seq::filter);
    let plain = |o: OperationView| !(o.operation_type is IncrByValue);
    let adds = |o: OperationView| o.operation_type is IncrByValue;
    let count = |o: OperationView| counted(o);
    if batch.len() > 0 {
        law_increments_are_set_apart(batch.drop_last());
        let rest = batch.drop_last().filter(adds);
        assert(rest.push(batch.last()).map_values(count) =~= rest.map_values(count).push(
            counted(batch.last()),
        ));
    } else {
        assert(batch.filter(plain) =~= others(batch));
        assert(batch.filter(adds).map_values(count) =~= increments(batch));
    }
}

/// An increment adds what its value writes.
pub proof fn law_increments_add_their_value(o: OperationView, n: i64)
    requires
        o.value == Some(text::signed_decimal(n as int)),
    ensures
        amount(o) == Some(n as int),
        counted(o).value == n,
        counted(o).counter_name == o.counter_name,
        counted(o).tags == o.tags,
{
    text::law_signed_numbers_are_read_back(n as int);
}

/// An event is tagged by its key and path where it has a context, and by its time where it
/// has one.
pub proof fn law_events_are_tagged_by_what_they_tell(e: observers::EventView)
    ensures
        e.context matches Some(c) ==> tags_of(e).contains(
            "sdk_key:"@ + observers::tagged_key(c.sdk_key),
        ) && tags_of(e).contains("path:"@ + normalized_path::path_text(c.path)),
        e.lcut matches Some(n) ==> tags_of(e).contains("lcut:"@ + text::decimal(n as nat)),
        tags_of(e).len() == (if e.context is Some {
            2int
        } else {
            0
        }) + (if e.lcut is Some {
            1int
        } else {
            0
        }),
{
    let t = tags_of(e);
    if let Some(c) = e.context {
        assert(t[0] == "sdk_key:"@ + observers::tagged_key(c.sdk_key));
        assert(t[t.len() - 1] == "path:"@ + normalized_path::path_text(c.path));
        if let Some(n) = e.lcut {
            assert(t[1] == "lcut:"@ + text::decimal(n as nat));
        }
    } else if let Some(n) = e.lcut {
        assert(t[0] == "lcut:"@ + text::decimal(n as nat));
    }
}

/// A batch that is compressed has what is no increment as it was, and for each counter one
/// increment by all that was added to it.
pub proof fn law_compressed_batches_add_up(
    batch: Seq<OperationView>,
    r: Seq<OperationView>,
    j: int,
)
    requires
        compressible(batch),
        is_compressed(batch, r),
        others(batch).len() <= j < r.len(),
    ensures
        r.take(others(batch).len() as int) == others(batch),
        r[j].operation_type is IncrByValue,
        amount(r[j]) == Some(
            stats_logger::total(increments(batch), stats_logger::counter_key(counted(r[j]))),
        ),
{
    let ops = increments(batch);
    stats_logger::law_batches_add_up(ops);
    let k = stats_logger::counter_key(counted(r[j]));
    let sums = stats_logger::with_operations(ops).increments;
    assert(sums.contains_key(k));
    text::law_signed_numbers_are_read_back(sums[k] as int);
}

/// Whether a batch is due after so long, in nanoseconds, and with so much in it.
pub open spec fn is_due(config: EnvConfig, batch_len: int, waited: int) -> bool {
    waited > 1_000_000 * (match config.datadog_max_batch_time_ms {
        Some(n) => n as int,
        None => 10000,
    }) || batch_len > (match config.datadog_max_batch_event_count {
        Some(n) => n as int,
        None => 3000,
    })
}

/// A batch is due once it is older than it may be or holds more than it may, and not before.
/// It stays due as it grows and ages.
pub proof fn law_batches_become_due(
    config: EnvConfig,
    ms: u64,
    count: usize,
    batch_len: int,
    waited: int,
    more: int,
    longer: int,
)
    requires
        config.datadog_max_batch_time_ms == Some(ms),
        config.datadog_max_batch_event_count == Some(count),
        batch_len <= more,
        waited <= longer,
    ensures
        waited > ms * 1_000_000 ==> is_due(config, batch_len, waited),
        batch_len > count ==> is_due(config, batch_len, waited),
        waited <= ms * 1_000_000 && batch_len <= count ==> !is_due(config, batch_len, waited),
        is_due(config, batch_len, waited) ==> is_due(config, more, longer),
{
}

} // verus!
