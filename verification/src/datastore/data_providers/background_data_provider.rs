//! Which requests go to the upstream, when, and what is made of their results.

use crate::clock;
use crate::clock::{Duration, Instant};
use crate::datastore::config_spec_store::ConfigSpecForCompany;
use crate::datastore::data_providers::background_poll_dispatch;
use crate::datastore::data_providers::background_poll_dispatch::BackgroundPollDispatchConfig;
use crate::datastore::data_providers::http_data_provider::ResponsePayload;
use crate::datastore::data_providers::request_backoff;
use crate::datastore::data_providers::request_backoff::{
    RequestBackoffController, RequestBackoffPolicy,
};
use crate::datastore::data_providers::{
    DataProviderRequestResult, DataProviderResult, HttpClientConfig, ResponseContext,
};
use crate::datastore::sdk_key_store;
use crate::datastore::sdk_key_store::SdkKeyStoreItem;
use crate::keyed_store;
use crate::keyed_store::KeyedStore;
use crate::servers::authorized_request_context::AuthorizedRequestContext;
use crate::utils::compress_encoder::CompressionEncoder;
use std::sync::Arc;
use vstd::prelude::*;

verus! {

broadcast use crate::clock::group_time;

/// For whom a fetch is made.
#[derive(Clone, Copy, Debug, PartialEq, Eq, Structural)]
pub enum FetchExecutionMode {
    Foreground,
    BackgroundPoll { poll_cycle: u64 },
}

/// How long the next foreground fetch of a context is held off.
pub const FOREGROUND_FETCH_HOLD_SECONDS: u64 = 30;

/// What becomes of the lock of a foreground fetch.
#[derive(Clone, Copy, Debug, PartialEq, Eq, Structural)]
pub enum LockOutcome {
    /// Nothing was tried, so the next caller may try.
    Released,
    /// The lock is dropped after a while.
    HeldFor(Duration),
}

/// The contexts that are being fetched for a caller, or were a moment ago.
pub struct ForegroundFetchLocks {
    fetched: KeyedStore<bool>,
}

impl ForegroundFetchLocks {
    pub closed spec fn wf(&self) -> bool {
        self.fetched.wf()
    }

    /// The keys of the contexts that were fetched a moment ago.
    pub closed spec fn held(&self) -> Set<keyed_store::KeyView> {
        Set::new(|k: keyed_store::KeyView| self.fetched@.contains_key(k) && self.fetched@[k])
    }

    pub fn new() -> (r: Self)
        ensures
            r.wf(),
            r.held() == Set::<keyed_store::KeyView>::empty(),
    {
        let r = ForegroundFetchLocks { fetched: KeyedStore::new() };
        assert(r.held() =~= Set::<keyed_store::KeyView>::empty());
        r
    }

    /// Lets the first caller fetch a context, and no other while the lock is held.
    pub fn claim(&mut self, request_context: &AuthorizedRequestContext) -> (r: bool)
        requires
            old(self).wf(),
        ensures
            final(self).wf(),
            r == !old(self).held().contains(sdk_key_store::context_key(request_context@)),
            final(self).held() == old(self).held().insert(
                sdk_key_store::context_key(request_context@),
            ),
    {
        let ghost before = *self;
        let key = request_context.store_key();
        let ghost k = key@;
        if let Some(fetched) = self.fetched.get(&key) {
            if *fetched {
                assert(self.held() =~= before.held().insert(k));
                return false;
            }
        }
        self.fetched.insert(key, true);
        assert(self.held() =~= before.held().insert(k));
        true
    }

    /// What becomes of the lock once the fetch is over. Where the request was not
    /// even tried, the lock is dropped at once.
    pub fn finish(&mut self, request_context: &AuthorizedRequestContext, attempted_count: usize)
        -> (r: LockOutcome)
        requires
            old(self).wf(),
        ensures
            final(self).wf(),
            match r {
                LockOutcome::Released => attempted_count == 0 && final(self).held() == old(self).held().remove(sdk_key_store::context_key(request_context@)),
                LockOutcome::HeldFor(d) => attempted_count > 0 && d@
                    == FOREGROUND_FETCH_HOLD_SECONDS * clock::SECOND && final(self).held() == old(self).held(),
            },
    {
        if attempted_count == 0 {
            self.drop_lock(request_context);
            LockOutcome::Released
        } else {
            LockOutcome::HeldFor(Duration::from_secs(FOREGROUND_FETCH_HOLD_SECONDS))
        }
    }

    /// Lets the next caller fetch a context again.
    pub fn drop_lock(&mut self, request_context: &AuthorizedRequestContext)
        requires
            old(self).wf(),
        ensures
            final(self).wf(),
            final(self).held() == old(self).held().remove(
                sdk_key_store::context_key(request_context@),
            ),
    {
        let ghost before = *self;
        let _ = self.fetched.remove(&request_context.store_key());
        assert(self.held() =~= before.held().remove(sdk_key_store::context_key(request_context@)));
    }
}

/// When the next poll is due.
#[derive(Clone, Copy, Debug, PartialEq, Eq, Structural)]
pub struct PollSchedule {
    pub base_poll_interval: Duration,
    pub next_poll_at: Instant,
    pub poll_cycle: u64,
}

impl PollSchedule {
    /// The first poll is due at once.
    pub fn new(polling_interval_in_s: u64, now: Instant) -> (r: Self)
        ensures
            r.base_poll_interval@ == clock::max(polling_interval_in_s as int, 1) * clock::SECOND,
            r.next_poll_at == now,
            r.poll_cycle == 0,
    {
        PollSchedule {
            base_poll_interval: Duration::from_secs(
                if polling_interval_in_s >= 1 {
                    polling_interval_in_s
                } else {
                    1
                },
            ),
            next_poll_at: now,
            poll_cycle: 0,
        }
    }

    /// The interval before the poll of the next cycle.
    pub open spec fn next_interval(&self, config: BackgroundPollDispatchConfig) -> int {
        background_poll_dispatch::jittered_ms(
            self.base_poll_interval@,
            background_poll_dispatch::jitter_mix(
                self.poll_cycle.wrapping_add(1),
                config.jitter_seed,
            ),
        ) * 1_000_000
    }

    /// Moves on after a poll. Polls are counted from when they were due, not from
    /// when they were done.
    pub fn advance(&mut self, config: &BackgroundPollDispatchConfig)
        requires
            old(self).next_poll_at@ + old(self).next_interval(*config) <= clock::LONGEST,
        ensures
            final(self).base_poll_interval == old(self).base_poll_interval,
            final(self).poll_cycle == old(self).poll_cycle.wrapping_add(1),
            final(self).next_poll_at@ == old(self).next_poll_at@ + old(self).next_interval(
                *config,
            ),
    {
        self.poll_cycle = self.poll_cycle.wrapping_add(1);
        let interval = config.poll_interval_for_cycle(self.base_poll_interval, self.poll_cycle);
        self.next_poll_at = self.next_poll_at.plus(interval);
    }
}

/// The requests that may be made: those that are wanted and do not have to wait.
pub open spec fn attemptable(
    failed: Map<keyed_store::KeyView, request_backoff::RequestBackoffState>,
    items: Seq<SdkKeyStoreItem>,
    wanted: Seq<bool>,
    now: Instant,
) -> Seq<SdkKeyStoreItem>
    decreases items.len(),
{
    if items.len() == 0 {
        Seq::empty()
    } else {
        let rest = attemptable(failed, items.drop_last(), wanted, now);
        let k = sdk_key_store::context_key(items.last().request_context@);
        if wanted[items.len() - 1] && (!failed.contains_key(k) || now@ >= failed[k].retry_after@) {
            rest.push(items.last())
        } else {
            rest
        }
    }
}

fn share_item(item: &SdkKeyStoreItem) -> (r: SdkKeyStoreItem)
    ensures
        r == *item,
{
    SdkKeyStoreItem {
        request_context: keyed_store::share(&item.request_context),
        lcut: item.lcut,
    }
}

/// Whether two sets of failures hold off the same requests.
pub open spec fn same_waits(
    a: Map<keyed_store::KeyView, request_backoff::RequestBackoffState>,
    b: Map<keyed_store::KeyView, request_backoff::RequestBackoffState>,
) -> bool {
    &&& a.dom() == b.dom()
    &&& forall|k: keyed_store::KeyView| #[trigger]
        a.contains_key(k) ==> a[k].retry_after == b[k].retry_after && a[k].consecutive_failures
            == b[k].consecutive_failures
}

/// The failures once the wanted requests were asked for: each of them is seen.
pub open spec fn seen_after(
    failed: Map<keyed_store::KeyView, request_backoff::RequestBackoffState>,
    items: Seq<SdkKeyStoreItem>,
    wanted: Seq<bool>,
    now: Instant,
) -> Map<keyed_store::KeyView, request_backoff::RequestBackoffState>
    decreases items.len(),
{
    if items.len() == 0 {
        failed
    } else {
        let rest = seen_after(failed, items.drop_last(), wanted, now);
        let k = sdk_key_store::context_key(items.last().request_context@);
        if wanted[items.len() - 1] && rest.contains_key(k) {
            rest.insert(
                k,
                request_backoff::RequestBackoffState { last_seen: now, ..rest[k] },
            )
        } else {
            rest
        }
    }
}

/// Picks the requests that may be made now. What waits keeps waiting.
pub fn prepare_requests(
    backoff: &mut RequestBackoffController,
    items: &Vec<SdkKeyStoreItem>,
    wanted: &Vec<bool>,
    now: Instant,
) -> (r: Vec<SdkKeyStoreItem>)
    requires
        old(backoff).wf(),
        items@.len() == wanted@.len(),
    ensures
        final(backoff).wf(),
        final(backoff).rules() == old(backoff).rules(),
        same_waits(final(backoff).failed(), old(backoff).failed()),
        final(backoff).failed() == seen_after(old(backoff).failed(), items@, wanted@, now),
        r@ == attemptable(old(backoff).failed(), items@, wanted@, now),
{
    let ghost failed = backoff.failed();
    let ghost rules = backoff.rules();
    let mut r: Vec<SdkKeyStoreItem> = Vec::new();
    let mut i: usize = 0;
    while i < items.len()
        invariant
            i <= items@.len() == wanted@.len(),
            backoff.wf(),
            backoff.rules() == rules,
            same_waits(backoff.failed(), failed),
            backoff.failed() == seen_after(failed, items@.take(i as int), wanted@, now),
            r@ == attemptable(failed, items@.take(i as int), wanted@, now),
        decreases items@.len() - i,
    {
        let ghost here = backoff.failed();
        assert(items@.take(i + 1).drop_last() =~= items@.take(i as int));
        assert(items@.take(i + 1).last() == items@[i as int]);
        if wanted[i] {
            let ghost k = sdk_key_store::context_key(items@[i as int].request_context@);
            assert(here.contains_key(k) <==> failed.contains_key(k)) by {
                assert(here.dom().contains(k) <==> failed.dom().contains(k));
            }
            if backoff.can_attempt_at(&items[i].request_context, now) {
                r.push(share_item(&items[i]));
            }
            assert(backoff.failed().dom() =~= failed.dom());
            assert forall|j: keyed_store::KeyView| #[trigger]
                backoff.failed().contains_key(j) implies backoff.failed()[j].retry_after
                == failed[j].retry_after && backoff.failed()[j].consecutive_failures
                == failed[j].consecutive_failures by {
                assert(here.contains_key(j));
            }
        }
        i += 1;
    }
    assert(items@.take(i as int) =~= items@);
    r
}

/// Whether the requests of a fetch are put into another order.
pub open spec fn is_shaped(
    mode: FetchExecutionMode,
    config: BackgroundPollDispatchConfig,
    count: int,
) -> bool {
    mode is BackgroundPoll && config.shapes(count)
}

/// The items in a given order.
pub fn reordered(items: &Vec<SdkKeyStoreItem>, order: &Vec<usize>) -> (r: Vec<SdkKeyStoreItem>)
    requires
        background_poll_dispatch::is_order(order@, items@.len() as int),
    ensures
        r@.len() == items@.len(),
        forall|i: int| 0 <= i < r@.len() ==> #[trigger] r@[i] == items@[order@[i] as int],
{
    let mut r: Vec<SdkKeyStoreItem> = Vec::new();
    let mut i: usize = 0;
    while i < order.len()
        invariant
            i <= order@.len(),
            background_poll_dispatch::is_order(order@, items@.len() as int),
            r@.len() == i,
            forall|j: int| 0 <= j < i ==> #[trigger] r@[j] == items@[order@[j] as int],
        decreases order@.len() - i,
    {
        r.push(share_item(&items[order[i]]));
        i += 1;
    }
    r
}

/// The ranks of some requests in a fetch: all the same where they stay as they come.
pub open spec fn fetch_ranks(
    items: Seq<SdkKeyStoreItem>,
    mode: FetchExecutionMode,
    config: BackgroundPollDispatchConfig,
) -> Seq<u64> {
    Seq::new(
        items.len(),
        |i: int|
            match mode {
                FetchExecutionMode::BackgroundPoll { poll_cycle } => if is_shaped(
                    mode,
                    config,
                    items.len() as int,
                ) {
                    background_poll_dispatch::rank_of(
                        items[i].request_context@,
                        poll_cycle,
                        config.jitter_seed,
                    )
                } else {
                    0
                },
                FetchExecutionMode::Foreground => 0,
            },
    )
}

/// Whether `order` goes by ranks.
pub open spec fn goes_by(order: Seq<usize>, ranks: Seq<u64>) -> bool {
    &&& background_poll_dispatch::is_order(order, ranks.len() as int)
    &&& forall|i: int, j: int|
        0 <= i < j < order.len() ==> background_poll_dispatch::goes_before(
            ranks,
            #[trigger] order[i] as int,
            #[trigger] order[j] as int,
        )
}

/// The order in which the requests of a fetch are launched: as they come, or by
/// ranks that vary from cycle to cycle.
pub fn order_for_dispatch(
    items: &Vec<SdkKeyStoreItem>,
    mode: FetchExecutionMode,
    config: &BackgroundPollDispatchConfig,
) -> (r: Vec<SdkKeyStoreItem>)
    ensures
        r@.len() == items@.len(),
        !is_shaped(mode, *config, items@.len() as int) ==> r@ == items@,
        exists|order: Seq<usize>| #[trigger]
            goes_by(order, fetch_ranks(items@, mode, *config)) && forall|i: int|
                0 <= i < r@.len() ==> #[trigger] r@[i] == items@[order[i] as int],
{
    let mut ranks: Vec<u64> = Vec::new();
    let shaped = match mode {
        FetchExecutionMode::BackgroundPoll {
            ..
        } => config.background_dispatch_shaping_enabled(items.len()),
        FetchExecutionMode::Foreground => false,
    };
    let mut i: usize = 0;
    while i < items.len()
        invariant
            i <= items@.len(),
            shaped == is_shaped(mode, *config, items@.len() as int),
            ranks@ == fetch_ranks(items@, mode, *config).take(i as int),
        decreases items@.len() - i,
    {
        let rank: u64 = match mode {
            FetchExecutionMode::BackgroundPoll { poll_cycle } => if shaped {
                background_poll_dispatch::dispatch_rank(
                    &items[i].request_context,
                    poll_cycle,
                    config.jitter_seed,
                )
            } else {
                0
            },
            FetchExecutionMode::Foreground => 0,
        };
        ranks.push(rank);
        i += 1;
        assert(ranks@ =~= fetch_ranks(items@, mode, *config).take(i as int));
    }
    assert(ranks@ =~= fetch_ranks(items@, mode, *config));
    let order = background_poll_dispatch::order_by_rank(&ranks);
    let r = reordered(items, &order);
    proof {
        if !shaped {
            lemma_increasing_order(order@);
            assert(r@ =~= items@);
        }
        assert(goes_by(order@, fetch_ranks(items@, mode, *config)));
    }
    r
}

/// An order that only goes up leaves everything in its place.
proof fn lemma_increasing_order(order: Seq<usize>)
    requires
        background_poll_dispatch::is_order(order, order.len() as int),
        forall|i: int, j: int| 0 <= i < j < order.len() ==> #[trigger] order[i] < #[trigger] order[j],
    ensures
        forall|i: int| 0 <= i < order.len() ==> #[trigger] order[i] == i,
{
    assert forall|i: int| 0 <= i < order.len() implies #[trigger] order[i] == i by {
        lemma_at_least(order, i);
        lemma_at_most(order, i);
    }
}

proof fn lemma_at_least(order: Seq<usize>, i: int)
    requires
        forall|i: int, j: int| 0 <= i < j < order.len() ==> #[trigger] order[i] < #[trigger] order[j],
        0 <= i < order.len(),
    ensures
        order[i] >= i,
    decreases i,
{
    if i > 0 {
        lemma_at_least(order, i - 1);
        assert(order[i - 1] < order[i]);
    }
}

proof fn lemma_at_most(order: Seq<usize>, i: int)
    requires
        background_poll_dispatch::is_order(order, order.len() as int),
        forall|i: int, j: int| 0 <= i < j < order.len() ==> #[trigger] order[i] < #[trigger] order[j],
        0 <= i < order.len(),
    ensures
        order[i] <= i,
    decreases order.len() - i,
{
    if i < order.len() - 1 {
        lemma_at_most(order, i + 1);
        assert(order[i] < order[i + 1]);
    } else {
        assert(order[i] < order.len());
    }
}

/// What is done next to carry out the requests of a fetch.
#[derive(Clone, Copy, Debug, PartialEq, Eq, Structural)]
pub enum FetchAction {
    /// Launch the request with this number, at a given time where it must wait.
    Launch { index: usize, at: Option<Instant> },
    /// Wait for one of those under way to end.
    AwaitOne,
    /// All have ended.
    Done,
}

/// The requests of a fetch as they are carried out.
#[derive(Clone, Copy, Debug, PartialEq, Eq, Structural)]
pub struct FetchRun {
    pub count: usize,
    pub max_in_flight: usize,
    pub launch_spacing: Duration,
    pub attempted_count: usize,
    pub in_flight: usize,
    pub next_launch_at: Instant,
}

impl FetchRun {
    /// No more are under way than allowed, nor than were launched.
    pub open spec fn wf(&self) -> bool {
        &&& self.attempted_count <= self.count
        &&& self.in_flight <= self.attempted_count
        &&& self.in_flight <= self.max_in_flight
        &&& self.max_in_flight >= 1
    }

    pub fn new(
        count: usize,
        config: &BackgroundPollDispatchConfig,
        mode: FetchExecutionMode,
        now: Instant,
    ) -> (r: Self)
        requires
            config.max_in_flight >= 1,
        ensures
            r.wf(),
            r.count == count,
            r.max_in_flight == config.max_in_flight,
            r.attempted_count == 0,
            r.in_flight == 0,
            r.next_launch_at == now,
            r.launch_spacing@ == (if mode is BackgroundPoll {
                config.item_spacing_ms * 1_000_000
            } else {
                0
            }),
    {
        FetchRun {
            count,
            max_in_flight: config.max_in_flight,
            launch_spacing: match mode {
                FetchExecutionMode::BackgroundPoll { .. } => config.launch_spacing(),
                FetchExecutionMode::Foreground => Duration::zero(),
            },
            attempted_count: 0,
            in_flight: 0,
            next_launch_at: now,
        }
    }

    /// When the next launch may happen: at once where launches are not spaced.
    pub fn wait_for_launch_slot(&mut self, now: Instant) -> (r: Option<Instant>)
        requires
            clock::max(old(self).next_launch_at@, now@) + old(self).launch_spacing@
                <= clock::LONGEST,
        ensures
            *final(self) == (FetchRun { next_launch_at: final(self).next_launch_at, ..*old(self) }),
            match r {
                None => old(self).launch_spacing@ == 0 && final(self).next_launch_at == old(self).next_launch_at,
                Some(at) => {
                    &&& old(self).launch_spacing@ > 0
                    &&& at@ == clock::max(old(self).next_launch_at@, now@)
                    &&& final(self).next_launch_at@ == at@ + old(self).launch_spacing@
                },
            },
    {
        if self.launch_spacing.is_zero() {
            return None;
        }
        let at = if self.next_launch_at.at_most(&now) {
            now
        } else {
            self.next_launch_at
        };
        self.next_launch_at = at.plus(self.launch_spacing);
        Some(at)
    }

    /// The next action: launch while there is room, then wait, until all have
    /// ended.
    pub fn next(&mut self, now: Instant) -> (r: FetchAction)
        requires
            old(self).wf(),
            clock::max(old(self).next_launch_at@, now@) + old(self).launch_spacing@
                <= clock::LONGEST,
        ensures
            final(self).wf(),
            final(self).count == old(self).count,
            final(self).max_in_flight == old(self).max_in_flight,
            final(self).launch_spacing == old(self).launch_spacing,
            ({
                let room = old(self).in_flight < old(self).max_in_flight && old(self).attempted_count < old(self).count;
                match r {
                    FetchAction::Launch { index, at } => {
                        &&& room
                        &&& index == old(self).attempted_count
                        &&& final(self).attempted_count == old(self).attempted_count + 1
                        &&& final(self).in_flight == old(self).in_flight + 1
                        &&& match at {
                            None => old(self).launch_spacing@ == 0 && final(self).next_launch_at == old(self).next_launch_at,
                            Some(t) => {
                                &&& old(self).launch_spacing@ > 0
                                &&& t@ == clock::max(old(self).next_launch_at@, now@)
                                &&& final(self).next_launch_at@ == t@ + old(self).launch_spacing@
                            },
                        }
                    },
                    FetchAction::AwaitOne => !room && old(self).in_flight > 0 && *final(self)
                        == *old(self),
                    FetchAction::Done => !room && old(self).in_flight == 0 && *final(self)
                        == *old(self) && old(self).attempted_count == old(self).count,
                }
            }),
    {
        if self.in_flight < self.max_in_flight && self.attempted_count < self.count {
            let index: usize = self.attempted_count;
            let at = self.wait_for_launch_slot(now);
            self.attempted_count = self.attempted_count + 1;
            self.in_flight = self.in_flight + 1;
            return FetchAction::Launch { index, at };
        }
        if self.in_flight > 0 {
            FetchAction::AwaitOne
        } else {
            FetchAction::Done
        }
    }

    /// Takes note that one of those under way has ended.
    pub fn one_ended(&mut self)
        requires
            old(self).wf(),
            old(self).in_flight > 0,
        ensures
            final(self).wf(),
            *final(self) == (FetchRun {
                in_flight: (old(self).in_flight - 1) as usize,
                ..*old(self)
            }),
    {
        self.in_flight = self.in_flight - 1;
    }
}

/// Launches that are spaced follow one another by at least the spacing, whatever
/// the times at which they are asked for.
pub proof fn law_launches_are_spaced(next_launch_at: int, spacing: int, first: int, second: int)
    requires
        spacing > 0,
    ensures
        ({
            let a = clock::max(next_launch_at, first);
            let b = clock::max(a + spacing, second);
            b - a >= spacing
        }),
{
}

/// How a launched request is recorded: with its result, or as a failure where it
/// did not end in time.
pub fn record_outcome(
    backoff: &mut RequestBackoffController,
    request_context: &AuthorizedRequestContext,
    result: Option<DataProviderRequestResult>,
    now: Instant,
)
    requires
        old(backoff).wf(),
        now@ + old(backoff).rules().max_delay@ <= clock::LONGEST,
    ensures
        final(backoff).wf(),
        final(backoff).rules() == old(backoff).rules(),
        ({
            let k = sdk_key_store::context_key(request_context@);
            let m = old(backoff).failed();
            let n = final(backoff).failed();
            if result is None || result == Some(DataProviderRequestResult::Error) {
                n == m.insert(k, n[k]) && request_backoff::failed_once_more(
                    m,
                    k,
                    old(backoff).rules(),
                    now,
                    n[k],
                )
            } else {
                n == m.remove(k)
            }
        }),
{
    match result {
        Some(r) => backoff.record_result(request_context, r, now),
        None => backoff.record_failure_at(request_context, now),
    }
}

/// Whether the backup is asked for: where the upstream failed.
pub fn needs_backup(result: DataProviderRequestResult) -> (r: bool)
    ensures
        r == (result == DataProviderRequestResult::Error),
{
    result == DataProviderRequestResult::Error
}

/// Whether a response without a body is told to the observers.
pub open spec fn is_empty_notification(
    n: ResponseContext,
    result: DataProviderRequestResult,
    lcut: u64,
) -> bool {
    &&& n.result_type == result
    &&& n.lcut == lcut
    &&& n.request_since_time == lcut
    &&& n.body@.encoding == CompressionEncoder::PlainText
    &&& !n.body@.use_proto
    &&& n.body@.data == Seq::<u8>::empty()
}

/// Whether `n` is what the observers are told of a result: data that is new, a
/// backup where the upstream failed, and refusals, those of keys only where they
/// clear the stores.
pub open spec fn is_notification(
    n: Option<ResponseContext>,
    use_lcut: bool,
    lcut: u64,
    result: DataProviderResult,
    backup: Option<ConfigSpecForCompany>,
    clear_datastore_on_unauthorized: bool,
) -> bool {
    match result.result {
        DataProviderRequestResult::DataAvailable => match result.body {
            Some(body) => if !use_lcut || lcut != result.lcut {
                n == Some(
                    ResponseContext {
                        result_type: result.result,
                        lcut: result.lcut,
                        request_since_time: lcut,
                        body,
                    },
                )
            } else {
                n is None
            },
            None => n is None,
        },
        DataProviderRequestResult::Error => match backup {
            Some(spec) => n == Some(
                ResponseContext {
                    result_type: result.result,
                    lcut: spec.lcut,
                    request_since_time: lcut,
                    body: spec.config,
                },
            ),
            None => n is None,
        },
        DataProviderRequestResult::Unauthorized => if clear_datastore_on_unauthorized {
            n is Some && is_empty_notification(n->0, result.result, lcut)
        } else {
            n is None
        },
        DataProviderRequestResult::ClientError => n is Some && is_empty_notification(
            n->0,
            result.result,
            lcut,
        ),
        DataProviderRequestResult::NoDataAvailable => n is None,
    }
}

fn empty_notification(result: DataProviderRequestResult, lcut: u64) -> (r: ResponseContext)
    ensures
        is_empty_notification(r, result, lcut),
{
    ResponseContext {
        result_type: result,
        lcut,
        request_since_time: lcut,
        body: Arc::new(
            ResponsePayload {
                encoding: CompressionEncoder::PlainText,
                use_proto: false,
                data: Vec::new(),
            },
        ),
    }
}

/// What the observers are told of a result.
pub fn process_request(
    request_context: &AuthorizedRequestContext,
    lcut: u64,
    result: &DataProviderResult,
    backup: Option<&ConfigSpecForCompany>,
    clear_datastore_on_unauthorized: bool,
) -> (r: Option<ResponseContext>)
    ensures
        is_notification(
            r,
            request_context@.use_lcut,
            lcut,
            *result,
            match backup {
                Some(b) => Some(*b),
                None => None,
            },
            clear_datastore_on_unauthorized,
        ),
{
    match result.result {
        DataProviderRequestResult::DataAvailable => match &result.body {
            Some(body) => if !request_context.use_lcut || lcut != result.lcut {
                Some(
                    ResponseContext {
                        result_type: result.result,
                        lcut: result.lcut,
                        request_since_time: lcut,
                        body: keyed_store::share(body),
                    },
                )
            } else {
                None
            },
            None => None,
        },
        DataProviderRequestResult::Error => match backup {
            Some(spec) => Some(
                ResponseContext {
                    result_type: result.result,
                    lcut: spec.lcut,
                    request_since_time: lcut,
                    body: keyed_store::share(&spec.config),
                },
            ),
            None => None,
        },
        DataProviderRequestResult::Unauthorized => if clear_datastore_on_unauthorized {
            Some(empty_notification(result.result, lcut))
        } else {
            None
        },
        DataProviderRequestResult::ClientError => Some(empty_notification(result.result, lcut)),
        DataProviderRequestResult::NoDataAvailable => None,
    }
}

/// What fetches in the background is run with.
pub struct BackgroundDataProvider {
    pub polling_interval_in_s: u64,
    pub clear_datastore_on_unauthorized: bool,
    pub client_config: HttpClientConfig,
    pub request_backoff_controller: RequestBackoffController,
    pub foreground_fetch_locks: ForegroundFetchLocks,
    pub background_poll_dispatch_config: BackgroundPollDispatchConfig,
}

impl BackgroundDataProvider {
    pub fn new(
        polling_interval_in_s: u64,
        clear_datastore_on_unauthorized: bool,
        http_client_config: HttpClientConfig,
        background_poll_dispatch_config: BackgroundPollDispatchConfig,
    ) -> (r: Self)
        ensures
            r.polling_interval_in_s == polling_interval_in_s,
            r.clear_datastore_on_unauthorized == clear_datastore_on_unauthorized,
            r.client_config == http_client_config,
            r.background_poll_dispatch_config == background_poll_dispatch_config,
            r.foreground_fetch_locks.wf(),
            r.foreground_fetch_locks.held() == Set::<keyed_store::KeyView>::empty(),
            r.request_backoff_controller.wf(),
            r.request_backoff_controller.failed() == Map::<
                keyed_store::KeyView,
                request_backoff::RequestBackoffState,
            >::empty(),
            ({
                let base = clock::max(polling_interval_in_s as int, 1);
                let rules = r.request_backoff_controller.rules();
                &&& rules.initial_delay@ == base * clock::SECOND
                &&& rules.max_delay@ == clock::min(base * 32, 300) * clock::SECOND
            }),
    {
        BackgroundDataProvider {
            polling_interval_in_s,
            clear_datastore_on_unauthorized,
            client_config: http_client_config,
            request_backoff_controller: RequestBackoffController::new(
                RequestBackoffPolicy::from_polling_interval(polling_interval_in_s),
            ),
            foreground_fetch_locks: ForegroundFetchLocks::new(),
            background_poll_dispatch_config,
        }
    }

    pub fn http_client_config(&self) -> (r: HttpClientConfig)
        ensures
            r == self.client_config,
    {
        self.client_config
    }
}

/// Whether a request is wanted, and has no failure to wait for.
pub open spec fn is_attempted(
    failed: Map<keyed_store::KeyView, request_backoff::RequestBackoffState>,
    item: SdkKeyStoreItem,
    wanted: bool,
    now: Instant,
) -> bool {
    let k = sdk_key_store::context_key(item.request_context@);
    wanted && (failed.contains_key(k) ==> failed[k].retry_after@ <= now@)
}

/// What is attempted is what is wanted and does not have to wait, each once and in its
/// order, and nothing else.
pub proof fn law_waiting_requests_are_left_out(
    failed: Map<keyed_store::KeyView, request_backoff::RequestBackoffState>,
    items: Seq<SdkKeyStoreItem>,
    wanted: Seq<bool>,
    now: Instant,
)
    ensures
        attemptable(failed, items, wanted, now).len() <= items.len(),
        forall|i: int|
            0 <= i < items.len() && is_attempted(failed, #[trigger] items[i], wanted[i], now)
                ==> attemptable(failed, items, wanted, now).contains(items[i]),
        forall|n: int|
            0 <= n < attemptable(failed, items, wanted, now).len() ==> exists|i: int|
                n <= i < items.len() && is_attempted(failed, #[trigger] items[i], wanted[i], now)
                    && items[i] == #[trigger] attemptable(failed, items, wanted, now)[n],
        (forall|i: int|
            0 <= i < items.len() ==> is_attempted(failed, #[trigger] items[i], wanted[i], now))
            ==> attemptable(failed, items, wanted, now) == items,
    decreases items.len(),
{
    if items.len() > 0 {
        let short = items.drop_last();
        let last = items.len() - 1;
        law_waiting_requests_are_left_out(failed, short, wanted, now);
        let rest = attemptable(failed, short, wanted, now);
        let all = attemptable(failed, items, wanted, now);
        assert forall|i: int|
            0 <= i < items.len() && is_attempted(
                failed,
                #[trigger] items[i],
                wanted[i],
                now,
            ) implies all.contains(items[i]) by {
            if i < last {
                assert(items[i] == short[i]);
                let n = choose|n: int| 0 <= n < rest.len() && rest[n] == short[i];
                assert(all[n] == items[i]);
            } else {
                assert(all[rest.len() as int] == items[i]);
            }
        }
        assert forall|n: int| 0 <= n < all.len() implies exists|i: int|
            n <= i < items.len() && is_attempted(failed, #[trigger] items[i], wanted[i], now)
                && items[i] == #[trigger] all[n] by {
            if n < rest.len() {
                assert(all[n] == rest[n]);
                let i = choose|i: int|
                    n <= i < short.len() && is_attempted(failed, #[trigger] short[i], wanted[i], now)
                        && short[i] == rest[n];
                assert(items[i] == short[i]);
            } else {
                assert(items[last] == all[n]);
            }
        }
        if forall|i: int|
            0 <= i < items.len() ==> is_attempted(failed, #[trigger] items[i], wanted[i], now) {
            assert forall|i: int| 0 <= i < short.len() implies is_attempted(
                failed,
                #[trigger] short[i],
                wanted[i],
                now,
            ) by {
                assert(short[i] == items[i]);
            }
            assert(is_attempted(failed, items[last], wanted[last], now));
            assert(all =~= items);
        }
    }
}

/// A request that is asked for is seen, and keeps how long it has to wait. No failure
/// appears or goes with it.
pub proof fn law_asked_requests_are_seen(
    failed: Map<keyed_store::KeyView, request_backoff::RequestBackoffState>,
    items: Seq<SdkKeyStoreItem>,
    wanted: Seq<bool>,
    now: Instant,
    k: keyed_store::KeyView,
)
    ensures
        ({
            let after = seen_after(failed, items, wanted, now);
            let asked = exists|i: int|
                0 <= i < items.len() && wanted[i] && sdk_key_store::context_key(
                    (#[trigger] items[i]).request_context@,
                ) == k;
            &&& after.contains_key(k) <==> failed.contains_key(k)
            &&& failed.contains_key(k) ==> {
                &&& after[k].retry_after == failed[k].retry_after
                &&& after[k].consecutive_failures == failed[k].consecutive_failures
                &&& asked ==> after[k].last_seen == now
                &&& !asked ==> after[k].last_seen == failed[k].last_seen
            }
        }),
    decreases items.len(),
{
    if items.len() > 0 {
        let short = items.drop_last();
        law_asked_requests_are_seen(failed, short, wanted, now, k);
        let last = items.len() - 1;
        let asked = exists|i: int|
            0 <= i < items.len() && wanted[i] && sdk_key_store::context_key(
                (#[trigger] items[i]).request_context@,
            ) == k;
        let asked_short = exists|i: int|
            0 <= i < short.len() && wanted[i] && sdk_key_store::context_key(
                (#[trigger] short[i]).request_context@,
            ) == k;
        if asked_short {
            let i = choose|i: int|
                0 <= i < short.len() && wanted[i] && sdk_key_store::context_key(
                    (#[trigger] short[i]).request_context@,
                ) == k;
            assert(items[i] == short[i]);
        }
        if asked && !asked_short {
            let i = choose|i: int|
                0 <= i < items.len() && wanted[i] && sdk_key_store::context_key(
                    (#[trigger] items[i]).request_context@,
                ) == k;
            if i < last {
                assert(short[i] == items[i]);
            }
        }
        if wanted[last] && sdk_key_store::context_key(items[last].request_context@) == k {
            assert(asked);
        }
    }
}

/// What the stores are told of a result. Data is passed on with its own time where it is
/// new, an error with what stands in for it, and a refusal only where the stores are to be
/// cleared for it. Nothing is told of what did not change.
pub proof fn law_stores_are_told_what_changed(
    n: Option<ResponseContext>,
    use_lcut: bool,
    lcut: u64,
    result: DataProviderResult,
    backup: Option<ConfigSpecForCompany>,
    clear: bool,
)
    requires
        is_notification(n, use_lcut, lcut, result, backup, clear),
    ensures
        n matches Some(r) ==> r.result_type == result.result && r.request_since_time == lcut,
        result.result == DataProviderRequestResult::DataAvailable ==> {
            &&& n is Some <==> result.body is Some && (!use_lcut || lcut != result.lcut)
            &&& n is Some ==> (n->0).lcut == result.lcut && (n->0).body == result.body->0
        },
        result.result == DataProviderRequestResult::Error ==> {
            &&& n is Some <==> backup is Some
            &&& n is Some ==> (n->0).lcut == (backup->0).lcut && (n->0).body == (backup->0).config
        },
        result.result == DataProviderRequestResult::Unauthorized ==> (n is Some <==> clear),
        result.result == DataProviderRequestResult::ClientError ==> n is Some,
        result.result == DataProviderRequestResult::NoDataAvailable ==> n is None,
        (result.result == DataProviderRequestResult::Unauthorized || result.result
            == DataProviderRequestResult::ClientError) && n is Some ==> (n->0).body@.data.len() == 0
            && (n->0).lcut == lcut,
{
}

/// Requests of a poll that is not spread, and those that someone waits for, all have one
/// rank and stay in their order. Those of a poll that is spread have the ranks of its cycle.
pub proof fn law_only_polls_are_spread(
    items: Seq<SdkKeyStoreItem>,
    poll_cycle: u64,
    config: BackgroundPollDispatchConfig,
    i: int,
)
    requires
        0 <= i < items.len(),
    ensures
        fetch_ranks(items, FetchExecutionMode::Foreground, config)[i] == 0,
        config.shapes(items.len() as int) ==> fetch_ranks(
            items,
            FetchExecutionMode::BackgroundPoll { poll_cycle },
            config,
        )[i] == background_poll_dispatch::rank_of(
            items[i].request_context@,
            poll_cycle,
            config.jitter_seed,
        ),
        !config.shapes(items.len() as int) ==> fetch_ranks(
            items,
            FetchExecutionMode::BackgroundPoll { poll_cycle },
            config,
        )[i] == 0,
{
}

} // verus!
