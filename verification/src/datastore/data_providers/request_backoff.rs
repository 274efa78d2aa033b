//! How long failed requests wait before they are tried again.

use crate::clock;
use crate::clock::{Duration, Instant};
use crate::datastore::data_providers::DataProviderRequestResult;
use crate::datastore::sdk_key_store;
use crate::keyed_store;
use crate::keyed_store::KeyedStore;
use crate::servers::authorized_request_context::AuthorizedRequestContext;
use vstd::arithmetic::power2::*;
use vstd::prelude::*;

verus! {

broadcast use crate::clock::group_time;

/// How the delay grows with each failure.
#[derive(Clone, Copy, Debug, PartialEq, Eq, Structural)]
pub struct RequestBackoffPolicy {
    pub initial_delay: Duration,
    pub max_delay: Duration,
}

/// The delay after a number of failures in a row: it doubles with each, up to
/// the longest.
pub open spec fn delay_after(initial: int, longest: int, failures: int) -> int {
    let exponent = if failures < 1 {
        0
    } else if failures > 32 {
        31
    } else {
        failures - 1
    };
    clock::min(initial * pow2(exponent as nat), longest)
}

fn power_of_two(exponent: u32) -> (r: u32)
    requires
        exponent <= 31,
    ensures
        r == pow2(exponent as nat),
{
    let mut r: u32 = 1;
    let mut i: u32 = 0;
    proof {
        lemma2_to64();
    }
    while i < exponent
        invariant
            i <= exponent <= 31,
            r == pow2(i as nat),
        decreases exponent - i,
    {
        proof {
            lemma_pow2_unfold((i + 1) as nat);
            lemma2_to64();
            if i < 31 {
                lemma_pow2_strictly_increases(i as nat, 31);
            }
        }
        r = r * 2;
        i += 1;
    }
    r
}

impl RequestBackoffPolicy {
    pub fn from_polling_interval(polling_interval_in_s: u64) -> (r: Self)
        ensures
            ({
                let base = clock::max(polling_interval_in_s as int, 1);
                &&& r.initial_delay@ == base * clock::SECOND
                &&& r.max_delay@ == clock::min(base * 32, 300) * clock::SECOND
            }),
    {
        let base: u64 = if polling_interval_in_s >= 1 {
            polling_interval_in_s
        } else {
            1
        };
        let longest: u64 = if base <= 9 {
            base * 32
        } else {
            300
        };
        RequestBackoffPolicy {
            initial_delay: Duration::from_secs(base),
            max_delay: Duration::from_secs(longest),
        }
    }

    pub fn delay_for_failure(&self, failure_count: u32) -> (r: Duration)
        ensures
            r@ == delay_after(self.initial_delay@, self.max_delay@, failure_count as int),
    {
        let exponent: u32 = if failure_count < 1 {
            0
        } else if failure_count > 32 {
            31
        } else {
            failure_count - 1
        };
        let longest: u128 = self.max_delay.as_nanos();
        assert(longest <= clock::LONGEST);
        let scaled = self.initial_delay.saturating_mul(power_of_two(exponent));
        scaled.shorter(self.max_delay)
    }
}

/// A later failure never waits shorter than an earlier one, and none waits longer
/// than the longest delay.
pub proof fn law_delays_grow_to_the_longest(initial: int, longest: int, failures: int)
    requires
        0 <= initial,
        0 <= longest,
        1 <= failures,
    ensures
        delay_after(initial, longest, failures) <= delay_after(initial, longest, failures + 1),
        delay_after(initial, longest, failures) <= longest,
        delay_after(initial, longest, 1) == clock::min(initial, longest),
{
    lemma2_to64();
    assert(initial * pow2(0) == initial);
    if failures < 32 {
        lemma_pow2_unfold(failures as nat);
        let a = pow2((failures - 1) as nat) as int;
        assert(initial * a <= initial * (2 * a)) by (nonlinear_arith)
            requires
                0 <= initial,
                0 <= a,
        ;
    }
}

/// What is known of a request that failed.
#[derive(Clone, Copy, Debug, PartialEq, Eq, Structural)]
pub struct RequestBackoffState {
    pub consecutive_failures: u32,
    pub retry_after: Instant,
    pub last_seen: Instant,
}

/// Keeps failed requests from being tried again too soon.
pub struct RequestBackoffController {
    policy: RequestBackoffPolicy,
    state_by_key: KeyedStore<RequestBackoffState>,
}

/// How long a request must not have been seen to be forgotten.
pub open spec fn stale_after(longest: int) -> int {
    if 2 * longest <= clock::LONGEST {
        2 * longest
    } else {
        longest
    }
}

/// Whether a request was not seen for long.
pub open spec fn is_stale(s: RequestBackoffState, longest: int, now: Instant) -> bool {
    clock::max(now@ - s.last_seen@, 0) > stale_after(longest)
}

/// Whether `s` is what one more failure makes of a request.
pub open spec fn failed_once_more(
    m: Map<keyed_store::KeyView, RequestBackoffState>,
    k: keyed_store::KeyView,
    policy: RequestBackoffPolicy,
    now: Instant,
    s: RequestBackoffState,
) -> bool {
    &&& s.consecutive_failures == (if m.contains_key(k) {
        clock::min(m[k].consecutive_failures + 1, u32::MAX as int)
    } else {
        1
    })
    &&& s.retry_after@ == now@ + delay_after(
        policy.initial_delay@,
        policy.max_delay@,
        s.consecutive_failures as int,
    )
    &&& s.last_seen == now
}

/// Whether a request may be made.
pub open spec fn may_attempt(
    m: Map<keyed_store::KeyView, RequestBackoffState>,
    k: keyed_store::KeyView,
    now: Instant,
) -> bool {
    !m.contains_key(k) || now@ >= m[k].retry_after@
}

/// What happens to the requests that failed.
pub enum BackoffEvent {
    /// It was asked whether a request may be made.
    Asked { key: keyed_store::KeyView, at: Instant },
    Failed { key: keyed_store::KeyView, at: Instant },
    Succeeded { key: keyed_store::KeyView },
    /// Requests that were not seen for long were forgotten.
    Pruned { at: Instant },
}

/// Whether `m` becomes `n` by an event.
pub open spec fn follows(
    policy: RequestBackoffPolicy,
    m: Map<keyed_store::KeyView, RequestBackoffState>,
    e: BackoffEvent,
    n: Map<keyed_store::KeyView, RequestBackoffState>,
) -> bool {
    match e {
        BackoffEvent::Asked { key, at } => n == (if m.contains_key(key) {
            m.insert(key, RequestBackoffState { last_seen: at, ..m[key] })
        } else {
            m
        }),
        BackoffEvent::Failed { key, at } => n == m.insert(key, n[key]) && failed_once_more(
            m,
            key,
            policy,
            at,
            n[key],
        ),
        BackoffEvent::Succeeded { key } => n == m.remove(key),
        BackoffEvent::Pruned { at } => n == m.restrict(
            Set::new(|k: keyed_store::KeyView| !is_stale(m[k], policy.max_delay@, at)),
        ),
    }
}

impl RequestBackoffController {
    pub closed spec fn wf(&self) -> bool {
        self.state_by_key.wf()
    }

    pub closed spec fn rules(&self) -> RequestBackoffPolicy {
        self.policy
    }

    /// The requests that failed, by the keys of their contexts.
    pub closed spec fn failed(&self) -> Map<keyed_store::KeyView, RequestBackoffState> {
        self.state_by_key@
    }

    pub fn new(policy: RequestBackoffPolicy) -> (r: Self)
        ensures
            r.wf(),
            r.rules() == policy,
            r.failed() == Map::<keyed_store::KeyView, RequestBackoffState>::empty(),
    {
        RequestBackoffController { policy, state_by_key: KeyedStore::new() }
    }

    /// Whether a request may be made. What asks is seen, and not forgotten while
    /// it waits.
    pub fn can_attempt_at(&mut self, key: &AuthorizedRequestContext, now: Instant) -> (r: bool)
        requires
            old(self).wf(),
        ensures
            final(self).wf(),
            final(self).rules() == old(self).rules(),
            r == may_attempt(old(self).failed(), sdk_key_store::context_key(key@), now),
            follows(
                old(self).rules(),
                old(self).failed(),
                BackoffEvent::Asked { key: sdk_key_store::context_key(key@), at: now },
                final(self).failed(),
            ),
    {
        let store_key = key.store_key();
        let state = match self.state_by_key.get(&store_key) {
            Some(s) => *s,
            None => {
                return true;
            },
        };
        self.state_by_key.insert(
            store_key,
            RequestBackoffState {
                consecutive_failures: state.consecutive_failures,
                retry_after: state.retry_after,
                last_seen: now,
            },
        );
        state.retry_after.at_most(&now)
    }

    /// Takes note of how a request ended. Only errors count as failures.
    pub fn record_result(
        &mut self,
        key: &AuthorizedRequestContext,
        result: DataProviderRequestResult,
        now: Instant,
    )
        requires
            old(self).wf(),
            now@ + old(self).rules().max_delay@ <= clock::LONGEST,
        ensures
            final(self).wf(),
            final(self).rules() == old(self).rules(),
            follows(
                old(self).rules(),
                old(self).failed(),
                if result == DataProviderRequestResult::Error {
                    BackoffEvent::Failed { key: sdk_key_store::context_key(key@), at: now }
                } else {
                    BackoffEvent::Succeeded { key: sdk_key_store::context_key(key@) }
                },
                final(self).failed(),
            ),
    {
        match result {
            DataProviderRequestResult::Error => self.record_failure_at(key, now),
            _ => self.record_success(key),
        }
    }

    /// Forgets the failures of a request.
    pub fn record_success(&mut self, key: &AuthorizedRequestContext)
        requires
            old(self).wf(),
        ensures
            final(self).wf(),
            final(self).rules() == old(self).rules(),
            follows(
                old(self).rules(),
                old(self).failed(),
                BackoffEvent::Succeeded { key: sdk_key_store::context_key(key@) },
                final(self).failed(),
            ),
    {
        let _ = self.state_by_key.remove(&key.store_key());
    }

    /// Takes note of one more failure.
    pub fn record_failure_at(&mut self, key: &AuthorizedRequestContext, now: Instant)
        requires
            old(self).wf(),
            now@ + old(self).rules().max_delay@ <= clock::LONGEST,
        ensures
            final(self).wf(),
            final(self).rules() == old(self).rules(),
            follows(
                old(self).rules(),
                old(self).failed(),
                BackoffEvent::Failed { key: sdk_key_store::context_key(key@), at: now },
                final(self).failed(),
            ),
    {
        let store_key = key.store_key();
        let failures: u32 = match self.state_by_key.get(&store_key) {
            Some(s) => if s.consecutive_failures < u32::MAX {
                s.consecutive_failures + 1
            } else {
                u32::MAX
            },
            None => 1,
        };
        let delay = self.policy.delay_for_failure(failures);
        let ghost k = store_key@;
        self.state_by_key.insert(
            store_key,
            RequestBackoffState {
                consecutive_failures: failures,
                retry_after: now.plus(delay),
                last_seen: now,
            },
        );
        assert(self.failed().contains_key(k));
    }

    /// Forgets requests that were not seen for long.
    pub fn prune_stale_at(&mut self, now: Instant)
        requires
            old(self).wf(),
        ensures
            final(self).wf(),
            final(self).rules() == old(self).rules(),
            follows(
                old(self).rules(),
                old(self).failed(),
                BackoffEvent::Pruned { at: now },
                final(self).failed(),
            ),
    {
        let ghost before = self.failed();
        let ghost longest = self.policy.max_delay@;
        let stale = if self.policy.max_delay.as_nanos() <= clock::LONGEST / 2 {
            self.policy.max_delay.times(2)
        } else {
            self.policy.max_delay
        };
        let keys = self.state_by_key.keys();
        let mut i: usize = 0;
        while i < keys.len()
            invariant
                i <= keys@.len(),
                self.wf(),
                self.rules() == old(self).rules(),
                before == old(self).failed(),
                longest == self.rules().max_delay@,
                stale@ == stale_after(longest),
                forall|a: int, b: int|
                    0 <= a < b < keys@.len() ==> (#[trigger] keys@[a])@ != (
                    #[trigger] keys@[b])@,
                forall|k: keyed_store::KeyView| #[trigger]
                    self.failed().contains_key(k) ==> before.contains_key(k) && self.failed()[k]
                        == before[k],
                forall|k: keyed_store::KeyView| #[trigger]
                    before.contains_key(k) && !self.failed().contains_key(k) ==> is_stale(
                        before[k],
                        longest,
                        now,
                    ),
                forall|j: int|
                    0 <= j < i ==> (self.failed().contains_key((#[trigger] keys@[j])@) ==> !is_stale(
                        before[keys@[j]@],
                        longest,
                        now,
                    )),
            decreases keys@.len() - i,
        {
            let ghost now_kept = self.failed();
            let mut drop_it = false;
            if let Some(s) = self.state_by_key.get(&keys[i]) {
                drop_it = stale.less(&now.saturating_duration_since(&s.last_seen));
            }
            if drop_it {
                let _ = self.state_by_key.remove(&keys[i]);
                assert(self.failed() == now_kept.remove(keys@[i as int]@));
            }
            assert forall|k: keyed_store::KeyView| #[trigger]
                self.failed().contains_key(k) implies before.contains_key(k) && self.failed()[k]
                == before[k] by {
                assert(now_kept.contains_key(k));
            }
            i += 1;
        }
        proof {
            let kept = before.restrict(
                Set::new(|k: keyed_store::KeyView| !is_stale(before[k], longest, now)),
            );
            assert forall|k: keyed_store::KeyView|
                self.failed().contains_key(k) <==> kept.contains_key(k) by {
                if before.contains_key(k) {
                    let j = choose|j: int| 0 <= j < keys@.len() && #[trigger] keys@[j]@ == k;
                    assert(keys@[j]@ == k);
                }
            }
            assert(self.failed() =~= kept);
        }
    }
}

/// After a failure a request must wait for its delay, and may be made once the
/// delay is over.
pub proof fn law_failed_requests_wait(
    m: Map<keyed_store::KeyView, RequestBackoffState>,
    k: keyed_store::KeyView,
    policy: RequestBackoffPolicy,
    now: Instant,
    s: RequestBackoffState,
    later: Instant,
)
    requires
        failed_once_more(m, k, policy, now, s),
    ensures
        later@ >= s.retry_after@ <==> later@ - now@ >= delay_after(
            policy.initial_delay@,
            policy.max_delay@,
            s.consecutive_failures as int,
        ),
        s.retry_after@ <= now@ + policy.max_delay@,
{
}

/// What counts of what happened to one request.
pub struct KeyHistory {
    /// The failures in a row.
    pub failures: nat,
    pub last_failure: Instant,
    pub last_seen: Instant,
}

/// What counts for one request of some events: nothing before its first failure, from
/// a success on, and once it was forgotten.
pub open spec fn key_history(
    policy: RequestBackoffPolicy,
    events: Seq<BackoffEvent>,
    k: keyed_store::KeyView,
) -> Option<KeyHistory>
    decreases events.len(),
{
    if events.len() == 0 {
        None
    } else {
        let before = key_history(policy, events.drop_last(), k);
        match events.last() {
            BackoffEvent::Asked { key, at } => match before {
                Some(h) => if key == k {
                    Some(KeyHistory { last_seen: at, ..h })
                } else {
                    before
                },
                None => None,
            },
            BackoffEvent::Failed { key, at } => if key == k {
                Some(
                    KeyHistory {
                        failures: match before {
                            Some(h) => h.failures + 1,
                            None => 1,
                        },
                        last_failure: at,
                        last_seen: at,
                    },
                )
            } else {
                before
            },
            BackoffEvent::Succeeded { key } => if key == k {
                None
            } else {
                before
            },
            BackoffEvent::Pruned { at } => match before {
                Some(h) => if clock::max(at@ - h.last_seen@, 0) > stale_after(
                    policy.max_delay@,
                ) {
                    None
                } else {
                    before
                },
                None => None,
            },
        }
    }
}

/// Whether the states are those that events lead through, one after the other, from
/// the start.
pub open spec fn is_run(
    policy: RequestBackoffPolicy,
    events: Seq<BackoffEvent>,
    states: Seq<Map<keyed_store::KeyView, RequestBackoffState>>,
) -> bool {
    &&& states.len() == events.len() + 1
    &&& states[0] == Map::<keyed_store::KeyView, RequestBackoffState>::empty()
    &&& forall|i: int|
        0 <= i < events.len() ==> follows(policy, states[i], #[trigger] events[i], states[i + 1])
}

/// What is known of a request is what counts of what happened to it.
proof fn lemma_known_state(
    policy: RequestBackoffPolicy,
    events: Seq<BackoffEvent>,
    states: Seq<Map<keyed_store::KeyView, RequestBackoffState>>,
    k: keyed_store::KeyView,
)
    requires
        is_run(policy, events, states),
    ensures
        match key_history(policy, events, k) {
            Some(h) => {
                let m = states.last();
                &&& m.contains_key(k)
                &&& h.failures >= 1
                &&& m[k].consecutive_failures == clock::min(h.failures as int, u32::MAX as int)
                &&& m[k].last_seen == h.last_seen
                &&& m[k].retry_after@ == h.last_failure@ + delay_after(
                    policy.initial_delay@,
                    policy.max_delay@,
                    h.failures as int,
                )
            },
            None => !states.last().contains_key(k),
        },
    decreases events.len(),
{
    if events.len() > 0 {
        let n = events.len() - 1;
        let earlier = events.drop_last();
        assert forall|i: int| 0 <= i < earlier.len() implies follows(
            policy,
            states.drop_last()[i],
            #[trigger] earlier[i],
            states.drop_last()[i + 1],
        ) by {
            assert(earlier[i] == events[i]);
        }
        lemma_known_state(policy, earlier, states.drop_last(), k);
        assert(follows(policy, states[n], events[n], states[n + 1]));
        assert(states.drop_last().last() == states[n]);
    }
}

/// Over every history of calls: a request with `n` failures since its last success, or
/// since it was forgotten, may be made from its last failure and the delay of `n`
/// failures on, and one without failures at any time. What happens to other requests
/// makes no difference.
pub proof fn law_requests_wait_for_their_own_failures(
    policy: RequestBackoffPolicy,
    events: Seq<BackoffEvent>,
    states: Seq<Map<keyed_store::KeyView, RequestBackoffState>>,
    k: keyed_store::KeyView,
    now: Instant,
    other: keyed_store::KeyView,
    at: Instant,
)
    requires
        is_run(policy, events, states),
        other != k,
    ensures
        may_attempt(states.last(), k, now) == (match key_history(policy, events, k) {
            Some(h) => now@ >= h.last_failure@ + delay_after(
                policy.initial_delay@,
                policy.max_delay@,
                h.failures as int,
            ),
            None => true,
        }),
        key_history(policy, events.push(BackoffEvent::Asked { key: other, at }), k) == key_history(
            policy,
            events,
            k,
        ),
        key_history(policy, events.push(BackoffEvent::Failed { key: other, at }), k) == key_history(
            policy,
            events,
            k,
        ),
        key_history(policy, events.push(BackoffEvent::Succeeded { key: other }), k) == key_history(
            policy,
            events,
            k,
        ),
{
    lemma_known_state(policy, events, states, k);
    assert(events.push(BackoffEvent::Asked { key: other, at }).drop_last() =~= events);
    assert(events.push(BackoffEvent::Failed { key: other, at }).drop_last() =~= events);
    assert(events.push(BackoffEvent::Succeeded { key: other }).drop_last() =~= events);
}

/// Each failure in a row doubles the delay, from the initial one on, until it is the
/// longest.
pub proof fn law_delays_double(initial: int, longest: int, failures: int)
    requires
        0 <= initial,
        0 <= longest,
        1 <= failures,
    ensures
        failures < 32 ==> delay_after(initial, longest, failures + 1) == clock::min(
            2 * delay_after(initial, longest, failures),
            longest,
        ),
        failures >= 32 ==> delay_after(initial, longest, failures + 1) == delay_after(
            initial,
            longest,
            failures,
        ),
        delay_after(initial, longest, 0) == delay_after(initial, longest, 1),
        delay_after(initial, longest, 1) == clock::min(initial, longest),
{
    vstd::arithmetic::power2::lemma2_to64();
    if failures < 32 {
        vstd::arithmetic::power2::lemma_pow2_unfold(failures as nat);
        vstd::arithmetic::power2::lemma_pow2_pos((failures - 1) as nat);
        let p = pow2((failures - 1) as nat) as int;
        assert(pow2(failures as nat) == 2 * p);
        assert(initial * (2 * p) == 2 * (initial * p)) by (nonlinear_arith);
        assert(initial * p >= 0) by (nonlinear_arith)
            requires
                initial >= 0,
                p >= 0,
        ;
    }
    assert(initial * 1 == initial);
}

/// The first failure waits for the initial delay, and each one after it counts as one more.
pub proof fn law_failures_add_up(
    m: Map<keyed_store::KeyView, RequestBackoffState>,
    k: keyed_store::KeyView,
    policy: RequestBackoffPolicy,
    now: Instant,
    s: RequestBackoffState,
)
    requires
        failed_once_more(m, k, policy, now, s),
    ensures
        !m.contains_key(k) ==> s.consecutive_failures == 1 && s.retry_after@ == now@ + clock::min(
            policy.initial_delay@,
            policy.max_delay@,
        ),
        m.contains_key(k) && m[k].consecutive_failures < u32::MAX ==> s.consecutive_failures
            == m[k].consecutive_failures + 1,
        s.last_seen == now,
        !may_attempt(m.insert(k, s), k, now) <==> s.retry_after@ > now@,
{
    vstd::arithmetic::power2::lemma2_to64();
    assert(policy.initial_delay@ * 1 == policy.initial_delay@);
}

/// A request that failed is forgotten once nothing was heard of it for twice the longest
/// delay, and not before.
pub proof fn law_old_failures_are_forgotten(s: RequestBackoffState, longest: int, now: Instant)
    requires
        0 <= longest,
        2 * longest <= clock::LONGEST,
    ensures
        is_stale(s, longest, now) <==> now@ - s.last_seen@ > 2 * longest,
{
}

} // verus!
