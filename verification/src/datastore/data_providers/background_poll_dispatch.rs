//! When and in which order the requests of a poll are launched.

use crate::clock;
use crate::clock::Duration;
use crate::keyed_store;
use crate::servers::authorized_request_context;
use crate::servers::authorized_request_context::AuthorizedRequestContext;
use std::collections::hash_map::DefaultHasher;
use std::hash::Hasher;
use uuid::Uuid;
use vstd::bytes::*;
use vstd::prelude::*;
use vstd::std_specs::hash::*;
use vstd::utf8::*;

verus! {

broadcast use crate::clock::group_time;

/// The part of the interval by which polls drift apart.
pub const POLL_INTERVAL_JITTER_DIVISOR: u64 = 10;

/// How the requests of a poll are spread.
#[derive(Clone, Copy, Debug, PartialEq, Eq, Structural)]
pub struct BackgroundPollDispatchConfig {
    /// The most requests that are under way at once.
    pub max_in_flight: usize,
    /// The least delay between two launches; zero means none.
    pub item_spacing_ms: u64,
    /// Differs from process to process, so that their requests are ordered
    /// differently.
    pub jitter_seed: u64,
}

/// `Uuid::new_v4`, as a number. It is random, so nothing is said of it.
#[verifier::external_body]
fn random_uuid() -> (r: u128)
{
    Uuid::new_v4().as_u128()
}

/// What is hashed of some texts: the bytes of each, and a byte that ends it.
pub open spec fn text_parts(names: Seq<Seq<char>>) -> Seq<Seq<u8>>
    decreases names.len(),
{
    if names.len() == 0 {
        Seq::empty()
    } else {
        text_parts(names.drop_last()).push(encode_utf8(names.last())).push(seq![0xffu8])
    }
}

/// What is hashed of some numbers: the bytes of each.
pub open spec fn number_parts(numbers: Seq<u64>) -> Seq<Seq<u8>> {
    Seq::new(numbers.len(), |i: int| spec_u64_to_le_bytes(numbers[i]))
}

/// The hash of a key.
pub open spec fn key_hash(key: keyed_store::KeyView) -> u64 {
    DefaultHasher::spec_finish(text_parts(key.0) + number_parts(key.1))
}

fn hash_key(key: &keyed_store::StoreKey) -> (r: u64)
    ensures
        r == key_hash(key@),
{
    let mut hasher = DefaultHasher::new();
    let ghost names = key@.0;
    let ghost numbers = key@.1;
    let mut i: usize = 0;
    assert(names.take(0) =~= Seq::<Seq<char>>::empty());
    while i < key.names.len()
        invariant
            names == key@.0,
            i <= key.names@.len(),
            hasher@ == text_parts(names.take(i as int)),
        decreases key.names@.len() - i,
    {
        hasher.write(key.names[i].as_str().as_bytes());
        let end: [u8; 1] = [0xff];
        hasher.write(&end);
        assert(end@ =~= seq![0xffu8]);
        assert(names.take(i + 1).drop_last() =~= names.take(i as int));
        assert(names.take(i + 1).last() == key.names@[i as int]@);
        i += 1;
    }
    assert(names.take(i as int) =~= names);
    let mut j: usize = 0;
    assert(hasher@ =~= text_parts(names) + number_parts(numbers.take(0)));
    while j < key.numbers.len()
        invariant
            numbers == key@.1,
            j <= key.numbers@.len(),
            hasher@ == text_parts(names) + number_parts(numbers.take(j as int)),
        decreases key.numbers@.len() - j,
    {
        let bytes = u64_to_le_bytes(key.numbers[j]);
        hasher.write(bytes.as_slice());
        assert(number_parts(numbers.take(j + 1)) =~= number_parts(numbers.take(j as int)).push(
            bytes@,
        ));
        j += 1;
    }
    assert(numbers.take(j as int) =~= numbers);
    hasher.finish()
}

/// The bits of a number, shifted to the left, with those that fall out coming
/// back on the right.
pub open spec fn rotated(n: u64, by: u64) -> u64 {
    if by == 0 {
        n
    } else {
        (n << by) | (n >> ((64 - by) as u64))
    }
}

fn rotate_left(n: u64, by: u64) -> (r: u64)
    requires
        by < 64,
    ensures
        r == rotated(n, by),
{
    if by == 0 {
        n
    } else {
        (n << by) | (n >> (64 - by))
    }
}

/// A number that varies with the cycle and the seed.
pub open spec fn jitter_mix(poll_cycle: u64, jitter_seed: u64) -> u64 {
    rotated(jitter_seed, poll_cycle & 63) ^ poll_cycle.wrapping_mul(0x9E37_79B9_7F4A_7C15)
}

pub fn cycle_jitter_mix(poll_cycle: u64, jitter_seed: u64) -> (r: u64)
    ensures
        r == jitter_mix(poll_cycle, jitter_seed),
{
    let cycle_mix: u64 = poll_cycle.wrapping_mul(0x9E37_79B9_7F4A_7C15);
    let by: u64 = poll_cycle & 63;
    assert(poll_cycle & 63 < 64) by (bit_vector);
    rotate_left(jitter_seed, by) ^ cycle_mix
}

/// The interval of a poll in milliseconds, one at least.
pub open spec fn base_ms(base_interval: int) -> int {
    clock::min(clock::max(base_interval / 1_000_000, 1), u64::MAX as int)
}

/// How far polls drift apart at most, in milliseconds.
pub open spec fn jitter_window(base: int) -> int {
    clock::max(base / 10, 1)
}

/// The interval before the next poll, in milliseconds.
pub open spec fn jittered_ms(base_interval: int, mix: u64) -> int {
    let base = base_ms(base_interval);
    let window = jitter_window(base);
    let offset = mix as int % (2 * window + 1) - window;
    clock::min(clock::max(base + offset, 1), u64::MAX as int)
}

impl BackgroundPollDispatchConfig {
    pub fn new(max_in_flight: u64, item_spacing_ms: u64) -> (r: Self)
        ensures
            r.max_in_flight == (if max_in_flight >= 1 {
                max_in_flight as usize
            } else {
                1
            }),
            r.item_spacing_ms == item_spacing_ms,
    {
        let low: u64 = random_uuid() as u64;
        let high: u64 = (random_uuid() >> 64) as u64;
        Self::with_seed(max_in_flight, item_spacing_ms, low ^ high)
    }

    /// The same with a given seed.
    pub fn with_seed(max_in_flight: u64, item_spacing_ms: u64, jitter_seed: u64) -> (r: Self)
        ensures
            r.max_in_flight == (if max_in_flight >= 1 {
                max_in_flight as usize
            } else {
                1
            }),
            r.item_spacing_ms == item_spacing_ms,
            r.jitter_seed == jitter_seed,
    {
        BackgroundPollDispatchConfig {
            max_in_flight: if max_in_flight >= 1 {
                max_in_flight as usize
            } else {
                1
            },
            item_spacing_ms,
            jitter_seed,
        }
    }

    /// Whether the order of launches matters: where they are spaced, or cannot all
    /// be under way at once.
    pub open spec fn shapes(&self, prepared_request_count: int) -> bool {
        self.item_spacing_ms > 0 || self.max_in_flight < prepared_request_count
    }

    pub fn background_dispatch_shaping_enabled(&self, prepared_request_count: usize) -> (r: bool)
        ensures
            r == self.shapes(prepared_request_count as int),
    {
        self.item_spacing_ms > 0 || self.max_in_flight < prepared_request_count
    }

    pub fn launch_spacing(&self) -> (r: Duration)
        ensures
            r@ == self.item_spacing_ms * 1_000_000,
    {
        Duration::from_millis(self.item_spacing_ms)
    }

    /// The interval before the next poll. Processes that start together drift
    /// apart, by no more than a tenth of the interval.
    pub fn poll_interval_for_cycle(&self, base_interval: Duration, poll_cycle: u64) -> (r: Duration)
        ensures
            r@ == jittered_ms(base_interval@, jitter_mix(poll_cycle, self.jitter_seed)) * 1_000_000,
    {
        let whole: u128 = base_interval.as_millis();
        let base: u64 = if whole < 1 {
            1
        } else if whole > u64::MAX as u128 {
            u64::MAX
        } else {
            whole as u64
        };
        let tenth: u64 = base / POLL_INTERVAL_JITTER_DIVISOR;
        let window: u64 = if tenth >= 1 {
            tenth
        } else {
            1
        };
        let buckets: u64 = window * 2 + 1;
        let bucket: u64 = cycle_jitter_mix(poll_cycle, self.jitter_seed) % buckets;
        let interval: u64 = if bucket < window {
            let earlier: u64 = window - bucket;
            if base > earlier {
                base - earlier
            } else {
                1
            }
        } else {
            let later: u64 = bucket - window;
            if later <= u64::MAX - base {
                base + later
            } else {
                u64::MAX
            }
        };
        Duration::from_millis(interval)
    }
}

/// Polls stay within a tenth of their interval, or a millisecond where that is
/// more.
pub proof fn law_polls_stay_near_their_interval(base_interval: int, mix: u64)
    requires
        0 <= base_interval,
    ensures
        ({
            let base = base_ms(base_interval);
            let window = jitter_window(base);
            &&& base - window <= jittered_ms(base_interval, mix) <= base + window
            &&& 1 <= jittered_ms(base_interval, mix)
        }),
{
    let base = base_ms(base_interval);
    let window = jitter_window(base);
    let buckets = 2 * window + 1;
    assert(0 <= mix as int % buckets < buckets) by (nonlinear_arith)
        requires
            buckets > 0,
    ;
}

/// The place of a request in the order of a cycle, from the hash of its context.
pub fn rank_of_hash(key_hash: u64, poll_cycle: u64, jitter_seed: u64) -> (r: u64)
    ensures
        r == key_hash ^ jitter_mix(poll_cycle, jitter_seed),
{
    key_hash ^ cycle_jitter_mix(poll_cycle, jitter_seed)
}

/// The place of a request in the order of a cycle.
pub open spec fn rank_of(
    c: authorized_request_context::ContextView,
    poll_cycle: u64,
    jitter_seed: u64,
) -> u64 {
    key_hash(authorized_request_context::identity_key(c.identity())) ^ jitter_mix(
        poll_cycle,
        jitter_seed,
    )
}

/// The place of a request in the order of a cycle. It varies with the cycle and
/// the seed, lest requests come in bursts, and is the same for equal requests.
pub fn dispatch_rank(
    request_context: &AuthorizedRequestContext,
    poll_cycle: u64,
    jitter_seed: u64,
) -> (r: u64)
    ensures
        r == rank_of(request_context@, poll_cycle, jitter_seed),
{
    let hash: u64 = hash_key(&request_context.store_key());
    rank_of_hash(hash, poll_cycle, jitter_seed)
}

/// Equal requests have equal ranks in one cycle, and the rank of a request changes
/// wherever the mix of cycle and seed does.
pub proof fn law_ranks_differ_where_the_mix_does(
    c: authorized_request_context::ContextView,
    d: authorized_request_context::ContextView,
    cycle_a: u64,
    seed_a: u64,
    cycle_b: u64,
    seed_b: u64,
)
    requires
        c.identity() == d.identity(),
    ensures
        rank_of(c, cycle_a, seed_a) == rank_of(d, cycle_a, seed_a),
        rank_of(c, cycle_a, seed_a) == rank_of(d, cycle_b, seed_b) <==> jitter_mix(cycle_a, seed_a)
            == jitter_mix(cycle_b, seed_b),
{
    let h = key_hash(authorized_request_context::identity_key(c.identity()));
    let a = jitter_mix(cycle_a, seed_a);
    let b = jitter_mix(cycle_b, seed_b);
    assert((h ^ a) == (h ^ b) <==> a == b) by (bit_vector);
}

/// Whether `order` lists each of the first `n` numbers once.
pub open spec fn is_order(order: Seq<usize>, n: int) -> bool {
    &&& order.len() == n
    &&& forall|i: int| 0 <= i < n ==> (#[trigger] order[i]) < n
    &&& forall|i: int, j: int| 0 <= i < j < n ==> #[trigger] order[i] != #[trigger] order[j]
}

/// Whether item `a` goes before item `b`: by rank, and of two with the same rank
/// the one that came first.
pub open spec fn goes_before(ranks: Seq<u64>, a: int, b: int) -> bool {
    ranks[a] < ranks[b] || (ranks[a] == ranks[b] && a < b)
}

/// The items in the order of their ranks.
pub fn order_by_rank(ranks: &Vec<u64>) -> (r: Vec<usize>)
    ensures
        is_order(r@, ranks@.len() as int),
        forall|i: int, j: int|
            0 <= i < j < r@.len() ==> goes_before(
                ranks@,
                #[trigger] r@[i] as int,
                #[trigger] r@[j] as int,
            ),
{
    let mut r: Vec<usize> = Vec::new();
    let mut i: usize = 0;
    while i < ranks.len()
        invariant
            i <= ranks@.len(),
            is_order(r@, i as int),
            forall|a: int, b: int|
                0 <= a < b < i ==> goes_before(
                    ranks@,
                    #[trigger] r@[a] as int,
                    #[trigger] r@[b] as int,
                ),
        decreases ranks@.len() - i,
    {
        let ghost before = r@;
        let mut place: usize = r.len();
        while place > 0 && ranks[r[place - 1]] > ranks[i]
            invariant
                place <= r@.len() == i < ranks@.len(),
                r@ == before,
                is_order(r@, i as int),
                forall|a: int|
                    place <= a < r@.len() ==> ranks@[#[trigger] r@[a] as int] > ranks@[i as int],
            decreases place,
        {
            place -= 1;
        }
        r.insert(place, i);
        proof {
            assert(r@ =~= before.insert(place as int, i));
            assert forall|a: int, b: int| 0 <= a < b < i + 1 implies goes_before(
                ranks@,
                #[trigger] r@[a] as int,
                #[trigger] r@[b] as int,
            ) by {
                let x = if a < place {
                    a
                } else {
                    a - 1
                };
                let y = if b < place {
                    b
                } else {
                    b - 1
                };
                if a == place {
                    assert(r@[b] == before[y]);
                } else if b == place {
                    assert(r@[a] == before[a]);
                    if place > 0 {
                        assert(before[place - 1] < i);
                        if a < place - 1 {
                            assert(goes_before(
                                ranks@,
                                before[a] as int,
                                before[place - 1] as int,
                            ));
                        }
                    }
                } else {
                    assert(r@[a] == before[x]);
                    assert(r@[b] == before[y]);
                }
            }
            assert forall|a: int, b: int| 0 <= a < b < i + 1 implies #[trigger] r@[a]
                != #[trigger] r@[b] by {
                assert(goes_before(ranks@, r@[a] as int, r@[b] as int));
            }
        }
        i += 1;
    }
    r
}

/// Between two of different number it is always one that goes before the other: the one of
/// lower rank, and of two with one rank the one that came first.
pub proof fn law_ranks_decide_who_goes_first(ranks: Seq<u64>, a: int, b: int)
    requires
        a != b,
    ensures
        goes_before(ranks, a, b) != goes_before(ranks, b, a),
        ranks[a] < ranks[b] ==> goes_before(ranks, a, b),
        ranks[a] == ranks[b] && a < b ==> goes_before(ranks, a, b),
{
}

/// An interval is taken in whole milliseconds, and moved by a tenth of itself at most, both
/// ways, as far as the mix says.
pub proof fn law_polls_are_spread_by_their_mix(ms: int, mix: u64, other: u64)
    requires
        10 <= ms <= 1_000_000_000,
    ensures
        base_ms(ms * 1_000_000) == ms,
        10 * jitter_window(ms) <= ms < 10 * (jitter_window(ms) + 1),
        ({
            let n = 2 * jitter_window(ms) + 1;
            &&& mix as int % n == jitter_window(ms) ==> jittered_ms(ms * 1_000_000, mix) == ms
            &&& mix as int % n == 0 ==> jittered_ms(ms * 1_000_000, mix) == ms - jitter_window(ms)
            &&& mix as int % n == n - 1 ==> jittered_ms(ms * 1_000_000, mix) == ms + jitter_window(
                ms,
            )
            &&& jittered_ms(ms * 1_000_000, mix) - jittered_ms(ms * 1_000_000, other) == mix as int
                % n - other as int % n
        }),
{
    let n = 2 * jitter_window(ms) + 1;
    vstd::arithmetic::div_mod::lemma_mod_bound(mix as int, n);
    vstd::arithmetic::div_mod::lemma_mod_bound(other as int, n);
}

/// A turn of the bits loses none of them, and the first cycle mixes nothing in.
pub proof fn law_mixes_tell_seeds_apart(cycle: u64, a: u64, b: u64)
    ensures
        jitter_mix(0, a) == a,
        jitter_mix(cycle, a) == jitter_mix(cycle, b) ==> a == b,
{
    assert(0u64 & 63 == 0) by (bit_vector);
    assert(a ^ 0u64 == a) by (bit_vector);
    let by = cycle & 63;
    assert(cycle & 63 < 64) by (bit_vector);
    let x = rotated(a, by);
    let y = rotated(b, by);
    let z = cycle.wrapping_mul(0x9E37_79B9_7F4A_7C15);
    assert(x ^ z == y ^ z ==> x == y) by (bit_vector);
    if x == y && by != 0 {
        let rest = (64 - by) as u64;
        assert(a == b) by (bit_vector)
            requires
                0 < by < 64,
                rest == 64 - by,
                (a << by) | (a >> rest) == (b << by) | (b >> rest),
        ;
    }
}

/// Requests are spread exactly where they are to be spaced, or where there are more of them
/// than may be under way.
pub proof fn law_requests_are_spread_where_it_matters(
    config: BackgroundPollDispatchConfig,
    count: int,
)
    ensures
        config.shapes(count) <==> config.item_spacing_ms > 0 || count > config.max_in_flight,
{
}

} // verus!
