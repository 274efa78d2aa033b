//! How full the caches in front of the proxy are.

use crate::clock;
use crate::observers;
use crate::observers::{EventStat, OperationType, ProxyEvent, ProxyEventType};
use crate::text;
use vstd::prelude::*;

verus! {

/// Where the caches are and how large each may grow.
#[derive(Debug)]
pub struct NginxCacheConfig {
    pub proxy_cache_path_configuration: Option<String>,
    pub proxy_cache_download_path_configuration: Option<String>,
    pub proxy_cache_download_id_list_path_configuration: Option<String>,
    pub proxy_cache_max_size_in_mb: u64,
}

/// Measures the caches.
#[derive(Debug, Clone, Copy)]
pub struct NginxCacheMonitor;

/// The directories of the caches: the two split ones where both are set, and else
/// the one that they had before they were split.
pub open spec fn directories(config: NginxCacheConfig) -> Seq<Seq<char>> {
    match (
        config.proxy_cache_download_path_configuration,
        config.proxy_cache_download_id_list_path_configuration,
    ) {
        (Some(download_path), Some(id_list_path)) => seq![download_path@, id_list_path@],
        _ => match config.proxy_cache_path_configuration {
            Some(path) => seq![path@],
            None => Seq::empty(),
        },
    }
}

/// The bytes that all caches together may hold.
pub open spec fn limit_of(config: NginxCacheConfig) -> int {
    clock::min(
        config.proxy_cache_max_size_in_mb * 1024 * 1024 * directories(config).len(),
        u64::MAX as int,
    )
}

/// A number of bytes as the value of an event.
pub open spec fn stat_value(value: int) -> i64 {
    clock::min(value, i64::MAX as int) as i64
}

/// The event that measures one thing.
pub open spec fn gauge_event(t: ProxyEventType, value: int) -> observers::EventView {
    observers::EventView {
        stat: Some(EventStat { operation_type: OperationType::Gauge, value: stat_value(value) }),
        ..observers::bare_event(t, None)
    }
}

/// What sizes add up to.
pub open spec fn sum(sizes: Seq<u64>) -> int
    decreases sizes.len(),
{
    if sizes.len() == 0 {
        0
    } else {
        sum(sizes.drop_last()) + sizes.last()
    }
}

/// Fewer sizes add up to less.
proof fn lemma_sum_grows(sizes: Seq<u64>, n: int)
    requires
        0 <= n <= sizes.len(),
    ensures
        0 <= sum(sizes.take(n)) <= sum(sizes),
    decreases sizes.len(),
{
    if n == sizes.len() {
        assert(sizes.take(n) =~= sizes);
        if n > 0 {
            lemma_sum_grows(sizes.drop_last(), n - 1);
        }
    } else {
        lemma_sum_grows(sizes.drop_last(), n);
        assert(sizes.drop_last().take(n) =~= sizes.take(n));
    }
}

pub fn cache_paths(config: &NginxCacheConfig) -> (r: Vec<String>)
    ensures
        text::texts(r@) == directories(*config),
{
    let mut paths: Vec<String> = Vec::new();
    match (
        &config.proxy_cache_download_path_configuration,
        &config.proxy_cache_download_id_list_path_configuration,
    ) {
        (Some(download_path), Some(id_list_path)) => {
            paths.push(download_path.clone());
            paths.push(id_list_path.clone());
        },
        _ => {
            if let Some(path) = &config.proxy_cache_path_configuration {
                paths.push(path.clone());
            }
        },
    }
    assert(text::texts(paths@) =~= directories(*config));
    paths
}

pub fn max_cache_size_bytes(config: &NginxCacheConfig) -> (r: u64)
    ensures
        r == limit_of(*config),
{
    let paths = cache_paths(config);
    let n: usize = paths.len();
    assert(text::texts(paths@).len() == n);
    let one: u128 = config.proxy_cache_max_size_in_mb as u128 * 1024 * 1024;
    assert(one * n <= one * 2) by (nonlinear_arith)
        requires
            n <= 2,
    ;
    let bytes: u128 = one * n as u128;
    if bytes <= u64::MAX as u128 {
        bytes as u64
    } else {
        u64::MAX
    }
}

pub fn event_stat_value(value: u64) -> (r: i64)
    ensures
        r == stat_value(value as int),
{
    if value <= i64::MAX as u64 {
        value as i64
    } else {
        i64::MAX
    }
}

/// What the caches hold together.
pub fn calculate_cache_size(sizes: &Vec<u64>) -> (r: u64)
    ensures
        r == clock::min(sum(sizes@), u64::MAX as int),
{
    let mut total_size: u64 = 0;
    let mut i: usize = 0;
    while i < sizes.len()
        invariant
            i <= sizes@.len(),
            total_size == clock::min(sum(sizes@.take(i as int)), u64::MAX as int),
        decreases sizes@.len() - i,
    {
        assert(sizes@.take(i + 1).drop_last() =~= sizes@.take(i as int));
        proof {
            lemma_sum_grows(sizes@, i as int);
        }
        total_size = total_size.saturating_add(sizes[i]);
        i += 1;
    }
    assert(sizes@.take(i as int) =~= sizes@);
    total_size
}

impl NginxCacheMonitor {
    /// The events of one measurement: what the caches hold, and what they may hold.
    pub fn measure(config: &NginxCacheConfig, sizes: &Vec<u64>) -> (r: (ProxyEvent, ProxyEvent))
        ensures
            r.0@ == gauge_event(
                ProxyEventType::NginxCacheBytesUsed,
                clock::min(sum(sizes@), u64::MAX as int),
            ),
            r.1@ == gauge_event(ProxyEventType::NginxCacheBytesLimit, limit_of(*config)),
    {
        let size: u64 = calculate_cache_size(sizes);
        let max_cache_size: u64 = max_cache_size_bytes(config);
        (
            ProxyEvent::new(ProxyEventType::NginxCacheBytesUsed).with_stat(
                EventStat { operation_type: OperationType::Gauge, value: event_stat_value(size) },
            ),
            ProxyEvent::new(ProxyEventType::NginxCacheBytesLimit).with_stat(
                EventStat {
                    operation_type: OperationType::Gauge,
                    value: event_stat_value(max_cache_size),
                },
            ),
        )
    }
}

/// The caches are those of downloads and of lists where both are set, and else the one that
/// is, and the limit is that of one times their number.
pub proof fn law_caches_are_measured_together(
    config: NginxCacheConfig,
    a: Seq<u64>,
    b: Seq<u64>,
    size: u64,
)
    ensures
        ({
            let both = config.proxy_cache_download_path_configuration is Some
                && config.proxy_cache_download_id_list_path_configuration is Some;
            let mb = config.proxy_cache_max_size_in_mb;
            &&& both ==> directories(config).len() == 2 && directories(config)[0] == (
            config.proxy_cache_download_path_configuration->0)@ && directories(config)[1] == (
            config.proxy_cache_download_id_list_path_configuration->0)@
            &&& !both && config.proxy_cache_path_configuration is Some ==> directories(config)
                == seq![(config.proxy_cache_path_configuration->0)@]
            &&& !both && config.proxy_cache_path_configuration is None ==> directories(config).len()
                == 0 && limit_of(config) == 0
            &&& directories(config).len() == 1 && mb * 1_048_576 <= u64::MAX ==> limit_of(config)
                == mb * 1_048_576
            &&& directories(config).len() == 2 && mb * 2_097_152 <= u64::MAX ==> limit_of(config)
                == mb * 2_097_152
        }),
        sum(Seq::empty()) == 0,
        sum(seq![size]) == size,
        sum(a + b) == sum(a) + sum(b),
        size <= i64::MAX ==> stat_value(size as int) == size,
        size > i64::MAX ==> stat_value(size as int) == i64::MAX,
    decreases b.len(),
{
    assert(seq![size].drop_last() =~= Seq::<u64>::empty());
    reveal_with_fuel(sum, 2);
    if b.len() == 0 {
        assert(a + b =~= a);
    } else {
        law_caches_are_measured_together(config, a, b.drop_last(), size);
        assert((a + b).drop_last() =~= a + b.drop_last());
        assert((a + b).last() == b.last());
    }
    let mb = config.proxy_cache_max_size_in_mb as int;
    assert(mb * 1024 * 1024 * 1 == mb * 1_048_576) by (nonlinear_arith);
    assert(mb * 1024 * 1024 * 2 == mb * 2_097_152) by (nonlinear_arith);
    assert(mb * 1024 * 1024 * 0 == 0) by (nonlinear_arith);
}

} // verus!
