use vstd::prelude::*;
use std::collections::HashMap;
use crate::analytics::AnalyticsData;
use crate::json::deref_opt;

verus! {

broadcast use vstd::std_specs::hash::group_hash_axioms;

/// How long computed analytics are served from the cache, in seconds.
pub const CACHE_TTL_SECS: u64 = 300;

/// Whether something cached at `cached_at` is still fresh at `now` (seconds):
/// less than the time to live has passed, a clock that went back counting as
/// no time passed.
pub open spec fn fresh(now: u64, cached_at: u64) -> bool {
    (if now >= cached_at {
        now - cached_at
    } else {
        0
    }) < CACHE_TTL_SECS
}

/// Whether analytics cached at `cached_at` may still be served at `now_secs`.
pub fn cache_is_fresh(now_secs: u64, cached_at: u64) -> (r: bool)
    ensures
        r == fresh(now_secs, cached_at),
{
    now_secs.saturating_sub(cached_at) < CACHE_TTL_SECS
}

/// What a cache that holds `m` serves for `days` at `now`: the analytics kept
/// for `days`, while they are fresh.
pub open spec fn served(m: Map<i32, (AnalyticsData, u64)>, days: i32, now: u64) -> Option<
    AnalyticsData,
> {
    if m.contains_key(days) && fresh(now, m[days].1) {
        Some(m[days].0)
    } else {
        None
    }
}

/// Computed analytics by window length in days, with the time (seconds since
/// the Unix epoch) each was computed.
pub struct AnalyticsCache {
    entries: HashMap<i32, (AnalyticsData, u64)>,
}

impl View for AnalyticsCache {
    type V = Map<i32, (AnalyticsData, u64)>;

    closed spec fn view(&self) -> Map<i32, (AnalyticsData, u64)> {
        self.entries@
    }
}

impl AnalyticsCache {
    /// An empty cache.
    pub fn new() -> (r: AnalyticsCache)
        ensures
            r@ == Map::<i32, (AnalyticsData, u64)>::empty(),
    {
        AnalyticsCache { entries: HashMap::new() }
    }

    /// The analytics for `days`, if they were cached and are still fresh at `now_secs`.
    pub fn lookup(&self, days: i32, now_secs: u64) -> (r: Option<&AnalyticsData>)
        ensures
            deref_opt(r) == served(self@, days, now_secs),
    {
        match self.entries.get(&days) {
            Some(entry) => {
                if cache_is_fresh(now_secs, entry.1) {
                    Some(&entry.0)
                } else {
                    None
                }
            },
            None => None,
        }
    }

    /// Keeps `data` as the analytics for `days`, computed at `now_secs`.
    pub fn store(&mut self, days: i32, data: AnalyticsData, now_secs: u64)
        ensures
            final(self)@ == old(self)@.insert(days, (data, now_secs)),
    {
        self.entries.insert(days, (data, now_secs));
    }
}

/// The cache is fresh for exactly five minutes after computing, and a clock
/// that went back leaves it fresh.
pub proof fn law_freshness(now: u64, cached_at: u64)
    ensures
        cached_at <= now < cached_at + 300 ==> fresh(now, cached_at),
        now >= cached_at + 300 ==> !fresh(now, cached_at),
        now < cached_at ==> fresh(now, cached_at),
{
}

/// What was stored for a window is served for it, while fresh, and storing
/// one window leaves what the others serve unchanged.
pub proof fn law_read_after_store(
    m: Map<i32, (AnalyticsData, u64)>,
    days: i32,
    data: AnalyticsData,
    at: u64,
    other: i32,
    now: u64,
)
    ensures
        served(m.insert(days, (data, at)), days, now) == (if fresh(now, at) {
            Some(data)
        } else {
            None
        }),
        other != days ==> served(m.insert(days, (data, at)), other, now) == served(m, other, now),
{
}

} // verus!
