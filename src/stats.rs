//! User and guild reports: all-time totals, the twelve-bucket series with
//! its total, and (for a user) the current streak, all taken at one `now`.

use vstd::prelude::*;
use crate::streak::{compute_streak, is_current_streak};
use crate::timeframe::{
    bucket_count, bucket_index, bucket_of, bucket_stats, bucket_sum, describes_buckets, lemma_total_of_prefix,
    total_minutes, ActivityEntry, Timeframe, TimeframeStats,
};

verus! {

/// A member's report.
#[derive(Debug)]
pub struct UserStats {
    pub all_minutes: u64,
    pub all_count: u64,
    /// Totals over the twelve buckets below.
    pub timeframe_stats: TimeframeStats,
    /// The last twelve buckets, oldest first.
    pub buckets: Vec<TimeframeStats>,
    pub streak: u64,
}

/// A guild's report.
#[derive(Debug)]
pub struct GuildStats {
    pub all_minutes: u64,
    pub all_count: u64,
    /// Totals over the twelve buckets below.
    pub timeframe_stats: TimeframeStats,
    /// The last twelve buckets, oldest first.
    pub buckets: Vec<TimeframeStats>,
}

/// The instants of the sessions, in order.
pub open spec fn instants(es: Seq<ActivityEntry>) -> Seq<i64> {
    es.map_values(|e: ActivityEntry| e.occurred_at)
}

/// The session falls in one of the last twelve buckets.
pub open spec fn in_window(tf: Timeframe, now: int, e: ActivityEntry) -> bool {
    0 <= bucket_of(tf, now, e.occurred_at as int) < 12
}

/// Total minutes of the sessions that fall in the last twelve buckets.
pub open spec fn window_minutes(es: Seq<ActivityEntry>, tf: Timeframe, now: int) -> nat
    decreases es.len(),
{
    if es.len() == 0 {
        0
    } else {
        window_minutes(es.drop_last(), tf, now) + if in_window(tf, now, es.last()) {
            es.last().minutes as nat
        } else {
            0
        }
    }
}

/// Number of the sessions that fall in the last twelve buckets.
pub open spec fn window_count(es: Seq<ActivityEntry>, tf: Timeframe, now: int) -> nat
    decreases es.len(),
{
    if es.len() == 0 {
        0
    } else {
        window_count(es.drop_last(), tf, now) + if in_window(tf, now, es.last()) {
            1nat
        } else {
            0
        }
    }
}

proof fn lemma_window_bounded(es: Seq<ActivityEntry>, tf: Timeframe, now: int)
    ensures
        window_minutes(es, tf, now) <= total_minutes(es),
        window_count(es, tf, now) <= es.len(),
    decreases es.len(),
{
    if es.len() > 0 {
        lemma_window_bounded(es.drop_last(), tf, now);
    }
}

/// All-time minutes of the sessions, or `None` when they do not fit a `u64`.
fn all_time_minutes(entries: &Vec<ActivityEntry>) -> (r: Option<u64>)
    ensures
        match r {
            Some(m) => m == total_minutes(entries@),
            None => total_minutes(entries@) > u64::MAX,
        },
{
    let ghost es = entries@;
    let mut acc: u64 = 0;
    let mut i: usize = 0;
    while i < entries.len()
        invariant
            es == entries@,
            i <= es.len(),
            acc == total_minutes(es.subrange(0, i as int)),
        decreases es.len() - i,
    {
        proof {
            assert(es.subrange(0, i + 1).drop_last() =~= es.subrange(0, i as int));
        }
        match acc.checked_add(entries[i].minutes as u64) {
            Some(next) => {
                acc = next;
            },
            None => {
                proof {
                    lemma_total_of_prefix(es, i + 1);
                }
                return None;
            },
        }
        i = i + 1;
    }
    proof {
        assert(es.subrange(0, es.len() as int) =~= es);
    }
    Some(acc)
}

/// Minutes and sessions over the last twelve buckets taken together.
fn window_totals(entries: &Vec<ActivityEntry>, timeframe: Timeframe, now: i64) -> (r:
    TimeframeStats)
    requires
        total_minutes(entries@) <= u64::MAX,
    ensures
        r.sum == window_minutes(entries@, timeframe, now as int),
        r.count == window_count(entries@, timeframe, now as int),
{
    let ghost es = entries@;
    let mut sum: u64 = 0;
    let mut count: u64 = 0;
    let mut i: usize = 0;
    while i < entries.len()
        invariant
            es == entries@,
            i <= es.len(),
            total_minutes(es) <= u64::MAX,
            sum == window_minutes(es.subrange(0, i as int), timeframe, now as int),
            count == window_count(es.subrange(0, i as int), timeframe, now as int),
        decreases es.len() - i,
    {
        let e = entries[i];
        let ghost after = es.subrange(0, i + 1);
        proof {
            assert(after.drop_last() =~= es.subrange(0, i as int));
            assert(after.last() == e);
            lemma_window_bounded(after, timeframe, now as int);
            lemma_total_of_prefix(es, i + 1);
        }
        if bucket_index(timeframe, now, e.occurred_at).is_some() {
            sum = sum + e.minutes as u64;
            count = count + 1;
        }
        i = i + 1;
    }
    proof {
        assert(es.subrange(0, es.len() as int) =~= es);
    }
    TimeframeStats { sum, count }
}

/// The instants of the sessions.
fn occurred_at_all(entries: &Vec<ActivityEntry>) -> (ts: Vec<i64>)
    ensures
        ts@ == instants(entries@),
{
    let mut ts: Vec<i64> = Vec::new();
    let mut i: usize = 0;
    while i < entries.len()
        invariant
            i <= entries@.len(),
            ts@ == instants(entries@.subrange(0, i as int)),
        decreases entries@.len() - i,
    {
        ts.push(entries[i].occurred_at);
        i = i + 1;
        proof {
            assert(ts@ =~= instants(entries@.subrange(0, i as int)));
        }
    }
    proof {
        assert(entries@.subrange(0, entries@.len() as int) =~= entries@);
    }
    ts
}

/// The guild report over all of a guild's sessions, taken at `now`; `None`
/// when the all-time minutes do not fit a `u64`.
pub fn get_guild_stats(entries: &Vec<ActivityEntry>, timeframe: Timeframe, now: i64) -> (r:
    Option<GuildStats>)
    ensures
        match r {
            None => total_minutes(entries@) > u64::MAX,
            Some(s) => {
                &&& s.all_minutes == total_minutes(entries@)
                &&& s.all_count == entries@.len()
                &&& s.timeframe_stats.sum == window_minutes(entries@, timeframe, now as int)
                &&& s.timeframe_stats.count == window_count(entries@, timeframe, now as int)
                &&& describes_buckets(s.buckets@, entries@, timeframe, now as int)
            },
        },
{
    match all_time_minutes(entries) {
        None => None,
        Some(all_minutes) => Some(
            GuildStats {
                all_minutes,
                all_count: entries.len() as u64,
                timeframe_stats: window_totals(entries, timeframe, now),
                buckets: bucket_stats(entries, timeframe, now),
            },
        ),
    }
}

/// The member report over all of a member's sessions, taken at `now`;
/// `None` when the all-time minutes do not fit a `u64`.
pub fn get_user_stats(entries: &Vec<ActivityEntry>, timeframe: Timeframe, now: i64) -> (r:
    Option<UserStats>)
    ensures
        match r {
            None => total_minutes(entries@) > u64::MAX,
            Some(s) => {
                &&& s.all_minutes == total_minutes(entries@)
                &&& s.all_count == entries@.len()
                &&& s.timeframe_stats.sum == window_minutes(entries@, timeframe, now as int)
                &&& s.timeframe_stats.count == window_count(entries@, timeframe, now as int)
                &&& describes_buckets(s.buckets@, entries@, timeframe, now as int)
                &&& is_current_streak(instants(entries@), now as int, s.streak as int)
            },
        },
{
    match all_time_minutes(entries) {
        None => None,
        Some(all_minutes) => {
            let ts = occurred_at_all(entries);
            Some(
                UserStats {
                    all_minutes,
                    all_count: entries.len() as u64,
                    timeframe_stats: window_totals(entries, timeframe, now),
                    buckets: bucket_stats(entries, timeframe, now),
                    streak: compute_streak(&ts, now),
                },
            )
        },
    }
}

/// Minutes in buckets `0 .. n`.
pub open spec fn minutes_in_buckets(es: Seq<ActivityEntry>, tf: Timeframe, now: int, n: nat) -> nat
    decreases n,
{
    if n == 0 {
        0
    } else {
        minutes_in_buckets(es, tf, now, (n - 1) as nat) + bucket_sum(es, tf, now, n - 1)
    }
}

/// Sessions in buckets `0 .. n`.
pub open spec fn sessions_in_buckets(es: Seq<ActivityEntry>, tf: Timeframe, now: int, n: nat) -> nat
    decreases n,
{
    if n == 0 {
        0
    } else {
        sessions_in_buckets(es, tf, now, (n - 1) as nat) + bucket_count(es, tf, now, n - 1)
    }
}

proof fn lemma_buckets_of_none(tf: Timeframe, now: int, n: nat)
    ensures
        minutes_in_buckets(Seq::empty(), tf, now, n) == 0,
        sessions_in_buckets(Seq::empty(), tf, now, n) == 0,
    decreases n,
{
    if n > 0 {
        lemma_buckets_of_none(tf, now, (n - 1) as nat);
    }
}

proof fn lemma_buckets_push(es: Seq<ActivityEntry>, e: ActivityEntry, tf: Timeframe, now: int, n: nat)
    ensures
        minutes_in_buckets(es.push(e), tf, now, n) == minutes_in_buckets(es, tf, now, n) + if 0
            <= bucket_of(tf, now, e.occurred_at as int) < n {
            e.minutes as nat
        } else {
            0
        },
        sessions_in_buckets(es.push(e), tf, now, n) == sessions_in_buckets(es, tf, now, n) + if 0
            <= bucket_of(tf, now, e.occurred_at as int) < n {
            1nat
        } else {
            0
        },
    decreases n,
{
    assert(es.push(e).drop_last() =~= es);
    if n > 0 {
        lemma_buckets_push(es, e, tf, now, (n - 1) as nat);
    }
}

/// The totals over the last twelve buckets that a report shows beside its
/// chart are the sums of the chart's twelve buckets, so the headline and
/// the bars cannot disagree.
pub proof fn lemma_window_is_sum_of_buckets(es: Seq<ActivityEntry>, tf: Timeframe, now: int)
    ensures
        window_minutes(es, tf, now) == minutes_in_buckets(es, tf, now, 12),
        window_count(es, tf, now) == sessions_in_buckets(es, tf, now, 12),
    decreases es.len(),
{
    if es.len() == 0 {
        lemma_buckets_of_none(tf, now, 12);
        assert(es =~= Seq::<ActivityEntry>::empty());
    } else {
        let rest = es.drop_last();
        lemma_window_is_sum_of_buckets(rest, tf, now);
        lemma_buckets_push(rest, es.last(), tf, now, 12);
        assert(rest.push(es.last()) =~= es);
    }
}

} // verus!
