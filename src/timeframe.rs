//! Timeframe bucketing: the last twelve days, weeks, months or years of
//! sessions, as per-bucket sums of minutes and counts of sessions.

use vstd::prelude::*;
use crate::days::{days_ago, days_between};

verus! {

/// One logged session: when it took place (seconds since the Unix epoch,
/// UTC) and how many minutes it lasted.
#[derive(Clone, Copy, Debug, PartialEq, Eq, Structural)]
pub struct ActivityEntry {
    pub occurred_at: i64,
    pub minutes: u32,
}

/// The width of a bucket.
#[derive(Clone, Copy, Debug, PartialEq, Eq, Structural)]
pub enum Timeframe {
    Yearly,
    Monthly,
    Weekly,
    Daily,
}

/// Sum of minutes and number of sessions that fall in one bucket.
#[derive(Clone, Copy, Debug, PartialEq, Eq, Structural)]
pub struct TimeframeStats {
    pub sum: u64,
    pub count: u64,
}

/// How many buckets a series holds.
pub const BUCKET_COUNT: usize = 12;

/// Seconds in a week.
pub const SECONDS_PER_WEEK: u64 = 604800;

/// Seconds in a fixed thirty-day month.
pub const SECONDS_PER_MONTH: u64 = 2592000;

/// Seconds in a fixed 365-day year.
pub const SECONDS_PER_YEAR: u64 = 31536000;

/// The fixed width in seconds of a week, month or year bucket.
pub open spec fn bucket_seconds(tf: Timeframe) -> int {
    match tf {
        Timeframe::Weekly => 604800,
        Timeframe::Monthly => 2592000,
        _ => 31536000,
    }
}

/// How many buckets back from `now` the instant `t` lies: whole UTC calendar
/// days for days; whole elapsed bucket widths otherwise. Negative for
/// instants after `now`.
pub open spec fn bucket_of(tf: Timeframe, now: int, t: int) -> int {
    match tf {
        Timeframe::Daily => days_between(now, t),
        _ => (now - t) / bucket_seconds(tf),
    }
}

/// Total minutes of the sessions in `es` that fall in bucket `k`.
pub open spec fn bucket_sum(es: Seq<ActivityEntry>, tf: Timeframe, now: int, k: int) -> nat
    decreases es.len(),
{
    if es.len() == 0 {
        0
    } else {
        bucket_sum(es.drop_last(), tf, now, k) + if bucket_of(tf, now, es.last().occurred_at as int)
            == k {
            es.last().minutes as nat
        } else {
            0
        }
    }
}

/// Number of the sessions in `es` that fall in bucket `k`.
pub open spec fn bucket_count(es: Seq<ActivityEntry>, tf: Timeframe, now: int, k: int) -> nat
    decreases es.len(),
{
    if es.len() == 0 {
        0
    } else {
        bucket_count(es.drop_last(), tf, now, k) + if bucket_of(
            tf,
            now,
            es.last().occurred_at as int,
        ) == k {
            1nat
        } else {
            0
        }
    }
}

/// Total minutes of all sessions in `es`.
pub open spec fn total_minutes(es: Seq<ActivityEntry>) -> nat
    decreases es.len(),
{
    if es.len() == 0 {
        0
    } else {
        total_minutes(es.drop_last()) + es.last().minutes as nat
    }
}

/// `r` is the twelve-bucket series of `es`, oldest bucket first: position `j`
/// holds bucket `11 - j`, and bucket 0 is the one holding `now`.
pub open spec fn describes_buckets(
    r: Seq<TimeframeStats>,
    es: Seq<ActivityEntry>,
    tf: Timeframe,
    now: int,
) -> bool {
    &&& r.len() == 12
    &&& forall|j: int|
        0 <= j < 12 ==> #[trigger] r[j].sum == bucket_sum(es, tf, now, 11 - j) && r[j].count
            == bucket_count(es, tf, now, 11 - j)
}

/// The bucket, among the last twelve, that holds the instant `t`; `None`
/// when it lies after `now` or twelve or more buckets back.
pub fn bucket_index(tf: Timeframe, now: i64, t: i64) -> (k: Option<usize>)
    ensures
        match k {
            Some(k) => k < 12 && k == bucket_of(tf, now as int, t as int),
            None => bucket_of(tf, now as int, t as int) < 0 || bucket_of(
                tf,
                now as int,
                t as int,
            ) >= 12,
        },
{
    match tf {
        Timeframe::Daily => {
            let d = days_ago(now, t);
            if 0 <= d && d < 12 {
                Some(d as usize)
            } else {
                None
            }
        },
        _ => {
            if t > now {
                proof {
                    let a = now as int - t as int;
                    let w = bucket_seconds(tf);
                    assert(a == w * (a / w) + a % w);
                    if a / w >= 0 {
                        assert(w * (a / w) >= 0) by (nonlinear_arith)
                            requires
                                w > 0,
                                a / w >= 0,
                        ;
                    }
                }
                return None;
            }
            let diff: u64 = (now as i128 - t as i128) as u64;
            let width: u64 = match tf {
                Timeframe::Weekly => SECONDS_PER_WEEK,
                Timeframe::Monthly => SECONDS_PER_MONTH,
                _ => SECONDS_PER_YEAR,
            };
            let q = diff / width;
            if q < 12 {
                Some(q as usize)
            } else {
                None
            }
        },
    }
}

/// No bucket holds more minutes than all sessions together, nor more
/// sessions than there are.
pub(crate) proof fn lemma_bucket_bounded(es: Seq<ActivityEntry>, tf: Timeframe, now: int, k: int)
    ensures
        bucket_sum(es, tf, now, k) <= total_minutes(es),
        bucket_count(es, tf, now, k) <= es.len(),
    decreases es.len(),
{
    if es.len() > 0 {
        lemma_bucket_bounded(es.drop_last(), tf, now, k);
    }
}

/// The minutes of a prefix never exceed those of the whole.
pub(crate) proof fn lemma_total_of_prefix(es: Seq<ActivityEntry>, i: int)
    requires
        0 <= i <= es.len(),
    ensures
        total_minutes(es.subrange(0, i)) <= total_minutes(es),
    decreases es.len() - i,
{
    if i < es.len() {
        lemma_total_of_prefix(es, i + 1);
        assert(es.subrange(0, i + 1).drop_last() =~= es.subrange(0, i));
    } else {
        assert(es.subrange(0, i) =~= es);
    }
}

/// The last twelve buckets of the sessions `entries` at the chosen width,
/// oldest first, each with its sum of minutes and count of sessions. Every
/// bucket is present, with zeroes where no session falls; sessions after
/// `now` or twelve or more buckets back are left out.
pub fn bucket_stats(entries: &Vec<ActivityEntry>, timeframe: Timeframe, now: i64) -> (r: Vec<
    TimeframeStats,
>)
    requires
        total_minutes(entries@) <= u64::MAX,
    ensures
        describes_buckets(r@, entries@, timeframe, now as int),
{
    let ghost es = entries@;
    let mut sums: Vec<u64> = Vec::new();
    let mut counts: Vec<u64> = Vec::new();
    let mut k: usize = 0;
    while k < BUCKET_COUNT
        invariant
            k <= 12,
            sums@.len() == k,
            counts@.len() == k,
            forall|b: int| 0 <= b < k ==> sums@[b] == 0 && counts@[b] == 0,
        decreases 12 - k,
    {
        sums.push(0);
        counts.push(0);
        k = k + 1;
    }
    let mut i: usize = 0;
    while i < entries.len()
        invariant
            es == entries@,
            i <= es.len(),
            total_minutes(es) <= u64::MAX,
            sums@.len() == 12,
            counts@.len() == 12,
            forall|b: int|
                0 <= b < 12 ==> #[trigger] sums@[b] == bucket_sum(
                    es.subrange(0, i as int),
                    timeframe,
                    now as int,
                    b,
                ) && counts@[b] == bucket_count(es.subrange(0, i as int), timeframe, now as int, b),
        decreases es.len() - i,
    {
        let e = entries[i];
        let ghost before = es.subrange(0, i as int);
        let ghost after = es.subrange(0, i + 1);
        let ghost sums0 = sums@;
        let ghost counts0 = counts@;
        proof {
            assert(after.drop_last() =~= before);
            assert(after.last() == e);
        }
        match bucket_index(timeframe, now, e.occurred_at) {
            Some(b) => {
                proof {
                    lemma_bucket_bounded(after, timeframe, now as int, b as int);
                    lemma_total_of_prefix(es, i + 1);
                }
                let s = sums[b] + e.minutes as u64;
                let c = counts[b] + 1;
                sums.set(b, s);
                counts.set(b, c);
            },
            None => {},
        }
        proof {
            assert forall|b: int| 0 <= b < 12 implies #[trigger] sums@[b] == bucket_sum(
                after,
                timeframe,
                now as int,
                b,
            ) && counts@[b] == bucket_count(after, timeframe, now as int, b) by {
                assert(bucket_sum(after, timeframe, now as int, b) == bucket_sum(
                    before,
                    timeframe,
                    now as int,
                    b,
                ) + if bucket_of(timeframe, now as int, e.occurred_at as int) == b {
                    e.minutes as nat
                } else {
                    0
                });
                assert(bucket_count(after, timeframe, now as int, b) == bucket_count(
                    before,
                    timeframe,
                    now as int,
                    b,
                ) + if bucket_of(timeframe, now as int, e.occurred_at as int) == b {
                    1nat
                } else {
                    0
                });
                assert(sums0[b] == bucket_sum(before, timeframe, now as int, b));
                assert(counts0[b] == bucket_count(before, timeframe, now as int, b));
            }
        }
        i = i + 1;
    }
    proof {
        assert(es.subrange(0, es.len() as int) =~= es);
    }
    let mut r: Vec<TimeframeStats> = Vec::new();
    let mut j: usize = 0;
    while j < BUCKET_COUNT
        invariant
            j <= 12,
            sums@.len() == 12,
            counts@.len() == 12,
            r@.len() == j,
            forall|b: int|
                0 <= b < 12 ==> #[trigger] sums@[b] == bucket_sum(es, timeframe, now as int, b)
                    && counts@[b] == bucket_count(es, timeframe, now as int, b),
            forall|p: int|
                0 <= p < j ==> #[trigger] r@[p].sum == bucket_sum(es, timeframe, now as int, 11 - p)
                    && r@[p].count == bucket_count(es, timeframe, now as int, 11 - p),
        decreases 12 - j,
    {
        let b = 11 - j;
        r.push(TimeframeStats { sum: sums[b], count: counts[b] });
        j = j + 1;
    }
    r
}

/// A bucket that none of the sessions falls in holds no minutes and no
/// sessions.
proof fn lemma_unused_bucket(es: Seq<ActivityEntry>, tf: Timeframe, now: int, k: int)
    requires
        forall|i: int|
            0 <= i < es.len() ==> bucket_of(tf, now, #[trigger] es[i].occurred_at as int) != k,
    ensures
        bucket_sum(es, tf, now, k) == 0,
        bucket_count(es, tf, now, k) == 0,
    decreases es.len(),
{
    if es.len() > 0 {
        let rest = es.drop_last();
        assert forall|i: int| 0 <= i < rest.len() implies bucket_of(
            tf,
            now,
            #[trigger] rest[i].occurred_at as int,
        ) != k by {
            assert(rest[i] == es[i]);
        }
        lemma_unused_bucket(rest, tf, now, k);
        assert(es.last() == es[es.len() - 1]);
    }
}

/// A bucket series is determined by its inputs: two series that both
/// describe the same sessions, width and `now` are equal, so bucketing twice
/// gives the same result.
pub proof fn lemma_buckets_unique(
    r: Seq<TimeframeStats>,
    q: Seq<TimeframeStats>,
    es: Seq<ActivityEntry>,
    tf: Timeframe,
    now: int,
)
    requires
        describes_buckets(r, es, tf, now),
        describes_buckets(q, es, tf, now),
    ensures
        r == q,
{
    assert forall|j: int| 0 <= j < r.len() implies r[j] == q[j] by {
        assert(r[j].sum == q[j].sum);
    }
    assert(r =~= q);
}

/// With no sessions at all, each of the twelve buckets, at every width,
/// holds zero minutes and zero sessions.
pub proof fn lemma_no_entries_zero_buckets(r: Seq<TimeframeStats>, tf: Timeframe, now: int)
    requires
        describes_buckets(r, Seq::empty(), tf, now),
    ensures
        r.len() == 12,
        forall|j: int| 0 <= j < 12 ==> #[trigger] r[j] == (TimeframeStats { sum: 0, count: 0 }),
{
    assert forall|j: int| 0 <= j < 12 implies #[trigger] r[j] == (TimeframeStats { sum: 0, count: 0 }) by {
        assert(r[j].sum == 0);
    }
}

/// Every one of the twelve buckets is present whichever of them the sessions
/// fall in: one that no session falls in is reported with zero minutes and
/// zero sessions.
pub proof fn lemma_empty_bucket_present(
    r: Seq<TimeframeStats>,
    es: Seq<ActivityEntry>,
    tf: Timeframe,
    now: int,
    k: int,
)
    requires
        describes_buckets(r, es, tf, now),
        0 <= k < 12,
        forall|i: int| 0 <= i < es.len() ==> bucket_of(tf, now, #[trigger] es[i].occurred_at as int) != k,
    ensures
        r.len() == 12,
        r[11 - k] == (TimeframeStats { sum: 0, count: 0 }),
{
    lemma_unused_bucket(es, tf, now, k);
    assert(r[11 - k].sum == bucket_sum(es, tf, now, 11 - (11 - k)));
}

/// With daily buckets, a session twelve or more days back changes none of
/// the twelve buckets, while one exactly eleven days back is counted in the
/// oldest.
pub proof fn lemma_daily_window_edge(
    r: Seq<TimeframeStats>,
    q: Seq<TimeframeStats>,
    es: Seq<ActivityEntry>,
    e: ActivityEntry,
    now: int,
)
    requires
        describes_buckets(r, es.push(e), Timeframe::Daily, now),
        describes_buckets(q, es, Timeframe::Daily, now),
    ensures
        days_between(now, e.occurred_at as int) >= 12 ==> r == q,
        days_between(now, e.occurred_at as int) == 11 ==> {
            &&& r[0].sum == q[0].sum + e.minutes
            &&& r[0].count == q[0].count + 1
            &&& forall|j: int| 1 <= j < 12 ==> #[trigger] r[j] == q[j]
        },
{
    let more = es.push(e);
    assert(more.drop_last() =~= es);
    let d = days_between(now, e.occurred_at as int);
    assert forall|j: int| 0 <= j < 12 implies {
        &&& (#[trigger] r[j]).sum == q[j].sum + if d == 11 - j { e.minutes as int } else { 0 }
        &&& r[j].count == q[j].count + if d == 11 - j { 1int } else { 0 }
    } by {
        assert(r[j].sum == bucket_sum(more, Timeframe::Daily, now, 11 - j));
        assert(q[j].sum == bucket_sum(es, Timeframe::Daily, now, 11 - j));
        assert(r[j].count == bucket_count(more, Timeframe::Daily, now, 11 - j));
        assert(q[j].count == bucket_count(es, Timeframe::Daily, now, 11 - j));
    }
    if d >= 12 {
        assert forall|j: int| 0 <= j < r.len() implies r[j] == q[j] by {
            assert(r[j].sum == q[j].sum);
        }
        assert(r =~= q);
    }
    if d == 11 {
        assert(r[0].sum == q[0].sum + e.minutes);
        assert forall|j: int| 1 <= j < 12 implies #[trigger] r[j] == q[j] by {
            assert(r[j].sum == q[j].sum);
        }
    }
}

} // verus!
