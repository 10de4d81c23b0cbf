//! The current meditation streak: consecutive UTC days with at least one
//! logged session, ending today or yesterday.

use vstd::prelude::*;
use crate::days::{day_of, days_ago, days_between};

verus! {

/// Some instant of `ts` falls on the UTC day that lies `d` days before the day of `now`.
pub open spec fn logged_on(ts: Seq<i64>, now: int, d: int) -> bool {
    exists|i: int| 0 <= i < ts.len() && days_between(now, ts[i] as int) == d
}

pub open spec fn strictly_increasing(s: Seq<i64>) -> bool {
    forall|i: int, j: int| 0 <= i < j < s.len() ==> s[i] < s[j]
}

/// `days` lists, once each and in ascending order, every day (counted back
/// from the day of `now`) on which `ts` holds an instant, today or earlier.
pub open spec fn lists_logged_days(days: Seq<i64>, ts: Seq<i64>, now: int) -> bool {
    &&& strictly_increasing(days)
    &&& forall|k: int| 0 <= k < days.len() ==> days[k] >= 0 && logged_on(ts, now, days[k] as int)
    &&& forall|d: int|
        d >= 0 && #[trigger] logged_on(ts, now, d) ==> exists|k: int|
            0 <= k < days.len() && days[k] == d
}

/// The day on which a live streak ends: today when something was logged
/// today, otherwise yesterday.
pub open spec fn streak_end(ts: Seq<i64>, now: int) -> int {
    if logged_on(ts, now, 0) {
        0
    } else {
        1
    }
}

/// `n` is the current streak of the instants `ts` as seen at `now`: zero when
/// nothing was logged today or yesterday; otherwise the number of consecutive
/// logged days counted back from the streak's end up to the first day
/// without an entry.
pub open spec fn is_current_streak(ts: Seq<i64>, now: int, n: int) -> bool {
    if !logged_on(ts, now, 0) && !logged_on(ts, now, 1) {
        n == 0
    } else {
        &&& forall|d: int|
            streak_end(ts, now) <= d < streak_end(ts, now) + n ==> #[trigger] logged_on(ts, now, d)
        &&& !logged_on(ts, now, streak_end(ts, now) + n)
    }
}

/// Inserts `d` into an ascending list of distinct values, keeping it so.
fn insert_sorted(days: &mut Vec<i64>, d: i64)
    requires
        strictly_increasing(old(days)@),
    ensures
        strictly_increasing(final(days)@),
        forall|x: i64| #[trigger]
            final(days)@.contains(x) <==> (old(days)@.contains(x) || x == d),
{
    let mut p: usize = 0;
    while p < days.len() && days[p] < d
        invariant
            p <= days@.len(),
            forall|k: int| 0 <= k < p ==> days@[k] < d,
        decreases days@.len() - p,
    {
        p = p + 1;
    }
    if p < days.len() && days[p] == d {
        assert(days@.contains(d));
    } else {
        let ghost before = days@;
        days.insert(p, d);
        proof {
            before.insert_ensures(p as int, d);
            assert forall|a: int, b: int| 0 <= a < b < days@.len() implies days@[a]
                < days@[b] by {
                if b < p {
                } else if b == p {
                } else if a < p {
                    assert(before[b - 1] >= before[p as int]);
                } else if a == p {
                    assert(before[b - 1] >= before[p as int]);
                } else {
                    assert(before[a - 1] < before[b - 1]);
                }
            }
            assert forall|x: i64| #[trigger]
                days@.contains(x) <==> (before.contains(x) || x == d) by {
                if days@.contains(x) {
                    let k = choose|k: int| 0 <= k < days@.len() && days@[k] == x;
                    if k < p {
                        assert(before[k] == x);
                    } else if k > p {
                        assert(before[k - 1] == x);
                    }
                }
                if before.contains(x) {
                    let k = choose|k: int| 0 <= k < before.len() && before[k] == x;
                    if k < p {
                        assert(days@[k] == x);
                    } else {
                        assert(days@[k + 1] == x);
                    }
                }
                if x == d {
                    assert(days@[p as int] == x);
                }
            }
        }
    }
}

/// The distinct days (counted back from the day of `now`) on which an instant
/// of `ts` falls, in ascending order; instants on later days are left out.
pub fn distinct_days_ago(ts: &Vec<i64>, now: i64) -> (days: Vec<i64>)
    ensures
        lists_logged_days(days@, ts@, now as int),
{
    let mut days: Vec<i64> = Vec::new();
    let mut i: usize = 0;
    while i < ts.len()
        invariant
            i <= ts.len(),
            strictly_increasing(days@),
            forall|x: i64| #[trigger]
                days@.contains(x) ==> x >= 0 && exists|j: int|
                    0 <= j < i && days_between(now as int, ts@[j] as int) == x,
            forall|j: int|
                0 <= j < i && days_between(now as int, #[trigger] ts@[j] as int) >= 0
                    ==> days@.contains(days_between(now as int, ts@[j] as int) as i64),
        decreases ts.len() - i,
    {
        let d = days_ago(now, ts[i]);
        if d >= 0 {
            insert_sorted(&mut days, d);
        }
        proof {
            assert forall|x: i64| #[trigger] days@.contains(x) implies x >= 0 && exists|j: int|
                0 <= j < i + 1 && days_between(now as int, ts@[j] as int) == x by {
                if x == d && d >= 0 {
                    assert(days_between(now as int, ts@[i as int] as int) == x);
                }
            }
        }
        i = i + 1;
    }
    proof {
        assert forall|d: int| d >= 0 && #[trigger] logged_on(ts@, now as int, d) implies exists|
            k: int,
        | 0 <= k < days@.len() && days@[k] == d by {
            let j = choose|j: int|
                0 <= j < ts@.len() && days_between(now as int, ts@[j] as int) == d;
            assert(days@.contains(d as i64));
        }
        assert forall|k: int| 0 <= k < days@.len() implies days@[k] >= 0 && logged_on(
            ts@,
            now as int,
            days@[k] as int,
        ) by {
            assert(days@.contains(days@[k]));
        }
    }
    days
}

/// The walk over the ascending list of distinct logged days: when the list
/// opens with today (0) or yesterday (1), the length of the run of
/// consecutive days it opens with; zero otherwise.
pub fn streak_from_days(days: &Vec<i64>) -> (n: u64)
    requires
        strictly_increasing(days@),
        forall|k: int| 0 <= k < days@.len() ==> days@[k] >= 0,
    ensures
        days@.len() == 0 || days@[0] > 1 ==> n == 0,
        days@.len() > 0 && days@[0] <= 1 ==> {
            &&& 1 <= n <= days@.len()
            &&& forall|k: int| 0 <= k < n ==> #[trigger] days@[k] == days@[0] + k
            &&& n < days@.len() ==> days@[n as int] != days@[0] + n
        },
{
    if days.len() == 0 || days[0] > 1 {
        return 0;
    }
    let mut last: i64 = days[0];
    let mut i: usize = 1;
    while i < days.len() && days[i] == last + 1
        invariant
            1 <= i <= days@.len(),
            strictly_increasing(days@),
            last == days@[i - 1],
            forall|k: int| 0 <= k < i ==> #[trigger] days@[k] == days@[0] + k,
        decreases days@.len() - i,
    {
        last = days[i];
        i = i + 1;
    }
    i as u64
}

/// The current streak of the sessions logged at the instants `ts`, as seen
/// at `now`: consecutive UTC days with at least one session, ending today or
/// yesterday. Several sessions on one day count once; sessions on later days
/// than `now`'s are ignored.
pub fn compute_streak(ts: &Vec<i64>, now: i64) -> (n: u64)
    ensures
        is_current_streak(ts@, now as int, n as int),
{
    let days = distinct_days_ago(ts, now);
    let n = streak_from_days(&days);
    proof {
        let t = ts@;
        let nw = now as int;
        if logged_on(t, nw, 0) {
            assert(exists|k: int| 0 <= k < days@.len() && days@[k] == 0);
            assert(days@[0] == 0) by {
                if days@[0] != 0 {
                    let k = choose|k: int| 0 <= k < days@.len() && days@[k] == 0;
                    assert(days@[0] < days@[k]);
                }
            }
        } else if logged_on(t, nw, 1) {
            assert(exists|k: int| 0 <= k < days@.len() && days@[k] == 1);
            assert(days@[0] == 1) by {
                let k = choose|k: int| 0 <= k < days@.len() && days@[k] == 1;
                if k > 0 {
                    assert(days@[0] < days@[k]);
                }
                assert(logged_on(t, nw, days@[0] as int));
            }
        } else {
            if days@.len() > 0 {
                assert(logged_on(t, nw, days@[0] as int));
            }
        }
        if logged_on(t, nw, 0) || logged_on(t, nw, 1) {
            let e = streak_end(t, nw);
            assert forall|d: int| e <= d < e + n implies #[trigger] logged_on(t, nw, d) by {
                assert(days@[d - e] == d);
            }
            if logged_on(t, nw, e + n) {
                let k = choose|k: int| 0 <= k < days@.len() && days@[k] == e + n;
                if k < n {
                    assert(days@[k] == e + k);
                } else if k > n {
                    assert(days@[n as int] < days@[k]);
                    assert(days@[n - 1] < days@[n as int]);
                }
            }
        }
    }
    n
}

/// A streak is determined by its inputs: two values that are both the
/// current streak of the same instants at the same `now` are equal, so
/// computing it twice gives the same result.
pub proof fn lemma_streak_unique(ts: Seq<i64>, now: int, a: int, b: int)
    requires
        a >= 0,
        b >= 0,
        is_current_streak(ts, now, a),
        is_current_streak(ts, now, b),
    ensures
        a == b,
{
    if logged_on(ts, now, 0) || logged_on(ts, now, 1) {
        let e = streak_end(ts, now);
        if a < b {
            assert(logged_on(ts, now, e + a));
        } else if b < a {
            assert(logged_on(ts, now, e + b));
        }
    }
}

/// With no sessions at all, the current streak is zero.
pub proof fn lemma_no_entries_no_streak(now: int, n: int)
    requires
        is_current_streak(Seq::<i64>::empty(), now, n),
    ensures
        n == 0,
{
}

/// A further session on a UTC day that already holds one leaves the streak
/// as it was: each day counts once.
pub proof fn lemma_same_day_counts_once(ts: Seq<i64>, now: int, t: i64, n: int)
    requires
        exists|i: int| 0 <= i < ts.len() && day_of(ts[i] as int) == day_of(t as int),
        is_current_streak(ts, now, n),
    ensures
        is_current_streak(ts.push(t), now, n),
{
    let more = ts.push(t);
    assert forall|d: int| #[trigger] logged_on(more, now, d) == logged_on(ts, now, d) by {
        if logged_on(more, now, d) {
            let j = choose|j: int| 0 <= j < more.len() && days_between(now, more[j] as int) == d;
            if j == ts.len() {
                let i = choose|i: int| 0 <= i < ts.len() && day_of(ts[i] as int) == day_of(t as int);
                assert(days_between(now, ts[i] as int) == d);
            } else {
                assert(more[j] == ts[j]);
            }
        }
        if logged_on(ts, now, d) {
            let j = choose|j: int| 0 <= j < ts.len() && days_between(now, ts[j] as int) == d;
            assert(more[j] == ts[j]);
        }
    }
}

} // verus!
