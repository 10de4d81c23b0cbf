//! What a bar chart of a bucket series needs besides pixels: the bar
//! heights, the top of the value axis, and the date under each bar.

use vstd::prelude::*;
use crate::timeframe::{
    Timeframe, TimeframeStats, SECONDS_PER_MONTH, SECONDS_PER_WEEK, SECONDS_PER_YEAR,
};
use crate::days::SECONDS_PER_DAY;
use vstd::arithmetic::div_mod::{lemma_fundamental_div_mod, lemma_mod_pos_bound};

verus! {

/// Which figure of a bucket a chart shows.
#[derive(Clone, Copy, Debug, PartialEq, Eq, Structural)]
pub enum StatsType {
    MeditationMinutes,
    MeditationCount,
}

/// The figure of a bucket that a chart of `t` shows.
pub open spec fn stat_value(s: TimeframeStats, t: StatsType) -> nat {
    match t {
        StatsType::MeditationMinutes => s.sum as nat,
        StatsType::MeditationCount => s.count as nat,
    }
}

/// The largest figure in a series (0 for an empty one).
pub open spec fn largest_value(stats: Seq<TimeframeStats>, t: StatsType) -> nat
    decreases stats.len(),
{
    if stats.len() == 0 {
        0
    } else {
        let rest = largest_value(stats.drop_last(), t);
        let v = stat_value(stats.last(), t);
        if v > rest {
            v
        } else {
            rest
        }
    }
}

/// Number of decimal digits of `x`.
pub open spec fn decimal_digits(x: nat) -> nat
    decreases x,
{
    if x < 10 {
        1
    } else {
        1 + decimal_digits(x / 10)
    }
}

/// The smallest multiple of ten times the digit count of `x` that exceeds `x`.
pub open spec fn next_factor(x: nat) -> nat {
    (x / (10 * decimal_digits(x)) + 1) * (10 * decimal_digits(x))
}

proof fn lemma_digits_bounded(x: nat)
    ensures
        1 <= decimal_digits(x) <= x + 1,
    decreases x,
{
    if x >= 10 {
        lemma_digits_bounded(x / 10);
    }
}

/// Number of decimal digits of `x`.
fn digit_count(x: u32) -> (n: u64)
    ensures
        n == decimal_digits(x as nat),
{
    proof {
        lemma_digits_bounded(x as nat);
    }
    let mut n: u64 = 1;
    let mut y: u32 = x;
    while y >= 10
        invariant
            n + decimal_digits(y as nat) == decimal_digits(x as nat) + 1,
            decimal_digits(x as nat) <= x + 1,
            1 <= n,
        decreases y,
    {
        proof {
            lemma_digits_bounded((y / 10) as nat);
        }
        y = y / 10;
        n = n + 1;
    }
    n
}

/// The top of the value axis for a largest figure of `x`: the next multiple
/// of ten times the number of digits of `x` above it.
pub fn next_largest_factor(x: u32) -> (r: u64)
    ensures
        r == next_factor(x as nat),
        r > x,
{
    let n = digit_count(x);
    proof {
        lemma_digits_bounded(x as nat);
    }
    let factor: u64 = 10 * n;
    let quotient: u64 = x as u64 / factor;
    proof {
        let f = factor as int;
        let q = quotient as int;
        lemma_fundamental_div_mod(x as int, f);
        lemma_mod_pos_bound(x as int, f);
        assert((q + 1) * f <= x as int + f && (q + 1) * f > x as int) by (nonlinear_arith)
            requires
                f > 0,
                q >= 0,
                x as int == f * q + (x as int) % f,
                0 <= (x as int) % f < f,
        ;
    }
    (quotient + 1) * factor
}

/// The figure of one bucket.
fn value_of(s: TimeframeStats, stats_type: StatsType) -> (v: u64)
    ensures
        v == stat_value(s, stats_type),
{
    match stats_type {
        StatsType::MeditationMinutes => s.sum,
        StatsType::MeditationCount => s.count,
    }
}

/// The top of the value axis for a series: `next_largest_factor` of its
/// largest figure; `None` when that figure does not fit a `u32`, the
/// chart's coordinate type.
pub fn chart_upper_bound(stats: &Vec<TimeframeStats>, stats_type: StatsType) -> (r: Option<u64>)
    ensures
        r == (if largest_value(stats@, stats_type) <= u32::MAX {
            Some(next_factor(largest_value(stats@, stats_type)) as u64)
        } else {
            None
        }),
{
    let mut largest: u64 = 0;
    let mut i: usize = 0;
    while i < stats.len()
        invariant
            i <= stats@.len(),
            largest == largest_value(stats@.subrange(0, i as int), stats_type),
        decreases stats@.len() - i,
    {
        proof {
            assert(stats@.subrange(0, i + 1).drop_last() =~= stats@.subrange(0, i as int));
        }
        let v = value_of(stats[i], stats_type);
        if v > largest {
            largest = v;
        }
        i = i + 1;
    }
    proof {
        assert(stats@.subrange(0, stats@.len() as int) =~= stats@);
    }
    if largest <= u32::MAX as u64 {
        Some(next_largest_factor(largest as u32))
    } else {
        None
    }
}

/// The height of each bar, oldest bucket first; `None` unless the series has
/// exactly twelve buckets, each with a figure that fits a `u32`.
pub fn bar_heights(stats: &Vec<TimeframeStats>, stats_type: StatsType) -> (r: Option<Vec<u32>>)
    ensures
        match r {
            Some(h) => {
                &&& stats@.len() == 12
                &&& h@.len() == 12
                &&& forall|j: int| 0 <= j < 12 ==> #[trigger] h@[j] == stat_value(stats@[j], stats_type)
            },
            None => stats@.len() != 12 || exists|j: int|
                0 <= j < stats@.len() && stat_value(#[trigger] stats@[j], stats_type) > u32::MAX,
        },
{
    if stats.len() != 12 {
        return None;
    }
    let mut heights: Vec<u32> = Vec::new();
    let mut i: usize = 0;
    while i < stats.len()
        invariant
            stats@.len() == 12,
            i <= 12,
            heights@.len() == i,
            forall|j: int| 0 <= j < i ==> #[trigger] heights@[j] == stat_value(stats@[j], stats_type),
        decreases 12 - i,
    {
        let v = value_of(stats[i], stats_type);
        if v > u32::MAX as u64 {
            return None;
        }
        heights.push(v as u32);
        i = i + 1;
    }
    Some(heights)
}

/// Seconds in one bucket of the given width.
pub open spec fn bucket_width(tf: Timeframe) -> int {
    match tf {
        Timeframe::Daily => 86400,
        Timeframe::Weekly => 604800,
        Timeframe::Monthly => 2592000,
        Timeframe::Yearly => 31536000,
    }
}

/// Seconds in one bucket of the given width.
pub fn bucket_width_seconds(tf: Timeframe) -> (w: i64)
    ensures
        w == bucket_width(tf),
{
    match tf {
        Timeframe::Daily => SECONDS_PER_DAY,
        Timeframe::Weekly => SECONDS_PER_WEEK as i64,
        Timeframe::Monthly => SECONDS_PER_MONTH as i64,
        Timeframe::Yearly => SECONDS_PER_YEAR as i64,
    }
}

/// The instant a position on the time axis stands for: position 12 is
/// `now`, each position to the left one bucket width earlier, so the bar of
/// bucket `k` (at position `12 - k`) is labelled `k` widths back. `None`
/// when that instant is not representable.
pub fn axis_instant(timeframe: Timeframe, x: u32, now: i64) -> (r: Option<i64>)
    requires
        x <= 12,
    ensures
        r == (if i64::MIN <= now - (12 - x) * bucket_width(timeframe) {
            Some((now - (12 - x) * bucket_width(timeframe)) as i64)
        } else {
            None
        }),
{
    let back: i64 = (12 - x) as i64 * bucket_width_seconds(timeframe);
    now.checked_sub(back)
}

/// The date pattern of the axis labels: month and day for days and weeks,
/// year and month for months, the year for years.
pub open spec fn label_pattern(tf: Timeframe) -> Seq<char> {
    match tf {
        Timeframe::Daily => "%m/%d"@,
        Timeframe::Weekly => "%m/%d"@,
        Timeframe::Monthly => "%y/%m"@,
        Timeframe::Yearly => "%Y"@,
    }
}

/// The UTC date of the instant `secs`, written in the date pattern
/// `pattern`; `None` when the instant lies outside the calendar's range.
pub uninterp spec fn utc_date_text(secs: int, pattern: Seq<char>) -> Option<Seq<char>>;

/// Relies on chrono's `DateTime::from_timestamp` (the UTC date-time of an
/// instant, `None` out of range) and `DateTime::format` with a strftime
/// pattern, rendered with `to_string`. The patterns admitted are valid, so
/// rendering cannot fail.
#[verifier::external_body]
fn format_utc_date(secs: i64, pattern: &str) -> (r: Option<String>)
    requires
        pattern@ == "%m/%d"@ || pattern@ == "%y/%m"@ || pattern@ == "%Y"@,
    ensures
        match r {
            Some(s) => utc_date_text(secs as int, pattern@) == Some(s@),
            None => utc_date_text(secs as int, pattern@) == None::<Seq<char>>,
        },
{
    match chrono::DateTime::from_timestamp(secs, 0) {
        Some(date) => Some(date.format(pattern).to_string()),
        None => None,
    }
}

/// The label under a position of the time axis: the date of
/// `axis_instant`, in the timeframe's pattern.
pub fn axis_label(timeframe: Timeframe, x: u32, now: i64) -> (r: Option<String>)
    requires
        x <= 12,
    ensures
        match r {
            Some(s) => {
                &&& i64::MIN <= now - (12 - x) * bucket_width(timeframe)
                &&& utc_date_text(now - (12 - x) * bucket_width(timeframe), label_pattern(timeframe))
                    == Some(s@)
            },
            None => i64::MIN > now - (12 - x) * bucket_width(timeframe) || utc_date_text(
                now - (12 - x) * bucket_width(timeframe),
                label_pattern(timeframe),
            ) == None::<Seq<char>>,
        },
{
    let pattern: &str = match timeframe {
        Timeframe::Daily => "%m/%d",
        Timeframe::Weekly => "%m/%d",
        Timeframe::Monthly => "%y/%m",
        Timeframe::Yearly => "%Y",
    };
    match axis_instant(timeframe, x, now) {
        Some(t) => format_utc_date(t, pattern),
        None => None,
    }
}

} // verus!
