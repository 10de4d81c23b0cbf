use bloombot::timeframe::{bucket_index, bucket_stats, ActivityEntry, Timeframe, TimeframeStats};

// 2024-03-15 12:00:00 UTC
const NOW: i64 = 1_710_504_000;
const DAY: i64 = 86_400;

fn entry(days_ago: i64, minutes: u32) -> ActivityEntry {
    ActivityEntry { occurred_at: NOW - days_ago * DAY, minutes }
}

fn zero() -> TimeframeStats {
    TimeframeStats { sum: 0, count: 0 }
}

#[test]
fn no_entries_twelve_zero_buckets() {
    for tf in [Timeframe::Daily, Timeframe::Weekly, Timeframe::Monthly, Timeframe::Yearly] {
        assert_eq!(bucket_stats(&vec![], tf, NOW), vec![zero(); 12]);
    }
}

#[test]
fn single_entry_today_in_newest_bucket() {
    let r = bucket_stats(&vec![entry(0, 25)], Timeframe::Daily, NOW);
    assert_eq!(r.len(), 12);
    assert_eq!(r[11], TimeframeStats { sum: 25, count: 1 });
    for j in 0..11 {
        assert_eq!(r[j], zero());
    }
}

#[test]
fn buckets_complete_with_gaps() {
    let es = vec![entry(0, 10), entry(2, 20), entry(5, 30), entry(11, 40), entry(5, 5)];
    let r = bucket_stats(&es, Timeframe::Daily, NOW);
    assert_eq!(r.len(), 12);
    // position j holds bucket 11 - j
    assert_eq!(r[11], TimeframeStats { sum: 10, count: 1 });
    assert_eq!(r[9], TimeframeStats { sum: 20, count: 1 });
    assert_eq!(r[6], TimeframeStats { sum: 35, count: 2 });
    assert_eq!(r[0], TimeframeStats { sum: 40, count: 1 });
    for k in [1usize, 3, 4, 6, 7, 8, 9, 10] {
        assert_eq!(r[11 - k], zero());
    }
}

#[test]
fn daily_window_boundary() {
    let r = bucket_stats(&vec![entry(12, 7), entry(30, 9)], Timeframe::Daily, NOW);
    assert_eq!(r, vec![zero(); 12]);
    let r = bucket_stats(&vec![entry(11, 7)], Timeframe::Daily, NOW);
    assert_eq!(r[0], TimeframeStats { sum: 7, count: 1 });
}

#[test]
fn future_entries_excluded() {
    let r = bucket_stats(&vec![ActivityEntry { occurred_at: NOW + 10, minutes: 5 }], Timeframe::Weekly, NOW);
    assert_eq!(r, vec![zero(); 12]);
}

#[test]
fn weekly_buckets_use_elapsed_seconds() {
    let week = 7 * DAY;
    let es = vec![
        ActivityEntry { occurred_at: NOW - week + 1, minutes: 1 },
        ActivityEntry { occurred_at: NOW - week, minutes: 2 },
        ActivityEntry { occurred_at: NOW - 12 * week, minutes: 4 },
        ActivityEntry { occurred_at: NOW - 12 * week + 1, minutes: 8 },
    ];
    let r = bucket_stats(&es, Timeframe::Weekly, NOW);
    assert_eq!(r[11], TimeframeStats { sum: 1, count: 1 });
    assert_eq!(r[10], TimeframeStats { sum: 2, count: 1 });
    assert_eq!(r[0], TimeframeStats { sum: 8, count: 1 });
}

#[test]
fn monthly_and_yearly_use_fixed_widths() {
    assert_eq!(bucket_index(Timeframe::Monthly, NOW, NOW - 30 * DAY), Some(1));
    assert_eq!(bucket_index(Timeframe::Monthly, NOW, NOW - 30 * DAY + 1), Some(0));
    assert_eq!(bucket_index(Timeframe::Monthly, NOW, NOW - 360 * DAY), None);
    assert_eq!(bucket_index(Timeframe::Yearly, NOW, NOW - 365 * DAY), Some(1));
    assert_eq!(bucket_index(Timeframe::Yearly, NOW, NOW - 365 * DAY + 1), Some(0));
    assert_eq!(bucket_index(Timeframe::Yearly, NOW, NOW - 12 * 365 * DAY + 1), Some(11));
    assert_eq!(bucket_index(Timeframe::Yearly, NOW, NOW + 1), None);
}

#[test]
fn daily_index_uses_calendar_days() {
    let start_of_day = NOW - NOW % DAY;
    assert_eq!(bucket_index(Timeframe::Daily, NOW, start_of_day), Some(0));
    assert_eq!(bucket_index(Timeframe::Daily, NOW, start_of_day - 1), Some(1));
    assert_eq!(bucket_index(Timeframe::Daily, NOW, NOW + DAY), None);
}

#[test]
fn extreme_instants_do_not_overflow() {
    assert_eq!(bucket_index(Timeframe::Weekly, i64::MAX, i64::MIN), None);
    assert_eq!(bucket_index(Timeframe::Daily, i64::MAX, i64::MIN), None);
    assert_eq!(bucket_index(Timeframe::Yearly, i64::MIN, i64::MAX), None);
}

#[test]
fn bucketing_twice_is_identical() {
    let es = vec![entry(0, 10), entry(3, 20), entry(40, 30)];
    for tf in [Timeframe::Daily, Timeframe::Weekly, Timeframe::Monthly, Timeframe::Yearly] {
        assert_eq!(bucket_stats(&es, tf, NOW), bucket_stats(&es, tf, NOW));
    }
    let r = bucket_stats(&es, Timeframe::Monthly, NOW);
    assert_eq!(r[10], TimeframeStats { sum: 30, count: 1 });
    assert_eq!(r[11], TimeframeStats { sum: 30, count: 2 });
}

#[test]
fn zero_minute_entries_are_counted() {
    let r = bucket_stats(&vec![entry(0, 0)], Timeframe::Daily, NOW);
    assert_eq!(r[11], TimeframeStats { sum: 0, count: 1 });
}
