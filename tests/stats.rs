use bloombot::stats::{get_guild_stats, get_user_stats};
use bloombot::timeframe::{ActivityEntry, Timeframe, TimeframeStats};

// 2024-03-15 12:00:00 UTC
const NOW: i64 = 1_710_504_000;
const DAY: i64 = 86_400;

fn entry(days_ago: i64, minutes: u32) -> ActivityEntry {
    ActivityEntry { occurred_at: NOW - days_ago * DAY, minutes }
}

#[test]
fn user_report_composes_totals_buckets_and_streak() {
    let es = vec![entry(0, 10), entry(1, 20), entry(3, 30), entry(20, 40)];
    let s = get_user_stats(&es, Timeframe::Daily, NOW).unwrap();
    assert_eq!(s.all_minutes, 100);
    assert_eq!(s.all_count, 4);
    assert_eq!(s.timeframe_stats, TimeframeStats { sum: 60, count: 3 });
    assert_eq!(s.buckets.len(), 12);
    assert_eq!(s.buckets[11], TimeframeStats { sum: 10, count: 1 });
    assert_eq!(s.buckets[10], TimeframeStats { sum: 20, count: 1 });
    assert_eq!(s.buckets[8], TimeframeStats { sum: 30, count: 1 });
    assert_eq!(s.streak, 2);
    let total: u64 = s.buckets.iter().map(|b| b.sum).sum();
    assert_eq!(total, s.timeframe_stats.sum);
}

#[test]
fn empty_user_report() {
    let s = get_user_stats(&vec![], Timeframe::Weekly, NOW).unwrap();
    assert_eq!(s.all_minutes, 0);
    assert_eq!(s.all_count, 0);
    assert_eq!(s.timeframe_stats, TimeframeStats { sum: 0, count: 0 });
    assert_eq!(s.buckets, vec![TimeframeStats { sum: 0, count: 0 }; 12]);
    assert_eq!(s.streak, 0);
}

#[test]
fn guild_report() {
    let es = vec![entry(0, 15), entry(100, 45), entry(400, 5)];
    let g = get_guild_stats(&es, Timeframe::Monthly, NOW).unwrap();
    assert_eq!(g.all_minutes, 65);
    assert_eq!(g.all_count, 3);
    assert_eq!(g.timeframe_stats, TimeframeStats { sum: 60, count: 2 });
    assert_eq!(g.buckets[11], TimeframeStats { sum: 15, count: 1 });
    assert_eq!(g.buckets[8], TimeframeStats { sum: 45, count: 1 });
}

#[test]
fn large_totals_fit() {
    let es = vec![entry(0, u32::MAX), entry(0, u32::MAX)];
    let g = get_guild_stats(&es, Timeframe::Daily, NOW).unwrap();
    assert_eq!(g.all_minutes, 2 * u32::MAX as u64);
    assert_eq!(g.buckets[11].sum, 2 * u32::MAX as u64);
}
