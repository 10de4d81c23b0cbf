use bloombot::charts::{axis_instant, axis_label, bar_heights, chart_upper_bound, next_largest_factor, StatsType};
use bloombot::timeframe::{Timeframe, TimeframeStats};

// 2024-03-15 12:00:00 UTC
const NOW: i64 = 1_710_504_000;

#[test]
fn axis_tops() {
    assert_eq!(next_largest_factor(0), 10);
    assert_eq!(next_largest_factor(9), 10);
    assert_eq!(next_largest_factor(10), 20);
    assert_eq!(next_largest_factor(45), 60);
    assert_eq!(next_largest_factor(120), 150);
    assert_eq!(next_largest_factor(1234), 1240);
    assert_eq!(next_largest_factor(u32::MAX), 4_294_967_300);
}

#[test]
fn upper_bound_of_series() {
    let s = vec![
        TimeframeStats { sum: 30, count: 2 },
        TimeframeStats { sum: 125, count: 1 },
    ];
    assert_eq!(chart_upper_bound(&s, StatsType::MeditationMinutes), Some(150));
    assert_eq!(chart_upper_bound(&s, StatsType::MeditationCount), Some(10));
    let big = vec![TimeframeStats { sum: u32::MAX as u64 + 1, count: 0 }];
    assert_eq!(chart_upper_bound(&big, StatsType::MeditationMinutes), None);
}

#[test]
fn bars_need_twelve_buckets() {
    let s = vec![TimeframeStats { sum: 5, count: 1 }; 12];
    assert_eq!(bar_heights(&s, StatsType::MeditationMinutes), Some(vec![5; 12]));
    assert_eq!(bar_heights(&s, StatsType::MeditationCount), Some(vec![1; 12]));
    assert_eq!(bar_heights(&s[..11].to_vec(), StatsType::MeditationCount), None);
    let mut big = s.clone();
    big[3].sum = u32::MAX as u64 + 1;
    assert_eq!(bar_heights(&big, StatsType::MeditationMinutes), None);
}

#[test]
fn axis_dates() {
    assert_eq!(axis_instant(Timeframe::Daily, 12, NOW), Some(NOW));
    assert_eq!(axis_instant(Timeframe::Daily, 0, NOW), Some(NOW - 12 * 86_400));
    assert_eq!(axis_instant(Timeframe::Monthly, 11, NOW), Some(NOW - 30 * 86_400));
    assert_eq!(axis_instant(Timeframe::Yearly, 0, i64::MIN), None);
    assert_eq!(axis_label(Timeframe::Daily, 12, NOW), Some("03/15".to_string()));
    assert_eq!(axis_label(Timeframe::Weekly, 11, NOW), Some("03/08".to_string()));
    assert_eq!(axis_label(Timeframe::Monthly, 11, NOW), Some("24/02".to_string()));
    assert_eq!(axis_label(Timeframe::Yearly, 10, NOW), Some("2022".to_string()));
    assert_eq!(axis_label(Timeframe::Daily, 12, i64::MAX), None);
}
