use bloombot::logging::{collective_hours_milestone, escape_quote, needs_confirmation, offset_occurred_at, OffsetError};

// 2024-03-15 12:00:00 UTC
const NOW: i64 = 1_710_504_000;

#[test]
fn large_entries_are_confirmed() {
    assert!(!needs_confirmation(300));
    assert!(needs_confirmation(301));
}

#[test]
fn offsets() {
    assert_eq!(offset_occurred_at(NOW, 0, 0), Ok(None));
    assert_eq!(offset_occurred_at(NOW, -300, 0), Ok(Some(NOW - 300 * 60)));
    assert_eq!(offset_occurred_at(NOW, 0, 345), Ok(Some(NOW + 345 * 60)));
    assert_eq!(offset_occurred_at(NOW, -60, 60), Err(OffsetError::MultipleOffsets));
}

#[test]
fn milestones() {
    assert_eq!(collective_hours_milestone(10, 125), Some(2));
    assert_eq!(collective_hours_milestone(11, 125), None);
    assert_eq!(collective_hours_milestone(0, 0), Some(0));
}

#[test]
fn quote_escaping() {
    let q: Vec<char> = "Be *here* now. (Really!) _calm_ ~ok~ d\u{e9}j\u{e0}".chars().collect();
    let out: String = escape_quote(&q).into_iter().collect();
    assert_eq!(out, "Be here now\\. \\(Really\\!\\) _calm_ ~ok~ d\u{e9}j\u{e0}");
}
