//! Times as the protocol writes them.

use pi_acp::time::{civil_from_days, format_epoch_millis, normalize_timestamp, utc_now_iso8601};
use std::time::{SystemTime, UNIX_EPOCH};

#[test]
fn formats_known_epoch_millis() {
    // 2026-08-31T08:52:10.000Z
    assert_eq!(
        format_epoch_millis(1_788_166_330_000),
        "2026-08-31T08:52:10.000Z"
    );
    // 2026-01-01T00:00:00.000Z
    assert_eq!(
        format_epoch_millis(1_767_225_600_000),
        "2026-01-01T00:00:00.000Z"
    );
    // 1970-01-01T00:00:00.000Z
    assert_eq!(format_epoch_millis(0), "1970-01-01T00:00:00.000Z");
    // 1999-12-31T23:59:59.999Z
    assert_eq!(
        format_epoch_millis(946_684_799_999),
        "1999-12-31T23:59:59.999Z"
    );
    // 2000-02-29 (leap year)
    assert_eq!(
        format_epoch_millis(951_782_400_000),
        "2000-02-29T00:00:00.000Z"
    );
    // 2024-02-29 (leap year)
    assert_eq!(
        format_epoch_millis(1_709_164_800_000),
        "2024-02-29T00:00:00.000Z"
    );
}

#[test]
fn utc_now_iso8601_is_recent_and_stable_shape() {
    let clock = SystemTime::now()
        .duration_since(UNIX_EPOCH)
        .ok()
        .map(|d| d.as_millis());
    let s = utc_now_iso8601(clock);
    assert!(s.ends_with('Z'), "expected UTC Z suffix, got {s}");
    assert_eq!(s.len(), 24, "YYYY-MM-DDTHH:MM:SS.sssZ is 24 chars, got {s}");
    assert!(s.starts_with("20"), "expected a 2000+ year, got {s}");
}

#[test]
fn an_unreadable_clock_shows_the_first_moment() {
    assert_eq!(utc_now_iso8601(None), "1970-01-01T00:00:00.000Z");
}

#[test]
fn days_follow_one_another() {
    let day: u128 = 86_400_000;
    assert_eq!(format_epoch_millis(11_016 * day), "2000-02-29T00:00:00.000Z");
    assert_eq!(format_epoch_millis(11_017 * day), "2000-03-01T00:00:00.000Z");
    // 2100 is no leap year.
    assert_eq!(format_epoch_millis(47_540 * day), "2100-02-28T00:00:00.000Z");
    assert_eq!(format_epoch_millis(47_541 * day), "2100-03-01T00:00:00.000Z");
    // Years grow beyond four digits.
    assert_eq!(
        format_epoch_millis(2_932_897 * day),
        "10000-01-01T00:00:00.000Z"
    );
    // Days before the first one are counted too.
    assert_eq!(
        normalize_timestamp("1970-01-01T00:00:00+01:00"),
        Some("1969-12-31T23:00:00.000Z".to_string())
    );
    assert_eq!(
        normalize_timestamp("0000-01-01T00:00:00Z"),
        Some("0000-01-01T00:00:00.000Z".to_string())
    );
    assert_eq!(normalize_timestamp("0000-01-01T00:00:00+00:01"), None);
}

#[test]
fn timestamps_are_brought_to_one_form() {
    assert_eq!(
        normalize_timestamp("2026-08-02T11:00:00+00:00"),
        Some("2026-08-02T11:00:00.000Z".to_string())
    );
    assert_eq!(
        normalize_timestamp("2026-08-02T11:00:00.000Z"),
        Some("2026-08-02T11:00:00.000Z".to_string())
    );
    assert_eq!(normalize_timestamp("yesterday"), None);
}

fn month_days(y: i64, m: u32) -> u32 {
    match m {
        2 if y.rem_euclid(4) == 0 && (y.rem_euclid(100) != 0 || y.rem_euclid(400) == 0) => 29,
        2 => 28,
        4 | 6 | 9 | 11 => 30,
        _ => 31,
    }
}

#[test]
fn days_have_dates_before_and_after_the_epoch() {
    assert_eq!(civil_from_days(0), (1970, 1, 1));
    assert_eq!(civil_from_days(-1), (1969, 12, 31));
    assert_eq!(civil_from_days(-719_528), (0, 1, 1));
    assert_eq!(civil_from_days(-719_529), (-1, 12, 31));
    assert_eq!(civil_from_days(-719_468), (0, 3, 1));
    assert_eq!(civil_from_days(2_932_896), (9999, 12, 31));
    assert_eq!(civil_from_days(2_932_897), (10_000, 1, 1));
    let (_, m, d) = civil_from_days(i64::MIN);
    assert!((1..=12).contains(&m) && (1..=31).contains(&d));
    let (_, m, d) = civil_from_days(i64::MAX);
    assert!((1..=12).contains(&m) && (1..=31).contains(&d));
}

#[test]
fn the_next_day_has_the_date_that_follows() {
    for start in [-1_000_000_000i64, -719_900, -400, 0, 10_950, 19_700, 999_998_000] {
        for days in start..start + 1_500 {
            let (y, m, d) = civil_from_days(days);
            assert!(1 <= m && m <= 12 && 1 <= d && d <= month_days(y, m));
            let next = if d < month_days(y, m) {
                (y, m, d + 1)
            } else if m < 12 {
                (y, m + 1, 1)
            } else {
                (y + 1, 1, 1)
            };
            assert_eq!(civil_from_days(days + 1), next);
        }
    }
}

#[test]
fn later_instants_are_later_texts() {
    let instants = [
        0u128,
        1,
        999,
        1_000,
        59_999,
        60_000,
        86_399_999,
        86_400_000,
        951_782_400_000,
        1_788_166_330_000,
        253_402_300_799_999,
    ];
    for pair in instants.windows(2) {
        let (a, b) = (format_epoch_millis(pair[0]), format_epoch_millis(pair[1]));
        assert!(a < b, "{a} {b}");
        assert_eq!((a.len(), b.len()), (24, 24));
    }
}
