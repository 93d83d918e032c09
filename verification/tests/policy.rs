//! The partition-key policy and the hot-window calculator.

use partition_store::date::{days_in_month, Date};
use partition_store::partition::{identifier_of, key_of, parse_identifier, PartitionKey};
use partition_store::window::{hot_window, is_hot};

#[test]
fn key_of_normalizes_to_first_of_month() {
    let d = Date { year: 2024, month: 6, day: 15 };
    let k = key_of(d);
    assert_eq!(k.day, 1);
    assert_eq!(k.month, d.month);
    assert_eq!(k.year, d.year);
}

#[test]
fn key_of_keeps_year_and_month_on_month_edges() {
    let first = key_of(Date { year: 2023, month: 12, day: 1 });
    assert_eq!(first, PartitionKey { year: 2023, month: 12, day: 1 });
    let last = key_of(Date { year: 2024, month: 2, day: 29 });
    assert_eq!(last, PartitionKey { year: 2024, month: 2, day: 1 });
}

#[test]
fn identifier_is_fixed_width_year_month() {
    let id = identifier_of(&PartitionKey { year: 2024, month: 1, day: 1 });
    assert_eq!(id.as_str(), "202401");
    let id = identifier_of(&PartitionKey { year: 31, month: 12, day: 1 });
    assert_eq!(id.as_str(), "003112");
    let id = identifier_of(&PartitionKey { year: 9999, month: 12, day: 1 });
    assert_eq!(id.as_str(), "999912");
}

#[test]
fn parse_inverts_identifier() {
    let keys = [
        PartitionKey { year: 2024, month: 1, day: 1 },
        PartitionKey { year: 1, month: 1, day: 1 },
        PartitionKey { year: 9999, month: 12, day: 1 },
        PartitionKey { year: 1970, month: 10, day: 1 },
    ];
    for k in keys {
        let id = identifier_of(&k);
        assert_eq!(parse_identifier(id.as_str()), Some(k));
    }
}

#[test]
fn parse_rejects_malformed_identifiers() {
    assert_eq!(parse_identifier(""), None);
    assert_eq!(parse_identifier("20240"), None);
    assert_eq!(parse_identifier("2024010"), None);
    assert_eq!(parse_identifier("20240a"), None);
    assert_eq!(parse_identifier("2024-1"), None);
    assert_eq!(parse_identifier("202400"), None);
    assert_eq!(parse_identifier("202413"), None);
    assert_eq!(parse_identifier("000001"), None);
    assert_eq!(parse_identifier("maine"), None);
    assert_eq!(parse_identifier("粒子粒子粒子"), None);
}

#[test]
fn parse_accepts_any_real_month() {
    for month in 1..=12u32 {
        let k = PartitionKey { year: 2024, month, day: 1 };
        let id = identifier_of(&k);
        assert_eq!(parse_identifier(id.as_str()), Some(k));
    }
}

#[test]
fn window_of_june_2024() {
    let w = hot_window(Date { year: 2024, month: 6, day: 1 });
    assert_eq!(w.start, Date { year: 2023, month: 6, day: 1 });
    assert_eq!(w.end, Date { year: 2024, month: 6, day: 30 });
}

#[test]
fn window_ends_on_leap_day_in_february_2024() {
    let w = hot_window(Date { year: 2024, month: 2, day: 10 });
    assert_eq!(w.start, Date { year: 2023, month: 2, day: 1 });
    assert_eq!(w.end, Date { year: 2024, month: 2, day: 29 });
}

#[test]
fn window_inclusion_matches_month_comparison() {
    let w = hot_window(Date { year: 2024, month: 6, day: 1 });
    let inside = key_of(Date { year: 2024, month: 1, day: 10 });
    let outside = key_of(Date { year: 2022, month: 1, day: 10 });
    assert!(is_hot(&w, &inside));
    assert!(!is_hot(&w, &outside));
    let start_edge = key_of(Date { year: 2023, month: 6, day: 30 });
    let before_start = key_of(Date { year: 2023, month: 5, day: 31 });
    let end_edge = key_of(Date { year: 2024, month: 6, day: 30 });
    assert!(is_hot(&w, &start_edge));
    assert!(!is_hot(&w, &before_start));
    assert!(is_hot(&w, &end_edge));
}

#[test]
fn month_lengths_follow_the_leap_rule() {
    assert_eq!(days_in_month(2024, 2), 29);
    assert_eq!(days_in_month(2023, 2), 28);
    assert_eq!(days_in_month(1900, 2), 28);
    assert_eq!(days_in_month(2000, 2), 29);
    assert_eq!(days_in_month(2024, 4), 30);
    assert_eq!(days_in_month(2024, 12), 31);
}

#[test]
fn date_validity_checks_day_range() {
    assert!(Date { year: 2024, month: 2, day: 29 }.is_valid());
    assert!(!Date { year: 2023, month: 2, day: 29 }.is_valid());
    assert!(!Date { year: 2024, month: 13, day: 1 }.is_valid());
    assert!(!Date { year: 2024, month: 0, day: 1 }.is_valid());
    assert!(!Date { year: 0, month: 1, day: 1 }.is_valid());
    assert!(!Date { year: 10000, month: 1, day: 1 }.is_valid());
    assert!(Date { year: 9999, month: 12, day: 31 }.is_valid());
}
