use timeline_rs::datetime::{compose, month_length, DateTime};

fn dt(year: i32, month: u32, day: u32, hour: u32, minute: u32, second: u32) -> DateTime {
    compose(year, month, day, hour, minute, second).expect("fields should form a real date-time")
}

#[test]
fn month_lengths_common_year() {
    let lengths = [31, 28, 31, 30, 31, 30, 31, 31, 30, 31, 30, 31];
    for m in 1..=12u32 {
        assert_eq!(month_length(2023, m), lengths[(m - 1) as usize]);
    }
}

#[test]
fn month_length_leap_rules() {
    assert_eq!(month_length(2024, 2), 29);
    assert_eq!(month_length(2023, 2), 28);
    assert_eq!(month_length(1900, 2), 28);
    assert_eq!(month_length(2000, 2), 29);
    assert_eq!(month_length(1996, 2), 29);
    assert_eq!(month_length(2100, 2), 28);
}

#[test]
fn compose_accepts_real_dates() {
    assert!(compose(2024, 2, 29, 0, 0, 0).is_some());
    assert!(compose(2024, 1, 31, 23, 59, 59).is_some());
    assert!(compose(1, 1, 1, 0, 0, 0).is_some());
    assert!(compose(9999, 12, 31, 23, 59, 59).is_some());
}

#[test]
fn compose_rejects_impossible_dates() {
    assert!(compose(2023, 2, 29, 0, 0, 0).is_none());
    assert!(compose(2024, 2, 30, 0, 0, 0).is_none());
    assert!(compose(2024, 4, 31, 0, 0, 0).is_none());
    assert!(compose(2024, 0, 1, 0, 0, 0).is_none());
    assert!(compose(2024, 13, 1, 0, 0, 0).is_none());
    assert!(compose(2024, 1, 0, 0, 0, 0).is_none());
    assert!(compose(2024, 1, 32, 0, 0, 0).is_none());
}

#[test]
fn compose_rejects_impossible_times() {
    assert!(compose(2024, 1, 1, 24, 0, 0).is_none());
    assert!(compose(2024, 1, 1, 0, 60, 0).is_none());
    assert!(compose(2024, 1, 1, 0, 0, 60).is_none());
}

#[test]
fn compose_rejects_years_outside_range() {
    assert!(compose(0, 1, 1, 0, 0, 0).is_none());
    assert!(compose(-1, 1, 1, 0, 0, 0).is_none());
    assert!(compose(10000, 1, 1, 0, 0, 0).is_none());
}

#[test]
fn compose_keeps_the_fields() {
    let d = dt(2024, 6, 15, 10, 30, 45);
    assert_eq!(
        (d.year, d.month, d.day, d.hour, d.minute, d.second),
        (2024, 6, 15, 10, 30, 45)
    );
}

#[test]
fn calendar_order_is_lexicographic() {
    let a = dt(2023, 12, 25, 9, 0, 0);
    let b = dt(2024, 1, 1, 10, 0, 0);
    assert!(a.le(&b));
    assert!(!b.le(&a));
    let c = dt(2024, 1, 1, 10, 0, 1);
    assert!(b.le(&c));
    assert!(!c.le(&b));
    assert!(b.le(&b));
}

#[test]
fn epoch_is_valid() {
    let e = DateTime::epoch();
    assert!(e.valid());
    assert_eq!((e.year, e.month, e.day), (1970, 1, 1));
    assert_eq!((e.hour, e.minute, e.second), (0, 0, 0));
}

#[test]
fn now_or_epoch_is_valid() {
    assert!(timeline_rs::datetime::now_or_epoch().valid());
}

#[test]
fn valid_spots_a_hand_built_bad_value() {
    let bad = DateTime { year: 2023, month: 2, day: 29, hour: 0, minute: 0, second: 0 };
    assert!(!bad.valid());
    let good = DateTime { year: 2024, month: 2, day: 29, hour: 0, minute: 0, second: 0 };
    assert!(good.valid());
}
