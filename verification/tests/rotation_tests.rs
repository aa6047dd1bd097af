use rolling_appender::rotation::Rotation;
use rolling_appender::time::Timestamp;

fn ts(year: i32, month: u8, day: u8, hour: u8, minute: u8, second: u8) -> Timestamp {
    Timestamp::new(year, month, day, hour, minute, second)
}

#[test]
fn daily_boundary_is_next_midnight() {
    let t = ts(2024, 1, 1, 23, 59, 59);
    let b = Rotation::Daily.next_boundary(&t);
    assert_eq!(b, ts(2024, 1, 2, 0, 0, 0));
}

#[test]
fn hourly_boundary_is_next_hour_start() {
    let t = ts(2024, 1, 1, 10, 15, 30);
    let b = Rotation::Hourly.next_boundary(&t);
    assert_eq!(b, ts(2024, 1, 1, 11, 0, 0));
}

#[test]
fn minutely_boundary_is_next_minute_start() {
    let t = ts(2024, 1, 1, 10, 15, 30);
    let b = Rotation::Minutely.next_boundary(&t);
    assert_eq!(b, ts(2024, 1, 1, 10, 16, 0));
}

#[test]
fn boundary_carries_over_midnight() {
    let t = ts(2024, 1, 31, 23, 59, 59);
    assert_eq!(Rotation::Minutely.next_boundary(&t), ts(2024, 2, 1, 0, 0, 0));
    assert_eq!(Rotation::Hourly.next_boundary(&t), ts(2024, 2, 1, 0, 0, 0));
    assert_eq!(Rotation::Daily.next_boundary(&t), ts(2024, 2, 1, 0, 0, 0));
}

#[test]
fn boundary_carries_over_year_end() {
    let t = ts(2023, 12, 31, 23, 0, 0);
    assert_eq!(Rotation::Daily.next_boundary(&t), ts(2024, 1, 1, 0, 0, 0));
    assert_eq!(Rotation::Hourly.next_boundary(&t), ts(2024, 1, 1, 0, 0, 0));
}

#[test]
fn leap_year_february_has_29_days() {
    let t = ts(2024, 2, 28, 12, 0, 0);
    assert_eq!(Rotation::Daily.next_boundary(&t), ts(2024, 2, 29, 0, 0, 0));
    let t = ts(2024, 2, 29, 12, 0, 0);
    assert_eq!(Rotation::Daily.next_boundary(&t), ts(2024, 3, 1, 0, 0, 0));
}

#[test]
fn non_leap_february_has_28_days() {
    let t = ts(2023, 2, 28, 12, 0, 0);
    assert_eq!(Rotation::Daily.next_boundary(&t), ts(2023, 3, 1, 0, 0, 0));
}

#[test]
fn century_years_follow_gregorian_rule() {
    // 1900 is not a leap year, 2000 is.
    let t = ts(1900, 2, 28, 0, 0, 0);
    assert_eq!(Rotation::Daily.next_boundary(&t), ts(1900, 3, 1, 0, 0, 0));
    let t = ts(2000, 2, 28, 0, 0, 0);
    assert_eq!(Rotation::Daily.next_boundary(&t), ts(2000, 2, 29, 0, 0, 0));
}

#[test]
fn boundary_is_strictly_after_input() {
    let samples = [
        ts(2024, 1, 1, 0, 0, 0),
        ts(2024, 6, 15, 12, 30, 45),
        ts(2024, 12, 31, 23, 59, 59),
        ts(1969, 7, 20, 20, 17, 0),
    ];
    let periods = [Rotation::Minutely, Rotation::Hourly, Rotation::Daily, Rotation::Never];
    for t in samples.iter() {
        for p in periods.iter() {
            let b = p.next_boundary(t);
            assert!(t.before(&b));
        }
    }
}

#[test]
fn boundary_is_idempotent_within_period() {
    // Recomputing from a later instant inside the same period gives the same
    // boundary.
    let t = ts(2024, 3, 10, 8, 0, 0);
    let b = Rotation::Daily.next_boundary(&t);
    let later = ts(2024, 3, 10, 23, 59, 59);
    assert!(later.before(&b));
    assert_eq!(Rotation::Daily.next_boundary(&later), b);

    let b = Rotation::Hourly.next_boundary(&t);
    let later = ts(2024, 3, 10, 8, 59, 59);
    assert_eq!(Rotation::Hourly.next_boundary(&later), b);

    let b = Rotation::Minutely.next_boundary(&t);
    let later = ts(2024, 3, 10, 8, 0, 59);
    assert_eq!(Rotation::Minutely.next_boundary(&later), b);
}

#[test]
fn never_boundary_not_reached_by_realistic_times() {
    let b = Rotation::Never.next_boundary(&ts(2024, 1, 1, 0, 0, 0));
    // Far-future yet representable instants still lie before the sentinel.
    for t in [
        ts(2024, 1, 1, 0, 0, 1),
        ts(9999, 12, 31, 23, 59, 59),
        ts(262143, 12, 31, 23, 59, 59),
    ] {
        assert!(t.before(&b));
        assert!(!t.at_or_after(&b));
    }
}

#[test]
fn daily_suffix_formats_date() {
    let t = ts(2024, 1, 1, 23, 59, 59);
    assert_eq!(Rotation::Daily.file_suffix("app.log", &t), "app.log.2024-01-01");
}

#[test]
fn hourly_suffix_includes_hour() {
    let t = ts(2024, 1, 1, 23, 59, 59);
    assert_eq!(Rotation::Hourly.file_suffix("app.log", &t), "app.log.2024-01-01-23");
}

#[test]
fn minutely_suffix_includes_minute() {
    let t = ts(2024, 1, 1, 23, 59, 59);
    assert_eq!(Rotation::Minutely.file_suffix("app.log", &t), "app.log.2024-01-01-23-59");
}

#[test]
fn never_suffix_is_bare_prefix() {
    let t = ts(2024, 1, 1, 23, 59, 59);
    assert_eq!(Rotation::Never.file_suffix("app.log", &t), "app.log");
}

#[test]
fn suffix_zero_pads_fields() {
    let t = ts(987, 3, 7, 4, 5, 0);
    assert_eq!(Rotation::Minutely.file_suffix("p", &t), "p.0987-03-07-04-05");
}

#[test]
fn suffix_handles_wide_and_negative_years() {
    let t = ts(10000, 1, 2, 0, 0, 0);
    assert_eq!(Rotation::Daily.file_suffix("p", &t), "p.10000-01-02");
    let t = ts(-44, 3, 15, 0, 0, 0);
    assert_eq!(Rotation::Daily.file_suffix("p", &t), "p.-0044-03-15");
}

#[test]
fn suffix_is_stable_across_recomputation() {
    let t = ts(2024, 5, 6, 7, 8, 9);
    for p in [Rotation::Minutely, Rotation::Hourly, Rotation::Daily, Rotation::Never] {
        let first = p.file_suffix("app.log", &t);
        let second = p.file_suffix("app.log", &t);
        assert_eq!(first, second);
    }
}

#[test]
fn timestamp_well_formedness_check() {
    assert!(ts(2024, 2, 29, 0, 0, 0).is_wf());
    assert!(!ts(2023, 2, 29, 0, 0, 0).is_wf());
    assert!(!ts(2024, 13, 1, 0, 0, 0).is_wf());
    assert!(!ts(2024, 0, 1, 0, 0, 0).is_wf());
    assert!(!ts(2024, 1, 32, 0, 0, 0).is_wf());
    assert!(!ts(2024, 1, 1, 24, 0, 0).is_wf());
    assert!(!ts(2024, 1, 1, 0, 60, 0).is_wf());
    assert!(!ts(262144, 1, 1, 0, 0, 0).is_wf());
}

#[test]
fn calendar_order_comparisons() {
    let a = ts(2024, 1, 1, 23, 59, 59);
    let b = ts(2024, 1, 2, 0, 0, 0);
    assert!(a.before(&b));
    assert!(!b.before(&a));
    assert!(b.at_or_after(&a));
    assert!(a.at_or_after(&a));
}
