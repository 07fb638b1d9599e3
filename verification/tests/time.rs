use cli_khronos::domain::{ClockTime, TimeRecords};
use cli_khronos::error::{AppError, DomainError};
use cli_khronos::service::TimeService;

#[test]
fn wraparound_total_time() {
    let start = ClockTime::new(23, 0, 0);
    let end = ClockTime::new(1, 0, 0);
    // two hours across midnight
    assert_eq!(TimeRecords::calculate_total_time(start, end), 7200);
}

#[test]
fn non_wraparound_total_time() {
    let start = ClockTime::new(9, 0, 0);
    let end = ClockTime::new(17, 30, 0);
    // eight hours thirty minutes
    assert_eq!(TimeRecords::calculate_total_time(start, end), 30600);
}

#[test]
fn total_time_zero_when_clocks_equal() {
    let c = ClockTime::new(9, 0, 0);
    assert_eq!(TimeRecords::calculate_total_time(c, c), 0);
}

#[test]
fn total_time_recomputation_stable() {
    let a = TimeRecords::calculate_total_time(ClockTime::new(23, 0, 0), ClockTime::new(1, 0, 0));
    let b = TimeRecords::calculate_total_time(ClockTime::new(23, 0, 0), ClockTime::new(1, 0, 0));
    assert_eq!(a, b);
}

#[test]
fn break_time_with_effective() {
    // seven hours effective out of an eight-hour total leaves one hour
    assert_eq!(TimeRecords::calculate_break_time(Some(25200), 28800), 3600);
}

#[test]
fn break_time_without_effective() {
    assert_eq!(TimeRecords::calculate_break_time(None, 28800), 28800);
}

#[test]
fn normalize_division_separator() {
    assert_eq!(
        TimeService::normalize_time_chars("07\u{2236}00\u{2236}00"),
        "07:00:00"
    );
}

#[test]
fn duration_parses_both_separators_alike() {
    let a = TimeService::parse_duration_from_hsm("07:30:15");
    let b = TimeService::parse_duration_from_hsm("07\u{2236}30\u{2236}15");
    assert_eq!(a, b);
    assert_eq!(a, Some(27015));
}

#[test]
fn duration_malformed_is_absent() {
    assert_eq!(TimeService::parse_duration_from_hsm("0700"), None);
    assert_eq!(TimeService::parse_duration_from_hsm("07:00"), None);
    assert_eq!(TimeService::parse_duration_from_hsm("07:xx:00"), None);
    assert_eq!(TimeService::parse_duration_from_hsm("07:00:00:00"), None);
    assert_eq!(TimeService::parse_duration_from_hsm(""), None);
    assert_eq!(TimeService::parse_duration_from_hsm("::"), None);
}

#[test]
fn duration_accepts_multi_digit_components() {
    assert_eq!(TimeService::parse_duration_from_hsm("100:0:0"), Some(360000));
}

#[test]
fn time_records_new_rejects_bad_range() {
    let r = TimeRecords::new(
        None,
        "Mon".to_string(),
        "12/05".to_string(),
        ClockTime::new(9, 0, 0),
        ClockTime::new(9, 0, 0),
    );
    assert_eq!(r.unwrap_err(), DomainError::UnvalidTimeRange);
}

#[test]
fn time_records_new_recomputes_durations() {
    let r = TimeRecords::new(
        Some(25200),
        "Mon".to_string(),
        "12/05".to_string(),
        ClockTime::new(9, 0, 0),
        ClockTime::new(17, 0, 0),
    )
    .unwrap();
    assert_eq!(r.total_time, 28800);
    assert_eq!(r.break_time, 3600);
    assert_eq!(r.effective_duration, Some(25200));
}

#[test]
fn timechart_extracts_fields() {
    let raw = "07:00:00\nMon, 12/05 09:00:00 \u{2013} 17:30:00";
    let t = TimeService::timechart_from_raw(raw).unwrap();
    assert_eq!(t.day_week, "Mon");
    assert_eq!(t.date, "12/05");
    assert_eq!(t.starting_time, ClockTime::new(9, 0, 0));
    assert_eq!(t.ending_time, ClockTime::new(17, 30, 0));
    assert_eq!(t.effective_duration, Some(25200));
    assert_eq!(t.total_time, 30600);
    assert_eq!(t.break_time, 5400);
}

#[test]
fn timechart_with_division_separator() {
    let raw = "07\u{2236}00\u{2236}00\nMon, 12/05 09\u{2236}00\u{2236}00 \u{2013} 17\u{2236}30\u{2236}00";
    let t = TimeService::timechart_from_raw(raw).unwrap();
    assert_eq!(t.effective_duration, Some(25200));
    assert_eq!(t.total_time, 30600);
    assert_eq!(t.break_time, 5400);
}

#[test]
fn timechart_malformed_effective_degrades_to_absent() {
    let raw = "xx:yy\nMon, 12/05 09:00:00 \u{2013} 17:30:00";
    let t = TimeService::timechart_from_raw(raw).unwrap();
    assert_eq!(t.effective_duration, None);
    assert_eq!(t.break_time, t.total_time);
}

#[test]
fn timechart_rejects_empty() {
    assert_eq!(
        TimeService::timechart_from_raw("").unwrap_err(),
        AppError::UnvalidDateTimeFormat
    );
}

#[test]
fn timechart_rejects_no_alphanumeric() {
    assert_eq!(
        TimeService::timechart_from_raw("\u{2236} \u{2013} ...").unwrap_err(),
        AppError::UnvalidDateTimeFormat
    );
}

#[test]
fn timechart_rejects_wrong_shape() {
    assert_eq!(
        TimeService::timechart_from_raw("07:00:00 Mon, 12/05").unwrap_err(),
        AppError::UnvalidFormat
    );
}

#[test]
fn timechart_rejects_out_of_range_clock() {
    let raw = "07:00:00\nMon, 12/05 25:00:00 \u{2013} 17:30:00";
    assert_eq!(
        TimeService::timechart_from_raw(raw).unwrap_err(),
        AppError::UnvalidFormat
    );
}

#[test]
fn timechart_rejects_equal_clocks() {
    let raw = "07:00:00\nMon, 12/05 09:00:00 \u{2013} 09:00:00";
    assert_eq!(
        TimeService::timechart_from_raw(raw).unwrap_err(),
        AppError::DomainError(DomainError::UnvalidTimeRange)
    );
}

#[test]
fn timechart_rejects_inverted_range() {
    let raw = "07:00:00\nMon, 12/05 17:30:00 \u{2013} 09:00:00";
    assert_eq!(
        TimeService::timechart_from_raw(raw).unwrap_err(),
        AppError::DomainError(DomainError::UnvalidTimeRange)
    );
}
