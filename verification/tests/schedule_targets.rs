use things_cli::schedule::{
    CivilDate, ScheduleInput, classify_schedule_target, keyword_target, parse_schedule_target,
};
use things_cli::things::ScheduleTarget;

fn at(year: i32, month: u32, day: u32, hour: u32, minute: u32) -> ScheduleTarget {
    ScheduleTarget { year, month, day, hour, minute, second: 0 }
}

fn fields(t: ScheduleTarget) -> (i32, u32, u32, u32, u32, u32) {
    (t.year, t.month, t.day, t.hour, t.minute, t.second)
}

#[test]
fn classify_prefers_keywords_then_formats() {
    let some = Some(at(2025, 1, 2, 3, 4));
    assert!(matches!(classify_schedule_target(" ToDay ", some, some, None, None), Ok(ScheduleInput::Today)));
    assert!(matches!(classify_schedule_target("TOMORROW", None, None, None, None), Ok(ScheduleInput::Tomorrow)));
    assert!(matches!(classify_schedule_target("x", some, None, None, None), Ok(ScheduleInput::Instant(_))));
    match classify_schedule_target("x", None, None, some, Some(CivilDate { year: 1, month: 1, day: 1 })) {
        Ok(ScheduleInput::LocalDateTime(t)) => assert_eq!(fields(t), (2025, 1, 2, 3, 4, 0)),
        other => panic!("unexpected {:?}", other),
    }
    match classify_schedule_target("x", None, None, None, Some(CivilDate { year: 2024, month: 2, day: 29 })) {
        Ok(ScheduleInput::LocalDate(t)) => assert_eq!(fields(t), (2024, 2, 29, 0, 0, 0)),
        other => panic!("unexpected {:?}", other),
    }
    let e = classify_schedule_target("   ", None, None, None, None).unwrap_err();
    assert_eq!(e.message(), "schedule target must not be empty");
    let e = classify_schedule_target(" someday ", None, None, None, None).unwrap_err();
    assert_eq!(
        e.message(),
        "invalid schedule target: someday. expected today, tomorrow, YYYY-MM-DD, or RFC3339"
    );
}

#[test]
fn parse_local_forms_keep_their_fields() {
    let t = parse_schedule_target("2025-03-04").unwrap();
    assert_eq!(fields(t), (2025, 3, 4, 0, 0, 0));
    let t = parse_schedule_target(" 2025-03-04 10:30 ").unwrap();
    assert_eq!(fields(t), (2025, 3, 4, 10, 30, 0));
    let t = parse_schedule_target("2025-12-31T23:59").unwrap();
    assert_eq!(fields(t), (2025, 12, 31, 23, 59, 0));
}

#[test]
fn parse_rfc3339_and_errors() {
    let t = parse_schedule_target("2025-03-04T10:30:15+02:00").unwrap();
    assert!(t.hour < 24 && t.minute == 30 && t.second == 15);
    assert_eq!(parse_schedule_target("2025-02-30").unwrap_err().exit_code(), 4);
    assert_eq!(
        parse_schedule_target("").unwrap_err().message(),
        "schedule target must not be empty"
    );
    assert_eq!(
        parse_schedule_target("next week").unwrap_err().message(),
        "invalid schedule target: next week. expected today, tomorrow, YYYY-MM-DD, or RFC3339"
    );
}

#[test]
fn keywords_are_midnight() {
    let t = parse_schedule_target(" TODAY ").unwrap();
    assert_eq!((t.hour, t.minute, t.second), (0, 0, 0));
    let t = parse_schedule_target("Tomorrow").unwrap();
    assert_eq!((t.hour, t.minute, t.second), (0, 0, 0));
}

#[test]
fn tomorrow_is_a_later_day_than_today() {
    let today = parse_schedule_target("today").unwrap();
    let tomorrow = parse_schedule_target("tomorrow").unwrap();
    assert!((tomorrow.year, tomorrow.month, tomorrow.day) > (today.year, today.month, today.day));
}

#[test]
fn rfc3339_offsets_name_the_same_instant() {
    let with_offset = parse_schedule_target("2025-03-04T10:30:15+02:00").unwrap();
    let in_utc = parse_schedule_target("2025-03-04T08:30:15Z").unwrap();
    assert_eq!(fields(with_offset), fields(in_utc));
    let other = parse_schedule_target("2025-03-04T10:30:15Z").unwrap();
    assert_ne!(fields(with_offset), fields(other));
}

#[test]
fn keyword_target_uses_the_given_day() {
    let d = |year, month, day| CivilDate { year, month, day };
    let t = keyword_target(ScheduleInput::Today, d(2024, 2, 28), "today").unwrap();
    assert_eq!(fields(t), (2024, 2, 28, 0, 0, 0));
    let t = keyword_target(ScheduleInput::Tomorrow, d(2024, 2, 28), "tomorrow").unwrap();
    assert_eq!(fields(t), (2024, 2, 29, 0, 0, 0));
    let t = keyword_target(ScheduleInput::Tomorrow, d(2023, 12, 31), "tomorrow").unwrap();
    assert_eq!(fields(t), (2024, 1, 1, 0, 0, 0));
    let e = keyword_target(ScheduleInput::Tomorrow, d(262142, 12, 31), "tomorrow").unwrap_err();
    assert_eq!(e.message(), "schedule target out of range: tomorrow");
}
