use chrono::{Local, TimeZone};
use time_shell::clock::{
    instant_or_parse_error, parse_string_to_datetime_local, time, time_at, TimeVal, DATE_FORMAT,
};
use time_shell::codes::Code;

#[test]
fn a_reading_holds_less_than_a_second_of_microseconds() {
    assert!(TimeVal::new(0, 0).is_some());
    assert!(TimeVal::new(1717252200, 999_999).is_some());
    assert!(TimeVal::new(-1, 500_000).is_some());
    assert!(TimeVal::new(0, 1_000_000).is_none());
    assert!(TimeVal::new(0, -1).is_none());
    assert!(TimeVal::new(0, i64::MAX).is_none());
    assert!(TimeVal::new(0, i64::MIN).is_none());
}

#[test]
fn a_reading_gives_its_parts_back() {
    let reading = TimeVal::new(1717252200, 123_456).unwrap();
    assert_eq!(reading.seconds(), 1717252200);
    assert_eq!(reading.microseconds(), 123_456);
    assert_eq!(reading.nanoseconds(), 123_456_000);
}

#[test]
fn nanoseconds_are_a_thousand_per_microsecond() {
    assert_eq!(TimeVal::new(0, 0).unwrap().nanoseconds(), 0);
    assert_eq!(TimeVal::new(0, 1).unwrap().nanoseconds(), 1_000);
    assert_eq!(TimeVal::new(0, 999_999).unwrap().nanoseconds(), 999_999_000);
}

#[test]
fn a_timestamp_is_a_reading_of_whole_seconds() {
    let reading = TimeVal::from_timestamp(-42);
    assert_eq!(reading.seconds(), -42);
    assert_eq!(reading.microseconds(), 0);
    assert_eq!(reading.nanoseconds(), 0);
    assert_eq!(Some(reading), TimeVal::new(-42, 0));
}

#[test]
fn time_renders_the_year_of_a_reading() {
    let reading = TimeVal::new(1717252200, 0).unwrap();
    assert_eq!(time(&reading, "%Y"), Some("2024".to_string()));
    assert_eq!(time(&reading, "year %Y!"), Some("year 2024!".to_string()));
}

#[test]
fn time_renders_as_the_local_zone_does() {
    let reading = TimeVal::new(1717252200, 250_000).unwrap();
    let expected = Local.timestamp_opt(1717252200, 250_000_000).unwrap();
    assert_eq!(
        time(&reading, "%d/%m/%Y %H:%M:%S%.3f"),
        Some(expected.format("%d/%m/%Y %H:%M:%S%.3f").to_string())
    );
}

#[test]
fn time_with_an_empty_pattern_is_empty() {
    let reading = TimeVal::new(1717252200, 0).unwrap();
    assert_eq!(time(&reading, ""), Some(String::new()));
}

#[test]
fn time_gives_nothing_for_a_pattern_it_cannot_render() {
    let reading = TimeVal::new(1717252200, 0).unwrap();
    assert_eq!(time(&reading, "%Q"), None);
    assert_eq!(time(&reading, "%"), None);
}

#[test]
fn time_gives_nothing_outside_the_calendar() {
    assert_eq!(time(&TimeVal::from_timestamp(i64::MAX), "%Y"), None);
    assert_eq!(time(&TimeVal::from_timestamp(i64::MIN), "%Y"), None);
}

#[test]
fn an_invalid_calendar_date_is_a_parse_error() {
    assert_eq!(
        parse_string_to_datetime_local("31/02/2024 10:00", DATE_FORMAT),
        Err(Code::PARSE_ERROR)
    );
    assert_eq!(parse_string_to_datetime_local("00/01/2024 10:00", DATE_FORMAT), Err(5));
    assert_eq!(parse_string_to_datetime_local("29/02/2023 10:00", DATE_FORMAT), Err(5));
}

#[test]
fn input_off_the_pattern_is_a_parse_error() {
    assert_eq!(DATE_FORMAT, "%d/%m/%Y %H:%M");
    assert_eq!(parse_string_to_datetime_local("", DATE_FORMAT), Err(Code::PARSE_ERROR));
    assert_eq!(parse_string_to_datetime_local("noon", DATE_FORMAT), Err(Code::PARSE_ERROR));
    assert_eq!(
        parse_string_to_datetime_local("01/06/2024", DATE_FORMAT),
        Err(Code::PARSE_ERROR)
    );
    assert_eq!(
        parse_string_to_datetime_local("01/06/2024 14:60", DATE_FORMAT),
        Err(Code::PARSE_ERROR)
    );
    assert_eq!(
        parse_string_to_datetime_local("01/06/2024 14:30", "%Q"),
        Err(Code::PARSE_ERROR)
    );
}

#[test]
fn a_date_parses_to_its_local_timestamp() {
    let parsed = parse_string_to_datetime_local("01/06/2024 14:30", DATE_FORMAT);
    match Local.with_ymd_and_hms(2024, 6, 1, 14, 30, 0).single() {
        Some(moment) => assert_eq!(parsed, Ok(moment.timestamp())),
        None => assert_eq!(parsed, Err(Code::PARSE_ERROR)),
    }
}

#[test]
fn a_leap_day_parses() {
    let parsed = parse_string_to_datetime_local("29/02/2024 00:00", DATE_FORMAT);
    match Local.with_ymd_and_hms(2024, 2, 29, 0, 0, 0).single() {
        Some(moment) => assert_eq!(parsed, Ok(moment.timestamp())),
        None => assert_eq!(parsed, Err(Code::PARSE_ERROR)),
    }
}

#[test]
fn a_parsed_date_differs_from_utc_by_less_than_a_day() {
    if let Ok(stamp) = parse_string_to_datetime_local("15/01/2025 12:00", DATE_FORMAT) {
        let as_utc: i64 = 1736942400;
        assert!(as_utc - 86_400 < stamp && stamp < as_utc + 86_400);
        assert_ne!(stamp, 0);
    }
}

#[test]
fn rendering_then_reading_stays_within_the_minute() {
    let instants: Vec<i64> = vec![1717252200, 1717252259, 1736942401, 86_400 * 365, 1_000_000_007];
    for instant in instants {
        let reading = TimeVal::new(instant, 0).unwrap();
        let text = time(&reading, DATE_FORMAT).unwrap();
        if let Ok(back) = parse_string_to_datetime_local(&text, DATE_FORMAT) {
            assert!(back <= instant && instant - back < 60, "{} became {}", instant, back);
        }
    }
}

#[test]
fn rendering_then_reading_a_fixed_instant_succeeds_where_the_zone_is_plain() {
    let instant: i64 = 1717252200;
    let text = time(&TimeVal::from_timestamp(instant), DATE_FORMAT).unwrap();
    let expected = Local.timestamp_opt(instant, 0).unwrap();
    assert_eq!(text, expected.format("%d/%m/%Y %H:%M").to_string());
    let naive = expected.naive_local();
    if let Some(unique) = Local.from_local_datetime(&naive).single() {
        assert_eq!(parse_string_to_datetime_local(&text, DATE_FORMAT), Ok(unique.timestamp()));
        assert_eq!(unique.timestamp(), instant);
    }
}

#[test]
fn no_instant_is_a_parse_error() {
    assert_eq!(instant_or_parse_error(Some(1717252200)), Ok(1717252200));
    assert_eq!(instant_or_parse_error(Some(-1)), Ok(-1));
    assert_eq!(instant_or_parse_error(None), Err(Code::PARSE_ERROR));
}

#[test]
fn time_at_utc_renders_the_exact_date() {
    let reading = TimeVal::new(1717252200, 0).unwrap();
    assert_eq!(time_at(&reading, 0, DATE_FORMAT), Some("01/06/2024 14:30".to_string()));
    assert_eq!(time_at(&reading, 0, "%Y-%m-%d %H:%M:%S"), Some("2024-06-01 14:30:00".to_string()));
    assert_eq!(time_at(&TimeVal::from_timestamp(0), 0, "%s %Y"), Some("0 1970".to_string()));
}

#[test]
fn time_at_an_offset_moves_the_wall_clock() {
    let reading = TimeVal::new(1717252200, 0).unwrap();
    assert_eq!(time_at(&reading, 3600, DATE_FORMAT), Some("01/06/2024 15:30".to_string()));
    assert_eq!(time_at(&reading, -5 * 3600, "%H:%M %z"), Some("09:30 -0500".to_string()));
    assert_eq!(time_at(&reading, 34200, "%d %H:%M %:z"), Some("02 00:00 +09:30".to_string()));
}

#[test]
fn time_at_renders_the_part_below_the_second() {
    let reading = TimeVal::new(1717252200, 250_000).unwrap();
    assert_eq!(time_at(&reading, 0, "%S%.3f"), Some("00.250".to_string()));
    assert_eq!(time_at(&reading, 0, "%f"), Some("250000000".to_string()));
}

#[test]
fn time_at_gives_nothing_for_an_offset_of_a_day_or_more() {
    let reading = TimeVal::new(1717252200, 0).unwrap();
    assert_eq!(time_at(&reading, 86_400, "%Y"), None);
    assert_eq!(time_at(&reading, -86_400, "%Y"), None);
    assert_eq!(time_at(&reading, 86_399, "%Y"), Some("2024".to_string()));
    assert_eq!(time_at(&reading, i32::MIN, "%Y"), None);
}

#[test]
fn time_at_gives_nothing_for_a_pattern_it_cannot_render() {
    let reading = TimeVal::new(1717252200, 0).unwrap();
    assert_eq!(time_at(&reading, 0, "%Q"), None);
    assert_eq!(time_at(&TimeVal::from_timestamp(i64::MAX), 0, "%Y"), None);
}

#[test]
fn time_renders_the_local_offset() {
    let reading = TimeVal::new(1717252200, 0).unwrap();
    let expected = Local.timestamp_opt(1717252200, 0).unwrap();
    assert_eq!(
        time(&reading, "%z %:z %Z %d/%m/%Y %H:%M:%S"),
        Some(expected.format("%z %:z %Z %d/%m/%Y %H:%M:%S").to_string())
    );
    let winter = TimeVal::new(1736942400, 0).unwrap();
    let expected = Local.timestamp_opt(1736942400, 0).unwrap();
    assert_eq!(time(&winter, "%z %c"), Some(expected.format("%z %c").to_string()));
}

#[test]
fn time_is_time_at_the_local_offset() {
    let reading = TimeVal::new(1717252200, 0).unwrap();
    let east = Local.timestamp_opt(1717252200, 0).unwrap().offset().local_minus_utc();
    assert!(-86_400 < east && east < 86_400);
    assert_eq!(time(&reading, "%c %z"), time_at(&reading, east, "%c %z"));
}
