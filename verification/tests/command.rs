use chrono::{Local, TimeZone};
use time_shell::codes::Code;
use time_shell::clock::{time_at, TimeVal};
use time_shell::command::{
    handle_commands, help, parse_command, set_time, set_time_action, Action, Command,
    DEFAULT_TIME_FORMAT, HELP_TEXT, INVALID_FORMAT_TEXT, NOT_FOUND_TEXT, SET_TIME_PATH,
};

fn is_spawn(action: &Action) -> bool {
    matches!(action, Action::Spawn { .. })
}

#[test]
fn parse_command_knows_the_four_commands() {
    assert_eq!(parse_command("help"), Command::Help);
    assert_eq!(parse_command("exit"), Command::Exit);
    assert_eq!(parse_command("time"), Command::Time { format: "%d/%m/%Y %H:%M".to_string() });
    assert_eq!(parse_command("settime"), Command::SetTime { date: "".to_string() });
}

#[test]
fn parse_command_joins_the_arguments_with_single_spaces() {
    assert_eq!(
        parse_command("settime 01/06/2024 14:30"),
        Command::SetTime { date: "01/06/2024 14:30".to_string() }
    );
    assert_eq!(
        parse_command("  settime \t 01/06/2024    14:30  "),
        Command::SetTime { date: "01/06/2024 14:30".to_string() }
    );
    assert_eq!(
        parse_command("time %d/%m/%Y   %H:%M"),
        Command::Time { format: "%d/%m/%Y %H:%M".to_string() }
    );
}

#[test]
fn parse_command_passes_over_blank_lines() {
    assert_eq!(parse_command(""), Command::Blank);
    assert_eq!(parse_command("   "), Command::Blank);
    assert_eq!(parse_command("\t \t"), Command::Blank);
}

#[test]
fn parse_command_does_not_know_other_words() {
    assert_eq!(parse_command("frobnicate"), Command::Unknown);
    assert_eq!(parse_command("Help"), Command::Unknown);
    assert_eq!(parse_command("settimes 01/06/2024 14:30"), Command::Unknown);
    assert_eq!(parse_command("set time"), Command::Unknown);
    assert_eq!(parse_command("help me"), Command::Help);
}

#[test]
fn help_prints_the_summary() {
    let expected = "\ttime [format]   -- print the current time, use strftime format\n\
                    \tsettime [time]  -- set the current time, use DD/MM/YYYY HH:mm format\n\
                    \thelp            -- print this message\n\
                    \texit            -- exit the program";
    assert_eq!(HELP_TEXT, expected);
    assert_eq!(help(), Action::Print { text: expected.to_string() });
    assert_eq!(handle_commands("help"), Action::Print { text: expected.to_string() });
}

#[test]
fn help_never_starts_the_helper() {
    assert!(!is_spawn(&handle_commands("help")));
    assert!(!is_spawn(&handle_commands("help 01/06/2024 14:30")));
    assert!(!is_spawn(&handle_commands("  help  ")));
}

#[test]
fn unknown_commands_never_start_the_helper() {
    let not_found = Action::Print { text: "\tcommand not found, try help".to_string() };
    assert_eq!(NOT_FOUND_TEXT, "\tcommand not found, try help");
    assert_eq!(handle_commands("frobnicate"), not_found);
    assert_eq!(handle_commands("set_time 01/06/2024 14:30"), not_found);
    assert_eq!(handle_commands("/usr/bin/set_time 0"), not_found);
    assert_eq!(handle_commands("SETTIME 01/06/2024 14:30"), not_found);
}

#[test]
fn blank_lines_are_ignored() {
    assert_eq!(handle_commands(""), Action::Nothing);
    assert_eq!(handle_commands("    "), Action::Nothing);
}

#[test]
fn exit_ends_with_success() {
    assert_eq!(handle_commands("exit"), Action::Exit { code: Code::SUCESS });
    assert_eq!(handle_commands("exit now"), Action::Exit { code: 0 });
}

#[test]
fn time_asks_for_the_time_in_the_given_pattern() {
    assert_eq!(handle_commands("time %Y"), Action::ShowTime { format: "%Y".to_string() });
    assert_eq!(handle_commands("time %H:%M"), Action::ShowTime { format: "%H:%M".to_string() });
    assert_eq!(
        handle_commands("time %d/%m/%Y %H:%M"),
        Action::ShowTime { format: "%d/%m/%Y %H:%M".to_string() }
    );
}

#[test]
fn settime_with_an_invalid_calendar_date_starts_nothing() {
    let refused = Action::Print { text: "31/02/2024 10:00 : invalid format".to_string() };
    assert_eq!(handle_commands("settime 31/02/2024 10:00"), refused);
    assert_eq!(set_time("31/02/2024 10:00"), refused);
}

#[test]
fn settime_with_malformed_input_starts_nothing() {
    assert_eq!(INVALID_FORMAT_TEXT, " : invalid format");
    assert_eq!(set_time(""), Action::Print { text: " : invalid format".to_string() });
    assert_eq!(set_time("tomorrow"), Action::Print { text: "tomorrow : invalid format".to_string() });
    assert_eq!(
        set_time("2024-06-01 14:30"),
        Action::Print { text: "2024-06-01 14:30 : invalid format".to_string() }
    );
    assert_eq!(
        set_time("01/06/2024 24:00"),
        Action::Print { text: "01/06/2024 24:00 : invalid format".to_string() }
    );
    assert_eq!(
        set_time("01/06/2024 14:30 extra"),
        Action::Print { text: "01/06/2024 14:30 extra : invalid format".to_string() }
    );
    assert_eq!(
        handle_commands("settime"),
        Action::Print { text: " : invalid format".to_string() }
    );
}

#[test]
fn settime_hands_the_helper_the_exact_timestamp() {
    let action = handle_commands("settime 01/06/2024 14:30");
    match Local.with_ymd_and_hms(2024, 6, 1, 14, 30, 0).single() {
        Some(moment) => {
            assert_eq!(SET_TIME_PATH, "/usr/bin/set_time");
            assert_eq!(
                action,
                Action::Spawn {
                    path: "/usr/bin/set_time".to_string(),
                    argument: moment.timestamp().to_string(),
                }
            );
        }
        None => {
            assert_eq!(
                action,
                Action::Print { text: "01/06/2024 14:30 : invalid format".to_string() }
            );
        }
    }
}

#[test]
fn settime_timestamp_is_within_a_day_of_the_date_read_as_utc() {
    if let Action::Spawn { argument, .. } = set_time("01/06/2024 14:30") {
        let stamp: i64 = argument.parse().unwrap();
        let as_utc: i64 = 1717252200;
        assert!(as_utc - 86_400 < stamp && stamp < as_utc + 86_400);
    }
}

#[test]
fn set_time_action_follows_the_parse() {
    assert_eq!(
        set_time_action("01/06/2024 14:30", Ok(1717252200)),
        Action::Spawn { path: "/usr/bin/set_time".to_string(), argument: "1717252200".to_string() }
    );
    assert_eq!(
        set_time_action("whatever", Ok(-5)),
        Action::Spawn { path: "/usr/bin/set_time".to_string(), argument: "-5".to_string() }
    );
    assert_eq!(
        set_time_action("31/02/2024 10:00", Err(Code::PARSE_ERROR)),
        Action::Print { text: "31/02/2024 10:00 : invalid format".to_string() }
    );
}

#[test]
fn time_without_a_pattern_uses_the_default_pattern() {
    assert_eq!(DEFAULT_TIME_FORMAT, "%d/%m/%Y %H:%M");
    let expected = Action::ShowTime { format: "%d/%m/%Y %H:%M".to_string() };
    assert_eq!(handle_commands("time"), expected);
    assert_eq!(handle_commands("  time  "), expected);
    assert_eq!(handle_commands("time\t"), expected);
    assert!(!is_spawn(&handle_commands("time")));
}

#[test]
fn the_default_pattern_prints_a_line_that_is_not_empty() {
    if let Action::ShowTime { format } = handle_commands("time") {
        let reading = TimeVal::new(1717252200, 0).unwrap();
        assert_eq!(time_at(&reading, 0, &format), Some("01/06/2024 14:30".to_string()));
    } else {
        panic!("`time` did not ask for the time");
    }
}

#[test]
fn what_the_default_pattern_prints_can_be_typed_back() {
    if let Action::ShowTime { format } = handle_commands("time") {
        let reading = TimeVal::new(1717252200, 0).unwrap();
        let printed = time_at(&reading, 0, &format).unwrap();
        assert_eq!(
            parse_command(&format!("settime {}", printed)),
            Command::SetTime { date: "01/06/2024 14:30".to_string() }
        );
        assert!(!matches!(set_time(&printed), Action::Print { .. }) || {
            Local.with_ymd_and_hms(2024, 6, 1, 14, 30, 0).single().is_none()
        });
    }
}
