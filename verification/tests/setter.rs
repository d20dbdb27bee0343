use time_shell::clock::TimeVal;
use time_shell::codes::Code;
use time_shell::setter::{exit_code_after_set, first_step, parse_args, Args, SetterStep};

fn setter_line(words: &[&str]) -> Vec<String> {
    words.iter().map(|w| w.to_string()).collect()
}

#[test]
fn parse_args_takes_one_timestamp() {
    assert_eq!(parse_args(&setter_line(&["set_time", "1717252200"])), Ok(Args { time: 1717252200 }));
    assert_eq!(parse_args(&setter_line(&["set_time", "0"])), Ok(Args { time: 0 }));
    assert_eq!(parse_args(&setter_line(&["set_time", "-86400"])), Ok(Args { time: -86400 }));
    assert_eq!(parse_args(&setter_line(&["set_time", "+12"])), Ok(Args { time: 12 }));
}

#[test]
fn parse_args_refuses_no_argument() {
    assert_eq!(parse_args(&setter_line(&["set_time"])), Err(Code::INVALID_ARGUMENT));
    assert_eq!(parse_args(&setter_line(&[])), Err(1));
}

#[test]
fn parse_args_refuses_two_or_more_arguments() {
    assert_eq!(parse_args(&setter_line(&["set_time", "1", "2"])), Err(Code::INVALID_ARGUMENT));
    assert_eq!(parse_args(&setter_line(&["set_time", "1", "2", "3"])), Err(Code::INVALID_ARGUMENT));
    assert_eq!(parse_args(&setter_line(&["set_time", "1717252200", ""])), Err(Code::INVALID_ARGUMENT));
}

#[test]
fn parse_args_refuses_what_is_no_integer() {
    assert_eq!(parse_args(&setter_line(&["set_time", "abc"])), Err(Code::INVALID_ARGUMENT));
    assert_eq!(parse_args(&setter_line(&["set_time", ""])), Err(Code::INVALID_ARGUMENT));
    assert_eq!(parse_args(&setter_line(&["set_time", "12.5"])), Err(Code::INVALID_ARGUMENT));
    assert_eq!(parse_args(&setter_line(&["set_time", "12 "])), Err(Code::INVALID_ARGUMENT));
    assert_eq!(
        parse_args(&setter_line(&["set_time", "9223372036854775808"])),
        Err(Code::INVALID_ARGUMENT)
    );
}

#[test]
fn first_step_sets_the_clock_to_whole_seconds() {
    let step = first_step(&setter_line(&["set_time", "1717252200"]));
    assert_eq!(step, SetterStep::SetClock { reading: TimeVal::from_timestamp(1717252200) });
    match step {
        SetterStep::SetClock { reading } => {
            assert_eq!(reading.seconds(), 1717252200);
            assert_eq!(reading.microseconds(), 0);
        }
        SetterStep::Exit { .. } => panic!("a valid timestamp was refused"),
    }
}

#[test]
fn first_step_leaves_without_touching_the_clock() {
    let refused = SetterStep::Exit { code: Code::INVALID_ARGUMENT };
    assert_eq!(first_step(&setter_line(&["set_time"])), refused);
    assert_eq!(first_step(&setter_line(&["set_time", "1", "2"])), refused);
    assert_eq!(first_step(&setter_line(&["set_time", "abc"])), refused);
    assert_eq!(first_step(&setter_line(&["set_time", ""])), refused);
    assert_eq!(first_step(&setter_line(&["set_time", "12.5"])), refused);
}

#[test]
fn exit_code_after_set_tells_success_from_failure() {
    assert_eq!(exit_code_after_set(0), Code::SUCESS);
    assert_eq!(exit_code_after_set(-1), Code::FAILED_SET_TIME);
    assert_eq!(exit_code_after_set(1), 4);
}
