//! Rendering commands and reading their replies.
use blazing_agi::command::answer::{Answer, AnswerResponse};
use blazing_agi::command::get_full_variable::{GetFullVariable, GetFullVariableResponse};
use blazing_agi::command::raw_command::{RawCommand, RawCommandResponse};
use blazing_agi::command::set_variable::{SetVariable, SetVariableResponse};
use blazing_agi::command::verbose::{Verbose, VerboseResponse};
use blazing_agi::command::{AGICommand, AGIStatusParseError};

#[test]
fn run() {
    let answer = Answer::new();
    assert_eq!(answer.to_string(), "ANSWER\n");
}

#[test]
fn answer_parse_success() {
    assert_eq!(
        AnswerResponse::try_from(("0", None)).unwrap(),
        AnswerResponse::Success
    );
}

#[test]
fn parse_failure() {
    assert_eq!(
        AnswerResponse::try_from(("-1", Some("other stuff"))).unwrap(),
        AnswerResponse::Failure
    );
}

#[test]
fn answer_parse_incorrect_result() {
    assert_eq!(
        AnswerResponse::try_from(("1", None)),
        Err(AGIStatusParseError {
            result: "1".to_owned(),
            op_data: None,
            response_to_command: "ANSWER"
        })
    );
}

#[test]
fn run_empty_channel() {
    let cmd = GetFullVariable::new("TEST_VAR_NAME".to_owned());
    assert_eq!(cmd.to_string(), "GET FULL VARIABLE \"TEST_VAR_NAME\"\n");
}

#[test]
fn run_non_empty_channel() {
    let cmd =
        GetFullVariable::new("TEST_VAR_NAME".to_owned()).with_channel("The-Channel".to_owned());
    assert_eq!(
        cmd.to_string(),
        "GET FULL VARIABLE \"TEST_VAR_NAME\" \"The-Channel\"\n"
    );
}

#[test]
fn get_full_variable_parse_success() {
    assert_eq!(
        GetFullVariableResponse::try_from(("1", Some("TheResult"))).unwrap(),
        GetFullVariableResponse {
            value: Some("TheResult".to_owned())
        }
    );
}

#[test]
fn parse_variable_does_not_exist() {
    assert_eq!(
        GetFullVariableResponse::try_from(("0", None)).unwrap(),
        GetFullVariableResponse { value: None }
    );
}

#[test]
fn get_full_variable_parse_incorrect_result() {
    assert_eq!(
        GetFullVariableResponse::try_from(("-1", Some("irrelevant stuff"))),
        Err(AGIStatusParseError {
            result: "-1".to_owned(),
            op_data: Some("irrelevant stuff".to_owned()),
            response_to_command: "GET FULL VARIABLE"
        })
    );
}

#[test]
fn run_command() {
    let cmd = RawCommand::new("SAY DIGITS 1425 07".to_owned());
    assert_eq!(cmd.to_string(), "SAY DIGITS 1425 07\n");
}

#[test]
fn parse_raw() {
    assert_eq!(
        RawCommandResponse::try_from(("0", Some("(stuff)"))).unwrap(),
        RawCommandResponse {
            result: "0".to_owned(),
            op_data: Some("(stuff)".to_owned())
        }
    );
}

#[test]
fn run_normal_set() {
    let cmd = SetVariable::new("TEST_VAR_NAME".to_owned(), "the-value".to_owned());
    assert_eq!(
        cmd.to_string(),
        "SET VARIABLE \"TEST_VAR_NAME\" \"the-value\"\n"
    );
}

#[test]
fn set_variable_parse_success() {
    assert_eq!(
        SetVariableResponse::try_from(("1", None)).unwrap(),
        SetVariableResponse {}
    );
}

#[test]
fn set_variable_parse_incorrect_result() {
    assert_eq!(
        SetVariableResponse::try_from(("0", Some("other stuff"))),
        Err(AGIStatusParseError {
            result: "0".to_owned(),
            op_data: Some("other stuff".to_owned()),
            response_to_command: "SET VARIABLE"
        })
    );
}

#[test]
fn run_empty_message() {
    let cmd = Verbose::new("".to_owned());
    assert_eq!(cmd.to_string(), "VERBOSE \"\"\n");
}

#[test]
fn run_non_empty_message() {
    let cmd = Verbose::new("I am the debug output in asterisk".to_owned());
    assert_eq!(
        cmd.to_string(),
        "VERBOSE \"I am the debug output in asterisk\"\n"
    );
}

#[test]
fn verbose_parse_success() {
    assert_eq!(
        VerboseResponse::try_from(("1", None)).unwrap(),
        VerboseResponse {}
    );
}

#[test]
fn verbose_parse_incorrect_result() {
    assert_eq!(
        VerboseResponse::try_from(("0", Some("other stuff"))),
        Err(AGIStatusParseError {
            result: "0".to_owned(),
            op_data: Some("other stuff".to_owned()),
            response_to_command: "VERBOSE"
        })
    );
}

