//! The `ANSWER` command.
use crate::command::{
    owned, str_view, AGICommand, AGIStatusParseError, InnerAGIResponse, StatusParseErrorView,
};
use crate::text::{parse_i32, signed_value, to_chars};
use vstd::prelude::*;
use vstd::std_specs::convert::TryFromSpecImpl;

verus! {

/// Answers the current channel. Sent as `ANSWER`.
#[derive(Debug)]
pub struct Answer {}

impl Answer {
    /// The `ANSWER` command.
    pub fn new() -> (r: Self)
        ensures
            r.wire_text() == "ANSWER\n"@,
    {
        Self {  }
    }
}

impl AGICommand for Answer {
    type Response = AnswerResponse;

    open spec fn wire_text(&self) -> Seq<char> {
        "ANSWER\n"@
    }

    fn to_string(&self) -> (s: String) {
        "ANSWER\n".to_owned()
    }
}

/// What a 200 status says in reply to [`Answer`].
#[derive(Debug, PartialEq)]
pub enum AnswerResponse {
    /// The channel was answered.
    Success,
    /// Asterisk could not answer the channel.
    Failure,
}

impl View for AnswerResponse {
    type V = AnswerResponse;

    open spec fn view(&self) -> AnswerResponse {
        *self
    }
}

/// The result of a status, read as a signed decimal number.
pub open spec fn result_number(result: Seq<char>) -> Option<int> {
    signed_value(result, i32::MIN as int, i32::MAX as int)
}

impl InnerAGIResponse for AnswerResponse {
    open spec fn command_name() -> Seq<char> {
        "ANSWER"@
    }

    /// Result 0 is success, result -1 is failure; nothing else is a reply.
    open spec fn response_of(result: Seq<char>, op_data: Option<Seq<char>>) -> Option<
        AnswerResponse,
    > {
        if result_number(result) == Some(0int) {
            Some(AnswerResponse::Success)
        } else if result_number(result) == Some(-1int) {
            Some(AnswerResponse::Failure)
        } else {
            None
        }
    }

    fn specialize(result: &str, op_data: Option<&str>) -> (r: Result<Self, AGIStatusParseError>) {
        let chars = to_chars(result);
        match parse_i32(chars.as_slice()) {
            Some(0) => Ok(AnswerResponse::Success),
            Some(-1) => Ok(AnswerResponse::Failure),
            _ => Err(
                AGIStatusParseError {
                    result: result.to_owned(),
                    op_data: owned(op_data),
                    response_to_command: "ANSWER",
                },
            ),
        }
    }
}

impl<'a> TryFrom<(&'a str, Option<&'a str>)> for AnswerResponse {
    type Error = AGIStatusParseError;

    fn try_from(v: (&'a str, Option<&'a str>)) -> (r: Result<Self, Self::Error>)
        ensures
            match r {
                Ok(x) => Self::response_of(v.0@, str_view(v.1)) == Some(x@),
                Err(e) => Self::response_of(v.0@, str_view(v.1)) is None && e@ == (
                StatusParseErrorView {
                    result: v.0@,
                    op_data: str_view(v.1),
                    response_to_command: Self::command_name(),
                }),
            },
    {
        Self::specialize(v.0, v.1)
    }
}

/// What `try_from` returns is stated by its `ensures`, over views.
impl<'a> TryFromSpecImpl<(&'a str, Option<&'a str>)> for AnswerResponse {
    open spec fn obeys_try_from_spec() -> bool {
        false
    }

    open spec fn try_from_spec(v: (&'a str, Option<&'a str>)) -> Result<Self, Self::Error> {
        arbitrary()
    }
}

} // verus!
