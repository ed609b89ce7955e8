//! The escape hatch: a command given as the literal line to send.
use crate::agiparse::text_view;
use crate::command::{
    owned, str_view, AGICommand, AGIStatusParseError, InnerAGIResponse, StatusParseErrorView,
};
use vstd::prelude::*;
use vstd::std_specs::convert::TryFromSpecImpl;

verus! {

/// A command that is sent as it is written, followed by a newline.
///
/// Nothing is quoted or escaped. Use it only for a command that has no type
/// of its own.
#[derive(Debug)]
pub struct RawCommand {
    command: String,
}

impl RawCommand {
    /// The command that sends `command` and a newline.
    pub fn new(command: String) -> (r: Self)
        ensures
            r.wire_text() == command@.push('\n'),
    {
        Self { command }
    }
}

impl AGICommand for RawCommand {
    type Response = RawCommandResponse;

    closed spec fn wire_text(&self) -> Seq<char> {
        self.command@.push('\n')
    }

    fn to_string(&self) -> (s: String) {
        let mut s = self.command.clone();
        s.push('\n');
        s
    }
}

/// What a 200 status says in reply to a [`RawCommand`]: its result and its
/// operational data, as they came.
#[derive(Debug, PartialEq)]
pub struct RawCommandResponse {
    pub result: String,
    pub op_data: Option<String>,
}

impl View for RawCommandResponse {
    type V = (Seq<char>, Option<Seq<char>>);

    open spec fn view(&self) -> (Seq<char>, Option<Seq<char>>) {
        (self.result@, text_view(self.op_data))
    }
}

impl InnerAGIResponse for RawCommandResponse {
    open spec fn command_name() -> Seq<char> {
        "RAW"@
    }

    /// Every result is a reply.
    open spec fn response_of(result: Seq<char>, op_data: Option<Seq<char>>) -> Option<
        (Seq<char>, Option<Seq<char>>),
    > {
        Some((result, op_data))
    }

    fn specialize(result: &str, op_data: Option<&str>) -> (r: Result<Self, AGIStatusParseError>) {
        Ok(RawCommandResponse { result: result.to_owned(), op_data: owned(op_data) })
    }
}

impl<'a> TryFrom<(&'a str, Option<&'a str>)> for RawCommandResponse {
    type Error = AGIStatusParseError;

    fn try_from(v: (&'a str, Option<&'a str>)) -> (r: Result<Self, Self::Error>)
        ensures
            match r {
                Ok(x) => Self::response_of(v.0@, str_view(v.1)) == Some(x@),
                Err(e) => Self::response_of(v.0@, str_view(v.1)) is None && e@ == (
                StatusParseErrorView {
                    result: v.0@,
                    op_data: str_view(v.1),
                    response_to_command: Self::command_name(),
                }),
            },
    {
        Self::specialize(v.0, v.1)
    }
}

/// What `try_from` returns is stated by its `ensures`, over views.
impl<'a> TryFromSpecImpl<(&'a str, Option<&'a str>)> for RawCommandResponse {
    open spec fn obeys_try_from_spec() -> bool {
        false
    }

    open spec fn try_from_spec(v: (&'a str, Option<&'a str>)) -> Result<Self, Self::Error> {
        arbitrary()
    }
}

} // verus!
