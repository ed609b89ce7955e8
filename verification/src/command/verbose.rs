//! The `VERBOSE` command.
use crate::command::{
    owned, str_view, AGICommand, AGIStatusParseError, InnerAGIResponse, StatusParseErrorView,
};
use crate::text::{parse_unsigned, to_chars, unsigned_value};
use vstd::prelude::*;
use vstd::std_specs::convert::TryFromSpecImpl;

verus! {

/// Writes a message to the log of Asterisk. Sent as `VERBOSE "<message>"`.
///
/// The message is sent as it is: a double quote in it is not escaped.
#[derive(Debug)]
pub struct Verbose {
    content: String,
}

impl Verbose {
    /// The command that logs `message`.
    pub fn new(message: String) -> (r: Self)
        ensures
            r.wire_text() == "VERBOSE \""@ + message@ + "\"\n"@,
    {
        Self { content: message }
    }
}

impl AGICommand for Verbose {
    type Response = VerboseResponse;

    closed spec fn wire_text(&self) -> Seq<char> {
        "VERBOSE \""@ + self.content@ + "\"\n"@
    }

    fn to_string(&self) -> (s: String) {
        let mut s = String::new();
        s.append("VERBOSE \"");
        s.append(self.content.as_str());
        s.append("\"\n");
        s
    }
}

/// What a 200 status says in reply to [`Verbose`]: nothing but that it worked.
#[derive(Debug, PartialEq)]
pub struct VerboseResponse {}

impl View for VerboseResponse {
    type V = VerboseResponse;

    open spec fn view(&self) -> VerboseResponse {
        *self
    }
}

impl InnerAGIResponse for VerboseResponse {
    open spec fn command_name() -> Seq<char> {
        "VERBOSE"@
    }

    /// Only result 1 is a reply.
    open spec fn response_of(result: Seq<char>, op_data: Option<Seq<char>>) -> Option<
        VerboseResponse,
    > {
        if unsigned_value(result, 0xffff) == Some(1nat) {
            Some(VerboseResponse {  })
        } else {
            None
        }
    }

    fn specialize(result: &str, op_data: Option<&str>) -> (r: Result<Self, AGIStatusParseError>) {
        let chars = to_chars(result);
        match parse_unsigned(chars.as_slice(), 0xffff) {
            Some(1) => Ok(VerboseResponse {  }),
            _ => Err(
                AGIStatusParseError {
                    result: result.to_owned(),
                    op_data: owned(op_data),
                    response_to_command: "VERBOSE",
                },
            ),
        }
    }
}

impl<'a> TryFrom<(&'a str, Option<&'a str>)> for VerboseResponse {
    type Error = AGIStatusParseError;

    fn try_from(v: (&'a str, Option<&'a str>)) -> (r: Result<Self, Self::Error>)
        ensures
            match r {
                Ok(x) => Self::response_of(v.0@, str_view(v.1)) == Some(x@),
                Err(e) => Self::response_of(v.0@, str_view(v.1)) is None && e@ == (
                StatusParseErrorView {
                    result: v.0@,
                    op_data: str_view(v.1),
                    response_to_command: Self::command_name(),
                }),
            },
    {
        Self::specialize(v.0, v.1)
    }
}

/// What `try_from` returns is stated by its `ensures`, over views.
impl<'a> TryFromSpecImpl<(&'a str, Option<&'a str>)> for VerboseResponse {
    open spec fn obeys_try_from_spec() -> bool {
        false
    }

    open spec fn try_from_spec(v: (&'a str, Option<&'a str>)) -> Result<Self, Self::Error> {
        arbitrary()
    }
}

} // verus!
