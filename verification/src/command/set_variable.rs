//! The `SET VARIABLE` command.
use crate::command::{
    owned, str_view, AGICommand, AGIStatusParseError, InnerAGIResponse, StatusParseErrorView,
};
use crate::text::{parse_unsigned, to_chars, unsigned_value};
use vstd::prelude::*;
use vstd::std_specs::convert::TryFromSpecImpl;

verus! {

/// Sets a channel variable. Sent as `SET VARIABLE "<name>" "<value>"`.
///
/// Name and value are sent as they are: a double quote in them is not escaped.
#[derive(Debug)]
pub struct SetVariable {
    var_name: String,
    value: String,
}

impl SetVariable {
    /// The command that sets `var_name` to `value`.
    pub fn new(var_name: String, value: String) -> (r: Self)
        ensures
            r.wire_text() == "SET VARIABLE \""@ + var_name@ + "\" \""@ + value@ + "\"\n"@,
    {
        Self { var_name, value }
    }
}

impl AGICommand for SetVariable {
    type Response = SetVariableResponse;

    closed spec fn wire_text(&self) -> Seq<char> {
        "SET VARIABLE \""@ + self.var_name@ + "\" \""@ + self.value@ + "\"\n"@
    }

    fn to_string(&self) -> (s: String) {
        let mut s = String::new();
        s.append("SET VARIABLE \"");
        s.append(self.var_name.as_str());
        s.append("\" \"");
        s.append(self.value.as_str());
        s.append("\"\n");
        s
    }
}

/// What a 200 status says in reply to [`SetVariable`]: nothing but that it worked.
#[derive(Debug, PartialEq)]
pub struct SetVariableResponse {}

impl View for SetVariableResponse {
    type V = SetVariableResponse;

    open spec fn view(&self) -> SetVariableResponse {
        *self
    }
}

impl InnerAGIResponse for SetVariableResponse {
    open spec fn command_name() -> Seq<char> {
        "SET VARIABLE"@
    }

    /// Only result 1 is a reply.
    open spec fn response_of(result: Seq<char>, op_data: Option<Seq<char>>) -> Option<
        SetVariableResponse,
    > {
        if unsigned_value(result, 0xffff) == Some(1nat) {
            Some(SetVariableResponse {  })
        } else {
            None
        }
    }

    fn specialize(result: &str, op_data: Option<&str>) -> (r: Result<Self, AGIStatusParseError>) {
        let chars = to_chars(result);
        match parse_unsigned(chars.as_slice(), 0xffff) {
            Some(1) => Ok(SetVariableResponse {  }),
            _ => Err(
                AGIStatusParseError {
                    result: result.to_owned(),
                    op_data: owned(op_data),
                    response_to_command: "SET VARIABLE",
                },
            ),
        }
    }
}

impl<'a> TryFrom<(&'a str, Option<&'a str>)> for SetVariableResponse {
    type Error = AGIStatusParseError;

    fn try_from(v: (&'a str, Option<&'a str>)) -> (r: Result<Self, Self::Error>)
        ensures
            match r {
                Ok(x) => Self::response_of(v.0@, str_view(v.1)) == Some(x@),
                Err(e) => Self::response_of(v.0@, str_view(v.1)) is None && e@ == (
                StatusParseErrorView {
                    result: v.0@,
                    op_data: str_view(v.1),
                    response_to_command: Self::command_name(),
                }),
            },
    {
        Self::specialize(v.0, v.1)
    }
}

/// What `try_from` returns is stated by its `ensures`, over views.
impl<'a> TryFromSpecImpl<(&'a str, Option<&'a str>)> for SetVariableResponse {
    open spec fn obeys_try_from_spec() -> bool {
        false
    }

    open spec fn try_from_spec(v: (&'a str, Option<&'a str>)) -> Result<Self, Self::Error> {
        arbitrary()
    }
}

} // verus!
