//! AGI commands and the typed responses that Asterisk gives to them.
//!
//! A command is a value that renders to the line Asterisk expects. Its
//! response type says how the result and the operational data of a 200
//! status are to be read as the reply to that command.
use crate::agiparse::text_view;
use vstd::prelude::*;
use vstd::std_specs::convert::FromSpecImpl;

pub mod answer;
pub mod get_full_variable;
pub mod raw_command;
pub mod set_variable;
pub mod verbose;

pub use answer::Answer;
pub use get_full_variable::GetFullVariable;
pub use raw_command::RawCommand;
pub use set_variable::SetVariable;
pub use verbose::Verbose;

verus! {

/// The view of an optional borrowed text.
pub open spec fn str_view(o: Option<&str>) -> Option<Seq<char>> {
    match o {
        Some(s) => Some(s@),
        None => None,
    }
}

/// An owned copy of an optional borrowed text.
pub fn owned(o: Option<&str>) -> (r: Option<String>)
    ensures
        text_view(r) == str_view(o),
{
    match o {
        Some(s) => Some(s.to_owned()),
        None => None,
    }
}

/// A 200 status whose result or operational data is not what the command
/// that was sent allows.
#[derive(Debug, PartialEq)]
pub struct AGIStatusParseError {
    pub result: String,
    pub op_data: Option<String>,
    pub response_to_command: &'static str,
}

/// The mathematical value of an [`AGIStatusParseError`].
pub struct StatusParseErrorView {
    pub result: Seq<char>,
    pub op_data: Option<Seq<char>>,
    pub response_to_command: Seq<char>,
}

impl View for AGIStatusParseError {
    type V = StatusParseErrorView;

    open spec fn view(&self) -> StatusParseErrorView {
        StatusParseErrorView {
            result: self.result@,
            op_data: text_view(self.op_data),
            response_to_command: self.response_to_command@,
        }
    }
}

/// How std's `Debug` writes an optional text: `None`, or `Some(..)` around
/// the text in double quotes with its special characters escaped.
pub uninterp spec fn debug_text(o: Option<Seq<char>>) -> Seq<char>;

/// Formats `o` with `{:?}`, that is with std's `Debug` for `Option<String>`.
/// The result is named, not spelled out: it depends on `o` alone.
#[verifier::external_body]
fn debug_format(o: &Option<String>) -> (s: String)
    ensures
        s@ == debug_text(text_view(*o)),
{
    format!("{:?}", o)
}

/// What an [`AGIStatusParseError`] says.
pub open spec fn status_parse_error_text(e: StatusParseErrorView) -> Seq<char> {
    "Unable to parse result "@ + e.result + ", data "@ + debug_text(e.op_data) + " as "@
        + e.response_to_command + " Status."@
}

impl AGIStatusParseError {
    /// What the error says, given how its operational data is written.
    pub fn to_string_with(&self, data: &str) -> (s: String)
        ensures
            s@ == "Unable to parse result "@ + self@.result + ", data "@ + data@ + " as "@
                + self@.response_to_command + " Status."@,
    {
        let mut s = String::new();
        s.append("Unable to parse result ");
        s.append(self.result.as_str());
        s.append(", data ");
        s.append(data);
        s.append(" as ");
        s.append(self.response_to_command);
        s.append(" Status.");
        s
    }

    /// What the error says.
    pub fn to_string(&self) -> (s: String)
        ensures
            s@ == status_parse_error_text(self@),
    {
        let d = debug_format(&self.op_data);
        self.to_string_with(d.as_str())
    }
}

/// The reply to a command of a known kind: the typed response of a 200
/// status, or one of the other three statuses.
#[derive(Debug, PartialEq)]
pub enum AGIResponse<H> where H: InnerAGIResponse + Sized {
    /// 200
    Okay(H),
    /// 510
    Invalid,
    /// 511
    DeadChannel,
    /// 520
    EndUsage,
}

/// The status code of a response.
pub open spec fn response_code<H: InnerAGIResponse>(r: AGIResponse<H>) -> u16 {
    match r {
        AGIResponse::Okay(_) => 200,
        AGIResponse::Invalid => 510,
        AGIResponse::DeadChannel => 511,
        AGIResponse::EndUsage => 520,
    }
}

impl<H: InnerAGIResponse> From<AGIResponse<H>> for u16 {
    fn from(r: AGIResponse<H>) -> (code: u16) {
        match r {
            AGIResponse::Okay(_) => 200,
            AGIResponse::Invalid => 510,
            AGIResponse::DeadChannel => 511,
            AGIResponse::EndUsage => 520,
        }
    }
}

impl<H: InnerAGIResponse> FromSpecImpl<AGIResponse<H>> for u16 {
    open spec fn obeys_from_spec() -> bool {
        true
    }

    open spec fn from_spec(r: AGIResponse<H>) -> u16 {
        response_code(r)
    }
}

/// The typed response to one kind of command.
pub trait InnerAGIResponse: Sized + View {
    /// The name of the command that this is the response to.
    spec fn command_name() -> Seq<char>;

    /// The response that the result and the operational data of a 200
    /// status stand for, or `None` where they are no reply to the command.
    spec fn response_of(result: Seq<char>, op_data: Option<Seq<char>>) -> Option<Self::V>;

    /// Reads the result and the operational data of a 200 status.
    fn specialize(result: &str, op_data: Option<&str>) -> (r: Result<Self, AGIStatusParseError>)
        ensures
            match r {
                Ok(x) => Self::response_of(result@, str_view(op_data)) == Some(x@),
                Err(e) => Self::response_of(result@, str_view(op_data)) is None && e@ == (
                StatusParseErrorView {
                    result: result@,
                    op_data: str_view(op_data),
                    response_to_command: Self::command_name(),
                }),
            },
    ;
}

/// A command that can be sent to Asterisk.
pub trait AGICommand {
    /// How a 200 status is read as the reply to this command.
    type Response: InnerAGIResponse;

    /// The line that is sent for this command, with its newline.
    spec fn wire_text(&self) -> Seq<char>;

    /// Renders the command.
    fn to_string(&self) -> (s: String)
        ensures
            s@ == self.wire_text(),
    ;
}

/// The keys of a telephone.
#[derive(Debug, PartialEq)]
pub enum Characters {
    Zero,
    One,
    Two,
    Three,
    Four,
    Five,
    Six,
    Seven,
    Eight,
    Nine,
    Star,
    Pound,
}

/// The digit keys of a telephone.
#[derive(Debug, PartialEq)]
pub enum Digit {
    Zero,
    One,
    Two,
    Three,
    Four,
    Five,
    Six,
    Seven,
    Eight,
    Nine,
}

/// The key that a digit is.
pub open spec fn digit_key(d: Digit) -> Characters {
    match d {
        Digit::Zero => Characters::Zero,
        Digit::One => Characters::One,
        Digit::Two => Characters::Two,
        Digit::Three => Characters::Three,
        Digit::Four => Characters::Four,
        Digit::Five => Characters::Five,
        Digit::Six => Characters::Six,
        Digit::Seven => Characters::Seven,
        Digit::Eight => Characters::Eight,
        Digit::Nine => Characters::Nine,
    }
}

impl From<Digit> for Characters {
    fn from(d: Digit) -> (c: Characters) {
        match d {
            Digit::Zero => Characters::Zero,
            Digit::One => Characters::One,
            Digit::Two => Characters::Two,
            Digit::Three => Characters::Three,
            Digit::Four => Characters::Four,
            Digit::Five => Characters::Five,
            Digit::Six => Characters::Six,
            Digit::Seven => Characters::Seven,
            Digit::Eight => Characters::Eight,
            Digit::Nine => Characters::Nine,
        }
    }
}

impl FromSpecImpl<Digit> for Characters {
    open spec fn obeys_from_spec() -> bool {
        true
    }

    open spec fn from_spec(d: Digit) -> Characters {
        digit_key(d)
    }
}

} // verus!
