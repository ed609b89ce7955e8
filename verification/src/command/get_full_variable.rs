//! The `GET FULL VARIABLE` command.
use crate::command::answer::result_number;
use crate::command::{
    owned, str_view, AGICommand, AGIStatusParseError, InnerAGIResponse, StatusParseErrorView,
};
use crate::text::{parse_i32, to_chars, to_string};
use vstd::prelude::*;
use vstd::slice::slice_subrange;
use vstd::std_specs::convert::TryFromSpecImpl;

verus! {

/// Where a [`GetFullVariable`] evaluates its expression. The two
/// implementors are two phases of building the command: each renders in one
/// way only.
pub trait TargetChannel {

}

/// The channel of the call itself: no channel is sent.
#[derive(Debug, PartialEq)]
pub struct ThisChannel {}

impl TargetChannel for ThisChannel {

}

/// Another channel, sent by name.
#[derive(Debug, PartialEq)]
pub struct OtherChannel {
    channel_name: String,
}

impl TargetChannel for OtherChannel {

}

/// Evaluates an expression on a channel. Sent as
/// `GET FULL VARIABLE "<expression>"`, or as
/// `GET FULL VARIABLE "<expression>" "<channel>"` once a channel is set.
///
/// Expression and channel are sent as they are: a double quote in them is
/// not escaped.
#[derive(Debug, PartialEq)]
pub struct GetFullVariable<S: TargetChannel> {
    expression: String,
    channel_name: S,
}

impl GetFullVariable<ThisChannel> {
    /// The command that evaluates `expression` on the channel of the call.
    pub fn new(expression: String) -> (r: Self)
        ensures
            r.wire_text() == "GET FULL VARIABLE \""@ + expression@ + "\"\n"@,
            r.expression() == expression@,
    {
        Self { expression, channel_name: ThisChannel {  } }
    }

    /// The same command on the channel named `channel`. There is no way back.
    pub fn with_channel(self, channel: String) -> (r: GetFullVariable<OtherChannel>)
        ensures
            r.wire_text() == "GET FULL VARIABLE \""@ + self.expression() + "\" \""@ + channel@
                + "\"\n"@,
    {
        GetFullVariable::<OtherChannel> {
            expression: self.expression,
            channel_name: OtherChannel { channel_name: channel },
        }
    }

    /// The expression that is evaluated.
    pub closed spec fn expression(self) -> Seq<char> {
        self.expression@
    }
}

impl AGICommand for GetFullVariable<ThisChannel> {
    type Response = GetFullVariableResponse;

    closed spec fn wire_text(&self) -> Seq<char> {
        "GET FULL VARIABLE \""@ + self.expression@ + "\"\n"@
    }

    fn to_string(&self) -> (s: String) {
        let mut s = String::new();
        s.append("GET FULL VARIABLE \"");
        s.append(self.expression.as_str());
        s.append("\"\n");
        s
    }
}

impl AGICommand for GetFullVariable<OtherChannel> {
    type Response = GetFullVariableResponse;

    closed spec fn wire_text(&self) -> Seq<char> {
        "GET FULL VARIABLE \""@ + self.expression@ + "\" \""@ + self.channel_name.channel_name@
            + "\"\n"@
    }

    fn to_string(&self) -> (s: String) {
        let mut s = String::new();
        s.append("GET FULL VARIABLE \"");
        s.append(self.expression.as_str());
        s.append("\" \"");
        s.append(self.channel_name.channel_name.as_str());
        s.append("\"\n");
        s
    }
}

/// What a 200 status says in reply to [`GetFullVariable`].
#[derive(Debug, PartialEq)]
pub struct GetFullVariableResponse {
    /// The value of the expression, or `None` where Asterisk could not evaluate it.
    pub value: Option<String>,
}

impl View for GetFullVariableResponse {
    type V = Option<Seq<char>>;

    open spec fn view(&self) -> Option<Seq<char>> {
        match self.value {
            Some(s) => Some(s@),
            None => None,
        }
    }
}

/// Whether `c` is a round bracket.
pub open spec fn is_paren(c: char) -> bool {
    c == '(' || c == ')'
}

/// `s` without the parentheses it begins with.
pub open spec fn without_leading_parens(s: Seq<char>) -> Seq<char>
    decreases s.len(),
{
    if s.len() > 0 && is_paren(s[0]) {
        without_leading_parens(s.drop_first())
    } else {
        s
    }
}

/// `s` without the parentheses it ends with.
pub open spec fn without_trailing_parens(s: Seq<char>) -> Seq<char>
    decreases s.len(),
{
    if s.len() > 0 && is_paren(s.last()) {
        without_trailing_parens(s.drop_last())
    } else {
        s
    }
}

/// `s` without the parentheses around it.
pub open spec fn without_parens(s: Seq<char>) -> Seq<char> {
    without_trailing_parens(without_leading_parens(s))
}

/// The part of `v` that is left when the parentheses around it are dropped.
pub fn trim_parens(v: &[char]) -> (t: &[char])
    ensures
        t@ == without_parens(v@),
{
    let mut i: usize = 0;
    assert(v@.skip(0) == v@);
    while i < v.len() && (v[i] == '(' || v[i] == ')')
        invariant
            i <= v@.len(),
            without_leading_parens(v@.skip(i as int)) == without_leading_parens(v@),
        decreases v@.len() - i,
    {
        assert(v@.skip(i as int).drop_first() == v@.skip(i + 1));
        i += 1;
    }
    let a = slice_subrange(v, i, v.len());
    assert(a@ == v@.skip(i as int));
    let mut n: usize = a.len();
    assert(a@.take(n as int) == a@);
    while n > 0 && (a[n - 1] == '(' || a[n - 1] == ')')
        invariant
            n <= a@.len(),
            without_trailing_parens(a@.take(n as int)) == without_trailing_parens(a@),
        decreases n,
    {
        assert(a@.take(n as int).drop_last() == a@.take(n - 1));
        n -= 1;
    }
    slice_subrange(a, 0, n)
}

impl InnerAGIResponse for GetFullVariableResponse {
    open spec fn command_name() -> Seq<char> {
        "GET FULL VARIABLE"@
    }

    /// Result 1 with operational data is the value: the data without the
    /// parentheses around it. Result 0 is no value. Nothing else is a reply.
    open spec fn response_of(result: Seq<char>, op_data: Option<Seq<char>>) -> Option<
        Option<Seq<char>>,
    > {
        if result_number(result) == Some(1int) {
            match op_data {
                Some(x) => Some(Some(without_parens(x))),
                None => None,
            }
        } else if result_number(result) == Some(0int) {
            Some(None)
        } else {
            None
        }
    }

    fn specialize(result: &str, op_data: Option<&str>) -> (r: Result<Self, AGIStatusParseError>) {
        let chars = to_chars(result);
        match parse_i32(chars.as_slice()) {
            Some(1) => match op_data {
                Some(x) => {
                    let data = to_chars(x);
                    Ok(
                        GetFullVariableResponse {
                            value: Some(to_string(trim_parens(data.as_slice()))),
                        },
                    )
                },
                None => Err(
                    AGIStatusParseError {
                        result: result.to_owned(),
                        op_data: None,
                        response_to_command: "GET FULL VARIABLE",
                    },
                ),
            },
            Some(0) => Ok(GetFullVariableResponse { value: None }),
            _ => Err(
                AGIStatusParseError {
                    result: result.to_owned(),
                    op_data: owned(op_data),
                    response_to_command: "GET FULL VARIABLE",
                },
            ),
        }
    }
}

impl<'a> TryFrom<(&'a str, Option<&'a str>)> for GetFullVariableResponse {
    type Error = AGIStatusParseError;

    fn try_from(v: (&'a str, Option<&'a str>)) -> (r: Result<Self, Self::Error>)
        ensures
            match r {
                Ok(x) => Self::response_of(v.0@, str_view(v.1)) == Some(x@),
                Err(e) => Self::response_of(v.0@, str_view(v.1)) is None && e@ == (
                StatusParseErrorView {
                    result: v.0@,
                    op_data: str_view(v.1),
                    response_to_command: Self::command_name(),
                }),
            },
    {
        Self::specialize(v.0, v.1)
    }
}

/// What `try_from` returns is stated by its `ensures`, over views.
impl<'a> TryFromSpecImpl<(&'a str, Option<&'a str>)> for GetFullVariableResponse {
    open spec fn obeys_try_from_spec() -> bool {
        false
    }

    open spec fn try_from_spec(v: (&'a str, Option<&'a str>)) -> Result<Self, Self::Error> {
        arbitrary()
    }
}

} // verus!
