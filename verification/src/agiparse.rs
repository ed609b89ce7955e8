//! Parsing and rendering of the messages that Asterisk sends over FastAGI.
use crate::text::{
    decimal_digits, contains, find_char, find_sub, first_index_of, first_occurrence, has_prefix, is_text,
    lemma_first_index_of, parse_unsigned, push_decimal, starts_with, to_chars,
    to_string, trim_end, trimmed_end, unsigned_value,
};
use std::collections::HashMap;
use vstd::pervasive::unreached;
use vstd::prelude::*;
use vstd::slice::slice_subrange;
use vstd::std_specs::hash::group_hash_axioms;

verus! {

// ---------------------------------------------------------------------------
// Errors
// ---------------------------------------------------------------------------
/// Everything that can go wrong while parsing.
#[derive(Debug, PartialEq, Eq)]
pub enum AGIParseError {
    /// A line contained no value
    NoValue(String),
    /// The agi_priority line was not parsable
    PriorityUnparsable(String),
    /// The agi_threadid line was not parsable
    ThreadIdUnparsable(String),
    /// The agi_enhanced line was not parsable
    EnhancedUnparsable(String),
    /// An unknown argument was found
    UnknownArg(String),
    /// A custom arg (agi_arg_n) had a number (n) that was not parsable
    CustomArgNumberUnparsable(String),
    /// The same custom arg was defined more than once
    DuplicateCustomArg(String),
    /// A variable that is required was missing
    VariableMissing(String),
    /// A status line contains no status code
    NoStatusCode(String),
    /// A status code was found but it was not parsable as a number
    StatusCodeUnparsable(String),
    /// A status line did not contain a result
    NoResult(String),
    /// The second token of a status line does not begin with `result=`
    ResultUnparsable(String),
    /// Nothing was read: the remote end closed the connection
    NoBytes,
    /// The bytes read were not UTF-8
    NotUtf8,
    /// A status line was not ended by a newline
    StatusWithoutNewline,
    /// The status code is a number, but none that AGI knows
    StatusDoesNotExist(u16),
    /// Reading from the stream failed
    ReadError,
    /// There was a network start line sent after another message
    NetworkStartAfterOtherMessage,
}

/// The mathematical value of an [`AGIParseError`].
pub enum ParseErrorView {
    NoValue(Seq<char>),
    PriorityUnparsable(Seq<char>),
    ThreadIdUnparsable(Seq<char>),
    EnhancedUnparsable(Seq<char>),
    UnknownArg(Seq<char>),
    CustomArgNumberUnparsable(Seq<char>),
    DuplicateCustomArg(Seq<char>),
    VariableMissing(Seq<char>),
    NoStatusCode(Seq<char>),
    StatusCodeUnparsable(Seq<char>),
    NoResult(Seq<char>),
    ResultUnparsable(Seq<char>),
    NoBytes,
    NotUtf8,
    StatusWithoutNewline,
    StatusDoesNotExist(u16),
    ReadError,
    NetworkStartAfterOtherMessage,
}

impl View for AGIParseError {
    type V = ParseErrorView;

    open spec fn view(&self) -> ParseErrorView {
        match self {
            AGIParseError::NoValue(x) => ParseErrorView::NoValue(x@),
            AGIParseError::PriorityUnparsable(x) => ParseErrorView::PriorityUnparsable(x@),
            AGIParseError::ThreadIdUnparsable(x) => ParseErrorView::ThreadIdUnparsable(x@),
            AGIParseError::EnhancedUnparsable(x) => ParseErrorView::EnhancedUnparsable(x@),
            AGIParseError::UnknownArg(x) => ParseErrorView::UnknownArg(x@),
            AGIParseError::CustomArgNumberUnparsable(x) => ParseErrorView::CustomArgNumberUnparsable(
                x@,
            ),
            AGIParseError::DuplicateCustomArg(x) => ParseErrorView::DuplicateCustomArg(x@),
            AGIParseError::VariableMissing(x) => ParseErrorView::VariableMissing(x@),
            AGIParseError::NoStatusCode(x) => ParseErrorView::NoStatusCode(x@),
            AGIParseError::StatusCodeUnparsable(x) => ParseErrorView::StatusCodeUnparsable(x@),
            AGIParseError::NoResult(x) => ParseErrorView::NoResult(x@),
            AGIParseError::ResultUnparsable(x) => ParseErrorView::ResultUnparsable(x@),
            AGIParseError::NoBytes => ParseErrorView::NoBytes,
            AGIParseError::NotUtf8 => ParseErrorView::NotUtf8,
            AGIParseError::StatusWithoutNewline => ParseErrorView::StatusWithoutNewline,
            AGIParseError::StatusDoesNotExist(x) => ParseErrorView::StatusDoesNotExist(*x),
            AGIParseError::ReadError => ParseErrorView::ReadError,
            AGIParseError::NetworkStartAfterOtherMessage => ParseErrorView::NetworkStartAfterOtherMessage,
        }
    }
}

/// The view of a parse result: of the value where it succeeded, of the error where it failed.
pub open spec fn parsed<T: View>(r: Result<T, AGIParseError>) -> Result<T::V, ParseErrorView> {
    match r {
        Ok(v) => Ok(v@),
        Err(e) => Err(e@),
    }
}

/// The view of an optional text.
pub open spec fn text_view(o: Option<String>) -> Option<Seq<char>> {
    match o {
        Some(s) => Some(s@),
        None => None,
    }
}

// ---------------------------------------------------------------------------
// Splitting at a character
// ---------------------------------------------------------------------------
/// The part of `s` before the first `c`; all of `s` when it holds no `c`.
pub open spec fn head(s: Seq<char>, c: char) -> Seq<char> {
    s.take(first_index_of(s, c))
}

/// The part of `s` after the first `c`; `None` when it holds no `c`.
pub open spec fn tail(s: Seq<char>, c: char) -> Option<Seq<char>> {
    if first_index_of(s, c) < s.len() {
        Some(s.skip(first_index_of(s, c) + 1))
    } else {
        None
    }
}

/// Cuts `v` at its first `c`.
pub fn split_first(v: &[char], c: char) -> (r: (&[char], Option<&[char]>))
    ensures
        r.0@ == head(v@, c),
        match r.1 {
            Some(t) => tail(v@, c) == Some(t@),
            None => tail(v@, c) is None,
        },
{
    let i = find_char(v, c);
    let h = slice_subrange(v, 0, i);
    if i < v.len() {
        (h, Some(slice_subrange(v, i + 1, v.len())))
    } else {
        (h, None)
    }
}

// ---------------------------------------------------------------------------
// Status
// ---------------------------------------------------------------------------
/// The reply to a command, before it is read as the reply to a particular command.
#[derive(Debug, PartialEq, Eq)]
pub enum AGIStatusGeneric {
    /// 200, with the result and the operational data
    Okay(String, Option<String>),
    /// 510
    Invalid,
    /// 511
    DeadChannel,
    /// 520
    EndUsage,
}

/// The mathematical value of an [`AGIStatusGeneric`].
pub enum StatusView {
    Okay(Seq<char>, Option<Seq<char>>),
    Invalid,
    DeadChannel,
    EndUsage,
}

impl View for AGIStatusGeneric {
    type V = StatusView;

    open spec fn view(&self) -> StatusView {
        match self {
            AGIStatusGeneric::Okay(result, op_data) => StatusView::Okay(result@, text_view(*op_data)),
            AGIStatusGeneric::Invalid => StatusView::Invalid,
            AGIStatusGeneric::DeadChannel => StatusView::DeadChannel,
            AGIStatusGeneric::EndUsage => StatusView::EndUsage,
        }
    }
}

/// The status code that a status line starts with, if it is a number.
pub open spec fn status_code(line: Seq<char>) -> Option<nat> {
    unsigned_value(head(trimmed_end(line), ' '), 0xffff)
}

/// The second token of a status line, which should hold the result.
pub open spec fn result_token(line: Seq<char>) -> Option<Seq<char>> {
    match tail(trimmed_end(line), ' ') {
        Some(rest) => Some(head(rest, ' ')),
        None => None,
    }
}

/// The third token of a status line: the operational data.
pub open spec fn op_data_token(line: Seq<char>) -> Option<Seq<char>> {
    match tail(trimmed_end(line), ' ') {
        Some(rest) => match tail(rest, ' ') {
            Some(more) => Some(head(more, ' ')),
            None => None,
        },
        None => None,
    }
}

/// What a status line `<code> result=<result>[ <opdata>]` means.
///
/// The line is cut at single spaces once trailing whitespace is dropped. The
/// first token is the decimal code, the second starts with `result=`, the
/// third, where there is one, is the operational data. Only the codes 200,
/// 510, 511 and 520 exist.
pub open spec fn status_of(line: Seq<char>) -> Result<StatusView, ParseErrorView> {
    if status_code(line) is None {
        Err(ParseErrorView::StatusCodeUnparsable(line))
    } else if result_token(line) is None {
        Err(ParseErrorView::NoResult(line))
    } else if !has_prefix(result_token(line)->0, "result="@) {
        Err(ParseErrorView::ResultUnparsable(line))
    } else {
        let code = status_code(line)->0;
        if code == 200 {
            Ok(StatusView::Okay(result_token(line)->0.skip(7), op_data_token(line)))
        } else if code == 510 {
            Ok(StatusView::Invalid)
        } else if code == 511 {
            Ok(StatusView::DeadChannel)
        } else if code == 520 {
            Ok(StatusView::EndUsage)
        } else {
            Err(ParseErrorView::StatusDoesNotExist(code as u16))
        }
    }
}

/// The accepted status codes are exactly 200, 510, 511 and 520: a status line
/// is accepted only with one of them, and a line that is well formed but for
/// its code is refused with that code.
pub proof fn lemma_status_codes_closed(line: Seq<char>)
    ensures
        status_of(line) is Ok ==> status_code(line) is Some && (status_code(line)->0 == 200
            || status_code(line)->0 == 510 || status_code(line)->0 == 511 || status_code(line)->0
            == 520),
        status_of(line) is Ok <==> {
            &&& status_code(line) is Some
            &&& result_token(line) is Some
            &&& has_prefix(result_token(line)->0, "result="@)
            &&& (status_code(line)->0 == 200 || status_code(line)->0 == 510 || status_code(line)->0
                == 511 || status_code(line)->0 == 520)
        },
        ({
            &&& status_code(line) matches Some(code)
            &&& result_token(line) is Some
            &&& has_prefix(result_token(line)->0, "result="@)
            &&& code != 200 && code != 510 && code != 511 && code != 520
        }) ==> status_of(line) == Err::<StatusView, ParseErrorView>(
            ParseErrorView::StatusDoesNotExist(status_code(line)->0 as u16),
        ),
{
}

impl AGIStatusGeneric {
    /// Reads one status line.
    pub fn parse(s: &str) -> (r: Result<AGIStatusGeneric, AGIParseError>)
        ensures
            parsed(r) == status_of(s@),
    {
        let chars = to_chars(s);
        Self::parse_chars(chars.as_slice())
    }

    /// Reads one status line, given as characters.
    pub fn parse_chars(line: &[char]) -> (r: Result<AGIStatusGeneric, AGIParseError>)
        ensures
            parsed(r) == status_of(line@),
    {
        let t = trim_end(line);
        let (code_text, rest) = split_first(t, ' ');
        let code: u64 = match parse_unsigned(code_text, 0xffff) {
            Some(c) => c,
            None => {
                return Err(AGIParseError::StatusCodeUnparsable(to_string(line)));
            },
        };
        let rest = match rest {
            Some(r) => r,
            None => {
                return Err(AGIParseError::NoResult(to_string(line)));
            },
        };
        let (token, more) = split_first(rest, ' ');
        if !starts_with(token, "result=") {
            return Err(AGIParseError::ResultUnparsable(to_string(line)));
        }
        proof {
            reveal_strlit("result=");
        }
        let result = to_string(slice_subrange(token, 7, token.len()));
        let op_data = match more {
            Some(m) => Some(to_string(split_first(m, ' ').0)),
            None => None,
        };
        if code == 200 {
            Ok(AGIStatusGeneric::Okay(result, op_data))
        } else if code == 510 {
            Ok(AGIStatusGeneric::Invalid)
        } else if code == 511 {
            Ok(AGIStatusGeneric::DeadChannel)
        } else if code == 520 {
            Ok(AGIStatusGeneric::EndUsage)
        } else {
            Err(AGIParseError::StatusDoesNotExist(code as u16))
        }
    }

    /// The status as text: `200 result=<result>[ <opdata>]`, or the bare code.
    pub fn to_string(&self) -> (s: String)
        ensures
            s@ == status_text(self@),
    {
        let mut s = String::new();
        match self {
            AGIStatusGeneric::Okay(result, op_data) => {
                s.append("200 result=");
                s.append(result.as_str());
                match op_data {
                    Some(x) => {
                        s.push(' ');
                        s.append(x.as_str());
                    },
                    None => {},
                }
            },
            AGIStatusGeneric::Invalid => {
                s.append("510");
            },
            AGIStatusGeneric::DeadChannel => {
                s.append("511");
            },
            AGIStatusGeneric::EndUsage => {
                s.append("520");
            },
        }
        s
    }
}

/// The text of a status: `200 result=<result>[ <opdata>]`, or the bare code.
pub open spec fn status_text(st: StatusView) -> Seq<char> {
    match st {
        StatusView::Okay(result, Some(x)) => ("200 result="@ + result).push(' ') + x,
        StatusView::Okay(result, None) => "200 result="@ + result,
        StatusView::Invalid => "510"@,
        StatusView::DeadChannel => "511"@,
        StatusView::EndUsage => "520"@,
    }
}

impl std::str::FromStr for AGIStatusGeneric {
    type Err = AGIParseError;

    fn from_str(s: &str) -> (r: Result<Self, Self::Err>)
        ensures
            parsed(r) == status_of(s@),
    {
        AGIStatusGeneric::parse(s)
    }
}

// ---------------------------------------------------------------------------
// The request: a file path or a URL
// ---------------------------------------------------------------------------
/// The scheme and the path segments that `url::Url::parse` finds in `text`,
/// or `None` where it accepts no URL there. The path segments are `None` for
/// a URL that cannot be a base.
pub uninterp spec fn url_parts(text: Seq<char>) -> Option<(Seq<char>, Option<Seq<Seq<char>>>)>;

/// The texts of a sequence of strings.
pub open spec fn texts(v: Seq<String>) -> Seq<Seq<char>> {
    Seq::new(v.len(), |i: int| v[i]@)
}

/// The texts of an optional list of strings.
pub open spec fn segments_view(o: Option<Vec<String>>) -> Option<Seq<Seq<char>>> {
    match o {
        Some(v) => Some(texts(v@)),
        None => None,
    }
}

/// Calls `url::Url::parse` on `text`. Where it accepts the text, hands out
/// what `Url::scheme` and `Url::path_segments` return for that URL; where it
/// refuses, `None`. Nothing is claimed of what a URL is: the result is named
/// by `url_parts`.
#[verifier::external_body]
fn parse_url(text: &str) -> (r: Option<(String, Option<Vec<String>>)>)
    ensures
        match r {
            Some((scheme, segments)) => url_parts(text@) == Some((scheme@, segments_view(segments))),
            None => url_parts(text@) is None,
        },
{
    match url::Url::parse(text) {
        Ok(u) => Some(
            (u.scheme().to_owned(), u.path_segments().map(|it| it.map(|p| p.to_owned()).collect())),
        ),
        Err(_) => None,
    }
}

/// A URL as FastAGI needs it: the text it was written as, its scheme, and
/// its path segments.
#[derive(Debug, PartialEq, Eq, Clone)]
pub struct AgiUrl {
    text: String,
    scheme: String,
    path_segments: Option<Vec<String>>,
}

/// The mathematical value of an [`AgiUrl`].
pub struct UrlView {
    pub text: Seq<char>,
    pub scheme: Seq<char>,
    pub path_segments: Option<Seq<Seq<char>>>,
}

impl View for AgiUrl {
    type V = UrlView;

    closed spec fn view(&self) -> UrlView {
        UrlView {
            text: self.text@,
            scheme: self.scheme@,
            path_segments: segments_view(self.path_segments),
        }
    }
}

/// The URL that `text` writes, if it writes one.
pub open spec fn url_of(text: Seq<char>) -> Option<UrlView> {
    match url_parts(text) {
        Some((scheme, path_segments)) => Some(UrlView { text, scheme, path_segments }),
        None => None,
    }
}

impl AgiUrl {
    /// The URL that was written as `text`, given the scheme and the path
    /// segments that were found in it; `None` where no URL was found.
    pub fn from_parts(text: &str, parts: Option<(String, Option<Vec<String>>)>) -> (r: Option<
        AgiUrl,
    >)
        ensures
            match parts {
                Some((scheme, path_segments)) => r matches Some(u) && u@ == (UrlView {
                    text: text@,
                    scheme: scheme@,
                    path_segments: segments_view(path_segments),
                }),
                None => r is None,
            },
    {
        match parts {
            Some((scheme, path_segments)) => Some(
                AgiUrl { text: text.to_owned(), scheme, path_segments },
            ),
            None => None,
        }
    }

    /// Reads a URL.
    pub fn parse(text: &str) -> (r: Option<AgiUrl>)
        ensures
            match r {
                Some(u) => url_of(text@) == Some(u@),
                None => url_of(text@) is None,
            },
    {
        Self::from_parts(text, parse_url(text))
    }

    /// The text that the URL was written as.
    pub fn as_str(&self) -> (s: &str)
        ensures
            s@ == self@.text,
    {
        self.text.as_str()
    }

    /// The scheme, without the `:`.
    pub fn scheme(&self) -> (s: &str)
        ensures
            s@ == self@.scheme,
    {
        self.scheme.as_str()
    }

    /// The path segments; `None` for a URL that cannot be a base.
    pub fn path_segments(&self) -> (r: Option<&Vec<String>>)
        ensures
            match r {
                Some(v) => self@.path_segments == Some(texts(v@)),
                None => self@.path_segments is None,
            },
    {
        self.path_segments.as_ref()
    }
}

/// What `agi_request` holds. Only FastAGI requests are served.
#[derive(Debug, PartialEq, Eq, Clone)]
pub enum AGIRequestType {
    /// The path of a script, as text
    File(String),
    /// The URL that was asked for
    FastAGI(AgiUrl),
}

/// The mathematical value of an [`AGIRequestType`].
pub enum RequestView {
    File(Seq<char>),
    FastAGI(UrlView),
}

impl View for AGIRequestType {
    type V = RequestView;

    open spec fn view(&self) -> RequestView {
        match self {
            AGIRequestType::File(p) => RequestView::File(p@),
            AGIRequestType::FastAGI(u) => RequestView::FastAGI(u@),
        }
    }
}

/// The request that `text` writes: a URL where it is one, else a file path.
pub open spec fn request_of(text: Seq<char>) -> RequestView {
    match url_of(text) {
        Some(u) => RequestView::FastAGI(u),
        None => RequestView::File(text),
    }
}

/// The text of a request.
pub open spec fn request_text(r: RequestView) -> Seq<char> {
    match r {
        RequestView::File(p) => p,
        RequestView::FastAGI(u) => u.text,
    }
}

impl AGIRequestType {
    /// The request that `text` is, given what was found of a URL in it.
    pub fn from_url(text: &str, url: Option<AgiUrl>) -> (r: AGIRequestType)
        ensures
            r@ == (match url {
                Some(u) => RequestView::FastAGI(u@),
                None => RequestView::File(text@),
            }),
    {
        match url {
            Some(u) => AGIRequestType::FastAGI(u),
            None => AGIRequestType::File(text.to_owned()),
        }
    }

    /// Reads a request: as a URL first, else as a file path. Never fails.
    pub fn parse(text: &str) -> (r: Result<AGIRequestType, AGIParseError>)
        ensures
            parsed(r) == Ok::<RequestView, ParseErrorView>(request_of(text@)),
    {
        Ok(Self::from_url(text, AgiUrl::parse(text)))
    }

    /// The text of the request, as it was read.
    pub fn to_string(&self) -> (s: String)
        ensures
            s@ == request_text(self@),
    {
        match self {
            AGIRequestType::File(p) => p.clone(),
            AGIRequestType::FastAGI(u) => u.as_str().to_owned(),
        }
    }
}

impl std::str::FromStr for AGIRequestType {
    type Err = AGIParseError;

    fn from_str(s: &str) -> (r: Result<Self, Self::Err>)
        ensures
            parsed(r) == Ok::<RequestView, ParseErrorView>(request_of(s@)),
    {
        AGIRequestType::parse(s)
    }
}

// ---------------------------------------------------------------------------
// The fields of a variable dump
// ---------------------------------------------------------------------------
/// How many fixed fields a variable dump has.
pub const FIELD_COUNT: usize = 21;

/// The name under which Asterisk sends the fixed field number `k`.
pub open spec fn wire_name(k: int) -> Seq<char> {
    if k == 0 {
        "agi_network_script"@
    } else if k == 1 {
        "agi_request"@
    } else if k == 2 {
        "agi_channel"@
    } else if k == 3 {
        "agi_language"@
    } else if k == 4 {
        "agi_type"@
    } else if k == 5 {
        "agi_uniqueid"@
    } else if k == 6 {
        "agi_version"@
    } else if k == 7 {
        "agi_callerid"@
    } else if k == 8 {
        "agi_calleridname"@
    } else if k == 9 {
        "agi_callingpres"@
    } else if k == 10 {
        "agi_callingani2"@
    } else if k == 11 {
        "agi_callington"@
    } else if k == 12 {
        "agi_callingtns"@
    } else if k == 13 {
        "agi_dnid"@
    } else if k == 14 {
        "agi_rdnis"@
    } else if k == 15 {
        "agi_context"@
    } else if k == 16 {
        "agi_extension"@
    } else if k == 17 {
        "agi_priority"@
    } else if k == 18 {
        "agi_enhanced"@
    } else if k == 19 {
        "agi_accountcode"@
    } else {
        "agi_threadid"@
    }
}

/// The name by which a missing fixed field number `k` is reported.
pub open spec fn field_label(k: int) -> Seq<char> {
    if k == 0 {
        "network_script"@
    } else if k == 1 {
        "request"@
    } else if k == 2 {
        "channel"@
    } else if k == 3 {
        "language"@
    } else if k == 4 {
        "channel_type"@
    } else if k == 5 {
        "uniqueid"@
    } else if k == 6 {
        "version"@
    } else if k == 7 {
        "callerid"@
    } else if k == 8 {
        "calleridname"@
    } else if k == 9 {
        "callingpres"@
    } else if k == 10 {
        "callingani2"@
    } else if k == 11 {
        "callington"@
    } else if k == 12 {
        "callingtns"@
    } else if k == 13 {
        "dnid"@
    } else if k == 14 {
        "rdnis"@
    } else if k == 15 {
        "context"@
    } else if k == 16 {
        "extension"@
    } else if k == 17 {
        "priority"@
    } else if k == 18 {
        "enhanced"@
    } else if k == 19 {
        "accountcode"@
    } else {
        "threadid"@
    }
}

fn wire_name_of(k: usize) -> (s: &'static str)
    ensures
        s@ == wire_name(k as int),
{
    if k == 0 {
        "agi_network_script"
    } else if k == 1 {
        "agi_request"
    } else if k == 2 {
        "agi_channel"
    } else if k == 3 {
        "agi_language"
    } else if k == 4 {
        "agi_type"
    } else if k == 5 {
        "agi_uniqueid"
    } else if k == 6 {
        "agi_version"
    } else if k == 7 {
        "agi_callerid"
    } else if k == 8 {
        "agi_calleridname"
    } else if k == 9 {
        "agi_callingpres"
    } else if k == 10 {
        "agi_callingani2"
    } else if k == 11 {
        "agi_callington"
    } else if k == 12 {
        "agi_callingtns"
    } else if k == 13 {
        "agi_dnid"
    } else if k == 14 {
        "agi_rdnis"
    } else if k == 15 {
        "agi_context"
    } else if k == 16 {
        "agi_extension"
    } else if k == 17 {
        "agi_priority"
    } else if k == 18 {
        "agi_enhanced"
    } else if k == 19 {
        "agi_accountcode"
    } else {
        "agi_threadid"
    }
}

fn field_label_of(k: usize) -> (s: &'static str)
    ensures
        s@ == field_label(k as int),
{
    if k == 0 {
        "network_script"
    } else if k == 1 {
        "request"
    } else if k == 2 {
        "channel"
    } else if k == 3 {
        "language"
    } else if k == 4 {
        "channel_type"
    } else if k == 5 {
        "uniqueid"
    } else if k == 6 {
        "version"
    } else if k == 7 {
        "callerid"
    } else if k == 8 {
        "calleridname"
    } else if k == 9 {
        "callingpres"
    } else if k == 10 {
        "callingani2"
    } else if k == 11 {
        "callington"
    } else if k == 12 {
        "callingtns"
    } else if k == 13 {
        "dnid"
    } else if k == 14 {
        "rdnis"
    } else if k == 15 {
        "context"
    } else if k == 16 {
        "extension"
    } else if k == 17 {
        "priority"
    } else if k == 18 {
        "enhanced"
    } else if k == 19 {
        "accountcode"
    } else {
        "threadid"
    }
}

/// The first fixed field at or after `k` that is sent under `name`.
pub open spec fn field_from(name: Seq<char>, k: int) -> Option<int>
    decreases FIELD_COUNT - k,
{
    if k < 0 || k >= FIELD_COUNT {
        None
    } else if wire_name(k) == name {
        Some(k)
    } else {
        field_from(name, k + 1)
    }
}

/// The fixed field that is sent under `name`.
pub open spec fn field_of_name(name: Seq<char>) -> Option<int> {
    field_from(name, 0)
}

fn find_field(name: &[char]) -> (r: Option<usize>)
    ensures
        match r {
            Some(k) => field_of_name(name@) == Some(k as int) && k < FIELD_COUNT,
            None => field_of_name(name@) is None,
        },
{
    let mut k: usize = 0;
    while k < FIELD_COUNT
        invariant
            k <= FIELD_COUNT,
            field_from(name@, k as int) == field_of_name(name@),
        decreases FIELD_COUNT - k,
    {
        if is_text(name, wire_name_of(k)) {
            return Some(k);
        }
        k += 1;
    }
    None
}

/// The mathematical value of one fixed field.
pub enum FieldView {
    Text(Seq<char>),
    Request(RequestView),
    Priority(u16),
    Enhanced(bool),
    ThreadId(u64),
}

/// Whether `v` is a value of the kind that the fixed field number `k` holds.
pub open spec fn well_kinded(k: int, v: FieldView) -> bool {
    if k == 1 {
        v is Request
    } else if k == 17 {
        v is Priority
    } else if k == 18 {
        v is Enhanced
    } else if k == 20 {
        v is ThreadId
    } else {
        v is Text
    }
}

/// What the text `value` means as the fixed field number `k`.
///
/// `agi_priority` is a decimal `u16`, `agi_threadid` a decimal `u64`,
/// `agi_enhanced` is `0.0` or `1.0`, `agi_request` a URL or a path; every
/// other field is kept as text.
pub open spec fn field_value(k: int, value: Seq<char>) -> Result<FieldView, ParseErrorView> {
    if k == 1 {
        Ok(FieldView::Request(request_of(value)))
    } else if k == 17 {
        match unsigned_value(value, 0xffff) {
            Some(n) => Ok(FieldView::Priority(n as u16)),
            None => Err(ParseErrorView::PriorityUnparsable(value)),
        }
    } else if k == 18 {
        if value == "0.0"@ {
            Ok(FieldView::Enhanced(false))
        } else if value == "1.0"@ {
            Ok(FieldView::Enhanced(true))
        } else {
            Err(ParseErrorView::EnhancedUnparsable(value))
        }
    } else if k == 20 {
        match unsigned_value(value, 0xffff_ffff_ffff_ffff) {
            Some(n) => Ok(FieldView::ThreadId(n as u64)),
            None => Err(ParseErrorView::ThreadIdUnparsable(value)),
        }
    } else {
        Ok(FieldView::Text(value))
    }
}

/// One fixed field, read.
enum FieldValue {
    Text(String),
    Request(AGIRequestType),
    Priority(u16),
    Enhanced(bool),
    ThreadId(u64),
}

impl View for FieldValue {
    type V = FieldView;

    closed spec fn view(&self) -> FieldView {
        match self {
            FieldValue::Text(x) => FieldView::Text(x@),
            FieldValue::Request(x) => FieldView::Request(x@),
            FieldValue::Priority(x) => FieldView::Priority(*x),
            FieldValue::Enhanced(x) => FieldView::Enhanced(*x),
            FieldValue::ThreadId(x) => FieldView::ThreadId(*x),
        }
    }
}

/// Reads the value of `agi_enhanced`.
pub fn enhanced_status(input: &str) -> (r: Result<bool, AGIParseError>)
    ensures
        parsed_flag(r) == field_value(18, input@),
{
    let v = to_chars(input);
    if is_text(v.as_slice(), "0.0") {
        return Ok(false);
    }
    if is_text(v.as_slice(), "1.0") {
        return Ok(true);
    }
    Err(AGIParseError::EnhancedUnparsable(input.to_owned()))
}

/// The view of what `enhanced_status` returns.
pub open spec fn parsed_flag(r: Result<bool, AGIParseError>) -> Result<FieldView, ParseErrorView> {
    match r {
        Ok(b) => Ok(FieldView::Enhanced(b)),
        Err(e) => Err(e@),
    }
}

fn parse_field(k: usize, value: &[char]) -> (r: Result<FieldValue, AGIParseError>)
    requires
        k < FIELD_COUNT,
    ensures
        parsed(r) == field_value(k as int, value@),
        r matches Ok(v) ==> well_kinded(k as int, v@),
{
    if k == 1 {
        let text = to_string(value);
        match AGIRequestType::parse(text.as_str()) {
            Ok(req) => Ok(FieldValue::Request(req)),
            Err(e) => Err(e),
        }
    } else if k == 17 {
        match parse_unsigned(value, 0xffff) {
            Some(n) => Ok(FieldValue::Priority(n as u16)),
            None => Err(AGIParseError::PriorityUnparsable(to_string(value))),
        }
    } else if k == 18 {
        let text = to_string(value);
        match enhanced_status(text.as_str()) {
            Ok(b) => Ok(FieldValue::Enhanced(b)),
            Err(e) => Err(e),
        }
    } else if k == 20 {
        match parse_unsigned(value, 0xffff_ffff_ffff_ffff) {
            Some(n) => Ok(FieldValue::ThreadId(n)),
            None => Err(AGIParseError::ThreadIdUnparsable(to_string(value))),
        }
    } else {
        Ok(FieldValue::Text(to_string(value)))
    }
}

// ---------------------------------------------------------------------------
// The variable dump
// ---------------------------------------------------------------------------
/// The variables that Asterisk sends at the start of a call, after
/// `agi_network: yes`. Each field holds what Asterisk sent under the name
/// `agi_<field>` (`channel_type` under `agi_type`).
#[derive(Debug, PartialEq, Eq)]
pub struct AGIVariableDump {
    pub network_script: String,
    pub request: AGIRequestType,
    pub channel: String,
    pub language: String,
    pub channel_type: String,
    pub uniqueid: String,
    pub version: String,
    pub callerid: String,
    pub calleridname: String,
    pub callingpres: String,
    pub callingani2: String,
    pub callington: String,
    pub callingtns: String,
    pub dnid: String,
    pub rdnis: String,
    pub context: String,
    pub extension: String,
    pub priority: u16,
    pub enhanced: bool,
    pub accountcode: String,
    pub threadid: u64,
    /// The arguments sent as `agi_arg_<n>`, each under its `n`
    pub custom_args: HashMap<u8, String>,
}

/// The mathematical value of an [`AGIVariableDump`].
pub struct DumpView {
    pub network_script: Seq<char>,
    pub request: RequestView,
    pub channel: Seq<char>,
    pub language: Seq<char>,
    pub channel_type: Seq<char>,
    pub uniqueid: Seq<char>,
    pub version: Seq<char>,
    pub callerid: Seq<char>,
    pub calleridname: Seq<char>,
    pub callingpres: Seq<char>,
    pub callingani2: Seq<char>,
    pub callington: Seq<char>,
    pub callingtns: Seq<char>,
    pub dnid: Seq<char>,
    pub rdnis: Seq<char>,
    pub context: Seq<char>,
    pub extension: Seq<char>,
    pub priority: u16,
    pub enhanced: bool,
    pub accountcode: Seq<char>,
    pub threadid: u64,
    pub custom_args: Map<u8, Seq<char>>,
}

/// The texts of the custom arguments.
pub open spec fn arg_texts(m: Map<u8, String>) -> Map<u8, Seq<char>> {
    Map::new(|n: u8| m.contains_key(n), |n: u8| m[n]@)
}

impl View for AGIVariableDump {
    type V = DumpView;

    open spec fn view(&self) -> DumpView {
        DumpView {
            network_script: self.network_script@,
            request: self.request@,
            channel: self.channel@,
            language: self.language@,
            channel_type: self.channel_type@,
            uniqueid: self.uniqueid@,
            version: self.version@,
            callerid: self.callerid@,
            calleridname: self.calleridname@,
            callingpres: self.callingpres@,
            callingani2: self.callingani2@,
            callington: self.callington@,
            callingtns: self.callingtns@,
            dnid: self.dnid@,
            rdnis: self.rdnis@,
            context: self.context@,
            extension: self.extension@,
            priority: self.priority,
            enhanced: self.enhanced,
            accountcode: self.accountcode@,
            threadid: self.threadid,
            custom_args: arg_texts(self.custom_args@),
        }
    }
}

/// What has been read of a variable dump so far: each fixed field that was
/// seen, by its number, and the custom arguments.
pub struct DraftView {
    pub fields: Seq<Option<FieldView>>,
    pub custom_args: Map<u8, Seq<char>>,
}

/// Nothing read yet.
pub open spec fn empty_draft() -> DraftView {
    DraftView {
        fields: Seq::new(FIELD_COUNT as nat, |k: int| None::<FieldView>),
        custom_args: Map::empty(),
    }
}

/// Every fixed field that was read holds a value of its kind.
pub open spec fn draft_wf(d: DraftView) -> bool {
    &&& d.fields.len() == FIELD_COUNT
    &&& forall|k: int|
        0 <= k < FIELD_COUNT && d.fields[k] is Some ==> well_kinded(k, #[trigger] d.fields[k]->0)
}

/// The name of a line `name: value`: what stands before the first `": "`.
pub open spec fn line_name(line: Seq<char>) -> Seq<char> {
    line.take(first_occurrence(line, ": "@))
}

/// The value of a line `name: value`: what stands between the first `": "`
/// and the next one, or the end of the line, without trailing whitespace.
/// `None` where the line holds no `": "`.
pub open spec fn line_value(line: Seq<char>) -> Option<Seq<char>> {
    let p = first_occurrence(line, ": "@);
    if p < line.len() {
        let after = line.skip(p + 2);
        Some(trimmed_end(after.take(first_occurrence(after, ": "@))))
    } else {
        None
    }
}

/// The index that the name `agi_arg_<n>` of a custom argument writes.
pub open spec fn custom_index(name: Seq<char>) -> Option<nat> {
    unsigned_value(name.skip(8), 255)
}

/// The draft after one more line, or the error that the line is refused with.
pub open spec fn dump_line(d: DraftView, line: Seq<char>) -> Result<DraftView, ParseErrorView> {
    match line_value(line) {
        None => Err(ParseErrorView::NoValue(line)),
        Some(value) => {
            let name = line_name(line);
            match field_of_name(name) {
                Some(k) => match field_value(k, value) {
                    Ok(v) => Ok(
                        DraftView { fields: d.fields.update(k, Some(v)), custom_args: d.custom_args },
                    ),
                    Err(e) => Err(e),
                },
                None => if !has_prefix(name, "agi_arg_"@) {
                    Err(ParseErrorView::UnknownArg(name))
                } else {
                    match custom_index(name) {
                        None => Err(ParseErrorView::CustomArgNumberUnparsable(name)),
                        Some(n) => if d.custom_args.contains_key(n as u8) {
                            Err(ParseErrorView::DuplicateCustomArg(name))
                        } else {
                            Ok(
                                DraftView {
                                    fields: d.fields,
                                    custom_args: d.custom_args.insert(n as u8, value),
                                },
                            )
                        },
                    }
                },
            }
        },
    }
}

/// The first line of `text`, without its line ending (`\n` or `\r\n`).
pub open spec fn first_line(text: Seq<char>) -> Seq<char> {
    let nl = first_index_of(text, '\n');
    let raw = text.take(nl);
    if nl < text.len() && raw.len() > 0 && raw.last() == '\r' {
        raw.drop_last()
    } else {
        raw
    }
}

/// What follows the first line of `text`.
pub open spec fn after_first_line(text: Seq<char>) -> Seq<char> {
    let nl = first_index_of(text, '\n');
    if 0 <= nl < text.len() {
        text.skip(nl + 1)
    } else {
        Seq::empty()
    }
}

/// The draft after the lines of `text`, up to its end or its first empty
/// line, or the error of the first line that is refused.
pub open spec fn dump_lines(text: Seq<char>, d: DraftView) -> Result<DraftView, ParseErrorView>
    decreases text.len(),
{
    if text.len() == 0 || first_line(text).len() == 0 {
        Ok(d)
    } else {
        match dump_line(d, first_line(text)) {
            Ok(next) => dump_lines(after_first_line(text), next),
            Err(e) => Err(e),
        }
    }
}

/// The first fixed field at or after `k` that was not read; `FIELD_COUNT` if all were.
pub open spec fn missing_from(fields: Seq<Option<FieldView>>, k: int) -> int
    decreases FIELD_COUNT - k,
{
    if k < 0 || k >= FIELD_COUNT {
        FIELD_COUNT as int
    } else if fields[k] is None {
        k
    } else {
        missing_from(fields, k + 1)
    }
}

/// The variable dump that a complete draft holds.
pub open spec fn dump_of_draft(d: DraftView) -> DumpView {
    DumpView {
        network_script: d.fields[0]->0->Text_0,
        request: d.fields[1]->0->Request_0,
        channel: d.fields[2]->0->Text_0,
        language: d.fields[3]->0->Text_0,
        channel_type: d.fields[4]->0->Text_0,
        uniqueid: d.fields[5]->0->Text_0,
        version: d.fields[6]->0->Text_0,
        callerid: d.fields[7]->0->Text_0,
        calleridname: d.fields[8]->0->Text_0,
        callingpres: d.fields[9]->0->Text_0,
        callingani2: d.fields[10]->0->Text_0,
        callington: d.fields[11]->0->Text_0,
        callingtns: d.fields[12]->0->Text_0,
        dnid: d.fields[13]->0->Text_0,
        rdnis: d.fields[14]->0->Text_0,
        context: d.fields[15]->0->Text_0,
        extension: d.fields[16]->0->Text_0,
        priority: d.fields[17]->0->Priority_0,
        enhanced: d.fields[18]->0->Enhanced_0,
        accountcode: d.fields[19]->0->Text_0,
        threadid: d.fields[20]->0->ThreadId_0,
        custom_args: d.custom_args,
    }
}

/// What a draft amounts to: a variable dump when every fixed field was
/// read, else the first missing field in the order of the struct's fields.
pub open spec fn finished(d: DraftView) -> Result<DumpView, ParseErrorView> {
    if missing_from(d.fields, 0) < FIELD_COUNT {
        Err(ParseErrorView::VariableMissing(field_label(missing_from(d.fields, 0))))
    } else {
        Ok(dump_of_draft(d))
    }
}

/// What the text of a variable dump means.
///
/// The text is read line by line, up to its end or its first empty line.
/// Each line is `name: value`. The first line that cannot be taken decides
/// the error. A fixed field that comes twice keeps its last value; a custom
/// argument that comes twice is an error. In the end every fixed field must
/// have been read.
pub open spec fn dump_of(text: Seq<char>) -> Result<DumpView, ParseErrorView> {
    match dump_lines(text, empty_draft()) {
        Ok(d) => finished(d),
        Err(e) => Err(e),
    }
}

/// What has been read of a variable dump so far.
struct Draft {
    fields: Vec<Option<FieldValue>>,
    custom_args: HashMap<u8, String>,
}

spec fn field_option_view(o: Option<FieldValue>) -> Option<FieldView> {
    match o {
        Some(v) => Some(v@),
        None => None,
    }
}

impl View for Draft {
    type V = DraftView;

    closed spec fn view(&self) -> DraftView {
        DraftView {
            fields: Seq::new(self.fields@.len(), |k: int| field_option_view(self.fields@[k])),
            custom_args: arg_texts(self.custom_args@),
        }
    }
}

/// Cuts `text` after its first line.
fn split_line(text: &[char]) -> (r: (&[char], &[char]))
    ensures
        r.0@ == first_line(text@),
        r.1@ == after_first_line(text@),
{
    let nl = find_char(text, '\n');
    let rest = if nl < text.len() {
        slice_subrange(text, nl + 1, text.len())
    } else {
        slice_subrange(text, text.len(), text.len())
    };
    if nl < text.len() && nl > 0 && text[nl - 1] == '\r' {
        assert(text@.take(nl as int).drop_last() == text@.subrange(0, nl - 1));
        (slice_subrange(text, 0, nl - 1), rest)
    } else {
        (slice_subrange(text, 0, nl), rest)
    }
}

impl Draft {
    fn new() -> (d: Draft)
        ensures
            d@ == empty_draft(),
            draft_wf(d@),
    {
        let mut fields: Vec<Option<FieldValue>> = Vec::new();
        let mut k: usize = 0;
        while k < FIELD_COUNT
            invariant
                k <= FIELD_COUNT,
                fields@.len() == k,
                forall|i: int| 0 <= i < k ==> fields@[i] is None,
            decreases FIELD_COUNT - k,
        {
            fields.push(None);
            k += 1;
        }
        let d = Draft { fields, custom_args: HashMap::new() };
        proof {
            assert(d@.fields =~= empty_draft().fields);
            assert(d@.custom_args =~= empty_draft().custom_args);
        }
        d
    }

    /// Takes one more line.
    fn apply_line(&mut self, line: &[char]) -> (r: Result<(), AGIParseError>)
        requires
            draft_wf(old(self)@),
        ensures
            match r {
                Ok(()) => dump_line(old(self)@, line@) == Ok::<DraftView, ParseErrorView>(
                    final(self)@,
                ) && draft_wf(final(self)@),
                Err(e) => dump_line(old(self)@, line@) == Err::<DraftView, ParseErrorView>(e@),
            },
    {
        broadcast use group_hash_axioms;

        proof {
            reveal_strlit(": ");
            reveal_strlit("agi_arg_");
        }
        let sep = to_chars(": ");
        let p = find_sub(line, sep.as_slice());
        if p == line.len() {
            return Err(AGIParseError::NoValue(to_string(line)));
        }
        let name = slice_subrange(line, 0, p);
        let after = slice_subrange(line, p + 2, line.len());
        let q = find_sub(after, sep.as_slice());
        let value = trim_end(slice_subrange(after, 0, q));
        match find_field(name) {
            Some(k) => {
                let v = parse_field(k, value)?;
                let ghost before = self@;
                self.fields.set(k, Some(v));
                proof {
                    assert(self@.fields =~= before.fields.update(k as int, Some(v@)));
                }
                Ok(())
            },
            None => {
                if !starts_with(name, "agi_arg_") {
                    return Err(AGIParseError::UnknownArg(to_string(name)));
                }
                let n: u8 = match parse_unsigned(slice_subrange(name, 8, name.len()), 255) {
                    Some(n) => n as u8,
                    None => {
                        return Err(AGIParseError::CustomArgNumberUnparsable(to_string(name)));
                    },
                };
                if self.custom_args.contains_key(&n) {
                    return Err(AGIParseError::DuplicateCustomArg(to_string(name)));
                }
                let ghost before = self@;
                let text = to_string(value);
                self.custom_args.insert(n, text);
                proof {
                    assert(self@.custom_args =~= before.custom_args.insert(n, value@));
                    assert(self@.fields =~= before.fields);
                }
                Ok(())
            },
        }
    }

    fn take_text(fields: &mut Vec<Option<FieldValue>>) -> (s: String)
        requires
            old(fields)@.len() > 0,
            old(fields)@.last() is Some,
            old(fields)@.last()->0@ is Text,
        ensures
            final(fields)@ == old(fields)@.drop_last(),
            old(fields)@.last()->0@ == FieldView::Text(s@),
    {
        match fields.pop() {
            Some(Some(FieldValue::Text(s))) => s,
            _ => unreached(),
        }
    }

    /// The variable dump that was read, or the first field that is missing.
    fn finish(self) -> (r: Result<AGIVariableDump, AGIParseError>)
        requires
            draft_wf(self@),
        ensures
            parsed(r) == finished(self@),
    {
        let mut k: usize = 0;
        while k < FIELD_COUNT
            invariant
                k <= FIELD_COUNT,
                self.fields@.len() == FIELD_COUNT,
                missing_from(self@.fields, k as int) == missing_from(self@.fields, 0),
                forall|i: int| 0 <= i < k ==> self.fields@[i] is Some,
            decreases FIELD_COUNT - k,
        {
            if self.fields[k].is_none() {
                return Err(AGIParseError::VariableMissing(field_label_of(k).to_owned()));
            }
            k += 1;
        }
        let ghost d = self@;
        let ghost all = self.fields@;
        let mut fields = self.fields;
        let custom_args = self.custom_args;
        assert(forall|i: int| 0 <= i < FIELD_COUNT ==> d.fields[i] == field_option_view(all[i]));
        assert(forall|i: int| 0 <= i < FIELD_COUNT ==> well_kinded(i, #[trigger] d.fields[i]->0));
        let threadid = match fields.pop() {
            Some(Some(FieldValue::ThreadId(x))) => x,
            _ => unreached(),
        };
        let accountcode = Self::take_text(&mut fields);
        let enhanced = match fields.pop() {
            Some(Some(FieldValue::Enhanced(x))) => x,
            _ => unreached(),
        };
        let priority = match fields.pop() {
            Some(Some(FieldValue::Priority(x))) => x,
            _ => unreached(),
        };
        let extension = Self::take_text(&mut fields);
        let context = Self::take_text(&mut fields);
        let rdnis = Self::take_text(&mut fields);
        let dnid = Self::take_text(&mut fields);
        let callingtns = Self::take_text(&mut fields);
        let callington = Self::take_text(&mut fields);
        let callingani2 = Self::take_text(&mut fields);
        let callingpres = Self::take_text(&mut fields);
        let calleridname = Self::take_text(&mut fields);
        let callerid = Self::take_text(&mut fields);
        let version = Self::take_text(&mut fields);
        let uniqueid = Self::take_text(&mut fields);
        let channel_type = Self::take_text(&mut fields);
        let language = Self::take_text(&mut fields);
        let channel = Self::take_text(&mut fields);
        let request = match fields.pop() {
            Some(Some(FieldValue::Request(x))) => x,
            _ => unreached(),
        };
        let network_script = Self::take_text(&mut fields);
        Ok(
            AGIVariableDump {
                network_script,
                request,
                channel,
                language,
                channel_type,
                uniqueid,
                version,
                callerid,
                calleridname,
                callingpres,
                callingani2,
                callington,
                callingtns,
                dnid,
                rdnis,
                context,
                extension,
                priority,
                enhanced,
                accountcode,
                threadid,
                custom_args,
            },
        )
    }
}

impl AGIVariableDump {
    /// Reads the text of a variable dump.
    pub fn parse(input: &str) -> (r: Result<AGIVariableDump, AGIParseError>)
        ensures
            parsed(r) == dump_of(input@),
    {
        let chars = to_chars(input);
        Self::parse_chars(chars.as_slice())
    }

    /// Reads the text of a variable dump, given as characters.
    pub fn parse_chars(input: &[char]) -> (r: Result<AGIVariableDump, AGIParseError>)
        ensures
            parsed(r) == dump_of(input@),
    {
        let mut draft = Draft::new();
        let mut rest: &[char] = input;
        while rest.len() > 0
            invariant
                draft_wf(draft@),
                dump_lines(rest@, draft@) == dump_lines(input@, empty_draft()),
            decreases rest@.len(),
        {
            let (line, next) = split_line(rest);
            proof {
                lemma_first_index_of(rest@, '\n');
            }
            if line.len() == 0 {
                rest = slice_subrange(rest, rest.len(), rest.len());
            } else {
                draft.apply_line(line)?;
                rest = next;
            }
        }
        draft.finish()
    }
}

impl std::str::FromStr for AGIVariableDump {
    type Err = AGIParseError;

    fn from_str(s: &str) -> (r: Result<Self, Self::Err>)
        ensures
            parsed(r) == dump_of(s@),
    {
        AGIVariableDump::parse(s)
    }
}

// ---------------------------------------------------------------------------
// Messages
// ---------------------------------------------------------------------------
/// Everything that Asterisk may send.
#[derive(Debug, PartialEq, Eq)]
pub enum AGIMessage {
    /// The variables of a call (a request)
    VariableDump(AGIVariableDump),
    /// The reply to a command
    Status(AGIStatusGeneric),
    /// The line `agi_network: yes`
    NetworkStart,
}

/// The mathematical value of an [`AGIMessage`].
pub enum MessageView {
    VariableDump(DumpView),
    Status(StatusView),
    NetworkStart,
}

impl View for AGIMessage {
    type V = MessageView;

    open spec fn view(&self) -> MessageView {
        match self {
            AGIMessage::VariableDump(d) => MessageView::VariableDump(d@),
            AGIMessage::Status(st) => MessageView::Status(st@),
            AGIMessage::NetworkStart => MessageView::NetworkStart,
        }
    }
}

/// What the text of one message means.
///
/// A text that begins with `agi_network: yes` is the network start. A text
/// that holds ` result=` anywhere is a status, read from its first line. Any
/// other text is a variable dump.
pub open spec fn message_of(text: Seq<char>) -> Result<MessageView, ParseErrorView> {
    if has_prefix(text, "agi_network: yes"@) {
        Ok(MessageView::NetworkStart)
    } else if contains(text, " result="@) {
        match status_of(head(text, '\n')) {
            Ok(st) => Ok(MessageView::Status(st)),
            Err(e) => Err(e),
        }
    } else {
        match dump_of(text) {
            Ok(d) => Ok(MessageView::VariableDump(d)),
            Err(e) => Err(e),
        }
    }
}

impl AGIMessage {
    /// Reads the text of one message.
    pub fn parse(text: &str) -> (r: Result<AGIMessage, AGIParseError>)
        ensures
            parsed(r) == message_of(text@),
    {
        let chars = to_chars(text);
        Self::parse_chars(chars.as_slice())
    }

    /// Reads the text of one message, given as characters.
    pub fn parse_chars(text: &[char]) -> (r: Result<AGIMessage, AGIParseError>)
        ensures
            parsed(r) == message_of(text@),
    {
        if starts_with(text, "agi_network: yes") {
            return Ok(AGIMessage::NetworkStart);
        }
        proof {
            reveal_strlit(" result=");
        }
        let marker = to_chars(" result=");
        if find_sub(text, marker.as_slice()) < text.len() {
            let st = AGIStatusGeneric::parse_chars(split_first(text, '\n').0)?;
            Ok(AGIMessage::Status(st))
        } else {
            let d = AGIVariableDump::parse_chars(text)?;
            Ok(AGIMessage::VariableDump(d))
        }
    }

    /// The message as text.
    pub fn to_string(&self) -> (s: String)
        ensures
            s@ == message_text(self@),
    {
        match self {
            AGIMessage::VariableDump(d) => d.to_string(),
            AGIMessage::Status(st) => st.to_string(),
            AGIMessage::NetworkStart => "agi_network: yes".to_owned(),
        }
    }
}

impl std::str::FromStr for AGIMessage {
    type Err = AGIParseError;

    fn from_str(s: &str) -> (r: Result<Self, Self::Err>)
        ensures
            parsed(r) == message_of(s@),
    {
        AGIMessage::parse(s)
    }
}

/// The text of a message.
pub open spec fn message_text(m: MessageView) -> Seq<char> {
    match m {
        MessageView::VariableDump(d) => dump_text(d),
        MessageView::Status(st) => status_text(st),
        MessageView::NetworkStart => "agi_network: yes"@,
    }
}

// ---------------------------------------------------------------------------
// Rendering a variable dump
// ---------------------------------------------------------------------------
/// The text that writes the fixed field number `k` of `d`.
pub open spec fn field_text(d: DumpView, k: int) -> Seq<char> {
    if k == 0 {
        d.network_script
    } else if k == 1 {
        request_text(d.request)
    } else if k == 2 {
        d.channel
    } else if k == 3 {
        d.language
    } else if k == 4 {
        d.channel_type
    } else if k == 5 {
        d.uniqueid
    } else if k == 6 {
        d.version
    } else if k == 7 {
        d.callerid
    } else if k == 8 {
        d.calleridname
    } else if k == 9 {
        d.callingpres
    } else if k == 10 {
        d.callingani2
    } else if k == 11 {
        d.callington
    } else if k == 12 {
        d.callingtns
    } else if k == 13 {
        d.dnid
    } else if k == 14 {
        d.rdnis
    } else if k == 15 {
        d.context
    } else if k == 16 {
        d.extension
    } else if k == 17 {
        decimal_digits(d.priority as nat)
    } else if k == 18 {
        if d.enhanced {
            "1.0"@
        } else {
            "0.0"@
        }
    } else if k == 19 {
        d.accountcode
    } else {
        decimal_digits(d.threadid as nat)
    }
}

/// One line of a variable dump: `name: value` and a newline.
pub open spec fn dump_line_text(name: Seq<char>, value: Seq<char>) -> Seq<char> {
    (name + ": "@ + value).push('\n')
}

/// The lines of the fixed fields of `d` from number `k` on.
pub open spec fn field_lines(d: DumpView, k: int) -> Seq<char>
    decreases FIELD_COUNT - k,
{
    if k < 0 || k >= FIELD_COUNT {
        Seq::empty()
    } else {
        dump_line_text(wire_name(k), field_text(d, k)) + field_lines(d, k + 1)
    }
}

/// The name under which the custom argument number `n` is sent.
pub open spec fn custom_name(n: nat) -> Seq<char> {
    "agi_arg_"@ + decimal_digits(n)
}

/// The lines of the custom arguments from number `n` on, in rising order.
pub open spec fn custom_lines(args: Map<u8, Seq<char>>, n: int) -> Seq<char>
    decreases 256 - n,
{
    if n < 0 || n >= 256 {
        Seq::empty()
    } else if args.contains_key(n as u8) {
        dump_line_text(custom_name(n as nat), args[n as u8]) + custom_lines(args, n + 1)
    } else {
        custom_lines(args, n + 1)
    }
}

/// The text of a variable dump: one line for each fixed field, in the order
/// of the struct's fields, then one for each custom argument.
pub open spec fn dump_text(d: DumpView) -> Seq<char> {
    field_lines(d, 0) + custom_lines(d.custom_args, 0)
}

impl AGIVariableDump {
    /// Appends the text of the fixed field number `k`.
    fn push_field(&self, s: &mut String, k: usize)
        requires
            k < FIELD_COUNT,
        ensures
            final(s)@ == old(s)@ + field_text(self@, k as int),
    {
        if k == 0 {
            s.append(self.network_script.as_str());
        } else if k == 1 {
            let t = self.request.to_string();
            s.append(t.as_str());
        } else if k == 2 {
            s.append(self.channel.as_str());
        } else if k == 3 {
            s.append(self.language.as_str());
        } else if k == 4 {
            s.append(self.channel_type.as_str());
        } else if k == 5 {
            s.append(self.uniqueid.as_str());
        } else if k == 6 {
            s.append(self.version.as_str());
        } else if k == 7 {
            s.append(self.callerid.as_str());
        } else if k == 8 {
            s.append(self.calleridname.as_str());
        } else if k == 9 {
            s.append(self.callingpres.as_str());
        } else if k == 10 {
            s.append(self.callingani2.as_str());
        } else if k == 11 {
            s.append(self.callington.as_str());
        } else if k == 12 {
            s.append(self.callingtns.as_str());
        } else if k == 13 {
            s.append(self.dnid.as_str());
        } else if k == 14 {
            s.append(self.rdnis.as_str());
        } else if k == 15 {
            s.append(self.context.as_str());
        } else if k == 16 {
            s.append(self.extension.as_str());
        } else if k == 17 {
            push_decimal(s, self.priority as u64);
        } else if k == 18 {
            if self.enhanced {
                s.append("1.0");
            } else {
                s.append("0.0");
            }
        } else if k == 19 {
            s.append(self.accountcode.as_str());
        } else {
            push_decimal(s, self.threadid);
        }
    }

    /// The variable dump as the text that Asterisk would send for it,
    /// without the empty line that ends it on the wire.
    pub fn to_string(&self) -> (s: String)
        ensures
            s@ == dump_text(self@),
    {
        broadcast use group_hash_axioms;

        let mut s = String::new();
        let mut k: usize = 0;
        while k < FIELD_COUNT
            invariant
                k <= FIELD_COUNT,
                s@ + field_lines(self@, k as int) == field_lines(self@, 0),
            decreases FIELD_COUNT - k,
        {
            let ghost before = s@;
            s.append(wire_name_of(k));
            s.append(": ");
            self.push_field(&mut s, k);
            s.push('\n');
            proof {
                assert(s@ == before + dump_line_text(wire_name(k as int), field_text(self@, k as int)));
                assert(s@ + field_lines(self@, k + 1) == before + field_lines(self@, k as int));
            }
            k += 1;
        }
        assert(s@ == field_lines(self@, 0));
        let mut n: usize = 0;
        while n < 256
            invariant
                n <= 256,
                s@ + custom_lines(self@.custom_args, n as int) == dump_text(self@),
            decreases 256 - n,
        {
            let key: u8 = n as u8;
            match self.custom_args.get(&key) {
                Some(value) => {
                    let ghost before = s@;
                    s.append("agi_arg_");
                    push_decimal(&mut s, n as u64);
                    s.append(": ");
                    s.append(value.as_str());
                    s.push('\n');
                    proof {
                        assert(self@.custom_args[key] == value@);
                        assert(s@ == before + dump_line_text(custom_name(n as nat), value@));
                        assert(s@ + custom_lines(self@.custom_args, n + 1) == before + custom_lines(
                            self@.custom_args,
                            n as int,
                        ));
                    }
                },
                None => {},
            }
            n += 1;
        }
        assert(s@ == dump_text(self@));
        s
    }
}

// ---------------------------------------------------------------------------
// The text of an error
// ---------------------------------------------------------------------------
/// What an error says.
pub open spec fn error_text(e: ParseErrorView) -> Seq<char> {
    match e {
        ParseErrorView::NoValue(x) => "The line "@ + x + " contained no value."@,
        ParseErrorView::PriorityUnparsable(x) => "The value "@ + x
            + " is not parsable as priority."@,
        ParseErrorView::ThreadIdUnparsable(x) => "The value "@ + x
            + " is not parsable as thread ID."@,
        ParseErrorView::EnhancedUnparsable(x) => "The value "@ + x
            + " is not parsable as enhanced status."@,
        ParseErrorView::UnknownArg(x) => "The argument "@ + x + " is not known."@,
        ParseErrorView::CustomArgNumberUnparsable(x) => "The argument "@ + x
            + " has no parsable custom arg number."@,
        ParseErrorView::DuplicateCustomArg(x) => "The argument "@ + x
            + " was passed multiple times."@,
        ParseErrorView::VariableMissing(x) => "The argument "@ + x
            + " is required but was not passed."@,
        ParseErrorView::NoStatusCode(x) => "The status line "@ + x + " has no status code."@,
        ParseErrorView::StatusCodeUnparsable(x) => "The status code in status line "@ + x
            + " is not parsable."@,
        ParseErrorView::NoResult(x) => "The status line "@ + x + " has no result."@,
        ParseErrorView::ResultUnparsable(x) => "The result in status line "@ + x
            + " is not parsable."@,
        ParseErrorView::NoBytes => "There are no bytes to read."@,
        ParseErrorView::NotUtf8 => "The input is not utf8"@,
        ParseErrorView::StatusWithoutNewline => "A status message was contained in a buffer without a newline"@,
        ParseErrorView::StatusDoesNotExist(x) => "The status code "@ + decimal_digits(x as nat)
            + " does not exist"@,
        ParseErrorView::ReadError => "Unable to read literal bytes from TcpStream"@,
        ParseErrorView::NetworkStartAfterOtherMessage => "There was a line `agi_network: yes` after another message."@,
    }
}

/// `x` with a text before it and one after it.
pub fn framed(before: &str, x: &str, after: &str) -> (s: String)
    ensures
        s@ == before@ + x@ + after@,
{
    let mut s = String::new();
    s.append(before);
    s.append(x);
    s.append(after);
    s
}

impl AGIParseError {
    /// What the error says.
    pub fn to_string(&self) -> (s: String)
        ensures
            s@ == error_text(self@),
    {
        match self {
            AGIParseError::NoValue(x) => framed("The line ", x.as_str(), " contained no value."),
            AGIParseError::PriorityUnparsable(x) => framed(
                "The value ",
                x.as_str(),
                " is not parsable as priority.",
            ),
            AGIParseError::ThreadIdUnparsable(x) => framed(
                "The value ",
                x.as_str(),
                " is not parsable as thread ID.",
            ),
            AGIParseError::EnhancedUnparsable(x) => framed(
                "The value ",
                x.as_str(),
                " is not parsable as enhanced status.",
            ),
            AGIParseError::UnknownArg(x) => framed("The argument ", x.as_str(), " is not known."),
            AGIParseError::CustomArgNumberUnparsable(x) => framed(
                "The argument ",
                x.as_str(),
                " has no parsable custom arg number.",
            ),
            AGIParseError::DuplicateCustomArg(x) => framed(
                "The argument ",
                x.as_str(),
                " was passed multiple times.",
            ),
            AGIParseError::VariableMissing(x) => framed(
                "The argument ",
                x.as_str(),
                " is required but was not passed.",
            ),
            AGIParseError::NoStatusCode(x) => framed(
                "The status line ",
                x.as_str(),
                " has no status code.",
            ),
            AGIParseError::StatusCodeUnparsable(x) => framed(
                "The status code in status line ",
                x.as_str(),
                " is not parsable.",
            ),
            AGIParseError::NoResult(x) => framed("The status line ", x.as_str(), " has no result."),
            AGIParseError::ResultUnparsable(x) => framed(
                "The result in status line ",
                x.as_str(),
                " is not parsable.",
            ),
            AGIParseError::NoBytes => "There are no bytes to read.".to_owned(),
            AGIParseError::NotUtf8 => "The input is not utf8".to_owned(),
            AGIParseError::StatusWithoutNewline => "A status message was contained in a buffer without a newline".to_owned(),
            AGIParseError::StatusDoesNotExist(x) => {
                let mut s = String::new();
                s.append("The status code ");
                push_decimal(&mut s, *x as u64);
                s.append(" does not exist");
                s
            },
            AGIParseError::ReadError => "Unable to read literal bytes from TcpStream".to_owned(),
            AGIParseError::NetworkStartAfterOtherMessage => "There was a line `agi_network: yes` after another message.".to_owned(),
        }
    }
}

// ---------------------------------------------------------------------------
// Custom arguments come once
// ---------------------------------------------------------------------------
/// The lines of `text` that are read as a variable dump: those before its
/// end or its first empty line.
pub open spec fn lines_read(text: Seq<char>) -> Seq<Seq<char>>
    decreases text.len(),
{
    if text.len() == 0 || first_line(text).len() == 0 {
        Seq::empty()
    } else {
        seq![first_line(text)] + lines_read(after_first_line(text))
    }
}

/// Whether `line` gives the custom argument number `n`.
pub open spec fn is_custom_line(line: Seq<char>, n: nat) -> bool {
    &&& line_value(line) is Some
    &&& field_of_name(line_name(line)) is None
    &&& has_prefix(line_name(line), "agi_arg_"@)
    &&& custom_index(line_name(line)) == Some(n)
}

/// Once the custom argument number `n` was read, a text with one more line
/// for it is refused.
proof fn lemma_second_custom_line(text: Seq<char>, d: DraftView, j: int, n: nat)
    requires
        n <= 255,
        d.custom_args.contains_key(n as u8),
        0 <= j < lines_read(text).len(),
        is_custom_line(lines_read(text)[j], n),
    ensures
        dump_lines(text, d) is Err,
    decreases text.len(),
{
    let rest = lines_read(after_first_line(text));
    if j > 0 {
        assert(lines_read(text)[j] == rest[j - 1]);
        match dump_line(d, first_line(text)) {
            Ok(next) => {
                lemma_second_custom_line(after_first_line(text), next, j - 1, n);
            },
            Err(_) => {},
        }
    }
}

/// Custom-args uniqueness: a text in which two of the lines that are read
/// give the custom argument of the same number is never accepted.
pub proof fn lemma_custom_args_unique(text: Seq<char>, i: int, j: int, n: nat)
    requires
        0 <= i < j < lines_read(text).len(),
        is_custom_line(lines_read(text)[i], n),
        is_custom_line(lines_read(text)[j], n),
    ensures
        dump_of(text) is Err,
        message_of(text) is Ok ==> !(message_of(text)->Ok_0 is VariableDump),
{
    lemma_two_custom_lines(text, empty_draft(), i, j, n);
}

proof fn lemma_two_custom_lines(text: Seq<char>, d: DraftView, i: int, j: int, n: nat)
    requires
        0 <= i < j < lines_read(text).len(),
        is_custom_line(lines_read(text)[i], n),
        is_custom_line(lines_read(text)[j], n),
    ensures
        dump_lines(text, d) is Err,
    decreases text.len(),
{
    let rest = lines_read(after_first_line(text));
    assert(lines_read(text)[j] == rest[j - 1]);
    match dump_line(d, first_line(text)) {
        Ok(next) => {
            if i == 0 {
                assert(n <= 255);
                assert(next.custom_args.contains_key(n as u8));
                lemma_second_custom_line(after_first_line(text), next, j - 1, n);
            } else {
                assert(lines_read(text)[i] == rest[i - 1]);
                lemma_two_custom_lines(after_first_line(text), next, i - 1, j - 1, n);
            }
        },
        Err(_) => {},
    }
}

} // verus!
