//! The core of a FastAGI server: Asterisk opens one TCP connection per call
//! and drives a script over it. This library reads what Asterisk sends,
//! renders the commands that go back and reads their replies, and chooses
//! the handler for a call by the URL that was asked for.
//!
//! Nothing here touches a socket: the functions take the bytes that were
//! read and say what to send or do next.
use crate::agiparse::{
    error_text, message_text, status_text, AGIMessage, AGIParseError, AGIStatusGeneric,
    AGIVariableDump,
};
use crate::router::Captures;
use crate::text::{decimal_digits, push_decimal};
use vstd::prelude::*;

pub mod agiparse;
pub mod command;
pub mod connection;
pub mod handler;
pub mod layer;
pub mod round_trip;
pub mod router;
pub mod serve;
pub mod text;

verus! {

/// Everything that can go wrong while a call is served.
#[derive(Debug)]
pub enum AGIError {
    /// A fault of the handler itself, as text
    InnerError(String),
    /// The handler found that Asterisk asked for something it must not
    /// have, and wants the call to end
    ClientSideError(String),
    /// A 200 status was expected, but this one came
    Not200(u16),
    /// The request was no FastAGI request
    NotFastAGI(AGIRequest),
    /// The URL of the request has another scheme than `agi`
    WrongSchema(String),
    /// A handler needs so many custom arguments (first), but only so many came (second)
    NotEnoughCustomVariables(u8, u8),
    /// The listener failed
    CannotSpawnListener,
    /// Writing a command to the stream failed, for the reason given as text
    CannotSendCommand(String),
    /// What Asterisk sent could not be read
    ParseError(AGIParseError),
    /// A command was sent, and what came back is no status
    NotAStatus(AGIMessage),
    /// A 200 status came back that is no reply to the command that was sent
    AGIStatusUnspecializable(AGIStatusGeneric, &'static str),
}

/// What an [`AGIError`] says.
pub open spec fn agi_error_text(e: AGIError) -> Seq<char> {
    match e {
        AGIError::NotFastAGI(_) => "The request is not a FastAGI request"@,
        AGIError::WrongSchema(x) => "The schema "@ + x@ + " is not known"@,
        AGIError::NotEnoughCustomVariables(x, y) => "There are only "@ + decimal_digits(x as nat)
            + " custom variables, but "@ + decimal_digits(y as nat) + " are required"@,
        AGIError::CannotSpawnListener => "Unable to spawn the TCP listener"@,
        AGIError::CannotSendCommand(x) => "Unable to send an AGI command: "@ + x@,
        AGIError::ParseError(x) => "Unable to parse packet: "@ + error_text(x@),
        AGIError::NotAStatus(x) => "Sent a Command, but the response was not a Status: "@
            + message_text(x@),
        AGIError::InnerError(x) => "InnerError: "@ + x@,
        AGIError::Not200(x) => "Handler expected 200-response, but got "@ + decimal_digits(
            x as nat,
        ),
        AGIError::ClientSideError(x) => "Error on the Client side: "@ + x@,
        AGIError::AGIStatusUnspecializable(x, y) => "I am unable to specialize "@ + status_text(x@)
            + " as a response to "@ + y@,
    }
}

impl AGIError {
    /// What the error says.
    pub fn to_string(&self) -> (s: String)
        ensures
            s@ == agi_error_text(*self),
    {
        let mut s = String::new();
        match self {
            AGIError::NotFastAGI(_) => {
                s.append("The request is not a FastAGI request");
            },
            AGIError::WrongSchema(x) => {
                s.append("The schema ");
                s.append(x.as_str());
                s.append(" is not known");
            },
            AGIError::NotEnoughCustomVariables(x, y) => {
                s.append("There are only ");
                push_decimal(&mut s, *x as u64);
                s.append(" custom variables, but ");
                push_decimal(&mut s, *y as u64);
                s.append(" are required");
            },
            AGIError::CannotSpawnListener => {
                s.append("Unable to spawn the TCP listener");
            },
            AGIError::CannotSendCommand(x) => {
                s.append("Unable to send an AGI command: ");
                s.append(x.as_str());
            },
            AGIError::ParseError(x) => {
                s.append("Unable to parse packet: ");
                let t = x.to_string();
                s.append(t.as_str());
            },
            AGIError::NotAStatus(x) => {
                s.append("Sent a Command, but the response was not a Status: ");
                let t = x.to_string();
                s.append(t.as_str());
            },
            AGIError::InnerError(x) => {
                s.append("InnerError: ");
                s.append(x.as_str());
            },
            AGIError::Not200(x) => {
                s.append("Handler expected 200-response, but got ");
                push_decimal(&mut s, *x as u64);
            },
            AGIError::ClientSideError(x) => {
                s.append("Error on the Client side: ");
                s.append(x.as_str());
            },
            AGIError::AGIStatusUnspecializable(x, y) => {
                s.append("I am unable to specialize ");
                let t = x.to_string();
                s.append(t.as_str());
                s.append(" as a response to ");
                s.append(y);
            },
        }
        s
    }
}

/// What a handler is given of the request that it serves.
#[derive(Debug, PartialEq)]
pub struct AGIRequest {
    /// The variables that Asterisk sent
    pub variables: AGIVariableDump,
    /// The path segments of the URL that the `:name` segments of the route
    /// matched, each under its name
    pub captures: Captures,
    /// The rest of the URL's path that the `*` segment of the route matched
    pub wildcards: Option<String>,
}

} // verus!
