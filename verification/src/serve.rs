//! The states that one call goes through, and what to do in each.
//!
//! A call begins with the line `agi_network: yes`, then sends its
//! variables, then is served by the handler that the router finds for its
//! URL. [`Router::handle`] takes the state of a call and what happened
//! last, and says the next state and what to do next. Reading from the
//! stream and running a handler are left to the caller.
use crate::agiparse::{
    text_view, AGIMessage, AGIParseError, AGIRequestType, AGIVariableDump, RequestView,
};
use crate::handler::Handler;
use crate::router::{routed, Router};
use crate::text::{is_text, to_chars};
use crate::{AGIError, AGIRequest};
use vstd::prelude::*;

verus! {

/// Where a call stands.
#[derive(Debug, Clone, Copy, PartialEq, Eq, Structural)]
pub enum SessionState {
    /// Nothing was read yet: `agi_network: yes` is expected
    NetworkStartWait,
    /// The network start was read: the variables are expected
    VariableDumpWait,
    /// The handler is running
    HandlerRunning,
    /// The call is over
    Closed,
}

/// How loudly the end of a call is logged.
#[derive(Debug, Clone, Copy, PartialEq, Eq, Structural)]
pub enum LogLevel {
    /// Not at all
    Silent,
    Debug,
    Info,
    Warn,
}

/// Why a call was closed.
#[derive(Debug)]
pub enum Closing {
    /// Reading a message failed
    ReadFailed(AGIParseError),
    /// The first message was not the network start
    NotNetworkStart(AGIMessage),
    /// The second message was not a variable dump
    NotVariableDump(AGIMessage),
    /// The request is a file path, not a URL
    NotFastAGI(AGIVariableDump),
    /// The URL of the request has another scheme than `agi`
    WrongSchema(AGIVariableDump),
    /// The handler found the peer at fault and asked to end the call
    ClientSideError(String),
    /// The handler failed
    HandlerFailed(AGIError),
    /// The handler succeeded
    Done,
    /// What happened does not fit the state of the call
    OutOfTurn,
}

/// What happened last in a call.
#[derive(Debug)]
pub enum SessionEvent {
    /// The call was accepted: nothing happened yet
    Accepted,
    /// A message was read, or reading failed
    Read(Result<AGIMessage, AGIParseError>),
    /// The handler returned
    HandlerReturned(Result<(), AGIError>),
}

/// What to do next in a call.
#[derive(Debug)]
pub enum SessionAction<'a, U> {
    /// Read one message and report it
    Read,
    /// Run this handler on this request and report what it returned
    Run(&'a Handler<U>, AGIRequest),
    /// Close the connection
    Close(Closing),
}

/// How loudly a call that ends for the reason `c` is logged.
///
/// A remote end that closed is not logged. A transport or encoding error
/// and a protocol violation are warnings, and so is a handler that failed.
/// Everything else that ends a call early is worth a note; a call that was
/// served is logged for debugging only.
pub open spec fn log_level_of(c: Closing) -> LogLevel {
    match c {
        Closing::ReadFailed(AGIParseError::NoBytes) => LogLevel::Silent,
        Closing::ReadFailed(AGIParseError::NotUtf8) => LogLevel::Warn,
        Closing::ReadFailed(AGIParseError::ReadError) => LogLevel::Warn,
        Closing::ReadFailed(AGIParseError::NetworkStartAfterOtherMessage) => LogLevel::Warn,
        Closing::ReadFailed(_) => LogLevel::Info,
        Closing::NotNetworkStart(_) => LogLevel::Info,
        Closing::NotVariableDump(_) => LogLevel::Info,
        Closing::NotFastAGI(_) => LogLevel::Info,
        Closing::WrongSchema(_) => LogLevel::Info,
        Closing::ClientSideError(_) => LogLevel::Info,
        Closing::HandlerFailed(_) => LogLevel::Warn,
        Closing::Done => LogLevel::Debug,
        Closing::OutOfTurn => LogLevel::Warn,
    }
}

impl Closing {
    /// How loudly the end of the call is logged.
    pub fn log_level(&self) -> (l: LogLevel)
        ensures
            l == log_level_of(*self),
    {
        match self {
            Closing::ReadFailed(AGIParseError::NoBytes) => LogLevel::Silent,
            Closing::ReadFailed(AGIParseError::NotUtf8) => LogLevel::Warn,
            Closing::ReadFailed(AGIParseError::ReadError) => LogLevel::Warn,
            Closing::ReadFailed(AGIParseError::NetworkStartAfterOtherMessage) => LogLevel::Warn,
            Closing::ReadFailed(_) => LogLevel::Info,
            Closing::NotNetworkStart(_) => LogLevel::Info,
            Closing::NotVariableDump(_) => LogLevel::Info,
            Closing::NotFastAGI(_) => LogLevel::Info,
            Closing::WrongSchema(_) => LogLevel::Info,
            Closing::ClientSideError(_) => LogLevel::Info,
            Closing::HandlerFailed(_) => LogLevel::Warn,
            Closing::Done => LogLevel::Debug,
            Closing::OutOfTurn => LogLevel::Warn,
        }
    }
}

/// Whether the router `r` serves a call with the variables `d`: its
/// request is a URL with the scheme `agi`.
pub open spec fn is_served(d: AGIVariableDump) -> bool {
    d@.request matches RequestView::FastAGI(u) && u.scheme == "agi"@
}

/// Whether `next` and `action` are the state and the action that follow
/// when `event` happens to a call in the state `state` that the router `r`
/// serves.
///
/// A call goes from the wait for the network start to the wait for the
/// variables to the handler, and is closed from there. Whatever does not
/// fit closes it at once; a closed call stays closed.
pub open spec fn follows<'a, U>(
    r: &'a Router<U>,
    state: SessionState,
    event: SessionEvent,
    next: SessionState,
    action: SessionAction<'a, U>,
) -> bool {
    match (state, event) {
        (SessionState::NetworkStartWait, SessionEvent::Accepted) => next
            == SessionState::NetworkStartWait && action is Read,
        (SessionState::NetworkStartWait, SessionEvent::Read(Ok(AGIMessage::NetworkStart))) => next
            == SessionState::VariableDumpWait && action is Read,
        (SessionState::NetworkStartWait, SessionEvent::Read(Ok(m))) => next == SessionState::Closed
            && action == SessionAction::<'a, U>::Close(Closing::NotNetworkStart(m)),
        (SessionState::NetworkStartWait, SessionEvent::Read(Err(e))) => next
            == SessionState::Closed && action == SessionAction::<'a, U>::Close(
            Closing::ReadFailed(e),
        ),
        (SessionState::VariableDumpWait, SessionEvent::Read(Ok(AGIMessage::VariableDump(d)))) => {
            match d@.request {
                RequestView::FastAGI(u) => if u.scheme == "agi"@ {
                    &&& next == SessionState::HandlerRunning
                    &&& action matches SessionAction::Run(h, request)
                    &&& *h == routed(r@, u.path_segments).handler
                    &&& request.variables == d
                    &&& request.captures@ == routed(r@, u.path_segments).captures
                    &&& text_view(request.wildcards) == routed(r@, u.path_segments).wildcards
                } else {
                    next == SessionState::Closed && action == SessionAction::<'a, U>::Close(
                        Closing::WrongSchema(d),
                    )
                },
                RequestView::File(_) => next == SessionState::Closed && action == SessionAction::<
                    'a,
                    U,
                >::Close(Closing::NotFastAGI(d)),
            }
        },
        (SessionState::VariableDumpWait, SessionEvent::Read(Ok(m))) => next == SessionState::Closed
            && action == SessionAction::<'a, U>::Close(Closing::NotVariableDump(m)),
        (SessionState::VariableDumpWait, SessionEvent::Read(Err(e))) => next
            == SessionState::Closed && action == SessionAction::<'a, U>::Close(
            Closing::ReadFailed(e),
        ),
        (SessionState::HandlerRunning, SessionEvent::HandlerReturned(Ok(()))) => next
            == SessionState::Closed && action == SessionAction::<'a, U>::Close(Closing::Done),
        (
            SessionState::HandlerRunning,
            SessionEvent::HandlerReturned(Err(AGIError::ClientSideError(x))),
        ) => next == SessionState::Closed && action == SessionAction::<'a, U>::Close(
            Closing::ClientSideError(x),
        ),
        (SessionState::HandlerRunning, SessionEvent::HandlerReturned(Err(e))) => next
            == SessionState::Closed && action == SessionAction::<'a, U>::Close(
            Closing::HandlerFailed(e),
        ),
        _ => next == SessionState::Closed && action == SessionAction::<'a, U>::Close(
            Closing::OutOfTurn,
        ),
    }
}

impl<U> Router<U> {
    /// Says what follows in a call: the next state, and what to do.
    ///
    /// A call starts in `NetworkStartWait` with the event `Accepted`.
    pub fn handle<'a>(&'a self, state: SessionState, event: SessionEvent) -> (r: (
        SessionState,
        SessionAction<'a, U>,
    ))
        ensures
            follows(self, state, event, r.0, r.1),
    {
        match state {
            SessionState::NetworkStartWait => match event {
                SessionEvent::Accepted => (SessionState::NetworkStartWait, SessionAction::Read),
                SessionEvent::Read(Ok(AGIMessage::NetworkStart)) => (
                    SessionState::VariableDumpWait,
                    SessionAction::Read,
                ),
                SessionEvent::Read(Ok(m)) => (
                    SessionState::Closed,
                    SessionAction::Close(Closing::NotNetworkStart(m)),
                ),
                SessionEvent::Read(Err(e)) => (
                    SessionState::Closed,
                    SessionAction::Close(Closing::ReadFailed(e)),
                ),
                _ => (SessionState::Closed, SessionAction::Close(Closing::OutOfTurn)),
            },
            SessionState::VariableDumpWait => match event {
                SessionEvent::Read(Ok(AGIMessage::VariableDump(d))) => {
                    let served = match &d.request {
                        AGIRequestType::FastAGI(url) => {
                            let scheme = to_chars(url.scheme());
                            Some(is_text(scheme.as_slice(), "agi"))
                        },
                        AGIRequestType::File(_) => None,
                    };
                    match served {
                        Some(true) => {
                            let (handler, captures, wildcards) = self.route_request(&d);
                            (
                                SessionState::HandlerRunning,
                                SessionAction::Run(
                                    handler,
                                    AGIRequest { variables: d, captures, wildcards },
                                ),
                            )
                        },
                        Some(false) => (
                            SessionState::Closed,
                            SessionAction::Close(Closing::WrongSchema(d)),
                        ),
                        None => (
                            SessionState::Closed,
                            SessionAction::Close(Closing::NotFastAGI(d)),
                        ),
                    }
                },
                SessionEvent::Read(Ok(m)) => (
                    SessionState::Closed,
                    SessionAction::Close(Closing::NotVariableDump(m)),
                ),
                SessionEvent::Read(Err(e)) => (
                    SessionState::Closed,
                    SessionAction::Close(Closing::ReadFailed(e)),
                ),
                _ => (SessionState::Closed, SessionAction::Close(Closing::OutOfTurn)),
            },
            SessionState::HandlerRunning => match event {
                SessionEvent::HandlerReturned(Ok(())) => (
                    SessionState::Closed,
                    SessionAction::Close(Closing::Done),
                ),
                SessionEvent::HandlerReturned(Err(AGIError::ClientSideError(x))) => (
                    SessionState::Closed,
                    SessionAction::Close(Closing::ClientSideError(x)),
                ),
                SessionEvent::HandlerReturned(Err(e)) => (
                    SessionState::Closed,
                    SessionAction::Close(Closing::HandlerFailed(e)),
                ),
                _ => (SessionState::Closed, SessionAction::Close(Closing::OutOfTurn)),
            },
            SessionState::Closed => (SessionState::Closed, SessionAction::Close(Closing::OutOfTurn)),
        }
    }
}

/// A call is handed to a handler only after the network start and the
/// variables were read, in this order: the only way into `HandlerRunning`
/// is from `VariableDumpWait`, and the only way into `VariableDumpWait` is
/// from `NetworkStartWait` by the network start.
pub proof fn lemma_handshake_before_handler<'a, U>(
    r: &'a Router<U>,
    state: SessionState,
    event: SessionEvent,
    next: SessionState,
    action: SessionAction<'a, U>,
)
    requires
        follows(r, state, event, next, action),
    ensures
        action is Run <==> next == SessionState::HandlerRunning,
        next == SessionState::HandlerRunning ==> state == SessionState::VariableDumpWait && (
        event matches SessionEvent::Read(Ok(AGIMessage::VariableDump(d))) && is_served(d)),
        next == SessionState::VariableDumpWait ==> state == SessionState::NetworkStartWait && (
        event matches SessionEvent::Read(Ok(AGIMessage::NetworkStart))),
        next == SessionState::NetworkStartWait ==> state == SessionState::NetworkStartWait
            && event is Accepted,
        state == SessionState::Closed ==> next == SessionState::Closed,
        action is Close <==> next == SessionState::Closed,
{
}

} // verus!
