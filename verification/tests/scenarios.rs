//! Whole calls, from the first bytes to the end of the handler.
use blazing_agi::agiparse::{
    AGIMessage, AGIParseError, AGIRequestType, AGIStatusGeneric, AGIVariableDump,
};
use blazing_agi::command::get_full_variable::{
    GetFullVariable, GetFullVariableResponse, OtherChannel, ThisChannel,
};
use blazing_agi::command::raw_command::RawCommandResponse;
use blazing_agi::command::verbose::VerboseResponse;
use blazing_agi::command::{AGICommand, AGIResponse, RawCommand, Verbose};
use blazing_agi::connection::Connection;
use blazing_agi::handler::{Handler, HandlerRun, Leaf, NextStep};
use blazing_agi::router::Router;
use blazing_agi::serve::{Closing, LogLevel, SessionAction, SessionEvent, SessionState};
use blazing_agi::AGIError;

fn dump_lines(request: &str) -> String {
    format!(
        "agi_network_script: script\n\
         agi_request: {}\n\
         agi_channel: SIP/marcelog-e00d2760\n\
         agi_language: en\n\
         agi_type: SIP\n\
         agi_uniqueid: 1297542965.8\n\
         agi_version: 1.6.0.9\n\
         agi_callerid: marcelog\n\
         agi_calleridname: marcelog@mg\n\
         agi_callingpres: 0\n\
         agi_callingani2: 0\n\
         agi_callington: 0\n\
         agi_callingtns: 0\n\
         agi_dnid: 667\n\
         agi_rdnis: unknown\n\
         agi_context: default\n\
         agi_extension: 667\n\
         agi_priority: 2\n\
         agi_enhanced: 0.0\n\
         agi_accountcode: \n\
         agi_threadid: 1104922960\n",
        request
    )
}

/// What one read of `text` leaves in a buffer of 2048 bytes.
fn read_of(text: &str) -> (Vec<u8>, Option<usize>) {
    let mut buf = vec![0u8; 2048];
    buf[..text.len()].copy_from_slice(text.as_bytes());
    (buf, Some(text.len()))
}

/// Feeds one read to the connection and returns its next message.
fn read_message(conn: &mut Connection, text: &str) -> Option<AGIMessage> {
    let (buf, n) = read_of(text);
    let messages = conn.read_single_call(&buf, n).unwrap();
    conn.queue_messages(messages);
    conn.read_one_message()
}

#[test]
fn happy_path_single_call() {
    let router: Router<&'static str> = Router::new()
        .route("/other", Handler::User("other"))
        .route("/script", Handler::User("script"));
    let mut conn = Connection::new();

    let (state, action) = router.handle(SessionState::NetworkStartWait, SessionEvent::Accepted);
    assert_eq!(state, SessionState::NetworkStartWait);
    assert!(matches!(action, SessionAction::Read));

    let first = read_message(&mut conn, "agi_network: yes\n").unwrap();
    assert_eq!(first, AGIMessage::NetworkStart);
    let (state, action) = router.handle(state, SessionEvent::Read(Ok(first)));
    assert_eq!(state, SessionState::VariableDumpWait);
    assert!(matches!(action, SessionAction::Read));

    let text = dump_lines("agi://h:4573/script") + "\n";
    let second = read_message(&mut conn, &text).unwrap();
    let (state, action) = router.handle(state, SessionEvent::Read(Ok(second)));
    assert_eq!(state, SessionState::HandlerRunning);
    let (handler, request) = match action {
        SessionAction::Run(handler, request) => (handler, request),
        other => panic!("the call was not handed to a handler: {:?}", other),
    };
    assert!(matches!(handler, Handler::User("script")));
    assert!(request.captures.is_empty());
    assert_eq!(request.wildcards, None);
    assert_eq!(request.variables.priority, 2);

    // The handler runs: it has one piece, which sends VERBOSE "hi".
    let mut run = HandlerRun::new(handler);
    match run.next(Ok(())) {
        NextStep::Run(Leaf::User(name)) => assert_eq!(*name, "script"),
        other => panic!("no piece to run: {:?}", other),
    }
    let command = Verbose::new("hi".to_owned());
    assert_eq!(command.to_string(), "VERBOSE \"hi\"\n");
    let reply = read_message(&mut conn, "200 result=1\n").unwrap();
    let response = Connection::agi_response_as_specialized_status::<Verbose>(reply).unwrap();
    assert_eq!(response, AGIResponse::Okay(VerboseResponse {}));
    let finished = match run.next(Ok(())) {
        NextStep::Finished(result) => result,
        other => panic!("the run is not over: {:?}", other),
    };
    assert!(finished.is_ok());

    let (state, action) = router.handle(state, SessionEvent::HandlerReturned(finished));
    assert_eq!(state, SessionState::Closed);
    match action {
        SessionAction::Close(closing) => {
            assert!(matches!(closing, Closing::Done));
            assert_eq!(closing.log_level(), LogLevel::Debug);
        }
        other => panic!("the call was not closed: {:?}", other),
    }
}

#[test]
fn fragmented_status() {
    let mut conn = Connection::new();
    assert_eq!(read_message(&mut conn, "200 "), None);
    assert_eq!(read_message(&mut conn, "result"), None);
    let reply = read_message(&mut conn, "=1 done\n").unwrap();
    let response = Connection::agi_response_as_specialized_status::<RawCommand>(reply).unwrap();
    assert_eq!(
        response,
        AGIResponse::Okay(RawCommandResponse {
            result: "1".to_owned(),
            op_data: Some("done".to_owned())
        })
    );
    assert_eq!(conn.read_one_message(), None);
}

#[test]
fn coalesced_network_start_and_dump() {
    let mut conn = Connection::new();
    let text = "agi_network: yes\n".to_owned() + &dump_lines("agi://h:4573/script") + "\n";
    let (buf, n) = read_of(&text);
    let messages = conn.read_single_call(&buf, n).unwrap();
    assert_eq!(messages.len(), 2);
    conn.queue_messages(messages);
    assert_eq!(conn.read_one_message(), Some(AGIMessage::NetworkStart));
    match conn.read_one_message() {
        Some(AGIMessage::VariableDump(dump)) => {
            assert_eq!(dump.channel, "SIP/marcelog-e00d2760");
            assert!(matches!(dump.request, AGIRequestType::FastAGI(_)));
        }
        other => panic!("no variable dump was queued: {:?}", other),
    }
    assert_eq!(conn.read_one_message(), None);
}

#[test]
fn duplicate_custom_arg_closes_the_call() {
    let router: Router<&'static str> = Router::new().route("/script", Handler::User("script"));
    let mut conn = Connection::new();
    let text = dump_lines("agi://h:4573/script") + "agi_arg_1: a\nagi_arg_1: b\n\n";
    let (buf, n) = read_of(&text);
    let error = conn.read_single_call(&buf, n).unwrap_err();
    assert_eq!(error, AGIParseError::DuplicateCustomArg("agi_arg_1".to_owned()));
    let (state, action) =
        router.handle(SessionState::VariableDumpWait, SessionEvent::Read(Err(error)));
    assert_eq!(state, SessionState::Closed);
    match action {
        SessionAction::Close(closing) => {
            assert!(matches!(
                closing,
                Closing::ReadFailed(AGIParseError::DuplicateCustomArg(_))
            ));
            assert_eq!(closing.log_level(), LogLevel::Info);
        }
        other => panic!("the call was not closed: {:?}", other),
    }
}

#[test]
fn get_full_variable_trims_parentheses() {
    let command = GetFullVariable::new("X".to_owned());
    assert_eq!(command.to_string(), "GET FULL VARIABLE \"X\"\n");
    let reply = AGIMessage::Status(AGIStatusGeneric::Okay(
        "1".to_owned(),
        Some("(the value)".to_owned()),
    ));
    let response =
        Connection::agi_response_as_specialized_status::<GetFullVariable<ThisChannel>>(reply)
            .unwrap();
    assert_eq!(
        response,
        AGIResponse::Okay(GetFullVariableResponse {
            value: Some("the value".to_owned())
        })
    );
    let command = command.with_channel("SIP/1".to_owned());
    assert_eq!(command.to_string(), "GET FULL VARIABLE \"X\" \"SIP/1\"\n");
    let reply = AGIMessage::Status(AGIStatusGeneric::Okay("0".to_owned(), None));
    let response =
        Connection::agi_response_as_specialized_status::<GetFullVariable<OtherChannel>>(reply)
            .unwrap();
    assert_eq!(
        response,
        AGIResponse::Okay(GetFullVariableResponse { value: None })
    );
}

#[test]
fn operational_data_is_the_third_token_only() {
    let mut conn = Connection::new();
    let reply = read_message(&mut conn, "200 result=1 (the value)\n").unwrap();
    assert_eq!(
        reply,
        AGIMessage::Status(AGIStatusGeneric::Okay("1".to_owned(), Some("(the".to_owned())))
    );
}

#[test]
fn wildcard_routing() {
    let router: Router<&'static str> = Router::new()
        .route("/a/:u/*", Handler::User("first"))
        .route("/a/b", Handler::User("second"));

    let dump: AGIVariableDump = dump_lines("agi://h:4573/a/b/c").parse().unwrap();
    let (handler, captures, wildcards) = router.route_request(&dump);
    assert!(matches!(handler, Handler::User("first")));
    assert_eq!(captures.len(), 1);
    assert_eq!(captures.get("u"), Some(&"b".to_owned()));
    assert_eq!(wildcards, Some("c".to_owned()));

    let dump: AGIVariableDump = dump_lines("agi://h:4573/a/b").parse().unwrap();
    let (handler, captures, wildcards) = router.route_request(&dump);
    assert!(matches!(handler, Handler::User("second")));
    assert!(captures.is_empty());
    assert_eq!(wildcards, None);

    let dump: AGIVariableDump = dump_lines("agi://h:4573/nowhere").parse().unwrap();
    let (handler, captures, wildcards) = router.route_request(&dump);
    assert!(matches!(handler, Handler::Fallback(_)));
    assert!(captures.is_empty());
    assert_eq!(wildcards, None);
}

#[test]
fn file_request_is_not_served() {
    let router: Router<&'static str> = Router::new().route("/tmp/agi.sh", Handler::User("x"));
    let dump: AGIVariableDump = dump_lines("/tmp/agi.sh").parse().unwrap();
    let (state, action) = router.handle(
        SessionState::VariableDumpWait,
        SessionEvent::Read(Ok(AGIMessage::VariableDump(dump))),
    );
    assert_eq!(state, SessionState::Closed);
    match action {
        SessionAction::Close(closing) => {
            assert!(matches!(closing, Closing::NotFastAGI(_)));
            assert_eq!(closing.log_level(), LogLevel::Info);
        }
        other => panic!("the call was not closed: {:?}", other),
    }
}

#[test]
fn other_scheme_is_not_served() {
    let router: Router<&'static str> = Router::new().route("/script", Handler::User("x"));
    let dump: AGIVariableDump = dump_lines("http://h:4573/script").parse().unwrap();
    assert!(matches!(dump.request, AGIRequestType::FastAGI(_)));
    let (state, action) = router.handle(
        SessionState::VariableDumpWait,
        SessionEvent::Read(Ok(AGIMessage::VariableDump(dump))),
    );
    assert_eq!(state, SessionState::Closed);
    assert!(matches!(
        action,
        SessionAction::Close(Closing::WrongSchema(_))
    ));
}

#[test]
fn first_message_must_be_the_network_start() {
    let router: Router<&'static str> = Router::new();
    let status = AGIMessage::Status(AGIStatusGeneric::Invalid);
    let (state, action) =
        router.handle(SessionState::NetworkStartWait, SessionEvent::Read(Ok(status)));
    assert_eq!(state, SessionState::Closed);
    assert!(matches!(
        action,
        SessionAction::Close(Closing::NotNetworkStart(AGIMessage::Status(
            AGIStatusGeneric::Invalid
        )))
    ));
}

#[test]
fn second_message_must_be_the_variables() {
    let router: Router<&'static str> = Router::new();
    let (state, action) = router.handle(
        SessionState::VariableDumpWait,
        SessionEvent::Read(Ok(AGIMessage::NetworkStart)),
    );
    assert_eq!(state, SessionState::Closed);
    assert!(matches!(
        action,
        SessionAction::Close(Closing::NotVariableDump(AGIMessage::NetworkStart))
    ));
}

#[test]
fn handler_results_close_the_call() {
    let router: Router<&'static str> = Router::new();
    let (state, action) = router.handle(
        SessionState::HandlerRunning,
        SessionEvent::HandlerReturned(Err(AGIError::ClientSideError("bad digest".to_owned()))),
    );
    assert_eq!(state, SessionState::Closed);
    match action {
        SessionAction::Close(closing) => {
            assert!(matches!(&closing, Closing::ClientSideError(x) if x == "bad digest"));
            assert_eq!(closing.log_level(), LogLevel::Info);
        }
        other => panic!("the call was not closed: {:?}", other),
    }
    let (state, action) = router.handle(
        SessionState::HandlerRunning,
        SessionEvent::HandlerReturned(Err(AGIError::Not200(510))),
    );
    assert_eq!(state, SessionState::Closed);
    match action {
        SessionAction::Close(closing) => {
            assert!(matches!(closing, Closing::HandlerFailed(AGIError::Not200(510))));
            assert_eq!(closing.log_level(), LogLevel::Warn);
        }
        other => panic!("the call was not closed: {:?}", other),
    }
}

#[test]
fn events_out_of_turn_close_the_call() {
    let router: Router<&'static str> = Router::new();
    let (state, action) = router.handle(
        SessionState::NetworkStartWait,
        SessionEvent::HandlerReturned(Ok(())),
    );
    assert_eq!(state, SessionState::Closed);
    assert!(matches!(action, SessionAction::Close(Closing::OutOfTurn)));
    let (state, action) = router.handle(SessionState::Closed, SessionEvent::Accepted);
    assert_eq!(state, SessionState::Closed);
    assert!(matches!(action, SessionAction::Close(Closing::OutOfTurn)));
}

#[test]
fn log_levels_of_read_errors() {
    assert_eq!(
        Closing::ReadFailed(AGIParseError::NoBytes).log_level(),
        LogLevel::Silent
    );
    assert_eq!(
        Closing::ReadFailed(AGIParseError::NotUtf8).log_level(),
        LogLevel::Warn
    );
    assert_eq!(
        Closing::ReadFailed(AGIParseError::ReadError).log_level(),
        LogLevel::Warn
    );
    assert_eq!(
        Closing::ReadFailed(AGIParseError::NetworkStartAfterOtherMessage).log_level(),
        LogLevel::Warn
    );
    assert_eq!(
        Closing::ReadFailed(AGIParseError::VariableMissing("dnid".to_owned())).log_level(),
        LogLevel::Info
    );
}
