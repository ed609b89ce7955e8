//! Each error, from an input that gives it, and what it says.
use blazing_agi::agiparse::{
    enhanced_status, AGIMessage, AGIParseError, AGIRequestType, AGIStatusGeneric, AGIVariableDump,
    AgiUrl,
};
use blazing_agi::command::answer::AnswerResponse;
use blazing_agi::command::get_full_variable::GetFullVariableResponse;
use blazing_agi::command::{AGIResponse, AGIStatusParseError, Answer, Characters, Digit};
use blazing_agi::connection::{AGIMessageBuffer, Connection};
use blazing_agi::AGIError;

fn dump_with(line: &str, without: &str) -> Result<AGIVariableDump, AGIParseError> {
    let all = [
        "agi_network_script: script",
        "agi_request: /tmp/agi.sh",
        "agi_channel: SIP/1",
        "agi_language: en",
        "agi_type: SIP",
        "agi_uniqueid: 1.8",
        "agi_version: 1.6",
        "agi_callerid: me",
        "agi_calleridname: me@mg",
        "agi_callingpres: 0",
        "agi_callingani2: 0",
        "agi_callington: 0",
        "agi_callingtns: 0",
        "agi_dnid: 667",
        "agi_rdnis: unknown",
        "agi_context: default",
        "agi_extension: 667",
        "agi_priority: 2",
        "agi_enhanced: 0.0",
        "agi_accountcode: ",
        "agi_threadid: 11",
    ];
    let mut text = String::new();
    for l in all {
        if without.is_empty() || !l.starts_with(without) {
            text.push_str(l);
            text.push('\n');
        }
    }
    text.push_str(line);
    text.push_str("\n\n");
    text.parse()
}

#[test]
fn variable_dump_errors() {
    assert_eq!(
        dump_with("agi_channel", ""),
        Err(AGIParseError::NoValue("agi_channel".to_owned()))
    );
    assert_eq!(
        dump_with("agi_priority: 65536", ""),
        Err(AGIParseError::PriorityUnparsable("65536".to_owned()))
    );
    assert_eq!(
        dump_with("agi_priority: -1", ""),
        Err(AGIParseError::PriorityUnparsable("-1".to_owned()))
    );
    assert_eq!(
        dump_with("agi_threadid: 18446744073709551616", ""),
        Err(AGIParseError::ThreadIdUnparsable("18446744073709551616".to_owned()))
    );
    assert_eq!(
        dump_with("agi_threadid: ", ""),
        Err(AGIParseError::ThreadIdUnparsable("".to_owned()))
    );
    assert_eq!(
        dump_with("agi_enhanced: 2.0", ""),
        Err(AGIParseError::EnhancedUnparsable("2.0".to_owned()))
    );
    assert_eq!(
        dump_with("agi_colour: red", ""),
        Err(AGIParseError::UnknownArg("agi_colour".to_owned()))
    );
    assert_eq!(
        dump_with("agi_arg_256: x", ""),
        Err(AGIParseError::CustomArgNumberUnparsable("agi_arg_256".to_owned()))
    );
    assert_eq!(
        dump_with("agi_arg_: x", ""),
        Err(AGIParseError::CustomArgNumberUnparsable("agi_arg_".to_owned()))
    );
    assert_eq!(
        dump_with("agi_arg_3: x\nagi_arg_3: y", ""),
        Err(AGIParseError::DuplicateCustomArg("agi_arg_3".to_owned()))
    );
    assert_eq!(
        dump_with("agi_arg_3: x", "agi_type"),
        Err(AGIParseError::VariableMissing("channel_type".to_owned()))
    );
    assert_eq!(
        dump_with("agi_arg_3: x", "agi_call"),
        Err(AGIParseError::VariableMissing("callerid".to_owned()))
    );
    assert_eq!(
        "".parse::<AGIVariableDump>(),
        Err(AGIParseError::VariableMissing("network_script".to_owned()))
    );
}

#[test]
fn variable_dump_details() {
    // A fixed field that comes twice keeps its last value.
    let dump = dump_with("agi_channel: SIP/2", "").unwrap();
    assert_eq!(dump.channel, "SIP/2");
    // The value ends at the next ": ".
    let dump = dump_with("agi_callerid: a: b: c", "").unwrap();
    assert_eq!(dump.callerid, "a");
    // A line may end in "\r\n".
    let dump = dump_with("agi_dnid: 5\r\nagi_arg_0: zero\r", "").unwrap();
    assert_eq!(dump.dnid, "5");
    assert_eq!(dump.custom_args.get(&0), Some(&"zero".to_owned()));
    assert_eq!(dump.enhanced, false);
    assert_eq!(dump.threadid, 11);
    assert_eq!(dump_with("agi_enhanced: 1.0", "").unwrap().enhanced, true);
    assert_eq!(dump_with("agi_priority: +7", "").unwrap().priority, 7);
}

#[test]
fn status_errors() {
    assert_eq!(
        "abc result=1".parse::<AGIStatusGeneric>(),
        Err(AGIParseError::StatusCodeUnparsable("abc result=1".to_owned()))
    );
    assert_eq!(
        "".parse::<AGIStatusGeneric>(),
        Err(AGIParseError::StatusCodeUnparsable("".to_owned()))
    );
    assert_eq!(
        "200\n".parse::<AGIStatusGeneric>(),
        Err(AGIParseError::NoResult("200\n".to_owned()))
    );
    assert_eq!(
        "200  result=1".parse::<AGIStatusGeneric>(),
        Err(AGIParseError::ResultUnparsable("200  result=1".to_owned()))
    );
    assert_eq!(
        "201 result=1".parse::<AGIStatusGeneric>(),
        Err(AGIParseError::StatusDoesNotExist(201))
    );
    assert_eq!(
        "70000 result=1".parse::<AGIStatusGeneric>(),
        Err(AGIParseError::StatusCodeUnparsable("70000 result=1".to_owned()))
    );
    assert_eq!(
        "200 result= x y z".parse::<AGIStatusGeneric>(),
        Ok(AGIStatusGeneric::Okay("".to_owned(), Some("x".to_owned())))
    );
    assert_eq!(
        "+200 result=-1  ".parse::<AGIStatusGeneric>(),
        Ok(AGIStatusGeneric::Okay("-1".to_owned(), None))
    );
}

#[test]
fn read_errors() {
    let mut conn = Connection::new();
    let buf = [0u8; 16];
    assert_eq!(conn.read_single_call(&buf, None), Err(AGIParseError::ReadError));
    assert_eq!(conn.read_single_call(&buf, Some(0)), Err(AGIParseError::NoBytes));
    let bad = [b'2', b'0', b'0', 0xff, 0, 0];
    assert_eq!(conn.read_single_call(&bad, Some(4)), Err(AGIParseError::NotUtf8));
    // What stands after the first NUL is dropped.
    let text = "510 result=0\n\0 520 result=0\n".as_bytes();
    assert_eq!(
        conn.read_single_call(text, Some(text.len())),
        Ok(vec![AGIMessage::Status(AGIStatusGeneric::Invalid)])
    );
    // Text in more than one byte per character is read as text.
    let text = "200 result=1 gedöns\n\0\0".as_bytes();
    assert_eq!(
        conn.read_single_call(text, Some(text.len() - 2)),
        Ok(vec![AGIMessage::Status(AGIStatusGeneric::Okay(
            "1".to_owned(),
            Some("gedöns".to_owned())
        ))])
    );
}

#[test]
fn network_start_after_another_message() {
    let mut buffer = AGIMessageBuffer::new();
    assert_eq!(
        buffer.handle_single_call_buffer("510 result=0\nagi_network: yes\nrest"),
        Err(AGIParseError::NetworkStartAfterOtherMessage)
    );
    assert_eq!(buffer.this_message, "rest");
    // As the first message of a read it is taken, whatever stood before it.
    let mut buffer = AGIMessageBuffer::new();
    assert_eq!(
        buffer.handle_single_call_buffer("junk\nagi_network: yes\n"),
        Ok(vec![AGIMessage::NetworkStart])
    );
    // A text that is refused stays in the buffer.
    let mut buffer = AGIMessageBuffer::new();
    assert_eq!(
        buffer.handle_single_call_buffer("junk\n\n"),
        Err(AGIParseError::NoValue("junk".to_owned()))
    );
    assert_eq!(buffer.this_message, "junk\n\n");
}

#[test]
fn stripping_and_flushing() {
    let mut buffer = AGIMessageBuffer::new();
    assert_eq!(buffer.strip_single_message(), Ok(None));
    assert_eq!(buffer.try_parse_and_flush(), Ok(None));
    buffer.this_message = "511 result=0\n520 result=0\n".to_owned();
    assert_eq!(
        buffer.strip_single_message(),
        Ok(Some(AGIMessage::Status(AGIStatusGeneric::DeadChannel)))
    );
    assert_eq!(buffer.this_message, "520 result=0\n");
    assert_eq!(
        buffer.try_parse_and_flush(),
        Ok(Some(AGIMessage::Status(AGIStatusGeneric::EndUsage)))
    );
    assert_eq!(buffer.this_message, "");
    buffer.this_message = "agi_channel".to_owned();
    assert_eq!(
        buffer.try_parse_and_flush(),
        Err(AGIParseError::NoValue("agi_channel".to_owned()))
    );
    assert_eq!(buffer.this_message, "agi_channel");
    assert_eq!(buffer.strip_single_message(), Ok(None));
}

#[test]
fn what_parse_errors_say() {
    let said = |e: AGIParseError| e.to_string();
    assert_eq!(said(AGIParseError::NoValue("x".to_owned())), "The line x contained no value.");
    assert_eq!(
        said(AGIParseError::PriorityUnparsable("x".to_owned())),
        "The value x is not parsable as priority."
    );
    assert_eq!(
        said(AGIParseError::ThreadIdUnparsable("x".to_owned())),
        "The value x is not parsable as thread ID."
    );
    assert_eq!(
        said(AGIParseError::EnhancedUnparsable("x".to_owned())),
        "The value x is not parsable as enhanced status."
    );
    assert_eq!(said(AGIParseError::UnknownArg("x".to_owned())), "The argument x is not known.");
    assert_eq!(
        said(AGIParseError::CustomArgNumberUnparsable("x".to_owned())),
        "The argument x has no parsable custom arg number."
    );
    assert_eq!(
        said(AGIParseError::DuplicateCustomArg("x".to_owned())),
        "The argument x was passed multiple times."
    );
    assert_eq!(
        said(AGIParseError::VariableMissing("x".to_owned())),
        "The argument x is required but was not passed."
    );
    assert_eq!(
        said(AGIParseError::NoStatusCode("x".to_owned())),
        "The status line x has no status code."
    );
    assert_eq!(
        said(AGIParseError::StatusCodeUnparsable("x".to_owned())),
        "The status code in status line x is not parsable."
    );
    assert_eq!(said(AGIParseError::NoResult("x".to_owned())), "The status line x has no result.");
    assert_eq!(
        said(AGIParseError::ResultUnparsable("x".to_owned())),
        "The result in status line x is not parsable."
    );
    assert_eq!(said(AGIParseError::NoBytes), "There are no bytes to read.");
    assert_eq!(said(AGIParseError::NotUtf8), "The input is not utf8");
    assert_eq!(
        said(AGIParseError::StatusWithoutNewline),
        "A status message was contained in a buffer without a newline"
    );
    assert_eq!(
        said(AGIParseError::StatusDoesNotExist(404)),
        "The status code 404 does not exist"
    );
    assert_eq!(said(AGIParseError::StatusDoesNotExist(0)), "The status code 0 does not exist");
    assert_eq!(said(AGIParseError::ReadError), "Unable to read literal bytes from TcpStream");
    assert_eq!(
        said(AGIParseError::NetworkStartAfterOtherMessage),
        "There was a line `agi_network: yes` after another message."
    );
}

#[test]
fn what_agi_errors_say() {
    assert_eq!(
        AGIError::WrongSchema("http".to_owned()).to_string(),
        "The schema http is not known"
    );
    assert_eq!(
        AGIError::NotEnoughCustomVariables(1, 3).to_string(),
        "There are only 1 custom variables, but 3 are required"
    );
    assert_eq!(
        AGIError::CannotSpawnListener.to_string(),
        "Unable to spawn the TCP listener"
    );
    assert_eq!(
        AGIError::CannotSendCommand("broken pipe".to_owned()).to_string(),
        "Unable to send an AGI command: broken pipe"
    );
    assert_eq!(
        AGIError::ParseError(AGIParseError::NoBytes).to_string(),
        "Unable to parse packet: There are no bytes to read."
    );
    assert_eq!(
        AGIError::NotAStatus(AGIMessage::NetworkStart).to_string(),
        "Sent a Command, but the response was not a Status: agi_network: yes"
    );
    assert_eq!(AGIError::InnerError("oops".to_owned()).to_string(), "InnerError: oops");
    assert_eq!(
        AGIError::Not200(511).to_string(),
        "Handler expected 200-response, but got 511"
    );
    assert_eq!(
        AGIError::ClientSideError("no".to_owned()).to_string(),
        "Error on the Client side: no"
    );
    assert_eq!(
        AGIError::AGIStatusUnspecializable(
            AGIStatusGeneric::Okay("7".to_owned(), Some("x".to_owned())),
            "ANSWER"
        )
        .to_string(),
        "I am unable to specialize 200 result=7 x as a response to ANSWER"
    );
}

#[test]
fn what_statuses_and_messages_say() {
    assert_eq!(
        AGIStatusGeneric::Okay("1".to_owned(), None).to_string(),
        "200 result=1"
    );
    assert_eq!(
        AGIStatusGeneric::Okay("1".to_owned(), Some("done".to_owned())).to_string(),
        "200 result=1 done"
    );
    assert_eq!(AGIStatusGeneric::Invalid.to_string(), "510");
    assert_eq!(AGIStatusGeneric::DeadChannel.to_string(), "511");
    assert_eq!(AGIStatusGeneric::EndUsage.to_string(), "520");
    assert_eq!(AGIMessage::NetworkStart.to_string(), "agi_network: yes");
    assert_eq!(
        AGIMessage::Status(AGIStatusGeneric::EndUsage).to_string(),
        "520"
    );
    assert_eq!(
        AGIRequestType::File("/tmp/agi.sh".to_owned()).to_string(),
        "/tmp/agi.sh"
    );
}

#[test]
fn replies_that_are_no_reply() {
    let error = Connection::agi_response_as_specialized_status::<Answer>(AGIMessage::NetworkStart)
        .unwrap_err();
    assert!(matches!(error, AGIError::NotAStatus(AGIMessage::NetworkStart)));
    let reply = AGIMessage::Status(AGIStatusGeneric::Okay("5".to_owned(), Some("x".to_owned())));
    let error = Connection::agi_response_as_specialized_status::<Answer>(reply).unwrap_err();
    match error {
        AGIError::AGIStatusUnspecializable(status, name) => {
            assert_eq!(
                status,
                AGIStatusGeneric::Okay("5".to_owned(), Some("x".to_owned()))
            );
            assert_eq!(name, "ANSWER");
        }
        other => panic!("another error: {:?}", other),
    }
    for (status, code) in [
        (AGIStatusGeneric::Invalid, 510u16),
        (AGIStatusGeneric::DeadChannel, 511),
        (AGIStatusGeneric::EndUsage, 520),
        (AGIStatusGeneric::Okay("0".to_owned(), None), 200),
    ] {
        let response: AGIResponse<AnswerResponse> =
            Connection::agi_response_as_specialized_status::<Answer>(AGIMessage::Status(status))
                .unwrap();
        assert_eq!(u16::from(response), code);
    }
}

#[test]
fn what_a_status_parse_error_says() {
    let error = GetFullVariableResponse::try_from(("1", None)).unwrap_err();
    assert_eq!(
        error,
        AGIStatusParseError {
            result: "1".to_owned(),
            op_data: None,
            response_to_command: "GET FULL VARIABLE"
        }
    );
    assert_eq!(
        error.to_string(),
        "Unable to parse result 1, data None as GET FULL VARIABLE Status."
    );
    let error = AnswerResponse::try_from(("x", Some("say \"hi\""))).unwrap_err();
    assert_eq!(
        error.to_string(),
        "Unable to parse result x, data Some(\"say \\\"hi\\\"\") as ANSWER Status."
    );
    assert_eq!(
        error.to_string_with("nothing"),
        "Unable to parse result x, data nothing as ANSWER Status."
    );
}

#[test]
fn reading_the_enhanced_flag() {
    assert_eq!(enhanced_status("0.0"), Ok(false));
    assert_eq!(enhanced_status("1.0"), Ok(true));
    assert_eq!(
        enhanced_status("1"),
        Err(AGIParseError::EnhancedUnparsable("1".to_owned()))
    );
}

#[test]
fn reading_urls() {
    let url = AgiUrl::parse("AGI://Some.Host:4573/a%20b//c/?q=1#f").unwrap();
    assert_eq!(url.as_str(), "AGI://Some.Host:4573/a%20b//c/?q=1#f");
    assert_eq!(url.scheme(), "agi");
    assert_eq!(
        url.path_segments(),
        Some(&vec!["a%20b".to_owned(), "".to_owned(), "c".to_owned(), "".to_owned()])
    );
    let url = AgiUrl::parse("mailto:someone@example.com").unwrap();
    assert_eq!(url.scheme(), "mailto");
    assert_eq!(url.path_segments(), None);
    assert_eq!(AgiUrl::parse("/tmp/agi.sh"), None);
    assert_eq!(AgiUrl::parse(""), None);
    assert_eq!(
        "agi://h/x".parse::<AGIRequestType>(),
        Ok(AGIRequestType::FastAGI(AgiUrl::parse("agi://h/x").unwrap()))
    );
    assert_eq!(
        "not a url".parse::<AGIRequestType>(),
        Ok(AGIRequestType::File("not a url".to_owned()))
    );
    let made = AgiUrl::from_parts("x", Some(("agi".to_owned(), Some(vec!["p".to_owned()]))));
    assert_eq!(made.unwrap().path_segments(), Some(&vec!["p".to_owned()]));
    assert_eq!(AgiUrl::from_parts("x", None), None);
    assert_eq!(
        AGIRequestType::from_url("x", None),
        AGIRequestType::File("x".to_owned())
    );
}

#[test]
fn digits_are_keys() {
    assert_eq!(Characters::from(Digit::Zero), Characters::Zero);
    assert_eq!(Characters::from(Digit::Nine), Characters::Nine);
    let key: Characters = Digit::Five.into();
    assert_eq!(key, Characters::Five);
}
