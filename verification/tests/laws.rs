//! The general laws of the library, on chosen values.
use blazing_agi::agiparse::{
    AGIMessage, AGIParseError, AGIRequestType, AGIStatusGeneric, AGIVariableDump,
};
use blazing_agi::connection::AGIMessageBuffer;
use blazing_agi::handler::{Handler, Leaf};
use blazing_agi::layer::{AndThenLayerBefore, Layer};
use blazing_agi::router::Router;

fn dump_text(request: &str, extra: &str) -> String {
    format!(
        "agi_network_script: script\n\
         agi_request: {}\n\
         agi_channel: SIP/marcelog-e00d2760\n\
         agi_language: en\n\
         agi_type: SIP\n\
         agi_uniqueid: 1297542965.8\n\
         agi_version: 1.6.0.9\n\
         agi_callerid: marcelog\n\
         agi_calleridname: marcelog@mg\n\
         agi_callingpres: 0\n\
         agi_callingani2: 0\n\
         agi_callington: 0\n\
         agi_callingtns: 0\n\
         agi_dnid: 667\n\
         agi_rdnis: unknown\n\
         agi_context: default\n\
         agi_extension: 667\n\
         agi_priority: 65535\n\
         agi_enhanced: 1.0\n\
         agi_accountcode: \n\
         agi_threadid: 18446744073709551615\n{}",
        request, extra
    )
}

/// Feeds `chunks` in order and collects the messages.
fn feed_all(chunks: &[&str]) -> (Vec<AGIMessage>, String) {
    let mut buffer = AGIMessageBuffer::new();
    let mut all = Vec::new();
    for chunk in chunks {
        all.extend(buffer.handle_single_call_buffer(chunk).unwrap());
    }
    (all, buffer.this_message)
}

#[test]
fn rendering_and_reading_again_gives_the_same_dump() {
    let text = dump_text(
        "agi://some.host:4573/a/b?x=1",
        "agi_arg_1: one\nagi_arg_7: seven: dropped\nagi_arg_255:   spaced  \n",
    );
    let dump: AGIVariableDump = text.parse().unwrap();
    assert_eq!(dump.custom_args.len(), 3);
    assert_eq!(dump.custom_args.get(&7), Some(&"seven".to_owned()));
    assert_eq!(dump.custom_args.get(&255), Some(&"  spaced".to_owned()));
    let rendered = dump.to_string();
    let again: AGIVariableDump = rendered.parse().unwrap();
    assert_eq!(again, dump);
    assert_eq!(again.to_string(), rendered);
}

#[test]
fn rendering_a_dump_gives_its_lines() {
    let dump: AGIVariableDump = dump_text("/tmp/agi.sh ", "agi_arg_02: two\n").parse().unwrap();
    assert_eq!(dump.request, AGIRequestType::File("/tmp/agi.sh".to_owned()));
    assert_eq!(
        dump.to_string(),
        dump_text("/tmp/agi.sh", "agi_arg_2: two\n")
    );
}

#[test]
fn numbers_with_a_sign_or_zeros_are_rendered_plainly() {
    let text = dump_text("/x", "").replace("agi_priority: 65535", "agi_priority: +0012");
    let dump: AGIVariableDump = text.parse().unwrap();
    assert_eq!(dump.priority, 12);
    let rendered = dump.to_string();
    assert!(rendered.contains("agi_priority: 12\n"));
    assert_eq!(rendered.parse::<AGIVariableDump>().unwrap(), dump);
}

#[test]
fn cutting_the_text_does_not_change_the_messages() {
    let text = "agi_network: yes\n".to_owned()
        + &dump_text("agi://h/script", "agi_arg_1: x\n")
        + "\n";
    let (whole, left) = feed_all(&[&text]);
    assert_eq!(whole.len(), 2);
    assert_eq!(left, "");
    // Cut after every character.
    let pieces: Vec<String> = text.chars().map(|c| c.to_string()).collect();
    let refs: Vec<&str> = pieces.iter().map(|s| s.as_str()).collect();
    let (cut, left) = feed_all(&refs);
    assert_eq!(cut, whole);
    assert_eq!(left, "");
    // Cut in the middle of a line.
    let (a, b) = text.split_at(100);
    let (cut, _) = feed_all(&[a, "", b]);
    assert_eq!(cut, whole);
}

#[test]
fn status_lines_cut_before_the_guess_applies() {
    let text = "200 result=1 done\n510 result=0\n";
    let (whole, _) = feed_all(&[text]);
    assert_eq!(
        whole,
        vec![
            AGIMessage::Status(AGIStatusGeneric::Okay("1".to_owned(), Some("done".to_owned()))),
            AGIMessage::Status(AGIStatusGeneric::Invalid),
        ]
    );
    let (cut, left) = feed_all(&["200 result", "=1 done\n510", " result=0\n"]);
    assert_eq!(cut, whole);
    assert_eq!(left, "");
}

#[test]
fn a_status_without_line_end_is_taken_as_it_is() {
    // The text before the cut reads as a status: it is taken, and what
    // follows is read by itself.
    let mut buffer = AGIMessageBuffer::new();
    assert_eq!(
        buffer.handle_single_call_buffer("200 result=1"),
        Ok(vec![AGIMessage::Status(AGIStatusGeneric::Okay(
            "1".to_owned(),
            None
        ))])
    );
    assert_eq!(buffer.this_message, "");
    assert_eq!(buffer.handle_single_call_buffer(" done"), Ok(vec![]));
    assert_eq!(buffer.this_message, " done");
    // A code that does not exist is not taken: more text is waited for.
    let mut buffer = AGIMessageBuffer::new();
    assert_eq!(buffer.handle_single_call_buffer("404 result=1"), Ok(vec![]));
    assert_eq!(buffer.this_message, "404 result=1");
    assert_eq!(
        buffer.handle_single_call_buffer("\n"),
        Err(AGIParseError::StatusDoesNotExist(404))
    );
}

#[test]
fn only_four_status_codes_exist() {
    for code in 0u32..1000 {
        let line = format!("{} result=0 data\n", code);
        let parsed = line.parse::<AGIStatusGeneric>();
        match code {
            200 => assert_eq!(
                parsed,
                Ok(AGIStatusGeneric::Okay("0".to_owned(), Some("data".to_owned())))
            ),
            510 => assert_eq!(parsed, Ok(AGIStatusGeneric::Invalid)),
            511 => assert_eq!(parsed, Ok(AGIStatusGeneric::DeadChannel)),
            520 => assert_eq!(parsed, Ok(AGIStatusGeneric::EndUsage)),
            other => assert_eq!(parsed, Err(AGIParseError::StatusDoesNotExist(other as u16))),
        }
    }
}

#[test]
fn a_custom_argument_comes_once() {
    let twice = dump_text("/x", "agi_arg_1: a\nagi_arg_2: b\nagi_arg_1: a\n");
    assert_eq!(
        twice.parse::<AGIVariableDump>(),
        Err(AGIParseError::DuplicateCustomArg("agi_arg_1".to_owned()))
    );
    let same_number = dump_text("/x", "agi_arg_1: a\nagi_arg_01: b\n");
    assert_eq!(
        same_number.parse::<AGIVariableDump>(),
        Err(AGIParseError::DuplicateCustomArg("agi_arg_01".to_owned()))
    );
    // A line after the empty line is not read.
    let after_end = dump_text("/x", "agi_arg_1: a\n\nagi_arg_1: b\n");
    assert!(after_end.parse::<AGIVariableDump>().is_ok());
}

fn request_for(path: &str) -> AGIVariableDump {
    dump_text(&format!("agi://h:4573{}", path), "").parse().unwrap()
}

fn names(handler: &Handler<&'static str>) -> Vec<&'static str> {
    handler
        .plan()
        .iter()
        .map(|leaf| match leaf {
            Leaf::User(name) => **name,
            Leaf::Fallback => "fallback",
        })
        .collect()
}

#[test]
fn routes_are_tried_in_the_order_they_were_added() {
    let build = || {
        Router::new()
            .route("/a/:x", Handler::User("capture"))
            .route("/a/b", Handler::User("literal"))
            .route("/*", Handler::User("wildcard"))
    };
    let one = build();
    let two = build();
    for path in ["/a/b", "/a/c", "/z", "/a/b/c", "/", ""] {
        let request = request_for(path);
        let (h1, c1, w1) = one.route_request(&request);
        let (h2, c2, w2) = two.route_request(&request);
        assert_eq!(names(h1), names(h2));
        assert_eq!(c1, c2);
        assert_eq!(w1, w2);
    }
    let (handler, captures, _) = one.route_request(&request_for("/a/b"));
    assert_eq!(names(handler), vec!["capture"]);
    assert_eq!(captures.get("x"), Some(&"b".to_owned()));
    let (handler, _, wildcards) = one.route_request(&request_for("/a/b/c"));
    assert_eq!(names(handler), vec!["wildcard"]);
    assert_eq!(wildcards, Some("a/b/c".to_owned()));
    let (handler, _, wildcards) = one.route_request(&request_for(""));
    assert_eq!(names(handler), vec!["fallback"]);
    assert_eq!(wildcards, None);
}

#[test]
fn a_layer_wraps_the_routes_that_are_there() {
    let layer = AndThenLayerBefore::new(Handler::User("auth"));
    let router = Router::new()
        .route("/one", Handler::User("one"))
        .route("/two", Handler::User("two"))
        .layer(layer.clone())
        .route("/three", Handler::User("three"));
    let (handler, _, _) = router.route_request(&request_for("/one"));
    assert_eq!(names(handler), vec!["auth", "one"]);
    let (handler, _, _) = router.route_request(&request_for("/two"));
    assert_eq!(names(handler), vec!["auth", "two"]);
    let (handler, _, _) = router.route_request(&request_for("/three"));
    assert_eq!(names(handler), vec!["three"]);
    let (handler, _, _) = router.route_request(&request_for("/four"));
    assert_eq!(names(handler), vec!["fallback"]);
    // Layers nest: the one that is put on last runs first.
    let outer = AndThenLayerBefore::new(Handler::User("log"));
    let wrapped = outer.layer(layer.layer(Handler::User("inner")));
    assert_eq!(names(&wrapped), vec!["log", "auth", "inner"]);
}

#[test]
fn merge_and_fallback() {
    let first = Router::new()
        .route("/a", Handler::User("a1"))
        .fallback(Handler::User("first fallback"));
    let second = Router::new()
        .route("/a", Handler::User("a2"))
        .route("/b", Handler::User("b2"))
        .fallback(Handler::User("second fallback"));
    let router = first.merge(second);
    let (handler, _, _) = router.route_request(&request_for("/a"));
    assert_eq!(names(handler), vec!["a1"]);
    let (handler, _, _) = router.route_request(&request_for("/b"));
    assert_eq!(names(handler), vec!["b2"]);
    let (handler, _, _) = router.route_request(&request_for("/c"));
    assert_eq!(names(handler), vec!["first fallback"]);
}
