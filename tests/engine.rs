use lspedit::client::{reader_step, Phase, ReadEvent, ReaderAction, Session};
use lspedit::fetch::{LspFetch, LspResult};
use lspedit::framing::{read_msg_text, FramingError, ReadOutcome};
use lspedit::hover::{Hover, HoverContents, HoverParam, HoverResult, LspParam, MarkedText, TextPosition};
use lspedit::id::RequestId;
use lspedit::msg::{response_to_result, ClientError, Message, Request, Response};
use lspedit::table::PendingTable;
use serde_json::Value;

fn response(id: i32, result: &str) -> Message {
    Message::Response(Response::new_ok(RequestId::from(id), serde_json::from_str(result).unwrap()))
}

#[test]
fn responses_in_any_order_reach_their_own_slots() {
    let mut table = PendingTable::new();
    for (id, slot) in [(0, "a"), (1, "b"), (2, "c")] {
        assert!(table.register(RequestId::from(id), slot).is_ok());
    }
    for (id, slot) in [(2, "c"), (0, "a"), (1, "b")] {
        match reader_step(&mut table, ReadEvent::Message(response(id, "null"))) {
            ReaderAction::Deliver(s, r) => {
                assert_eq!(s, slot);
                assert!(r.id == RequestId::from(id));
            }
            _ => panic!("response {} was not delivered", id),
        }
    }
    assert_eq!(table.len(), 0);
}

#[test]
fn registering_a_waiting_id_is_refused() {
    let mut table = PendingTable::new();
    assert!(table.register(RequestId::from(1), "a").is_ok());
    assert_eq!(table.register(RequestId::from(1), "b"), Err("b"));
    assert!(table.register(RequestId::from("1".to_string()), "c").is_ok());
    assert_eq!(table.len(), 2);
}

#[test]
fn abort_then_fulfill_finds_nothing() {
    let mut table = PendingTable::new();
    table.register(RequestId::from(4), "slot").unwrap();
    assert_eq!(table.abort(&RequestId::from(4)), Some("slot"));
    assert_eq!(table.fulfill(&RequestId::from(4)), None);
    match reader_step(&mut table, ReadEvent::Message(response(4, "1"))) {
        ReaderAction::Drop(r) => assert!(r.id == RequestId::from(4)),
        _ => panic!("a late response must be dropped"),
    }
}

#[test]
fn fulfill_then_abort_finds_nothing() {
    let mut table = PendingTable::new();
    table.register(RequestId::from(4), "slot").unwrap();
    assert_eq!(table.fulfill(&RequestId::from(4)), Some("slot"));
    assert_eq!(table.abort(&RequestId::from(4)), None);
}

#[test]
fn unknown_response_is_dropped() {
    let mut table: PendingTable<&str> = PendingTable::new();
    table.register(RequestId::from(1), "one").unwrap();
    match reader_step(&mut table, ReadEvent::Message(response(7, "1"))) {
        ReaderAction::Drop(r) => assert!(r.id == RequestId::from(7)),
        _ => panic!("expected a drop"),
    }
    assert!(table.contains(&RequestId::from(1)));
}

#[test]
fn server_messages_are_forwarded() {
    let mut table: PendingTable<&str> = PendingTable::new();
    let q = Message::Request(Request::new(RequestId::from(0), "window/workDoneProgress/create".to_string(), Value::Null));
    assert!(matches!(reader_step(&mut table, ReadEvent::Message(q)), ReaderAction::Forward(Message::Request(_))));
}

#[test]
fn closed_stream_fails_every_waiting_request() {
    let mut table = PendingTable::new();
    table.register(RequestId::from(0), "a").unwrap();
    table.register(RequestId::from(1), "b").unwrap();
    let event = match read_msg_text(b"", true) {
        ReadOutcome::EndOfStream => ReadEvent::End,
        other => panic!("unexpected: {:?}", other),
    };
    match reader_step(&mut table, event) {
        ReaderAction::Stop(ClientError::EndOfStream, mut slots) => {
            slots.sort();
            assert_eq!(slots, vec!["a", "b"]);
        }
        _ => panic!("the reader must stop"),
    }
    assert_eq!(table.len(), 0);
    assert!(table.closed());
    assert_eq!(table.register(RequestId::from(2), "late"), Err("late"));
    assert_eq!(table.len(), 0);
}

#[test]
fn missing_length_stops_the_reader_and_fails_waiting_requests() {
    let mut table = PendingTable::new();
    table.register(RequestId::from(3), "w").unwrap();
    let event = match read_msg_text(b"Content-Type: text\r\n\r\n{}", false) {
        ReadOutcome::Failed(e) => ReadEvent::Framing(e),
        other => panic!("unexpected: {:?}", other),
    };
    match reader_step(&mut table, event) {
        ReaderAction::Stop(ClientError::Framing(FramingError::MissingContentLength), slots) => {
            assert_eq!(slots, vec!["w"]);
        }
        _ => panic!("the reader must stop"),
    }
    assert_eq!(table.len(), 0);
}

#[test]
fn undecodable_body_stops_the_reader() {
    let mut table: PendingTable<u8> = PendingTable::new();
    table.register(RequestId::from(0), 9).unwrap();
    match reader_step(&mut table, ReadEvent::Undecodable("[1]".to_string())) {
        ReaderAction::Stop(ClientError::Decode(text), slots) => {
            assert_eq!(text, "[1]");
            assert_eq!(slots, vec![9]);
        }
        _ => panic!("the reader must stop"),
    }
}

#[test]
fn initialize_handshake_reaches_ready() {
    let mut session = Session::new();
    assert_eq!(session.phase(), Phase::Starting);
    let init = session.begin_initialize(serde_json::from_str("{\"capabilities\":{}}").unwrap()).unwrap();
    assert!(init.id == RequestId::from(0));
    assert_eq!(init.method, "initialize");
    assert_eq!(session.phase(), Phase::Initializing);
    assert!(session.next_request("textDocument/hover".to_string(), Value::Null).is_none());

    let reply = match response(0, "{\"capabilities\":{}}") {
        Message::Response(r) => r,
        _ => unreachable!(),
    };
    let empty: Value = serde_json::from_str("{}").unwrap();
    let note = session.on_initialize_response(reply, empty.clone()).unwrap();
    assert_eq!(note.method, "initialized");
    assert_eq!(note.params, empty);
    assert_eq!(session.phase(), Phase::Ready);
    assert_eq!(session.capabilities(), Some(&serde_json::from_str::<Value>("{\"capabilities\":{}}").unwrap()));

    let next = session.next_request("textDocument/hover".to_string(), Value::Null).unwrap();
    assert!(next.id == RequestId::from(1));
    assert!(session.begin_initialize(Value::Null).is_none());
}

#[test]
fn failed_initialize_stops_the_client() {
    let mut session = Session::new();
    session.begin_initialize(Value::Null).unwrap();
    let reply = Response::new_err(RequestId::from(0), -32603, "no".to_string());
    match session.on_initialize_response(reply, Value::Null) {
        Err(ClientError::Protocol(e)) => assert_eq!(e.code, -32603),
        other => panic!("unexpected: {:?}", other),
    }
    assert_eq!(session.phase(), Phase::Stopped);
    assert!(session.next_request("x".to_string(), Value::Null).is_none());
}

fn markdown_hover(text: &str) -> Hover {
    Hover { contents: HoverContents::Markup { value: text.to_string() } }
}

#[test]
fn hover_at_origin_yields_text_and_position() {
    let param = HoverParam::new("file:///a.cpp".to_string(), (0, 0)).into_param();
    assert_eq!(param.line, 0);
    assert_eq!(param.character, 0);
    let result = Option::<HoverResult>::from_response(Some(markdown_hover("**int** foo")), param).unwrap();
    assert_eq!(result.text, "**int** foo");
    assert_eq!(result.pos, (0, 0));
}

#[test]
fn hover_request_routed_and_awaited() {
    let mut table = PendingTable::new();
    table.register(RequestId::from(1), ()).unwrap();
    let reply = response(1, "{\"contents\":{\"kind\":\"markdown\",\"value\":\"**int** foo\"}}");
    let resp = match reader_step(&mut table, ReadEvent::Message(reply)) {
        ReaderAction::Deliver((), r) => r,
        _ => panic!("not delivered"),
    };
    let raw = response_to_result(resp).unwrap();
    let value = raw["contents"]["value"].as_str().unwrap().to_string();
    let fetch: LspFetch<Option<HoverResult>> = LspFetch::new();
    let param = TextPosition { uri: "file:///a.cpp".to_string(), line: 0, character: 0 };
    let result = fetch.await_result((Ok(Some(markdown_hover(&value))), param)).unwrap().unwrap();
    assert_eq!(result.text, "**int** foo");
    assert_eq!(result.pos, (0, 0));
}

#[test]
fn hover_pieces_are_joined_by_line_feeds() {
    let contents = HoverContents::Array(vec![
        MarkedText::Plain("first".to_string()),
        MarkedText::Code { language: "cpp".to_string(), value: "int x;".to_string() },
        MarkedText::Plain("last".to_string()),
    ]);
    let param = TextPosition { uri: String::new(), line: 3, character: 7 };
    let r = Option::<HoverResult>::from_response(Some(Hover { contents }), param).unwrap();
    assert_eq!(r.text, "first\nint x;\nlast");
    assert_eq!(r.pos, (3, 7));
    let scalar = HoverContents::Scalar(MarkedText::Code { language: "c".to_string(), value: "v".to_string() });
    let param = TextPosition { uri: String::new(), line: 0, character: 0 };
    assert_eq!(Option::<HoverResult>::from_response(Some(Hover { contents: scalar }), param).unwrap().text, "v");
    let param = TextPosition { uri: String::new(), line: 0, character: 0 };
    assert!(Option::<HoverResult>::from_response(None, param).is_none());
}

#[test]
fn positions_are_cut_to_32_bits() {
    let p = HoverParam::new("u".to_string(), (usize::MAX, 5)).into_param();
    assert_eq!(p.line, u32::MAX);
    assert_eq!(p.character, 5);
}

#[test]
fn polling_again_returns_the_kept_result() {
    let mut fetch: LspFetch<Option<HoverResult>> = LspFetch::new();
    assert!(fetch.is_waiting());
    let origin = || TextPosition { uri: String::new(), line: 0, character: 0 };
    assert!(fetch.try_get_result(None).is_none());
    let first = fetch
        .try_get_result(Some((Ok(Some(markdown_hover("one"))), origin())))
        .map(|r| r.as_ref().unwrap().as_ref().unwrap().text.clone());
    assert_eq!(first.as_deref(), Some("one"));
    let again = fetch
        .try_get_result(Some((Ok(Some(markdown_hover("two"))), origin())))
        .map(|r| r.as_ref().unwrap().as_ref().unwrap().text.clone());
    assert_eq!(again.as_deref(), Some("one"));
    let third = fetch.try_get_result(None).map(|r| r.as_ref().unwrap().as_ref().unwrap().text.clone());
    assert_eq!(third.as_deref(), Some("one"));
    assert!(!fetch.is_waiting());
}

#[test]
fn a_failed_answer_is_kept_too() {
    let mut fetch: LspFetch<Option<HoverResult>> = LspFetch::new();
    let origin = TextPosition { uri: String::new(), line: 0, character: 0 };
    assert!(matches!(fetch.try_get_result(Some((Err(ClientError::EndOfStream), origin))), Some(Err(ClientError::EndOfStream))));
    assert!(matches!(fetch.try_get_result(None), Some(Err(ClientError::EndOfStream))));
}
