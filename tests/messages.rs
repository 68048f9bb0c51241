use lspedit::id::RequestId;
use lspedit::msg::{
    response_to_result, ClientError, ErrorCode, Message, Notification, RawMessage, Request, Response,
    ResponseError,
};
use serde_json::Value;

fn raw_from_json(text: &str) -> RawMessage {
    let v: Value = serde_json::from_str(text).unwrap();
    let id = v.get("id").and_then(|id| match id {
        Value::Number(n) => n.as_i64().map(|n| RequestId::from(n as i32)),
        Value::String(s) => Some(RequestId::from(s.clone())),
        _ => None,
    });
    let error = v.get("error").map(|e| ResponseError {
        code: e.get("code").and_then(|c| c.as_i64()).unwrap() as i32,
        message: e.get("message").and_then(|m| m.as_str()).unwrap().to_string(),
        data: e.get("data").cloned(),
    });
    RawMessage {
        id,
        method: v.get("method").and_then(|m| m.as_str()).map(|m| m.to_string()),
        params: v.get("params").filter(|p| !p.is_null()).cloned(),
        result: v.get("result").cloned(),
        error,
    }
}

fn json_from_raw(raw: RawMessage) -> String {
    let mut map = serde_json::Map::new();
    if let Some(id) = raw.id {
        map.insert("id".to_string(), Value::from(id.as_i32().unwrap()));
    }
    if let Some(method) = raw.method {
        map.insert("method".to_string(), Value::String(method));
    }
    if let Some(params) = raw.params {
        map.insert("params".to_string(), params);
    }
    if let Some(result) = raw.result {
        map.insert("result".to_string(), result);
    }
    serde_json::to_string(&Value::Object(map)).unwrap()
}

#[test]
fn shutdown_with_explicit_null() {
    let text = "{\"jsonrpc\": \"2.0\",\"id\": 3,\"method\": \"shutdown\", \"params\": null }";
    let msg = Message::from_raw(raw_from_json(text)).unwrap();

    assert!(
        matches!(msg, Message::Request(req) if req.id == 3.into() && req.method == "shutdown")
    );
}

#[test]
fn shutdown_with_no_params() {
    let text = "{\"jsonrpc\": \"2.0\",\"id\": 3,\"method\": \"shutdown\"}";
    let msg = Message::from_raw(raw_from_json(text)).unwrap();

    assert!(
        matches!(msg, Message::Request(req) if req.id == 3.into() && req.method == "shutdown")
    );
}

#[test]
fn notification_with_explicit_null() {
    let text = "{\"jsonrpc\": \"2.0\",\"method\": \"exit\", \"params\": null }";
    let msg = Message::from_raw(raw_from_json(text)).unwrap();

    assert!(matches!(msg, Message::Notification(not) if not.method == "exit"));
}

#[test]
fn notification_with_no_params() {
    let text = "{\"jsonrpc\": \"2.0\",\"method\": \"exit\"}";
    let msg = Message::from_raw(raw_from_json(text)).unwrap();

    assert!(matches!(msg, Message::Notification(not) if not.method == "exit"));
}

#[test]
fn serialize_request_with_null_params() {
    let msg = Message::Request(Request {
        id: RequestId::from(3),
        method: "shutdown".into(),
        params: serde_json::Value::Null,
    });
    let serialized = json_from_raw(msg.into_raw());

    assert_eq!("{\"id\":3,\"method\":\"shutdown\"}", serialized);
}

#[test]
fn serialize_notification_with_null_params() {
    let msg = Message::Notification(Notification {
        method: "exit".into(),
        params: serde_json::Value::Null,
    });
    let serialized = json_from_raw(msg.into_raw());

    assert_eq!("{\"method\":\"exit\"}", serialized);
}

#[test]
fn response_is_tried_first() {
    let msg = Message::from_raw(raw_from_json("{\"id\":0,\"result\":{\"capabilities\":{}}}")).unwrap();
    match msg {
        Message::Response(r) => {
            assert!(r.id == RequestId::from(0));
            let expected: Value = serde_json::from_str("{\"capabilities\":{}}").unwrap();
            assert_eq!(r.result, Some(expected));
            assert!(r.error.is_none());
        }
        other => panic!("not a response: {:?}", other),
    }
}

#[test]
fn null_result_is_a_result() {
    let msg = Message::from_raw(raw_from_json("{\"id\":4,\"result\":null}")).unwrap();
    assert!(matches!(msg, Message::Response(r) if r.result == Some(Value::Null)));
}

#[test]
fn error_response_is_decoded() {
    let text = "{\"id\":2,\"error\":{\"code\":-32601,\"message\":\"no such method\"}}";
    let msg = Message::from_raw(raw_from_json(text)).unwrap();
    match msg {
        Message::Response(r) => {
            assert!(r.result.is_none());
            let e = r.error.unwrap();
            assert_eq!(e.code, ErrorCode::MethodNotFound.code());
            assert_eq!(e.message, "no such method");
        }
        other => panic!("not a response: {:?}", other),
    }
}

#[test]
fn response_with_both_result_and_error_is_not_a_response() {
    let text = "{\"id\":2,\"result\":1,\"error\":{\"code\":1,\"message\":\"m\"}}";
    assert!(Message::from_raw(raw_from_json(text)).is_none());
}

#[test]
fn id_and_method_make_a_request() {
    let text = "{\"id\":\"abc\",\"method\":\"workspace/configuration\",\"params\":{\"a\":1}}";
    match Message::from_raw(raw_from_json(text)).unwrap() {
        Message::Request(q) => {
            assert!(q.id == RequestId::from("abc".to_string()));
            assert_eq!(q.method, "workspace/configuration");
            assert_eq!(q.params, serde_json::from_str::<Value>("{\"a\":1}").unwrap());
        }
        other => panic!("not a request: {:?}", other),
    }
}

#[test]
fn neither_id_nor_method_is_no_message() {
    assert!(Message::from_raw(raw_from_json("{\"params\":1}")).is_none());
    assert!(Message::from_raw(raw_from_json("{\"id\":1}")).is_none());
}

#[test]
fn message_round_trip_through_fields() {
    let params: Value = serde_json::from_str("{\"textDocument\":{\"uri\":\"file:///a.c\"}}").unwrap();
    let q = Message::Request(Request::new(RequestId::from(9), "textDocument/hover".to_string(), params.clone()));
    match Message::from_raw(q.into_raw()).unwrap() {
        Message::Request(back) => {
            assert!(back.id == RequestId::from(9));
            assert_eq!(back.method, "textDocument/hover");
            assert_eq!(back.params, params);
        }
        other => panic!("not a request: {:?}", other),
    }
    let n = Message::Notification(Notification::new("initialized".to_string(), Value::Null));
    match Message::from_raw(n.into_raw()).unwrap() {
        Message::Notification(back) => {
            assert_eq!(back.method, "initialized");
            assert!(back.params.is_null());
        }
        other => panic!("not a notification: {:?}", other),
    }
    let p = Message::Response(Response::new_err(RequestId::from(1), -32800, "cancelled".to_string()));
    match Message::from_raw(p.into_raw()).unwrap() {
        Message::Response(back) => {
            assert!(back.id == RequestId::from(1));
            assert!(back.result.is_none());
            let e = back.error.unwrap();
            assert_eq!(e.code, -32800);
            assert_eq!(e.message, "cancelled");
            assert!(e.data.is_none());
        }
        other => panic!("not a response: {:?}", other),
    }
}

#[test]
fn response_to_result_gives_result_or_protocol_error() {
    let ok = Response::new_ok(RequestId::from(1), Value::from(5));
    assert_eq!(response_to_result(ok).unwrap(), Value::from(5));
    let err = Response::new_err(RequestId::from(1), -32603, "boom".to_string());
    match response_to_result(err) {
        Err(ClientError::Protocol(e)) => {
            assert_eq!(e.code, -32603);
            assert_eq!(e.message, "boom");
        }
        other => panic!("unexpected: {:?}", other),
    }
}

#[test]
fn error_codes_have_their_numbers() {
    assert_eq!(ErrorCode::ParseError.code(), -32700);
    assert_eq!(ErrorCode::InvalidRequest.code(), -32600);
    assert_eq!(ErrorCode::InvalidParams.code(), -32602);
    assert_eq!(ErrorCode::InternalError.code(), -32603);
    assert_eq!(ErrorCode::ServerNotInitialized.code(), -32002);
    assert_eq!(ErrorCode::RequestCanceled.code(), -32800);
    assert_eq!(ErrorCode::ContentModified.code(), -32801);
    assert_eq!(ErrorCode::ServerCancelled.code(), -32802);
    assert_eq!(ErrorCode::RequestFailed.code(), -32803);
    assert_eq!(ErrorCode::from_code(-32801), Some(ErrorCode::ContentModified));
    assert_eq!(ErrorCode::from_code(0), None);
}

#[test]
fn extract_checks_the_method() {
    let q = Request::new(RequestId::from(3), "shutdown".to_string(), Value::Null);
    assert!(q.is_shutdown());
    assert!(!q.is_initialize());
    match q.extract("initialize") {
        Err(back) => match back.extract("shutdown") {
            Ok((id, params)) => {
                assert!(id == RequestId::from(3));
                assert!(params.is_null());
            }
            Err(_) => panic!("the method matches"),
        },
        Ok(_) => panic!("the method differs"),
    }
    let n = Notification::new("exit".to_string(), Value::from(1));
    assert!(n.is_exit());
    assert!(!n.is_initialized());
    assert_eq!(n.extract("exit").ok(), Some(Value::from(1)));
    let n = Notification::new("initialized".to_string(), Value::Null);
    assert!(n.is_initialized());
    assert!(n.extract("exit").is_err());
}

#[test]
fn response_extract_gives_the_result() {
    assert_eq!(Response::new_ok(RequestId::from(1), Value::from(2)).extract().ok(), Some(Value::from(2)));
    assert!(Response::new_err(RequestId::from(1), 1, "m".to_string()).extract().is_err());
}

#[test]
fn same_text_compares_whole_strings() {
    assert!(lspedit::msg::same_text("abc", "abc"));
    assert!(!lspedit::msg::same_text("abc", "abd"));
    assert!(!lspedit::msg::same_text("abc", "ab"));
    assert!(lspedit::msg::same_text("", ""));
}

#[test]
fn messages_from_their_parts() {
    let m: Message = Request::new(RequestId::from(1), "a".to_string(), Value::Null).into();
    assert!(matches!(m, Message::Request(_)));
    let m: Message = Notification::new("b".to_string(), Value::Null).into();
    assert!(matches!(m, Message::Notification(_)));
    let m: Message = Response::new_ok(RequestId::from(1), Value::Null).into();
    assert!(matches!(m, Message::Response(_)));
}
