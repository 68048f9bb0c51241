use vstd::prelude::*;
use crate::framing::FramingError;
use crate::id::RequestId;

verus! {

#[verifier::external_type_specification]
#[verifier::external_body]
pub struct ExJsonValue(serde_json::Value);

/// Whether a JSON value is `null`.
pub uninterp spec fn json_is_null(v: serde_json::Value) -> bool;

/// Relies on `serde_json::Value::is_null`: true exactly for `null`.
pub assume_specification[ serde_json::Value::is_null ](v: &serde_json::Value) -> (r: bool)
    ensures
        r == json_is_null(*v),
;

/// Relies on `<serde_json::Value as Default>::default`, which gives `null`.
pub assume_specification[ <serde_json::Value as core::default::Default>::default ]() -> (r:
    serde_json::Value)
    ensures
        json_is_null(r),
;

/// Relies on `<serde_json::Value as Clone>::clone`, which does not fail; nothing
/// is claimed of the copy.
pub assume_specification[ <serde_json::Value as core::clone::Clone>::clone ](v: &serde_json::Value) -> (r:
    serde_json::Value)
;

/// A call that expects an answer.
#[derive(Debug, Clone)]
pub struct Request {
    pub id: RequestId,
    pub method: String,
    pub params: serde_json::Value,
}

/// The answer to a request: a result or an error object.
#[derive(Debug, Clone)]
pub struct Response {
    pub id: RequestId,
    pub result: Option<serde_json::Value>,
    pub error: Option<ResponseError>,
}

/// The error object of a failed request.
#[derive(Debug, Clone)]
pub struct ResponseError {
    pub code: i32,
    pub message: String,
    pub data: Option<serde_json::Value>,
}

/// A message that expects no answer.
#[derive(Debug, Clone)]
pub struct Notification {
    pub method: String,
    pub params: serde_json::Value,
}

/// One JSON-RPC message.
#[derive(Debug, Clone)]
pub enum Message {
    Request(Request),
    Response(Response),
    Notification(Notification),
}

/// The fields of a JSON-RPC object as they stand in the text, before its
/// shape is known: each one present or absent. A `result` that is `null` is
/// present.
#[derive(Debug)]
pub struct RawMessage {
    pub id: Option<RequestId>,
    pub method: Option<String>,
    pub params: Option<serde_json::Value>,
    pub result: Option<serde_json::Value>,
    pub error: Option<ResponseError>,
}

/// The error codes of JSON-RPC and of the language server protocol.
#[derive(Clone, Copy, Debug, PartialEq, Eq)]
#[non_exhaustive]
pub enum ErrorCode {
    ParseError,
    InvalidRequest,
    MethodNotFound,
    InvalidParams,
    InternalError,
    ServerErrorStart,
    ServerErrorEnd,
    /// The server received a message before the `initialize` request.
    ServerNotInitialized,
    UnknownErrorCode,
    /// The client cancelled a request and the server noticed.
    RequestCanceled,
    /// The document changed under the request.
    ContentModified,
    /// The server cancelled the request.
    ServerCancelled,
    /// The request was well formed but failed.
    RequestFailed,
}

pub open spec fn error_code_value(c: ErrorCode) -> int {
    match c {
        ErrorCode::ParseError => -32700,
        ErrorCode::InvalidRequest => -32600,
        ErrorCode::MethodNotFound => -32601,
        ErrorCode::InvalidParams => -32602,
        ErrorCode::InternalError => -32603,
        ErrorCode::ServerErrorStart => -32099,
        ErrorCode::ServerErrorEnd => -32000,
        ErrorCode::ServerNotInitialized => -32002,
        ErrorCode::UnknownErrorCode => -32001,
        ErrorCode::RequestCanceled => -32800,
        ErrorCode::ContentModified => -32801,
        ErrorCode::ServerCancelled => -32802,
        ErrorCode::RequestFailed => -32803,
    }
}

impl ErrorCode {
    /// The number that stands for this code on the wire.
    pub fn code(self) -> (r: i32)
        ensures
            r as int == error_code_value(self),
    {
        match self {
            ErrorCode::ParseError => -32700,
            ErrorCode::InvalidRequest => -32600,
            ErrorCode::MethodNotFound => -32601,
            ErrorCode::InvalidParams => -32602,
            ErrorCode::InternalError => -32603,
            ErrorCode::ServerErrorStart => -32099,
            ErrorCode::ServerErrorEnd => -32000,
            ErrorCode::ServerNotInitialized => -32002,
            ErrorCode::UnknownErrorCode => -32001,
            ErrorCode::RequestCanceled => -32800,
            ErrorCode::ContentModified => -32801,
            ErrorCode::ServerCancelled => -32802,
            ErrorCode::RequestFailed => -32803,
        }
    }

    /// The code that a number stands for, if it is one of the known ones.
    pub fn from_code(n: i32) -> (r: Option<ErrorCode>)
        ensures
            match r {
                Some(c) => error_code_value(c) == n as int,
                None => forall|c: ErrorCode| error_code_value(c) != n as int,
            },
    {
        if n == -32700 {
            Some(ErrorCode::ParseError)
        } else if n == -32600 {
            Some(ErrorCode::InvalidRequest)
        } else if n == -32601 {
            Some(ErrorCode::MethodNotFound)
        } else if n == -32602 {
            Some(ErrorCode::InvalidParams)
        } else if n == -32603 {
            Some(ErrorCode::InternalError)
        } else if n == -32099 {
            Some(ErrorCode::ServerErrorStart)
        } else if n == -32000 {
            Some(ErrorCode::ServerErrorEnd)
        } else if n == -32002 {
            Some(ErrorCode::ServerNotInitialized)
        } else if n == -32001 {
            Some(ErrorCode::UnknownErrorCode)
        } else if n == -32800 {
            Some(ErrorCode::RequestCanceled)
        } else if n == -32801 {
            Some(ErrorCode::ContentModified)
        } else if n == -32802 {
            Some(ErrorCode::ServerCancelled)
        } else if n == -32803 {
            Some(ErrorCode::RequestFailed)
        } else {
            None
        }
    }
}

/// The failures of the client engine.
#[derive(Debug, Clone)]
pub enum ClientError {
    /// A frame on the wire was malformed.
    Framing(FramingError),
    /// A well-framed body that is not a JSON-RPC message; it holds the body.
    Decode(String),
    /// The server process or its pipes failed; it says how.
    Transport(String),
    /// The server closed its output.
    EndOfStream,
    /// The server answered the request with an error object.
    Protocol(ResponseError),
    /// The caller gave up on the request.
    Cancelled,
}

impl Response {
    /// Exactly one of `result` and `error` is present.
    pub open spec fn wf(&self) -> bool {
        self.result.is_some() != self.error.is_some()
    }

    /// A successful response.
    pub fn new_ok(id: RequestId, result: serde_json::Value) -> (r: Response)
        ensures
            r.wf(),
            r.id == id,
            r.result == Some(result),
            r.error is None,
    {
        Response { id, result: Some(result), error: None }
    }

    /// A failed response, with no `data`.
    pub fn new_err(id: RequestId, code: i32, message: String) -> (r: Response)
        ensures
            r.wf(),
            r.id == id,
            r.result is None,
            r.error matches Some(e) && e.code == code && e.message == message && e.data is None,
    {
        let error = ResponseError { code, message, data: None };
        Response { id, result: None, error: Some(error) }
    }

    /// The result of a successful response; a failed one is handed back.
    pub fn extract(self) -> (r: Result<serde_json::Value, Response>)
        ensures
            self.result matches Some(v) ==> r == Ok::<serde_json::Value, Response>(v),
            self.result is None ==> r == Err::<serde_json::Value, Response>(self),
    {
        match self.result {
            Some(v) => Ok(v),
            None => Err(self),
        }
    }
}

/// Whether two texts are the same, compared byte by byte.
pub fn same_text(a: &str, b: &str) -> (r: bool)
    ensures
        r == (a@ == b@),
{
    let x = a.as_bytes();
    let y = b.as_bytes();
    proof {
        vstd::utf8::encode_utf8_decode_utf8(a@);
        vstd::utf8::encode_utf8_decode_utf8(b@);
    }
    if x.len() != y.len() {
        return false;
    }
    let mut i: usize = 0;
    while i < x.len()
        invariant
            0 <= i <= x@.len(),
            x@.len() == y@.len(),
            x@ == vstd::utf8::encode_utf8(a@),
            y@ == vstd::utf8::encode_utf8(b@),
            x@.subrange(0, i as int) == y@.subrange(0, i as int),
        decreases x@.len() - i,
    {
        if x[i] != y[i] {
            assert(x@[i as int] != y@[i as int]);
            assert(x@ != y@);
            return false;
        }
        i = i + 1;
        proof {
            assert(x@.subrange(0, i as int) =~= x@.subrange(0, i - 1).push(x@[i - 1]));
            assert(y@.subrange(0, i as int) =~= y@.subrange(0, i - 1).push(y@[i - 1]));
        }
    }
    assert(x@ =~= x@.subrange(0, x@.len() as int));
    assert(y@ =~= y@.subrange(0, y@.len() as int));
    true
}

impl Request {
    pub fn new(id: RequestId, method: String, params: serde_json::Value) -> (r: Request)
        ensures
            r.id == id,
            r.method == method,
            r.params == params,
    {
        Request { id, method, params }
    }

    /// The id and params of a request for `method`; any other request is
    /// handed back.
    pub fn extract(self, method: &str) -> (r: Result<(RequestId, serde_json::Value), Request>)
        ensures
            self.method@ == method@ ==> r == Ok::<(RequestId, serde_json::Value), Request>(
                (self.id, self.params),
            ),
            self.method@ != method@ ==> r == Err::<(RequestId, serde_json::Value), Request>(self),
    {
        if same_text(self.method.as_str(), method) {
            Ok((self.id, self.params))
        } else {
            Err(self)
        }
    }

    pub fn is_shutdown(&self) -> (r: bool)
        ensures
            r == (self.method@ == "shutdown"@),
    {
        same_text(self.method.as_str(), "shutdown")
    }

    pub fn is_initialize(&self) -> (r: bool)
        ensures
            r == (self.method@ == "initialize"@),
    {
        same_text(self.method.as_str(), "initialize")
    }
}

impl Notification {
    pub fn new(method: String, params: serde_json::Value) -> (r: Notification)
        ensures
            r.method == method,
            r.params == params,
    {
        Notification { method, params }
    }

    /// The params of a notification of `method`; any other notification is
    /// handed back.
    pub fn extract(self, method: &str) -> (r: Result<serde_json::Value, Notification>)
        ensures
            self.method@ == method@ ==> r == Ok::<serde_json::Value, Notification>(self.params),
            self.method@ != method@ ==> r == Err::<serde_json::Value, Notification>(self),
    {
        if same_text(self.method.as_str(), method) {
            Ok(self.params)
        } else {
            Err(self)
        }
    }

    pub fn is_exit(&self) -> (r: bool)
        ensures
            r == (self.method@ == "exit"@),
    {
        same_text(self.method.as_str(), "exit")
    }

    pub fn is_initialized(&self) -> (r: bool)
        ensures
            r == (self.method@ == "initialized"@),
    {
        same_text(self.method.as_str(), "initialized")
    }
}

/// The params that an absent or present `params` field stands for: absent is `null`.
pub open spec fn params_from(field: Option<serde_json::Value>, params: serde_json::Value) -> bool {
    match field {
        Some(p) => params == p,
        None => json_is_null(params),
    }
}

/// What decoding the fields of an object gives: a response if it has an `id`
/// and exactly one of `result` and `error`; else a request if it has an `id`
/// and a `method`; else a notification if it has a `method` and no `id`;
/// else nothing.
pub open spec fn decodes_to(raw: RawMessage, r: Option<Message>) -> bool {
    if raw.id.is_some() && raw.result.is_some() != raw.error.is_some() {
        r == Some(
            Message::Response(
                Response { id: raw.id.unwrap(), result: raw.result, error: raw.error },
            ),
        )
    } else if raw.method.is_some() && raw.id.is_some() {
        r matches Some(Message::Request(q)) && q.id == raw.id.unwrap() && q.method
            == raw.method.unwrap() && params_from(raw.params, q.params)
    } else if raw.method.is_some() {
        r matches Some(Message::Notification(n)) && n.method == raw.method.unwrap()
            && params_from(raw.params, n.params)
    } else {
        r is None
    }
}

/// The `params` field written for some params: left out when they are `null`.
pub open spec fn params_field(params: serde_json::Value) -> Option<serde_json::Value> {
    if json_is_null(params) {
        None
    } else {
        Some(params)
    }
}

/// The fields that a message is written with (besides `jsonrpc`).
pub open spec fn raw_of(m: Message) -> RawMessage {
    match m {
        Message::Request(q) => RawMessage {
            id: Some(q.id),
            method: Some(q.method),
            params: params_field(q.params),
            result: None,
            error: None,
        },
        Message::Response(p) => RawMessage {
            id: Some(p.id),
            method: None,
            params: None,
            result: p.result,
            error: p.error,
        },
        Message::Notification(n) => RawMessage {
            id: None,
            method: Some(n.method),
            params: params_field(n.params),
            result: None,
            error: None,
        },
    }
}

/// Two messages say the same thing: the same fields, where `null` params
/// count as equal.
pub open spec fn same_message(a: Message, b: Message) -> bool {
    match (a, b) {
        (Message::Request(x), Message::Request(y)) => x.id == y.id && x.method == y.method && (
        x.params == y.params || (json_is_null(x.params) && json_is_null(y.params))),
        (Message::Response(x), Message::Response(y)) => x == y,
        (Message::Notification(x), Message::Notification(y)) => x.method == y.method && (x.params
            == y.params || (json_is_null(x.params) && json_is_null(y.params))),
        _ => false,
    }
}

impl Message {
    /// A message is well formed when a response in it is.
    pub open spec fn wf(&self) -> bool {
        match self {
            Message::Response(p) => p.wf(),
            _ => true,
        }
    }

    /// The fields to write for this message.
    pub fn into_raw(self) -> (r: RawMessage)
        ensures
            r == raw_of(self),
    {
        match self {
            Message::Request(q) => {
                let params = if q.params.is_null() {
                    None
                } else {
                    Some(q.params)
                };
                RawMessage { id: Some(q.id), method: Some(q.method), params, result: None, error: None }
            },
            Message::Response(p) => RawMessage {
                id: Some(p.id),
                method: None,
                params: None,
                result: p.result,
                error: p.error,
            },
            Message::Notification(n) => {
                let params = if n.params.is_null() {
                    None
                } else {
                    Some(n.params)
                };
                RawMessage { id: None, method: Some(n.method), params, result: None, error: None }
            },
        }
    }

    /// The message that these fields make, if they make one.
    pub fn from_raw(raw: RawMessage) -> (r: Option<Message>)
        ensures
            decodes_to(raw, r),
            r matches Some(m) ==> m.wf(),
    {
        let RawMessage { id, method, params, result, error } = raw;
        match id {
            Some(id) => {
                if result.is_some() != error.is_some() {
                    Some(Message::Response(Response { id, result, error }))
                } else {
                    match method {
                        Some(method) => {
                            let params = match params {
                                Some(p) => p,
                                None => serde_json::Value::default(),
                            };
                            Some(Message::Request(Request { id, method, params }))
                        },
                        None => None,
                    }
                }
            },
            None => match method {
                Some(method) => {
                    let params = match params {
                        Some(p) => p,
                        None => serde_json::Value::default(),
                    };
                    Some(Message::Notification(Notification { method, params }))
                },
                None => None,
            },
        }
    }
}

impl From<Request> for Message {
    fn from(request: Request) -> (r: Message) {
        Message::Request(request)
    }
}

impl vstd::std_specs::convert::FromSpecImpl<Request> for Message {
    open spec fn obeys_from_spec() -> bool {
        true
    }

    open spec fn from_spec(request: Request) -> Message {
        Message::Request(request)
    }
}

impl From<Response> for Message {
    fn from(response: Response) -> (r: Message) {
        Message::Response(response)
    }
}

impl vstd::std_specs::convert::FromSpecImpl<Response> for Message {
    open spec fn obeys_from_spec() -> bool {
        true
    }

    open spec fn from_spec(response: Response) -> Message {
        Message::Response(response)
    }
}

impl From<Notification> for Message {
    fn from(notification: Notification) -> (r: Message) {
        Message::Notification(notification)
    }
}

impl vstd::std_specs::convert::FromSpecImpl<Notification> for Message {
    open spec fn obeys_from_spec() -> bool {
        true
    }

    open spec fn from_spec(notification: Notification) -> Message {
        Message::Notification(notification)
    }
}

/// Writing a message's fields and reading them back gives the same message.
pub proof fn lemma_message_round_trip(m: Message, r: Option<Message>)
    requires
        m.wf(),
        decodes_to(raw_of(m), r),
    ensures
        r matches Some(back) && same_message(back, m),
{
}

/// What a response gives its caller: its result, or its error object as a
/// protocol failure.
pub fn response_to_result(resp: Response) -> (r: Result<serde_json::Value, ClientError>)
    requires
        resp.wf(),
    ensures
        match resp.error {
            Some(e) => r == Err::<serde_json::Value, ClientError>(ClientError::Protocol(e)),
            None => r == Ok::<serde_json::Value, ClientError>(resp.result.unwrap()),
        },
{
    match resp.error {
        Some(e) => Err(ClientError::Protocol(e)),
        None => match resp.result {
            Some(v) => Ok(v),
            None => Err(ClientError::Cancelled),
        },
    }
}

} // verus!
