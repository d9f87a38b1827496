use vstd::prelude::*;

use crate::json::{Json, JsonV};
pub use crate::messages::Method;

verus! {

/// A JSON-RPC error code: the named codes of the specification plus the
/// reserved, parameterized server range [-32099, -32000].
#[derive(Clone, Copy, PartialEq, Eq, Structural, Debug)]
pub enum ErrorCode {
    ServerError(i16),
    ParseError,
    InvalidRequest,
    MethodNotFound,
    InvalidParams,
    InternalError,
}

/// The integer a code stands for on the wire.
pub open spec fn spec_code_int(c: ErrorCode) -> int {
    match c {
        ErrorCode::ServerError(n) => n as int,
        ErrorCode::ParseError => -32700,
        ErrorCode::InvalidRequest => -32600,
        ErrorCode::MethodNotFound => -32601,
        ErrorCode::InvalidParams => -32602,
        ErrorCode::InternalError => -32603,
    }
}

/// A `ServerError` code is only meaningful inside its reserved range; the
/// named codes carry no parameter and are always valid.
pub open spec fn code_in_range(c: ErrorCode) -> bool {
    match c {
        ErrorCode::ServerError(n) => -32099 <= n <= -32000,
        _ => true,
    }
}

impl ErrorCode {
    /// The wire integer of this code.
    pub fn code_int(&self) -> (r: i64)
        ensures
            r as int == spec_code_int(*self),
    {
        match self {
            ErrorCode::ServerError(n) => *n as i64,
            ErrorCode::ParseError => -32700,
            ErrorCode::InvalidRequest => -32600,
            ErrorCode::MethodNotFound => -32601,
            ErrorCode::InvalidParams => -32602,
            ErrorCode::InternalError => -32603,
        }
    }
}

/// The code a wire integer stands for: the five named codes, the reserved
/// server range, and nothing else.
pub open spec fn spec_code_of_int(n: int) -> Option<ErrorCode> {
    if n == -32700 {
        Some(ErrorCode::ParseError)
    } else if n == -32600 {
        Some(ErrorCode::InvalidRequest)
    } else if n == -32601 {
        Some(ErrorCode::MethodNotFound)
    } else if n == -32602 {
        Some(ErrorCode::InvalidParams)
    } else if -32099 <= n <= -32000 {
        Some(ErrorCode::ServerError(n as i16))
    } else if n == -32603 {
        Some(ErrorCode::InternalError)
    } else {
        None
    }
}

/// Decodes a wire integer into a code.
pub fn code_of_int(n: i64) -> (r: Option<ErrorCode>)
    ensures
        r == spec_code_of_int(n as int),
{
    if n == -32700 {
        Some(ErrorCode::ParseError)
    } else if n == -32600 {
        Some(ErrorCode::InvalidRequest)
    } else if n == -32601 {
        Some(ErrorCode::MethodNotFound)
    } else if n == -32602 {
        Some(ErrorCode::InvalidParams)
    } else if -32099 <= n && n <= -32000 {
        Some(ErrorCode::ServerError(n as i16))
    } else if n == -32603 {
        Some(ErrorCode::InternalError)
    } else {
        None
    }
}

/// Encoding a valid code and decoding the integer yields the code again,
/// and decoding never yields a code outside its range.
pub proof fn lemma_code_int_round_trip(c: ErrorCode, n: int)
    ensures
        code_in_range(c) ==> spec_code_of_int(spec_code_int(c)) == Some(c),
        spec_code_of_int(n) matches Some(c2) ==> code_in_range(c2) && spec_code_int(c2) == n,
{
}

/// A message identifier: JSON-RPC allows a number or a string.
#[derive(Debug, Clone, PartialEq, Eq)]
pub enum NumberOrString {
    Number(i32),
    String(String),
}

/// Mathematical value of a message identifier.
#[verifier::ext_equal]
pub ghost enum IdV {
    Num(int),
    Str(Seq<char>),
}

impl View for NumberOrString {
    type V = IdV;

    open spec fn view(&self) -> IdV {
        match self {
            NumberOrString::Number(n) => IdV::Num(*n as int),
            NumberOrString::String(s) => IdV::Str(s@),
        }
    }
}

/// The error object carried by error responses: `{code, message, data}`.
#[derive(Debug, PartialEq, Eq)]
pub struct ErrorData {
    pub code: ErrorCode,
    pub message: String,
    pub data: Option<Json>,
}

/// Mathematical value of an error object.
#[verifier::ext_equal]
pub ghost struct ErrorDataV {
    pub code: ErrorCode,
    pub message: Seq<char>,
    pub data: Option<JsonV>,
}

impl View for ErrorData {
    type V = ErrorDataV;

    open spec fn view(&self) -> ErrorDataV {
        ErrorDataV {
            code: self.code,
            message: self.message@,
            data: match self.data {
                Some(d) => Some(d@),
                None => None,
            },
        }
    }
}

/// The untyped decode of one wire line, before classification: every
/// field of the JSON-RPC envelope, each possibly absent.
#[derive(Debug, PartialEq, Eq)]
pub struct Raw {
    pub jsonrpc: Option<String>,
    pub id: Option<NumberOrString>,
    pub method: Option<String>,
    pub params: Option<Json>,
    pub result: Option<Json>,
    pub error: Option<ErrorData>,
}

/// Mathematical value of an envelope.
#[verifier::ext_equal]
pub ghost struct RawV {
    pub jsonrpc: Option<Seq<char>>,
    pub id: Option<IdV>,
    pub method: Option<Seq<char>>,
    pub params: Option<JsonV>,
    pub result: Option<JsonV>,
    pub error: Option<ErrorDataV>,
}

impl View for Raw {
    type V = RawV;

    open spec fn view(&self) -> RawV {
        RawV {
            jsonrpc: match self.jsonrpc {
                Some(s) => Some(s@),
                None => None,
            },
            id: match self.id {
                Some(i) => Some(i@),
                None => None,
            },
            method: match self.method {
                Some(m) => Some(m@),
                None => None,
            },
            params: match self.params {
                Some(p) => Some(p@),
                None => None,
            },
            result: match self.result {
                Some(r) => Some(r@),
                None => None,
            },
            error: match self.error {
                Some(e) => Some(e@),
                None => None,
            },
        }
    }
}

/// An incoming call: always carries an identifier.
#[derive(Debug, PartialEq, Eq)]
pub struct Request {
    pub id: NumberOrString,
    pub method: String,
    pub params: Option<Json>,
}

#[verifier::ext_equal]
pub ghost struct RequestV {
    pub id: IdV,
    pub method: Seq<char>,
    pub params: Option<JsonV>,
}

impl View for Request {
    type V = RequestV;

    open spec fn view(&self) -> RequestV {
        RequestV {
            id: self.id@,
            method: self.method@,
            params: match self.params {
                Some(p) => Some(p@),
                None => None,
            },
        }
    }
}

/// A reply to a call: carries a result, or an error object, never both.
#[derive(Debug, PartialEq, Eq)]
pub struct Response {
    pub id: Option<NumberOrString>,
    pub result: Option<Json>,
    pub error: Option<ErrorData>,
}

#[verifier::ext_equal]
pub ghost struct ResponseV {
    pub id: Option<IdV>,
    pub result: Option<JsonV>,
    pub error: Option<ErrorDataV>,
}

impl View for Response {
    type V = ResponseV;

    open spec fn view(&self) -> ResponseV {
        ResponseV {
            id: match self.id {
                Some(i) => Some(i@),
                None => None,
            },
            result: match self.result {
                Some(r) => Some(r@),
                None => None,
            },
            error: match self.error {
                Some(e) => Some(e@),
                None => None,
            },
        }
    }
}

/// A call that expects no reply: never carries an identifier.
#[derive(Debug, PartialEq, Eq)]
pub struct Notification {
    pub method: String,
    pub params: Option<Json>,
}

#[verifier::ext_equal]
pub ghost struct NotificationV {
    pub method: Seq<char>,
    pub params: Option<JsonV>,
}

impl View for Notification {
    type V = NotificationV;

    open spec fn view(&self) -> NotificationV {
        NotificationV {
            method: self.method@,
            params: match self.params {
                Some(p) => Some(p@),
                None => None,
            },
        }
    }
}

/// A standalone error message.
#[derive(Debug, PartialEq, Eq)]
pub struct Error {
    pub id: Option<NumberOrString>,
    pub error: ErrorData,
}

#[verifier::ext_equal]
pub ghost struct ErrorV {
    pub id: Option<IdV>,
    pub error: ErrorDataV,
}

impl View for Error {
    type V = ErrorV;

    open spec fn view(&self) -> ErrorV {
        ErrorV {
            id: match self.id {
                Some(i) => Some(i@),
                None => None,
            },
            error: self.error@,
        }
    }
}

/// One classified wire message: exactly one variant per envelope that
/// classifies at all.
#[derive(Debug, PartialEq, Eq)]
pub enum Message {
    Request(Request),
    Response(Response),
    Notification(Notification),
    Error(Error),
    Null,
}

#[verifier::ext_equal]
pub ghost enum MessageV {
    Request(RequestV),
    Response(ResponseV),
    Notification(NotificationV),
    Error(ErrorV),
    Null,
}

impl View for Message {
    type V = MessageV;

    open spec fn view(&self) -> MessageV {
        match self {
            Message::Request(r) => MessageV::Request(r@),
            Message::Response(r) => MessageV::Response(r@),
            Message::Notification(n) => MessageV::Notification(n@),
            Message::Error(e) => MessageV::Error(e@),
            Message::Null => MessageV::Null,
        }
    }
}

/// Why a line could not become a `Message`.
#[derive(Clone, Copy, PartialEq, Eq, Structural, Debug)]
pub enum DecodeError {
    /// The text was not a JSON document the library can hold.
    ProtocolDecodeError,
    /// Valid JSON, but no JSON-RPC shape: the flags say which envelope
    /// fields were present.
    MalformedMessage { has_id: bool, has_method: bool, has_result: bool, has_error: bool },
}

/// What classification yields on every envelope: a fixed precedence over
/// field presence. An `error` field wins over everything, then `result`
/// yields a response, then `method` yields a request or a notification by
/// the presence of `id`; an envelope with none of the four fields is the
/// null message; only an `id` with nothing else to govern it is malformed.
pub open spec fn classify_v(r: RawV) -> Result<MessageV, DecodeError> {
    if r.error is Some {
        Ok(MessageV::Error(ErrorV { id: r.id, error: r.error->Some_0 }))
    } else if r.result is Some {
        Ok(MessageV::Response(ResponseV { id: r.id, result: r.result, error: None }))
    } else if r.method is Some {
        if r.id is Some {
            Ok(
                MessageV::Request(
                    RequestV {
                        id: r.id->Some_0,
                        method: r.method->Some_0,
                        params: r.params,
                    },
                ),
            )
        } else {
            Ok(MessageV::Notification(NotificationV { method: r.method->Some_0, params: r.params }))
        }
    } else if r.id is None {
        Ok(MessageV::Null)
    } else {
        Err(
            DecodeError::MalformedMessage {
                has_id: true,
                has_method: false,
                has_result: false,
                has_error: false,
            },
        )
    }
}

/// `Result` of classification seen at the spec level.
pub open spec fn classified_v(r: Result<Message, DecodeError>) -> Result<MessageV, DecodeError> {
    match r {
        Ok(m) => Ok(m@),
        Err(e) => Err(e),
    }
}

impl Message {
    /// Classifies one envelope, with the precedence `classify_v` states.
    /// Total: every envelope yields exactly one message or one named
    /// failure, and no present field is silently rewritten on the way.
    pub fn classify(raw: Raw) -> (r: Result<Message, DecodeError>)
        ensures
            classified_v(r) == classify_v(raw@),
    {
        let Raw { jsonrpc: _, id, method, params, result, error } = raw;
        if let Some(e) = error {
            return Ok(Message::Error(Error { id, error: e }));
        }
        if result.is_some() {
            return Ok(Message::Response(Response { id, result, error: None }));
        }
        if let Some(m) = method {
            if let Some(i) = id {
                return Ok(Message::Request(Request { id: i, method: m, params }));
            } else {
                return Ok(Message::Notification(Notification { method: m, params }));
            }
        }
        if id.is_none() {
            return Ok(Message::Null);
        }
        Err(
            DecodeError::MalformedMessage {
                has_id: true,
                has_method: false,
                has_result: false,
                has_error: false,
            },
        )
    }
}

/// Classification is total and deterministic: it is a function of the
/// envelope, and for every combination of present fields it yields the one
/// outcome below — error first, then result, then method with or without
/// an id, then null; an id alone is the one malformed combination.
pub proof fn lemma_classify_total(r: RawV)
    ensures
        r.error is Some ==> classify_v(r) matches Ok(MessageV::Error(_)),
        r.error is None && r.result is Some ==> (classify_v(r) matches Ok(
            MessageV::Response(rs),
        ) && rs.result is Some && rs.error is None),
        r.error is None && r.result is None && r.method is Some && r.id is Some ==> classify_v(r)
            matches Ok(MessageV::Request(_)),
        r.error is None && r.result is None && r.method is Some && r.id is None ==> classify_v(r)
            matches Ok(MessageV::Notification(_)),
        r.error is None && r.result is None && r.method is None && r.id is None ==> classify_v(r)
            == Ok::<MessageV, DecodeError>(MessageV::Null),
        r.error is None && r.result is None && r.method is None && r.id is Some ==> classify_v(r)
            matches Err(DecodeError::MalformedMessage { .. }),
{
}

} // verus!
