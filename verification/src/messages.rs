use vstd::prelude::*;

use crate::json::Json;
use crate::jsonrpc;
pub use crate::jsonrpc::{ErrorCode, NumberOrString};
use crate::jsonrpc::{code_in_range, ErrorData, ErrorDataV, IdV};

verus! {

/// The catalog of protocol method names. The names themselves are static
/// data, given by `wire_name`.
#[derive(Clone, Copy, PartialEq, Eq, Structural, Debug)]
pub enum Method {
    Initialize,
    Ping,
    Cancelled,
    Progress,
    PromptsList,
    PromptsGet,
    PromptListChanged,
    ResourcesList,
    ResourcesRead,
    ResourcesListChanged,
    ResourcesSubscribe,
    ResourcesUpdated,
    ToolsList,
    ToolsCall,
    ToolsListChanged,
    Completion,
    LoggingSetLevel,
    Message,
    RootsList,
    RootsListChanged,
    SamplingCreateMessage,
}

impl Method {
    /// The name a method is called by on the wire.
    pub fn wire_name(&self) -> (r: &'static str)
        ensures
            r@ == spec_wire_name(*self),
    {
        match self {
            Method::Initialize => "initialize",
            Method::Ping => "ping",
            Method::Cancelled => "notifications/cancelled",
            Method::Progress => "notifications/progress",
            Method::PromptsList => "prompts/list",
            Method::PromptsGet => "prompts/get",
            Method::PromptListChanged => "notifications/prompts/list_changed",
            Method::ResourcesList => "resources/list",
            Method::ResourcesRead => "resources/read",
            Method::ResourcesListChanged => "notifications/resources/list_changed",
            Method::ResourcesSubscribe => "resources/subscribe",
            Method::ResourcesUpdated => "notifications/resources/updated",
            Method::ToolsList => "tools/list",
            Method::ToolsCall => "tools/call",
            Method::ToolsListChanged => "notifications/tools/list_changed",
            Method::Completion => "completion/complete",
            Method::LoggingSetLevel => "logging/setLevel",
            Method::Message => "notifications/message",
            Method::RootsList => "roots/list",
            Method::RootsListChanged => "notifications/roots/list_changed",
            Method::SamplingCreateMessage => "sampling/createMessage",
        }
    }
}

pub open spec fn spec_wire_name(m: Method) -> Seq<char> {
    match m {
        Method::Initialize => "initialize"@,
        Method::Ping => "ping"@,
        Method::Cancelled => "notifications/cancelled"@,
        Method::Progress => "notifications/progress"@,
        Method::PromptsList => "prompts/list"@,
        Method::PromptsGet => "prompts/get"@,
        Method::PromptListChanged => "notifications/prompts/list_changed"@,
        Method::ResourcesList => "resources/list"@,
        Method::ResourcesRead => "resources/read"@,
        Method::ResourcesListChanged => "notifications/resources/list_changed"@,
        Method::ResourcesSubscribe => "resources/subscribe"@,
        Method::ResourcesUpdated => "notifications/resources/updated"@,
        Method::ToolsList => "tools/list"@,
        Method::ToolsCall => "tools/call"@,
        Method::ToolsListChanged => "notifications/tools/list_changed"@,
        Method::Completion => "completion/complete"@,
        Method::LoggingSetLevel => "logging/setLevel"@,
        Method::Message => "notifications/message"@,
        Method::RootsList => "roots/list"@,
        Method::RootsListChanged => "notifications/roots/list_changed"@,
        Method::SamplingCreateMessage => "sampling/createMessage"@,
    }
}

/// Why an outgoing message could not be built.
#[derive(Clone, Copy, PartialEq, Eq, Structural, Debug)]
pub enum BuildError {
    /// A `ServerError` code outside the reserved range [-32099, -32000].
    InvalidErrorCode,
    /// A response with both `result` and `error`, or with neither.
    InvalidResponseShape,
}

/// A validated outgoing error object: its code is always in range.
pub struct Error {
    code: ErrorCode,
    message: String,
    data: Option<Json>,
}

impl Error {
    pub closed spec fn spec_code(&self) -> ErrorCode {
        self.code
    }

    pub closed spec fn spec_message(&self) -> Seq<char> {
        self.message@
    }

    pub closed spec fn spec_data(&self) -> Option<crate::json::JsonV> {
        match self.data {
            Some(d) => Some(d@),
            None => None,
        }
    }

    /// The one place a code is validated: a `ServerError` outside the
    /// reserved range is rejected, so no built `Error` ever carries one.
    pub fn new(code: ErrorCode, message: &str, data: Option<Json>) -> (r: Result<Self, BuildError>)
        ensures
            r is Ok <==> code_in_range(code),
            r is Err ==> r == Err::<Self, BuildError>(BuildError::InvalidErrorCode),
            r matches Ok(e) ==> e.spec_code() == code && e.spec_message() == message@
                && e.spec_data() == (match data {
                Some(d) => Some(d@),
                None => None::<crate::json::JsonV>,
            }),
    {
        match code {
            ErrorCode::ServerError(n) => {
                if -32099 <= n && n <= -32000 {
                    Ok(Self { code, message: message.to_owned(), data })
                } else {
                    Err(BuildError::InvalidErrorCode)
                }
            },
            _ => Ok(Self { code, message: message.to_owned(), data }),
        }
    }

    /// The wire error object this stands for.
    pub fn into_error_data(self) -> (r: ErrorData)
        ensures
            r@ == (ErrorDataV { code: self.spec_code(), message: self.spec_message(), data: self.spec_data() }),
            code_in_range(r@.code) == code_in_range(self.spec_code()),
    {
        ErrorData { code: self.code, message: self.message, data: self.data }
    }
}

/// A validated outgoing call.
pub struct Request {
    method: Method,
    id: NumberOrString,
    params: Option<Json>,
}

impl Request {
    pub closed spec fn spec_method(&self) -> Method {
        self.method
    }

    pub closed spec fn spec_id(&self) -> IdV {
        self.id@
    }

    pub closed spec fn spec_params(&self) -> Option<crate::json::JsonV> {
        match self.params {
            Some(p) => Some(p@),
            None => None,
        }
    }

    pub fn new(method: Method, id: NumberOrString, params: Option<Json>) -> (r: Self)
        ensures
            r.spec_method() == method,
            r.spec_id() == id@,
            r.spec_params() == (match params {
                Some(p) => Some(p@),
                None => None::<crate::json::JsonV>,
            }),
    {
        Self { method, id, params }
    }

    /// The wire message this stands for.
    pub fn into_message(self) -> (r: jsonrpc::Request)
        ensures
            r@ == (jsonrpc::RequestV {
                id: self.spec_id(),
                method: spec_wire_name(self.spec_method()),
                params: self.spec_params(),
            }),
    {
        jsonrpc::Request {
            id: self.id,
            method: self.method.wire_name().to_owned(),
            params: self.params,
        }
    }
}

/// A validated outgoing reply: carries a result or an error, never both
/// and never neither.
pub struct Response {
    id: NumberOrString,
    result: Option<Json>,
    error: Option<Error>,
}

impl Response {
    /// The shape invariant every built `Response` has: a result exactly or
    /// an error exactly.
    pub closed spec fn wf(&self) -> bool {
        (self.result is Some) != (self.error is Some)
    }

    pub closed spec fn spec_id(&self) -> IdV {
        self.id@
    }

    pub closed spec fn spec_result(&self) -> Option<crate::json::JsonV> {
        match self.result {
            Some(r) => Some(r@),
            None => None,
        }
    }

    pub closed spec fn spec_error(&self) -> Option<ErrorDataV> {
        match self.error {
            Some(ref e) => Some(
                ErrorDataV { code: e.spec_code(), message: e.spec_message(), data: e.spec_data() },
            ),
            None => None,
        }
    }

    /// A reply holds a result exactly or an error exactly: both or neither
    /// are rejected at construction, so no built `Response` breaks the
    /// result-xor-error invariant.
    pub fn new(id: NumberOrString, result: Option<Json>, error: Option<Error>) -> (r: Result<
        Self,
        BuildError,
    >)
        ensures
            r is Ok <==> (result is Some) != (error is Some),
            r is Err ==> r == Err::<Self, BuildError>(BuildError::InvalidResponseShape),
            r matches Ok(resp) ==> resp.wf() && resp.spec_id() == id@ && resp.spec_result() == (match result {
                Some(v) => Some(v@),
                None => None::<crate::json::JsonV>,
            }) && (resp.spec_error() is Some <==> error is Some) && (error matches Some(e) ==>
                resp.spec_error() == Some(
                    ErrorDataV { code: e.spec_code(), message: e.spec_message(), data: e.spec_data() },
                )),
    {
        let has_result = result.is_some();
        let has_error = error.is_some();
        if has_result == has_error {
            Err(BuildError::InvalidResponseShape)
        } else {
            Ok(Self { id, result, error })
        }
    }

    /// The wire message this stands for.
    pub fn into_message(self) -> (r: jsonrpc::Response)
        requires
            self.wf(),
        ensures
            r@.id == Some(self.spec_id()),
            r@.result == self.spec_result(),
            r@.error == self.spec_error(),
            (r@.result is Some) != (r@.error is Some),
    {
        jsonrpc::Response {
            id: Some(self.id),
            result: self.result,
            error: match self.error {
                Some(e) => Some(e.into_error_data()),
                None => None,
            },
        }
    }
}

/// A validated outgoing notification: carries no identifier by shape.
pub struct Notification {
    method: Method,
    params: Option<Json>,
}

impl Notification {
    pub closed spec fn spec_method(&self) -> Method {
        self.method
    }

    pub closed spec fn spec_params(&self) -> Option<crate::json::JsonV> {
        match self.params {
            Some(p) => Some(p@),
            None => None,
        }
    }

    pub fn new(method: Method, params: Option<Json>) -> (r: Self)
        ensures
            r.spec_method() == method,
            r.spec_params() == (match params {
                Some(p) => Some(p@),
                None => None::<crate::json::JsonV>,
            }),
    {
        Self { method, params }
    }

    /// The wire message this stands for.
    pub fn into_message(self) -> (r: jsonrpc::Notification)
        ensures
            r@ == (jsonrpc::NotificationV {
                method: spec_wire_name(self.spec_method()),
                params: self.spec_params(),
            }),
    {
        jsonrpc::Notification { method: self.method.wire_name().to_owned(), params: self.params }
    }
}

} // verus!
