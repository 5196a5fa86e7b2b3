//! What is exchanged with the soul server: requests as plain values, and what
//! became of them.

use vstd::prelude::*;

verus! {

/// The default address of the soul server.
pub const DEFAULT_B00T_SOUL_URL: &'static str = "http://127.0.0.1:7700";

/// The status of a response that says that nothing is there.
pub const NOT_FOUND: u16 = 404;

/// The method of a request.
#[derive(Debug, Clone, Copy, PartialEq, Eq, Structural)]
pub enum Method {
    Get,
    Put,
    Delete,
    Post,
}

/// The body of a request, sent as a JSON object.
#[derive(Debug, PartialEq, Eq)]
pub enum Body {
    /// No body.
    Empty,
    /// `{"value": ...}`
    Value { value: String },
    /// `{"file": ..., "content": ..., "append": ...}`
    Write { file: String, content: String, append: bool },
}

/// A request to the soul server.
#[derive(Debug, PartialEq, Eq)]
pub struct Request {
    pub method: Method,
    pub url: String,
    /// The name and the value of the one query parameter, if there is one.
    pub query: Option<(String, String)>,
    pub body: Body,
}

/// The model of a request's body.
pub enum BodyView {
    Empty,
    Value { value: Seq<char> },
    Write { file: Seq<char>, content: Seq<char>, append: bool },
}

/// The model of a request.
pub struct RequestView {
    pub method: Method,
    pub url: Seq<char>,
    pub query: Option<(Seq<char>, Seq<char>)>,
    pub body: BodyView,
}

impl View for Body {
    type V = BodyView;

    open spec fn view(&self) -> BodyView {
        match *self {
            Body::Empty => BodyView::Empty,
            Body::Value { value } => BodyView::Value { value: value@ },
            Body::Write { file, content, append } => BodyView::Write {
                file: file@,
                content: content@,
                append,
            },
        }
    }
}

impl View for Request {
    type V = RequestView;

    open spec fn view(&self) -> RequestView {
        RequestView {
            method: self.method,
            url: self.url@,
            query: match self.query {
                Some(pair) => Some((pair.0@, pair.1@)),
                None => None,
            },
            body: self.body@,
        }
    }
}

/// The step that failed.
#[derive(Debug, Clone, Copy, PartialEq, Eq, Structural)]
pub enum Context {
    GetRequest,
    GetStatus,
    GetDecode,
    PutRequest,
    PutStatus,
    DeleteRequest,
    DeleteStatus,
    ListKeysRequest,
    ListKeysStatus,
    ListKeysDecode,
    WriteRequest,
    WriteResponse,
    WriteDecode,
    CreateMemoryDir,
    ReadExisting,
    WriteMemoryFile,
}

impl Context {
    /// The words for the step.
    pub open spec fn words(self) -> Seq<char> {
        match self {
            Context::GetRequest => "b00t soul GET request"@,
            Context::GetStatus => "b00t soul GET status"@,
            Context::GetDecode => "b00t soul GET decode"@,
            Context::PutRequest => "b00t soul PUT request"@,
            Context::PutStatus => "b00t soul PUT status"@,
            Context::DeleteRequest => "b00t soul DELETE request"@,
            Context::DeleteStatus => "b00t soul DELETE status"@,
            Context::ListKeysRequest => "b00t soul list_keys request"@,
            Context::ListKeysStatus => "b00t soul list_keys status"@,
            Context::ListKeysDecode => "b00t soul list_keys decode"@,
            Context::WriteRequest => "b00t soul write request"@,
            Context::WriteResponse => "b00t soul write response"@,
            Context::WriteDecode => "decode write response"@,
            Context::CreateMemoryDir => "create memory dir"@,
            Context::ReadExisting => "read existing"@,
            Context::WriteMemoryFile => "write memory file"@,
        }
    }

    /// The words for the step, as an error message gives them.
    pub fn text(self) -> (text: &'static str)
        ensures
            text@ == self.words(),
    {
        match self {
            Context::GetRequest => "b00t soul GET request",
            Context::GetStatus => "b00t soul GET status",
            Context::GetDecode => "b00t soul GET decode",
            Context::PutRequest => "b00t soul PUT request",
            Context::PutStatus => "b00t soul PUT status",
            Context::DeleteRequest => "b00t soul DELETE request",
            Context::DeleteStatus => "b00t soul DELETE status",
            Context::ListKeysRequest => "b00t soul list_keys request",
            Context::ListKeysStatus => "b00t soul list_keys status",
            Context::ListKeysDecode => "b00t soul list_keys decode",
            Context::WriteRequest => "b00t soul write request",
            Context::WriteResponse => "b00t soul write response",
            Context::WriteDecode => "decode write response",
            Context::CreateMemoryDir => "create memory dir",
            Context::ReadExisting => "read existing",
            Context::WriteMemoryFile => "write memory file",
        }
    }
}

/// Why something outside of the library did not work. `E` is what the outside
/// gave as the cause.
#[derive(Debug, PartialEq, Eq)]
pub enum Fault<E> {
    /// The step itself failed.
    Failed { context: Context, cause: E },
    /// The server answered with a status that is an error.
    Status { context: Context, status: u16 },
}

/// Whether a response's status is an error: the client's (4xx) or the server's
/// (5xx).
pub open spec fn is_error_status(status: u16) -> bool {
    400 <= status < 600
}

/// What became of a request whose response has no body to read: `Ok` unless the
/// request failed or the response's status is an error.
pub open spec fn outcome<E>(sent: Result<u16, E>, request: Context, response: Context) -> Result<
    (),
    Fault<E>,
> {
    match sent {
        Err(cause) => Err(Fault::Failed { context: request, cause }),
        Ok(status) => if is_error_status(status) {
            Err(Fault::Status { context: response, status })
        } else {
            Ok(())
        },
    }
}

/// Judges a request by the status of its response. `request` and `response` are
/// the steps to blame where the request failed, or its status is an error.
pub fn judge<E>(sent: Result<u16, E>, request: Context, response: Context) -> (judged: Result<
    (),
    Fault<E>,
>)
    ensures
        judged == outcome(sent, request, response),
        match sent {
            Ok(status) => {
                &&& judged is Ok <==> status < 400 || status >= 600
                &&& judged matches Err(fault) ==> fault == Fault::<E>::Status {
                    context: response,
                    status,
                }
            },
            Err(cause) => judged matches Err(fault) && fault == Fault::Failed {
                context: request,
                cause,
            },
        },
{
    match sent {
        Err(cause) => Err(Fault::Failed { context: request, cause }),
        Ok(status) => if 400 <= status && status < 600 {
            Err(Fault::Status { context: response, status })
        } else {
            Ok(())
        },
    }
}

/// A response is judged by its status alone: it is an error from 400 to 599, and
/// nowhere else, whatever was asked for. The contexts only tell which step is to
/// blame: the one of the response for a status, the one of the request where no
/// response came.
pub proof fn law_status_alone_decides<E>(
    status: u16,
    request: Context,
    response: Context,
    judged: Result<(), Fault<E>>,
)
    requires
        call_ensures(judge::<E>, (Ok::<u16, E>(status), request, response), judged),
    ensures
        judged is Ok <==> status < 400 || status >= 600,
        400 <= status < 600 ==> judged == Err::<(), Fault<E>>(
            Fault::Status { context: response, status },
        ),
{
}

/// A request that got no response failed, and the cause is handed on as it is.
pub proof fn law_no_response_is_a_failure<E>(
    cause: E,
    request: Context,
    response: Context,
    judged: Result<(), Fault<E>>,
)
    requires
        call_ensures(judge::<E>, (Err::<u16, E>(cause), request, response), judged),
    ensures
        judged == Err::<(), Fault<E>>(Fault::Failed { context: request, cause }),
{
}

/// The outcome of a response depends on its status in the same way for any two
/// pairs of contexts: both are errors, from 400 to 599, or neither is.
pub proof fn law_outcome_is_blind_to_contexts<E>(
    status: u16,
    r1: Context,
    s1: Context,
    r2: Context,
    s2: Context,
)
    ensures
        outcome::<E>(Ok(status), r1, s1) is Err <==> 400 <= status < 600,
        outcome::<E>(Ok(status), r1, s1) is Err <==> outcome::<E>(Ok(status), r2, s2) is Err,
        outcome::<E>(Ok(status), r1, s1) == outcome::<E>(Ok(status), r2, s1),
{
}

/// The model of a request keeps every field of it.
pub proof fn law_model_keeps_every_field(request: Request)
    ensures
        request@.method == request.method,
        request@.url == request.url@,
        request.query is None <==> request@.query is None,
        request.query matches Some((name, value)) ==> request@.query == Some((name@, value@)),
        request.body is Empty <==> request@.body is Empty,
        request.body matches Body::Value { value } ==> request@.body == (BodyView::Value {
            value: value@,
        }),
        request.body matches Body::Write { file, content, append } ==> request@.body
            == (BodyView::Write { file: file@, content: content@, append }),
{
}

} // verus!
