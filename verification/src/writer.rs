//! The memory writer: hands memory files to the soul server, and falls back to
//! the local memory directory where the server fails.
//!
//! `POST /v1/memory/write` takes `{"file": ..., "content": ..., "append": ...}`
//! and answers `{"location": ..., "bytes_written": ...}`.

use crate::exchange;
use crate::exchange::Body;
use crate::exchange::BodyView;
use crate::exchange::Context;
use crate::exchange::Fault;
use crate::exchange::Method;
use crate::exchange::Request;
use crate::exchange::RequestView;
use crate::exchange::DEFAULT_B00T_SOUL_URL;
use crate::local::MemoryWriteResult;
use vstd::prelude::*;

verus! {

/// How long a write may take, in seconds.
pub const WRITE_TIMEOUT_SECS: u64 = 5;

/// What the soul server answers to a write.
#[derive(Debug, PartialEq, Eq)]
pub struct WriteResponse {
    pub location: String,
    pub bytes_written: usize,
}

/// What to do after the response to a write has begun.
#[derive(Debug, PartialEq, Eq)]
pub enum WriteStep<E> {
    /// The write failed.
    Failed(Fault<E>),
    /// Read the [`WriteResponse`] out of the response's body.
    ReadBody,
}

/// What to do once the soul server was told to write.
#[derive(Debug, PartialEq, Eq)]
pub enum WriteMemoryStep<E> {
    /// The operation is over.
    Done(Result<MemoryWriteResult, Fault<E>>),
    /// Write under the local memory directory, the soul server having failed, and
    /// return what came of that.
    WriteLocal(Fault<E>),
}

/// The request to write a memory file.
pub open spec fn write_request(
    base_url: Seq<char>,
    file: Seq<char>,
    content: Seq<char>,
    append: bool,
) -> RequestView {
    RequestView {
        method: Method::Post,
        url: base_url + "/v1/memory/write"@,
        query: None,
        body: BodyView::Write { file, content, append },
    }
}

/// What to do once the soul server was told to write.
pub open spec fn wrote_step<E>(
    fallback_on_error: bool,
    soul: Result<MemoryWriteResult, Fault<E>>,
) -> WriteMemoryStep<E> {
    match soul {
        Ok(result) => WriteMemoryStep::Done(Ok(result)),
        Err(fault) => if fallback_on_error {
            WriteMemoryStep::WriteLocal(fault)
        } else {
            WriteMemoryStep::Done(Err(fault))
        },
    }
}

/// The client of the soul server's memory files.
pub struct B00tSoulHttpClient {
    pub base_url: String,
    /// How long an operation may take, in seconds.
    pub timeout_secs: u64,
}

impl B00tSoulHttpClient {
    /// A client of the soul server at `base_url`.
    pub fn new(base_url: &str) -> (client: Self)
        ensures
            client.base_url@ == base_url@,
            client.timeout_secs == WRITE_TIMEOUT_SECS,
    {
        B00tSoulHttpClient { base_url: base_url.to_owned(), timeout_secs: WRITE_TIMEOUT_SECS }
    }

    /// Writes a memory file, or appends to it.
    pub fn write_memory(&self, file: &str, content: &str, append: bool) -> (request: Request)
        ensures
            request@ == write_request(self.base_url@, file@, content@, append),
            request.method == Method::Post,
            request.url@ == self.base_url@ + "/v1/memory/write"@,
            request.query is None,
            request.body matches Body::Write { file: f, content: c, append: a } && f@ == file@ && c@
                == content@ && a == append,
    {
        let mut url = self.base_url.clone();
        url.append("/v1/memory/write");
        Request {
            method: Method::Post,
            url,
            query: None,
            body: Body::Write { file: file.to_owned(), content: content.to_owned(), append },
        }
    }

    /// Goes on with a write: `sent` is the status of the response, or why there is
    /// none.
    pub fn write_sent<E>(sent: Result<u16, E>) -> (step: WriteStep<E>)
        ensures
            match exchange::outcome(sent, Context::WriteRequest, Context::WriteResponse) {
                Ok(()) => step == WriteStep::<E>::ReadBody,
                Err(fault) => step == WriteStep::Failed(fault),
            },
            match sent {
                Ok(status) => {
                    &&& step is ReadBody <==> status < 400 || status >= 600
                    &&& step matches WriteStep::Failed(fault) ==> fault == (Fault::<E>::Status {
                        context: Context::WriteResponse,
                        status,
                    })
                },
                Err(cause) => step == WriteStep::Failed(
                    Fault::Failed { context: Context::WriteRequest, cause },
                ),
            },
    {
        match exchange::judge(sent, Context::WriteRequest, Context::WriteResponse) {
            Ok(()) => WriteStep::ReadBody,
            Err(fault) => WriteStep::Failed(fault),
        }
    }

    /// Ends a write: `body` is what was read out of the response's body, or why it
    /// could not be.
    pub fn write_read<E>(body: Result<WriteResponse, E>) -> (result: Result<
        MemoryWriteResult,
        Fault<E>,
    >)
        ensures
            match body {
                Ok(response) => result == Ok::<MemoryWriteResult, Fault<E>>(
                    MemoryWriteResult {
                        location: response.location,
                        bytes_written: response.bytes_written,
                    },
                ),
                Err(cause) => result == Err::<MemoryWriteResult, Fault<E>>(
                    Fault::Failed { context: Context::WriteDecode, cause },
                ),
            },
    {
        match body {
            Ok(response) => Ok(
                MemoryWriteResult {
                    location: response.location,
                    bytes_written: response.bytes_written,
                },
            ),
            Err(cause) => Err(Fault::Failed { context: Context::WriteDecode, cause }),
        }
    }
}

/// The memory writer's side of the soul server.
pub struct B00tSoulWriter {
    pub client: B00tSoulHttpClient,
    /// Whether the local memory directory steps in for a soul server that fails.
    pub fallback_on_error: bool,
}

impl B00tSoulWriter {
    /// A writer for the soul server at its default address, with the local memory
    /// directory to fall back to.
    pub fn new() -> (writer: Self)
        ensures
            writer.client.base_url@ == DEFAULT_B00T_SOUL_URL@,
            writer.client.timeout_secs == WRITE_TIMEOUT_SECS,
            writer.fallback_on_error,
    {
        B00tSoulWriter::with_soul_url(DEFAULT_B00T_SOUL_URL)
    }

    /// A writer for the soul server at `soul_url`, with the local memory directory
    /// to fall back to.
    pub fn with_soul_url(soul_url: &str) -> (writer: Self)
        ensures
            writer.client.base_url@ == soul_url@,
            writer.client.timeout_secs == WRITE_TIMEOUT_SECS,
            writer.fallback_on_error,
    {
        B00tSoulWriter { client: B00tSoulHttpClient::new(soul_url), fallback_on_error: true }
    }

    /// The same writer without the fallback: what fails at the soul server fails.
    #[must_use]
    pub fn strict(self) -> (writer: Self)
        ensures
            writer.client == self.client,
            !writer.fallback_on_error,
    {
        B00tSoulWriter { client: self.client, fallback_on_error: false }
    }

    /// Writes a memory file, or appends to it: tells the soul server first.
    pub fn write_memory(&self, file: &str, content: &str, append: bool) -> (request: Request)
        ensures
            request@ == write_request(self.client.base_url@, file@, content@, append),
            request.method == Method::Post,
            request.url@ == self.client.base_url@ + "/v1/memory/write"@,
            request.query is None,
            request.body matches Body::Write { file: f, content: c, append: a } && f@ == file@ && c@
                == content@ && a == append,
    {
        self.client.write_memory(file, content, append)
    }

    /// Goes on with a write: `soul` is what came of telling the soul server.
    pub fn soul_wrote<E>(&self, soul: Result<MemoryWriteResult, Fault<E>>) -> (step:
        WriteMemoryStep<E>)
        ensures
            step == wrote_step(self.fallback_on_error, soul),
            soul is Ok || !self.fallback_on_error ==> step == WriteMemoryStep::Done(soul),
            soul matches Err(fault) ==> self.fallback_on_error ==> step
                == WriteMemoryStep::WriteLocal(fault),
    {
        match soul {
            Ok(result) => WriteMemoryStep::Done(Ok(result)),
            Err(fault) => if self.fallback_on_error {
                WriteMemoryStep::WriteLocal(fault)
            } else {
                WriteMemoryStep::Done(Err(fault))
            },
        }
    }
}

impl Default for B00tSoulWriter {
    fn default() -> (writer: Self)
        ensures
            writer.client.base_url@ == DEFAULT_B00T_SOUL_URL@,
            writer.client.timeout_secs == WRITE_TIMEOUT_SECS,
            writer.fallback_on_error,
    {
        B00tSoulWriter::new()
    }
}

/// With the fallback, no failure of the soul server reaches the caller: the local
/// memory directory is written whenever the server failed, and only then. Without
/// it, the directory is never written, and the failure is handed on as it is.
pub proof fn law_local_write_iff_fallback_and_failed<E>(soul: Result<MemoryWriteResult, Fault<E>>)
    ensures
        wrote_step(true, soul) is WriteLocal <==> soul is Err,
        soul is Ok ==> wrote_step(true, soul) == WriteMemoryStep::Done(soul),
        wrote_step(false, soul) == WriteMemoryStep::Done(soul),
{
}

/// The body of the request to write holds exactly the file, the content and the
/// flag that were asked for, whatever they are.
pub proof fn law_write_request_holds_what_was_asked(
    client: B00tSoulHttpClient,
    file: &str,
    content: &str,
    append: bool,
    request: Request,
)
    requires
        call_ensures(B00tSoulHttpClient::write_memory, (&client, file, content, append), request),
    ensures
        request.body is Write,
        request.body->file@ == file@,
        request.body->content@ == content@,
        request.body->append == append,
        request.method is Post,
        request.query is None,
        client.base_url@.is_prefix_of(request.url@),
{
    assert(client.base_url@ =~= request.url@.take(client.base_url@.len() as int));
}

/// The request to append and the request to overwrite, with all else equal, differ
/// in the flag, and in nothing else.
pub proof fn law_append_and_overwrite_differ_in_the_flag(
    client: B00tSoulHttpClient,
    file: &str,
    content: &str,
    appends: Request,
    overwrites: Request,
)
    requires
        call_ensures(B00tSoulHttpClient::write_memory, (&client, file, content, true), appends),
        call_ensures(
            B00tSoulHttpClient::write_memory,
            (&client, file, content, false),
            overwrites,
        ),
    ensures
        appends.body is Write && appends.body->append,
        overwrites.body is Write && !overwrites.body->append,
        appends.body->file@ == overwrites.body->file@,
        appends.body->content@ == overwrites.body->content@,
        appends.url@ == overwrites.url@,
        appends.method == overwrites.method,
{
}

/// Two writes whose requests are the same were asked for the same file, content and
/// flag: a request tells all three.
pub proof fn law_write_request_tells_its_arguments(
    base_url: Seq<char>,
    f1: Seq<char>,
    c1: Seq<char>,
    a1: bool,
    f2: Seq<char>,
    c2: Seq<char>,
    a2: bool,
)
    ensures
        write_request(base_url, f1, c1, a1) == write_request(base_url, f2, c2, a2) <==> f1 == f2
            && c1 == c2 && a1 == a2,
{
}

/// The writer tells the soul server what its client would, with the fallback and
/// without it.
pub proof fn law_writer_sends_what_its_client_sends(
    writer: B00tSoulWriter,
    file: &str,
    content: &str,
    append: bool,
    sent: Request,
    clients: Request,
)
    requires
        call_ensures(B00tSoulWriter::write_memory, (&writer, file, content, append), sent),
        call_ensures(
            B00tSoulHttpClient::write_memory,
            (&writer.client, file, content, append),
            clients,
        ),
    ensures
        sent@ == clients@,
        sent.body is Write && sent.body->append == append,
        sent.body->file@ == file@ && sent.body->content@ == content@,
{
}

/// A write that the server answers with any status from 400 to 599 goes to the local
/// memory directory with the fallback, and fails with that status without it. With
/// any other status the answer is read.
pub proof fn law_refused_write_falls_back_or_fails<E>(
    writer: B00tSoulWriter,
    status: u16,
    sent: WriteStep<E>,
    step: WriteMemoryStep<E>,
)
    requires
        call_ensures(B00tSoulHttpClient::write_sent::<E>, (Ok::<u16, E>(status),), sent),
        call_ensures(
            B00tSoulWriter::soul_wrote::<E>,
            (&writer, Err::<MemoryWriteResult, Fault<E>>(sent->Failed_0)),
            step,
        ),
    ensures
        sent is Failed <==> 400 <= status < 600,
        400 <= status < 600 ==> ({
            let fault = Fault::<E>::Status { context: Context::WriteResponse, status };
            step == if writer.fallback_on_error {
                WriteMemoryStep::WriteLocal(fault)
            } else {
                WriteMemoryStep::Done(Err(fault))
            }
        }),
{
}

/// What the soul server answered to a write is returned as it is, with the fallback
/// and without it.
pub proof fn law_answer_to_write_is_returned<E>(
    writer: B00tSoulWriter,
    response: WriteResponse,
    read: Result<MemoryWriteResult, Fault<E>>,
    step: WriteMemoryStep<E>,
)
    requires
        call_ensures(
            B00tSoulHttpClient::write_read::<E>,
            (Ok::<WriteResponse, E>(response),),
            read,
        ),
        call_ensures(B00tSoulWriter::soul_wrote::<E>, (&writer, read), step),
    ensures
        step matches WriteMemoryStep::Done(Ok(result)) && result.location == response.location
            && result.bytes_written == response.bytes_written,
{
}

} // verus!
