//! Requests to the local Ollama server and what its replies mean.

use vstd::prelude::*;
use vstd::utf8::*;

use crate::ndjson::{polled, NdjsonChatStream, NdjsonView};
use crate::protocol::{model_list, ChatMessage, ModelInfo, ModelInfoView};
use crate::text::{
    at_most, from_utf8_lossy, is_white_space, lossy_text, snippet, trim, trimmed,
    trimming_leaves_the_core,
};
use crate::urls::{join_url, joined_url};

verus! {

/// How much of the body of a refused request an error repeats, in characters.
pub const BODY_LIMIT: usize = 512;

/// The two endpoints that the connector uses.
#[derive(Debug, Clone, Copy, PartialEq, Eq, Structural)]
pub enum Endpoint {
    /// The list of installed models.
    Tags,
    /// A chat completion.
    Chat,
}

impl Endpoint {
    /// The path of the endpoint, as [`Endpoint::path`] gives it.
    pub open spec fn path_text(self) -> Seq<char> {
        match self {
            Endpoint::Tags => "/api/tags"@,
            Endpoint::Chat => "/api/chat"@,
        }
    }

    /// The path of the endpoint below the base URL, as [`Endpoint::reference`] gives it.
    pub open spec fn reference_text(self) -> Seq<char> {
        match self {
            Endpoint::Tags => "api/tags"@,
            Endpoint::Chat => "api/chat"@,
        }
    }

    /// The path of the endpoint on the server, as errors show it.
    pub fn path(self) -> (r: &'static str)
        ensures
            r@ == self.path_text(),
    {
        match self {
            Endpoint::Tags => "/api/tags",
            Endpoint::Chat => "/api/chat",
        }
    }

    /// The endpoint relative to the base URL.
    pub fn reference(self) -> (r: &'static str)
        ensures
            r@ == self.reference_text(),
    {
        match self {
            Endpoint::Tags => "api/tags",
            Endpoint::Chat => "api/chat",
        }
    }
}

/// Why a request to Ollama failed. A `cause` is the message of the error underneath, with those of
/// the errors below that one.
#[derive(Debug, Clone, PartialEq)]
pub enum OllamaError {
    /// The URL of the endpoint could not be built.
    Url { endpoint: Endpoint, cause: String },
    /// The request could not be sent.
    Send { endpoint: Endpoint, cause: String },
    /// The server refused the request.
    Status { endpoint: Endpoint, status: String, body: String },
    /// The reply to a request for the models could not be read.
    Tags { cause: String },
    /// A line of a chat reply is not a chunk.
    Chunk { line: String, cause: String },
    /// The server reported a failure in the middle of a chat reply.
    Reported { message: String },
    /// The chat reply broke off. The summary is the message of the error underneath alone.
    Stream { summary: String, cause: String },
}

impl OllamaError {
    /// The error in words, from the outermost context to the innermost cause.
    pub open spec fn text(self) -> Seq<char> {
        match self {
            OllamaError::Url { endpoint, cause } => "building "@ + endpoint.path_text() + " url: "@
                + cause@,
            OllamaError::Send { endpoint, cause } => "sending "@ + endpoint.path_text()
                + " request: "@ + cause@,
            OllamaError::Status { endpoint, status, body } => {
                let refusal = "ollama "@ + endpoint.path_text() + " returned "@ + status@;
                if body@.len() == 0 {
                    refusal
                } else {
                    refusal + ": "@ + body@
                }
            },
            OllamaError::Tags { cause } => "parsing /api/tags response: "@ + cause@,
            OllamaError::Chunk { line, cause } => "parsing ollama chunk: "@ + line@ + ": "@
                + cause@,
            OllamaError::Reported { message } => "ollama error: "@ + message@,
            OllamaError::Stream { cause, .. } => cause@,
        }
    }

    /// The error in brief: the outermost context alone.
    pub open spec fn summary_text(self) -> Seq<char> {
        match self {
            OllamaError::Url { endpoint, .. } => "building "@ + endpoint.path_text() + " url"@,
            OllamaError::Send { endpoint, .. } => "sending "@ + endpoint.path_text()
                + " request"@,
            OllamaError::Tags { .. } => "parsing /api/tags response"@,
            OllamaError::Chunk { line, .. } => "parsing ollama chunk: "@ + line@,
            OllamaError::Stream { summary, .. } => summary@,
            OllamaError::Status { .. } => self.text(),
            OllamaError::Reported { .. } => self.text(),
        }
    }

    /// The error in brief, as the log shows it.
    pub fn summary(&self) -> (r: String)
        ensures
            r@ == self.summary_text(),
    {
        match self {
            OllamaError::Url { endpoint, .. } => {
                let mut r: String = "building ".to_owned();
                r.append(endpoint.path());
                r.append(" url");
                r
            },
            OllamaError::Send { endpoint, .. } => {
                let mut r: String = "sending ".to_owned();
                r.append(endpoint.path());
                r.append(" request");
                r
            },
            OllamaError::Tags { .. } => "parsing /api/tags response".to_owned(),
            OllamaError::Chunk { line, .. } => {
                let mut r: String = "parsing ollama chunk: ".to_owned();
                r.append(line.as_str());
                r
            },
            OllamaError::Stream { summary, .. } => summary.clone(),
            OllamaError::Status { .. } => self.message(),
            OllamaError::Reported { .. } => self.message(),
        }
    }

    /// The error in words, as the service gets to see it.
    pub fn message(&self) -> (r: String)
        ensures
            r@ == self.text(),
    {
        let mut r: String = String::new();
        match self {
            OllamaError::Url { endpoint, cause } => {
                r.append("building ");
                r.append(endpoint.path());
                r.append(" url: ");
                r.append(cause.as_str());
            },
            OllamaError::Send { endpoint, cause } => {
                r.append("sending ");
                r.append(endpoint.path());
                r.append(" request: ");
                r.append(cause.as_str());
            },
            OllamaError::Status { endpoint, status, body } => {
                r.append("ollama ");
                r.append(endpoint.path());
                r.append(" returned ");
                r.append(status.as_str());
                if !body.as_str().is_empty() {
                    r.append(": ");
                    r.append(body.as_str());
                }
            },
            OllamaError::Tags { cause } => {
                r.append("parsing /api/tags response: ");
                r.append(cause.as_str());
            },
            OllamaError::Chunk { line, cause } => {
                r.append("parsing ollama chunk: ");
                r.append(line.as_str());
                r.append(": ");
                r.append(cause.as_str());
            },
            OllamaError::Reported { message } => {
                r.append("ollama error: ");
                r.append(message.as_str());
            },
            OllamaError::Stream { cause, .. } => {
                r.append(cause.as_str());
            },
        }
        proof {
            assert(r@ =~= self.text());
        }
        r
    }
}

/// How `reqwest::StatusCode` shows a status: its number and its reason.
pub uninterp spec fn status_text(status: u16) -> Seq<char>;

/// Calls `to_string` on the `reqwest::StatusCode` of a number. There is one for each number of
/// three digits. The text is only named.
#[verifier::external_body]
fn show_status(status: u16) -> (r: String)
    requires
        100 <= status <= 999,
    ensures
        r@ == status_text(status),
{
    match reqwest::StatusCode::from_u16(status) {
        Ok(code) => code.to_string(),
        Err(e) => e.to_string(),
    }
}

/// Whether a status says that the request was granted.
pub open spec fn granted(status: u16) -> bool {
    200 <= status <= 299
}

/// Whether a status says that the request was granted.
pub fn is_success(status: u16) -> (r: bool)
    ensures
        r == granted(status),
        r == (200 <= status <= 299),
{
    200 <= status && status <= 299
}

/// The text of a body that may not have been readable.
pub open spec fn body_text(body: Option<String>) -> Seq<char> {
    match body {
        Some(text) => text@,
        None => seq![],
    }
}

/// The words of a refusal: the endpoint, the status, and the start of the body, where the body
/// holds more than white space.
pub open spec fn refusal_text(endpoint: Endpoint, status: u16, body: Seq<char>) -> Seq<char> {
    let refusal = "ollama "@ + endpoint.path_text() + " returned "@ + status_text(status);
    if trimmed(body).len() == 0 {
        refusal
    } else {
        refusal + ": "@ + at_most(trimmed(body), BODY_LIMIT as nat)
    }
}

/// Turns a reply that was not granted into an error that repeats what the server says in the
/// body, without the white space around it and cut to [`BODY_LIMIT`] characters. `body` is `None`
/// where the body could not be read.
pub fn check_status(status: u16, body: Option<String>, endpoint: Endpoint) -> (r: Result<
    (),
    OllamaError,
>)
    requires
        100 <= status <= 999,
    ensures
        r is Ok <==> granted(status),
        r is Ok <==> 200 <= status <= 299,
        r matches Err(e) ==> e is Status && e.text() == refusal_text(
            endpoint,
            status,
            body_text(body),
        ),
{
    if is_success(status) {
        Ok(())
    } else {
        Err(refusal(status, body, endpoint))
    }
}

/// The error that a reply which was not granted stands for.
fn refusal(status: u16, body: Option<String>, endpoint: Endpoint) -> (e: OllamaError)
    requires
        refuses(status),
    ensures
        e is Status,
        e.text() == refusal_text(endpoint, status, body_text(body)),
{
    let whole: String = match body {
        Some(text) => text,
        None => String::new(),
    };
    let start: String = snippet(trim(whole.as_str()), BODY_LIMIT);
    OllamaError::Status { endpoint, status: show_status(status), body: start }
}

/// The reply to a request for the models.
#[derive(Debug, Clone)]
pub struct TagsResponse {
    pub models: Vec<TagsModel>,
}

/// A model in the reply to a request for the models.
#[derive(Debug, Clone)]
pub struct TagsModel {
    pub name: String,
    pub size: Option<u64>,
    pub modified_at: Option<String>,
}

impl View for TagsModel {
    type V = ModelInfoView;

    open spec fn view(&self) -> ModelInfoView {
        ModelInfoView {
            name: self.name@,
            size: self.size,
            modified_at: self.modified_at.deep_view(),
        }
    }
}

/// The contents of the models of a reply, in order.
pub open spec fn tags_list(models: Seq<TagsModel>) -> Seq<ModelInfoView> {
    models.map_values(|m: TagsModel| m@)
}

/// How a request for the models went.
#[derive(Debug)]
pub enum TagsReply {
    /// It could not be sent.
    Unsent { cause: String },
    /// The server answered with a status that grants nothing.
    Refused { status: u16, body: Option<String> },
    /// The server granted the request, but the body is no list of models.
    Unreadable { cause: String },
    /// The server granted the request.
    Models(TagsResponse),
}

/// How a request for a chat completion went.
#[derive(Debug)]
pub enum ChatReply {
    /// It could not be sent.
    Unsent { cause: String },
    /// The server answered with a status that grants nothing.
    Refused { status: u16, body: Option<String> },
    /// The server granted the request, and the reply follows piece by piece.
    Streaming,
}

/// Whether `status` is one with which a server refuses.
pub open spec fn refuses(status: u16) -> bool {
    100 <= status <= 999 && !granted(status)
}

/// What the chat endpoint is sent: the request of the service as it came, to be answered piece by
/// piece.
#[derive(Debug)]
pub struct ChatRequest<'a> {
    pub model: &'a str,
    pub messages: &'a [ChatMessage],
    pub stream: bool,
    pub options: Option<&'a serde_json::Value>,
}

/// A request to post, and where.
#[derive(Debug)]
pub struct ChatCall<'a> {
    pub url: String,
    pub body: ChatRequest<'a>,
}

/// One piece of a chat reply.
#[derive(Debug, Clone, Default)]
pub struct ChatChunk {
    pub content: String,
    pub done: bool,
    pub total_duration_ns: Option<u64>,
    pub eval_count: Option<u64>,
}

/// The contents of a [`ChatChunk`].
#[verifier::ext_equal]
pub struct ChatChunkView {
    pub content: Seq<char>,
    pub done: bool,
    pub total_duration_ns: Option<u64>,
    pub eval_count: Option<u64>,
}

impl View for ChatChunk {
    type V = ChatChunkView;

    open spec fn view(&self) -> ChatChunkView {
        ChatChunkView {
            content: self.content@,
            done: self.done,
            total_duration_ns: self.total_duration_ns,
            eval_count: self.eval_count,
        }
    }
}

/// A line of a chat reply as the server writes it.
#[derive(Debug, Clone, Default)]
pub struct ChatRawChunk {
    pub message: Option<ChatRawMessage>,
    pub done: bool,
    pub total_duration: Option<u64>,
    pub eval_count: Option<u64>,
    pub error: Option<String>,
}

/// The message in a line of a chat reply.
#[derive(Debug, Clone, Default)]
pub struct ChatRawMessage {
    pub content: String,
}

/// The piece of a reply that a line without an error stands for. A line without a message adds no
/// text.
pub open spec fn chunk_of(raw: ChatRawChunk) -> ChatChunkView {
    ChatChunkView {
        content: match raw.message {
            Some(message) => message.content@,
            None => seq![],
        },
        done: raw.done,
        total_duration_ns: raw.total_duration,
        eval_count: raw.eval_count,
    }
}

/// How an error shows a line: as the text that it spells or, where it is no UTF-8, as
/// `String::from_utf8_lossy` shows it.
pub open spec fn shown(line: Seq<u8>) -> Seq<char> {
    if valid_utf8(line) {
        decode_utf8(line)
    } else {
        lossy_text(line)
    }
}

/// What a line of a chat reply means: a piece of the reply, or the words of an error. `parsed` is
/// the JSON of `line`, or the message of the error that reading it as JSON gave.
pub open spec fn interpreted(line: Seq<u8>, parsed: Result<ChatRawChunk, Seq<char>>) -> Result<
    ChatChunkView,
    Seq<char>,
> {
    match parsed {
        Err(cause) => Err("parsing ollama chunk: "@ + shown(line) + ": "@ + cause),
        Ok(raw) => match raw.error {
            Some(message) => Err("ollama error: "@ + message@),
            None => Ok(chunk_of(raw)),
        },
    }
}

/// The contents of what reading a line as JSON gave.
pub open spec fn raw_result(parsed: Result<ChatRawChunk, String>) -> Result<
    ChatRawChunk,
    Seq<char>,
> {
    match parsed {
        Ok(raw) => Ok(raw),
        Err(cause) => Err(cause@),
    }
}

/// The contents of an interpreted line.
pub open spec fn chunk_result(r: Result<ChatChunk, OllamaError>) -> Result<
    ChatChunkView,
    Seq<char>,
> {
    match r {
        Ok(chunk) => Ok(chunk@),
        Err(e) => Err(e.text()),
    }
}

/// Interprets a line of a chat reply. `parsed` is the JSON of `line`, or the message of the error
/// that reading it as JSON gave.
pub fn parse_chat_chunk(line: &[u8], parsed: Result<ChatRawChunk, String>) -> (r: Result<
    ChatChunk,
    OllamaError,
>)
    ensures
        chunk_result(r) == interpreted(line@, raw_result(parsed)),
        r matches Err(e) ==> if parsed is Err {
            e is Chunk && e.summary_text() == "parsing ollama chunk: "@ + shown(line@)
        } else {
            e is Reported && e.summary_text() == e.text()
        },
        match parsed {
            Ok(raw) => match raw.error {
                None => {
                    &&& r matches Ok(chunk)
                    &&& chunk.done == raw.done
                    &&& chunk.total_duration_ns == raw.total_duration
                    &&& chunk.eval_count == raw.eval_count
                    &&& raw.message matches Some(message) ==> chunk.content@ == message.content@
                    &&& raw.message is None ==> chunk.content@.len() == 0
                },
                Some(words) => {
                    &&& r matches Err(OllamaError::Reported { message })
                    &&& message@ == words@
                },
            },
            Err(why) => {
                &&& r matches Err(OllamaError::Chunk { line: shown_line, cause })
                &&& shown_line@ == shown(line@)
                &&& cause@ == why@
            },
        },
{
    match parsed {
        Err(cause) => Err(OllamaError::Chunk { line: from_utf8_lossy(line), cause }),
        Ok(raw) => match raw.error {
            Some(message) => Err(OllamaError::Reported { message }),
            None => {
                let content: String = match raw.message {
                    Some(message) => message.content,
                    None => String::new(),
                };
                Ok(
                    ChatChunk {
                        content,
                        done: raw.done,
                        total_duration_ns: raw.total_duration,
                        eval_count: raw.eval_count,
                    },
                )
            },
        },
    }
}

/// A reader that was in `state` when an error came up: nothing follows an error.
pub open spec fn given_up(state: NdjsonView) -> NdjsonView {
    NdjsonView { over: true, ..state }
}

/// The state of a reader that was in `state`, once a line was interpreted as a piece of the reply or
/// as an error.
pub open spec fn after_line(state: NdjsonView, is_piece: bool) -> NdjsonView {
    if is_piece {
        state
    } else {
        given_up(state)
    }
}

impl NdjsonChatStream {
    /// Interprets a line that the reader gave out, as [`parse_chat_chunk`] does. Where that is an
    /// error, the reader gives out no more.
    pub fn interpret(&mut self, line: &[u8], parsed: Result<ChatRawChunk, String>) -> (r: Result<
        ChatChunk,
        OllamaError,
    >)
        ensures
            chunk_result(r) == interpreted(line@, raw_result(parsed)),
            r matches Err(e) ==> if parsed is Err {
                e is Chunk && e.summary_text() == "parsing ollama chunk: "@ + shown(line@)
            } else {
                e is Reported && e.summary_text() == e.text()
            },
            final(self)@ == if r is Ok {
                old(self)@
            } else {
                given_up(old(self)@)
            },
            final(self)@ == after_line(old(self)@, r is Ok),
    {
        let r = parse_chat_chunk(line, parsed);
        if r.is_err() {
            self.fail();
        }
        r
    }

    /// Takes note that the reply broke off: the error, with no more lines behind it. `summary` is
    /// the message of the error underneath alone, and `cause` is that with those below it.
    pub fn break_off(&mut self, summary: String, cause: String) -> (e: OllamaError)
        ensures
            e is Stream,
            e.summary_text() == summary@,
            e.text() == cause@,
            final(self)@ == given_up(old(self)@),
    {
        self.fail();
        OllamaError::Stream { summary, cause }
    }
}

/// The request for a chat completion that asks for this, to be answered piece by piece.
pub open spec fn chat_request<'a>(
    model: &'a str,
    messages: &'a [ChatMessage],
    options: Option<&'a serde_json::Value>,
) -> ChatRequest<'a> {
    ChatRequest { model, messages, stream: true, options }
}

/// What a reply to a request for the models comes to: the models, or the words of the error.
pub open spec fn tags_result(reply: TagsReply) -> Result<Seq<ModelInfoView>, Seq<char>> {
    match reply {
        TagsReply::Unsent { cause } => Err("sending /api/tags request: "@ + cause@),
        TagsReply::Refused { status, body } => Err(
            refusal_text(Endpoint::Tags, status, body_text(body)),
        ),
        TagsReply::Unreadable { cause } => Err("parsing /api/tags response: "@ + cause@),
        TagsReply::Models(tags) => Ok(tags_list(tags.models@)),
    }
}

/// What a list of models is, or the words of the error in its place.
pub open spec fn models_result(r: Result<Vec<ModelInfo>, OllamaError>) -> Result<
    Seq<ModelInfoView>,
    Seq<char>,
> {
    match r {
        Ok(models) => Ok(model_list(models@)),
        Err(e) => Err(e.text()),
    }
}

/// What a reply to a request for a chat completion comes to: a reader, or the words of the error.
pub open spec fn chat_result(reply: ChatReply) -> Result<NdjsonView, Seq<char>> {
    match reply {
        ChatReply::Unsent { cause } => Err("sending /api/chat request: "@ + cause@),
        ChatReply::Refused { status, body } => Err(
            refusal_text(Endpoint::Chat, status, body_text(body)),
        ),
        ChatReply::Streaming => Ok(NdjsonView { buf: seq![], eof: false, over: false }),
    }
}

/// What a reader is, or the words of the error in its place.
pub open spec fn stream_result(r: Result<NdjsonChatStream, OllamaError>) -> Result<
    NdjsonView,
    Seq<char>,
> {
    match r {
        Ok(stream) => Ok(stream@),
        Err(e) => Err(e.text()),
    }
}

/// The local Ollama server.
#[derive(Debug, Clone)]
pub struct OllamaClient {
    base: String,
}

impl View for OllamaClient {
    type V = Seq<char>;

    closed spec fn view(&self) -> Seq<char> {
        self.base@
    }
}

/// The URL of an endpoint, or the words of the error where it has none.
pub open spec fn endpoint_url(base: Seq<char>, endpoint: Endpoint) -> Result<Seq<char>, Seq<char>> {
    match joined_url(base, endpoint.reference_text()) {
        Ok(url) => Ok(url),
        Err(cause) => Err("building "@ + endpoint.path_text() + " url: "@ + cause),
    }
}

impl OllamaClient {
    /// The server at the URL that `base` spells.
    pub fn new(base: String) -> (r: OllamaClient)
        ensures
            r@ == base@,
    {
        OllamaClient { base }
    }

    /// The URL of an endpoint of this server.
    pub fn url(&self, endpoint: Endpoint) -> (r: Result<String, OllamaError>)
        ensures
            match endpoint_url(self@, endpoint) {
                Ok(url) => r matches Ok(text) && text@ == url,
                Err(words) => r matches Err(e) && e is Url && e->Url_endpoint == endpoint && e.text()
                    == words,
            },
            endpoint == Endpoint::Tags ==> match joined_url(self@, "api/tags"@) {
                Ok(url) => r matches Ok(text) && text@ == url,
                Err(_) => r is Err,
            },
            endpoint == Endpoint::Chat ==> match joined_url(self@, "api/chat"@) {
                Ok(url) => r matches Ok(text) && text@ == url,
                Err(_) => r is Err,
            },
    {
        match join_url(self.base.as_str(), endpoint.reference()) {
            Ok(url) => Ok(url),
            Err(cause) => Err(OllamaError::Url { endpoint, cause }),
        }
    }

    /// The models that a reply from [`Endpoint::Tags`] lists, in its order.
    pub fn list_models(&self, reply: TagsReply) -> (r: Result<Vec<ModelInfo>, OllamaError>)
        requires
            reply matches TagsReply::Refused { status, .. } ==> refuses(status),
        ensures
            match reply {
                TagsReply::Unsent { cause } => r matches Err(e) && e is Send
                    && e->Send_endpoint == Endpoint::Tags && e.text()
                    == "sending /api/tags request: "@ + cause@,
                TagsReply::Refused { status, body } => r matches Err(e) && e is Status && e.text()
                    == refusal_text(Endpoint::Tags, status, body_text(body)),
                TagsReply::Unreadable { cause } => r matches Err(e) && e is Tags && e.text()
                    == "parsing /api/tags response: "@ + cause@,
                TagsReply::Models(tags) => {
                    &&& r matches Ok(models)
                    &&& model_list(models@) == tags_list(tags.models@)
                    &&& models@.len() == tags.models@.len()
                    &&& forall|i: int|
                        0 <= i < models@.len() ==> {
                            &&& (#[trigger] models@[i]).name == tags.models@[i].name
                            &&& models@[i].size == tags.models@[i].size
                            &&& models@[i].modified_at == tags.models@[i].modified_at
                        }
                },
            },
            models_result(r) == tags_result(reply),
    {
        match reply {
            TagsReply::Unsent { cause } => {
                proof {
                    reveal_strlit("sending ");
                    reveal_strlit("/api/tags");
                    reveal_strlit(" request: ");
                    reveal_strlit("sending /api/tags request: ");
                    assert("sending "@ + "/api/tags"@ + " request: "@
                        =~= "sending /api/tags request: "@);
                }
                Err(OllamaError::Send { endpoint: Endpoint::Tags, cause })
            },
            TagsReply::Refused { status, body } => Err(
                refusal(status, body, Endpoint::Tags),
            ),
            TagsReply::Unreadable { cause } => Err(OllamaError::Tags { cause }),
            TagsReply::Models(tags) => Ok(models_of(tags.models)),
        }
    }

    /// The request for a chat completion, with what the service asked for as it came.
    pub fn chat_stream<'a>(
        &self,
        model: &'a str,
        messages: &'a [ChatMessage],
        options: Option<&'a serde_json::Value>,
    ) -> (r: Result<ChatCall<'a>, OllamaError>)
        ensures
            match endpoint_url(self@, Endpoint::Chat) {
                Ok(url) => r matches Ok(call) && call.url@ == url && call.body == (ChatRequest {
                    model,
                    messages,
                    stream: true,
                    options,
                }),
                Err(words) => r matches Err(e) && e is Url && e->Url_endpoint == Endpoint::Chat
                    && e.text() == words,
            },
            r matches Ok(call) ==> call.body == chat_request(model, messages, options),
    {
        let url: String = self.url(Endpoint::Chat)?;
        Ok(ChatCall { url, body: ChatRequest { model, messages, stream: true, options } })
    }

    /// The reader of a chat reply, or why there is nothing to read.
    pub fn open_chat(&self, reply: ChatReply) -> (r: Result<NdjsonChatStream, OllamaError>)
        requires
            reply matches ChatReply::Refused { status, .. } ==> refuses(status),
        ensures
            match reply {
                ChatReply::Unsent { cause } => r matches Err(e) && e is Send
                    && e->Send_endpoint == Endpoint::Chat && e.text()
                    == "sending /api/chat request: "@ + cause@,
                ChatReply::Refused { status, body } => r matches Err(e) && e is Status && e.text()
                    == refusal_text(Endpoint::Chat, status, body_text(body)),
                ChatReply::Streaming => r matches Ok(stream) && stream@ == (NdjsonView {
                    buf: seq![],
                    eof: false,
                    over: false,
                }),
            },
            stream_result(r) == chat_result(reply),
    {
        match reply {
            ChatReply::Unsent { cause } => {
                proof {
                    reveal_strlit("sending ");
                    reveal_strlit("/api/chat");
                    reveal_strlit(" request: ");
                    reveal_strlit("sending /api/chat request: ");
                    assert("sending "@ + "/api/chat"@ + " request: "@
                        =~= "sending /api/chat request: "@);
                }
                Err(OllamaError::Send { endpoint: Endpoint::Chat, cause })
            },
            ChatReply::Refused { status, body } => Err(
                refusal(status, body, Endpoint::Chat),
            ),
            ChatReply::Streaming => Ok(NdjsonChatStream::new()),
        }
    }
}

/// The models of a reply as the service gets them.
fn models_of(tags: Vec<TagsModel>) -> (r: Vec<ModelInfo>)
    ensures
        model_list(r@) == tags_list(tags@),
        r@.len() == tags@.len(),
        forall|i: int|
            0 <= i < r@.len() ==> {
                &&& (#[trigger] r@[i]).name == tags@[i].name
                &&& r@[i].size == tags@[i].size
                &&& r@[i].modified_at == tags@[i].modified_at
            },
{
    let mut r: Vec<ModelInfo> = Vec::new();
    for m in it: tags
        invariant
            it.seq() == tags@,
            model_list(r@) == tags_list(tags@.take(it.index() as int)),
            r@.len() == it.index(),
            forall|i: int|
                0 <= i < r@.len() ==> {
                    &&& (#[trigger] r@[i]).name == tags@[i].name
                    &&& r@[i].size == tags@[i].size
                    &&& r@[i].modified_at == tags@[i].modified_at
                },
    {
        let ghost before = r@;
        let ghost i = it.index() as int;
        let model = ModelInfo { name: m.name, size: m.size, modified_at: m.modified_at };
        r.push(model);
        proof {
            assert(model_list(r@) =~= model_list(before).push(model@));
            assert(tags@.take(i + 1) =~= tags@.take(i).push(m));
            assert(tags_list(tags@.take(i + 1)) =~= tags_list(tags@.take(i)).push(m@));
        }
    }
    proof {
        assert(tags@.take(tags@.len() as int) =~= tags@);
    }
    r
}

/// A line of a chat reply is read as it is. Without an error in it, the piece has the text of the
/// message character for character, or none where there is no message, and the numbers of the line.
/// With an error in it, the error is what the line says. A line that is no JSON is an error that
/// shows the line.
pub proof fn a_line_is_read_as_it_is(
    line: Seq<u8>,
    parsed: Result<ChatRawChunk, String>,
    r: Result<ChatChunk, OllamaError>,
)
    requires
        chunk_result(r) == interpreted(line, raw_result(parsed)),
    ensures
        match parsed {
            Ok(raw) => match raw.error {
                None => {
                    &&& r matches Ok(chunk)
                    &&& raw.message matches Some(message) ==> chunk.content@ == message.content@
                    &&& raw.message is None ==> chunk.content@.len() == 0
                    &&& chunk.done == raw.done
                    &&& chunk.total_duration_ns == raw.total_duration
                    &&& chunk.eval_count == raw.eval_count
                },
                Some(words) => r matches Err(e) && e.text() == "ollama error: "@ + words@,
            },
            Err(cause) => {
                &&& r matches Err(e)
                &&& valid_utf8(line) ==> e.text() == "parsing ollama chunk: "@ + decode_utf8(line)
                    + ": "@ + cause@
                &&& !valid_utf8(line) ==> e.text() == "parsing ollama chunk: "@ + lossy_text(line)
                    + ": "@ + cause@
            },
        },
{
}

/// The words of an error, from what it is made of: they name what was done, and end with the cause.
pub proof fn errors_say_what_went_wrong(e: OllamaError)
    ensures
        match e {
            OllamaError::Url { endpoint, cause } => {
                &&& endpoint == Endpoint::Tags ==> e.text() == "building /api/tags url: "@ + cause@
                &&& endpoint == Endpoint::Chat ==> e.text() == "building /api/chat url: "@ + cause@
                &&& e.text() == e.summary_text() + ": "@ + cause@
            },
            OllamaError::Send { endpoint, cause } => {
                &&& endpoint == Endpoint::Tags ==> e.text() == "sending /api/tags request: "@
                    + cause@
                &&& endpoint == Endpoint::Chat ==> e.text() == "sending /api/chat request: "@
                    + cause@
                &&& e.text() == e.summary_text() + ": "@ + cause@
            },
            OllamaError::Status { endpoint, status, body } => {
                &&& body@.len() == 0 && endpoint == Endpoint::Tags ==> e.text()
                    == "ollama /api/tags returned "@ + status@
                &&& body@.len() == 0 && endpoint == Endpoint::Chat ==> e.text()
                    == "ollama /api/chat returned "@ + status@
                &&& body@.len() > 0 && endpoint == Endpoint::Tags ==> e.text()
                    == "ollama /api/tags returned "@ + status@ + ": "@ + body@
                &&& body@.len() > 0 && endpoint == Endpoint::Chat ==> e.text()
                    == "ollama /api/chat returned "@ + status@ + ": "@ + body@
                &&& e.summary_text() == e.text()
            },
            OllamaError::Tags { cause } => {
                &&& e.text() == "parsing /api/tags response: "@ + cause@
                &&& e.text() == e.summary_text() + ": "@ + cause@
            },
            OllamaError::Chunk { line, cause } => {
                &&& e.text() == "parsing ollama chunk: "@ + line@ + ": "@ + cause@
                &&& e.text() == e.summary_text() + ": "@ + cause@
            },
            OllamaError::Reported { message } => {
                &&& e.text() == "ollama error: "@ + message@
                &&& e.summary_text() == e.text()
            },
            OllamaError::Stream { summary, cause } => e.text() == cause@ && e.summary_text()
                == summary@,
        },
{
    reveal_strlit("building ");
    reveal_strlit(" url: ");
    reveal_strlit(" url");
    reveal_strlit(": ");
    reveal_strlit("sending ");
    reveal_strlit(" request: ");
    reveal_strlit(" request");
    reveal_strlit("/api/tags");
    reveal_strlit("/api/chat");
    reveal_strlit("ollama ");
    reveal_strlit(" returned ");
    reveal_strlit("building /api/tags url: ");
    reveal_strlit("building /api/chat url: ");
    reveal_strlit("sending /api/tags request: ");
    reveal_strlit("sending /api/chat request: ");
    reveal_strlit("ollama /api/tags returned ");
    reveal_strlit("ollama /api/chat returned ");
    reveal_strlit("parsing /api/tags response: ");
    reveal_strlit("parsing /api/tags response");
    match e {
        OllamaError::Url { endpoint, cause } => {
            assert("building "@ + "/api/tags"@ + " url: "@ =~= "building /api/tags url: "@);
            assert("building "@ + "/api/chat"@ + " url: "@ =~= "building /api/chat url: "@);
            assert(" url: "@ =~= " url"@ + ": "@);
            assert(e.text() =~= e.summary_text() + ": "@ + cause@);
        },
        OllamaError::Send { endpoint, cause } => {
            assert("sending "@ + "/api/tags"@ + " request: "@ =~= "sending /api/tags request: "@);
            assert("sending "@ + "/api/chat"@ + " request: "@ =~= "sending /api/chat request: "@);
            assert(" request: "@ =~= " request"@ + ": "@);
            assert(e.text() =~= e.summary_text() + ": "@ + cause@);
        },
        OllamaError::Status { endpoint, status, body } => {
            assert("ollama "@ + "/api/tags"@ + " returned "@ =~= "ollama /api/tags returned "@);
            assert("ollama "@ + "/api/chat"@ + " returned "@ =~= "ollama /api/chat returned "@);
        },
        OllamaError::Tags { cause } => {
            assert("parsing /api/tags response: "@ =~= "parsing /api/tags response"@ + ": "@);
        },
        _ => {},
    }
}

/// The endpoints are where Ollama serves them: the tags under `api/tags` and the chat under
/// `api/chat`, below the base URL.
pub proof fn endpoints_are_below_the_base(base: Seq<char>)
    ensures
        endpoint_url(base, Endpoint::Tags) is Ok <==> joined_url(base, "api/tags"@) is Ok,
        endpoint_url(base, Endpoint::Chat) is Ok <==> joined_url(base, "api/chat"@) is Ok,
        joined_url(base, "api/tags"@) matches Ok(url) ==> endpoint_url(base, Endpoint::Tags)->Ok_0
            == url,
        joined_url(base, "api/chat"@) matches Ok(url) ==> endpoint_url(base, Endpoint::Chat)->Ok_0
            == url,
        joined_url(base, "api/tags"@) matches Err(cause) ==> endpoint_url(
            base,
            Endpoint::Tags,
        )->Err_0 == "building /api/tags url: "@ + cause,
        joined_url(base, "api/chat"@) matches Err(cause) ==> endpoint_url(
            base,
            Endpoint::Chat,
        )->Err_0 == "building /api/chat url: "@ + cause,
        Endpoint::Tags.path_text() == "/api/tags"@,
        Endpoint::Chat.path_text() == "/api/chat"@,
{
    reveal_strlit("building ");
    reveal_strlit(" url: ");
    reveal_strlit("/api/tags");
    reveal_strlit("/api/chat");
    reveal_strlit("building /api/tags url: ");
    reveal_strlit("building /api/chat url: ");
    assert("building "@ + "/api/tags"@ + " url: "@ =~= "building /api/tags url: "@);
    assert("building "@ + "/api/chat"@ + " url: "@ =~= "building /api/chat url: "@);
}

/// A refusal repeats the body: the words name the endpoint and the status, and behind them stands
/// the body without the white space around it, cut to 512 characters. `before`, `core` and `behind`
/// are the body taken apart.
pub proof fn a_refusal_repeats_the_body(
    endpoint: Endpoint,
    status: u16,
    before: Seq<char>,
    core: Seq<char>,
    behind: Seq<char>,
)
    requires
        forall|i: int| 0 <= i < before.len() ==> is_white_space(#[trigger] before[i]),
        forall|i: int| 0 <= i < behind.len() ==> is_white_space(#[trigger] behind[i]),
        core.len() > 0 ==> !is_white_space(core[0]) && !is_white_space(core.last()),
    ensures
        ({
            let words = refusal_text(endpoint, status, before + core + behind);
            let refusal = match endpoint {
                Endpoint::Tags => "ollama /api/tags returned "@ + status_text(status),
                Endpoint::Chat => "ollama /api/chat returned "@ + status_text(status),
            };
            &&& core.len() == 0 ==> words == refusal
            &&& 0 < core.len() <= 512 ==> words == refusal + ": "@ + core
            &&& core.len() > 512 ==> words == refusal + ": "@ + core.take(512)
        }),
{
    trimming_leaves_the_core(before, core, behind);
    reveal_strlit("ollama ");
    reveal_strlit(" returned ");
    reveal_strlit("/api/tags");
    reveal_strlit("/api/chat");
    reveal_strlit("ollama /api/tags returned ");
    reveal_strlit("ollama /api/chat returned ");
    assert("ollama "@ + "/api/tags"@ + " returned "@ =~= "ollama /api/tags returned "@);
    assert("ollama "@ + "/api/chat"@ + " returned "@ =~= "ollama /api/chat returned "@);
}

/// A status grants a request exactly if it is one of the two hundreds.
pub proof fn the_two_hundreds_grant(status: u16)
    ensures
        granted(status) <==> status / 100 == 2,
        refuses(status) <==> 100 <= status <= 999 && status / 100 != 2,
{
}

/// A request for a chat completion holds what was asked for, and asks for the reply piece by piece.
pub proof fn a_chat_request_holds_what_was_asked<'a>(
    model: &'a str,
    messages: &'a [ChatMessage],
    options: Option<&'a serde_json::Value>,
)
    ensures
        chat_request(model, messages, options).model == model,
        chat_request(model, messages, options).messages == messages,
        chat_request(model, messages, options).options == options,
        chat_request(model, messages, options).stream,
{
}

/// A list of models holds each model of the reply, with its name, size and date, in the order of the
/// reply; anything else that can come of the request is an error that says so.
pub proof fn models_are_listed_as_they_came(
    reply: TagsReply,
    r: Result<Vec<ModelInfo>, OllamaError>,
)
    requires
        models_result(r) == tags_result(reply),
    ensures
        r is Ok <==> reply is Models,
        reply matches TagsReply::Models(tags) ==> {
            &&& r matches Ok(models)
            &&& models@.len() == tags.models@.len()
            &&& forall|i: int|
                0 <= i < models@.len() ==> {
                    &&& (#[trigger] models@[i]).name@ == tags.models@[i].name@
                    &&& models@[i].size == tags.models@[i].size
                    &&& models@[i].modified_at.deep_view() == tags.models@[i].modified_at.deep_view()
                }
        },
        reply matches TagsReply::Unsent { cause } ==> r->Err_0.text()
            == "sending /api/tags request: "@ + cause@,
        reply matches TagsReply::Unreadable { cause } ==> r->Err_0.text()
            == "parsing /api/tags response: "@ + cause@,
        reply matches TagsReply::Refused { status, body: Some(body) } ==> r->Err_0.text()
            == refusal_text(Endpoint::Tags, status, body@),
        reply matches TagsReply::Refused { status, body: None } ==> r->Err_0.text()
            == refusal_text(Endpoint::Tags, status, seq![]),
{
    if let TagsReply::Models(tags) = reply {
        if let Ok(models) = r {
            assert(model_list(models@) == tags_list(tags.models@));
            assert(models@.len() == model_list(models@).len());
            assert forall|i: int| 0 <= i < models@.len() implies {
                &&& (#[trigger] models@[i]).name@ == tags.models@[i].name@
                &&& models@[i].size == tags.models@[i].size
                &&& models@[i].modified_at.deep_view() == tags.models@[i].modified_at.deep_view()
            } by {
                assert(model_list(models@)[i] == models@[i]@);
                assert(tags_list(tags.models@)[i] == tags.models@[i]@);
            }
        }
    }
}

/// A chat request that is granted is read from its start; anything else that can come of it is an
/// error that says so.
pub proof fn a_granted_chat_is_read_from_its_start(
    reply: ChatReply,
    r: Result<NdjsonChatStream, OllamaError>,
)
    requires
        stream_result(r) == chat_result(reply),
    ensures
        r is Ok <==> reply is Streaming,
        r matches Ok(stream) ==> stream@.buf.len() == 0 && !stream@.eof && !stream@.over,
        reply matches ChatReply::Unsent { cause } ==> r->Err_0.text()
            == "sending /api/chat request: "@ + cause@,
        reply matches ChatReply::Refused { status, body: Some(body) } ==> r->Err_0.text()
            == refusal_text(Endpoint::Chat, status, body@),
        reply matches ChatReply::Refused { status, body: None } ==> r->Err_0.text()
            == refusal_text(Endpoint::Chat, status, seq![]),
{
}

/// A piece of the reply leaves a reader as it is, with all that it holds. Nothing follows an error: a
/// reader that gave up finds nothing more, whatever it holds.
pub proof fn nothing_follows_an_error(state: NdjsonView)
    ensures
        after_line(state, true) == state,
        polled(after_line(state, false)).0 is Over,
        polled(after_line(state, false)).1.over,
        polled(given_up(state)).0 is Over,
        polled(given_up(state)).1.over,
{
}

} // verus!
