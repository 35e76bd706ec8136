//! One connection to the service, from the greeting to the close.

use vstd::prelude::*;

use crate::config::Config;
use crate::handler::{
    answers, dispatch, dispatched, from_handler, lemma_answers_carry_the_id,
    lemma_from_handler_contains, Handler, HandlerAction, HandlerActionView, HandlerEventView,
    HandlerView,
};
use crate::protocol::{Inbound, InboundView, Outbound, OutboundView};

verus! {

/// How many messages can wait to be written.
pub const OUTBOUND_CAP: usize = 256;

/// The version that the greeting reports.
pub const PKG_VERSION: &'static str = "0.1.0";

/// Whether a text can be the value of an HTTP header: it holds no control characters but tabs.
pub open spec fn is_header_value(text: Seq<char>) -> bool {
    forall|i: int|
        0 <= i < text.len() ==> (#[trigger] text[i] >= '\u{20}' && text[i] != '\u{7f}') || text[i]
            == '\u{9}'
}

/// Whether a check of a text for a header went as it must: the text passes if it can be the value
/// of one, and otherwise there are words for why it does not.
pub open spec fn is_header_check(r: Result<(), String>, text: Seq<char>) -> bool {
    match r {
        Ok(()) => is_header_value(text),
        Err(cause) => !is_header_value(text) && cause@ == "failed to parse header value"@,
    }
}

/// Calls `HeaderValue::from_str` of the `http` crate that `tungstenite` exports. It takes the text
/// unless that holds a control character other than a tab, and has one message for all it does not
/// take.
#[verifier::external_body]
fn check_header(text: &str) -> (r: Result<(), String>)
    ensures
        is_header_check(r, text@),
{
    tokio_tungstenite::tungstenite::http::HeaderValue::from_str(text)
        .map(|_| ())
        .map_err(|e| e.to_string())
}

/// What making the request for a connection out of the URL of the service comes to: nothing, or
/// the messages of the error and of those below it.
pub uninterp spec fn upgrade_check(url: Seq<char>) -> Result<(), Seq<char>>;

/// The contents of what a check gives back.
pub open spec fn check_text(r: Result<(), String>) -> Result<(), Seq<char>> {
    match r {
        Ok(()) => Ok(()),
        Err(cause) => Err(cause@),
    }
}

/// Calls `into_client_request` of `tungstenite` on a URL. Whether there is a request for it, and
/// the messages of the error where there is none, are only named. The request itself holds a random
/// key and is not kept; the call panics where the system has no random numbers to give.
#[verifier::external_body]
fn check_upgrade(url: &str) -> (r: Result<(), String>)
    ensures
        check_text(r) == upgrade_check(url@),
{
    tokio_tungstenite::tungstenite::client::IntoClientRequest::into_client_request(url)
        .map(|_| ())
        .map_err(|e| format!("{:#}", anyhow::Error::from(e)))
}

/// Why a session failed. A `cause` is the message of the error underneath, with those of the errors
/// below that one.
#[derive(Debug, Clone, PartialEq)]
pub enum SessionError {
    /// No request for a connection can be made for the URL of the service.
    Request { cause: String },
    /// The configured `Authorization` header cannot be sent.
    AuthHeader { cause: String },
    /// The connection could not be made.
    Connect { cause: String },
    /// The greeting could not be handed over.
    Hello { cause: String },
    /// The connection broke.
    Read { cause: String },
}

impl SessionError {
    /// The error in words, from the outermost context to the innermost cause.
    pub open spec fn text(self) -> Seq<char> {
        match self {
            SessionError::Request { cause } => "building ws upgrade request: "@ + cause@,
            SessionError::AuthHeader { cause } => "invalid Authorization header value: "@ + cause@,
            SessionError::Connect { cause } => "websocket connect: "@ + cause@,
            SessionError::Hello { cause } => "sending hello message: "@ + cause@,
            SessionError::Read { cause } => "websocket read: "@ + cause@,
        }
    }

    /// The error in words.
    pub fn message(&self) -> (r: String)
        ensures
            r@ == self.text(),
    {
        let (context, cause) = match self {
            SessionError::Request { cause } => ("building ws upgrade request: ", cause),
            SessionError::AuthHeader { cause } => ("invalid Authorization header value: ", cause),
            SessionError::Connect { cause } => ("websocket connect: ", cause),
            SessionError::Hello { cause } => ("sending hello message: ", cause),
            SessionError::Read { cause } => ("websocket read: ", cause),
        };
        let mut r: String = context.to_owned();
        r.append(cause.as_str());
        r
    }
}

/// The `Authorization` header to ask for the connection with, if one is configured.
pub fn authorization(config: &Config) -> (r: Result<Option<String>, SessionError>)
    ensures
        match config@.ws_auth_header {
            None => r matches Ok(None),
            Some(text) => if is_header_value(text) {
                r matches Ok(Some(header)) && header@ == text
            } else {
                r matches Err(SessionError::AuthHeader { cause }) && cause@
                    == "failed to parse header value"@
            },
        },
{
    match &config.ws_auth_header {
        None => Ok(None),
        Some(text) => match check_header(text.as_str()) {
            Ok(()) => Ok(Some(text.clone())),
            Err(cause) => Err(SessionError::AuthHeader { cause }),
        },
    }
}

/// What to ask for a connection with.
#[derive(Debug, Clone, PartialEq)]
pub struct Upgrade {
    pub url: String,
    /// The `Authorization` header.
    pub authorization: Option<String>,
}

/// The contents of an [`Upgrade`], or the words of the error in its place.
pub open spec fn upgrade_result(r: Result<Upgrade, SessionError>) -> Result<
    (Seq<char>, Option<Seq<char>>),
    Seq<char>,
> {
    match r {
        Ok(request) => Ok((request.url@, request.authorization.deep_view())),
        Err(e) => Err(e.text()),
    }
}

/// The URL and the header to ask for a connection with, or the words of the error.
pub open spec fn upgrade_for(url: Seq<char>, header: Option<Seq<char>>) -> Result<
    (Seq<char>, Option<Seq<char>>),
    Seq<char>,
> {
    match upgrade_check(url) {
        Err(cause) => Err("building ws upgrade request: "@ + cause),
        Ok(()) => if header matches Some(text) && !is_header_value(text) {
            Err("invalid Authorization header value: "@ + "failed to parse header value"@)
        } else {
            Ok((url, header))
        },
    }
}

/// The request for the connection: where to, and with which header. The URL is looked at first.
pub fn upgrade(config: &Config) -> (r: Result<Upgrade, SessionError>)
    ensures
        match upgrade_check(config@.ws_url) {
            Err(words) => r matches Err(SessionError::Request { cause }) && cause@ == words,
            Ok(()) => if config@.ws_auth_header matches Some(text) && !is_header_value(text) {
                r matches Err(SessionError::AuthHeader { cause }) && cause@
                    == "failed to parse header value"@
            } else {
                r matches Ok(request) && request.url@ == config@.ws_url
                    && request.authorization.deep_view() == config@.ws_auth_header
            },
        },
        upgrade_result(r) == upgrade_for(config@.ws_url, config@.ws_auth_header),
        r matches Ok(request) ==> request.url@ == config.ws_url@
            && request.authorization.deep_view() == config.ws_auth_header.deep_view(),
{
    match check_upgrade(config.ws_url.as_str()) {
        Err(cause) => Err(SessionError::Request { cause }),
        Ok(()) => match authorization(config) {
            Err(error) => Err(error),
            Ok(authorization) => Ok(Upgrade { url: config.ws_url.clone(), authorization }),
        },
    }
}

/// What arrives on the connection.
#[derive(Debug)]
pub enum Frame {
    /// A text, as the request that it spells or the message of the error that reading it gave.
    Text(Result<Inbound, String>),
    /// Bytes, which mean nothing to the connector.
    Binary,
    /// Traffic of the connection itself.
    Control,
    /// The service closes the connection.
    Close,
    /// The connection broke.
    Broken { cause: String },
    /// The connection is over without a word.
    End,
}

/// Why a frame is let pass.
#[derive(Debug, Clone, Copy, PartialEq, Eq, Structural)]
pub enum Ignored {
    /// It spells no request.
    Unreadable,
    /// It holds bytes.
    Binary,
    /// It concerns the connection only.
    Control,
}

/// What a frame leads to.
#[derive(Debug)]
pub enum SessionStep {
    /// A request: run this handler, starting with this action.
    Start(Handler, HandlerAction),
    /// Nothing.
    Ignore(Ignored),
    /// No more frames are read.
    End,
}

/// What a session waits for.
#[derive(Debug, Clone, Copy, PartialEq, Eq, Structural)]
pub enum SessionWait {
    /// The next frame.
    Frame,
    /// A handler that makes headway or, when none does, the next frame.
    HandlersThenFrame,
    /// A handler: frames are read no more, but answers are still to be given.
    Handlers,
    /// Nothing: what was handed over is written, the connection closed and the session over.
    Close,
}

/// The contents of a [`Frame`].
#[verifier::ext_equal]
pub enum FrameView {
    Text(Result<InboundView, Seq<char>>),
    Binary,
    Control,
    Close,
    Broken { cause: Seq<char> },
    End,
}

/// The contents of a [`SessionStep`].
#[verifier::ext_equal]
pub enum SessionStepView {
    Start(HandlerView, HandlerActionView),
    Ignore(Ignored),
    End,
}

/// The state of a [`Session`]: open, or over with what it comes to.
pub type SessionView = Option<Result<(), Seq<char>>>;

impl View for Frame {
    type V = FrameView;

    open spec fn view(&self) -> FrameView {
        match self {
            Frame::Text(Ok(inbound)) => FrameView::Text(Ok(inbound@)),
            Frame::Text(Err(message)) => FrameView::Text(Err(message@)),
            Frame::Binary => FrameView::Binary,
            Frame::Control => FrameView::Control,
            Frame::Close => FrameView::Close,
            Frame::Broken { cause } => FrameView::Broken { cause: cause@ },
            Frame::End => FrameView::End,
        }
    }
}

impl View for SessionStep {
    type V = SessionStepView;

    open spec fn view(&self) -> SessionStepView {
        match self {
            SessionStep::Start(handler, action) => SessionStepView::Start(handler@, action@),
            SessionStep::Ignore(reason) => SessionStepView::Ignore(*reason),
            SessionStep::End => SessionStepView::End,
        }
    }
}

/// What an open session does about a frame: the state that it takes, and the step.
pub open spec fn framed(frame: FrameView) -> (SessionView, SessionStepView) {
    match frame {
        FrameView::Text(Ok(inbound)) => {
            let (handler, action) = dispatched(inbound);
            (None, SessionStepView::Start(handler, action))
        },
        FrameView::Text(Err(_)) => (None, SessionStepView::Ignore(Ignored::Unreadable)),
        FrameView::Binary => (None, SessionStepView::Ignore(Ignored::Binary)),
        FrameView::Control => (None, SessionStepView::Ignore(Ignored::Control)),
        FrameView::Close => (Some(Ok(())), SessionStepView::End),
        FrameView::Broken { cause } => (
            Some(Err("websocket read: "@ + cause)),
            SessionStepView::End,
        ),
        FrameView::End => (Some(Ok(())), SessionStepView::End),
    }
}

/// What a session waits for in a state, with this many handlers under way.
pub open spec fn awaited(state: SessionView, under_way: nat) -> SessionWait {
    match (state, under_way > 0) {
        (None, false) => SessionWait::Frame,
        (None, true) => SessionWait::HandlersThenFrame,
        (Some(_), true) => SessionWait::Handlers,
        (Some(_), false) => SessionWait::Close,
    }
}

/// The greeting of a client.
pub open spec fn greeting(client_id: Seq<char>) -> OutboundView {
    OutboundView::Hello { client_id, version: PKG_VERSION@ }
}

/// A connection to the service.
#[derive(Debug)]
pub struct Session {
    end: Option<Result<(), SessionError>>,
}

impl View for Session {
    type V = SessionView;

    closed spec fn view(&self) -> SessionView {
        match self.end {
            None => None,
            Some(Ok(())) => Some(Ok(())),
            Some(Err(error)) => Some(Err(error.text())),
        }
    }
}

impl Session {
    /// Starts on a connection that was just made. The greeting is to be handed over before
    /// anything else.
    pub fn start(config: &Config) -> (r: (Session, Outbound))
        ensures
            r.0@ is None,
            r.1@ == greeting(config@.client_id),
            r.1 matches Outbound::Hello { client_id, version } && client_id@ == config.client_id@
                && version@ == "0.1.0"@,
    {
        let hello = Outbound::Hello {
            client_id: config.client_id.clone(),
            version: PKG_VERSION.to_owned(),
        };
        (Session { end: None }, hello)
    }

    /// What to wait for, with this many handlers under way.
    pub fn wait(&self, under_way: usize) -> (r: SessionWait)
        ensures
            r == awaited(self@, under_way as nat),
            r == SessionWait::Close <==> self@ is Some && under_way == 0,
            r == SessionWait::Handlers <==> self@ is Some && under_way > 0,
            r == SessionWait::Frame <==> self@ is None && under_way == 0,
            r == SessionWait::HandlersThenFrame <==> self@ is None && under_way > 0,
    {
        if self.end.is_none() {
            if under_way == 0 {
                SessionWait::Frame
            } else {
                SessionWait::HandlersThenFrame
            }
        } else if under_way == 0 {
            SessionWait::Close
        } else {
            SessionWait::Handlers
        }
    }

    /// Deals with a frame.
    pub fn on_frame(&mut self, frame: Frame) -> (step: SessionStep)
        requires
            old(self)@ is None,
        ensures
            (final(self)@, step@) == framed(frame@),
            match frame {
                Frame::Text(Ok(inbound)) => {
                    &&& final(self)@ is None
                    &&& step matches SessionStep::Start(handler, action)
                    &&& (handler@, action@) == dispatched(inbound@)
                },
                Frame::Text(Err(_)) => final(self)@ is None && step
                    == SessionStep::Ignore(Ignored::Unreadable),
                Frame::Binary => final(self)@ is None && step
                    == SessionStep::Ignore(Ignored::Binary),
                Frame::Control => final(self)@ is None && step
                    == SessionStep::Ignore(Ignored::Control),
                Frame::Close => final(self)@ == Some(Ok::<(), Seq<char>>(())) && step is End,
                Frame::Broken { cause } => final(self)@ == Some(
                    Err::<(), Seq<char>>("websocket read: "@ + cause@),
                ) && step is End,
                Frame::End => final(self)@ == Some(Ok::<(), Seq<char>>(())) && step is End,
            },
    {
        match frame {
            Frame::Text(Ok(inbound)) => {
                let (handler, action) = dispatch(inbound);
                SessionStep::Start(handler, action)
            },
            Frame::Text(Err(_)) => SessionStep::Ignore(Ignored::Unreadable),
            Frame::Binary => SessionStep::Ignore(Ignored::Binary),
            Frame::Control => SessionStep::Ignore(Ignored::Control),
            Frame::Close => {
                self.end = Some(Ok(()));
                SessionStep::End
            },
            Frame::Broken { cause } => {
                self.end = Some(Err(SessionError::Read { cause }));
                SessionStep::End
            },
            Frame::End => {
                self.end = Some(Ok(()));
                SessionStep::End
            },
        }
    }

    /// What the session comes to, once it is over.
    pub fn finish(self) -> (r: Result<(), SessionError>)
        requires
            self@ is Some,
        ensures
            match self@->0 {
                Ok(()) => r is Ok,
                Err(words) => r matches Err(error) && error.text() == words,
            },
    {
        match self.end {
            Some(outcome) => outcome,
            None => Ok(()),
        }
    }
}

/// What the end of the queue to the service comes up with.
#[derive(Debug)]
pub enum WriterEvent {
    /// A message, as the JSON that it is written as or the message of the error that writing it
    /// as JSON gave.
    Message(Result<String, String>),
    /// The queue is empty, and nobody is left who could add to it.
    Drained,
    /// What was to be written could not be.
    WriteFailed { cause: String },
}

/// What is to be done at the end of the queue to the service.
#[derive(Debug)]
pub enum WriterStep {
    /// Write a text frame and take the next message.
    Write(String),
    /// Take the next message.
    Skip,
    /// Write a close frame and stop.
    Close,
    /// Stop: the connection is gone.
    Stop { cause: String },
}

/// What is to be done about an event at the end of the queue to the service.
pub open spec fn writer_stepped(event: WriterEvent) -> WriterStep {
    match event {
        WriterEvent::Message(Ok(text)) => WriterStep::Write(text),
        WriterEvent::Message(Err(_)) => WriterStep::Skip,
        WriterEvent::Drained => WriterStep::Close,
        WriterEvent::WriteFailed { cause } => WriterStep::Stop { cause },
    }
}

/// What is to be done about an event at the end of the queue to the service.
pub fn writer_step(event: WriterEvent) -> (step: WriterStep)
    ensures
        step == writer_stepped(event),
        step == match event {
            WriterEvent::Message(Ok(text)) => WriterStep::Write(text),
            WriterEvent::Message(Err(_)) => WriterStep::Skip,
            WriterEvent::Drained => WriterStep::Close,
            WriterEvent::WriteFailed { cause } => WriterStep::Stop { cause },
        },
{
    match event {
        WriterEvent::Message(Ok(text)) => WriterStep::Write(text),
        WriterEvent::Message(Err(_)) => WriterStep::Skip,
        WriterEvent::Drained => WriterStep::Close,
        WriterEvent::WriteFailed { cause } => WriterStep::Stop { cause },
    }
}

/// Whether a frame is the last of its connection.
pub open spec fn ends(frame: FrameView) -> bool {
    frame is Close || frame is Broken || frame is End
}

/// The state that a session takes in the course of `frames`.
pub open spec fn state_after(frames: Seq<FrameView>) -> SessionView
    decreases frames.len(),
{
    if frames.len() == 0 {
        None
    } else {
        match framed(frames[0]).0 {
            Some(outcome) => Some(outcome),
            None => state_after(frames.skip(1)),
        }
    }
}

/// The handlers that a session starts in the course of `frames`, in order, each with its first
/// action: those of the steps that it gives out.
pub open spec fn started(frames: Seq<FrameView>) -> Seq<(HandlerView, HandlerActionView)>
    decreases frames.len(),
{
    if frames.len() == 0 {
        seq![]
    } else {
        let (state, step) = framed(frames[0]);
        let now = match step {
            SessionStepView::Start(handler, action) => seq![(handler, action)],
            _ => seq![],
        };
        if state is Some {
            now
        } else {
            now + started(frames.skip(1))
        }
    }
}

/// The handlers that `inbounds` ask for, in order, each with its first action.
pub open spec fn handlers_for(inbounds: Seq<InboundView>) -> Seq<(HandlerView, HandlerActionView)> {
    inbounds.map_values(|inbound: InboundView| dispatched(inbound))
}

/// The requests that `frames` spell, in order.
pub open spec fn requests(frames: Seq<FrameView>) -> Seq<InboundView>
    decreases frames.len(),
{
    if frames.len() == 0 {
        seq![]
    } else {
        match frames[0] {
            FrameView::Text(Ok(inbound)) => seq![inbound] + requests(frames.skip(1)),
            _ => requests(frames.skip(1)),
        }
    }
}

/// A session stays open, and starts on every request that arrives, until the connection ends.
/// Neither a frame that it cannot read nor a request that fails closes it.
pub proof fn an_open_connection_keeps_serving(frames: Seq<FrameView>)
    requires
        forall|i: int| 0 <= i < frames.len() ==> !ends(#[trigger] frames[i]),
    ensures
        state_after(frames) is None,
        started(frames) == handlers_for(requests(frames)),
    decreases frames.len(),
{
    lemma_handlers_for(frames);
    if frames.len() > 0 {
        let rest = frames.skip(1);
        assert(!ends(frames[0]));
        assert forall|i: int| 0 <= i < rest.len() implies !ends(#[trigger] rest[i]) by {
            assert(rest[i] == frames[i + 1]);
        }
        an_open_connection_keeps_serving(rest);
        assert(started(frames) =~= handlers_for(requests(frames)));
    } else {
        assert(started(frames) =~= handlers_for(requests(frames)));
    }
}

proof fn lemma_handlers_for(frames: Seq<FrameView>)
    ensures
        frames.len() > 0 ==> handlers_for(requests(frames)) == match frames[0] {
            FrameView::Text(Ok(inbound)) => seq![dispatched(inbound)] + handlers_for(
                requests(frames.skip(1)),
            ),
            _ => handlers_for(requests(frames.skip(1))),
        },
{
    if frames.len() > 0 {
        if let FrameView::Text(Ok(inbound)) = frames[0] {
            assert(handlers_for(requests(frames)) =~= seq![dispatched(inbound)] + handlers_for(
                requests(frames.skip(1)),
            ));
        }
    }
}

/// When the connection ends, the session is over with what the last frame says, and nothing that
/// arrives behind it is looked at.
pub proof fn the_last_frame_ends_the_session(
    before: Seq<FrameView>,
    last: FrameView,
    behind: Seq<FrameView>,
)
    requires
        forall|i: int| 0 <= i < before.len() ==> !ends(#[trigger] before[i]),
        ends(last),
    ensures
        state_after(before.push(last) + behind) == framed(last).0,
        state_after(before.push(last) + behind) is Some,
        started(before.push(last) + behind) == handlers_for(requests(before)),
    decreases before.len(),
{
    let frames = before.push(last) + behind;
    lemma_handlers_for(before);
    if before.len() == 0 {
        assert(frames[0] == last);
        assert(started(frames) =~= handlers_for(requests(before)));
    } else {
        let rest = before.skip(1);
        assert(frames[0] == before[0]);
        assert(frames.skip(1) =~= rest.push(last) + behind);
        assert(!ends(before[0]));
        assert forall|i: int| 0 <= i < rest.len() implies !ends(#[trigger] rest[i]) by {
            assert(rest[i] == before[i + 1]);
        }
        the_last_frame_ends_the_session(rest, last, behind);
        assert(started(frames) =~= handlers_for(requests(before)));
    }
}

/// Every frame that spells a request, of either kind, starts a handler for that request, and only
/// such a frame does. A frame is let pass exactly if it spells none, holds bytes or concerns the
/// connection, and the session goes on. It ends exactly with a close, a break or the end of the
/// connection, and fails exactly with a break.
pub proof fn every_request_is_started(frame: Frame, state: SessionView, step: SessionStep)
    requires
        (state, step@) == framed(frame@),
    ensures
        step is Start <==> frame matches Frame::Text(Ok(_)),
        frame matches Frame::Text(Ok(inbound)) ==> {
            &&& step matches SessionStep::Start(handler, action)
            &&& (handler@, action@) == dispatched(inbound@)
            &&& inbound is Generate ==> action is OpenChat
            &&& inbound is ListModels ==> action is ListModels
            &&& handler@.request_id == match inbound {
                Inbound::Generate { request_id, .. } => request_id@,
                Inbound::ListModels { request_id } => request_id@,
            }
        },
        step is Ignore <==> frame is Binary || frame is Control || frame matches Frame::Text(
            Err(_),
        ),
        step is End <==> frame is Close || frame is Broken || frame is End,
        state is Some <==> step is End,
        frame is Close || frame is End ==> state == Some(Ok::<(), Seq<char>>(())),
        frame matches Frame::Broken { cause } ==> state == Some(
            Err::<(), Seq<char>>("websocket read: "@ + cause@),
        ),
        step matches SessionStep::Ignore(reason) ==> {
            &&& frame is Binary ==> reason == Ignored::Binary
            &&& frame is Control ==> reason == Ignored::Control
            &&& frame is Text ==> reason == Ignored::Unreadable
        },
{
}

/// As long as the session is open, it waits for the next frame, and for its handlers too where
/// there are any.
pub proof fn an_open_session_listens(under_way: nat)
    ensures
        awaited(None, under_way) == SessionWait::HandlersThenFrame <==> under_way > 0,
        awaited(None, under_way) == SessionWait::Frame <==> under_way == 0,
{
}

/// The greeting tells the service which client this is, and the version.
pub proof fn the_greeting_names_the_client(client_id: Seq<char>)
    ensures
        greeting(client_id) matches OutboundView::Hello { client_id: told, version } && told
            == client_id && version == "0.1.0"@,
{
}

/// The words of an error, from what it is made of: they name what was done, and end with the cause.
pub proof fn session_errors_say_what_went_wrong(e: SessionError)
    ensures
        match e {
            SessionError::Request { cause } => e.text() == "building ws upgrade request: "@
                + cause@,
            SessionError::AuthHeader { cause } => e.text()
                == "invalid Authorization header value: "@ + cause@,
            SessionError::Connect { cause } => e.text() == "websocket connect: "@ + cause@,
            SessionError::Hello { cause } => e.text() == "sending hello message: "@ + cause@,
            SessionError::Read { cause } => e.text() == "websocket read: "@ + cause@,
        },
{
}

/// The connection is asked for at the configured URL, with the configured header or none; and that
/// it cannot be asked for is for a URL without a request or a header with control characters only.
pub proof fn the_connection_is_asked_for_as_configured(
    url: Seq<char>,
    header: Option<Seq<char>>,
)
    ensures
        upgrade_for(url, header) matches Ok((to, with)) ==> to == url && with == header,
        upgrade_for(url, header) is Ok <==> upgrade_check(url) is Ok && (header is None || forall|
            i: int,
        |
            0 <= i < header->0.len() ==> {
                ||| #[trigger] header->0[i] == '\t'
                ||| header->0[i] >= ' ' && header->0[i] != '\u{7f}'
            }),
{
}

/// Every message that could be put into JSON is written as it is, one that could not be is skipped,
/// the connection is closed exactly when the queue is drained, and writing stops exactly when it
/// fails.
pub proof fn every_message_is_written(event: WriterEvent)
    ensures
        match event {
            WriterEvent::Message(Ok(text)) => writer_stepped(event) matches WriterStep::Write(
                written,
            ) && written == text,
            WriterEvent::Message(Err(_)) => writer_stepped(event) is Skip,
            WriterEvent::Drained => writer_stepped(event) is Close,
            WriterEvent::WriteFailed { cause } => writer_stepped(event) matches WriterStep::Stop {
                cause: told,
            } && told == cause,
        },
{
}

/// A session closes the connection only when it is over and every answer has been handed over.
pub proof fn answers_are_given_before_the_close(state: SessionView, under_way: nat)
    ensures
        awaited(state, under_way) == SessionWait::Close <==> state is Some && under_way == 0,
        state is Some && under_way > 0 ==> awaited(state, under_way) == SessionWait::Handlers,
{
}

/// Everything that is handed over in a session: the greeting, and then what its handlers have to
/// say, in whatever order they say it.
pub open spec fn transcript(client_id: Seq<char>, log: Seq<(int, OutboundView)>) -> Seq<
    OutboundView,
> {
    seq![greeting(client_id)] + log.map_values(|entry: (int, OutboundView)| entry.1)
}

/// The greeting comes first and only once: nothing that a handler says is one.
pub proof fn the_greeting_comes_first_and_once(
    client_id: Seq<char>,
    frames: Seq<FrameView>,
    events: Seq<Seq<HandlerEventView>>,
    log: Seq<(int, OutboundView)>,
)
    requires
        events.len() == started(frames).len(),
        forall|i: int| 0 <= i < log.len() ==> 0 <= (#[trigger] log[i]).0 < started(frames).len(),
        forall|k: int|
            0 <= k < started(frames).len() ==> #[trigger] from_handler(log, k) == answers(
                started(frames)[k].0,
                events[k],
            ),
    ensures
        transcript(client_id, log)[0] == greeting(client_id),
        forall|i: int|
            0 < i < transcript(client_id, log).len() ==> !((#[trigger] transcript(
                client_id,
                log,
            )[i]) is Hello),
{
    let all = transcript(client_id, log);
    assert forall|i: int| 0 < i < all.len() implies !((#[trigger] all[i]) is Hello) by {
        let entry = log[i - 1];
        let k = entry.0;
        assert(all[i] == entry.1);
        lemma_from_handler_contains(log, i - 1);
        lemma_answers_carry_the_id(started(frames)[k].0, events[k]);
        let said = answers(started(frames)[k].0, events[k]);
        assert(from_handler(log, k) == said);
        let j = choose|j: int| 0 <= j < said.len() && said[j] == entry.1;
        assert(said[j].request_id() is Some);
    }
}

} // verus!
