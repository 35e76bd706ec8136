//! The answer to one request of the service, as a machine: it says what to do next and is told
//! what came of it.
//!
//! A session runs one handler for each request. Handlers share nothing but the way to the
//! service, so any number of them can be under way at once.

use vstd::prelude::*;

use crate::ollama::{ChatChunk, ChatChunkView, OllamaError};
use crate::protocol::{
    history, model_list, ChatMessage, ChatMessageView, Inbound, InboundView, ModelInfo,
    ModelInfoView, Outbound, OutboundView, Stats,
};

verus! {

/// What a handler waits for.
#[derive(Debug, Clone, Copy, PartialEq, Eq, Structural)]
pub enum Phase {
    /// The chat request is on its way.
    Opening,
    /// The next piece of the chat reply is to come.
    Reading,
    /// A token is on its way to the service.
    Sending,
    /// The request for the models is on its way.
    Listing,
    /// The closing answer is on its way to the service.
    Closing,
    /// Nothing: the request is dealt with.
    Finished,
}

/// What came of an action.
#[derive(Debug)]
pub enum HandlerEvent {
    /// Ollama granted the chat request.
    ChatOpened,
    /// The next piece of the chat reply.
    Chunk(ChatChunk),
    /// The chat reply is complete.
    ChatEnded,
    /// The installed models.
    Models(Vec<ModelInfo>),
    /// The request to Ollama failed, at its start or in the middle of its reply.
    Failed(OllamaError),
    /// The message was handed over.
    Sent,
    /// The message could not be handed over: the connection is gone.
    SendFailed,
}

/// What a handler wants done.
#[derive(Debug)]
pub enum HandlerAction {
    /// Ask Ollama for a chat completion.
    OpenChat {
        model: String,
        messages: Vec<ChatMessage>,
        options: Option<serde_json::Value>,
    },
    /// Ask Ollama for the installed models.
    ListModels,
    /// Wait for the next piece of the chat reply.
    ReadChunk,
    /// Hand a message over to the service.
    Send(Outbound),
    /// Nothing more.
    Stop,
}

/// The contents of a [`HandlerEvent`]. Of a failure only the words count.
#[verifier::ext_equal]
pub enum HandlerEventView {
    ChatOpened,
    Chunk(ChatChunkView),
    ChatEnded,
    Models(Seq<ModelInfoView>),
    Failed(Seq<char>),
    Sent,
    SendFailed,
}

/// The contents of a [`HandlerAction`].
#[verifier::ext_equal]
pub enum HandlerActionView {
    OpenChat {
        model: Seq<char>,
        messages: Seq<ChatMessageView>,
        options: Option<serde_json::Value>,
    },
    ListModels,
    ReadChunk,
    Send(OutboundView),
    Stop,
}

/// The state of a [`Handler`].
#[verifier::ext_equal]
pub struct HandlerView {
    pub request_id: Seq<char>,
    pub phase: Phase,
    pub stats: Option<Stats>,
}

impl View for HandlerEvent {
    type V = HandlerEventView;

    open spec fn view(&self) -> HandlerEventView {
        match self {
            HandlerEvent::ChatOpened => HandlerEventView::ChatOpened,
            HandlerEvent::Chunk(chunk) => HandlerEventView::Chunk(chunk@),
            HandlerEvent::ChatEnded => HandlerEventView::ChatEnded,
            HandlerEvent::Models(models) => HandlerEventView::Models(model_list(models@)),
            HandlerEvent::Failed(error) => HandlerEventView::Failed(error.text()),
            HandlerEvent::Sent => HandlerEventView::Sent,
            HandlerEvent::SendFailed => HandlerEventView::SendFailed,
        }
    }
}

impl View for HandlerAction {
    type V = HandlerActionView;

    open spec fn view(&self) -> HandlerActionView {
        match self {
            HandlerAction::OpenChat { model, messages, options } => HandlerActionView::OpenChat {
                model: model@,
                messages: history(messages@),
                options: *options,
            },
            HandlerAction::ListModels => HandlerActionView::ListModels,
            HandlerAction::ReadChunk => HandlerActionView::ReadChunk,
            HandlerAction::Send(message) => HandlerActionView::Send(message@),
            HandlerAction::Stop => HandlerActionView::Stop,
        }
    }
}

/// Whether `event` can come of what a handler waits for.
pub open spec fn accepts(phase: Phase, event: HandlerEventView) -> bool {
    match phase {
        Phase::Opening => event is ChatOpened || event is Failed,
        Phase::Reading => event is Chunk || event is ChatEnded || event is Failed,
        Phase::Sending => event is Sent || event is SendFailed,
        Phase::Listing => event is Models || event is Failed,
        Phase::Closing => event is Sent || event is SendFailed,
        Phase::Finished => false,
    }
}

/// How a handler starts on a request, and what it wants done first.
pub open spec fn dispatched(inbound: InboundView) -> (HandlerView, HandlerActionView) {
    match inbound {
        InboundView::Generate { request_id, model, messages, options } => (
            HandlerView { request_id, phase: Phase::Opening, stats: None },
            HandlerActionView::OpenChat { model, messages, options },
        ),
        InboundView::ListModels { request_id } => (
            HandlerView { request_id, phase: Phase::Listing, stats: None },
            HandlerActionView::ListModels,
        ),
    }
}

/// The timing to report once `chunk` was read: that of the last piece that says the generation is
/// done.
pub open spec fn stats_after(stats: Option<Stats>, chunk: ChatChunkView) -> Option<Stats> {
    if chunk.done {
        Some(
            Stats {
                total_duration_ns: chunk.total_duration_ns,
                eval_count: chunk.eval_count,
            },
        )
    } else {
        stats
    }
}

/// What a handler does about an event that it accepts.
pub open spec fn stepped(state: HandlerView, event: HandlerEventView) -> (
    HandlerView,
    HandlerActionView,
) {
    let request_id = state.request_id;
    let closing = HandlerView { phase: Phase::Closing, ..state };
    let reading = HandlerView { phase: Phase::Reading, ..state };
    let finished = HandlerView { phase: Phase::Finished, ..state };
    match event {
        HandlerEventView::ChatOpened => (reading, HandlerActionView::ReadChunk),
        HandlerEventView::Chunk(chunk) => {
            let stats = stats_after(state.stats, chunk);
            if chunk.content.len() == 0 {
                (HandlerView { stats, ..reading }, HandlerActionView::ReadChunk)
            } else {
                (
                    HandlerView { phase: Phase::Sending, stats, ..state },
                    HandlerActionView::Send(
                        OutboundView::Token { request_id, content: chunk.content },
                    ),
                )
            }
        },
        HandlerEventView::ChatEnded => (
            closing,
            HandlerActionView::Send(OutboundView::Done { request_id, stats: state.stats }),
        ),
        HandlerEventView::Models(models) => (
            closing,
            HandlerActionView::Send(OutboundView::Models { request_id, models }),
        ),
        HandlerEventView::Failed(message) => (
            closing,
            HandlerActionView::Send(OutboundView::Error { request_id, message }),
        ),
        HandlerEventView::Sent => if state.phase == Phase::Sending {
            (reading, HandlerActionView::ReadChunk)
        } else {
            (finished, HandlerActionView::Stop)
        },
        HandlerEventView::SendFailed => (finished, HandlerActionView::Stop),
    }
}

/// One request of the service, on its way to being answered.
#[derive(Debug)]
pub struct Handler {
    request_id: String,
    phase: Phase,
    stats: Option<Stats>,
}

impl View for Handler {
    type V = HandlerView;

    closed spec fn view(&self) -> HandlerView {
        HandlerView { request_id: self.request_id@, phase: self.phase, stats: self.stats }
    }
}

/// Starts on a request.
pub fn dispatch(inbound: Inbound) -> (r: (Handler, HandlerAction))
    ensures
        (r.0@, r.1@) == dispatched(inbound@),
        inbound matches Inbound::Generate { request_id, model, messages, options } ==> {
            &&& r.0@.request_id == request_id@
            &&& r.0@.phase == Phase::Opening
            &&& r.0@.stats is None
            &&& r.1 == (HandlerAction::OpenChat { model, messages, options })
        },
        inbound matches Inbound::ListModels { request_id } ==> {
            &&& r.0@.request_id == request_id@
            &&& r.0@.phase == Phase::Listing
            &&& r.0@.stats is None
            &&& r.1 is ListModels
        },
{
    match inbound {
        Inbound::Generate { request_id, model, messages, options } => (
            Handler { request_id, phase: Phase::Opening, stats: None },
            HandlerAction::OpenChat { model, messages, options },
        ),
        Inbound::ListModels { request_id } => (
            Handler { request_id, phase: Phase::Listing, stats: None },
            HandlerAction::ListModels,
        ),
    }
}

impl Handler {
    /// Whether `event` can come of what the handler waits for.
    pub fn accepts(&self, event: &HandlerEvent) -> (r: bool)
        ensures
            r == accepts(self@.phase, event@),
    {
        match self.phase {
            Phase::Opening => matches!(event, HandlerEvent::ChatOpened | HandlerEvent::Failed(_)),
            Phase::Reading => matches!(
                event,
                HandlerEvent::Chunk(_) | HandlerEvent::ChatEnded | HandlerEvent::Failed(_)
            ),
            Phase::Sending => matches!(event, HandlerEvent::Sent | HandlerEvent::SendFailed),
            Phase::Listing => matches!(event, HandlerEvent::Models(_) | HandlerEvent::Failed(_)),
            Phase::Closing => matches!(event, HandlerEvent::Sent | HandlerEvent::SendFailed),
            Phase::Finished => false,
        }
    }

    /// Takes note of what came of the last action and says what to do next.
    pub fn step(&mut self, event: HandlerEvent) -> (action: HandlerAction)
        requires
            accepts(old(self)@.phase, event@),
        ensures
            (final(self)@, action@) == stepped(old(self)@, event@),
            final(self)@.request_id == old(self)@.request_id,
            match event {
                HandlerEvent::ChatOpened => action is ReadChunk,
                HandlerEvent::Chunk(chunk) => if chunk.content@.len() == 0 {
                    action is ReadChunk
                } else {
                    &&& action matches HandlerAction::Send(Outbound::Token { request_id, content })
                    &&& request_id@ == old(self)@.request_id
                    &&& content@ == chunk.content@
                },
                HandlerEvent::ChatEnded => {
                    &&& action matches HandlerAction::Send(Outbound::Done { request_id, stats })
                    &&& request_id@ == old(self)@.request_id
                    &&& stats == old(self)@.stats
                },
                HandlerEvent::Models(models) => {
                    &&& action matches HandlerAction::Send(
                        Outbound::Models { request_id, models: sent },
                    )
                    &&& request_id@ == old(self)@.request_id
                    &&& sent == models
                },
                HandlerEvent::Failed(error) => {
                    &&& action matches HandlerAction::Send(Outbound::Error { request_id, message })
                    &&& request_id@ == old(self)@.request_id
                    &&& message@ == error.text()
                },
                HandlerEvent::Sent => if old(self)@.phase == Phase::Sending {
                    action is ReadChunk
                } else {
                    action is Stop
                },
                HandlerEvent::SendFailed => action is Stop,
            },
    {
        match event {
            HandlerEvent::ChatOpened => {
                self.phase = Phase::Reading;
                HandlerAction::ReadChunk
            },
            HandlerEvent::Chunk(chunk) => self.handle_chunk(chunk),
            HandlerEvent::ChatEnded => {
                self.phase = Phase::Closing;
                HandlerAction::Send(
                    Outbound::Done { request_id: self.request_id.clone(), stats: self.stats },
                )
            },
            HandlerEvent::Models(models) => {
                self.phase = Phase::Closing;
                HandlerAction::Send(
                    Outbound::Models { request_id: self.request_id.clone(), models },
                )
            },
            HandlerEvent::Failed(error) => {
                self.phase = Phase::Closing;
                HandlerAction::Send(
                    Outbound::Error {
                        request_id: self.request_id.clone(),
                        message: error.message(),
                    },
                )
            },
            HandlerEvent::Sent => if self.phase == Phase::Sending {
                self.phase = Phase::Reading;
                HandlerAction::ReadChunk
            } else {
                self.phase = Phase::Finished;
                HandlerAction::Stop
            },
            HandlerEvent::SendFailed => {
                self.phase = Phase::Finished;
                HandlerAction::Stop
            },
        }
    }

    /// Passes the text of a piece on, unless it has none, and keeps the timing of a final one.
    fn handle_chunk(&mut self, chunk: ChatChunk) -> (action: HandlerAction)
        requires
            old(self)@.phase == Phase::Reading,
        ensures
            (final(self)@, action@) == stepped(old(self)@, HandlerEventView::Chunk(chunk@)),
    {
        if chunk.done {
            self.stats = Some(
                Stats {
                    total_duration_ns: chunk.total_duration_ns,
                    eval_count: chunk.eval_count,
                },
            );
        }
        if chunk.content.as_str().is_empty() {
            HandlerAction::ReadChunk
        } else {
            self.phase = Phase::Sending;
            HandlerAction::Send(
                Outbound::Token { request_id: self.request_id.clone(), content: chunk.content },
            )
        }
    }
}

/// Whether each of `events` can come of what the handler waits for when it comes.
pub open spec fn accepts_all(state: HandlerView, events: Seq<HandlerEventView>) -> bool
    decreases events.len(),
{
    events.len() > 0 ==> accepts(state.phase, events[0]) && accepts_all(
        stepped(state, events[0]).0,
        events.skip(1),
    )
}

/// Where `events` lead a handler.
pub open spec fn reached(state: HandlerView, events: Seq<HandlerEventView>) -> HandlerView
    decreases events.len(),
{
    if events.len() == 0 {
        state
    } else {
        reached(stepped(state, events[0]).0, events.skip(1))
    }
}

/// The messages that an action hands over: one or none.
pub open spec fn handed_over(action: HandlerActionView) -> Seq<OutboundView> {
    match action {
        HandlerActionView::Send(message) => seq![message],
        _ => seq![],
    }
}

/// The messages that a handler hands over in the course of `events`, in order.
pub open spec fn answers(state: HandlerView, events: Seq<HandlerEventView>) -> Seq<OutboundView>
    decreases events.len(),
{
    if events.len() == 0 {
        seq![]
    } else {
        let (after, action) = stepped(state, events[0]);
        handed_over(action) + answers(after, events.skip(1))
    }
}

/// The messages with which `inbound` is answered when `events` come of it.
pub open spec fn answers_to(inbound: InboundView, events: Seq<HandlerEventView>) -> Seq<
    OutboundView,
> {
    answers(dispatched(inbound).0, events)
}

pub(crate) proof fn lemma_answers_carry_the_id(state: HandlerView, events: Seq<HandlerEventView>)
    ensures
        forall|i: int|
            0 <= i < answers(state, events).len() ==> (#[trigger] answers(
                state,
                events,
            )[i]).request_id() == Some(state.request_id),
    decreases events.len(),
{
    if events.len() > 0 {
        lemma_answers_carry_the_id(stepped(state, events[0]).0, events.skip(1));
    }
}

/// Every answer to a request carries the identifier of that request.
pub proof fn answers_carry_the_request_id(inbound: InboundView, events: Seq<HandlerEventView>)
    ensures
        forall|i: int|
            0 <= i < answers_to(inbound, events).len() ==> (#[trigger] answers_to(
                inbound,
                events,
            )[i]).request_id() == Some(inbound.request_id()),
{
    lemma_answers_carry_the_id(dispatched(inbound).0, events);
}

/// Whether a handler has nothing left to say.
pub open spec fn is_closed(phase: Phase) -> bool {
    phase == Phase::Closing || phase == Phase::Finished
}

proof fn lemma_one_closing_answer(state: HandlerView, events: Seq<HandlerEventView>)
    requires
        accepts_all(state, events),
    ensures
        ({
            let all = answers(state, events);
            &&& is_closed(state.phase) ==> all.len() == 0
            &&& forall|i: int| 0 <= i < all.len() - 1 ==> !(#[trigger] all[i]).closes()
            &&& is_closed(state.phase) ==> is_closed(reached(state, events).phase)
            &&& !is_closed(reached(state, events).phase) && all.len() > 0 ==> !all.last().closes()
            &&& !is_closed(state.phase) && is_closed(reached(state, events).phase)
                && !events.contains(HandlerEventView::SendFailed) ==> all.len() > 0
                && all.last().closes()
        }),
    decreases events.len(),
{
    if events.len() > 0 {
        let (after, action) = stepped(state, events[0]);
        let rest = events.skip(1);
        lemma_one_closing_answer(after, rest);
        let all = answers(state, events);
        let later = answers(after, rest);
        let now = handed_over(action);
        assert(all =~= now + later);
        assert forall|i: int| 0 <= i < all.len() - 1 implies !(#[trigger] all[i]).closes() by {
            if i >= now.len() {
                assert(all[i] == later[i - now.len()]);
            } else if later.len() == 0 {
            } else {
                assert(!is_closed(after.phase));
            }
        }
        if later.len() > 0 {
            assert(all.last() == later.last());
        }
        assert(events.contains(events[0]));
        assert forall|e: HandlerEventView| rest.contains(e) implies events.contains(e) by {
            let i = choose|i: int| 0 <= i < rest.len() && rest[i] == e;
            assert(events[i + 1] == e);
        }
    }
}

/// A request gets at most one answer that closes it, and nothing comes behind that one. A request
/// that is dealt with has got it, unless the connection was gone.
pub proof fn a_request_is_closed_once(inbound: InboundView, events: Seq<HandlerEventView>)
    requires
        accepts_all(dispatched(inbound).0, events),
    ensures
        ({
            let all = answers_to(inbound, events);
            let end = reached(dispatched(inbound).0, events);
            &&& forall|i: int| 0 <= i < all.len() - 1 ==> !(#[trigger] all[i]).closes()
            &&& end.phase == Phase::Finished && !events.contains(HandlerEventView::SendFailed)
                ==> all.len() > 0 && all.last().closes()
        }),
{
    lemma_one_closing_answer(dispatched(inbound).0, events);
}

/// Once a message could not be handed over the handler is finished: nothing follows.
pub proof fn nothing_follows_a_failed_send(
    state: HandlerView,
    events: Seq<HandlerEventView>,
    i: int,
)
    requires
        accepts_all(state, events),
        0 <= i < events.len(),
        events[i] is SendFailed,
    ensures
        i == events.len() - 1,
        reached(state, events).phase == Phase::Finished,
    decreases events.len(),
{
    let after = stepped(state, events[0]).0;
    let rest = events.skip(1);
    if i > 0 {
        assert(rest[i - 1] == events[i]);
        nothing_follows_a_failed_send(after, rest, i - 1);
    } else {
        reveal_with_fuel(accepts_all, 2);
        reveal_with_fuel(reached, 2);
    }
}

/// What a handler is told while it passes on `chunks` to a service that takes every token.
pub open spec fn chunk_events(chunks: Seq<ChatChunkView>) -> Seq<HandlerEventView>
    decreases chunks.len(),
{
    if chunks.len() == 0 {
        seq![]
    } else {
        let first = HandlerEventView::Chunk(chunks[0]);
        let told = if chunks[0].content.len() == 0 {
            seq![first]
        } else {
            seq![first, HandlerEventView::Sent]
        };
        told + chunk_events(chunks.skip(1))
    }
}

/// The tokens that `chunks` are passed on as: one for each that holds text.
pub open spec fn tokens(request_id: Seq<char>, chunks: Seq<ChatChunkView>) -> Seq<OutboundView>
    decreases chunks.len(),
{
    if chunks.len() == 0 {
        seq![]
    } else if chunks[0].content.len() == 0 {
        tokens(request_id, chunks.skip(1))
    } else {
        seq![OutboundView::Token { request_id, content: chunks[0].content }] + tokens(
            request_id,
            chunks.skip(1),
        )
    }
}

/// The timing to report behind `chunks`: that of the last one that says the generation is done.
pub open spec fn final_stats(stats: Option<Stats>, chunks: Seq<ChatChunkView>) -> Option<Stats>
    decreases chunks.len(),
{
    if chunks.len() == 0 {
        stats
    } else {
        final_stats(stats_after(stats, chunks[0]), chunks.skip(1))
    }
}

proof fn lemma_chunks_then(
    state: HandlerView,
    chunks: Seq<ChatChunkView>,
    more: Seq<HandlerEventView>,
)
    requires
        state.phase == Phase::Reading,
    ensures
        ({
            let told = chunk_events(chunks);
            let behind = HandlerView { stats: final_stats(state.stats, chunks), ..state };
            &&& answers(state, told + more) == tokens(state.request_id, chunks) + answers(
                behind,
                more,
            )
            &&& accepts_all(state, told + more) == accepts_all(behind, more)
            &&& reached(state, told + more) == reached(behind, more)
        }),
    decreases chunks.len(),
{
    let told = chunk_events(chunks);
    if chunks.len() == 0 {
        assert(told + more =~= more);
        assert(HandlerView { stats: final_stats(state.stats, chunks), ..state } =~= state);
        assert(tokens(state.request_id, chunks) + answers(state, more) =~= answers(state, more));
    } else {
        let all = told + more;
        let rest = chunks.skip(1);
        let first = HandlerEventView::Chunk(chunks[0]);
        let stats = stats_after(state.stats, chunks[0]);
        let after = HandlerView { stats, ..state };
        lemma_chunks_then(after, rest, more);
        let later = chunk_events(rest) + more;
        assert(all[0] == first);
        if chunks[0].content.len() == 0 {
            assert(all.skip(1) =~= later);
            assert(stepped(state, first).0 =~= after);
            assert(answers(state, all) =~= answers(after, later));
        } else {
            let sending = stepped(state, first).0;
            assert(all.skip(1)[0] is Sent);
            assert(all.skip(1).skip(1) =~= later);
            assert(stepped(sending, HandlerEventView::Sent).0 =~= after);
            let token = OutboundView::Token {
                request_id: state.request_id,
                content: chunks[0].content,
            };
            assert(answers(sending, all.skip(1)) =~= answers(after, later));
            assert(answers(state, all) =~= seq![token] + answers(after, later));
            assert(accepts_all(sending, all.skip(1)) == accepts_all(after, later));
            assert(reached(sending, all.skip(1)) == reached(after, later));
            let behind = HandlerView { stats: final_stats(state.stats, chunks), ..state };
            assert(seq![token] + (tokens(state.request_id, rest) + answers(behind, more))
                =~= (seq![token] + tokens(state.request_id, rest)) + answers(behind, more));
        }
    }
}

/// The events of a chat request that Ollama grants and answers with `chunks`, with `end` behind
/// them.
pub open spec fn chat_events(chunks: Seq<ChatChunkView>, end: HandlerEventView) -> Seq<
    HandlerEventView,
> {
    seq![HandlerEventView::ChatOpened] + (chunk_events(chunks) + seq![end, HandlerEventView::Sent])
}

proof fn lemma_closing_is_sent(state: HandlerView, events: Seq<HandlerEventView>)
    requires
        state.phase == Phase::Closing,
        events == seq![HandlerEventView::Sent],
    ensures
        accepts_all(state, events),
        answers(state, events) == Seq::<OutboundView>::empty(),
        reached(state, events).phase == Phase::Finished,
{
    reveal_with_fuel(accepts_all, 2);
    reveal_with_fuel(answers, 2);
    reveal_with_fuel(reached, 2);
    assert(answers(state, events) =~= seq![]);
}

proof fn lemma_chat(inbound: InboundView, chunks: Seq<ChatChunkView>, end: HandlerEventView)
    requires
        inbound is Generate,
        end is ChatEnded || end is Failed,
    ensures
        ({
            let start = dispatched(inbound).0;
            let events = chat_events(chunks, end);
            let state = HandlerView {
                phase: Phase::Reading,
                stats: final_stats(None, chunks),
                ..start
            };
            &&& accepts_all(start, events)
            &&& answers(start, events) == tokens(start.request_id, chunks) + handed_over(
                stepped(state, end).1,
            )
            &&& reached(start, events).phase == Phase::Finished
        }),
{
    let start = dispatched(inbound).0;
    let reading = HandlerView { phase: Phase::Reading, ..start };
    let events = chat_events(chunks, end);
    let told = chunk_events(chunks);
    let last = seq![end, HandlerEventView::Sent];
    assert(events[0] is ChatOpened);
    assert(events.skip(1) =~= told + last);
    lemma_chunks_then(reading, chunks, last);
    let state = HandlerView { stats: final_stats(None, chunks), ..reading };
    let closing = stepped(state, end).0;
    assert(last.skip(1) =~= seq![HandlerEventView::Sent]);
    lemma_closing_is_sent(closing, last.skip(1));
    assert(answers(state, last) =~= handed_over(stepped(state, end).1));
    assert(answers(start, events) =~= answers(reading, told + last));
}

/// A chat reply that comes to its end reaches the service as its texts, in order, and then one
/// message that says it is done, with the timing of the last piece that gave one.
pub proof fn a_chat_reply_is_passed_on(
    request_id: Seq<char>,
    model: Seq<char>,
    messages: Seq<ChatMessageView>,
    options: Option<serde_json::Value>,
    chunks: Seq<ChatChunkView>,
)
    ensures
        ({
            let inbound = InboundView::Generate { request_id, model, messages, options };
            let events = chat_events(chunks, HandlerEventView::ChatEnded);
            &&& accepts_all(dispatched(inbound).0, events)
            &&& answers_to(inbound, events) == tokens(request_id, chunks).push(
                OutboundView::Done { request_id, stats: final_stats(None, chunks) },
            )
            &&& reached(dispatched(inbound).0, events).phase == Phase::Finished
        }),
{
    let inbound = InboundView::Generate { request_id, model, messages, options };
    lemma_chat(inbound, chunks, HandlerEventView::ChatEnded);
    let done = OutboundView::Done { request_id, stats: final_stats(None, chunks) };
    assert(tokens(request_id, chunks).push(done) =~= tokens(request_id, chunks) + seq![done]);
}

/// A chat reply that breaks off reaches the service as the texts that came before, in order, and
/// then one message that says what went wrong.
pub proof fn a_broken_chat_reply_ends_in_an_error(
    request_id: Seq<char>,
    model: Seq<char>,
    messages: Seq<ChatMessageView>,
    options: Option<serde_json::Value>,
    chunks: Seq<ChatChunkView>,
    message: Seq<char>,
)
    ensures
        ({
            let inbound = InboundView::Generate { request_id, model, messages, options };
            let events = chat_events(chunks, HandlerEventView::Failed(message));
            &&& accepts_all(dispatched(inbound).0, events)
            &&& answers_to(inbound, events) == tokens(request_id, chunks).push(
                OutboundView::Error { request_id, message },
            )
            &&& reached(dispatched(inbound).0, events).phase == Phase::Finished
        }),
{
    let inbound = InboundView::Generate { request_id, model, messages, options };
    lemma_chat(inbound, chunks, HandlerEventView::Failed(message));
    let error = OutboundView::Error { request_id, message };
    assert(tokens(request_id, chunks).push(error) =~= tokens(request_id, chunks) + seq![error]);
}

/// A request of either kind that Ollama cannot serve is answered with one error and nothing else.
pub proof fn a_refused_request_gets_one_error(inbound: InboundView, message: Seq<char>)
    ensures
        ({
            let events = seq![HandlerEventView::Failed(message), HandlerEventView::Sent];
            &&& accepts_all(dispatched(inbound).0, events)
            &&& answers_to(inbound, events) == seq![
                OutboundView::Error { request_id: inbound.request_id(), message },
            ]
            &&& reached(dispatched(inbound).0, events).phase == Phase::Finished
        }),
{
    lemma_two_events(inbound, HandlerEventView::Failed(message));
}

/// A request for the models is answered with the models that Ollama lists and nothing else.
pub proof fn a_model_request_gets_the_models(request_id: Seq<char>, models: Seq<ModelInfoView>)
    ensures
        ({
            let inbound = InboundView::ListModels { request_id };
            let events = seq![HandlerEventView::Models(models), HandlerEventView::Sent];
            &&& accepts_all(dispatched(inbound).0, events)
            &&& answers_to(inbound, events) == seq![OutboundView::Models { request_id, models }]
            &&& reached(dispatched(inbound).0, events).phase == Phase::Finished
        }),
{
    lemma_two_events(InboundView::ListModels { request_id }, HandlerEventView::Models(models));
}

proof fn lemma_two_events(inbound: InboundView, event: HandlerEventView)
    requires
        accepts(dispatched(inbound).0.phase, event),
        event is Failed || event is Models,
    ensures
        ({
            let start = dispatched(inbound).0;
            let events = seq![event, HandlerEventView::Sent];
            &&& accepts_all(start, events)
            &&& answers(start, events) == handed_over(stepped(start, event).1)
            &&& reached(start, events).phase == Phase::Finished
        }),
{
    let start = dispatched(inbound).0;
    let events = seq![event, HandlerEventView::Sent];
    let closing = stepped(start, event).0;
    assert(events.skip(1) =~= seq![HandlerEventView::Sent]);
    lemma_closing_is_sent(closing, events.skip(1));
    assert(answers(start, events) =~= handed_over(stepped(start, event).1));
}

/// The texts of `messages` that are tokens, in a row.
pub open spec fn token_text(messages: Seq<OutboundView>) -> Seq<char>
    decreases messages.len(),
{
    if messages.len() == 0 {
        seq![]
    } else {
        let first = match messages[0] {
            OutboundView::Token { content, .. } => content,
            _ => seq![],
        };
        first + token_text(messages.skip(1))
    }
}

/// The texts of `chunks` in a row.
pub open spec fn chunk_text(chunks: Seq<ChatChunkView>) -> Seq<char>
    decreases chunks.len(),
{
    if chunks.len() == 0 {
        seq![]
    } else {
        chunks[0].content + chunk_text(chunks.skip(1))
    }
}

/// The tokens of a reply put together are the text of the reply: leaving empty pieces out loses
/// nothing.
pub proof fn tokens_spell_the_reply(request_id: Seq<char>, chunks: Seq<ChatChunkView>)
    ensures
        token_text(tokens(request_id, chunks)) == chunk_text(chunks),
    decreases chunks.len(),
{
    if chunks.len() > 0 {
        let rest = chunks.skip(1);
        tokens_spell_the_reply(request_id, rest);
        if chunks[0].content.len() == 0 {
            assert(chunks[0].content + chunk_text(rest) =~= chunk_text(rest));
        } else {
            assert(tokens(request_id, chunks).skip(1) =~= tokens(request_id, rest));
        }
    }
}

/// What the handler with number `n` contributed to what was handed over, in order.
pub open spec fn from_handler(log: Seq<(int, OutboundView)>, n: int) -> Seq<OutboundView>
    decreases log.len(),
{
    if log.len() == 0 {
        seq![]
    } else if log.last().0 == n {
        from_handler(log.drop_last(), n).push(log.last().1)
    } else {
        from_handler(log.drop_last(), n)
    }
}

/// What was handed over in answer to the request `request_id`, in order.
pub open spec fn for_request(log: Seq<(int, OutboundView)>, request_id: Seq<char>) -> Seq<
    OutboundView,
>
    decreases log.len(),
{
    if log.len() == 0 {
        seq![]
    } else if log.last().1.request_id() == Some(request_id) {
        for_request(log.drop_last(), request_id).push(log.last().1)
    } else {
        for_request(log.drop_last(), request_id)
    }
}

/// What was handed over was contributed by the handler that it is put down to.
pub(crate) proof fn lemma_from_handler_contains(log: Seq<(int, OutboundView)>, i: int)
    requires
        0 <= i < log.len(),
    ensures
        from_handler(log, log[i].0).contains(log[i].1),
    decreases log.len(),
{
    let n = log[i].0;
    let before = from_handler(log.drop_last(), n);
    if i == log.len() - 1 {
        assert(before.push(log[i].1).last() == log[i].1);
    } else {
        assert(log.drop_last()[i] == log[i]);
        lemma_from_handler_contains(log.drop_last(), i);
        let j = choose|j: int| 0 <= j < before.len() && before[j] == log[i].1;
        assert(from_handler(log, n)[j] == log[i].1);
    }
}

proof fn lemma_same_selection(
    log: Seq<(int, OutboundView)>,
    inbounds: Seq<InboundView>,
    n: int,
)
    requires
        0 <= n < inbounds.len(),
        forall|a: int, b: int|
            0 <= a < b < inbounds.len() ==> (#[trigger] inbounds[a]).request_id() != (
            #[trigger] inbounds[b]).request_id(),
        forall|i: int|
            0 <= i < log.len() ==> 0 <= (#[trigger] log[i]).0 < inbounds.len()
                && log[i].1.request_id() == Some(inbounds[log[i].0].request_id()),
    ensures
        for_request(log, inbounds[n].request_id()) == from_handler(log, n),
    decreases log.len(),
{
    if log.len() > 0 {
        let before = log.drop_last();
        assert forall|i: int| 0 <= i < before.len() implies 0 <= (#[trigger] before[i]).0
            < inbounds.len() && before[i].1.request_id() == Some(
            inbounds[before[i].0].request_id(),
        ) by {
            assert(before[i] == log[i]);
        }
        lemma_same_selection(before, inbounds, n);
        let last = log[log.len() - 1];
        assert(last == log.last());
        if last.0 < n {
            assert(inbounds[last.0].request_id() != inbounds[n].request_id());
        } else if n < last.0 {
            assert(inbounds[n].request_id() != inbounds[last.0].request_id());
        }
    }
}

/// Requests that are under way at the same time do not get in each other's way: however the
/// messages of their handlers are interleaved, the messages that carry the identifier of a
/// request are just the answers to that request, in order, as long as the identifiers differ.
pub proof fn requests_are_multiplexed(
    inbounds: Seq<InboundView>,
    events: Seq<Seq<HandlerEventView>>,
    log: Seq<(int, OutboundView)>,
    n: int,
)
    requires
        events.len() == inbounds.len(),
        forall|a: int, b: int|
            0 <= a < b < inbounds.len() ==> (#[trigger] inbounds[a]).request_id() != (
            #[trigger] inbounds[b]).request_id(),
        forall|i: int| 0 <= i < log.len() ==> 0 <= (#[trigger] log[i]).0 < inbounds.len(),
        forall|k: int|
            0 <= k < inbounds.len() ==> #[trigger] from_handler(log, k) == answers_to(
                inbounds[k],
                events[k],
            ),
        0 <= n < inbounds.len(),
    ensures
        for_request(log, inbounds[n].request_id()) == answers_to(inbounds[n], events[n]),
{
    assert forall|i: int| 0 <= i < log.len() implies 0 <= (#[trigger] log[i]).0 < inbounds.len()
        && log[i].1.request_id() == Some(inbounds[log[i].0].request_id()) by {
        let k = log[i].0;
        lemma_from_handler_contains(log, i);
        answers_carry_the_request_id(inbounds[k], events[k]);
        let all = answers_to(inbounds[k], events[k]);
        assert(from_handler(log, k) == all);
        let j = choose|j: int| 0 <= j < all.len() && all[j] == log[i].1;
        assert(all[j].request_id() == Some(inbounds[k].request_id()));
    }
    lemma_same_selection(log, inbounds, n);
    assert(from_handler(log, n) == answers_to(inbounds[n], events[n]));
}

/// A handler never idles: what it asks for is what it waits for. It reads on exactly when the next
/// piece is to come, hands a message over exactly when a token or the closing answer is on its way,
/// and stops exactly when the request is dealt with.
pub proof fn a_handler_asks_for_what_it_waits_for(state: HandlerView, event: HandlerEventView)
    requires
        accepts(state.phase, event),
    ensures
        ({
            let (after, action) = stepped(state, event);
            &&& action is ReadChunk <==> after.phase == Phase::Reading
            &&& action is Send <==> after.phase == Phase::Sending || after.phase == Phase::Closing
            &&& action is Stop <==> after.phase == Phase::Finished
            &&& after.phase != Phase::Opening && after.phase != Phase::Listing
            &&& after.request_id == state.request_id
        }),
{
}

/// Whatever can come of the action that a handler asked for is accepted, and nothing else is. Of
/// stopping comes nothing.
pub proof fn what_comes_of_an_action_is_accepted(
    state: HandlerView,
    event: HandlerEventView,
    outcome: HandlerEventView,
)
    requires
        accepts(state.phase, event),
    ensures
        accepts(stepped(state, event).0.phase, outcome) <==> match stepped(state, event).1 {
            HandlerActionView::ReadChunk => outcome is Chunk || outcome is ChatEnded
                || outcome is Failed,
            HandlerActionView::Send(_) => outcome is Sent || outcome is SendFailed,
            _ => false,
        },
{
}

/// Whatever can come of the first action for a request is accepted, and nothing else is: a chat
/// request is granted or fails, and so is a request for the models.
pub proof fn what_comes_of_the_first_action_is_accepted(
    inbound: InboundView,
    outcome: HandlerEventView,
)
    ensures
        inbound is Generate ==> dispatched(inbound).1 is OpenChat,
        inbound is ListModels ==> dispatched(inbound).1 is ListModels,
        accepts(dispatched(inbound).0.phase, outcome) <==> match inbound {
            InboundView::Generate { .. } => outcome is ChatOpened || outcome is Failed,
            InboundView::ListModels { .. } => outcome is Models || outcome is Failed,
        },
{
}

/// A request reaches Ollama as it came: the model, every message of the history in its order, and
/// the options. A request for the models asks for the models.
pub proof fn a_request_is_passed_on_as_it_came(
    inbound: Inbound,
    handler: Handler,
    action: HandlerAction,
)
    requires
        (handler@, action@) == dispatched(inbound@),
    ensures
        handler@.stats is None,
        match inbound {
            Inbound::Generate { request_id, model, messages, options } => {
                &&& handler@.request_id == request_id@
                &&& action matches HandlerAction::OpenChat {
                    model: asked_model,
                    messages: asked,
                    options: asked_options,
                }
                &&& asked_model@ == model@
                &&& asked_options == options
                &&& asked@.len() == messages@.len()
                &&& forall|i: int|
                    0 <= i < messages@.len() ==> (#[trigger] asked@[i]).role@ == messages@[i].role@
                        && asked@[i].content@ == messages@[i].content@
            },
            Inbound::ListModels { request_id } => handler@.request_id == request_id@
                && action is ListModels,
        },
{
    if let Inbound::Generate { request_id, model, messages, options } = inbound {
        if let HandlerAction::OpenChat { model: m, messages: asked, options: o } = action {
            assert(history(asked@) == history(messages@));
            assert(asked@.len() == history(asked@).len());
            assert forall|i: int| 0 <= i < messages@.len() implies (#[trigger] asked@[i]).role@
                == messages@[i].role@ && asked@[i].content@ == messages@[i].content@ by {
                assert(history(asked@)[i] == asked@[i]@);
                assert(history(messages@)[i] == messages@[i]@);
            }
        }
    }
}

/// What a step hands over, in terms of the event itself: the text of a piece character for
/// character, the timing of the last final piece, the models in their order, or the words of an
/// error; always with the identifier of the request.
pub proof fn a_step_hands_over_what_came(
    before: HandlerView,
    event: HandlerEvent,
    after: HandlerView,
    action: HandlerAction,
)
    requires
        accepts(before.phase, event@),
        (after, action@) == stepped(before, event@),
    ensures
        match event {
            HandlerEvent::ChatOpened => action is ReadChunk && after.stats == before.stats,
            HandlerEvent::Chunk(chunk) => {
                &&& chunk.content@.len() == 0 ==> action is ReadChunk
                &&& chunk.content@.len() > 0 ==> {
                    &&& action matches HandlerAction::Send(Outbound::Token { request_id, content })
                    &&& request_id@ == before.request_id
                    &&& content@ == chunk.content@
                }
                &&& chunk.done ==> {
                    &&& after.stats matches Some(stats)
                    &&& stats.total_duration_ns == chunk.total_duration_ns
                    &&& stats.eval_count == chunk.eval_count
                }
                &&& !chunk.done ==> after.stats == before.stats
            },
            HandlerEvent::ChatEnded => {
                &&& action matches HandlerAction::Send(Outbound::Done { request_id, stats })
                &&& request_id@ == before.request_id
                &&& stats == before.stats
            },
            HandlerEvent::Models(models) => {
                &&& action matches HandlerAction::Send(Outbound::Models { request_id, models: sent })
                &&& request_id@ == before.request_id
                &&& sent@.len() == models@.len()
                &&& forall|i: int|
                    0 <= i < models@.len() ==> {
                        &&& (#[trigger] sent@[i]).name@ == models@[i].name@
                        &&& sent@[i].size == models@[i].size
                        &&& sent@[i].modified_at.deep_view() == models@[i].modified_at.deep_view()
                    }
            },
            HandlerEvent::Failed(error) => {
                &&& action matches HandlerAction::Send(Outbound::Error { request_id, message })
                &&& request_id@ == before.request_id
                &&& message@ == error.text()
            },
            HandlerEvent::Sent => after.stats == before.stats && if before.phase == Phase::Sending {
                action is ReadChunk
            } else {
                action is Stop
            },
            HandlerEvent::SendFailed => action is Stop,
        },
{
    if let HandlerEvent::Models(models) = event {
        if let HandlerAction::Send(Outbound::Models { request_id, models: sent }) = action {
            assert(model_list(sent@) == model_list(models@));
            assert(sent@.len() == model_list(sent@).len());
            assert forall|i: int| 0 <= i < models@.len() implies {
                &&& (#[trigger] sent@[i]).name@ == models@[i].name@
                &&& sent@[i].size == models@[i].size
                &&& sent@[i].modified_at.deep_view() == models@[i].modified_at.deep_view()
            } by {
                assert(model_list(sent@)[i] == sent@[i]@);
                assert(model_list(models@)[i] == models@[i]@);
            }
        }
    }
}

/// What was handed over stays: an event adds what its step hands over, behind all that went before.
pub proof fn answers_are_only_added_to(
    state: HandlerView,
    events: Seq<HandlerEventView>,
    event: HandlerEventView,
)
    ensures
        answers(state, events.push(event)) == answers(state, events) + handed_over(
            stepped(reached(state, events), event).1,
        ),
    decreases events.len(),
{
    let all = events.push(event);
    if events.len() == 0 {
        assert(all.skip(1) =~= seq![]);
        reveal_with_fuel(answers, 2);
        assert(answers(state, all) =~= answers(state, events) + handed_over(
            stepped(reached(state, events), event).1,
        ));
    } else {
        let after = stepped(state, events[0]).0;
        assert(all[0] == events[0]);
        assert(all.skip(1) =~= events.skip(1).push(event));
        answers_are_only_added_to(after, events.skip(1), event);
        assert(answers(state, all) =~= answers(state, events) + handed_over(
            stepped(reached(state, events), event).1,
        ));
    }
}

} // verus!
