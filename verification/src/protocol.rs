//! Messages that travel over the WebSocket, and the texts and numbers that they stand for.
//!
//! On the wire a message is a JSON object that a `type` field tags. A `request_id` ties each
//! answer to the request it belongs to.

use vstd::prelude::*;

verus! {

/// A JSON value. The library hands it on and never looks inside.
#[verifier::external_type_specification]
#[verifier::external_body]
pub struct ExValue(serde_json::Value);

/// One message of a chat history.
#[derive(Debug, Clone, PartialEq)]
pub struct ChatMessage {
    pub role: String,
    pub content: String,
}

/// What the service asks of the connector.
#[derive(Debug, Clone, PartialEq)]
pub enum Inbound {
    Generate {
        request_id: String,
        model: String,
        messages: Vec<ChatMessage>,
        options: Option<serde_json::Value>,
    },
    ListModels { request_id: String },
}

/// What the connector tells the service.
#[derive(Debug, Clone, PartialEq)]
pub enum Outbound {
    Hello { client_id: String, version: String },
    Token { request_id: String, content: String },
    Done { request_id: String, stats: Option<Stats> },
    Models { request_id: String, models: Vec<ModelInfo> },
    Error { request_id: String, message: String },
}

/// Timing of a finished generation.
#[derive(Debug, Clone, Copy, PartialEq, Default)]
pub struct Stats {
    pub total_duration_ns: Option<u64>,
    pub eval_count: Option<u64>,
}

/// An installed model.
#[derive(Debug, Clone, PartialEq)]
pub struct ModelInfo {
    pub name: String,
    pub size: Option<u64>,
    pub modified_at: Option<String>,
}

/// The contents of a [`ChatMessage`].
#[verifier::ext_equal]
pub struct ChatMessageView {
    pub role: Seq<char>,
    pub content: Seq<char>,
}

/// The contents of a [`ModelInfo`].
#[verifier::ext_equal]
pub struct ModelInfoView {
    pub name: Seq<char>,
    pub size: Option<u64>,
    pub modified_at: Option<Seq<char>>,
}

/// The contents of an [`Inbound`].
#[verifier::ext_equal]
pub enum InboundView {
    Generate {
        request_id: Seq<char>,
        model: Seq<char>,
        messages: Seq<ChatMessageView>,
        options: Option<serde_json::Value>,
    },
    ListModels { request_id: Seq<char> },
}

/// The contents of an [`Outbound`].
#[verifier::ext_equal]
pub enum OutboundView {
    Hello { client_id: Seq<char>, version: Seq<char> },
    Token { request_id: Seq<char>, content: Seq<char> },
    Done { request_id: Seq<char>, stats: Option<Stats> },
    Models { request_id: Seq<char>, models: Seq<ModelInfoView> },
    Error { request_id: Seq<char>, message: Seq<char> },
}

impl View for ChatMessage {
    type V = ChatMessageView;

    open spec fn view(&self) -> ChatMessageView {
        ChatMessageView { role: self.role@, content: self.content@ }
    }
}

impl View for ModelInfo {
    type V = ModelInfoView;

    open spec fn view(&self) -> ModelInfoView {
        ModelInfoView {
            name: self.name@,
            size: self.size,
            modified_at: self.modified_at.deep_view(),
        }
    }
}

/// The contents of the messages of a history, in order.
pub open spec fn history(messages: Seq<ChatMessage>) -> Seq<ChatMessageView> {
    messages.map_values(|m: ChatMessage| m@)
}

/// The contents of the entries of a list of models, in order.
pub open spec fn model_list(models: Seq<ModelInfo>) -> Seq<ModelInfoView> {
    models.map_values(|m: ModelInfo| m@)
}

impl View for Inbound {
    type V = InboundView;

    open spec fn view(&self) -> InboundView {
        match self {
            Inbound::Generate { request_id, model, messages, options } => InboundView::Generate {
                request_id: request_id@,
                model: model@,
                messages: history(messages@),
                options: *options,
            },
            Inbound::ListModels { request_id } => InboundView::ListModels {
                request_id: request_id@,
            },
        }
    }
}

impl View for Outbound {
    type V = OutboundView;

    open spec fn view(&self) -> OutboundView {
        match self {
            Outbound::Hello { client_id, version } => OutboundView::Hello {
                client_id: client_id@,
                version: version@,
            },
            Outbound::Token { request_id, content } => OutboundView::Token {
                request_id: request_id@,
                content: content@,
            },
            Outbound::Done { request_id, stats } => OutboundView::Done {
                request_id: request_id@,
                stats: *stats,
            },
            Outbound::Models { request_id, models } => OutboundView::Models {
                request_id: request_id@,
                models: model_list(models@),
            },
            Outbound::Error { request_id, message } => OutboundView::Error {
                request_id: request_id@,
                message: message@,
            },
        }
    }
}

impl InboundView {
    /// The identifier that the service chose for this request.
    pub open spec fn request_id(self) -> Seq<char> {
        match self {
            InboundView::Generate { request_id, .. } => request_id,
            InboundView::ListModels { request_id } => request_id,
        }
    }
}

impl OutboundView {
    /// The request that the message answers. A greeting answers none.
    pub open spec fn request_id(self) -> Option<Seq<char>> {
        match self {
            OutboundView::Hello { .. } => None,
            OutboundView::Token { request_id, .. } => Some(request_id),
            OutboundView::Done { request_id, .. } => Some(request_id),
            OutboundView::Models { request_id, .. } => Some(request_id),
            OutboundView::Error { request_id, .. } => Some(request_id),
        }
    }

    /// Whether the message closes the exchange that it belongs to.
    pub open spec fn closes(self) -> bool {
        self is Done || self is Models || self is Error
    }
}

} // verus!
