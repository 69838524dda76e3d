//! The data types of the wire protocol: what a request carries and what
//! one decoded stream event holds, together with their spec-level views.

use vstd::prelude::*;

verus! {

/// One chat message of a request body.
#[derive(Debug, Clone)]
pub struct Message<'a> {
    pub role: &'a str,
    pub content: &'a str,
}

/// A chat-completion request body.
pub struct OpenRouterRequest<'a> {
    pub model: &'a str,
    pub messages: Vec<Message<'a>>,
    pub stream: Option<bool>,
}

/// Token accounting for one model invocation. `completion_tokens` may be
/// missing from a record; the two other counts are required by the wire
/// shape.
#[derive(Debug, Clone, Copy)]
pub struct UsageInfo {
    pub prompt_tokens: u32,
    pub completion_tokens: Option<u32>,
    pub total_tokens: u32,
}

/// A provider-embedded error object carried inside an otherwise
/// well-formed stream record.
#[derive(Debug, Clone)]
pub struct OpenRouterError {
    pub message: String,
}

/// One decoded stream record: the choices it carries, an optional usage
/// report, and an optional embedded provider error.
#[derive(Debug, Clone)]
pub struct OpenRouterStreamResponse {
    pub choices: Vec<OpenRouterStreamChoice>,
    pub usage: Option<UsageInfo>,
    pub error: Option<OpenRouterError>,
}

/// One choice entry of a stream record.
#[derive(Debug, Clone)]
pub struct OpenRouterStreamChoice {
    pub index: u32,
    pub delta: OpenRouterStreamDelta,
    pub finish_reason: Option<String>,
}

/// The incremental part of a choice: a fragment of content, when one is
/// present.
#[derive(Debug, Clone)]
pub struct OpenRouterStreamDelta {
    pub content: Option<String>,
}

/// A search request body.
pub struct ExaSearchRequest<'a> {
    pub query: &'a str,
    pub num_results: usize,
    pub use_autoprompt: bool,
    pub text: bool,
}

/// A request body asking for the full contents of earlier results.
pub struct ExaContentsRequest<'a> {
    pub ids: Vec<&'a str>,
}

/// One entry of a contents response.
#[derive(Debug, Clone)]
pub struct ExaContentResult {
    pub id: String,
    pub text: String,
}

/// A contents response.
#[derive(Debug)]
pub struct ExaContentsResponse {
    pub results: Vec<ExaContentResult>,
}

/// Spec view of [`OpenRouterStreamDelta`].
pub struct StreamDeltaView {
    pub content: Option<Seq<char>>,
}

/// Spec view of [`OpenRouterStreamChoice`].
pub struct StreamChoiceView {
    pub index: u32,
    pub delta: StreamDeltaView,
    pub finish_reason: Option<Seq<char>>,
}

/// Spec view of [`OpenRouterStreamResponse`].
pub struct StreamResponseView {
    pub choices: Seq<StreamChoiceView>,
    pub usage: Option<UsageInfo>,
    pub error: Option<Seq<char>>,
}

impl View for OpenRouterStreamDelta {
    type V = StreamDeltaView;

    open spec fn view(&self) -> StreamDeltaView {
        StreamDeltaView {
            content: match self.content {
                Some(s) => Some(s@),
                None => None,
            },
        }
    }
}

impl View for OpenRouterStreamChoice {
    type V = StreamChoiceView;

    open spec fn view(&self) -> StreamChoiceView {
        StreamChoiceView {
            index: self.index,
            delta: self.delta@,
            finish_reason: match self.finish_reason {
                Some(s) => Some(s@),
                None => None,
            },
        }
    }
}

impl View for OpenRouterStreamResponse {
    type V = StreamResponseView;

    open spec fn view(&self) -> StreamResponseView {
        StreamResponseView {
            choices: self.choices@.map_values(|c: OpenRouterStreamChoice| c@),
            usage: self.usage,
            error: match self.error {
                Some(e) => Some(e.message@),
                None => None,
            },
        }
    }
}

} // verus!
