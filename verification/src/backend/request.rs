//! What every backend can do.
use vstd::prelude::*;

use crate::backend::anthropic::AnthropicBackend;
use crate::backend::anthropic_compat::{
    anthropic_request, built_request, AnthropicCompatBackend,
};
use crate::backend::error::{Error, ErrorView};
use crate::backend::ollama::{ollama_request, OllamaBackend};
use crate::backend::openai_compat::{openai_request, OpenAiCompatBackend};
use crate::backend::opencode_go::{OpenCodeGoBackend, ProtocolBackend, ProtocolView};
use crate::backend::wire::{HttpRequest, HttpView};
use crate::backend::zai::ZaiBackend;
use crate::types::{messages_view, Message, MessageView, RequestConfig, RequestView};

verus! {

/// A language model that can be asked over HTTP.
pub trait LlmBackend {
    /// The request by which a conversation is sent, or what is wrong with it.
    spec fn request(&self, messages: Seq<MessageView>, config: RequestView) -> Result<
        HttpView,
        ErrorView,
    >;

    /// The request by which a conversation is sent.
    fn request_for(&self, messages: &[Message], config: &RequestConfig) -> (r: Result<
        HttpRequest,
        Error,
    >)
        ensures
            built_request(r) == self.request(messages_view(messages@), config@),
    ;
}

impl LlmBackend for AnthropicCompatBackend {
    open spec fn request(&self, messages: Seq<MessageView>, config: RequestView) -> Result<
        HttpView,
        ErrorView,
    > {
        anthropic_request(self.config@, messages, config)
    }

    fn request_for(&self, messages: &[Message], config: &RequestConfig) -> (r: Result<
        HttpRequest,
        Error,
    >) {
        self.prepare(messages, config)
    }
}

impl LlmBackend for OpenAiCompatBackend {
    open spec fn request(&self, messages: Seq<MessageView>, config: RequestView) -> Result<
        HttpView,
        ErrorView,
    > {
        openai_request(self@, messages, config)
    }

    fn request_for(&self, messages: &[Message], config: &RequestConfig) -> (r: Result<
        HttpRequest,
        Error,
    >) {
        self.prepare(messages, config)
    }
}

impl LlmBackend for OllamaBackend {
    open spec fn request(&self, messages: Seq<MessageView>, config: RequestView) -> Result<
        HttpView,
        ErrorView,
    > {
        Ok(ollama_request(self.endpoint@, self.api_key@, messages, config))
    }

    fn request_for(&self, messages: &[Message], config: &RequestConfig) -> (r: Result<
        HttpRequest,
        Error,
    >) {
        Ok(self.prepare(messages, config))
    }
}

impl LlmBackend for AnthropicBackend {
    open spec fn request(&self, messages: Seq<MessageView>, config: RequestView) -> Result<
        HttpView,
        ErrorView,
    > {
        anthropic_request(self.0.config@, messages, config)
    }

    fn request_for(&self, messages: &[Message], config: &RequestConfig) -> (r: Result<
        HttpRequest,
        Error,
    >) {
        self.0.prepare(messages, config)
    }
}

impl LlmBackend for ZaiBackend {
    open spec fn request(&self, messages: Seq<MessageView>, config: RequestView) -> Result<
        HttpView,
        ErrorView,
    > {
        openai_request(self.0@, messages, config)
    }

    fn request_for(&self, messages: &[Message], config: &RequestConfig) -> (r: Result<
        HttpRequest,
        Error,
    >) {
        self.0.prepare(messages, config)
    }
}

/// The request that a backend of one protocol or of the other sends.
pub open spec fn protocol_request(
    backend: ProtocolView,
    messages: Seq<MessageView>,
    config: RequestView,
) -> Result<HttpView, ErrorView> {
    match backend {
        ProtocolView::OpenAi(b) => openai_request(b, messages, config),
        ProtocolView::Anthropic(b) => anthropic_request(b, messages, config),
    }
}

impl LlmBackend for OpenCodeGoBackend {
    open spec fn request(&self, messages: Seq<MessageView>, config: RequestView) -> Result<
        HttpView,
        ErrorView,
    > {
        protocol_request(self.backend@, messages, config)
    }

    fn request_for(&self, messages: &[Message], config: &RequestConfig) -> (r: Result<
        HttpRequest,
        Error,
    >) {
        match &self.backend {
            ProtocolBackend::OpenAi(b) => b.prepare(messages, config),
            ProtocolBackend::Anthropic(b) => b.prepare(messages, config),
        }
    }
}

} // verus!
