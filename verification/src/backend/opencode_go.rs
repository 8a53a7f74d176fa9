//! OpenCode Go.
use vstd::prelude::*;

use crate::backend::anthropic_compat::{
    AnthropicCompatBackend, AnthropicCompatConfig, AnthropicConfigView, AuthStyle,
};
use crate::backend::error::{said, Error, ErrorView};
use crate::backend::openai_compat::{
    openai_backend, reasoning_style, style_of, OpenAiCompatBackend, OpenAiCompatConfig,
    OpenAiConfigView, OpenAiView,
};
use crate::config::{first_shared, protocol_of, OpenCodeGoConfig, Protocol};
use crate::text::{ends_with_text, holds_at, texts, trim_end_slashes, without_end_slashes};

verus! {

/// A backend of one protocol or of the other.
#[derive(Debug, PartialEq, Eq)]
pub enum ProtocolBackend {
    OpenAi(OpenAiCompatBackend),
    Anthropic(AnthropicCompatBackend),
}

/// What a [`ProtocolBackend`] says.
#[verifier::ext_equal]
pub enum ProtocolView {
    OpenAi(OpenAiView),
    Anthropic(AnthropicConfigView),
}

impl ProtocolBackend {
    pub open spec fn view(self) -> ProtocolView {
        match self {
            ProtocolBackend::OpenAi(b) => ProtocolView::OpenAi(b@),
            ProtocolBackend::Anthropic(b) => ProtocolView::Anthropic(b.config@),
        }
    }
}

/// OpenCode Go: which protocol is spoken depends on the model.
#[derive(Debug, PartialEq, Eq)]
pub struct OpenCodeGoBackend {
    pub backend: ProtocolBackend,
}

/// The backend that a configuration describes for a model: the key may not be empty, slashes at
/// the end of the URL do not matter, the path may not be in it, and no model may be listed for
/// both protocols. The list with the model in it decides.
pub open spec fn opencode_go_backend(config: OpenCodeGoConfig, model: Seq<char>) -> Result<
    ProtocolView,
    ErrorView,
> {
    let base = without_end_slashes(config.base_url@);
    let openai_models = texts(config.openai_models@);
    let anthropic_models = texts(config.anthropic_models@);
    if config.api_key@.len() == 0 {
        Err(said("API key cannot be empty for opencode_go backend"@))
    } else if holds_at(base, "/chat/completions"@, base.len() - "/chat/completions"@.len()) {
        Err(
            said(
                "base_url must not include '/chat/completions' — provide the base URL only (e.g. 'https://opencode.ai/zen/go/v1') and the backend will append the path automatically."@,
            ),
        )
    } else {
        match first_shared(openai_models, anthropic_models) {
            Some(duplicate) => Err(
                said(
                    "Model '"@ + duplicate
                        + "' appears in both openai_models and anthropic_models"@,
                ),
            ),
            None => match protocol_of(openai_models, anthropic_models, model) {
                Err(e) => Err(e),
                Ok(Protocol::Anthropic) => Ok(
                    ProtocolView::Anthropic(
                        AnthropicConfigView {
                            endpoint: base + "/messages"@,
                            auth_token: Some(config.api_key@),
                            auth_style: AuthStyle::XApiKey,
                            anthropic_version: "2023-06-01"@,
                            include_model_in_body: true,
                            anthropic_beta: Some("interleaved-thinking-2025-05-14"@),
                            max_tokens_override: config.max_tokens,
                        },
                    ),
                ),
                Ok(Protocol::OpenAi) => match openai_backend(
                    OpenAiConfigView {
                        base_url: base,
                        api_key: Some(config.api_key@),
                        max_tokens: config.max_tokens,
                        reasoning: style_of(config.reasoning),
                    },
                ) {
                    Ok(b) => Ok(ProtocolView::OpenAi(b)),
                    Err(e) => Err(e),
                },
            },
        }
    }
}

/// What was built, or what went wrong.
pub open spec fn built_opencode_go(r: Result<OpenCodeGoBackend, Error>) -> Result<
    ProtocolView,
    ErrorView,
> {
    match r {
        Ok(b) => Ok(b.backend@),
        Err(e) => Err(e@),
    }
}

impl OpenCodeGoBackend {
    /// The backend that a configuration describes for a model.
    pub fn new(config: &OpenCodeGoConfig, resolved_model: String) -> (r: Result<
        OpenCodeGoBackend,
        Error,
    >)
        ensures
            built_opencode_go(r) == opencode_go_backend(*config, resolved_model@),
    {
        if config.api_key.as_str().is_empty() {
            return Err(Error::msg("API key cannot be empty for opencode_go backend"));
        }
        let base = trim_end_slashes(config.base_url.as_str());
        if ends_with_text(base, "/chat/completions") {
            return Err(
                Error::msg(
                    "base_url must not include '/chat/completions' — provide the base URL only (e.g. 'https://opencode.ai/zen/go/v1') and the backend will append the path automatically.",
                ),
            );
        }
        match config.find_duplicate_model() {
            Some(duplicate) => {
                let mut words = "Model '".to_owned();
                words.append(duplicate);
                words.append("' appears in both openai_models and anthropic_models");
                return Err(Error::msg(words.as_str()));
            },
            None => {},
        }
        match config.protocol_for(resolved_model.as_str()) {
            Err(e) => Err(e),
            Ok(Protocol::Anthropic) => {
                let mut endpoint = base.to_owned();
                endpoint.append("/messages");
                let compat = AnthropicCompatConfig {
                    endpoint,
                    auth_token: Some(config.api_key.clone()),
                    auth_style: AuthStyle::XApiKey,
                    anthropic_version: "2023-06-01".to_owned(),
                    include_model_in_body: true,
                    anthropic_beta: Some("interleaved-thinking-2025-05-14".to_owned()),
                    max_tokens_override: config.max_tokens,
                };
                Ok(
                    OpenCodeGoBackend {
                        backend: ProtocolBackend::Anthropic(AnthropicCompatBackend::new(compat)),
                    },
                )
            },
            Ok(Protocol::OpenAi) => {
                let compat = OpenAiCompatConfig {
                    base_url: base.to_owned(),
                    api_key: Some(config.api_key.clone()),
                    model: String::new(),
                    max_tokens: config.max_tokens,
                    reasoning: reasoning_style(&config.reasoning),
                };
                match OpenAiCompatBackend::new(compat) {
                    Ok(b) => Ok(OpenCodeGoBackend { backend: ProtocolBackend::OpenAi(b) }),
                    Err(e) => Err(e),
                }
            },
        }
    }
}

} // verus!
