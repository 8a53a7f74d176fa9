//! Which backend serves a role.
use vstd::prelude::*;

use crate::backend::anthropic::{anthropic_backend, AnthropicBackend};
use crate::backend::anthropic_compat::{
    anthropic_request, built_request, dropped_warnings, replay_warnings, AnthropicConfigView,
};
use crate::backend::defaults::{ANTHROPIC, OLLAMA, OPENAI_COMPAT, OPENCODE_GO, VERTEX, ZAI};
use crate::backend::error::{said, BackendError, BackendErrorView, Error, ErrorView};
use crate::backend::ollama::{ollama_request, other, OllamaBackend};
use crate::backend::openai_compat::{
    openai_backend, openai_request, reasoning_style, style_of, OpenAiCompatBackend,
    OpenAiCompatConfig, OpenAiConfigView, OpenAiView,
};
use crate::backend::opencode_go::{
    opencode_go_backend, OpenCodeGoBackend, ProtocolBackend, ProtocolView,
};
use crate::backend::request::{protocol_request, LlmBackend};
use crate::backend::retrying::RetryingBackend;
use crate::backend::vertex::{vertex_config, VertexBackend};
use crate::backend::wire::{HttpRequest, HttpView};
use crate::backend::zai::{zai_backend, ZaiBackend};
use crate::config::{resolved_role, roles_view, AppConfig, RetryConfig};
use crate::text::{opt_text, same_text, texts};
use crate::types::{messages_view, Message, MessageView, RequestConfig, RequestView};

verus! {

/// Any backend.
#[derive(Debug, PartialEq, Eq)]
pub enum Backend {
    Vertex(VertexBackend),
    Zai(ZaiBackend),
    Ollama(OllamaBackend),
    OpenAiCompat(OpenAiCompatBackend),
    Anthropic(AnthropicBackend),
    OpenCodeGo(OpenCodeGoBackend),
}

/// What a [`Backend`] says.
#[verifier::ext_equal]
pub enum BackendView {
    Vertex { project: Seq<char>, region: Seq<char> },
    Zai(OpenAiView),
    Ollama { endpoint: Seq<char>, api_key: Seq<char> },
    OpenAiCompat(OpenAiView),
    Anthropic(AnthropicConfigView),
    OpenCodeGo(ProtocolView),
}

/// The protocol that a backend speaks.
#[verifier::ext_equal]
pub enum Speaks {
    Anthropic,
    OpenAi { endpoint: Seq<char> },
    Ollama,
}

impl BackendView {
    /// The request by which a conversation is sent. Only Vertex AI needs the access token.
    pub open spec fn request(
        self,
        messages: Seq<MessageView>,
        config: RequestView,
        token: Seq<char>,
    ) -> Result<HttpView, ErrorView> {
        match self {
            BackendView::Vertex { project, region } => anthropic_request(
                vertex_config(project, region, token, config),
                messages,
                config,
            ),
            BackendView::Zai(b) => openai_request(b, messages, config),
            BackendView::Ollama { endpoint, api_key } => Ok(
                ollama_request(endpoint, api_key, messages, config),
            ),
            BackendView::OpenAiCompat(b) => openai_request(b, messages, config),
            BackendView::Anthropic(b) => anthropic_request(b, messages, config),
            BackendView::OpenCodeGo(b) => protocol_request(b, messages, config),
        }
    }

    /// The protocol that the backend speaks.
    pub open spec fn speaks(self) -> Speaks {
        match self {
            BackendView::Vertex { .. } => Speaks::Anthropic,
            BackendView::Anthropic(_) => Speaks::Anthropic,
            BackendView::OpenCodeGo(ProtocolView::Anthropic(_)) => Speaks::Anthropic,
            BackendView::OpenCodeGo(ProtocolView::OpenAi(b)) => Speaks::OpenAi {
                endpoint: b.endpoint,
            },
            BackendView::Zai(b) => Speaks::OpenAi { endpoint: b.endpoint },
            BackendView::OpenAiCompat(b) => Speaks::OpenAi { endpoint: b.endpoint },
            BackendView::Ollama { .. } => Speaks::Ollama,
        }
    }

    /// The error when the backend cannot be reached.
    pub open spec fn unreachable(self, causes: Seq<Seq<char>>) -> ErrorView {
        match self.speaks() {
            Speaks::Anthropic => ErrorView::Backend(
                BackendErrorView::Transport {
                    message: "Failed to send request to "@ + "Anthropic API"@ + ": "@
                        + crate::text::joined(causes, ": "@),
                },
            ),
            Speaks::OpenAi { endpoint } => ErrorView::Chain(
                seq!["Failed to send request to "@ + endpoint] + causes,
            ),
            Speaks::Ollama => ErrorView::Chain(seq!["Failed to send request to Ollama"@] + causes),
        }
    }

    /// The error when the backend answers with a status that is none of success.
    pub open spec fn refused(self, code: u16, status: Seq<char>, body: Seq<char>) -> ErrorView {
        match self.speaks() {
            Speaks::OpenAi { endpoint } => said(
                endpoint + " returned "@ + status + ": "@ + body,
            ),
            _ => ErrorView::Backend(BackendErrorView::HttpStatus { code, body }),
        }
    }
}

impl Backend {
    pub open spec fn view(self) -> BackendView {
        match self {
            Backend::Vertex(b) => BackendView::Vertex { project: b.project@, region: b.region@ },
            Backend::Zai(b) => BackendView::Zai(b.0@),
            Backend::Ollama(b) => BackendView::Ollama { endpoint: b.endpoint@, api_key: b.api_key@ },
            Backend::OpenAiCompat(b) => BackendView::OpenAiCompat(b@),
            Backend::Anthropic(b) => BackendView::Anthropic(b.0.config@),
            Backend::OpenCodeGo(b) => BackendView::OpenCodeGo(b.backend@),
        }
    }

    /// The request by which a conversation is sent. Only Vertex AI needs the access token.
    pub fn request_with_token(
        &self,
        messages: &[Message],
        config: &RequestConfig,
        token: &str,
    ) -> (r: Result<HttpRequest, Error>)
        ensures
            built_request(r) == self@.request(messages_view(messages@), config@, token@),
    {
        match self {
            Backend::Vertex(b) => b.with_token(token.to_owned(), config).request_for(
                messages,
                config,
            ),
            Backend::Zai(b) => b.request_for(messages, config),
            Backend::Ollama(b) => b.request_for(messages, config),
            Backend::OpenAiCompat(b) => b.request_for(messages, config),
            Backend::Anthropic(b) => b.request_for(messages, config),
            Backend::OpenCodeGo(b) => b.request_for(messages, config),
        }
    }

    /// The warnings that a conversation draws when it is sent, to be logged then: of thoughts that
    /// cannot be replayed, where the Anthropic Messages protocol is spoken.
    pub fn warnings(&self, messages: &[Message]) -> (r: Vec<String>)
        ensures
            texts(r@) == if self@.speaks() is Anthropic {
                dropped_warnings(messages_view(messages@))
            } else {
                Seq::empty()
            },
    {
        let anthropic = match self {
            Backend::Vertex(_) => true,
            Backend::Anthropic(_) => true,
            Backend::OpenCodeGo(b) => matches!(b.backend, ProtocolBackend::Anthropic(_)),
            _ => false,
        };
        if anthropic {
            replay_warnings(messages)
        } else {
            let none: Vec<String> = Vec::new();
            assert(texts(none@) =~= Seq::empty());
            none
        }
    }

    /// The URL that is asked, where the OpenAI Chat Completions protocol is spoken.
    fn openai_endpoint(&self) -> (r: Option<&str>)
        ensures
            match r {
                Some(e) => self@.speaks() == (Speaks::OpenAi { endpoint: e@ }),
                None => !(self@.speaks() is OpenAi),
            },
    {
        match self {
            Backend::Zai(b) => Some(b.0.endpoint.as_str()),
            Backend::OpenAiCompat(b) => Some(b.endpoint.as_str()),
            Backend::OpenCodeGo(b) => match &b.backend {
                ProtocolBackend::OpenAi(o) => Some(o.endpoint.as_str()),
                ProtocolBackend::Anthropic(_) => None,
            },
            _ => None,
        }
    }

    /// The error when the backend cannot be reached, with the words of the error and of each of
    /// its causes, outermost first.
    pub fn unreachable(&self, causes: Vec<String>) -> (r: Error)
        ensures
            r@ == self@.unreachable(texts(causes@)),
    {
        let mut causes = causes;
        let ghost inner = texts(causes@);
        let mut words = "Failed to send request to ".to_owned();
        match self.openai_endpoint() {
            Some(endpoint) => {
                words.append(endpoint);
            },
            None => match self {
                Backend::Ollama(_) => {
                    words = "Failed to send request to Ollama".to_owned();
                },
                _ => {
                    return Error::Backend(BackendError::transport("Anthropic API", &causes));
                },
            },
        }
        let mut chain: Vec<String> = Vec::new();
        chain.push(words);
        chain.append(&mut causes);
        let r = Error::Chain(chain);
        assert(r@ =~= ErrorView::Chain(seq![words@] + inner));
        r
    }

    /// The error when the backend answers with a status that is none of success.
    pub fn refused(&self, code: u16, status: &str, body: String) -> (r: Error)
        ensures
            r@ == self@.refused(code, status@, body@),
    {
        match self.openai_endpoint() {
            Some(endpoint) => {
                let mut words = endpoint.to_owned();
                words.append(" returned ");
                words.append(status);
                words.append(": ");
                words.append(body.as_str());
                Error::msg(words.as_str())
            },
            None => Error::Backend(BackendError::HttpStatus { code, body }),
        }
    }
}

/// A backend together with the model that it is asked for and how long its answers may be.
#[derive(Debug, PartialEq, Eq)]
pub struct BackendSelection {
    pub backend: RetryingBackend,
    pub model: String,
    pub max_tokens: u32,
}

/// What a [`BackendSelection`] says.
#[verifier::ext_equal]
pub struct SelectionView {
    pub backend: BackendView,
    pub retry: RetryConfig,
    pub model: Seq<char>,
    pub max_tokens: u32,
}

impl BackendSelection {
    pub open spec fn view(self) -> SelectionView {
        SelectionView {
            backend: self.backend.inner@,
            retry: self.backend.config,
            model: self.model@,
            max_tokens: self.max_tokens,
        }
    }
}

/// What was selected, or what went wrong.
pub open spec fn selected(r: Result<BackendSelection, Error>) -> Result<SelectionView, ErrorView> {
    match r {
        Ok(s) => Ok(s@),
        Err(e) => Err(e@),
    }
}

/// That the section of a backend is missing.
pub open spec fn no_section(role: Seq<char>, name: Seq<char>) -> ErrorView {
    said(
        "Role '"@ + role + "' uses "@ + name + " backend but no ["@ + name
            + "] section is configured."@,
    )
}

fn missing_section(role: &str, name: &str) -> (r: Error)
    ensures
        r@ == no_section(role@, name@),
{
    let mut words = "Role '".to_owned();
    words.append(role);
    words.append("' uses ");
    words.append(name);
    words.append(" backend but no [");
    words.append(name);
    words.append("] section is configured.");
    Error::msg(words.as_str())
}

/// A number, or what stands in for it.
pub open spec fn or_else(n: Option<u32>, default: u32) -> u32 {
    match n {
        Some(n) => n,
        None => default,
    }
}

/// The backend that is named for a role, and how long its answers may be: what its section says,
/// or else the number for that backend.
pub open spec fn backend_for(
    config: AppConfig,
    role: Seq<char>,
    name: Seq<char>,
    model: Seq<char>,
) -> Result<(BackendView, u32), ErrorView> {
    if name == "vertex"@ {
        Ok(
            (
                BackendView::Vertex {
                    project: config.vertex.project@,
                    region: config.vertex.region@,
                },
                or_else(config.vertex.max_tokens, VERTEX),
            ),
        )
    } else if name == "zai"@ {
        match config.zai {
            None => Err(no_section(role, name)),
            Some(c) => match zai_backend(c.api_key@) {
                Ok(b) => Ok((BackendView::Zai(b), ZAI)),
                Err(e) => Err(e),
            },
        }
    } else if name == "ollama"@ {
        match config.ollama {
            None => Err(no_section(role, name)),
            Some(c) => if c.base_url@ == "https://ollama.com/api/chat"@ && c.api_key@.len() == 0 {
                Err(
                    other(
                        "API key is required for Ollama Cloud. Set it in your config, or set base_url to your self-hosted endpoint."@,
                    ),
                )
            } else {
                Ok(
                    (
                        BackendView::Ollama { endpoint: c.base_url@, api_key: c.api_key@ },
                        or_else(c.max_tokens, OLLAMA),
                    ),
                )
            },
        }
    } else if name == "openai_compat"@ {
        match config.openai_compat {
            None => Err(no_section(role, name)),
            Some(c) => match openai_backend(
                OpenAiConfigView {
                    base_url: c.base_url@,
                    api_key: opt_text(c.api_key),
                    max_tokens: c.max_tokens,
                    reasoning: style_of(c.reasoning),
                },
            ) {
                Ok(b) => Ok((BackendView::OpenAiCompat(b), or_else(c.max_tokens, OPENAI_COMPAT))),
                Err(e) => Err(e),
            },
        }
    } else if name == "anthropic"@ {
        match config.anthropic {
            None => Err(no_section(role, name)),
            Some(c) => match anthropic_backend(c.api_key@, c.base_url@, c.max_tokens) {
                Ok(b) => Ok((BackendView::Anthropic(b), or_else(c.max_tokens, ANTHROPIC))),
                Err(e) => Err(e),
            },
        }
    } else if name == "opencode_go"@ {
        match config.opencode_go {
            None => Err(no_section(role, name)),
            Some(c) => match opencode_go_backend(c, model) {
                Ok(b) => Ok((BackendView::OpenCodeGo(b), or_else(c.max_tokens, OPENCODE_GO))),
                Err(e) => Err(e),
            },
        }
    } else {
        Err(said("Unknown backend '"@ + name + "' for role '"@ + role + "'"@))
    }
}

/// What is selected for a role, or what is wrong with the settings.
pub open spec fn selection_for(config: AppConfig, role: Seq<char>) -> Result<
    SelectionView,
    ErrorView,
> {
    match resolved_role(roles_view(config.models@), role) {
        Err(e) => Err(e),
        Ok(r) => match backend_for(config, role, r.backend, r.model) {
            Err(e) => Err(e),
            Ok((backend, max_tokens)) => Ok(
                SelectionView { backend, retry: config.retry, model: r.model, max_tokens },
            ),
        },
    }
}

/// What was built, or what went wrong.
pub open spec fn built_backend(r: Result<(Backend, u32), Error>) -> Result<
    (BackendView, u32),
    ErrorView,
> {
    match r {
        Ok((b, n)) => Ok((b@, n)),
        Err(e) => Err(e@),
    }
}

/// Builds backends from the settings.
#[derive(Debug, PartialEq, Eq)]
pub struct BackendFactory {
    pub config: AppConfig,
}

impl BackendFactory {
    /// A factory with the given settings.
    pub fn new(config: AppConfig) -> (r: BackendFactory)
        ensures
            r.config == config,
    {
        BackendFactory { config }
    }

    /// The backend that is named for a role, and how long its answers may be.
    fn build(&self, role: &str, name: &str, model: &str) -> (r: Result<(Backend, u32), Error>)
        ensures
            built_backend(r) == backend_for(self.config, role@, name@, model@),
    {
        if same_text(name, "vertex") {
            let backend = VertexBackend::new(
                self.config.vertex.project.clone(),
                self.config.vertex.region.clone(),
            );
            Ok((Backend::Vertex(backend), self.config.vertex.max_tokens.unwrap_or(VERTEX)))
        } else if same_text(name, "zai") {
            match &self.config.zai {
                None => Err(missing_section(role, name)),
                Some(c) => match ZaiBackend::new(c.api_key.clone()) {
                    Ok(b) => Ok((Backend::Zai(b), ZAI)),
                    Err(e) => Err(e),
                },
            }
        } else if same_text(name, "ollama") {
            match &self.config.ollama {
                None => Err(missing_section(role, name)),
                Some(c) => match OllamaBackend::new(c) {
                    Ok(b) => Ok((Backend::Ollama(b), c.max_tokens.unwrap_or(OLLAMA))),
                    Err(e) => Err(e),
                },
            }
        } else if same_text(name, "openai_compat") {
            match &self.config.openai_compat {
                None => Err(missing_section(role, name)),
                Some(c) => {
                    let compat = OpenAiCompatConfig {
                        base_url: c.base_url.clone(),
                        api_key: c.api_key.clone(),
                        model: model.to_owned(),
                        max_tokens: c.max_tokens,
                        reasoning: reasoning_style(&c.reasoning),
                    };
                    match OpenAiCompatBackend::new(compat) {
                        Ok(b) => Ok(
                            (Backend::OpenAiCompat(b), c.max_tokens.unwrap_or(OPENAI_COMPAT)),
                        ),
                        Err(e) => Err(e),
                    }
                },
            }
        } else if same_text(name, "anthropic") {
            match &self.config.anthropic {
                None => Err(missing_section(role, name)),
                Some(c) => match AnthropicBackend::new(c) {
                    Ok(b) => Ok((Backend::Anthropic(b), c.max_tokens.unwrap_or(ANTHROPIC))),
                    Err(e) => Err(e),
                },
            }
        } else if same_text(name, "opencode_go") {
            match &self.config.opencode_go {
                None => Err(missing_section(role, name)),
                Some(c) => match OpenCodeGoBackend::new(c, model.to_owned()) {
                    Ok(b) => Ok((Backend::OpenCodeGo(b), c.max_tokens.unwrap_or(OPENCODE_GO))),
                    Err(e) => Err(e),
                },
            }
        } else {
            let mut words = "Unknown backend '".to_owned();
            words.append(name);
            words.append("' for role '");
            words.append(role);
            words.append("'");
            Err(Error::msg(words.as_str()))
        }
    }

    /// What is selected for a role.
    pub fn for_role(&self, role: &str) -> (r: Result<BackendSelection, Error>)
        ensures
            selected(r) == selection_for(self.config, role@),
    {
        match self.config.resolve_role(role) {
            Err(e) => Err(e),
            Ok(resolved) => match self.build(
                role,
                resolved.backend.as_str(),
                resolved.model.as_str(),
            ) {
                Err(e) => Err(e),
                Ok((backend, max_tokens)) => Ok(
                    BackendSelection {
                        backend: RetryingBackend::new(backend, self.config.retry),
                        model: resolved.model,
                        max_tokens,
                    },
                ),
            },
        }
    }

    /// A selection without settings.
    pub fn make_selection(backend: RetryingBackend, model: String) -> (r: BackendSelection)
        ensures
            r.backend == backend,
            r.model == model,
            r.max_tokens == 8_192,
    {
        BackendSelection { backend, model, max_tokens: 8_192 }
    }
}

} // verus!
