//! Asking backends that speak the OpenAI Chat Completions protocol.
use vstd::prelude::*;

use crate::backend::anthropic_compat::{built_headers, built_request};
use crate::backend::chat::{chat_messages, messages_to_json, Dialect};
use crate::backend::error::{said, said_because, Error, ErrorView};
use crate::backend::wire::{
    check_header_value, function_json, functions_to_json, headers_view, is_header_value,
    push_header, str_json, HttpRequest, HttpView,
};
use crate::config::ReasoningStyleConfig;
use crate::json::{Json, JsonView};
use crate::text::{
    contains_text, ends_with_text, holds_at, occurs, opt_text, trim_end_slashes,
    without_end_slashes,
};
use crate::types::{
    messages_view, thinking_enabled, Message, MessageView, RequestConfig, RequestView,
    ToolDefinitionView,
};

pub use crate::backend::openai_sse::OpenAiCompatSseParser;

verus! {

/// How thinking is asked for; providers differ in that.
#[derive(Clone, Copy, Debug, PartialEq, Eq, Structural)]
pub enum ReasoningStyle {
    /// `"enable_thinking": true` when thinking is enabled.
    ZaiEnableThinking,
    /// `"chat_template_kwargs": {"enable_thinking": true}` when thinking is enabled.
    QwenChatTemplate,
    /// Nothing is said; the model decides.
    Default,
    /// Nothing is said; thinking is off.
    Off,
}

/// The way of asking for thinking that a setting names.
pub open spec fn style_of(setting: ReasoningStyleConfig) -> ReasoningStyle {
    match setting {
        ReasoningStyleConfig::ZaiEnableThinking => ReasoningStyle::ZaiEnableThinking,
        ReasoningStyleConfig::QwenChatTemplate => ReasoningStyle::QwenChatTemplate,
        ReasoningStyleConfig::Default => ReasoningStyle::Default,
        ReasoningStyleConfig::Off => ReasoningStyle::Off,
    }
}

/// The way of asking for thinking that a setting names.
pub fn reasoning_style(setting: &ReasoningStyleConfig) -> (r: ReasoningStyle)
    ensures
        r == style_of(*setting),
{
    match setting {
        ReasoningStyleConfig::ZaiEnableThinking => ReasoningStyle::ZaiEnableThinking,
        ReasoningStyleConfig::QwenChatTemplate => ReasoningStyle::QwenChatTemplate,
        ReasoningStyleConfig::Default => ReasoningStyle::Default,
        ReasoningStyleConfig::Off => ReasoningStyle::Off,
    }
}

/// A backend that speaks the OpenAI Chat Completions protocol.
#[derive(Debug, PartialEq, Eq)]
pub struct OpenAiCompatConfig {
    /// The URL before `/chat/completions`.
    pub base_url: String,
    /// The bearer token, where one is needed.
    pub api_key: Option<String>,
    /// A placeholder; each request names its model.
    pub model: String,
    /// How many tokens an answer may have, in place of what the request says.
    pub max_tokens: Option<u32>,
    /// How thinking is asked for.
    pub reasoning: ReasoningStyle,
}

/// What an [`OpenAiCompatConfig`] says, but for the placeholder.
#[verifier::ext_equal]
pub struct OpenAiConfigView {
    pub base_url: Seq<char>,
    pub api_key: Option<Seq<char>>,
    pub max_tokens: Option<u32>,
    pub reasoning: ReasoningStyle,
}

impl OpenAiCompatConfig {
    pub open spec fn view(self) -> OpenAiConfigView {
        OpenAiConfigView {
            base_url: self.base_url@,
            api_key: opt_text(self.api_key),
            max_tokens: self.max_tokens,
            reasoning: self.reasoning,
        }
    }
}

/// A backend that speaks the OpenAI Chat Completions protocol.
#[derive(Debug, PartialEq, Eq)]
pub struct OpenAiCompatBackend {
    pub endpoint: String,
    pub api_key: Option<String>,
    pub max_tokens_override: Option<u32>,
    pub reasoning: ReasoningStyle,
}

/// What an [`OpenAiCompatBackend`] says.
#[verifier::ext_equal]
pub struct OpenAiView {
    pub endpoint: Seq<char>,
    pub api_key: Option<Seq<char>>,
    pub max_tokens_override: Option<u32>,
    pub reasoning: ReasoningStyle,
}

/// The backend that a configuration describes: slashes at the end of the URL do not matter, but
/// neither the path nor a query may be in it.
pub open spec fn openai_backend(config: OpenAiConfigView) -> Result<OpenAiView, ErrorView> {
    let base = without_end_slashes(config.base_url);
    if holds_at(base, "/chat/completions"@, base.len() - "/chat/completions"@.len()) {
        Err(
            said(
                "base_url must not include '/chat/completions' — provide the base URL only (e.g. 'https://example.com/v1') and the backend will append the path automatically."@,
            ),
        )
    } else if occurs(base, "?"@) {
        Err(
            said(
                "base_url must not contain a query string — provide only the base URL (e.g. 'https://example.com/v1')."@,
            ),
        )
    } else {
        Ok(
            OpenAiView {
                endpoint: base + "/chat/completions"@,
                api_key: config.api_key,
                max_tokens_override: config.max_tokens,
                reasoning: config.reasoning,
            },
        )
    }
}

/// What was built, or what went wrong.
pub open spec fn built_openai(r: Result<OpenAiCompatBackend, Error>) -> Result<
    OpenAiView,
    ErrorView,
> {
    match r {
        Ok(b) => Ok(b@),
        Err(e) => Err(e@),
    }
}

/// The headers of a request: a key is sent where there is one that is not empty.
pub open spec fn openai_headers(backend: OpenAiView) -> Result<
    Seq<(Seq<char>, Seq<char>)>,
    ErrorView,
> {
    let plain = seq![("content-type"@, "application/json"@)];
    match backend.api_key {
        Some(key) if key.len() > 0 => if is_header_value("Bearer "@ + key) {
            Ok(plain.push(("authorization"@, "Bearer "@ + key)))
        } else {
            Err(
                said_because(
                    "Failed to build Authorization header value"@,
                    "failed to parse header value"@,
                ),
            )
        },
        _ => Ok(plain),
    }
}

/// The body of a request.
pub open spec fn openai_body(
    backend: OpenAiView,
    messages: Seq<MessageView>,
    request: RequestView,
) -> JsonView {
    let base = map![
        "model"@ => str_json(request.model),
        "messages"@ => JsonView::Array(chat_messages(Dialect::OpenAi, messages)),
        "stream"@ => JsonView::Bool(true),
        "max_tokens"@ => JsonView::UInt(
            match backend.max_tokens_override {
                Some(n) => n as u64,
                None => request.max_tokens as u64,
            },
        ),
    ];
    let tooled = if request.tools.len() == 0 {
        base
    } else {
        base.insert(
            "tools"@,
            JsonView::Array(request.tools.map_values(|t: ToolDefinitionView| function_json(t))),
        ).insert("parallel_tool_calls"@, JsonView::Bool(true))
    };
    JsonView::Object(
        if !thinking_enabled(request.thinking) {
            tooled
        } else {
            match backend.reasoning {
                ReasoningStyle::ZaiEnableThinking => tooled.insert(
                    "enable_thinking"@,
                    JsonView::Bool(true),
                ),
                ReasoningStyle::QwenChatTemplate => tooled.insert(
                    "chat_template_kwargs"@,
                    JsonView::Object(map!["enable_thinking"@ => JsonView::Bool(true)]),
                ),
                _ => tooled,
            }
        },
    )
}

/// The request that is sent, or what went wrong.
pub open spec fn openai_request(
    backend: OpenAiView,
    messages: Seq<MessageView>,
    request: RequestView,
) -> Result<HttpView, ErrorView> {
    match openai_headers(backend) {
        Ok(headers) => Ok(
            HttpView {
                url: backend.endpoint,
                headers,
                body: openai_body(backend, messages, request),
            },
        ),
        Err(e) => Err(e),
    }
}

impl OpenAiCompatBackend {
    pub open spec fn view(self) -> OpenAiView {
        OpenAiView {
            endpoint: self.endpoint@,
            api_key: opt_text(self.api_key),
            max_tokens_override: self.max_tokens_override,
            reasoning: self.reasoning,
        }
    }

    /// The backend that a configuration describes.
    pub fn new(config: OpenAiCompatConfig) -> (r: Result<OpenAiCompatBackend, Error>)
        ensures
            built_openai(r) == openai_backend(config@),
    {
        let base = trim_end_slashes(config.base_url.as_str());
        if ends_with_text(base, "/chat/completions") {
            return Err(
                Error::msg(
                    "base_url must not include '/chat/completions' — provide the base URL only (e.g. 'https://example.com/v1') and the backend will append the path automatically.",
                ),
            );
        }
        if contains_text(base, "?") {
            return Err(
                Error::msg(
                    "base_url must not contain a query string — provide only the base URL (e.g. 'https://example.com/v1').",
                ),
            );
        }
        let mut endpoint = base.to_owned();
        endpoint.append("/chat/completions");
        Ok(
            OpenAiCompatBackend {
                endpoint,
                api_key: config.api_key,
                max_tokens_override: config.max_tokens,
                reasoning: config.reasoning,
            },
        )
    }

    /// The URL that is asked.
    pub fn endpoint(&self) -> (r: &str)
        ensures
            r@ == self@.endpoint,
    {
        self.endpoint.as_str()
    }

    /// The headers of a request.
    pub fn build_headers(&self) -> (r: Result<Vec<(String, String)>, Error>)
        ensures
            built_headers(r) == openai_headers(self@),
    {
        let mut headers: Vec<(String, String)> = Vec::new();
        push_header(&mut headers, "content-type", "application/json");
        assert(headers_view(headers@) =~= seq![("content-type"@, "application/json"@)]);
        if let Some(key) = &self.api_key {
            if !key.as_str().is_empty() {
                let mut value = "Bearer ".to_owned();
                value.append(key.as_str());
                match check_header_value(value.as_str()) {
                    Ok(()) => {},
                    Err(e) => return Err(
                        Error::because("Failed to build Authorization header value".to_owned(), e),
                    ),
                }
                push_header(&mut headers, "authorization", value.as_str());
            }
        }
        Ok(headers)
    }

    /// The body of a request.
    pub fn build_request_body(&self, messages: &[Message], config: &RequestConfig) -> (r: Json)
        ensures
            r@ == openai_body(self@, messages_view(messages@), config@),
    {
        let max_tokens: u32 = match self.max_tokens_override {
            Some(n) => n,
            None => config.max_tokens,
        };
        let mut body = Json::object().with("model", Json::str(config.model.as_str())).with(
            "messages",
            messages_to_json(Dialect::OpenAi, messages),
        ).with("stream", Json::Bool(true)).with("max_tokens", Json::UInt(max_tokens as u64));
        if config.tools.len() > 0 {
            body =
            body.with("tools", functions_to_json(&config.tools)).with(
                "parallel_tool_calls",
                Json::Bool(true),
            );
        }
        if config.thinks() {
            match self.reasoning {
                ReasoningStyle::ZaiEnableThinking => {
                    body = body.with("enable_thinking", Json::Bool(true));
                },
                ReasoningStyle::QwenChatTemplate => {
                    body =
                    body.with(
                        "chat_template_kwargs",
                        Json::object().with("enable_thinking", Json::Bool(true)),
                    );
                },
                ReasoningStyle::Default => {},
                ReasoningStyle::Off => {},
            }
        }
        body
    }

    /// The request that is sent.
    pub fn prepare(&self, messages: &[Message], config: &RequestConfig) -> (r: Result<
        HttpRequest,
        Error,
    >)
        ensures
            built_request(r) == openai_request(self@, messages_view(messages@), config@),
    {
        let body = self.build_request_body(messages, config);
        match self.build_headers() {
            Ok(headers) => Ok(HttpRequest { url: self.endpoint.clone(), headers, body }),
            Err(e) => Err(e),
        }
    }
}

} // verus!
