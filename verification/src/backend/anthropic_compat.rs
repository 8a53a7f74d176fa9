//! Asking backends that speak the Anthropic Messages protocol.
use vstd::prelude::*;

use crate::backend::error::{said_because, Error, ErrorView};
use crate::backend::wire::{
    block_json, block_to_json, check_header_value, debug_form, debug_text, headers_view,
    is_header_value, push_header, role_name, role_text, str_json, tool_json, tools_to_json,
    HttpRequest, HttpView,
};
use crate::json::{items_view, lemma_items_push, Json, JsonView};
use crate::text::{opt_text, texts};
use crate::types::{
    blocks_view, messages_view, BlockView, ContentBlock, Message, MessageView, RequestConfig,
    RequestView, ThinkingConfig, ThinkingDisplay, ThinkingMode, ToolDefinitionView,
};

pub use crate::backend::anthropic_sse::{parse_sse_data, AnthropicCompatSseParser};

verus! {

/// How a request is authenticated.
#[derive(Clone, Copy, Debug, PartialEq, Eq, Structural)]
pub enum AuthStyle {
    Bearer,
    XApiKey,
}

impl Default for AuthStyle {
    fn default() -> (r: AuthStyle)
        ensures
            r == AuthStyle::Bearer,
    {
        AuthStyle::Bearer
    }
}

/// A backend that speaks the Anthropic Messages protocol.
#[derive(Debug, PartialEq, Eq)]
pub struct AnthropicCompatConfig {
    pub endpoint: String,
    pub auth_token: Option<String>,
    pub auth_style: AuthStyle,
    pub anthropic_version: String,
    /// Whether the model goes into the body and the version into a header, or else the version
    /// into the body.
    pub include_model_in_body: bool,
    pub anthropic_beta: Option<String>,
    pub max_tokens_override: Option<u32>,
}

/// What an [`AnthropicCompatConfig`] says.
#[verifier::ext_equal]
pub struct AnthropicConfigView {
    pub endpoint: Seq<char>,
    pub auth_token: Option<Seq<char>>,
    pub auth_style: AuthStyle,
    pub anthropic_version: Seq<char>,
    pub include_model_in_body: bool,
    pub anthropic_beta: Option<Seq<char>>,
    pub max_tokens_override: Option<u32>,
}

impl AnthropicCompatConfig {
    pub open spec fn view(self) -> AnthropicConfigView {
        AnthropicConfigView {
            endpoint: self.endpoint@,
            auth_token: opt_text(self.auth_token),
            auth_style: self.auth_style,
            anthropic_version: self.anthropic_version@,
            include_model_in_body: self.include_model_in_body,
            anthropic_beta: opt_text(self.anthropic_beta),
            max_tokens_override: self.max_tokens_override,
        }
    }
}

/// Whether a block can be replayed: a thought only with its signature.
pub open spec fn is_replayable(block: BlockView) -> bool {
    !(block matches BlockView::Thinking { signature, .. } && signature.len() == 0)
}

/// The blocks that can be replayed.
pub open spec fn replayable(blocks: Seq<BlockView>) -> Seq<BlockView> {
    blocks.filter(|b: BlockView| is_replayable(b))
}

/// What several blocks say.
pub open spec fn refs_view(s: Seq<&ContentBlock>) -> Seq<BlockView> {
    s.map_values(|b: &ContentBlock| b@)
}

/// The blocks that can be replayed; each of the others draws a warning.
pub fn filter_content_blocks<'a>(
    blocks: &'a Vec<ContentBlock>,
    warnings: &mut Vec<String>,
) -> (r: Vec<&'a ContentBlock>)
    ensures
        refs_view(r@) == replayable(blocks_view(blocks@)),
        final(warnings)@.len() == old(warnings)@.len() + blocks@.len() - r@.len(),
        forall|i: int|
            0 <= i < old(warnings)@.len() ==> #[trigger] final(warnings)@[i] == old(warnings)@[i],
        forall|i: int|
            old(warnings)@.len() <= i < final(warnings)@.len() ==> (
            #[trigger] final(warnings)@[i])@
                == "dropping thinking block with empty signature from history (corrupted session data); it cannot be replayed."@,
{
    let ghost all = blocks_view(blocks@);
    let ghost pick = |b: BlockView| is_replayable(b);
    let ghost start = warnings@;
    let mut kept: Vec<&'a ContentBlock> = Vec::new();
    let mut i: usize = 0;
    assert(refs_view(kept@) =~= all.take(0).filter(pick)) by {
        reveal(Seq::filter);
    }
    while i < blocks.len()
        invariant
            i <= blocks.len(),
            all == blocks_view(blocks@),
            pick == (|b: BlockView| is_replayable(b)),
            refs_view(kept@) == all.take(i as int).filter(pick),
            warnings@.len() == start.len() + i - kept@.len(),
            forall|k: int| 0 <= k < start.len() ==> #[trigger] warnings@[k] == start[k],
            forall|k: int|
                start.len() <= k < warnings@.len() ==> (#[trigger] warnings@[k])@
                    == "dropping thinking block with empty signature from history (corrupted session data); it cannot be replayed."@,
        decreases blocks.len() - i,
    {
        let ghost before = kept@;
        proof {
            assert(all.take(i + 1).drop_last() =~= all.take(i as int));
            assert(all.take(i + 1).last() == blocks@[i as int]@);
            reveal(Seq::filter);
        }
        let drop = match &blocks[i] {
            ContentBlock::Thinking { signature, .. } => signature.as_str().is_empty(),
            _ => false,
        };
        if drop {
            warnings.push(
                "dropping thinking block with empty signature from history (corrupted session data); it cannot be replayed.".to_owned(),
            );
        } else {
            kept.push(&blocks[i]);
            assert(refs_view(kept@) =~= refs_view(before).push(blocks@[i as int]@));
        }
        i += 1;
    }
    assert(all.take(i as int) =~= all);
    kept
}

/// The warnings that a conversation draws when it is sent: one for each block that cannot be
/// replayed, in the order of the messages.
pub open spec fn dropped_warnings(s: Seq<MessageView>) -> Seq<Seq<char>>
    decreases s.len(),
{
    if s.len() == 0 {
        Seq::empty()
    } else {
        dropped_warnings(s.drop_last()) + Seq::new(
            (s.last().content.len() - replayable(s.last().content).len()) as nat,
            |i: int|
                "dropping thinking block with empty signature from history (corrupted session data); it cannot be replayed."@,
        )
    }
}

/// The warnings that a conversation draws when it is sent, to be logged then.
pub fn replay_warnings(messages: &[Message]) -> (r: Vec<String>)
    ensures
        texts(r@) == dropped_warnings(messages_view(messages@)),
{
    let ghost all = messages_view(messages@);
    let mut warnings: Vec<String> = Vec::new();
    let mut i: usize = 0;
    assert(texts(warnings@) =~= dropped_warnings(all.take(0)));
    while i < messages.len()
        invariant
            i <= messages.len(),
            all == messages_view(messages@),
            texts(warnings@) == dropped_warnings(all.take(i as int)),
        decreases messages.len() - i,
    {
        let ghost before = warnings@;
        let kept = filter_content_blocks(&messages[i].content, &mut warnings);
        proof {
            assert(all.take(i + 1).drop_last() =~= all.take(i as int));
            assert(all.take(i + 1).last() == messages@[i as int]@);
            assert(refs_view(kept@).len() == kept@.len());
            assert(texts(warnings@) =~= dropped_warnings(all.take(i + 1)));
        }
        i += 1;
    }
    assert(all.take(i as int) =~= all);
    warnings
}

/// Blocks on the wire.
pub open spec fn blocks_json(blocks: Seq<BlockView>) -> Seq<JsonView> {
    blocks.map_values(|b: BlockView| block_json(b))
}

/// A conversation on the wire: messages of which nothing can be replayed are left out.
pub open spec fn anthropic_messages(s: Seq<MessageView>) -> Seq<JsonView>
    decreases s.len(),
{
    if s.len() == 0 {
        Seq::empty()
    } else {
        let content = replayable(s.last().content);
        if content.len() == 0 {
            anthropic_messages(s.drop_last())
        } else {
            anthropic_messages(s.drop_last()).push(
                JsonView::Object(
                    map![
                        "role"@ => str_json(role_name(s.last().role)),
                        "content"@ => JsonView::Array(blocks_json(content)),
                    ],
                ),
            )
        }
    }
}

/// How thinking is asked for on the wire.
pub open spec fn thinking_json(t: ThinkingConfig) -> JsonView {
    let display = str_json(
        match t.display {
            Some(ThinkingDisplay::Omitted) => "omitted"@,
            _ => "summarized"@,
        },
    );
    match t.mode {
        ThinkingMode::Budget { tokens } => JsonView::Object(
            map![
                "type"@ => str_json("enabled"@),
                "budget_tokens"@ => JsonView::UInt(tokens as u64),
                "display"@ => display,
            ],
        ),
        ThinkingMode::Adaptive => JsonView::Object(
            map!["type"@ => str_json("adaptive"@), "display"@ => display],
        ),
    }
}

/// How many tokens an answer may have: a thinking budget comes on top.
pub open spec fn anthropic_max_tokens(config: AnthropicConfigView, request: RequestView) -> u64 {
    let base = match config.max_tokens_override {
        Some(n) => n,
        None => request.max_tokens,
    };
    match request.thinking {
        Some(ThinkingConfig { enabled: true, mode: ThinkingMode::Budget { tokens }, .. }) => (base
            + tokens) as u64,
        _ => base as u64,
    }
}

/// The body of a request.
pub open spec fn anthropic_body(
    config: AnthropicConfigView,
    messages: Seq<MessageView>,
    request: RequestView,
) -> JsonView {
    let base = map![
        "max_tokens"@ => JsonView::UInt(anthropic_max_tokens(config, request)),
        "stream"@ => JsonView::Bool(true),
        "messages"@ => JsonView::Array(anthropic_messages(messages)),
    ];
    let named = if config.include_model_in_body {
        base.insert("model"@, str_json(request.model))
    } else {
        base.insert("anthropic_version"@, str_json(config.anthropic_version))
    };
    let thinking = match request.thinking {
        Some(t) if t.enabled => named.insert("thinking"@, thinking_json(t)),
        _ => named,
    };
    JsonView::Object(
        if request.tools.len() == 0 {
            thinking
        } else {
            thinking.insert(
                "tools"@,
                JsonView::Array(request.tools.map_values(|t: ToolDefinitionView| tool_json(t))),
            ).insert(
                "tool_choice"@,
                JsonView::Object(
                    map![
                        "type"@ => str_json("auto"@),
                        "disable_parallel_tool_use"@ => JsonView::Bool(false),
                    ],
                ),
            )
        },
    )
}

/// What is said of a text that cannot be the value of a header.
pub open spec fn bad_header(what: Seq<char>, value: Seq<char>) -> ErrorView {
    said_because(
        what + " contains characters invalid for an HTTP header value: "@ + debug_form(value),
        "failed to parse header value"@,
    )
}

/// A header that depends on the configuration: its name and value, what it is, and the text
/// that is shown where it cannot be a header.
#[verifier::ext_equal]
pub struct Wanted {
    pub header: (Seq<char>, Seq<char>),
    pub what: Seq<char>,
    pub shown: Seq<char>,
}

/// The headers that depend on the configuration: the authentication, the version where it is not
/// in the body, and the beta features.
pub open spec fn wanted_headers(config: AnthropicConfigView) -> Seq<Wanted> {
    (match config.auth_token {
        None => Seq::empty(),
        Some(token) => seq![
            match config.auth_style {
                AuthStyle::Bearer => Wanted {
                    header: ("authorization"@, "Bearer "@ + token),
                    what: "auth token"@,
                    shown: token,
                },
                AuthStyle::XApiKey => Wanted {
                    header: ("x-api-key"@, token),
                    what: "API key"@,
                    shown: token,
                },
            },
        ],
    }) + (if config.include_model_in_body {
        seq![
            Wanted {
                header: ("anthropic-version"@, config.anthropic_version),
                what: "anthropic_version"@,
                shown: config.anthropic_version,
            },
        ]
    } else {
        Seq::empty()
    }) + (match config.anthropic_beta {
        Some(beta) => seq![
            Wanted {
                header: ("anthropic-beta"@, beta),
                what: "anthropic_beta"@,
                shown: beta,
            },
        ],
        None => Seq::empty(),
    })
}

/// The content type and the wanted headers; the first that cannot be a header is an error.
pub open spec fn checked_headers(wanted: Seq<Wanted>) -> Result<
    Seq<(Seq<char>, Seq<char>)>,
    ErrorView,
>
    decreases wanted.len(),
{
    if wanted.len() == 0 {
        Ok(seq![("content-type"@, "application/json"@)])
    } else {
        let last = wanted.last();
        match checked_headers(wanted.drop_last()) {
            Err(e) => Err(e),
            Ok(headers) => if is_header_value(last.header.1) {
                Ok(headers.push(last.header))
            } else {
                Err(bad_header(last.what, last.shown))
            },
        }
    }
}

/// The headers of a request.
pub open spec fn anthropic_headers(config: AnthropicConfigView) -> Result<
    Seq<(Seq<char>, Seq<char>)>,
    ErrorView,
> {
    checked_headers(wanted_headers(config))
}

proof fn lemma_checked_stops(wanted: Seq<Wanted>, more: Seq<Wanted>)
    requires
        checked_headers(wanted) is Err,
    ensures
        checked_headers(wanted + more) == checked_headers(wanted),
    decreases more.len(),
{
    if more.len() == 0 {
        assert(wanted + more =~= wanted);
    } else {
        assert((wanted + more).drop_last() =~= wanted + more.drop_last());
        lemma_checked_stops(wanted, more.drop_last());
    }
}

/// What was built, or what went wrong.
pub open spec fn built_headers(r: Result<Vec<(String, String)>, Error>) -> Result<
    Seq<(Seq<char>, Seq<char>)>,
    ErrorView,
> {
    match r {
        Ok(h) => Ok(headers_view(h@)),
        Err(e) => Err(e@),
    }
}

/// What was built, or what went wrong.
pub open spec fn built_request(r: Result<HttpRequest, Error>) -> Result<HttpView, ErrorView> {
    match r {
        Ok(h) => Ok(h@),
        Err(e) => Err(e@),
    }
}

/// The request that is sent, or what went wrong.
pub open spec fn anthropic_request(
    config: AnthropicConfigView,
    messages: Seq<MessageView>,
    request: RequestView,
) -> Result<HttpView, ErrorView> {
    match anthropic_headers(config) {
        Ok(headers) => Ok(
            HttpView {
                url: config.endpoint,
                headers,
                body: anthropic_body(config, messages, request),
            },
        ),
        Err(e) => Err(e),
    }
}

fn refuse_header(what: &str, value: &str, cause: String) -> (r: Error)
    requires
        cause@ == "failed to parse header value"@,
    ensures
        r@ == bad_header(what@, value@),
{
    let mut words = what.to_owned();
    words.append(" contains characters invalid for an HTTP header value: ");
    words.append(debug_text(value).as_str());
    Error::because(words, cause)
}

/// A backend that speaks the Anthropic Messages protocol.
#[derive(Debug, PartialEq, Eq)]
pub struct AnthropicCompatBackend {
    pub config: AnthropicCompatConfig,
}

impl AnthropicCompatBackend {
    /// A backend with the given configuration.
    pub fn new(config: AnthropicCompatConfig) -> (r: AnthropicCompatBackend)
        ensures
            r.config == config,
    {
        AnthropicCompatBackend { config }
    }

    /// The configuration.
    pub fn config(&self) -> (r: &AnthropicCompatConfig)
        ensures
            *r == self.config,
    {
        &self.config
    }

    /// A conversation on the wire.
    fn messages_to_json(messages: &[Message]) -> (r: Json)
        ensures
            r@ == JsonView::Array(anthropic_messages(messages_view(messages@))),
    {
        let ghost all = messages_view(messages@);
        let mut items: Vec<Json> = Vec::new();
        let mut i: usize = 0;
        assert(items_view(items@) =~= anthropic_messages(all.take(0)));
        while i < messages.len()
            invariant
                i <= messages.len(),
                all == messages_view(messages@),
                items_view(items@) == anthropic_messages(all.take(i as int)),
            decreases messages.len() - i,
        {
            proof {
                assert(all.take(i + 1).drop_last() =~= all.take(i as int));
                assert(all.take(i + 1).last() == messages@[i as int]@);
            }
            // [`replay_warnings`] hands the warnings out.
            let mut warnings: Vec<String> = Vec::new();
            let blocks = filter_content_blocks(&messages[i].content, &mut warnings);
            let ghost want = blocks_json(replayable(messages@[i as int]@.content));
            if blocks.len() > 0 {
                let mut content: Vec<Json> = Vec::new();
                let mut k: usize = 0;
                assert(items_view(content@) =~= want.take(0));
                while k < blocks.len()
                    invariant
                        k <= blocks.len(),
                        want == blocks_json(refs_view(blocks@)),
                        items_view(content@) == want.take(k as int),
                    decreases blocks.len() - k,
                {
                    let j = block_to_json(blocks[k]);
                    proof {
                        lemma_items_push(content@, j);
                        assert(want[k as int] == j@);
                        assert(want.take(k + 1) =~= want.take(k as int).push(j@));
                    }
                    content.push(j);
                    k += 1;
                }
                assert(want.take(k as int) =~= want);
                let item = Json::object().with("role", Json::str(role_text(messages[i].role))).with(
                    "content",
                    Json::array(content),
                );
                proof {
                    lemma_items_push(items@, item);
                }
                items.push(item);
            }
            i += 1;
        }
        assert(all.take(i as int) =~= all);
        Json::array(items)
    }

    /// The body of a request.
    pub fn build_request_body(&self, messages: &[Message], config: &RequestConfig) -> (r: Json)
        ensures
            r@ == anthropic_body(self.config@, messages_view(messages@), config@),
    {
        let base: u64 = match self.config.max_tokens_override {
            Some(n) => n as u64,
            None => config.max_tokens as u64,
        };
        let mut max_tokens: u64 = base;
        let mut thinking: Option<Json> = None;
        if let Some(t) = &config.thinking {
            if t.enabled {
                let display = match t.display {
                    Some(ThinkingDisplay::Omitted) => "omitted",
                    _ => "summarized",
                };
                let j = match t.mode {
                    ThinkingMode::Budget { tokens } => {
                        max_tokens = base + tokens as u64;
                        Json::object().with("type", Json::str("enabled")).with(
                            "budget_tokens",
                            Json::UInt(tokens as u64),
                        ).with("display", Json::str(display))
                    },
                    ThinkingMode::Adaptive => Json::object().with(
                        "type",
                        Json::str("adaptive"),
                    ).with("display", Json::str(display)),
                };
                assert(j@ == thinking_json(*t));
                thinking = Some(j);
            }
        }
        assert(max_tokens == anthropic_max_tokens(self.config@, config@));
        let mut body = Json::object().with("max_tokens", Json::UInt(max_tokens)).with(
            "stream",
            Json::Bool(true),
        ).with("messages", Self::messages_to_json(messages));
        if self.config.include_model_in_body {
            body = body.with("model", Json::str(config.model.as_str()));
        } else {
            body =
            body.with("anthropic_version", Json::str(self.config.anthropic_version.as_str()));
        }
        if let Some(t) = thinking {
            body = body.with("thinking", t);
        }
        if config.tools.len() > 0 {
            let choice = Json::object().with("type", Json::str("auto")).with(
                "disable_parallel_tool_use",
                Json::Bool(false),
            );
            body = body.with("tools", tools_to_json(&config.tools)).with("tool_choice", choice);
        }
        body
    }

    /// The headers of a request.
    pub fn build_request_headers(&self) -> (r: Result<Vec<(String, String)>, Error>)
        ensures
            built_headers(r) == anthropic_headers(self.config@),
    {
        let ghost wanted = wanted_headers(self.config@);
        let ghost mut done: Seq<Wanted> = Seq::empty();
        let mut headers: Vec<(String, String)> = Vec::new();
        push_header(&mut headers, "content-type", "application/json");
        assert(headers_view(headers@) =~= seq![("content-type"@, "application/json"@)]);
        assert(built_headers(Ok(headers)) == checked_headers(done));
        if let Some(token) = &self.config.auth_token {
            let (name, what) = match self.config.auth_style {
                AuthStyle::Bearer => ("authorization", "auth token"),
                AuthStyle::XApiKey => ("x-api-key", "API key"),
            };
            let mut value = String::new();
            if let AuthStyle::Bearer = self.config.auth_style {
                value.append("Bearer ");
            }
            value.append(token.as_str());
            proof {
                let w = Wanted { header: (name@, value@), what: what@, shown: token@ };
                assert(value@ =~= wanted[0].header.1);
                assert(wanted.take(1) =~= seq![w]);
                assert(done.push(w).drop_last() =~= done);
                assert(done.push(w) =~= wanted.take(1));
                assert(wanted =~= wanted.take(1) + wanted.skip(1));
                done = done.push(w);
                if checked_headers(done) is Err {
                    lemma_checked_stops(done, wanted.skip(1));
                }
            }
            match check_header_value(value.as_str()) {
                Ok(()) => {},
                Err(e) => return Err(refuse_header(what, token.as_str(), e)),
            }
            push_header(&mut headers, name, value.as_str());
        }
        assert(built_headers(Ok(headers)) == checked_headers(done));
        if self.config.include_model_in_body {
            let version = self.config.anthropic_version.as_str();
            proof {
                let k = done.len() as int;
                let w = wanted[k];
                assert(done.push(w).drop_last() =~= done);
                assert(done.push(w) =~= wanted.take(k + 1));
                assert(wanted =~= wanted.take(k + 1) + wanted.skip(k + 1));
                done = done.push(w);
                if checked_headers(done) is Err {
                    lemma_checked_stops(done, wanted.skip(k + 1));
                }
            }
            match check_header_value(version) {
                Ok(()) => {},
                Err(e) => return Err(refuse_header("anthropic_version", version, e)),
            }
            push_header(&mut headers, "anthropic-version", version);
        }
        assert(built_headers(Ok(headers)) == checked_headers(done));
        if let Some(beta) = &self.config.anthropic_beta {
            proof {
                let k = done.len() as int;
                let w = wanted[k];
                assert(done.push(w).drop_last() =~= done);
                assert(done.push(w) =~= wanted);
                done = done.push(w);
            }
            match check_header_value(beta.as_str()) {
                Ok(()) => {},
                Err(e) => return Err(refuse_header("anthropic_beta", beta.as_str(), e)),
            }
            push_header(&mut headers, "anthropic-beta", beta.as_str());
        }
        assert(done =~= wanted);
        Ok(headers)
    }

    /// The request that is sent.
    pub fn prepare(&self, messages: &[Message], config: &RequestConfig) -> (r: Result<
        HttpRequest,
        Error,
    >)
        ensures
            built_request(r) == anthropic_request(self.config@, messages_view(messages@), config@),
    {
        let body = self.build_request_body(messages, config);
        match self.build_request_headers() {
            Ok(headers) => Ok(HttpRequest { url: self.config.endpoint.clone(), headers, body }),
            Err(e) => Err(e),
        }
    }
}

} // verus!
