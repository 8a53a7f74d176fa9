//! What a conversation becomes in the chat protocols.
use vstd::prelude::*;

use crate::backend::chat::{
    answer_messages, calling_message, calls_json, chat_message, chat_messages, has_tool_result,
    has_tool_use, plain_blocks, plain_message, Dialect,
};
use crate::backend::ollama::ollama_request;
use crate::backend::openai_compat::{
    openai_backend, openai_body, openai_request, OpenAiConfigView, OpenAiView, ReasoningStyle,
};
use crate::backend::wire::{block_json, function_json, is_header_value};
use crate::json::{json_text, JsonView};
use crate::sequences::{lemma_flat_map_empty, lemma_flat_map_last};
use crate::text::joined;
use crate::types::{text_blocks, BlockView, MessageView, RequestView, Role};

verus! {

/// What a block says in words.
pub open spec fn words_of(b: BlockView) -> Seq<char> {
    match b {
        BlockView::Text(text) => text,
        _ => Seq::empty(),
    }
}

/// Whether there is a text among the blocks.
pub open spec fn has_text(s: Seq<BlockView>) -> bool {
    exists|i: int| 0 <= i < s.len() && #[trigger] s[i] is Text
}

proof fn lemma_texts_joined(s: Seq<BlockView>)
    ensures
        joined(text_blocks(s), ""@) == s.flat_map(|b: BlockView| words_of(b)),
        text_blocks(s).len() == 0 <==> !has_text(s),
    decreases s.len(),
{
    reveal_strlit("");
    let f = |b: BlockView| words_of(b);
    if s.len() == 0 {
        lemma_flat_map_empty(s, f);
    } else {
        let front = s.drop_last();
        lemma_texts_joined(front);
        lemma_flat_map_last(s, f);
        assert(s.last() == s[s.len() - 1]);
        if has_text(front) {
            let i = choose|i: int| 0 <= i < front.len() && #[trigger] front[i] is Text;
            assert(s[i] is Text);
        }
        if s.last() is Text {
            assert(has_text(s));
            assert(text_blocks(s).drop_last() =~= text_blocks(front));
            assert(joined(text_blocks(s), ""@) =~= joined(text_blocks(front), ""@) + words_of(
                s.last(),
            ));
        } else {
            if has_text(s) {
                let i = choose|i: int| 0 <= i < s.len() && #[trigger] s[i] is Text;
                assert(front[i] is Text);
            }
            assert(front.flat_map(f) + Seq::empty() =~= front.flat_map(f));
        }
    }
}

/// The messages of a conversation are sent in their order, and each as if it were alone.
pub proof fn law_chat_is_sent_in_order(dialect: Dialect, s: Seq<MessageView>)
    ensures
        chat_messages(dialect, s) == s.flat_map(
            |m: MessageView| chat_messages(dialect, seq![m]),
        ),
    decreases s.len(),
{
    let f = |m: MessageView| chat_messages(dialect, seq![m]);
    if s.len() == 0 {
        lemma_flat_map_empty(s, f);
    } else {
        law_chat_is_sent_in_order(dialect, s.drop_last());
        lemma_flat_map_last(s, f);
        lemma_alone(dialect, s.last());
    }
}

proof fn lemma_alone(dialect: Dialect, m: MessageView)
    ensures
        chat_messages(dialect, seq![m]) == chat_message(dialect, m),
{
    let one = seq![m];
    assert(one.drop_last() =~= Seq::empty());
    assert(chat_messages(dialect, one.drop_last()) =~= Seq::empty());
    assert(one.last() == m);
    assert(chat_messages(dialect, one) =~= chat_message(dialect, m));
}

/// Whether a message is neither an answer to calls nor one that makes calls.
pub open spec fn is_plain(m: MessageView) -> bool {
    forall|i: int|
        0 <= i < m.content.len() ==> if m.role == Role::User {
            !((#[trigger] m.content[i]) is ToolResult)
        } else {
            !(m.content[i] is ToolUse)
        }
}

proof fn lemma_plain(dialect: Dialect, m: MessageView)
    requires
        is_plain(m),
    ensures
        chat_messages(dialect, seq![m]) == seq![plain_message(dialect, m)],
{
    lemma_alone(dialect, m);
    if m.role == Role::User && has_tool_result(m.content) {
        let i = choose|i: int| 0 <= i < m.content.len() && #[trigger] m.content[i] is ToolResult;
        assert(false);
    }
    if m.role == Role::Assistant && has_tool_use(m.content) {
        let i = choose|i: int| 0 <= i < m.content.len() && #[trigger] m.content[i] is ToolUse;
        assert(false);
    }
}

/// To Ollama a message without calls and results goes as one message of its speaker, whose content
/// is all that the message says in words; a single text goes as it is.
pub proof fn law_ollama_hears_what_was_said(m: MessageView)
    requires
        is_plain(m),
    ensures
        ({
            let sent = chat_messages(Dialect::Ollama, seq![m]);
            &&& sent.len() == 1
            &&& sent[0].field("role"@) == JsonView::Str(
                if m.role == Role::User {
                    "user"@
                } else {
                    "assistant"@
                },
            )
            &&& sent[0].field("content"@) == JsonView::Str(
                m.content.flat_map(|b: BlockView| words_of(b)),
            )
            &&& m.content.len() == 1 && m.content[0] is Text ==> sent[0].field("content"@)
                == JsonView::Str(m.content[0]->Text_0)
        }),
{
    lemma_chat_names();
    lemma_plain(Dialect::Ollama, m);
    lemma_texts_joined(m.content);
    if m.content.len() == 1 && m.content[0] is Text {
        let f = |b: BlockView| words_of(b);
        lemma_flat_map_last(m.content, f);
        lemma_flat_map_empty(m.content.drop_last(), f);
        assert(m.content.flat_map(f) =~= m.content[0]->Text_0);
    }
}

/// A block of a plain message in the OpenAI protocol: the assistant's thoughts are nowhere.
pub open spec fn openai_block(role: Role, b: BlockView) -> Seq<JsonView> {
    if role == Role::Assistant && (b is Thinking || b is RedactedThinking) {
        Seq::empty()
    } else {
        seq![block_json(b)]
    }
}

proof fn lemma_plain_blocks(role: Role, s: Seq<BlockView>)
    ensures
        plain_blocks(role, s) == s.flat_map(|b: BlockView| openai_block(role, b)),
    decreases s.len(),
{
    let f = |b: BlockView| openai_block(role, b);
    if s.len() == 0 {
        lemma_flat_map_empty(s, f);
    } else {
        lemma_plain_blocks(role, s.drop_last());
        lemma_flat_map_last(s, f);
        assert(plain_blocks(role, s) =~= plain_blocks(role, s.drop_last()) + openai_block(
            role,
            s.last(),
        ));
    }
}

/// In the OpenAI protocol a message without calls and results goes as one message of its speaker
/// with its blocks in their order, but for the assistant's thoughts.
pub proof fn law_openai_hears_what_was_said(m: MessageView)
    requires
        is_plain(m),
    ensures
        ({
            let sent = chat_messages(Dialect::OpenAi, seq![m]);
            &&& sent.len() == 1
            &&& sent[0].field("role"@) == JsonView::Str(
                if m.role == Role::User {
                    "user"@
                } else {
                    "assistant"@
                },
            )
            &&& sent[0].field("content"@) == JsonView::Array(
                m.content.flat_map(|b: BlockView| openai_block(m.role, b)),
            )
        }),
{
    lemma_chat_names();
    lemma_plain(Dialect::OpenAi, m);
    lemma_plain_blocks(m.role, m.content);
}

/// What a block becomes in a message that answers calls: a result becomes a message of the tool
/// that names the call and holds the result, a text becomes a message of the user.
pub open spec fn is_answer_to(dialect: Dialect, b: BlockView, sent: Seq<JsonView>) -> bool {
    match b {
        BlockView::ToolResult { tool_use_id, content, .. } => {
            &&& sent.len() == 1
            &&& sent[0].field("role"@) == JsonView::Str("tool"@)
            &&& sent[0].field("tool_call_id"@) == JsonView::Str(tool_use_id)
            &&& sent[0].field("content"@) == JsonView::Str(content)
        },
        BlockView::Text(text) => {
            &&& sent.len() == 1
            &&& sent[0].field("role"@) == JsonView::Str("user"@)
            &&& match dialect {
                Dialect::Ollama => sent[0].field("content"@) == JsonView::Str(text),
                Dialect::OpenAi => sent[0].field("content"@) == JsonView::Array(
                    seq![block_json(b)],
                ),
            }
        },
        _ => sent.len() == 0,
    }
}

/// A message of the user that answers calls goes as several messages: there are `parts`, one for
/// each block and in the order of the blocks, that hold what the blocks say.
pub proof fn law_results_are_sent(dialect: Dialect, m: MessageView) -> (parts: Seq<Seq<JsonView>>)
    requires
        m.role == Role::User,
        !is_plain(m),
    ensures
        parts.len() == m.content.len(),
        forall|i: int|
            0 <= i < m.content.len() ==> is_answer_to(
                dialect,
                m.content[i],
                #[trigger] parts[i],
            ),
        chat_messages(dialect, seq![m]) == parts.flat_map(|p: Seq<JsonView>| p),
{
    lemma_alone(dialect, m);
    let i = choose|i: int|
        0 <= i < m.content.len() && !(if m.role == Role::User {
            !((#[trigger] m.content[i]) is ToolResult)
        } else {
            !(m.content[i] is ToolUse)
        });
    assert(m.content[i] is ToolResult);
    assert(has_tool_result(m.content));
    lemma_answers(dialect, m.content)
}

proof fn lemma_answers(dialect: Dialect, s: Seq<BlockView>) -> (parts: Seq<Seq<JsonView>>)
    ensures
        parts.len() == s.len(),
        forall|i: int|
            0 <= i < s.len() ==> is_answer_to(dialect, s[i], #[trigger] parts[i]),
        answer_messages(dialect, s) == parts.flat_map(|p: Seq<JsonView>| p),
    decreases s.len(),
{
    let f = |p: Seq<JsonView>| p;
    if s.len() == 0 {
        let parts = Seq::<Seq<JsonView>>::empty();
        lemma_flat_map_empty(parts, f);
        parts
    } else {
        let front = lemma_answers(dialect, s.drop_last());
        let part = crate::backend::chat::answer_message(dialect, s.last());
        let parts = front.push(part);
        lemma_chat_names();
        assert(is_answer_to(dialect, s.last(), part));
        assert forall|i: int| 0 <= i < s.len() implies is_answer_to(
            dialect,
            s[i],
            #[trigger] parts[i],
        ) by {
            if i < front.len() {
                assert(is_answer_to(dialect, s.drop_last()[i], front[i]));
            }
        }
        lemma_flat_map_last(parts, f);
        assert(parts.drop_last() =~= front);
        parts
    }
}

/// A call on the wire names the call and the tool and holds the input: as text in the OpenAI
/// protocol, as it is for Ollama. Any other block is no call.
pub open spec fn is_call_of(dialect: Dialect, b: BlockView, sent: Seq<JsonView>) -> bool {
    match b {
        BlockView::ToolUse { id, name, input } => {
            &&& sent.len() == 1
            &&& sent[0].field("id"@) == JsonView::Str(id)
            &&& sent[0].field("type"@) == JsonView::Str("function"@)
            &&& sent[0].field("function"@).field("name"@) == JsonView::Str(name)
            &&& sent[0].field("function"@).field("arguments"@) == match dialect {
                Dialect::OpenAi => JsonView::Str(json_text(input)),
                Dialect::Ollama => input,
            }
        },
        _ => sent.len() == 0,
    }
}

/// A message of the assistant with calls goes as one message with all that it says in words, where
/// there is a text, and with its calls in their order: there are `parts`, one for each block, that
/// make up the calls.
pub proof fn law_calls_are_sent(dialect: Dialect, m: MessageView) -> (parts: Seq<Seq<JsonView>>)
    requires
        m.role == Role::Assistant,
        !is_plain(m),
    ensures
        parts.len() == m.content.len(),
        forall|i: int|
            0 <= i < m.content.len() ==> is_call_of(dialect, m.content[i], #[trigger] parts[i]),
        ({
            let sent = chat_messages(dialect, seq![m]);
            &&& sent.len() == 1
            &&& sent[0].field("role"@) == JsonView::Str("assistant"@)
            &&& sent[0].field("content"@) == if has_text(m.content) {
                JsonView::Str(m.content.flat_map(|b: BlockView| words_of(b)))
            } else {
                JsonView::Null
            }
            &&& sent[0].field("tool_calls"@) == JsonView::Array(
                parts.flat_map(|p: Seq<JsonView>| p),
            )
        }),
{
    lemma_alone(dialect, m);
    lemma_chat_names();
    let i = choose|i: int|
        0 <= i < m.content.len() && !(if m.role == Role::User {
            !((#[trigger] m.content[i]) is ToolResult)
        } else {
            !(m.content[i] is ToolUse)
        });
    assert(m.content[i] is ToolUse);
    assert(has_tool_use(m.content));
    lemma_texts_joined(m.content);
    assert(chat_messages(dialect, seq![m]) == seq![calling_message(dialect, m.content)]);
    lemma_calls(dialect, m.content)
}

proof fn lemma_calls(dialect: Dialect, s: Seq<BlockView>) -> (parts: Seq<Seq<JsonView>>)
    ensures
        parts.len() == s.len(),
        forall|i: int| 0 <= i < s.len() ==> is_call_of(dialect, s[i], #[trigger] parts[i]),
        calls_json(dialect, s) == parts.flat_map(|p: Seq<JsonView>| p),
    decreases s.len(),
{
    let f = |p: Seq<JsonView>| p;
    if s.len() == 0 {
        let parts = Seq::<Seq<JsonView>>::empty();
        lemma_flat_map_empty(parts, f);
        parts
    } else {
        let front = lemma_calls(dialect, s.drop_last());
        let part = if s.last() is ToolUse {
            seq![calls_json(dialect, s).last()]
        } else {
            Seq::empty()
        };
        let parts = front.push(part);
        lemma_chat_names();
        assert(is_call_of(dialect, s.last(), part));
        assert forall|i: int| 0 <= i < s.len() implies is_call_of(
            dialect,
            s[i],
            #[trigger] parts[i],
        ) by {
            if i < front.len() {
                assert(is_call_of(dialect, s.drop_last()[i], front[i]));
            }
        }
        lemma_flat_map_last(parts, f);
        assert(parts.drop_last() =~= front);
        assert(calls_json(dialect, s) =~= calls_json(dialect, s.drop_last()) + part);
        parts
    }
}

/// The body of a request in the OpenAI protocol asks for a stream and holds the model, the
/// conversation, the limit on the answer, the tools where there are any, and a request to think
/// where thinking is enabled, under the name that the provider has for it.
pub proof fn law_openai_body_holds_the_request(
    backend: OpenAiView,
    messages: Seq<MessageView>,
    request: RequestView,
)
    ensures
        ({
            let body = openai_body(backend, messages, request);
            let thinks = request.thinking matches Some(t) && t.enabled;
            &&& body.field("stream"@) == JsonView::Bool(true)
            &&& body.field("model"@) == JsonView::Str(request.model)
            &&& body.field("messages"@) == JsonView::Array(
                chat_messages(Dialect::OpenAi, messages),
            )
            &&& body.field("max_tokens"@).uint() == Some(
                match backend.max_tokens_override {
                    Some(n) => n as u64,
                    None => request.max_tokens as u64,
                },
            )
            &&& if request.tools.len() == 0 {
                &&& body.field("tools"@) == JsonView::Null
                &&& body.field("parallel_tool_calls"@) == JsonView::Null
            } else {
                &&& body.field("tools"@) matches JsonView::Array(items) && items.len()
                    == request.tools.len()
                &&& forall|i: int|
                    0 <= i < request.tools.len() ==> (#[trigger] body.field("tools"@).item(i))
                        == function_json(request.tools[i])
                &&& body.field("parallel_tool_calls"@) == JsonView::Bool(true)
            }
            &&& body.field("enable_thinking"@) == if thinks && backend.reasoning
                == ReasoningStyle::ZaiEnableThinking {
                JsonView::Bool(true)
            } else {
                JsonView::Null
            }
            &&& body.field("chat_template_kwargs"@).field("enable_thinking"@) == if thinks
                && backend.reasoning == ReasoningStyle::QwenChatTemplate {
                JsonView::Bool(true)
            } else {
                JsonView::Null
            }
            &&& !(thinks && backend.reasoning == ReasoningStyle::QwenChatTemplate)
                ==> body.field("chat_template_kwargs"@) == JsonView::Null
        }),
{
    lemma_openai_names();
}

/// A request in the OpenAI protocol goes to the URL of the backend with the body, says that it is
/// JSON, and carries the key where there is one that is not empty.
pub proof fn law_openai_request_is_addressed(
    backend: OpenAiView,
    messages: Seq<MessageView>,
    request: RequestView,
)
    ensures
        ({
            let r = openai_request(backend, messages, request);
            let json = ("content-type"@, "application/json"@);
            match backend.api_key {
                Some(key) if key.len() > 0 => {
                    &&& r is Ok <==> is_header_value("Bearer "@ + key)
                    &&& r matches Ok(h) ==> h.headers == seq![
                        json,
                        ("authorization"@, "Bearer "@ + key),
                    ]
                },
                _ => r matches Ok(h) && h.headers == seq![json],
            }
        }),
        openai_request(backend, messages, request) matches Ok(h) ==> {
            &&& h.url == backend.endpoint
            &&& h.body == openai_body(backend, messages, request)
        },
{
    let json = ("content-type"@, "application/json"@);
    if let Some(key) = backend.api_key {
        assert(seq![json].push(("authorization"@, "Bearer "@ + key)) =~= seq![
            json,
            ("authorization"@, "Bearer "@ + key),
        ]);
    }
}

/// A backend that is built keeps the key, the limit and the way of thinking, and asks at the given
/// URL, without slashes at its end, followed by the path.
pub proof fn law_openai_backend_is_as_configured(config: OpenAiConfigView)
    ensures
        openai_backend(config) matches Ok(b) ==> {
            &&& b.api_key == config.api_key
            &&& b.max_tokens_override == config.max_tokens
            &&& b.reasoning == config.reasoning
            &&& exists|base: Seq<char>, slashes: Seq<char>|
                #![trigger base + slashes]
                {
                    &&& config.base_url == base + slashes
                    &&& forall|i: int| 0 <= i < slashes.len() ==> #[trigger] slashes[i] == '/'
                    &&& base.len() > 0 ==> base.last() != '/'
                    &&& b.endpoint == base + "/chat/completions"@
                }
        },
{
    lemma_slashes(config.base_url);
}

/// A text is what is left without the slashes at its end, and those slashes.
pub proof fn lemma_slashes(s: Seq<char>)
    ensures
        ({
            let base = crate::text::without_end_slashes(s);
            let slashes = s.skip(base.len() as int);
            &&& base.len() <= s.len()
            &&& s == base + slashes
            &&& forall|i: int| 0 <= i < slashes.len() ==> #[trigger] slashes[i] == '/'
            &&& base.len() > 0 ==> base.last() != '/'
        }),
    decreases s.len(),
{
    let base = crate::text::without_end_slashes(s);
    if s.len() > 0 && s.last() == '/' {
        lemma_slashes(s.drop_last());
        let front = s.drop_last().skip(base.len() as int);
        let slashes = s.skip(base.len() as int);
        assert(slashes =~= front.push('/'));
        assert(s =~= s.drop_last().push('/'));
        assert(s.drop_last() == base + front);
        assert((base + front).push('/') =~= base + slashes);
        assert forall|i: int| 0 <= i < slashes.len() implies #[trigger] slashes[i] == '/' by {
            if i < front.len() {
                assert(front[i] == '/');
            }
        }
    } else {
        assert(s =~= base + s.skip(base.len() as int));
    }
}

/// A request to Ollama goes to its URL, says that it is JSON, carries the key where there is one,
/// asks for a stream, and holds the model, the conversation, the limit on the answer, whether to
/// think, and the tools where there are any.
pub proof fn law_ollama_request_holds_the_request(
    endpoint: Seq<char>,
    api_key: Seq<char>,
    messages: Seq<MessageView>,
    request: RequestView,
)
    ensures
        ({
            let r = ollama_request(endpoint, api_key, messages, request);
            let body = r.body;
            let json = ("content-type"@, "application/json"@);
            let thinks = request.thinking matches Some(t) && t.enabled;
            &&& r.url == endpoint
            &&& api_key.len() == 0 ==> r.headers == seq![json]
            &&& api_key.len() > 0 ==> r.headers == seq![
                json,
                ("authorization"@, "Bearer "@ + api_key),
            ]
            &&& body.field("stream"@) == JsonView::Bool(true)
            &&& body.field("model"@) == JsonView::Str(request.model)
            &&& body.field("messages"@) == JsonView::Array(
                chat_messages(Dialect::Ollama, messages),
            )
            &&& body.field("options"@).field("num_predict"@).uint() == Some(
                request.max_tokens as u64,
            )
            &&& body.field("options"@).field("thinking"@) == if thinks {
                JsonView::Bool(true)
            } else {
                JsonView::Null
            }
            &&& if request.tools.len() == 0 {
                body.field("tools"@) == JsonView::Null
            } else {
                &&& body.field("tools"@) matches JsonView::Array(items) && items.len()
                    == request.tools.len()
                &&& forall|i: int|
                    0 <= i < request.tools.len() ==> (#[trigger] body.field("tools"@).item(i))
                        == function_json(request.tools[i])
            }
        }),
{
    lemma_ollama_names();
    let json = ("content-type"@, "application/json"@);
    assert(seq![json].push(("authorization"@, "Bearer "@ + api_key)) =~= seq![
        json,
        ("authorization"@, "Bearer "@ + api_key),
    ]);
}

proof fn lemma_chat_names()
    ensures
        "role"@ != "content"@,
        "role"@ != "tool_call_id"@,
        "role"@ != "tool_calls"@,
        "content"@ != "tool_call_id"@,
        "content"@ != "tool_calls"@,
        "tool_call_id"@ != "tool_calls"@,
        "id"@ != "type"@,
        "id"@ != "function"@,
        "type"@ != "function"@,
        "name"@ != "arguments"@,
        "type"@ != "text"@,
{
    reveal_strlit("role");
    reveal_strlit("content");
    reveal_strlit("tool_call_id");
    reveal_strlit("tool_calls");
    reveal_strlit("id");
    reveal_strlit("type");
    reveal_strlit("function");
    reveal_strlit("name");
    reveal_strlit("arguments");
    reveal_strlit("text");
    assert("role"@.len() != "content"@.len());
    assert("role"@.len() != "tool_call_id"@.len());
    assert("role"@.len() != "tool_calls"@.len());
    assert("content"@.len() != "tool_call_id"@.len());
    assert("content"@.len() != "tool_calls"@.len());
    assert("tool_call_id"@.len() != "tool_calls"@.len());
    assert("id"@.len() != "type"@.len());
    assert("id"@.len() != "function"@.len());
    assert("type"@.len() != "function"@.len());
    assert("name"@.len() != "arguments"@.len());
    assert("type"@[1] != "text"@[1]);
}

proof fn lemma_openai_names()
    ensures
        "model"@ != "messages"@,
        "model"@ != "stream"@,
        "model"@ != "max_tokens"@,
        "model"@ != "tools"@,
        "model"@ != "parallel_tool_calls"@,
        "model"@ != "enable_thinking"@,
        "model"@ != "chat_template_kwargs"@,
        "messages"@ != "stream"@,
        "messages"@ != "max_tokens"@,
        "messages"@ != "tools"@,
        "messages"@ != "parallel_tool_calls"@,
        "messages"@ != "enable_thinking"@,
        "messages"@ != "chat_template_kwargs"@,
        "stream"@ != "max_tokens"@,
        "stream"@ != "tools"@,
        "stream"@ != "parallel_tool_calls"@,
        "stream"@ != "enable_thinking"@,
        "stream"@ != "chat_template_kwargs"@,
        "max_tokens"@ != "tools"@,
        "max_tokens"@ != "parallel_tool_calls"@,
        "max_tokens"@ != "enable_thinking"@,
        "max_tokens"@ != "chat_template_kwargs"@,
        "tools"@ != "parallel_tool_calls"@,
        "tools"@ != "enable_thinking"@,
        "tools"@ != "chat_template_kwargs"@,
        "parallel_tool_calls"@ != "enable_thinking"@,
        "parallel_tool_calls"@ != "chat_template_kwargs"@,
        "enable_thinking"@ != "chat_template_kwargs"@,
{
    reveal_strlit("model");
    reveal_strlit("messages");
    reveal_strlit("stream");
    reveal_strlit("max_tokens");
    reveal_strlit("tools");
    reveal_strlit("parallel_tool_calls");
    reveal_strlit("enable_thinking");
    reveal_strlit("chat_template_kwargs");
    assert("model"@.len() != "messages"@.len());
    assert("model"@.len() != "stream"@.len());
    assert("model"@.len() != "max_tokens"@.len());
    assert("model"@[0] != "tools"@[0]);
    assert("model"@.len() != "parallel_tool_calls"@.len());
    assert("model"@.len() != "enable_thinking"@.len());
    assert("model"@.len() != "chat_template_kwargs"@.len());
    assert("messages"@.len() != "stream"@.len());
    assert("messages"@.len() != "max_tokens"@.len());
    assert("messages"@.len() != "tools"@.len());
    assert("messages"@.len() != "parallel_tool_calls"@.len());
    assert("messages"@.len() != "enable_thinking"@.len());
    assert("messages"@.len() != "chat_template_kwargs"@.len());
    assert("stream"@.len() != "max_tokens"@.len());
    assert("stream"@.len() != "tools"@.len());
    assert("stream"@.len() != "parallel_tool_calls"@.len());
    assert("stream"@.len() != "enable_thinking"@.len());
    assert("stream"@.len() != "chat_template_kwargs"@.len());
    assert("max_tokens"@.len() != "tools"@.len());
    assert("max_tokens"@.len() != "parallel_tool_calls"@.len());
    assert("max_tokens"@.len() != "enable_thinking"@.len());
    assert("max_tokens"@.len() != "chat_template_kwargs"@.len());
    assert("tools"@.len() != "parallel_tool_calls"@.len());
    assert("tools"@.len() != "enable_thinking"@.len());
    assert("tools"@.len() != "chat_template_kwargs"@.len());
    assert("parallel_tool_calls"@.len() != "enable_thinking"@.len());
    assert("parallel_tool_calls"@.len() != "chat_template_kwargs"@.len());
    assert("enable_thinking"@.len() != "chat_template_kwargs"@.len());
}

proof fn lemma_ollama_names()
    ensures
        "model"@ != "messages"@,
        "model"@ != "stream"@,
        "model"@ != "options"@,
        "model"@ != "tools"@,
        "messages"@ != "stream"@,
        "messages"@ != "options"@,
        "messages"@ != "tools"@,
        "stream"@ != "options"@,
        "stream"@ != "tools"@,
        "options"@ != "tools"@,
        "num_predict"@ != "thinking"@,
{
    reveal_strlit("model");
    reveal_strlit("messages");
    reveal_strlit("stream");
    reveal_strlit("options");
    reveal_strlit("tools");
    reveal_strlit("num_predict");
    reveal_strlit("thinking");
    assert("model"@.len() != "messages"@.len());
    assert("model"@.len() != "stream"@.len());
    assert("model"@.len() != "options"@.len());
    assert("model"@[0] != "tools"@[0]);
    assert("messages"@.len() != "stream"@.len());
    assert("messages"@.len() != "options"@.len());
    assert("messages"@.len() != "tools"@.len());
    assert("stream"@.len() != "options"@.len());
    assert("stream"@.len() != "tools"@.len());
    assert("options"@.len() != "tools"@.len());
    assert("num_predict"@.len() != "thinking"@.len());
}

} // verus!
