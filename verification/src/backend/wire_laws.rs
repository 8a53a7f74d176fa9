//! What a conversation becomes in a request of the Anthropic Messages protocol.
use vstd::prelude::*;

use crate::backend::anthropic_compat::{
    anthropic_body, anthropic_messages, anthropic_request, blocks_json, checked_headers,
    is_replayable, replayable, wanted_headers, AnthropicConfigView, AuthStyle, Wanted,
};
use crate::backend::error::ErrorView;
use crate::backend::wire::{
    block_json, debug_form, function_json, is_header_value, tool_json, HttpView,
};
use crate::json::JsonView;
use crate::sequences::{lemma_flat_map_empty, lemma_flat_map_last};
use crate::types::{
    BlockView, MessageView, RequestView, Role, ThinkingDisplay, ThinkingMode, ToolDefinitionView,
};

verus! {

/// Each block is on the wire with its kind and with all that it says, under the names that the
/// protocol has for them.
pub proof fn law_block_says_what_it_said(b: BlockView)
    ensures
        ({
            let j = block_json(b);
            match b {
                BlockView::Text(text) => {
                    &&& j.field("type"@) == JsonView::Str("text"@)
                    &&& j.field("text"@) == JsonView::Str(text)
                },
                BlockView::ToolUse { id, name, input } => {
                    &&& j.field("type"@) == JsonView::Str("tool_use"@)
                    &&& j.field("id"@) == JsonView::Str(id)
                    &&& j.field("name"@) == JsonView::Str(name)
                    &&& j.field("input"@) == input
                },
                BlockView::ToolResult { tool_use_id, content, is_error } => {
                    &&& j.field("type"@) == JsonView::Str("tool_result"@)
                    &&& j.field("tool_use_id"@) == JsonView::Str(tool_use_id)
                    &&& j.field("content"@) == JsonView::Str(content)
                    &&& j.field("is_error"@) == JsonView::Bool(is_error)
                },
                BlockView::Thinking { text, signature } => {
                    &&& j.field("type"@) == JsonView::Str("thinking"@)
                    &&& j.field("thinking"@) == JsonView::Str(text)
                    &&& j.field("signature"@) == JsonView::Str(signature)
                },
                BlockView::RedactedThinking { data } => {
                    &&& j.field("type"@) == JsonView::Str("redacted_thinking"@)
                    &&& j.field("data"@) == JsonView::Str(data)
                },
            }
        }),
{
    lemma_block_names();
}

/// Two blocks that are the same on the wire are the same: nothing of a block is lost.
pub proof fn law_block_is_recoverable(a: BlockView, b: BlockView)
    requires
        block_json(a) == block_json(b),
    ensures
        a == b,
{
    lemma_block_kinds();
    law_block_says_what_it_said(a);
    law_block_says_what_it_said(b);
}

/// The messages of a conversation are sent in their order, and each as if it were alone.
pub proof fn law_messages_are_sent_in_order(s: Seq<MessageView>)
    ensures
        anthropic_messages(s) == s.flat_map(|m: MessageView| anthropic_messages(seq![m])),
    decreases s.len(),
{
    let f = |m: MessageView| anthropic_messages(seq![m]);
    if s.len() == 0 {
        lemma_flat_map_empty(s, f);
    } else {
        law_messages_are_sent_in_order(s.drop_last());
        lemma_flat_map_last(s, f);
        let one = seq![s.last()];
        assert(one.drop_last() =~= Seq::empty());
        assert(anthropic_messages(one.drop_last()) =~= Seq::empty());
        assert(anthropic_messages(s) =~= anthropic_messages(s.drop_last()) + anthropic_messages(one));
    }
}

/// A block on the wire, but for a thought without a signature, which is nowhere.
pub open spec fn sent_block(b: BlockView) -> Seq<JsonView> {
    match b {
        BlockView::Thinking { signature, .. } if signature.len() == 0 => Seq::empty(),
        _ => seq![block_json(b)],
    }
}

proof fn lemma_sent_blocks(s: Seq<BlockView>)
    ensures
        blocks_json(replayable(s)) == s.flat_map(|b: BlockView| sent_block(b)),
    decreases s.len(),
{
    let f = |b: BlockView| sent_block(b);
    let pick = |b: BlockView| is_replayable(b);
    reveal(Seq::filter);
    if s.len() == 0 {
        lemma_flat_map_empty(s, f);
        assert(blocks_json(replayable(s)) =~= Seq::empty());
    } else {
        lemma_sent_blocks(s.drop_last());
        lemma_flat_map_last(s, f);
        assert(replayable(s) == s.filter(pick));
        assert(blocks_json(replayable(s)) =~= blocks_json(replayable(s.drop_last())) + sent_block(
            s.last(),
        ));
    }
}

/// A message is sent under the name of its speaker with its blocks in their order, but without
/// thoughts that have no signature; where nothing is left, it is not sent.
pub proof fn law_message_says_what_it_said(m: MessageView)
    ensures
        ({
            let sent = anthropic_messages(seq![m]);
            let content = m.content.flat_map(|b: BlockView| sent_block(b));
            if content.len() == 0 {
                sent.len() == 0
            } else {
                &&& sent.len() == 1
                &&& sent[0].field("role"@) == JsonView::Str(
                    if m.role == Role::User {
                        "user"@
                    } else {
                        "assistant"@
                    },
                )
                &&& sent[0].field("content"@) == JsonView::Array(content)
            }
        }),
{
    lemma_message_names();
    lemma_sent_blocks(m.content);
    let one = seq![m];
    assert(one.drop_last() =~= Seq::empty());
    assert(anthropic_messages(one.drop_last()) =~= Seq::empty());
    assert(one.last() == m);
    assert(blocks_json(replayable(m.content)).len() == replayable(m.content).len());
}

/// A conversation whose thoughts are all signed and whose messages all say something can be read
/// off the request: two such conversations that are sent as the same are the same.
pub proof fn law_conversation_is_recoverable(a: Seq<MessageView>, b: Seq<MessageView>)
    requires
        forall|i: int| 0 <= i < a.len() ==> says_something(#[trigger] a[i]),
        forall|i: int| 0 <= i < b.len() ==> says_something(#[trigger] b[i]),
        anthropic_messages(a) == anthropic_messages(b),
    ensures
        a == b,
    decreases a.len() + b.len(),
{
    lemma_one_for_one(a);
    lemma_one_for_one(b);
    if a.len() == 0 {
        assert(a =~= b);
    } else {
        let x = a.last();
        let y = b.last();
        assert(says_something(a[a.len() - 1]) && says_something(b[b.len() - 1]));
        lemma_keeps_all(x);
        lemma_keeps_all(y);
        law_message_says_what_it_said(x);
        law_message_says_what_it_said(y);
        lemma_last_sent(a);
        lemma_last_sent(b);
        let cx = x.content.map_values(|b: BlockView| block_json(b));
        let cy = y.content.map_values(|b: BlockView| block_json(b));
        assert(anthropic_messages(seq![x]) =~= anthropic_messages(seq![y])) by {
            assert(anthropic_messages(a).last() == anthropic_messages(b).last());
        }
        assert(cx == cy);
        assert forall|i: int| 0 <= i < x.content.len() implies x.content[i] == y.content[i] by {
            assert(cx[i] == cy[i]);
            law_block_is_recoverable(x.content[i], y.content[i]);
        }
        assert(cx.len() == cy.len());
        assert(x.content =~= y.content);
        lemma_speakers();
        assert(x == y);
        assert(anthropic_messages(a.drop_last()) =~= anthropic_messages(a).drop_last());
        assert(anthropic_messages(b.drop_last()) =~= anthropic_messages(b).drop_last());
        law_conversation_is_recoverable(a.drop_last(), b.drop_last());
        assert(a =~= a.drop_last().push(x));
        assert(b =~= b.drop_last().push(y));
    }
}

/// Whether a message has a block, and no thought without a signature.
pub open spec fn says_something(m: MessageView) -> bool {
    m.content.len() > 0 && forall|i: int|
        0 <= i < m.content.len() ==> !((#[trigger] m.content[i]) matches BlockView::Thinking {
            signature,
            ..
        } && signature.len() == 0)
}

proof fn lemma_keeps_all(m: MessageView)
    requires
        says_something(m),
    ensures
        m.content.flat_map(|b: BlockView| sent_block(b)) == m.content.map_values(
            |b: BlockView| block_json(b),
        ),
{
    lemma_flat_map_singletons(m.content);
}

proof fn lemma_flat_map_singletons(s: Seq<BlockView>)
    requires
        forall|i: int|
            0 <= i < s.len() ==> !((#[trigger] s[i]) matches BlockView::Thinking {
                signature,
                ..
            } && signature.len() == 0),
    ensures
        s.flat_map(|b: BlockView| sent_block(b)) == s.map_values(|b: BlockView| block_json(b)),
    decreases s.len(),
{
    let f = |b: BlockView| sent_block(b);
    if s.len() == 0 {
        lemma_flat_map_empty(s, f);
        assert(s.map_values(|b: BlockView| block_json(b)) =~= Seq::empty());
    } else {
        let front = s.drop_last();
        assert forall|i: int| 0 <= i < front.len() implies !((#[trigger] front[i]) matches
            BlockView::Thinking { signature, .. } && signature.len() == 0) by {
            assert(front[i] == s[i]);
        }
        lemma_flat_map_singletons(front);
        lemma_flat_map_last(s, f);
        assert(s.last() == s[s.len() - 1]);
        assert(s.map_values(|b: BlockView| block_json(b)) =~= front.map_values(
            |b: BlockView| block_json(b),
        ) + seq![block_json(s.last())]);
    }
}

proof fn lemma_last_sent(s: Seq<MessageView>)
    requires
        s.len() > 0,
        says_something(s.last()),
    ensures
        anthropic_messages(seq![s.last()]).len() == 1,
        anthropic_messages(s) == anthropic_messages(s.drop_last()).push(
            anthropic_messages(seq![s.last()])[0],
        ),
{
    lemma_keeps_all(s.last());
    law_message_says_what_it_said(s.last());
    let one = seq![s.last()];
    assert(one.drop_last() =~= Seq::empty());
    assert(anthropic_messages(one.drop_last()) =~= Seq::empty());
}

proof fn lemma_one_for_one(s: Seq<MessageView>)
    requires
        forall|i: int| 0 <= i < s.len() ==> says_something(#[trigger] s[i]),
    ensures
        anthropic_messages(s).len() == s.len(),
    decreases s.len(),
{
    if s.len() > 0 {
        assert(says_something(s[s.len() - 1]));
        let front = s.drop_last();
        assert forall|i: int| 0 <= i < front.len() implies says_something(#[trigger] front[i]) by {
            assert(front[i] == s[i]);
        }
        lemma_one_for_one(front);
        lemma_last_sent(s);
    }
}

/// A tool is offered with its name, what it is for and what it takes.
pub proof fn law_tool_is_offered_as_it_is(t: ToolDefinitionView)
    ensures
        tool_json(t).field("name"@) == JsonView::Str(t.name),
        tool_json(t).field("description"@) == JsonView::Str(t.description),
        tool_json(t).field("input_schema"@) == t.input_schema,
        function_json(t).field("type"@) == JsonView::Str("function"@),
        function_json(t).field("function"@).field("name"@) == JsonView::Str(t.name),
        function_json(t).field("function"@).field("description"@) == JsonView::Str(t.description),
        function_json(t).field("function"@).field("parameters"@) == t.input_schema,
{
    lemma_tool_names();
}

/// The body of a request asks for a stream and holds the conversation, the model where it belongs
/// into the body and else the version, the limit on the answer, how to think where thinking is
/// enabled, and the tools where there are any.
pub proof fn law_body_holds_the_request(
    config: AnthropicConfigView,
    messages: Seq<MessageView>,
    request: RequestView,
)
    ensures
        ({
            let body = anthropic_body(config, messages, request);
            let limit = match config.max_tokens_override {
                Some(n) => n,
                None => request.max_tokens,
            };
            let thinks = request.thinking matches Some(t) && t.enabled;
            let budget = if thinks {
                match request.thinking->Some_0.mode {
                    ThinkingMode::Budget { tokens } => tokens,
                    ThinkingMode::Adaptive => 0,
                }
            } else {
                0
            };
            let thinking = body.field("thinking"@);
            &&& body.field("stream"@) == JsonView::Bool(true)
            &&& body.field("messages"@) == JsonView::Array(anthropic_messages(messages))
            &&& body.field("max_tokens"@).uint() matches Some(n) && n == limit + budget
            &&& body.field("model"@) == if config.include_model_in_body {
                JsonView::Str(request.model)
            } else {
                JsonView::Null
            }
            &&& body.field("anthropic_version"@) == if config.include_model_in_body {
                JsonView::Null
            } else {
                JsonView::Str(config.anthropic_version)
            }
            &&& !thinks ==> thinking == JsonView::Null
            &&& thinks ==> {
                &&& thinking.field("display"@) == JsonView::Str(
                    if request.thinking->Some_0.display == Some(ThinkingDisplay::Omitted) {
                        "omitted"@
                    } else {
                        "summarized"@
                    },
                )
                &&& match request.thinking->Some_0.mode {
                    ThinkingMode::Budget { tokens } => {
                        &&& thinking.field("type"@) == JsonView::Str("enabled"@)
                        &&& thinking.field("budget_tokens"@).uint() == Some(tokens as u64)
                    },
                    ThinkingMode::Adaptive => {
                        &&& thinking.field("type"@) == JsonView::Str("adaptive"@)
                        &&& thinking.field("budget_tokens"@) == JsonView::Null
                    },
                }
            }
            &&& if request.tools.len() == 0 {
                &&& body.field("tools"@) == JsonView::Null
                &&& body.field("tool_choice"@) == JsonView::Null
            } else {
                &&& body.field("tools"@) matches JsonView::Array(items) && items.len()
                    == request.tools.len()
                &&& forall|i: int|
                    0 <= i < request.tools.len() ==> (#[trigger] body.field("tools"@).item(i))
                        == tool_json(request.tools[i])
                &&& body.field("tool_choice"@).field("type"@) == JsonView::Str("auto"@)
                &&& body.field("tool_choice"@).field("disable_parallel_tool_use"@)
                    == JsonView::Bool(false)
            }
        }),
{
    lemma_body_names();
}

/// The headers that carry the key, in the style, and the version and the beta features, where they
/// are configured.
pub open spec fn configured_headers(config: AnthropicConfigView) -> Seq<(Seq<char>, Seq<char>)> {
    (match config.auth_token {
        Some(token) => seq![
            if config.auth_style == AuthStyle::Bearer {
                ("authorization"@, "Bearer "@ + token)
            } else {
                ("x-api-key"@, token)
            },
        ],
        None => Seq::empty(),
    }) + (if config.include_model_in_body {
        seq![("anthropic-version"@, config.anthropic_version)]
    } else {
        Seq::empty()
    }) + (match config.anthropic_beta {
        Some(beta) => seq![("anthropic-beta"@, beta)],
        None => Seq::empty(),
    })
}

/// A request goes to the configured URL with the body, says that it is JSON, and carries the
/// configured headers. It is refused exactly where one of these cannot be a header.
pub proof fn law_request_is_addressed(
    config: AnthropicConfigView,
    messages: Seq<MessageView>,
    request: RequestView,
)
    ensures
        ({
            let r = anthropic_request(config, messages, request);
            let extra = configured_headers(config);
            &&& r is Ok <==> forall|i: int|
                0 <= i < extra.len() ==> is_header_value((#[trigger] extra[i]).1)
            &&& r matches Ok(h) ==> {
                &&& h.url == config.endpoint
                &&& h.body == anthropic_body(config, messages, request)
                &&& h.headers == seq![("content-type"@, "application/json"@)] + extra
            }
        }),
{
    let wanted = wanted_headers(config);
    let extra = configured_headers(config);
    assert(wanted.map_values(|w: Wanted| w.header) =~= extra);
    lemma_checked(wanted);
    assert forall|i: int| 0 <= i < extra.len() implies (#[trigger] extra[i]) == wanted[i].header by {
        assert(wanted.map_values(|w: Wanted| w.header)[i] == extra[i]);
    }
    let r = anthropic_request(config, messages, request);
    if forall|i: int| 0 <= i < extra.len() ==> is_header_value((#[trigger] extra[i]).1) {
        assert forall|i: int| 0 <= i < wanted.len() implies is_header_value(
            (#[trigger] wanted[i]).header.1,
        ) by {
            assert(is_header_value(extra[i].1));
        }
        assert(r is Ok);
    }
    if r is Ok {
        assert forall|i: int| 0 <= i < extra.len() implies is_header_value(
            (#[trigger] extra[i]).1,
        ) by {
            assert(is_header_value(wanted[i].header.1));
        }
    }
}

proof fn lemma_checked(wanted: Seq<Wanted>)
    ensures
        checked_headers(wanted) is Ok <==> forall|i: int|
            0 <= i < wanted.len() ==> is_header_value((#[trigger] wanted[i]).header.1),
        checked_headers(wanted) matches Ok(h) ==> h == seq![
            ("content-type"@, "application/json"@),
        ] + wanted.map_values(|w: Wanted| w.header),
    decreases wanted.len(),
{
    let lead = seq![("content-type"@, "application/json"@)];
    let f = |w: Wanted| w.header;
    if wanted.len() == 0 {
        assert(lead + wanted.map_values(f) =~= lead);
    } else {
        let front = wanted.drop_last();
        lemma_checked(front);
        assert(wanted.last() == wanted[wanted.len() - 1]);
        assert((lead + front.map_values(f)).push(wanted.last().header) =~= lead
            + wanted.map_values(f));
        if checked_headers(wanted) is Ok {
            assert forall|i: int| 0 <= i < wanted.len() implies is_header_value(
                (#[trigger] wanted[i]).header.1,
            ) by {
                if i < front.len() {
                    assert(front[i] == wanted[i]);
                }
            }
        }
        if forall|i: int|
            0 <= i < wanted.len() ==> is_header_value((#[trigger] wanted[i]).header.1) {
            assert forall|i: int| 0 <= i < front.len() implies is_header_value(
                (#[trigger] front[i]).header.1,
            ) by {
                assert(front[i] == wanted[i]);
            }
        }
    }
}

proof fn lemma_block_names()
    ensures
        "type"@ != "text"@,
        "type"@ != "id"@,
        "type"@ != "name"@,
        "type"@ != "input"@,
        "id"@ != "name"@,
        "id"@ != "input"@,
        "name"@ != "input"@,
        "type"@ != "tool_use_id"@,
        "type"@ != "content"@,
        "type"@ != "is_error"@,
        "tool_use_id"@ != "content"@,
        "tool_use_id"@ != "is_error"@,
        "content"@ != "is_error"@,
        "type"@ != "thinking"@,
        "type"@ != "signature"@,
        "thinking"@ != "signature"@,
        "type"@ != "data"@,
{
    reveal_strlit("type");
    reveal_strlit("text");
    reveal_strlit("id");
    reveal_strlit("name");
    reveal_strlit("input");
    reveal_strlit("tool_use_id");
    reveal_strlit("content");
    reveal_strlit("is_error");
    reveal_strlit("thinking");
    reveal_strlit("signature");
    reveal_strlit("data");
    assert("type"@[1] != "text"@[1]);
    assert("type"@.len() != "id"@.len());
    assert("type"@[0] != "name"@[0]);
    assert("type"@.len() != "input"@.len());
    assert("id"@.len() != "name"@.len());
    assert("id"@.len() != "input"@.len());
    assert("name"@.len() != "input"@.len());
    assert("type"@.len() != "tool_use_id"@.len());
    assert("type"@.len() != "content"@.len());
    assert("type"@.len() != "is_error"@.len());
    assert("tool_use_id"@.len() != "content"@.len());
    assert("tool_use_id"@.len() != "is_error"@.len());
    assert("content"@.len() != "is_error"@.len());
    assert("type"@.len() != "thinking"@.len());
    assert("type"@.len() != "signature"@.len());
    assert("thinking"@.len() != "signature"@.len());
    assert("type"@[0] != "data"@[0]);
}

proof fn lemma_block_kinds()
    ensures
        "text"@ != "tool_use"@,
        "text"@ != "tool_result"@,
        "text"@ != "thinking"@,
        "text"@ != "redacted_thinking"@,
        "tool_use"@ != "tool_result"@,
        "tool_use"@ != "thinking"@,
        "tool_use"@ != "redacted_thinking"@,
        "tool_result"@ != "thinking"@,
        "tool_result"@ != "redacted_thinking"@,
        "thinking"@ != "redacted_thinking"@,
{
    reveal_strlit("text");
    reveal_strlit("tool_use");
    reveal_strlit("tool_result");
    reveal_strlit("thinking");
    reveal_strlit("redacted_thinking");
    assert("text"@.len() != "tool_use"@.len());
    assert("text"@.len() != "tool_result"@.len());
    assert("text"@.len() != "thinking"@.len());
    assert("text"@.len() != "redacted_thinking"@.len());
    assert("tool_use"@.len() != "tool_result"@.len());
    assert("tool_use"@[1] != "thinking"@[1]);
    assert("tool_use"@.len() != "redacted_thinking"@.len());
    assert("tool_result"@.len() != "thinking"@.len());
    assert("tool_result"@.len() != "redacted_thinking"@.len());
    assert("thinking"@.len() != "redacted_thinking"@.len());
}

proof fn lemma_message_names()
    ensures
        "role"@ != "content"@,
{
    reveal_strlit("role");
    reveal_strlit("content");
    assert("role"@.len() != "content"@.len());
}

proof fn lemma_speakers()
    ensures
        "user"@ != "assistant"@,
{
    reveal_strlit("user");
    reveal_strlit("assistant");
    assert("user"@.len() != "assistant"@.len());
}

proof fn lemma_tool_names()
    ensures
        "name"@ != "description"@,
        "name"@ != "input_schema"@,
        "description"@ != "input_schema"@,
        "type"@ != "function"@,
        "name"@ != "parameters"@,
        "description"@ != "parameters"@,
{
    reveal_strlit("name");
    reveal_strlit("description");
    reveal_strlit("input_schema");
    reveal_strlit("type");
    reveal_strlit("function");
    reveal_strlit("parameters");
    assert("name"@.len() != "description"@.len());
    assert("name"@.len() != "input_schema"@.len());
    assert("description"@.len() != "input_schema"@.len());
    assert("type"@.len() != "function"@.len());
    assert("name"@.len() != "parameters"@.len());
    assert("description"@.len() != "parameters"@.len());
}

proof fn lemma_body_names()
    ensures
        "max_tokens"@ != "stream"@,
        "max_tokens"@ != "messages"@,
        "max_tokens"@ != "model"@,
        "max_tokens"@ != "anthropic_version"@,
        "max_tokens"@ != "thinking"@,
        "max_tokens"@ != "tools"@,
        "max_tokens"@ != "tool_choice"@,
        "stream"@ != "messages"@,
        "stream"@ != "model"@,
        "stream"@ != "anthropic_version"@,
        "stream"@ != "thinking"@,
        "stream"@ != "tools"@,
        "stream"@ != "tool_choice"@,
        "messages"@ != "model"@,
        "messages"@ != "anthropic_version"@,
        "messages"@ != "thinking"@,
        "messages"@ != "tools"@,
        "messages"@ != "tool_choice"@,
        "model"@ != "anthropic_version"@,
        "model"@ != "thinking"@,
        "model"@ != "tools"@,
        "model"@ != "tool_choice"@,
        "anthropic_version"@ != "thinking"@,
        "anthropic_version"@ != "tools"@,
        "anthropic_version"@ != "tool_choice"@,
        "thinking"@ != "tools"@,
        "thinking"@ != "tool_choice"@,
        "tools"@ != "tool_choice"@,
        "type"@ != "budget_tokens"@,
        "type"@ != "display"@,
        "budget_tokens"@ != "display"@,
        "type"@ != "disable_parallel_tool_use"@,
{
    reveal_strlit("max_tokens");
    reveal_strlit("stream");
    reveal_strlit("messages");
    reveal_strlit("model");
    reveal_strlit("anthropic_version");
    reveal_strlit("thinking");
    reveal_strlit("tools");
    reveal_strlit("tool_choice");
    reveal_strlit("type");
    reveal_strlit("budget_tokens");
    reveal_strlit("display");
    reveal_strlit("disable_parallel_tool_use");
    assert("max_tokens"@.len() != "stream"@.len());
    assert("max_tokens"@.len() != "messages"@.len());
    assert("max_tokens"@.len() != "model"@.len());
    assert("max_tokens"@.len() != "anthropic_version"@.len());
    assert("max_tokens"@.len() != "thinking"@.len());
    assert("max_tokens"@.len() != "tools"@.len());
    assert("max_tokens"@.len() != "tool_choice"@.len());
    assert("stream"@.len() != "messages"@.len());
    assert("stream"@.len() != "model"@.len());
    assert("stream"@.len() != "anthropic_version"@.len());
    assert("stream"@.len() != "thinking"@.len());
    assert("stream"@.len() != "tools"@.len());
    assert("stream"@.len() != "tool_choice"@.len());
    assert("messages"@.len() != "model"@.len());
    assert("messages"@.len() != "anthropic_version"@.len());
    assert("messages"@[0] != "thinking"@[0]);
    assert("messages"@.len() != "tools"@.len());
    assert("messages"@.len() != "tool_choice"@.len());
    assert("model"@.len() != "anthropic_version"@.len());
    assert("model"@.len() != "thinking"@.len());
    assert("model"@[0] != "tools"@[0]);
    assert("model"@.len() != "tool_choice"@.len());
    assert("anthropic_version"@.len() != "thinking"@.len());
    assert("anthropic_version"@.len() != "tools"@.len());
    assert("anthropic_version"@.len() != "tool_choice"@.len());
    assert("thinking"@.len() != "tools"@.len());
    assert("thinking"@.len() != "tool_choice"@.len());
    assert("tools"@.len() != "tool_choice"@.len());
    assert("type"@.len() != "budget_tokens"@.len());
    assert("type"@.len() != "display"@.len());
    assert("budget_tokens"@.len() != "display"@.len());
    assert("type"@.len() != "disable_parallel_tool_use"@.len());
}

/// A text can be a header exactly where, in UTF-8, it holds no control character but the tab.
pub proof fn law_header_values(s: Seq<char>)
    ensures
        is_header_value(s) <==> !(exists|i: int|
            {
                let b = #[trigger] vstd::utf8::encode_utf8(s)[i];
                0 <= i < vstd::utf8::encode_utf8(s).len() && ((b < 32 && b != 9) || b == 127)
            }),
{
}

/// That a part of the configuration cannot be a header.
pub open spec fn cannot_be_header(what: Seq<char>, value: Seq<char>) -> Result<HttpView, ErrorView> {
    Err(
        ErrorView::Chain(
            seq![
                what + " contains characters invalid for an HTTP header value: "@ + debug_form(
                    value,
                ),
                "failed to parse header value"@,
            ],
        ),
    )
}

/// A request that is refused says which part of the configuration cannot be a header, and shows it:
/// the token first, then the version, then the beta features.
pub proof fn law_bad_header_is_named(
    config: AnthropicConfigView,
    messages: Seq<MessageView>,
    request: RequestView,
)
    ensures
        ({
            let r = anthropic_request(config, messages, request);
            let token_fits = config.auth_token matches Some(token) ==> is_header_value(
                if config.auth_style is Bearer {
                    "Bearer "@ + token
                } else {
                    token
                },
            );
            let version_fits = config.include_model_in_body ==> is_header_value(
                config.anthropic_version,
            );
            &&& !token_fits ==> r == cannot_be_header(
                if config.auth_style is Bearer {
                    "auth token"@
                } else {
                    "API key"@
                },
                config.auth_token->0,
            )
            &&& token_fits && !version_fits ==> r == cannot_be_header(
                "anthropic_version"@,
                config.anthropic_version,
            )
            &&& token_fits && version_fits && (config.anthropic_beta matches Some(beta)
                && !is_header_value(beta)) ==> r == cannot_be_header(
                "anthropic_beta"@,
                config.anthropic_beta->0,
            )
        }),
{
    let wanted = wanted_headers(config);
    let n = wanted.len();
    reveal_with_fuel(checked_headers, 4);
    if n > 0 {
        assert(wanted.drop_last().len() == n - 1);
        if n > 1 {
            assert(wanted.drop_last().last() == wanted[n - 2]);
            if n > 2 {
                assert(wanted.drop_last().drop_last().last() == wanted[n - 3]);
            }
        }
    }
}

} // verus!
