//! Conversations on the wire in the chat protocols that name the results of calls by role.
use vstd::prelude::*;

use crate::backend::wire::{
    block_json, block_to_json, role_name, role_text, str_json, text_json, text_to_json,
};
use crate::json::{items_view, json_text, lemma_items_push, Json, JsonView};
use crate::text::{join_texts, joined, texts};
use crate::types::{
    blocks_view, messages_view, text_blocks, texts_of_blocks, BlockView, ContentBlock, Message,
    MessageView, Role,
};

verus! {

/// Which of the chat protocols is spoken.
#[derive(Clone, Copy, Debug, PartialEq, Eq, Structural)]
pub enum Dialect {
    /// Contents are lists of blocks, and arguments are JSON as text.
    OpenAi,
    /// Contents are texts, and arguments are JSON.
    Ollama,
}

/// Whether there is a result of a call among the blocks.
pub open spec fn has_tool_result(s: Seq<BlockView>) -> bool {
    exists|i: int| 0 <= i < s.len() && #[trigger] s[i] is ToolResult
}

/// Whether there is a call among the blocks.
pub open spec fn has_tool_use(s: Seq<BlockView>) -> bool {
    exists|i: int| 0 <= i < s.len() && #[trigger] s[i] is ToolUse
}

/// A block of a message that answers calls: a message of its own for each result and each text.
pub open spec fn answer_message(dialect: Dialect, block: BlockView) -> Seq<JsonView> {
    match block {
        BlockView::ToolResult { tool_use_id, content, .. } => seq![
            JsonView::Object(
                map![
                    "role"@ => str_json("tool"@),
                    "tool_call_id"@ => str_json(tool_use_id),
                    "content"@ => str_json(content),
                ],
            ),
        ],
        BlockView::Text(text) => seq![
            JsonView::Object(
                map![
                    "role"@ => str_json("user"@),
                    "content"@ => match dialect {
                        Dialect::OpenAi => JsonView::Array(seq![text_json(text)]),
                        Dialect::Ollama => str_json(text),
                    },
                ],
            ),
        ],
        _ => Seq::empty(),
    }
}

/// The blocks of a message that answers calls.
pub open spec fn answer_messages(dialect: Dialect, s: Seq<BlockView>) -> Seq<JsonView>
    decreases s.len(),
{
    if s.len() == 0 {
        Seq::empty()
    } else {
        answer_messages(dialect, s.drop_last()) + answer_message(dialect, s.last())
    }
}

/// A call on the wire.
pub open spec fn call_json(
    dialect: Dialect,
    id: Seq<char>,
    name: Seq<char>,
    input: JsonView,
) -> JsonView {
    JsonView::Object(
        map![
            "id"@ => str_json(id),
            "type"@ => str_json("function"@),
            "function"@ => JsonView::Object(
                map![
                    "name"@ => str_json(name),
                    "arguments"@ => match dialect {
                        Dialect::OpenAi => str_json(json_text(input)),
                        Dialect::Ollama => input,
                    },
                ],
            ),
        ],
    )
}

/// The calls among the blocks on the wire.
pub open spec fn calls_json(dialect: Dialect, s: Seq<BlockView>) -> Seq<JsonView>
    decreases s.len(),
{
    if s.len() == 0 {
        Seq::empty()
    } else {
        match s.last() {
            BlockView::ToolUse { id, name, input } => calls_json(dialect, s.drop_last()).push(
                call_json(dialect, id, name, input),
            ),
            _ => calls_json(dialect, s.drop_last()),
        }
    }
}

/// A message with calls on the wire: its texts in one, where there are any, and its calls.
pub open spec fn calling_message(dialect: Dialect, s: Seq<BlockView>) -> JsonView {
    let base = map!["role"@ => str_json("assistant"@)];
    let said = if text_blocks(s).len() == 0 {
        base
    } else {
        base.insert("content"@, str_json(joined(text_blocks(s), ""@)))
    };
    JsonView::Object(said.insert("tool_calls"@, JsonView::Array(calls_json(dialect, s))))
}

/// The blocks of a plain message on the wire; the assistant's thoughts are left out.
pub open spec fn plain_blocks(role: Role, s: Seq<BlockView>) -> Seq<JsonView>
    decreases s.len(),
{
    if s.len() == 0 {
        Seq::empty()
    } else if role == Role::Assistant && (s.last() is Thinking || s.last() is RedactedThinking) {
        plain_blocks(role, s.drop_last())
    } else {
        plain_blocks(role, s.drop_last()).push(block_json(s.last()))
    }
}

/// A message without calls and results on the wire.
pub open spec fn plain_message(dialect: Dialect, m: MessageView) -> JsonView {
    JsonView::Object(
        map![
            "role"@ => str_json(role_name(m.role)),
            "content"@ => match dialect {
                Dialect::OpenAi => JsonView::Array(plain_blocks(m.role, m.content)),
                Dialect::Ollama => str_json(joined(text_blocks(m.content), ""@)),
            },
        ],
    )
}

/// A message on the wire.
pub open spec fn chat_message(dialect: Dialect, m: MessageView) -> Seq<JsonView> {
    if m.role == Role::User && has_tool_result(m.content) {
        answer_messages(dialect, m.content)
    } else if m.role == Role::Assistant && has_tool_use(m.content) {
        seq![calling_message(dialect, m.content)]
    } else {
        seq![plain_message(dialect, m)]
    }
}

/// A conversation on the wire.
pub open spec fn chat_messages(dialect: Dialect, s: Seq<MessageView>) -> Seq<JsonView>
    decreases s.len(),
{
    if s.len() == 0 {
        Seq::empty()
    } else {
        chat_messages(dialect, s.drop_last()) + chat_message(dialect, s.last())
    }
}

fn any_tool_result(content: &Vec<ContentBlock>) -> (r: bool)
    ensures
        r == has_tool_result(blocks_view(content@)),
{
    let mut i: usize = 0;
    while i < content.len()
        invariant
            i <= content.len(),
            forall|k: int| 0 <= k < i ==> !(#[trigger] content@[k]@ is ToolResult),
        decreases content.len() - i,
    {
        if let ContentBlock::ToolResult { .. } = &content[i] {
            assert(blocks_view(content@)[i as int] is ToolResult);
            return true;
        }
        i += 1;
    }
    assert forall|k: int| 0 <= k < blocks_view(content@).len() implies !(#[trigger] blocks_view(
        content@,
    )[k] is ToolResult) by {
        assert(!(content@[k]@ is ToolResult));
    }
    false
}

fn any_tool_use(content: &Vec<ContentBlock>) -> (r: bool)
    ensures
        r == has_tool_use(blocks_view(content@)),
{
    let mut i: usize = 0;
    while i < content.len()
        invariant
            i <= content.len(),
            forall|k: int| 0 <= k < i ==> !(#[trigger] content@[k]@ is ToolUse),
        decreases content.len() - i,
    {
        if let ContentBlock::ToolUse { .. } = &content[i] {
            assert(blocks_view(content@)[i as int] is ToolUse);
            return true;
        }
        i += 1;
    }
    assert forall|k: int| 0 <= k < blocks_view(content@).len() implies !(#[trigger] blocks_view(
        content@,
    )[k] is ToolUse) by {
        assert(!(content@[k]@ is ToolUse));
    }
    false
}

/// Adds an item, and keeps track of what the items say.
fn push_item(items: &mut Vec<Json>, item: Json)
    ensures
        items_view(final(items)@) == items_view(old(items)@).push(item@),
{
    proof {
        lemma_items_push(items@, item);
    }
    items.push(item);
}

fn push_answers(dialect: Dialect, content: &Vec<ContentBlock>, items: &mut Vec<Json>)
    ensures
        items_view(final(items)@) == items_view(old(items)@) + answer_messages(
            dialect,
            blocks_view(content@),
        ),
{
    let ghost lead = items_view(items@);
    let ghost all = blocks_view(content@);
    let mut i: usize = 0;
    assert(lead =~= lead + answer_messages(dialect, all.take(0)));
    while i < content.len()
        invariant
            i <= content.len(),
            all == blocks_view(content@),
            items_view(items@) == lead + answer_messages(dialect, all.take(i as int)),
        decreases content.len() - i,
    {
        let ghost before = items_view(items@);
        proof {
            assert(all.take(i + 1).drop_last() =~= all.take(i as int));
            assert(all.take(i + 1).last() == content@[i as int]@);
        }
        match &content[i] {
            ContentBlock::ToolResult { tool_use_id, content, .. } => {
                push_item(
                    items,
                    Json::object().with("role", Json::str("tool")).with(
                        "tool_call_id",
                        Json::str(tool_use_id.as_str()),
                    ).with("content", Json::str(content.as_str())),
                );
            },
            ContentBlock::Text(text) => {
                let body = match dialect {
                    Dialect::OpenAi => {
                        let mut one: Vec<Json> = Vec::new();
                        push_item(&mut one, text_to_json(text.as_str()));
                        assert(items_view(one@) =~= seq![text_json(text@)]);
                        Json::array(one)
                    },
                    Dialect::Ollama => Json::str(text.as_str()),
                };
                push_item(
                    items,
                    Json::object().with("role", Json::str("user")).with("content", body),
                );
            },
            _ => {},
        }
        proof {
            assert(items_view(items@) =~= before + answer_message(dialect, content@[i as int]@));
            assert(items_view(items@) =~= lead + answer_messages(dialect, all.take(i + 1)));
        }
        i += 1;
    }
    assert(all.take(i as int) =~= all);
}

fn calls_to_json(dialect: Dialect, content: &Vec<ContentBlock>) -> (r: Json)
    ensures
        r@ == JsonView::Array(calls_json(dialect, blocks_view(content@))),
{
    let ghost all = blocks_view(content@);
    let mut items: Vec<Json> = Vec::new();
    let mut i: usize = 0;
    assert(items_view(items@) =~= calls_json(dialect, all.take(0)));
    while i < content.len()
        invariant
            i <= content.len(),
            all == blocks_view(content@),
            items_view(items@) == calls_json(dialect, all.take(i as int)),
        decreases content.len() - i,
    {
        proof {
            assert(all.take(i + 1).drop_last() =~= all.take(i as int));
            assert(all.take(i + 1).last() == content@[i as int]@);
        }
        if let ContentBlock::ToolUse { id, name, input } = &content[i] {
            let arguments = match dialect {
                Dialect::OpenAi => Json::Str(input.to_text()),
                Dialect::Ollama => input.duplicate(),
            };
            let function = Json::object().with("name", Json::str(name.as_str())).with(
                "arguments",
                arguments,
            );
            push_item(
                &mut items,
                Json::object().with("id", Json::str(id.as_str())).with(
                    "type",
                    Json::str("function"),
                ).with("function", function),
            );
        }
        i += 1;
    }
    assert(all.take(i as int) =~= all);
    Json::array(items)
}

fn plain_blocks_to_json(role: Role, content: &Vec<ContentBlock>) -> (r: Json)
    ensures
        r@ == JsonView::Array(plain_blocks(role, blocks_view(content@))),
{
    let ghost all = blocks_view(content@);
    let mut items: Vec<Json> = Vec::new();
    let mut i: usize = 0;
    assert(items_view(items@) =~= plain_blocks(role, all.take(0)));
    while i < content.len()
        invariant
            i <= content.len(),
            all == blocks_view(content@),
            items_view(items@) == plain_blocks(role, all.take(i as int)),
        decreases content.len() - i,
    {
        proof {
            assert(all.take(i + 1).drop_last() =~= all.take(i as int));
            assert(all.take(i + 1).last() == content@[i as int]@);
        }
        let thought = match &content[i] {
            ContentBlock::Thinking { .. } => true,
            ContentBlock::RedactedThinking { .. } => true,
            _ => false,
        };
        if !(role == Role::Assistant && thought) {
            push_item(&mut items, block_to_json(&content[i]));
        }
        i += 1;
    }
    assert(all.take(i as int) =~= all);
    Json::array(items)
}

fn calling_to_json(dialect: Dialect, content: &Vec<ContentBlock>) -> (r: Json)
    ensures
        r@ == calling_message(dialect, blocks_view(content@)),
{
    let parts = texts_of_blocks(content);
    let mut msg = Json::object().with("role", Json::str("assistant"));
    if parts.len() > 0 {
        msg = msg.with("content", Json::Str(join_texts(&parts, "")));
    }
    msg.with("tool_calls", calls_to_json(dialect, content))
}

/// A conversation on the wire.
pub fn messages_to_json(dialect: Dialect, messages: &[Message]) -> (r: Json)
    ensures
        r@ == JsonView::Array(chat_messages(dialect, messages_view(messages@))),
{
    let ghost all = messages_view(messages@);
    let mut items: Vec<Json> = Vec::new();
    let mut i: usize = 0;
    assert(items_view(items@) =~= chat_messages(dialect, all.take(0)));
    while i < messages.len()
        invariant
            i <= messages.len(),
            all == messages_view(messages@),
            items_view(items@) == chat_messages(dialect, all.take(i as int)),
        decreases messages.len() - i,
    {
        let ghost m = messages@[i as int]@;
        let ghost before = items_view(items@);
        proof {
            assert(all.take(i + 1).drop_last() =~= all.take(i as int));
            assert(all.take(i + 1).last() == m);
        }
        let content = &messages[i].content;
        let role = messages[i].role;
        if role == Role::User && any_tool_result(content) {
            push_answers(dialect, content, &mut items);
        } else if role == Role::Assistant && any_tool_use(content) {
            push_item(&mut items, calling_to_json(dialect, content));
        } else {
            let body = match dialect {
                Dialect::OpenAi => plain_blocks_to_json(role, content),
                Dialect::Ollama => Json::Str(join_texts(&texts_of_blocks(content), "")),
            };
            push_item(
                &mut items,
                Json::object().with("role", Json::str(role_text(role))).with("content", body),
            );
        }
        assert(items_view(items@) =~= before + chat_message(dialect, m));
        i += 1;
    }
    assert(all.take(i as int) =~= all);
    Json::array(items)
}

} // verus!
