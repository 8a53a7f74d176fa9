//! What holds of the backends beyond a single call.
use vstd::prelude::*;

use crate::backend::anthropic_compat::{anthropic_messages, blocks_json, is_replayable, replayable};
use crate::backend::anthropic_sse::AnthropicParserView;
use crate::backend::opencode_go::{opencode_go_backend, ProtocolView};
use crate::config::{first_shared, OpenCodeGoConfig};
use crate::json::JsonView;
use crate::text::texts;
use crate::types::{BlockView, MessageView, StreamView};

verus! {

/// The parser after several pieces of an answer.
pub open spec fn after_all(p: AnthropicParserView, pieces: Seq<JsonView>) -> AnthropicParserView
    decreases pieces.len(),
{
    if pieces.len() == 0 {
        p
    } else {
        after_all(p, pieces.drop_last()).after(pieces.last()).parser
    }
}

/// Texts one after another.
pub open spec fn concat(parts: Seq<Seq<char>>) -> Seq<char>
    decreases parts.len(),
{
    if parts.len() == 0 {
        Seq::empty()
    } else {
        concat(parts.drop_last()) + parts.last()
    }
}

/// Whether a piece of an answer holds a part of the signature of block `i`.
pub open spec fn is_signature_part(j: JsonView, i: u64, part: Seq<char>) -> bool {
    &&& j.field("type"@).text() == Some("content_block_delta"@)
    &&& j.field("index"@).uint() == Some(i)
    &&& j.field("delta"@).field("type"@).text() == Some("signature_delta"@)
    &&& j.field("delta"@).field("signature"@).text() == Some(part)
}

/// Whether a piece of an answer begins thoughts in block `i`.
pub open spec fn is_thinking_start(j: JsonView, i: u64) -> bool {
    &&& j.field("type"@).text() == Some("content_block_start"@)
    &&& j.field("index"@).uint() == Some(i)
    &&& j.field("content_block"@).field("type"@).text() == Some("thinking"@)
}

/// Whether a piece of an answer begins the call of a tool in block `i`.
pub open spec fn is_call_start(j: JsonView, i: u64, id: Seq<char>, name: Seq<char>) -> bool {
    &&& j.field("type"@).text() == Some("content_block_start"@)
    &&& j.field("index"@).uint() == Some(i)
    &&& j.field("content_block"@).field("type"@).text() == Some("tool_use"@)
    &&& j.field("content_block"@).field("id"@).text() == Some(id)
    &&& j.field("content_block"@).field("name"@).text() == Some(name)
}

/// Whether a piece of an answer ends block `i`.
pub open spec fn is_block_stop(j: JsonView, i: u64) -> bool {
    &&& j.field("type"@).text() == Some("content_block_stop"@)
    &&& j.field("index"@).uint() == Some(i)
}

/// Events wait in the order in which they came, and none is lost, whatever is read next and
/// whether or not that fails.
pub proof fn law_events_wait_in_order(p: AnthropicParserView, j: JsonView)
    ensures
        p.queue.is_prefix_of(p.after(j).parser.queue),
{
    let q = p.after(j).parser.queue;
    assert(p.queue =~= q.subrange(0, p.queue.len() as int));
}

/// The parts of a signature add up, in the order in which they come; nothing else changes.
pub proof fn law_signature_parts_add_up(
    p: AnthropicParserView,
    i: u64,
    pieces: Seq<JsonView>,
    parts: Seq<Seq<char>>,
)
    requires
        pieces.len() == parts.len(),
        forall|k: int| 0 <= k < pieces.len() ==> is_signature_part(#[trigger] pieces[k], i, parts[k]),
    ensures
        after_all(p, pieces).signature(i) == p.signature(i) + concat(parts),
        after_all(p, pieces) == (AnthropicParserView {
            signatures: after_all(p, pieces).signatures,
            ..p
        }),
        forall|k: u64|
            k != i ==> after_all(p, pieces).signature(k) == #[trigger] p.signature(k),
        p.signatures.contains_key(i) ==> after_all(p, pieces).signatures.contains_key(i),
    decreases pieces.len(),
{
    lemma_literals();
    if pieces.len() == 0 {
        assert(p.signature(i) + concat(parts) =~= p.signature(i));
    } else {
        let before = after_all(p, pieces.drop_last());
        assert forall|k: int| 0 <= k < pieces.drop_last().len() implies is_signature_part(
            #[trigger] pieces.drop_last()[k],
            i,
            parts.drop_last()[k],
        ) by {
            assert(is_signature_part(pieces[k], i, parts[k]));
        }
        law_signature_parts_add_up(p, i, pieces.drop_last(), parts.drop_last());
        assert(is_signature_part(pieces[pieces.len() - 1], i, parts[parts.len() - 1]));
        assert((p.signature(i) + concat(parts.drop_last())) + parts.last() =~= p.signature(i)
            + concat(parts));
    }
}

/// Thoughts that begin, whose signature comes in parts, and that end, are reported with the whole
/// signature, however it was cut.
pub proof fn law_whole_signature_is_reported(
    p: AnthropicParserView,
    i: u64,
    start: JsonView,
    pieces: Seq<JsonView>,
    parts: Seq<Seq<char>>,
    stop: JsonView,
)
    requires
        !p.tool_use.contains(i),
        is_thinking_start(start, i),
        pieces.len() == parts.len(),
        forall|k: int| 0 <= k < pieces.len() ==> is_signature_part(#[trigger] pieces[k], i, parts[k]),
        is_block_stop(stop, i),
    ensures
        after_all(p.after(start).parser, pieces).after(stop).error is None,
        after_all(p.after(start).parser, pieces).after(stop).parser.queue == p.queue.push(
            StreamView::ThinkingSignature(concat(parts)),
        ),
{
    lemma_literals();
    let begun = p.after(start).parser;
    assert(begun.signature(i) =~= Seq::empty());
    law_signature_parts_add_up(begun, i, pieces, parts);
    assert(Seq::empty() + concat(parts) =~= concat(parts));
    assert(begun.queue =~= p.queue);
}

/// A call that begins is reported at once, and its end when its block ends.
pub proof fn law_call_is_reported(
    p: AnthropicParserView,
    i: u64,
    id: Seq<char>,
    name: Seq<char>,
    start: JsonView,
    stop: JsonView,
)
    requires
        !p.signatures.contains_key(i),
        is_call_start(start, i, id, name),
        is_block_stop(stop, i),
    ensures
        p.after(start).error is None,
        p.after(start).parser.after(stop).error is None,
        p.after(start).parser.after(stop).parser.queue == p.queue.push(
            StreamView::ToolUseStart { id, name },
        ).push(StreamView::ToolUseDone),
        !p.after(start).parser.after(stop).parser.tool_use.contains(i),
{
    lemma_literals();
}

proof fn lemma_literals()
    ensures
        "content_block_start"@ != "message_start"@,
        "content_block_delta"@ != "message_start"@,
        "content_block_delta"@ != "content_block_start"@,
        "content_block_stop"@ != "message_start"@,
        "content_block_stop"@ != "content_block_start"@,
        "content_block_stop"@ != "content_block_delta"@,
        "thinking"@ != "tool_use"@,
        "thinking"@ != "redacted_thinking"@,
        "signature_delta"@ != "input_json_delta"@,
        "signature_delta"@ != "thinking_delta"@,
{
    reveal_strlit("content_block_start");
    reveal_strlit("content_block_delta");
    reveal_strlit("content_block_stop");
    reveal_strlit("message_start");
    reveal_strlit("thinking");
    reveal_strlit("tool_use");
    reveal_strlit("redacted_thinking");
    reveal_strlit("signature_delta");
    reveal_strlit("input_json_delta");
    reveal_strlit("thinking_delta");
    assert("content_block_start"@[0] != "message_start"@[0]);
    assert("content_block_delta"@[0] != "message_start"@[0]);
    assert("content_block_delta"@[14] != "content_block_start"@[14]);
    assert("content_block_stop"@[0] != "message_start"@[0]);
    assert("content_block_stop"@.len() != "content_block_start"@.len());
    assert("content_block_stop"@.len() != "content_block_delta"@.len());
    assert("thinking"@[1] != "tool_use"@[1]);
    assert("thinking"@.len() != "redacted_thinking"@.len());
    assert("signature_delta"@.len() != "input_json_delta"@.len());
    assert("signature_delta"@.len() != "thinking_delta"@.len());
}

/// A thought without a signature is never sent, nor a message of which nothing is left: each
/// message that is sent holds what can be replayed of some message, and that is not nothing.
pub proof fn law_unsigned_thoughts_are_not_sent(messages: Seq<MessageView>, k: int)
    requires
        0 <= k < anthropic_messages(messages).len(),
    ensures
        exists|m: int|
            0 <= m < messages.len() && {
                let kept = replayable((#[trigger] messages[m]).content);
                &&& kept.len() > 0
                &&& anthropic_messages(messages)[k].field("content"@) == JsonView::Array(
                    blocks_json(kept),
                )
                &&& forall|b: int| 0 <= b < kept.len() ==> is_replayable(#[trigger] kept[b])
            },
    decreases messages.len(),
{
    let rest = messages.drop_last();
    let kept = replayable(messages.last().content);
    if k < anthropic_messages(rest).len() {
        law_unsigned_thoughts_are_not_sent(rest, k);
        let m = choose|m: int|
            0 <= m < rest.len() && {
                let kept = replayable((#[trigger] rest[m]).content);
                &&& kept.len() > 0
                &&& anthropic_messages(rest)[k].field("content"@) == JsonView::Array(
                    blocks_json(kept),
                )
                &&& forall|b: int| 0 <= b < kept.len() ==> is_replayable(#[trigger] kept[b])
            };
        assert(messages[m] == rest[m]);
    } else {
        messages.last().content.lemma_filter_pred(
            |b: BlockView| is_replayable(b),
            0,
        );
        assert forall|b: int| 0 <= b < kept.len() implies is_replayable(#[trigger] kept[b]) by {
            messages.last().content.lemma_filter_pred(|b: BlockView| is_replayable(b), b);
        }
        assert(messages[messages.len() - 1] == messages.last());
    }
}

/// No model is among both lists exactly where none is shared.
pub proof fn law_first_shared(models: Seq<Seq<char>>, others: Seq<Seq<char>>)
    ensures
        first_shared(models, others) is None <==> forall|m: Seq<char>|
            models.contains(m) ==> !#[trigger] others.contains(m),
        first_shared(models, others) matches Some(m) ==> models.contains(m) && others.contains(m),
    decreases models.len(),
{
    if models.len() > 0 {
        let rest = models.drop_first();
        law_first_shared(rest, others);
        assert(models.contains(models[0]));
        assert forall|m: Seq<char>| #[trigger] models.contains(m) <==> m == models[0]
            || rest.contains(m) by {
            if models.contains(m) {
                let k = choose|k: int| 0 <= k < models.len() && models[k] == m;
                if k > 0 {
                    assert(rest[k - 1] == m);
                }
            }
            if rest.contains(m) {
                let k = choose|k: int| 0 <= k < rest.len() && rest[k] == m;
                assert(models[k + 1] == m);
            }
        }
    }
}

/// Where a backend is built, the model is in one list and not in the other, and that list decides
/// which protocol is spoken.
pub proof fn law_one_list_decides(config: OpenCodeGoConfig, model: Seq<char>)
    requires
        opencode_go_backend(config, model) is Ok,
    ensures
        match opencode_go_backend(config, model)->Ok_0 {
            ProtocolView::Anthropic(_) => {
                &&& texts(config.anthropic_models@).contains(model)
                &&& !texts(config.openai_models@).contains(model)
            },
            ProtocolView::OpenAi(_) => {
                &&& texts(config.openai_models@).contains(model)
                &&& !texts(config.anthropic_models@).contains(model)
            },
        },
{
    law_first_shared(texts(config.openai_models@), texts(config.anthropic_models@));
}

} // verus!
