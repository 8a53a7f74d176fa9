//! What values say of what they hold, and how JSON is read.
use vstd::prelude::*;

use crate::agent::compact::{CompactionPlan, PlanView};
use crate::agent::effects::{effects_view, Effect, EffectView};
use crate::agent::registry::ToolRegistry;
use crate::agent::spawner::HeadlessOutcome;
use crate::backend::error::{BackendError, BackendErrorView, Error, ErrorView};
use crate::backend::wire::HttpRequest;
use crate::json::{fields_view, lemma_items_view, low32, with_field, Json, JsonView};
use crate::text::{opt_text, texts};
use crate::types::{
    events_view, messages_view, stream_view, AgentEvent, BlockView, ContentBlock, EventView,
    Message, RequestConfig, StreamEvent, StreamView,
};

verus! {

/// A block says what it holds.
pub proof fn law_block_holds_what_it_says(b: ContentBlock)
    ensures
        match (b, b@) {
            (ContentBlock::Text(t), BlockView::Text(text)) => text == t@,
            (
                ContentBlock::ToolUse { id, name, input },
                BlockView::ToolUse { id: i, name: n, input: v },
            ) => i == id@ && n == name@ && v == input@,
            (
                ContentBlock::ToolResult { tool_use_id, content, is_error },
                BlockView::ToolResult { tool_use_id: i, content: c, is_error: e },
            ) => i == tool_use_id@ && c == content@ && e == is_error,
            (
                ContentBlock::Thinking { text, signature },
                BlockView::Thinking { text: t, signature: s },
            ) => t == text@ && s == signature@,
            (
                ContentBlock::RedactedThinking { data },
                BlockView::RedactedThinking { data: d },
            ) => d == data@,
            _ => false,
        },
{
}

/// Messages say who speaks and each of their blocks, in their order.
pub proof fn law_messages_hold_what_they_say(s: Seq<Message>, i: int, k: int)
    requires
        0 <= i < s.len(),
    ensures
        messages_view(s).len() == s.len(),
        messages_view(s)[i].role == s[i].role,
        messages_view(s)[i].content.len() == s[i].content@.len(),
        0 <= k < s[i].content@.len() ==> messages_view(s)[i].content[k] == s[i].content@[k]@,
{
}

/// Events of a stream say what they hold, in their order.
pub proof fn law_stream_events_hold_what_they_say(s: Seq<StreamEvent>, i: int)
    requires
        0 <= i < s.len(),
    ensures
        stream_view(s).len() == s.len(),
        match (s[i], stream_view(s)[i]) {
            (StreamEvent::TextDelta(t), StreamView::TextDelta(v)) => v == t@,
            (StreamEvent::ThinkingDelta(t), StreamView::ThinkingDelta(v)) => v == t@,
            (StreamEvent::ThinkingSignature(t), StreamView::ThinkingSignature(v)) => v == t@,
            (
                StreamEvent::ToolUseStart { id, name },
                StreamView::ToolUseStart { id: i, name: n },
            ) => i == id@ && n == name@,
            (StreamEvent::ToolUseDelta(t), StreamView::ToolUseDelta(v)) => v == t@,
            (StreamEvent::ToolUseDone, StreamView::ToolUseDone) => true,
            (
                StreamEvent::Usage { input_tokens, output_tokens, stop_reason },
                StreamView::Usage { input_tokens: i, output_tokens: o, stop_reason: r },
            ) => i == input_tokens && o == output_tokens && r == stop_reason@,
            (StreamEvent::Done, StreamView::Done) => true,
            _ => false,
        },
{
}

/// Events of the agent say what they hold, in their order.
pub proof fn law_events_hold_what_they_say(s: Seq<AgentEvent>, i: int)
    requires
        0 <= i < s.len(),
    ensures
        events_view(s).len() == s.len(),
        match (s[i], events_view(s)[i]) {
            (AgentEvent::TokenReceived(t), EventView::TokenReceived(v)) => v == t@,
            (AgentEvent::ThinkingReceived(t), EventView::ThinkingReceived(v)) => v == t@,
            (AgentEvent::ResponseComplete(t), EventView::ResponseComplete(v)) => v == t@,
            (
                AgentEvent::ToolUseReceived { id, name, input, index },
                EventView::ToolUseReceived { id: i, name: n, input: v, index: k },
            ) => i == id@ && n == name@ && v == input@ && k == index,
            (
                AgentEvent::ToolConfirmationRequired { id, name, input, index },
                EventView::ToolConfirmationRequired { id: i, name: n, input: v, index: k },
            ) => i == id@ && n == name@ && v == input@ && k == index,
            (
                AgentEvent::ToolResult { name, content, is_error, index },
                EventView::ToolResult { name: n, content: c, is_error: e, index: k },
            ) => n == name@ && c == content@ && e == is_error && k == index,
            (AgentEvent::Error(t), EventView::Error(v)) => v == t@,
            (AgentEvent::Retrying(t), EventView::Retrying(v)) => v == t@,
            (
                AgentEvent::Usage { input_tokens, output_tokens, stop_reason },
                EventView::Usage { input_tokens: i, output_tokens: o, stop_reason: r },
            ) => i == input_tokens && o == output_tokens && r == stop_reason@,
            (
                AgentEvent::SubAgentUsage { input_tokens, output_tokens },
                EventView::SubAgentUsage { input_tokens: i, output_tokens: o },
            ) => i == input_tokens && o == output_tokens,
            (
                AgentEvent::Interrupted { partial_text },
                EventView::Interrupted { partial_text: v },
            ) => v == partial_text@,
            (AgentEvent::Warn(t), EventView::Warn(v)) => v == t@,
            (
                AgentEvent::CompactionComplete { summary },
                EventView::CompactionComplete { summary: v },
            ) => v == summary@,
            (
                AgentEvent::AutoCompactTriggered { current_tokens, threshold },
                EventView::AutoCompactTriggered { current_tokens: c, threshold: t },
            ) => c == current_tokens && t == threshold,
            (AgentEvent::BashCommandComplete, EventView::BashCommandComplete) => true,
            _ => false,
        },
{
}

/// Effects say the message or the event that they hold, in their order.
pub proof fn law_effects_hold_what_they_say(s: Seq<Effect>, i: int)
    requires
        0 <= i < s.len(),
    ensures
        effects_view(s).len() == s.len(),
        match (s[i], effects_view(s)[i]) {
            (Effect::Append(m), EffectView::Append(v)) => v == m@,
            (Effect::Emit(e), EffectView::Emit(v)) => v == e@,
            _ => false,
        },
{
}

/// A request says the model, the limit, the thinking, and each tool with its name, its description and
/// its arguments.
pub proof fn law_request_holds_what_it_says(r: RequestConfig, i: int)
    ensures
        r@.model == r.model@,
        r@.max_tokens == r.max_tokens,
        r@.thinking == r.thinking,
        r@.tools.len() == r.tools@.len(),
        0 <= i < r.tools@.len() ==> {
            &&& r@.tools[i].name == r.tools@[i].name@
            &&& r@.tools[i].description == r.tools@[i].description@
            &&& r@.tools[i].input_schema == r.tools@[i].input_schema@
        },
{
}

/// A registry says each of its tools, in their order.
pub proof fn law_registry_holds_what_it_says(r: ToolRegistry, i: int)
    ensures
        r@.len() == r.entries@.len(),
        0 <= i < r.entries@.len() ==> {
            &&& r@[i].is_write_tool == r.entries@[i].is_write_tool
            &&& r@[i].definition.name == r.entries@[i].definition.name@
            &&& r@[i].definition.description == r.entries@[i].definition.description@
            &&& r@[i].definition.input_schema == r.entries@[i].definition.input_schema@
        },
{
}

/// A request on the wire says its URL, its headers and its body.
pub proof fn law_wire_holds_what_it_says(r: HttpRequest, i: int)
    ensures
        r@.url == r.url@,
        r@.body == r.body@,
        r@.headers.len() == r.headers@.len(),
        0 <= i < r.headers@.len() ==> {
            &&& r@.headers[i].0 == r.headers@[i].0@
            &&& r@.headers[i].1 == r.headers@[i].1@
        },
{
}

/// What came of a run, and how a compaction goes on, say what they hold.
pub proof fn law_outcomes_hold_what_they_say(o: HeadlessOutcome, p: CompactionPlan)
    ensures
        o@.text == o.text@,
        o@.input_tokens == o.input_tokens,
        o@.output_tokens == o.output_tokens,
        o@.is_error == o.is_error,
        match (o.error_message, o@.error_message) {
            (Some(words), Some(v)) => v == words@,
            (None, None) => true,
            _ => false,
        },
        match (p, p@) {
            (CompactionPlan::Nothing(words), PlanView::Nothing(v)) => v == words@,
            (
                CompactionPlan::Summarize { role, prompt, retained },
                PlanView::Summarize { role: r, prompt: q, retained: k },
            ) => r == role@ && q == prompt@ && k == messages_view(retained@),
            _ => false,
        },
{
}

/// Errors say all that they hold, in its order.
pub proof fn law_errors_hold_what_they_say(e: Error, b: BackendError, i: int)
    ensures
        match (b, b@) {
            (
                BackendError::HttpStatus { code, body },
                BackendErrorView::HttpStatus { code: c, body: v },
            ) => c == code && v == body@,
            (BackendError::Transport { message }, BackendErrorView::Transport { message: v }) => v
                == message@,
            (BackendError::Other(message), BackendErrorView::Other(v)) => v == message@,
            (
                BackendError::MaxTokensExceeded { input_tokens, output_tokens },
                BackendErrorView::MaxTokensExceeded { input_tokens: i, output_tokens: o },
            ) => i == input_tokens && o == output_tokens,
            (BackendError::Refusal, BackendErrorView::Refusal) => true,
            _ => false,
        },
        match (e, e@) {
            (Error::Backend(cause), ErrorView::Backend(v)) => v == cause@,
            (Error::Within { words, cause }, ErrorView::Within { words: w, cause: v }) => {
                &&& v == cause@
                &&& w.len() == words@.len()
                &&& 0 <= i < w.len() ==> w[i] == words@[i]@
            },
            (Error::Chain(words), ErrorView::Chain(w)) => {
                &&& w.len() == words@.len()
                &&& 0 <= i < w.len() ==> w[i] == words@[i]@
            },
            _ => false,
        },
{
}

/// Texts say what they hold, in their order.
pub proof fn law_texts_hold_what_they_say(s: Seq<String>, i: int, t: Option<String>)
    ensures
        texts(s).len() == s.len(),
        0 <= i < s.len() ==> texts(s)[i] == s[i]@,
        match (t, opt_text(t)) {
            (Some(text), Some(v)) => v == text@,
            (None, None) => true,
            _ => false,
        },
{
}

/// JSON says what it holds: of fields of the same name the last counts, and items are in their order.
pub proof fn law_json_holds_what_it_says(j: Json, i: int)
    ensures
        j is Null ==> j@ is Null,
        j matches Json::Bool(b) ==> j@ == JsonView::Bool(b),
        j matches Json::UInt(n) ==> j@ == JsonView::UInt(n),
        j matches Json::Str(s) ==> j@ == JsonView::Str(s@),
        j matches Json::Array(v) ==> {
            &&& j@ is Array
            &&& j@->Array_0.len() == v@.len()
            &&& 0 <= i < v@.len() ==> j@->Array_0[i] == v@[i]@
        },
        j matches Json::Object(v) ==> {
            &&& j@ is Object
            &&& 0 <= i < v@.len() && (forall|k: int|
                i < k < v@.len() ==> (#[trigger] v@[k]).0@ != v@[i].0@)
                ==> j@->Object_0.contains_key(v@[i].0@) && j@->Object_0[v@[i].0@] == v@[i].1@
            &&& forall|name: Seq<char>| #[trigger]
                j@->Object_0.contains_key(name) ==> exists|k: int|
                    0 <= k < v@.len() && (#[trigger] v@[k]).0@ == name
        },
{
    match j {
        Json::Array(v) => {
            lemma_items_view(v@);
        },
        Json::Object(v) => {
            lemma_names(v@);
            if 0 <= i < v@.len() && (forall|k: int|
                i < k < v@.len() ==> (#[trigger] v@[k]).0@ != v@[i].0@) {
                lemma_last_counts(v@, i);
            }
        },
        _ => {},
    }
}

proof fn lemma_names(s: Seq<(String, Json)>)
    ensures
        forall|name: Seq<char>| #[trigger]
            fields_view(s).contains_key(name) ==> exists|k: int|
                0 <= k < s.len() && (#[trigger] s[k]).0@ == name,
    decreases s.len(),
{
    if s.len() > 0 {
        let front = s.drop_last();
        lemma_names(front);
        assert forall|name: Seq<char>| #[trigger]
            fields_view(s).contains_key(name) implies exists|k: int|
            0 <= k < s.len() && (#[trigger] s[k]).0@ == name by {
            if name == s.last().0@ {
                assert(s[s.len() - 1].0@ == name);
            } else {
                assert(fields_view(front).contains_key(name));
                let k = choose|k: int| 0 <= k < front.len() && (#[trigger] front[k]).0@ == name;
                assert(s[k].0@ == name);
            }
        }
    }
}

proof fn lemma_last_counts(s: Seq<(String, Json)>, i: int)
    requires
        0 <= i < s.len(),
        forall|k: int| i < k < s.len() ==> (#[trigger] s[k]).0@ != s[i].0@,
    ensures
        fields_view(s).contains_key(s[i].0@),
        fields_view(s)[s[i].0@] == s[i].1@,
    decreases s.len(),
{
    if i < s.len() - 1 {
        let front = s.drop_last();
        assert(s[s.len() - 1].0@ != s[i].0@);
        assert(front[i] == s[i]);
        assert forall|k: int| i < k < front.len() implies (#[trigger] front[k]).0@
            != front[i].0@ by {
            assert(front[k] == s[k]);
        }
        lemma_last_counts(front, i);
    }
}

/// A field that was set is read, and setting it changes no other; what is not there, or is no object
/// or array, is read as null.
pub proof fn law_json_is_read(
    v: JsonView,
    name: Seq<char>,
    value: JsonView,
    other: Seq<char>,
    i: int,
)
    ensures
        v is Object ==> with_field(v, name, value).field(name) == value,
        v is Object && other != name ==> with_field(v, name, value).field(other) == v.field(other),
        v matches JsonView::Object(m) ==> v.field(name) == if m.contains_key(name) {
            m[name]
        } else {
            JsonView::Null
        },
        !(v is Object) ==> v.field(name) is Null && with_field(v, name, value) == v,
        v matches JsonView::Array(s) ==> v.item(i) == if 0 <= i < s.len() {
            s[i]
        } else {
            JsonView::Null
        },
        !(v is Array) ==> v.item(i) is Null,
        match v {
            JsonView::Str(s) => v.text() == Some(s),
            _ => v.text() is None,
        },
        match v {
            JsonView::UInt(n) => v.uint() == Some(n),
            _ => v.uint() is None,
        },
{
}

/// The lower 32 bits of a number differ from it by a multiple of 2^32.
pub proof fn law_lower_bits(n: u64)
    ensures
        n <= u32::MAX ==> low32(n) == n,
        exists|k: int| n == low32(n) + #[trigger] (k * 0x1_0000_0000),
{
    let k = n as int / 0x1_0000_0000;
    assert(n == low32(n) + k * 0x1_0000_0000);
}

} // verus!
