//! What answers are read as.
use vstd::prelude::*;

use crate::backend::anthropic_sse::{AnthropicParserView, AnthropicStep};
use crate::backend::error::{BackendErrorView, ErrorView};
use crate::backend::ollama::{ollama_calls, ollama_events, ollama_text_events};
use crate::backend::openai_sse::{calls_events, openai_events, openai_text_events};
use crate::json::{json_text, JsonView};
use crate::sequences::{lemma_flat_map_empty, lemma_flat_map_last};
use crate::text::decimal;
use crate::types::StreamView;

verus! {

/// The event with a text, if there is one and it is not empty.
pub open spec fn if_said(j: JsonView, event: spec_fn(Seq<char>) -> StreamView) -> Seq<StreamView> {
    match j {
        JsonView::Str(t) if t.len() > 0 => seq![event(t)],
        _ => Seq::empty(),
    }
}

/// A number of tokens as it is reported: its lower 32 bits, and 0 where there is none.
pub open spec fn counted(j: JsonView) -> int {
    match j {
        JsonView::UInt(n) => n as int % 0x1_0000_0000,
        _ => 0,
    }
}

/// The items of a list; none where it is no list.
pub open spec fn listed(j: JsonView) -> Seq<JsonView> {
    match j {
        JsonView::Array(s) => s,
        _ => Seq::empty(),
    }
}

/// Whether the only thing reported is the cost with the given reason, where there was a cost.
pub open spec fn reports_cost(events: Seq<StreamView>, input: int, output: int, why: Seq<char>) -> bool {
    if input == 0 && output == 0 {
        events.len() == 0
    } else {
        &&& events.len() == 1
        &&& events[0] matches StreamView::Usage { input_tokens, output_tokens, stop_reason }
            && input_tokens == input && output_tokens == output && stop_reason == why
    }
}

/// What one call in a piece of an answer reports: that it begins, where it is named, and its
/// arguments, where there are any.
pub open spec fn call_reports(call: JsonView) -> Seq<StreamView> {
    match call.field("index"@) {
        JsonView::UInt(index) => (match call.field("function"@).field("name"@) {
            JsonView::Str(name) => seq![
                StreamView::ToolUseStart { id: "tool_"@ + decimal(index as nat), name },
            ],
            _ => Seq::empty(),
        }) + if_said(
            call.field("function"@).field("arguments"@),
            |t: Seq<char>| StreamView::ToolUseDelta(t),
        ),
        _ => Seq::empty(),
    }
}

proof fn lemma_calls_reported(calls: Seq<JsonView>)
    ensures
        calls_events(calls) == calls.flat_map(|c: JsonView| call_reports(c)),
    decreases calls.len(),
{
    let f = |c: JsonView| call_reports(c);
    if calls.len() == 0 {
        lemma_flat_map_empty(calls, f);
    } else {
        lemma_calls_reported(calls.drop_last());
        lemma_flat_map_last(calls, f);
        assert(crate::backend::openai_sse::call_events(calls.last()) =~= call_reports(
            calls.last(),
        ));
    }
}

/// Why a piece of an answer in the OpenAI protocol says that the answer ends, if it does.
pub open spec fn finish_of(j: JsonView) -> Option<Seq<char>> {
    match j.field("choices"@).item(0).field("finish_reason"@) {
        JsonView::Str(s) => Some(s),
        _ => None,
    }
}

/// A piece of an answer in the OpenAI protocol that does not end it for calls or for its length
/// reports its thought, its text, all that its calls hold, in their order, and then the cost, which
/// is reported only where the answer ends or nothing is answered.
pub proof fn law_openai_piece(j: JsonView)
    requires
        finish_of(j) != Some("tool_calls"@),
        finish_of(j) != Some("length"@),
    ensures
        ({
            let delta = j.field("choices"@).item(0).field("delta"@);
            let said = if_said(
                delta.field("reasoning_content"@),
                |t: Seq<char>| StreamView::ThinkingDelta(t),
            ) + if_said(delta.field("content"@), |t: Seq<char>| StreamView::TextDelta(t))
                + listed(delta.field("tool_calls"@)).flat_map(|c: JsonView| call_reports(c));
            &&& openai_events(j) matches Ok(events) && {
                let cost = events.skip(said.len() as int);
                &&& said.len() <= events.len()
                &&& events.take(said.len() as int) == said
                &&& if finish_of(j) is Some || listed(j.field("choices"@)).len() == 0 {
                    reports_cost(
                        cost,
                        counted(j.field("usage"@).field("prompt_tokens"@)),
                        counted(j.field("usage"@).field("completion_tokens"@)),
                        match finish_of(j) {
                            Some(why) => why,
                            None => "stop"@,
                        },
                    )
                } else {
                    cost.len() == 0
                }
            }
        }),
{
    let delta = j.field("choices"@).item(0).field("delta"@);
    let calls = listed(delta.field("tool_calls"@));
    let said = if_said(
        delta.field("reasoning_content"@),
        |t: Seq<char>| StreamView::ThinkingDelta(t),
    ) + if_said(delta.field("content"@), |t: Seq<char>| StreamView::TextDelta(t))
        + calls.flat_map(|c: JsonView| call_reports(c));
    lemma_calls_reported(calls);
    let events = openai_events(j)->Ok_0;
    assert(crate::backend::openai_sse::delta_events(delta) =~= said);
    assert(events.take(said.len() as int) =~= said);
    let input = crate::backend::anthropic_sse::tokens(j.field("usage"@).field("prompt_tokens"@));
    assert(input == counted(j.field("usage"@).field("prompt_tokens"@)));
    let output = crate::backend::anthropic_sse::tokens(
        j.field("usage"@).field("completion_tokens"@),
    );
    assert(output == counted(j.field("usage"@).field("completion_tokens"@)));
}

/// Of a piece of an answer in the OpenAI protocol that does not end it for calls or for its length,
/// the parts of arguments that are reported are exactly the texts that the calls with a number hold
/// as arguments and that are not empty, in their order, whatever else the calls hold.
pub proof fn law_openai_arguments_come_through(j: JsonView)
    requires
        finish_of(j) != Some("tool_calls"@),
        finish_of(j) != Some("length"@),
    ensures
        openai_events(j) is Ok,
        openai_events(j)->Ok_0.filter(|e: StreamView| e is ToolUseDelta) == listed(
            j.field("choices"@).item(0).field("delta"@).field("tool_calls"@),
        ).flat_map(
            |c: JsonView|
                if c.field("index"@) is UInt {
                    if_said(
                        c.field("function"@).field("arguments"@),
                        |t: Seq<char>| StreamView::ToolUseDelta(t),
                    )
                } else {
                    Seq::empty()
                },
        ),
{
    law_openai_piece(j);
    let p = |e: StreamView| e is ToolUseDelta;
    let delta = j.field("choices"@).item(0).field("delta"@);
    let calls = listed(delta.field("tool_calls"@));
    let a = if_said(
        delta.field("reasoning_content"@),
        |t: Seq<char>| StreamView::ThinkingDelta(t),
    );
    let b = if_said(delta.field("content"@), |t: Seq<char>| StreamView::TextDelta(t));
    let c = calls.flat_map(|c: JsonView| call_reports(c));
    let events = openai_events(j)->Ok_0;
    let d = events.skip((a + b + c).len() as int);
    assert(events =~= a + b + c + d);
    Seq::filter_distributes_over_add(a + b + c, d, p);
    Seq::filter_distributes_over_add(a + b, c, p);
    Seq::filter_distributes_over_add(a, b, p);
    lemma_none_left(a, p);
    lemma_none_left(b, p);
    lemma_none_left(d, p);
    lemma_arguments(calls);
    assert(events.filter(p) =~= c.filter(p));
}

proof fn lemma_none_left(s: Seq<StreamView>, p: spec_fn(StreamView) -> bool)
    requires
        forall|i: int| 0 <= i < s.len() ==> !p(#[trigger] s[i]),
    ensures
        s.filter(p) == Seq::<StreamView>::empty(),
{
    s.lemma_all_neg_filter_empty(p);
    assert(s.filter(p) =~= Seq::empty());
}

proof fn lemma_arguments(calls: Seq<JsonView>)
    ensures
        calls.flat_map(|c: JsonView| call_reports(c)).filter(|e: StreamView| e is ToolUseDelta)
            == calls.flat_map(
            |c: JsonView|
                if c.field("index"@) is UInt {
                    if_said(
                        c.field("function"@).field("arguments"@),
                        |t: Seq<char>| StreamView::ToolUseDelta(t),
                    )
                } else {
                    Seq::empty()
                },
        ),
    decreases calls.len(),
{
    let p = |e: StreamView| e is ToolUseDelta;
    let f = |c: JsonView| call_reports(c);
    let g = |c: JsonView|
        if c.field("index"@) is UInt {
            if_said(
                c.field("function"@).field("arguments"@),
                |t: Seq<char>| StreamView::ToolUseDelta(t),
            )
        } else {
            Seq::empty()
        };
    if calls.len() == 0 {
        lemma_flat_map_empty(calls, f);
        lemma_flat_map_empty(calls, g);
        lemma_none_left(calls.flat_map(f), p);
    } else {
        lemma_arguments(calls.drop_last());
        lemma_flat_map_last(calls, f);
        lemma_flat_map_last(calls, g);
        let c = calls.last();
        Seq::filter_distributes_over_add(calls.drop_last().flat_map(f), f(c), p);
        reveal(Seq::filter);
        let args = g(c);
        let start = f(c).take(f(c).len() - args.len());
        assert(f(c) =~= start + args);
        Seq::filter_distributes_over_add(start, args, p);
        lemma_none_left(start, p);
        assert(args.filter(p) =~= args) by {
            if args.len() > 0 {
                assert(args.drop_last() =~= Seq::empty());
                lemma_none_left(args.drop_last(), p);
            }
        }
    }
}

/// A piece of an answer in the OpenAI protocol that ends it for calls reports the end of the call
/// and the cost. One that ends it for its length is an error that tells the cost. The last line of
/// an answer ends it, whatever it is read as, and what is no JSON is an error.
pub proof fn law_openai_endings(j: JsonView, data: Seq<char>, read: Result<JsonView, Seq<char>>)
    ensures
        ({
            let input = counted(j.field("usage"@).field("prompt_tokens"@));
            let output = counted(j.field("usage"@).field("completion_tokens"@));
            &&& finish_of(j) == Some("tool_calls"@) ==> {
                &&& openai_events(j) matches Ok(events) && events.len() > 0 && events[0]
                    == StreamView::ToolUseDone && reports_cost(
                    events.skip(1),
                    input,
                    output,
                    "tool_calls"@,
                )
            }
            &&& finish_of(j) == Some("length"@) ==> {
                &&& openai_events(j) matches Err(ErrorView::Chain(words)) && words == seq![
                    "Response truncated: max_tokens limit reached (input_tokens="@ + decimal(
                        input as nat,
                    ) + ", output_tokens="@ + decimal(output as nat)
                        + "). Increase max_tokens in your config."@,
                ]
            }
        }),
        openai_text_events("[DONE]"@, read) == Ok::<Seq<StreamView>, ErrorView>(
            seq![StreamView::Done],
        ),
        data != "[DONE]"@ ==> match read {
            Ok(v) => openai_text_events(data, read) == openai_events(v),
            Err(why) => openai_text_events(data, read) == Err::<Seq<StreamView>, ErrorView>(
                ErrorView::Chain(seq!["Failed to parse SSE data: "@ + data, why]),
            ),
        },
{
    lemma_finish_reasons();
    let input = crate::backend::anthropic_sse::tokens(j.field("usage"@).field("prompt_tokens"@));
    assert(input == counted(j.field("usage"@).field("prompt_tokens"@)));
    let output = crate::backend::anthropic_sse::tokens(
        j.field("usage"@).field("completion_tokens"@),
    );
    assert(output == counted(j.field("usage"@).field("completion_tokens"@)));
    if finish_of(j) == Some("tool_calls"@) {
        let events = openai_events(j)->Ok_0;
        assert(events.skip(1) =~= crate::backend::openai_sse::usage_events(
            input,
            output,
            "tool_calls"@,
        ));
    }
}

/// Whether a call from Ollama names its tool.
pub open spec fn is_named(call: JsonView) -> bool {
    call.field("function"@).field("name"@) matches JsonView::Str(name) && name.len() > 0
}

/// Whether three events report the call in place `i` from Ollama: that it begins under its id, or
/// under a number where it has none, its arguments as JSON, and that it ends.
pub open spec fn reports_call(call: JsonView, i: nat, events: Seq<StreamView>) -> bool {
    let function = call.field("function"@);
    &&& events.len() == 3
    &&& events[0] matches StreamView::ToolUseStart { id, name } && {
        &&& function.field("name"@) == JsonView::Str(name)
        &&& match call.field("id"@) {
            JsonView::Str(given) if given.len() > 0 => id == given,
            _ => id == "tool_"@ + decimal(i),
        }
    }
    &&& events[1] matches StreamView::ToolUseDelta(arguments) && match function.field(
        "arguments"@,
    ) {
        JsonView::Object(m) => arguments == json_text(JsonView::Object(m)),
        JsonView::Str(s) => arguments == s,
        _ => arguments == "{}"@,
    }
    &&& events[2] == StreamView::ToolUseDone
}

proof fn lemma_ollama_calls(calls: Seq<JsonView>)
    ensures
        (forall|i: int| 0 <= i < calls.len() ==> is_named(#[trigger] calls[i])) ==> {
            &&& ollama_calls(calls) matches Ok(events) && events.len() == 3 * calls.len() && (
            forall|i: int|
                0 <= i < calls.len() ==> reports_call(
                    #[trigger] calls[i],
                    i as nat,
                    events.subrange(3 * i, 3 * i + 3),
                ))
        },
    decreases calls.len(),
{
    if forall|i: int| 0 <= i < calls.len() ==> is_named(#[trigger] calls[i]) {
        if calls.len() > 0 {
            let front = calls.drop_last();
            assert forall|i: int| 0 <= i < front.len() implies is_named(#[trigger] front[i]) by {
                assert(front[i] == calls[i]);
            }
            lemma_ollama_calls(front);
            let n = front.len() as int;
            assert(is_named(calls[n]));
            let before = ollama_calls(front)->Ok_0;
            let events = ollama_calls(calls)->Ok_0;
            let more = crate::backend::ollama::ollama_call(calls[n], n as nat)->Ok_0;
            assert(events == before + more);
            assert forall|i: int| 0 <= i < calls.len() implies reports_call(
                #[trigger] calls[i],
                i as nat,
                events.subrange(3 * i, 3 * i + 3),
            ) by {
                if i < n {
                    assert(front[i] == calls[i]);
                    assert(reports_call(front[i], i as nat, before.subrange(3 * i, 3 * i + 3)));
                    assert(events.subrange(3 * i, 3 * i + 3) =~= before.subrange(3 * i, 3 * i + 3));
                } else {
                    assert(events.subrange(3 * i, 3 * i + 3) =~= more);
                }
            }
        }
    }
}

/// A line of an answer from Ollama without an error, all of whose calls name their tools, reports
/// its text, its thought, its calls, in their order, and, where it says that it is done, the cost
/// and the end.
pub proof fn law_ollama_line(j: JsonView)
    requires
        !(j.field("error"@) is Str),
        forall|i: int|
            0 <= i < listed(j.field("message"@).field("tool_calls"@)).len() ==> is_named(
                #[trigger] listed(j.field("message"@).field("tool_calls"@))[i],
            ),
    ensures
        ({
            let message = j.field("message"@);
            let calls = listed(message.field("tool_calls"@));
            let said = if_said(
                message.field("content"@),
                |t: Seq<char>| StreamView::TextDelta(t),
            ) + if_said(message.field("thinking"@), |t: Seq<char>| StreamView::ThinkingDelta(t));
            let n = said.len() as int;
            let m = n + 3 * calls.len();
            &&& ollama_events(j) matches Ok(events) && {
                &&& events.len() >= m
                &&& events.take(n) == said
                &&& forall|i: int|
                    0 <= i < calls.len() ==> reports_call(
                        #[trigger] calls[i],
                        i as nat,
                        events.subrange(n + 3 * i, n + 3 * i + 3),
                    )
                &&& if j.field("done"@) == JsonView::Bool(true) {
                    &&& events.len() > m
                    &&& events.last() == StreamView::Done
                    &&& reports_cost(
                        events.subrange(m, events.len() - 1),
                        counted(j.field("prompt_eval_count"@)),
                        counted(j.field("eval_count"@)),
                        match j.field("done_reason"@) {
                            JsonView::Str(why) => why,
                            _ => "stop"@,
                        },
                    )
                } else {
                    events.len() == m
                }
            }
        }),
{
    let message = j.field("message"@);
    let calls = listed(message.field("tool_calls"@));
    let said = if_said(message.field("content"@), |t: Seq<char>| StreamView::TextDelta(t))
        + if_said(message.field("thinking"@), |t: Seq<char>| StreamView::ThinkingDelta(t));
    let n = said.len() as int;
    let m = n + 3 * calls.len();
    lemma_ollama_calls(calls);
    let called = match message.field("tool_calls"@) {
        JsonView::Array(s) => ollama_calls(s)->Ok_0,
        _ => Seq::empty(),
    };
    let events = ollama_events(j)->Ok_0;
    assert(events.take(n) =~= said);
    assert(events.subrange(n, m) =~= called);
    assert forall|i: int| 0 <= i < calls.len() implies reports_call(
        #[trigger] calls[i],
        i as nat,
        events.subrange(n + 3 * i, n + 3 * i + 3),
    ) by {
        assert(events.subrange(n + 3 * i, n + 3 * i + 3) =~= called.subrange(3 * i, 3 * i + 3));
    }
    let input = crate::backend::anthropic_sse::tokens(j.field("prompt_eval_count"@));
    assert(input == counted(j.field("prompt_eval_count"@)));
    let output = crate::backend::anthropic_sse::tokens(j.field("eval_count"@));
    assert(output == counted(j.field("eval_count"@)));
    if j.field("done"@) == JsonView::Bool(true) {
        let why = match j.field("done_reason"@) {
            JsonView::Str(why) => why,
            _ => "stop"@,
        };
        assert(events.subrange(m, events.len() - 1) =~= crate::backend::openai_sse::usage_events(
            input,
            output,
            why,
        ));
    }
}

/// A line from Ollama that tells of an error is that error, and one with a call that does not name
/// its tool is an error that names the place of the first such call. What is no JSON is an error.
pub proof fn law_ollama_errors(j: JsonView, data: Seq<char>, why: Seq<char>)
    ensures
        j.field("error"@) matches JsonView::Str(words) ==> ollama_events(j) == Err::<
            Seq<StreamView>,
            ErrorView,
        >(ErrorView::Backend(BackendErrorView::Other("Ollama error: "@ + words))),
        ({
            let calls = listed(j.field("message"@).field("tool_calls"@));
            forall|i: int|
                !(j.field("error"@) is Str) && 0 <= i < calls.len() && !is_named(
                    #[trigger] calls[i],
                ) && (forall|k: int| 0 <= k < i ==> is_named(#[trigger] calls[k]))
                    ==> ollama_events(j) == Err::<Seq<StreamView>, ErrorView>(
                    ErrorView::Backend(
                        BackendErrorView::Other(
                            "Malformed tool call at index "@ + decimal(i as nat)
                                + ": missing or empty function name"@,
                        ),
                    ),
                )
        }),
        ollama_text_events(data, Ok(j)) == ollama_events(j),
        ollama_text_events(data, Err(why)) == Err::<Seq<StreamView>, ErrorView>(
            ErrorView::Chain(seq!["Failed to parse NDJSON line: "@ + data, why]),
        ),
{
    let calls = listed(j.field("message"@).field("tool_calls"@));
    assert forall|i: int|
        !(j.field("error"@) is Str) && 0 <= i < calls.len() && !is_named(#[trigger] calls[i]) && (
        forall|k: int| 0 <= k < i ==> is_named(#[trigger] calls[k])) implies ollama_events(j)
        == Err::<Seq<StreamView>, ErrorView>(
        ErrorView::Backend(
            BackendErrorView::Other(
                "Malformed tool call at index "@ + decimal(i as nat)
                    + ": missing or empty function name"@,
            ),
        ),
    ) by {
        lemma_first_malformed(calls, i);
    }
}

proof fn lemma_first_malformed(calls: Seq<JsonView>, i: int)
    requires
        0 <= i < calls.len(),
        !is_named(calls[i]),
        forall|k: int| 0 <= k < i ==> is_named(#[trigger] calls[k]),
    ensures
        ollama_calls(calls) == Err::<Seq<StreamView>, ErrorView>(
            ErrorView::Backend(
                BackendErrorView::Other(
                    "Malformed tool call at index "@ + decimal(i as nat)
                        + ": missing or empty function name"@,
                ),
            ),
        ),
    decreases calls.len(),
{
    let front = calls.drop_last();
    if i < calls.len() - 1 {
        assert(front[i] == calls[i]);
        assert forall|k: int| 0 <= k < i implies is_named(#[trigger] front[k]) by {
            assert(front[k] == calls[k]);
        }
        lemma_first_malformed(front, i);
    } else {
        assert forall|k: int| 0 <= k < front.len() implies is_named(#[trigger] front[k]) by {
            assert(front[k] == calls[k]);
        }
        lemma_ollama_calls(front);
    }
}

/// Whether a step adds one event to the queue and changes nothing else.
pub open spec fn only_reports(p: AnthropicParserView, step: AnthropicStep, event: StreamView) -> bool {
    step.error is None && step.parser == (AnthropicParserView { queue: p.queue.push(event), ..p })
}

/// A part of a block in the Anthropic protocol is reported as it is: a part of the arguments of a
/// call, a part of a thought, or a part of a text.
pub proof fn law_parts_are_reported(p: AnthropicParserView, j: JsonView)
    requires
        j.field("type"@) == JsonView::Str("content_block_delta"@),
    ensures
        ({
            let delta = j.field("delta"@);
            let text = |name: Seq<char>| match delta.field(name) {
                JsonView::Str(t) => t,
                _ => Seq::empty(),
            };
            &&& delta.field("type"@) == JsonView::Str("input_json_delta"@) && delta.field(
                "partial_json"@,
            ) is Str ==> only_reports(
                p,
                p.after(j),
                StreamView::ToolUseDelta(text("partial_json"@)),
            )
            &&& delta.field("type"@) == JsonView::Str("thinking_delta"@) ==> only_reports(
                p,
                p.after(j),
                StreamView::ThinkingDelta(text("thinking"@)),
            )
            &&& delta.field("type"@) == JsonView::Str("text_delta"@) ==> only_reports(
                p,
                p.after(j),
                StreamView::TextDelta(text("text"@)),
            )
        }),
{
    lemma_piece_kinds();
    lemma_delta_kinds();
}

/// The tokens that the first piece of an answer tells of are reported with the reason that the last
/// one gives, and the tokens that it tells of: all that comes between does not change them. A
/// reason that tells of a limit or of a refusal is an error instead.
pub proof fn law_cost_is_reported(
    p: AnthropicParserView,
    start: JsonView,
    end: JsonView,
    q: AnthropicParserView,
)
    requires
        start.field("type"@) == JsonView::Str("message_start"@),
        start.field("message"@).field("usage"@).field("input_tokens"@) is UInt,
        end.field("type"@) == JsonView::Str("message_delta"@),
        end.field("delta"@).field("stop_reason"@) is Str,
        q.input_tokens == p.after(start).parser.input_tokens,
    ensures
        p.after(start).error is None,
        p.after(start).parser.queue == p.queue,
        ({
            let input = counted(start.field("message"@).field("usage"@).field("input_tokens"@));
            let output = counted(end.field("usage"@).field("output_tokens"@));
            let why = end.field("delta"@).field("stop_reason"@)->Str_0;
            let step = q.after(end);
            if why == "max_tokens"@ {
                &&& step.parser == q
                &&& step.error matches Some(
                    ErrorView::Backend(
                        BackendErrorView::MaxTokensExceeded { input_tokens, output_tokens },
                    ),
                ) && input_tokens == input && output_tokens == output
            } else if why == "refusal"@ || why == "content_filter"@ {
                &&& step.parser == q
                &&& step.error == Some(ErrorView::Backend(BackendErrorView::Refusal))
            } else {
                &&& step.error is None
                &&& step.parser.queue.drop_last() == q.queue
                &&& step.parser.queue.len() > 0
                &&& step.parser.queue.last() matches StreamView::Usage {
                    input_tokens,
                    output_tokens,
                    stop_reason,
                } && input_tokens == input && output_tokens == output && stop_reason == why
            }
        }),
{
    lemma_piece_kinds();
    assert(q.queue.push(StreamView::Done).drop_last() =~= q.queue);
    let step = q.after(end);
    if step.error is None {
        assert(step.parser.queue.drop_last() =~= q.queue);
    }
}

/// No piece but the first changes the tokens of the request.
pub proof fn law_request_tokens_stay(p: AnthropicParserView, j: JsonView)
    requires
        j.field("type"@) != JsonView::Str("message_start"@),
    ensures
        p.after(j).parser.input_tokens == p.input_tokens,
{
}

/// The piece that ends an answer is reported as its end; hidden thoughts are reported as thoughts
/// when they begin; pieces of other kinds, and blocks of other kinds that begin, change nothing.
pub proof fn law_ends_and_strangers(p: AnthropicParserView, j: JsonView)
    ensures
        j.field("type"@) == JsonView::Str("message_stop"@) ==> only_reports(
            p,
            p.after(j),
            StreamView::Done,
        ),
        j.field("type"@) == JsonView::Str("content_block_start"@) && j.field(
            "content_block"@,
        ).field("type"@) == JsonView::Str("redacted_thinking"@) && j.field("index"@) is UInt
            && j.field("content_block"@).field("data"@) is Str ==> {
            &&& p.after(j).error is None
            &&& p.after(j).parser.queue == p.queue.push(
                StreamView::ThinkingDelta(j.field("content_block"@).field("data"@)->Str_0),
            )
            &&& p.after(j).parser.signatures.contains_key(j.field("index"@)->UInt_0)
        },
        j.field("type"@) == JsonView::Str("ping"@) ==> p.after(j).error is None && p.after(j).parser
            == p,
        j.field("type"@) == JsonView::Str("content_block_start"@) && j.field(
            "content_block"@,
        ).field("type"@) == JsonView::Str("text"@) ==> p.after(j).error is None && p.after(j).parser
            == p,
        !(j.field("type"@) is Str) ==> p.after(j).parser == p && p.after(j).error == Some(
            ErrorView::Chain(seq!["SSE event missing 'type' field"@]),
        ),
{
    lemma_piece_kinds();
    lemma_block_kinds();
}

proof fn lemma_finish_reasons()
    ensures
        "tool_calls"@ != "length"@,
{
    reveal_strlit("tool_calls");
    reveal_strlit("length");
    assert("tool_calls"@.len() != "length"@.len());
}

proof fn lemma_piece_kinds()
    ensures
        "message_start"@ != "content_block_start"@,
        "message_start"@ != "content_block_delta"@,
        "message_start"@ != "content_block_stop"@,
        "message_start"@ != "message_delta"@,
        "message_start"@ != "message_stop"@,
        "message_start"@ != "ping"@,
        "content_block_start"@ != "content_block_delta"@,
        "content_block_start"@ != "content_block_stop"@,
        "content_block_start"@ != "message_delta"@,
        "content_block_start"@ != "message_stop"@,
        "content_block_start"@ != "ping"@,
        "content_block_delta"@ != "content_block_stop"@,
        "content_block_delta"@ != "message_delta"@,
        "content_block_delta"@ != "message_stop"@,
        "content_block_delta"@ != "ping"@,
        "content_block_stop"@ != "message_delta"@,
        "content_block_stop"@ != "message_stop"@,
        "content_block_stop"@ != "ping"@,
        "message_delta"@ != "message_stop"@,
        "message_delta"@ != "ping"@,
        "message_stop"@ != "ping"@,
{
    reveal_strlit("message_start");
    reveal_strlit("content_block_start");
    reveal_strlit("content_block_delta");
    reveal_strlit("content_block_stop");
    reveal_strlit("message_delta");
    reveal_strlit("message_stop");
    reveal_strlit("ping");
    assert("message_start"@.len() != "content_block_start"@.len());
    assert("message_start"@.len() != "content_block_delta"@.len());
    assert("message_start"@.len() != "content_block_stop"@.len());
    assert("message_start"@[8] != "message_delta"@[8]);
    assert("message_start"@.len() != "message_stop"@.len());
    assert("message_start"@.len() != "ping"@.len());
    assert("content_block_start"@[14] != "content_block_delta"@[14]);
    assert("content_block_start"@.len() != "content_block_stop"@.len());
    assert("content_block_start"@.len() != "message_delta"@.len());
    assert("content_block_start"@.len() != "message_stop"@.len());
    assert("content_block_start"@.len() != "ping"@.len());
    assert("content_block_delta"@.len() != "content_block_stop"@.len());
    assert("content_block_delta"@.len() != "message_delta"@.len());
    assert("content_block_delta"@.len() != "message_stop"@.len());
    assert("content_block_delta"@.len() != "ping"@.len());
    assert("content_block_stop"@.len() != "message_delta"@.len());
    assert("content_block_stop"@.len() != "message_stop"@.len());
    assert("content_block_stop"@.len() != "ping"@.len());
    assert("message_delta"@.len() != "message_stop"@.len());
    assert("message_delta"@.len() != "ping"@.len());
    assert("message_stop"@.len() != "ping"@.len());
}

proof fn lemma_delta_kinds()
    ensures
        "input_json_delta"@ != "thinking_delta"@,
        "input_json_delta"@ != "signature_delta"@,
        "input_json_delta"@ != "text_delta"@,
        "thinking_delta"@ != "signature_delta"@,
        "thinking_delta"@ != "text_delta"@,
        "signature_delta"@ != "text_delta"@,
{
    reveal_strlit("input_json_delta");
    reveal_strlit("thinking_delta");
    reveal_strlit("signature_delta");
    reveal_strlit("text_delta");
    assert("input_json_delta"@.len() != "thinking_delta"@.len());
    assert("input_json_delta"@.len() != "signature_delta"@.len());
    assert("input_json_delta"@.len() != "text_delta"@.len());
    assert("thinking_delta"@.len() != "signature_delta"@.len());
    assert("thinking_delta"@.len() != "text_delta"@.len());
    assert("signature_delta"@.len() != "text_delta"@.len());
}

proof fn lemma_block_kinds()
    ensures
        "tool_use"@ != "thinking"@,
        "tool_use"@ != "redacted_thinking"@,
        "tool_use"@ != "text"@,
        "thinking"@ != "redacted_thinking"@,
        "thinking"@ != "text"@,
        "redacted_thinking"@ != "text"@,
{
    reveal_strlit("tool_use");
    reveal_strlit("thinking");
    reveal_strlit("redacted_thinking");
    reveal_strlit("text");
    assert("tool_use"@[1] != "thinking"@[1]);
    assert("tool_use"@.len() != "redacted_thinking"@.len());
    assert("tool_use"@.len() != "text"@.len());
    assert("thinking"@.len() != "redacted_thinking"@.len());
    assert("thinking"@.len() != "text"@.len());
    assert("redacted_thinking"@.len() != "text"@.len());
}

/// Whether a step fails with the given words and reports nothing.
pub open spec fn only_fails(p: AnthropicParserView, step: AnthropicStep, words: Seq<char>) -> bool {
    step.error == Some(ErrorView::Chain(seq![words])) && step.parser.queue == p.queue
        && step.parser.input_tokens == p.input_tokens
}

/// A piece in the Anthropic protocol that lacks something says what it lacks, and nothing is reported
/// of it.
pub proof fn law_what_is_missing_is_named(p: AnthropicParserView, j: JsonView)
    ensures
        ({
            let step = p.after(j);
            let kind = j.field("type"@);
            let block = j.field("content_block"@);
            let delta = j.field("delta"@);
            let call = block.field("type"@) == JsonView::Str("tool_use"@);
            let thought = block.field("type"@) == JsonView::Str("thinking"@) || block.field("type"@)
                == JsonView::Str("redacted_thinking"@);
            let index = j.field("index"@) is UInt;
            &&& kind == JsonView::Str("message_start"@) && !(j.field("message"@).field(
                "usage"@,
            ).field("input_tokens"@) is UInt) ==> only_fails(
                p,
                step,
                "message_start missing 'input_tokens'"@,
            )
            &&& kind == JsonView::Str("content_block_start"@) ==> {
                &&& !(block.field("type"@) is Str) ==> only_fails(
                    p,
                    step,
                    "content_block_start missing 'type'"@,
                )
                &&& (call || thought) && !index ==> only_fails(
                    p,
                    step,
                    "content_block_start missing 'index'"@,
                )
                &&& call && index && !(block.field("id"@) is Str) ==> only_fails(
                    p,
                    step,
                    "tool_use content_block_start missing 'id'"@,
                )
                &&& call && index && block.field("id"@) is Str && !(block.field("name"@) is Str)
                    ==> only_fails(p, step, "tool_use content_block_start missing 'name'"@)
            }
            &&& kind == JsonView::Str("content_block_delta"@) ==> {
                &&& !(delta.field("type"@) is Str) ==> only_fails(
                    p,
                    step,
                    "content_block_delta missing 'type'"@,
                )
                &&& delta.field("type"@) == JsonView::Str("input_json_delta"@) && !(delta.field(
                    "partial_json"@,
                ) is Str) ==> only_fails(p, step, "input_json_delta missing 'partial_json'"@)
                &&& delta.field("type"@) == JsonView::Str("signature_delta"@) && !index
                    ==> only_fails(p, step, "content_block_delta missing 'index'"@)
                &&& delta.field("type"@) == JsonView::Str("signature_delta"@) && index && !(
                delta.field("signature"@) is Str) ==> only_fails(
                    p,
                    step,
                    "signature_delta missing or invalid 'signature' field"@,
                )
            }
            &&& kind == JsonView::Str("content_block_stop"@) && !index ==> only_fails(
                p,
                step,
                "content_block_stop missing 'index'"@,
            )
            &&& kind == JsonView::Str("message_delta"@) && !(delta.field("stop_reason"@) is Str)
                ==> only_fails(p, step, "message_delta missing 'stop_reason'"@)
        }),
{
    lemma_piece_kinds();
    lemma_block_kinds();
    lemma_delta_kinds();
}

/// A piece that is no JSON is shown whole, with what is wrong with it, and changes nothing. A piece
/// that is JSON is taken as that.
pub proof fn law_unreadable_pieces_are_shown(
    p: AnthropicParserView,
    data: Seq<char>,
    j: JsonView,
    why: Seq<char>,
)
    ensures
        p.after_text(data, Ok(j)) == p.after(j),
        p.after_text(data, Err(why)).parser == p,
        p.after_text(data, Err(why)).error == Some(
            ErrorView::Chain(seq!["Failed to parse SSE data: "@ + data, why]),
        ),
        data != "[DONE]"@ ==> openai_text_events(data, Ok(j)) == openai_events(j)
            && openai_text_events(data, Err(why)) == Err::<Seq<StreamView>, ErrorView>(
            ErrorView::Chain(seq!["Failed to parse SSE data: "@ + data, why]),
        ),
{
}

} // verus!
