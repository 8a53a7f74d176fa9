//! What a turn does with what it is told.
use vstd::prelude::*;

use crate::agent::calls::{
    emit_all, result_effects, results_effects, slot, DecisionView, OutcomeView, ResolvedView,
    SettingsView,
};
use crate::agent::effects::{
    appended, auto_compact_effects, emitted, lemma_appended_add, lemma_emitted_add,
    partial_effects, thinking_effects, EffectView,
};
use crate::agent::laws::{run, Told};
use crate::agent::reply::{CallView, ReplyView};
use crate::agent::truncate::truncated;
use crate::agent::turn::{new_turn, turn_step, InputView, Phase, TurnView};
use crate::backend::error::ErrorView;
use crate::config::ConfirmationMode;
use crate::json::{parsed_json, JsonView};
use crate::sequences::{lemma_flat_map_empty, lemma_flat_map_last};
use crate::text::{decimal, is_white_space, joined};
use crate::types::{text_blocks, BlockView, EventView, MessageView, Role, StreamView};

verus! {

proof fn lemma_nothing()
    ensures
        emitted(Seq::<EffectView>::empty()) == Seq::<EventView>::empty(),
        appended(Seq::<EffectView>::empty()) == Seq::<MessageView>::empty(),
{
}

proof fn lemma_one(e: EffectView)
    ensures
        emitted(seq![e]) == match e {
            EffectView::Emit(x) => seq![x],
            EffectView::Append(_) => Seq::empty(),
        },
        appended(seq![e]) == match e {
            EffectView::Append(m) => seq![m],
            EffectView::Emit(_) => Seq::empty(),
        },
{
    lemma_nothing();
    assert(seq![e].drop_last() =~= Seq::<EffectView>::empty());
    assert(emitted(seq![e]) =~= match e {
        EffectView::Emit(x) => seq![x],
        EffectView::Append(_) => Seq::empty(),
    });
    assert(appended(seq![e]) =~= match e {
        EffectView::Append(m) => seq![m],
        EffectView::Emit(_) => Seq::empty(),
    });
}

proof fn lemma_add(a: Seq<EffectView>, b: Seq<EffectView>)
    ensures
        emitted(a + b) == emitted(a) + emitted(b),
        appended(a + b) == appended(a) + appended(b),
{
    lemma_emitted_add(a, b);
    lemma_appended_add(a, b);
}

proof fn lemma_two(a: EffectView, b: EffectView)
    ensures
        emitted(seq![a, b]) == emitted(seq![a]) + emitted(seq![b]),
        appended(seq![a, b]) == appended(seq![a]) + appended(seq![b]),
{
    assert(seq![a, b] =~= seq![a] + seq![b]);
    lemma_add(seq![a], seq![b]);
}

/// What the text of a call's arguments is taken for: nothing but white space means no arguments,
/// JSON means the value, and anything else means that something is wrong.
pub open spec fn arguments_taken(text: Seq<char>, input: JsonView, problem: Option<Seq<char>>) -> bool {
    if forall|i: int| 0 <= i < text.len() ==> is_white_space(#[trigger] text[i]) {
        input == JsonView::Object(Map::empty()) && problem is None
    } else {
        match parsed_json(text) {
            Ok(v) => input == v && problem is None,
            Err(e) => input == JsonView::Null && problem == Some("Invalid tool input JSON: "@ + e),
        }
    }
}

/// The call that is decided on keeps its id and its name, and has the arguments that the model
/// gave. It is reported as such. It is rejected where its arguments are wrong, or where it would
/// change something in chat mode; otherwise it is approved where the settings ask for no
/// confirmation, and the user is asked where they do, unless the turn was cancelled.
pub proof fn law_call_is_taken_as_given(
    t: TurnView,
    chat_mode: bool,
    cancelled: bool,
    auto: bool,
)
    requires
        t.wf(),
        t.phase is Deciding,
    ensures
        ({
            let step = turn_step(t, InputView::Proceed { cancelled }, chat_mode, auto);
            let call = t.reply.tool_calls[t.batch.len() as int];
            let taken = step.turn.batch.last();
            let write = t.settings.write_tools.contains(call.name);
            let free = match t.settings.confirmation {
                ConfirmationMode::Never => true,
                ConfirmationMode::WriteOnly => !write,
                ConfirmationMode::Always => false,
            };
            let told = emitted(step.effects);
            let asked = step.turn.phase is Confirming;
            &&& step.turn.batch.len() == t.batch.len() + 1
            &&& taken.id == call.id
            &&& taken.name == call.name
            &&& taken.index == t.batch.len() + 1
            &&& exists|problem: Option<Seq<char>>| #[trigger]
                arguments_taken(call.input_json, taken.input, problem) && match problem {
                    Some(words) => taken.decision == DecisionView::ParseError(words) && !asked,
                    None => {
                        &&& asked <==> !(chat_mode && write) && !free && !cancelled
                        &&& taken.decision == if chat_mode && write {
                            DecisionView::ChatModeRejected
                        } else if free {
                            DecisionView::Approved
                        } else {
                            DecisionView::Declined
                        }
                    },
                }
            &&& appended(step.effects).len() == 0
            &&& told.len() == if asked {
                2nat
            } else {
                1nat
            }
            &&& told[0] == (EventView::ToolUseReceived {
                id: call.id,
                name: call.name,
                input: taken.input,
                index: taken.index,
            })
            &&& asked ==> told[1] == (EventView::ToolConfirmationRequired {
                id: call.id,
                name: call.name,
                input: taken.input,
                index: taken.index,
            })
            &&& !asked ==> step.turn.phase == if step.turn.batch.len()
                == t.reply.tool_calls.len() {
                Phase::Running
            } else {
                Phase::Deciding
            }
            &&& step.turn.reply == t.reply
            &&& step.auto_compacted == auto
        }),
{
    let step = turn_step(t, InputView::Proceed { cancelled }, chat_mode, auto);
    let call = t.reply.tool_calls[t.batch.len() as int];
    let fx = step.effects;
    lemma_one(fx[0]);
    if fx.len() == 2 {
        lemma_one(fx[1]);
        lemma_two(fx[0], fx[1]);
        assert(fx =~= seq![fx[0], fx[1]]);
    } else {
        assert(fx =~= seq![fx[0]]);
    }
    let (input, problem) = crate::agent::calls::call_input(
        crate::text::is_blank(call.input_json),
        parsed_json(call.input_json),
    );
    assert(arguments_taken(call.input_json, step.turn.batch.last().input, problem));
}

/// Where the arguments of a call are JSON, it is that value that the call has from then on: when it
/// is decided on, when it is reported, and when it enters the conversation.
pub proof fn law_arguments_come_through(
    t: TurnView,
    chat_mode: bool,
    cancelled: bool,
    auto: bool,
    later: TurnView,
    v: JsonView,
)
    requires
        t.wf(),
        t.phase is Deciding,
        exists|i: int|
            0 <= i < t.reply.tool_calls[t.batch.len() as int].input_json.len() && !is_white_space(
                #[trigger] t.reply.tool_calls[t.batch.len() as int].input_json[i],
            ),
        parsed_json(t.reply.tool_calls[t.batch.len() as int].input_json) == Ok::<
            JsonView,
            Seq<char>,
        >(v),
        later.wf(),
        later.phase is AfterTools,
        t.batch.len() < later.batch.len(),
        later.batch[t.batch.len() as int].input == turn_step(
            t,
            InputView::Proceed { cancelled },
            chat_mode,
            auto,
        ).turn.batch.last().input,
    ensures
        ({
            let step = turn_step(t, InputView::Proceed { cancelled }, chat_mode, auto);
            let kept = appended(
                turn_step(later, InputView::Proceed { cancelled: false }, chat_mode, auto).effects,
            )[0].content;
            let place = kept.len() - later.batch.len() + t.batch.len();
            &&& step.turn.batch.last().input == v
            &&& emitted(step.effects)[0] matches EventView::ToolUseReceived { input, .. } && input
                == v
            &&& kept[place] matches BlockView::ToolUse { input, .. } && input == v
        }),
{
    law_call_is_taken_as_given(t, chat_mode, cancelled, auto);
    law_calls_and_results_are_kept(later, chat_mode, auto);
    let text = t.reply.tool_calls[t.batch.len() as int].input_json;
    let i = choose|i: int| 0 <= i < text.len() && !is_white_space(#[trigger] text[i]);
    assert(!is_white_space(text[i]));
}

/// The thought and the text of an answer as blocks, each only where there is one.
pub open spec fn answer_blocks(r: ReplyView) -> Seq<BlockView> {
    (if r.thinking.len() > 0 {
        seq![BlockView::Thinking { text: r.thinking, signature: r.signature }]
    } else {
        Seq::empty()
    }) + (if r.text.len() > 0 {
        seq![BlockView::Text(r.text)]
    } else {
        Seq::empty()
    })
}

/// After its tools ran, a turn adds two messages: what the assistant thought and said, followed by
/// its calls as they were taken, and the results as they were kept. Then it asks the model again.
pub proof fn law_calls_and_results_are_kept(t: TurnView, chat_mode: bool, auto: bool)
    requires
        t.wf(),
        t.phase is AfterTools,
    ensures
        ({
            let step = turn_step(t, InputView::Proceed { cancelled: false }, chat_mode, auto);
            let added = appended(step.effects);
            let lead = answer_blocks(t.reply);
            &&& added.len() == 2
            &&& added[0].role == Role::Assistant
            &&& added[0].content.len() == lead.len() + t.batch.len()
            &&& added[0].content.take(lead.len() as int) == lead
            &&& forall|i: int|
                0 <= i < t.batch.len() ==> #[trigger] added[0].content[lead.len() + i] == (
                BlockView::ToolUse {
                    id: t.batch[i].id,
                    name: t.batch[i].name,
                    input: t.batch[i].input,
                })
            &&& added[1] == (MessageView { role: Role::User, content: t.results })
            &&& step.turn.phase is Starting
            &&& step.turn.iterations == t.iterations
            &&& step.turn.retries_used == t.retries_used
        }),
{
    let step = turn_step(t, InputView::Proceed { cancelled: false }, chat_mode, auto);
    let fx = step.effects;
    let tail = auto_compact_effects(
        t.reply.peak_input_tokens,
        t.settings.max_context_window_len,
        auto,
    );
    assert(fx =~= seq![fx[0], fx[1]] + tail);
    lemma_one(fx[0]);
    lemma_one(fx[1]);
    lemma_two(fx[0], fx[1]);
    lemma_add(seq![fx[0], fx[1]], tail);
    lemma_compaction_reports(
        t.reply.peak_input_tokens,
        t.settings.max_context_window_len,
        auto,
    );
    let lead = answer_blocks(t.reply);
    assert(t.reply.blocks() =~= lead);
    let added = appended(fx);
    assert(added[0] == fx[0]->Append_0);
    assert(added[0].content.take(lead.len() as int) =~= lead);
}

proof fn lemma_compaction_reports(peak: u32, window: u32, auto: bool)
    ensures
        appended(auto_compact_effects(peak, window, auto)).len() == 0,
        emitted(auto_compact_effects(peak, window, auto)) == compaction_reports(
            peak,
            window,
            auto,
        ),
{
    lemma_nothing();
    let fx = auto_compact_effects(peak, window, auto);
    if fx.len() > 0 {
        lemma_one(fx[0]);
        assert(fx =~= seq![fx[0]]);
    } else {
        assert(fx =~= Seq::<EffectView>::empty());
    }
}

/// What is reported where a conversation has come to `peak` tokens: with no threshold or within it
/// nothing, beyond it the first time that it is to be compacted, and then a warning with both
/// numbers.
pub open spec fn compaction_reports(peak: u32, window: u32, auto: bool) -> Seq<EventView> {
    if window == 0 || peak <= window {
        Seq::empty()
    } else if !auto {
        seq![EventView::AutoCompactTriggered { current_tokens: peak, threshold: window }]
    } else {
        seq![
            EventView::Warn(
                "Context still exceeds threshold ("@ + decimal(peak as nat) + " > "@ + decimal(
                    window as nat,
                )
                    + ") after auto-compaction. Manual /compact or starting a new session is recommended."@,
            ),
        ]
    }
}

/// After a completed answer, with or without calls, the length of the conversation is held against
/// the threshold: what that leads to is reported last, and the flag is set exactly where it was
/// exceeded; without a threshold it stays.
pub proof fn law_length_is_watched(t: TurnView, input: InputView, chat_mode: bool, auto: bool)
    requires
        t.wf(),
        (t.phase is AfterTools && input == (InputView::Proceed { cancelled: false })) || (t.phase
            is Streaming && t.reply.text.len() > 0 && t.reply.tool_calls.len() == 0 && (input
            == InputView::Stream(StreamView::Done) || input == (InputView::StreamEnded {
            cancelled: false,
        }))),
    ensures
        ({
            let step = turn_step(t, input, chat_mode, auto);
            let peak = t.reply.peak_input_tokens;
            let window = t.settings.max_context_window_len;
            let reports = compaction_reports(peak, window, auto);
            let told = emitted(step.effects);
            &&& told.len() >= reports.len()
            &&& told.skip(told.len() - reports.len()) == reports
            &&& step.auto_compacted == if window == 0 {
                auto
            } else {
                peak > window
            }
        }),
{
    let step = turn_step(t, input, chat_mode, auto);
    let fx = step.effects;
    let peak = t.reply.peak_input_tokens;
    let window = t.settings.max_context_window_len;
    let tail = auto_compact_effects(peak, window, auto);
    assert(fx =~= seq![fx[0], fx[1]] + tail);
    lemma_add(seq![fx[0], fx[1]], tail);
    lemma_compaction_reports(peak, window, auto);
    let told = emitted(fx);
    let reports = compaction_reports(peak, window, auto);
    assert(told.skip(told.len() - reports.len()) =~= reports);
}

/// What is said of a call in the end, and whether that is an error: what was wrong with it, that it
/// was rejected or declined, or how the tool ended.
pub open spec fn is_said_of(
    decision: DecisionView,
    outcome: Option<OutcomeView>,
    words: Seq<char>,
    is_error: bool,
) -> bool {
    match decision {
        DecisionView::ParseError(e) => words == e && is_error,
        DecisionView::ChatModeRejected => words
            == "Tool rejected: chat mode restricts to read-only operations"@ && is_error,
        DecisionView::Declined => words == "User declined to execute this tool."@ && is_error,
        DecisionView::Approved => match outcome {
            None => words == "Tool execution failed: result was unexpectedly lost"@ && is_error,
            Some(OutcomeView::Cancelled) => words == "Tool cancelled by user."@ && is_error,
            Some(OutcomeView::Failed(e)) => words == e && is_error,
            Some(OutcomeView::Finished { content, is_error: failed, .. }) => {
                &&& is_error == failed
                &&& words == joined(text_blocks(content), "\n"@)
                &&& content.len() == 1 && content[0] is Text ==> words == content[0]->Text_0
            },
        },
    }
}

/// The events that the tool of an approved call reported itself.
pub open spec fn own_events(decision: DecisionView, outcome: Option<OutcomeView>) -> Seq<EventView> {
    match outcome {
        Some(OutcomeView::Finished { agent_events, .. }) if decision is Approved => agent_events,
        _ => Seq::empty(),
    }
}

proof fn lemma_said_of(decision: DecisionView, outcome: Option<OutcomeView>)
    ensures
        is_said_of(
            decision,
            outcome,
            crate::agent::calls::result_text(decision, outcome).0,
            crate::agent::calls::result_text(decision, outcome).1,
        ),
{
    if let Some(OutcomeView::Finished { content, .. }) = outcome {
        if content.len() == 1 && content[0] is Text {
            assert(text_blocks(content.drop_last()) =~= Seq::empty());
            assert(text_blocks(content) =~= seq![content[0]->Text_0]);
        }
    }
}

/// What is reported of one call in the end: the tool's own events, then all that is said of it.
pub open spec fn end_of_call(call: ResolvedView, outcome: Option<OutcomeView>, events: Seq<EventView>) -> bool {
    &&& events.len() > 0
    &&& events.drop_last() == own_events(call.decision, outcome)
    &&& events.last() matches EventView::ToolResult { name, content, is_error, index } && {
        &&& name == call.name
        &&& index == call.index
        &&& is_said_of(call.decision, outcome, content, is_error)
    }
}

/// When the tools have ended, each call gets its result, in the order of the calls: all of it is
/// reported, after what the tool reported itself, and it is kept under the id of the call, cut to
/// the limit. There are `reports`, one for each call, that make up what is reported.
pub proof fn law_each_call_gets_its_result(
    t: TurnView,
    slots: Seq<Option<OutcomeView>>,
    chat_mode: bool,
    auto: bool,
) -> (reports: Seq<Seq<EventView>>)
    requires
        t.wf(),
        t.phase is Running,
    ensures
        ({
            let step = turn_step(t, InputView::ToolOutcomes(slots), chat_mode, auto);
            let outcome = |i: int| if 0 <= i < slots.len() {
                slots[i]
            } else {
                None
            };
            &&& reports.len() == t.batch.len()
            &&& forall|i: int|
                0 <= i < t.batch.len() ==> end_of_call(
                    t.batch[i],
                    outcome(i),
                    #[trigger] reports[i],
                )
            &&& emitted(step.effects) == reports.flat_map(|r: Seq<EventView>| r)
            &&& appended(step.effects).len() == 0
            &&& step.turn.phase is AfterTools
            &&& step.turn.batch == t.batch
            &&& step.turn.reply == t.reply
            &&& step.turn.results.len() == t.batch.len()
            &&& forall|i: int|
                0 <= i < t.batch.len() ==> {
                    &&& (#[trigger] step.turn.results[i]) matches BlockView::ToolResult {
                        tool_use_id,
                        content,
                        is_error,
                    }
                    &&& tool_use_id == t.batch[i].id
                    &&& reports[i].last() matches EventView::ToolResult {
                        content: full,
                        is_error: failed,
                        ..
                    } && is_error == failed && content == truncated(
                        full,
                        t.settings.max_tool_result_bytes as nat,
                    )
                }
        }),
{
    let step = turn_step(t, InputView::ToolOutcomes(slots), chat_mode, auto);
    let reports = lemma_reports(t.batch, slots);
    assert forall|i: int| 0 <= i < t.batch.len() implies {
        &&& (#[trigger] step.turn.results[i]) matches BlockView::ToolResult {
            tool_use_id,
            content,
            is_error,
        }
        &&& tool_use_id == t.batch[i].id
        &&& reports[i].last() matches EventView::ToolResult {
            content: full,
            is_error: failed,
            ..
        } && is_error == failed && content == truncated(
            full,
            t.settings.max_tool_result_bytes as nat,
        )
    } by {
        assert(reports[i] == emitted(result_effects(t.batch[i], slot(slots, i))));
        lemma_one_report(t.batch[i], slot(slots, i));
    }
    reports
}

proof fn lemma_one_report(call: ResolvedView, outcome: Option<OutcomeView>)
    ensures
        end_of_call(call, outcome, emitted(result_effects(call, outcome))),
        appended(result_effects(call, outcome)).len() == 0,
        emitted(result_effects(call, outcome)).last() == (EventView::ToolResult {
            name: call.name,
            content: crate::agent::calls::result_text(call.decision, outcome).0,
            is_error: crate::agent::calls::result_text(call.decision, outcome).1,
            index: call.index,
        }),
{
    let fx = result_effects(call, outcome);
    let extras = crate::agent::calls::result_extras(call.decision, outcome);
    assert(fx =~= emit_all(extras) + seq![fx.last()]);
    lemma_add(emit_all(extras), seq![fx.last()]);
    lemma_one(fx.last());
    lemma_emit_all(extras);
    lemma_said_of(call.decision, outcome);
    assert(emitted(fx) =~= extras.push(fx.last()->Emit_0));
    assert(emitted(fx).drop_last() =~= own_events(call.decision, outcome));
}

proof fn lemma_emit_all(events: Seq<EventView>)
    ensures
        emitted(emit_all(events)) == events,
        appended(emit_all(events)).len() == 0,
    decreases events.len(),
{
    lemma_nothing();
    if events.len() > 0 {
        lemma_emit_all(events.drop_last());
        assert(emit_all(events) =~= emit_all(events.drop_last()) + seq![
            EffectView::Emit(events.last()),
        ]);
        lemma_add(emit_all(events.drop_last()), seq![EffectView::Emit(events.last())]);
        lemma_one(EffectView::Emit(events.last()));
        assert(emitted(emit_all(events)) =~= events);
    } else {
        assert(emit_all(events) =~= Seq::<EffectView>::empty());
        assert(events =~= Seq::empty());
    }
}

proof fn lemma_reports(batch: Seq<ResolvedView>, slots: Seq<Option<OutcomeView>>) -> (reports: Seq<
    Seq<EventView>,
>)
    ensures
        reports.len() == batch.len(),
        forall|i: int|
            0 <= i < batch.len() ==> end_of_call(
                batch[i],
                if 0 <= i < slots.len() {
                    slots[i]
                } else {
                    None
                },
                #[trigger] reports[i],
            ),
        forall|i: int|
            0 <= i < batch.len() ==> #[trigger] reports[i] == emitted(
                result_effects(batch[i], slot(slots, i)),
            ),
        emitted(results_effects(batch, slots)) == reports.flat_map(|r: Seq<EventView>| r),
        appended(results_effects(batch, slots)).len() == 0,
    decreases batch.len(),
{
    let f = |r: Seq<EventView>| r;
    lemma_nothing();
    if batch.len() == 0 {
        let reports = Seq::<Seq<EventView>>::empty();
        lemma_flat_map_empty(reports, f);
        reports
    } else {
        let n = batch.len() - 1;
        let front = lemma_reports(batch.drop_last(), slots);
        let last = emitted(result_effects(batch[n], slot(slots, n)));
        let reports = front.push(last);
        lemma_one_report(batch[n], slot(slots, n));
        lemma_flat_map_last(reports, f);
        assert(reports.drop_last() =~= front);
        lemma_add(
            results_effects(batch.drop_last(), slots),
            result_effects(batch[n], slot(slots, n)),
        );
        assert forall|i: int| 0 <= i < batch.len() implies end_of_call(
            batch[i],
            if 0 <= i < slots.len() {
                slots[i]
            } else {
                None
            },
            #[trigger] reports[i],
        ) && reports[i] == emitted(result_effects(batch[i], slot(slots, i))) by {
            if i < n {
                assert(front[i] == reports[i]);
                assert(batch.drop_last()[i] == batch[i]);
            }
        }
        reports
    }
}

/// What a turn reads is kept and reported: a part of the text or of a thought is put behind what
/// was said or thought before, a call begins, goes on and ends, and the cost is remembered, the
/// request by its peak.
pub proof fn law_what_is_read_is_kept(t: TurnView, e: StreamView, chat_mode: bool, auto: bool)
    requires
        t.phase is Streaming,
        !(e is Done),
    ensures
        ({
            let step = turn_step(t, InputView::Stream(e), chat_mode, auto);
            let was = t.reply;
            let is = step.turn.reply;
            let told = emitted(step.effects);
            &&& step.turn == (TurnView { reply: is, ..t })
            &&& step.auto_compacted == auto
            &&& appended(step.effects).len() == 0
            &&& match e {
                StreamView::TextDelta(x) => is == (ReplyView { text: was.text + x, ..was }) && told
                    == seq![EventView::TokenReceived(x)],
                StreamView::ThinkingDelta(x) => is == (ReplyView {
                    thinking: was.thinking + x,
                    ..was
                }) && told == seq![EventView::ThinkingReceived(x)],
                StreamView::ThinkingSignature(x) => is == (ReplyView { signature: x, ..was })
                    && told.len() == 0,
                StreamView::ToolUseStart { id, name } => {
                    &&& told.len() == 0
                    &&& is.current matches Some(c) && c.id == id && c.name == name
                        && c.input_json.len() == 0
                    &&& is == (ReplyView { current: is.current, ..was })
                },
                StreamView::ToolUseDelta(x) => {
                    &&& told.len() == 0
                    &&& was.current is None ==> is == was
                    &&& was.current matches Some(c) ==> is == (ReplyView {
                        current: Some(CallView { input_json: c.input_json + x, ..c }),
                        ..was
                    })
                },
                StreamView::ToolUseDone => {
                    &&& told.len() == 0
                    &&& was.current is None ==> is == was
                    &&& was.current matches Some(c) ==> is == (ReplyView {
                        tool_calls: was.tool_calls.push(c),
                        current: None,
                        ..was
                    })
                },
                StreamView::Usage { input_tokens, output_tokens, stop_reason } => {
                    &&& told == seq![
                        EventView::Usage { input_tokens, output_tokens, stop_reason },
                    ]
                    &&& is.peak_input_tokens >= was.peak_input_tokens
                    &&& is.peak_input_tokens >= input_tokens
                    &&& is.peak_input_tokens == was.peak_input_tokens || is.peak_input_tokens
                        == input_tokens
                    &&& is == (ReplyView {
                        peak_input_tokens: is.peak_input_tokens,
                        last_output_tokens: output_tokens,
                        ..was
                    })
                },
                StreamView::Done => false,
            }
        }),
{
    let fx = turn_step(t, InputView::Stream(e), chat_mode, auto).effects;
    lemma_nothing();
    if fx.len() > 0 {
        lemma_one(fx[0]);
        assert(fx =~= seq![fx[0]]);
    } else {
        assert(fx =~= Seq::<EffectView>::empty());
    }
}

/// What is told when a text comes in parts.
pub open spec fn text_parts(parts: Seq<Seq<char>>) -> Seq<Told> {
    parts.map_values(
        |x: Seq<char>| Told { input: InputView::Stream(StreamView::TextDelta(x)), chat_mode: false },
    )
}

/// What is told when the arguments of a call come in parts.
pub open spec fn argument_parts(parts: Seq<Seq<char>>) -> Seq<Told> {
    parts.map_values(
        |x: Seq<char>|
            Told { input: InputView::Stream(StreamView::ToolUseDelta(x)), chat_mode: false },
    )
}

/// All parts, one after another.
pub open spec fn whole(parts: Seq<Seq<char>>) -> Seq<char> {
    parts.flat_map(|x: Seq<char>| x)
}

/// A text that comes in parts is what its parts are together, and each part is reported.
#[verifier::rlimit(50)]
pub proof fn law_text_adds_up(t: TurnView, auto: bool, parts: Seq<Seq<char>>)
    requires
        t.phase is Streaming,
    ensures
        ({
            let end = run(t, auto, text_parts(parts));
            &&& end.turn == (TurnView {
                reply: ReplyView { text: t.reply.text + whole(parts), ..t.reply },
                ..t
            })
            &&& emitted(end.effects) == parts.map_values(
                |x: Seq<char>| EventView::TokenReceived(x),
            )
            &&& appended(end.effects).len() == 0
            &&& end.auto_compacted == auto
        }),
    decreases parts.len(),
{
    let f = |x: Seq<char>| x;
    let told = text_parts(parts);
    lemma_nothing();
    if parts.len() == 0 {
        lemma_flat_map_empty(parts, f);
        assert(t.reply.text + Seq::<char>::empty() =~= t.reply.text);
        assert(emitted(run(t, auto, told).effects) =~= parts.map_values(
            |x: Seq<char>| EventView::TokenReceived(x),
        ));
    } else {
        let front = parts.drop_last();
        law_text_adds_up(t, auto, front);
        lemma_flat_map_last(parts, f);
        assert(told.drop_last() =~= text_parts(front));
        let before = run(t, auto, text_parts(front));
        let e = StreamView::TextDelta(parts.last());
        assert(told.last().input == InputView::Stream(e));
        law_what_is_read_is_kept(before.turn, e, false, before.auto_compacted);
        let step = turn_step(before.turn, InputView::Stream(e), false, before.auto_compacted);
        lemma_add(before.effects, step.effects);
        assert((t.reply.text + whole(front)) + parts.last() =~= t.reply.text + whole(parts));
        assert(emitted(run(t, auto, told).effects) =~= parts.map_values(
            |x: Seq<char>| EventView::TokenReceived(x),
        ));
    }
}

/// The arguments of a call that come in parts are what the parts are together.
pub proof fn law_arguments_add_up(
    t: TurnView,
    auto: bool,
    id: Seq<char>,
    name: Seq<char>,
    parts: Seq<Seq<char>>,
)
    requires
        t.phase is Streaming,
    ensures
        ({
            let begun = turn_step(
                t,
                InputView::Stream(StreamView::ToolUseStart { id, name }),
                false,
                auto,
            );
            let read = run(begun.turn, auto, argument_parts(parts));
            let done = turn_step(
                read.turn,
                InputView::Stream(StreamView::ToolUseDone),
                false,
                auto,
            );
            &&& done.turn.phase is Streaming
            &&& done.turn.reply.tool_calls == t.reply.tool_calls.push(
                CallView { id, name, input_json: whole(parts) },
            )
        }),
{
    let begun = turn_step(
        t,
        InputView::Stream(StreamView::ToolUseStart { id, name }),
        false,
        auto,
    );
    law_what_is_read_is_kept(t, StreamView::ToolUseStart { id, name }, false, auto);
    lemma_arguments_read(begun.turn, auto, parts);
    let read = run(begun.turn, auto, argument_parts(parts));
    law_what_is_read_is_kept(read.turn, StreamView::ToolUseDone, false, auto);
    let c = begun.turn.reply.current->Some_0;
    assert(c.input_json + whole(parts) =~= whole(parts));
}

#[verifier::rlimit(50)]
proof fn lemma_arguments_read(t: TurnView, auto: bool, parts: Seq<Seq<char>>)
    requires
        t.phase is Streaming,
        t.reply.current is Some,
    ensures
        ({
            let c = t.reply.current->Some_0;
            let end = run(t, auto, argument_parts(parts));
            &&& end.turn == (TurnView {
                reply: ReplyView {
                    current: Some(CallView { input_json: c.input_json + whole(parts), ..c }),
                    ..t.reply
                },
                ..t
            })
            &&& end.auto_compacted == auto
        }),
    decreases parts.len(),
{
    let f = |x: Seq<char>| x;
    let told = argument_parts(parts);
    let c = t.reply.current->Some_0;
    if parts.len() == 0 {
        lemma_flat_map_empty(parts, f);
        assert(c.input_json + Seq::<char>::empty() =~= c.input_json);
    } else {
        let front = parts.drop_last();
        lemma_arguments_read(t, auto, front);
        lemma_flat_map_last(parts, f);
        assert(told.drop_last() =~= argument_parts(front));
        let before = run(t, auto, argument_parts(front));
        let e = StreamView::ToolUseDelta(parts.last());
        assert(told.last().input == InputView::Stream(e));
        law_what_is_read_is_kept(before.turn, e, false, before.auto_compacted);
        assert((c.input_json + whole(front)) + parts.last() =~= c.input_json + whole(parts));
    }
}

/// A completed answer without calls that says something ends the turn: what was thought and said is
/// added to the conversation, and what was said is reported as the answer. One with calls is not
/// added yet: its calls come first.
pub proof fn law_answer_is_kept(t: TurnView, input: InputView, chat_mode: bool, auto: bool)
    requires
        t.phase is Streaming,
        input == InputView::Stream(StreamView::Done) || input == (InputView::StreamEnded {
            cancelled: false,
        }),
        t.reply.text.len() > 0 || t.reply.tool_calls.len() > 0,
    ensures
        ({
            let step = turn_step(t, input, chat_mode, auto);
            if t.reply.tool_calls.len() == 0 {
                &&& step.turn.phase is Finished
                &&& appended(step.effects) == seq![
                    MessageView { role: Role::Assistant, content: answer_blocks(t.reply) },
                ]
                &&& emitted(step.effects).len() > 0
                &&& emitted(step.effects)[0] == EventView::ResponseComplete(t.reply.text)
            } else {
                &&& step.turn == (TurnView { phase: Phase::BeforeTools, ..t })
                &&& step.effects.len() == 0
            }
        }),
{
    let step = turn_step(t, input, chat_mode, auto);
    let fx = step.effects;
    if t.reply.tool_calls.len() == 0 {
        let tail = auto_compact_effects(
            t.reply.peak_input_tokens,
            t.settings.max_context_window_len,
            auto,
        );
        assert(fx =~= seq![fx[0], fx[1]] + tail);
        lemma_one(fx[0]);
        lemma_one(fx[1]);
        lemma_two(fx[0], fx[1]);
        lemma_add(seq![fx[0], fx[1]], tail);
        lemma_compaction_reports(
            t.reply.peak_input_tokens,
            t.settings.max_context_window_len,
            auto,
        );
        assert(t.reply.blocks() =~= answer_blocks(t.reply));
        assert(appended(fx) =~= seq![
            MessageView { role: Role::Assistant, content: answer_blocks(t.reply) },
        ]);
    }
}

/// A model that is asked once and answers with a text in parts has the text, as a whole, added to
/// the conversation and reported as the answer, after each part was reported.
#[verifier::rlimit(50)]
pub proof fn law_whole_answer_is_kept(settings: SettingsView, auto: bool, parts: Seq<Seq<char>>)
    requires
        settings.max_iterations > 0,
        whole(parts).len() > 0,
    ensures
        ({
            let lead = seq![
                Told { input: InputView::Proceed { cancelled: false }, chat_mode: false },
                Told { input: InputView::BackendReady, chat_mode: false },
            ];
            let asked = run(new_turn(settings), auto, lead);
            let read = run(asked.turn, auto, text_parts(parts));
            let end = turn_step(read.turn, InputView::Stream(StreamView::Done), false, auto);
            &&& asked.effects.len() == 0
            &&& emitted(read.effects) == parts.map_values(
                |x: Seq<char>| EventView::TokenReceived(x),
            )
            &&& end.turn.phase is Finished
            &&& appended(end.effects) == seq![
                MessageView {
                    role: Role::Assistant,
                    content: seq![BlockView::Text(whole(parts))],
                },
            ]
            &&& emitted(end.effects)[0] == EventView::ResponseComplete(whole(parts))
        }),
{
    let first = Told { input: InputView::Proceed { cancelled: false }, chat_mode: false };
    let second = Told { input: InputView::BackendReady, chat_mode: false };
    let lead = seq![first, second];
    assert(lead.drop_last() =~= seq![first]);
    assert(seq![first].drop_last() =~= Seq::<Told>::empty());
    reveal_with_fuel(run, 3);
    let asked = run(new_turn(settings), auto, lead);
    assert(asked.effects =~= Seq::empty());
    assert(asked.turn.phase is Streaming);
    law_text_adds_up(asked.turn, auto, parts);
    let read = run(asked.turn, auto, text_parts(parts));
    assert(asked.turn.reply.text + whole(parts) =~= whole(parts));
    law_answer_is_kept(read.turn, InputView::Stream(StreamView::Done), false, auto);
    assert(answer_blocks(read.turn.reply) =~= seq![BlockView::Text(whole(parts))]);
}

/// The words of an error as the model is told of it.
pub open spec fn told_of_error(words: Seq<char>) -> MessageView {
    MessageView { role: Role::User, content: seq![BlockView::Text("[ERROR] "@ + words)] }
}

proof fn lemma_error(words: Seq<char>, event: EventView)
    ensures
        ({
            let fx = crate::agent::effects::error_effects(words, event);
            &&& appended(fx) == seq![told_of_error(words)]
            &&& emitted(fx) == seq![event]
        }),
{
    let fx = crate::agent::effects::error_effects(words, event);
    lemma_one(fx[0]);
    lemma_one(fx[1]);
    lemma_two(fx[0], fx[1]);
    assert(fx =~= seq![fx[0], fx[1]]);
    assert(appended(fx) =~= seq![told_of_error(words)]);
    assert(emitted(fx) =~= seq![event]);
}

/// An answer without calls in which nothing is said is asked for again, as long as there are
/// retries, where it used up its tokens or reports none: the model is told what went wrong, and the
/// retry does not count as an iteration. Otherwise it ends the turn as it is.
pub proof fn law_silence_is_answered(t: TurnView, input: InputView, chat_mode: bool, auto: bool)
    requires
        t.wf(),
        t.phase is Streaming,
        input == InputView::Stream(StreamView::Done) || input == (InputView::StreamEnded {
            cancelled: false,
        }),
        t.reply.text.len() == 0,
        t.reply.tool_calls.len() == 0,
    ensures
        ({
            let step = turn_step(t, input, chat_mode, auto);
            let used_up = t.settings.max_tokens > 0 && t.reply.last_output_tokens
                >= t.settings.max_tokens;
            let words = if used_up {
                "Response truncated: max_tokens limit reached (input_tokens="@ + decimal(
                    t.reply.peak_input_tokens as nat,
                ) + ", output_tokens="@ + decimal(t.reply.last_output_tokens as nat)
                    + "). Increase max_tokens in your config."@
            } else {
                "Empty response: stream produced no text, no tool calls, and no usage. This may indicate a truncated stream or a max_tokens budget consumed entirely by internal reasoning."@
            };
            if t.retries_used < t.settings.max_token_retries && (used_up
                || t.reply.last_output_tokens == 0) {
                &&& step.turn.phase is Starting
                &&& step.turn.iterations == t.iterations - 1
                &&& step.turn.retries_used == t.retries_used + 1
                &&& appended(step.effects) == seq![told_of_error(words)]
                &&& emitted(step.effects) == seq![EventView::Retrying(words)]
            } else {
                &&& step.turn.phase is Finished
                &&& appended(step.effects) == seq![
                    MessageView { role: Role::Assistant, content: answer_blocks(t.reply) },
                ]
                &&& emitted(step.effects).len() > 0
                &&& emitted(step.effects)[0] == EventView::ResponseComplete(Seq::empty())
            }
        }),
{
    let step = turn_step(t, input, chat_mode, auto);
    let fx = step.effects;
    if step.turn.phase is Starting {
        let words = crate::agent::turn::silent_answer_words(t);
        lemma_error(words, EventView::Retrying(words));
    } else {
        let tail = auto_compact_effects(
            t.reply.peak_input_tokens,
            t.settings.max_context_window_len,
            auto,
        );
        assert(fx =~= seq![fx[0], fx[1]] + tail);
        lemma_one(fx[0]);
        lemma_one(fx[1]);
        lemma_two(fx[0], fx[1]);
        lemma_add(seq![fx[0], fx[1]], tail);
        lemma_compaction_reports(
            t.reply.peak_input_tokens,
            t.settings.max_context_window_len,
            auto,
        );
        assert(t.reply.blocks() =~= answer_blocks(t.reply));
        assert(t.reply.text =~= Seq::empty());
        assert(appended(fx) =~= seq![
            MessageView { role: Role::Assistant, content: answer_blocks(t.reply) },
        ]);
    }
}

/// What is kept of an answer that breaks off: what was said, and then what was thought, each as a
/// message of the assistant and only where there is something.
pub open spec fn kept_of(r: ReplyView) -> Seq<MessageView> {
    (if r.text.len() > 0 {
        seq![MessageView { role: Role::Assistant, content: seq![BlockView::Text(r.text)] }]
    } else {
        Seq::empty()
    }) + (if r.thinking.len() > 0 {
        seq![
            MessageView {
                role: Role::Assistant,
                content: seq![
                    BlockView::Thinking { text: r.thinking, signature: r.signature },
                ],
            },
        ]
    } else {
        Seq::empty()
    })
}

proof fn lemma_kept(r: ReplyView)
    ensures
        appended(partial_effects(r.text)) == kept_of(ReplyView { thinking: Seq::empty(), ..r }),
        emitted(partial_effects(r.text)).len() == 0,
        appended(partial_effects(r.text) + thinking_effects(r.thinking, r.signature)) == kept_of(r),
        emitted(partial_effects(r.text) + thinking_effects(r.thinking, r.signature)).len() == 0,
        appended(crate::agent::effects::interrupt_effects(r.text)) == kept_of(
            ReplyView { thinking: Seq::empty(), ..r },
        ),
        emitted(crate::agent::effects::interrupt_effects(r.text)) == seq![
            EventView::Interrupted { partial_text: r.text },
        ],
        appended(
            crate::agent::effects::interrupt_effects(r.text) + thinking_effects(
                r.thinking,
                r.signature,
            ),
        ) == kept_of(r),
        emitted(
            crate::agent::effects::interrupt_effects(r.text) + thinking_effects(
                r.thinking,
                r.signature,
            ),
        ) == seq![EventView::Interrupted { partial_text: r.text }],
{
    lemma_nothing();
    let a = partial_effects(r.text);
    let b = thinking_effects(r.thinking, r.signature);
    let i = seq![EffectView::Emit(EventView::Interrupted { partial_text: r.text })];
    if a.len() > 0 {
        lemma_one(a[0]);
        assert(a =~= seq![a[0]]);
    } else {
        assert(a =~= Seq::<EffectView>::empty());
    }
    if b.len() > 0 {
        lemma_one(b[0]);
        assert(b =~= seq![b[0]]);
    } else {
        assert(b =~= Seq::<EffectView>::empty());
    }
    lemma_one(i[0]);
    lemma_add(a, b);
    lemma_add(a, i);
    lemma_add(a + i, b);
    assert(crate::agent::effects::interrupt_effects(r.text) =~= a + i);
    let bare = ReplyView { thinking: Seq::empty(), ..r };
    assert(appended(a) =~= kept_of(bare));
    assert(appended(a + b) =~= kept_of(r));
    assert(appended(a + i) =~= kept_of(bare));
    assert(emitted(a + i) =~= i.map_values(|e: EffectView| e->Emit_0));
    assert(appended(a + i + b) =~= kept_of(r));
    assert(emitted(a + i + b) =~= seq![EventView::Interrupted { partial_text: r.text }]);
}

/// An answer that breaks off is kept as far as it came. Where it ran into its token limit and there
/// are retries, the model is told and asked again; where the model refused, that is reported and
/// the model is told nothing; any other error ends the turn, and the model is told.
pub proof fn law_broken_answer_is_kept(t: TurnView, error: ErrorView, chat_mode: bool, auto: bool)
    requires
        t.wf(),
        t.phase is Streaming,
    ensures
        ({
            let step = turn_step(t, InputView::StreamFailed(error), chat_mode, auto);
            let words = error.full_words();
            let kept = kept_of(t.reply);
            if t.retries_used < t.settings.max_token_retries && error.max_tokens() {
                &&& step.turn.phase is Starting
                &&& step.turn.iterations == t.iterations - 1
                &&& step.turn.retries_used == t.retries_used + 1
                &&& appended(step.effects) == kept.push(told_of_error(words))
                &&& emitted(step.effects) == seq![EventView::Retrying(words)]
            } else {
                &&& step.turn.phase is Finished
                &&& appended(step.effects) == if error.refusal() {
                    kept
                } else {
                    kept.push(told_of_error(words))
                }
                &&& emitted(step.effects) == seq![EventView::Error(words)]
            }
        }),
{
    let fx = turn_step(t, InputView::StreamFailed(error), chat_mode, auto).effects;
    let words = error.full_words();
    let kept = partial_effects(t.reply.text) + thinking_effects(
        t.reply.thinking,
        t.reply.signature,
    );
    lemma_kept(t.reply);
    let retry = crate::agent::effects::error_effects(words, EventView::Retrying(words));
    let fail = crate::agent::effects::error_effects(words, EventView::Error(words));
    let refusal = seq![EffectView::Emit(EventView::Error(words))];
    lemma_error(words, EventView::Retrying(words));
    lemma_error(words, EventView::Error(words));
    lemma_one(refusal[0]);
    lemma_add(kept, retry);
    lemma_add(kept, fail);
    lemma_add(kept, refusal);
    assert(kept.push(refusal[0]) =~= kept + refusal);
    assert(kept_of(t.reply) + seq![told_of_error(words)] =~= kept_of(t.reply).push(
        told_of_error(words),
    ));
    assert(emitted(kept) + seq![EventView::Retrying(words)] =~= seq![EventView::Retrying(words)]);
    assert(emitted(kept) + seq![EventView::Error(words)] =~= seq![EventView::Error(words)]);
    assert(kept_of(t.reply) + Seq::<MessageView>::empty() =~= kept_of(t.reply));
}

/// A turn that is cancelled ends with a report of what was said so far, and that is kept: before a
/// request there is nothing, while the answer is read and after tools ran there is also what was
/// thought.
pub proof fn law_cancelled_turn_ends(t: TurnView, chat_mode: bool, auto: bool)
    requires
        t.wf(),
    ensures
        ({
            let now = InputView::Proceed { cancelled: true };
            let bare = ReplyView { thinking: Seq::empty(), ..t.reply };
            let interrupted = EventView::Interrupted { partial_text: t.reply.text };
            &&& t.phase is Starting ==> {
                let step = turn_step(t, now, chat_mode, auto);
                &&& step.turn.phase is Finished
                &&& appended(step.effects).len() == 0
                &&& emitted(step.effects) == seq![
                    EventView::Interrupted { partial_text: Seq::empty() },
                ]
            }
            &&& t.phase is Streaming ==> {
                let step = turn_step(
                    t,
                    InputView::StreamEnded { cancelled: true },
                    chat_mode,
                    auto,
                );
                &&& step.turn.phase is Finished
                &&& appended(step.effects) == kept_of(t.reply)
                &&& emitted(step.effects) == seq![
                    EventView::Warn(
                        "stream interrupted by cancellation; any in-flight tool executions will be orphaned"@,
                    ),
                    interrupted,
                ]
            }
            &&& t.phase is BeforeTools ==> {
                let step = turn_step(t, now, chat_mode, auto);
                &&& step.turn.phase is Finished
                &&& appended(step.effects) == kept_of(bare)
                &&& emitted(step.effects) == seq![
                    EventView::Warn(
                        "cancellation requested before tool execution; tool calls will be skipped"@,
                    ),
                    interrupted,
                ]
            }
            &&& t.phase is AfterTools ==> {
                let step = turn_step(t, now, chat_mode, auto);
                &&& step.turn.phase is Finished
                &&& appended(step.effects) == kept_of(t.reply)
                &&& emitted(step.effects) == seq![interrupted]
            }
        }),
{
    let now = InputView::Proceed { cancelled: true };
    let interrupted = EventView::Interrupted { partial_text: t.reply.text };
    lemma_kept(t.reply);
    lemma_kept(ReplyView { text: Seq::empty(), thinking: Seq::empty(), ..t.reply });
    if t.phase is Streaming {
        let fx = turn_step(t, InputView::StreamEnded { cancelled: true }, chat_mode, auto).effects;
        let rest = crate::agent::effects::interrupt_effects(t.reply.text) + thinking_effects(
            t.reply.thinking,
            t.reply.signature,
        );
        assert(fx =~= seq![fx[0]] + rest);
        lemma_one(fx[0]);
        lemma_add(seq![fx[0]], rest);
        assert(appended(fx) =~= kept_of(t.reply));
        assert(emitted(fx) =~= seq![fx[0]->Emit_0, interrupted]);
    }
    if t.phase is BeforeTools {
        let fx = turn_step(t, now, chat_mode, auto).effects;
        let rest = crate::agent::effects::interrupt_effects(t.reply.text);
        assert(fx =~= seq![fx[0]] + rest);
        lemma_one(fx[0]);
        lemma_add(seq![fx[0]], rest);
        assert(appended(fx) =~= kept_of(ReplyView { thinking: Seq::empty(), ..t.reply }));
        assert(emitted(fx) =~= seq![fx[0]->Emit_0, interrupted]);
    }
}

/// A turn asks the model as long as it has iterations left; after that it ends with an error that
/// tells how many it had. A backend that fails ends it with that error. A backend that answers is
/// read from the start.
pub proof fn law_asking(t: TurnView, error: ErrorView, chat_mode: bool, auto: bool)
    requires
        t.wf(),
    ensures
        t.phase is Starting ==> {
            let step = turn_step(t, InputView::Proceed { cancelled: false }, chat_mode, auto);
            let words = "Max tool iterations ("@ + decimal(t.settings.max_iterations as nat)
                + ") exceeded"@;
            if t.iterations < t.settings.max_iterations {
                &&& step.turn.phase is Requesting
                &&& step.turn.iterations == t.iterations + 1
                &&& step.effects.len() == 0
            } else {
                &&& step.turn.phase is Finished
                &&& appended(step.effects) == seq![told_of_error(words)]
                &&& emitted(step.effects) == seq![EventView::Error(words)]
            }
        },
        t.phase is Requesting ==> {
            let failed = turn_step(t, InputView::BackendFailed(error), chat_mode, auto);
            let words = error.full_words();
            &&& failed.turn.phase is Finished
            &&& appended(failed.effects) == seq![told_of_error(words)]
            &&& emitted(failed.effects) == seq![EventView::Error(words)]
        },
        t.phase is Requesting ==> {
            let begun = turn_step(t, InputView::BackendReady, chat_mode, auto);
            let r = begun.turn.reply;
            &&& begun.turn.phase is Streaming
            &&& begun.effects.len() == 0
            &&& r.text.len() == 0 && r.thinking.len() == 0 && r.signature.len() == 0
            &&& r.tool_calls.len() == 0 && r.current is None
            &&& r.peak_input_tokens == 0 && r.last_output_tokens == 0
        },
        t.phase is BeforeTools ==> {
            let begun = turn_step(t, InputView::Proceed { cancelled: false }, chat_mode, auto);
            &&& begun.turn.phase is Deciding
            &&& begun.turn.batch.len() == 0
            &&& begun.turn.reply == t.reply
            &&& begun.effects.len() == 0
        },
{
    let words = "Max tool iterations ("@ + decimal(t.settings.max_iterations as nat)
        + ") exceeded"@;
    lemma_error(words, EventView::Error(words));
    lemma_error(error.full_words(), EventView::Error(error.full_words()));
}

} // verus!
