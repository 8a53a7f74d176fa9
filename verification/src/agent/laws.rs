//! What holds of every turn, whatever the model, the tools and the user do.
use vstd::prelude::*;

use crate::agent::effects::{
    appended, auto_compact_effects, auto_compact_flag, emitted, error_effects, interrupt_effects,
    lemma_appended_add, lemma_emitted_add, partial_effects, thinking_effects, EffectView,
};
use crate::agent::calls::{
    call_input, emit_all, immediate_decision, result_effects, result_extras, results_effects,
    slot, use_blocks, DecisionView, OutcomeView, ResolvedView, SettingsView,
};
use crate::agent::reply::ReplyView;
use crate::agent::turn::{
    after_tools, broken_answer, new_turn, turn_step, InputView, Phase, StepView, TurnView,
};
use crate::backend::error::ErrorView;
use crate::json::parsed_json;
use crate::text::is_blank;
use crate::types::{BlockView, EventView, MessageView, Role};

verus! {

/// What a turn is told in one step, and whether the agent is in chat mode then.
pub struct Told {
    pub input: InputView,
    pub chat_mode: bool,
}

/// Where a turn is after it was told several things, and all that it asked for on the way.
pub open spec fn run(t: TurnView, auto: bool, told: Seq<Told>) -> StepView
    decreases told.len(),
{
    if told.len() == 0 {
        StepView { turn: t, auto_compacted: auto, effects: Seq::empty() }
    } else {
        let before = run(t, auto, told.drop_last());
        let last = turn_step(
            before.turn,
            told.last().input,
            told.last().chat_mode,
            before.auto_compacted,
        );
        StepView { effects: before.effects + last.effects, ..last }
    }
}

/// How often the backend was asked on the way.
pub open spec fn requests(t: TurnView, auto: bool, told: Seq<Told>) -> nat
    decreases told.len(),
{
    if told.len() == 0 {
        0
    } else {
        let before = run(t, auto, told.drop_last()).turn;
        let after = run(t, auto, told).turn;
        requests(t, auto, told.drop_last()) + if before.phase is Starting
            && after.phase is Requesting {
            1nat
        } else {
            0nat
        }
    }
}

/// A step keeps a turn well formed.
pub proof fn lemma_step_keeps_wf(t: TurnView, input: InputView, chat_mode: bool, auto: bool)
    requires
        t.wf(),
    ensures
        turn_step(t, input, chat_mode, auto).turn.wf(),
        turn_step(t, input, chat_mode, auto).turn.settings == t.settings,
{
    let after = turn_step(t, input, chat_mode, auto).turn;
    if t.phase is Confirming && input is Confirmed {
        assert forall|i: int| 0 <= i < after.batch.len() implies {
            &&& (#[trigger] after.batch[i]).id == after.reply.tool_calls[i].id
            &&& after.batch[i].name == after.reply.tool_calls[i].name
            &&& after.batch[i].index == i + 1
        } by {
            assert(t.batch[i].id == t.reply.tool_calls[i].id);
        }
    }
    if t.phase is Deciding && input is Proceed {
        assert forall|i: int| 0 <= i < after.batch.len() implies {
            &&& (#[trigger] after.batch[i]).id == after.reply.tool_calls[i].id
            &&& after.batch[i].name == after.reply.tool_calls[i].name
            &&& after.batch[i].index == i + 1
        } by {
            if i < t.batch.len() {
                assert(t.batch[i].id == t.reply.tool_calls[i].id);
            }
        }
    }
}

/// A request costs an iteration or, after a token limit, a retry.
proof fn lemma_step_counts(t: TurnView, input: InputView, chat_mode: bool, auto: bool)
    requires
        t.wf(),
    ensures
        ({
            let after = turn_step(t, input, chat_mode, auto).turn;
            after.iterations + after.retries_used == t.iterations + t.retries_used + if t.phase
                is Starting && after.phase is Requesting {
                1int
            } else {
                0int
            }
        }),
{
}

/// A turn asks the backend at most as often as its iterations and its retries together allow:
/// asking again after a token limit costs a retry and no iteration.
pub proof fn law_requests_are_bounded(settings: SettingsView, auto: bool, told: Seq<Told>)
    ensures
        run(new_turn(settings), auto, told).turn.wf(),
        requests(new_turn(settings), auto, told) <= settings.max_iterations
            + settings.max_token_retries,
{
    lemma_requests(settings, auto, told);
}

#[verifier::rlimit(60)]
proof fn lemma_requests(settings: SettingsView, auto: bool, told: Seq<Told>)
    ensures
        run(new_turn(settings), auto, told).turn.wf(),
        run(new_turn(settings), auto, told).turn.settings == settings,
        requests(new_turn(settings), auto, told) == run(new_turn(settings), auto, told).turn.iterations
            + run(new_turn(settings), auto, told).turn.retries_used,
    decreases told.len(),
{
    if told.len() > 0 {
        lemma_requests(settings, auto, told.drop_last());
        let before = run(new_turn(settings), auto, told.drop_last());
        lemma_step_keeps_wf(
            before.turn,
            told.last().input,
            told.last().chat_mode,
            before.auto_compacted,
        );
        lemma_step_counts(
            before.turn,
            told.last().input,
            told.last().chat_mode,
            before.auto_compacted,
        );
        assert(run(new_turn(settings), auto, told).turn == turn_step(
            before.turn,
            told.last().input,
            told.last().chat_mode,
            before.auto_compacted,
        ).turn);
    }
}

/// A finished turn does nothing more.
pub proof fn law_finished_is_final(t: TurnView, input: InputView, chat_mode: bool, auto: bool)
    requires
        t.phase is Finished,
    ensures
        turn_step(t, input, chat_mode, auto) == (StepView {
            turn: t,
            auto_compacted: auto,
            effects: Seq::empty(),
        }),
{
}

/// The ids of the calls among blocks.
pub open spec fn use_ids(s: Seq<BlockView>) -> Seq<Seq<char>>
    decreases s.len(),
{
    if s.len() == 0 {
        Seq::empty()
    } else {
        match s.last() {
            BlockView::ToolUse { id, .. } => use_ids(s.drop_last()).push(id),
            _ => use_ids(s.drop_last()),
        }
    }
}

/// The ids of the calls that blocks answer.
pub open spec fn answered_ids(s: Seq<BlockView>) -> Seq<Seq<char>>
    decreases s.len(),
{
    if s.len() == 0 {
        Seq::empty()
    } else {
        match s.last() {
            BlockView::ToolResult { tool_use_id, .. } => answered_ids(s.drop_last()).push(
                tool_use_id,
            ),
            _ => answered_ids(s.drop_last()),
        }
    }
}

proof fn lemma_use_ids(lead: ReplyView, batch: Seq<ResolvedView>)
    ensures
        use_ids(lead.blocks() + use_blocks(batch)) == batch.map_values(|c: ResolvedView| c.id),
    decreases batch.len(),
{
    let all = lead.blocks() + use_blocks(batch);
    if batch.len() == 0 {
        assert(all =~= lead.blocks());
        reveal_with_fuel(use_ids, 3);
        assert(use_ids(all) =~= batch.map_values(|c: ResolvedView| c.id));
    } else {
        assert(all.drop_last() =~= lead.blocks() + use_blocks(batch.drop_last()));
        lemma_use_ids(lead, batch.drop_last());
        assert(use_ids(all) =~= batch.map_values(|c: ResolvedView| c.id));
    }
}

proof fn lemma_answered_ids(results: Seq<BlockView>, ids: Seq<Seq<char>>)
    requires
        results.len() == ids.len(),
        forall|i: int|
            0 <= i < results.len() ==> (#[trigger] results[i]) is ToolResult
                && results[i]->tool_use_id == ids[i],
    ensures
        answered_ids(results) == ids,
    decreases results.len(),
{
    if results.len() > 0 {
        let front = results.drop_last();
        assert forall|i: int| 0 <= i < front.len() implies (#[trigger] front[i]) is ToolResult
            && front[i]->tool_use_id == ids.drop_last()[i] by {
            assert(front[i] == results[i]);
        }
        lemma_answered_ids(front, ids.drop_last());
        assert(results.last() == results[results.len() - 1]);
        assert(answered_ids(results) =~= ids);
    } else {
        assert(answered_ids(results) =~= ids);
    }
}

/// Every call that enters the conversation is followed by its answer: a step that adds calls
/// adds two messages, the second of which answers each call of the first exactly once and in
/// the same order.
pub proof fn law_calls_are_answered(t: TurnView, auto: bool)
    requires
        t.wf(),
        t.phase is AfterTools,
    ensures
        ({
            let added = appended(after_tools(t, false, auto).effects);
            &&& added.len() == 2
            &&& added[0].role == Role::Assistant
            &&& added[1].role == Role::User
            &&& use_ids(added[0].content) == answered_ids(added[1].content)
            &&& answered_ids(added[1].content).len() == t.reply.tool_calls.len()
        }),
{
    let calls = MessageView {
        role: Role::Assistant,
        content: t.reply.blocks() + use_blocks(t.batch),
    };
    let answers = MessageView { role: Role::User, content: t.results };
    let two = seq![EffectView::Append(calls), EffectView::Append(answers)];
    let tail = auto_compact_effects(
        t.reply.peak_input_tokens,
        t.settings.max_context_window_len,
        auto,
    );
    lemma_appended_add(two, tail);
    reveal_with_fuel(appended, 3);
    assert(two.drop_last() =~= seq![EffectView::Append(calls)]);
    assert(appended(tail) =~= Seq::empty());
    assert(appended(two) =~= seq![calls, answers]);
    assert(appended(two + tail) =~= seq![calls, answers]);
    lemma_use_ids(t.reply, t.batch);
    lemma_answered_ids(t.results, t.batch.map_values(|c: ResolvedView| c.id));
}

/// Whether a message is one that tells the model of an error, or any other message of the user.
pub open spec fn from_user(m: MessageView) -> bool {
    m.role == Role::User
}

/// A refusal leaves nothing in the conversation but what the model had said and thought: the
/// model is told of no error, and is not asked again.
pub proof fn law_refusal_adds_no_error(t: TurnView, error: ErrorView, chat_mode: bool, auto: bool)
    requires
        t.phase is Streaming,
        error.refusal(),
    ensures
        ({
            let step = turn_step(t, InputView::StreamFailed(error), chat_mode, auto);
            &&& step.turn.phase is Finished
            &&& forall|i: int|
                0 <= i < appended(step.effects).len() ==> !from_user(
                    #[trigger] appended(step.effects)[i],
                )
        }),
{
    let kept = partial_effects(t.reply.text) + thinking_effects(
        t.reply.thinking,
        t.reply.signature,
    );
    let tail = seq![EffectView::Emit(EventView::Error(error.full_words()))];
    assert(broken_answer(t, error, auto).effects =~= kept + tail);
    lemma_appended_add(kept, tail);
    lemma_appended_add(
        partial_effects(t.reply.text),
        thinking_effects(t.reply.thinking, t.reply.signature),
    );
    reveal_with_fuel(appended, 3);
}

/// Whether an event tells how a turn ended.
pub open spec fn is_ending(e: EventView) -> bool {
    e is ResponseComplete || e is Error || e is Interrupted
}

/// How many of the events tell how a turn ended.
pub open spec fn endings(s: Seq<EventView>) -> nat
    decreases s.len(),
{
    if s.len() == 0 {
        0
    } else {
        endings(s.drop_last()) + if is_ending(s.last()) {
            1nat
        } else {
            0nat
        }
    }
}

proof fn lemma_endings_add(a: Seq<EventView>, b: Seq<EventView>)
    ensures
        endings(a + b) == endings(a) + endings(b),
    decreases b.len(),
{
    if b.len() == 0 {
        assert(a + b =~= a);
    } else {
        assert((a + b).drop_last() =~= a + b.drop_last());
        lemma_endings_add(a, b.drop_last());
    }
}

proof fn lemma_effect_endings_add(a: Seq<EffectView>, b: Seq<EffectView>)
    ensures
        endings(emitted(a + b)) == endings(emitted(a)) + endings(emitted(b)),
{
    lemma_emitted_add(a, b);
    lemma_endings_add(emitted(a), emitted(b));
}

proof fn lemma_small_endings(text: Seq<char>, thinking: Seq<char>, signature: Seq<char>)
    ensures
        endings(emitted(partial_effects(text))) == 0,
        endings(emitted(interrupt_effects(text))) == 1,
        endings(emitted(thinking_effects(thinking, signature))) == 0,
{
    reveal_with_fuel(emitted, 3);
    reveal_with_fuel(endings, 3);
    assert(interrupt_effects(text).drop_last() =~= partial_effects(text));
    let e = EventView::Interrupted { partial_text: text };
    assert(emitted(partial_effects(text)) =~= Seq::empty());
    assert(emitted(interrupt_effects(text)) =~= seq![e]);
    assert(seq![e].drop_last() =~= Seq::empty());
}

proof fn lemma_error_endings(words: Seq<char>, event: EventView)
    ensures
        endings(emitted(error_effects(words, event))) == if is_ending(event) {
            1nat
        } else {
            0nat
        },
{
    reveal_with_fuel(emitted, 3);
    reveal_with_fuel(endings, 3);
    let fx = error_effects(words, event);
    assert(fx.drop_last().drop_last() =~= Seq::empty());
    assert(emitted(fx) =~= seq![event]);
    assert(seq![event].drop_last() =~= Seq::empty());
}

proof fn lemma_one_emit(e: EventView)
    ensures
        endings(emitted(seq![EffectView::Emit(e)])) == if is_ending(e) {
            1nat
        } else {
            0nat
        },
{
    reveal_with_fuel(emitted, 2);
    reveal_with_fuel(endings, 2);
    assert(seq![EffectView::Emit(e)].drop_last() =~= Seq::empty());
    assert(emitted(seq![EffectView::Emit(e)]) =~= seq![e]);
    assert(seq![e].drop_last() =~= Seq::empty());
}

proof fn lemma_auto_compact_endings(peak: u32, window: u32, auto: bool)
    ensures
        endings(emitted(auto_compact_effects(peak, window, auto))) == 0,
{
    let fx = auto_compact_effects(peak, window, auto);
    if fx.len() > 0 {
        lemma_one_emit(fx[0]->Emit_0);
        assert(fx =~= seq![EffectView::Emit(fx[0]->Emit_0)]);
    } else {
        assert(emitted(fx).len() == 0);
    }
}

/// Whether no tool itself reports how the turn ended.
pub open spec fn tools_report_no_ending(input: InputView) -> bool {
    input matches InputView::ToolOutcomes(slots) ==> forall|i: int|
        0 <= i < slots.len() ==> ((#[trigger] slots[i]) matches Some(
            OutcomeView::Finished { agent_events, .. },
        ) ==> endings(agent_events) == 0)
}

proof fn lemma_emit_all(events: Seq<EventView>)
    ensures
        emitted(emit_all(events)) == events,
    decreases events.len(),
{
    if events.len() > 0 {
        assert(emit_all(events).drop_last() =~= emit_all(events.drop_last()));
        lemma_emit_all(events.drop_last());
        assert(emitted(emit_all(events)) =~= events);
    } else {
        assert(emitted(emit_all(events)) =~= events);
    }
}

proof fn lemma_results_endings(batch: Seq<ResolvedView>, slots: Seq<Option<OutcomeView>>)
    requires
        tools_report_no_ending(InputView::ToolOutcomes(slots)),
    ensures
        endings(emitted(results_effects(batch, slots))) == 0,
    decreases batch.len(),
{
    if batch.len() == 0 {
        assert(emitted(results_effects(batch, slots)) =~= Seq::empty());
    } else {
        lemma_results_endings(batch.drop_last(), slots);
        let outcome = slot(slots, batch.len() - 1);
        let fx = result_effects(batch.last(), outcome);
        let extras = result_extras(batch.last().decision, outcome);
        let own = fx.last()->Emit_0;
        assert(endings(extras) == 0) by {
            if 0 <= batch.len() - 1 < slots.len() {
                assert(slots[batch.len() - 1] == outcome);
            }
        }
        lemma_emit_all(extras);
        lemma_one_emit(own);
        assert(fx =~= emit_all(extras) + seq![EffectView::Emit(own)]);
        lemma_effect_endings_add(emit_all(extras), seq![EffectView::Emit(own)]);
        lemma_effect_endings_add(results_effects(batch.drop_last(), slots), fx);
    }
}

/// The step that finishes a turn reports one of completion, error and interruption, and no other
/// step does.
proof fn lemma_step_endings(t: TurnView, input: InputView, chat_mode: bool, auto: bool)
    requires
        t.wf(),
        !(t.phase is Finished),
        tools_report_no_ending(input),
    ensures
        endings(emitted(turn_step(t, input, chat_mode, auto).effects)) == if turn_step(
            t,
            input,
            chat_mode,
            auto,
        ).turn.phase is Finished {
            1nat
        } else {
            0nat
        },
{
    let step = turn_step(t, input, chat_mode, auto);
    let fx = step.effects;
    let reply = t.reply;
    let peak = reply.peak_input_tokens;
    let window = t.settings.max_context_window_len;
    lemma_small_endings(reply.text, reply.thinking, reply.signature);
    lemma_small_endings(Seq::empty(), reply.thinking, reply.signature);
    lemma_auto_compact_endings(peak, window, auto);
    reveal_with_fuel(emitted, 1);
    match (t.phase, input) {
        (Phase::Starting, InputView::Proceed { cancelled }) => {
            if !cancelled && t.iterations >= t.settings.max_iterations {
                let w = fx[1]->Emit_0->Error_0;
                lemma_error_endings(w, EventView::Error(w));
            }
        },
        (Phase::Requesting, InputView::BackendFailed(e)) => {
            lemma_error_endings(e.full_words(), EventView::Error(e.full_words()));
        },
        (Phase::Streaming, InputView::Stream(e)) if !(e is Done) => {
            if fx.len() > 0 {
                lemma_one_emit(fx[0]->Emit_0);
                assert(fx =~= seq![EffectView::Emit(fx[0]->Emit_0)]);
            }
        },
        (Phase::Streaming, InputView::StreamFailed(e)) => {
            let kept = partial_effects(reply.text) + thinking_effects(
                reply.thinking,
                reply.signature,
            );
            let w = e.full_words();
            lemma_effect_endings_add(
                partial_effects(reply.text),
                thinking_effects(reply.thinking, reply.signature),
            );
            lemma_effect_endings_add(kept, error_effects(w, EventView::Retrying(w)));
            lemma_effect_endings_add(kept, error_effects(w, EventView::Error(w)));
            lemma_error_endings(w, EventView::Retrying(w));
            lemma_error_endings(w, EventView::Error(w));
            lemma_effect_endings_add(kept, seq![EffectView::Emit(EventView::Error(w))]);
            lemma_one_emit(EventView::Error(w));
            assert(kept.push(EffectView::Emit(EventView::Error(w))) =~= kept + seq![
                EffectView::Emit(EventView::Error(w)),
            ]);
        },
        (Phase::Streaming, InputView::StreamEnded { cancelled: true }) => {
            lemma_one_emit(fx[0]->Emit_0);
            let warn = seq![EffectView::Emit(fx[0]->Emit_0)];
            assert(fx =~= warn + interrupt_effects(reply.text) + thinking_effects(
                reply.thinking,
                reply.signature,
            ));
            lemma_effect_endings_add(warn, interrupt_effects(reply.text));
            lemma_effect_endings_add(
                warn + interrupt_effects(reply.text),
                thinking_effects(reply.thinking, reply.signature),
            );
        },
        (Phase::Streaming, InputView::Stream(_))
        | (Phase::Streaming, InputView::StreamEnded { cancelled: false }) => {
            if step.turn.phase is Starting {
                let w = fx[1]->Emit_0->Retrying_0;
                lemma_error_endings(w, EventView::Retrying(w));
            } else if step.turn.phase is Finished {
                let done = EventView::ResponseComplete(reply.text);
                let message = EffectView::Append(
                    MessageView { role: Role::Assistant, content: reply.blocks() },
                );
                let two = seq![message, EffectView::Emit(done)];
                lemma_effect_endings_add(two, auto_compact_effects(peak, window, auto));
                lemma_effect_endings_add(seq![message], seq![EffectView::Emit(done)]);
                assert(two =~= seq![message] + seq![EffectView::Emit(done)]);
                lemma_one_emit(done);
                assert(seq![message].drop_last() =~= Seq::empty());
                assert(emitted(seq![message]) =~= Seq::empty()) by {
                    reveal_with_fuel(emitted, 2);
                }
            }
        },
        (Phase::BeforeTools, InputView::Proceed { cancelled }) => {
            if cancelled {
                lemma_one_emit(fx[0]->Emit_0);
                let warn = seq![EffectView::Emit(fx[0]->Emit_0)];
                assert(fx =~= warn + interrupt_effects(reply.text));
                lemma_effect_endings_add(warn, interrupt_effects(reply.text));
            }
        },
        (Phase::Deciding, InputView::Proceed { cancelled }) => {
            lemma_one_emit(fx[0]->Emit_0);
            if fx.len() == 1 {
                assert(fx =~= seq![EffectView::Emit(fx[0]->Emit_0)]);
            } else {
                lemma_one_emit(fx[1]->Emit_0);
                let a = seq![EffectView::Emit(fx[0]->Emit_0)];
                let b = seq![EffectView::Emit(fx[1]->Emit_0)];
                assert(fx =~= a + b);
                lemma_effect_endings_add(a, b);
            }
        },
        (Phase::AfterTools, InputView::Proceed { cancelled }) => {
            if cancelled {
                lemma_effect_endings_add(
                    interrupt_effects(reply.text),
                    thinking_effects(reply.thinking, reply.signature),
                );
            } else {
                let two = seq![fx[0], fx[1]];
                let tail = auto_compact_effects(peak, window, auto);
                assert(fx =~= two + tail);
                lemma_effect_endings_add(two, tail);
                reveal_with_fuel(emitted, 3);
                assert(two.drop_last().drop_last() =~= Seq::empty());
                assert(emitted(two) =~= Seq::empty());
            }
        },
        (Phase::Running, InputView::ToolOutcomes(slots)) => {
            lemma_results_endings(t.batch, slots);
        },
        _ => {},
    }
}

/// A turn says exactly once how it ended, and not before it ends: of all that it reports, exactly
/// one event tells of completion, error or interruption if it is finished, and none does if it is
/// not. This holds where no tool itself reports such an event.
pub proof fn law_one_ending(settings: SettingsView, auto: bool, told: Seq<Told>)
    requires
        forall|k: int| 0 <= k < told.len() ==> tools_report_no_ending((#[trigger] told[k]).input),
    ensures
        ({
            let end = run(new_turn(settings), auto, told);
            endings(emitted(end.effects)) == if end.turn.phase is Finished {
                1nat
            } else {
                0nat
            }
        }),
    decreases told.len(),
{
    let end = run(new_turn(settings), auto, told);
    if told.len() == 0 {
        assert(emitted(end.effects) =~= Seq::empty());
    } else {
        let front = told.drop_last();
        assert forall|k: int| 0 <= k < front.len() implies tools_report_no_ending(
            (#[trigger] front[k]).input,
        ) by {
            assert(front[k] == told[k]);
        }
        law_one_ending(settings, auto, front);
        lemma_requests(settings, auto, front);
        let before = run(new_turn(settings), auto, front);
        let last = told[told.len() - 1];
        assert(tools_report_no_ending(last.input));
        let step = turn_step(before.turn, last.input, last.chat_mode, before.auto_compacted);
        lemma_effect_endings_add(before.effects, step.effects);
        if before.turn.phase is Finished {
            law_finished_is_final(
                before.turn,
                last.input,
                last.chat_mode,
                before.auto_compacted,
            );
            assert(emitted(step.effects) =~= Seq::empty());
        } else {
            lemma_step_endings(before.turn, last.input, last.chat_mode, before.auto_compacted);
        }
    }
}

/// What is decided without the user about the call that comes next.
pub open spec fn next_decision(t: TurnView, chat_mode: bool, cancelled: bool) -> Option<
    DecisionView,
> {
    let call = t.reply.tool_calls[t.batch.len() as int];
    immediate_decision(
        t.settings,
        call.name,
        call_input(is_blank(call.input_json), parsed_json(call.input_json)).1,
        chat_mode,
        cancelled,
    )
}

/// A step approves a call only where the settings let it run without the user, or where the user
/// agreed to it. A call that the user did not agree to is declined. No step changes what was
/// decided about another call of the batch.
pub proof fn law_approval(t: TurnView, input: InputView, chat_mode: bool, auto: bool)
    requires
        t.wf(),
        t.deciding(),
    ensures
        ({
            let after = turn_step(t, input, chat_mode, auto).turn;
            let n = t.batch.len() as int;
            let answered = t.phase is Confirming && input is Confirmed;
            &&& forall|i: int|
                0 <= i < after.batch.len() && (#[trigger] after.batch[i]).decision is Approved
                    ==> {
                    ||| i < n && t.batch[i].decision is Approved
                    ||| i == n && t.phase is Deciding && (input matches InputView::Proceed {
                        cancelled,
                    } && next_decision(t, chat_mode, cancelled) == Some(DecisionView::Approved))
                    ||| i == n - 1 && t.phase is Confirming && input == (InputView::Confirmed {
                        approved: true,
                    })
                }
            &&& t.phase is Confirming && input == (InputView::Confirmed { approved: false })
                ==> after.batch[n - 1].decision is Declined
            &&& forall|i: int|
                0 <= i < (if answered {
                    n - 1
                } else {
                    n
                }) ==> i < after.batch.len() && #[trigger] after.batch[i] == t.batch[i]
        }),
{
}

/// A call that needs the user's consent is approved after a step because it was before, or because
/// the user just agreed to it.
proof fn lemma_consent_step(t: TurnView, input: InputView, chat_mode: bool, auto: bool, i: int)
    requires
        t.wf(),
        ({
            let after = turn_step(t, input, chat_mode, auto).turn;
            &&& after.deciding()
            &&& 0 <= i < after.batch.len()
            &&& after.batch[i].decision is Approved
            &&& t.settings.needs_confirmation(after.batch[i].name)
        }),
    ensures
        t.deciding(),
        ({
            let after = turn_step(t, input, chat_mode, auto).turn;
            ||| i < t.batch.len() && t.batch[i].decision is Approved && t.batch[i].name
                == after.batch[i].name
            ||| t.phase is Confirming && t.batch.len() == i + 1 && input == (
            InputView::Confirmed { approved: true })
        }),
{
    if t.deciding() {
        law_approval(t, input, chat_mode, auto);
    }
}

/// A turn with the given settings after it was told several things.
#[verifier::opaque]
pub open spec fn turn_after(settings: SettingsView, auto: bool, told: Seq<Told>) -> TurnView {
    run(new_turn(settings), auto, told).turn
}

/// Whether the call in place `i` of the batch needs the user's consent and is approved.
pub open spec fn approved_needing_consent(settings: SettingsView, t: TurnView, i: int) -> bool {
    &&& t.deciding()
    &&& 0 <= i < t.batch.len()
    &&& t.batch[i].decision is Approved
    &&& settings.needs_confirmation(t.batch[i].name)
}

proof fn lemma_consent_told(settings: SettingsView, auto: bool, told: Seq<Told>, i: int)
    requires
        approved_needing_consent(settings, turn_after(settings, auto, told), i),
    ensures
        told.len() > 0,
        ({
            let before = turn_after(settings, auto, told.drop_last());
            &&& before.deciding()
            &&& {
                ||| approved_needing_consent(settings, before, i)
                ||| before.phase is Confirming && before.batch.len() == i + 1
                    && told.last().input == (InputView::Confirmed { approved: true })
            }
        }),
{
    reveal(turn_after);
    if told.len() > 0 {
        let before = run(new_turn(settings), auto, told.drop_last());
        lemma_requests(settings, auto, told.drop_last());
        lemma_consent_step(
            before.turn,
            told.last().input,
            told.last().chat_mode,
            before.auto_compacted,
            i,
        );
    }
}

/// Whether the user agreed to the call in place `i` when the turn had been told the first `k`
/// things, and the turn has been at the same batch since.
pub open spec fn agreed_at(
    settings: SettingsView,
    auto: bool,
    told: Seq<Told>,
    i: int,
    k: int,
) -> bool {
    let asked = turn_after(settings, auto, told.take(k));
    &&& 0 <= k < told.len()
    &&& asked.phase is Confirming
    &&& asked.batch.len() == i + 1
    &&& told[k].input == (InputView::Confirmed { approved: true })
    &&& forall|j: int|
        k <= j <= told.len() ==> (#[trigger] turn_after(settings, auto, told.take(j))).deciding()
}

/// No call that needs the user's consent is run without it: whatever a turn was told, if such a
/// call is approved, then the user was asked about that very call and agreed.
pub proof fn law_consent(settings: SettingsView, auto: bool, told: Seq<Told>, i: int)
    requires
        approved_needing_consent(settings, turn_after(settings, auto, told), i),
    ensures
        exists|k: int| #[trigger] agreed_at(settings, auto, told, i, k),
    decreases told.len(),
{
    lemma_consent_told(settings, auto, told, i);
    let front = told.drop_last();
    let n = told.len() as int;
    assert(told.take(n) =~= told);
    assert(told.take(n - 1) =~= front);
    if approved_needing_consent(settings, turn_after(settings, auto, front), i) {
        law_consent(settings, auto, front, i);
        let k = choose|k: int| #[trigger] agreed_at(settings, auto, front, i, k);
        assert(front.take(k) =~= told.take(k));
        assert forall|j: int| k <= j <= n implies (#[trigger] turn_after(
            settings,
            auto,
            told.take(j),
        )).deciding() by {
            if j < n {
                assert(front.take(j) =~= told.take(j));
            }
        }
        assert(agreed_at(settings, auto, told, i, k));
    } else {
        assert forall|j: int| n - 1 <= j <= n implies (#[trigger] turn_after(
            settings,
            auto,
            told.take(j),
        )).deciding() by {
            assert(j == n - 1 || j == n);
        }
        assert(agreed_at(settings, auto, told, i, n - 1));
    }
}

/// Compaction is never asked for twice in a row: after it was asked for, a still longer answer
/// draws a warning until an answer stays within the threshold.
pub proof fn law_no_two_compactions_in_a_row(peak: u32, next: u32, window: u32, auto: bool)
    ensures
        ({
            let flag = auto_compact_flag(peak, window, auto);
            let first = auto_compact_effects(peak, window, auto);
            let second = auto_compact_effects(next, window, flag);
            (exists|i: int|
                0 <= i < first.len() && #[trigger] first[i] is Emit
                    && first[i]->Emit_0 is AutoCompactTriggered) ==> (forall|i: int|
                0 <= i < second.len() && #[trigger] second[i] is Emit ==> !(
                second[i]->Emit_0 is AutoCompactTriggered))
        }),
{
}

} // verus!
