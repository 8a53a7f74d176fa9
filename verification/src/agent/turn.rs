//! One turn of the agent, from the user's message to the model's last word: a state machine
//! that is told what happened and answers with what to do.
use vstd::prelude::*;

use crate::agent::effects::{
    append, auto_compact_effects, auto_compact_flag, check_auto_compact, effects_view, emit,
    error_effects, interrupt_effects, partial_effects, persist_partial,
    persist_partial_and_interrupt, persist_thinking, record_error, record_retry,
    thinking_effects, Effect, EffectView,
};
use crate::agent::calls::{batch_view, call_input, emit_all, immediate_decision, outcome_view, result_block, result_blocks, result_effects, result_extras, result_text, results_effects, slot, slots_view, use_blocks, DecisionView, OutcomeView, ResolvedCall, ResolvedView, SettingsView, ToolDecision, ToolOutcome, TurnSettings};
use crate::agent::reply::{empty_reply, stream_effects, Reply, ReplyView};
use crate::agent::truncate::truncate_tool_result;
use crate::backend::error::{truncation_message, truncation_words, Error, ErrorView};
use crate::json::{parsed_json, reading, Json, JsonView};
use crate::text::{blank, decimal, is_blank, join_texts, opt_text, push_decimal};
use crate::types::{
    blocks_view, duplicate_blocks, events_view, texts_of_blocks, AgentEvent, BlockView,
    ContentBlock, EventView, Message, MessageView, Role, StreamEvent, StreamView,
};

verus! {

/// Where a turn stands.
#[derive(Clone, Copy, Debug, PartialEq, Eq, Structural)]
pub enum Phase {
    /// Before a request: the turn wants to know whether it was cancelled.
    Starting,
    /// The backend is to be asked.
    Requesting,
    /// The answer is to be read, event by event.
    Streaming,
    /// Before tools run: the turn wants to know whether it was cancelled.
    BeforeTools,
    /// The next call is to be decided on: the turn wants to know whether it was cancelled.
    Deciding,
    /// The user is to be asked about a call.
    Confirming,
    /// The approved tools are to be run.
    Running,
    /// After tools ran: the turn wants to know whether it was cancelled.
    AfterTools,
    /// Nothing more is to be done.
    Finished,
}

/// What a turn is told.
#[derive(Debug, PartialEq)]
pub enum TurnInput {
    /// Whether the turn was cancelled.
    Proceed { cancelled: bool },
    /// The backend began to answer.
    BackendReady,
    /// The backend failed before it began to answer.
    BackendFailed(Error),
    /// The next event of the answer.
    Stream(StreamEvent),
    /// The answer broke off with an error.
    StreamFailed(Error),
    /// The answer ended, or the turn was cancelled while it was read.
    StreamEnded { cancelled: bool },
    /// Whether the user agreed.
    Confirmed { approved: bool },
    /// How the tools ended, by place in the batch.
    ToolOutcomes(Vec<Option<ToolOutcome>>),
}

/// What a [`TurnInput`] says.
#[verifier::ext_equal]
pub enum InputView {
    Proceed { cancelled: bool },
    BackendReady,
    BackendFailed(ErrorView),
    Stream(StreamView),
    StreamFailed(ErrorView),
    StreamEnded { cancelled: bool },
    Confirmed { approved: bool },
    ToolOutcomes(Seq<Option<OutcomeView>>),
}

impl TurnInput {
    pub open spec fn view(self) -> InputView {
        match self {
            TurnInput::Proceed { cancelled } => InputView::Proceed { cancelled },
            TurnInput::BackendReady => InputView::BackendReady,
            TurnInput::BackendFailed(e) => InputView::BackendFailed(e@),
            TurnInput::Stream(e) => InputView::Stream(e@),
            TurnInput::StreamFailed(e) => InputView::StreamFailed(e@),
            TurnInput::StreamEnded { cancelled } => InputView::StreamEnded { cancelled },
            TurnInput::Confirmed { approved } => InputView::Confirmed { approved },
            TurnInput::ToolOutcomes(s) => InputView::ToolOutcomes(slots_view(s@)),
        }
    }
}

/// What a turn knows.
#[verifier::ext_equal]
pub struct TurnView {
    pub settings: SettingsView,
    pub phase: Phase,
    pub iterations: u32,
    pub retries_used: u32,
    pub reply: ReplyView,
    pub batch: Seq<ResolvedView>,
    pub results: Seq<BlockView>,
}

/// What a step leads to.
#[verifier::ext_equal]
pub struct StepView {
    pub turn: TurnView,
    pub auto_compacted: bool,
    pub effects: Seq<EffectView>,
}

/// The turn after `effects`, over.
pub open spec fn finish(t: TurnView, auto: bool, effects: Seq<EffectView>) -> StepView {
    StepView { turn: TurnView { phase: Phase::Finished, ..t }, auto_compacted: auto, effects }
}

/// The turn after `effects`, in the given phase.
pub open spec fn goto(t: TurnView, phase: Phase, auto: bool, effects: Seq<EffectView>) -> StepView {
    StepView { turn: TurnView { phase, ..t }, auto_compacted: auto, effects }
}

/// The turn asks the model again, which costs a retry instead of an iteration.
pub open spec fn ask_again(t: TurnView, auto: bool, effects: Seq<EffectView>) -> StepView {
    StepView {
        turn: TurnView {
            phase: Phase::Starting,
            iterations: (t.iterations - 1) as u32,
            retries_used: (t.retries_used + 1) as u32,
            ..t
        },
        auto_compacted: auto,
        effects,
    }
}

/// Begins an iteration, unless the turn was cancelled or has used up its iterations.
pub open spec fn begin_iteration(t: TurnView, cancelled: bool, auto: bool) -> StepView {
    if cancelled {
        finish(t, auto, interrupt_effects(Seq::empty()))
    } else if t.iterations >= t.settings.max_iterations {
        let words = "Max tool iterations ("@ + decimal(t.settings.max_iterations as nat)
            + ") exceeded"@;
        finish(t, auto, error_effects(words, EventView::Error(words)))
    } else {
        goto(
            TurnView { iterations: (t.iterations + 1) as u32, ..t },
            Phase::Requesting,
            auto,
            Seq::empty(),
        )
    }
}

/// Whether an answer without text and calls exhausted its token limit.
pub open spec fn hit_token_limit(t: TurnView) -> bool {
    t.settings.max_tokens > 0 && t.reply.last_output_tokens >= t.settings.max_tokens
}

/// What the model is told of an answer in which nothing was said.
pub open spec fn silent_answer_words(t: TurnView) -> Seq<char> {
    if hit_token_limit(t) {
        truncation_words(t.reply.peak_input_tokens, t.reply.last_output_tokens)
    } else {
        "Empty response: stream produced no text, no tool calls, and no usage. This may indicate a truncated stream or a max_tokens budget consumed entirely by internal reasoning."@
    }
}

/// The answer is complete.
pub open spec fn end_of_answer(t: TurnView, auto: bool) -> StepView {
    if t.reply.tool_calls.len() > 0 {
        goto(t, Phase::BeforeTools, auto, Seq::empty())
    } else if t.reply.text.len() == 0 && t.retries_used < t.settings.max_token_retries && (
    hit_token_limit(t) || t.reply.last_output_tokens == 0) {
        let words = silent_answer_words(t);
        ask_again(t, auto, error_effects(words, EventView::Retrying(words)))
    } else {
        let peak = t.reply.peak_input_tokens;
        let window = t.settings.max_context_window_len;
        finish(
            t,
            auto_compact_flag(peak, window, auto),
            seq![
                EffectView::Append(
                    MessageView { role: Role::Assistant, content: t.reply.blocks() },
                ),
                EffectView::Emit(EventView::ResponseComplete(t.reply.text)),
            ] + auto_compact_effects(peak, window, auto),
        )
    }
}

/// The turn was cancelled while the answer was read.
pub open spec fn cancelled_answer(t: TurnView, auto: bool) -> StepView {
    finish(
        t,
        auto,
        seq![
            EffectView::Emit(
                EventView::Warn(
                    "stream interrupted by cancellation; any in-flight tool executions will be orphaned"@,
                ),
            ),
        ] + interrupt_effects(t.reply.text) + thinking_effects(t.reply.thinking, t.reply.signature),
    )
}

/// The answer broke off.
pub open spec fn broken_answer(t: TurnView, error: ErrorView, auto: bool) -> StepView {
    let kept = partial_effects(t.reply.text) + thinking_effects(
        t.reply.thinking,
        t.reply.signature,
    );
    let words = error.full_words();
    if t.retries_used < t.settings.max_token_retries && error.max_tokens() {
        ask_again(t, auto, kept + error_effects(words, EventView::Retrying(words)))
    } else if error.refusal() {
        finish(t, auto, kept.push(EffectView::Emit(EventView::Error(words))))
    } else {
        finish(t, auto, kept + error_effects(words, EventView::Error(words)))
    }
}

/// Takes up the calls of the answer, unless the turn was cancelled.
pub open spec fn before_tools(t: TurnView, cancelled: bool, auto: bool) -> StepView {
    if cancelled {
        finish(
            t,
            auto,
            seq![
                EffectView::Emit(
                    EventView::Warn(
                        "cancellation requested before tool execution; tool calls will be skipped"@,
                    ),
                ),
            ] + interrupt_effects(t.reply.text),
        )
    } else {
        goto(
            TurnView { batch: Seq::empty(), results: Seq::empty(), ..t },
            Phase::Deciding,
            auto,
            Seq::empty(),
        )
    }
}

/// The turn with one more call decided on.
pub open spec fn with_decided(t: TurnView, call: ResolvedView, ask: bool) -> TurnView {
    let batch = t.batch.push(call);
    TurnView {
        batch,
        phase: if ask {
            Phase::Confirming
        } else if batch.len() == t.reply.tool_calls.len() {
            Phase::Running
        } else {
            Phase::Deciding
        },
        ..t
    }
}

/// Reads and reports the next call, and decides on it or asks the user. `parsed` is what the
/// input text was read as.
pub open spec fn decide_next(
    t: TurnView,
    parsed: Result<JsonView, Seq<char>>,
    chat_mode: bool,
    cancelled: bool,
    auto: bool,
) -> StepView {
    let call = t.reply.tool_calls[t.batch.len() as int];
    let index = t.batch.len() + 1;
    let (input, problem) = call_input(is_blank(call.input_json), parsed);
    let decision = immediate_decision(t.settings, call.name, problem, chat_mode, cancelled);
    let resolved = ResolvedView {
        id: call.id,
        name: call.name,
        input,
        decision: match decision {
            Some(d) => d,
            None => DecisionView::Declined,
        },
        index,
    };
    let received = EffectView::Emit(
        EventView::ToolUseReceived { id: call.id, name: call.name, input, index },
    );
    let asked = EffectView::Emit(
        EventView::ToolConfirmationRequired { id: call.id, name: call.name, input, index },
    );
    StepView {
        turn: with_decided(t, resolved, decision is None),
        auto_compacted: auto,
        effects: if decision is None {
            seq![received, asked]
        } else {
            seq![received]
        },
    }
}

/// The user answered: the call that was asked about is approved or declined.
pub open spec fn confirmed(t: TurnView, approved: bool, auto: bool) -> StepView {
    let call = ResolvedView {
        decision: if approved {
            DecisionView::Approved
        } else {
            DecisionView::Declined
        },
        ..t.batch.last()
    };
    StepView {
        turn: with_decided(TurnView { batch: t.batch.drop_last(), ..t }, call, false),
        auto_compacted: auto,
        effects: Seq::empty(),
    }
}

/// The tools ended.
pub open spec fn tools_ended(
    t: TurnView,
    slots: Seq<Option<OutcomeView>>,
    auto: bool,
) -> StepView {
    goto(
        TurnView {
            results: result_blocks(t.batch, slots, t.settings.max_tool_result_bytes),
            ..t
        },
        Phase::AfterTools,
        auto,
        results_effects(t.batch, slots),
    )
}

/// Adds the calls and their answers to the conversation, unless the turn was cancelled.
pub open spec fn after_tools(t: TurnView, cancelled: bool, auto: bool) -> StepView {
    if cancelled {
        finish(
            t,
            auto,
            interrupt_effects(t.reply.text) + thinking_effects(t.reply.thinking, t.reply.signature),
        )
    } else {
        let peak = t.reply.peak_input_tokens;
        let window = t.settings.max_context_window_len;
        goto(
            t,
            Phase::Starting,
            auto_compact_flag(peak, window, auto),
            seq![
                EffectView::Append(
                    MessageView {
                        role: Role::Assistant,
                        content: t.reply.blocks() + use_blocks(t.batch),
                    },
                ),
                EffectView::Append(MessageView { role: Role::User, content: t.results }),
            ] + auto_compact_effects(peak, window, auto),
        )
    }
}

/// One step of a turn. What does not fit the phase changes nothing.
pub open spec fn turn_step(t: TurnView, input: InputView, chat_mode: bool, auto: bool) -> StepView {
    match (t.phase, input) {
        (Phase::Starting, InputView::Proceed { cancelled }) => begin_iteration(t, cancelled, auto),
        (Phase::Requesting, InputView::BackendReady) => goto(
            TurnView { reply: empty_reply(), ..t },
            Phase::Streaming,
            auto,
            Seq::empty(),
        ),
        (Phase::Requesting, InputView::BackendFailed(e)) => finish(
            t,
            auto,
            error_effects(e.full_words(), EventView::Error(e.full_words())),
        ),
        (Phase::Streaming, InputView::Stream(e)) => if e is Done {
            end_of_answer(t, auto)
        } else {
            goto(
                TurnView { reply: t.reply.after(e), ..t },
                Phase::Streaming,
                auto,
                stream_effects(e),
            )
        },
        (Phase::Streaming, InputView::StreamEnded { cancelled }) => if cancelled {
            cancelled_answer(t, auto)
        } else {
            end_of_answer(t, auto)
        },
        (Phase::Streaming, InputView::StreamFailed(e)) => broken_answer(t, e, auto),
        (Phase::BeforeTools, InputView::Proceed { cancelled }) => before_tools(t, cancelled, auto),
        (Phase::Deciding, InputView::Proceed { cancelled }) => decide_next(
            t,
            parsed_json(t.reply.tool_calls[t.batch.len() as int].input_json),
            chat_mode,
            cancelled,
            auto,
        ),
        (Phase::Confirming, InputView::Confirmed { approved }) => confirmed(t, approved, auto),
        (Phase::Running, InputView::ToolOutcomes(slots)) => tools_ended(t, slots, auto),
        (Phase::AfterTools, InputView::Proceed { cancelled }) => after_tools(t, cancelled, auto),
        _ => StepView { turn: t, auto_compacted: auto, effects: Seq::empty() },
    }
}

impl TurnView {
    /// What holds of every turn. While the user is asked about a call, it counts as declined.
    pub open spec fn wf(self) -> bool {
        &&& self.iterations <= self.settings.max_iterations
        &&& self.retries_used <= self.settings.max_token_retries
        &&& !(self.phase is Starting || self.phase is Finished) ==> self.iterations >= 1
        &&& self.phase is BeforeTools ==> self.reply.tool_calls.len() > 0
        &&& self.phase is Deciding ==> self.batch.len() < self.reply.tool_calls.len()
        &&& self.phase is Confirming ==> {
            &&& 0 < self.batch.len() <= self.reply.tool_calls.len()
            &&& self.batch.last().decision is Declined
        }
        &&& (self.phase is Running || self.phase is AfterTools) ==> self.batch.len()
            == self.reply.tool_calls.len()
        &&& self.deciding() ==> (forall|i: int|
            0 <= i < self.batch.len() ==> {
                &&& (#[trigger] self.batch[i]).id == self.reply.tool_calls[i].id
                &&& self.batch[i].name == self.reply.tool_calls[i].name
                &&& self.batch[i].index == i + 1
            })
        &&& self.phase is AfterTools ==> {
            &&& self.results.len() == self.batch.len()
            &&& forall|i: int|
                0 <= i < self.results.len() ==> {
                    &&& (#[trigger] self.results[i]) is ToolResult
                    &&& self.results[i]->tool_use_id == self.batch[i].id
                }
        }
    }

    /// Whether the turn is at its calls.
    pub open spec fn deciding(self) -> bool {
        self.phase is Deciding || self.phase is Confirming || self.phase is Running
            || self.phase is AfterTools
    }
}

/// One turn.
#[derive(Debug, PartialEq)]
pub struct Turn {
    pub settings: TurnSettings,
    pub phase: Phase,
    pub iterations: u32,
    pub retries_used: u32,
    pub reply: Reply,
    pub batch: Vec<ResolvedCall>,
    pub results: Vec<ContentBlock>,
}

/// A turn of which nothing has happened.
pub open spec fn new_turn(settings: SettingsView) -> TurnView {
    TurnView {
        settings,
        phase: Phase::Starting,
        iterations: 0,
        retries_used: 0,
        reply: empty_reply(),
        batch: Seq::empty(),
        results: Seq::empty(),
    }
}

/// What is said of a call in the end, whether that is an error, and what the tool reported.
fn result_of(decision: &ToolDecision, outcome: Option<ToolOutcome>) -> (r: (
    String,
    bool,
    Vec<AgentEvent>,
))
    ensures
        (r.0@, r.1) == result_text(decision@, outcome_view(outcome)),
        events_view(r.2@) == result_extras(decision@, outcome_view(outcome)),
{
    let mut none: Vec<AgentEvent> = Vec::new();
    assert(events_view(none@) =~= Seq::<EventView>::empty());
    match decision {
        ToolDecision::ParseError(e) => (e.clone(), true, none),
        ToolDecision::ChatModeRejected => (
            "Tool rejected: chat mode restricts to read-only operations".to_owned(),
            true,
            none,
        ),
        ToolDecision::Declined => ("User declined to execute this tool.".to_owned(), true, none),
        ToolDecision::Approved => match outcome {
            None => (
                "Tool execution failed: result was unexpectedly lost".to_owned(),
                true,
                none,
            ),
            Some(ToolOutcome::Cancelled) => ("Tool cancelled by user.".to_owned(), true, none),
            Some(ToolOutcome::Finished { content, is_error, agent_events }) => (
                join_texts(&texts_of_blocks(&content), "\n"),
                is_error,
                agent_events,
            ),
            Some(ToolOutcome::Failed(e)) => (e, true, none),
        },
    }
}

/// Reports events, one after another.
fn emit_events(out: &mut Vec<Effect>, events: Vec<AgentEvent>)
    ensures
        effects_view(final(out)@) == effects_view(old(out)@) + emit_all(events_view(events@)),
{
    let ghost before = effects_view(out@);
    assert(before =~= before + emit_all(events_view(events@.take(0))));
    for e in it: events
        invariant
            it.seq() == events@,
            effects_view(out@) == before + emit_all(
                events_view(events@.take(it.index() as int)),
            ),
    {
        let ghost i = it.index() as int;
        emit(out, e);
        assert(before + emit_all(events_view(events@.take(i + 1))) =~= (before + emit_all(
            events_view(events@.take(i)),
        )).push(EffectView::Emit(e@)));
    }
    assert(events@.take(events@.len() as int) =~= events@);
}

impl Turn {
    pub open spec fn view(self) -> TurnView {
        TurnView {
            settings: self.settings@,
            phase: self.phase,
            iterations: self.iterations,
            retries_used: self.retries_used,
            reply: self.reply@,
            batch: batch_view(self.batch@),
            results: blocks_view(self.results@),
        }
    }

    /// A turn of which nothing has happened.
    pub fn new(settings: TurnSettings) -> (r: Turn)
        ensures
            r@ == new_turn(settings@),
            r@.wf(),
    {
        let r = Turn {
            settings,
            phase: Phase::Starting,
            iterations: 0,
            retries_used: 0,
            reply: Reply::new(),
            batch: Vec::new(),
            results: Vec::new(),
        };
        assert(r@ =~= new_turn(settings@));
        r
    }

    /// Begins an iteration, unless the turn was cancelled or has used up its iterations.
    fn begin_iteration(&mut self, cancelled: bool, auto: bool) -> (r: (Vec<Effect>, bool))
        requires
            old(self)@.wf(),
            old(self)@.phase is Starting,
        ensures
            stepped(final(self)@, r) == begin_iteration(old(self)@, cancelled, auto),
            final(self)@.wf(),
    {
        let ghost before = self@;
        let mut out: Vec<Effect> = Vec::new();
        assert(effects_view(out@) =~= Seq::empty());
        if cancelled {
            let nothing = String::new();
            persist_partial_and_interrupt(&mut out, &nothing);
            self.phase = Phase::Finished;
            assert(effects_view(out@) =~= interrupt_effects(Seq::empty()));
        } else if self.iterations >= self.settings.max_iterations {
            let mut words = "Max tool iterations (".to_owned();
            push_decimal(&mut words, self.settings.max_iterations as u64);
            words.append(") exceeded");
            record_error(&mut out, words);
            self.phase = Phase::Finished;
            assert(effects_view(out@) =~= error_effects(words@, EventView::Error(words@)));
        } else {
            self.iterations = self.iterations + 1;
            self.phase = Phase::Requesting;
        }
        assert(self@ =~= begin_iteration(before, cancelled, auto).turn);
        (out, auto)
    }

    /// The backend began to answer.
    fn backend_ready(&mut self, auto: bool) -> (r: (Vec<Effect>, bool))
        requires
            old(self)@.wf(),
            old(self)@.phase is Requesting,
        ensures
            stepped(final(self)@, r) == turn_step(
                old(self)@,
                InputView::BackendReady,
                false,
                auto,
            ),
            final(self)@.wf(),
    {
        let out: Vec<Effect> = Vec::new();
        assert(effects_view(out@) =~= Seq::empty());
        self.reply = Reply::new();
        self.phase = Phase::Streaming;
        (out, auto)
    }

    /// The backend failed before it began to answer.
    fn backend_failed(&mut self, error: Error, auto: bool) -> (r: (Vec<Effect>, bool))
        requires
            old(self)@.wf(),
            old(self)@.phase is Requesting,
        ensures
            stepped(final(self)@, r) == turn_step(
                old(self)@,
                InputView::BackendFailed(error@),
                false,
                auto,
            ),
            final(self)@.wf(),
    {
        let mut out: Vec<Effect> = Vec::new();
        let words = error.full_message();
        record_error(&mut out, words);
        assert(effects_view(out@) =~= error_effects(words@, EventView::Error(words@)));
        self.phase = Phase::Finished;
        (out, auto)
    }

    /// The turn asks the model again, which costs a retry instead of an iteration.
    fn ask_again(&mut self)
        requires
            old(self)@.wf(),
            old(self)@.phase is Streaming,
            old(self)@.retries_used < old(self)@.settings.max_token_retries,
        ensures
            final(self)@ == ask_again(old(self)@, false, Seq::empty()).turn,
            final(self)@.wf(),
    {
        self.iterations = self.iterations - 1;
        self.retries_used = self.retries_used + 1;
        self.phase = Phase::Starting;
    }

    /// The answer is complete.
    fn end_of_answer(&mut self, auto: bool) -> (r: (Vec<Effect>, bool))
        requires
            old(self)@.wf(),
            old(self)@.phase is Streaming,
        ensures
            stepped(final(self)@, r) == end_of_answer(old(self)@, auto),
            final(self)@.wf(),
    {
        let ghost before = self@;
        let mut out: Vec<Effect> = Vec::new();
        assert(effects_view(out@) =~= Seq::empty());
        if self.reply.tool_calls.len() > 0 {
            self.phase = Phase::BeforeTools;
            return (out, auto);
        }
        let last: u32 = self.reply.last_output_tokens;
        let limit_hit = self.settings.max_tokens > 0 && last >= self.settings.max_tokens;
        if self.reply.text.as_str().is_empty() && self.retries_used
            < self.settings.max_token_retries && (limit_hit || last == 0) {
            let words = if limit_hit {
                truncation_message(self.reply.peak_input_tokens, last)
            } else {
                "Empty response: stream produced no text, no tool calls, and no usage. This may indicate a truncated stream or a max_tokens budget consumed entirely by internal reasoning.".to_owned()
            };
            record_retry(&mut out, words);
            assert(effects_view(out@) =~= error_effects(words@, EventView::Retrying(words@)));
            self.ask_again();
            return (out, auto);
        }
        let message = Message { role: Role::Assistant, content: self.reply.blocks() };
        append(&mut out, message);
        emit(&mut out, AgentEvent::ResponseComplete(self.reply.text.clone()));
        let flag = check_auto_compact(
            &mut out,
            self.reply.peak_input_tokens,
            self.settings.max_context_window_len,
            auto,
        );
        self.phase = Phase::Finished;
        assert(effects_view(out@) =~= end_of_answer(before, auto).effects);
        (out, flag)
    }

    /// The turn was cancelled while the answer was read.
    fn cancelled_answer(&mut self, auto: bool) -> (r: (Vec<Effect>, bool))
        requires
            old(self)@.wf(),
            old(self)@.phase is Streaming,
        ensures
            stepped(final(self)@, r) == cancelled_answer(old(self)@, auto),
            final(self)@.wf(),
    {
        let ghost before = self@;
        let mut out: Vec<Effect> = Vec::new();
        emit(
            &mut out,
            AgentEvent::Warn(
                "stream interrupted by cancellation; any in-flight tool executions will be orphaned".to_owned(),
            ),
        );
        persist_partial_and_interrupt(&mut out, &self.reply.text);
        persist_thinking(&mut out, &self.reply.thinking, &self.reply.signature);
        self.phase = Phase::Finished;
        assert(effects_view(out@) =~= cancelled_answer(before, auto).effects);
        (out, auto)
    }

    /// The answer broke off.
    fn broken_answer(&mut self, error: Error, auto: bool) -> (r: (Vec<Effect>, bool))
        requires
            old(self)@.wf(),
            old(self)@.phase is Streaming,
        ensures
            stepped(final(self)@, r) == broken_answer(old(self)@, error@, auto),
            final(self)@.wf(),
    {
        let ghost before = self@;
        let mut out: Vec<Effect> = Vec::new();
        persist_partial(&mut out, &self.reply.text);
        persist_thinking(&mut out, &self.reply.thinking, &self.reply.signature);
        let words = error.full_message();
        let (max_tokens, refusal) = match error.backend() {
            Some(b) => (b.is_max_tokens(), b.is_refusal()),
            None => (false, false),
        };
        if self.retries_used < self.settings.max_token_retries && max_tokens {
            record_retry(&mut out, words);
            self.ask_again();
        } else if refusal {
            emit(&mut out, AgentEvent::Error(words));
            self.phase = Phase::Finished;
        } else {
            record_error(&mut out, words);
            self.phase = Phase::Finished;
        }
        assert(effects_view(out@) =~= broken_answer(before, error@, auto).effects);
        (out, auto)
    }

    /// Takes up the calls of the answer, unless the turn was cancelled.
    fn before_tools(&mut self, cancelled: bool, auto: bool) -> (r: (Vec<Effect>, bool))
        requires
            old(self)@.wf(),
            old(self)@.phase is BeforeTools,
        ensures
            stepped(final(self)@, r) == before_tools(old(self)@, cancelled, auto),
            final(self)@.wf(),
    {
        let ghost before = self@;
        let mut out: Vec<Effect> = Vec::new();
        if cancelled {
            emit(
                &mut out,
                AgentEvent::Warn(
                    "cancellation requested before tool execution; tool calls will be skipped".to_owned(),
                ),
            );
            persist_partial_and_interrupt(&mut out, &self.reply.text);
            self.phase = Phase::Finished;
        } else {
            self.batch = Vec::new();
            self.results = Vec::new();
            self.phase = Phase::Deciding;
        }
        assert(effects_view(out@) =~= before_tools(before, cancelled, auto).effects);
        assert(self@ =~= before_tools(before, cancelled, auto).turn);
        (out, auto)
    }
}

/// A step as it was taken.
pub open spec fn stepped(turn: TurnView, r: (Vec<Effect>, bool)) -> StepView {
    StepView { turn, auto_compacted: r.1, effects: effects_view(r.0@) }
}

impl Turn {
    /// Reads and reports the next call, and decides on it or asks the user. `parsed` is what the
    /// input text was read as.
    pub fn decide_next(
        &mut self,
        parsed: Result<Json, String>,
        chat_mode: bool,
        cancelled: bool,
        auto: bool,
    ) -> (r: (Vec<Effect>, bool))
        requires
            old(self)@.wf(),
            old(self)@.phase is Deciding,
        ensures
            stepped(final(self)@, r) == decide_next(
                old(self)@,
                reading(parsed),
                chat_mode,
                cancelled,
                auto,
            ),
            final(self)@.wf(),
    {
        let ghost before = self@;
        let ghost view_parsed = reading(parsed);
        let k: usize = self.batch.len();
        let ghost call = before.reply.tool_calls[k as int];
        assert(call == self.reply.tool_calls@[k as int]@);
        let n: usize = self.reply.tool_calls.len();
        assert(k < n);
        let index: usize = k + 1;
        let id = self.reply.tool_calls[k].id.clone();
        let name = self.reply.tool_calls[k].name.clone();
        let blank_input = blank(self.reply.tool_calls[k].input_json.as_str());
        let (input, problem) = if blank_input {
            (Json::object(), None)
        } else {
            match parsed {
                Ok(j) => (j, None),
                Err(e) => {
                    let mut words = "Invalid tool input JSON: ".to_owned();
                    words.append(e.as_str());
                    (Json::Null, Some(words))
                },
            }
        };
        let ghost spec_input = call_input(is_blank(call.input_json), view_parsed);
        assert(spec_input == (input@, opt_text(problem)));
        let mut out: Vec<Effect> = Vec::new();
        emit(
            &mut out,
            AgentEvent::ToolUseReceived {
                id: id.clone(),
                name: name.clone(),
                input: input.duplicate(),
                index,
            },
        );
        let (decision, ask) = match problem {
            Some(words) => (ToolDecision::ParseError(words), false),
            None => if chat_mode && self.settings.is_write_tool(name.as_str()) {
                (ToolDecision::ChatModeRejected, false)
            } else if !self.settings.needs_confirmation(name.as_str()) {
                (ToolDecision::Approved, false)
            } else if cancelled {
                (ToolDecision::Declined, false)
            } else {
                emit(
                    &mut out,
                    AgentEvent::ToolConfirmationRequired {
                        id: id.clone(),
                        name: name.clone(),
                        input: input.duplicate(),
                        index,
                    },
                );
                (ToolDecision::Declined, true)
            },
        };
        let ghost old_batch = self.batch@;
        self.batch.push(ResolvedCall { id, name, input, decision, index });
        self.phase = if ask {
            Phase::Confirming
        } else if self.batch.len() == self.reply.tool_calls.len() {
            Phase::Running
        } else {
            Phase::Deciding
        };
        proof {
            let want = decide_next(before, view_parsed, chat_mode, cancelled, auto);
            assert(batch_view(self.batch@) =~= batch_view(old_batch).push(
                self.batch@[k as int]@,
            ));
            assert(self@ =~= want.turn);
            assert(effects_view(out@) =~= want.effects);
        }
        (out, auto)
    }

    /// The user answered: the call that was asked about is approved or declined.
    fn confirmed(&mut self, approved: bool, auto: bool) -> (r: (Vec<Effect>, bool))
        requires
            old(self)@.wf(),
            old(self)@.phase is Confirming,
        ensures
            stepped(final(self)@, r) == confirmed(old(self)@, approved, auto),
            final(self)@.wf(),
    {
        let ghost before = self@;
        let ghost old_batch = self.batch@;
        let out: Vec<Effect> = Vec::new();
        assert(effects_view(out@) =~= Seq::empty());
        match self.batch.pop() {
            Some(call) => {
                assert(call@ == before.batch.last());
                let mut call = call;
                call.decision =
                if approved {
                    ToolDecision::Approved
                } else {
                    ToolDecision::Declined
                };
                self.batch.push(call);
                assert(batch_view(self.batch@) =~= before.batch.drop_last().push(call@));
            },
            None => {},
        }
        self.phase = if self.batch.len() == self.reply.tool_calls.len() {
            Phase::Running
        } else {
            Phase::Deciding
        };
        assert(self@ =~= confirmed(before, approved, auto).turn);
        (out, auto)
    }

    /// The places in the batch of the calls that are to be run, in order: those that were
    /// approved, and no others.
    pub fn to_run(&self) -> (r: Vec<usize>)
        ensures
            forall|i: int|
                0 <= i < self@.batch.len() ==> ((exists|k: int|
                    0 <= k < r@.len() && #[trigger] r@[k] == i) <==> (
                #[trigger] self@.batch[i]).decision is Approved),
            forall|k: int| 0 <= k < r@.len() ==> #[trigger] r@[k] < self@.batch.len(),
            forall|k: int, m: int|
                0 <= k < m < r@.len() ==> #[trigger] r@[k] < #[trigger] r@[m],
    {
        let mut r: Vec<usize> = Vec::new();
        let mut i: usize = 0;
        while i < self.batch.len()
            invariant
                i <= self.batch.len(),
                forall|j: int|
                    0 <= j < i ==> ((exists|k: int| 0 <= k < r@.len() && #[trigger] r@[k] == j)
                        <==> (#[trigger] self@.batch[j]).decision is Approved),
                forall|k: int| 0 <= k < r@.len() ==> #[trigger] r@[k] < i,
                forall|k: int, m: int|
                    0 <= k < m < r@.len() ==> #[trigger] r@[k] < #[trigger] r@[m],
            decreases self.batch.len() - i,
        {
            let ghost before = r@;
            assert(self@.batch[i as int] == self.batch@[i as int]@);
            if let ToolDecision::Approved = self.batch[i].decision {
                r.push(i);
                assert(r@[before.len() as int] == i);
            }
            proof {
                assert forall|j: int| 0 <= j < i + 1 implies ((exists|k: int|
                    0 <= k < r@.len() && #[trigger] r@[k] == j) <==> (
                #[trigger] self@.batch[j]).decision is Approved) by {
                    if j < i {
                        if exists|k: int| 0 <= k < before.len() && #[trigger] before[k] == j {
                            let k = choose|k: int|
                                0 <= k < before.len() && #[trigger] before[k] == j;
                            assert(r@[k] == j);
                        }
                        if exists|k: int| 0 <= k < r@.len() && #[trigger] r@[k] == j {
                            let k = choose|k: int| 0 <= k < r@.len() && #[trigger] r@[k] == j;
                            assert(before[k] == j);
                        }
                    } else if exists|k: int| 0 <= k < r@.len() && #[trigger] r@[k] == j {
                        let k = choose|k: int| 0 <= k < r@.len() && #[trigger] r@[k] == j;
                        if k < before.len() {
                            assert(before[k] < i);
                        }
                    }
                }
            }
            i += 1;
        }
        r
    }

    /// The tools ended.
    fn tools_ended(&mut self, outcomes: Vec<Option<ToolOutcome>>, auto: bool) -> (r: (
        Vec<Effect>,
        bool,
    ))
        requires
            old(self)@.wf(),
            old(self)@.phase is Running,
        ensures
            stepped(final(self)@, r) == tools_ended(old(self)@, slots_view(outcomes@), auto),
            final(self)@.wf(),
    {
        let ghost before = self@;
        let ghost slots = slots_view(outcomes@);
        let max: u64 = self.settings.max_tool_result_bytes;
        let mut rest = outcomes;
        let mut out: Vec<Effect> = Vec::new();
        let mut blocks: Vec<ContentBlock> = Vec::new();
        let mut i: usize = 0;
        assert(effects_view(out@) =~= results_effects(before.batch.take(0), slots));
        assert(rest@ =~= outcomes@.skip(0));
        while i < self.batch.len()
            invariant
                i <= self.batch.len(),
                blocks.len() == i,
                self@ == before,
                slots == slots_view(outcomes@),
                max == before.settings.max_tool_result_bytes,
                i <= outcomes.len() ==> rest@ == outcomes@.skip(i as int),
                i > outcomes.len() ==> rest@.len() == 0,
                effects_view(out@) == results_effects(before.batch.take(i as int), slots),
                forall|k: int|
                    0 <= k < i ==> (#[trigger] blocks@[k])@ == result_block(
                        before.batch[k],
                        slot(slots, k),
                        max,
                    ),
            decreases self.batch.len() - i,
        {
            let ghost old_rest = rest@;
            let outcome = if rest.len() > 0 {
                rest.remove(0)
            } else {
                None
            };
            let ghost seen = outcome_view(outcome);
            assert(seen == slot(slots, i as int)) by {
                if i < outcomes.len() {
                    assert(old_rest[0] == outcomes@[i as int]);
                }
            }
            assert(i + 1 <= outcomes.len() ==> rest@ =~= outcomes@.skip(i + 1));
            let ghost call = before.batch[i as int];
            assert(call == self.batch@[i as int]@);
            let (content, is_error, extras) = result_of(&self.batch[i].decision, outcome);
            let ghost pre = effects_view(out@);
            emit_events(&mut out, extras);
            let kept = truncate_tool_result(content.as_str(), max);
            emit(
                &mut out,
                AgentEvent::ToolResult {
                    name: self.batch[i].name.clone(),
                    content,
                    is_error,
                    index: self.batch[i].index,
                },
            );
            blocks.push(
                ContentBlock::ToolResult {
                    tool_use_id: self.batch[i].id.clone(),
                    content: kept,
                    is_error,
                },
            );
            proof {
                assert(before.batch.take(i + 1).drop_last() =~= before.batch.take(i as int));
                assert(before.batch.take(i + 1).last() == call);
                assert(effects_view(out@) =~= pre + result_effects(call, seen));
            }
            i += 1;
        }
        assert(before.batch.take(i as int) =~= before.batch);
        assert(blocks_view(blocks@) =~= result_blocks(before.batch, slots, max));
        self.results = blocks;
        self.phase = Phase::AfterTools;
        assert(self@ =~= tools_ended(before, slots, auto).turn);
        (out, auto)
    }

    /// Adds the calls and their answers to the conversation, unless the turn was cancelled.
    fn after_tools(&mut self, cancelled: bool, auto: bool) -> (r: (Vec<Effect>, bool))
        requires
            old(self)@.wf(),
            old(self)@.phase is AfterTools,
        ensures
            stepped(final(self)@, r) == after_tools(old(self)@, cancelled, auto),
            final(self)@.wf(),
    {
        let ghost before = self@;
        let mut out: Vec<Effect> = Vec::new();
        if cancelled {
            persist_partial_and_interrupt(&mut out, &self.reply.text);
            persist_thinking(&mut out, &self.reply.thinking, &self.reply.signature);
            self.phase = Phase::Finished;
            assert(effects_view(out@) =~= after_tools(before, cancelled, auto).effects);
            return (out, auto);
        }
        let mut content = self.reply.blocks();
        let ghost lead = blocks_view(content@);
        let mut i: usize = 0;
        assert(use_blocks(before.batch.take(0)) =~= Seq::empty());
        while i < self.batch.len()
            invariant
                i <= self.batch.len(),
                self@ == before,
                blocks_view(content@) == lead + use_blocks(before.batch.take(i as int)),
            decreases self.batch.len() - i,
        {
            let ghost call = before.batch[i as int];
            assert(call == self.batch@[i as int]@);
            let ghost old_content = content@;
            let block = ContentBlock::ToolUse {
                id: self.batch[i].id.clone(),
                name: self.batch[i].name.clone(),
                input: self.batch[i].input.duplicate(),
            };
            content.push(block);
            proof {
                assert(blocks_view(content@) =~= blocks_view(old_content).push(block@));
                assert(use_blocks(before.batch.take(i + 1)) =~= use_blocks(
                    before.batch.take(i as int),
                ).push(block@));
                assert(blocks_view(content@) =~= lead + use_blocks(before.batch.take(i + 1)));
            }
            i += 1;
        }
        assert(before.batch.take(i as int) =~= before.batch);
        append(&mut out, Message { role: Role::Assistant, content });
        append(&mut out, Message { role: Role::User, content: duplicate_blocks(&self.results) });
        let flag = check_auto_compact(
            &mut out,
            self.reply.peak_input_tokens,
            self.settings.max_context_window_len,
            auto,
        );
        self.phase = Phase::Starting;
        assert(effects_view(out@) =~= after_tools(before, cancelled, auto).effects);
        (out, flag)
    }

    /// One step. `chat_mode` says whether the agent is in chat mode now, `auto` whether the
    /// conversation was compacted automatically last time; the result holds what to do, and
    /// whether that flag is set from now on.
    #[verifier::rlimit(60)]
    pub fn step(&mut self, input: TurnInput, chat_mode: bool, auto: bool) -> (r: (
        Vec<Effect>,
        bool,
    ))
        requires
            old(self)@.wf(),
        ensures
            stepped(final(self)@, r) == turn_step(old(self)@, input@, chat_mode, auto),
            final(self)@.wf(),
    {
        let ghost before = self@;
        match (self.phase, input) {
            (Phase::Starting, TurnInput::Proceed { cancelled }) => self.begin_iteration(
                cancelled,
                auto,
            ),
            (Phase::Requesting, TurnInput::BackendReady) => self.backend_ready(auto),
            (Phase::Requesting, TurnInput::BackendFailed(e)) => self.backend_failed(e, auto),
            (Phase::Streaming, TurnInput::Stream(StreamEvent::Done)) => self.end_of_answer(auto),
            (Phase::Streaming, TurnInput::Stream(e)) => {
                let mut out: Vec<Effect> = Vec::new();
                self.reply.absorb(e, &mut out);
                assert(effects_view(out@) =~= stream_effects(e@));
                (out, auto)
            },
            (Phase::Streaming, TurnInput::StreamEnded { cancelled }) => if cancelled {
                self.cancelled_answer(auto)
            } else {
                self.end_of_answer(auto)
            },
            (Phase::Streaming, TurnInput::StreamFailed(e)) => self.broken_answer(e, auto),
            (Phase::BeforeTools, TurnInput::Proceed { cancelled }) => self.before_tools(
                cancelled,
                auto,
            ),
            (Phase::Deciding, TurnInput::Proceed { cancelled }) => {
                let k: usize = self.batch.len();
                assert(before.reply.tool_calls[k as int] == self.reply.tool_calls@[k as int]@);
                let parsed = Json::parse(self.reply.tool_calls[k].input_json.as_str());
                self.decide_next(parsed, chat_mode, cancelled, auto)
            },
            (Phase::Confirming, TurnInput::Confirmed { approved }) => self.confirmed(
                approved,
                auto,
            ),
            (Phase::Running, TurnInput::ToolOutcomes(outcomes)) => self.tools_ended(outcomes, auto),
            (Phase::AfterTools, TurnInput::Proceed { cancelled }) => self.after_tools(
                cancelled,
                auto,
            ),
            _ => {
                let out: Vec<Effect> = Vec::new();
                assert(effects_view(out@) =~= Seq::empty());
                (out, auto)
            },
        }
    }
}

} // verus!
