//! The calls of tools in a turn: what is decided about them and what becomes of them.
use vstd::prelude::*;

use crate::agent::effects::EffectView;
use crate::agent::truncate::truncated;
use crate::config::ConfirmationMode;
use crate::json::{empty_object, Json, JsonView};
use crate::text::{among, joined, texts};
use crate::types::{
    blocks_view, events_view, text_blocks, AgentEvent, BlockView, ContentBlock, EventView,
};

verus! {

/// What a turn goes by; settled when it begins.
#[derive(Debug, PartialEq, Eq)]
pub struct TurnSettings {
    pub max_iterations: u32,
    pub max_token_retries: u32,
    pub max_tokens: u32,
    pub confirmation: ConfirmationMode,
    pub max_context_window_len: u32,
    pub max_tool_result_bytes: u64,
    /// The names of the tools that change something.
    pub write_tools: Vec<String>,
}

/// What [`TurnSettings`] say.
#[verifier::ext_equal]
pub struct SettingsView {
    pub max_iterations: u32,
    pub max_token_retries: u32,
    pub max_tokens: u32,
    pub confirmation: ConfirmationMode,
    pub max_context_window_len: u32,
    pub max_tool_result_bytes: u64,
    pub write_tools: Seq<Seq<char>>,
}

impl SettingsView {
    /// Whether a tool of that name is known and changes something.
    pub open spec fn is_write_tool(self, name: Seq<char>) -> bool {
        self.write_tools.contains(name)
    }

    /// Whether a tool of that name may run only after the user agreed.
    pub open spec fn needs_confirmation(self, name: Seq<char>) -> bool {
        match self.confirmation {
            ConfirmationMode::Always => true,
            ConfirmationMode::Never => false,
            ConfirmationMode::WriteOnly => self.is_write_tool(name),
        }
    }
}

impl TurnSettings {
    pub open spec fn view(self) -> SettingsView {
        SettingsView {
            max_iterations: self.max_iterations,
            max_token_retries: self.max_token_retries,
            max_tokens: self.max_tokens,
            confirmation: self.confirmation,
            max_context_window_len: self.max_context_window_len,
            max_tool_result_bytes: self.max_tool_result_bytes,
            write_tools: texts(self.write_tools@),
        }
    }

    /// Whether a tool of that name is known and changes something.
    pub fn is_write_tool(&self, name: &str) -> (r: bool)
        ensures
            r == self@.is_write_tool(name@),
    {
        among(&self.write_tools, name)
    }

    /// Whether a tool of that name may run only after the user agreed.
    pub fn needs_confirmation(&self, name: &str) -> (r: bool)
        ensures
            r == self@.needs_confirmation(name@),
    {
        match self.confirmation {
            ConfirmationMode::Always => true,
            ConfirmationMode::Never => false,
            ConfirmationMode::WriteOnly => self.is_write_tool(name),
        }
    }
}

/// What was decided about a call.
#[derive(Debug, PartialEq, Eq)]
pub enum ToolDecision {
    ParseError(String),
    Declined,
    Approved,
    ChatModeRejected,
}

/// What a [`ToolDecision`] says.
#[verifier::ext_equal]
pub enum DecisionView {
    ParseError(Seq<char>),
    Declined,
    Approved,
    ChatModeRejected,
}

impl ToolDecision {
    pub open spec fn view(self) -> DecisionView {
        match self {
            ToolDecision::ParseError(e) => DecisionView::ParseError(e@),
            ToolDecision::Declined => DecisionView::Declined,
            ToolDecision::Approved => DecisionView::Approved,
            ToolDecision::ChatModeRejected => DecisionView::ChatModeRejected,
        }
    }
}

/// A call whose input was read and about which a decision was made.
#[derive(Debug, PartialEq)]
pub struct ResolvedCall {
    pub id: String,
    pub name: String,
    pub input: Json,
    pub decision: ToolDecision,
    /// The place of the call in its batch, counted from one.
    pub index: usize,
}

/// What a [`ResolvedCall`] says.
#[verifier::ext_equal]
pub struct ResolvedView {
    pub id: Seq<char>,
    pub name: Seq<char>,
    pub input: JsonView,
    pub decision: DecisionView,
    pub index: nat,
}

impl ResolvedCall {
    pub open spec fn view(self) -> ResolvedView {
        ResolvedView {
            id: self.id@,
            name: self.name@,
            input: self.input@,
            decision: self.decision@,
            index: self.index as nat,
        }
    }
}

/// What each of several resolved calls says.
pub open spec fn batch_view(s: Seq<ResolvedCall>) -> Seq<ResolvedView> {
    s.map_values(|c: ResolvedCall| c@)
}

/// The input of a call, and what is wrong with it: no text at all means no arguments, and
/// otherwise `parsed` is what the text was read as.
pub open spec fn call_input(
    blank_input: bool,
    parsed: Result<JsonView, Seq<char>>,
) -> (JsonView, Option<Seq<char>>) {
    if blank_input {
        (empty_object(), None)
    } else {
        match parsed {
            Ok(v) => (v, None),
            Err(e) => (JsonView::Null, Some("Invalid tool input JSON: "@ + e)),
        }
    }
}

/// What is decided about a call without asking the user; `None` means that the user is asked.
pub open spec fn immediate_decision(
    settings: SettingsView,
    name: Seq<char>,
    problem: Option<Seq<char>>,
    chat_mode: bool,
    cancelled: bool,
) -> Option<DecisionView> {
    if problem is Some {
        Some(DecisionView::ParseError(problem->Some_0))
    } else if chat_mode && settings.is_write_tool(name) {
        Some(DecisionView::ChatModeRejected)
    } else if !settings.needs_confirmation(name) {
        Some(DecisionView::Approved)
    } else if cancelled {
        Some(DecisionView::Declined)
    } else {
        None
    }
}

/// How an approved tool ended.
#[derive(Debug, PartialEq)]
pub enum ToolOutcome {
    Cancelled,
    Finished { content: Vec<ContentBlock>, is_error: bool, agent_events: Vec<AgentEvent> },
    /// The tool is unknown, or failed to run.
    Failed(String),
}

/// What a [`ToolOutcome`] says.
#[verifier::ext_equal]
pub enum OutcomeView {
    Cancelled,
    Finished { content: Seq<BlockView>, is_error: bool, agent_events: Seq<EventView> },
    Failed(Seq<char>),
}

impl ToolOutcome {
    pub open spec fn view(self) -> OutcomeView {
        match self {
            ToolOutcome::Cancelled => OutcomeView::Cancelled,
            ToolOutcome::Finished { content, is_error, agent_events } => OutcomeView::Finished {
                content: blocks_view(content@),
                is_error,
                agent_events: events_view(agent_events@),
            },
            ToolOutcome::Failed(e) => OutcomeView::Failed(e@),
        }
    }
}

/// How the tool in each place of a batch ended; `None` where none ran or its end was lost.
pub open spec fn slots_view(s: Seq<Option<ToolOutcome>>) -> Seq<Option<OutcomeView>> {
    s.map_values(|o: Option<ToolOutcome>| outcome_view(o))
}

/// How a tool ended, where that is known.
pub open spec fn outcome_view(o: Option<ToolOutcome>) -> Option<OutcomeView> {
    match o {
        Some(x) => Some(x@),
        None => None,
    }
}

/// The place `i` of the slots, which is empty beyond their end.
pub open spec fn slot(slots: Seq<Option<OutcomeView>>, i: int) -> Option<OutcomeView> {
    if 0 <= i < slots.len() {
        slots[i]
    } else {
        None
    }
}

/// What is said of a call in the end, and whether that is an error.
pub open spec fn result_text(
    decision: DecisionView,
    outcome: Option<OutcomeView>,
) -> (Seq<char>, bool) {
    match decision {
        DecisionView::ParseError(e) => (e, true),
        DecisionView::ChatModeRejected => (
            "Tool rejected: chat mode restricts to read-only operations"@,
            true,
        ),
        DecisionView::Declined => ("User declined to execute this tool."@, true),
        DecisionView::Approved => match outcome {
            None => ("Tool execution failed: result was unexpectedly lost"@, true),
            Some(OutcomeView::Cancelled) => ("Tool cancelled by user."@, true),
            Some(OutcomeView::Finished { content, is_error, .. }) => (
                joined(text_blocks(content), "\n"@),
                is_error,
            ),
            Some(OutcomeView::Failed(e)) => (e, true),
        },
    }
}

/// What the tool itself reported while it ran.
pub open spec fn result_extras(
    decision: DecisionView,
    outcome: Option<OutcomeView>,
) -> Seq<EventView> {
    match (decision, outcome) {
        (
            DecisionView::Approved,
            Some(OutcomeView::Finished { agent_events, .. }),
        ) => agent_events,
        _ => Seq::empty(),
    }
}

/// Reports of events, one after another.
pub open spec fn emit_all(events: Seq<EventView>) -> Seq<EffectView> {
    events.map_values(|e: EventView| EffectView::Emit(e))
}

/// What is reported of one call in the end: the tool's own events, then the full result.
pub open spec fn result_effects(
    call: ResolvedView,
    outcome: Option<OutcomeView>,
) -> Seq<EffectView> {
    emit_all(result_extras(call.decision, outcome)).push(
        EffectView::Emit(
            EventView::ToolResult {
                name: call.name,
                content: result_text(call.decision, outcome).0,
                is_error: result_text(call.decision, outcome).1,
                index: call.index,
            },
        ),
    )
}

/// What is reported of a batch in the end, in the order of its calls.
pub open spec fn results_effects(
    batch: Seq<ResolvedView>,
    slots: Seq<Option<OutcomeView>>,
) -> Seq<EffectView>
    decreases batch.len(),
{
    if batch.len() == 0 {
        Seq::empty()
    } else {
        results_effects(batch.drop_last(), slots) + result_effects(
            batch.last(),
            slot(slots, batch.len() - 1),
        )
    }
}

/// The answer to one call as the model sees it, cut to the byte limit.
pub open spec fn result_block(
    call: ResolvedView,
    outcome: Option<OutcomeView>,
    max_bytes: u64,
) -> BlockView {
    BlockView::ToolResult {
        tool_use_id: call.id,
        content: truncated(result_text(call.decision, outcome).0, max_bytes as nat),
        is_error: result_text(call.decision, outcome).1,
    }
}

/// The answers to a batch, in the order of its calls.
pub open spec fn result_blocks(
    batch: Seq<ResolvedView>,
    slots: Seq<Option<OutcomeView>>,
    max_bytes: u64,
) -> Seq<BlockView> {
    Seq::new(batch.len(), |i: int| result_block(batch[i], slot(slots, i), max_bytes))
}

/// The calls of a batch as the model made them.
pub open spec fn use_blocks(batch: Seq<ResolvedView>) -> Seq<BlockView> {
    batch.map_values(
        |c: ResolvedView| BlockView::ToolUse { id: c.id, name: c.name, input: c.input },
    )
}

} // verus!
