//! Sub-agents: how they are set up, and how they are run with no human present.
use vstd::prelude::*;

use crate::agent::conversation::{Agent, AgentView};
use crate::agent::registry::{EntryView, ToolRegistry};
use crate::config::{CompactionConfig, ConfirmationMode, RetryConfig, ToolsConfig};
use crate::text::{opt_text, texts};
use crate::types::{
    events_view, messages_view, AgentEvent, EventView, Message, RequestConfig, RequestView,
};

verus! {

/// What came of a sub-agent.
#[derive(Debug, PartialEq, Eq)]
pub struct HeadlessOutcome {
    pub text: String,
    pub input_tokens: u32,
    pub output_tokens: u32,
    pub is_error: bool,
    pub error_message: Option<String>,
}

/// What a [`HeadlessOutcome`] says.
#[verifier::ext_equal]
pub struct HeadlessView {
    pub text: Seq<char>,
    pub input_tokens: u32,
    pub output_tokens: u32,
    pub is_error: bool,
    pub error_message: Option<Seq<char>>,
}

/// Nothing has come yet.
pub open spec fn headless_start() -> HeadlessView {
    HeadlessView {
        text: Seq::empty(),
        input_tokens: 0,
        output_tokens: 0,
        is_error: false,
        error_message: None,
    }
}

/// What is said when a sub-agent would have to ask.
pub open spec fn nobody_to_ask(tool: Seq<char>) -> Seq<char> {
    "Sub-agent required confirmation for tool '"@ + tool
        + "' but no human is present. Set a less restrictive confirmation mode for the sub-agent."@
}

impl HeadlessView {
    /// The outcome after one more event: text is collected, input tokens are the peak since each
    /// report covers the whole context, output tokens add up, and an error or a question ends it.
    pub open spec fn after(self, event: EventView) -> HeadlessView {
        match event {
            EventView::TokenReceived(t) => HeadlessView { text: self.text + t, ..self },
            EventView::ToolConfirmationRequired { name, .. } => HeadlessView {
                is_error: true,
                error_message: Some(nobody_to_ask(name)),
                ..self
            },
            EventView::Error(words) => HeadlessView {
                is_error: true,
                error_message: Some(words),
                ..self
            },
            EventView::Usage { input_tokens, output_tokens, .. } => HeadlessView {
                input_tokens: if input_tokens > self.input_tokens {
                    input_tokens
                } else {
                    self.input_tokens
                },
                output_tokens: if self.output_tokens + output_tokens > u32::MAX {
                    u32::MAX
                } else {
                    (self.output_tokens + output_tokens) as u32
                },
                ..self
            },
            _ => self,
        }
    }
}

/// The outcome of a run that reported `events`, up to the first that ended it.
pub open spec fn headless_run(events: Seq<EventView>) -> HeadlessView
    decreases events.len(),
{
    if events.len() == 0 {
        headless_start()
    } else {
        let before = headless_run(events.drop_last());
        if before.is_error {
            before
        } else {
            before.after(events.last())
        }
    }
}

impl HeadlessOutcome {
    pub open spec fn view(self) -> HeadlessView {
        HeadlessView {
            text: self.text@,
            input_tokens: self.input_tokens,
            output_tokens: self.output_tokens,
            is_error: self.is_error,
            error_message: opt_text(self.error_message),
        }
    }

    /// Nothing has come yet.
    pub fn new() -> (r: HeadlessOutcome)
        ensures
            r@ == headless_start(),
    {
        let r = HeadlessOutcome {
            text: String::new(),
            input_tokens: 0,
            output_tokens: 0,
            is_error: false,
            error_message: None,
        };
        assert(r@ =~= headless_start());
        r
    }

    /// A run that failed.
    pub fn failed(words: String) -> (r: HeadlessOutcome)
        ensures
            r@ == failed_run(words@),
    {
        let r = HeadlessOutcome {
            text: String::new(),
            input_tokens: 0,
            output_tokens: 0,
            is_error: true,
            error_message: Some(words),
        };
        assert(r@ =~= failed_run(words@));
        r
    }

    /// Takes in one event; says whether the run goes on.
    pub fn absorb(&mut self, event: AgentEvent) -> (goes_on: bool)
        requires
            !old(self)@.is_error,
        ensures
            final(self)@ == old(self)@.after(event@),
            goes_on == !final(self)@.is_error,
    {
        let ghost before = self@;
        match event {
            AgentEvent::TokenReceived(t) => {
                self.text.append(t.as_str());
            },
            AgentEvent::ToolConfirmationRequired { name, .. } => {
                let mut words = "Sub-agent required confirmation for tool '".to_owned();
                words.append(name.as_str());
                words.append(
                    "' but no human is present. Set a less restrictive confirmation mode for the sub-agent.",
                );
                self.is_error = true;
                self.error_message = Some(words);
            },
            AgentEvent::Error(words) => {
                self.is_error = true;
                self.error_message = Some(words);
            },
            AgentEvent::Usage { input_tokens, output_tokens, .. } => {
                if input_tokens > self.input_tokens {
                    self.input_tokens = input_tokens;
                }
                self.output_tokens = self.output_tokens.saturating_add(output_tokens);
            },
            _ => {},
        }
        assert(self@ =~= before.after(event@));
        !self.is_error
    }
}

/// A run that failed with the given words.
pub open spec fn failed_run(words: Seq<char>) -> HeadlessView {
    HeadlessView { is_error: true, error_message: Some(words), ..headless_start() }
}

/// The outcome of a run that reported `events`.
pub fn run_headless(events: Vec<AgentEvent>) -> (r: HeadlessOutcome)
    ensures
        r@ == headless_run(events_view(events@)),
{
    let mut outcome = HeadlessOutcome::new();
    let ghost all = events_view(events@);
    assert(all.take(0) =~= Seq::empty());
    for event in it: events
        invariant
            it.seq() == events@,
            all == events_view(events@),
            outcome@ == headless_run(all.take(it.index() as int)),
    {
        let ghost i = it.index() as int;
        proof {
            assert(all.take(i + 1).drop_last() =~= all.take(i));
            assert(all.take(i + 1).last() == event@);
        }
        if !outcome.is_error {
            let _goes_on = outcome.absorb(event);
        }
    }
    assert(all.take(all.len() as int) =~= all);
    outcome
}

/// How strict a confirmation mode is.
pub open spec fn strictness(mode: ConfirmationMode) -> nat {
    match mode {
        ConfirmationMode::Always => 2,
        ConfirmationMode::WriteOnly => 1,
        ConfirmationMode::Never => 0,
    }
}

/// The stricter of two modes; the parent's where none was requested.
pub open spec fn clamped(
    parent: ConfirmationMode,
    requested: Option<ConfirmationMode>,
) -> ConfirmationMode {
    match requested {
        Some(mode) => if strictness(mode) > strictness(parent) {
            mode
        } else {
            parent
        },
        None => parent,
    }
}

/// The stricter of two confirmation modes: a sub-agent is never more permissive than its parent.
pub fn clamp_confirmation(
    parent: &ConfirmationMode,
    requested: Option<&ConfirmationMode>,
) -> (r: ConfirmationMode)
    ensures
        r == clamped(
            *parent,
            match requested {
                Some(m) => Some(*m),
                None => None,
            },
        ),
        strictness(r) >= strictness(*parent),
{
    let requested = match requested {
        Some(m) => *m,
        None => return *parent,
    };
    match (*parent, requested) {
        (ConfirmationMode::Always, _) => ConfirmationMode::Always,
        (ConfirmationMode::WriteOnly, ConfirmationMode::Always) => ConfirmationMode::Always,
        (ConfirmationMode::WriteOnly, _) => ConfirmationMode::WriteOnly,
        (ConfirmationMode::Never, ConfirmationMode::Always) => ConfirmationMode::Always,
        (ConfirmationMode::Never, ConfirmationMode::WriteOnly) => ConfirmationMode::WriteOnly,
        (ConfirmationMode::Never, ConfirmationMode::Never) => ConfirmationMode::Never,
    }
}

/// Clamping down a chain of agents never loosens: each mode is at least as strict as every one
/// above it, clamping twice changes nothing, and the order of the two modes does not matter.
pub proof fn law_clamping(a: ConfirmationMode, b: ConfirmationMode, c: ConfirmationMode)
    ensures
        strictness(clamped(a, Some(b))) >= strictness(a),
        strictness(clamped(a, Some(b))) >= strictness(b),
        clamped(a, Some(b)) == clamped(b, Some(a)),
        clamped(clamped(a, Some(b)), Some(b)) == clamped(a, Some(b)),
        clamped(clamped(a, Some(b)), Some(c)) == clamped(a, Some(clamped(b, Some(c)))),
{
}

/// The step at which setting up a sub-agent failed.
#[derive(Debug, PartialEq, Eq)]
pub enum SpawnStep {
    Session,
    Registry,
    Role(String),
    Agent,
    ContextFiles,
}

/// What a [`SpawnStep`] says.
#[verifier::ext_equal]
pub enum SpawnStepView {
    Session,
    Registry,
    Role(Seq<char>),
    Agent,
    ContextFiles,
}

impl SpawnStepView {
    /// What is said of a failure at this step.
    pub open spec fn lead(self) -> Seq<char> {
        match self {
            SpawnStepView::Session => "Failed to create sub-agent session: "@,
            SpawnStepView::Registry => "Failed to build sub-agent registry: "@,
            SpawnStepView::Role(role) => "Failed to resolve role '"@ + role + "': "@,
            SpawnStepView::Agent => "Failed to spawn sub-agent: "@,
            SpawnStepView::ContextFiles => "Failed to load context files: "@,
        }
    }
}

impl SpawnStep {
    pub open spec fn view(self) -> SpawnStepView {
        match self {
            SpawnStep::Session => SpawnStepView::Session,
            SpawnStep::Registry => SpawnStepView::Registry,
            SpawnStep::Role(role) => SpawnStepView::Role(role@),
            SpawnStep::Agent => SpawnStepView::Agent,
            SpawnStep::ContextFiles => SpawnStepView::ContextFiles,
        }
    }
}

/// The outcome of a sub-agent that could not be set up.
pub fn spawn_failed(step: &SpawnStep, cause: &str) -> (r: HeadlessOutcome)
    ensures
        r@ == failed_run(step@.lead() + cause@),
{
    let mut words = match step {
        SpawnStep::Session => "Failed to create sub-agent session: ".to_owned(),
        SpawnStep::Registry => "Failed to build sub-agent registry: ".to_owned(),
        SpawnStep::Role(role) => {
            let mut s = "Failed to resolve role '".to_owned();
            s.append(role.as_str());
            s.append("': ");
            s
        },
        SpawnStep::Agent => "Failed to spawn sub-agent: ".to_owned(),
        SpawnStep::ContextFiles => "Failed to load context files: ".to_owned(),
    };
    words.append(cause);
    HeadlessOutcome::failed(words)
}

/// The tools that a sub-agent gets: in chat mode those that change nothing, otherwise those on
/// the allowlist, if there is one.
pub open spec fn sub_agent_tools(
    all: Seq<EntryView>,
    chat_mode: bool,
    allowlist: Option<Seq<Seq<char>>>,
) -> Seq<EntryView> {
    if chat_mode {
        all.filter(|e: EntryView| !e.is_write_tool)
    } else {
        match allowlist {
            Some(allowed) => all.filter(|e: EntryView| allowed.contains(e.definition.name)),
            None => all,
        }
    }
}

/// The tools that a sub-agent gets.
pub fn sub_agent_registry(
    registry: ToolRegistry,
    chat_mode: bool,
    allowlist: Option<&Vec<String>>,
) -> (r: ToolRegistry)
    ensures
        r@ == sub_agent_tools(
            registry@,
            chat_mode,
            match allowlist {
                Some(list) => Some(texts(list@)),
                None => None,
            },
        ),
{
    if chat_mode {
        registry.into_chat_compatible()
    } else {
        match allowlist {
            Some(list) => registry.into_filtered(list),
            None => registry,
        }
    }
}

/// In chat mode no sub-agent has a tool that changes something, whatever the allowlist says.
pub proof fn law_chat_mode_is_read_only(
    all: Seq<EntryView>,
    allowlist: Option<Seq<Seq<char>>>,
    i: int,
)
    requires
        0 <= i < sub_agent_tools(all, true, allowlist).len(),
    ensures
        !sub_agent_tools(all, true, allowlist)[i].is_write_tool,
        all.contains(sub_agent_tools(all, true, allowlist)[i]),
{
    let pick = |e: EntryView| !e.is_write_tool;
    all.lemma_filter_pred(pick, i);
    all.lemma_filter_contains_rev(pick, all.filter(pick)[i]);
}

/// The tool settings of a sub-agent: its parent's, but for the confirmation mode.
pub fn sub_agent_config(config: &ToolsConfig, confirmation: ConfirmationMode) -> (r: ToolsConfig)
    ensures
        r == (ToolsConfig { confirmation, ..*config }),
{
    ToolsConfig {
        max_tool_iterations: config.max_tool_iterations,
        confirmation,
        max_tool_result_bytes: config.max_tool_result_bytes,
    }
}

/// How a sub-agent asks its backend: with the model and the token limit that its role resolved
/// to, and with all its tools.
pub fn spawn_request(model: String, max_tokens: u32, tools: &ToolRegistry) -> (r: RequestConfig)
    ensures
        r@ == (RequestView {
            model: model@,
            max_tokens,
            tools: tools@.map_values(|e: EntryView| e.definition),
            thinking: None,
        }),
{
    RequestConfig { model, max_tokens, tools: tools.definitions(), thinking: None }
}

/// A sub-agent with the model and the token limit that its role resolved to: it continues the
/// given conversation with all its tools, and has the given settings.
pub fn spawn_agent_with_selection(
    model: String,
    max_tokens: u32,
    tool_config: &ToolsConfig,
    compaction: &CompactionConfig,
    retry: &RetryConfig,
    history: Vec<Message>,
    tools: ToolRegistry,
) -> (r: Agent)
    ensures
        r@ == (AgentView {
            history: messages_view(history@),
            prefix: 0,
            config: RequestView {
                model: model@,
                max_tokens,
                tools: tools@.map_values(|e: EntryView| e.definition),
                thinking: None,
            },
            tools: tools@,
            max_tool_iterations: tool_config.max_tool_iterations,
            max_token_retries: retry.max_token_retries,
            confirmation_mode: tool_config.confirmation,
            compaction: None,
            num_retained_turns: compaction.num_retained_turns,
            max_context_window_len: compaction.max_context_window_len,
            last_auto_compacted: false,
            max_tool_result_bytes: tool_config.max_tool_result_bytes,
            chat_mode: false,
        }),
        r@.wf(),
{
    let config = spawn_request(model, max_tokens, &tools);
    Agent::new(config, history).with_tools(tools).with_tool_config(
        tool_config,
    ).with_compaction_config(compaction).with_retry_config(retry)
}

} // verus!
