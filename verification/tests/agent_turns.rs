use std::collections::VecDeque;

use agent_core::agent::conversation::Agent;
use agent_core::agent::calls::ToolOutcome;
use agent_core::agent::effects::Effect;
use agent_core::agent::registry::{ToolEntry, ToolRegistry};
use agent_core::agent::spawner::{run_headless, HeadlessOutcome};
use agent_core::agent::turn::{Phase, TurnInput};
use agent_core::backend::error::{BackendError, Error};
use agent_core::config::{CompactionConfig, ConfirmationMode, RetryConfig, ToolsConfig};
use agent_core::json::Json;
use agent_core::types::{
    AgentEvent, ConfirmationResponse, ContentBlock, Message, RequestConfig, Role, StreamEvent,
    ToolDefinition,
};

fn tools_config() -> ToolsConfig {
    ToolsConfig {
        max_tool_iterations: 25,
        confirmation: ConfirmationMode::WriteOnly,
        max_tool_result_bytes: 65_536,
    }
}

fn retry_config() -> RetryConfig {
    RetryConfig {
        max_retries: 3,
        initial_delay_ms: 1,
        max_delay_ms: 8,
        max_token_retries: 3,
    }
}

fn compaction_config() -> CompactionConfig {
    CompactionConfig {
        role: "compaction".to_string(),
        max_context_window_len: 0,
        num_retained_turns: 0,
    }
}

/// A backend that gives prepared answers, one after another, and then empty ones.
struct SequencedBackend {
    responses: VecDeque<Vec<Result<StreamEvent, Error>>>,
}

impl SequencedBackend {
    fn new(responses: Vec<Vec<Result<StreamEvent, Error>>>) -> Self {
        Self {
            responses: responses.into_iter().collect(),
        }
    }
}

/// A tool that always says the same.
struct EchoTool {
    name: String,
    output: String,
    is_write: bool,
}

impl EchoTool {
    fn new(name: &str, output: &str) -> Self {
        Self {
            name: name.to_string(),
            output: output.to_string(),
            is_write: false,
        }
    }

    fn write_tool(name: &str, output: &str) -> Self {
        Self {
            is_write: true,
            ..Self::new(name, output)
        }
    }
}

struct Tools {
    tools: Vec<EchoTool>,
}

impl Tools {
    fn new() -> Self {
        Self { tools: vec![] }
    }

    fn register(&mut self, tool: Box<EchoTool>) -> Result<(), Error> {
        self.tools.push(*tool);
        Ok(())
    }
}

/// An agent together with the backend and the tools that it works with.
struct Rig {
    agent: Agent,
    backend: SequencedBackend,
    tools: Vec<EchoTool>,
    /// Failures of the backend to answer at all, one per request.
    refusals: VecDeque<Error>,
    /// How many times the agent asks whether it was cancelled before the answer is yes.
    cancel_after: Option<usize>,
    /// Whether the answer is cut off by cancellation once its prepared events are used up.
    cancel_stream: bool,
    /// Whether the tools are cancelled while they run.
    cancel_tools: bool,
    /// What was asked of the backend.
    requests: Vec<(Vec<Message>, RequestConfig)>,
}

impl Rig {
    fn new(backend: SequencedBackend, config: RequestConfig) -> Self {
        Rig {
            agent: Agent::new(config, vec![]),
            backend,
            tools: vec![],
            refusals: VecDeque::new(),
            cancel_after: None,
            cancel_stream: false,
            cancel_tools: false,
            requests: vec![],
        }
    }

    fn with_tools(mut self, tools: Tools) -> Self {
        let mut registry = ToolRegistry::new();
        for t in &tools.tools {
            registry.register(ToolEntry {
                definition: ToolDefinition {
                    name: t.name.clone(),
                    description: "Echo tool".to_string(),
                    input_schema: Json::parse(r#"{"type": "object", "properties": {}}"#)
                        .expect("schema"),
                },
                is_write_tool: t.is_write,
            });
        }
        self.agent = self.agent.with_tools(registry);
        self.tools = tools.tools;
        self
    }

    fn with_tool_config(mut self, config: &ToolsConfig) -> Self {
        self.agent = self.agent.with_tool_config(config);
        self
    }

    fn with_retry_config(mut self, config: &RetryConfig) -> Self {
        self.agent = self.agent.with_retry_config(config);
        self
    }

    fn with_compaction_config(mut self, config: &CompactionConfig) -> Self {
        self.agent = self.agent.with_compaction_config(config);
        self
    }

    fn history(&self) -> Vec<Message> {
        self.agent.history()
    }

    fn set_chat_mode(&mut self, on: bool) {
        self.agent.set_chat_mode(on);
    }

    fn is_chat_mode(&self) -> bool {
        self.agent.is_chat_mode()
    }

    fn max_context_window_len_for_test(&self) -> u32 {
        self.agent.max_context_window_len_for_test()
    }

    fn compact(&self) -> Result<(), String> {
        self.agent.compact().map(|_| ())
    }

    fn record_synthetic_tool_call(
        &mut self,
        id: String,
        command: String,
        content: String,
        is_error: bool,
    ) -> Result<(), Error> {
        self.agent
            .record_synthetic_tool_call(id, command, content, is_error);
        Ok(())
    }

    fn cancelled(&mut self) -> bool {
        match self.cancel_after {
            None => false,
            Some(0) => true,
            Some(n) => {
                self.cancel_after = Some(n - 1);
                false
            }
        }
    }

    fn outcome_of(&self, name: &str) -> ToolOutcome {
        if self.cancel_tools {
            return ToolOutcome::Cancelled;
        }
        match self.tools.iter().find(|t| t.name == name) {
            Some(t) => ToolOutcome::Finished {
                content: vec![ContentBlock::Text(t.output.clone())],
                is_error: false,
                agent_events: vec![],
            },
            None => ToolOutcome::Failed(format!("unknown tool {name}")),
        }
    }

    /// Runs a turn and collects what the agent reports.
    fn send(
        &mut self,
        input: String,
        confirmations: Option<Vec<ConfirmationResponse>>,
        _cancel: Option<()>,
    ) -> Result<Vec<AgentEvent>, Error> {
        let mut confirmations: VecDeque<ConfirmationResponse> =
            confirmations.unwrap_or_default().into_iter().collect();
        let start = self.agent.send(input);
        let mut turn = start.turn;
        let mut answer: VecDeque<Result<StreamEvent, Error>> = VecDeque::new();
        let mut events = vec![];
        while turn.phase != Phase::Finished {
            let told = match turn.phase {
                Phase::Starting | Phase::BeforeTools | Phase::Deciding | Phase::AfterTools => {
                    TurnInput::Proceed {
                        cancelled: self.cancelled(),
                    }
                }
                Phase::Requesting => {
                    self.requests.push((
                        self.agent.history(),
                        RequestConfig {
                            model: start.request.model.clone(),
                            max_tokens: start.request.max_tokens,
                            tools: start.request.tools.iter().map(|t| t.duplicate()).collect(),
                            thinking: start.request.thinking,
                        },
                    ));
                    match self.refusals.pop_front() {
                        Some(e) => TurnInput::BackendFailed(e),
                        None => {
                            answer = match self.backend.responses.pop_front() {
                                Some(a) => a.into_iter().collect(),
                                None => VecDeque::from(vec![Ok(StreamEvent::Done)]),
                            };
                            TurnInput::BackendReady
                        }
                    }
                }
                Phase::Streaming => match answer.pop_front() {
                    Some(Ok(e)) => TurnInput::Stream(e),
                    Some(Err(e)) => TurnInput::StreamFailed(e),
                    None => TurnInput::StreamEnded {
                        cancelled: self.cancel_stream,
                    },
                },
                Phase::Confirming => TurnInput::Confirmed {
                    approved: confirmations.pop_front() == Some(ConfirmationResponse::Approved),
                },
                Phase::Running => {
                    let places = turn.to_run();
                    TurnInput::ToolOutcomes(
                        turn.batch
                            .iter()
                            .enumerate()
                            .map(|(i, c)| {
                                if places.contains(&i) {
                                    Some(self.outcome_of(&c.name))
                                } else {
                                    None
                                }
                            })
                            .collect(),
                    )
                }
                Phase::Finished => unreachable!(),
            };
            for effect in self.agent.advance(&mut turn, told) {
                if let Effect::Emit(e) = effect {
                    events.push(e);
                }
            }
        }
        Ok(events)
    }
}

fn collect_events(events: Vec<AgentEvent>) -> Vec<AgentEvent> {
    events
}

fn headless(rig: &mut Rig, input: String) -> HeadlessOutcome {
    run_headless(rig.send(input, None, None).expect("send"))
}

fn simple_request() -> RequestConfig {
    RequestConfig {
        model: "test".to_string(),
        max_tokens: 100,
        tools: vec![],
        thinking: None,
    }
}

fn agent_with_mode(
    backend: SequencedBackend,
    tool: Option<Box<EchoTool>>,
    mode: ConfirmationMode,
) -> Rig {
    let mut registry = Tools::new();
    if let Some(t) = tool {
        registry.register(t).expect("register tool");
    }
    Rig::new(backend, simple_request())
        .with_tools(registry)
        .with_tool_config(&ToolsConfig {
            confirmation: mode,
            ..tools_config()
        })
}

fn text_response(text: &str) -> Vec<Result<StreamEvent, Error>> {
    vec![
        Ok(StreamEvent::TextDelta(text.to_string())),
        Ok(StreamEvent::Done),
    ]
}

fn thinking_then_text_response(thinking: &str, text: &str) -> Vec<Result<StreamEvent, Error>> {
    vec![
        Ok(StreamEvent::ThinkingDelta(thinking.to_string())),
        Ok(StreamEvent::ThinkingSignature("sig_abc123".to_string())),
        Ok(StreamEvent::TextDelta(text.to_string())),
        Ok(StreamEvent::Done),
    ]
}

fn tool_call_response(id: &str, name: &str, input: &str) -> Vec<Result<StreamEvent, Error>> {
    vec![
        Ok(StreamEvent::ToolUseStart {
            id: id.to_string(),
            name: name.to_string(),
        }),
        Ok(StreamEvent::ToolUseDelta(input.to_string())),
        Ok(StreamEvent::ToolUseDone),
        Ok(StreamEvent::Done),
    ]
}

fn text_with_usage_response(
    text: &str,
    input_tokens: u32,
    output_tokens: u32,
) -> Vec<Result<StreamEvent, Error>> {
    vec![
        Ok(StreamEvent::TextDelta(text.to_string())),
        Ok(StreamEvent::Usage {
            input_tokens,
            output_tokens,
            stop_reason: "end_turn".to_string(),
        }),
        Ok(StreamEvent::Done),
    ]
}

fn max_tokens_error_stream(text: &str) -> Vec<Result<StreamEvent, Error>> {
    vec![
        Ok(StreamEvent::TextDelta(text.to_string())),
        Err(Error::Backend(BackendError::MaxTokensExceeded {
            input_tokens: 100,
            output_tokens: 200,
        })),
    ]
}

#[test]
fn mod_pure_text_response_emits_response_complete_without_tool_loop() {
    let backend = SequencedBackend::new(vec![text_response("hello world")]);
    let mut agent = agent_with_mode(backend, None, ConfirmationMode::Never);

    let stream = agent
        .send("hi".to_string(), None, None)
        .expect("send should succeed");
    let events = collect_events(stream);

    assert!(
        events
            .iter()
            .any(|e| matches!(e, AgentEvent::TokenReceived(t) if t == "hello world")),
        "expected TokenReceived"
    );
    assert!(
        events
            .iter()
            .any(|e| matches!(e, AgentEvent::ResponseComplete(_))),
        "expected ResponseComplete"
    );
    assert!(
        !events
            .iter()
            .any(|e| matches!(e, AgentEvent::ToolUseReceived { .. })),
        "must not have ToolUseReceived"
    );
}

#[test]
fn mod_tool_use_response_with_never_confirmation_executes_tool_and_re_sends() {
    let backend = SequencedBackend::new(vec![
        tool_call_response("tool-1", "bash", r#"{}"#),
        text_response("done"),
    ]);
    let mut agent = agent_with_mode(
        backend,
        Some(Box::new(EchoTool::new("bash", "ls output"))),
        ConfirmationMode::Never,
    );

    let stream = agent
        .send("run ls".to_string(), None, None)
        .expect("send should succeed");
    let events = collect_events(stream);

    assert!(
        events
            .iter()
            .any(|e| matches!(e, AgentEvent::ToolUseReceived { name, .. } if name == "bash")),
        "expected ToolUseReceived"
    );
    assert!(
        events.iter().any(|e| matches!(
            e,
            AgentEvent::ToolResult { name, content, is_error, .. }
                if name == "bash" && content == "ls output" && !is_error
        )),
        "expected ToolResult with ls output"
    );
    assert!(
        events
            .iter()
            .any(|e| matches!(e, AgentEvent::ResponseComplete(_))),
        "expected ResponseComplete"
    );
}

#[test]
fn mod_always_confirmation_emits_tool_confirmation_required() {
    let backend = SequencedBackend::new(vec![
        tool_call_response("tool-1", "bash", r#"{}"#),
        text_response("done"),
    ]);
    let config = RequestConfig {
        model: "test".to_string(),
        max_tokens: 100,
        tools: vec![],
        thinking: None,
    };
    let mut registry = Tools::new();
    registry
        .register(Box::new(EchoTool::new("bash", "output")))
        .expect("register");
    let tool_config = ToolsConfig {
        confirmation: ConfirmationMode::Always,
        ..tools_config()
    };
    let mut confirm_rx: Vec<ConfirmationResponse> = vec![];
    confirm_rx.push(ConfirmationResponse::Approved);

    let mut agent = Rig::new(backend, config)
        .with_tools(registry)
        .with_tool_config(&tool_config);

    let stream = agent
        .send("run".to_string(), Some(confirm_rx), None)
        .expect("send should succeed");
    let events = collect_events(stream);

    assert!(
        events.iter().any(|e| matches!(
            e,
            AgentEvent::ToolConfirmationRequired { name, .. } if name == "bash"
        )),
        "expected ToolConfirmationRequired"
    );
}

#[test]
fn mod_confirmation_approved_executes_tool() {
    let backend = SequencedBackend::new(vec![
        tool_call_response("tool-1", "bash", r#"{}"#),
        text_response("done"),
    ]);
    let config = RequestConfig {
        model: "test".to_string(),
        max_tokens: 100,
        tools: vec![],
        thinking: None,
    };
    let mut registry = Tools::new();
    registry
        .register(Box::new(EchoTool::new("bash", "the output")))
        .expect("register");
    let tool_config = ToolsConfig {
        confirmation: ConfirmationMode::Always,
        ..tools_config()
    };
    let mut confirm_rx: Vec<ConfirmationResponse> = vec![];
    confirm_rx.push(ConfirmationResponse::Approved);

    let mut agent = Rig::new(backend, config)
        .with_tools(registry)
        .with_tool_config(&tool_config);

    let stream = agent
        .send("run".to_string(), Some(confirm_rx), None)
        .expect("send should succeed");
    let events = collect_events(stream);

    assert!(
        events.iter().any(|e| matches!(
            e,
            AgentEvent::ToolResult { content, is_error, .. }
                if content == "the output" && !is_error
        )),
        "expected successful ToolResult"
    );
}

#[test]
fn mod_confirmation_rejected_sends_error_result_to_model() {
    let backend = SequencedBackend::new(vec![
        tool_call_response("tool-1", "bash", r#"{}"#),
        text_response("ok"),
    ]);
    let config = RequestConfig {
        model: "test".to_string(),
        max_tokens: 100,
        tools: vec![],
        thinking: None,
    };
    let mut registry = Tools::new();
    registry
        .register(Box::new(EchoTool::new("bash", "output")))
        .expect("register");
    let tool_config = ToolsConfig {
        confirmation: ConfirmationMode::Always,
        ..tools_config()
    };
    let mut confirm_rx: Vec<ConfirmationResponse> = vec![];
    confirm_rx.push(ConfirmationResponse::Rejected);

    let mut agent = Rig::new(backend, config)
        .with_tools(registry)
        .with_tool_config(&tool_config);

    let stream = agent
        .send("run".to_string(), Some(confirm_rx), None)
        .expect("send should succeed");
    let events = collect_events(stream);

    assert!(
        events
            .iter()
            .any(|e| matches!(e, AgentEvent::ToolResult { is_error, .. } if *is_error)),
        "expected error ToolResult"
    );
    assert!(
        events
            .iter()
            .any(|e| matches!(e, AgentEvent::ResponseComplete(_))),
        "expected ResponseComplete after rejected tool"
    );
}

#[test]
fn mod_max_iterations_exceeded_emits_error() {
    let responses: Vec<Vec<Result<StreamEvent, Error>>> = (0..30)
        .map(|_| tool_call_response("tool-1", "bash", r#"{}"#))
        .collect();
    let backend = SequencedBackend::new(responses);
    let config = RequestConfig {
        model: "test".to_string(),
        max_tokens: 100,
        tools: vec![],
        thinking: None,
    };
    let mut registry = Tools::new();
    registry
        .register(Box::new(EchoTool::new("bash", "output")))
        .expect("register");
    let tool_config = ToolsConfig {
        confirmation: ConfirmationMode::Never,
        max_tool_iterations: 3,
        ..tools_config()
    };

    let mut agent = Rig::new(backend, config)
        .with_tools(registry)
        .with_tool_config(&tool_config);

    let stream = agent
        .send("run".to_string(), None, None)
        .expect("send should succeed");
    let events = collect_events(stream);

    assert!(
        events.iter().any(|e| matches!(e, AgentEvent::Error(_))),
        "expected Error event"
    );
    assert!(
        !events
            .iter()
            .any(|e| matches!(e, AgentEvent::ResponseComplete(_))),
        "must not have ResponseComplete"
    );
}

#[test]
fn mod_multiple_tool_calls_in_single_response_all_executed() {
    let multi_tool_response: Vec<Result<StreamEvent, Error>> = vec![
        Ok(StreamEvent::ToolUseStart {
            id: "tool-1".to_string(),
            name: "bash".to_string(),
        }),
        Ok(StreamEvent::ToolUseDelta(r#"{}"#.to_string())),
        Ok(StreamEvent::ToolUseDone),
        Ok(StreamEvent::ToolUseStart {
            id: "tool-2".to_string(),
            name: "bash".to_string(),
        }),
        Ok(StreamEvent::ToolUseDelta(r#"{}"#.to_string())),
        Ok(StreamEvent::ToolUseDone),
        Ok(StreamEvent::Done),
    ];
    let backend = SequencedBackend::new(vec![multi_tool_response, text_response("done")]);
    let config = RequestConfig {
        model: "test".to_string(),
        max_tokens: 100,
        tools: vec![],
        thinking: None,
    };
    let mut registry = Tools::new();
    registry
        .register(Box::new(EchoTool::new("bash", "output")))
        .expect("register");
    let tool_config = ToolsConfig {
        confirmation: ConfirmationMode::Never,
        ..tools_config()
    };

    let mut agent = Rig::new(backend, config)
        .with_tools(registry)
        .with_tool_config(&tool_config);

    let stream = agent
        .send("run".to_string(), None, None)
        .expect("send should succeed");
    let events = collect_events(stream);

    let tool_results: Vec<_> = events
        .iter()
        .filter(|e| matches!(e, AgentEvent::ToolResult { .. }))
        .collect();
    assert_eq!(tool_results.len(), 2, "expected two ToolResult events");
    assert!(
        events
            .iter()
            .any(|e| matches!(e, AgentEvent::ResponseComplete(_))),
        "expected ResponseComplete"
    );
}

#[test]
fn mod_malformed_tool_input_json_sends_error_result_to_model() {
    let bad_json_response: Vec<Result<StreamEvent, Error>> = vec![
        Ok(StreamEvent::ToolUseStart {
            id: "t1".to_string(),
            name: "bash".to_string(),
        }),
        Ok(StreamEvent::ToolUseDelta("not valid json {{{".to_string())),
        Ok(StreamEvent::ToolUseDone),
        Ok(StreamEvent::Done),
    ];
    let backend = SequencedBackend::new(vec![bad_json_response, text_response("ok")]);
    let mut agent = agent_with_mode(
        backend,
        Some(Box::new(EchoTool::new("bash", "output"))),
        ConfirmationMode::Never,
    );

    let stream = agent
        .send("run".to_string(), None, None)
        .expect("send should succeed");
    let events = collect_events(stream);

    assert!(
        events
            .iter()
            .any(|e| matches!(e, AgentEvent::ToolResult { is_error, .. } if *is_error)),
        "malformed JSON should produce error ToolResult"
    );
    assert!(
        events
            .iter()
            .any(|e| matches!(e, AgentEvent::ResponseComplete(_))),
        "loop should continue and complete after malformed input"
    );
}

#[test]
fn mod_empty_tool_input_json_is_treated_as_empty_object() {
    // Regression: LLM sends no input for a no-arg tool (e.g. list_tasks).
    // The SSE stream delivers no ToolUseDelta events, leaving input_json = "".
    // This must not produce an error — it should be treated as {}.
    let empty_input_response: Vec<Result<StreamEvent, Error>> = vec![
        Ok(StreamEvent::ToolUseStart {
            id: "t1".to_string(),
            name: "bash".to_string(),
        }),
        // No ToolUseDelta — input_json stays empty
        Ok(StreamEvent::ToolUseDone),
        Ok(StreamEvent::Done),
    ];
    let backend = SequencedBackend::new(vec![empty_input_response, text_response("ok")]);
    let mut agent = agent_with_mode(
        backend,
        Some(Box::new(EchoTool::new("bash", "echo output"))),
        ConfirmationMode::Never,
    );

    let stream = agent
        .send("list".to_string(), None, None)
        .expect("send should succeed");
    let events = collect_events(stream);

    assert!(
        events.iter().any(|e| matches!(
            e,
            AgentEvent::ToolResult { content, is_error, .. }
                if content == "echo output" && !is_error
        )),
        "empty input_json should execute successfully with empty object input"
    );
}

#[test]
fn mod_backend_error_on_second_iteration_preserves_history() {
    let backend = SequencedBackend::new(vec![
        tool_call_response("t1", "bash", r#"{}"#),
        vec![Err(Error::msg("backend failure on iteration 2"))],
    ]);
    let mut agent = agent_with_mode(
        backend,
        Some(Box::new(EchoTool::new("bash", "output"))),
        ConfirmationMode::Never,
    );

    let stream = agent
        .send("run".to_string(), None, None)
        .expect("send should succeed");
    let events = collect_events(stream);

    assert!(
        events.iter().any(|e| matches!(e, AgentEvent::Error(_))),
        "expected Error event"
    );
    assert!(
        !agent.history().is_empty(),
        "history must be preserved after error so agent retains context"
    );
    let history = agent.history();
    assert!(
        history.iter().any(|m| m.role == Role::User
            && m.content
                .iter()
                .any(|b| matches!(b, ContentBlock::Text(t) if t == "run"))),
        "user message must be retained in history"
    );
}

#[test]
fn mod_stream_error_preserves_user_message_in_history() {
    let backend = SequencedBackend::new(vec![vec![Err(Error::msg("connection refused"))]]);
    let mut agent = agent_with_mode(backend, None, ConfirmationMode::Never);

    let stream = agent
        .send("hello".to_string(), None, None)
        .expect("send should succeed");
    let events = collect_events(stream);

    assert!(
        events.iter().any(|e| matches!(e, AgentEvent::Error(_))),
        "expected Error event"
    );
    let history = agent.history();
    assert!(
        !history.is_empty(),
        "history must not be cleared on stream error"
    );
    assert!(
        history.iter().any(|m| m.role == Role::User
            && m.content
                .iter()
                .any(|b| matches!(b, ContentBlock::Text(t) if t == "hello"))),
        "user message must be retained"
    );
}

#[test]
fn mod_stream_error_preserves_partial_text_in_history() {
    let backend = SequencedBackend::new(vec![vec![
        Ok(StreamEvent::TextDelta("partial response".to_string())),
        Err(Error::msg("max_tokens reached")),
    ]]);
    let mut agent = agent_with_mode(backend, None, ConfirmationMode::Never);

    let stream = agent
        .send("tell me a story".to_string(), None, None)
        .expect("send should succeed");
    let events = collect_events(stream);

    assert!(
        events
            .iter()
            .any(|e| matches!(e, AgentEvent::TokenReceived(t) if t == "partial response")),
        "expected partial text tokens before error"
    );
    assert!(
        events.iter().any(|e| matches!(e, AgentEvent::Error(_))),
        "expected Error event"
    );

    let history = agent.history();
    assert!(
        history.iter().any(|m| m.role == Role::Assistant
            && m.content
                .iter()
                .any(|b| matches!(b, ContentBlock::Text(t) if t.contains("partial response")))),
        "partial assistant text must be saved in history"
    );
}

#[test]
fn mod_error_message_is_added_to_history_as_user_message() {
    let backend = SequencedBackend::new(vec![vec![Err(Error::msg("max_tokens reached"))]]);
    let mut agent = agent_with_mode(backend, None, ConfirmationMode::Never);

    let stream = agent
        .send("hi".to_string(), None, None)
        .expect("send should succeed");
    let _events = collect_events(stream);

    let history = agent.history();
    let has_error_in_history = history.iter().any(|m| {
        m.role == Role::User
            && m.content.iter().any(
                |b| matches!(b, ContentBlock::Text(t) if t == "[ERROR] max_tokens reached"),
            )
    });
    assert!(
        has_error_in_history,
        "error message with [ERROR] prefix must be added to history so the agent knows why a stoppage occurred"
    );
}

#[test]
fn mod_max_iterations_error_preserves_history() {
    let responses: Vec<Vec<Result<StreamEvent, Error>>> = (0..30)
        .map(|_| tool_call_response("tool-1", "bash", r#"{}"#))
        .collect();
    let backend = SequencedBackend::new(responses);
    let config = RequestConfig {
        model: "test".to_string(),
        max_tokens: 100,
        tools: vec![],
        thinking: None,
    };
    let mut registry = Tools::new();
    registry
        .register(Box::new(EchoTool::new("bash", "output")))
        .expect("register");
    let tool_config = ToolsConfig {
        confirmation: ConfirmationMode::Never,
        max_tool_iterations: 3,
        ..tools_config()
    };

    let mut agent = Rig::new(backend, config)
        .with_tools(registry)
        .with_tool_config(&tool_config);

    let stream = agent
        .send("run".to_string(), None, None)
        .expect("send should succeed");
    let _events = collect_events(stream);

    let history = agent.history();
    assert!(
        !history.is_empty(),
        "history must be preserved after max iterations error"
    );
    assert!(
        history.iter().any(|m| m.role == Role::User
            && m.content
                .iter()
                .any(|b| matches!(b, ContentBlock::Text(t) if t == "run"))),
        "original user message must be retained"
    );
    let tool_use_count = history
        .iter()
        .flat_map(|m| &m.content)
        .filter(|b| matches!(b, ContentBlock::ToolUse { .. }))
        .count();
    assert_eq!(
        tool_use_count, 3,
        "completed tool call iterations must be preserved in history"
    );
    let tool_result_count = history
        .iter()
        .flat_map(|m| &m.content)
        .filter(|b| matches!(b, ContentBlock::ToolResult { .. }))
        .count();
    assert_eq!(
        tool_result_count, 3,
        "completed tool result iterations must be preserved in history"
    );
    assert!(
        history.iter().any(|m| m.role == Role::User
            && m.content.iter().any(
                |b| matches!(b, ContentBlock::Text(t) if t.contains("[ERROR]") && t.contains("Max tool iterations"))
            )),
        "error message with [ERROR] prefix must be in history"
    );
}

#[test]
fn mod_write_only_confirmation_requires_confirmation_for_write_tools_only() {
    let backend = SequencedBackend::new(vec![
        tool_call_response("tool-1", "write_file", r#"{}"#),
        text_response("done"),
    ]);
    let config = RequestConfig {
        model: "test".to_string(),
        max_tokens: 100,
        tools: vec![],
        thinking: None,
    };
    let mut registry = Tools::new();
    registry
        .register(Box::new(EchoTool::write_tool("write_file", "written")))
        .expect("register");
    let tool_config = ToolsConfig {
        confirmation: ConfirmationMode::WriteOnly,
        ..tools_config()
    };
    let mut confirm_rx: Vec<ConfirmationResponse> = vec![];
    confirm_rx.push(ConfirmationResponse::Approved);

    let mut agent = Rig::new(backend, config)
        .with_tools(registry)
        .with_tool_config(&tool_config);

    let stream = agent
        .send("write".to_string(), Some(confirm_rx), None)
        .expect("send should succeed");
    let events = collect_events(stream);

    assert!(
        events
            .iter()
            .any(|e| matches!(e, AgentEvent::ToolConfirmationRequired { .. })),
        "write tool should require confirmation in WriteOnly mode"
    );
    assert!(
        events.iter().any(|e| matches!(
            e,
            AgentEvent::ToolResult { is_error, .. } if !is_error
        )),
        "tool should execute after approval"
    );
}

#[test]
fn index_propagation_tool_use_received_and_result_carry_matching_indices() {
    let multi_tool_response: Vec<Result<StreamEvent, Error>> = vec![
        Ok(StreamEvent::ToolUseStart {
            id: "t1".to_string(),
            name: "bash".to_string(),
        }),
        Ok(StreamEvent::ToolUseDelta("{}".to_string())),
        Ok(StreamEvent::ToolUseDone),
        Ok(StreamEvent::ToolUseStart {
            id: "t2".to_string(),
            name: "bash".to_string(),
        }),
        Ok(StreamEvent::ToolUseDelta("{}".to_string())),
        Ok(StreamEvent::ToolUseDone),
        Ok(StreamEvent::ToolUseStart {
            id: "t3".to_string(),
            name: "bash".to_string(),
        }),
        Ok(StreamEvent::ToolUseDelta("{}".to_string())),
        Ok(StreamEvent::ToolUseDone),
        Ok(StreamEvent::Done),
    ];

    let backend = SequencedBackend::new(vec![multi_tool_response, text_response("done")]);
    let mut agent = agent_with_mode(
        backend,
        Some(Box::new(EchoTool::new("bash", "output"))),
        ConfirmationMode::Never,
    );

    let stream = agent
        .send("run".to_string(), None, None)
        .expect("send should succeed");
    let events = collect_events(stream);

    let use_indices: Vec<usize> = events
        .iter()
        .filter_map(|e| {
            if let AgentEvent::ToolUseReceived { index, .. } = e {
                Some(*index)
            } else {
                None
            }
        })
        .collect();
    assert_eq!(
        use_indices,
        vec![1, 2, 3],
        "ToolUseReceived indices must be 1,2,3"
    );

    let result_indices: Vec<usize> = events
        .iter()
        .filter_map(|e| {
            if let AgentEvent::ToolResult { index, .. } = e {
                Some(*index)
            } else {
                None
            }
        })
        .collect();
    assert_eq!(
        result_indices,
        vec![1, 2, 3],
        "ToolResult indices must be 1,2,3"
    );
}

#[test]
fn confirmation_then_parallel_all_confirmations_before_execution() {
    // With ConfirmationMode::Always, all N confirmations are sent before any
    // tool starts executing. A denied tool produces the "declined" result without
    // blocking the others.
    let multi_tool_response: Vec<Result<StreamEvent, Error>> = vec![
        Ok(StreamEvent::ToolUseStart {
            id: "t1".to_string(),
            name: "bash".to_string(),
        }),
        Ok(StreamEvent::ToolUseDelta("{}".to_string())),
        Ok(StreamEvent::ToolUseDone),
        Ok(StreamEvent::ToolUseStart {
            id: "t2".to_string(),
            name: "bash".to_string(),
        }),
        Ok(StreamEvent::ToolUseDelta("{}".to_string())),
        Ok(StreamEvent::ToolUseDone),
        Ok(StreamEvent::Done),
    ];

    let backend = SequencedBackend::new(vec![multi_tool_response, text_response("done")]);
    let config = RequestConfig {
        model: "test".to_string(),
        max_tokens: 100,
        tools: vec![],
        thinking: None,
    };
    let mut registry = Tools::new();
    registry
        .register(Box::new(EchoTool::new("bash", "echo output")))
        .expect("register");
    let tool_config = ToolsConfig {
        confirmation: ConfirmationMode::Always,
        ..tools_config()
    };

    let mut confirm_rx: Vec<ConfirmationResponse> = vec![];
    // Approve first, reject second
    confirm_rx.push(ConfirmationResponse::Approved);
    confirm_rx.push(ConfirmationResponse::Rejected);

    let mut agent = Rig::new(backend, config)
        .with_tools(registry)
        .with_tool_config(&tool_config);

    let stream = agent
        .send("run".to_string(), Some(confirm_rx), None)
        .expect("send should succeed");
    let events = collect_events(stream);

    // Both ToolConfirmationRequired events must appear before any ToolResult.
    let mut saw_confirmation = false;
    let mut all_confirmations_before_first_result = true;
    let mut first_result_seen = false;
    for event in &events {
        match event {
            AgentEvent::ToolConfirmationRequired { .. } => {
                saw_confirmation = true;
                if first_result_seen {
                    all_confirmations_before_first_result = false;
                }
            }
            AgentEvent::ToolResult { .. } => {
                first_result_seen = true;
            }
            _ => {}
        }
    }
    assert!(
        saw_confirmation,
        "expected at least one ToolConfirmationRequired"
    );
    assert!(
        all_confirmations_before_first_result,
        "all confirmations must occur before the first ToolResult"
    );

    let results: Vec<_> = events
        .iter()
        .filter(|e| matches!(e, AgentEvent::ToolResult { .. }))
        .collect();
    assert_eq!(results.len(), 2, "two ToolResult events expected");

    // First approved → success, second rejected → error
    if let AgentEvent::ToolResult {
        is_error, index, ..
    } = results[0]
    {
        assert!(!is_error, "approved tool should succeed");
        assert_eq!(*index, 1);
    }
    if let AgentEvent::ToolResult {
        is_error, index, ..
    } = results[1]
    {
        assert!(is_error, "rejected tool should produce error result");
        assert_eq!(*index, 2);
    }
}

#[test]
fn run_headless_collects_text_and_usage() {
    let backend = SequencedBackend::new(vec![vec![
        Ok(StreamEvent::TextDelta("hello".to_string())),
        Ok(StreamEvent::TextDelta(" world".to_string())),
        Ok(StreamEvent::Usage {
            input_tokens: 10,
            output_tokens: 5,
            stop_reason: "end_turn".to_string(),
        }),
        Ok(StreamEvent::Done),
    ]]);
    let config = RequestConfig {
        model: "test".to_string(),
        max_tokens: 100,
        tools: vec![],
        thinking: None,
    };
    let mut agent = Rig::new(backend, config);
    let outcome = headless(&mut agent, "hi".to_string());

    assert!(!outcome.is_error);
    assert_eq!(outcome.text, "hello world");
    assert_eq!(outcome.input_tokens, 10);
    assert_eq!(outcome.output_tokens, 5);
}

#[test]
fn run_headless_auto_rejects_confirmations() {
    // In Always mode the agent emits ToolConfirmationRequired before checking
    // the rx. run_headless has no rx and no user, so it treats the event as a
    // hard error: is_error = true with a descriptive error_message, and stops.
    let backend = SequencedBackend::new(vec![
        tool_call_response("t1", "write_file", r#"{}"#),
        text_response("done"),
    ]);
    let config = RequestConfig {
        model: "test".to_string(),
        max_tokens: 100,
        tools: vec![],
        thinking: None,
    };
    let mut registry = Tools::new();
    registry
        .register(Box::new(EchoTool::write_tool("write_file", "written")))
        .expect("register");
    let tool_config = ToolsConfig {
        confirmation: ConfirmationMode::Always,
        ..tools_config()
    };
    let mut agent = Rig::new(backend, config)
        .with_tools(registry)
        .with_tool_config(&tool_config);

    let outcome = headless(&mut agent, "write".to_string());

    // ToolConfirmationRequired received with no human present → hard error.
    assert!(
        outcome.is_error,
        "confirmation required with no human present must set is_error"
    );
    let msg = outcome
        .error_message
        .expect("error_message must be set when is_error is true");
    assert!(
        msg.contains("write_file"),
        "error message should name the offending tool; got: {msg}"
    );
    assert!(
        msg.contains("confirmation"),
        "error message should mention confirmation; got: {msg}"
    );
}

#[test]
fn run_headless_backend_error_sets_is_error() {
    let backend = SequencedBackend::new(vec![vec![Err(Error::msg("connection lost"))]]);
    let config = RequestConfig {
        model: "test".to_string(),
        max_tokens: 100,
        tools: vec![],
        thinking: None,
    };
    let mut agent = Rig::new(backend, config);
    let outcome = headless(&mut agent, "fail".to_string());

    assert!(outcome.is_error);
    let msg = outcome.error_message.expect("should have error message");
    assert!(msg.contains("connection lost"));
}

#[test]
fn run_headless_uses_peak_input_tokens_not_sum() {
    // Simulate multiple Usage events with cumulative input_tokens (as APIs report
    // total context size per request). Peak should be 15000, not 27000.
    let backend = SequencedBackend::new(vec![vec![
        Ok(StreamEvent::TextDelta("hello".to_string())),
        Ok(StreamEvent::Usage {
            input_tokens: 12_000,
            output_tokens: 100,
            stop_reason: "end_turn".to_string(),
        }),
        Ok(StreamEvent::Usage {
            input_tokens: 15_000,
            output_tokens: 150,
            stop_reason: "end_turn".to_string(),
        }),
        Ok(StreamEvent::Done),
    ]]);
    let config = RequestConfig {
        model: "test".to_string(),
        max_tokens: 100,
        tools: vec![],
        thinking: None,
    };
    let mut agent = Rig::new(backend, config);
    let outcome = headless(&mut agent, "test".to_string());

    assert!(!outcome.is_error, "should not have error");
    assert_eq!(
        outcome.input_tokens, 15_000,
        "input_tokens should track peak (15000), not sum (27000)"
    );
    assert_eq!(
        outcome.output_tokens, 250,
        "output_tokens should accumulate (100 + 150 = 250)"
    );
}

#[test]
fn run_headless_single_usage_event_reports_correctly() {
    let backend = SequencedBackend::new(vec![vec![
        Ok(StreamEvent::TextDelta("hi".to_string())),
        Ok(StreamEvent::Usage {
            input_tokens: 5_000,
            output_tokens: 200,
            stop_reason: "end_turn".to_string(),
        }),
        Ok(StreamEvent::Done),
    ]]);
    let config = RequestConfig {
        model: "test".to_string(),
        max_tokens: 100,
        tools: vec![],
        thinking: None,
    };
    let mut agent = Rig::new(backend, config);
    let outcome = headless(&mut agent, "test".to_string());

    assert!(!outcome.is_error, "should not have error");
    assert_eq!(
        outcome.input_tokens, 5_000,
        "single usage should report input_tokens correctly"
    );
    assert_eq!(
        outcome.output_tokens, 200,
        "single usage should report output_tokens correctly"
    );
}

#[test]
fn run_headless_peak_input_tokens_across_multi_turn_tool_use() {
    // Multi-turn: first turn emits a tool call with input_tokens=12_000,
    // second turn is a text response with input_tokens=15_000.
    // The API reports cumulative context size per turn, so peak-tracking
    // must yield 15_000 (not 27_000).
    let backend = SequencedBackend::new(vec![
        vec![
            Ok(StreamEvent::ToolUseStart {
                id: "t1".to_string(),
                name: "bash".to_string(),
            }),
            Ok(StreamEvent::ToolUseDelta(r#"{"command":"ls"}"#.to_string())),
            Ok(StreamEvent::ToolUseDone),
            Ok(StreamEvent::Usage {
                input_tokens: 12_000,
                output_tokens: 100,
                stop_reason: "tool_calls".to_string(),
            }),
            Ok(StreamEvent::Done),
        ],
        vec![
            Ok(StreamEvent::TextDelta("done".to_string())),
            Ok(StreamEvent::Usage {
                input_tokens: 15_000,
                output_tokens: 150,
                stop_reason: "end_turn".to_string(),
            }),
            Ok(StreamEvent::Done),
        ],
    ]);
    let config = RequestConfig {
        model: "test".to_string(),
        max_tokens: 100,
        tools: vec![],
        thinking: None,
    };
    let mut registry = Tools::new();
    registry
        .register(Box::new(EchoTool::new("bash", "output")))
        .expect("register");
    let tool_config = ToolsConfig {
        confirmation: ConfirmationMode::Never,
        ..tools_config()
    };
    let mut agent = Rig::new(backend, config)
        .with_tools(registry)
        .with_tool_config(&tool_config);
    let outcome = headless(&mut agent, "run tool".to_string());

    assert!(!outcome.is_error, "should not have error");
    assert_eq!(
        outcome.input_tokens, 15_000,
        "input_tokens should track peak across turns (15000), not sum (27000)"
    );
    assert_eq!(
        outcome.output_tokens, 250,
        "output_tokens should accumulate across turns (100 + 150 = 250)"
    );
}

#[test]
fn cancel_token_none_preserves_legacy_behavior() {
    let backend = SequencedBackend::new(vec![text_response("hello")]);
    let mut agent = agent_with_mode(backend, None, ConfirmationMode::Never);

    let stream = agent
        .send("hi".to_string(), None, None)
        .expect("send should succeed");
    let events = collect_events(stream);

    assert!(
        events
            .iter()
            .any(|e| matches!(e, AgentEvent::ResponseComplete(_))),
        "expected ResponseComplete without token; got: {events:?}"
    );
    assert!(
        !events
            .iter()
            .any(|e| matches!(e, AgentEvent::Interrupted { .. })),
        "must not have Interrupted without cancel; got: {events:?}"
    );
}

#[test]
fn thinking_delta_emits_thinking_received_and_accumulates() {
    let backend = SequencedBackend::new(vec![thinking_then_text_response(
        "reasoning about the problem",
        "final answer",
    )]);
    let mut agent = agent_with_mode(backend, None, ConfirmationMode::Never);

    let stream = agent
        .send("think".to_string(), None, None)
        .expect("send should succeed");
    let events = collect_events(stream);

    assert!(
        events
            .iter()
            .any(|e| matches!(e, AgentEvent::ThinkingReceived(t) if t == "reasoning about the problem")),
        "expected ThinkingReceived with reasoning text"
    );
    assert!(
        events
            .iter()
            .any(|e| matches!(e, AgentEvent::TokenReceived(t) if t == "final answer")),
        "expected TokenReceived with final answer"
    );
    assert!(
        events
            .iter()
            .any(|e| matches!(e, AgentEvent::ResponseComplete(_))),
        "expected ResponseComplete"
    );
}

#[test]
fn thinking_persisted_in_history_with_signature() {
    let backend = SequencedBackend::new(vec![thinking_then_text_response(
        "my reasoning",
        "my answer",
    )]);
    let mut agent = agent_with_mode(backend, None, ConfirmationMode::Never);

    let stream = agent
        .send("think".to_string(), None, None)
        .expect("send should succeed");
    let _events = collect_events(stream);

    let history = agent.history();
    let assistant_msg = history
        .iter()
        .find(|m| m.role == Role::Assistant)
        .expect("should have assistant message");

    let thinking_block = assistant_msg
        .content
        .iter()
        .find(|b| matches!(b, ContentBlock::Thinking { .. }))
        .expect("should have thinking block");
    if let ContentBlock::Thinking { text, signature } = thinking_block {
        assert_eq!(text, "my reasoning");
        assert_eq!(
            signature, "sig_abc123",
            "signature should be captured from stream"
        );
    }

    let text_block = assistant_msg
        .content
        .iter()
        .find(|b| matches!(b, ContentBlock::Text(_)))
        .expect("should have text block");
    if let ContentBlock::Text(text) = text_block {
        assert_eq!(text, "my answer");
    }
}

#[test]
fn thinking_only_response_persisted_in_history() {
    let backend = SequencedBackend::new(vec![vec![
        Ok(StreamEvent::ThinkingDelta("just thinking".to_string())),
        Ok(StreamEvent::ThinkingSignature("sig_def456".to_string())),
        Ok(StreamEvent::Usage {
            input_tokens: 50,
            output_tokens: 10,
            stop_reason: "end_turn".to_string(),
        }),
        Ok(StreamEvent::Done),
    ]]);
    let mut agent = agent_with_mode(backend, None, ConfirmationMode::Never);

    let stream = agent
        .send("think".to_string(), None, None)
        .expect("send should succeed");
    let _events = collect_events(stream);

    let history = agent.history();
    let assistant_msg = history
        .iter()
        .find(|m| m.role == Role::Assistant)
        .expect("should have assistant message");

    assert!(
        assistant_msg
            .content
            .iter()
            .any(|b| matches!(b, ContentBlock::Thinking { .. })),
        "should have thinking block"
    );
}

#[test]
fn thinking_persisted_on_stream_error() {
    let backend = SequencedBackend::new(vec![vec![
        Ok(StreamEvent::ThinkingDelta("partial thinking".to_string())),
        Ok(StreamEvent::ThinkingSignature("sig_err".to_string())),
        Err(Error::msg("stream error")),
    ]]);
    let mut agent = agent_with_mode(backend, None, ConfirmationMode::Never);

    let stream = agent
        .send("think".to_string(), None, None)
        .expect("send should succeed");
    let _events = collect_events(stream);

    let history = agent.history();
    let has_thinking = history.iter().any(|m| {
        m.role == Role::Assistant
            && m.content
                .iter()
                .any(|b| matches!(b, ContentBlock::Thinking { text, signature } if text == "partial thinking" && signature == "sig_err"))
    });
    assert!(
        has_thinking,
        "thinking should be persisted even on stream error; history: {history:?}"
    );
}

#[test]
fn thinking_with_tool_call_includes_signature_in_assistant_message() {
    let backend = SequencedBackend::new(vec![
        vec![
            Ok(StreamEvent::ThinkingDelta("let me think".to_string())),
            Ok(StreamEvent::ThinkingSignature("sig_tool".to_string())),
            Ok(StreamEvent::ToolUseStart {
                id: "t1".to_string(),
                name: "bash".to_string(),
            }),
            Ok(StreamEvent::ToolUseDelta("{}".to_string())),
            Ok(StreamEvent::ToolUseDone),
            Ok(StreamEvent::Done),
        ],
        text_response("done"),
    ]);
    let mut agent = agent_with_mode(
        backend,
        Some(Box::new(EchoTool::new("bash", "output"))),
        ConfirmationMode::Never,
    );

    let stream = agent
        .send("run".to_string(), None, None)
        .expect("send should succeed");
    let _events = collect_events(stream);

    let history = agent.history();
    let assistant_with_tool = history
        .iter()
        .find(|m| {
            m.role == Role::Assistant
                && m.content
                    .iter()
                    .any(|b| matches!(b, ContentBlock::ToolUse { .. }))
        })
        .expect("should have assistant message with tool use");

    let thinking = assistant_with_tool
        .content
        .iter()
        .find(|b| matches!(b, ContentBlock::Thinking { .. }));
    assert!(
        thinking.is_some(),
        "thinking block should be in assistant message with tool use"
    );
    if let ContentBlock::Thinking { text, signature } = thinking.expect("checked above") {
        assert_eq!(text, "let me think");
        assert_eq!(signature, "sig_tool");
    }
}

#[test]
fn compact_without_spawner_returns_error() {
    let backend = SequencedBackend::new(vec![]);
    let config = RequestConfig {
        model: "test".to_string(),
        max_tokens: 100,
        tools: vec![],
        thinking: None,
    };
    let mut agent = Rig::new(backend, config);

    let result = agent.compact();
    assert!(
        result.is_err(),
        "compact without spawner should return error"
    );
    let msg = result.unwrap_err();
    assert!(
        msg.contains("no spawner"),
        "error message should mention missing spawner, got: {msg}"
    );
}

#[test]
fn auto_compact_not_triggered_when_threshold_zero() {
    let backend = SequencedBackend::new(vec![text_with_usage_response("hello", 100_000, 50)]);
    let config = RequestConfig {
        model: "test".to_string(),
        max_tokens: 100,
        tools: vec![],
        thinking: None,
    };
    let tool_config = ToolsConfig {
        confirmation: ConfirmationMode::Never,
        ..tools_config()
    };
    let compaction_config = CompactionConfig {
        max_context_window_len: 0,
        ..compaction_config()
    };
    let mut agent = Rig::new(backend, config)
        .with_tool_config(&tool_config)
        .with_compaction_config(&compaction_config);

    let stream = agent
        .send("hi".to_string(), None, None)
        .expect("send should succeed");
    let events = collect_events(stream);

    assert!(
        events
            .iter()
            .any(|e| matches!(e, AgentEvent::ResponseComplete(_))),
        "expected ResponseComplete"
    );
    assert!(
        !events
            .iter()
            .any(|e| matches!(e, AgentEvent::AutoCompactTriggered { .. })),
        "AutoCompactTriggered should not be emitted when threshold is 0"
    );
}

#[test]
fn auto_compact_not_triggered_when_tokens_below_threshold() {
    let backend = SequencedBackend::new(vec![text_with_usage_response("hello", 40_000, 50)]);
    let config = RequestConfig {
        model: "test".to_string(),
        max_tokens: 100,
        tools: vec![],
        thinking: None,
    };
    let tool_config = ToolsConfig {
        confirmation: ConfirmationMode::Never,
        ..tools_config()
    };
    let compaction_config = CompactionConfig {
        max_context_window_len: 50_000,
        ..compaction_config()
    };
    let mut agent = Rig::new(backend, config)
        .with_tool_config(&tool_config)
        .with_compaction_config(&compaction_config);

    let stream = agent
        .send("hi".to_string(), None, None)
        .expect("send should succeed");
    let events = collect_events(stream);

    assert!(
        !events
            .iter()
            .any(|e| matches!(e, AgentEvent::AutoCompactTriggered { .. })),
        "AutoCompactTriggered should not be emitted when tokens below threshold"
    );
}

#[test]
fn auto_compact_triggered_when_tokens_exceed_threshold() {
    let backend = SequencedBackend::new(vec![text_with_usage_response("hello", 60_000, 50)]);
    let config = RequestConfig {
        model: "test".to_string(),
        max_tokens: 100,
        tools: vec![],
        thinking: None,
    };
    let tool_config = ToolsConfig {
        confirmation: ConfirmationMode::Never,
        ..tools_config()
    };
    let compaction_config = CompactionConfig {
        max_context_window_len: 50_000,
        ..compaction_config()
    };
    let mut agent = Rig::new(backend, config)
        .with_tool_config(&tool_config)
        .with_compaction_config(&compaction_config);

    let stream = agent
        .send("hi".to_string(), None, None)
        .expect("send should succeed");
    let events = collect_events(stream);

    let triggered = events
        .iter()
        .find(|e| matches!(e, AgentEvent::AutoCompactTriggered { .. }));
    assert!(
        triggered.is_some(),
        "expected AutoCompactTriggered event when tokens exceed threshold"
    );
    if let AgentEvent::AutoCompactTriggered {
        current_tokens,
        threshold,
    } = triggered.expect("checked above")
    {
        assert_eq!(
            *current_tokens, 60_000,
            "current_tokens should match input_tokens"
        );
        assert_eq!(*threshold, 50_000, "threshold should match config");
    }

    assert!(
        events
            .iter()
            .any(|e| matches!(e, AgentEvent::ResponseComplete(_))),
        "expected ResponseComplete"
    );
}

#[test]
fn auto_compact_consecutive_guard_emits_warning() {
    let combined = SequencedBackend::new(vec![
        text_with_usage_response("first", 60_000, 50),
        text_with_usage_response("second", 55_000, 50),
    ]);
    let config = RequestConfig {
        model: "test".to_string(),
        max_tokens: 100,
        tools: vec![],
        thinking: None,
    };
    let tool_config = ToolsConfig {
        confirmation: ConfirmationMode::Never,
        ..tools_config()
    };
    let compaction_config = CompactionConfig {
        max_context_window_len: 50_000,
        ..compaction_config()
    };
    let mut agent = Rig::new(combined, config)
        .with_tool_config(&tool_config)
        .with_compaction_config(&compaction_config);

    // First send: above threshold -> AutoCompactTriggered
    let stream1 = agent
        .send("hi".to_string(), None, None)
        .expect("first send should succeed");
    let events1 = collect_events(stream1);
    assert!(
        events1
            .iter()
            .any(|e| matches!(e, AgentEvent::AutoCompactTriggered { .. })),
        "first send should trigger AutoCompactTriggered"
    );

    // Second send: still above threshold -> Warn instead of AutoCompactTriggered
    let stream2 = agent
        .send("hi again".to_string(), None, None)
        .expect("second send should succeed");
    let events2 = collect_events(stream2);

    // Should NOT have AutoCompactTriggered
    assert!(
        !events2
            .iter()
            .any(|e| matches!(e, AgentEvent::AutoCompactTriggered { .. })),
        "second consecutive send above threshold should NOT trigger AutoCompactTriggered"
    );
    let warn_events: Vec<_> = events2
        .iter()
        .filter(|e| matches!(e, AgentEvent::Warn(_)))
        .collect();
    assert!(
        !warn_events.is_empty(),
        "second consecutive send above threshold should emit Warn"
    );
}

#[test]
fn auto_compact_guard_resets_when_tokens_drop_below_threshold() {
    let combined = SequencedBackend::new(vec![
        text_with_usage_response("above", 60_000, 50),
        text_with_usage_response("below", 30_000, 50),
        text_with_usage_response("above again", 60_000, 50),
    ]);
    let config = RequestConfig {
        model: "test".to_string(),
        max_tokens: 100,
        tools: vec![],
        thinking: None,
    };
    let tool_config = ToolsConfig {
        confirmation: ConfirmationMode::Never,
        ..tools_config()
    };
    let compaction_config = CompactionConfig {
        max_context_window_len: 50_000,
        ..compaction_config()
    };
    let mut agent = Rig::new(combined, config)
        .with_tool_config(&tool_config)
        .with_compaction_config(&compaction_config);

    // First send: above threshold -> AutoCompactTriggered
    let stream1 = agent
        .send("hi".to_string(), None, None)
        .expect("first send should succeed");
    let events1 = collect_events(stream1);
    assert!(
        events1
            .iter()
            .any(|e| matches!(e, AgentEvent::AutoCompactTriggered { .. })),
        "first send should trigger AutoCompactTriggered"
    );

    // Second send: below threshold -> guard resets
    let stream2 = agent
        .send("hello".to_string(), None, None)
        .expect("second send should succeed");
    let events2 = collect_events(stream2);
    assert!(
        !events2
            .iter()
            .any(|e| matches!(e, AgentEvent::AutoCompactTriggered { .. })),
        "second send below threshold should not trigger AutoCompactTriggered"
    );

    // Third send: above threshold again -> AutoCompactTriggered (guard was reset)
    let stream3 = agent
        .send("hi again".to_string(), None, None)
        .expect("third send should succeed");
    let events3 = collect_events(stream3);
    assert!(
        events3
            .iter()
            .any(|e| matches!(e, AgentEvent::AutoCompactTriggered { .. })),
        "third send above threshold should trigger AutoCompactTriggered again after guard reset"
    );
}

#[test]
fn with_compaction_config_sets_max_context_window_len() {
    let backend = SequencedBackend::new(vec![]);
    let config = RequestConfig {
        model: "test".to_string(),
        max_tokens: 100,
        tools: vec![],
        thinking: None,
    };
    let tool_config = ToolsConfig {
        confirmation: ConfirmationMode::Never,
        ..tools_config()
    };
    let compaction_config = CompactionConfig {
        max_context_window_len: 42_000,
        ..compaction_config()
    };
    let mut agent = Rig::new(backend, config)
        .with_tool_config(&tool_config)
        .with_compaction_config(&compaction_config);
    assert_eq!(
        agent.max_context_window_len_for_test(),
        42_000,
        "max_context_window_len should be set from compaction_config"
    );
}

#[test]
fn auto_compact_triggers_on_tool_use_turn() {
    // First turn: tool call with high input_tokens.
    // Second turn: text-only response (triggers after loop iteration).
    // The tool-use turn should emit AutoCompactTriggered before the loop
    // continues to the second iteration.
    let combined = SequencedBackend::new(vec![
        vec![
            Ok(StreamEvent::ToolUseStart {
                id: "t1".to_string(),
                name: "bash".to_string(),
            }),
            Ok(StreamEvent::ToolUseDelta("{}".to_string())),
            Ok(StreamEvent::ToolUseDone),
            Ok(StreamEvent::Usage {
                input_tokens: 60_000,
                output_tokens: 100,
                stop_reason: "end_turn".to_string(),
            }),
            Ok(StreamEvent::Done),
        ],
        text_response("done"),
    ]);
    let config = RequestConfig {
        model: "test".to_string(),
        max_tokens: 100,
        tools: vec![],
        thinking: None,
    };
    let mut registry = Tools::new();
    registry
        .register(Box::new(EchoTool::new("bash", "output")))
        .expect("register");
    let tool_config = ToolsConfig {
        confirmation: ConfirmationMode::Never,
        ..tools_config()
    };
    let compaction_config = CompactionConfig {
        max_context_window_len: 50_000,
        ..compaction_config()
    };
    let mut agent = Rig::new(combined, config)
        .with_tools(registry)
        .with_tool_config(&tool_config)
        .with_compaction_config(&compaction_config);

    let stream = agent
        .send("run".to_string(), None, None)
        .expect("send should succeed");
    let events = collect_events(stream);

    // Must see AutoCompactTriggered even though the first turn had tool calls.
    assert!(
        events
            .iter()
            .any(|e| matches!(e, AgentEvent::AutoCompactTriggered { .. })),
        "AutoCompactTriggered should be emitted on tool-use turns"
    );
}

#[test]
fn load_session_resets_auto_compact_flag() {
    let backend = SequencedBackend::new(vec![text_with_usage_response("hi", 60_000, 50)]);
    let config = RequestConfig {
        model: "test".to_string(),
        max_tokens: 100,
        tools: vec![],
        thinking: None,
    };
    let tool_config = ToolsConfig {
        confirmation: ConfirmationMode::Never,
        ..tools_config()
    };
    let compaction_config = CompactionConfig {
        max_context_window_len: 50_000,
        ..compaction_config()
    };
    let mut agent = Rig::new(backend, config)
        .with_tool_config(&tool_config)
        .with_compaction_config(&compaction_config);

    // Trigger auto-compact to set the flag
    let stream = agent
        .send("hi".to_string(), None, None)
        .expect("send should succeed");
    let _events = collect_events(stream);
    assert!(
        agent.agent.last_auto_compacted,
        "flag should be set after AutoCompactTriggered"
    );

    // Load a new session — should reset the flag
    agent.agent.load_session(vec![]);
    assert!(
        !agent.agent.last_auto_compacted,
        "flag should be reset after load_session"
    );
}

#[test]
fn auto_compact_uses_peak_input_tokens_not_sum() {
    // Simulate two Usage events in one response (can happen with tool-use turns).
    // Both report the total context size (~12k), but the peak is 12k, not 24k.
    let combined = SequencedBackend::new(vec![vec![
        Ok(StreamEvent::TextDelta("hello".to_string())),
        Ok(StreamEvent::Usage {
            input_tokens: 12_000,
            output_tokens: 50,
            stop_reason: "end_turn".to_string(),
        }),
        // Second Usage event (some backends send a final summary)
        Ok(StreamEvent::Usage {
            input_tokens: 12_800,
            output_tokens: 50,
            stop_reason: "end_turn".to_string(),
        }),
        Ok(StreamEvent::Done),
    ]]);
    let config = RequestConfig {
        model: "test".to_string(),
        max_tokens: 100,
        tools: vec![],
        thinking: None,
    };
    let tool_config = ToolsConfig {
        confirmation: ConfirmationMode::Never,
        ..tools_config()
    };
    let compaction_config = CompactionConfig {
        max_context_window_len: 15_000,
        ..compaction_config()
    };
    let mut agent = Rig::new(combined, config)
        .with_tool_config(&tool_config)
        .with_compaction_config(&compaction_config);

    let stream = agent
        .send("hi".to_string(), None, None)
        .expect("send should succeed");
    let events = collect_events(stream);

    // Peak is 12800, which is below 15000, so auto-compact should NOT trigger.
    assert!(
        !events
            .iter()
            .any(|e| matches!(e, AgentEvent::AutoCompactTriggered { .. })),
        "AutoCompactTriggered should not be emitted when peak (12800) is below threshold (15000)"
    );
}

#[test]
fn record_synthetic_tool_call_appends_pair_to_history() {
    let backend = SequencedBackend::new(vec![]);
    let config = RequestConfig {
        model: "test".to_string(),
        max_tokens: 100,
        tools: vec![],
        thinking: None,
    };
    let mut agent = Rig::new(backend, config);
    let initial_len = agent.history().len();

    agent
        .record_synthetic_tool_call(
            "user-bash-abc123".to_string(),
            "echo hello".to_string(),
            "hello\n".to_string(),
            false,
        )
        .expect("record should succeed");

    let history = agent.history();
    assert_eq!(
        history.len(),
        initial_len + 2,
        "should add exactly 2 messages"
    );

    let assistant_msg = &history[initial_len];
    assert_eq!(assistant_msg.role, Role::Assistant);
    assert!(
        matches!(&assistant_msg.content[0], ContentBlock::ToolUse { id, name, .. } if id == "user-bash-abc123" && name == "bash"),
        "first message should be ToolUse with matching id and name=bash"
    );

    let user_msg = &history[initial_len + 1];
    assert_eq!(user_msg.role, Role::User);
    assert!(
        matches!(&user_msg.content[0], ContentBlock::ToolResult { tool_use_id, .. } if tool_use_id == "user-bash-abc123"),
        "second message should be ToolResult with matching tool_use_id"
    );
}

#[test]
fn record_synthetic_tool_call_applies_truncation() {
    let backend = SequencedBackend::new(vec![]);
    let config = RequestConfig {
        model: "test".to_string(),
        max_tokens: 100,
        tools: vec![],
        thinking: None,
    };
    let tool_config = ToolsConfig {
        confirmation: ConfirmationMode::Never,
        max_tool_result_bytes: 200,
        ..tools_config()
    };
    let mut agent = Rig::new(backend, config)
        .with_tool_config(&tool_config);

    let large_content = "x".repeat(10_000);
    agent
        .record_synthetic_tool_call(
            "user-bash-trunc".to_string(),
            "cat big_file".to_string(),
            large_content.clone(),
            false,
        )
        .expect("record should succeed");

    let history = agent.history();
    let user_msg = history.last().expect("should have user message");
    if let ContentBlock::ToolResult { content, .. } = &user_msg.content[0] {
        assert!(
            content.len() <= 200,
            "in-history content should be truncated to ≤ 200 bytes"
        );
        assert!(
            content.contains("[... output truncated:"),
            "should contain truncation sentinel"
        );
    } else {
        panic!("last message should be ToolResult");
    }
}

#[test]
fn record_synthetic_tool_call_with_is_error_true_marks_block() {
    let backend = SequencedBackend::new(vec![]);
    let config = RequestConfig {
        model: "test".to_string(),
        max_tokens: 100,
        tools: vec![],
        thinking: None,
    };
    let mut agent = Rig::new(backend, config);

    agent
        .record_synthetic_tool_call(
            "user-bash-err".to_string(),
            "exit 1".to_string(),
            "error output".to_string(),
            true,
        )
        .expect("record should succeed");

    let history = agent.history();
    let user_msg = history.last().expect("should have user message");
    if let ContentBlock::ToolResult { is_error, .. } = &user_msg.content[0] {
        assert!(*is_error, "is_error should be true");
    } else {
        panic!("last message should be ToolResult");
    }
}

#[test]
fn record_synthetic_tool_call_full_content_in_event_truncated_in_history() {
    let backend = SequencedBackend::new(vec![]);
    let config = RequestConfig {
        model: "test".to_string(),
        max_tokens: 100,
        tools: vec![],
        thinking: None,
    };
    let tool_config = ToolsConfig {
        confirmation: ConfirmationMode::Never,
        max_tool_result_bytes: 200,
        ..tools_config()
    };
    let mut agent = Rig::new(backend, config)
        .with_tool_config(&tool_config);

    let large_content = "y".repeat(500);

    agent
        .record_synthetic_tool_call(
            "user-bash-ac5".to_string(),
            "cat bigfile".to_string(),
            large_content.clone(),
            false,
        )
        .expect("record should succeed");

    // The in-history ToolResult must be truncated
    let history = agent.history();
    let user_msg = history.last().expect("should have user message");
    if let ContentBlock::ToolResult { content, .. } = &user_msg.content[0] {
        assert!(
            content.len() <= 200,
            "in-history ToolResult should be truncated to ≤ 200 bytes, got {}",
            content.len()
        );
        assert!(
            content.contains("[... output truncated:"),
            "truncated content should contain sentinel"
        );
    } else {
        panic!("last message should be ToolResult");
    }

    // The caller (BashCommand) is responsible for sending the untruncated content
    // to the TUI — the record method itself only stores (truncated) content.
    // What we can assert here: the original large_content was preserved by the
    // method as-is (i.e. record_synthetic_tool_call received it correctly and
    // only truncates what it stores, not the caller's copy).
    assert_eq!(
        large_content.len(),
        500,
        "original content reference must be unchanged (method must not mutate caller's copy)"
    );
}

#[test]
fn chat_mode_defaults_to_off() {
    let backend = SequencedBackend::new(vec![]);
    let config = RequestConfig {
        model: "test".to_string(),
        max_tokens: 100,
        tools: vec![],
        thinking: None,
    };
    let mut agent = Rig::new(backend, config);
    assert!(!agent.is_chat_mode());
}

#[test]
fn set_chat_mode_toggles_state() {
    let backend = SequencedBackend::new(vec![]);
    let config = RequestConfig {
        model: "test".to_string(),
        max_tokens: 100,
        tools: vec![],
        thinking: None,
    };
    let mut agent = Rig::new(backend, config);
    agent.set_chat_mode(true);
    assert!(agent.is_chat_mode());
    agent.set_chat_mode(false);
    assert!(!agent.is_chat_mode());
}

#[test]
fn chat_mode_rejects_write_tool_execution() {
    let backend = SequencedBackend::new(vec![
        vec![
            Ok(StreamEvent::ToolUseStart {
                id: "t1".to_string(),
                name: "edit_file".to_string(),
            }),
            Ok(StreamEvent::ToolUseDelta(
                r#"{"path":"x","old_string":"a","new_string":"b"}"#.to_string(),
            )),
            Ok(StreamEvent::ToolUseDone),
            Ok(StreamEvent::Usage {
                input_tokens: 100,
                output_tokens: 50,
                stop_reason: "end_turn".to_string(),
            }),
            Ok(StreamEvent::Done),
        ],
        text_response("done"),
    ]);
    let mut registry = Tools::new();
    registry
        .register(Box::new(EchoTool::write_tool("edit_file", "Edit tool")))
        .expect("register");
    let tool_config = ToolsConfig {
        confirmation: ConfirmationMode::Never,
        ..tools_config()
    };
    let config = RequestConfig {
        model: "test".to_string(),
        max_tokens: 100,
        tools: vec![],
        thinking: None,
    };
    let mut agent = Rig::new(backend, config)
        .with_tools(registry)
        .with_tool_config(&tool_config);
    agent.set_chat_mode(true);
    let stream = agent
        .send("edit something".to_string(), None, None)
        .expect("send");
    let events = collect_events(stream);
    let tool_result = events
        .iter()
        .find(|e| matches!(e, AgentEvent::ToolResult { .. }));
    assert!(tool_result.is_some(), "should have a tool result");
    if let AgentEvent::ToolResult {
        content, is_error, ..
    } = tool_result.expect("checked")
    {
        assert!(*is_error, "write tool should be rejected in chat mode");
        assert!(
            content.contains("chat mode"),
            "error should mention chat mode"
        );
    }
}

#[test]
fn chat_mode_allows_bash_tool_through_execution() {
    // Bash is NOT excluded from tool definitions in chat mode — it remains
    // available but restricted to read-only commands at execution time by BashTool.
    // At the agent layer, bash calls pass through normally.
    let backend = SequencedBackend::new(vec![
        vec![
            Ok(StreamEvent::ToolUseStart {
                id: "t1".to_string(),
                name: "bash".to_string(),
            }),
            Ok(StreamEvent::ToolUseDelta(r#"{"command":"ls"}"#.to_string())),
            Ok(StreamEvent::ToolUseDone),
            Ok(StreamEvent::Usage {
                input_tokens: 100,
                output_tokens: 50,
                stop_reason: "end_turn".to_string(),
            }),
            Ok(StreamEvent::Done),
        ],
        text_response("done"),
    ]);
    let mut registry = Tools::new();
    registry
        .register(Box::new(EchoTool::new("bash", "Bash tool")))
        .expect("register");
    let tool_config = ToolsConfig {
        confirmation: ConfirmationMode::Never,
        ..tools_config()
    };
    let config = RequestConfig {
        model: "test".to_string(),
        max_tokens: 100,
        tools: vec![],
        thinking: None,
    };
    let mut agent = Rig::new(backend, config)
        .with_tools(registry)
        .with_tool_config(&tool_config);
    agent.set_chat_mode(true);
    let stream = agent
        .send("run ls".to_string(), None, None)
        .expect("send");
    let events = collect_events(stream);
    // EchoTool succeeds, so bash should NOT be rejected at the agent layer
    let tool_result = events
        .iter()
        .find(|e| matches!(e, AgentEvent::ToolResult { .. }));
    assert!(tool_result.is_some(), "should have a tool result");
    if let AgentEvent::ToolResult {
        content, is_error, ..
    } = tool_result.expect("checked")
    {
        assert!(
            !*is_error,
            "bash should not be rejected by ChatModeRejected — restriction is at BashTool level"
        );
        assert!(
            content.contains("Bash tool"),
            "EchoTool should echo its output"
        );
    }
}

#[test]
fn chat_mode_rejects_write_file_tool_execution() {
    let backend = SequencedBackend::new(vec![
        vec![
            Ok(StreamEvent::ToolUseStart {
                id: "t1".to_string(),
                name: "write_file".to_string(),
            }),
            Ok(StreamEvent::ToolUseDelta(
                r#"{"path":"x","content":"hello"}"#.to_string(),
            )),
            Ok(StreamEvent::ToolUseDone),
            Ok(StreamEvent::Usage {
                input_tokens: 100,
                output_tokens: 50,
                stop_reason: "end_turn".to_string(),
            }),
            Ok(StreamEvent::Done),
        ],
        text_response("done"),
    ]);
    let mut registry = Tools::new();
    registry
        .register(Box::new(EchoTool::write_tool("write_file", "Write tool")))
        .expect("register");
    let tool_config = ToolsConfig {
        confirmation: ConfirmationMode::Never,
        ..tools_config()
    };
    let config = RequestConfig {
        model: "test".to_string(),
        max_tokens: 100,
        tools: vec![],
        thinking: None,
    };
    let mut agent = Rig::new(backend, config)
        .with_tools(registry)
        .with_tool_config(&tool_config);
    agent.set_chat_mode(true);
    let stream = agent
        .send("write file".to_string(), None, None)
        .expect("send");
    let events = collect_events(stream);
    let tool_result = events
        .iter()
        .find(|e| matches!(e, AgentEvent::ToolResult { .. }));
    assert!(tool_result.is_some(), "should have a tool result");
    if let AgentEvent::ToolResult {
        content, is_error, ..
    } = tool_result.expect("checked")
    {
        assert!(*is_error, "write_file tool should be rejected in chat mode");
        assert!(
            content.contains("chat mode"),
            "error should mention chat mode"
        );
    }
}

#[test]
fn max_tokens_error_retries_within_budget() {
    let backend = SequencedBackend::new(vec![
        max_tokens_error_stream("partial"),
        text_response("complete"),
    ]);
    let mut agent = agent_with_mode(backend, None, ConfirmationMode::Never)
        .with_retry_config(&RetryConfig {
            max_token_retries: 3,
            ..retry_config()
        });

    let stream = agent
        .send("hi".to_string(), None, None)
        .expect("send should succeed");
    let events = collect_events(stream);

    assert!(
        events.iter().any(|e| matches!(e, AgentEvent::Retrying(_))),
        "should emit Retrying for first attempt"
    );
    assert!(
        !events.iter().any(|e| matches!(e, AgentEvent::Error(_))),
        "should not emit Error when retry succeeds; got {events:?}"
    );
    assert!(
        events
            .iter()
            .any(|e| matches!(e, AgentEvent::TokenReceived(t) if t == "complete")),
        "should emit TokenReceived for retry"
    );
    assert!(
        events
            .iter()
            .any(|e| matches!(e, AgentEvent::ResponseComplete(t) if t == "complete")),
        "should emit ResponseComplete for retry"
    );

    let history = agent.history();
    assert!(
        history.iter().any(|m| m.role == Role::Assistant
            && m.content
                .iter()
                .any(|b| matches!(b, ContentBlock::Text(t) if t == "partial"))),
        "partial text must be persisted in history"
    );
    assert!(
        history.iter().any(|m| m.role == Role::User
            && m.content
                .iter()
                .any(|b| matches!(b, ContentBlock::Text(t) if t.contains("[ERROR]")))),
        "error message must be in history"
    );
    assert!(
        history.iter().any(|m| m.role == Role::Assistant
            && m.content
                .iter()
                .any(|b| matches!(b, ContentBlock::Text(t) if t == "complete"))),
        "successful retry response must be in history"
    );
}

#[test]
fn max_tokens_error_exhausts_retries_then_breaks() {
    let backend = SequencedBackend::new(vec![
        max_tokens_error_stream("partial1"),
        max_tokens_error_stream("partial2"),
        max_tokens_error_stream("partial3"),
        max_tokens_error_stream("partial4"),
    ]);
    let mut agent = agent_with_mode(backend, None, ConfirmationMode::Never)
        .with_retry_config(&RetryConfig {
            max_token_retries: 2,
            ..retry_config()
        });

    let stream = agent
        .send("hi".to_string(), None, None)
        .expect("send should succeed");
    let events = collect_events(stream);

    let error_count = events
        .iter()
        .filter(|e| matches!(e, AgentEvent::Error(_)))
        .count();
    let retrying_count = events
        .iter()
        .filter(|e| matches!(e, AgentEvent::Retrying(_)))
        .count();
    assert_eq!(
        retrying_count, 2,
        "should have 2 Retrying events (2 retries within budget); got {retrying_count}"
    );
    assert_eq!(
        error_count, 1,
        "should have 1 Error event (final exhausted attempt); got {error_count}"
    );
    assert!(
        !events
            .iter()
            .any(|e| matches!(e, AgentEvent::ResponseComplete(_))),
        "should not emit ResponseComplete when retries exhausted"
    );
}

#[test]
fn stealth_max_tokens_triggers_retry_not_empty_response() {
    let stealth_response: Vec<Result<StreamEvent, Error>> = vec![
        Ok(StreamEvent::Usage {
            input_tokens: 50,
            output_tokens: 100,
            stop_reason: "stop".to_string(),
        }),
        Ok(StreamEvent::Done),
    ];
    let backend = SequencedBackend::new(vec![stealth_response, text_response("recovered")]);
    let mut agent = agent_with_mode(backend, None, ConfirmationMode::Never)
        .with_retry_config(&RetryConfig {
            max_token_retries: 3,
            ..retry_config()
        });

    let stream = agent
        .send("hi".to_string(), None, None)
        .expect("send should succeed");
    let events = collect_events(stream);

    assert!(
        events.iter().any(|e| matches!(e, AgentEvent::Retrying(_))),
        "should emit Retrying for stealth max-tokens; got {events:?}"
    );
    assert!(
        !events.iter().any(|e| matches!(e, AgentEvent::Error(_))),
        "should not emit Error when retry succeeds; got {events:?}"
    );
    assert!(
        events
            .iter()
            .any(|e| matches!(e, AgentEvent::ResponseComplete(t) if t == "recovered")),
        "should emit ResponseComplete after retry; got {events:?}"
    );

    let history = agent.history();
    assert!(
        history.iter().any(|m| m.role == Role::User
            && m.content
                .iter()
                .any(|b| matches!(b, ContentBlock::Text(t) if t.contains("[ERROR]")))),
        "error message must be injected into history"
    );
}

#[test]
fn legitimate_empty_response_does_not_trigger_retry() {
    let empty_response: Vec<Result<StreamEvent, Error>> = vec![
        Ok(StreamEvent::Usage {
            input_tokens: 50,
            output_tokens: 5,
            stop_reason: "stop".to_string(),
        }),
        Ok(StreamEvent::Done),
    ];
    let backend =
        SequencedBackend::new(vec![empty_response, text_response("should not reach")]);
    let mut agent = agent_with_mode(backend, None, ConfirmationMode::Never)
        .with_retry_config(&RetryConfig {
            max_token_retries: 3,
            ..retry_config()
        });

    let stream = agent
        .send("hi".to_string(), None, None)
        .expect("send should succeed");
    let events = collect_events(stream);

    assert!(
        events
            .iter()
            .any(|e| matches!(e, AgentEvent::ResponseComplete(t) if t.is_empty())),
        "should emit ResponseComplete with empty text; got {events:?}"
    );
    assert!(
        !events.iter().any(|e| matches!(e, AgentEvent::Error(_))),
        "should not emit Error for legitimate empty response; got {events:?}"
    );
}

#[test]
fn stealth_max_tokens_exhausts_retries_then_emits_empty_response() {
    fn stealth_response() -> Vec<Result<StreamEvent, Error>> {
        vec![
            Ok(StreamEvent::Usage {
                input_tokens: 50,
                output_tokens: 100,
                stop_reason: "stop".to_string(),
            }),
            Ok(StreamEvent::Done),
        ]
    }
    let backend = SequencedBackend::new(vec![
        stealth_response(),
        stealth_response(),
        stealth_response(),
    ]);
    let mut agent = agent_with_mode(backend, None, ConfirmationMode::Never)
        .with_retry_config(&RetryConfig {
            max_token_retries: 2,
            ..retry_config()
        });

    let stream = agent
        .send("hi".to_string(), None, None)
        .expect("send should succeed");
    let events = collect_events(stream);

    let error_count = events
        .iter()
        .filter(|e| matches!(e, AgentEvent::Error(_)))
        .count();
    let retrying_count = events
        .iter()
        .filter(|e| matches!(e, AgentEvent::Retrying(_)))
        .count();
    assert_eq!(
        retrying_count, 2,
        "should have 2 Retrying events (1 initial + 1 retry within budget); got {retrying_count}"
    );
    assert_eq!(
        error_count, 0,
        "should have 0 Error events (stealth exhaustion falls through to empty response); got {error_count}"
    );
    assert!(
        events
            .iter()
            .any(|e| matches!(e, AgentEvent::ResponseComplete(t) if t.is_empty())),
        "should emit ResponseComplete(\"\") after exhausting retries; got {events:?}"
    );
}

#[test]
fn non_max_tokens_error_breaks_immediately() {
    let backend = SequencedBackend::new(vec![
        vec![Err(Error::Backend(BackendError::Other(
            "something went wrong".to_string(),
        )))],
        text_response("should not reach"),
    ]);
    let mut agent = agent_with_mode(backend, None, ConfirmationMode::Never)
        .with_retry_config(&RetryConfig {
            max_token_retries: 3,
            ..retry_config()
        });

    let stream = agent
        .send("hi".to_string(), None, None)
        .expect("send should succeed");
    let events = collect_events(stream);

    assert!(
        events.iter().any(
            |e| matches!(e, AgentEvent::Error(msg) if msg.contains("something went wrong"))
        ),
        "should emit the original error"
    );
    assert!(
        !events
            .iter()
            .any(|e| matches!(e, AgentEvent::ResponseComplete(_))),
        "should not retry for non-MaxTokensExceeded errors"
    );
}

#[test]
fn max_tokens_error_with_tool_calls_in_progress() {
    let backend = SequencedBackend::new(vec![
        vec![
            Ok(StreamEvent::TextDelta("partial".to_string())),
            Ok(StreamEvent::ToolUseStart {
                id: "t1".to_string(),
                name: "bash".to_string(),
            }),
            Ok(StreamEvent::ToolUseDelta(r#"{"command":"ls"}"#.to_string())),
            Ok(StreamEvent::ToolUseDone),
            Err(Error::Backend(BackendError::MaxTokensExceeded {
                input_tokens: 100,
                output_tokens: 200,
            })),
        ],
        text_response("recovered"),
    ]);
    let mut agent = agent_with_mode(backend, None, ConfirmationMode::Never)
        .with_retry_config(&RetryConfig {
            max_token_retries: 3,
            ..retry_config()
        });

    let stream = agent
        .send("hi".to_string(), None, None)
        .expect("send should succeed");
    let events = collect_events(stream);

    assert!(
        events
            .iter()
            .any(|e| matches!(e, AgentEvent::ResponseComplete(t) if t == "recovered")),
        "should recover after retry with in-progress tool calls"
    );
    let history = agent.history();
    assert!(
        history.iter().any(|m| m.role == Role::Assistant
            && m.content
                .iter()
                .any(|b| matches!(b, ContentBlock::Text(t) if t == "partial"))),
        "partial text must be persisted before the error"
    );
}

#[test]
fn max_tokens_retry_counter_separate_from_iterations() {
    let backend = SequencedBackend::new(vec![
        max_tokens_error_stream("p1"),
        max_tokens_error_stream("p2"),
        max_tokens_error_stream("p3"),
        max_tokens_error_stream("p4"),
        max_tokens_error_stream("p5"),
        max_tokens_error_stream("p6"),
        text_response("should not reach"),
    ]);
    let mut agent = Rig::new(backend, RequestConfig {
            model: "test".to_string(),
            max_tokens: 100,
            tools: vec![],
            thinking: None,
        })
    .with_tool_config(&ToolsConfig {
        confirmation: ConfirmationMode::Never,
        max_tool_iterations: 3,
        ..tools_config()
    })
    .with_retry_config(&RetryConfig {
        max_token_retries: 5,
        max_retries: 3,
        ..retry_config()
    });

    let stream = agent
        .send("hi".to_string(), None, None)
        .expect("send should succeed");
    let events = collect_events(stream);

    // max_token_retries=5 allows 5 retries (attempts 2-6).
    // Attempt 1 (initial) → Retrying → retry 1 (retries_used=1)
    // Attempt 2 (retry 1) → Retrying → retry 2 (retries_used=2)
    // Attempt 3 (retry 2) → Retrying → retry 3 (retries_used=3)
    // Attempt 4 (retry 3) → Retrying → retry 4 (retries_used=4)
    // Attempt 5 (retry 4) → Retrying → retry 5 (retries_used=5)
    // Attempt 6 (retry 5) → Error → 5 < 5 is false → break
    // Total: 5 Retrying + 1 Error, no success
    // Crucially: max_tool_iterations=3, but all 6 attempts succeed because
    // max_tokens retries don't consume the iterations budget.
    let error_count = events
        .iter()
        .filter(|e| matches!(e, AgentEvent::Error(_)))
        .count();
    let retrying_count = events
        .iter()
        .filter(|e| matches!(e, AgentEvent::Retrying(_)))
        .count();
    assert_eq!(
        retrying_count, 5,
        "should have 5 Retrying events (attempts 1-5, all within budget); got {retrying_count}"
    );
    assert_eq!(
        error_count, 1,
        "should have 1 Error event (final exhausted attempt); got {error_count}"
    );
    assert!(
        !events
            .iter()
            .any(|e| matches!(e, AgentEvent::ResponseComplete(_))),
        "should not reach success when budget exhausted"
    );
    assert!(
        !events.iter().any(|e| {
            matches!(e, AgentEvent::Error(msg) if msg.contains("Max tool iterations"))
        }),
        "max_tokens retries must NOT consume max_tool_iterations budget (which is 3)"
    );
}

#[test]
fn max_tokens_error_with_zero_retries() {
    let backend = SequencedBackend::new(vec![
        max_tokens_error_stream("partial"),
        text_response("should not reach"),
    ]);
    let mut agent = agent_with_mode(backend, None, ConfirmationMode::Never)
        .with_retry_config(&RetryConfig {
            max_token_retries: 0,
            ..retry_config()
        });

    let stream = agent
        .send("hi".to_string(), None, None)
        .expect("send should succeed");
    let events = collect_events(stream);

    let error_count = events
        .iter()
        .filter(|e| matches!(e, AgentEvent::Error(_)))
        .count();
    assert_eq!(
        error_count, 1,
        "should have exactly 1 error event with zero retries; got {error_count}"
    );
    assert!(
        !events
            .iter()
            .any(|e| matches!(e, AgentEvent::ResponseComplete(_))),
        "should not emit ResponseComplete when max_token_retries=0"
    );
    assert!(
        events
            .iter()
            .any(|e| matches!(e, AgentEvent::TokenReceived(t) if t == "partial")),
        "partial text tokens emitted before the error should still arrive"
    );
}

#[test]
fn max_tokens_error_with_usage_event_before_error() {
    let backend = SequencedBackend::new(vec![
        vec![
            Ok(StreamEvent::TextDelta("partial".to_string())),
            Ok(StreamEvent::Usage {
                input_tokens: 150,
                output_tokens: 200,
                stop_reason: "max_tokens".to_string(),
            }),
            Err(Error::Backend(BackendError::MaxTokensExceeded {
                input_tokens: 150,
                output_tokens: 200,
            })),
        ],
        text_response("recovered"),
    ]);
    let mut agent = agent_with_mode(backend, None, ConfirmationMode::Never)
        .with_retry_config(&RetryConfig {
            max_token_retries: 3,
            ..retry_config()
        });

    let stream = agent
        .send("hi".to_string(), None, None)
        .expect("send should succeed");
    let events = collect_events(stream);

    let usage_idx = events
        .iter()
        .position(|e| matches!(e, AgentEvent::Usage { .. }));
    let error_idx = events
        .iter()
        .position(|e| matches!(e, AgentEvent::Retrying(_)));

    assert!(usage_idx.is_some(), "should emit Usage event before error");
    assert!(error_idx.is_some(), "should emit Retrying event");
    if let (Some(ui), Some(ei)) = (usage_idx, error_idx) {
        assert!(
            ui < ei,
            "Usage event must come before Retrying event; got usage at {ui}, retrying at {ei}"
        );
    }

    if let Some(AgentEvent::Usage {
        input_tokens,
        output_tokens,
        ..
    }) = events
        .iter()
        .find(|e| matches!(e, AgentEvent::Usage { .. }))
    {
        assert_eq!(*input_tokens, 150);
        assert_eq!(*output_tokens, 200);
    }

    assert!(
        events
            .iter()
            .any(|e| matches!(e, AgentEvent::ResponseComplete(t) if t == "recovered")),
        "should recover after retry"
    );
}

#[test]
fn max_tokens_error_with_tool_calls_verifies_history() {
    let backend = SequencedBackend::new(vec![
        vec![
            Ok(StreamEvent::TextDelta("partial".to_string())),
            Ok(StreamEvent::ToolUseStart {
                id: "t1".to_string(),
                name: "bash".to_string(),
            }),
            Ok(StreamEvent::ToolUseDelta(r#"{"command":"ls"}"#.to_string())),
            Ok(StreamEvent::ToolUseDone),
            Err(Error::Backend(BackendError::MaxTokensExceeded {
                input_tokens: 100,
                output_tokens: 200,
            })),
        ],
        text_response("recovered"),
    ]);
    let mut agent = agent_with_mode(
        backend,
        Some(Box::new(EchoTool::new("bash", "ls output"))),
        ConfirmationMode::Never,
    )
    .with_retry_config(&RetryConfig {
        max_token_retries: 3,
        ..retry_config()
    });

    let stream = agent
        .send("hi".to_string(), None, None)
        .expect("send should succeed");
    let events = collect_events(stream);

    assert!(
        events
            .iter()
            .any(|e| matches!(e, AgentEvent::ResponseComplete(t) if t == "recovered")),
        "should recover after retry with in-progress tool calls"
    );

    let history = agent.history();

    assert!(
        history.iter().any(|m| m.role == Role::Assistant
            && m.content
                .iter()
                .any(|b| matches!(b, ContentBlock::Text(t) if t == "partial"))),
        "partial text must be persisted before the error"
    );

    assert!(
        !history.iter().any(|m| m.role == Role::Assistant
            && m.content.iter().any(|b| matches!(
                b,
                ContentBlock::ToolUse { id, name, .. }
                    if id == "t1" && name == "bash"
            ))),
        "ToolUse block must NOT be in history — error fires before tool execution"
    );

    assert!(
        !history.iter().any(|m| m.role == Role::User
            && m.content
                .iter()
                .any(|b| matches!(b, ContentBlock::ToolResult { tool_use_id, .. } if tool_use_id == "t1"))),
        "ToolResult must NOT be in history — tool was not executed"
    );

    assert!(
        history.iter().any(|m| m.role == Role::User
            && m.content
                .iter()
                .any(|b| matches!(b, ContentBlock::Text(t) if t.contains("[ERROR]")))),
        "error message must be injected into history"
    );
}

#[test]
fn retry_emits_retrying_not_error() {
    let backend = SequencedBackend::new(vec![
        max_tokens_error_stream("partial"),
        text_response("recovered"),
    ]);
    let mut agent = agent_with_mode(backend, None, ConfirmationMode::Never)
        .with_retry_config(&RetryConfig {
            max_token_retries: 3,
            ..retry_config()
        });

    let stream = agent
        .send("hi".to_string(), None, None)
        .expect("send should succeed");
    let events = collect_events(stream);

    let retrying_idx = events
        .iter()
        .position(|e| matches!(e, AgentEvent::Retrying(_)));
    let token_idx = events
        .iter()
        .position(|e| matches!(e, AgentEvent::TokenReceived(t) if t == "recovered"));
    let complete_idx = events
        .iter()
        .position(|e| matches!(e, AgentEvent::ResponseComplete(t) if t == "recovered"));

    assert!(
        retrying_idx.is_some(),
        "should emit Retrying as the first retry signal; got {events:?}"
    );
    assert!(
        token_idx.is_some(),
        "should emit TokenReceived for retry response"
    );
    assert!(
        complete_idx.is_some(),
        "should emit ResponseComplete for retry response"
    );
    assert!(
        !events.iter().any(|e| matches!(e, AgentEvent::Error(_))),
        "should not emit Error when retry succeeds; got {events:?}"
    );
    if let (Some(ri), Some(ti)) = (retrying_idx, token_idx) {
        assert!(
            ri < ti,
            "Retrying must come before retry TokenReceived; got retrying at {ri}, token at {ti}"
        );
    }
}

#[test]
fn refusal_emits_error_without_history_injection() {
    let backend =
        SequencedBackend::new(vec![vec![Err(Error::Backend(BackendError::Refusal))]]);
    let mut agent = agent_with_mode(backend, None, ConfirmationMode::Never);

    let stream = agent
        .send("hi".to_string(), None, None)
        .expect("send should succeed");
    let events = collect_events(stream);

    assert!(
        events
            .iter()
            .any(|e| matches!(e, AgentEvent::Error(msg) if msg.contains("refused"))),
        "should emit Error with informative message; got {events:?}"
    );

    let history = agent.history();
    assert!(
        !history.iter().any(|m| m.role == Role::User
            && m.content
                .iter()
                .any(|b| matches!(b, ContentBlock::Text(t) if t.contains("[ERROR]")))),
        "history must NOT contain [ERROR] user message for refusal; got {history:?}"
    );
}

#[test]
fn refusal_with_partial_text_persists_text() {
    let backend = SequencedBackend::new(vec![vec![
        Ok(StreamEvent::TextDelta("partial".to_string())),
        Err(Error::Backend(BackendError::Refusal)),
    ]]);
    let mut agent = agent_with_mode(backend, None, ConfirmationMode::Never);

    let stream = agent
        .send("hi".to_string(), None, None)
        .expect("send should succeed");
    let events = collect_events(stream);

    assert!(
        events
            .iter()
            .any(|e| matches!(e, AgentEvent::TokenReceived(t) if t == "partial")),
        "should emit TokenReceived for partial text; got {events:?}"
    );
    assert!(
        events
            .iter()
            .any(|e| matches!(e, AgentEvent::Error(msg) if msg.contains("refused"))),
        "should emit Error with informative message; got {events:?}"
    );

    let history = agent.history();
    assert!(
        history.iter().any(|m| m.role == Role::Assistant
            && m.content
                .iter()
                .any(|b| matches!(b, ContentBlock::Text(t) if t == "partial"))),
        "partial text must be persisted in history; got {history:?}"
    );
    assert!(
        !history.iter().any(|m| m.role == Role::User
            && m.content
                .iter()
                .any(|b| matches!(b, ContentBlock::Text(t) if t.contains("[ERROR]")))),
        "history must NOT contain [ERROR] user message for refusal; got {history:?}"
    );
}

#[test]
fn refusal_terminates_loop_no_extra_iterations() {
    let backend = SequencedBackend::new(vec![
        vec![Err(Error::Backend(BackendError::Refusal))],
        text_response("should not be reached"),
    ]);
    let mut agent = agent_with_mode(backend, None, ConfirmationMode::Never);

    let stream = agent
        .send("hi".to_string(), None, None)
        .expect("send should succeed");
    let events = collect_events(stream);

    assert!(
        events
            .iter()
            .any(|e| matches!(e, AgentEvent::Error(msg) if msg.contains("refused"))),
        "should emit Error with informative message; got {events:?}"
    );
    assert!(
        !events
            .iter()
            .any(|e| matches!(e, AgentEvent::TokenReceived(t) if t == "should not be reached")),
        "should not consume second response vector; got {events:?}"
    );
    assert!(
        !events
            .iter()
            .any(|e| matches!(e, AgentEvent::ResponseComplete(_))),
        "should not emit ResponseComplete; got {events:?}"
    );
    assert!(
        !events.iter().any(|e| matches!(e, AgentEvent::Retrying(_))),
        "should not emit Retrying for refusal; got {events:?}"
    );

    let history = agent.history();
    assert!(
        !history.iter().any(|m| m.role == Role::User
            && m.content
                .iter()
                .any(|b| matches!(b, ContentBlock::Text(t) if t.contains("[ERROR]")))),
        "history must NOT contain [ERROR] user message for refusal; got {history:?}"
    );
    assert!(
        !history.iter().any(|m| m.role == Role::Assistant
            && m.content
                .iter()
                .any(|b| matches!(b, ContentBlock::Text(t) if t == "should not be reached"))),
        "history must NOT contain text from second response vector; got {history:?}"
    );
}

#[test]
fn empty_stream_with_zero_usage_triggers_retry_not_silent_blank() {
    let empty_response: Vec<Result<StreamEvent, Error>> = vec![Ok(StreamEvent::Done)];
    let backend = SequencedBackend::new(vec![empty_response, text_response("recovered")]);
    let mut agent = agent_with_mode(backend, None, ConfirmationMode::Never)
        .with_retry_config(&RetryConfig {
            max_token_retries: 3,
            ..retry_config()
        });

    let stream = agent
        .send("hi".to_string(), None, None)
        .expect("send should succeed");
    let events = collect_events(stream);

    assert!(
        events.iter().any(|e| matches!(e, AgentEvent::Retrying(_))),
        "should emit Retrying for empty stream with zero usage; got {events:?}"
    );
    assert!(
        !events.iter().any(|e| matches!(e, AgentEvent::Error(_))),
        "should not emit Error when retry succeeds; got {events:?}"
    );
    assert!(
        events
            .iter()
            .any(|e| matches!(e, AgentEvent::ResponseComplete(t) if t == "recovered")),
        "should emit ResponseComplete after retry; got {events:?}"
    );

    let history = agent.history();
    assert!(
        history.iter().any(|m| m.role == Role::User
            && m.content
                .iter()
                .any(|b| matches!(b, ContentBlock::Text(t) if t.contains("[ERROR]")))),
        "error message must be injected into history"
    );
}

#[test]
fn stealth_max_tokens_with_thinking_triggers_retry() {
    let thinking_only_stealth: Vec<Result<StreamEvent, Error>> = vec![
        Ok(StreamEvent::ThinkingDelta("consumed budget".to_string())),
        Ok(StreamEvent::ThinkingSignature("sig".to_string())),
        Ok(StreamEvent::Usage {
            input_tokens: 50,
            output_tokens: 100,
            stop_reason: "stop".to_string(),
        }),
        Ok(StreamEvent::Done),
    ];
    let backend =
        SequencedBackend::new(vec![thinking_only_stealth, text_response("recovered")]);
    let mut agent = agent_with_mode(backend, None, ConfirmationMode::Never)
        .with_retry_config(&RetryConfig {
            max_token_retries: 3,
            ..retry_config()
        });

    let stream = agent
        .send("hi".to_string(), None, None)
        .expect("send should succeed");
    let events = collect_events(stream);

    assert!(
        events.iter().any(|e| matches!(e, AgentEvent::Retrying(_))),
        "should emit Retrying when thinking consumes budget; got {events:?}"
    );
    assert!(
        !events.iter().any(|e| matches!(e, AgentEvent::Error(_))),
        "should not emit Error when retry succeeds; got {events:?}"
    );
    assert!(
        events
            .iter()
            .any(|e| matches!(e, AgentEvent::ResponseComplete(t) if t == "recovered")),
        "should emit ResponseComplete after retry; got {events:?}"
    );
}

#[test]
fn empty_stream_exhausts_retries_then_emits_response_complete() {
    fn empty_response() -> Vec<Result<StreamEvent, Error>> {
        vec![Ok(StreamEvent::Done)]
    }
    let backend =
        SequencedBackend::new(vec![empty_response(), empty_response(), empty_response()]);
    let mut agent = agent_with_mode(backend, None, ConfirmationMode::Never)
        .with_retry_config(&RetryConfig {
            max_token_retries: 2,
            ..retry_config()
        });

    let stream = agent
        .send("hi".to_string(), None, None)
        .expect("send should succeed");
    let events = collect_events(stream);

    let retrying_count = events
        .iter()
        .filter(|e| matches!(e, AgentEvent::Retrying(_)))
        .count();
    assert_eq!(
        retrying_count, 2,
        "should have 2 Retrying events (2 retries within budget); got {retrying_count}"
    );
    assert!(
        events
            .iter()
            .any(|e| matches!(e, AgentEvent::ResponseComplete(t) if t.is_empty())),
        "should emit ResponseComplete(\"\") after exhausting retries; got {events:?}"
    );

    let history = agent.history();
    let error_count = history
        .iter()
        .filter(|m| m.role == Role::User)
        .filter(|m| {
            m.content
                .iter()
                .any(|b| matches!(b, ContentBlock::Text(t) if t.contains("[ERROR]")))
        })
        .count();
    assert_eq!(
        error_count, 2,
        "should have 2 [ERROR] messages in history (one per retry); got {error_count}"
    );
}

#[test]
fn empty_stream_with_zero_retries_emits_response_complete_immediately() {
    let empty_response: Vec<Result<StreamEvent, Error>> = vec![Ok(StreamEvent::Done)];
    let backend = SequencedBackend::new(vec![empty_response]);
    let mut agent = agent_with_mode(backend, None, ConfirmationMode::Never)
        .with_retry_config(&RetryConfig {
            max_token_retries: 0,
            ..retry_config()
        });

    let stream = agent
        .send("hi".to_string(), None, None)
        .expect("send should succeed");
    let events = collect_events(stream);

    assert!(
        !events.iter().any(|e| matches!(e, AgentEvent::Retrying(_))),
        "should not emit Retrying when max_token_retries=0; got {events:?}"
    );
    assert!(
        events
            .iter()
            .any(|e| matches!(e, AgentEvent::ResponseComplete(t) if t.is_empty())),
        "should emit ResponseComplete(\"\") immediately with zero retries; got {events:?}"
    );
}

#[test]
fn mod_backend_send_error_preserves_user_message_in_history() {
    let mut agent = agent_with_mode(SequencedBackend::new(vec![]), None, ConfirmationMode::Never);
    agent.refusals.push_back(Error::msg("connection refused"));
    let events = agent
        .send("hello".to_string(), None, None)
        .expect("send should succeed");
    assert!(
        events
            .iter()
            .any(|e| matches!(e, AgentEvent::Error(msg) if msg.contains("connection refused"))),
        "expected Error event with connection refused message"
    );
    let history = agent.history();
    assert!(
        !history.is_empty(),
        "history must not be cleared on send_message error"
    );
    assert!(
        history.iter().any(|m| m.role == Role::User
            && m.content
                .iter()
                .any(|b| matches!(b, ContentBlock::Text(t) if t == "hello"))),
        "user message must be retained"
    );
    assert!(
        history.iter().any(|m| m.role == Role::User
            && m.content.iter().any(
                |b| matches!(b, ContentBlock::Text(t) if t.contains("[ERROR]") && t.contains("connection refused"))
            )),
        "error message with [ERROR] prefix must be in history"
    );
}

#[test]
fn backend_error_surfaces_full_cause_chain() {
    let mut agent = agent_with_mode(SequencedBackend::new(vec![]), None, ConfirmationMode::Never);
    agent
        .refusals
        .push_back(Error::msg("connection refused").context("Failed to send request to Ollama"));
    let events = agent
        .send("hello".to_string(), None, None)
        .expect("send should succeed");
    assert!(
        events.iter().any(|e| matches!(
            e,
            AgentEvent::Error(msg)
                if msg.contains("Failed to send request to Ollama")
                    && msg.contains("connection refused")
        )),
        "Error event must surface both the outer context and the underlying cause"
    );
}

#[test]
fn transport_error_variant_surfaces_flattened_message() {
    let mut agent = agent_with_mode(SequencedBackend::new(vec![]), None, ConfirmationMode::Never);
    agent
        .refusals
        .push_back(Error::Backend(BackendError::Transport {
            message: "Failed to send request to Ollama: error sending request: \
                      Connection refused (os error 61)"
                .to_string(),
        }));
    let events = agent
        .send("hello".to_string(), None, None)
        .expect("send should succeed");
    assert!(
        events.iter().any(|e| matches!(
            e,
            AgentEvent::Error(msg)
                if msg.contains("Failed to send request to Ollama")
                    && msg.contains("Connection refused (os error 61)")
        )),
        "the Transport variant must surface its flattened message"
    );
}

#[test]
fn cancelled_stream_keeps_partial_text() {
    let mut agent = agent_with_mode(
        SequencedBackend::new(vec![vec![
            Ok(StreamEvent::TextDelta("hello".to_string())),
            Ok(StreamEvent::TextDelta(" world".to_string())),
        ]]),
        None,
        ConfirmationMode::Never,
    );
    agent.cancel_stream = true;
    let events = agent
        .send("tell me a story".to_string(), None, None)
        .expect("send");
    assert!(events
        .iter()
        .any(|e| matches!(e, AgentEvent::Interrupted { partial_text } if partial_text == "hello world")));
    assert!(events.iter().any(|e| matches!(e, AgentEvent::Warn(_))));
    assert!(agent.history().iter().any(|m| m.role == Role::Assistant
        && m.content
            .iter()
            .any(|b| matches!(b, ContentBlock::Text(t) if t == "hello world"))));
}

#[test]
fn cancelled_stream_keeps_thoughts() {
    let mut agent = agent_with_mode(
        SequencedBackend::new(vec![vec![
            Ok(StreamEvent::ThinkingDelta("thinking before cancel".to_string())),
            Ok(StreamEvent::ThinkingSignature("sig_cancel".to_string())),
        ]]),
        None,
        ConfirmationMode::Never,
    );
    agent.cancel_stream = true;
    agent.send("think".to_string(), None, None).expect("send");
    assert!(agent.history().iter().any(|m| m.role == Role::Assistant
        && m.content.iter().any(
            |b| matches!(b, ContentBlock::Thinking { text, signature }
                if text == "thinking before cancel" && signature == "sig_cancel")
        )));
}

#[test]
fn cancelled_before_the_request_asks_nothing() {
    let mut agent = agent_with_mode(
        SequencedBackend::new(vec![text_response("should not appear")]),
        None,
        ConfirmationMode::Never,
    );
    agent.cancel_after = Some(0);
    let events = agent.send("hi".to_string(), None, None).expect("send");
    assert_eq!(
        events,
        vec![AgentEvent::Interrupted {
            partial_text: String::new()
        }]
    );
    assert!(agent.requests.is_empty());
}

#[test]
fn cancelled_during_confirmation_asks_no_second_time() {
    let mut two_calls = tool_call_response("t1", "bash", r#"{}"#);
    two_calls.pop();
    two_calls.extend(tool_call_response("t2", "bash", r#"{}"#));
    let mut agent = agent_with_mode(
        SequencedBackend::new(vec![two_calls, text_response("should not be reached")]),
        Some(Box::new(EchoTool::new("bash", "output"))),
        ConfirmationMode::Always,
    );
    // Starting, before the tools, and the first decision go on; the second decision does not.
    agent.cancel_after = Some(3);
    let events = agent
        .send(
            "run".to_string(),
            Some(vec![ConfirmationResponse::Rejected]),
            None,
        )
        .expect("send");
    assert!(events
        .iter()
        .any(|e| matches!(e, AgentEvent::ToolConfirmationRequired { index: 1, .. })));
    assert!(!events
        .iter()
        .any(|e| matches!(e, AgentEvent::ToolConfirmationRequired { index: 2, .. })));
    assert!(events
        .iter()
        .any(|e| matches!(e, AgentEvent::Interrupted { .. })));
    assert!(!events
        .iter()
        .any(|e| matches!(e, AgentEvent::ResponseComplete(_))));
}

#[test]
fn cancelled_tools_are_reported_as_cancelled() {
    let mut agent = agent_with_mode(
        SequencedBackend::new(vec![tool_call_response("s1", "sleep", r#"{"duration_ms":5000}"#)]),
        Some(Box::new(EchoTool::new("sleep", "slept"))),
        ConfirmationMode::Never,
    );
    agent.cancel_tools = true;
    agent.cancel_after = Some(3);
    let events = agent.send("sleep".to_string(), None, None).expect("send");
    assert!(events.iter().any(|e| matches!(
        e,
        AgentEvent::ToolResult { content, is_error: true, .. } if content.contains("cancelled")
    )));
    assert!(events
        .iter()
        .any(|e| matches!(e, AgentEvent::Interrupted { .. })));
}

#[test]
fn results_keep_the_order_of_the_calls() {
    let mut calls = vec![];
    for (id, name) in [("s1", "slow"), ("s2", "fast"), ("s3", "medium")] {
        calls.extend(tool_call_response(id, name, "{}"));
        calls.pop();
    }
    calls.push(Ok(StreamEvent::Done));
    let mut tools = Tools::new();
    for (name, output) in [("slow", "slept 300ms"), ("fast", "slept 100ms"), ("medium", "slept 200ms")] {
        tools
            .register(Box::new(EchoTool::new(name, output)))
            .expect("register");
    }
    let mut agent = Rig::new(
        SequencedBackend::new(vec![calls, text_response("done")]),
        simple_request(),
    )
    .with_tools(tools)
    .with_tool_config(&ToolsConfig {
        confirmation: ConfirmationMode::Never,
        ..tools_config()
    });
    let events = agent.send("sleep".to_string(), None, None).expect("send");
    let results: Vec<(usize, String)> = events
        .iter()
        .filter_map(|e| match e {
            AgentEvent::ToolResult { content, index, .. } => Some((*index, content.clone())),
            _ => None,
        })
        .collect();
    assert_eq!(
        results,
        vec![
            (1, "slept 300ms".to_string()),
            (2, "slept 100ms".to_string()),
            (3, "slept 200ms".to_string()),
        ]
    );
    let ids: Vec<String> = agent
        .history()
        .iter()
        .flat_map(|m| &m.content)
        .filter_map(|b| match b {
            ContentBlock::ToolResult { tool_use_id, .. } => Some(tool_use_id.clone()),
            _ => None,
        })
        .collect();
    assert_eq!(ids, vec!["s1", "s2", "s3"]);
}

#[test]
fn failure_of_one_tool_leaves_the_others_alone() {
    let mut calls = vec![];
    for (id, name) in [("t1", "echo"), ("t2", "missing"), ("t3", "echo")] {
        calls.extend(tool_call_response(id, name, "{}"));
        calls.pop();
    }
    let mut agent = agent_with_mode(
        SequencedBackend::new(vec![calls, text_response("done")]),
        Some(Box::new(EchoTool::new("echo", "ok"))),
        ConfirmationMode::Never,
    );
    let events = agent.send("run".to_string(), None, None).expect("send");
    let errors: Vec<bool> = events
        .iter()
        .filter_map(|e| match e {
            AgentEvent::ToolResult { is_error, .. } => Some(*is_error),
            _ => None,
        })
        .collect();
    assert_eq!(errors, vec![false, true, false]);
}

#[test]
fn tool_result_is_cut_in_the_conversation_but_not_in_the_report() {
    let output = "x".repeat(10_000);
    let mut tools = Tools::new();
    tools
        .register(Box::new(EchoTool::new("big", &output)))
        .expect("register");
    let mut agent = Rig::new(
        SequencedBackend::new(vec![
            tool_call_response("t1", "big", "{}"),
            text_response("done"),
        ]),
        simple_request(),
    )
    .with_tools(tools)
    .with_tool_config(&ToolsConfig {
        confirmation: ConfirmationMode::Never,
        max_tool_result_bytes: 1_000,
        ..tools_config()
    });
    let events = agent.send("run".to_string(), None, None).expect("send");
    assert!(events
        .iter()
        .any(|e| matches!(e, AgentEvent::ToolResult { content, .. } if *content == output)));
    let kept = agent
        .history()
        .iter()
        .flat_map(|m| &m.content)
        .find_map(|b| match b {
            ContentBlock::ToolResult { content, .. } => Some(content.clone()),
            _ => None,
        })
        .expect("a result");
    assert!(kept.len() <= 1_000);
    assert!(kept.contains("[... output truncated:"));
}

#[test]
fn synthetic_call_is_part_of_the_next_request() {
    let mut agent = agent_with_mode(
        SequencedBackend::new(vec![text_response("ok")]),
        None,
        ConfirmationMode::Never,
    );
    agent
        .record_synthetic_tool_call(
            "user-bash-1".to_string(),
            "echo hi".to_string(),
            "hi\n".to_string(),
            false,
        )
        .expect("record");
    agent.send("next".to_string(), None, None).expect("send");
    let (messages, _) = &agent.requests[0];
    assert_eq!(messages.len(), 3);
    assert!(
        matches!(&messages[0].content[0], ContentBlock::ToolUse { id, .. } if id == "user-bash-1")
    );
    assert!(matches!(&messages[1].content[0],
        ContentBlock::ToolResult { tool_use_id, content, .. }
            if tool_use_id == "user-bash-1" && content == "hi\n"));
}

#[test]
fn chat_mode_offers_no_write_tools() {
    let mut tools = Tools::new();
    tools
        .register(Box::new(EchoTool::new("bash", "Bash tool")))
        .expect("register");
    tools
        .register(Box::new(EchoTool::write_tool("edit_file", "Edit tool")))
        .expect("register");
    tools
        .register(Box::new(EchoTool::new("search", "Search tool")))
        .expect("register");
    let mut agent = Rig::new(SequencedBackend::new(vec![text_response("done")]), simple_request())
        .with_tools(tools);
    agent.set_chat_mode(true);
    agent.send("hi".to_string(), None, None).expect("send");
    let names: Vec<&str> = agent.requests[0]
        .1
        .tools
        .iter()
        .map(|t| t.name.as_str())
        .collect();
    assert_eq!(names, vec!["bash", "search"]);
}

#[test]
fn new_backend_is_asked_for_its_model_and_limit() {
    let mut agent = agent_with_mode(
        SequencedBackend::new(vec![text_response("ok")]),
        None,
        ConfirmationMode::Never,
    );
    agent.agent.set_backend("model-b".to_string(), 65536);
    agent.send("hi".to_string(), None, None).expect("send");
    let (_, config) = &agent.requests[0];
    assert_eq!(config.model, "model-b");
    assert_eq!(config.max_tokens, 65536);
    assert_eq!(agent.agent.model(), "model-b");
    assert_eq!(agent.agent.max_tokens(), 65536);
}

#[test]
fn requests_never_exceed_iterations_and_retries() {
    let responses = (0..40).map(|_| max_tokens_error_stream("p")).collect();
    let mut agent = Rig::new(SequencedBackend::new(responses), simple_request())
        .with_tool_config(&ToolsConfig {
            max_tool_iterations: 3,
            ..tools_config()
        })
        .with_retry_config(&RetryConfig {
            max_token_retries: 5,
            ..retry_config()
        });
    agent.send("hi".to_string(), None, None).expect("send");
    assert_eq!(agent.requests.len(), 6);
}
