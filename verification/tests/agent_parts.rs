use agent_core::agent::calls::{ToolDecision, ToolOutcome};
use agent_core::agent::collect::CallCollector;
use agent_core::agent::compact::{
    compacted_message, finish_compaction, take_summary, CompactionPlan, CompactionSpawner,
    StoreOutcome,
};
use agent_core::agent::conversation::{Agent, ContextFile, Skill};
use agent_core::agent::effects::Effect;
use agent_core::agent::registry::{ToolEntry, ToolRegistry};
use agent_core::agent::spawner::{
    clamp_confirmation, run_headless, spawn_agent_with_selection, spawn_failed, spawn_request,
    sub_agent_config, sub_agent_registry, HeadlessOutcome, SpawnStep,
};
use agent_core::agent::truncate::truncate_tool_result;
use agent_core::agent::turn::{Phase, TurnInput};
use agent_core::config::ConfirmationMode::{Always, Never, WriteOnly};
use agent_core::config::{CompactionConfig, RetryConfig, ToolsConfig};
use agent_core::json::Json;
use agent_core::types::{
    AgentEvent, ContentBlock, Message, RequestConfig, Role, StreamEvent, ThinkingConfig,
    ThinkingMode, ToolDefinition,
};

fn entry(name: &str, is_write_tool: bool) -> ToolEntry {
    ToolEntry {
        definition: ToolDefinition {
            name: name.to_string(),
            description: "tool".to_string(),
            input_schema: Json::object(),
        },
        is_write_tool,
    }
}

fn agent_with_history(history: Vec<Message>) -> Agent {
    Agent::new(
        RequestConfig {
            model: "test".to_string(),
            max_tokens: 100,
            tools: vec![],
            thinking: None,
        },
        history,
    )
}

fn user(text: &str) -> Message {
    Message::text(Role::User, text.to_string())
}

fn assistant(text: &str) -> Message {
    Message::text(Role::Assistant, text.to_string())
}

fn first_text(m: &Message) -> String {
    match &m.content[0] {
        ContentBlock::Text(t) => t.clone(),
        other => panic!("expected text, got {other:?}"),
    }
}

#[test]
fn clamp_confirmation_picks_stricter() {
    // parent=Always: always wins
    assert_eq!(clamp_confirmation(&Always, Some(&Always)), Always);
    assert_eq!(clamp_confirmation(&Always, Some(&WriteOnly)), Always);
    assert_eq!(clamp_confirmation(&Always, Some(&Never)), Always);

    // parent=WriteOnly
    assert_eq!(clamp_confirmation(&WriteOnly, Some(&Always)), Always);
    assert_eq!(clamp_confirmation(&WriteOnly, Some(&WriteOnly)), WriteOnly);
    assert_eq!(clamp_confirmation(&WriteOnly, Some(&Never)), WriteOnly);

    // parent=Never: requested takes precedence unless it's also Never
    assert_eq!(clamp_confirmation(&Never, Some(&Always)), Always);
    assert_eq!(clamp_confirmation(&Never, Some(&WriteOnly)), WriteOnly);
    assert_eq!(clamp_confirmation(&Never, Some(&Never)), Never);

    // None requested → fall back to parent
    assert_eq!(clamp_confirmation(&WriteOnly, None), WriteOnly);
    assert_eq!(clamp_confirmation(&Always, None), Always);
    assert_eq!(clamp_confirmation(&Never, None), Never);
}

#[test]
fn test_truncate_tool_result_under_cap() {
    let content = "short";
    let result = truncate_tool_result(content, 100);
    assert_eq!(
        result, "short",
        "content under cap should pass through unchanged"
    );
}

#[test]
fn test_truncate_tool_result_at_exact_cap() {
    let content = "exactly ten";
    let result = truncate_tool_result(content, 11);
    assert_eq!(
        result, content,
        "content exactly at cap should pass through unchanged"
    );
}

#[test]
fn test_truncate_tool_result_zero_cap_means_unlimited() {
    let content = "anything at all";
    let result = truncate_tool_result(content, 0);
    assert_eq!(result, content, "max_bytes = 0 should disable truncation");
}

#[test]
fn test_truncate_tool_result_over_cap() {
    let cap: u64 = 200;
    let content = "a".repeat(10_000);
    let result = truncate_tool_result(&content, cap);

    assert!(
        result.len() <= cap as usize,
        "truncated result ({}) should be ≤ cap ({})",
        result.len(),
        cap
    );
    assert!(
        result.contains("[... output truncated:"),
        "truncated result should contain the sentinel"
    );

    // Verify both head and tail are present
    assert!(
        result.starts_with("aaa"),
        "truncated result should start with head portion"
    );
    assert!(
        result.ends_with("aaa"),
        "truncated result should end with tail portion"
    );
}

#[test]
fn test_truncate_tool_result_multibyte_utf8() {
    // 3-byte UTF-8 characters repeated many times
    let content: String = "🎉".repeat(10_000);
    let cap: u64 = 200;
    let result = truncate_tool_result(&content, cap);

    assert!(
        result.len() <= cap as usize,
        "truncated result ({}) should be ≤ cap ({})",
        result.len(),
        cap
    );
    assert!(
        result.contains("[... output truncated:"),
        "truncated result should contain the sentinel"
    );
    // Verify the result is valid UTF-8 by checking it doesn't panic on operations
    assert!(
        result.chars().count() > 0,
        "result should contain valid chars"
    );
    // No panic means valid UTF-8
}

#[test]
fn truncation_below_the_sentinel_keeps_a_prefix() {
    assert_eq!(truncate_tool_result(&"a".repeat(500), 5), "aaaaa");
    assert_eq!(truncate_tool_result(&"é".repeat(500), 5), "éé");
}

#[test]
fn spawner_chat_mode_filters_write_tools_from_registry() {
    let mut registry = ToolRegistry::new();
    registry.register(entry("bash", false));
    registry.register(entry("edit_file", true));
    registry.register(entry("write_file", true));
    registry.register(entry("search", false));
    registry.register(entry("skill", false));

    let all_names = registry.tool_names();
    assert!(all_names.contains(&"bash".to_string()));
    assert!(all_names.contains(&"edit_file".to_string()));
    assert!(all_names.contains(&"write_file".to_string()));
    assert!(all_names.contains(&"search".to_string()));

    let registry = registry.into_chat_compatible();

    let remaining = registry.tool_names();
    assert!(
        remaining.contains(&"bash".to_string()),
        "bash should remain available in chat mode (as restricted read-only)"
    );
    assert!(
        !remaining.contains(&"edit_file".to_string()),
        "edit_file should be filtered out in chat mode"
    );
    assert!(
        !remaining.contains(&"write_file".to_string()),
        "write_file should be filtered out in chat mode"
    );
    assert!(
        remaining.contains(&"search".to_string()),
        "search should remain in chat mode"
    );
    assert!(
        remaining.contains(&"skill".to_string()),
        "skill should remain in chat mode"
    );
    let agent = agent_with_history(vec![]).with_tools(registry).with_chat_mode(true);
    assert!(agent.is_chat_mode());
}

#[test]
fn spawner_chat_mode_off_keeps_all_tools() {
    let mut registry = ToolRegistry::new();
    registry.register(entry("bash", false));
    let registry = sub_agent_registry(registry, false, None);
    let names = registry.tool_names();
    assert!(
        names.contains(&"bash".to_string()),
        "bash should be present when chat mode is off"
    );
}

#[test]
fn allowlist_limits_a_sub_agent_outside_chat_mode() {
    let allowed = vec!["edit_file".to_string(), "search".to_string()];
    let mut registry = ToolRegistry::new();
    registry.register(entry("bash", false));
    registry.register(entry("edit_file", true));
    registry.register(entry("search", false));
    assert_eq!(
        sub_agent_registry(registry, false, Some(&allowed)).tool_names(),
        vec!["edit_file", "search"]
    );
    let mut registry = ToolRegistry::new();
    registry.register(entry("bash", false));
    registry.register(entry("edit_file", true));
    assert_eq!(
        sub_agent_registry(registry, true, Some(&allowed)).tool_names(),
        vec!["bash"]
    );
}

#[test]
fn sub_agent_takes_model_limit_and_tools_from_its_role() {
    let mut registry = ToolRegistry::new();
    registry.register(entry("bash", false));
    let request = spawn_request("small".to_string(), 16_384, &registry);
    assert_eq!(request.model, "small");
    assert_eq!(request.max_tokens, 16_384);
    assert_eq!(request.tools[0].name, "bash");
    let config = sub_agent_config(
        &ToolsConfig {
            max_tool_iterations: 7,
            confirmation: Always,
            max_tool_result_bytes: 9,
        },
        Never,
    );
    assert_eq!(
        config,
        ToolsConfig {
            max_tool_iterations: 7,
            confirmation: Never,
            max_tool_result_bytes: 9,
        }
    );
}

#[test]
fn failed_set_up_names_the_step() {
    let words = |step: SpawnStep| {
        let outcome = spawn_failed(&step, "boom");
        assert!(outcome.is_error);
        outcome.error_message.expect("words")
    };
    assert_eq!(
        words(SpawnStep::Session),
        "Failed to create sub-agent session: boom"
    );
    assert_eq!(
        words(SpawnStep::Registry),
        "Failed to build sub-agent registry: boom"
    );
    assert_eq!(
        words(SpawnStep::Role("fast".to_string())),
        "Failed to resolve role 'fast': boom"
    );
    assert_eq!(words(SpawnStep::Agent), "Failed to spawn sub-agent: boom");
    assert_eq!(
        words(SpawnStep::ContextFiles),
        "Failed to load context files: boom"
    );
}

#[test]
fn headless_run_stops_when_the_user_would_be_asked() {
    let outcome = run_headless(vec![
        AgentEvent::TokenReceived("a".to_string()),
        AgentEvent::ToolConfirmationRequired {
            id: "t".to_string(),
            name: "write_file".to_string(),
            input: Json::object(),
            index: 1,
        },
        AgentEvent::TokenReceived("b".to_string()),
    ]);
    assert!(outcome.is_error);
    assert!(!outcome.text.contains('b'));
}

#[test]
fn mod_load_skills_adds_skill_names_to_history() {
    let agent = agent_with_history(vec![]).with_skills(vec![
        Skill {
            name: "my-skill".to_string(),
            description: None,
        },
        Skill {
            name: "another-skill".to_string(),
            description: None,
        },
    ]);
    let history = agent.history();
    assert_eq!(history.len(), 1);
    let text = first_text(&history[0]);
    assert!(
        text.contains("another-skill"),
        "should mention another-skill"
    );
    assert!(text.contains("my-skill"), "should mention my-skill");
    assert!(text.contains("skill"), "should mention skill tool");
    assert!(text.find("another-skill") < text.find("my-skill"));
}

#[test]
fn mod_load_skills_with_empty_map_adds_nothing_to_history() {
    let agent = agent_with_history(vec![]).with_skills(vec![]);
    assert!(
        agent.history().is_empty(),
        "empty skills map should not add history entry"
    );
}

#[test]
fn mod_load_session_replaces_persisted_history() {
    let mut agent = agent_with_history(vec![user("session a message")]);
    assert_eq!(agent.history().len(), 1);
    assert_eq!(first_text(&agent.history()[0]), "session a message");
    agent.load_session(vec![user("session b message")]);
    assert_eq!(agent.history().len(), 1);
    assert_eq!(first_text(&agent.history()[0]), "session b message");
}

#[test]
fn mod_load_session_preserves_context_prefix() {
    let mut agent = agent_with_history(vec![user("session a message")]).with_skills(vec![Skill {
        name: "test-skill".to_string(),
        description: Some("A test skill".to_string()),
    }]);
    // history should be: [skill_prefix, session_a_message]
    assert_eq!(agent.history().len(), 2);
    agent.load_session(vec![user("session b message")]);
    // history should be: [skill_prefix, session_b_message] — prefix preserved
    let history = agent.history();
    assert_eq!(history.len(), 2, "context prefix should be preserved");
    assert!(
        first_text(&history[0]).contains("test-skill"),
        "first entry should still be the skills prefix"
    );
    assert_eq!(
        first_text(&history[1]),
        "session b message",
        "second entry should be new session's message"
    );
}

#[test]
fn context_files_come_before_the_conversation() {
    let mut agent = agent_with_history(vec![user("hello")]);
    agent.load_context_files(&vec![ContextFile {
        path: "NOTES.md".to_string(),
        content: "be brief".to_string(),
    }]);
    let history = agent.history();
    assert_eq!(history.len(), 2);
    assert!(first_text(&history[0]).contains("NOTES.md"));
    assert!(first_text(&history[0]).contains("be brief"));
    agent.load_context_files(&vec![]);
    assert_eq!(agent.history().len(), 2);
}

#[test]
fn compaction_role_falls_back_to_default_when_not_in_models() {
    let spawner = CompactionSpawner {
        role: "compaction".to_string(),
        roles: vec![],
    };
    assert_eq!(
        spawner.effective_role(),
        "default",
        "should fall back to default when compaction role not in models"
    );
}

#[test]
fn compaction_role_uses_configured_role_when_in_models() {
    let spawner = CompactionSpawner {
        role: "compaction".to_string(),
        roles: vec!["compaction".to_string()],
    };
    assert_eq!(
        spawner.effective_role(),
        "compaction",
        "should use compaction role when defined in models"
    );
}

fn compacting_agent(history: Vec<Message>, retained: u32) -> Agent {
    agent_with_history(history)
        .with_compaction_config(&CompactionConfig {
            role: "compaction".to_string(),
            max_context_window_len: 0,
            num_retained_turns: retained,
        })
        .with_compaction_spawner(CompactionSpawner {
            role: "compaction".to_string(),
            roles: vec![],
        })
}

#[test]
fn compaction_summarises_all_but_the_retained_turns() {
    let agent = compacting_agent(
        vec![user("a"), assistant("b"), user("c"), assistant("d")],
        1,
    );
    match agent.compact().expect("a spawner") {
        CompactionPlan::Summarize {
            role,
            prompt,
            retained,
        } => {
            assert_eq!(role, "default");
            assert!(prompt.contains('a') && prompt.contains('b'));
            let kept: Vec<String> = retained.iter().map(first_text).collect();
            assert_eq!(kept, vec!["c", "d"]);
        }
        CompactionPlan::Nothing(words) => panic!("nothing to compact: {words}"),
    }
}

#[test]
fn compaction_of_retained_turns_has_nothing_to_do() {
    let agent = compacting_agent(vec![user("a"), assistant("b")], 3);
    assert!(matches!(
        agent.compact().expect("a spawner"),
        CompactionPlan::Nothing(_)
    ));
}

#[test]
fn summary_of_a_failed_run_is_an_error() {
    assert!(take_summary(HeadlessOutcome::failed("boom".to_string())).is_err());
    assert!(take_summary(HeadlessOutcome::new()).is_err());
    let mut outcome = HeadlessOutcome::new();
    outcome.absorb(AgentEvent::TokenReceived("sum".to_string()));
    assert_eq!(take_summary(outcome), Ok("sum".to_string()));
}

#[test]
fn calls_are_collected_by_number() {
    let mut calls = CallCollector::new();
    calls.start("tool_1".to_string(), "fast".to_string(), Some(1));
    calls.start("tool_0".to_string(), "slow".to_string(), Some(0));
    calls.extend("{\"a\"", Some(1));
    calls.extend("{}", Some(0));
    calls.extend(":1}", Some(1));
    calls.extend("lost", Some(7));
    calls.done();
    let calls = calls.into_calls();
    let seen: Vec<(&str, &str)> = calls
        .iter()
        .map(|c| (c.id.as_str(), c.input_json.as_str()))
        .collect();
    assert_eq!(seen, vec![("tool_0", "{}"), ("tool_1", "{\"a\":1}")]);
}

#[test]
fn unnumbered_calls_are_collected_one_by_one() {
    let mut calls = CallCollector::new();
    calls.start("a".to_string(), "bash".to_string(), None);
    calls.extend("{", None);
    calls.extend("}", None);
    calls.done();
    calls.start("b".to_string(), "bash".to_string(), None);
    calls.done();
    calls.done();
    let calls = calls.into_calls();
    assert_eq!(calls.len(), 2);
    assert_eq!(calls[0].input_json, "{}");
    assert_eq!(calls[1].input_json, "");
}

#[test]
fn stored_compaction_keeps_prefix_summary_and_retained_turns() {
    let mut history = vec![user("context"), user("a"), assistant("b"), user("c")];
    let r = finish_compaction(
        &mut history,
        1,
        "sum".to_string(),
        vec![user("c")],
        StoreOutcome::Stored,
    );
    assert_eq!(r, Ok("sum".to_string()));
    assert_eq!(history.len(), 3);
    assert_eq!(first_text(&history[0]), "context");
    assert_eq!(history[1], compacted_message("sum"));
    assert_eq!(first_text(&history[2]), "c");
}

#[test]
fn compaction_that_was_not_stored_changes_nothing() {
    let mut history = vec![user("a"), assistant("b")];
    let r = finish_compaction(
        &mut history,
        0,
        "sum".to_string(),
        vec![],
        StoreOutcome::Failed("disk full".to_string()),
    );
    assert_eq!(r, Err("Compaction failed: disk full".to_string()));
    let r = finish_compaction(
        &mut history,
        0,
        "sum".to_string(),
        vec![],
        StoreOutcome::NothingToCompact,
    );
    assert_eq!(
        r,
        Ok("Nothing to compact: all turns are retained.".to_string())
    );
    assert_eq!(history.len(), 2);
}

#[test]
fn lost_tool_result_is_an_error() {
    let mut agent = agent_with_history(vec![]).with_tool_config(&ToolsConfig {
        max_tool_iterations: 25,
        confirmation: Never,
        max_tool_result_bytes: 0,
    });
    let mut turn = agent.send("run".to_string()).turn;
    let steps = vec![
        TurnInput::Proceed { cancelled: false },
        TurnInput::BackendReady,
        TurnInput::Stream(StreamEvent::ToolUseStart {
            id: "t1".to_string(),
            name: "bash".to_string(),
        }),
        TurnInput::Stream(StreamEvent::ToolUseDone),
        TurnInput::StreamEnded { cancelled: false },
        TurnInput::Proceed { cancelled: false },
        TurnInput::Proceed { cancelled: false },
    ];
    for step in steps {
        agent.advance(&mut turn, step);
    }
    assert_eq!(turn.phase, Phase::Running);
    assert!(matches!(turn.batch[0].decision, ToolDecision::Approved));
    agent.advance(&mut turn, TurnInput::ToolOutcomes(Vec::<Option<ToolOutcome>>::new()));
    agent.advance(&mut turn, TurnInput::Proceed { cancelled: false });
    let history = agent.history();
    assert!(history.iter().flat_map(|m| &m.content).any(|b| matches!(
        b,
        ContentBlock::ToolResult { tool_use_id, is_error: true, content }
            if tool_use_id == "t1" && content.contains("lost")
    )));
}

#[test]
fn builders_and_getters_agree() {
    let mut agent = agent_with_history(vec![])
        .with_thinking(Some(ThinkingConfig {
            enabled: true,
            mode: ThinkingMode::Adaptive,
            display: None,
        }))
        .with_tool_config(&ToolsConfig {
            max_tool_iterations: 4,
            confirmation: Always,
            max_tool_result_bytes: 12,
        })
        .with_retry_config(&RetryConfig {
            max_retries: 1,
            initial_delay_ms: 1,
            max_delay_ms: 1,
            max_token_retries: 9,
        });
    assert_eq!(agent.max_tool_iterations_for_test(), 4);
    assert_eq!(agent.max_token_retries_for_test(), 9);
    assert_eq!(agent.max_tool_result_bytes_for_test(), 12);
    assert_eq!(*agent.confirmation_mode_for_test(), Always);
    assert!(!agent.chat_mode_for_test());
    assert!(agent.request().thinking.is_some());
    agent.set_model("other".to_string());
    assert_eq!(agent.model(), "other");
    assert_eq!(agent.request().model, "other");
    agent.last_auto_compacted = true;
    agent.reset_auto_compact_flag();
    assert!(!agent.last_auto_compacted);
    assert!(agent.tools().tool_names().is_empty());
}

#[test]
fn sub_agent_continues_its_conversation_with_its_tools() {
    let mut registry = ToolRegistry::new();
    registry.register(entry("bash", false));
    let agent = spawn_agent_with_selection(
        "small".to_string(),
        16_384,
        &ToolsConfig {
            max_tool_iterations: 7,
            confirmation: Never,
            max_tool_result_bytes: 9,
        },
        &CompactionConfig {
            role: "compaction".to_string(),
            max_context_window_len: 5,
            num_retained_turns: 2,
        },
        &RetryConfig {
            max_retries: 1,
            initial_delay_ms: 1,
            max_delay_ms: 1,
            max_token_retries: 8,
        },
        vec![user("earlier")],
        registry,
    );
    assert_eq!(agent.model(), "small");
    assert_eq!(agent.max_tokens(), 16_384);
    assert_eq!(agent.max_tool_iterations_for_test(), 7);
    assert_eq!(agent.max_token_retries_for_test(), 8);
    assert_eq!(agent.max_context_window_len_for_test(), 5);
    assert_eq!(agent.history().len(), 1);
    assert_eq!(agent.request().tools[0].name, "bash");
}

#[test]
fn compaction_leaves_the_context_in_front() {
    let mut agent = agent_with_history(vec![user("a"), assistant("b")]);
    agent.load_context_files(&vec![ContextFile {
        path: "NOTES.md".to_string(),
        content: "be brief".to_string(),
    }]);
    let context = agent.history().remove(0);
    assert_eq!(
        agent.finish_compaction("sum".to_string(), vec![], StoreOutcome::Stored),
        Ok("sum".to_string())
    );
    let history = agent.history();
    assert_eq!(history.len(), 2);
    assert_eq!(history[0], context);
    assert_eq!(first_text(&history[1]), "[Compacted] sum");
}

fn call(id: &str, name: &str) -> Vec<TurnInput> {
    vec![
        TurnInput::Stream(StreamEvent::ToolUseStart {
            id: id.to_string(),
            name: name.to_string(),
        }),
        TurnInput::Stream(StreamEvent::ToolUseDone),
    ]
}

fn is_ending(effect: &Effect) -> bool {
    matches!(
        effect,
        Effect::Emit(
            AgentEvent::ResponseComplete(_) | AgentEvent::Error(_) | AgentEvent::Interrupted { .. }
        )
    )
}

#[test]
fn only_what_the_user_agreed_to_is_run() {
    let mut registry = ToolRegistry::new();
    registry.register(entry("write", true));
    registry.register(entry("read", false));
    let mut agent = agent_with_history(vec![])
        .with_tools(registry)
        .with_tool_config(&ToolsConfig {
            max_tool_iterations: 25,
            confirmation: WriteOnly,
            max_tool_result_bytes: 0,
        });
    let mut turn = agent.send("go".to_string()).turn;
    let mut steps = vec![
        TurnInput::Proceed { cancelled: false },
        TurnInput::BackendReady,
    ];
    steps.extend(call("t1", "write"));
    steps.extend(call("t2", "read"));
    steps.extend(call("t3", "write"));
    steps.push(TurnInput::StreamEnded { cancelled: false });
    steps.push(TurnInput::Proceed { cancelled: false });
    steps.push(TurnInput::Proceed { cancelled: false });
    for step in steps {
        agent.advance(&mut turn, step);
    }
    assert_eq!(turn.phase, Phase::Confirming);
    assert_eq!(turn.batch[0].decision, ToolDecision::Declined);
    assert!(turn.to_run().is_empty());
    agent.advance(&mut turn, TurnInput::Confirmed { approved: false });
    assert_eq!(turn.batch[0].decision, ToolDecision::Declined);
    agent.advance(&mut turn, TurnInput::Proceed { cancelled: false });
    assert_eq!(turn.batch[1].decision, ToolDecision::Approved);
    agent.advance(&mut turn, TurnInput::Proceed { cancelled: false });
    assert_eq!(turn.phase, Phase::Confirming);
    agent.advance(&mut turn, TurnInput::Confirmed { approved: true });
    assert_eq!(turn.phase, Phase::Running);
    assert_eq!(turn.to_run(), vec![1, 2]);
    assert_eq!(turn.batch[0].decision, ToolDecision::Declined);
}

#[test]
fn a_whole_turn_has_one_ending() {
    let mut agent = agent_with_history(vec![]).with_tool_config(&ToolsConfig {
        max_tool_iterations: 25,
        confirmation: Never,
        max_tool_result_bytes: 0,
    });
    let mut turn = agent.send("go".to_string()).turn;
    let mut steps = vec![
        TurnInput::Proceed { cancelled: false },
        TurnInput::BackendReady,
    ];
    steps.extend(call("t1", "bash"));
    steps.push(TurnInput::StreamEnded { cancelled: false });
    steps.push(TurnInput::Proceed { cancelled: false });
    steps.push(TurnInput::Proceed { cancelled: false });
    steps.push(TurnInput::ToolOutcomes(vec![Some(ToolOutcome::Failed(
        "broken".to_string(),
    ))]));
    steps.push(TurnInput::Proceed { cancelled: false });
    steps.push(TurnInput::Proceed { cancelled: false });
    steps.push(TurnInput::BackendReady);
    steps.push(TurnInput::Stream(StreamEvent::TextDelta("done".to_string())));
    let mut effects = vec![];
    for step in steps {
        effects.extend(agent.advance(&mut turn, step));
    }
    assert_eq!(effects.iter().filter(|e| is_ending(e)).count(), 0);
    effects.extend(agent.advance(&mut turn, TurnInput::Stream(StreamEvent::Done)));
    assert_eq!(turn.phase, Phase::Finished);
    effects.extend(agent.advance(&mut turn, TurnInput::Proceed { cancelled: true }));
    assert_eq!(effects.iter().filter(|e| is_ending(e)).count(), 1);
}
