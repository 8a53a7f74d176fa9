use agent_core::agent::compact_helpers::{
    count_turns, retained_start_index, retained_turns, strip_non_text,
};
use agent_core::json::Json;
use agent_core::types::{ContentBlock, Message, Role};

fn library_json(text: &str) -> Json {
    Json::parse(text).expect("valid JSON")
}

#[test]
fn count_turns_empty() {
    assert_eq!(count_turns(&[]), 0);
}

#[test]
fn count_turns_single_user() {
    let msgs = vec![Message::text(Role::User, "hello".to_string())];
    assert_eq!(count_turns(&msgs), 1);
}

#[test]
fn count_turns_single_turn() {
    let msgs = vec![
        Message::text(Role::User, "hello".to_string()),
        Message::text(Role::Assistant, "hi".to_string()),
    ];
    assert_eq!(count_turns(&msgs), 1);
}

#[test]
fn count_turns_multiple_turns() {
    let msgs = vec![
        Message::text(Role::User, "hello".to_string()),
        Message::text(Role::Assistant, "hi".to_string()),
        Message::text(Role::User, "how are you".to_string()),
        Message::text(Role::Assistant, "fine".to_string()),
        Message::text(Role::User, "goodbye".to_string()),
        Message::text(Role::Assistant, "bye".to_string()),
    ];
    assert_eq!(count_turns(&msgs), 3);
}

#[test]
fn count_turns_partial_turn_at_end() {
    let msgs = vec![
        Message::text(Role::User, "hello".to_string()),
        Message::text(Role::Assistant, "hi".to_string()),
        Message::text(Role::User, "waiting".to_string()),
    ];
    assert_eq!(count_turns(&msgs), 2);
}

#[test]
fn count_turns_orphan_assistant_at_start() {
    let msgs = vec![
        Message::text(Role::Assistant, "orphan".to_string()),
        Message::text(Role::User, "hello".to_string()),
        Message::text(Role::Assistant, "hi".to_string()),
    ];
    assert_eq!(count_turns(&msgs), 2);
}

#[test]
fn count_turns_multiple_assistants_after_user() {
    let msgs = vec![
        Message::text(Role::User, "hello".to_string()),
        Message::text(Role::Assistant, "hi".to_string()),
        Message::text(Role::Assistant, "there".to_string()),
    ];
    assert_eq!(count_turns(&msgs), 1);
}

#[test]
fn retained_start_index_retains_all() {
    let msgs = vec![
        Message::text(Role::User, "a".to_string()),
        Message::text(Role::Assistant, "b".to_string()),
        Message::text(Role::User, "c".to_string()),
        Message::text(Role::Assistant, "d".to_string()),
    ];
    // retain 2 turns (all) → start from 0
    assert_eq!(retained_start_index(&msgs, 2), 0);
}

#[test]
fn retained_start_index_retains_one_of_two() {
    let msgs = vec![
        Message::text(Role::User, "a".to_string()),
        Message::text(Role::Assistant, "b".to_string()),
        Message::text(Role::User, "c".to_string()),
        Message::text(Role::Assistant, "d".to_string()),
    ];
    // retain 1 of 2 turns → skip first turn (indices 0-1), start from 2
    assert_eq!(retained_start_index(&msgs, 1), 2);
}

#[test]
fn retained_start_index_zero() {
    let msgs = vec![
        Message::text(Role::User, "a".to_string()),
        Message::text(Role::Assistant, "b".to_string()),
    ];
    // retain 0 turns → start from 0 (compact everything)
    assert_eq!(retained_start_index(&msgs, 0), 0);
}

#[test]
fn strip_non_text_preserves_text_only() {
    let msg = Message::text(Role::User, "hello".to_string());
    let result = strip_non_text(&msg);
    assert!(result.is_some());
    let stripped = result.expect("checked");
    assert_eq!(stripped.content.len(), 1);
    assert!(matches!(&stripped.content[0], ContentBlock::Text(t) if t == "hello"));
}

#[test]
fn strip_non_text_removes_tool_use() {
    let msg = Message {
        role: Role::Assistant,
        content: vec![
            ContentBlock::ToolUse {
                id: "t1".to_string(),
                name: "bash".to_string(),
                input: library_json(r#"{}"#),
            },
            ContentBlock::Text("I ran it".to_string()),
        ],
    };
    let result = strip_non_text(&msg);
    assert!(result.is_some());
    let stripped = result.expect("checked");
    assert_eq!(stripped.content.len(), 1);
    assert!(matches!(&stripped.content[0], ContentBlock::Text(t) if t == "I ran it"));
}

#[test]
fn strip_non_text_drops_empty_message() {
    let msg = Message {
        role: Role::Assistant,
        content: vec![ContentBlock::ToolUse {
            id: "t1".to_string(),
            name: "bash".to_string(),
            input: library_json(r#"{}"#),
        }],
    };
    let result = strip_non_text(&msg);
    assert!(result.is_none());
}

#[test]
fn strip_non_text_removes_thinking_and_tool_result() {
    let msg = Message {
        role: Role::Assistant,
        content: vec![
            ContentBlock::Thinking {
                text: "deep".to_string(),
                signature: "sig".to_string(),
            },
            ContentBlock::RedactedThinking {
                data: "redacted".to_string(),
            },
            ContentBlock::ToolResult {
                tool_use_id: "t1".to_string(),
                content: "output".to_string(),
                is_error: false,
            },
            ContentBlock::Text("visible".to_string()),
        ],
    };
    let result = strip_non_text(&msg);
    assert!(result.is_some());
    let stripped = result.expect("checked");
    assert_eq!(stripped.content.len(), 1);
    assert!(matches!(&stripped.content[0], ContentBlock::Text(t) if t == "visible"));
}

#[test]
fn retained_start_index_with_partial_turn() {
    let msgs = vec![
        Message::text(Role::User, "a".to_string()),
        Message::text(Role::Assistant, "b".to_string()),
        Message::text(Role::User, "c".to_string()),
    ];
    // 2 turns: turn 1 = [a, b], turn 2 = [c] (partial)
    // retain 1 → skip turn 1, start from index 2
    assert_eq!(retained_start_index(&msgs, 1), 2);
}

#[test]
fn no_turns_are_retained_when_none_are_asked_for() {
    let msgs = vec![
        Message::text(Role::User, "a".to_string()),
        Message::text(Role::Assistant, "b".to_string()),
    ];
    assert!(retained_turns(&msgs, 0).is_empty());
    assert_eq!(retained_turns(&msgs, 1).len(), 2);
    assert_eq!(retained_turns(&msgs, 5).len(), 2);
}
