use agent_core::backend::anthropic_compat::AnthropicCompatSseParser;
use agent_core::backend::error::BackendError;
use agent_core::types::StreamEvent;

#[test]
fn parser_content_block_start_tool_use_returns_tool_use_start() {
    let mut parser = AnthropicCompatSseParser::new();
    let data = r#"{"type":"content_block_start","index":1,"content_block":{"type":"tool_use","id":"toolu_01","name":"bash"}}"#;
    let result = parser.parse(data).expect("should parse successfully");
    match result {
        Some(StreamEvent::ToolUseStart { id, name }) => {
            assert_eq!(id, "toolu_01");
            assert_eq!(name, "bash");
        }
        other => panic!("expected ToolUseStart, got {:?}", other),
    }
}

#[test]
fn parser_input_json_delta_returns_tool_use_delta() {
    let mut parser = AnthropicCompatSseParser::new();
    let data = r#"{"type":"content_block_delta","index":1,"delta":{"type":"input_json_delta","partial_json":"{\"command\":"}}"#;
    let result = parser.parse(data).expect("should parse successfully");
    match result {
        Some(StreamEvent::ToolUseDelta(chunk)) => {
            assert_eq!(chunk, "{\"command\":");
        }
        other => panic!("expected ToolUseDelta, got {:?}", other),
    }
}

#[test]
fn parser_content_block_stop_after_tool_use_returns_tool_use_done() {
    let mut parser = AnthropicCompatSseParser::new();
    parser
        .parse(r#"{"type":"content_block_start","index":1,"content_block":{"type":"tool_use","id":"toolu_01","name":"bash"}}"#)
        .expect("should parse block_start");
    let result = parser
        .parse(r#"{"type":"content_block_stop","index":1}"#)
        .expect("should parse block_stop");
    assert!(
        matches!(result, Some(StreamEvent::ToolUseDone)),
        "expected ToolUseDone, got {:?}",
        result
    );
}

#[test]
fn parser_content_block_stop_after_text_block_returns_none() {
    let mut parser = AnthropicCompatSseParser::new();
    parser
        .parse(r#"{"type":"content_block_start","index":0,"content_block":{"type":"text","text":""}}"#)
        .expect("should parse block_start");
    let result = parser
        .parse(r#"{"type":"content_block_stop","index":0}"#)
        .expect("should parse block_stop");
    assert!(
        result.is_none(),
        "stopping a text block should return None, got {:?}",
        result
    );
}

#[test]
fn parser_mixed_text_and_tool_use_content_block_stop_fires_only_for_tool_use() {
    let mut parser = AnthropicCompatSseParser::new();
    parser
        .parse(r#"{"type":"content_block_start","index":0,"content_block":{"type":"text","text":""}}"#)
        .expect("text block_start");
    parser
        .parse(r#"{"type":"content_block_start","index":1,"content_block":{"type":"tool_use","id":"toolu_01","name":"bash"}}"#)
        .expect("tool_use block_start");

    let text_stop = parser
        .parse(r#"{"type":"content_block_stop","index":0}"#)
        .expect("text block_stop");
    assert!(
        text_stop.is_none(),
        "text block_stop should be None, got {:?}",
        text_stop
    );

    let tool_stop = parser
        .parse(r#"{"type":"content_block_stop","index":1}"#)
        .expect("tool_use block_stop");
    assert!(
        matches!(tool_stop, Some(StreamEvent::ToolUseDone)),
        "tool_use block_stop should be ToolUseDone, got {:?}",
        tool_stop
    );
}

#[test]
fn parser_content_block_start_tool_use_missing_id_returns_error() {
    let mut parser = AnthropicCompatSseParser::new();
    let data = r#"{"type":"content_block_start","index":0,"content_block":{"type":"tool_use","name":"bash"}}"#;
    assert!(
        parser.parse(data).is_err(),
        "missing 'id' should return error"
    );
}

#[test]
fn parser_content_block_start_tool_use_missing_name_returns_error() {
    let mut parser = AnthropicCompatSseParser::new();
    let data = r#"{"type":"content_block_start","index":0,"content_block":{"type":"tool_use","id":"toolu_01"}}"#;
    assert!(
        parser.parse(data).is_err(),
        "missing 'name' should return error"
    );
}

#[test]
fn parser_input_json_delta_missing_partial_json_returns_error() {
    let mut parser = AnthropicCompatSseParser::new();
    let data =
        r#"{"type":"content_block_delta","index":1,"delta":{"type":"input_json_delta"}}"#;
    assert!(
        parser.parse(data).is_err(),
        "missing 'partial_json' should return error"
    );
}

#[test]
fn parser_text_delta_returns_text_delta() {
    let mut parser = AnthropicCompatSseParser::new();
    let data = r#"{"type":"content_block_delta","index":0,"delta":{"type":"text_delta","text":"Hello"}}"#;
    let result = parser.parse(data).expect("should parse successfully");
    match result {
        Some(StreamEvent::TextDelta(text)) => assert_eq!(text, "Hello"),
        other => panic!("expected TextDelta, got {:?}", other),
    }
}

#[test]
fn parser_content_block_start_text_type_returns_none() {
    let mut parser = AnthropicCompatSseParser::new();
    let data =
        r#"{"type":"content_block_start","index":0,"content_block":{"type":"text","text":""}}"#;
    let result = parser.parse(data).expect("should parse successfully");
    assert!(
        result.is_none(),
        "text content_block_start should return None"
    );
}

#[test]
fn parser_fill_buffer_populates_event_buffer() {
    let mut parser = AnthropicCompatSseParser::new();
    parser
        .fill_buffer(r#"{"type":"content_block_delta","index":0,"delta":{"type":"text_delta","text":"Hello"}}"#)
        .expect("should fill buffer successfully");
    assert_eq!(
        parser.event_buffer.len(),
        1,
        "should have 1 event in buffer"
    );
}

#[test]
fn parse_returns_buffered_events_one_at_a_time() {
    let mut parser = AnthropicCompatSseParser::new();
    parser
        .fill_buffer(r#"{"type":"content_block_delta","index":0,"delta":{"type":"text_delta","text":"Hello"}}"#)
        .expect("should fill buffer successfully");

    let result1 = parser.parse("").expect("should parse successfully");
    assert!(result1.is_some(), "first parse should return Some(event)");

    let result2 = parser.parse("").expect("should parse successfully");
    assert!(result2.is_none(), "second parse should return None");
}

#[test]
fn fill_buffer_accumulates_multiple_events() {
    let mut parser = AnthropicCompatSseParser::new();

    parser
        .fill_buffer(r#"{"type":"content_block_delta","index":0,"delta":{"type":"text_delta","text":"Hello"}}"#)
        .expect("should fill first event");

    parser
        .fill_buffer(r#"{"type":"content_block_delta","index":0,"delta":{"type":"text_delta","text":" World"}}"#)
        .expect("should fill second event");

    parser
        .fill_buffer(r#"{"type":"message_stop"}"#)
        .expect("should fill third event");

    assert_eq!(
        parser.event_buffer.len(),
        3,
        "buffer should contain 3 events"
    );

    let event1 = parser.parse("").expect("first parse");
    assert!(event1.is_some(), "should get first event");

    let event2 = parser.parse("").expect("second parse");
    assert!(event2.is_some(), "should get second event");

    let event3 = parser.parse("").expect("third parse");
    assert!(event3.is_some(), "should get third event");

    let event4 = parser.parse("").expect("fourth parse");
    assert!(event4.is_none(), "buffer should be empty after 3 events");
}

#[test]
fn parser_thinking_delta_returns_thinking_delta() {
    let mut parser = AnthropicCompatSseParser::new();
    let data = r#"{"type":"content_block_delta","index":1,"delta":{"type":"thinking_delta","thinking":"Let me reason about this"}}"#;
    let result = parser.parse(data).expect("should parse successfully");
    match result {
        Some(StreamEvent::ThinkingDelta(text)) => {
            assert_eq!(text, "Let me reason about this");
        }
        other => panic!("expected ThinkingDelta, got {:?}", other),
    }
}

#[test]
fn parser_thinking_block_start_does_not_emit_event() {
    let mut parser = AnthropicCompatSseParser::new();
    let data = r#"{"type":"content_block_start","index":1,"content_block":{"type":"thinking","thinking":""}}"#;
    let result = parser.parse(data).expect("should parse successfully");
    assert!(
        result.is_none(),
        "thinking content_block_start should return None, got {:?}",
        result
    );
}

#[test]
fn parser_redacted_thinking_block_start_captures_data() {
    let mut parser = AnthropicCompatSseParser::new();
    let data = r#"{"type":"content_block_start","index":2,"content_block":{"type":"redacted_thinking","data":"aGVsbG8gd29ybGQ="}}"#;
    let result = parser.parse(data).expect("should parse successfully");
    match result {
        Some(StreamEvent::ThinkingDelta(data)) => {
            assert_eq!(data, "aGVsbG8gd29ybGQ=");
        }
        other => panic!(
            "expected ThinkingDelta for redacted_thinking, got {:?}",
            other
        ),
    }
}

#[test]
fn parser_redacted_thinking_block_start_without_data_does_not_emit() {
    let mut parser = AnthropicCompatSseParser::new();
    let data = r#"{"type":"content_block_start","index":2,"content_block":{"type":"redacted_thinking"}}"#;
    let result = parser.parse(data).expect("should parse successfully");
    assert!(
        result.is_none(),
        "redacted_thinking without data should return None, got {:?}",
        result
    );
}

#[test]
fn parser_content_block_stop_after_thinking_emits_signature_via_signature_delta() {
    let mut parser = AnthropicCompatSseParser::new();
    parser
        .parse(r#"{"type":"content_block_start","index":1,"content_block":{"type":"thinking","thinking":""}}"#)
        .expect("should parse thinking block_start");
    parser
        .parse(r#"{"type":"content_block_delta","index":1,"delta":{"type":"signature_delta","signature":"sig_abc123"}}"#)
        .expect("should parse signature_delta");
    let result = parser
        .parse(r#"{"type":"content_block_stop","index":1}"#)
        .expect("should parse block_stop");
    match result {
        Some(StreamEvent::ThinkingSignature(sig)) => {
            assert_eq!(sig, "sig_abc123");
        }
        other => panic!("expected ThinkingSignature, got {:?}", other),
    }
}

#[test]
fn parser_chunked_signature_delta_accumulates() {
    let mut parser = AnthropicCompatSseParser::new();
    parser
        .parse(r#"{"type":"content_block_start","index":0,"content_block":{"type":"thinking","thinking":""}}"#)
        .expect("block_start");
    parser
        .parse(r#"{"type":"content_block_delta","index":0,"delta":{"type":"signature_delta","signature":"chunk1_"}}"#)
        .expect("first signature_delta");
    parser
        .parse(r#"{"type":"content_block_delta","index":0,"delta":{"type":"signature_delta","signature":"chunk2"}}"#)
        .expect("second signature_delta");
    let result = parser
        .parse(r#"{"type":"content_block_stop","index":0}"#)
        .expect("block_stop");
    match result {
        Some(StreamEvent::ThinkingSignature(sig)) => {
            assert_eq!(sig, "chunk1_chunk2");
        }
        other => panic!("expected ThinkingSignature, got {:?}", other),
    }
}

#[test]
fn parser_thinking_block_with_no_signature_delta_emits_empty_signature() {
    let mut parser = AnthropicCompatSseParser::new();
    parser
        .parse(r#"{"type":"content_block_start","index":0,"content_block":{"type":"thinking","thinking":""}}"#)
        .expect("block_start");
    let result = parser
        .parse(r#"{"type":"content_block_stop","index":0}"#)
        .expect("block_stop");
    match result {
        Some(StreamEvent::ThinkingSignature(sig)) => {
            assert!(
                sig.is_empty(),
                "no signature_delta → empty signature emitted"
            );
        }
        other => panic!("expected ThinkingSignature, got {:?}", other),
    }
}

#[test]
fn parser_signature_delta_missing_index_returns_error() {
    let mut parser = AnthropicCompatSseParser::new();
    parser
        .parse(r#"{"type":"content_block_start","index":0,"content_block":{"type":"thinking","thinking":""}}"#)
        .expect("block_start");
    let result = parser.parse(
        r#"{"type":"content_block_delta","delta":{"type":"signature_delta","signature":"abc"}}"#,
    );
    assert!(
        result.is_err(),
        "signature_delta with missing index should return error"
    );
}

#[test]
fn parser_signature_delta_non_string_signature_returns_error() {
    let mut parser = AnthropicCompatSseParser::new();
    parser
        .parse(r#"{"type":"content_block_start","index":0,"content_block":{"type":"thinking","thinking":""}}"#)
        .expect("block_start");
    let result = parser.parse(
        r#"{"type":"content_block_delta","index":0,"delta":{"type":"signature_delta","signature":42}}"#,
    );
    assert!(
        result.is_err(),
        "signature_delta with non-string signature should return error"
    );
}

#[test]
fn parser_max_tokens_emits_typed_error() {
    let mut parser = AnthropicCompatSseParser::new();
    parser
        .parse(r#"{"type":"message_start","message":{"usage":{"input_tokens":100}}}"#)
        .expect("message_start");
    let data = r#"{"type":"message_delta","delta":{"stop_reason":"max_tokens"},"usage":{"output_tokens":200}}"#;
    let result = parser.parse(data);
    assert!(result.is_err());
    let err = result.expect_err("should be error");
    let backend_err = err
        .backend()
        .expect("should downcast to BackendError");
    assert!(
        matches!(
            backend_err,
            BackendError::MaxTokensExceeded {
                input_tokens: 100,
                output_tokens: 200
            }
        ),
        "should be MaxTokensExceeded with correct token counts; got: {backend_err:?}"
    );
}

#[test]
fn parser_normal_stop_reason_still_emits_usage() {
    let mut parser = AnthropicCompatSseParser::new();
    parser
        .parse(r#"{"type":"message_start","message":{"usage":{"input_tokens":50}}}"#)
        .expect("message_start");
    let data = r#"{"type":"message_delta","delta":{"stop_reason":"end_turn"},"usage":{"output_tokens":30}}"#;
    let result = parser.parse(data).expect("should parse successfully");
    match result {
        Some(StreamEvent::Usage {
            input_tokens,
            output_tokens,
            stop_reason,
        }) => {
            assert_eq!(input_tokens, 50);
            assert_eq!(output_tokens, 30);
            assert_eq!(stop_reason, "end_turn");
        }
        other => panic!("expected Usage event, got {:?}", other),
    }
}

#[test]
fn parser_refusal_stop_reason_returns_refusal_error() {
    let mut parser = AnthropicCompatSseParser::new();
    parser
        .parse(r#"{"type":"message_start","message":{"usage":{"input_tokens":100}}}"#)
        .expect("message_start");
    let data = r#"{"type":"message_delta","delta":{"stop_reason":"refusal"},"usage":{"output_tokens":50}}"#;
    let result = parser.parse(data);
    assert!(result.is_err());
    let err = result.expect_err("should be error");
    let backend_err = err
        .backend()
        .expect("should downcast to BackendError");
    assert!(
        matches!(backend_err, BackendError::Refusal),
        "should be Refusal; got: {backend_err:?}"
    );
}

#[test]
fn parser_content_filter_stop_reason_returns_refusal_error() {
    let mut parser = AnthropicCompatSseParser::new();
    parser
        .parse(r#"{"type":"message_start","message":{"usage":{"input_tokens":100}}}"#)
        .expect("message_start");
    let data = r#"{"type":"message_delta","delta":{"stop_reason":"content_filter"},"usage":{"output_tokens":50}}"#;
    let result = parser.parse(data);
    assert!(result.is_err());
    let err = result.expect_err("should be error");
    let backend_err = err
        .backend()
        .expect("should downcast to BackendError");
    assert!(
        matches!(backend_err, BackendError::Refusal),
        "should be Refusal; got: {backend_err:?}"
    );
}

#[test]
fn message_delta_without_usage_defaults_to_zero() {
    let mut parser = AnthropicCompatSseParser::new();
    parser
        .parse(r#"{"type":"message_start","message":{"usage":{"input_tokens":100}}}"#)
        .expect("message_start");
    let data = r#"{"type":"message_delta","delta":{"stop_reason":"end_turn"}}"#;
    let result = parser.parse(data).expect("should parse successfully");
    match result {
        Some(StreamEvent::Usage {
            input_tokens,
            output_tokens,
            stop_reason,
        }) => {
            assert_eq!(input_tokens, 100);
            assert_eq!(output_tokens, 0, "missing usage should default to 0");
            assert_eq!(stop_reason, "end_turn");
        }
        other => panic!("expected Usage event, got {:?}", other),
    }
}
