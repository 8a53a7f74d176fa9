use agent_core::backend::ollama::{OllamaBackend, OllamaParser};
use agent_core::config::OllamaConfig;
use agent_core::json::Json;
use agent_core::types::{
    ContentBlock, Message, RequestConfig, Role, StreamEvent, ThinkingConfig, ThinkingMode,
    ToolDefinition,
};

fn library_json(text: &str) -> Json {
    Json::parse(text).expect("valid JSON")
}

#[test]
fn ollama_parser_text_delta() {
    let mut parser = OllamaParser::new();
    let events = parser
        .parse_chunk(r#"{"message":{"content":"Hello"}}"#)
        .unwrap();
    assert_eq!(events.len(), 1);
    assert!(matches!(&events[0], StreamEvent::TextDelta(t) if t == "Hello"));
}

#[test]
fn parser_empty_content_produces_no_text_delta() {
    let mut parser = OllamaParser::new();
    let events = parser.parse_chunk(r#"{"message":{"content":""}}"#).unwrap();
    assert!(events.is_empty());
}

#[test]
fn parser_single_tool_call() {
    let mut parser = OllamaParser::new();
    let chunk = r#"{"message":{"tool_calls":[{"id":"call_1","function":{"name":"bash","arguments":{"command":"ls"}}}]}}"#;
    let events = parser.parse_chunk(chunk).unwrap();
    assert_eq!(events.len(), 3);
    assert!(
        matches!(&events[0], StreamEvent::ToolUseStart { id, name } if id == "call_1" && name == "bash")
    );
    assert!(matches!(&events[1], StreamEvent::ToolUseDelta(args) if args.contains("ls")));
    assert!(matches!(&events[2], StreamEvent::ToolUseDone));
}

#[test]
fn parser_multiple_tool_calls_in_one_chunk() {
    let mut parser = OllamaParser::new();
    let chunk = r#"{"message":{"tool_calls":[{"id":"c1","function":{"name":"bash","arguments":{"command":"ls"}}},{"id":"c2","function":{"name":"read_file","arguments":{"path":"foo.rs"}}}]}}"#;
    let events = parser.parse_chunk(chunk).unwrap();
    assert_eq!(events.len(), 6);
    assert!(matches!(&events[0], StreamEvent::ToolUseStart { name, .. } if name == "bash"));
    assert!(matches!(&events[1], StreamEvent::ToolUseDelta(_)));
    assert!(matches!(&events[2], StreamEvent::ToolUseDone));
    assert!(
        matches!(&events[3], StreamEvent::ToolUseStart { name, .. } if name == "read_file")
    );
    assert!(matches!(&events[4], StreamEvent::ToolUseDelta(_)));
    assert!(matches!(&events[5], StreamEvent::ToolUseDone));
}

#[test]
fn parser_done_chunk_with_usage() {
    let mut parser = OllamaParser::new();
    let chunk = r#"{"done":true,"prompt_eval_count":10,"eval_count":20,"done_reason":"stop"}"#;
    let events = parser.parse_chunk(chunk).unwrap();
    assert_eq!(events.len(), 2);
    assert!(
        matches!(&events[0], StreamEvent::Usage { input_tokens: 10, output_tokens: 20, stop_reason } if stop_reason == "stop")
    );
    assert!(matches!(&events[1], StreamEvent::Done));
}

#[test]
fn parser_done_chunk_without_usage_still_emits_done() {
    let mut parser = OllamaParser::new();
    let chunk = r#"{"done":true}"#;
    let events = parser.parse_chunk(chunk).unwrap();
    assert_eq!(events.len(), 1);
    assert!(matches!(&events[0], StreamEvent::Done));
}

#[test]
fn parser_error_chunk() {
    let mut parser = OllamaParser::new();
    let chunk = r#"{"error":"model not found"}"#;
    let result = parser.parse_chunk(chunk);
    assert!(result.is_err());
    assert!(result.unwrap_err().message().contains("model not found"));
}

#[test]
fn parser_done_reason_propagated_as_stop_reason() {
    let mut parser = OllamaParser::new();
    let chunk = r#"{"done":true,"prompt_eval_count":5,"eval_count":3,"done_reason":"length"}"#;
    let events = parser.parse_chunk(chunk).unwrap();
    assert!(
        matches!(&events[0], StreamEvent::Usage { stop_reason, .. } if stop_reason == "length")
    );
}

#[test]
fn parser_invalid_json_returns_error() {
    let mut parser = OllamaParser::new();
    let result = parser.parse_chunk("not json");
    assert!(result.is_err());
}

#[test]
fn request_body_has_model_stream_and_options() {
    let backend = OllamaBackend::new(&OllamaConfig {
        api_key: "test-key".to_string(),
        model: "gpt-oss:120b".to_string(),
        base_url: "https://ollama.com/api/chat".to_string(),
        max_tokens: None,
    })
    .unwrap();
    let config = RequestConfig {
        model: "gpt-oss:120b".to_string(),
        max_tokens: 4096,
        tools: vec![],
        thinking: None,
    };
    let messages = vec![Message {
        role: Role::User,
        content: vec![ContentBlock::Text("Hello".to_string())],
    }];

    let body = backend.build_request_body(&messages, &config).to_value();

    assert_eq!(body["model"], "gpt-oss:120b");
    assert_eq!(body["stream"], true);
    assert_eq!(body["options"]["num_predict"], 4096);
}

#[test]
fn request_body_includes_tools_array() {
    let backend = OllamaBackend::new(&OllamaConfig {
        api_key: "test-key".to_string(),
        model: "gpt-oss:120b".to_string(),
        base_url: "https://ollama.com/api/chat".to_string(),
        max_tokens: None,
    })
    .unwrap();
    let config = RequestConfig {
        model: "gpt-oss:120b".to_string(),
        max_tokens: 4096,
        tools: vec![ToolDefinition {
            name: "bash".to_string(),
            description: "Execute bash commands".to_string(),
            input_schema: library_json(r#"{ "type": "object", "properties": { "command": {"type": "string"} }, "required": ["command"] }"#),
        }],
        thinking: None,
    };
    let messages = vec![Message {
        role: Role::User,
        content: vec![ContentBlock::Text("Hello".to_string())],
    }];

    let body = backend.build_request_body(&messages, &config).to_value();

    let tools = body["tools"].as_array().expect("tools should be array");
    assert_eq!(tools.len(), 1);
    assert_eq!(tools[0]["type"], "function");
    assert_eq!(tools[0]["function"]["name"], "bash");
    assert_eq!(tools[0]["function"]["description"], "Execute bash commands");
    assert_eq!(tools[0]["function"]["parameters"]["type"], "object");
}

#[test]
fn request_body_no_tools_field_when_empty() {
    let backend = OllamaBackend::new(&OllamaConfig {
        api_key: "test-key".to_string(),
        model: "gpt-oss:120b".to_string(),
        base_url: "https://ollama.com/api/chat".to_string(),
        max_tokens: None,
    })
    .unwrap();
    let config = RequestConfig {
        model: "gpt-oss:120b".to_string(),
        max_tokens: 4096,
        tools: vec![],
        thinking: None,
    };
    let messages = vec![Message {
        role: Role::User,
        content: vec![ContentBlock::Text("Hello".to_string())],
    }];

    let body = backend.build_request_body(&messages, &config).to_value();
    assert!(
        body.get("tools").is_none(),
        "should not include tools field when empty"
    );
}

#[test]
fn ollama_request_body_does_not_include_parallel_tool_calls_field() {
    // Ollama's /api/chat does not support a parallel_tool_calls flag.
    // This test pins the body shape to ensure no such field is ever added.
    let backend = OllamaBackend::new(&OllamaConfig {
        api_key: "test-key".to_string(),
        model: "gpt-oss:120b".to_string(),
        base_url: "https://ollama.com/api/chat".to_string(),
        max_tokens: None,
    })
    .unwrap();
    let config = RequestConfig {
        model: "gpt-oss:120b".to_string(),
        max_tokens: 4096,
        tools: vec![ToolDefinition {
            name: "bash".to_string(),
            description: "Run bash".to_string(),
            input_schema: library_json(r#"{"type": "object", "properties": {}}"#),
        }],
        thinking: None,
    };
    let body = backend.build_request_body(&[], &config).to_value();
    assert!(
        body.get("parallel_tool_calls").is_none(),
        "Ollama /api/chat has no parallel_tool_calls field; got: {body}"
    );
}

#[test]
fn request_body_assistant_tool_calls_arguments_as_object() {
    let backend = OllamaBackend::new(&OllamaConfig {
        api_key: "test-key".to_string(),
        model: "gpt-oss:120b".to_string(),
        base_url: "https://ollama.com/api/chat".to_string(),
        max_tokens: None,
    })
    .unwrap();
    let config = RequestConfig {
        model: "gpt-oss:120b".to_string(),
        max_tokens: 4096,
        tools: vec![],
        thinking: None,
    };
    let messages = vec![Message {
        role: Role::Assistant,
        content: vec![ContentBlock::ToolUse {
            id: "tool_0".to_string(),
            name: "bash".to_string(),
            input: library_json(r#"{"command": "ls"}"#),
        }],
    }];

    let body = backend.build_request_body(&messages, &config).to_value();
    let msgs = body["messages"].as_array().expect("messages array");
    assert_eq!(msgs[0]["role"], "assistant");

    let tool_calls = msgs[0]["tool_calls"].as_array().expect("tool_calls array");
    assert_eq!(tool_calls.len(), 1);
    assert_eq!(tool_calls[0]["function"]["name"], "bash");

    let args = &tool_calls[0]["function"]["arguments"];
    assert!(
        args.is_object(),
        "arguments must be a JSON object, not a string, got: {}",
        args
    );
    assert_eq!(args["command"], "ls");
}

#[test]
fn request_body_tool_result_maps_to_role_tool() {
    let backend = OllamaBackend::new(&OllamaConfig {
        api_key: "test-key".to_string(),
        model: "gpt-oss:120b".to_string(),
        base_url: "https://ollama.com/api/chat".to_string(),
        max_tokens: None,
    })
    .unwrap();
    let config = RequestConfig {
        model: "gpt-oss:120b".to_string(),
        max_tokens: 4096,
        tools: vec![],
        thinking: None,
    };
    let messages = vec![Message {
        role: Role::User,
        content: vec![ContentBlock::ToolResult {
            tool_use_id: "tool_0".to_string(),
            content: "file1.txt\nfile2.txt".to_string(),
            is_error: false,
        }],
    }];

    let body = backend.build_request_body(&messages, &config).to_value();
    let msgs = body["messages"].as_array().expect("messages array");
    assert_eq!(msgs.len(), 1);
    assert_eq!(msgs[0]["role"], "tool");
    assert_eq!(msgs[0]["tool_call_id"], "tool_0");
    assert_eq!(msgs[0]["content"], "file1.txt\nfile2.txt");
}

#[test]
fn request_body_full_tool_use_round_trip() {
    let backend = OllamaBackend::new(&OllamaConfig {
        api_key: "test-key".to_string(),
        model: "gpt-oss:120b".to_string(),
        base_url: "https://ollama.com/api/chat".to_string(),
        max_tokens: None,
    })
    .unwrap();
    let config = RequestConfig {
        model: "gpt-oss:120b".to_string(),
        max_tokens: 4096,
        tools: vec![],
        thinking: None,
    };
    let messages = vec![
        Message {
            role: Role::User,
            content: vec![ContentBlock::Text("run ls".to_string())],
        },
        Message {
            role: Role::Assistant,
            content: vec![ContentBlock::ToolUse {
                id: "tool_0".to_string(),
                name: "bash".to_string(),
                input: library_json(r#"{"command": "ls"}"#),
            }],
        },
        Message {
            role: Role::User,
            content: vec![ContentBlock::ToolResult {
                tool_use_id: "tool_0".to_string(),
                content: "file1.txt".to_string(),
                is_error: false,
            }],
        },
    ];

    let body = backend.build_request_body(&messages, &config).to_value();
    let msgs = body["messages"].as_array().expect("messages array");
    assert_eq!(msgs.len(), 3);
    assert_eq!(msgs[0]["role"], "user");
    assert_eq!(msgs[1]["role"], "assistant");
    assert!(msgs[1]["tool_calls"].as_array().is_some());
    assert_eq!(msgs[2]["role"], "tool");
    assert_eq!(msgs[2]["tool_call_id"], "tool_0");
    assert_eq!(msgs[2]["content"], "file1.txt");
}

#[test]
fn new_rejects_empty_api_key_for_cloud_endpoint() {
    let result = OllamaBackend::new(&OllamaConfig {
        api_key: "".to_string(),
        model: "gpt-oss:120b".to_string(),
        base_url: "https://ollama.com/api/chat".to_string(),
        max_tokens: None,
    });
    assert!(result.is_err());
    assert!(result.unwrap_err().message().contains("API key"));
}

#[test]
fn new_allows_empty_api_key_for_self_hosted() {
    let result = OllamaBackend::new(&OllamaConfig {
        api_key: "".to_string(),
        model: "gpt-oss:120b".to_string(),
        base_url: "http://localhost:11434/api/chat".to_string(),
        max_tokens: None,
    });
    assert!(result.is_ok(), "should accept empty key for self-hosted");
}

#[test]
fn new_accepts_valid_config() {
    let backend = OllamaBackend::new(&OllamaConfig {
        api_key: "my-key".to_string(),
        model: "gpt-oss:120b".to_string(),
        base_url: "https://ollama.com/api/chat".to_string(),
        max_tokens: None,
    });
    assert!(backend.is_ok());
    let b = backend.unwrap();
    assert_eq!(b.endpoint, "https://ollama.com/api/chat");
}

#[test]
fn parser_missing_tool_name_bails() {
    let mut parser = OllamaParser::new();
    let chunk = r#"{"message":{"tool_calls":[{"id":"c1","function":{"arguments":{}}}]}}"#;
    let result = parser.parse_chunk(chunk);
    assert!(result.is_err());
    assert!(
        result
            .unwrap_err().message()
            .contains("missing or empty function name")
    );
}

#[test]
fn parser_empty_tool_name_bails() {
    let mut parser = OllamaParser::new();
    let chunk =
        r#"{"message":{"tool_calls":[{"id":"c1","function":{"name":"","arguments":{}}}]}}"#;
    let result = parser.parse_chunk(chunk);
    assert!(result.is_err());
    assert!(
        result
            .unwrap_err().message()
            .contains("missing or empty function name")
    );
}

#[test]
fn parser_missing_id_generates_fallback() {
    let mut parser = OllamaParser::new();
    let chunk = r#"{"message":{"tool_calls":[{"function":{"name":"bash","arguments":{"command":"ls"}}}]}}"#;
    let events = parser.parse_chunk(chunk).unwrap();
    assert_eq!(events.len(), 3);
    if let StreamEvent::ToolUseStart { id, name } = &events[0] {
        assert_eq!(name, "bash");
        assert_eq!(id, "tool_0", "should generate fallback ID with index");
    } else {
        panic!("expected ToolUseStart");
    }
}

#[test]
fn parser_chunk_with_both_text_and_tool_calls() {
    let mut parser = OllamaParser::new();
    let chunk = r#"{"message":{"content":"Thinking...","tool_calls":[{"id":"c1","function":{"name":"bash","arguments":{"command":"ls"}}}]}}"#;
    let events = parser.parse_chunk(chunk).unwrap();
    assert_eq!(events.len(), 4);
    assert!(matches!(&events[0], StreamEvent::TextDelta(t) if t == "Thinking..."));
    assert!(matches!(&events[1], StreamEvent::ToolUseStart { .. }));
    assert!(matches!(&events[2], StreamEvent::ToolUseDelta(_)));
    assert!(matches!(&events[3], StreamEvent::ToolUseDone));
}

#[test]
fn parser_thinking_field_produces_thinking_delta() {
    let mut parser = OllamaParser::new();
    let chunk = r#"{"message":{"content":"","thinking":"Let me reason about this..."}}"#;
    let events = parser.parse_chunk(chunk).unwrap();
    assert_eq!(events.len(), 1);
    assert!(
        matches!(&events[0], StreamEvent::ThinkingDelta(t) if t == "Let me reason about this...")
    );
}

#[test]
fn parser_thinking_field_empty_produces_no_thinking_delta() {
    let mut parser = OllamaParser::new();
    let chunk = r#"{"message":{"content":"","thinking":""}}"#;
    let events = parser.parse_chunk(chunk).unwrap();
    assert!(events.is_empty());
}

#[test]
fn request_body_with_thinking_adds_thinking_option() {
    let backend = OllamaBackend::new(&OllamaConfig {
        api_key: "test-key".to_string(),
        model: "gpt-oss:120b".to_string(),
        base_url: "https://ollama.com/api/chat".to_string(),
        max_tokens: None,
    })
    .unwrap();
    let config = RequestConfig {
        model: "gpt-oss:120b".to_string(),
        max_tokens: 4096,
        tools: vec![],
        thinking: Some(ThinkingConfig {
            enabled: true,
            mode: ThinkingMode::Adaptive,
            display: None,
        }),
    };
    let messages = vec![Message {
        role: Role::User,
        content: vec![ContentBlock::Text("Hello".to_string())],
    }];

    let body = backend.build_request_body(&messages, &config).to_value();
    assert_eq!(body["options"]["thinking"], true);
}

#[test]
fn request_body_without_thinking_has_no_thinking_option() {
    let backend = OllamaBackend::new(&OllamaConfig {
        api_key: "test-key".to_string(),
        model: "gpt-oss:120b".to_string(),
        base_url: "https://ollama.com/api/chat".to_string(),
        max_tokens: None,
    })
    .unwrap();
    let config = RequestConfig {
        model: "gpt-oss:120b".to_string(),
        max_tokens: 4096,
        tools: vec![],
        thinking: None,
    };
    let messages = vec![Message {
        role: Role::User,
        content: vec![ContentBlock::Text("Hello".to_string())],
    }];

    let body = backend.build_request_body(&messages, &config).to_value();
    assert!(
        body["options"].get("thinking").is_none(),
        "should not include thinking option when config.thinking is None"
    );
}

#[test]
fn parser_chunk_with_both_thinking_and_content() {
    let mut parser = OllamaParser::new();
    let chunk = r#"{"message":{"content":"Here is the answer","thinking":"Let me work through this step by step..."}}"#;
    let events = parser.parse_chunk(chunk).unwrap();
    assert_eq!(events.len(), 2);
    assert!(matches!(&events[0], StreamEvent::TextDelta(t) if t == "Here is the answer"));
    assert!(
        matches!(&events[1], StreamEvent::ThinkingDelta(t) if t == "Let me work through this step by step...")
    );
}
