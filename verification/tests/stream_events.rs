use fresher::streaming::{
    classify_line, process_lines, ContentBlock, Delta, StreamEvent, UserContentBlock,
};

#[test]
fn test_parse_event_system() {
    let json = r#"{"type":"system","subtype":"init","session_id":"abc123"}"#;
    match classify_line(json).unwrap() {
        StreamEvent::System(e) => {
            assert_eq!(e.subtype, Some("init".to_string()));
            assert_eq!(e.session_id, Some("abc123".to_string()));
        },
        _ => panic!("expected a system event"),
    }
}

#[test]
fn test_parse_event_assistant_text() {
    let json = r#"{"type":"assistant","message":{"content":[{"type":"text","text":"Hello world"}]}}"#;
    match classify_line(json).unwrap() {
        StreamEvent::Assistant(e) => {
            let msg = e.message.unwrap();
            assert_eq!(msg.content.len(), 1);
            match &msg.content[0] {
                ContentBlock::Text { text } => assert_eq!(text, "Hello world"),
                _ => panic!("expected a text block"),
            }
        },
        _ => panic!("expected an assistant event"),
    }
}

#[test]
fn test_parse_event_assistant_tool_use() {
    let json = r#"{"type":"assistant","message":{"content":[{"type":"tool_use","id":"tool1","name":"Bash","input":{"command":"ls -la"}}]}}"#;
    match classify_line(json).unwrap() {
        StreamEvent::Assistant(e) => {
            let msg = e.message.unwrap();
            assert_eq!(msg.content.len(), 1);
            match &msg.content[0] {
                ContentBlock::ToolUse { id, name, input_json } => {
                    assert_eq!(id, "tool1");
                    assert_eq!(name, "Bash");
                    assert_eq!(input_json, r#"{"command":"ls -la"}"#);
                },
                _ => panic!("expected a tool use block"),
            }
        },
        _ => panic!("expected an assistant event"),
    }
}

#[test]
fn test_parse_event_user_tool_result() {
    let json = r#"{"type":"user","message":{"content":[{"type":"tool_result","tool_use_id":"tool1","content":"output text"}]}}"#;
    match classify_line(json).unwrap() {
        StreamEvent::User(e) => {
            let msg = e.message.unwrap();
            assert_eq!(msg.content.len(), 1);
            match &msg.content[0] {
                UserContentBlock::ToolResult { tool_use_id, content } => {
                    assert_eq!(tool_use_id, "tool1");
                    assert_eq!(content, "output text");
                },
                _ => panic!("expected a tool result block"),
            }
        },
        _ => panic!("expected a user event"),
    }
}

#[test]
fn test_parse_event_content_block_start() {
    let json = r#"{"type":"content_block_start","index":0,"content_block":{"type":"tool_use","id":"tool1","name":"Read","input":{}}}"#;
    match classify_line(json).unwrap() {
        StreamEvent::ContentBlockStart(e) => {
            assert_eq!(e.index, Some(0));
            match e.content_block.unwrap() {
                ContentBlock::ToolUse { name, .. } => assert_eq!(name, "Read"),
                _ => panic!("expected a tool use block"),
            }
        },
        _ => panic!("expected a block start event"),
    }
}

#[test]
fn test_parse_event_content_block_delta_text() {
    let json = r#"{"type":"content_block_delta","index":0,"delta":{"type":"text_delta","text":"partial output"}}"#;
    match classify_line(json).unwrap() {
        StreamEvent::ContentBlockDelta(e) => {
            assert_eq!(e.index, Some(0));
            match e.delta.unwrap() {
                Delta::TextDelta { text } => assert_eq!(text, "partial output"),
                _ => panic!("expected a text delta"),
            }
        },
        _ => panic!("expected a delta event"),
    }
}

#[test]
fn test_parse_event_content_block_delta_json() {
    let json = r#"{"type":"content_block_delta","index":0,"delta":{"type":"input_json_delta","partial_json":"{\"key\":"}}"#;
    match classify_line(json).unwrap() {
        StreamEvent::ContentBlockDelta(e) => match e.delta.unwrap() {
            Delta::InputJsonDelta { partial_json } => assert_eq!(partial_json, r#"{"key":"#),
            _ => panic!("expected a partial input delta"),
        },
        _ => panic!("expected a delta event"),
    }
}

#[test]
fn test_parse_event_content_block_stop() {
    let json = r#"{"type":"content_block_stop","index":0}"#;
    match classify_line(json).unwrap() {
        StreamEvent::ContentBlockStop(e) => assert_eq!(e.index, Some(0)),
        _ => panic!("expected a block stop event"),
    }
}

#[test]
fn test_parse_event_result() {
    let json = r#"{"type":"result","subtype":"success","is_error":false,"duration_ms":5000,"duration_api_ms":4500,"num_turns":10,"result":"Task completed","cost_usd":0.05,"session_id":"xyz789"}"#;
    match classify_line(json).unwrap() {
        StreamEvent::Result(e) => {
            assert_eq!(e.subtype, Some("success".to_string()));
            assert_eq!(e.is_error, Some(false));
            assert_eq!(e.duration_ms, Some(5000));
            assert_eq!(e.duration_api_ms, Some(4500));
            assert_eq!(e.num_turns, Some(10));
            assert_eq!(e.result, Some("Task completed".to_string()));
            assert_eq!(e.cost_usd, Some("0.05".to_string()));
            assert_eq!(e.session_id, Some("xyz789".to_string()));
        },
        _ => panic!("expected a result event"),
    }
}

#[test]
fn test_parse_event_unknown() {
    let json = r#"{"type":"some_new_type","data":"value"}"#;
    assert!(matches!(classify_line(json).unwrap(), StreamEvent::Unknown));
}

#[test]
fn test_parse_event_invalid_json() {
    assert!(classify_line("not valid json").is_none());
}

#[test]
fn test_parse_event_assistant_multiple_blocks() {
    let json = r#"{"type":"assistant","message":{"content":[{"type":"text","text":"First"},{"type":"text","text":"Second"}]}}"#;
    match classify_line(json).unwrap() {
        StreamEvent::Assistant(e) => {
            assert_eq!(e.message.unwrap().content.len(), 2);
        },
        _ => panic!("expected an assistant event"),
    }
}

#[test]
fn test_content_block_other() {
    let json = r#"{"type":"assistant","message":{"content":[{"type":"some_unknown_type"}]}}"#;
    match classify_line(json).unwrap() {
        StreamEvent::Assistant(e) => {
            let msg = e.message.unwrap();
            assert_eq!(msg.content.len(), 1);
            assert!(matches!(msg.content[0], ContentBlock::Other));
        },
        _ => panic!("expected an assistant event"),
    }
}

#[test]
fn test_delta_other() {
    let json = r#"{"type":"content_block_delta","index":0,"delta":{"type":"some_unknown_delta"}}"#;
    match classify_line(json).unwrap() {
        StreamEvent::ContentBlockDelta(e) => {
            assert!(matches!(e.delta.unwrap(), Delta::Other));
        },
        _ => panic!("expected a delta event"),
    }
}

#[test]
fn test_classification_idempotent() {
    // the same line yields structurally equal events, as often as asked
    let json = r#"{"type":"system","subtype":"init","session_id":"abc123"}"#;
    let a = classify_line(json);
    let b = classify_line(json);
    assert_eq!(a, b);
    let lines = vec![json.to_string(), json.to_string()];
    let (events, _summary) = process_lines(&lines);
    assert_eq!(events.len(), 2);
    assert_eq!(events[0], events[1]);
}

#[test]
fn test_process_stream_empty() {
    let lines: Vec<String> = Vec::new();
    let (events, result) = process_lines(&lines);
    assert!(events.is_empty());
    assert_eq!(result.exit_code, 0);
    assert!(result.duration_ms.is_none());
    assert!(result.cost_usd.is_none());
    assert!(result.num_turns.is_none());
    assert!(!result.is_error);
    assert!(result.result_text.is_none());
}

#[test]
fn test_process_stream_with_result() {
    let lines = vec![
        r#"{"type":"result","duration_ms":1000,"cost_usd":0.01,"num_turns":5,"is_error":false}"#
            .to_string(),
    ];
    let (_events, result) = process_lines(&lines);
    assert_eq!(result.duration_ms, Some(1000));
    assert_eq!(result.cost_usd, Some("0.01".to_string()));
    assert_eq!(result.num_turns, Some(5));
    assert!(!result.is_error);
}

#[test]
fn test_process_stream_skips_empty_lines() {
    let lines = vec![
        "".to_string(),
        "  ".to_string(),
        r#"{"type":"result","duration_ms":500}"#.to_string(),
        "".to_string(),
    ];
    let (events, result) = process_lines(&lines);
    assert_eq!(events.len(), 1);
    assert_eq!(result.duration_ms, Some(500));
}

#[test]
fn test_process_stream_handles_invalid_json() {
    let lines = vec![
        "invalid json".to_string(),
        r#"{"type":"result","duration_ms":100}"#.to_string(),
    ];
    let (events, result) = process_lines(&lines);
    assert_eq!(events.len(), 1);
    assert_eq!(result.duration_ms, Some(100));
}

#[test]
fn test_process_stream_error_result() {
    let lines = vec![r#"{"type":"result","is_error":true}"#.to_string()];
    let (_events, result) = process_lines(&lines);
    assert!(result.is_error);
}

#[test]
fn test_process_stream_last_result_wins() {
    let lines = vec![
        r#"{"type":"result","duration_ms":1,"num_turns":1}"#.to_string(),
        r#"{"type":"system","subtype":"note"}"#.to_string(),
        r#"{"type":"result","duration_ms":2}"#.to_string(),
    ];
    let (events, result) = process_lines(&lines);
    assert_eq!(events.len(), 3);
    assert_eq!(result.duration_ms, Some(2));
    // the later result event clears what it does not carry
    assert_eq!(result.num_turns, None);
}

#[test]
fn test_order_preserved() {
    let lines = vec![
        r#"{"type":"system","subtype":"first"}"#.to_string(),
        r#"{"type":"content_block_stop","index":3}"#.to_string(),
        r#"{"type":"system","subtype":"third"}"#.to_string(),
    ];
    let (events, _result) = process_lines(&lines);
    assert_eq!(events.len(), 3);
    match &events[0] {
        StreamEvent::System(e) => assert_eq!(e.subtype, Some("first".to_string())),
        _ => panic!("expected the first system event"),
    }
    assert!(matches!(events[1], StreamEvent::ContentBlockStop(_)));
    match &events[2] {
        StreamEvent::System(e) => assert_eq!(e.subtype, Some("third".to_string())),
        _ => panic!("expected the second system event"),
    }
}
