use bifrost::agent_config::{
    claude_word_text, CLAUDE_CODE_ADAPTER, TRAEX_ADAPTER,
};
use bifrost::gateway_config::default_claude_code_runner_id;
use bifrost::json::Json;
use bifrost::map::TextMap;
use bifrost::metadata::append_external_cli_metadata;
use bifrost::progress::{
    enrich_progress_event_observation, external_progress_arguments_text,
    external_progress_plan_steps, external_progress_to_agent_turn_event, parse_progress_events,
    AgentTurnProgressEvent, ExternalCliProgressEvent, ExternalCliProgressEventType,
    ExternalCliProgressStatusContext, PlanStepStatus,
};
use bifrost::runtime::StdoutReader;

fn convert(value: serde_json::Value) -> Json {
    match value {
        serde_json::Value::Null => Json::Null,
        serde_json::Value::Bool(b) => Json::Bool(b),
        serde_json::Value::Number(n) => match (n.as_u64(), n.as_i64()) {
            (Some(u), _) => Json::Unsigned(u),
            (None, Some(i)) => Json::Signed(i),
            (None, None) => Json::Float(n),
        },
        serde_json::Value::String(s) => Json::Text(s),
        serde_json::Value::Array(v) => Json::List(v.into_iter().map(convert).collect()),
        serde_json::Value::Object(m) => {
            Json::Object(m.into_iter().map(|(k, v)| (k, convert(v))).collect())
        }
    }
}

fn json(text: &str) -> Json {
    convert(serde_json::from_str(text).expect("valid JSON"))
}

#[test]
fn external_cli_adapter_parser_maps_progress_events() {
    let stdout = r#"{"type":"run_started","content":"start"}
{"type":"assistant_delta","delta":"hello"}
not json
{"type":"tool_started","tool_name":"exec_command","content":"running"}
{"type":"assistant_final","content":"done"}"#;

    let events = parse_progress_events(stdout);

    assert_eq!(events.len(), 4);
    assert_eq!(
        events[0].event_type,
        ExternalCliProgressEventType::RunStarted
    );
    assert_eq!(
        events[1].event_type,
        ExternalCliProgressEventType::AssistantDelta
    );
    assert_eq!(events[1].content, "hello");
    assert_eq!(events[2].title.as_deref(), Some("exec_command"));
    assert_eq!(
        events[3].event_type,
        ExternalCliProgressEventType::AssistantFinal
    );
}

#[test]
fn codex_cli_parser_maps_real_jsonl_events() {
    let stdout = r#"{"type":"thread.started","thread_id":"thread-1"}
{"type":"item.completed","item":{"id":"item_0","type":"error","message":"deprecated config warning"}}
{"type":"turn.started"}
{"type":"item.completed","item":{"id":"item_1","type":"agent_message","text":"BIFROST_REAL_CODEX_OK"}}
{"type":"turn.completed","usage":{"input_tokens":1,"output_tokens":1}}"#;

    let events = parse_progress_events(stdout);

    assert_eq!(events.len(), 5);
    assert_eq!(
        events[0].event_type,
        ExternalCliProgressEventType::RunStarted
    );
    assert_eq!(events[1].event_type, ExternalCliProgressEventType::Status);
    assert_eq!(events[1].content, "deprecated config warning");
    assert_eq!(events[2].event_type, ExternalCliProgressEventType::Status);
    assert_eq!(
        events[3].event_type,
        ExternalCliProgressEventType::AssistantFinal
    );
    assert_eq!(events[3].content, "BIFROST_REAL_CODEX_OK");
    assert_eq!(
        events[4].event_type,
        ExternalCliProgressEventType::RunFinished
    );
}

#[test]
fn codex_cli_parser_maps_real_todo_list_events_to_plan_updates() {
    let stdout = r#"{"type":"item.started","item":{"id":"item_0","type":"todo_list","items":[{"text":"inspect output","completed":false},{"text":"map parser","completed":false},{"text":"verify UI","completed":false}]}}
{"type":"item.updated","item":{"id":"item_0","type":"todo_list","items":[{"text":"inspect output","completed":true},{"text":"map parser","completed":false},{"text":"verify UI","completed":false}]}}
{"type":"item.completed","item":{"id":"item_0","type":"todo_list","items":[{"text":"inspect output","completed":true},{"text":"map parser","completed":false},{"text":"verify UI","completed":false}]}}"#;

    let events = parse_progress_events(stdout);

    assert_eq!(events.len(), 3);
    assert!(events
        .iter()
        .all(|event| event.event_type == ExternalCliProgressEventType::PlanUpdated));
    assert!(events.iter().all(|event| event.title.is_none()));
    let initial_steps = external_progress_plan_steps(&events[0]);
    assert_eq!(initial_steps.len(), 3);
    assert_eq!(initial_steps[0].step, "inspect output");
    assert_eq!(initial_steps[0].status, PlanStepStatus::Pending);
    let updated_steps = external_progress_plan_steps(&events[1]);
    assert_eq!(updated_steps[0].status, PlanStepStatus::Completed);
    assert_eq!(
        updated_steps[1].status,
        PlanStepStatus::Pending,
        "Codex todo_list currently exposes completed=true/false, not in_progress"
    );
}

#[test]
fn generic_plan_updated_parser_accepts_status_fields() {
    let events = parse_progress_events(
        r#"{"type":"plan_updated","title":"Runner plan","items":[{"text":"inspect","status":"completed"},{"text":"map","status":"in_progress"},{"text":"verify","status":"pending"}]}"#,
    );

    assert_eq!(events.len(), 1);
    assert_eq!(
        events[0].event_type,
        ExternalCliProgressEventType::PlanUpdated
    );
    assert_eq!(events[0].title.as_deref(), Some("Runner plan"));
    let steps = external_progress_plan_steps(&events[0]);
    assert_eq!(steps[0].status, PlanStepStatus::Completed);
    assert_eq!(steps[1].status, PlanStepStatus::InProgress);
    assert_eq!(steps[2].status, PlanStepStatus::Pending);
}

#[test]
fn codex_cli_parser_maps_real_command_execution_events() {
    let stdout = r#"{"type":"thread.started","thread_id":"019ea049-6138-7303-ab6e-dacccbd437a7"}
{"type":"turn.started"}
{"type":"item.started","item":{"id":"item_0","type":"command_execution","command":"/bin/zsh -lc pwd","aggregated_output":"","exit_code":null,"status":"in_progress"}}
{"type":"item.completed","item":{"id":"item_0","type":"command_execution","command":"/bin/zsh -lc pwd","aggregated_output":"/Users/eden/work/github/bifrost-traex-runner\n","exit_code":0,"status":"completed"}}
{"type":"item.completed","item":{"id":"item_1","type":"agent_message","text":"BIFROST_CODEX_REALTIME_DIRECT_OK"}}
{"type":"turn.completed","usage":{"input_tokens":59589,"cached_input_tokens":6912,"output_tokens":221,"reasoning_output_tokens":156}}"#;

    let events = parse_progress_events(stdout);

    assert_eq!(events.len(), 6);
    assert_eq!(
        events[2].event_type,
        ExternalCliProgressEventType::ToolStarted
    );
    assert_eq!(events[2].title.as_deref(), Some("exec_command"));
    assert_eq!(events[2].content, "/bin/zsh -lc pwd");
    assert_eq!(
        events[2]
            .raw
            .get("arguments")
            .and_then(|value| value.get("command"))
            .and_then(|value| value.as_str()),
        Some("/bin/zsh -lc pwd")
    );
    assert_eq!(
        events[3].event_type,
        ExternalCliProgressEventType::ToolFinished
    );
    assert_eq!(events[3].title.as_deref(), Some("exec_command"));
    assert_eq!(
        events[3].content,
        "/Users/eden/work/github/bifrost-traex-runner\n"
    );
    assert_eq!(
        events[3]
            .raw
            .get("success")
            .and_then(|value| value.as_bool()),
        Some(true)
    );
    assert_eq!(
        events[4].event_type,
        ExternalCliProgressEventType::AssistantFinal
    );
    assert_eq!(events[4].content, "BIFROST_CODEX_REALTIME_DIRECT_OK");
    assert_eq!(
        events[5].event_type,
        ExternalCliProgressEventType::RunFinished
    );
}

#[test]
fn traex_cli_parser_maps_real_jsonl_events() {
    let stdout = r#"{"type":"thread.started","thread_id":"019e9f78-traex"}
{"type":"turn.started"}
{"type":"item.completed","item":{"id":"item_0","type":"error","message":"model rerouted"}}
{"type":"item.completed","item":{"id":"item_1","type":"agent_message","text":"BIFROST_TRAEX_OK"}}
{"type":"turn.completed","usage":{"input_tokens":1,"output_tokens":1}}"#;

    let events = parse_progress_events(stdout);

    assert_eq!(events.len(), 5);
    assert_eq!(
        events[0].event_type,
        ExternalCliProgressEventType::RunStarted
    );
    assert_eq!(events[0].content, "019e9f78-traex");
    assert_eq!(events[1].event_type, ExternalCliProgressEventType::Status);
    assert_eq!(events[2].event_type, ExternalCliProgressEventType::Status);
    assert_eq!(events[2].content, "model rerouted");
    assert_eq!(
        events[3].event_type,
        ExternalCliProgressEventType::AssistantFinal
    );
    assert_eq!(events[3].content, "BIFROST_TRAEX_OK");
}

#[test]
fn claude_code_parser_maps_stream_json_events() {
    let stdout = r#"{"type":"system","subtype":"init","session_id":"@-session-1"}
{"type":"assistant","message":{"content":[{"type":"text","text":"BIFROST_CLAUDE_CODE_OK"}],"usage":{"input_tokens":10,"output_tokens":4}}}
{"type":"result","subtype":"success","is_error":false,"result":"BIFROST_CLAUDE_CODE_OK","session_id":"@-session-1","usage":{"input_tokens":10,"output_tokens":4}}"#
        .replace('@', &claude_word_text());

    let events = parse_progress_events(&stdout);

    assert_eq!(events.len(), 3);
    assert_eq!(
        events[0].event_type,
        ExternalCliProgressEventType::RunStarted
    );
    assert_eq!(
        events[0].content,
        format!("{}-session-1", claude_word_text())
    );
    assert_eq!(
        events[1].event_type,
        ExternalCliProgressEventType::AssistantFinal
    );
    assert_eq!(events[1].content, "BIFROST_CLAUDE_CODE_OK");
    assert_eq!(
        events[2].event_type,
        ExternalCliProgressEventType::RunFinished
    );

    let mut metadata = TextMap::new();
    append_external_cli_metadata(CLAUDE_CODE_ADAPTER, &events, &mut metadata);

    assert_eq!(
        metadata.get("threadId").map(|value| value.as_str()),
        Some(format!("{}-session-1", claude_word_text()).as_str())
    );
    assert_eq!(
        metadata.get("usageInputTokens").map(|value| value.as_str()),
        Some("10")
    );
    assert_eq!(
        metadata.get("usageOutputTokens").map(|value| value.as_str()),
        Some("4")
    );
    assert_eq!(
        metadata.get("usageTotalTokens").map(|value| value.as_str()),
        Some("14")
    );
}

#[test]
fn claude_code_parser_maps_tool_use_and_tool_result() {
    let stdout = r#"{"type":"system","subtype":"init","session_id":"@-session-tool"}
{"type":"assistant","message":{"content":[{"type":"tool_use","id":"tooluse_1","name":"Bash","input":{"command":"pwd"}}]}}
{"type":"user","message":{"content":[{"tool_use_id":"tooluse_1","type":"tool_result","content":"/Users/bytedance/project/bifrost","is_error":false}]},"tool_use_result":{"stdout":"/Users/bytedance/project/bifrost","stderr":"","interrupted":false}}
{"type":"assistant","message":{"content":[{"type":"text","text":"BIFROST_CLAUDE_TOOL_OK"}]}}
{"type":"result","subtype":"success","is_error":false,"result":"BIFROST_CLAUDE_TOOL_OK","session_id":"@-session-tool","usage":{"input_tokens":20,"output_tokens":6}}"#
        .replace('@', &claude_word_text());

    let events = parse_progress_events(&stdout);

    assert_eq!(
        events
            .iter()
            .map(|event| &event.event_type)
            .collect::<Vec<_>>(),
        vec![
            &ExternalCliProgressEventType::RunStarted,
            &ExternalCliProgressEventType::ToolStarted,
            &ExternalCliProgressEventType::ToolFinished,
            &ExternalCliProgressEventType::AssistantFinal,
            &ExternalCliProgressEventType::RunFinished,
        ]
    );
    assert_eq!(events[1].title.as_deref(), Some("Bash"));
    assert_eq!(events[1].content, "pwd");
    assert_eq!(events[2].title.as_deref(), Some("Bash"));
    assert_eq!(events[2].content, "/Users/bytedance/project/bifrost");
    assert_eq!(external_progress_arguments_text(&events[2]), "pwd");
    assert_eq!(
        events[2]
            .raw
            .get("success")
            .and_then(|value| value.as_bool()),
        Some(true)
    );

    let runner_id = default_claude_code_runner_id();
    let context = ExternalCliProgressStatusContext::new(
        Some(runner_id.as_str()),
        None,
        None,
        None,
        None,
        None,
    );
    let turn_started =
        external_progress_to_agent_turn_event("session", CLAUDE_CODE_ADAPTER, context, &events[1])
            .expect("tool started event");
    assert!(matches!(
        turn_started,
        AgentTurnProgressEvent::ToolStarted { .. }
    ));
    let turn_finished =
        external_progress_to_agent_turn_event("session", CLAUDE_CODE_ADAPTER, context, &events[2])
            .expect("tool finished event");
    match turn_finished {
        AgentTurnProgressEvent::ToolFinished { log, .. } => {
            assert_eq!(log.tool_name, "Bash");
            assert_eq!(log.arguments, "pwd");
            assert_eq!(log.result, "/Users/bytedance/project/bifrost");
            assert!(log.success);
        }
        other => panic!("expected tool finished event, got {other:?}"),
    }
}

#[test]
fn codex_cli_parser_maps_reasoning_summary_to_assistant_delta() {
    let events = parse_progress_events(
        r#"{"type":"item.completed","item":{"id":"reasoning_0","type":"reasoning_summary","summary":"I checked the workspace and will run the focused tests."}}"#,
    );

    assert_eq!(events.len(), 1);
    assert_eq!(
        events[0].event_type,
        ExternalCliProgressEventType::AssistantDelta
    );
    assert_eq!(
        events[0].content,
        "I checked the workspace and will run the focused tests."
    );
}

#[test]
fn codex_like_metadata_includes_turn_usage_tokens() {
    let events = parse_progress_events(
        r#"{"type":"thread.started","thread_id":"thread-usage"}
{"type":"turn.completed","usage":{"input_tokens":59589,"cached_input_tokens":6912,"output_tokens":221,"reasoning_output_tokens":156}}"#,
    );
    let mut metadata = TextMap::new();

    append_external_cli_metadata(TRAEX_ADAPTER, &events, &mut metadata);

    assert_eq!(
        metadata.get("threadId").map(|value| value.as_str()),
        Some("thread-usage")
    );
    assert_eq!(
        metadata.get("usageInputTokens").map(|value| value.as_str()),
        Some("59589")
    );
    assert_eq!(
        metadata.get("usageCachedInputTokens").map(|value| value.as_str()),
        Some("6912")
    );
    assert_eq!(
        metadata.get("usageOutputTokens").map(|value| value.as_str()),
        Some("221")
    );
    assert_eq!(
        metadata
            .get("usageReasoningOutputTokens")
            .map(|value| value.as_str()),
        Some("156")
    );
    assert_eq!(
        metadata.get("usageTotalTokens").map(|value| value.as_str()),
        Some("59810")
    );
}

#[test]
fn external_progress_maps_to_agent_turn_progress_events() {
    let context = ExternalCliProgressStatusContext::new(
        Some("traex"),
        Some("trae-model"),
        Some("runner config"),
        Some("high"),
        Some("auto"),
        Some("/tmp/work"),
    );
    let event = ExternalCliProgressEvent {
        event_type: ExternalCliProgressEventType::AssistantDelta,
        content: "thinking out loud".to_string(),
        title: None,
        raw: json(r#"{"type":"assistant_delta","delta":"thinking out loud"}"#),
    };

    let mapped = external_progress_to_agent_turn_event("session-a", TRAEX_ADAPTER, context, &event)
        .expect("mapped event");

    match mapped {
        AgentTurnProgressEvent::AssistantDelta { content } => {
            assert_eq!(content, "thinking out loud");
        }
        other => panic!("unexpected mapped event: {other:?}"),
    }

    let status_event = ExternalCliProgressEvent {
        event_type: ExternalCliProgressEventType::Status,
        content: "running".to_string(),
        title: None,
        raw: json(r#"{"type":"status","content":"running"}"#),
    };
    let mapped_status =
        external_progress_to_agent_turn_event("session-a", TRAEX_ADAPTER, context, &status_event)
            .expect("mapped status event");
    match mapped_status {
        AgentTurnProgressEvent::Status(status) => {
            assert_eq!(status.runner_type.as_deref(), Some(TRAEX_ADAPTER));
            assert_eq!(status.runner_id.as_deref(), Some("traex"));
            assert_eq!(status.model.as_deref(), Some("trae-model"));
            assert_eq!(status.model_provider.as_deref(), Some("runner config"));
            assert_eq!(status.model_reasoning_effort.as_deref(), Some("high"));
            assert_eq!(status.model_reasoning_summary.as_deref(), Some("auto"));
        }
        other => panic!("unexpected mapped status event: {other:?}"),
    }

    let plan_event = ExternalCliProgressEvent {
        event_type: ExternalCliProgressEventType::PlanUpdated,
        content: "plan updated (2 steps)".to_string(),
        title: None,
        raw: json(
            r#"{
            "type": "item.updated",
            "item": {
                "type": "todo_list",
                "items": [
                    {"text": "inspect output", "completed": true},
                    {"text": "map parser", "completed": false}
                ]
            }
        }"#,
        ),
    };
    let mapped_plan =
        external_progress_to_agent_turn_event("session-a", TRAEX_ADAPTER, context, &plan_event)
            .expect("mapped plan event");
    match mapped_plan {
        AgentTurnProgressEvent::PlanUpdated { steps, title } => {
            assert!(title.is_none());
            assert_eq!(steps.len(), 2);
            assert_eq!(steps[0].status, PlanStepStatus::Completed);
            assert_eq!(steps[1].status, PlanStepStatus::Pending);
        }
        other => panic!("unexpected mapped plan event: {other:?}"),
    }
}

#[test]
fn progress_event_observation_adds_tool_duration() {
    let mut starts = TextMap::new();
    let mut started = ExternalCliProgressEvent {
        event_type: ExternalCliProgressEventType::ToolStarted,
        content: "pwd".to_string(),
        title: None,
        raw: json(r#"{"type": "item.started", "item": {"id": "tool-1"}}"#),
    };
    let mut finished = ExternalCliProgressEvent {
        event_type: ExternalCliProgressEventType::ToolFinished,
        content: "/tmp".to_string(),
        title: None,
        raw: json(r#"{"type": "item.completed", "item": {"id": "tool-1"}}"#),
    };

    enrich_progress_event_observation(&mut started, 2000, &mut starts);
    enrich_progress_event_observation(&mut finished, 2125, &mut starts);

    assert_eq!(
        started
            .raw
            .get("observedAtMs")
            .and_then(|value| value.as_u64()),
        Some(2000)
    );
    assert_eq!(
        finished
            .raw
            .get("observedAtMs")
            .and_then(|value| value.as_u64()),
        Some(2125)
    );
    assert_eq!(
        finished
            .raw
            .get("durationMs")
            .and_then(|value| value.as_u64()),
        Some(125)
    );
}

#[test]
fn events_that_are_read_live_match_the_whole_output() {
    let stdout = r#"{"type":"item.started","item":{"id":"item_0","type":"command_execution","command":"pwd"}}
noise
{"type":"item.completed","item":{"id":"item_0","type":"command_execution","command":"pwd","aggregated_output":"/tmp\n","exit_code":0,"status":"completed"}}
{"type":"assistant_final","content":"done"}
"#;
    let mut reader = StdoutReader::new();
    let mut shown = Vec::new();
    for (number, line) in stdout.lines().enumerate() {
        if let Some(event) = reader.take_line(line, 1000 + 10 * number as u64) {
            shown.push(event);
        }
    }
    let whole = parse_progress_events(stdout);

    assert_eq!(reader.bytes, stdout.as_bytes());
    assert_eq!(reader.events, shown);
    assert_eq!(reader.events.len(), whole.len());
    for (live, read) in reader.events.iter().zip(&whole) {
        assert_eq!(live.event_type, read.event_type);
        assert_eq!(live.content, read.content);
        assert_eq!(live.title, read.title);
    }
    assert_eq!(
        reader.events[1].raw.get("durationMs"),
        Some(&Json::Unsigned(20))
    );
}
