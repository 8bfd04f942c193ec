use bifrost::agent_config::{
    claude_product_text, claude_word_text, ExternalCliAdapterConfig, CLAUDE_CODE_ADAPTER,
    DEFAULT_ADAPTER, DEFAULT_RUNTIME, TRAEX_ADAPTER,
};
use bifrost::command_spec::CommandSpec;
use bifrost::json::Json;
use bifrost::map::TextMap;
use bifrost::metadata::{
    append_external_cli_observability_metadata, append_external_cli_request_metadata,
    append_plan_observability_metadata, estimate_tokens_from_chars, line_count,
    observability_sums_fit, truncate_metadata_value, ExternalCliObservabilityInput,
    ExternalCliObservabilityTimings,
};
use bifrost::model_config::{resolve_external_cli_model_config, ExternalCliResolvedModelConfig};
use bifrost::progress::{ExternalCliProgressEvent, ExternalCliProgressEventType};
use bifrost::request::{ExternalCliRunRequest, ExternalCliSavedImageAttachment};

fn convert(value: serde_json::Value) -> Json {
    match value {
        serde_json::Value::Null => Json::Null,
        serde_json::Value::Bool(b) => Json::Bool(b),
        serde_json::Value::Number(n) => match (n.as_u64(), n.as_i64()) {
            (Some(u), _) => Json::Unsigned(u),
            (None, Some(i)) => Json::Signed(i),
            (None, None) => Json::Float(n),
        },
        serde_json::Value::String(s) => Json::Text(s),
        serde_json::Value::Array(v) => Json::List(v.into_iter().map(convert).collect()),
        serde_json::Value::Object(m) => {
            Json::Object(m.into_iter().map(|(k, v)| (k, convert(v))).collect())
        }
    }
}

fn json(text: &str) -> Json {
    convert(serde_json::from_str(text).expect("valid JSON"))
}

fn text<'a>(metadata: &'a TextMap<String>, key: &str) -> Option<&'a str> {
    metadata.get(key).map(|value| value.as_str())
}

#[test]
fn codex_request_metadata_includes_configured_or_default_model_label() {
    let configured = resolve_external_cli_model_config(
        ExternalCliResolvedModelConfig::default(),
        &ExternalCliAdapterConfig {
            model: Some("gpt-test".to_string()),
            ..Default::default()
        },
    );
    let mut configured_metadata = TextMap::new();

    append_external_cli_request_metadata("codex", &configured, &mut configured_metadata);

    assert_eq!(text(&configured_metadata, "model"), Some("gpt-test"));
    assert_eq!(
        text(&configured_metadata, "modelSource"),
        Some("runner config")
    );
    assert_eq!(text(&configured_metadata, "modelLabel"), Some("gpt-test"));

    let default = resolve_external_cli_model_config(
        ExternalCliResolvedModelConfig::default(),
        &ExternalCliAdapterConfig::default(),
    );
    let mut default_metadata = TextMap::new();

    append_external_cli_request_metadata("codex", &default, &mut default_metadata);

    assert_eq!(default_metadata.get("model"), None);
    assert_eq!(text(&default_metadata, "modelSource"), Some("codex default"));
    assert_eq!(
        text(&default_metadata, "modelLabel"),
        Some("Codex default model (not explicitly configured)")
    );

    let mut trae_metadata = TextMap::new();

    append_external_cli_request_metadata(TRAEX_ADAPTER, &default, &mut trae_metadata);

    assert_eq!(trae_metadata.get("model"), None);
    assert_eq!(text(&trae_metadata, "modelSource"), Some("trae default"));
    assert_eq!(
        text(&trae_metadata, "modelLabel"),
        Some("Trae default model (not explicitly configured)")
    );

    let mut claude_code_metadata = TextMap::new();

    append_external_cli_request_metadata(CLAUDE_CODE_ADAPTER, &default, &mut claude_code_metadata);

    assert_eq!(claude_code_metadata.get("model"), None);
    assert_eq!(
        text(&claude_code_metadata, "modelSource"),
        Some(format!("{} code default", claude_word_text()).as_str())
    );
    assert_eq!(
        text(&claude_code_metadata, "modelLabel"),
        Some(
            format!(
                "{} default model (not explicitly configured)",
                claude_product_text()
            )
            .as_str()
        )
    );
}

#[test]
fn codex_and_traex_metadata_include_runner_observability() {
    for adapter in [DEFAULT_ADAPTER, TRAEX_ADAPTER] {
        let request = ExternalCliRunRequest {
            images: Vec::new(),
            message: "inspect image".to_string(),
            operation: "ask".to_string(),
            params: json(r#"{"threadId": "thread-existing"}"#),
            provider_id: Some("web".to_string()),
            runner_id: Some(adapter.to_string()),
            session_key: Some("session-observe".to_string()),
            runtime: DEFAULT_RUNTIME.to_string(),
            adapter: adapter.to_string(),
            work_dir: Some("/tmp/work".to_string()),
            instructions: None,
            adapter_config: ExternalCliAdapterConfig {
                approval_policy: Some("never".to_string()),
                sandbox: Some("danger-full-access".to_string()),
                permission_mode: Some("bypassPermissions".to_string()),
                danger_full_access: Some(true),
                add_dirs: vec!["/tmp/extra".to_string()],
                enable_features: vec!["network".to_string()],
                timeout_secs: Some(30),
                ..Default::default()
            },
            allow_work_dirs: Vec::new(),
            inject_bifrost_tools: true,
            skill_paths: Vec::new(),
        };
        let spec = CommandSpec {
            executable: adapter.to_string(),
            args: vec!["exec".to_string(), "--json".to_string()],
            env: TextMap::new(),
            work_dir: request.work_dir.clone(),
            timeout_secs: Some(30),
        };
        let events = vec![
            ExternalCliProgressEvent {
                event_type: ExternalCliProgressEventType::ToolFinished,
                content: "tool output".to_string(),
                title: Some("Shell".to_string()),
                raw: json(
                    r#"{
                    "type": "item.completed",
                    "observedAtMs": 1120,
                    "durationMs": 120,
                    "item": {
                        "id": "tool-1",
                        "type": "command_execution",
                        "command": "pwd",
                        "exit_code": 0,
                        "status": "completed"
                    }
                }"#,
                ),
            },
            ExternalCliProgressEvent {
                event_type: ExternalCliProgressEventType::AssistantFinal,
                content: "done".to_string(),
                title: None,
                raw: json(r#"{"type": "assistant_final", "observedAtMs": 1150}"#),
            },
        ];
        let saved_images = vec![ExternalCliSavedImageAttachment {
            path: "/tmp/session/run/images/image-1.png".to_string(),
            mime_type: "image/png".to_string(),
            size_bytes: 42,
            name: Some("image.png".to_string()),
        }];
        let mut metadata = TextMap::new();

        append_external_cli_observability_metadata(
            ExternalCliObservabilityInput {
                request: &request,
                spec: &spec,
                prompt: "## Attached Images\n- /tmp/session/run/images/image-1.png\n",
                saved_images: &saved_images,
                stdout: &b"{\"type\":\"assistant_final\"}\n".to_vec(),
                stderr: &b"warning\n".to_vec(),
                events: &events,
                timings: ExternalCliObservabilityTimings {
                    started_at: 1000,
                    command_started_at: Some(1010),
                    command_finished_at: Some(1200),
                    finished_at: 1250,
                },
                cli_version: Some("runner 1.2.3"),
            },
            &mut metadata,
        );

        assert_eq!(text(&metadata, "runner.adapter"), Some(adapter));
        assert_eq!(text(&metadata, "cli.version"), Some("runner 1.2.3"));
        assert_eq!(text(&metadata, "prompt.attachmentPathCount"), Some("1"));
        assert_eq!(text(&metadata, "attachments.totalBytes"), Some("42"));
        assert_eq!(text(&metadata, "io.stdoutLines"), Some("1"));
        assert_eq!(text(&metadata, "timing.commandDurationMs"), Some("190"));
        assert_eq!(text(&metadata, "timing.firstEventLatencyMs"), Some("120"));
        assert_eq!(text(&metadata, "tools.count"), Some("1"));
        assert_eq!(text(&metadata, "tools.totalDurationMs"), Some("120"));
        assert_eq!(text(&metadata, "resume.requested"), Some("true"));
    }
}

#[test]
fn the_steps_of_a_plan_add_up() {
    let events = vec![ExternalCliProgressEvent {
        event_type: ExternalCliProgressEventType::PlanUpdated,
        content: "plan".to_string(),
        title: None,
        raw: json(
            r#"{"type":"plan_updated","plan":[
                {"text":"a","status":"completed"},
                {"text":"b","status":"in_progress"},
                {"text":"c","status":"pending"},
                {"text":"d","status":"completed"}
            ]}"#,
        ),
    }];
    let mut metadata = TextMap::new();
    append_plan_observability_metadata(&events, &mut metadata);

    let number = |key: &str| -> u64 { text(&metadata, key).unwrap().parse().unwrap() };
    assert_eq!(number("plan.updates"), 1);
    assert_eq!(number("plan.total"), 4);
    assert_eq!(number("plan.completed"), 2);
    assert_eq!(number("plan.inProgress"), 1);
    assert_eq!(number("plan.pending"), 1);
    assert_eq!(number("plan.completionPercent"), 50);
}

#[test]
fn sums_that_do_not_fit_are_found_out() {
    let image = |size_bytes: u64| ExternalCliSavedImageAttachment {
        path: "image.png".to_string(),
        mime_type: "image/png".to_string(),
        size_bytes,
        name: None,
    };
    assert!(observability_sums_fit(
        &vec![image(u64::MAX - 1), image(1)],
        &Vec::new()
    ));
    assert!(!observability_sums_fit(
        &vec![image(u64::MAX), image(1)],
        &Vec::new()
    ));

    let tool = |duration: u64| ExternalCliProgressEvent {
        event_type: ExternalCliProgressEventType::ToolFinished,
        content: String::new(),
        title: None,
        raw: Json::Object(vec![(
            "durationMs".to_string(),
            Json::Unsigned(duration),
        )]),
    };
    assert!(observability_sums_fit(&Vec::new(), &vec![tool(u64::MAX)]));
    assert!(!observability_sums_fit(
        &Vec::new(),
        &vec![tool(u64::MAX), tool(1)]
    ));
}

#[test]
fn small_measures_are_exact() {
    assert_eq!(line_count(&b"a\nb\n".to_vec()), 2);
    assert_eq!(line_count(&b"".to_vec()), 0);
    assert_eq!(estimate_tokens_from_chars(0), 0);
    assert_eq!(estimate_tokens_from_chars(9), 3);
    assert_eq!(truncate_metadata_value("short", 10), "short");
    assert_eq!(truncate_metadata_value("0123456789abc", 10), "0123456789");
}
