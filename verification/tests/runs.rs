use bifrost::agent_config::{ExternalCliAdapterConfig, DEFAULT_RUNTIME};
use bifrost::command_spec::build_command_spec;
use bifrost::gateway_config::ExternalCliAgentSettings;
use bifrost::json::Json;
use bifrost::map::TextMap;
use bifrost::model_config::ExternalCliResolvedModelConfig;
use bifrost::paths::PathStyle;
use bifrost::progress::{
    parse_progress_events, ExternalCliProgressEvent, ExternalCliProgressEventType,
};
use bifrost::request::{
    build_prompt, decode_image_data, image_attachment_dir, image_attachment_path, image_extension,
    merge_run_request_with_settings, run_request_from_settings, select_images, validate_run_id, validate_run_request, validate_work_dir, ExternalCliImageInput,
    ExternalCliRunRequest, ExternalCliSavedImageAttachment,
};
use bifrost::runs::{
    chatgpt_web_failure, cli_version_from_bytes, cli_version_from_output, command_output,
    final_response, finish_command_run, images_json_text, model_catalog_failure,
    model_catalog_failure_from_bytes, on_worker_event, visible_terminal_response,
    worker_protocol_check, CommandWaitOutcome, ExternalCliRunResult, ExternalCliRunStatus,
    ExternalCliWorkerEvent, WorkerStep,
};
use bifrost::runtime::{
    complete_run, run_detail, run_places, stop_marker_of, worker_final_event, ExternalCliRuntime,
    RunEnd, RunFiles, WorkerRunEnd,
};

fn request(adapter_config: ExternalCliAdapterConfig) -> ExternalCliRunRequest {
    ExternalCliRunRequest {
        images: Vec::new(),
        message: "hello from api".to_string(),
        operation: "ask".to_string(),
        params: Json::Null,
        provider_id: Some("provider-a".to_string()),
        runner_id: None,
        session_key: Some("chat-gateway-test".to_string()),
        runtime: DEFAULT_RUNTIME.to_string(),
        adapter: "mock".to_string(),
        work_dir: None,
        instructions: None,
        adapter_config,
        allow_work_dirs: Vec::new(),
        inject_bifrost_tools: false,
        skill_paths: Vec::new(),
    }
}

fn shell() -> ExternalCliAdapterConfig {
    ExternalCliAdapterConfig {
        executable: Some("sh".to_string()),
        args: vec!["-c".to_string(), "true".to_string()],
        timeout_secs: Some(10),
        ..Default::default()
    }
}

#[test]
fn final_response_prefers_assistant_message_over_run_finished() {
    let events = parse_progress_events(
        r#"{"type":"item.completed","item":{"type":"agent_message","text":"real final"}}
{"type":"turn.completed"}"#,
    );

    let response = final_response("", "raw stdout", &events);

    assert_eq!(response, "real final");
}

#[test]
fn visible_terminal_response_uses_stderr_for_empty_failed_result() {
    let response = visible_terminal_response(
        ExternalCliRunStatus::Failed,
        String::new(),
        "",
        "Error loading config.toml: unknown variant `default`, expected `fast` or `flex`\n",
        &Vec::new(),
    );

    assert_eq!(
        response,
        "Error loading config.toml: unknown variant `default`, expected `fast` or `flex`"
    );
}

#[test]
fn a_run_that_failed_is_never_answered_with_silence() {
    for (status, words) in [
        (ExternalCliRunStatus::Failed, "External CLI run failed."),
        (
            ExternalCliRunStatus::Stopped,
            "External CLI run was stopped by request.",
        ),
        (
            ExternalCliRunStatus::TimedOut,
            "External CLI run timed out.",
        ),
    ] {
        assert_eq!(
            visible_terminal_response(status, " ".to_string(), "", " \n", &Vec::new()),
            words
        );
    }
}

#[test]
fn external_cli_runtime_runs_mock_command_and_writes_artifacts() {
    let runtime = ExternalCliRuntime::new(PathStyle::Posix, "/runs");
    let request = request(shell());
    let plan = runtime
        .plan_run(&request, None, &Vec::new(), 1_750_000_000_000)
        .expect("planned");
    assert!(plan.run_id.starts_with("1750000000000-"));
    assert_eq!(plan.run_id.len(), 14 + 36);
    assert_eq!(validate_run_id(&plan.run_id), Ok(()));
    assert_eq!(
        plan.artifacts.prompt,
        format!("/runs/{}/prompt.md", plan.run_id)
    );
    assert_eq!(
        plan.stop_marker,
        format!("/runs/{}/stop_requested", plan.run_id)
    );
    let spec = build_command_spec(&request, &plan.artifacts.last_message).unwrap();

    let stdout = b"{\"type\":\"assistant_delta\",\"delta\":\"working\"}\n{\"type\":\"assistant_final\",\"content\":\"mock final\"}\n";
    let output = command_output(
        CommandWaitOutcome::Exited {
            success: true,
            code: Some(0),
        },
        stdout.to_vec(),
        Vec::new(),
        Vec::new(),
        Some(10),
    )
    .unwrap();
    let output = finish_command_run(output, false, "");
    let run_id = plan.run_id.clone();
    let result = complete_run(
        plan,
        RunEnd {
            request,
            spec: &spec,
            prompt: "hello from api",
            saved_images: &Vec::new(),
            output,
            command_started_at: Some(1_750_000_000_010),
            command_finished_at: Some(1_750_000_000_210),
            finished_at: 1_750_000_000_250,
            cli_version: None,
        },
        &ExternalCliResolvedModelConfig::default(),
    )
    .expect("completed");

    assert_eq!(result.status, ExternalCliRunStatus::Succeeded);
    assert_eq!(result.response, "mock final");
    assert_eq!(result.events.len(), 2);
    assert_eq!(result.run_id, run_id);
    assert_eq!(result.duration_ms, 250);
    assert_eq!(
        result.artifacts.command_snapshot,
        format!("/runs/{run_id}/runtime_snapshot.json")
    );
    assert_eq!(
        result.artifacts.normalized_events,
        format!("/runs/{run_id}/normalized_events.jsonl")
    );
    assert_eq!(
        result.metadata.get("timing.commandDurationMs"),
        Some(&"200".to_string())
    );
}

#[test]
fn external_cli_runtime_marks_stopped_run_before_late_stdout() {
    let output = command_output(
        CommandWaitOutcome::Stopped,
        b"{\"type\":\"assistant_final\",\"content\":\"too late\"}\n".to_vec(),
        Vec::new(),
        Vec::new(),
        Some(10),
    )
    .unwrap();
    assert_eq!(output.status, ExternalCliRunStatus::Stopped);
    assert_eq!(output.stderr, b"external cli stopped by request\n");

    let result = finish_command_run(output, true, "too late");

    assert_eq!(result.status, ExternalCliRunStatus::Stopped);
    assert_eq!(result.response, "External CLI run was stopped by request.");
    assert_eq!(result.exit_code, None);
    assert_eq!(
        result.events[0].event_type,
        ExternalCliProgressEventType::RunFailed
    );
}

#[test]
fn a_command_that_ran_out_of_time_says_so() {
    let output = command_output(
        CommandWaitOutcome::TimedOut,
        Vec::new(),
        b"warning\n".to_vec(),
        Vec::new(),
        Some(30),
    )
    .unwrap();
    assert_eq!(output.status, ExternalCliRunStatus::TimedOut);
    assert_eq!(output.exit_code, None);
    assert_eq!(
        output.stderr,
        b"warning\nexternal cli timed out after 30 seconds\n"
    );
    assert_eq!(
        command_output(
            CommandWaitOutcome::WaitFailed("no child".to_string()),
            Vec::new(),
            Vec::new(),
            Vec::new(),
            None,
        ),
        Err("wait external cli failed: no child".to_string())
    );
}

#[test]
fn external_cli_runtime_persists_chatgpt_web_adapter_errors() {
    let output = chatgpt_web_failure(
        "parse chatgpt_web adapter config failed: invalid",
        Some("/runs/run/failure_diagnostics.json"),
    );

    assert_eq!(output.status, ExternalCliRunStatus::Failed);
    assert!(output.response.contains("ChatGPT Web run failed"));
    assert!(output
        .response
        .contains("parse chatgpt_web adapter config failed"));
    assert!(String::from_utf8(output.stderr)
        .unwrap()
        .contains("parse chatgpt_web adapter config failed"));
    assert!(output.metadata.contains_key("failureDiagnostics"));
    assert_eq!(
        output.events[0].event_type,
        ExternalCliProgressEventType::RunFailed
    );

    let stopped = chatgpt_web_failure("stopped: by user", None);
    assert_eq!(stopped.status, ExternalCliRunStatus::Stopped);
    assert_eq!(stopped.response, "ChatGPT Web run was stopped by request.");
}

#[test]
fn read_run_detail_prefers_persisted_result_response_over_stdout() {
    let run_id = "detail-response-run";
    let places = run_places(PathStyle::Posix, "/runs", run_id).expect("places");
    let files = |report| RunFiles {
        snapshot: Json::Object(Vec::new()),
        events: vec![ExternalCliProgressEvent {
            event_type: ExternalCliProgressEventType::RunFailed,
            content: "External CLI run was stopped by request.".to_string(),
            title: Some("Stopped".to_string()),
            raw: Json::Object(vec![(
                "type".to_string(),
                Json::Text("run_stopped".to_string()),
            )]),
        }],
        stdout: "raw streaming stdout\n".to_string(),
        stderr: "external cli stopped by request\n".to_string(),
        last_message: String::new(),
        report,
    };

    let detail = run_detail(
        run_id,
        places,
        files(Some((
            "External CLI run was stopped by request.".to_string(),
            TextMap::new(),
        ))),
    );

    assert_eq!(detail.response, "External CLI run was stopped by request.");
    assert_eq!(detail.artifacts.stdout, "/runs/detail-response-run/cli.stdout.log");

    let without_report = run_detail(
        run_id,
        run_places(PathStyle::Posix, "/runs", run_id).expect("places"),
        files(None),
    );
    assert_eq!(without_report.response, "raw streaming stdout");
    assert!(without_report.metadata.is_empty());
}

#[test]
fn runs_are_only_looked_up_inside_their_directory() {
    for run_id in ["", "../other", "a/b", "a\\b", ".hidden"] {
        assert_eq!(
            run_places(PathStyle::Posix, "/runs", run_id),
            Err("invalid run_id".to_string())
        );
        assert_eq!(
            stop_marker_of(PathStyle::Posix, "/runs", run_id, true),
            Err("invalid run_id".to_string())
        );
    }
    assert_eq!(
        stop_marker_of(PathStyle::Posix, "/runs", "gone", false),
        Err("run 'gone' not found".to_string())
    );
    assert_eq!(
        stop_marker_of(PathStyle::Posix, "/runs", "here", true),
        Ok("/runs/here/stop_requested".to_string())
    );
}

#[test]
fn requests_are_checked_before_a_run() {
    let runtime = ExternalCliRuntime::new(PathStyle::Posix, "/runs");
    let empty = ExternalCliRunRequest {
        message: "  ".to_string(),
        ..request(shell())
    };
    let error = validate_run_request(&empty).unwrap_err();
    assert_eq!(
        runtime.plan_run(&empty, None, &Vec::new(), 1),
        Err(error)
    );

    let outside = ExternalCliRunRequest {
        work_dir: Some("/tmp/work".to_string()),
        allow_work_dirs: vec!["/srv".to_string()],
        ..request(shell())
    };
    assert_eq!(
        validate_work_dir(PathStyle::Posix, &outside, Some("/tmp/work"), &vec!["/srv".to_string()]),
        Err("work_dir '/tmp/work' is outside allowWorkDirs".to_string())
    );
    assert_eq!(
        validate_work_dir(PathStyle::Posix, &outside, Some("/srv/work"), &vec!["/srv".to_string()]),
        Ok(())
    );
}

/// What comes of a run with one pasted image: the report, the prompt, the directory
/// of the image, and the bytes of the image.
fn run_with_image(
    runtime: &ExternalCliRuntime,
    base: &str,
    data: &str,
    name: &str,
) -> (ExternalCliRunResult, String, String, Vec<u8>) {
    let request = ExternalCliRunRequest {
        images: vec![ExternalCliImageInput {
            mime_type: "image/png".to_string(),
            data: data.to_string(),
            name: Some(name.to_string()),
        }],
        message: String::new(),
        params: Json::Object(vec![(
            "attachmentBaseDir".to_string(),
            Json::Text(base.to_string()),
        )]),
        session_key: Some("chat-gateway-image-test".to_string()),
        ..request(shell())
    };
    let plan = runtime
        .plan_run(&request, None, &Vec::new(), 1_750_000_000_000)
        .expect("planned");
    assert_eq!(select_images(&request.images), vec![0]);
    let dir = image_attachment_dir(
        PathStyle::Posix,
        &request,
        "/home/agent/sessions",
        &plan.artifacts.run_dir,
    );
    let bytes = decode_image_data(&request.images[0].data).unwrap();
    let saved = vec![ExternalCliSavedImageAttachment {
        path: image_attachment_path(PathStyle::Posix, &dir, 0, "image/png"),
        mime_type: "image/png".to_string(),
        size_bytes: bytes.len() as u64,
        name: Some(name.to_string()),
    }];
    let prompt = build_prompt(&request, &Vec::new(), &saved);
    let spec = build_command_spec(&request, &plan.artifacts.last_message).unwrap();
    let output = command_output(
        CommandWaitOutcome::Exited {
            success: true,
            code: Some(0),
        },
        b"{\"type\":\"assistant_final\",\"content\":\"saw image\"}\n".to_vec(),
        Vec::new(),
        Vec::new(),
        Some(10),
    )
    .unwrap();
    let output = finish_command_run(output, false, "");
    let result = complete_run(
        plan,
        RunEnd {
            request,
            spec: &spec,
            prompt: &prompt,
            saved_images: &saved,
            output,
            command_started_at: None,
            command_finished_at: None,
            finished_at: 1_750_000_000_250,
            cli_version: None,
        },
        &ExternalCliResolvedModelConfig::default(),
    )
    .expect("completed");
    (result, prompt, dir, bytes)
}

#[test]
fn external_cli_run_writes_image_attachments_and_injects_prompt_paths() {
    let runtime = ExternalCliRuntime::new(PathStyle::Posix, "/runs");
    let base = "/home/agent/sessions/2026/06/25/attachments";

    let (result, prompt, dir, bytes) =
        run_with_image(&runtime, base, "aGVsbG8=", "pasted.png");

    assert!(prompt.contains("## Attached Images"));
    assert!(prompt.contains("image-1.png"));
    assert_eq!(result.response, "saw image");
    assert_eq!(dir, format!("{base}/{}/images", result.run_id));
    assert_eq!(
        result.metadata.get("attachments.images"),
        Some(&format!(
            "[{{\"path\":\"{dir}/image-1.png\",\"mimeType\":\"image/png\",\"sizeBytes\":5,\"name\":\"pasted.png\"}}]"
        ))
    );
    assert_eq!(bytes, b"hello");

    let (second_result, _, second_dir, second_bytes) =
        run_with_image(&runtime, base, "d29ybGQ=", "second.png");

    assert_ne!(second_result.run_id, result.run_id);
    assert_ne!(second_dir, dir, "second run must not overwrite first run attachment");
    assert_eq!(second_dir, format!("{base}/{}/images", second_result.run_id));
    assert_eq!(
        second_result.metadata.get("attachments.images"),
        Some(&format!(
            "[{{\"path\":\"{second_dir}/image-1.png\",\"mimeType\":\"image/png\",\"sizeBytes\":5,\"name\":\"second.png\"}}]"
        ))
    );
    assert_eq!(second_bytes, b"world");
}

#[test]
fn images_outside_of_the_sessions_stay_with_the_run() {
    let request = ExternalCliRunRequest {
        params: Json::Object(vec![(
            "attachmentBaseDir".to_string(),
            Json::Text("/etc/attachments".to_string()),
        )]),
        ..request(shell())
    };
    assert_eq!(
        image_attachment_dir(PathStyle::Posix, &request, "/home/agent/sessions", "/runs/run-1"),
        "/runs/run-1/attachments/images"
    );
    assert_eq!(
        decode_image_data("data:image/png;base64,d29ybGQ=").unwrap(),
        b"world"
    );
    assert!(decode_image_data("not base64!").is_err());
}

#[test]
fn images_are_recorded_as_json() {
    assert_eq!(images_json_text(&Vec::new()), "[]");
    let image = |path: &str, name: Option<&str>| ExternalCliSavedImageAttachment {
        path: path.to_string(),
        mime_type: "image/png".to_string(),
        size_bytes: 12,
        name: name.map(str::to_string),
    };
    assert_eq!(
        images_json_text(&vec![image("/a \"b\".png", None), image("/c.png", Some("c"))]),
        "[{\"path\":\"/a \\\"b\\\".png\",\"mimeType\":\"image/png\",\"sizeBytes\":12},{\"path\":\"/c.png\",\"mimeType\":\"image/png\",\"sizeBytes\":12,\"name\":\"c\"}]"
    );
}

#[test]
fn every_run_has_an_identifier_of_its_own() {
    let runtime = ExternalCliRuntime::new(PathStyle::Posix, "/runs");
    let plan = || {
        runtime
            .plan_run(&request(shell()), None, &Vec::new(), 7)
            .expect("planned")
    };
    let (first, second) = (plan(), plan());
    assert_ne!(first.run_id, second.run_id);
    assert_ne!(first.artifacts.run_dir, second.artifacts.run_dir);
}

#[test]
fn commands_that_print_bytes_are_read() {
    assert_eq!(
        cli_version_from_bytes("codex", &b"\n codex 1.2 \xff\n".to_vec(), &Vec::new()).as_deref(),
        Some("codex 1.2 \u{fffd}")
    );
    assert_eq!(cli_version_from_bytes("mock", &b"1".to_vec(), &Vec::new()), None);
    assert_eq!(
        model_catalog_failure_from_bytes("codex", &b"out".to_vec(), &b"err\n".to_vec()),
        "codex model catalog command failed: err"
    );
    assert_eq!(
        model_catalog_failure_from_bytes("codex", &Vec::new(), &Vec::new()),
        "codex model catalog command failed: debug models failed"
    );
}

#[test]
fn extensions_follow_the_type_of_an_image() {
    assert_eq!(image_extension("image/png"), "png");
    assert_eq!(image_extension("image/jpeg"), "jpg");
    assert_eq!(image_extension("image/gif"), "gif");
    assert_eq!(image_extension("image/webp"), "webp");
}

#[test]
fn a_stopped_worker_reports_a_stopped_run() {
    let stopped = ExternalCliRunResult::stopped(
        Some("session".to_string()),
        "traex".to_string(),
        1_750_000_000_000,
    );
    assert_eq!(stopped.run_id, "stopped-1750000000000");
    assert_eq!(stopped.status, ExternalCliRunStatus::Stopped);

    match on_worker_event(ExternalCliWorkerEvent::Stopped, 5) {
        WorkerStep::Finish(result) => {
            let words = "External runner worker was stopped by request.";
            assert_eq!(result.run_id, "stopped-5");
            assert_eq!(result.session_key, None);
            assert_eq!(result.runtime, DEFAULT_RUNTIME);
            assert_eq!(result.adapter, "codex");
            assert_eq!(result.status, ExternalCliRunStatus::Stopped);
            assert_eq!(result.exit_code, None);
            assert_eq!(result.response, words);
            assert_eq!(result.responses, vec![words]);
            assert_eq!((result.started_at, result.finished_at, result.duration_ms), (5, 5, 0));
            assert_eq!(result.artifacts.run_dir, "");
            assert_eq!(result.events.len(), 1);
            assert_eq!(result.events[0].content, words);
            assert_eq!(result.metadata.len(), 0);
        }
        other => panic!("expected the end of the run, got {other:?}"),
    }
    assert_eq!(
        on_worker_event(
            ExternalCliWorkerEvent::Failed {
                error: "broken".to_string()
            },
            5
        ),
        WorkerStep::Fail("broken".to_string())
    );
    assert_eq!(
        worker_final_event(WorkerRunEnd::Broken("panic".to_string())),
        ExternalCliWorkerEvent::Failed {
            error: "external runner worker task failed: panic".to_string()
        }
    );
    assert_eq!(
        worker_final_event(WorkerRunEnd::Cancelled),
        ExternalCliWorkerEvent::Stopped
    );
    assert_eq!(worker_protocol_check(1), Ok(()));
    assert_eq!(
        worker_protocol_check(7),
        Err("unsupported external runner worker protocol version 7".to_string())
    );
}

#[test]
fn the_first_line_that_is_not_blank_is_the_version() {
    assert_eq!(
        cli_version_from_output("codex", "\n codex 1.2.3 \n", ""),
        Some("codex 1.2.3".to_string())
    );
    assert_eq!(
        cli_version_from_output("codex", " \n", "from stderr"),
        Some("from stderr".to_string())
    );
    assert_eq!(cli_version_from_output("mock", "mock 1", ""), None);
    assert_eq!(
        model_catalog_failure("codex", "", "\nno such command\n"),
        "codex model catalog command failed: no such command"
    );
}

#[test]
fn requests_take_what_they_leave_open_from_the_runner() {
    let settings = ExternalCliAgentSettings {
        adapter: "traex".to_string(),
        instructions: Some("be brief".to_string()),
        adapter_config: ExternalCliAdapterConfig {
            model: Some("m".to_string()),
            ..Default::default()
        },
        skill_paths: vec!["skill".to_string()],
        ..Default::default()
    };
    let fresh = run_request_from_settings("hi", None, Some("s".to_string()), &settings);
    assert_eq!(fresh.adapter, "traex");
    assert_eq!(fresh.operation, "ask");
    assert_eq!(fresh.skill_paths, vec!["skill"]);

    let mut open = request(ExternalCliAdapterConfig::default());
    open.adapter = "codex".to_string();
    let merged = merge_run_request_with_settings(open, &settings);
    assert_eq!(merged.adapter, "traex");
    assert_eq!(merged.instructions.as_deref(), Some("be brief"));
    assert_eq!(merged.adapter_config.model.as_deref(), Some("m"));
    assert!(merged.inject_bifrost_tools);
    assert_eq!(merged.skill_paths, vec!["skill"]);

    let mut set = request(ExternalCliAdapterConfig {
        sandbox: Some("read-only".to_string()),
        ..Default::default()
    });
    set.instructions = Some("mine".to_string());
    let merged = merge_run_request_with_settings(set, &settings);
    assert_eq!(merged.adapter, "mock");
    assert_eq!(merged.instructions.as_deref(), Some("mine"));
    assert_eq!(merged.adapter_config.model, None);
    assert_eq!(merged.message, "hello from api");
}
