use bifrost::agent_config::CLAUDE_CODE_ADAPTER;
use bifrost::gateway_config::default_claude_code_runner_id;
use bifrost::json::Json;
use bifrost::local_sessions::{
    clean_title, discover_local_sessions, execute_local_session_resume_command,
    extract_message_text, format_datetime, format_local_session_list, normalize_epoch,
    parse_external_cli_resume_slash_command, persist_local_session_selection,
    resolve_local_session, timestamp_from_value, ExternalCliResumeSlashCommand,
    LocalExternalSession, LocalSessionSelectionContext, SessionFile, MAX_TITLE_CHARS,
};
use bifrost::session_state::{load_session_state, upsert_session_state, SessionStore};

const NOW: u64 = 1_750_000_000_000;

fn convert(value: serde_json::Value) -> Json {
    match value {
        serde_json::Value::Null => Json::Null,
        serde_json::Value::Bool(b) => Json::Bool(b),
        serde_json::Value::Number(n) => match (n.as_u64(), n.as_i64()) {
            (Some(u), _) => Json::Unsigned(u),
            (None, Some(i)) => Json::Signed(i),
            (None, None) => Json::Float(n),
        },
        serde_json::Value::String(s) => Json::Text(s),
        serde_json::Value::Array(v) => Json::List(v.into_iter().map(convert).collect()),
        serde_json::Value::Object(m) => {
            Json::Object(m.into_iter().map(|(k, v)| (k, convert(v))).collect())
        }
    }
}

fn json(text: &str) -> Json {
    convert(serde_json::from_str(text).expect("valid JSON"))
}

fn session_file(stem: &str, lines: &[&str]) -> SessionFile {
    SessionFile {
        lines: lines.iter().map(|line| line.to_string()).collect(),
        stem: Some(stem.to_string()),
        modified_millis: 1,
    }
}

#[test]
fn resume_slash_parser_supports_list_pick_and_rejects_invalid_input() {
    assert_eq!(
        parse_external_cli_resume_slash_command(" /resume "),
        Some(Ok(ExternalCliResumeSlashCommand::List))
    );
    assert_eq!(
        parse_external_cli_resume_slash_command("/RESUME abc-def"),
        Some(Ok(ExternalCliResumeSlashCommand::Pick(
            "abc-def".to_string()
        )))
    );
    assert!(matches!(
        parse_external_cli_resume_slash_command("/resume a b"),
        Some(Err(_))
    ));
    assert!(matches!(
        parse_external_cli_resume_slash_command("/resume ../../secret"),
        Some(Err(_))
    ));
    assert!(matches!(
        parse_external_cli_resume_slash_command(&format!("/resume {}", "a".repeat(129))),
        Some(Err(_))
    ));
    assert_eq!(parse_external_cli_resume_slash_command("/resume-ish"), None);
}

#[test]
fn resume_executes_list_and_pick_off_thread_and_persists_the_selection() {
    let id = "cccccccc-0000-0000-0000-000000000004";
    let files = vec![session_file(
        "session",
        &[&format!(
            r#"{{"timestamp": "2026-08-07T03:04:05Z", "type": "session_meta", "payload": {{"id": "{id}"}}}}"#
        )],
    )];
    let index = Vec::new();
    let mut store = SessionStore::default();

    let listed = execute_local_session_resume_command(
        "codex",
        &ExternalCliResumeSlashCommand::List,
        &None,
        &files,
        &index,
        &mut store,
        NOW,
    )
    .expect("list");
    assert!(listed.contains(id));
    assert!(listed.contains("id 前缀"));

    let missing_context = execute_local_session_resume_command(
        "codex",
        &ExternalCliResumeSlashCommand::Pick(id.to_string()),
        &None,
        &files,
        &index,
        &mut store,
        NOW,
    )
    .expect_err("pick requires session context");
    assert!(missing_context.contains("sessionKey"));

    let picked = execute_local_session_resume_command(
        "codex",
        &ExternalCliResumeSlashCommand::Pick("cccccccc".to_string()),
        &Some(LocalSessionSelectionContext {
            session_key: "web:async-resume".to_string(),
            runner_id: "Codex".to_string(),
        }),
        &files,
        &index,
        &mut store,
        NOW,
    )
    .expect("pick");
    assert!(picked.contains(id));
    let state = load_session_state(&store, "web:async-resume", "codex", Some("Codex"))
        .expect("persisted state");
    assert_eq!(state.external_thread_id.as_deref(), Some(id));

    let unsupported = execute_local_session_resume_command(
        "mock",
        &ExternalCliResumeSlashCommand::List,
        &None,
        &files,
        &index,
        &mut store,
        NOW,
    )
    .expect_err("unsupported adapter");
    assert!(unsupported.contains("仅支持"));
}

#[test]
fn resume_discovers_codex_sessions_sorted_with_index_titles_and_limit() {
    let mut files = Vec::new();
    let mut index_values = Vec::new();
    for index in 0..22 {
        let id = format!("00000000-0000-0000-0000-{index:012}");
        files.push(session_file(
            &format!("rollout-{id}"),
            &[&format!(
                r#"{{"timestamp": "2099-08-07T12:{index:02}:00Z", "type": "session_meta", "payload": {{"id": "{id}", "timestamp": "2099-08-07T12:{index:02}:00Z"}}}}"#
            )],
        ));
        index_values.push(format!(
            r#"{{"id": "{id}", "thread_name": "Title {index}\nwith whitespace", "updated_at": "2099-08-07T12:{index:02}:30Z"}}"#
        ));
    }

    let sessions = discover_local_sessions("codex", &files, &index_values, None).expect("sessions");
    assert_eq!(sessions.len(), 20);
    assert_eq!(sessions[0].id, "00000000-0000-0000-0000-000000000021");
    assert_eq!(sessions[0].title, "Title 21 with whitespace");
    assert_eq!(sessions[0].datetime, "2099-08-07T12:21:30Z");
}

#[test]
fn resume_discovers_traex_and_claude_sessions_from_separate_homes() {
    let trae_id = "11111111-1111-1111-1111-111111111111";
    let trae_files = vec![session_file(
        "rollout-trae",
        &[&format!(
            r#"{{"timestamp": "2026-08-06T01:00:00Z", "type": "session_meta", "payload": {{"id": "{trae_id}", "timestamp": "2026-08-06T01:00:00Z"}}}}"#
        )],
    )];
    let trae_history = vec![format!(
        r#"{{"session_id": "{trae_id}", "ts": 1785981600, "text": "Trae title"}}"#
    )];

    let other_id = "22222222-2222-2222-2222-222222222222";
    let other_files = vec![session_file(
        "other",
        &[
            &format!(
                r#"{{"type": "user", "sessionId": "{other_id}", "timestamp": "2026-08-05T01:00:00Z", "message": {{"content": "fallback title"}}}}"#
            ),
            &format!(
                r#"{{"type": "ai-title", "sessionId": "{other_id}", "aiTitle": "AI title"}}"#
            ),
        ],
    )];

    let trae =
        discover_local_sessions("traex", &trae_files, &trae_history, None).expect("trae sessions");
    assert_eq!(trae.len(), 1);
    assert_eq!(trae[0].title, "Trae title");
    let other = discover_local_sessions(CLAUDE_CODE_ADAPTER, &other_files, &Vec::new(), None)
        .expect("sessions");
    assert_eq!(other.len(), 1);
    assert_eq!(other[0].id, other_id);
    assert_eq!(other[0].title, "AI title");
}

#[test]
fn resume_resolves_exact_and_unique_prefix_but_rejects_ambiguous_prefix() {
    let files: Vec<SessionFile> = [
        "aaaaaaaa-0000-0000-0000-000000000001",
        "aaaaaaaa-0000-0000-0000-000000000002",
        "bbbbbbbb-0000-0000-0000-000000000003",
    ]
    .iter()
    .map(|id| {
        session_file(
            id,
            &[&format!(
                r#"{{"type": "session_meta", "payload": {{"id": "{id}"}}}}"#
            )],
        )
    })
    .collect();
    let index = Vec::new();

    assert_eq!(
        resolve_local_session("codex", &files, &index, "bbbbbbbb")
            .expect("unique")
            .id,
        "bbbbbbbb-0000-0000-0000-000000000003"
    );
    assert!(resolve_local_session("codex", &files, &index, "aaaaaaaa").is_err());
    assert!(resolve_local_session("traex", &Vec::new(), &index, "bbbbbbbb").is_err());
    assert!(resolve_local_session("codex", &files, &index, "missing").is_err());
    assert!(resolve_local_session("codex", &files, &index, "cccccccc").is_err());
    assert!(discover_local_sessions("mock", &files, &index, None).is_err());
}

#[test]
fn resume_formatting_and_parsing_helpers_cover_empty_nested_and_invalid_values() {
    assert_eq!(
        format_local_session_list("codex", &Vec::new()),
        "没有找到 Codex 本地 session。"
    );
    assert_eq!(clean_title("  \n\t "), "Untitled session");
    assert!(clean_title(&"界".repeat(MAX_TITLE_CHARS + 1)).ends_with('…'));
    assert_eq!(normalize_epoch(2), 2_000);
    assert_eq!(normalize_epoch(10_000_000_000), 10_000_000_000);
    assert_eq!(timestamp_from_value(Some(&json("-1"))), 0);
    assert_eq!(timestamp_from_value(Some(&json("\"bad\""))), 0);
    assert_eq!(format_datetime(u64::MAX), "unknown");
    assert_eq!(
        extract_message_text(Some(&json("\" text \""))).as_deref(),
        Some("text")
    );
    assert_eq!(
        extract_message_text(Some(&json(r#"{"content": [{"text": "nested"}]}"#))).as_deref(),
        Some("nested")
    );
    assert!(extract_message_text(Some(&json("42"))).is_none());

    let files = vec![session_file(
        "fallback-id",
        &[r#"{"type": "user", "timestamp": 1786080000, "message": {"text": "fallback"}}"#],
    )];
    let sessions =
        discover_local_sessions(CLAUDE_CODE_ADAPTER, &files, &Vec::new(), None).expect("sessions");
    assert_eq!(sessions[0].id, "fallback-id");
    assert_eq!(sessions[0].title, "fallback");
}

#[test]
fn resume_persists_selected_thread_without_dropping_other_session_overrides() {
    let mut store = SessionStore::default();
    let runner_id = default_claude_code_runner_id();
    upsert_session_state(
        &mut store,
        "web:resume-test",
        CLAUDE_CODE_ADAPTER,
        Some(&runner_id),
        |mut state| {
            state.external_conversation_id = Some("old-conversation".to_string());
            state.model_override = Some("sonnet".to_string());
            state
        },
        NOW,
    );
    let selected = LocalExternalSession {
        id: "22222222-2222-2222-2222-222222222222".to_string(),
        title: "Selected".to_string(),
        datetime: "2026-08-07T00:00:00Z".to_string(),
        updated_at_millis: 1,
    };

    persist_local_session_selection(
        &mut store,
        "web:resume-test",
        CLAUDE_CODE_ADAPTER,
        &runner_id,
        &selected,
        NOW,
    );

    let state = load_session_state(
        &store,
        "web:resume-test",
        CLAUDE_CODE_ADAPTER,
        Some(&runner_id),
    )
    .expect("state");
    assert_eq!(
        state.external_thread_id.as_deref(),
        Some("22222222-2222-2222-2222-222222222222")
    );
    assert!(state.external_conversation_id.is_none());
    assert_eq!(state.model_override.as_deref(), Some("sonnet"));
}

#[test]
fn times_are_read_and_written_in_utc() {
    assert_eq!(
        timestamp_from_value(Some(&json("\"2026-08-07T03:04:05Z\""))),
        1_786_071_845_000
    );
    assert_eq!(
        timestamp_from_value(Some(&json("\"2026-08-07T05:04:05+02:00\""))),
        1_786_071_845_000
    );
    assert_eq!(timestamp_from_value(Some(&json("1786071845"))), 1_786_071_845_000);
    assert_eq!(format_datetime(1_786_071_845_000), "2026-08-07T03:04:05Z");
    assert_eq!(timestamp_from_value(None), 0);
}

#[test]
fn sessions_come_newest_first_and_once() {
    let line = |id: &str, minute: u32| {
        format!(
            r#"{{"timestamp": "2026-08-07T12:{minute:02}:00Z", "type": "session_meta", "payload": {{"id": "{id}"}}}}"#
        )
    };
    let old = line("session-b", 5);
    let newer = line("session-b", 30);
    let middle = line("session-a", 10);
    let files = vec![
        session_file("1", &[&old]),
        session_file("2", &[&middle]),
        session_file("3", &[&newer]),
    ];
    let sessions =
        discover_local_sessions("codex", &files, &Vec::new(), Some(10)).expect("sessions");
    let ids: Vec<&str> = sessions.iter().map(|session| session.id.as_str()).collect();
    assert_eq!(ids, vec!["session-b", "session-a"]);
    assert_eq!(sessions[0].datetime, "2026-08-07T12:30:00Z");
}

#[test]
fn cleaning_a_title_twice_is_cleaning_it_once() {
    let long = "word ".repeat(MAX_TITLE_CHARS);
    let blank_at_the_cut = format!("{} x", "a".repeat(MAX_TITLE_CHARS - 1));
    for title in ["", " a\n b\tc ", long.as_str(), blank_at_the_cut.as_str()] {
        let once = clean_title(title);
        assert_eq!(clean_title(&once), once);
    }
    assert_eq!(clean_title(" a\n b\tc "), "a b c");
}
