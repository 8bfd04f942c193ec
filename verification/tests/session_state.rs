use bifrost::json::Json;
use bifrost::session_state::{
    check_store_size, check_store_version, clear_session_state, clear_session_state_scope,
    list_session_states, load_latest_session_state, load_session_state, metadata_from_state,
    normalize_state, push_imported_context, remember_session_state, render_imported_contexts,
    state_key, take_imported_contexts, upsert_session_state, ImAgentSessionMessage,
    ImAgentSessionState, ImImportedRunnerContext, SessionStore, BUILTIN_AGENT_ADAPTER,
};

const NOW: u64 = 1_750_000_000_000;

fn convert(value: serde_json::Value) -> Json {
    match value {
        serde_json::Value::Null => Json::Null,
        serde_json::Value::Bool(b) => Json::Bool(b),
        serde_json::Value::Number(n) => match (n.as_u64(), n.as_i64()) {
            (Some(u), _) => Json::Unsigned(u),
            (None, Some(i)) => Json::Signed(i),
            (None, None) => Json::Float(n),
        },
        serde_json::Value::String(s) => Json::Text(s),
        serde_json::Value::Array(v) => Json::List(v.into_iter().map(convert).collect()),
        serde_json::Value::Object(m) => {
            Json::Object(m.into_iter().map(|(k, v)| (k, convert(v))).collect())
        }
    }
}

fn json(text: &str) -> Json {
    convert(serde_json::from_str(text).expect("valid JSON"))
}

#[test]
fn remembers_and_loads_exact_session_state() {
    let mut store = SessionStore::default();

    remember_session_state(
        &mut store,
        &ImAgentSessionState {
            session_key: "im:provider:user".to_string(),
            adapter: "codex".to_string(),
            runner_id: Some("runner-a".to_string()),
            external_thread_id: Some("thread-1".to_string()),
            updated_at: 1,
            ..ImAgentSessionState::default()
        },
        NOW,
    )
    .expect("remember");

    let state =
        load_session_state(&store, "im:provider:user", "codex", Some("runner-a")).expect("state");
    assert_eq!(state.external_thread_id.as_deref(), Some("thread-1"));
    assert_eq!(
        metadata_from_state(&state)
            .get("threadId")
            .map(|value| value.as_str()),
        Some("thread-1")
    );
}

#[test]
fn list_session_states_includes_external_runner_result_fields() {
    let mut store = SessionStore::default();

    remember_session_state(
        &mut store,
        &ImAgentSessionState {
            session_key: "codex-ui-session".to_string(),
            adapter: "codex".to_string(),
            runner_id: Some("codex".to_string()),
            latest_run_id: Some("run-1".to_string()),
            title: Some("Summarize issue".to_string()),
            last_user_message: Some("Summarize issue".to_string()),
            last_response: Some("Done".to_string()),
            status: Some("succeeded".to_string()),
            updated_at: 1,
            ..ImAgentSessionState::default()
        },
        NOW,
    )
    .expect("remember");

    let states = list_session_states(&store);
    assert_eq!(states.len(), 1);
    assert_eq!(states[0].session_key, "codex-ui-session");
    assert_eq!(states[0].latest_run_id.as_deref(), Some("run-1"));
    assert_eq!(states[0].last_response.as_deref(), Some("Done"));
}

#[test]
fn session_state_normalizes_persisted_message_sequence() {
    let mut store = SessionStore::default();

    remember_session_state(
        &mut store,
        &ImAgentSessionState {
            session_key: "chatgpt-web-ui-session".to_string(),
            adapter: "chatgpt_web".to_string(),
            runner_id: Some("web".to_string()),
            messages: vec![
                ImAgentSessionMessage {
                    role: " user ".to_string(),
                    content: " first ".to_string(),
                    timestamp: Some(11),
                    content_parts: None,
                },
                ImAgentSessionMessage {
                    role: "assistant".to_string(),
                    content: " ".to_string(),
                    timestamp: Some(12),
                    content_parts: None,
                },
                ImAgentSessionMessage {
                    role: "assistant".to_string(),
                    content: "answer".to_string(),
                    timestamp: Some(13),
                    content_parts: None,
                },
            ],
            ..ImAgentSessionState::default()
        },
        NOW,
    )
    .expect("remember");

    let state = load_session_state(&store, "chatgpt-web-ui-session", "chatgpt_web", Some("web"))
        .expect("state");
    assert_eq!(state.messages.len(), 2);
    assert_eq!(state.messages[0].role, "user");
    assert_eq!(state.messages[0].content, "first");
    assert_eq!(state.messages[1].role, "assistant");
    assert_eq!(state.messages[1].content, "answer");
}

#[test]
fn session_state_persists_message_content_parts() {
    let mut store = SessionStore::default();

    let content_parts = r#"[
        {"type": "text", "text": "describe"},
        {"type": "image_url", "image_url": {"url": "data:image/png;base64,aGVsbG8=", "detail": "auto"}}
    ]"#;
    remember_session_state(
        &mut store,
        &ImAgentSessionState {
            session_key: "image-session".to_string(),
            adapter: "codex".to_string(),
            runner_id: Some("codex".to_string()),
            messages: vec![ImAgentSessionMessage {
                role: "user".to_string(),
                content: "describe".to_string(),
                timestamp: Some(11),
                content_parts: Some(json(content_parts)),
            }],
            ..ImAgentSessionState::default()
        },
        NOW,
    )
    .expect("remember");

    let state = load_session_state(&store, "image-session", "codex", Some("codex")).unwrap();
    assert_eq!(state.messages[0].content_parts, Some(json(content_parts)));
}

fn remember_thread(
    store: &mut SessionStore,
    adapter: &str,
    runner_id: Option<&str>,
    thread: &str,
    updated_at: u64,
) {
    remember_session_state(
        store,
        &ImAgentSessionState {
            session_key: "im:provider:user".to_string(),
            adapter: adapter.to_string(),
            runner_id: runner_id.map(ToString::to_string),
            external_thread_id: Some(thread.to_string()),
            updated_at,
            ..ImAgentSessionState::default()
        },
        NOW,
    )
    .expect("remember");
}

#[test]
fn falls_back_to_latest_adapter_state_when_runner_is_unspecified() {
    let mut store = SessionStore::default();

    remember_thread(&mut store, "codex", Some("runner-old"), "thread-old", 10);
    remember_thread(&mut store, "codex", Some("runner-new"), "thread-new", 20);

    let state = load_latest_session_state(&store, "im:provider:user", Some("codex"), None)
        .expect("latest state");
    assert_eq!(state.external_thread_id.as_deref(), Some("thread-new"));
}

#[test]
fn latest_state_uses_write_sequence_when_timestamp_ties() {
    let mut store = SessionStore::default();

    remember_thread(&mut store, "codex", Some("runner-a"), "thread-a", 42);
    remember_thread(&mut store, "codex", Some("runner-b"), "thread-b", 42);

    let state = load_latest_session_state(&store, "im:provider:user", Some("codex"), None)
        .expect("latest state");
    assert_eq!(state.external_thread_id.as_deref(), Some("thread-b"));
    assert!(state.updated_seq > 0);
}

#[test]
fn clear_session_state_scope_removes_only_matching_adapter_and_runner() {
    let mut store = SessionStore::default();

    for (adapter, runner_id, thread_id) in [
        ("codex", Some("runner-a"), "thread-a"),
        ("codex", Some("runner-b"), "thread-b"),
        ("chatgpt_web", Some("chatgpt"), "conversation-a"),
        (BUILTIN_AGENT_ADAPTER, None, "builtin"),
    ] {
        remember_thread(&mut store, adapter, runner_id, thread_id, 1);
    }

    let removed = clear_session_state_scope(
        &mut store,
        "im:provider:user",
        Some("codex"),
        Some("runner-a"),
    );
    assert_eq!(removed.len(), 1);
    assert!(load_session_state(&store, "im:provider:user", "codex", Some("runner-a")).is_none());
    assert!(load_session_state(&store, "im:provider:user", "codex", Some("runner-b")).is_some());
    assert!(
        load_session_state(&store, "im:provider:user", "chatgpt_web", Some("chatgpt")).is_some()
    );
    assert!(load_session_state(&store, "im:provider:user", BUILTIN_AGENT_ADAPTER, None).is_some());
}

#[test]
fn clear_session_state_removes_all_adapters_for_session() {
    let mut store = SessionStore::default();

    for adapter in ["codex", "chatgpt_web", BUILTIN_AGENT_ADAPTER] {
        remember_session_state(
            &mut store,
            &ImAgentSessionState {
                session_key: "im:provider:user".to_string(),
                adapter: adapter.to_string(),
                updated_at: 1,
                ..ImAgentSessionState::default()
            },
            NOW,
        )
        .expect("remember");
    }

    clear_session_state(&mut store, "im:provider:user");
    assert!(load_latest_session_state(&store, "im:provider:user", None, None).is_none());
}

fn imported(call_id: &str) -> ImImportedRunnerContext {
    ImImportedRunnerContext {
        call_id: call_id.to_string(),
        source_session_key: "admin-chat-import".to_string(),
        target_runner_id: "web".to_string(),
        target_adapter: "chatgpt_web".to_string(),
        user_message: "summarize context".to_string(),
        response: "context summary".to_string(),
        created_at: 1,
    }
}

#[test]
fn imported_contexts_are_pushed_rendered_and_consumed_once() {
    let mut store = SessionStore::default();

    push_imported_context(
        &mut store,
        "admin-chat-import",
        "codex",
        Some("codex"),
        &imported("call-1"),
        NOW,
    )
    .expect("push");

    let state =
        load_session_state(&store, "admin-chat-import", "codex", Some("codex")).expect("state");
    assert_eq!(state.pending_imported_contexts.len(), 1);
    let rendered =
        render_imported_contexts(&state.pending_imported_contexts).expect("rendered contexts");
    assert!(rendered.contains("Imported Runner Results"));
    assert!(rendered.contains("context summary"));

    let consumed =
        take_imported_contexts(&mut store, "admin-chat-import", "codex", Some("codex"), NOW);
    assert_eq!(consumed.len(), 1);
    assert!(
        take_imported_contexts(&mut store, "admin-chat-import", "codex", Some("codex"), NOW)
            .is_empty()
    );
}

#[test]
fn a_call_waits_at_most_once() {
    let mut store = SessionStore::default();
    for call_id in ["call-1", "call-1", "call-2"] {
        push_imported_context(
            &mut store,
            "admin-chat-import",
            "codex",
            None,
            &imported(call_id),
            NOW,
        )
        .expect("push");
    }

    let waiting = take_imported_contexts(&mut store, "admin-chat-import", "codex", None, NOW);
    let calls: Vec<&str> = waiting.iter().map(|c| c.call_id.as_str()).collect();
    assert_eq!(calls, vec!["call-1", "call-2"]);
}

#[test]
fn rendered_contexts_are_exact() {
    assert_eq!(render_imported_contexts(&Vec::new()), None);
    assert_eq!(
        render_imported_contexts(&vec![imported("call-1")]).unwrap(),
        "## Imported Runner Results\n\n\
         The following results were produced by user-triggered slash Runner calls in this conversation. Use them as current conversation context.\n\n\
         ### Runner Call call-1\n- Target Runner: web (chatgpt_web)\n- User Request: summarize context\n\nResult:\ncontext summary\n\n"
    );
}

#[test]
fn a_state_without_a_key_or_an_adapter_is_refused() {
    let mut store = SessionStore::default();
    for (session_key, adapter) in [(" ", "codex"), ("session", " ")] {
        let refused = remember_session_state(
            &mut store,
            &ImAgentSessionState {
                session_key: session_key.to_string(),
                adapter: adapter.to_string(),
                ..ImAgentSessionState::default()
            },
            NOW,
        );
        assert!(refused.is_err());
    }
    assert!(list_session_states(&store).is_empty());
    assert_eq!(store, SessionStore::default());
}

#[test]
fn normalizing_a_state_twice_changes_nothing_more() {
    let state = ImAgentSessionState {
        session_key: " im:provider:user ".to_string(),
        adapter: " codex ".to_string(),
        runner_id: Some("  ".to_string()),
        title: Some(" a title ".to_string()),
        ..ImAgentSessionState::default()
    };
    let once = normalize_state(&state, NOW).expect("normalized");
    assert_eq!(once.session_key, "im:provider:user");
    assert_eq!(once.adapter, "codex");
    assert_eq!(once.runner_id, None);
    assert_eq!(once.title.as_deref(), Some("a title"));
    assert_eq!(once.updated_at, NOW);
    assert_eq!(normalize_state(&once, NOW + 1).expect("again"), once);
}

#[test]
fn the_last_write_is_the_one_that_is_loaded() {
    let mut store = SessionStore::default();
    remember_thread(&mut store, "codex", Some("runner-a"), "thread-1", 7);
    remember_thread(&mut store, "codex", Some("runner-a"), "thread-2", 7);

    let state = load_session_state(&store, "im:provider:user", "codex", Some("runner-a"));
    assert_eq!(
        state.expect("state").external_thread_id.as_deref(),
        Some("thread-2")
    );
    assert_eq!(list_session_states(&store).len(), 1);
    assert_eq!(store.write_seq, 2);
}

#[test]
fn an_update_starts_from_what_is_stored() {
    let mut store = SessionStore::default();
    remember_thread(&mut store, "codex", None, "thread-1", 7);
    let after = upsert_session_state(
        &mut store,
        "im:provider:user",
        "codex",
        None,
        |mut state| {
            assert_eq!(state.external_thread_id.as_deref(), Some("thread-1"));
            state.model_override = Some("gpt-test".to_string());
            state
        },
        NOW,
    );
    assert_eq!(after.external_thread_id.as_deref(), Some("thread-1"));
    assert_eq!(after.model_override.as_deref(), Some("gpt-test"));
}

#[test]
fn keys_of_states_are_exact() {
    assert_eq!(
        state_key(" im:user ", " codex ", Some(" runner ")),
        "im:user::codex::runner"
    );
    assert_eq!(state_key("im:user", "codex", None), "im:user::codex::");
}

#[test]
fn files_that_are_too_large_or_too_new_are_not_read() {
    assert_eq!(check_store_size(16_777_216), Ok(()));
    assert_eq!(
        check_store_size(16_777_217),
        Err("session state file exceeds 16777216 bytes".to_string())
    );
    assert_eq!(check_store_version(1), Ok(()));
    assert_eq!(
        check_store_version(2),
        Err("unsupported session state version 2".to_string())
    );
}
