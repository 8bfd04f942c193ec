use bifrost::agent_config::{
    claude_word_text, ExternalCliAdapterConfig, DEFAULT_ADAPTER, TRAEX_ADAPTER,
};
use bifrost::json::Json;
use bifrost::map::TextMap;
use bifrost::model_config::{
    claude_code_settings_path, external_cli_user_config_path, load_claude_code_model_config,
    load_external_cli_user_model_config, parse_claude_code_effort_config_json,
    parse_config_override_string, profile_file_name, read_model_config_toml,
    resolve_external_cli_model_config, ExternalCliResolvedModelConfig,
};

const CODEX_CONFIG: &str = r#"
model = "gpt-codex-default"
model_reasoning_effort = "high"
model_reasoning_summary = "auto"
"#;

const CODEX_PROFILE: &str = r#"
model = "gpt-codex-profile"
model_reasoning_effort = "medium"
"#;

const TRAE_CONFIG: &str = r#"
model = "GPT-Trae"
model_provider = "trae"
"#;

#[test]
fn codex_and_traex_model_config_resolves_user_defaults_and_overrides() {
    let profile_config = ExternalCliAdapterConfig {
        profile: Some("work".to_string()),
        ..Default::default()
    };
    let location = external_cli_user_config_path(DEFAULT_ADAPTER).expect("codex location");
    assert_eq!(location.file_name, "config.toml");
    assert_eq!(location.home_variables, vec!["CODEX_HOME"]);
    assert_eq!(
        profile_file_name(&profile_config, &location).as_deref(),
        Some("work.config.toml")
    );
    let codex = resolve_external_cli_model_config(
        load_external_cli_user_model_config(
            Some(CODEX_CONFIG),
            Some(CODEX_PROFILE),
            &profile_config,
            &location.source,
        ),
        &profile_config,
    );
    assert_eq!(codex.model.as_deref(), Some("gpt-codex-profile"));
    assert_eq!(codex.reasoning_effort.as_deref(), Some("medium"));
    assert_eq!(codex.reasoning_summary.as_deref(), Some("auto"));
    assert_eq!(codex.model_source.as_deref(), Some("codex config"));

    let location = external_cli_user_config_path(TRAEX_ADAPTER).expect("trae location");
    assert_eq!(location.file_name, "traecli.toml");
    let plain = ExternalCliAdapterConfig::default();
    let trae = resolve_external_cli_model_config(
        load_external_cli_user_model_config(Some(TRAE_CONFIG), None, &plain, &location.source),
        &plain,
    );
    assert_eq!(trae.model.as_deref(), Some("GPT-Trae"));
    assert_eq!(trae.model_provider.as_deref(), Some("trae"));

    let runner_config = ExternalCliAdapterConfig {
        model: Some("gpt-runner".to_string()),
        reasoning_effort: Some("low".to_string()),
        config_overrides: vec!["model_reasoning_summary=\"detailed\"".to_string()],
        ..Default::default()
    };
    let overridden = resolve_external_cli_model_config(
        load_external_cli_user_model_config(
            Some(CODEX_CONFIG),
            None,
            &runner_config,
            "codex config",
        ),
        &runner_config,
    );
    assert_eq!(overridden.model.as_deref(), Some("gpt-runner"));
    assert_eq!(overridden.reasoning_effort.as_deref(), Some("low"));
    assert_eq!(overridden.reasoning_summary.as_deref(), Some("detailed"));
    assert_eq!(overridden.model_source.as_deref(), Some("runner config"));
    assert_eq!(
        overridden.reasoning_source.as_deref(),
        Some("runner config")
    );
}

fn settings_text() -> String {
    r#"{
          "model": "sonnet",
          "effortLevel": "low",
          "env": {
            "ANTHROPIC_DEFAULT_HAIKU_MODEL": "@-haiku-custom",
            "ANTHROPIC_DEFAULT_SONNET_MODEL": "@-opus-4-7",
            "ANTHROPIC_DEFAULT_OPUS_MODEL": "@-opus-custom",
            "CLAUDE_CODE_EFFORT_LEVEL": "medium"
          }
        }"#
    .replace('@', &claude_word_text())
}

#[test]
fn claude_code_model_config_ignores_settings_model_but_resolves_effort() {
    let contents = vec![settings_text()];
    let plain = ExternalCliAdapterConfig::default();
    let claude = resolve_external_cli_model_config(
        load_claude_code_model_config(&contents, None, None, &plain),
        &plain,
    );
    assert_eq!(claude.model, None);
    assert_eq!(claude.model_provider, None);
    assert_eq!(claude.model_source, None);
    assert_eq!(claude.reasoning_effort.as_deref(), Some("medium"));
    assert_eq!(
        claude.reasoning_source,
        Some(format!("{} settings", claude_word_text()))
    );

    let mut env = TextMap::new();
    env.insert("ANTHROPIC_MODEL", "custom-direct-model".to_string());
    let with_model = ExternalCliAdapterConfig {
        env,
        ..Default::default()
    };
    let runner_model = resolve_external_cli_model_config(
        load_claude_code_model_config(&contents, None, None, &with_model),
        &with_model,
    );
    assert_eq!(runner_model.model, None);
    assert_eq!(runner_model.reasoning_effort.as_deref(), Some("medium"));

    let mut env = TextMap::new();
    env.insert("CLAUDE_CODE_EFFORT_LEVEL", "high".to_string());
    let with_effort = ExternalCliAdapterConfig {
        env,
        ..Default::default()
    };
    let runner_effort = resolve_external_cli_model_config(
        load_claude_code_model_config(&contents, None, None, &with_effort),
        &with_effort,
    );
    assert_eq!(runner_effort.model, None);
    assert_eq!(runner_effort.reasoning_effort.as_deref(), Some("high"));
    assert_eq!(
        runner_effort.reasoning_source.as_deref(),
        Some("runner config")
    );
}

#[test]
fn settings_that_cannot_be_read_say_nothing() {
    assert_eq!(
        read_model_config_toml(Some("model = "), "codex config"),
        ExternalCliResolvedModelConfig::default()
    );
    assert_eq!(
        read_model_config_toml(None, "codex config"),
        ExternalCliResolvedModelConfig::default()
    );
    assert_eq!(
        parse_claude_code_effort_config_json("{not json", "settings"),
        ExternalCliResolvedModelConfig::default()
    );
}

#[test]
fn a_runner_that_ignores_the_user_sees_only_its_own_settings() {
    let config = ExternalCliAdapterConfig {
        ignore_user_config: Some(true),
        reasoning_effort: Some("low".to_string()),
        ..Default::default()
    };
    let resolved = resolve_external_cli_model_config(
        load_external_cli_user_model_config(Some(CODEX_CONFIG), None, &config, "codex config"),
        &config,
    );
    assert_eq!(resolved.model, None);
    assert_eq!(resolved.reasoning_effort.as_deref(), Some("low"));
    assert_eq!(resolved.reasoning_summary, None);
}

#[test]
fn overrides_are_read_as_values() {
    assert_eq!(
        parse_config_override_string("\"gpt-x\"").as_deref(),
        Some("gpt-x")
    );
    assert_eq!(
        parse_config_override_string(" plain ").as_deref(),
        Some("plain")
    );
    assert_eq!(parse_config_override_string("  "), None);
}

#[test]
fn settings_may_stand_elsewhere() {
    let mut extra = TextMap::new();
    extra.insert(
        "settingsPath",
        Json::Text(" /tmp/settings.json ".to_string()),
    );
    let config = ExternalCliAdapterConfig {
        extra,
        ..Default::default()
    };
    assert_eq!(
        claude_code_settings_path(&config).as_deref(),
        Some("/tmp/settings.json")
    );
    assert_eq!(
        claude_code_settings_path(&ExternalCliAdapterConfig::default()),
        None
    );
}
