use bifrost::agent_config::{
    claude_product_text, claude_word_text, CLAUDE_CODE_ADAPTER, DEFAULT_ADAPTER, TRAEX_ADAPTER,
};
use bifrost::gateway_config::{
    canonical_external_cli_runner_id, default_claude_code_runner_id, effective_config_for_provider,
    effective_config_for_provider_and_runner, normalized_gateway_config, update_channel,
    ExternalCliAgentSettings, ExternalCliChannelSettings, ExternalCliDeliveryMode,
    ExternalCliGatewayConfig, DEFAULT_CODEX_RUNNER_ID, DEFAULT_TRAEX_RUNNER_ID,
};
use bifrost::map::TextMap;

fn one<V>(key: &str, value: V) -> TextMap<V> {
    let mut map = TextMap::new();
    map.insert(key, value);
    map
}

#[test]
fn effective_config_marks_channel_overrides() {
    let mut config = ExternalCliGatewayConfig::default();
    let mut runner = config
        .runners
        .remove(DEFAULT_CODEX_RUNNER_ID)
        .expect("Codex runner");
    runner.enabled = true;
    runner.adapter = "codex".to_string();
    runner.inject_bifrost_tools = true;
    config.runners.insert(DEFAULT_CODEX_RUNNER_ID, runner);
    config.runners.insert(
        "mock-runner",
        ExternalCliAgentSettings {
            enabled: true,
            adapter: "mock".to_string(),
            inject_bifrost_tools: false,
            ..Default::default()
        },
    );
    config.channels.insert(
        "feishu-main",
        ExternalCliChannelSettings {
            runner_id: Some("mock-runner".to_string()),
            ..Default::default()
        },
    );

    let effective = effective_config_for_provider(&config, Some("feishu-main"));

    assert!(effective.settings.enabled);
    assert_eq!(effective.settings.adapter, "mock");
    assert!(!effective.settings.inject_bifrost_tools);
    assert_eq!(
        effective.sources.get("runnerId").map(|value| value.as_str()),
        Some("channel")
    );
    assert_eq!(effective.runner_id, "mock-runner");
}

#[test]
fn default_gateway_config_contains_enabled_codex_and_traex_runners() {
    let config = ExternalCliGatewayConfig::default();

    assert_eq!(config.default_runner_id, DEFAULT_CODEX_RUNNER_ID);
    let codex = config
        .runners
        .get(DEFAULT_CODEX_RUNNER_ID)
        .expect("Codex default runner");
    assert!(codex.enabled);
    assert_eq!(codex.adapter, DEFAULT_ADAPTER);
    let traex_runner = config
        .runners
        .get(DEFAULT_TRAEX_RUNNER_ID)
        .expect("Traex default runner");
    assert!(traex_runner.enabled);
    assert_eq!(traex_runner.adapter, TRAEX_ADAPTER);
    let claude_code = config
        .runners
        .get(&default_claude_code_runner_id())
        .expect("third default runner");
    assert!(claude_code.enabled);
    assert_eq!(claude_code.adapter, CLAUDE_CODE_ADAPTER);
}

fn enabled_adapter(config: &ExternalCliGatewayConfig, runner_id: &str) -> Option<(bool, String)> {
    config
        .runners
        .get(runner_id)
        .map(|settings| (settings.enabled, settings.adapter.clone()))
}

fn assert_named_defaults(config: &ExternalCliGatewayConfig) {
    assert_eq!(
        enabled_adapter(config, DEFAULT_CODEX_RUNNER_ID),
        Some((true, DEFAULT_ADAPTER.to_string()))
    );
    assert_eq!(
        enabled_adapter(config, DEFAULT_TRAEX_RUNNER_ID),
        Some((true, TRAEX_ADAPTER.to_string()))
    );
    assert_eq!(
        enabled_adapter(config, &default_claude_code_runner_id()),
        Some((true, CLAUDE_CODE_ADAPTER.to_string()))
    );
}

#[test]
fn normalized_gateway_config_adds_named_defaults_without_overwriting_existing_runners() {
    let config = ExternalCliGatewayConfig {
        default_runner_id: "custom".to_string(),
        runners: one(
            "custom",
            ExternalCliAgentSettings {
                enabled: false,
                adapter: "mock".to_string(),
                ..Default::default()
            },
        ),
        ..Default::default()
    };

    let normalized = normalized_gateway_config(config);

    assert_eq!(normalized.default_runner_id, "custom");
    assert_eq!(
        enabled_adapter(&normalized, "custom"),
        Some((false, "mock".to_string()))
    );
    assert_named_defaults(&normalized);
}

#[test]
fn normalized_gateway_config_migrates_legacy_claude_code_runner_id() {
    let legacy = claude_product_text();
    let config = ExternalCliGatewayConfig {
        default_runner_id: legacy.clone(),
        runners: one(
            &legacy,
            ExternalCliAgentSettings {
                enabled: true,
                adapter: CLAUDE_CODE_ADAPTER.to_string(),
                ..Default::default()
            },
        ),
        channels: one(
            "feishu-main",
            ExternalCliChannelSettings {
                runner_id: Some(legacy.clone()),
                ..Default::default()
            },
        ),
        version: 1,
    };

    let normalized = normalized_gateway_config(config);

    assert!(!normalized.runners.contains_key(&legacy));
    assert_eq!(
        normalized.default_runner_id,
        default_claude_code_runner_id()
    );
    assert_eq!(
        normalized
            .runners
            .get(&default_claude_code_runner_id())
            .map(|settings| settings.adapter.as_str()),
        Some(CLAUDE_CODE_ADAPTER)
    );
    assert_eq!(
        normalized
            .channels
            .get("feishu-main")
            .and_then(|channel| channel.runner_id.clone()),
        Some(default_claude_code_runner_id())
    );
    assert_eq!(
        canonical_external_cli_runner_id(&normalized, &format!("{} code", claude_word_text())),
        default_claude_code_runner_id()
    );
}

#[test]
fn normalized_gateway_config_empty_runners_uses_enabled_named_defaults() {
    let normalized = normalized_gateway_config(ExternalCliGatewayConfig {
        default_runner_id: "codex".to_string(),
        runners: TextMap::new(),
        channels: TextMap::new(),
        version: 0,
    });

    assert_eq!(normalized.default_runner_id, DEFAULT_CODEX_RUNNER_ID);
    assert_named_defaults(&normalized);
    assert!(!normalized.runners.contains_key("codex"));
}

#[test]
fn effective_config_resolves_legacy_runner_aliases_to_named_defaults() {
    let config = ExternalCliGatewayConfig::default();

    let codex = effective_config_for_provider_and_runner(&config, None, Some("codex"));
    assert_eq!(codex.runner_id, DEFAULT_CODEX_RUNNER_ID);
    assert_eq!(codex.settings.adapter, DEFAULT_ADAPTER);
    assert!(codex.settings.enabled);

    let traex = effective_config_for_provider_and_runner(&config, None, Some("traex"));
    assert_eq!(traex.runner_id, DEFAULT_TRAEX_RUNNER_ID);
    assert_eq!(traex.settings.adapter, TRAEX_ADAPTER);
    assert!(traex.settings.enabled);

    let legacy_alias = ["Tree", "X"].concat();
    let legacy_traex = effective_config_for_provider_and_runner(&config, None, Some(&legacy_alias));
    assert_eq!(legacy_traex.runner_id, DEFAULT_TRAEX_RUNNER_ID);
    assert_eq!(legacy_traex.settings.adapter, TRAEX_ADAPTER);
    assert!(legacy_traex.settings.enabled);

    let hyphenated = format!("{}-code", claude_word_text());
    let claude_code = effective_config_for_provider_and_runner(&config, None, Some(&hyphenated));
    assert_eq!(claude_code.runner_id, default_claude_code_runner_id());
    assert_eq!(claude_code.settings.adapter, CLAUDE_CODE_ADAPTER);
    assert!(claude_code.settings.enabled);
}

#[test]
fn normalized_gateway_config_migrates_legacy_traex_runner_id() {
    let legacy_alias = ["Tree", "X"].concat();
    let normalized = normalized_gateway_config(ExternalCliGatewayConfig {
        default_runner_id: legacy_alias.clone(),
        runners: one(
            &legacy_alias,
            ExternalCliAgentSettings {
                enabled: true,
                adapter: TRAEX_ADAPTER.to_string(),
                ..Default::default()
            },
        ),
        channels: one(
            "feishu-main",
            ExternalCliChannelSettings {
                runner_id: Some(legacy_alias.clone()),
                ..Default::default()
            },
        ),
        version: 1,
    });

    assert_eq!(normalized.default_runner_id, DEFAULT_TRAEX_RUNNER_ID);
    assert!(normalized.runners.contains_key(DEFAULT_TRAEX_RUNNER_ID));
    assert!(!normalized.runners.contains_key(&legacy_alias));
    assert_eq!(
        normalized
            .channels
            .get("feishu-main")
            .and_then(|channel| channel.runner_id.as_deref()),
        Some(DEFAULT_TRAEX_RUNNER_ID)
    );
}

#[test]
fn a_channel_that_sets_nothing_is_removed() {
    let mut config = ExternalCliGatewayConfig::default();
    let set = update_channel(
        &mut config,
        " feishu-main ",
        ExternalCliChannelSettings {
            enabled: Some(false),
            delivery_mode: Some(ExternalCliDeliveryMode::ProgressCard),
            ..Default::default()
        },
    )
    .expect("channel set");
    assert!(!set.settings.enabled);
    assert_eq!(
        set.settings.delivery_mode,
        ExternalCliDeliveryMode::ProgressCard
    );
    assert_eq!(set.sources.get("enabled"), Some(&"channel".to_string()));
    assert!(config.channels.contains_key("feishu-main"));

    let unset = update_channel(
        &mut config,
        "feishu-main",
        ExternalCliChannelSettings::default(),
    )
    .expect("channel unset");
    assert!(unset.settings.enabled);
    assert!(!config.channels.contains_key("feishu-main"));

    assert_eq!(
        update_channel(&mut config, "  ", ExternalCliChannelSettings::default()),
        Err("provider_id cannot be empty".to_string())
    );
}

#[test]
fn normalizing_a_config_twice_changes_nothing_more() {
    let mut channels = TextMap::new();
    channels.insert(
        "feishu-main",
        ExternalCliChannelSettings {
            runner_id: Some(" codex ".to_string()),
            ..Default::default()
        },
    );
    let once = normalized_gateway_config(ExternalCliGatewayConfig {
        version: 0,
        default_runner_id: " codex ".to_string(),
        runners: TextMap::new(),
        channels,
    });
    let runners = once.runners.len();
    let default_runner_id = once.default_runner_id.clone();
    let twice = normalized_gateway_config(once);
    assert_eq!(twice.runners.len(), runners);
    assert_eq!(twice.default_runner_id, default_runner_id);
}

#[test]
fn configured_runners_stay_and_keep_their_switch() {
    let runner = |enabled: bool, adapter: &str| ExternalCliAgentSettings {
        enabled,
        adapter: adapter.to_string(),
        ..Default::default()
    };
    let mut config = ExternalCliGatewayConfig::default();
    config.runners.insert(" Mine ", runner(false, "mock"));
    config.runners.insert("Codex", runner(false, "codex"));
    config.runners.insert(" two", runner(true, "mock"));
    config.runners.insert("two", runner(false, "mock"));
    config.runners.insert("  ", runner(true, "mock"));
    let normalized = normalized_gateway_config(config);
    assert!(!normalized.runners.get("Mine").expect("kept").enabled);
    assert_eq!(normalized.runners.get("Mine").expect("kept").adapter, "mock");
    assert!(!normalized.runners.get("Codex").expect("kept").enabled);
    assert!(!normalized.runners.get("two").expect("kept").enabled, "the last spelling counts");
    assert!(!normalized.runners.contains_key(""));
}
