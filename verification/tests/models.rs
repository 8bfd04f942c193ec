use bifrost::agent_config::{
    claude_product_text, claude_word_text, ExternalCliAdapterConfig, CLAUDE_CODE_ADAPTER,
    DEFAULT_ADAPTER, TRAEX_ADAPTER,
};
use bifrost::models::{
    default_claude_code_model_catalog, external_cli_model_adapter_label,
    format_external_cli_effort_catalog, format_external_cli_effort_catalog_for_model,
    format_external_cli_effort_status, format_external_cli_model_catalog,
    format_external_cli_model_status,
    format_model_load, model_catalog_from_raw, parse_external_cli_effort_slash_command,
    parse_external_cli_model_slash_command, supports_external_cli_model_slash,
    validate_external_cli_effort_selection, validate_external_cli_effort_selection_for_model,
    validate_external_cli_model_selection, ExternalCliEffortSlashCommand, ExternalCliModelInfo,
    ExternalCliModelSlashCommand, ExternalCliReasoningLevelInfo, ExternalCliServiceTierInfo,
    ModelLoad, RawModel,
};
use bifrost::runs::{model_catalog_source, ModelCatalogSource};

fn raw_model(slug: &str, visibility: &str, priority: Option<i64>) -> RawModel {
    RawModel {
        slug: Some(slug.to_string()),
        display_name: None,
        description: None,
        default_reasoning_level: None,
        supported_reasoning_levels: Vec::new(),
        visibility: Some(visibility.to_string()),
        supported_in_api: None,
        additional_speed_tiers: Vec::new(),
        service_tiers: Vec::new(),
        model_load: None,
        model_load_camel: None,
        load_percent: None,
        load: None,
        priority,
    }
}

#[test]
fn traex_model_slash_command_parser_handles_list_show_set_and_clear() {
    assert_eq!(
        parse_external_cli_model_slash_command("/models"),
        Some(Ok(ExternalCliModelSlashCommand::List))
    );
    assert!(matches!(
        parse_external_cli_model_slash_command("/models extra"),
        Some(Err(_))
    ));
    assert_eq!(
        parse_external_cli_model_slash_command(" /model "),
        Some(Ok(ExternalCliModelSlashCommand::Show))
    );
    assert_eq!(
        parse_external_cli_model_slash_command("/model gpt-5.5"),
        Some(Ok(ExternalCliModelSlashCommand::Select(
            "gpt-5.5".to_string()
        )))
    );
    assert_eq!(
        parse_external_cli_model_slash_command("/model clear"),
        Some(Ok(ExternalCliModelSlashCommand::Clear))
    );
    assert!(matches!(
        parse_external_cli_model_slash_command("/model bad model"),
        Some(Err(_))
    ));
    assert_eq!(parse_external_cli_model_slash_command("/modelish"), None);
}

#[test]
fn external_cli_effort_slash_command_parser_handles_list_show_set_and_clear() {
    assert_eq!(
        parse_external_cli_effort_slash_command("/efforts"),
        Some(Ok(ExternalCliEffortSlashCommand::List))
    );
    assert!(matches!(
        parse_external_cli_effort_slash_command("/efforts extra"),
        Some(Err(_))
    ));
    assert_eq!(
        parse_external_cli_effort_slash_command(" /effort "),
        Some(Ok(ExternalCliEffortSlashCommand::Show))
    );
    assert_eq!(
        parse_external_cli_effort_slash_command("/effort xhigh"),
        Some(Ok(ExternalCliEffortSlashCommand::Select(
            "xhigh".to_string()
        )))
    );
    assert_eq!(
        parse_external_cli_effort_slash_command("/effort clear"),
        Some(Ok(ExternalCliEffortSlashCommand::Clear))
    );
    assert_eq!(
        parse_external_cli_effort_slash_command("/effort auto"),
        Some(Ok(ExternalCliEffortSlashCommand::Clear))
    );
    assert!(matches!(
        parse_external_cli_effort_slash_command("/effort bad value"),
        Some(Err(_))
    ));
    assert_eq!(parse_external_cli_effort_slash_command("/effortish"), None);
}

#[test]
fn external_cli_effort_validation_uses_runner_specific_options() {
    assert_eq!(
        validate_external_cli_effort_selection(CLAUDE_CODE_ADAPTER, "xhigh").unwrap(),
        "xhigh"
    );
    assert_eq!(
        validate_external_cli_effort_selection(CLAUDE_CODE_ADAPTER, "MAX").unwrap(),
        "max"
    );
    assert!(validate_external_cli_effort_selection(CLAUDE_CODE_ADAPTER, "minimal").is_err());
    assert_eq!(
        validate_external_cli_effort_selection(DEFAULT_ADAPTER, "minimal").unwrap(),
        "minimal"
    );
    assert!(validate_external_cli_effort_selection(DEFAULT_ADAPTER, "max").is_err());
    assert_eq!(
        validate_external_cli_effort_selection(TRAEX_ADAPTER, "high").unwrap(),
        "high"
    );
}

#[test]
fn external_cli_model_catalog_parser_filters_raw_catalog_to_safe_public_fields() {
    let models = model_catalog_from_raw(vec![
        raw_model("hidden-model", "hidden", None),
        RawModel {
            description: Some("flagship".to_string()),
            default_reasoning_level: Some("high".to_string()),
            supported_reasoning_levels: vec![ExternalCliReasoningLevelInfo {
                effort: "low".to_string(),
                description: Some("fast".to_string()),
            }],
            supported_in_api: Some(true),
            model_load: Some(ModelLoad::Percent("115%".to_string())),
            additional_speed_tiers: vec!["fast".to_string()],
            service_tiers: vec![ExternalCliServiceTierInfo {
                id: "default".to_string(),
                name: Some("Default".to_string()),
                description: Some("standard".to_string()),
            }],
            ..raw_model("Doubao-Seed-2.1-Pro", "list", Some(2))
        },
        raw_model("DeepSeek-V4-Flash", "list", Some(1)),
    ]);

    assert_eq!(models.len(), 2);
    assert_eq!(models[0].slug, "DeepSeek-V4-Flash");
    assert_eq!(models[1].slug, "Doubao-Seed-2.1-Pro");
    assert_eq!(models[1].default_reasoning_level.as_deref(), Some("high"));
    assert_eq!(models[1].additional_speed_tiers, vec!["fast"]);
    assert_eq!(models[1].model_load.as_deref(), Some("115%"));
    let shown = format!("{models:?}");
    assert!(!shown.contains("base_instructions"));
    assert!(!shown.contains("do not leak"));
    let rendered = format_external_cli_model_catalog(TRAEX_ADAPTER, &models);
    assert!(rendered.contains("Model load: 115%"));
}

#[test]
fn external_cli_model_catalog_parser_accepts_codex_catalog() {
    let models = model_catalog_from_raw(vec![RawModel {
        description: Some("Frontier model".to_string()),
        default_reasoning_level: Some("medium".to_string()),
        additional_speed_tiers: vec!["fast".to_string()],
        ..raw_model("gpt-5.5", "list", Some(0))
    }]);

    assert_eq!(models.len(), 1);
    assert_eq!(models[0].slug, "gpt-5.5");
    assert_eq!(models[0].default_reasoning_level.as_deref(), Some("medium"));
    let shown = format!("{models:?}");
    assert!(!shown.contains("base_instructions"));
    assert!(!shown.contains("do not leak"));
}

#[test]
fn claude_code_model_slash_uses_builtin_catalog_and_accepts_full_model_slug() {
    assert!(supports_external_cli_model_slash(CLAUDE_CODE_ADAPTER));
    assert_eq!(
        external_cli_model_adapter_label(CLAUDE_CODE_ADAPTER),
        claude_product_text()
    );

    assert_eq!(
        model_catalog_source(CLAUDE_CODE_ADAPTER, &ExternalCliAdapterConfig::default()),
        Ok(ModelCatalogSource::BuiltIn)
    );
    let models = default_claude_code_model_catalog();

    assert!(models.iter().any(|model| model.slug == "sonnet"));
    assert!(models.iter().any(|model| model.slug == "opus"));
    assert!(models.iter().any(|model| model.slug == "haiku"));
    assert!(models.iter().any(|model| model.slug == "fable"));
    let rendered = format_external_cli_model_catalog(CLAUDE_CODE_ADAPTER, &models);
    assert!(rendered.contains("Sonnet 4.6"));
    assert!(rendered.contains("Opus 4.8"));
    assert!(rendered.contains("Haiku 4.5"));
    assert_eq!(
        validate_external_cli_model_selection(CLAUDE_CODE_ADAPTER, "sonnet", &models)
            .expect("known alias"),
        "sonnet"
    );
    let full = format!("{}-opus-4-5-20251101", claude_word_text());
    assert_eq!(
        validate_external_cli_model_selection(CLAUDE_CODE_ADAPTER, &full, &models)
            .expect("full model name"),
        full
    );
    assert!(
        validate_external_cli_model_selection(CLAUDE_CODE_ADAPTER, "bad model", &models,).is_err()
    );
}

#[test]
fn external_cli_effort_validation_honors_current_model_supported_levels() {
    let models = vec![ExternalCliModelInfo {
        slug: "thinking-model".to_string(),
        default_reasoning_level: Some("medium".to_string()),
        supported_reasoning_levels: vec![
            ExternalCliReasoningLevelInfo {
                effort: "low".to_string(),
                description: None,
            },
            ExternalCliReasoningLevelInfo {
                effort: "medium".to_string(),
                description: None,
            },
        ],
        ..Default::default()
    }];

    assert_eq!(
        validate_external_cli_effort_selection_for_model(
            TRAEX_ADAPTER,
            "low",
            Some("thinking-model"),
            &models,
        )
        .unwrap(),
        "low"
    );
    assert!(validate_external_cli_effort_selection_for_model(
        TRAEX_ADAPTER,
        "high",
        Some("thinking-model"),
        &models,
    )
    .is_err());
    assert_eq!(
        validate_external_cli_effort_selection_for_model(
            TRAEX_ADAPTER,
            "high",
            Some("unknown-model"),
            &models,
        )
        .unwrap(),
        "high"
    );
    let rendered = format_external_cli_effort_catalog_for_model(
        TRAEX_ADAPTER,
        Some("thinking-model"),
        &models,
    );
    assert!(rendered.contains("当前模型 `thinking-model`"));
    assert!(rendered.contains("`low`"));
    assert!(!rendered.contains("`high`"));
}

#[test]
fn models_come_in_the_order_of_priority_and_name() {
    let models = model_catalog_from_raw(vec![
        raw_model("z-unranked", "list", None),
        raw_model("b", "LIST", Some(3)),
        raw_model("a", "list", Some(3)),
        raw_model("first", "list", Some(-1)),
        raw_model("  ", "list", Some(0)),
    ]);
    let slugs: Vec<&str> = models.iter().map(|model| model.slug.as_str()).collect();
    assert_eq!(slugs, vec!["first", "a", "b", "z-unranked"]);
}

#[test]
fn loads_are_shown_with_a_percent_sign() {
    let text = |value: &str| ModelLoad::Text(value.to_string());
    assert_eq!(format_model_load(None), None);
    assert_eq!(
        format_model_load(Some(&text(" 80 "))).as_deref(),
        Some("80%")
    );
    assert_eq!(
        format_model_load(Some(&text("80%"))).as_deref(),
        Some("80%")
    );
    assert_eq!(format_model_load(Some(&text(" "))), None);
    assert_eq!(format_model_load(Some(&ModelLoad::Other)), None);
}

#[test]
fn a_model_that_is_not_listed_is_refused_with_the_listed_ones() {
    let models = model_catalog_from_raw(vec![raw_model("gpt-5.5", "list", None)]);
    assert_eq!(
        validate_external_cli_model_selection(DEFAULT_ADAPTER, "GPT-5.5", &models)
            .unwrap_err()
            .contains("gpt-5.5"),
        true
    );
    assert!(validate_external_cli_model_selection(DEFAULT_ADAPTER, "other", &models).is_err());
    assert_eq!(
        validate_external_cli_model_selection(DEFAULT_ADAPTER, "gpt-5.5", &models),
        Ok("gpt-5.5".to_string())
    );
}

#[test]
fn catalogs_come_from_the_executable_of_the_adapter() {
    let config = ExternalCliAdapterConfig {
        executable: Some(" /opt/codex ".to_string()),
        ..Default::default()
    };
    assert_eq!(
        model_catalog_source(DEFAULT_ADAPTER, &config),
        Ok(ModelCatalogSource::Command("/opt/codex".to_string()))
    );
    assert_eq!(
        model_catalog_source("mock", &config),
        Err("adapter `mock` does not support model catalog".to_string())
    );
}

#[test]
fn the_status_names_the_model_and_where_it_comes_from() {
    assert_eq!(
        format_external_cli_model_status(DEFAULT_ADAPTER, Some(" gpt-5.5 "), None, "Codex"),
        "当前 Codex Runner `Codex` 使用模型: `gpt-5.5`\n来源: 配置"
    );
    assert_eq!(
        format_external_cli_model_status(DEFAULT_ADAPTER, Some(" "), Some("x"), "Codex"),
        "当前 Codex Runner `Codex` 未设置模型 override，将使用 Codex 默认模型。"
    );
    assert!(
        format_external_cli_effort_status(DEFAULT_ADAPTER, Some("high"), Some("runner"), "Codex")
            .contains("`high`")
    );
    assert_eq!(
        format_external_cli_effort_catalog(DEFAULT_ADAPTER),
        "Codex 可用 Reasoning Effort:\n- `minimal`\n- `low`\n- `medium`\n- `high`\n- `xhigh`"
    );
}
