use bifrost::digest::{fingerprint, hex_encode};
use bifrost::feishu_api::{
    api_url, authorization, base_url, build_default_text_card, build_markdown_card, card_content, card_entity_content,
    download_mime_type, feishu_file_type_for_name, file_content, file_extension, image_content,
    upload_mime_type, validate_config, without_root_card_header, ws_domain, ws_endpoint_url,
    FeishuBotIdentity, FeishuEndpoint, ImProviderConfig, DEFAULT_BASE_URL,
};
use bifrost::feishu_requests::{
    answer_error, bot_info_request, chat_request, check_reply, create_card_request, download_error,
    parse_bot_identity, parse_feishu_chat_name, patch_card_request, reaction_request,
    recall_message_request, reply_message_request, reply_value, request_error,
    send_message_request, send_result, token_reply, token_request, update_card_content_request,
    ws_endpoint_request, FeishuCall, HttpMethod, WantedValue,
};
use bifrost::feishu_tokens::{token_cache_key, FeishuProvider};
use bifrost::im_event::ImProviderType;
use bifrost::json::Json;
use bifrost::paths::PathStyle;

fn convert(value: serde_json::Value) -> Json {
    match value {
        serde_json::Value::Null => Json::Null,
        serde_json::Value::Bool(b) => Json::Bool(b),
        serde_json::Value::Number(n) => match (n.as_u64(), n.as_i64()) {
            (Some(u), _) => Json::Unsigned(u),
            (None, Some(i)) => Json::Signed(i),
            (None, None) => Json::Float(n),
        },
        serde_json::Value::String(s) => Json::Text(s),
        serde_json::Value::Array(v) => Json::List(v.into_iter().map(convert).collect()),
        serde_json::Value::Object(m) => {
            Json::Object(m.into_iter().map(|(k, v)| (k, convert(v))).collect())
        }
    }
}

fn json(text: &str) -> Json {
    convert(serde_json::from_str(text).expect("valid JSON"))
}

fn provider_with_base_url(base_url: Option<&str>) -> ImProviderConfig {
    ImProviderConfig {
        id: "feishu-main".to_string(),
        provider_type: ImProviderType::Feishu,
        display_name: "Feishu".to_string(),
        enabled: true,
        base_url: base_url.map(|s| s.to_string()),
        app_id: Some("cli_test".to_string()),
        secret_ref: None,
        owner_open_id: None,
        event_connection_enabled: true,
        event_types: Vec::new(),
        agent_config: None,
        created_at: 0,
        updated_at: 0,
    }
}

#[test]
fn test_default_text_card_wraps_plain_text_as_markdown_card() {
    let card = build_default_text_card("**hello**\n\n- from Bifrost", |text: &str| text.to_string());

    assert_eq!(card.get("schema").and_then(|v| v.as_str()), Some("2.0"));
    assert!(card.get("header").is_none());
    let element = &card
        .get("body")
        .and_then(|body| body.get("elements"))
        .and_then(|elements| elements.as_list())
        .expect("elements")[0];
    assert_eq!(element.get("tag").and_then(|v| v.as_str()), Some("markdown"));
    assert_eq!(
        element.get("content").and_then(|v| v.as_str()),
        Some("**hello**\n\n- from Bifrost")
    );
}

#[test]
fn test_token_cache_key_isolated_by_app_id() {
    let first = token_cache_key(DEFAULT_BASE_URL, "cli_first", "secret");
    let second = token_cache_key(DEFAULT_BASE_URL, "cli_second", "secret");

    assert_ne!(first, second);
}

#[test]
fn test_token_cache_key_isolated_by_secret() {
    let first = token_cache_key(DEFAULT_BASE_URL, "cli_same", "secret_first");
    let second = token_cache_key(DEFAULT_BASE_URL, "cli_same", "secret_second");

    assert_ne!(first, second);
}

#[test]
fn test_token_cache_key_isolated_by_base_url() {
    let first = token_cache_key(DEFAULT_BASE_URL, "cli_same", "secret_same");
    let second = token_cache_key(
        "https://open.larksuite.com/open-apis",
        "cli_same",
        "secret_same",
    );

    assert_ne!(first, second);
}

#[test]
fn test_parse_feishu_chat_name_requires_successful_non_empty_name() {
    assert_eq!(
        parse_feishu_chat_name(&json(
            r#"{
            "code": 0,
            "msg": "success",
            "data": {"name": " 我的工作空间。 "}
        }"#
        ))
        .unwrap(),
        "我的工作空间。"
    );
    assert!(parse_feishu_chat_name(&json(
        r#"{
        "code": 99991672,
        "msg": "Access denied"
    }"#
    ))
    .unwrap_err()
    .contains("code=99991672"));
    assert!(parse_feishu_chat_name(&json(
        r#"{
        "code": 0,
        "data": {"name": " "}
    }"#
    ))
    .unwrap_err()
    .contains("missing data.name"));
}

#[test]
fn fetch_group_identity_and_chat_name_use_api_and_cache_successfully() {
    let mut provider = FeishuProvider::new();
    let key = || token_cache_key("http://127.0.0.1", "cli_test", "secret").expect("key");
    assert_eq!(provider.cached_identity(&key()), None);

    let identity =
        parse_bot_identity(&json(r#"{"code":0,"bot":{"open_id":"ou_bot","app_name":"Bifrost"}}"#))
            .unwrap();
    assert_eq!(identity.open_id, "ou_bot");
    assert_eq!(identity.name.as_deref(), Some("Bifrost"));
    provider.store_identity(key(), &identity);
    assert_eq!(provider.cached_identity(&key()), Some(identity));
    assert_eq!(
        parse_feishu_chat_name(&json(r#"{"code":0,"data":{"name":" Engineering "}}"#)).unwrap(),
        "Engineering"
    );
    let reply = send_result(
        FeishuCall::Reply,
        Some(0),
        None,
        Some("om_reply".to_string()),
        None,
    )
    .unwrap();
    assert_eq!(reply.message_id.as_deref(), Some("om_reply"));
    let card = json(r#"{"header":{"title":{"content":"remove"}},"elements":[]}"#);
    let patch = patch_card_request("http://127.0.0.1", "om_reply", &card);
    assert_eq!(patch.method, HttpMethod::Patch);
    assert_eq!(patch.url, "http://127.0.0.1/im/v1/messages/om_reply");
    assert_eq!(
        patch.body.expect("body").get("content").and_then(|v| v.as_str()),
        Some(r#"{"elements":[]}"#)
    );
    assert!(answer_error(FeishuCall::Reply, "expected value").contains("reply response parse failed"));
}

#[test]
fn fetch_group_identity_reports_api_shape_parse_and_network_errors() {
    for (bot_body, expected) in [
        (r#"{"code":999,"msg":"denied"}"#, "code=999"),
        (r#"{"code":0,"data":{}}"#, "missing bot"),
        (
            r#"{"code":0,"bot":{"open_id":" ","bot_name":"Bifrost"}}"#,
            "missing bot.open_id",
        ),
    ] {
        let error = parse_bot_identity(&json(bot_body)).unwrap_err();
        assert!(error.contains(expected), "{error}");
    }
    assert!(answer_error(FeishuCall::BotInfo, "not json").contains("response parse failed"));

    let identity = parse_bot_identity(&json(
        r#"{"code":0,"data":{"bot":{"open_id":"ou_bot","bot_name":"Fallback Name"}}}"#,
    ))
    .unwrap();
    assert_eq!(
        identity,
        FeishuBotIdentity {
            open_id: "ou_bot".to_string(),
            name: Some("Fallback Name".to_string()),
        }
    );
    assert!(request_error(FeishuCall::BotInfo, "refused").contains("request failed"));
    assert!(request_error(FeishuCall::Chat, "refused").contains("request failed"));
    assert!(request_error(FeishuCall::Reply, "refused").contains("reply request failed"));
}

#[test]
fn test_hex_encode() {
    assert_eq!(hex_encode(&vec![0xde, 0xad, 0xbe, 0xef]), "deadbeef");
    assert_eq!(hex_encode(&vec![]), "");
}

#[test]
fn fingerprints_are_those_of_sha256() {
    assert_eq!(
        fingerprint("abc").as_deref(),
        Some("ba7816bf8f01cfea414140de5dae2223b00361a396177a9cb410ff61f20015ad")
    );
}

#[test]
fn test_ws_domain_trims_open_apis_suffix_and_defaults() {
    let config = provider_with_base_url(Some("https://open.feishu.cn/open-apis"));
    assert_eq!(ws_domain(&config), "https://open.feishu.cn");

    let config_lark = provider_with_base_url(Some("https://open.larksuite.com"));
    assert_eq!(ws_domain(&config_lark), "https://open.larksuite.com");

    let config_default = provider_with_base_url(None);
    assert_eq!(ws_domain(&config_default), "https://open.feishu.cn");
}

#[test]
fn test_feishu_file_type_for_name_maps_extensions() {
    assert_eq!(feishu_file_type_for_name(PathStyle::Posix, "doc.pdf"), "pdf");
    assert_eq!(feishu_file_type_for_name(PathStyle::Posix, "report.DOCX"), "doc");
    assert_eq!(feishu_file_type_for_name(PathStyle::Posix, "data.csv"), "xls");
    assert_eq!(feishu_file_type_for_name(PathStyle::Posix, "table.XLS"), "xls");
    assert_eq!(feishu_file_type_for_name(PathStyle::Posix, "slides.PPT"), "ppt");
    assert_eq!(feishu_file_type_for_name(PathStyle::Posix, "unknown.bin"), "stream");
    assert_eq!(feishu_file_type_for_name(PathStyle::Posix, "noext"), "stream");
}

#[test]
fn extensions_are_those_of_the_last_name() {
    assert_eq!(file_extension(PathStyle::Posix, "/a.b/c.tar.gz").as_deref(), Some("gz"));
    assert_eq!(file_extension(PathStyle::Posix, "/a.b/c"), None);
    assert_eq!(file_extension(PathStyle::Posix, ".profile"), None);
    assert_eq!(file_extension(PathStyle::Posix, "name."), Some(String::new()));
    assert_eq!(file_extension(PathStyle::Posix, ""), None);
    assert_eq!(file_extension(PathStyle::Posix, "a/.."), None);
    assert_eq!(file_extension(PathStyle::Posix, "a.b\\c"), Some("b\\c".to_string()));
    assert_eq!(file_extension(PathStyle::Windows, "a.b\\c"), None);
}

#[test]
fn addresses_are_exact() {
    let base = base_url(&provider_with_base_url(Some("https://host/open-apis//")));
    assert_eq!(base, "https://host/open-apis");
    assert_eq!(
        base_url(&provider_with_base_url(None)),
        "https://open.feishu.cn/open-apis"
    );
    assert_eq!(
        ws_domain(&provider_with_base_url(Some("https://host/open-apis/open-apis/"))),
        "https://host"
    );
    assert_eq!(
        ws_endpoint_url("https://host"),
        "https://host/callback/ws/endpoint"
    );
    let text = |s: &str| s.to_string();
    for (endpoint, path) in [
        (FeishuEndpoint::Token, "/auth/v3/tenant_access_token/internal"),
        (
            FeishuEndpoint::Messages {
                receive_id_type: text("chat_id"),
            },
            "/im/v1/messages?receive_id_type=chat_id",
        ),
        (
            FeishuEndpoint::Reply {
                message_id: text("om"),
            },
            "/im/v1/messages/om/reply",
        ),
        (FeishuEndpoint::Images, "/im/v1/images"),
        (FeishuEndpoint::Files, "/im/v1/files"),
        (
            FeishuEndpoint::CardElementContent {
                card_id: text("c"),
                element_id: text("e"),
            },
            "/cardkit/v1/cards/c/elements/e/content",
        ),
        (
            FeishuEndpoint::Chat {
                chat_id: text(" oc "),
            },
            "/im/v1/chats/oc?user_id_type=open_id",
        ),
        (
            FeishuEndpoint::MessageFile {
                message_id: text("om"),
                file_key: text("f"),
            },
            "/im/v1/messages/om/resources/f?type=file",
        ),
    ] {
        assert_eq!(api_url("https://host", &endpoint), format!("https://host{path}"));
    }
    assert_eq!(authorization("token"), "Bearer token");
}

fn body_of(request: &bifrost::feishu_requests::ApiRequest) -> &Json {
    request.body.as_ref().expect("body")
}

#[test]
fn requests_carry_what_they_are_for() {
    let token = token_request("https://host", "cli", "secret");
    assert_eq!(token.method, HttpMethod::Post);
    assert_eq!(
        body_of(&token),
        &json(r#"{"app_id":"cli","app_secret":"secret"}"#)
    );

    let sent = send_message_request("https://host", "chat_id", "oc", "image", "{}", Some("u-1"));
    assert_eq!(sent.url, "https://host/im/v1/messages?receive_id_type=chat_id");
    assert_eq!(body_of(&sent).get("uuid"), Some(&Json::Text("u-1".to_string())));
    assert_eq!(
        body_of(&sent).get("receive_id"),
        Some(&Json::Text("oc".to_string()))
    );

    let reply = reply_message_request("https://host", "om", "interactive", "{}", None);
    assert_eq!(reply.url, "https://host/im/v1/messages/om/reply");
    assert_eq!(body_of(&reply).get("uuid"), None);

    let content = update_card_content_request("https://host", "c", "e", "text", 7, "u-2");
    assert_eq!(content.method, HttpMethod::Put);
    assert_eq!(body_of(&content).get("sequence"), Some(&Json::Unsigned(7)));

    let card = create_card_request("https://host", &json(r#"{"header":1,"body":2}"#));
    assert_eq!(
        body_of(&card).get("data"),
        Some(&Json::Text(r#"{"body":2}"#.to_string()))
    );

    assert_eq!(
        recall_message_request("https://host", "om").method,
        HttpMethod::Delete
    );
    assert_eq!(chat_request("https://host", "oc").body, None);
    assert_eq!(
        bot_info_request("https://host").url,
        "https://host/bot/v3/info"
    );
    assert_eq!(
        body_of(&reaction_request("https://host", "om", "THUMBSUP")),
        &json(r#"{"reaction_type":{"emoji_type":"THUMBSUP"}}"#)
    );
    let endpoint = ws_endpoint_request("https://host", "cli", "secret");
    assert_eq!(endpoint.url, "https://host/callback/ws/endpoint");
    assert_eq!(
        body_of(&endpoint).get("AppID"),
        Some(&Json::Text("cli".to_string()))
    );
}

#[test]
fn answers_with_a_code_are_refusals() {
    assert_eq!(check_reply(FeishuCall::PatchCard, None, None), Ok(()));
    assert_eq!(check_reply(FeishuCall::PatchCard, Some(0), Some("ok")), Ok(()));
    assert_eq!(
        check_reply(FeishuCall::PatchCard, Some(-7), Some("denied")),
        Err("feishu patch_card failed: code=-7, msg=denied".to_string())
    );
    for (wanted, refused, missing) in [
        (
            WantedValue::ImageKey,
            "feishu image upload error: code=1, msg=",
            "feishu image upload response missing image_key",
        ),
        (
            WantedValue::FileKey,
            "feishu file upload error: code=1, msg=",
            "feishu file upload response missing file_key",
        ),
        (
            WantedValue::CardId,
            "feishu create card entity failed: code=1, msg=",
            "feishu create card entity response missing card_id",
        ),
        (
            WantedValue::OwnerId,
            "fetch app info error: code=1, msg=",
            "app info response missing owner.open_id",
        ),
    ] {
        assert_eq!(
            reply_value(wanted, Some(1), None, Some("v".to_string())),
            Err(refused.to_string())
        );
        assert_eq!(
            reply_value(wanted, Some(0), None, None),
            Err(missing.to_string())
        );
        assert_eq!(
            reply_value(wanted, None, None, Some("v".to_string())),
            Ok("v".to_string())
        );
    }
    assert_eq!(
        token_reply(Some(10003), Some("bad"), "400 Bad Request", None, None),
        Err("feishu token error: code=10003, msg=bad, status=400 Bad Request".to_string())
    );
    assert_eq!(
        token_reply(Some(0), None, "200 OK", None, None),
        Err("feishu token response missing tenant_access_token".to_string())
    );
    assert_eq!(
        token_reply(Some(0), None, "200 OK", Some("t".to_string()), None),
        Ok(("t".to_string(), 7200))
    );
    assert_eq!(
        download_error(FeishuCall::DownloadFile, "404 Not Found", "gone"),
        "feishu message file download error: status=404 Not Found, body=gone"
    );
}

#[test]
fn tokens_are_used_until_shortly_before_they_expire() {
    let mut provider = FeishuProvider::default();
    let key = |app: &str| token_cache_key("https://host", app, "secret").expect("key");
    provider.store_token(key("a"), "token-a", 7200, 1_000);
    provider.store_token(key("b"), "token-b", 100, 1_000);
    assert_eq!(provider.cached_token(&key("a"), 1_000).as_deref(), Some("token-a"));
    assert_eq!(
        provider.cached_token(&key("a"), 7_899).as_deref(),
        Some("token-a")
    );
    assert_eq!(provider.cached_token(&key("a"), 7_900), None);
    assert_eq!(provider.cached_token(&key("b"), 1_000), None);
    assert_eq!(provider.cached_token(&key("c"), 1_000), None);

    provider.store_token(key("a"), "token-2", 7200, 8_000);
    assert_eq!(
        provider.cached_token(&key("a"), 8_000).as_deref(),
        Some("token-2")
    );
}

#[test]
fn cards_are_sent_without_their_header() {
    let card = json(r#"{"header":{"title":"x"},"body":{"header":1}}"#);
    let plain = without_root_card_header(&card);
    assert_eq!(plain, json(r#"{"body":{"header":1}}"#));
    assert_eq!(without_root_card_header(&plain), plain);
    assert_eq!(card_content(&card), r#"{"body":{"header":1}}"#);
    assert_eq!(without_root_card_header(&Json::Null), Json::Null);
    assert_eq!(image_content("img"), r#"{"image_key":"img"}"#);
    assert_eq!(file_content("f\"x"), r#"{"file_key":"f\"x"}"#);
    let entity: serde_json::Value = serde_json::from_str(&card_entity_content("c1")).unwrap();
    assert_eq!(entity["type"], "card");
    assert_eq!(entity["data"]["card_id"], "c1");
}

#[test]
fn a_provider_needs_an_application_and_a_secret() {
    let mut config = provider_with_base_url(None);
    config.app_id = Some(String::new());
    let checked = validate_config(&config);
    assert!(!checked.valid);
    assert_eq!(
        checked.errors,
        vec![
            "app_id is required for feishu provider",
            "secret_ref is required for feishu provider",
        ]
    );
    config.app_id = Some("cli".to_string());
    config.secret_ref = Some("ref".to_string());
    assert!(validate_config(&config).valid);
}

#[test]
fn types_of_files_come_from_their_headers() {
    assert_eq!(
        download_mime_type(Some("image/jpeg; charset=x"), "image/png"),
        "image/jpeg"
    );
    assert_eq!(download_mime_type(None, "image/png"), "image/png");
    assert_eq!(upload_mime_type(Some("  ")), None);
    assert_eq!(
        upload_mime_type(Some("image/png")).as_deref(),
        Some("image/png")
    );
}

#[test]
fn cards_show_the_text_that_the_converter_gives() {
    let convert = |text: &str| text.replace("# ", "**");
    for card in [
        build_markdown_card("# title", convert),
        build_default_text_card("# title", convert),
    ] {
        let element = &card
            .get("body")
            .and_then(|body| body.get("elements"))
            .and_then(|elements| elements.as_list())
            .expect("elements")[0];
        assert_eq!(element.get("content").and_then(|v| v.as_str()), Some("**title"));
    }
}

#[test]
fn numbers_are_written_as_they_are_held() {
    let held: serde_json::Value = serde_json::from_str("[0.1, 1e300, -2.5, 123456789.01234567]").unwrap();
    let text = serde_json::to_string(&held).unwrap();
    assert_eq!(card_content(&convert(held)), text);
}
