use std::collections::HashSet;

use bifrost::card_action::{
    build_feishu_choice_card, is_allowed_choice_command, normalize_button_label,
    normalize_feishu_card_action, read_slash_choice, validate_slash_choice_value,
    FeishuChoiceCardBinding, FeishuChoiceCardOption, SlashChoiceValue, FEISHU_CHOICE_CARD_TTL_MS,
    MAX_BUTTON_LABEL_CHARS,
};
use bifrost::feishu::{handle_ws_message, WsMessage};
use bifrost::json::Json;

fn convert(value: serde_json::Value) -> Json {
    match value {
        serde_json::Value::Null => Json::Null,
        serde_json::Value::Bool(b) => Json::Bool(b),
        serde_json::Value::Number(n) => match (n.as_u64(), n.as_i64()) {
            (Some(u), _) => Json::Unsigned(u),
            (None, Some(i)) => Json::Signed(i),
            (None, None) => Json::Float(n),
        },
        serde_json::Value::String(s) => Json::Text(s),
        serde_json::Value::Array(v) => Json::List(v.into_iter().map(convert).collect()),
        serde_json::Value::Object(m) => {
            Json::Object(m.into_iter().map(|(k, v)| (k, convert(v))).collect())
        }
    }
}

fn json(text: &str) -> Json {
    convert(serde_json::from_str(text).expect("valid JSON"))
}

fn binding(chat_type: &str) -> FeishuChoiceCardBinding {
    FeishuChoiceCardBinding {
        provider_id: "feishu-main".to_string(),
        chat_id: "oc_chat".to_string(),
        chat_type: chat_type.to_string(),
        user_id: "ou_owner".to_string(),
    }
}

fn callback(value: &str, operator_id: &str, chat_id: &str) -> String {
    format!(
        r#"{{
            "schema": "2.0",
            "header": {{
                "event_id": "evt_click_1",
                "event_type": "card.action.trigger",
                "create_time": "1710000000000"
            }},
            "event": {{
                "operator": {{
                    "open_id": "{operator_id}"
                }},
                "action": {{
                    "tag": "button",
                    "value": {value}
                }},
                "context": {{
                    "open_message_id": "om_card",
                    "open_chat_id": "{chat_id}"
                }}
            }}
        }}"#
    )
}

fn callback_value(command: &str, chat_type: &str, expires_at_ms: u64) -> String {
    format!(
        r#"{{
            "bifrostAction": "slash_choice",
            "providerId": "feishu-main",
            "chatId": "oc_chat",
            "chatType": "{chat_type}",
            "userId": "ou_owner",
            "command": "{command}",
            "expiresAtMs": {expires_at_ms}
        }}"#
    )
}

fn at<'a>(value: &'a Json, path: &[&str]) -> &'a Json {
    let mut here = value;
    for key in path {
        here = match key.parse::<usize>() {
            Ok(index) => &here.as_list().expect("list")[index],
            Err(_) => here.get(key).expect("member"),
        };
    }
    here
}

#[test]
fn feishu_choice_card_builds_two_column_callback_buttons() {
    let mut options = (0..5)
        .map(|index| FeishuChoiceCardOption {
            label: format!("Option {index}"),
            command: format!("/model model-{index}"),
        })
        .collect::<Vec<_>>();
    options[4].label = format!("  {}\n{}", "模型".repeat(60), "尾部");
    let card = build_feishu_choice_card(
        "请选择模型",
        &binding("p2p"),
        &options,
        1_000,
        |text: &str| text.to_string(),
    );

    assert_eq!(at(&card, &["schema"]).as_str(), Some("2.0"));
    assert!(card.get("header").is_none());
    let elements = at(&card, &["body", "elements"]).as_list().unwrap();
    assert_eq!(elements.len(), 4);
    let rows = &elements[1..];
    assert_eq!(at(&rows[0], &["columns"]).as_list().unwrap().len(), 2);
    assert_eq!(at(&rows[1], &["columns"]).as_list().unwrap().len(), 2);
    assert_eq!(at(&rows[2], &["columns"]).as_list().unwrap().len(), 1);

    let mut element_ids = HashSet::new();
    for (index, option) in options.iter().enumerate() {
        let row = &rows[index / 2];
        let column = (index % 2).to_string();
        let button = at(row, &["columns", &column, "elements", "0"]);
        assert_eq!(at(button, &["tag"]).as_str(), Some("button"));
        assert!(element_ids.insert(at(button, &["element_id"]).as_str().unwrap()));
        let label = at(button, &["text", "content"]).as_str().unwrap();
        assert!(label.chars().count() <= MAX_BUTTON_LABEL_CHARS);
        assert!(!label.contains('\n'));
        if index < 4 {
            assert_eq!(label, option.label);
        } else {
            assert!(label.ends_with("..."));
        }
        let behavior = at(button, &["behaviors", "0"]);
        assert_eq!(at(behavior, &["type"]).as_str(), Some("callback"));
        assert_eq!(
            at(behavior, &["value", "command"]).as_str(),
            Some(option.command.as_str())
        );
        assert_eq!(
            at(behavior, &["value", "expiresAtMs"]).as_u64(),
            Some(1_000 + FEISHU_CHOICE_CARD_TTL_MS)
        );
    }
}

#[test]
fn feishu_card_action_normalizes_authorized_group_and_p2p_clicks() {
    for (chat_type, command) in [
        ("p2p", "/resume 01234567-89ab"),
        ("group", "/model gpt-5.4"),
        ("p2p", "/model clear"),
        ("group", "/effort xhigh"),
        ("p2p", "/effort clear"),
    ] {
        let raw = json(&callback(
            &callback_value(command, chat_type, 20_000),
            "ou_owner",
            "oc_chat",
        ));
        let event = normalize_feishu_card_action(&raw, "", "feishu-main", 10_000)
            .unwrap()
            .unwrap();
        assert_eq!(event.event_id, "evt_click_1");
        assert_eq!(event.event_type, "message.receive");
        assert_eq!(event.source.chat_id.as_deref(), Some("oc_chat"));
        assert_eq!(event.source.chat_type.as_deref(), Some(chat_type));
        assert_eq!(event.source.user_id.as_deref(), Some("ou_owner"));
        assert_eq!(event.source.message_id, None);
        assert_eq!(event.message.unwrap().text, command);
    }
}

#[test]
fn feishu_card_action_rejects_unauthorized_expired_or_arbitrary_commands() {
    let valid = callback_value("/model gpt-5.4", "p2p", 20_000);
    let cases = [
        callback(&valid, "ou_intruder", "oc_chat"),
        callback(&valid, "ou_owner", "oc_other"),
        callback(
            &callback_value("/model gpt-5.4", "p2p", 10_000),
            "ou_owner",
            "oc_chat",
        ),
        callback(
            &callback_value("/stop now", "p2p", 20_000),
            "ou_owner",
            "oc_chat",
        ),
        callback(
            &callback_value("/model", "p2p", 20_000),
            "ou_owner",
            "oc_chat",
        ),
        callback(
            &callback_value("/model reset", "p2p", 20_000),
            "ou_owner",
            "oc_chat",
        ),
        callback(
            &callback_value("/effort auto", "p2p", 20_000),
            "ou_owner",
            "oc_chat",
        ),
        callback(
            &callback_value("/resume abc def", "p2p", 20_000),
            "ou_owner",
            "oc_chat",
        ),
    ];
    for raw in cases {
        assert!(
            normalize_feishu_card_action(&json(&raw), "", "feishu-main", 10_000).is_err(),
            "unexpected accepted action: {raw}"
        );
    }

    assert!(normalize_feishu_card_action(
        &json(&callback(&valid, "ou_owner", "oc_chat")),
        "",
        "feishu-other",
        10_000
    )
    .is_err());
    assert!(normalize_feishu_card_action(
        &json(r#"{"header": {"event_type": "im.message.receive_v1"}}"#),
        "",
        "feishu-main",
        10_000
    )
    .unwrap()
    .is_none());
}

#[test]
fn ws_message_dispatches_card_actions_and_rejects_invalid_clicks() {
    let raw = callback(
        &callback_value("/effort high", "group", u64::MAX),
        "ou_owner",
        "oc_chat",
    );
    match handle_ws_message(&raw, "", "feishu-main", 1_750_000_000_000) {
        WsMessage::Event(event) => {
            assert_eq!(event.event_id, "evt_click_1");
            assert_eq!(event.source.message_id, None);
            assert_eq!(event.message.unwrap().text, "/effort high");
        }
        other => panic!("expected a card action event, got {other:?}"),
    }

    let invalid = callback(
        &callback_value("/effort high", "group", u64::MAX),
        "ou_other",
        "oc_chat",
    );
    assert_eq!(
        handle_ws_message(&invalid, "", "feishu-main", 1_750_000_000_000),
        WsMessage::Rejected("card action user binding mismatch".to_string())
    );

    assert_eq!(
        handle_ws_message("not-json", "", "feishu-main", 1_750_000_000_000),
        WsMessage::NotJson
    );
    assert_eq!(
        handle_ws_message(r#"{"type":"pong"}"#, "", "feishu-main", 1_750_000_000_000),
        WsMessage::Heartbeat
    );
}

#[test]
fn a_value_is_read_only_with_just_its_members() {
    let valid = callback_value("/model gpt-5.4", "p2p", 20_000);
    let read = read_slash_choice(&json(&valid)).expect("choice");
    assert_eq!(read.command, "/model gpt-5.4");
    assert_eq!(read.expires_at_ms, 20_000);

    let with_more = valid.replace("\"chatType\"", "\"other\": 1, \"chatType\"");
    assert_eq!(read_slash_choice(&json(&with_more)), None);
    let without_user = valid.replace("\"userId\": \"ou_owner\",", "");
    assert_eq!(read_slash_choice(&json(&without_user)), None);
    let text_expiry = valid.replace("20000", "\"20000\"");
    assert_eq!(read_slash_choice(&json(&text_expiry)), None);
    let list = r#"["slash_choice","feishu-main","oc_chat","p2p","ou_owner","/model gpt-5.4",20000]"#;
    assert_eq!(read_slash_choice(&json(list)), Some(read));
    assert_eq!(read_slash_choice(&Json::Null), None);

    assert_eq!(
        normalize_feishu_card_action(
            &json(&callback(&with_more, "ou_owner", "oc_chat")),
            "unknown field `other`",
            "feishu-main",
            10_000
        ),
        Err("invalid card action value: unknown field `other`".to_string())
    );
}

#[test]
fn each_missing_part_of_a_click_is_named() {
    let whole = callback(
        &callback_value("/model gpt-5.4", "p2p", 20_000),
        "ou_owner",
        "oc_chat",
    );
    for (from, to, error) in [
        ("evt_click_1", " ", "card action is missing header.event_id"),
        ("\"event\": {", "\"other\": {", "card action is missing event"),
        (
            "\"operator\"",
            "\"other\"",
            "card action is missing event.operator.open_id",
        ),
        ("\"action\": {", "\"other\": {", "card action is missing event.action"),
        (
            "\"tag\": \"button\"",
            "\"tag\": \"input\"",
            "card action does not originate from a button",
        ),
        (
            "\"value\":",
            "\"other\":",
            "card action is missing event.action.value",
        ),
        ("\"context\"", "\"other\"", "card action is missing event.context"),
        (
            "open_chat_id",
            "other",
            "card action is missing event.context.open_chat_id",
        ),
        (
            "open_message_id",
            "other",
            "card action is missing event.context.open_message_id",
        ),
    ] {
        assert_eq!(
            normalize_feishu_card_action(
                &json(&whole.replacen(from, to, 1)),
                "",
                "feishu-main",
                10_000
            ),
            Err(error.to_string())
        );
    }
}

fn choice() -> SlashChoiceValue {
    SlashChoiceValue {
        bifrost_action: "slash_choice".to_string(),
        provider_id: "feishu-main".to_string(),
        chat_id: "oc_chat".to_string(),
        chat_type: "p2p".to_string(),
        user_id: "ou_owner".to_string(),
        command: "/effort high".to_string(),
        expires_at_ms: 20_000,
    }
}

#[test]
fn each_reason_to_refuse_a_choice_is_named() {
    let check = |value: &SlashChoiceValue| {
        validate_slash_choice_value(value, "feishu-main", "ou_owner", "oc_chat", 10_000)
    };
    assert_eq!(check(&choice()), Ok(()));
    for (value, error) in [
        (
            SlashChoiceValue {
                bifrost_action: "other".to_string(),
                ..choice()
            },
            "unsupported card action",
        ),
        (
            SlashChoiceValue {
                provider_id: "other".to_string(),
                ..choice()
            },
            "card action provider binding mismatch",
        ),
        (
            SlashChoiceValue {
                user_id: "other".to_string(),
                ..choice()
            },
            "card action user binding mismatch",
        ),
        (
            SlashChoiceValue {
                chat_id: "other".to_string(),
                ..choice()
            },
            "card action chat binding mismatch",
        ),
        (
            SlashChoiceValue {
                chat_type: "topic".to_string(),
                ..choice()
            },
            "card action has unsupported chat type",
        ),
        (
            SlashChoiceValue {
                expires_at_ms: 10_000,
                ..choice()
            },
            "card action has expired",
        ),
        (
            SlashChoiceValue {
                command: "/stop".to_string(),
                ..choice()
            },
            "card action command is not allowed",
        ),
    ] {
        assert_eq!(check(&value), Err(error.to_string()));
    }
}

#[test]
fn a_card_is_accepted_until_it_expires() {
    let card = build_feishu_choice_card(
        "choose",
        &binding("group"),
        &vec![FeishuChoiceCardOption {
            label: "high".to_string(),
            command: "/effort high".to_string(),
        }],
        1_000,
        |text: &str| format!("**{text}**"),
    );
    assert_eq!(
        at(&card, &["body", "elements", "0", "content"]).as_str(),
        Some("**choose**")
    );
    let sent = at(
        &card,
        &[
            "body", "elements", "1", "columns", "0", "elements", "0", "behaviors", "0", "value",
        ],
    );
    let read = read_slash_choice(sent).expect("own button");
    let expires = 1_000 + FEISHU_CHOICE_CARD_TTL_MS;
    let check = |now| {
        validate_slash_choice_value(&read, "feishu-main", "ou_owner", "oc_chat", now).is_ok()
    };
    assert!(check(expires - 1));
    assert!(!check(expires));
}

#[test]
fn labels_are_one_short_line() {
    assert_eq!(normalize_button_label("  a \n b  "), "a b");
    let long = normalize_button_label(&"x".repeat(101));
    assert_eq!(long, format!("{}...", "x".repeat(97)));
    assert!(is_allowed_choice_command("/MODEL gpt-5.4"));
    assert!(!is_allowed_choice_command("/model"));
    assert!(!is_allowed_choice_command("/models x"));
}
