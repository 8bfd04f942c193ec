use bifrost::feishu::{
    collect_rich_text_image_keys, extract_feishu_message_text, handle_ws_message,
    json_object_keys, json_u64_from_string_or_number, normalize_feishu_event,
    rich_text_mention_placeholder, WsMessage,
};
use bifrost::im_event::{ImImageSource, ImMention, ImProviderType};
use bifrost::json::Json;

const NOW: u64 = 1_750_000_000_000;

fn convert(value: serde_json::Value) -> Json {
    match value {
        serde_json::Value::Null => Json::Null,
        serde_json::Value::Bool(b) => Json::Bool(b),
        serde_json::Value::Number(n) => match (n.as_u64(), n.as_i64()) {
            (Some(u), _) => Json::Unsigned(u),
            (None, Some(i)) => Json::Signed(i),
            (None, None) => Json::Float(n),
        },
        serde_json::Value::String(s) => Json::Text(s),
        serde_json::Value::Array(v) => Json::List(v.into_iter().map(convert).collect()),
        serde_json::Value::Object(m) => {
            Json::Object(m.into_iter().map(|(k, v)| (k, convert(v))).collect())
        }
    }
}

fn json(text: &str) -> Json {
    convert(serde_json::from_str(text).expect("valid JSON"))
}

#[test]
fn test_normalize_feishu_message_receive_event() {
    let raw = json(r#"{
        "header": {
            "event_id": "evt_001",
            "event_type": "im.message.receive_v1",
            "create_time": "1710000000000"
        },
        "event": {
            "message": {
                "chat_id": "oc_xxx",
                "message_id": "om_xxx",
                "message_type": "text",
                "content": "{\"text\":\"/check bifrost\"}"
            },
            "sender": {
                "sender_id": {
                    "open_id": "ou_abc",
                    "user_id": "uid_123"
                }
            }
        }
    }"#);

    let event = normalize_feishu_event(&raw, "feishu-main", NOW).unwrap();

    assert_eq!(event.event_id, "evt_001");
    assert_eq!(event.provider_id, "feishu-main");
    assert_eq!(event.provider_type, ImProviderType::Feishu);
    assert_eq!(event.event_type, "message.receive");
    assert_eq!(event.source.chat_id.as_deref(), Some("oc_xxx"));
    assert_eq!(event.source.user_id.as_deref(), Some("ou_abc"));
    assert_eq!(event.source.message_id.as_deref(), Some("om_xxx"));

    let msg = event.message.unwrap();
    assert_eq!(msg.text, "/check bifrost");
    assert_eq!(msg.raw_type.as_deref(), Some("text"));
    assert!(event.raw_digest.unwrap().starts_with("sha256:"));
}

#[test]
fn test_normalize_feishu_group_message_preserves_mentions_and_thread_metadata() {
    let raw = json(r#"{
        "header": {
            "event_id": "evt_group",
            "event_type": "im.message.receive_v1",
            "create_time": "1710000000999"
        },
        "event": {
            "message": {
                "chat_id": "oc_group",
                "chat_type": "group",
                "message_id": "om_group",
                "message_type": "text",
                "create_time": "1710000000111",
                "update_time": "1710000000222",
                "root_id": "om_root",
                "parent_id": "om_parent",
                "thread_id": "omt_thread",
                "content": "{\"text\":\"@_user_1 inspect this\"}",
                "mentions": [{
                    "key": "@_user_1",
                    "id": {"open_id": "ou_bot"},
                    "name": "Bifrost",
                    "tenant_key": "tenant-a"
                }]
            },
            "sender": {
                "sender_type": "user",
                "sender_id": {"open_id": "ou_alice"}
            }
        }
    }"#);

    let event = normalize_feishu_event(&raw, "feishu-main", NOW).unwrap();
    assert_eq!(event.source.chat_type.as_deref(), Some("group"));
    assert_eq!(event.source.sender_type.as_deref(), Some("user"));
    let message = event.message.unwrap();
    assert_eq!(message.create_time, Some(1_710_000_000_111));
    assert_eq!(message.update_time, Some(1_710_000_000_222));
    assert_eq!(message.root_id.as_deref(), Some("om_root"));
    assert_eq!(message.parent_id.as_deref(), Some("om_parent"));
    assert_eq!(message.thread_id.as_deref(), Some("omt_thread"));
    assert_eq!(message.mentions.len(), 1);
    assert_eq!(message.mentions[0].key, "@_user_1");
    assert_eq!(message.mentions[0].open_id.as_deref(), Some("ou_bot"));
    assert_eq!(message.mentions[0].name.as_deref(), Some("Bifrost"));
    assert!(!message.mentions[0].is_bot);
}

#[test]
fn test_normalize_feishu_post_restores_stable_mention_placeholders() {
    let raw = json(r#"{
        "header": {
            "event_id": "evt_group_post",
            "event_type": "im.message.receive_v1",
            "create_time": "1710000000999"
        },
        "event": {
            "message": {
                "chat_id": "oc_group",
                "chat_type": "group",
                "message_id": "om_group_post",
                "message_type": "post",
                "content": "{\"content\": [[{\"tag\": \"at\", \"user_id\": \"ou_bot\", \"user_name\": \"Bifrost\"}, {\"tag\": \"text\", \"text\": \" inspect this\"}, {\"tag\": \"at\", \"user_id\": \"ou_alice\", \"user_name\": \"Alice\"}]]}",
                "mentions": [
                    {
                        "key": "@_user_1",
                        "id": {"open_id": "ou_bot"},
                        "name": "Bifrost"
                    },
                    {
                        "key": "@_user_2",
                        "id": {"open_id": "ou_alice"},
                        "name": "Alice"
                    }
                ]
            },
            "sender": {
                "sender_type": "user",
                "sender_id": {"open_id": "ou_alice"}
            }
        }
    }"#);

    let event = normalize_feishu_event(&raw, "feishu-main", NOW).unwrap();
    let message = event.message.unwrap();
    assert_eq!(message.text, "@_user_1 inspect this@_user_2");
    assert_eq!(message.mentions.len(), 2);
}

#[test]
fn test_normalize_feishu_image_message_extracts_resource_key() {
    let raw = json(r#"{
        "header": {
            "event_id": "evt_img",
            "event_type": "im.message.receive_v1",
            "create_time": "1710000000000"
        },
        "event": {
            "message": {
                "chat_id": "oc_xxx",
                "message_id": "om_img",
                "message_type": "image",
                "content": "{\"image_key\":\"img_v3_abc\"}"
            },
            "sender": {
                "sender_id": {
                    "open_id": "ou_abc"
                }
            }
        }
    }"#);

    let event = normalize_feishu_event(&raw, "feishu-main", NOW).unwrap();
    let msg = event.message.unwrap();
    assert_eq!(msg.raw_type.as_deref(), Some("image"));
    assert_eq!(msg.images.len(), 1);
    assert_eq!(msg.images[0].file_key, "img_v3_abc");
    assert_eq!(msg.images[0].source, ImImageSource::MessageResource);
}

#[test]
fn test_normalize_feishu_file_message_extracts_attachment() {
    let raw = json(r#"{
        "header": {
            "event_id": "evt_file",
            "event_type": "im.message.receive_v1",
            "create_time": "1710000000000"
        },
        "event": {
            "message": {
                "chat_id": "oc_xxx",
                "message_id": "om_file",
                "message_type": "file",
                "content": "{\"file_key\":\"file_v3_abc\",\"file_name\":\"需求.md\",\"file_size\":12}"
            },
            "sender": {
                "sender_id": {
                    "open_id": "ou_abc"
                }
            }
        }
    }"#);

    let event = normalize_feishu_event(&raw, "feishu-main", NOW).unwrap();
    let msg = event.message.unwrap();
    assert_eq!(msg.raw_type.as_deref(), Some("file"));
    assert!(msg.images.is_empty());
    assert_eq!(msg.files.len(), 1);
    assert_eq!(msg.files[0].file_key, "file_v3_abc");
    assert_eq!(msg.files[0].name.as_deref(), Some("需求.md"));
    assert_eq!(msg.files[0].size_bytes, Some(12));
}

#[test]
fn test_normalize_feishu_file_message_supports_alias_metadata_fields() {
    let raw = json(r#"{
        "header": {
            "event_id": "evt_file_alias",
            "event_type": "im.message.receive_v1",
            "create_time": "1710000000000"
        },
        "event": {
            "message": {
                "chat_id": "oc_xxx",
                "message_id": "om_file_alias",
                "message_type": "file",
                "content": "{\"file_key\":\"file_v3_alias\",\"name\":\"report.txt\",\"mimeType\":\"text/plain\",\"size_bytes\":34}"
            },
            "sender": {
                "sender_id": {
                    "open_id": "ou_abc"
                }
            }
        }
    }"#);

    let event = normalize_feishu_event(&raw, "feishu-main", NOW).unwrap();
    let msg = event.message.unwrap();
    assert_eq!(msg.files.len(), 1);
    assert_eq!(msg.files[0].file_key, "file_v3_alias");
    assert_eq!(msg.files[0].name.as_deref(), Some("report.txt"));
    assert_eq!(msg.files[0].mime_type.as_deref(), Some("text/plain"));
    assert_eq!(msg.files[0].size_bytes, Some(34));
}

#[test]
fn test_normalize_feishu_file_message_ignores_missing_file_key() {
    let raw = json(r#"{
        "header": {
            "event_id": "evt_file_missing_key",
            "event_type": "im.message.receive_v1",
            "create_time": "1710000000000"
        },
        "event": {
            "message": {
                "chat_id": "oc_xxx",
                "message_id": "om_file_missing_key",
                "message_type": "file",
                "content": "{\"file_name\":\"report.txt\",\"mime_type\":\"text/plain\",\"size\":34}"
            },
            "sender": {
                "sender_id": {
                    "open_id": "ou_abc"
                }
            }
        }
    }"#);

    let event = normalize_feishu_event(&raw, "feishu-main", NOW).unwrap();
    let msg = event.message.unwrap();
    assert_eq!(msg.raw_type.as_deref(), Some("file"));
    assert!(msg.files.is_empty());
}

#[test]
fn test_normalize_feishu_post_extracts_text_and_images() {
    let raw = json(r#"{
        "header": {
            "event_id": "evt_post_img",
            "event_type": "im.message.receive_v1",
            "create_time": "1710000000000"
        },
        "event": {
            "message": {
                "chat_id": "oc_xxx",
                "message_id": "om_post",
                "message_type": "post",
                "content": "{\"title\": \"标题\", \"content\": [[{\"tag\": \"text\", \"text\": \"请看这张图\"}, {\"tag\": \"img\", \"image_key\": \"img_v3_post\"}, {\"tag\": \"img\", \"image_key\": \"img_v3_post_2\"}]]}"
            },
            "sender": {
                "sender_id": {
                    "open_id": "ou_abc"
                }
            }
        }
    }"#);

    let event = normalize_feishu_event(&raw, "feishu-main", NOW).unwrap();
    let msg = event.message.unwrap();
    assert_eq!(msg.raw_type.as_deref(), Some("post"));
    assert_eq!(msg.text, "请看这张图");
    assert_eq!(msg.images.len(), 2);
    assert_eq!(msg.images[0].file_key, "img_v3_post");
    assert_eq!(msg.images[1].file_key, "img_v3_post_2");
}

#[test]
fn test_normalize_unknown_event_type_returns_none() {
    let raw = json(r#"{
        "header": {
            "event_id": "evt_002",
            "event_type": "card.action.trigger",
            "create_time": "1710000000000"
        },
        "event": {}
    }"#);

    let result = normalize_feishu_event(&raw, "feishu-main", NOW);
    assert!(result.is_none());
}

#[test]
fn test_normalize_missing_header_returns_none() {
    let raw = json(r#"{ "event": {} }"#);
    let result = normalize_feishu_event(&raw, "feishu-main", NOW);
    assert!(result.is_none());
}

#[test]
fn test_collect_rich_text_image_keys_recurses_and_deduplicates() {
    let mut images = Vec::new();
    let value = json(r#"{
        "tag": "root",
        "content": [
            {"tag": "img", "image_key": "img_v3_1"},
            {
                "tag": "paragraph",
                "children": [
                    {"image_key": "img_v3_1"},
                    {"image_key": "img_v3_2"}
                ]
            }
        ]
    }"#);

    collect_rich_text_image_keys(&value, &mut images);
    let keys: Vec<_> = images.iter().map(|img| img.file_key.as_str()).collect();
    assert_eq!(keys, vec!["img_v3_1", "img_v3_2"]);
}

#[test]
fn test_extract_feishu_message_text_from_rich_nodes() {
    let rich = json(r#"{
        "content": [[
            {"tag": "text", "text": "Hello"},
            {"tag": "a", "text": " world"},
            {"tag": "br"},
            {"tag": "at", "user_name": "Alice"}
        ]]
    }"#);
    let mentions = vec![ImMention {
        key: "@_user_1".to_string(),
        open_id: Some("ou_alice".to_string()),
        name: Some("Alice".to_string()),
        tenant_key: None,
        is_bot: false,
    }];
    let text = extract_feishu_message_text(&rich, &mentions);
    assert_eq!(text, "Hello world\n@_user_1");

    let unmatched = extract_feishu_message_text(&rich, &Vec::new());
    assert_eq!(unmatched, "Hello world\nAlice");

    let duplicate_name_mentions = vec![
        ImMention {
            key: "@_wrong_name_match".to_string(),
            open_id: Some("ou_other".to_string()),
            name: Some("Alice".to_string()),
            tenant_key: None,
            is_bot: false,
        },
        ImMention {
            key: "@_user_1".to_string(),
            open_id: Some("ou_alice".to_string()),
            name: Some("Alice".to_string()),
            tenant_key: None,
            is_bot: false,
        },
    ];
    let rich_with_id = json(r#"{
        "content": [[{"tag": "at", "user_id": "ou_alice", "user_name": "Alice"}]]
    }"#);
    assert_eq!(
        extract_feishu_message_text(&rich_with_id, &duplicate_name_mentions),
        "@_user_1"
    );

    let plain = json(r#"{"text": "plain text"}"#);
    assert_eq!(extract_feishu_message_text(&plain, &mentions), "plain text");
}

#[test]
fn test_json_object_keys_extracts_top_level_keys() {
    let value = json(r#"{"a": 1, "b": 2}"#);
    let mut keys = json_object_keys(&value);
    keys.sort();
    assert_eq!(keys, vec!["a", "b"]);
}

#[test]
fn numbers_may_be_written_as_texts() {
    assert_eq!(
        json_u64_from_string_or_number(Some(&json("\"1710000000000\""))),
        Some(1_710_000_000_000)
    );
    assert_eq!(json_u64_from_string_or_number(Some(&json("12"))), Some(12));
    assert_eq!(json_u64_from_string_or_number(Some(&json("-1"))), None);
    assert_eq!(json_u64_from_string_or_number(Some(&json("\"x\""))), None);
    assert_eq!(json_u64_from_string_or_number(None), None);
}

#[test]
fn a_mention_is_found_by_its_id_before_its_name() {
    let mention = |key: &str, open_id: &str, name: &str| ImMention {
        key: key.to_string(),
        open_id: Some(open_id.to_string()),
        name: Some(name.to_string()),
        tenant_key: None,
        is_bot: false,
    };
    let mentions = vec![
        mention("@_user_1", "ou_a", "Same"),
        mention("@_user_2", "ou_b", "Same"),
    ];
    assert_eq!(
        rich_text_mention_placeholder(
            &json(r#"{"tag":"at","user_id":"ou_b","user_name":"Same"}"#),
            &mentions
        )
        .as_deref(),
        Some("@_user_2")
    );
    assert_eq!(
        rich_text_mention_placeholder(&json(r#"{"tag":"at","user_name":"Same"}"#), &mentions)
            .as_deref(),
        Some("@_user_1")
    );
}

#[test]
fn an_event_is_told_apart_by_its_digest() {
    let event = |text: &str| {
        let raw = json(&format!(
            r#"{{"header":{{"event_id":"evt","event_type":"im.message.receive_v1"}},
                "event":{{"message":{{"message_type":"text","content":"{{\"text\":\"{text}\"}}"}}}}}}"#
        ));
        normalize_feishu_event(&raw, "feishu-main", NOW).expect("event")
    };
    let first = event("a").raw_digest.expect("digest");
    let second = event("b").raw_digest.expect("digest");
    assert_eq!(first.len(), "sha256:".len() + 64);
    assert_ne!(first, second);
    assert_eq!(event("a").raw_digest, Some(first));
    assert_eq!(event("a").received_at, NOW);
}

#[test]
fn a_text_message_of_the_connection_becomes_an_event() {
    let text = r#"{"header":{"event_id":"evt_ws","event_type":"im.message.receive_v1"},
        "event":{"message":{"message_type":"text","content":"{\"text\":\"hello\"}"}}}"#;
    match handle_ws_message(text, "", "feishu-main", NOW) {
        WsMessage::Event(event) => {
            assert_eq!(event.event_id, "evt_ws");
            assert_eq!(event.message.expect("message").text, "hello");
        }
        other => panic!("expected an event, got {other:?}"),
    }
    assert_eq!(
        handle_ws_message(r#"{"type":"heartbeat"}"#, "", "feishu-main", NOW),
        WsMessage::Heartbeat
    );
    assert_eq!(
        handle_ws_message("{}", "", "feishu-main", NOW),
        WsMessage::Ignored
    );
}
