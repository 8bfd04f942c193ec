use bifrost::feishu_connection::{
    build_ping_frame, build_response_frame, connect_failed, endpoint_failed, get_header_value,
    handle_frame, service_id_of, wait_step, ws_endpoint_reply, Connection,
    ConnectionAction, ConnectionEvent, ConnectionLoopResult, ConnectionState, FrameAction,
    PbFrame, PbHeader, Reconnects, Sending, WaitEvent, WaitStep, WsEndpointData,
    WsEndpointResult,
};

fn header(key: &str, value: &str) -> PbHeader {
    PbHeader {
        key: key.to_string(),
        value: value.to_string(),
    }
}

fn event_frame(payload: Option<&[u8]>) -> PbFrame {
    PbFrame {
        seq_id: 3,
        log_id: 4,
        service: 42,
        method: 1,
        headers: vec![header("type", "event"), header("message_id", "m-1")],
        payload_encoding: None,
        payload_type: Some("json".to_string()),
        payload: payload.map(|bytes| bytes.to_vec()),
        log_id_new: Some("log".to_string()),
    }
}

#[test]
fn test_get_header_value_and_ping_response_frames() {
    let headers = vec![header("type", "ping"), header("x-request-id", "req-1")];
    assert_eq!(get_header_value(&headers, "type"), Some("ping"));
    assert_eq!(get_header_value(&headers, "missing"), None);

    let ping = build_ping_frame(42);
    assert_eq!(ping.service, 42);
    assert_eq!(get_header_value(&ping.headers, "type"), Some("ping"));

    let ok_frame = build_response_frame(&ping, true);
    let ok_body: serde_json::Value =
        serde_json::from_slice(ok_frame.payload.as_deref().unwrap()).unwrap();
    assert_eq!(ok_body["code"], 200);

    let err_frame = build_response_frame(&ping, false);
    let err_body: serde_json::Value =
        serde_json::from_slice(err_frame.payload.as_deref().unwrap()).unwrap();
    assert_eq!(err_body["code"], 500);
}

#[test]
fn an_event_is_answered_with_its_own_frame() {
    match handle_frame(&event_frame(Some(b"{\"a\":1}"))) {
        FrameAction::Answer { text, response } => {
            assert_eq!(text.as_deref(), Some("{\"a\":1}"));
            assert_eq!(response.seq_id, 3);
            assert_eq!(response.headers, event_frame(None).headers);
            assert_eq!(response.log_id_new.as_deref(), Some("log"));
            assert_eq!(response.payload.as_deref(), Some(&b"{\"code\":200}"[..]));
        }
        other => panic!("expected an answer, got {other:?}"),
    }
    for payload in [None, Some(&[0xff, 0xfe][..])] {
        match handle_frame(&event_frame(payload)) {
            FrameAction::Answer { text, response } => {
                assert_eq!(text, None);
                assert_eq!(response.payload.as_deref(), Some(&b"{\"code\":500}"[..]));
            }
            other => panic!("expected an answer, got {other:?}"),
        }
    }
    let mut control = event_frame(None);
    control.method = 0;
    assert_eq!(handle_frame(&control), FrameAction::Ignore);
    let mut other = event_frame(None);
    other.headers = vec![header("type", "card")];
    assert_eq!(handle_frame(&other), FrameAction::Ignore);
}

#[test]
fn the_service_is_named_by_the_address() {
    let data = |url: &str| {
        Some(WsEndpointData {
            url: Some(url.to_string()),
            ping_interval: None,
        })
    };
    let address = "wss://host/ws?device_id=1&service_id=33554678&service_id=2";
    assert_eq!(
        ws_endpoint_reply(Some(0), None, data(address)),
        Ok(WsEndpointResult {
            url: address.to_string(),
            service_id: 33_554_678,
            ping_interval_secs: 90,
        })
    );
    for address in ["wss://host/ws", "wss://host/ws?service_id=x", "no address"] {
        assert_eq!(
            ws_endpoint_reply(None, None, data(address)).unwrap().service_id,
            0
        );
    }
    assert_eq!(
        ws_endpoint_reply(
            Some(0),
            None,
            Some(WsEndpointData {
                url: Some("wss://host".to_string()),
                ping_interval: Some(30),
            })
        )
        .unwrap()
        .ping_interval_secs,
        30
    );
    assert_eq!(
        ws_endpoint_reply(Some(1), Some("bad"), data("wss://host")),
        Err("ws endpoint error: code=1, msg=bad".to_string())
    );
    assert_eq!(
        ws_endpoint_reply(Some(0), None, None),
        Err("ws endpoint response missing data".to_string())
    );
    assert_eq!(
        ws_endpoint_reply(
            Some(0),
            None,
            Some(WsEndpointData {
                url: None,
                ping_interval: None,
            })
        ),
        Err("ws endpoint response missing URL".to_string())
    );
    let pair = |key: &str, value: &str| (key.to_string(), value.to_string());
    assert_eq!(
        service_id_of(&Some(vec![pair("a", "1"), pair("service_id", "-5")])),
        -5
    );
    assert_eq!(service_id_of(&None), 0);
}

const SECOND: u64 = 1_000_000_000;

#[test]
fn silence_ends_a_connection_and_traffic_keeps_it() {
    let mut connection = Connection::opened(42, 5 * SECOND);
    assert_eq!(
        connection.step(ConnectionEvent::SilenceCheckDue, 185 * SECOND),
        ConnectionAction::Wait
    );
    assert_eq!(
        connection.step(ConnectionEvent::PongMessage, 185 * SECOND),
        ConnectionAction::Wait
    );
    assert_eq!(
        connection.step(ConnectionEvent::SilenceCheckDue, 365 * SECOND),
        ConnectionAction::Wait
    );
    assert_eq!(
        connection.step(ConnectionEvent::RawMessage, 365 * SECOND),
        ConnectionAction::Wait
    );
    assert_eq!(
        connection.step(ConnectionEvent::SilenceCheckDue, 365 * SECOND + 1),
        ConnectionAction::Finish {
            close: true,
            result: ConnectionLoopResult::ConnectedThenDisconnected(
                "server silence watchdog timeout".to_string()
            ),
        }
    );
}

#[test]
fn each_end_of_a_connection_is_named() {
    let mut connection = Connection::opened(42, 0);
    assert_eq!(
        connection.step(ConnectionEvent::PingDue, 1),
        ConnectionAction::SendPing(build_ping_frame(42))
    );
    assert_eq!(
        connection.step(ConnectionEvent::PingMessage, 1),
        ConnectionAction::SendPong
    );
    assert_eq!(
        connection.step(ConnectionEvent::ShutdownSenderDropped, 1),
        ConnectionAction::IgnoreShutdown
    );
    assert_eq!(
        connection.step(ConnectionEvent::ShutdownRequested, 1),
        ConnectionAction::Finish {
            close: true,
            result: ConnectionLoopResult::Shutdown,
        }
    );
    for (event, words) in [
        (ConnectionEvent::CloseMessage, "server sent close frame"),
        (ConnectionEvent::StreamEnded, "websocket stream ended"),
        (
            ConnectionEvent::ReadFailed("reset".to_string()),
            "websocket error: reset",
        ),
        (
            ConnectionEvent::SendFailed(Sending::Ping, "gone".to_string()),
            "ping send failed: gone",
        ),
        (
            ConnectionEvent::SendFailed(Sending::Response, "gone".to_string()),
            "response send failed: gone",
        ),
        (
            ConnectionEvent::SendFailed(Sending::Pong, "gone".to_string()),
            "pong send failed: gone",
        ),
    ] {
        assert_eq!(
            connection.step(event, 1),
            ConnectionAction::Finish {
                close: false,
                result: ConnectionLoopResult::ConnectedThenDisconnected(words.to_string()),
            }
        );
    }
    assert_eq!(
        endpoint_failed("x"),
        ConnectionLoopResult::Disconnected("ws endpoint fetch failed: x".to_string())
    );
    assert_eq!(
        connect_failed("x"),
        ConnectionLoopResult::Disconnected("websocket connect failed: x".to_string())
    );
}

#[test]
fn a_wait_goes_on_when_nobody_can_ask_for_a_shutdown() {
    let second = 1_000_000_000;
    assert_eq!(
        wait_step(4, WaitEvent::ShutdownRequested, second),
        WaitStep::Return
    );
    for waited in [0, second, 4 * second, 5 * second] {
        assert_eq!(
            wait_step(4, WaitEvent::ShutdownSenderDropped, waited),
            WaitStep::KeepWaiting
        );
    }
    assert_eq!(
        wait_step(4, WaitEvent::TimeElapsed, 4 * second - 1),
        WaitStep::KeepWaiting
    );
    assert_eq!(
        wait_step(4, WaitEvent::TimeElapsed, 4 * second),
        WaitStep::Reconnect
    );
    assert_eq!(
        wait_step(u64::MAX, WaitEvent::TimeElapsed, u64::MAX),
        WaitStep::KeepWaiting
    );
    assert_eq!(wait_step(0, WaitEvent::TimeElapsed, 0), WaitStep::Reconnect);
}

#[test]
fn waits_double_up_to_a_minute_and_start_over() {
    let failed = || ConnectionLoopResult::Disconnected("down".to_string());
    let mut reconnects = Reconnects::new();
    let mut told = Vec::new();
    for (count, wait) in [1, 2, 4, 8, 16, 32, 60, 60].iter().enumerate() {
        let plan = reconnects.ended(failed()).expect("plan");
        assert_eq!(plan.wait_secs, *wait);
        assert_eq!(plan.status.state, ConnectionState::Reconnecting);
        assert_eq!(plan.status.error.as_deref(), Some("down"));
        if plan.failing_repeatedly {
            told.push(count + 1);
        }
    }
    assert_eq!(told, vec![5]);

    let plan = reconnects
        .ended(ConnectionLoopResult::ConnectedThenDisconnected(
            "lost".to_string(),
        ))
        .expect("plan");
    assert_eq!(plan.wait_secs, 1);
    assert_eq!(reconnects.total_connects, 1);
    assert_eq!(reconnects.reconnect_count, 9);
    assert_eq!(reconnects.ended(failed()).expect("plan").wait_secs, 1);
    assert_eq!(reconnects.ended(ConnectionLoopResult::Shutdown), None);
}
