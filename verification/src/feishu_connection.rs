//! The long connection that Feishu delivers events over: its frames, what is
//! done on each thing that happens to it, and how it is made again.

use vstd::arithmetic::power2::{lemma2_to64, lemma_pow2_unfold, pow2};
use vstd::prelude::*;
use vstd::string::*;
use vstd::utf8::{decode_utf8, encode_utf8, valid_utf8};

use crate::feishu_requests::{check_reply, refusal, FeishuCall};
use crate::json::{json_member, json_object, json_to_text, members, opt_str, text_of_json, Json, Tree};
use crate::text::{concat2, copy_opt, opt, owned, parse_i32, same, signed_value};

verus! {

broadcast use vstd::string::group_string_axioms;

pub const MAX_BACKOFF_SECS: u64 = 60;

pub const INITIAL_BACKOFF_SECS: u64 = 1;

/// How often the server is pinged where it does not say, in seconds.
pub const WS_PING_INTERVAL_SECS: u64 = 90;

/// How long the server may be silent before the connection is taken for dead, in
/// seconds.
pub const WS_SERVER_SILENCE_TIMEOUT_SECS: u64 = 180;

/// How often the silence of the server is looked at, in seconds.
pub const WS_SILENCE_CHECK_INTERVAL_SECS: u64 = 15;

/// How long the server may be silent, in nanoseconds.
pub const SILENCE_LIMIT_NANOS: u64 = 180_000_000_000;

// ---------------------------------------------------------------------------
// Frames
// ---------------------------------------------------------------------------

#[derive(Debug, PartialEq, Eq)]
pub struct PbHeader {
    pub key: String,
    pub value: String,
}

/// A frame of the connection.
#[derive(Debug, PartialEq, Eq)]
pub struct PbFrame {
    pub seq_id: u64,
    pub log_id: u64,
    pub service: i32,
    pub method: i32,
    pub headers: Vec<PbHeader>,
    pub payload_encoding: Option<String>,
    pub payload_type: Option<String>,
    pub payload: Option<Vec<u8>>,
    pub log_id_new: Option<String>,
}

#[verifier::ext_equal]
pub struct FrameView {
    pub seq_id: u64,
    pub log_id: u64,
    pub service: i32,
    pub method: i32,
    pub headers: Seq<(Seq<char>, Seq<char>)>,
    pub payload_encoding: Option<Seq<char>>,
    pub payload_type: Option<Seq<char>>,
    pub payload: Option<Seq<u8>>,
    pub log_id_new: Option<Seq<char>>,
}

pub open spec fn header_views(v: Seq<PbHeader>) -> Seq<(Seq<char>, Seq<char>)> {
    Seq::new(v.len(), |i: int| (v[i].key@, v[i].value@))
}

pub open spec fn opt_bytes(v: Option<Vec<u8>>) -> Option<Seq<u8>> {
    match v {
        Some(b) => Some(b@),
        None => None,
    }
}

impl View for PbFrame {
    type V = FrameView;

    open spec fn view(&self) -> FrameView {
        FrameView {
            seq_id: self.seq_id,
            log_id: self.log_id,
            service: self.service,
            method: self.method,
            headers: header_views(self.headers@),
            payload_encoding: opt(self.payload_encoding),
            payload_type: opt(self.payload_type),
            payload: opt_bytes(self.payload),
            log_id_new: opt(self.log_id_new),
        }
    }
}

/// The value of the first pair with a name.
pub open spec fn value_under(pairs: Seq<(Seq<char>, Seq<char>)>, key: Seq<char>) -> Option<Seq<char>>
    decreases pairs.len(),
{
    if pairs.len() == 0 {
        None
    } else if pairs[0].0 == key {
        Some(pairs[0].1)
    } else {
        value_under(pairs.drop_first(), key)
    }
}

pub fn get_header_value<'a>(headers: &'a Vec<PbHeader>, key: &str) -> (r: Option<&'a str>)
    ensures
        opt_str(r) == value_under(header_views(headers@), key@),
{
    let ghost all = header_views(headers@);
    let mut i: usize = 0;
    proof {
        assert(all.skip(0) =~= all);
    }
    while i < headers.len()
        invariant
            i <= headers@.len(),
            all == header_views(headers@),
            value_under(all.skip(i as int), key@) == value_under(all, key@),
        decreases headers@.len() - i,
    {
        proof {
            assert(all.skip(i as int)[0] == (headers@[i as int].key@, headers@[i as int].value@));
            assert(all.skip(i as int).drop_first() =~= all.skip(i + 1));
        }
        if same(headers[i].key.as_str(), key) {
            return Some(headers[i].value.as_str());
        }
        i = i + 1;
    }
    None
}

/// The frame that the server is pinged with.
pub open spec fn ping_frame(service_id: i32) -> FrameView {
    FrameView {
        seq_id: 0,
        log_id: 0,
        service: service_id,
        method: 0,
        headers: seq![("type"@, "ping"@)],
        payload_encoding: None,
        payload_type: None,
        payload: None,
        log_id_new: None,
    }
}

pub fn build_ping_frame(service_id: i32) -> (r: PbFrame)
    ensures
        r@ == ping_frame(service_id),
{
    let headers = vec![PbHeader { key: owned("type"), value: owned("ping") }];
    proof {
        assert(header_views(headers@) =~= seq![("type"@, "ping"@)]);
    }
    PbFrame {
        seq_id: 0,
        log_id: 0,
        service: service_id,
        method: 0,
        headers,
        payload_encoding: None,
        payload_type: None,
        payload: None,
        log_id_new: None,
    }
}

/// What a frame is answered with: itself, with a code in place of its payload.
pub open spec fn response_frame(original: FrameView, success: bool) -> FrameView {
    let code: u64 = if success {
        200
    } else {
        500
    };
    FrameView {
        payload: Some(
            encode_utf8(text_of_json(Tree::Object(seq![("code"@, Tree::Unsigned(code))]))),
        ),
        ..original
    }
}

fn copy_headers(v: &Vec<PbHeader>) -> (r: Vec<PbHeader>)
    ensures
        header_views(r@) == header_views(v@),
{
    let mut out: Vec<PbHeader> = Vec::new();
    let mut i: usize = 0;
    while i < v.len()
        invariant
            i <= v@.len(),
            out@.len() == i,
            forall|j: int|
                0 <= j < i ==> (#[trigger] out@[j]).key@ == v@[j].key@ && out@[j].value@
                    == v@[j].value@,
        decreases v@.len() - i,
    {
        out.push(PbHeader { key: v[i].key.clone(), value: v[i].value.clone() });
        i = i + 1;
    }
    proof {
        assert(header_views(out@) =~= header_views(v@));
    }
    out
}

pub fn build_response_frame(original: &PbFrame, success: bool) -> (r: PbFrame)
    ensures
        r@ == response_frame(original@, success),
{
    let code: u64 = if success {
        200
    } else {
        500
    };
    let list = vec![json_member("code", Json::Unsigned(code))];
    proof {
        assert(members(list@) =~= seq![("code"@, Tree::Unsigned(code))]);
    }
    let text = json_to_text(&json_object(list));
    PbFrame {
        seq_id: original.seq_id,
        log_id: original.log_id,
        service: original.service,
        method: original.method,
        headers: copy_headers(&original.headers),
        payload_encoding: copy_opt(&original.payload_encoding),
        payload_type: copy_opt(&original.payload_type),
        payload: Some(text.as_str().as_bytes_vec()),
        log_id_new: copy_opt(&original.log_id_new),
    }
}

/// `std::str::from_utf8`: the text that some bytes encode, or nothing where they
/// are not valid UTF-8.
#[verifier::external_body]
fn text_of_bytes(bytes: &Vec<u8>) -> (r: Option<String>)
    ensures
        opt(r) == (if valid_utf8(bytes@) {
            Some(decode_utf8(bytes@))
        } else {
            None
        }),
{
    std::str::from_utf8(bytes.as_slice()).ok().map(|s| s.to_string())
}

/// What is done about a frame: nothing, or the text that it carries is handled,
/// where it carries one, and it is answered.
#[derive(Debug, PartialEq, Eq)]
pub enum FrameAction {
    Ignore,
    Answer { text: Option<String>, response: PbFrame },
}

pub enum FrameActionView {
    Ignore,
    Answer { text: Option<Seq<char>>, response: FrameView },
}

impl View for FrameAction {
    type V = FrameActionView;

    open spec fn view(&self) -> FrameActionView {
        match *self {
            FrameAction::Ignore => FrameActionView::Ignore,
            FrameAction::Answer { text, response } => FrameActionView::Answer {
                text: opt(text),
                response: response@,
            },
        }
    }
}

/// The text that the payload of a frame encodes.
pub open spec fn payload_text(payload: Option<Seq<u8>>) -> Option<Seq<char>> {
    match payload {
        Some(bytes) => if valid_utf8(bytes) {
            Some(decode_utf8(bytes))
        } else {
            None
        },
        None => None,
    }
}

/// Only a data frame with an event is acted on: it is answered with success where
/// its payload is a text, and with failure where it is not.
pub open spec fn frame_action(frame: FrameView) -> FrameActionView {
    if frame.method == 1 && value_under(frame.headers, "type"@) == Some("event"@) {
        FrameActionView::Answer {
            text: payload_text(frame.payload),
            response: response_frame(frame, payload_text(frame.payload) is Some),
        }
    } else {
        FrameActionView::Ignore
    }
}

pub fn handle_frame(frame: &PbFrame) -> (r: FrameAction)
    ensures
        r@ == frame_action(frame@),
{
    let is_event = match get_header_value(&frame.headers, "type") {
        Some(t) => same(t, "event"),
        None => false,
    };
    if frame.method == 1 && is_event {
        let text = match &frame.payload {
            Some(bytes) => text_of_bytes(bytes),
            None => None,
        };
        let success = text.is_some();
        FrameAction::Answer { text, response: build_response_frame(frame, success) }
    } else {
        FrameAction::Ignore
    }
}

// ---------------------------------------------------------------------------
// The address of the connection
// ---------------------------------------------------------------------------

/// Where the connection goes.
#[derive(Debug, PartialEq, Eq)]
pub struct WsEndpointResult {
    pub url: String,
    pub service_id: i32,
    pub ping_interval_secs: u64,
}

#[verifier::ext_equal]
pub struct EndpointView {
    pub url: Seq<char>,
    pub service_id: i32,
    pub ping_interval_secs: u64,
}

impl View for WsEndpointResult {
    type V = EndpointView;

    open spec fn view(&self) -> EndpointView {
        EndpointView {
            url: self.url@,
            service_id: self.service_id,
            ping_interval_secs: self.ping_interval_secs,
        }
    }
}

/// What the server answers where the connection goes.
#[derive(Debug, PartialEq, Eq)]
pub struct WsEndpointData {
    pub url: Option<String>,
    pub ping_interval: Option<u64>,
}

/// The pairs of the query of an address, as `url::Url::query_pairs` reads them,
/// where `url::Url::parse` takes the text for an address.
pub uninterp spec fn query_pairs_of(url: Seq<char>) -> Option<Seq<(Seq<char>, Seq<char>)>>;

pub open spec fn pair_views(v: Option<Vec<(String, String)>>) -> Option<
    Seq<(Seq<char>, Seq<char>)>,
> {
    match v {
        Some(list) => Some(Seq::new(list@.len(), |i: int| (list@[i].0@, list@[i].1@))),
        None => None,
    }
}

/// `url::Url::parse`, and `url::Url::query_pairs` of what it reads: the pairs of
/// the query in their order, decoded, which depend on the text alone; nothing
/// where the text is not an address.
#[verifier::external_body]
fn url_query_pairs(url: &str) -> (r: Option<Vec<(String, String)>>)
    ensures
        pair_views(r) == query_pairs_of(url@),
{
    url::Url::parse(url).ok().map(
        |u| u.query_pairs().map(|(k, v)| (k.into_owned(), v.into_owned())).collect(),
    )
}

/// The service that an address names: the first `service_id` of its query, or 0
/// where it is missing or no number.
pub open spec fn service_in(pairs: Option<Seq<(Seq<char>, Seq<char>)>>) -> int {
    match pairs {
        Some(list) => match value_under(list, "service_id"@) {
            Some(v) => match signed_value(v) {
                Some(n) => n,
                None => 0,
            },
            None => 0,
        },
        None => 0,
    }
}

pub fn service_id_of(pairs: &Option<Vec<(String, String)>>) -> (r: i32)
    ensures
        r == service_in(pair_views(*pairs)),
{
    match pairs {
        None => 0,
        Some(list) => {
            let ghost all = pair_views(*pairs)->Some_0;
            let mut i: usize = 0;
            proof {
                assert(all.skip(0) =~= all);
            }
            while i < list.len()
                invariant
                    i <= list@.len(),
                    pairs == Some(*list),
                    all == Seq::new(list@.len(), |i: int| (list@[i].0@, list@[i].1@)),
                    value_under(all.skip(i as int), "service_id"@) == value_under(
                        all,
                        "service_id"@,
                    ),
                    pair_views(*pairs) == Some(all),
                decreases list@.len() - i,
            {
                proof {
                    assert(all.skip(i as int)[0] == (list@[i as int].0@, list@[i as int].1@));
                    assert(all.skip(i as int).drop_first() =~= all.skip(i + 1));
                }
                if same(list[i].0.as_str(), "service_id") {
                    return match parse_i32(list[i].1.as_str()) {
                        Some(n) => n,
                        None => 0,
                    };
                }
                i = i + 1;
            }
            0
        },
    }
}

/// What is made of the answer to the question where the connection goes.
pub open spec fn endpoint_of(
    code: Option<i64>,
    msg: Option<Seq<char>>,
    data: Option<WsEndpointData>,
) -> Result<EndpointView, Seq<char>> {
    match refusal(FeishuCall::WsEndpoint, code, msg) {
        Some(error) => Err(error),
        None => match data {
            None => Err("ws endpoint response missing data"@),
            Some(d) => match d.url {
                None => Err("ws endpoint response missing URL"@),
                Some(url) => Ok(
                    EndpointView {
                        url: url@,
                        service_id: service_in(query_pairs_of(url@)) as i32,
                        ping_interval_secs: match d.ping_interval {
                            Some(p) => p,
                            None => WS_PING_INTERVAL_SECS,
                        },
                    },
                ),
            },
        },
    }
}

pub fn ws_endpoint_reply(code: Option<i64>, msg: Option<&str>, data: Option<WsEndpointData>) -> (r:
    Result<WsEndpointResult, String>)
    ensures
        (match r {
            Ok(e) => Ok(e@),
            Err(e) => Err(e@),
        }) == endpoint_of(code, opt_str(msg), data),
{
    if let Err(error) = check_reply(FeishuCall::WsEndpoint, code, msg) {
        return Err(error);
    }
    match data {
        None => Err(owned("ws endpoint response missing data")),
        Some(d) => match d.url {
            None => Err(owned("ws endpoint response missing URL")),
            Some(url) => {
                let pairs = url_query_pairs(url.as_str());
                let service_id = service_id_of(&pairs);
                Ok(
                    WsEndpointResult {
                        url,
                        service_id,
                        ping_interval_secs: match d.ping_interval {
                            Some(p) => p,
                            None => WS_PING_INTERVAL_SECS,
                        },
                    },
                )
            },
        },
    }
}

// ---------------------------------------------------------------------------
// What happens to a connection
// ---------------------------------------------------------------------------

/// How a connection came to its end.
#[derive(Debug, PartialEq, Eq)]
pub enum ConnectionLoopResult {
    Shutdown,
    /// The connection was up, and was lost.
    ConnectedThenDisconnected(String),
    /// The connection never came up.
    Disconnected(String),
}

pub enum EndView {
    Shutdown,
    ConnectedThenDisconnected(Seq<char>),
    Disconnected(Seq<char>),
}

impl View for ConnectionLoopResult {
    type V = EndView;

    open spec fn view(&self) -> EndView {
        match *self {
            ConnectionLoopResult::Shutdown => EndView::Shutdown,
            ConnectionLoopResult::ConnectedThenDisconnected(e) =>
                EndView::ConnectedThenDisconnected(e@),
            ConnectionLoopResult::Disconnected(e) => EndView::Disconnected(e@),
        }
    }
}

/// What was being sent.
#[derive(Debug, Clone, Copy, PartialEq, Eq, Structural)]
pub enum Sending {
    Ping,
    Response,
    Pong,
}

/// Something that happens to a connection that is up. A binary message that is no
/// frame is `Garbage`.
#[derive(Debug, PartialEq, Eq)]
pub enum ConnectionEvent {
    ShutdownRequested,
    ShutdownSenderDropped,
    PingDue,
    SilenceCheckDue,
    Frame(PbFrame),
    Garbage,
    TextMessage,
    PingMessage,
    PongMessage,
    CloseMessage,
    RawMessage,
    SendFailed(Sending, String),
    ReadFailed(String),
    StreamEnded,
}

/// What is done on it. `Finish` says whether the connection is closed first.
#[derive(Debug, PartialEq, Eq)]
pub enum ConnectionAction {
    Wait,
    IgnoreShutdown,
    SendPing(PbFrame),
    SendPong,
    Answer { text: Option<String>, response: PbFrame },
    Finish { close: bool, result: ConnectionLoopResult },
}

pub enum ActionView {
    Wait,
    IgnoreShutdown,
    SendPing(FrameView),
    SendPong,
    Answer { text: Option<Seq<char>>, response: FrameView },
    Finish { close: bool, result: EndView },
}

impl View for ConnectionAction {
    type V = ActionView;

    open spec fn view(&self) -> ActionView {
        match *self {
            ConnectionAction::Wait => ActionView::Wait,
            ConnectionAction::IgnoreShutdown => ActionView::IgnoreShutdown,
            ConnectionAction::SendPing(f) => ActionView::SendPing(f@),
            ConnectionAction::SendPong => ActionView::SendPong,
            ConnectionAction::Answer { text, response } => ActionView::Answer {
                text: opt(text),
                response: response@,
            },
            ConnectionAction::Finish { close, result } => ActionView::Finish {
                close,
                result: result@,
            },
        }
    }
}

/// A connection that is up. Times are nanoseconds on a clock that never runs
/// backwards.
#[derive(Debug, PartialEq, Eq)]
pub struct Connection {
    pub service_id: i32,
    pub last_server_msg_at: u64,
}

/// Whether something came from the server.
pub open spec fn from_server(event: ConnectionEvent) -> bool {
    match event {
        ConnectionEvent::Frame(_) => true,
        ConnectionEvent::Garbage => true,
        ConnectionEvent::TextMessage => true,
        ConnectionEvent::PingMessage => true,
        ConnectionEvent::PongMessage => true,
        _ => false,
    }
}

/// Whether the server has been silent for too long.
pub open spec fn silent_too_long(last: u64, now: u64) -> bool {
    now - last > WS_SERVER_SILENCE_TIMEOUT_SECS * 1_000_000_000
}

pub open spec fn sending_prefix(what: Sending) -> Seq<char> {
    match what {
        Sending::Ping => "ping send failed: "@,
        Sending::Response => "response send failed: "@,
        Sending::Pong => "pong send failed: "@,
    }
}

/// The connection after an event.
pub open spec fn connection_after(c: Connection, event: ConnectionEvent, now: u64) -> Connection {
    Connection {
        last_server_msg_at: if from_server(event) {
            now
        } else {
            c.last_server_msg_at
        },
        ..c
    }
}

/// The end of a connection that was lost.
pub open spec fn lost(close: bool, error: Seq<char>) -> ActionView {
    ActionView::Finish { close, result: EndView::ConnectedThenDisconnected(error) }
}

/// What is done on an event.
pub open spec fn connection_action(c: Connection, event: ConnectionEvent, now: u64) -> ActionView {
    match event {
        ConnectionEvent::ShutdownRequested => ActionView::Finish {
            close: true,
            result: EndView::Shutdown,
        },
        ConnectionEvent::ShutdownSenderDropped => ActionView::IgnoreShutdown,
        ConnectionEvent::PingDue => ActionView::SendPing(ping_frame(c.service_id)),
        ConnectionEvent::SilenceCheckDue => if silent_too_long(c.last_server_msg_at, now) {
            lost(true, "server silence watchdog timeout"@)
        } else {
            ActionView::Wait
        },
        ConnectionEvent::Frame(frame) => match frame_action(frame@) {
            FrameActionView::Ignore => ActionView::Wait,
            FrameActionView::Answer { text, response } => ActionView::Answer { text, response },
        },
        ConnectionEvent::Garbage => ActionView::Wait,
        ConnectionEvent::TextMessage => ActionView::Wait,
        ConnectionEvent::PingMessage => ActionView::SendPong,
        ConnectionEvent::PongMessage => ActionView::Wait,
        ConnectionEvent::CloseMessage => lost(false, "server sent close frame"@),
        ConnectionEvent::RawMessage => ActionView::Wait,
        ConnectionEvent::SendFailed(what, error) => lost(false, sending_prefix(what) + error@),
        ConnectionEvent::ReadFailed(error) => lost(false, "websocket error: "@ + error@),
        ConnectionEvent::StreamEnded => lost(false, "websocket stream ended"@),
    }
}

fn drop_connection(close: bool, error: String) -> (r: ConnectionAction)
    ensures
        r@ == lost(close, error@),
{
    ConnectionAction::Finish {
        close,
        result: ConnectionLoopResult::ConnectedThenDisconnected(error),
    }
}

impl Connection {
    /// A connection that has just come up.
    pub fn opened(service_id: i32, now: u64) -> (r: Self)
        ensures
            r == (Connection { service_id, last_server_msg_at: now }),
    {
        Connection { service_id, last_server_msg_at: now }
    }

    /// Takes note of an event and says what is done on it.
    pub fn step(&mut self, event: ConnectionEvent, now: u64) -> (r: ConnectionAction)
        ensures
            *final(self) == connection_after(*old(self), event, now),
            r@ == connection_action(*old(self), event, now),
    {
        match event {
            ConnectionEvent::ShutdownRequested => ConnectionAction::Finish {
                close: true,
                result: ConnectionLoopResult::Shutdown,
            },
            ConnectionEvent::ShutdownSenderDropped => ConnectionAction::IgnoreShutdown,
            ConnectionEvent::PingDue => ConnectionAction::SendPing(
                build_ping_frame(self.service_id),
            ),
            ConnectionEvent::SilenceCheckDue => {
                if now > self.last_server_msg_at && now - self.last_server_msg_at
                    > SILENCE_LIMIT_NANOS {
                    drop_connection(true, owned("server silence watchdog timeout"))
                } else {
                    ConnectionAction::Wait
                }
            },
            ConnectionEvent::Frame(frame) => {
                self.last_server_msg_at = now;
                match handle_frame(&frame) {
                    FrameAction::Ignore => ConnectionAction::Wait,
                    FrameAction::Answer { text, response } => ConnectionAction::Answer {
                        text,
                        response,
                    },
                }
            },
            ConnectionEvent::Garbage => {
                self.last_server_msg_at = now;
                ConnectionAction::Wait
            },
            ConnectionEvent::TextMessage => {
                self.last_server_msg_at = now;
                ConnectionAction::Wait
            },
            ConnectionEvent::PingMessage => {
                self.last_server_msg_at = now;
                ConnectionAction::SendPong
            },
            ConnectionEvent::PongMessage => {
                self.last_server_msg_at = now;
                ConnectionAction::Wait
            },
            ConnectionEvent::CloseMessage => drop_connection(
                false,
                owned("server sent close frame"),
            ),
            ConnectionEvent::RawMessage => ConnectionAction::Wait,
            ConnectionEvent::SendFailed(what, error) => {
                let prefix = match what {
                    Sending::Ping => "ping send failed: ",
                    Sending::Response => "response send failed: ",
                    Sending::Pong => "pong send failed: ",
                };
                drop_connection(false, concat2(prefix, error.as_str()))
            },
            ConnectionEvent::ReadFailed(error) => drop_connection(
                false,
                concat2("websocket error: ", error.as_str()),
            ),
            ConnectionEvent::StreamEnded => drop_connection(
                false,
                owned("websocket stream ended"),
            ),
        }
    }
}

/// The end of an attempt whose address could not be found out.
pub fn endpoint_failed(error: &str) -> (r: ConnectionLoopResult)
    ensures
        r@ == EndView::Disconnected("ws endpoint fetch failed: "@ + error@),
{
    ConnectionLoopResult::Disconnected(concat2("ws endpoint fetch failed: ", error))
}

/// The end of an attempt that could not connect.
pub fn connect_failed(error: &str) -> (r: ConnectionLoopResult)
    ensures
        r@ == EndView::Disconnected("websocket connect failed: "@ + error@),
{
    ConnectionLoopResult::Disconnected(concat2("websocket connect failed: ", error))
}

/// Only an explicit request shuts a connection down; a connection that ends on
/// its own was up and is made again.
pub proof fn lemma_only_requests_shut_down(c: Connection, event: ConnectionEvent, now: u64)
    ensures
        connection_action(c, event, now) matches ActionView::Finish { close, result } ==> (
        result is Shutdown <==> event is ShutdownRequested) && !(result is Disconnected),
        event is ShutdownSenderDropped ==> !(connection_action(c, event, now) is Finish)
            && connection_after(c, event, now) == c,
{
}

/// Whatever came from the server, the connection is not taken for dead in the
/// time after it that the server may be silent; once that time is over without
/// anything else from the server, it is.
pub proof fn lemma_server_keeps_connection_alive(
    c: Connection,
    event: ConnectionEvent,
    at: u64,
    check_at: u64,
)
    requires
        from_server(event),
    ensures
        ({
            let after = connection_after(c, event, at);
            let action = connection_action(after, ConnectionEvent::SilenceCheckDue, check_at);
            &&& check_at <= at + WS_SERVER_SILENCE_TIMEOUT_SECS * 1_000_000_000 ==> action
                == ActionView::Wait
            &&& check_at > at + WS_SERVER_SILENCE_TIMEOUT_SECS * 1_000_000_000 ==> action
                == lost(true, "server silence watchdog timeout"@)
        }),
{
}

/// Every event that the server delivers is answered with the frame that it came
/// in, and a text is handled exactly where the answer says success.
pub proof fn lemma_events_are_answered(c: Connection, frame: PbFrame, now: u64)
    requires
        frame@.method == 1,
        value_under(frame@.headers, "type"@) == Some("event"@),
    ensures
        connection_action(c, ConnectionEvent::Frame(frame), now) == (ActionView::Answer {
            text: payload_text(frame@.payload),
            response: response_frame(frame@, payload_text(frame@.payload) is Some),
        }),
{
}

// ---------------------------------------------------------------------------
// Making a connection again
// ---------------------------------------------------------------------------

#[derive(Debug, Clone, Copy, PartialEq, Eq, Structural)]
pub enum ConnectionState {
    Connected,
    Reconnecting,
}

/// What is told about a connection.
#[derive(Debug, PartialEq, Eq)]
pub struct FeishuConnectionStatusEvent {
    pub state: ConnectionState,
    pub error: Option<String>,
}

/// How often a connection was made, and how long to wait before it is made again.
#[derive(Debug, Clone, Copy, PartialEq, Eq)]
pub struct Reconnects {
    pub backoff_secs: u64,
    pub reconnect_count: u32,
    pub total_connects: u32,
}

/// What is done before a connection is made again.
#[derive(Debug, PartialEq, Eq)]
pub struct ReconnectPlan {
    pub status: FeishuConnectionStatusEvent,
    pub wait_secs: u64,
    pub failing_repeatedly: bool,
}

impl Reconnects {
    /// The wait is one that the doubling leads to.
    pub open spec fn wf(self) -> bool {
        INITIAL_BACKOFF_SECS <= self.backoff_secs <= MAX_BACKOFF_SECS
    }

    pub fn new() -> (r: Self)
        ensures
            r == (Reconnects {
                backoff_secs: INITIAL_BACKOFF_SECS,
                reconnect_count: 0,
                total_connects: 0,
            }),
            r.wf(),
    {
        Reconnects { backoff_secs: INITIAL_BACKOFF_SECS, reconnect_count: 0, total_connects: 0 }
    }

    /// Takes note of the end of a connection. There is no plan where it was shut
    /// down.
    pub fn ended(&mut self, result: ConnectionLoopResult) -> (r: Option<ReconnectPlan>)
        requires
            old(self).wf(),
            old(self).reconnect_count < u32::MAX,
        ensures
            final(self).wf(),
            *final(self) == reconnects_after(*old(self), result@),
            match r {
                None => result@ is Shutdown,
                Some(plan) => {
                    &&& !(result@ is Shutdown)
                    &&& plan.status.state is Reconnecting
                    &&& opt(plan.status.error) == Some(end_error(result@))
                    &&& plan.wait_secs == wait_after(*old(self), result@)
                    &&& plan.failing_repeatedly == failing_repeatedly(
                        *final(self),
                        result@,
                    )
                },
            },
    {
        match result {
            ConnectionLoopResult::Shutdown => None,
            ConnectionLoopResult::ConnectedThenDisconnected(error) => {
                self.total_connects = self.total_connects.saturating_add(1);
                self.backoff_secs = INITIAL_BACKOFF_SECS;
                self.reconnect_count = self.reconnect_count + 1;
                Some(
                    ReconnectPlan {
                        status: FeishuConnectionStatusEvent {
                            state: ConnectionState::Reconnecting,
                            error: Some(error),
                        },
                        wait_secs: self.backoff_secs,
                        failing_repeatedly: false,
                    },
                )
            },
            ConnectionLoopResult::Disconnected(error) => {
                self.reconnect_count = self.reconnect_count + 1;
                let wait_secs: u64 = self.backoff_secs;
                let doubled: u64 = self.backoff_secs * 2;
                self.backoff_secs = if doubled < MAX_BACKOFF_SECS {
                    doubled
                } else {
                    MAX_BACKOFF_SECS
                };
                let failing_repeatedly = self.reconnect_count == 5 || self.reconnect_count % 20
                    == 0;
                Some(
                    ReconnectPlan {
                        status: FeishuConnectionStatusEvent {
                            state: ConnectionState::Reconnecting,
                            error: Some(error),
                        },
                        wait_secs,
                        failing_repeatedly,
                    },
                )
            },
        }
    }
}

/// Why a connection ended.
pub open spec fn end_error(result: EndView) -> Seq<char> {
    match result {
        EndView::Shutdown => Seq::empty(),
        EndView::ConnectedThenDisconnected(e) => e,
        EndView::Disconnected(e) => e,
    }
}

/// A wait doubled, up to the longest one.
pub open spec fn doubled(backoff: int) -> int {
    if backoff * 2 < MAX_BACKOFF_SECS {
        backoff * 2
    } else {
        MAX_BACKOFF_SECS as int
    }
}

pub open spec fn reconnects_after(r: Reconnects, result: EndView) -> Reconnects {
    match result {
        EndView::Shutdown => r,
        EndView::ConnectedThenDisconnected(_) => Reconnects {
            backoff_secs: INITIAL_BACKOFF_SECS,
            reconnect_count: (r.reconnect_count + 1) as u32,
            total_connects: if r.total_connects == u32::MAX {
                u32::MAX
            } else {
                (r.total_connects + 1) as u32
            },
        },
        EndView::Disconnected(_) => Reconnects {
            backoff_secs: doubled(r.backoff_secs as int) as u64,
            reconnect_count: (r.reconnect_count + 1) as u32,
            total_connects: r.total_connects,
        },
    }
}

/// How long to wait before a connection is made again.
pub open spec fn wait_after(r: Reconnects, result: EndView) -> u64 {
    match result {
        EndView::Disconnected(_) => r.backoff_secs,
        _ => INITIAL_BACKOFF_SECS,
    }
}

/// Whether the attempts have failed so often that it is worth telling.
pub open spec fn failing_repeatedly(after: Reconnects, result: EndView) -> bool {
    result is Disconnected && (after.reconnect_count == 5 || after.reconnect_count % 20 == 0)
}

/// The state after some attempts in a row that never came up.
pub open spec fn after_failures(r: Reconnects, errors: Seq<Seq<char>>) -> Reconnects
    decreases errors.len(),
{
    if errors.len() == 0 {
        r
    } else {
        reconnects_after(
            after_failures(r, errors.drop_last()),
            EndView::Disconnected(errors.last()),
        )
    }
}

/// After a connection that was up, or at the start, the waits before the next
/// attempts are 1, 2, 4 and so on seconds, and 60 from there on.
pub proof fn lemma_waits_double(r: Reconnects, errors: Seq<Seq<char>>)
    requires
        r.backoff_secs == INITIAL_BACKOFF_SECS,
    ensures
        after_failures(r, errors).wf(),
        after_failures(r, errors).backoff_secs == (if pow2(errors.len()) < MAX_BACKOFF_SECS {
            pow2(errors.len()) as int
        } else {
            MAX_BACKOFF_SECS as int
        }),
    decreases errors.len(),
{
    lemma2_to64();
    if errors.len() > 0 {
        lemma_waits_double(r, errors.drop_last());
        lemma_pow2_unfold(errors.len());
    }
}

/// A connection that was up starts the waits over, however long the one before it
/// took to come up.
pub proof fn lemma_connecting_starts_over(r: Reconnects, error: Seq<char>)
    ensures
        wait_after(r, EndView::ConnectedThenDisconnected(error)) == INITIAL_BACKOFF_SECS,
        reconnects_after(r, EndView::ConnectedThenDisconnected(error)).backoff_secs
            == INITIAL_BACKOFF_SECS,
{
}

// ---------------------------------------------------------------------------
// Waiting before a connection is made again
// ---------------------------------------------------------------------------

/// What happens during a wait: the timer goes off, a shutdown is asked for, or
/// what it could have been asked through is gone.
#[derive(Debug, Clone, Copy, PartialEq, Eq, Structural)]
pub enum WaitEvent {
    TimeElapsed,
    ShutdownRequested,
    ShutdownSenderDropped,
}

/// What is done on it.
#[derive(Debug, Clone, Copy, PartialEq, Eq, Structural)]
pub enum WaitStep {
    Return,
    Reconnect,
    KeepWaiting,
}

/// What is done on an event of a wait, some nanoseconds after it began. Only a
/// request ends the wait early; where nobody can make one any more, the rest of
/// the time is waited out.
pub open spec fn wait_step_on(delay_secs: u64, event: WaitEvent, waited_nanos: u64) -> WaitStep {
    match event {
        WaitEvent::ShutdownRequested => WaitStep::Return,
        WaitEvent::ShutdownSenderDropped => WaitStep::KeepWaiting,
        WaitEvent::TimeElapsed => if waited_nanos < delay_secs * 1_000_000_000 {
            WaitStep::KeepWaiting
        } else {
            WaitStep::Reconnect
        },
    }
}

/// Decides what is done on an event of a wait.
pub fn wait_step(delay_secs: u64, event: WaitEvent, waited_nanos: u64) -> (r: WaitStep)
    ensures
        r == wait_step_on(delay_secs, event, waited_nanos),
{
    match event {
        WaitEvent::ShutdownRequested => WaitStep::Return,
        WaitEvent::ShutdownSenderDropped => WaitStep::KeepWaiting,
        WaitEvent::TimeElapsed => if (waited_nanos as u128) < delay_secs as u128 * 1_000_000_000 {
            WaitStep::KeepWaiting
        } else {
            WaitStep::Reconnect
        },
    }
}

/// How a wait ends on some events, each with the time that has passed: with a
/// shutdown, with a new connection, or not yet.
pub open spec fn wait_outcome(delay_secs: u64, events: Seq<(WaitEvent, u64)>) -> WaitStep
    decreases events.len(),
{
    if events.len() == 0 {
        WaitStep::KeepWaiting
    } else {
        let step = wait_step_on(delay_secs, events[0].0, events[0].1);
        if step == WaitStep::KeepWaiting {
            wait_outcome(delay_secs, events.drop_first())
        } else {
            step
        }
    }
}

/// A wait ends with a shutdown only where one was asked for, and with a new
/// connection only where the time had passed.
pub proof fn lemma_waits_end_for_a_reason(delay_secs: u64, events: Seq<(WaitEvent, u64)>)
    ensures
        wait_outcome(delay_secs, events) == WaitStep::Return ==> exists|i: int|
            0 <= i < events.len() && (#[trigger] events[i]).0 == WaitEvent::ShutdownRequested,
        wait_outcome(delay_secs, events) == WaitStep::Reconnect ==> exists|i: int|
            0 <= i < events.len() && (#[trigger] events[i]).0 == WaitEvent::TimeElapsed
                && events[i].1 >= delay_secs * 1_000_000_000,
    decreases events.len(),
{
    if events.len() > 0 {
        let rest = events.drop_first();
        lemma_waits_end_for_a_reason(delay_secs, rest);
        assert forall|i: int| 0 <= i < rest.len() implies #[trigger] rest[i] == events[i + 1] by {}
        if wait_step_on(delay_secs, events[0].0, events[0].1) == WaitStep::KeepWaiting {
            if wait_outcome(delay_secs, events) == WaitStep::Return {
                let i = choose|i: int|
                    0 <= i < rest.len() && (#[trigger] rest[i]).0 == WaitEvent::ShutdownRequested;
                assert(events[i + 1].0 == WaitEvent::ShutdownRequested);
            }
            if wait_outcome(delay_secs, events) == WaitStep::Reconnect {
                let i = choose|i: int|
                    0 <= i < rest.len() && (#[trigger] rest[i]).0 == WaitEvent::TimeElapsed
                        && rest[i].1 >= delay_secs * 1_000_000_000;
                assert(events[i + 1].0 == WaitEvent::TimeElapsed);
            }
        }
    }
}

/// A request that comes before the time has passed ends the wait with a shutdown,
/// whatever came before it.
pub proof fn lemma_requests_end_waits(delay_secs: u64, events: Seq<(WaitEvent, u64)>, at: int)
    requires
        0 <= at < events.len(),
        events[at].0 == WaitEvent::ShutdownRequested,
        forall|i: int|
            0 <= i < at ==> (#[trigger] events[i]).0 != WaitEvent::TimeElapsed || events[i].1
                < delay_secs * 1_000_000_000,
    ensures
        wait_outcome(delay_secs, events) == WaitStep::Return,
    decreases at,
{
    if at > 0 {
        let rest = events.drop_first();
        assert forall|i: int| 0 <= i < rest.len() implies #[trigger] rest[i] == events[i + 1] by {}
        let first = events[0];
        if first.0 != WaitEvent::ShutdownRequested {
            lemma_requests_end_waits(delay_secs, rest, at - 1);
        }
    }
}

/// That nobody can ask for a shutdown any more neither ends a wait nor changes how
/// it ends.
pub proof fn lemma_dropped_senders_change_no_wait(
    delay_secs: u64,
    before: Seq<(WaitEvent, u64)>,
    waited_nanos: u64,
    after: Seq<(WaitEvent, u64)>,
)
    ensures
        wait_outcome(
            delay_secs,
            before.push((WaitEvent::ShutdownSenderDropped, waited_nanos)) + after,
        ) == wait_outcome(delay_secs, before + after),
    decreases before.len(),
{
    let dropped = (WaitEvent::ShutdownSenderDropped, waited_nanos);
    let all = before.push(dropped) + after;
    if before.len() == 0 {
        assert(all[0] == dropped);
        assert(all.drop_first() =~= before + after);
    } else {
        lemma_dropped_senders_change_no_wait(
            delay_secs,
            before.drop_first(),
            waited_nanos,
            after,
        );
        assert(all[0] == before[0]);
        assert((before + after)[0] == before[0]);
        assert(all.drop_first() =~= before.drop_first().push(dropped) + after);
        assert((before + after).drop_first() =~= before.drop_first() + after);
    }
}

} // verus!
