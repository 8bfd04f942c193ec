//! What talking to Feishu is for: where requests go, what answers say, how long a
//! credential is good and what a connection does with what comes in.

use vstd::prelude::*;

use crate::feishu_api::{
    config_errors, configured_url, downloaded_type, endpoint_url, entity_content, extension_of,
    file_type_of, headless, keyed_content, last_dot, markdown_card, members_without,
    without_suffixes, FeishuEndpoint,
};
use crate::feishu_connection::{
    connection_action, connection_after, endpoint_of, failing_repeatedly, frame_action,
    payload_text, ping_frame, reconnects_after, response_frame, sending_prefix, service_in,
    value_under, wait_after, wait_step_on, ActionView, Connection, ConnectionEvent, EndView,
    FrameActionView, FrameView, Reconnects, Sending, WaitEvent, WaitStep, WsEndpointData,
};
use crate::feishu_requests::{
    answered_token, answered_value, bot_identity, card_payload, chat_name, refusal, refused_prefix,
    unread_prefix, unsent_prefix, with_uuid, FeishuCall, WantedValue,
};
use crate::feishu_tokens::{usable_token, TokenCache, TokenKeyView};
use crate::json::{find_member, member, member_of, text_of_json, Tree};
use crate::paths::{last_name, PathStyle};
use crate::text::{blank, decimal, has_prefix, has_suffix, lowered, signed_decimal, trimmed};

verus! {

broadcast use vstd::string::group_string_axioms;

/// Whether a member of an object is a text.
pub open spec fn says(t: Tree, key: Seq<char>, text: Seq<char>) -> bool {
    member(t, key) == Some(Tree::Text(text))
}

// ---------------------------------------------------------------------------
// Where requests go
// ---------------------------------------------------------------------------

/// A provider that names no address is Feishu's own.
pub proof fn lemma_addresses(u: Seq<char>)
    ensures
        configured_url(None) == "https://open.feishu.cn/open-apis"@,
        configured_url(Some(u)) == u,
{
}

/// The address of the socket is that of the provider without the interface's own
/// ending.
pub proof fn lemma_domains(domain: Seq<char>)
    requires
        !has_suffix(domain, "/open-apis"@),
    ensures
        without_suffixes(domain + "/open-apis"@, "/open-apis"@) == domain,
        without_suffixes(domain, "/open-apis"@) == domain,
{
    reveal_strlit("/open-apis");
    let p = "/open-apis"@;
    assert(p.len() == 10);
    let s = domain + p;
    assert(s.subrange(s.len() - p.len(), s.len() as int) =~= p);
    assert(s.take(s.len() - p.len()) =~= domain);
    reveal_with_fuel(without_suffixes, 2);
}

/// Every request goes below the address of the provider.
pub proof fn lemma_requests_go_to_the_provider(base: Seq<char>, e: FeishuEndpoint)
    ensures
        has_prefix(endpoint_url(base, e), base),
{
    let u = endpoint_url(base, e);
    assert(u.subrange(0, base.len() as int) =~= base);
}

/// Where each request goes below the address of the provider.
pub proof fn lemma_places_of_requests(
    base: Seq<char>,
    receive_id_type: String,
    message_id: String,
    card_id: String,
    element_id: String,
    app_id: String,
    chat_id: String,
    file_key: String,
)
    ensures
        endpoint_url(base, FeishuEndpoint::Token) == base
            + "/auth/v3/tenant_access_token/internal"@,
        endpoint_url(base, FeishuEndpoint::Messages { receive_id_type }) == base
            + "/im/v1/messages?receive_id_type="@ + receive_id_type@,
        endpoint_url(base, FeishuEndpoint::Reply { message_id }) == base + "/im/v1/messages/"@
            + message_id@ + "/reply"@,
        endpoint_url(base, FeishuEndpoint::Images) == base + "/im/v1/images"@,
        endpoint_url(base, FeishuEndpoint::Files) == base + "/im/v1/files"@,
        endpoint_url(base, FeishuEndpoint::Message { message_id }) == base + "/im/v1/messages/"@
            + message_id@,
        endpoint_url(base, FeishuEndpoint::Cards) == base + "/cardkit/v1/cards"@,
        endpoint_url(base, FeishuEndpoint::Card { card_id }) == base + "/cardkit/v1/cards/"@
            + card_id@,
        endpoint_url(base, FeishuEndpoint::CardElementContent { card_id, element_id }) == base
            + "/cardkit/v1/cards/"@ + card_id@ + "/elements/"@ + element_id@ + "/content"@,
        endpoint_url(base, FeishuEndpoint::CardElement { card_id, element_id }) == base
            + "/cardkit/v1/cards/"@ + card_id@ + "/elements/"@ + element_id@,
        endpoint_url(base, FeishuEndpoint::CardSettings { card_id }) == base
            + "/cardkit/v1/cards/"@ + card_id@ + "/settings"@,
        endpoint_url(base, FeishuEndpoint::Application { app_id }) == base
            + "/application/v6/applications/"@ + app_id@ + "?user_id_type=open_id&lang=zh_cn"@,
        endpoint_url(base, FeishuEndpoint::BotInfo) == base + "/bot/v3/info"@,
        endpoint_url(base, FeishuEndpoint::Chat { chat_id }) == base + "/im/v1/chats/"@ + trimmed(
            chat_id@,
        ) + "?user_id_type=open_id"@,
        endpoint_url(base, FeishuEndpoint::Reactions { message_id }) == base + "/im/v1/messages/"@
            + message_id@ + "/reactions"@,
        endpoint_url(base, FeishuEndpoint::MessageImage { message_id, file_key }) == base
            + "/im/v1/messages/"@ + message_id@ + "/resources/"@ + file_key@ + "?type=image"@,
        endpoint_url(base, FeishuEndpoint::MessageFile { message_id, file_key }) == base
            + "/im/v1/messages/"@ + message_id@ + "/resources/"@ + file_key@ + "?type=file"@,
{
}

/// A provider needs an identifier and a secret, and says which is missing.
pub proof fn lemma_what_providers_need(app_id: Option<Seq<char>>, secret: Option<Seq<char>>)
    ensures
        ({
            let no_id = app_id is None || app_id->Some_0.len() == 0;
            let no_secret = secret is None || secret->Some_0.len() == 0;
            let errors = config_errors(app_id, secret);
            &&& !no_id && !no_secret ==> errors.len() == 0
            &&& no_id && !no_secret ==> errors == seq!["app_id is required for feishu provider"@]
            &&& !no_id && no_secret ==> errors == seq![
                "secret_ref is required for feishu provider"@,
            ]
            &&& no_id && no_secret ==> errors == seq![
                "app_id is required for feishu provider"@,
                "secret_ref is required for feishu provider"@,
            ]
        }),
{
}

// ---------------------------------------------------------------------------
// What is sent
// ---------------------------------------------------------------------------

/// A card is sent without its heading and with everything else, in its order.
pub proof fn lemma_cards_lose_their_heading(
    m: Seq<(Seq<char>, Tree)>,
    key: Seq<char>,
    value: Tree,
)
    ensures
        headless(Tree::Object(Seq::<(Seq<char>, Tree)>::empty())) == Tree::Object(Seq::empty()),
        key == "header"@ ==> members_without(m.push((key, value)), "header"@) == members_without(
            m,
            "header"@,
        ),
        key != "header"@ ==> members_without(m.push((key, value)), "header"@) == members_without(
            m,
            "header"@,
        ).push((key, value)),
        headless(Tree::Object(m)) == Tree::Object(members_without(m, "header"@)),
        !(value is Object) ==> headless(value) == value,
{
    assert(m.push((key, value)).drop_last() =~= m);
}

/// A text is sent as a card that shows it.
pub proof fn lemma_texts_are_shown(markdown: Seq<char>)
    ensures
        member_of(member(markdown_card(markdown), "body"@), "elements"@) matches Some(
            Tree::List(elements),
        ) && elements.len() == 1 && says(elements[0], "content"@, markdown) && says(
            elements[0],
            "tag"@,
            "markdown"@,
        ),
{
    reveal_strlit("schema");
    reveal_strlit("config");
    reveal_strlit("body");
    reveal_strlit("tag");
    reveal_strlit("content");
    assert("schema"@.len() == 6 && "config"@.len() == 6 && "body"@.len() == 4 && "tag"@.len() == 3
        && "content"@.len() == 7);
    reveal_with_fuel(find_member, 4);
    let card = markdown_card(markdown);
    assert(member(card, "body"@) is Some);
}

/// A key is sent under its name, and a card as what it is.
pub proof fn lemma_keys_are_sent(key: Seq<char>, value: Seq<char>, card_id: Seq<char>)
    ensures
        says(keyed_content(key, value), key, value),
        says(entity_content(card_id), "type"@, "card"@),
        member(entity_content(card_id), "data"@) matches Some(d) && says(d, "card_id"@, card_id),
{
    reveal_strlit("type");
    reveal_strlit("data");
    assert("type"@[0] == 't' && "data"@[0] == 'd');
    reveal_with_fuel(find_member, 3);
}

/// A request that can be told apart says how.
pub proof fn lemma_requests_are_told_apart(list: Seq<(Seq<char>, Tree)>, uuid: Seq<char>)
    ensures
        with_uuid(list, None) == Tree::Object(list),
        with_uuid(list, Some(uuid)) == Tree::Object(list.push(("uuid"@, Tree::Text(uuid)))),
{
}

// ---------------------------------------------------------------------------
// Files
// ---------------------------------------------------------------------------

proof fn lemma_last_dot(a: Seq<char>, b: Seq<char>)
    requires
        !b.contains('.'),
    ensures
        last_dot(a + seq!['.'] + b) == Some(a.len() as int),
        last_dot(b) is None,
    decreases b.len(),
{
    let s = a + seq!['.'] + b;
    if b.len() > 0 {
        let t = b.drop_last();
        assert forall|i: int| 0 <= i < t.len() implies t[i] != '.' by {
            assert(t[i] == b[i]);
            assert(b.contains(b[i]));
        }
        assert(b.contains(b[b.len() - 1]));
        assert(s.last() == b.last());
        assert(s.drop_last() =~= a + seq!['.'] + t);
        lemma_last_dot(a, t);
    } else {
        assert(s.last() == '.');
    }
}

/// The kind of a file goes by what stands behind the last dot of its name; a name that
/// begins with its only dot has none.
pub proof fn lemma_endings_of_files(
    style: PathStyle,
    path: Seq<char>,
    stem: Seq<char>,
    ending: Seq<char>,
)
    requires
        !ending.contains('.'),
    ensures
        last_name(style, path) == Some(stem + seq!['.'] + ending) && stem.len() > 0 ==> extension_of(
            style,
            path,
        ) == Some(ending),
        last_name(style, path) == Some(seq!['.'] + ending) ==> extension_of(style, path) is None,
        last_name(style, path) == Some(ending) ==> extension_of(style, path) is None,
        last_name(style, path) is None ==> extension_of(style, path) is None,
{
    lemma_last_dot(stem, ending);
    lemma_last_dot(Seq::empty(), ending);
    assert(Seq::<char>::empty() + seq!['.'] + ending =~= seq!['.'] + ending);
    assert((stem + seq!['.'] + ending).skip((stem.len() + 1) as int) =~= ending);
}

/// What Feishu calls the kinds of files.
pub proof fn lemma_kinds_of_files(style: PathStyle, name: Seq<char>, e: Seq<char>)
    requires
        extension_of(style, name) == Some(e),
    ensures
        lowered(e) == "pdf"@ ==> file_type_of(style, name) == "pdf"@,
        lowered(e) == "doc"@ || lowered(e) == "docx"@ ==> file_type_of(style, name) == "doc"@,
        lowered(e) == "xls"@ || lowered(e) == "xlsx"@ || lowered(e) == "csv"@ ==> file_type_of(
            style,
            name,
        ) == "xls"@,
        lowered(e) == "ppt"@ || lowered(e) == "pptx"@ ==> file_type_of(style, name) == "ppt"@,
        lowered(e) == "txt"@ || lowered(e) == "mp4"@ ==> file_type_of(style, name) == "stream"@,
{
    reveal_strlit("pdf");
    reveal_strlit("doc");
    reveal_strlit("docx");
    reveal_strlit("xls");
    reveal_strlit("xlsx");
    reveal_strlit("csv");
    reveal_strlit("ppt");
    reveal_strlit("pptx");
    reveal_strlit("txt");
    reveal_strlit("mp4");
    assert("pdf"@.len() == 3 && "doc"@.len() == 3 && "docx"@.len() == 4 && "xls"@.len() == 3
        && "xlsx"@.len() == 4 && "csv"@.len() == 3 && "ppt"@.len() == 3 && "pptx"@.len() == 4
        && "txt"@.len() == 3 && "mp4"@.len() == 3);
    assert("pdf"@[0] == 'p' && "doc"@[0] == 'd' && "docx"@[0] == 'd' && "xls"@[0] == 'x'
        && "xlsx"@[0] == 'x' && "csv"@[0] == 'c' && "ppt"@[0] == 'p' && "pptx"@[0] == 'p'
        && "txt"@[0] == 't' && "mp4"@[0] == 'm');
    assert("pdf"@[1] == 'd' && "ppt"@[1] == 'p');
}

/// The kind of what is downloaded is what the answer says, up to its parameters.
pub proof fn lemma_kinds_of_downloads(kind: Seq<char>, rest: Seq<char>, fallback: Seq<char>)
    requires
        !kind.contains(';'),
    ensures
        downloaded_type(None, fallback) == fallback,
        downloaded_type(Some(kind), fallback) == kind,
        downloaded_type(Some(kind + seq![';'] + rest), fallback) == kind,
{
    lemma_first_piece(kind, Seq::empty());
    lemma_first_piece(kind, seq![';'] + rest);
    assert(kind + Seq::<char>::empty() =~= kind);
    assert(kind + (seq![';'] + rest) =~= kind + seq![';'] + rest);
}

proof fn lemma_first_piece(kind: Seq<char>, rest: Seq<char>)
    requires
        !kind.contains(';'),
        rest.len() > 0 ==> rest[0] == ';',
    ensures
        crate::text::pieces(kind + rest, ';').len() > 0,
        crate::text::pieces(kind + rest, ';')[0] == kind,
        rest.len() > 0 ==> crate::text::pieces(kind + rest, ';').len() > 1,
    decreases rest.len(),
{
    let s = kind + rest;
    if rest.len() == 0 {
        let e = Seq::<char>::empty();
        assert(s =~= e + kind);
        assert forall|i: int| 0 <= i < kind.len() implies #[trigger] kind[i] != ';' by {
            assert(kind.contains(kind[i]));
        }
        crate::text::lemma_pieces_of_sum(e, kind, ';');
        assert(crate::text::pieces(e, ';') =~= seq![e]);
        assert(e + kind =~= kind);
    } else {
        let t = rest.drop_last();
        assert(s.drop_last() =~= kind + t);
        if t.len() > 0 {
            assert(t[0] == rest[0]);
        }
        lemma_first_piece(kind, t);
        let p = crate::text::pieces(kind + t, ';');
        if s.last() == ';' {
            assert(p.push(Seq::empty())[0] == p[0]);
        } else {
            assert(t.len() > 0) by {
                if t.len() == 0 {
                    assert(rest.last() == rest[0]);
                }
            }
            assert(p.drop_last().push(p.last().push(s.last()))[0] == p[0]);
        }
    }
}

// ---------------------------------------------------------------------------
// What answers say
// ---------------------------------------------------------------------------

/// An answer refuses just where its code is there and is not zero, and says the code
/// and the reason.
pub proof fn lemma_refusals(call: FeishuCall, code: i64, msg: Seq<char>)
    ensures
        refusal(call, None, Some(msg)) is None,
        refusal(call, Some(0), Some(msg)) is None,
        code != 0 ==> refusal(call, Some(code), Some(msg)) == Some(
            refused_prefix(call) + "code="@ + signed_decimal(code as int) + ", msg="@ + msg,
        ),
{
}

/// A value is what the answer holds; a refusal goes first, and an answer without the
/// value says so.
pub proof fn lemma_answered_values(
    wanted: WantedValue,
    code: Option<i64>,
    msg: Option<Seq<char>>,
    value: Seq<char>,
)
    ensures
        code is None || code == Some(0i64) ==> answered_value(wanted, code, msg, Some(value)) == Ok::<
            Seq<char>,
            Seq<char>,
        >(value) && answered_value(wanted, code, msg, None) is Err,
        code matches Some(c) ==> (c != 0 ==> answered_value(wanted, code, msg, Some(value)) is Err),
{
}

/// A credential is what the answer holds, good for as long as it says, and for two
/// hours where it does not say.
pub proof fn lemma_answered_tokens(
    code: Option<i64>,
    msg: Option<Seq<char>>,
    status: Seq<char>,
    token: Seq<char>,
    expire: u64,
)
    ensures
        code is None || code == Some(0i64) ==> answered_token(
            code,
            msg,
            status,
            Some(token),
            Some(expire),
        ) == Ok::<(Seq<char>, u64), Seq<char>>((token, expire)) && answered_token(
            code,
            msg,
            status,
            Some(token),
            None,
        ) == Ok::<(Seq<char>, u64), Seq<char>>((token, 7200)) && answered_token(
            code,
            msg,
            status,
            None,
            Some(expire),
        ) is Err,
        code matches Some(c) ==> (c != 0 ==> answered_token(
            code,
            msg,
            status,
            Some(token),
            Some(expire),
        ) is Err),
{
}

/// A chat is called what the answer says, and a refusal or an empty name is none.
pub proof fn lemma_names_of_chats(value: Tree, data: Tree, name: Seq<char>, code: u64)
    ensures
        (member(value, "code"@) is None || member(value, "code"@) == Some(Tree::Unsigned(0)))
            && member(value, "data"@) == Some(data) && says(data, "name"@, name) && !blank(name)
            ==> chat_name(value) == Ok::<Seq<char>, Seq<char>>(trimmed(name)),
        (member(value, "code"@) is None || member(value, "code"@) == Some(Tree::Unsigned(0)))
            && member(value, "data"@) == Some(data) && says(data, "name"@, name) && blank(name)
            ==> chat_name(value) is Err,
        member(value, "code"@) == Some(Tree::Unsigned(code)) && 0 < code <= i64::MAX ==> chat_name(
            value,
        ) is Err,
{
}

/// The bot is who the answer says, at the top or among the data; it has a name where
/// one is given.
pub proof fn lemma_bots(value: Tree, data: Tree, bot: Tree, id: Seq<char>, name: Seq<char>)
    requires
        member(value, "code"@) is None || member(value, "code"@) == Some(Tree::Unsigned(0)),
        member(value, "bot"@) == Some(bot) || (member(value, "bot"@) is None && member(
            value,
            "data"@,
        ) == Some(data) && member(data, "bot"@) == Some(bot)),
    ensures
        says(bot, "open_id"@, id) && !blank(id) ==> (bot_identity(value) matches Ok(i) && i.open_id
            == trimmed(id) && (says(bot, "app_name"@, name) && !blank(name) ==> i.name == Some(
            trimmed(name),
        )) && (member(bot, "app_name"@) is None && says(bot, "bot_name"@, name) && !blank(name)
            ==> i.name == Some(trimmed(name))) && (member(bot, "app_name"@) is None && member(
            bot,
            "bot_name"@,
        ) is None ==> i.name is None)),
        member(bot, "open_id"@) is None ==> bot_identity(value) is Err,
{
}

// ---------------------------------------------------------------------------
// Credentials
// ---------------------------------------------------------------------------

/// A credential is used until five minutes before it ends.
pub proof fn lemma_credentials_in_use(
    tokens: Map<TokenKeyView, TokenCache>,
    key: TokenKeyView,
    now: u64,
)
    ensures
        !tokens.contains_key(key) ==> usable_token(tokens, key, now) is None,
        tokens.contains_key(key) && now + 300 < tokens[key].expires_at ==> usable_token(
            tokens,
            key,
            now,
        ) == Some(tokens[key].token@),
        tokens.contains_key(key) && now + 300 >= tokens[key].expires_at ==> usable_token(
            tokens,
            key,
            now,
        ) is None,
{
}

// ---------------------------------------------------------------------------
// Connections
// ---------------------------------------------------------------------------

/// The value under a name is that of the first pair with it.
pub proof fn lemma_first_pair(pairs: Seq<(Seq<char>, Seq<char>)>, at: int, key: Seq<char>)
    ensures
        0 <= at < pairs.len() && pairs[at].0 == key && (forall|i: int|
            0 <= i < at ==> (#[trigger] pairs[i]).0 != key) ==> value_under(pairs, key) == Some(
            pairs[at].1,
        ),
        (forall|i: int| 0 <= i < pairs.len() ==> (#[trigger] pairs[i]).0 != key) ==> value_under(
            pairs,
            key,
        ) is None,
    decreases pairs.len(),
{
    if pairs.len() > 0 {
        let tail = pairs.drop_first();
        lemma_first_pair(tail, at - 1, key);
        if 0 < at < pairs.len() && (forall|i: int| 0 <= i < at ==> (#[trigger] pairs[i]).0 != key) {
            assert(pairs[0].0 != key);
            assert(tail[at - 1] == pairs[at]);
            assert forall|i: int| 0 <= i < at - 1 implies (#[trigger] tail[i]).0 != key by {
                assert(tail[i] == pairs[i + 1]);
            }
        }
        if forall|i: int| 0 <= i < pairs.len() ==> (#[trigger] pairs[i]).0 != key {
            assert(pairs[0].0 != key);
            assert forall|i: int| 0 <= i < tail.len() implies (#[trigger] tail[i]).0 != key by {
                assert(tail[i] == pairs[i + 1]);
            }
        }
    }
}

/// A frame is answered just where it is data and carries an event; the answer is the
/// frame itself with whether its text could be read.
pub proof fn lemma_frames(frame: FrameView)
    ensures
        frame.method == 1 && value_under(frame.headers, "type"@) == Some("event"@) ==> (
        frame_action(frame) matches FrameActionView::Answer { text, response } && text
            == payload_text(frame.payload) && response.headers == frame.headers && response.seq_id
            == frame.seq_id && response.service == frame.service && response.method == frame.method
            && response.log_id == frame.log_id),
        frame.method != 1 || value_under(frame.headers, "type"@) != Some("event"@) ==> frame_action(
            frame,
        ) is Ignore,
        response_frame(frame, true).payload == Some(
            vstd::utf8::encode_utf8(
                text_of_json(Tree::Object(seq![("code"@, Tree::Unsigned(200))])),
            ),
        ),
        response_frame(frame, false).payload == Some(
            vstd::utf8::encode_utf8(
                text_of_json(Tree::Object(seq![("code"@, Tree::Unsigned(500))])),
            ),
        ),
{
}

/// A sign of life goes to the service, as control and not as data.
pub proof fn lemma_signs_of_life(service: i32)
    ensures
        ping_frame(service).service == service,
        ping_frame(service).method == 0,
        ping_frame(service).headers == seq![("type"@, "ping"@)],
        ping_frame(service).payload is None,
{
}

/// The service is the number in the address, and none where it cannot be read.
pub proof fn lemma_services(pairs: Seq<(Seq<char>, Seq<char>)>, n: nat)
    requires
        n <= 2147483647,
    ensures
        value_under(pairs, "service_id"@) == Some(decimal(n)) ==> service_in(Some(pairs)) == n,
        value_under(pairs, "service_id"@) is None ==> service_in(Some(pairs)) == 0,
        service_in(None) == 0,
{
    crate::text_laws::lemma_numbers_are_read_back(n, n);
    assert(signed_decimal(n as int) == decimal(n));
}

/// A socket is where the answer says, and lives as often as it says, else every
/// minute and a half.
pub proof fn lemma_sockets(code: Option<i64>, msg: Option<Seq<char>>, d: WsEndpointData)
    requires
        code is None || code == Some(0i64),
    ensures
        endpoint_of(code, msg, None) is Err,
        d.url is None ==> endpoint_of(code, msg, Some(d)) is Err,
        d.url matches Some(u) ==> (endpoint_of(code, msg, Some(d)) matches Ok(e) && e.url == u@ && (
        d.ping_interval matches Some(p) ==> e.ping_interval_secs == p) && (d.ping_interval is None
            ==> e.ping_interval_secs == 90)),
{
}

/// What a connection does with what happens to it.
pub proof fn lemma_connections(c: Connection, now: u64, error: String)
    ensures
        connection_action(c, ConnectionEvent::PingDue, now) == ActionView::SendPing(
            ping_frame(c.service_id),
        ),
        connection_action(c, ConnectionEvent::PingMessage, now) == ActionView::SendPong,
        connection_action(c, ConnectionEvent::CloseMessage, now) == (ActionView::Finish {
            close: false,
            result: EndView::ConnectedThenDisconnected("server sent close frame"@),
        }),
        connection_action(c, ConnectionEvent::StreamEnded, now) == (ActionView::Finish {
            close: false,
            result: EndView::ConnectedThenDisconnected("websocket stream ended"@),
        }),
        connection_action(c, ConnectionEvent::ReadFailed(error), now) == (ActionView::Finish {
            close: false,
            result: EndView::ConnectedThenDisconnected("websocket error: "@ + error@),
        }),
        connection_action(c, ConnectionEvent::SendFailed(Sending::Ping, error), now) == (
        ActionView::Finish {
            close: false,
            result: EndView::ConnectedThenDisconnected("ping send failed: "@ + error@),
        }),
        connection_action(c, ConnectionEvent::ShutdownRequested, now) == (ActionView::Finish {
            close: true,
            result: EndView::Shutdown,
        }),
        connection_action(c, ConnectionEvent::Garbage, now) is Wait,
        connection_action(c, ConnectionEvent::TextMessage, now) is Wait,
        connection_action(c, ConnectionEvent::PongMessage, now) is Wait,
        connection_after(c, ConnectionEvent::PongMessage, now).last_server_msg_at == now,
        connection_after(c, ConnectionEvent::PingMessage, now).last_server_msg_at == now,
        connection_after(c, ConnectionEvent::TextMessage, now).last_server_msg_at == now,
        connection_after(c, ConnectionEvent::Garbage, now).last_server_msg_at == now,
        connection_after(c, ConnectionEvent::PingDue, now).last_server_msg_at
            == c.last_server_msg_at,
        connection_after(c, ConnectionEvent::SilenceCheckDue, now).last_server_msg_at
            == c.last_server_msg_at,
        connection_after(c, ConnectionEvent::PongMessage, now).service_id == c.service_id,
{
}

/// A server that is silent for three minutes is lost.
pub proof fn lemma_silence(c: Connection, now: u64)
    ensures
        now - c.last_server_msg_at > 180 * 1_000_000_000 ==> connection_action(
            c,
            ConnectionEvent::SilenceCheckDue,
            now,
        ) == (ActionView::Finish {
            close: true,
            result: EndView::ConnectedThenDisconnected("server silence watchdog timeout"@),
        }),
        now - c.last_server_msg_at <= 180 * 1_000_000_000 ==> connection_action(
            c,
            ConnectionEvent::SilenceCheckDue,
            now,
        ) is Wait,
{
}

/// Waits begin with a second, double with every failure to connect and end at a
/// minute; a connection that was made starts them over and is counted.
pub proof fn lemma_waits(r: Reconnects, error: Seq<char>)
    requires
        r.wf(),
        r.reconnect_count < u32::MAX,
    ensures
        wait_after(r, EndView::Disconnected(error)) == r.backoff_secs,
        wait_after(r, EndView::ConnectedThenDisconnected(error)) == 1,
        r.backoff_secs <= 30 ==> reconnects_after(r, EndView::Disconnected(error)).backoff_secs == 2
            * r.backoff_secs,
        r.backoff_secs > 30 ==> reconnects_after(r, EndView::Disconnected(error)).backoff_secs == 60,
        reconnects_after(r, EndView::ConnectedThenDisconnected(error)).backoff_secs == 1,
        reconnects_after(r, EndView::Disconnected(error)).reconnect_count == r.reconnect_count + 1,
        reconnects_after(r, EndView::Disconnected(error)).total_connects == r.total_connects,
        r.total_connects < u32::MAX ==> reconnects_after(
            r,
            EndView::ConnectedThenDisconnected(error),
        ).total_connects == r.total_connects + 1,
        reconnects_after(r, EndView::Shutdown) == r,
{
}

/// A connection that keeps failing is complained of at the fifth time and then at
/// every twentieth.
pub proof fn lemma_complaints(r: Reconnects, error: Seq<char>)
    ensures
        r.reconnect_count == 5 ==> failing_repeatedly(r, EndView::Disconnected(error)),
        r.reconnect_count % 20 == 0 ==> failing_repeatedly(r, EndView::Disconnected(error)),
        r.reconnect_count % 20 != 0 && r.reconnect_count != 5 ==> !failing_repeatedly(
            r,
            EndView::Disconnected(error),
        ),
        !failing_repeatedly(r, EndView::ConnectedThenDisconnected(error)),
{
}

/// A wait ends when its time is over or when the end is asked for.
pub proof fn lemma_waiting(delay_secs: u64, nanos: u64)
    ensures
        nanos >= delay_secs * 1_000_000_000 ==> wait_step_on(
            delay_secs,
            WaitEvent::TimeElapsed,
            nanos,
        ) == WaitStep::Reconnect,
        nanos < delay_secs * 1_000_000_000 ==> wait_step_on(
            delay_secs,
            WaitEvent::TimeElapsed,
            nanos,
        ) == WaitStep::KeepWaiting,
        wait_step_on(delay_secs, WaitEvent::ShutdownRequested, nanos) == WaitStep::Return,
        wait_step_on(delay_secs, WaitEvent::ShutdownSenderDropped, nanos) == WaitStep::KeepWaiting,
{
}

/// What is said of a request that could not be sent.
pub proof fn lemma_requests_that_were_not_sent()
    ensures
        unsent_prefix(FeishuCall::Token) == "feishu token request failed: "@,
        unsent_prefix(FeishuCall::Send) == "feishu send request failed: "@,
        unsent_prefix(FeishuCall::Reply) == "feishu reply request failed: "@,
        unsent_prefix(FeishuCall::UploadImage) == "feishu image upload failed: "@,
        unsent_prefix(FeishuCall::UploadFile) == "feishu file upload failed: "@,
        unsent_prefix(FeishuCall::PatchCard) == "feishu patch request failed: "@,
        unsent_prefix(FeishuCall::CreateCard) == "feishu create card entity request failed: "@,
        unsent_prefix(FeishuCall::UpdateCard) == "feishu update card entity request failed: "@,
        unsent_prefix(FeishuCall::UpdateElement) == "feishu update card element request failed: "@,
        unsent_prefix(FeishuCall::UpdateSettings) == "feishu update card settings request failed: "@,
        unsent_prefix(FeishuCall::Recall) == "feishu recall message request failed: "@,
        unsent_prefix(FeishuCall::AppInfo) == "fetch app info request failed: "@,
        unsent_prefix(FeishuCall::BotInfo) == "fetch bot identity request failed: "@,
        unsent_prefix(FeishuCall::Chat) == "fetch Feishu chat information request failed: "@,
        unsent_prefix(FeishuCall::Reaction) == "add_reaction request failed: "@,
        unsent_prefix(FeishuCall::WsEndpoint) == "ws endpoint request failed: "@,
        unsent_prefix(FeishuCall::DownloadImage) == "feishu message image download failed: "@,
        unsent_prefix(FeishuCall::DownloadFile) == "feishu message file download failed: "@,
{
}

/// What is said of an answer that could not be read.
pub proof fn lemma_answers_that_were_not_read()
    ensures
        unread_prefix(FeishuCall::Token) == "feishu token response parse failed: "@,
        unread_prefix(FeishuCall::Send) == "feishu send response parse failed: "@,
        unread_prefix(FeishuCall::Reply) == "feishu reply response parse failed: "@,
        unread_prefix(FeishuCall::UploadImage) == "feishu image upload response parse failed: "@,
        unread_prefix(FeishuCall::UploadFile) == "feishu file upload response parse failed: "@,
        unread_prefix(FeishuCall::PatchCard) == "feishu patch response parse failed: "@,
        unread_prefix(FeishuCall::CreateCard) == "feishu create card entity response parse failed: "@,
        unread_prefix(FeishuCall::UpdateCard) == "feishu update card entity response parse failed: "@,
        unread_prefix(FeishuCall::UpdateElement) == "feishu update card element response parse failed: "@,
        unread_prefix(FeishuCall::UpdateSettings) == "feishu update card settings response parse failed: "@,
        unread_prefix(FeishuCall::Recall) == "feishu recall message response parse failed: "@,
        unread_prefix(FeishuCall::AppInfo) == "fetch app info response parse failed: "@,
        unread_prefix(FeishuCall::BotInfo) == "fetch bot identity response parse failed: "@,
        unread_prefix(FeishuCall::Chat) == "fetch Feishu chat information response parse failed: "@,
        unread_prefix(FeishuCall::Reaction) == "add_reaction response parse failed: "@,
        unread_prefix(FeishuCall::WsEndpoint) == "ws endpoint parse failed: "@,
        unread_prefix(FeishuCall::DownloadImage) == "feishu message image body read failed: "@,
        unread_prefix(FeishuCall::DownloadFile) == "feishu message file body read failed: "@,
{
}

/// What is said of a request that was refused: which it was, the code and the reason.
pub proof fn lemma_requests_that_were_refused(code: i64, msg: Seq<char>)
    requires
        code != 0,
    ensures
        refusal(FeishuCall::Token, Some(code), Some(msg)) == Some(
            "feishu token error: "@ + "code="@ + signed_decimal(code as int) + ", msg="@ + msg,
        ),
        refusal(FeishuCall::Send, Some(code), Some(msg)) == Some(
            "feishu send error: "@ + "code="@ + signed_decimal(code as int) + ", msg="@ + msg,
        ),
        refusal(FeishuCall::Reply, Some(code), Some(msg)) == Some(
            "feishu reply error: "@ + "code="@ + signed_decimal(code as int) + ", msg="@ + msg,
        ),
        refusal(FeishuCall::UploadImage, Some(code), Some(msg)) == Some(
            "feishu image upload error: "@ + "code="@ + signed_decimal(code as int) + ", msg="@ + msg,
        ),
        refusal(FeishuCall::UploadFile, Some(code), Some(msg)) == Some(
            "feishu file upload error: "@ + "code="@ + signed_decimal(code as int) + ", msg="@ + msg,
        ),
        refusal(FeishuCall::PatchCard, Some(code), Some(msg)) == Some(
            "feishu patch_card failed: "@ + "code="@ + signed_decimal(code as int) + ", msg="@ + msg,
        ),
        refusal(FeishuCall::CreateCard, Some(code), Some(msg)) == Some(
            "feishu create card entity failed: "@ + "code="@ + signed_decimal(code as int) + ", msg="@ + msg,
        ),
        refusal(FeishuCall::UpdateCard, Some(code), Some(msg)) == Some(
            "feishu update card entity failed: "@ + "code="@ + signed_decimal(code as int) + ", msg="@ + msg,
        ),
        refusal(FeishuCall::UpdateElement, Some(code), Some(msg)) == Some(
            "feishu update card element failed: "@ + "code="@ + signed_decimal(code as int) + ", msg="@ + msg,
        ),
        refusal(FeishuCall::UpdateSettings, Some(code), Some(msg)) == Some(
            "feishu update card settings failed: "@ + "code="@ + signed_decimal(code as int) + ", msg="@ + msg,
        ),
        refusal(FeishuCall::Recall, Some(code), Some(msg)) == Some(
            "feishu recall message failed: "@ + "code="@ + signed_decimal(code as int) + ", msg="@ + msg,
        ),
        refusal(FeishuCall::AppInfo, Some(code), Some(msg)) == Some(
            "fetch app info error: "@ + "code="@ + signed_decimal(code as int) + ", msg="@ + msg,
        ),
        refusal(FeishuCall::BotInfo, Some(code), Some(msg)) == Some(
            "fetch bot identity failed: "@ + "code="@ + signed_decimal(code as int) + ", msg="@ + msg,
        ),
        refusal(FeishuCall::Chat, Some(code), Some(msg)) == Some(
            "fetch Feishu chat information failed: "@ + "code="@ + signed_decimal(code as int) + ", msg="@ + msg,
        ),
        refusal(FeishuCall::Reaction, Some(code), Some(msg)) == Some(
            "add_reaction error: "@ + "code="@ + signed_decimal(code as int) + ", msg="@ + msg,
        ),
        refusal(FeishuCall::WsEndpoint, Some(code), Some(msg)) == Some(
            "ws endpoint error: "@ + "code="@ + signed_decimal(code as int) + ", msg="@ + msg,
        ),
        refusal(FeishuCall::DownloadImage, Some(code), Some(msg)) == Some(
            "feishu message image download error: "@ + "code="@ + signed_decimal(code as int) + ", msg="@ + msg,
        ),
        refusal(FeishuCall::DownloadFile, Some(code), Some(msg)) == Some(
            "feishu message file download error: "@ + "code="@ + signed_decimal(code as int) + ", msg="@ + msg,
        ),
{
}

/// What is said of an answer that lacks what was asked for.
pub proof fn lemma_answers_that_lack_something(msg: Option<Seq<char>>)
    ensures
        answered_value(WantedValue::ImageKey, None, msg, None) == Err::<Seq<char>, Seq<char>>(
            "feishu image upload response missing image_key"@,
        ),
        answered_value(WantedValue::FileKey, None, msg, None) == Err::<Seq<char>, Seq<char>>(
            "feishu file upload response missing file_key"@,
        ),
        answered_value(WantedValue::CardId, None, msg, None) == Err::<Seq<char>, Seq<char>>(
            "feishu create card entity response missing card_id"@,
        ),
        answered_value(WantedValue::OwnerId, None, msg, None) == Err::<Seq<char>, Seq<char>>(
            "app info response missing owner.open_id"@,
        ),
        answered_value(WantedValue::ImageKey, Some(1), msg, None) == Err::<Seq<char>, Seq<char>>(
            refusal(FeishuCall::UploadImage, Some(1), msg)->Some_0,
        ),
        answered_value(WantedValue::FileKey, Some(1), msg, None) == Err::<Seq<char>, Seq<char>>(
            refusal(FeishuCall::UploadFile, Some(1), msg)->Some_0,
        ),
        answered_value(WantedValue::CardId, Some(1), msg, None) == Err::<Seq<char>, Seq<char>>(
            refusal(FeishuCall::CreateCard, Some(1), msg)->Some_0,
        ),
        answered_value(WantedValue::OwnerId, Some(1), msg, None) == Err::<Seq<char>, Seq<char>>(
            refusal(FeishuCall::AppInfo, Some(1), msg)->Some_0,
        ),
{
}

/// A card is sent as its text, without its title band.
pub proof fn lemma_cards_are_sent_as_text(card: Tree)
    ensures
        says(card_payload(card), "type"@, "card_json"@),
        says(card_payload(card), "data"@, text_of_json(headless(card))),
{
    reveal_strlit("type");
    reveal_strlit("data");
    assert("type"@[0] == 't' && "data"@[0] == 'd');
    reveal_with_fuel(find_member, 3);
}

/// What is said of a token that was refused or is missing.
pub proof fn lemma_tokens_that_were_not_given(
    code: i64,
    msg: Option<Seq<char>>,
    status: Seq<char>,
    token: Option<Seq<char>>,
    expire: Option<u64>,
)
    ensures
        code != 0 ==> answered_token(Some(code), msg, status, token, expire) == Err::<
            (Seq<char>, u64),
            Seq<char>,
        >(refusal(FeishuCall::Token, Some(code), msg)->Some_0 + ", status="@ + status),
        answered_token(None, msg, status, None, expire) == Err::<(Seq<char>, u64), Seq<char>>(
            "feishu token response missing tenant_access_token"@,
        ),
        answered_token(Some(0), msg, status, None, expire) == Err::<(Seq<char>, u64), Seq<char>>(
            "feishu token response missing tenant_access_token"@,
        ),
{
}

/// What is said of answers about chats and bots that lack something, and of those that
/// refuse.
pub proof fn lemma_answers_about_chats_and_bots(value: Tree, bot: Tree, n: u64, m: Seq<char>)
    ensures
        member(value, "code"@) is None && member_of(member(value, "data"@), "name"@) is None
            ==> chat_name(value) == Err::<Seq<char>, Seq<char>>(
            "fetch Feishu chat information response missing data.name"@,
        ),
        member(value, "code"@) is None && member(value, "bot"@) is None && member_of(
            member(value, "data"@),
            "bot"@,
        ) is None ==> (bot_identity(value) matches Err(e) && e
            == "bot identity response missing bot"@),
        member(value, "code"@) is None && member(value, "bot"@) == Some(bot) && member(
            bot,
            "open_id"@,
        ) is None ==> (bot_identity(value) matches Err(e) && e
            == "bot identity response missing bot.open_id"@),
        member(value, "code"@) == Some(Tree::Unsigned(n)) && 0 < n <= i64::MAX && says(
            value,
            "msg"@,
            m,
        ) ==> chat_name(value) == Err::<Seq<char>, Seq<char>>(
            refusal(FeishuCall::Chat, Some(n as i64), Some(m))->Some_0,
        ) && (bot_identity(value) matches Err(e) && e == refusal(
            FeishuCall::BotInfo,
            Some(n as i64),
            Some(m),
        )->Some_0),
{
}

/// What is said of an answer without a place to connect to.
pub proof fn lemma_sockets_without_places(msg: Option<Seq<char>>, d: WsEndpointData, code: i64)
    ensures
        endpoint_of(None, msg, None) matches Err(e) && e == "ws endpoint response missing data"@,
        d.url is None ==> (endpoint_of(Some(0), msg, Some(d)) matches Err(e) && e
            == "ws endpoint response missing URL"@),
        code != 0 ==> (endpoint_of(Some(code), msg, Some(d)) matches Err(e) && e == refusal(
            FeishuCall::WsEndpoint,
            Some(code),
            msg,
        )->Some_0),
{
}

/// What is said of a message that could not be sent over a connection.
pub proof fn lemma_words_of_failed_messages()
    ensures
        sending_prefix(Sending::Ping) == "ping send failed: "@,
        sending_prefix(Sending::Response) == "response send failed: "@,
        sending_prefix(Sending::Pong) == "pong send failed: "@,
{
}

/// The text of a card is an element of its own name.
pub proof fn lemma_names_of_texts(markdown: Seq<char>)
    ensures
        member_of(member(markdown_card(markdown), "body"@), "elements"@) matches Some(
            Tree::List(elements),
        ) && says(elements[0], "element_id"@, "bifrost_text_message"@),
{
    reveal_strlit("schema");
    reveal_strlit("config");
    reveal_strlit("body");
    reveal_strlit("tag");
    reveal_strlit("content");
    reveal_strlit("element_id");
    assert("schema"@.len() == 6 && "config"@.len() == 6 && "body"@.len() == 4 && "tag"@.len() == 3
        && "content"@.len() == 7 && "element_id"@.len() == 10);
    reveal_with_fuel(find_member, 4);
    let card = markdown_card(markdown);
    assert(member(card, "body"@) is Some);
}

/// The text of a payload is what was written as its bytes; other bytes are no text.
pub proof fn lemma_texts_of_payloads(bytes: Seq<u8>, text: Seq<char>)
    ensures
        payload_text(None) is None,
        payload_text(Some(vstd::utf8::encode_utf8(text))) == Some(text),
        payload_text(Some(bytes)) matches Some(t) ==> vstd::utf8::encode_utf8(t) == bytes,
        payload_text(Some(bytes)) is None ==> !vstd::utf8::valid_utf8(bytes),
{
    vstd::utf8::encode_utf8_valid_utf8(text);
    vstd::utf8::encode_utf8_decode_utf8(text);
    if vstd::utf8::valid_utf8(bytes) {
        vstd::utf8::decode_utf8_encode_utf8(bytes);
    }
}

} // verus!
