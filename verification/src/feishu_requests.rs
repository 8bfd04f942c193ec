//! The calls of the Feishu API: what is sent, and what an answer means.

use vstd::prelude::*;
use vstd::string::*;

use crate::agent_config::{clean_optional_string, cleaned};
use crate::feishu_api::{
    api_url, card_content, endpoint_url, headless, text_or_empty, FeishuBotIdentity,
    FeishuEndpoint, IdentityView, DEFAULT_TOKEN_LIFETIME_SECS,
};
use crate::feishu_tokens::token_lifetime;
use crate::json::{
    first_of, json_member, json_object, json_text, json_to_text, member, member_of, members,
    opt_str, opt_tree, text_of_json, tree_i64, tree_text, Json, Tree,
};
use crate::models::text_result;
use crate::text::{concat2, opt, owned, signed_decimal, signed_decimal_text};

verus! {

broadcast use vstd::string::group_string_axioms;

// ---------------------------------------------------------------------------
// What is sent
// ---------------------------------------------------------------------------

#[derive(Debug, Clone, Copy, PartialEq, Eq, Structural)]
pub enum HttpMethod {
    Get,
    Post,
    Put,
    Patch,
    Delete,
}

/// A request: where it goes, and the JSON value that it carries.
#[derive(Debug, PartialEq, Eq)]
pub struct ApiRequest {
    pub method: HttpMethod,
    pub url: String,
    pub body: Option<Json>,
}

#[verifier::ext_equal]
pub struct RequestView {
    pub method: HttpMethod,
    pub url: Seq<char>,
    pub body: Option<Tree>,
}

impl View for ApiRequest {
    type V = RequestView;

    open spec fn view(&self) -> RequestView {
        RequestView {
            method: self.method,
            url: self.url@,
            body: match self.body {
                Some(b) => Some(b@),
                None => None,
            },
        }
    }
}

fn object1(k: &str, v: Json) -> (r: Json)
    ensures
        r@ == Tree::Object(seq![(k@, v@)]),
{
    let list = vec![json_member(k, v)];
    proof {
        assert(members(list@) =~= seq![(k@, v@)]);
    }
    json_object(list)
}

fn object2(k: &str, v: Json, l: &str, w: Json) -> (r: Json)
    ensures
        r@ == Tree::Object(seq![(k@, v@), (l@, w@)]),
{
    let list = vec![json_member(k, v), json_member(l, w)];
    proof {
        assert(members(list@) =~= seq![(k@, v@), (l@, w@)]);
    }
    json_object(list)
}

fn object3(k: &str, v: Json, l: &str, w: Json, m: &str, x: Json) -> (r: Json)
    ensures
        r@ == Tree::Object(seq![(k@, v@), (l@, w@), (m@, x@)]),
{
    let list = vec![json_member(k, v), json_member(l, w), json_member(m, x)];
    proof {
        assert(members(list@) =~= seq![(k@, v@), (l@, w@), (m@, x@)]);
    }
    json_object(list)
}

/// Some members, and a text behind them where there is one.
pub open spec fn with_uuid(list: Seq<(Seq<char>, Tree)>, uuid: Option<Seq<char>>) -> Tree {
    match uuid {
        Some(u) => Tree::Object(list.push(("uuid"@, Tree::Text(u)))),
        None => Tree::Object(list),
    }
}

fn object_with_uuid(list: Vec<(String, Json)>, uuid: Option<&str>) -> (r: Json)
    ensures
        r@ == with_uuid(members(list@), opt_str(uuid)),
{
    match uuid {
        Some(u) => {
            let mut more = list;
            more.push(json_member("uuid", json_text(u)));
            proof {
                assert(members(more@) =~= members(list@).push(("uuid"@, Tree::Text(u@))));
            }
            json_object(more)
        },
        None => json_object(list),
    }
}

fn request(method: HttpMethod, base: &str, endpoint: &FeishuEndpoint, body: Option<Json>) -> (r:
    ApiRequest)
    ensures
        r@ == (RequestView {
            method,
            url: endpoint_url(base@, *endpoint),
            body: match body {
                Some(b) => Some(b@),
                None => None,
            },
        }),
{
    ApiRequest { method, url: api_url(base, endpoint), body }
}

/// Asks for a token.
pub fn token_request(base: &str, app_id: &str, app_secret: &str) -> (r: ApiRequest)
    ensures
        r@ == (RequestView {
            method: HttpMethod::Post,
            url: base@ + "/auth/v3/tenant_access_token/internal"@,
            body: Some(
                Tree::Object(
                    seq![
                        ("app_id"@, Tree::Text(app_id@)),
                        ("app_secret"@, Tree::Text(app_secret@)),
                    ],
                ),
            ),
        }),
{
    let body = object2("app_id", json_text(app_id), "app_secret", json_text(app_secret));
    request(HttpMethod::Post, base, &FeishuEndpoint::Token, Some(body))
}

/// Sends a message to a user or a chat.
pub fn send_message_request(base: &str, receive_id_type: &str, receive_id: &str, msg_type: &str, content: &str, uuid: Option<&str>) -> (r: ApiRequest)
    ensures
        r@ == (RequestView {
            method: HttpMethod::Post,
            url: base@ + "/im/v1/messages?receive_id_type="@ + receive_id_type@,
            body: Some(
                with_uuid(
                    seq![
                        ("receive_id"@, Tree::Text(receive_id@)),
                        ("msg_type"@, Tree::Text(msg_type@)),
                        ("content"@, Tree::Text(content@)),
                    ],
                    opt_str(uuid),
                ),
            ),
        }),
{
    let list = vec![
        json_member("receive_id", json_text(receive_id)),
        json_member("msg_type", json_text(msg_type)),
        json_member("content", json_text(content)),
    ];
    proof {
        assert(members(list@) =~= seq![
            ("receive_id"@, Tree::Text(receive_id@)),
            ("msg_type"@, Tree::Text(msg_type@)),
            ("content"@, Tree::Text(content@)),
        ]);
    }
    let body = object_with_uuid(list, uuid);
    request(HttpMethod::Post, base, &FeishuEndpoint::Messages { receive_id_type: owned(receive_id_type) }, Some(body))
}

/// Replies to a message.
pub fn reply_message_request(base: &str, message_id: &str, msg_type: &str, content: &str, uuid: Option<&str>) -> (r: ApiRequest)
    ensures
        r@ == (RequestView {
            method: HttpMethod::Post,
            url: base@ + "/im/v1/messages/"@ + message_id@ + "/reply"@,
            body: Some(
                with_uuid(
                    seq![
                        ("msg_type"@, Tree::Text(msg_type@)),
                        ("content"@, Tree::Text(content@)),
                    ],
                    opt_str(uuid),
                ),
            ),
        }),
{
    let list = vec![
        json_member("msg_type", json_text(msg_type)),
        json_member("content", json_text(content)),
    ];
    proof {
        assert(members(list@) =~= seq![
            ("msg_type"@, Tree::Text(msg_type@)),
            ("content"@, Tree::Text(content@)),
        ]);
    }
    let body = object_with_uuid(list, uuid);
    request(HttpMethod::Post, base, &FeishuEndpoint::Reply { message_id: owned(message_id) }, Some(body))
}

/// Replaces the card of a message. The title band of the card is left out.
pub fn patch_card_request(base: &str, message_id: &str, card: &Json) -> (r: ApiRequest)
    ensures
        r@ == (RequestView {
            method: HttpMethod::Patch,
            url: base@ + "/im/v1/messages/"@ + message_id@,
            body: Some(
                Tree::Object(
                    seq![
                        ("msg_type"@, Tree::Text("interactive"@)),
                        ("content"@, Tree::Text(text_of_json(headless(card@)))),
                    ],
                ),
            ),
        }),
{
    let content = card_content(card);
    let body = object2(
        "msg_type",
        json_text("interactive"),
        "content",
        json_text(content.as_str()),
    );
    request(HttpMethod::Patch, base, &FeishuEndpoint::Message { message_id: owned(message_id) }, Some(body))
}

/// The card as it is stored: its compact text, without its title band.
pub open spec fn card_payload(card: Tree) -> Tree {
    Tree::Object(
        seq![
            ("type"@, Tree::Text("card_json"@)),
            ("data"@, Tree::Text(text_of_json(headless(card)))),
        ],
    )
}

fn build_card_payload(card: &Json) -> (r: Json)
    ensures
        r@ == card_payload(card@),
{
    let data = card_content(card);
    object2("type", json_text("card_json"), "data", json_text(data.as_str()))
}

/// Makes a card that messages can show. The title band of the card is left out.
pub fn create_card_request(base: &str, card: &Json) -> (r: ApiRequest)
    ensures
        r@ == (RequestView {
            method: HttpMethod::Post,
            url: base@ + "/cardkit/v1/cards"@,
            body: Some(card_payload(card@)),
        }),
{
    let body = build_card_payload(card);
    request(HttpMethod::Post, base, &FeishuEndpoint::Cards, Some(body))
}

/// Replaces a card that messages show. The title band of the card is left out.
pub fn update_card_request(base: &str, card_id: &str, card: &Json, sequence: u64, uuid: &str) -> (r: ApiRequest)
    ensures
        r@ == (RequestView {
            method: HttpMethod::Put,
            url: base@ + "/cardkit/v1/cards/"@ + card_id@,
            body: Some(
                Tree::Object(
                    seq![
                        ("card"@, card_payload(card@)),
                        ("sequence"@, Tree::Unsigned(sequence)),
                        ("uuid"@, Tree::Text(uuid@)),
                    ],
                ),
            ),
        }),
{
    let body = object3(
        "card",
        build_card_payload(card),
        "sequence",
        Json::Unsigned(sequence),
        "uuid",
        json_text(uuid),
    );
    request(HttpMethod::Put, base, &FeishuEndpoint::Card { card_id: owned(card_id) }, Some(body))
}

/// Replaces the text of an element of a card.
pub fn update_card_content_request(base: &str, card_id: &str, element_id: &str, content: &str, sequence: u64, uuid: &str) -> (r: ApiRequest)
    ensures
        r@ == (RequestView {
            method: HttpMethod::Put,
            url: base@ + "/cardkit/v1/cards/"@ + card_id@ + "/elements/"@ + element_id@
                + "/content"@,
            body: Some(
                Tree::Object(
                    seq![
                        ("content"@, Tree::Text(content@)),
                        ("sequence"@, Tree::Unsigned(sequence)),
                        ("uuid"@, Tree::Text(uuid@)),
                    ],
                ),
            ),
        }),
{
    let body = object3(
        "content",
        json_text(content),
        "sequence",
        Json::Unsigned(sequence),
        "uuid",
        json_text(uuid),
    );
    request(HttpMethod::Put, base, &FeishuEndpoint::CardElementContent { card_id: owned(card_id), element_id: owned(element_id) }, Some(body))
}

/// Replaces an element of a card.
pub fn update_card_element_request(base: &str, card_id: &str, element_id: &str, element: &Json, sequence: u64, uuid: &str) -> (r: ApiRequest)
    ensures
        r@ == (RequestView {
            method: HttpMethod::Put,
            url: base@ + "/cardkit/v1/cards/"@ + card_id@ + "/elements/"@ + element_id@,
            body: Some(
                Tree::Object(
                    seq![
                        ("element"@, Tree::Text(text_of_json(element@))),
                        ("sequence"@, Tree::Unsigned(sequence)),
                        ("uuid"@, Tree::Text(uuid@)),
                    ],
                ),
            ),
        }),
{
    let element_text = json_to_text(element);
    let body = object3(
        "element",
        json_text(element_text.as_str()),
        "sequence",
        Json::Unsigned(sequence),
        "uuid",
        json_text(uuid),
    );
    request(HttpMethod::Put, base, &FeishuEndpoint::CardElement { card_id: owned(card_id), element_id: owned(element_id) }, Some(body))
}

/// Changes the settings of a card.
pub fn update_card_settings_request(base: &str, card_id: &str, settings: &Json, sequence: u64, uuid: &str) -> (r: ApiRequest)
    ensures
        r@ == (RequestView {
            method: HttpMethod::Patch,
            url: base@ + "/cardkit/v1/cards/"@ + card_id@ + "/settings"@,
            body: Some(
                Tree::Object(
                    seq![
                        ("settings"@, Tree::Text(text_of_json(settings@))),
                        ("sequence"@, Tree::Unsigned(sequence)),
                        ("uuid"@, Tree::Text(uuid@)),
                    ],
                ),
            ),
        }),
{
    let settings_text = json_to_text(settings);
    let body = object3(
        "settings",
        json_text(settings_text.as_str()),
        "sequence",
        Json::Unsigned(sequence),
        "uuid",
        json_text(uuid),
    );
    request(HttpMethod::Patch, base, &FeishuEndpoint::CardSettings { card_id: owned(card_id) }, Some(body))
}

/// Takes a message back.
pub fn recall_message_request(base: &str, message_id: &str) -> (r: ApiRequest)
    ensures
        r@ == (RequestView {
            method: HttpMethod::Delete,
            url: base@ + "/im/v1/messages/"@ + message_id@,
            body: None,
        }),
{
    request(HttpMethod::Delete, base, &FeishuEndpoint::Message { message_id: owned(message_id) }, None)
}

/// Asks for an application, whose owner is wanted.
pub fn application_request(base: &str, app_id: &str) -> (r: ApiRequest)
    ensures
        r@ == (RequestView {
            method: HttpMethod::Get,
            url: base@ + "/application/v6/applications/"@ + app_id@
                + "?user_id_type=open_id&lang=zh_cn"@,
            body: None,
        }),
{
    request(HttpMethod::Get, base, &FeishuEndpoint::Application { app_id: owned(app_id) }, None)
}

/// Asks who the bot is.
pub fn bot_info_request(base: &str) -> (r: ApiRequest)
    ensures
        r@ == (RequestView {
            method: HttpMethod::Get,
            url: base@ + "/bot/v3/info"@,
            body: None,
        }),
{
    request(HttpMethod::Get, base, &FeishuEndpoint::BotInfo, None)
}

/// Asks for a chat, whose name is wanted.
pub fn chat_request(base: &str, chat_id: &str) -> (r: ApiRequest)
    ensures
        r@ == (RequestView {
            method: HttpMethod::Get,
            url: base@ + "/im/v1/chats/"@ + crate::text::trimmed(chat_id@) + "?user_id_type=open_id"@,
            body: None,
        }),
{
    request(HttpMethod::Get, base, &FeishuEndpoint::Chat { chat_id: owned(chat_id) }, None)
}

/// Reacts to a message with an emoji.
pub fn reaction_request(base: &str, message_id: &str, emoji_type: &str) -> (r: ApiRequest)
    ensures
        r@ == (RequestView {
            method: HttpMethod::Post,
            url: base@ + "/im/v1/messages/"@ + message_id@ + "/reactions"@,
            body: Some(
                Tree::Object(
                    seq![
                        (
                            "reaction_type"@,
                            Tree::Object(seq![("emoji_type"@, Tree::Text(emoji_type@))]),
                        ),
                    ],
                ),
            ),
        }),
{
    let body = object1("reaction_type", object1("emoji_type", json_text(emoji_type)));
    request(HttpMethod::Post, base, &FeishuEndpoint::Reactions { message_id: owned(message_id) }, Some(body))
}

/// Asks where the long connection goes.
pub fn ws_endpoint_request(domain: &str, app_id: &str, app_secret: &str) -> (r: ApiRequest)
    ensures
        r@ == (RequestView {
            method: HttpMethod::Post,
            url: domain@ + "/callback/ws/endpoint"@,
            body: Some(
                Tree::Object(
                    seq![
                        ("AppID"@, Tree::Text(app_id@)),
                        ("AppSecret"@, Tree::Text(app_secret@)),
                    ],
                ),
            ),
        }),
{
    ApiRequest {
        method: HttpMethod::Post,
        url: crate::feishu_api::ws_endpoint_url(domain),
        body: Some(object2("AppID", json_text(app_id), "AppSecret", json_text(app_secret))),
    }
}

// ---------------------------------------------------------------------------
// What an answer means
// ---------------------------------------------------------------------------

/// What the API is called for.
#[derive(Debug, Clone, Copy, PartialEq, Eq, Structural)]
pub enum FeishuCall {
    Token,
    Send,
    Reply,
    UploadImage,
    UploadFile,
    PatchCard,
    CreateCard,
    UpdateCard,
    UpdateElement,
    UpdateSettings,
    Recall,
    AppInfo,
    BotInfo,
    Chat,
    Reaction,
    WsEndpoint,
    DownloadImage,
    DownloadFile,
}

/// What the error begins with where a request did not go through.
pub open spec fn unsent_prefix(call: FeishuCall) -> Seq<char> {
    match call {
        FeishuCall::Token => "feishu token request failed: "@,
        FeishuCall::Send => "feishu send request failed: "@,
        FeishuCall::Reply => "feishu reply request failed: "@,
        FeishuCall::UploadImage => "feishu image upload failed: "@,
        FeishuCall::UploadFile => "feishu file upload failed: "@,
        FeishuCall::PatchCard => "feishu patch request failed: "@,
        FeishuCall::CreateCard => "feishu create card entity request failed: "@,
        FeishuCall::UpdateCard => "feishu update card entity request failed: "@,
        FeishuCall::UpdateElement => "feishu update card element request failed: "@,
        FeishuCall::UpdateSettings => "feishu update card settings request failed: "@,
        FeishuCall::Recall => "feishu recall message request failed: "@,
        FeishuCall::AppInfo => "fetch app info request failed: "@,
        FeishuCall::BotInfo => "fetch bot identity request failed: "@,
        FeishuCall::Chat => "fetch Feishu chat information request failed: "@,
        FeishuCall::Reaction => "add_reaction request failed: "@,
        FeishuCall::WsEndpoint => "ws endpoint request failed: "@,
        FeishuCall::DownloadImage => "feishu message image download failed: "@,
        FeishuCall::DownloadFile => "feishu message file download failed: "@,
    }
}

fn unsent_text(call: FeishuCall) -> (r: &'static str)
    ensures
        r@ == unsent_prefix(call),
{
    match call {
        FeishuCall::Token => "feishu token request failed: ",
        FeishuCall::Send => "feishu send request failed: ",
        FeishuCall::Reply => "feishu reply request failed: ",
        FeishuCall::UploadImage => "feishu image upload failed: ",
        FeishuCall::UploadFile => "feishu file upload failed: ",
        FeishuCall::PatchCard => "feishu patch request failed: ",
        FeishuCall::CreateCard => "feishu create card entity request failed: ",
        FeishuCall::UpdateCard => "feishu update card entity request failed: ",
        FeishuCall::UpdateElement => "feishu update card element request failed: ",
        FeishuCall::UpdateSettings => "feishu update card settings request failed: ",
        FeishuCall::Recall => "feishu recall message request failed: ",
        FeishuCall::AppInfo => "fetch app info request failed: ",
        FeishuCall::BotInfo => "fetch bot identity request failed: ",
        FeishuCall::Chat => "fetch Feishu chat information request failed: ",
        FeishuCall::Reaction => "add_reaction request failed: ",
        FeishuCall::WsEndpoint => "ws endpoint request failed: ",
        FeishuCall::DownloadImage => "feishu message image download failed: ",
        FeishuCall::DownloadFile => "feishu message file download failed: ",
    }
}

/// What the error begins with where an answer cannot be read.
pub open spec fn unread_prefix(call: FeishuCall) -> Seq<char> {
    match call {
        FeishuCall::Token => "feishu token response parse failed: "@,
        FeishuCall::Send => "feishu send response parse failed: "@,
        FeishuCall::Reply => "feishu reply response parse failed: "@,
        FeishuCall::UploadImage => "feishu image upload response parse failed: "@,
        FeishuCall::UploadFile => "feishu file upload response parse failed: "@,
        FeishuCall::PatchCard => "feishu patch response parse failed: "@,
        FeishuCall::CreateCard => "feishu create card entity response parse failed: "@,
        FeishuCall::UpdateCard => "feishu update card entity response parse failed: "@,
        FeishuCall::UpdateElement => "feishu update card element response parse failed: "@,
        FeishuCall::UpdateSettings => "feishu update card settings response parse failed: "@,
        FeishuCall::Recall => "feishu recall message response parse failed: "@,
        FeishuCall::AppInfo => "fetch app info response parse failed: "@,
        FeishuCall::BotInfo => "fetch bot identity response parse failed: "@,
        FeishuCall::Chat => "fetch Feishu chat information response parse failed: "@,
        FeishuCall::Reaction => "add_reaction response parse failed: "@,
        FeishuCall::WsEndpoint => "ws endpoint parse failed: "@,
        FeishuCall::DownloadImage => "feishu message image body read failed: "@,
        FeishuCall::DownloadFile => "feishu message file body read failed: "@,
    }
}

fn unread_text(call: FeishuCall) -> (r: &'static str)
    ensures
        r@ == unread_prefix(call),
{
    match call {
        FeishuCall::Token => "feishu token response parse failed: ",
        FeishuCall::Send => "feishu send response parse failed: ",
        FeishuCall::Reply => "feishu reply response parse failed: ",
        FeishuCall::UploadImage => "feishu image upload response parse failed: ",
        FeishuCall::UploadFile => "feishu file upload response parse failed: ",
        FeishuCall::PatchCard => "feishu patch response parse failed: ",
        FeishuCall::CreateCard => "feishu create card entity response parse failed: ",
        FeishuCall::UpdateCard => "feishu update card entity response parse failed: ",
        FeishuCall::UpdateElement => "feishu update card element response parse failed: ",
        FeishuCall::UpdateSettings => "feishu update card settings response parse failed: ",
        FeishuCall::Recall => "feishu recall message response parse failed: ",
        FeishuCall::AppInfo => "fetch app info response parse failed: ",
        FeishuCall::BotInfo => "fetch bot identity response parse failed: ",
        FeishuCall::Chat => "fetch Feishu chat information response parse failed: ",
        FeishuCall::Reaction => "add_reaction response parse failed: ",
        FeishuCall::WsEndpoint => "ws endpoint parse failed: ",
        FeishuCall::DownloadImage => "feishu message image body read failed: ",
        FeishuCall::DownloadFile => "feishu message file body read failed: ",
    }
}

/// What the error begins with where the API refuses a call.
pub open spec fn refused_prefix(call: FeishuCall) -> Seq<char> {
    match call {
        FeishuCall::Token => "feishu token error: "@,
        FeishuCall::Send => "feishu send error: "@,
        FeishuCall::Reply => "feishu reply error: "@,
        FeishuCall::UploadImage => "feishu image upload error: "@,
        FeishuCall::UploadFile => "feishu file upload error: "@,
        FeishuCall::PatchCard => "feishu patch_card failed: "@,
        FeishuCall::CreateCard => "feishu create card entity failed: "@,
        FeishuCall::UpdateCard => "feishu update card entity failed: "@,
        FeishuCall::UpdateElement => "feishu update card element failed: "@,
        FeishuCall::UpdateSettings => "feishu update card settings failed: "@,
        FeishuCall::Recall => "feishu recall message failed: "@,
        FeishuCall::AppInfo => "fetch app info error: "@,
        FeishuCall::BotInfo => "fetch bot identity failed: "@,
        FeishuCall::Chat => "fetch Feishu chat information failed: "@,
        FeishuCall::Reaction => "add_reaction error: "@,
        FeishuCall::WsEndpoint => "ws endpoint error: "@,
        FeishuCall::DownloadImage => "feishu message image download error: "@,
        FeishuCall::DownloadFile => "feishu message file download error: "@,
    }
}

fn refused_text(call: FeishuCall) -> (r: &'static str)
    ensures
        r@ == refused_prefix(call),
{
    match call {
        FeishuCall::Token => "feishu token error: ",
        FeishuCall::Send => "feishu send error: ",
        FeishuCall::Reply => "feishu reply error: ",
        FeishuCall::UploadImage => "feishu image upload error: ",
        FeishuCall::UploadFile => "feishu file upload error: ",
        FeishuCall::PatchCard => "feishu patch_card failed: ",
        FeishuCall::CreateCard => "feishu create card entity failed: ",
        FeishuCall::UpdateCard => "feishu update card entity failed: ",
        FeishuCall::UpdateElement => "feishu update card element failed: ",
        FeishuCall::UpdateSettings => "feishu update card settings failed: ",
        FeishuCall::Recall => "feishu recall message failed: ",
        FeishuCall::AppInfo => "fetch app info error: ",
        FeishuCall::BotInfo => "fetch bot identity failed: ",
        FeishuCall::Chat => "fetch Feishu chat information failed: ",
        FeishuCall::Reaction => "add_reaction error: ",
        FeishuCall::WsEndpoint => "ws endpoint error: ",
        FeishuCall::DownloadImage => "feishu message image download error: ",
        FeishuCall::DownloadFile => "feishu message file download error: ",
    }
}

/// The error of a request that did not go through.
pub fn request_error(call: FeishuCall, error: &str) -> (r: String)
    ensures
        r@ == unsent_prefix(call) + error@,
{
    concat2(unsent_text(call), error)
}

/// The error of an answer that cannot be read.
pub fn answer_error(call: FeishuCall, error: &str) -> (r: String)
    ensures
        r@ == unread_prefix(call) + error@,
{
    concat2(unread_text(call), error)
}

/// The error of a call that the API refused: an answer with a code other than 0.
pub open spec fn refusal(call: FeishuCall, code: Option<i64>, msg: Option<Seq<char>>) -> Option<
    Seq<char>,
> {
    match code {
        Some(c) if c != 0 => Some(
            refused_prefix(call) + "code="@ + signed_decimal(c as int) + ", msg="@ + text_or_empty(
                msg,
            ),
        ),
        _ => None,
    }
}

fn refuse(call: FeishuCall, code: Option<i64>, msg: Option<&str>) -> (r: Option<String>)
    ensures
        opt(r) == refusal(call, code, opt_str(msg)),
{
    match code {
        Some(c) if c != 0 => {
            let mut out = owned(refused_text(call));
            out.append("code=");
            out.append(signed_decimal_text(c).as_str());
            out.append(", msg=");
            match msg {
                Some(m) => {
                    out.append(m);
                },
                None => {
                    proof {
                        assert(out@ + Seq::<char>::empty() =~= out@);
                    }
                },
            }
            Some(out)
        },
        _ => None,
    }
}

/// Whether a call went well, by its answer.
pub fn check_reply(call: FeishuCall, code: Option<i64>, msg: Option<&str>) -> (r: Result<
    (),
    String,
>)
    ensures
        crate::models::fault_of(r) == refusal(call, code, opt_str(msg)),
{
    match refuse(call, code, msg) {
        Some(error) => Err(error),
        None => Ok(()),
    }
}

/// A value that a call is made for.
#[derive(Debug, Clone, Copy, PartialEq, Eq, Structural)]
pub enum WantedValue {
    ImageKey,
    FileKey,
    CardId,
    OwnerId,
}

pub open spec fn call_for(wanted: WantedValue) -> FeishuCall {
    match wanted {
        WantedValue::ImageKey => FeishuCall::UploadImage,
        WantedValue::FileKey => FeishuCall::UploadFile,
        WantedValue::CardId => FeishuCall::CreateCard,
        WantedValue::OwnerId => FeishuCall::AppInfo,
    }
}

/// What is said where an answer lacks the value.
pub open spec fn missing_text(wanted: WantedValue) -> Seq<char> {
    match wanted {
        WantedValue::ImageKey => "feishu image upload response missing image_key"@,
        WantedValue::FileKey => "feishu file upload response missing file_key"@,
        WantedValue::CardId => "feishu create card entity response missing card_id"@,
        WantedValue::OwnerId => "app info response missing owner.open_id"@,
    }
}

/// The value of an answer: an error where the call was refused or the value is
/// missing.
pub open spec fn answered_value(
    wanted: WantedValue,
    code: Option<i64>,
    msg: Option<Seq<char>>,
    value: Option<Seq<char>>,
) -> Result<Seq<char>, Seq<char>> {
    match refusal(call_for(wanted), code, msg) {
        Some(error) => Err(error),
        None => match value {
            Some(v) => Ok(v),
            None => Err(missing_text(wanted)),
        },
    }
}

pub fn reply_value(
    wanted: WantedValue,
    code: Option<i64>,
    msg: Option<&str>,
    value: Option<String>,
) -> (r: Result<String, String>)
    ensures
        text_result(r) == answered_value(wanted, code, opt_str(msg), opt(value)),
{
    let (call, missing) = match wanted {
        WantedValue::ImageKey => (
            FeishuCall::UploadImage,
            "feishu image upload response missing image_key",
        ),
        WantedValue::FileKey => (
            FeishuCall::UploadFile,
            "feishu file upload response missing file_key",
        ),
        WantedValue::CardId => (
            FeishuCall::CreateCard,
            "feishu create card entity response missing card_id",
        ),
        WantedValue::OwnerId => (FeishuCall::AppInfo, "app info response missing owner.open_id"),
    };
    match refuse(call, code, msg) {
        Some(error) => Err(error),
        None => match value {
            Some(v) => Ok(v),
            None => Err(owned(missing)),
        },
    }
}

/// The answer to a message that was sent.
#[derive(Debug, PartialEq, Eq)]
pub struct SendResult {
    pub message_id: Option<String>,
    pub request_id: Option<String>,
}

/// What became of a message that was sent or replied with.
pub fn send_result(
    call: FeishuCall,
    code: Option<i64>,
    msg: Option<&str>,
    message_id: Option<String>,
    request_id: Option<String>,
) -> (r: Result<SendResult, String>)
    ensures
        match r {
            Ok(sent) => refusal(call, code, opt_str(msg)) is None && opt(sent.message_id) == opt(
                message_id,
            ) && opt(sent.request_id) == opt(request_id),
            Err(error) => refusal(call, code, opt_str(msg)) == Some(error@),
        },
{
    match refuse(call, code, msg) {
        Some(error) => Err(error),
        None => Ok(SendResult { message_id, request_id }),
    }
}

/// The token of an answer and how long it is good for: an error where the call
/// was refused or there is no token.
pub open spec fn answered_token(
    code: Option<i64>,
    msg: Option<Seq<char>>,
    status: Seq<char>,
    token: Option<Seq<char>>,
    expire: Option<u64>,
) -> Result<(Seq<char>, u64), Seq<char>> {
    match refusal(FeishuCall::Token, code, msg) {
        Some(error) => Err(error + ", status="@ + status),
        None => match token {
            Some(t) => Ok(
                (
                    t,
                    match expire {
                        Some(e) => e,
                        None => DEFAULT_TOKEN_LIFETIME_SECS,
                    },
                ),
            ),
            None => Err("feishu token response missing tenant_access_token"@),
        },
    }
}

pub fn token_reply(
    code: Option<i64>,
    msg: Option<&str>,
    status: &str,
    token: Option<String>,
    expire: Option<u64>,
) -> (r: Result<(String, u64), String>)
    ensures
        (match r {
            Ok(t) => Ok((t.0@, t.1)),
            Err(e) => Err(e@),
        }) == answered_token(code, opt_str(msg), status@, opt(token), expire),
{
    match refuse(FeishuCall::Token, code, msg) {
        Some(error) => {
            let mut out = error;
            out.append(", status=");
            out.append(status);
            Err(out)
        },
        None => match token {
            Some(t) => Ok((t, token_lifetime(expire))),
            None => Err(owned("feishu token response missing tenant_access_token")),
        },
    }
}

/// The error of a download that was answered with another status than success.
pub fn download_error(call: FeishuCall, status: &str, body: &str) -> (r: String)
    ensures
        r@ == refused_prefix(call) + "status="@ + status@ + ", body="@ + body@,
{
    let mut out = owned(refused_text(call));
    out.append("status=");
    out.append(status);
    out.append(", body=");
    out.append(body);
    out
}

// ---------------------------------------------------------------------------
// Chats and bots
// ---------------------------------------------------------------------------

/// The code of an answer that is read as a whole.
pub open spec fn answer_code(value: Tree) -> Option<i64> {
    tree_i64(member(value, "code"@))
}

/// The message of an answer that is read as a whole.
pub open spec fn answer_message(value: Tree) -> Option<Seq<char>> {
    tree_text(member(value, "msg"@))
}

fn refuse_answer(call: FeishuCall, value: &Json) -> (r: Option<String>)
    ensures
        opt(r) == refusal(call, answer_code(value@), answer_message(value@)),
{
    let code: Option<i64> = match value.get("code") {
        Some(c) => c.as_i64(),
        None => None,
    };
    let msg = match value.get("msg") {
        Some(m) => m.as_str(),
        None => None,
    };
    refuse(call, code, msg)
}

/// The name of a chat, trimmed: an error where the call was refused or the name is
/// missing or blank.
pub open spec fn chat_name(value: Tree) -> Result<Seq<char>, Seq<char>> {
    match refusal(FeishuCall::Chat, answer_code(value), answer_message(value)) {
        Some(error) => Err(error),
        None => match cleaned(tree_text(member_of(member(value, "data"@), "name"@))) {
            Some(name) => Ok(name),
            None => Err("fetch Feishu chat information response missing data.name"@),
        },
    }
}

pub fn parse_feishu_chat_name(value: &Json) -> (r: Result<String, String>)
    ensures
        text_result(r) == chat_name(value@),
{
    match refuse_answer(FeishuCall::Chat, value) {
        Some(error) => Err(error),
        None => {
            let name = match value.get("data") {
                Some(data) => match data.get("name") {
                    Some(n) => n.as_str(),
                    None => None,
                },
                None => None,
            };
            match clean_optional_string(name) {
                Some(n) => Ok(n),
                None => Err(owned("fetch Feishu chat information response missing data.name")),
            }
        },
    }
}

/// Who the bot is: an error where the call was refused or the bot or its id is
/// missing.
pub open spec fn bot_identity(value: Tree) -> Result<IdentityView, Seq<char>> {
    match refusal(FeishuCall::BotInfo, answer_code(value), answer_message(value)) {
        Some(error) => Err(error),
        None => match first_of(member(value, "bot"@), member_of(member(value, "data"@), "bot"@)) {
            None => Err("bot identity response missing bot"@),
            Some(bot) => match cleaned(tree_text(member(bot, "open_id"@))) {
                None => Err("bot identity response missing bot.open_id"@),
                Some(open_id) => Ok(
                    IdentityView {
                        open_id,
                        name: cleaned(
                            tree_text(first_of(member(bot, "app_name"@), member(bot, "bot_name"@))),
                        ),
                    },
                ),
            },
        },
    }
}

fn text_in<'a>(value: Option<&'a Json>) -> (r: Option<&'a str>)
    ensures
        opt_str(r) == tree_text(opt_tree(value)),
{
    match value {
        Some(v) => v.as_str(),
        None => None,
    }
}

pub fn parse_bot_identity(value: &Json) -> (r: Result<FeishuBotIdentity, String>)
    ensures
        (match r {
            Ok(i) => Ok(i@),
            Err(e) => Err(e@),
        }) == bot_identity(value@),
{
    match refuse_answer(FeishuCall::BotInfo, value) {
        Some(error) => Err(error),
        None => {
            let bot = match value.get("bot") {
                Some(b) => Some(b),
                None => match value.get("data") {
                    Some(data) => data.get("bot"),
                    None => None,
                },
            };
            match bot {
                None => Err(owned("bot identity response missing bot")),
                Some(b) => match clean_optional_string(text_in(b.get("open_id"))) {
                    None => Err(owned("bot identity response missing bot.open_id")),
                    Some(open_id) => {
                        let name = match b.get("app_name") {
                            Some(n) => Some(n),
                            None => b.get("bot_name"),
                        };
                        Ok(FeishuBotIdentity { open_id, name: clean_optional_string(text_in(name)) })
                    },
                },
            }
        },
    }
}

} // verus!
