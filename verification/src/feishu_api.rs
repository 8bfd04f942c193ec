//! The Feishu API: where its calls go, what they carry and what is made of the
//! answers.

use vstd::prelude::*;
use vstd::string::*;

use crate::card_action::{build_card, card_of};
use crate::im_event::ImProviderType;
use crate::json::{
    json_member, json_object, json_text, json_to_text, lemma_object_view, member, members,
    text_of_json, trees, Json, Tree,
};
use crate::paths::{last_name, path_file_name, PathStyle};
use crate::text::{
    blank, chars_of, concat2, concat3, copy_opt, drop_back, has_suffix, lowered, opt, owned, pieces,
    same, split_pieces, strip_suffix, texts, to_lower, trim, trim_end_char, trimmed,
};

verus! {

broadcast use vstd::string::group_string_axioms;

pub const DEFAULT_BASE_URL: &'static str = "https://open.feishu.cn/open-apis";

/// How long before it expires a token is no longer used, in seconds.
pub const TOKEN_REFRESH_AHEAD_SECS: u64 = 300;

/// How long a token is good for where the answer does not say, in seconds.
pub const DEFAULT_TOKEN_LIFETIME_SECS: u64 = 7200;

/// A messenger that the gateway is connected to.
#[derive(Debug, PartialEq, Eq)]
pub struct ImProviderConfig {
    pub id: String,
    pub provider_type: ImProviderType,
    pub display_name: String,
    pub enabled: bool,
    pub base_url: Option<String>,
    pub app_id: Option<String>,
    pub secret_ref: Option<String>,
    pub owner_open_id: Option<String>,
    pub event_connection_enabled: bool,
    pub event_types: Vec<String>,
    pub agent_config: Option<Json>,
    pub created_at: u64,
    pub updated_at: u64,
}

/// The name and the id of the bot of an application.
#[derive(Debug, PartialEq, Eq)]
pub struct FeishuBotIdentity {
    pub open_id: String,
    pub name: Option<String>,
}

#[verifier::ext_equal]
pub struct IdentityView {
    pub open_id: Seq<char>,
    pub name: Option<Seq<char>>,
}

impl View for FeishuBotIdentity {
    type V = IdentityView;

    open spec fn view(&self) -> IdentityView {
        IdentityView { open_id: self.open_id@, name: opt(self.name) }
    }
}

impl FeishuBotIdentity {
    pub fn copy(&self) -> (r: Self)
        ensures
            r@ == self@,
    {
        FeishuBotIdentity { open_id: self.open_id.clone(), name: copy_opt(&self.name) }
    }
}

// ---------------------------------------------------------------------------
// Configuration
// ---------------------------------------------------------------------------

/// The text of an optional text, or an empty one.
pub open spec fn text_or_empty(t: Option<Seq<char>>) -> Seq<char> {
    match t {
        Some(s) => s,
        None => Seq::empty(),
    }
}

/// The address that is configured, or the usual one.
pub open spec fn configured_url(base_url: Option<Seq<char>>) -> Seq<char> {
    match base_url {
        Some(u) => u,
        None => DEFAULT_BASE_URL@,
    }
}

/// The address of the API, without slashes at its end.
pub fn base_url(config: &ImProviderConfig) -> (r: String)
    ensures
        r@ == drop_back(configured_url(opt(config.base_url)), '/'),
{
    match &config.base_url {
        Some(u) => owned(trim_end_char(u.as_str(), '/')),
        None => owned(trim_end_char(DEFAULT_BASE_URL, '/')),
    }
}

/// A text without the suffixes `p` at its end.
pub open spec fn without_suffixes(s: Seq<char>, p: Seq<char>) -> Seq<char>
    decreases s.len(),
{
    if p.len() > 0 && has_suffix(s, p) {
        without_suffixes(s.take(s.len() - p.len()), p)
    } else {
        s
    }
}

fn strip_suffixes(s: &str, p: &str) -> (r: String)
    requires
        p@.len() > 0,
    ensures
        r@ == without_suffixes(s@, p@),
{
    let mut rest = owned(s);
    loop
        invariant
            p@.len() > 0,
            without_suffixes(rest@, p@) == without_suffixes(s@, p@),
        ensures
            rest@ == without_suffixes(s@, p@),
        decreases rest@.len(),
    {
        let shorter = match strip_suffix(rest.as_str(), p) {
            Some(t) => owned(t),
            None => {
                break ;
            },
        };
        rest = shorter;
    }
    rest
}

/// The host of the API, where the long connection is asked for.
pub fn ws_domain(config: &ImProviderConfig) -> (r: String)
    ensures
        r@ == without_suffixes(
            drop_back(configured_url(opt(config.base_url)), '/'),
            "/open-apis"@,
        ),
{
    proof {
        reveal_strlit("/open-apis");
    }
    strip_suffixes(base_url(config).as_str(), "/open-apis")
}

/// Where a long connection is asked for.
pub fn ws_endpoint_url(domain: &str) -> (r: String)
    ensures
        r@ == domain@ + "/callback/ws/endpoint"@,
{
    concat2(domain, "/callback/ws/endpoint")
}

/// Whether an optional text is missing or empty.
pub open spec fn not_given(t: Option<Seq<char>>) -> bool {
    t is None || t->Some_0.len() == 0
}

fn is_not_given(t: &Option<String>) -> (r: bool)
    ensures
        r == not_given(opt(*t)),
{
    match t {
        Some(s) => s.as_str().is_empty(),
        None => true,
    }
}

/// What is wrong with a configuration.
pub open spec fn config_errors(app_id: Option<Seq<char>>, secret_ref: Option<Seq<char>>) -> Seq<
    Seq<char>,
> {
    let first = if not_given(app_id) {
        seq!["app_id is required for feishu provider"@]
    } else {
        Seq::empty()
    };
    if not_given(secret_ref) {
        first.push("secret_ref is required for feishu provider"@)
    } else {
        first
    }
}

/// Whether a configuration can be used, and what is wrong with it.
#[derive(Debug, PartialEq, Eq)]
pub struct ProviderValidation {
    pub valid: bool,
    pub errors: Vec<String>,
}

pub fn validate_config(config: &ImProviderConfig) -> (r: ProviderValidation)
    ensures
        texts(r.errors@) == config_errors(opt(config.app_id), opt(config.secret_ref)),
        r.valid == (!not_given(opt(config.app_id)) && !not_given(opt(config.secret_ref))),
{
    let mut errors: Vec<String> = Vec::new();
    if is_not_given(&config.app_id) {
        errors.push(owned("app_id is required for feishu provider"));
    }
    if is_not_given(&config.secret_ref) {
        errors.push(owned("secret_ref is required for feishu provider"));
    }
    proof {
        assert(texts(errors@) =~= config_errors(opt(config.app_id), opt(config.secret_ref)));
    }
    ProviderValidation { valid: errors.len() == 0, errors }
}

// ---------------------------------------------------------------------------
// Addresses
// ---------------------------------------------------------------------------

/// A call of the API.
#[derive(Debug, PartialEq, Eq)]
pub enum FeishuEndpoint {
    Token,
    Messages { receive_id_type: String },
    Reply { message_id: String },
    Images,
    Files,
    Message { message_id: String },
    Cards,
    Card { card_id: String },
    CardElementContent { card_id: String, element_id: String },
    CardElement { card_id: String, element_id: String },
    CardSettings { card_id: String },
    Application { app_id: String },
    BotInfo,
    Chat { chat_id: String },
    Reactions { message_id: String },
    MessageImage { message_id: String, file_key: String },
    MessageFile { message_id: String, file_key: String },
}

/// Where a call goes.
pub open spec fn endpoint_url(base: Seq<char>, e: FeishuEndpoint) -> Seq<char> {
    match e {
        FeishuEndpoint::Token => base + "/auth/v3/tenant_access_token/internal"@,
        FeishuEndpoint::Messages { receive_id_type } => base + "/im/v1/messages?receive_id_type="@
            + receive_id_type@,
        FeishuEndpoint::Reply { message_id } => base + "/im/v1/messages/"@ + message_id@
            + "/reply"@,
        FeishuEndpoint::Images => base + "/im/v1/images"@,
        FeishuEndpoint::Files => base + "/im/v1/files"@,
        FeishuEndpoint::Message { message_id } => base + "/im/v1/messages/"@ + message_id@,
        FeishuEndpoint::Cards => base + "/cardkit/v1/cards"@,
        FeishuEndpoint::Card { card_id } => base + "/cardkit/v1/cards/"@ + card_id@,
        FeishuEndpoint::CardElementContent { card_id, element_id } => base + "/cardkit/v1/cards/"@
            + card_id@ + "/elements/"@ + element_id@ + "/content"@,
        FeishuEndpoint::CardElement { card_id, element_id } => base + "/cardkit/v1/cards/"@
            + card_id@ + "/elements/"@ + element_id@,
        FeishuEndpoint::CardSettings { card_id } => base + "/cardkit/v1/cards/"@ + card_id@
            + "/settings"@,
        FeishuEndpoint::Application { app_id } => base + "/application/v6/applications/"@ + app_id@
            + "?user_id_type=open_id&lang=zh_cn"@,
        FeishuEndpoint::BotInfo => base + "/bot/v3/info"@,
        FeishuEndpoint::Chat { chat_id } => base + "/im/v1/chats/"@ + trimmed(chat_id@)
            + "?user_id_type=open_id"@,
        FeishuEndpoint::Reactions { message_id } => base + "/im/v1/messages/"@ + message_id@
            + "/reactions"@,
        FeishuEndpoint::MessageImage { message_id, file_key } => base + "/im/v1/messages/"@
            + message_id@ + "/resources/"@ + file_key@ + "?type=image"@,
        FeishuEndpoint::MessageFile { message_id, file_key } => base + "/im/v1/messages/"@
            + message_id@ + "/resources/"@ + file_key@ + "?type=file"@,
    }
}

fn append4(base: &str, a: &str, b: &str, c: &str) -> (r: String)
    ensures
        r@ == base@ + a@ + b@ + c@,
{
    let mut out = concat3(base, a, b);
    out.append(c);
    out
}

fn append6(base: &str, a: &str, b: &str, c: &str, d: &str, e: &str) -> (r: String)
    ensures
        r@ == base@ + a@ + b@ + c@ + d@ + e@,
{
    let mut out = append4(base, a, b, c);
    out.append(d);
    out.append(e);
    out
}

pub fn api_url(base: &str, endpoint: &FeishuEndpoint) -> (r: String)
    ensures
        r@ == endpoint_url(base@, *endpoint),
{
    match endpoint {
        FeishuEndpoint::Token => concat2(base, "/auth/v3/tenant_access_token/internal"),
        FeishuEndpoint::Messages { receive_id_type } => concat3(
            base,
            "/im/v1/messages?receive_id_type=",
            receive_id_type.as_str(),
        ),
        FeishuEndpoint::Reply { message_id } => append4(
            base,
            "/im/v1/messages/",
            message_id.as_str(),
            "/reply",
        ),
        FeishuEndpoint::Images => concat2(base, "/im/v1/images"),
        FeishuEndpoint::Files => concat2(base, "/im/v1/files"),
        FeishuEndpoint::Message { message_id } => concat3(
            base,
            "/im/v1/messages/",
            message_id.as_str(),
        ),
        FeishuEndpoint::Cards => concat2(base, "/cardkit/v1/cards"),
        FeishuEndpoint::Card { card_id } => concat3(base, "/cardkit/v1/cards/", card_id.as_str()),
        FeishuEndpoint::CardElementContent { card_id, element_id } => append6(
            base,
            "/cardkit/v1/cards/",
            card_id.as_str(),
            "/elements/",
            element_id.as_str(),
            "/content",
        ),
        FeishuEndpoint::CardElement { card_id, element_id } => {
            let mut out = append4(
                base,
                "/cardkit/v1/cards/",
                card_id.as_str(),
                "/elements/",
            );
            out.append(element_id.as_str());
            out
        },
        FeishuEndpoint::CardSettings { card_id } => append4(
            base,
            "/cardkit/v1/cards/",
            card_id.as_str(),
            "/settings",
        ),
        FeishuEndpoint::Application { app_id } => append4(
            base,
            "/application/v6/applications/",
            app_id.as_str(),
            "?user_id_type=open_id&lang=zh_cn",
        ),
        FeishuEndpoint::BotInfo => concat2(base, "/bot/v3/info"),
        FeishuEndpoint::Chat { chat_id } => append4(
            base,
            "/im/v1/chats/",
            trim(chat_id.as_str()),
            "?user_id_type=open_id",
        ),
        FeishuEndpoint::Reactions { message_id } => append4(
            base,
            "/im/v1/messages/",
            message_id.as_str(),
            "/reactions",
        ),
        FeishuEndpoint::MessageImage { message_id, file_key } => append6(
            base,
            "/im/v1/messages/",
            message_id.as_str(),
            "/resources/",
            file_key.as_str(),
            "?type=image",
        ),
        FeishuEndpoint::MessageFile { message_id, file_key } => append6(
            base,
            "/im/v1/messages/",
            message_id.as_str(),
            "/resources/",
            file_key.as_str(),
            "?type=file",
        ),
    }
}

/// The header that a call is authorised by.
pub fn authorization(token: &str) -> (r: String)
    ensures
        r@ == "Bearer "@ + token@,
{
    concat2("Bearer ", token)
}

// ---------------------------------------------------------------------------
// Cards and contents
// ---------------------------------------------------------------------------

/// A card that shows a text.
pub open spec fn markdown_card(markdown: Seq<char>) -> Tree {
    card_of(
        seq![
            Tree::Object(
                seq![
                    ("tag"@, Tree::Text("markdown"@)),
                    ("content"@, Tree::Text(markdown)),
                    ("element_id"@, Tree::Text("bifrost_text_message"@)),
                ],
            ),
        ],
    )
}

/// Builds a card that shows a text. `convert` turns the text into the markdown that
/// Feishu shows.
pub fn build_markdown_card<F: FnOnce(&str) -> String>(markdown: &str, convert: F) -> (r: Json)
    requires
        call_requires(convert, (markdown,)),
    ensures
        exists|shown: String| #[trigger]
            call_ensures(convert, (markdown,), shown) && r@ == markdown_card(shown@),
{
    let shown = convert(markdown);
    let list = vec![
        json_member("tag", json_text("markdown")),
        json_member("content", json_text(shown.as_str())),
        json_member("element_id", json_text("bifrost_text_message")),
    ];
    proof {
        assert(members(list@) =~= seq![
            ("tag"@, Tree::Text("markdown"@)),
            ("content"@, Tree::Text(shown@)),
            ("element_id"@, Tree::Text("bifrost_text_message"@)),
        ]);
    }
    let elements = vec![json_object(list)];
    proof {
        assert(trees(elements@) =~= seq![
            Tree::Object(
                seq![
                    ("tag"@, Tree::Text("markdown"@)),
                    ("content"@, Tree::Text(shown@)),
                    ("element_id"@, Tree::Text("bifrost_text_message"@)),
                ],
            ),
        ]);
    }
    build_card(elements)
}

/// Builds the card that a plain text is sent as.
pub fn build_default_text_card<F: FnOnce(&str) -> String>(text: &str, convert: F) -> (r: Json)
    requires
        call_requires(convert, (text,)),
    ensures
        exists|shown: String| #[trigger]
            call_ensures(convert, (text,), shown) && r@ == markdown_card(shown@),
{
    build_markdown_card(text, convert)
}

/// The members of an object but for those with a name.
pub open spec fn members_without(m: Seq<(Seq<char>, Tree)>, key: Seq<char>) -> Seq<
    (Seq<char>, Tree),
>
    decreases m.len(),
{
    if m.len() == 0 {
        Seq::empty()
    } else {
        let before = members_without(m.drop_last(), key);
        if m.last().0 == key {
            before
        } else {
            before.push(m.last())
        }
    }
}

/// A card without the title band at its top.
pub open spec fn headless(card: Tree) -> Tree {
    match card {
        Tree::Object(m) => Tree::Object(members_without(m, "header"@)),
        other => other,
    }
}

/// Takes the title band off a card.
pub fn without_root_card_header(card: &Json) -> (r: Json)
    ensures
        r@ == headless(card@),
{
    match card {
        Json::Object(list) => {
            proof {
                lemma_object_view(*list);
            }
            let ghost m = members(list@);
            let mut out: Vec<(String, Json)> = Vec::new();
            let mut i: usize = 0;
            proof {
                assert(members(out@) =~= members_without(m.take(0), "header"@));
            }
            while i < list.len()
                invariant
                    i <= list@.len(),
                    m == members(list@),
                    members(out@) == members_without(m.take(i as int), "header"@),
                decreases list@.len() - i,
            {
                let ghost before = out@;
                proof {
                    assert(m.take(i + 1).drop_last() =~= m.take(i as int));
                    assert(m.take(i + 1).last() == (list@[i as int].0@, list@[i as int].1@));
                }
                if !same(list[i].0.as_str(), "header") {
                    out.push((list[i].0.clone(), list[i].1.copy()));
                    proof {
                        assert(members(out@) =~= members(before).push(
                            (list@[i as int].0@, list@[i as int].1@),
                        ));
                    }
                }
                i = i + 1;
            }
            proof {
                assert(m.take(i as int) =~= m);
            }
            json_object(out)
        },
        _ => card.copy(),
    }
}

/// No card that is sent has a title band.
pub proof fn lemma_headless_has_no_header(card: Tree)
    ensures
        member(headless(card), "header"@) is None,
        headless(headless(card)) == headless(card),
{
    if let Tree::Object(m) = card {
        lemma_members_without(m, "header"@);
    }
}

proof fn lemma_members_without(m: Seq<(Seq<char>, Tree)>, key: Seq<char>)
    ensures
        forall|i: int|
            0 <= i < members_without(m, key).len() ==> (#[trigger] members_without(
                m,
                key,
            )[i]).0 != key,
        crate::json::find_member(members_without(m, key), key) is None,
        members_without(members_without(m, key), key) == members_without(m, key),
    decreases m.len(),
{
    if m.len() > 0 {
        lemma_members_without(m.drop_last(), key);
    }
    lemma_nothing_to_drop(members_without(m, key), key);
}

proof fn lemma_nothing_to_drop(m: Seq<(Seq<char>, Tree)>, key: Seq<char>)
    requires
        forall|i: int| 0 <= i < m.len() ==> (#[trigger] m[i]).0 != key,
    ensures
        members_without(m, key) == m,
        crate::json::find_member(m, key) is None,
    decreases m.len(),
{
    if m.len() > 0 {
        assert forall|i: int| 0 <= i < m.drop_last().len() implies (
        #[trigger] m.drop_last()[i]).0 != key by {
            assert(m.drop_last()[i] == m[i]);
        }
        assert forall|i: int| 0 <= i < m.drop_first().len() implies (
        #[trigger] m.drop_first()[i]).0 != key by {
            assert(m.drop_first()[i] == m[i + 1]);
        }
        lemma_nothing_to_drop(m.drop_last(), key);
        lemma_nothing_to_drop(m.drop_first(), key);
        assert(m =~= m.drop_last().push(m.last()));
        assert(m[0].0 != key);
    } else {
        assert(members_without(m, key) =~= m);
    }
}

/// The text that a card is sent as.
pub fn card_content(card: &Json) -> (r: String)
    ensures
        r@ == text_of_json(headless(card@)),
{
    json_to_text(&without_root_card_header(card))
}

/// The content of a message with one text under a name.
pub open spec fn keyed_content(key: Seq<char>, value: Seq<char>) -> Tree {
    Tree::Object(seq![(key, Tree::Text(value))])
}

fn build_keyed_content(key: &str, value: &str) -> (r: Json)
    ensures
        r@ == keyed_content(key@, value@),
{
    let list = vec![json_member(key, json_text(value))];
    proof {
        assert(members(list@) =~= seq![(key@, Tree::Text(value@))]);
    }
    json_object(list)
}

/// The content of an image message.
pub fn image_content(image_key: &str) -> (r: String)
    ensures
        r@ == text_of_json(keyed_content("image_key"@, image_key@)),
{
    json_to_text(&build_keyed_content("image_key", image_key))
}

/// The content of a file message.
pub fn file_content(file_key: &str) -> (r: String)
    ensures
        r@ == text_of_json(keyed_content("file_key"@, file_key@)),
{
    json_to_text(&build_keyed_content("file_key", file_key))
}

/// The content of a message that shows a card that was made before.
pub open spec fn entity_content(card_id: Seq<char>) -> Tree {
    Tree::Object(
        seq![
            ("type"@, Tree::Text("card"@)),
            ("data"@, keyed_content("card_id"@, card_id)),
        ],
    )
}

pub fn card_entity_content(card_id: &str) -> (r: String)
    ensures
        r@ == text_of_json(entity_content(card_id@)),
{
    let list = vec![
        json_member("type", json_text("card")),
        json_member("data", build_keyed_content("card_id", card_id)),
    ];
    proof {
        assert(members(list@) =~= entity_content(card_id@)->Object_0);
    }
    json_to_text(&json_object(list))
}

// ---------------------------------------------------------------------------
// Files
// ---------------------------------------------------------------------------

/// The place of the last dot of a text.
pub open spec fn last_dot(s: Seq<char>) -> Option<int>
    decreases s.len(),
{
    if s.len() == 0 {
        None
    } else if s.last() == '.' {
        Some(s.len() - 1)
    } else {
        last_dot(s.drop_last())
    }
}

/// The extension of a path: what stands behind the last dot of its name, unless
/// that dot comes first.
pub open spec fn extension_of(style: PathStyle, path: Seq<char>) -> Option<Seq<char>> {
    match last_name(style, path) {
        None => None,
        Some(name) => match last_dot(name) {
            Some(k) if k > 0 => Some(name.skip(k + 1)),
            _ => None,
        },
    }
}

pub fn file_extension(style: PathStyle, path: &str) -> (r: Option<String>)
    ensures
        opt(r) == extension_of(style, path@),
{
    match path_file_name(style, path) {
        None => None,
        Some(name) => {
            let chars = chars_of(name.as_str());
            let n: usize = chars.len();
            let mut k: usize = n;
            proof {
                assert(name@.take(n as int) =~= name@);
            }
            while k > 0 && chars[k - 1] != '.'
                invariant
                    k <= n,
                    n == chars@.len(),
                    chars@ == name@,
                    last_dot(name@.take(k as int)) == last_dot(name@),
                decreases k,
            {
                proof {
                    assert(name@.take(k as int).drop_last() =~= name@.take(k - 1));
                    assert(name@.take(k as int).last() == chars@[k - 1]);
                }
                k = k - 1;
            }
            proof {
                if k > 0 {
                    assert(name@.take(k as int).last() == chars@[k - 1]);
                } else {
                    assert(name@.take(0).len() == 0);
                }
            }
            if k > 1 {
                proof {
                    assert(name@.subrange(k as int, n as int) =~= name@.skip(k as int));
                }
                Some(owned(name.as_str().substring_char(k, n)))
            } else {
                None
            }
        },
    }
}

/// The kind of file that Feishu takes a file for, by its name.
pub open spec fn file_type_of(style: PathStyle, file_name: Seq<char>) -> Seq<char> {
    let e = match extension_of(style, file_name) {
        Some(x) => lowered(x),
        None => Seq::empty(),
    };
    if e == "pdf"@ {
        "pdf"@
    } else if e == "doc"@ || e == "docx"@ {
        "doc"@
    } else if e == "xls"@ || e == "xlsx"@ || e == "csv"@ {
        "xls"@
    } else if e == "ppt"@ || e == "pptx"@ {
        "ppt"@
    } else {
        "stream"@
    }
}

pub fn feishu_file_type_for_name(style: PathStyle, file_name: &str) -> (r: &'static str)
    ensures
        r@ == file_type_of(style, file_name@),
{
    let extension = match file_extension(style, file_name) {
        Some(e) => to_lower(e.as_str()),
        None => String::new(),
    };
    let e = extension.as_str();
    if same(e, "pdf") {
        "pdf"
    } else if same(e, "doc") || same(e, "docx") {
        "doc"
    } else if same(e, "xls") || same(e, "xlsx") || same(e, "csv") {
        "xls"
    } else if same(e, "ppt") || same(e, "pptx") {
        "ppt"
    } else {
        "stream"
    }
}

/// The type of an uploaded file that is worth sending.
pub fn upload_mime_type(mime_type: Option<&str>) -> (r: Option<String>)
    ensures
        opt(r) == (match mime_type {
            Some(m) => if blank(m@) {
                None
            } else {
                Some(m@)
            },
            None => None,
        }),
{
    match mime_type {
        Some(m) => if trim(m).is_empty() {
            None
        } else {
            Some(owned(m))
        },
        None => None,
    }
}

/// The type of a downloaded file: what its header says in front of any
/// parameters, or a fallback.
pub open spec fn downloaded_type(header: Option<Seq<char>>, fallback: Seq<char>) -> Seq<char> {
    match header {
        Some(h) => pieces(h, ';')[0],
        None => fallback,
    }
}

pub fn download_mime_type(header: Option<&str>, fallback: &str) -> (r: String)
    ensures
        r@ == downloaded_type(crate::json::opt_str(header), fallback@),
{
    match header {
        Some(h) => {
            let parts = split_pieces(h, ';');
            proof {
                crate::text::lemma_pieces_non_empty(h@, ';');
                assert(texts(parts@).len() == parts@.len());
                assert(texts(parts@)[0] == parts@[0]@);
            }
            parts[0].clone()
        },
        None => owned(fallback),
    }
}

} // verus!
