//! Cards with buttons in a Feishu chat: building one that offers commands, and
//! turning a click on it into the message that the user could have typed.

use vstd::prelude::*;
use vstd::string::*;

use crate::agent_config::cleaned;
use crate::digest::{raw_digest, raw_digest_of};
use crate::im_event::{
    event_view, ImEvent, ImEventMessage, ImEventSource, ImEventView, ImProviderType, MessageView,
    SourceView,
};
use crate::json::{
    find_member, json_list, json_member, json_object, json_text, lemma_list_view,
    lemma_object_view, member, member_of, members, opt_tree, tree_text, tree_u64, trees, Json, Tree,
};
use crate::local_sessions::{
    json_string, parse_external_cli_resume_slash_command, resume_command_of,
    ExternalCliResumeSlashCommand, ResumeView,
};
use crate::models::{
    effort_slash, fault_of, model_slash, parse_external_cli_effort_slash_command,
    parse_external_cli_model_slash_command, ExternalCliEffortSlashCommand,
    ExternalCliModelSlashCommand, SlashView,
};
use crate::text::{
    concat2, cut_text, decimal, decimal_text, join, joined, lowered, opt, owned, same,
    same_ignoring_case, split_words, texts, trim, trimmed, words,
};

verus! {

broadcast use vstd::string::group_string_axioms;

/// What a button of a choice card says it is.
pub const SLASH_CHOICE_ACTION: &'static str = "slash_choice";

/// How much of a label a button shows.
pub const MAX_BUTTON_LABEL_CHARS: usize = 100;

/// How long the buttons of a card work, in milliseconds.
pub const FEISHU_CHOICE_CARD_TTL_MS: u64 = 86400000;

/// For whom a card works: its provider, its chat and its user.
#[derive(Debug, PartialEq, Eq)]
pub struct FeishuChoiceCardBinding {
    pub provider_id: String,
    pub chat_id: String,
    pub chat_type: String,
    pub user_id: String,
}

#[verifier::ext_equal]
pub struct BindingView {
    pub provider_id: Seq<char>,
    pub chat_id: Seq<char>,
    pub chat_type: Seq<char>,
    pub user_id: Seq<char>,
}

impl View for FeishuChoiceCardBinding {
    type V = BindingView;

    open spec fn view(&self) -> BindingView {
        BindingView {
            provider_id: self.provider_id@,
            chat_id: self.chat_id@,
            chat_type: self.chat_type@,
            user_id: self.user_id@,
        }
    }
}

/// A choice of a card: what its button says and which command it stands for.
#[derive(Debug, PartialEq, Eq)]
pub struct FeishuChoiceCardOption {
    pub label: String,
    pub command: String,
}

#[verifier::ext_equal]
pub struct OptionView {
    pub label: Seq<char>,
    pub command: Seq<char>,
}

impl View for FeishuChoiceCardOption {
    type V = OptionView;

    open spec fn view(&self) -> OptionView {
        OptionView { label: self.label@, command: self.command@ }
    }
}

/// The views of a list of choices.
pub open spec fn option_views(v: Seq<FeishuChoiceCardOption>) -> Seq<OptionView> {
    v.map_values(|o: FeishuChoiceCardOption| o@)
}

// ---------------------------------------------------------------------------
// Building a card
// ---------------------------------------------------------------------------

/// A label on one line, cut where it is too long.
pub open spec fn button_label(label: Seq<char>) -> Seq<char> {
    let line = joined(words(label), " "@);
    if line.len() <= MAX_BUTTON_LABEL_CHARS {
        line
    } else {
        line.take(MAX_BUTTON_LABEL_CHARS - 3) + "..."@
    }
}

pub fn normalize_button_label(label: &str) -> (r: String)
    ensures
        r@ == button_label(label@),
{
    let parts = split_words(label);
    let line = join(&parts, " ");
    if line.as_str().unicode_len() <= MAX_BUTTON_LABEL_CHARS {
        line
    } else {
        concat2(cut_text(line.as_str(), MAX_BUTTON_LABEL_CHARS - 3).as_str(), "...")
    }
}

/// No label is longer than the limit.
pub proof fn lemma_button_label_is_short(label: Seq<char>)
    ensures
        button_label(label).len() <= MAX_BUTTON_LABEL_CHARS,
{
    reveal_strlit("...");
}

/// When the buttons of a card stop working.
pub open spec fn card_expiry(now_ms: u64) -> u64 {
    if now_ms + FEISHU_CHOICE_CARD_TTL_MS <= u64::MAX {
        (now_ms + FEISHU_CHOICE_CARD_TTL_MS) as u64
    } else {
        u64::MAX
    }
}

/// What a click on a button sends back.
pub open spec fn callback_value(b: BindingView, command: Seq<char>, expires: u64) -> Tree {
    Tree::Object(
        seq![
            ("bifrostAction"@, Tree::Text(SLASH_CHOICE_ACTION@)),
            ("providerId"@, Tree::Text(b.provider_id)),
            ("chatId"@, Tree::Text(b.chat_id)),
            ("chatType"@, Tree::Text(b.chat_type)),
            ("userId"@, Tree::Text(b.user_id)),
            ("command"@, Tree::Text(command)),
            ("expiresAtMs"@, Tree::Unsigned(expires)),
        ],
    )
}

/// The button of the choice at a place.
pub open spec fn choice_button(b: BindingView, o: OptionView, at: nat, expires: u64) -> Tree {
    Tree::Object(
        seq![
            ("tag"@, Tree::Text("button"@)),
            ("element_id"@, Tree::Text("choice_"@ + decimal(at))),
            ("type"@, Tree::Text("default"@)),
            (
                "text"@,
                Tree::Object(
                    seq![
                        ("tag"@, Tree::Text("plain_text"@)),
                        ("content"@, Tree::Text(button_label(o.label))),
                    ],
                ),
            ),
            (
                "behaviors"@,
                Tree::List(
                    seq![
                        Tree::Object(
                            seq![
                                ("type"@, Tree::Text("callback"@)),
                                ("value"@, callback_value(b, o.command, expires)),
                            ],
                        ),
                    ],
                ),
            ),
        ],
    )
}

/// The column that holds the button of the choice at a place.
pub open spec fn choice_column(b: BindingView, o: OptionView, at: nat, expires: u64) -> Tree {
    Tree::Object(
        seq![
            ("tag"@, Tree::Text("column"@)),
            ("width"@, Tree::Text("weighted"@)),
            ("weight"@, Tree::Unsigned(1)),
            ("elements"@, Tree::List(seq![choice_button(b, o, at, expires)])),
        ],
    )
}

/// The columns of a row: two choices, or the one that is left.
pub open spec fn row_columns(
    b: BindingView,
    options: Seq<OptionView>,
    row: nat,
    expires: u64,
) -> Seq<Tree> {
    let first = choice_column(b, options[2 * row as int], (2 * row) as nat, expires);
    if 2 * row + 1 < options.len() {
        seq![first, choice_column(b, options[2 * row as int + 1], (2 * row + 1) as nat, expires)]
    } else {
        seq![first]
    }
}

/// A row of choices.
pub open spec fn choice_row(
    b: BindingView,
    options: Seq<OptionView>,
    row: nat,
    expires: u64,
) -> Tree {
    Tree::Object(
        seq![
            ("tag"@, Tree::Text("column_set"@)),
            ("flex_mode"@, Tree::Text("flow"@)),
            ("element_id"@, Tree::Text("choice_row_"@ + decimal(row))),
            ("columns"@, Tree::List(row_columns(b, options, row, expires))),
        ],
    )
}

/// How many rows some choices take.
pub open spec fn row_count(options: nat) -> nat {
    (options + 1) / 2
}

/// The text above the choices.
pub open spec fn choice_summary(markdown: Seq<char>) -> Tree {
    Tree::Object(
        seq![
            ("tag"@, Tree::Text("markdown"@)),
            ("content"@, Tree::Text(markdown)),
            ("element_id"@, Tree::Text("choice_summary"@)),
        ],
    )
}

/// The elements of a choice card: the text and the rows of choices.
pub open spec fn choice_elements(
    markdown: Seq<char>,
    b: BindingView,
    options: Seq<OptionView>,
    expires: u64,
) -> Seq<Tree> {
    seq![choice_summary(markdown)] + Seq::new(
        row_count(options.len()),
        |k: int| choice_row(b, options, k as nat, expires),
    )
}

/// A card with some elements and no header.
pub open spec fn card_of(elements: Seq<Tree>) -> Tree {
    Tree::Object(
        seq![
            ("schema"@, Tree::Text("2.0"@)),
            (
                "config"@,
                Tree::Object(
                    seq![
                        ("width_mode"@, Tree::Text("fill"@)),
                        ("update_multi"@, Tree::Bool(true)),
                    ],
                ),
            ),
            ("body"@, Tree::Object(seq![("elements"@, Tree::List(elements))])),
        ],
    )
}

/// Builds a card with some elements.
pub fn build_card(elements: Vec<Json>) -> (r: Json)
    ensures
        r@ == card_of(trees(elements@)),
{
    let ghost e = trees(elements@);
    let config_members = vec![
        json_member("width_mode", json_text("fill")),
        json_member("update_multi", Json::Bool(true)),
    ];
    proof {
        assert(members(config_members@) =~= seq![
            ("width_mode"@, Tree::Text("fill"@)),
            ("update_multi"@, Tree::Bool(true)),
        ]);
    }
    let config = json_object(config_members);
    let body_members = vec![json_member("elements", json_list(elements))];
    proof {
        assert(members(body_members@) =~= seq![("elements"@, Tree::List(e))]);
    }
    let body = json_object(body_members);
    let card_members = vec![
        json_member("schema", json_text("2.0")),
        json_member("config", config),
        json_member("body", body),
    ];
    proof {
        assert(members(card_members@) =~= card_of(e)->Object_0);
    }
    json_object(card_members)
}

fn build_callback_value(binding: &FeishuChoiceCardBinding, command: &str, expires: u64) -> (r: Json)
    ensures
        r@ == callback_value(binding@, command@, expires),
{
    let list = vec![
        json_member("bifrostAction", json_text(SLASH_CHOICE_ACTION)),
        json_member("providerId", json_text(binding.provider_id.as_str())),
        json_member("chatId", json_text(binding.chat_id.as_str())),
        json_member("chatType", json_text(binding.chat_type.as_str())),
        json_member("userId", json_text(binding.user_id.as_str())),
        json_member("command", json_text(command)),
        json_member("expiresAtMs", Json::Unsigned(expires)),
    ];
    proof {
        assert(members(list@) =~= callback_value(binding@, command@, expires)->Object_0);
    }
    json_object(list)
}

fn build_choice_button(
    binding: &FeishuChoiceCardBinding,
    option: &FeishuChoiceCardOption,
    at: usize,
    expires: u64,
) -> (r: Json)
    ensures
        r@ == choice_button(binding@, option@, at as nat, expires),
{
    let label = normalize_button_label(option.label.as_str());
    let text_members = vec![
        json_member("tag", json_text("plain_text")),
        json_member("content", json_text(label.as_str())),
    ];
    proof {
        assert(members(text_members@) =~= seq![
            ("tag"@, Tree::Text("plain_text"@)),
            ("content"@, Tree::Text(button_label(option@.label))),
        ]);
    }
    let text = json_object(text_members);
    let behavior_members = vec![
        json_member("type", json_text("callback")),
        json_member("value", build_callback_value(binding, option.command.as_str(), expires)),
    ];
    proof {
        assert(members(behavior_members@) =~= seq![
            ("type"@, Tree::Text("callback"@)),
            ("value"@, callback_value(binding@, option@.command, expires)),
        ]);
    }
    let behaviors = vec![json_object(behavior_members)];
    proof {
        assert(trees(behaviors@) =~= seq![
            Tree::Object(
                seq![
                    ("type"@, Tree::Text("callback"@)),
                    ("value"@, callback_value(binding@, option@.command, expires)),
                ],
            ),
        ]);
    }
    let id = concat2("choice_", decimal_text(at as u64).as_str());
    let list = vec![
        json_member("tag", json_text("button")),
        json_member("element_id", json_text(id.as_str())),
        json_member("type", json_text("default")),
        json_member("text", text),
        json_member("behaviors", json_list(behaviors)),
    ];
    proof {
        assert(members(list@) =~= choice_button(
            binding@,
            option@,
            at as nat,
            expires,
        )->Object_0);
    }
    json_object(list)
}

fn build_choice_column(
    binding: &FeishuChoiceCardBinding,
    option: &FeishuChoiceCardOption,
    at: usize,
    expires: u64,
) -> (r: Json)
    ensures
        r@ == choice_column(binding@, option@, at as nat, expires),
{
    let elements = vec![build_choice_button(binding, option, at, expires)];
    proof {
        assert(trees(elements@) =~= seq![choice_button(binding@, option@, at as nat, expires)]);
    }
    let list = vec![
        json_member("tag", json_text("column")),
        json_member("width", json_text("weighted")),
        json_member("weight", Json::Unsigned(1)),
        json_member("elements", json_list(elements)),
    ];
    proof {
        assert(members(list@) =~= choice_column(
            binding@,
            option@,
            at as nat,
            expires,
        )->Object_0);
    }
    json_object(list)
}

fn build_choice_row(
    binding: &FeishuChoiceCardBinding,
    options: &Vec<FeishuChoiceCardOption>,
    row: usize,
    expires: u64,
) -> (r: Json)
    requires
        2 * row < options@.len(),
    ensures
        r@ == choice_row(binding@, option_views(options@), row as nat, expires),
{
    let ghost ov = option_views(options@);
    let n: usize = options.len();
    let at: usize = 2 * row;
    let mut columns: Vec<Json> = Vec::new();
    proof {
        assert(ov[at as int] == options@[at as int]@);
    }
    columns.push(build_choice_column(binding, &options[at], at, expires));
    if n - at > 1 {
        proof {
            assert(ov[at + 1] == options@[at + 1]@);
        }
        columns.push(build_choice_column(binding, &options[at + 1], at + 1, expires));
    }
    proof {
        assert(trees(columns@) =~= row_columns(binding@, ov, row as nat, expires));
    }
    let id = concat2("choice_row_", decimal_text(row as u64).as_str());
    let list = vec![
        json_member("tag", json_text("column_set")),
        json_member("flex_mode", json_text("flow")),
        json_member("element_id", json_text(id.as_str())),
        json_member("columns", json_list(columns)),
    ];
    proof {
        assert(members(list@) =~= choice_row(binding@, ov, row as nat, expires)->Object_0);
    }
    json_object(list)
}

/// Builds a card that offers some commands, two to a row, with a text above them.
/// `convert` turns the text into the markdown that Feishu shows.
pub fn build_feishu_choice_card<F: FnOnce(&str) -> String>(
    markdown: &str,
    binding: &FeishuChoiceCardBinding,
    options: &Vec<FeishuChoiceCardOption>,
    now_ms: u64,
    convert: F,
) -> (r: Json)
    requires
        call_requires(convert, (markdown,)),
    ensures
        exists|shown: String| #[trigger]
            call_ensures(convert, (markdown,), shown) && r@ == card_of(
                choice_elements(shown@, binding@, option_views(options@), card_expiry(now_ms)),
            ),
{
    let shown = convert(markdown);
    let expires: u64 = now_ms.saturating_add(FEISHU_CHOICE_CARD_TTL_MS);
    let ghost ov = option_views(options@);
    let summary = vec![
        json_member("tag", json_text("markdown")),
        json_member("content", json_text(shown.as_str())),
        json_member("element_id", json_text("choice_summary")),
    ];
    proof {
        assert(members(summary@) =~= choice_summary(shown@)->Object_0);
    }
    let mut elements: Vec<Json> = Vec::new();
    elements.push(json_object(summary));
    let n: usize = options.len();
    let mut row: usize = 0;
    let ghost all = choice_elements(shown@, binding@, ov, expires);
    proof {
        assert(trees(elements@) =~= all.take(1));
    }
    while row < n - row
        invariant
            row <= row_count(n as nat),
            n == options@.len(),
            ov == option_views(options@),
            all == choice_elements(shown@, binding@, ov, expires),
            elements@.len() == row + 1,
            trees(elements@) == all.take(row + 1),
        decreases n - row,
    {
        let ghost before = elements@;
        elements.push(build_choice_row(binding, options, row, expires));
        proof {
            assert(trees(elements@) =~= trees(before).push(elements@.last()@));
            assert(all[row + 1] == choice_row(binding@, ov, row as nat, expires));
            assert(trees(elements@) =~= all.take(row + 2));
        }
        row = row + 1;
    }
    proof {
        assert(all.len() == row + 1);
        assert(all.take(row + 1) =~= all);
    }
    build_card(elements)
}

// ---------------------------------------------------------------------------
// Clicks
// ---------------------------------------------------------------------------

/// Whether a button may stand for a command: it picks a session, or it sets or
/// clears the model or the effort.
pub open spec fn choice_command_allowed(command: Seq<char>) -> bool {
    let w = words(command);
    if w.len() != 2 {
        false
    } else if lowered(w[0]) == lowered("/resume"@) {
        resume_command_of(command) matches Some(Ok(ResumeView::Pick(_)))
    } else if lowered(w[0]) == lowered("/model"@) {
        ||| model_slash(command) matches Some(Ok(SlashView::Select(_)))
        ||| lowered(w[1]) == lowered("clear"@) && (model_slash(command) matches Some(
            Ok(SlashView::Clear),
        ))
    } else if lowered(w[0]) == lowered("/effort"@) {
        ||| effort_slash(command) matches Some(Ok(SlashView::Select(_)))
        ||| lowered(w[1]) == lowered("clear"@) && (effort_slash(command) matches Some(
            Ok(SlashView::Clear),
        ))
    } else {
        false
    }
}

pub fn is_allowed_choice_command(command: &str) -> (r: bool)
    ensures
        r == choice_command_allowed(command@),
{
    let parts = split_words(command);
    proof {
        assert(texts(parts@).len() == parts@.len());
        assert(forall|i: int| 0 <= i < parts@.len() ==> texts(parts@)[i] == (#[trigger] parts@[i])@);
    }
    if parts.len() != 2 {
        return false;
    }
    let name = parts[0].as_str();
    let clears = same_ignoring_case(parts[1].as_str(), "clear");
    if same_ignoring_case(name, "/resume") {
        return match parse_external_cli_resume_slash_command(command) {
            Some(Ok(ExternalCliResumeSlashCommand::Pick(_))) => true,
            _ => false,
        };
    }
    if same_ignoring_case(name, "/model") {
        return match parse_external_cli_model_slash_command(command) {
            Some(Ok(ExternalCliModelSlashCommand::Select(_))) => true,
            Some(Ok(ExternalCliModelSlashCommand::Clear)) => clears,
            _ => false,
        };
    }
    if same_ignoring_case(name, "/effort") {
        return match parse_external_cli_effort_slash_command(command) {
            Some(Ok(ExternalCliEffortSlashCommand::Select(_))) => true,
            Some(Ok(ExternalCliEffortSlashCommand::Clear)) => clears,
            _ => false,
        };
    }
    false
}

/// What a click sends back, read.
#[derive(Debug, PartialEq, Eq)]
pub struct SlashChoiceValue {
    pub bifrost_action: String,
    pub provider_id: String,
    pub chat_id: String,
    pub chat_type: String,
    pub user_id: String,
    pub command: String,
    pub expires_at_ms: u64,
}

#[verifier::ext_equal]
pub struct ChoiceView {
    pub bifrost_action: Seq<char>,
    pub provider_id: Seq<char>,
    pub chat_id: Seq<char>,
    pub chat_type: Seq<char>,
    pub user_id: Seq<char>,
    pub command: Seq<char>,
    pub expires_at_ms: u64,
}

impl View for SlashChoiceValue {
    type V = ChoiceView;

    open spec fn view(&self) -> ChoiceView {
        ChoiceView {
            bifrost_action: self.bifrost_action@,
            provider_id: self.provider_id@,
            chat_id: self.chat_id@,
            chat_type: self.chat_type@,
            user_id: self.user_id@,
            command: self.command@,
            expires_at_ms: self.expires_at_ms,
        }
    }
}

/// Whether a member is one that a click sends back.
pub open spec fn choice_member(key: Seq<char>) -> bool {
    key == "bifrostAction"@ || key == "providerId"@ || key == "chatId"@ || key == "chatType"@
        || key == "userId"@ || key == "command"@ || key == "expiresAtMs"@
}

/// Whether an object has no other members than those that a click sends back.
pub open spec fn only_choice_members(m: Seq<(Seq<char>, Tree)>) -> bool {
    forall|i: int| 0 <= i < m.len() ==> choice_member((#[trigger] m[i]).0)
}

/// The choice with these parts, if none is missing.
pub open spec fn choice_from(
    bifrost_action: Option<Seq<char>>,
    provider_id: Option<Seq<char>>,
    chat_id: Option<Seq<char>>,
    chat_type: Option<Seq<char>>,
    user_id: Option<Seq<char>>,
    command: Option<Seq<char>>,
    expires_at_ms: Option<u64>,
) -> Option<ChoiceView> {
    if bifrost_action is Some && provider_id is Some && chat_id is Some && chat_type is Some
        && user_id is Some && command is Some && expires_at_ms is Some {
        Some(
            ChoiceView {
                bifrost_action: bifrost_action->Some_0,
                provider_id: provider_id->Some_0,
                chat_id: chat_id->Some_0,
                chat_type: chat_type->Some_0,
                user_id: user_id->Some_0,
                command: command->Some_0,
                expires_at_ms: expires_at_ms->Some_0,
            },
        )
    } else {
        None
    }
}

/// What a value that was sent back is read as: an object with just the members of
/// a choice, or the list of their values in order.
pub open spec fn choice_in(value: Tree) -> Option<ChoiceView> {
    match value {
        Tree::Object(m) => if only_choice_members(m) {
            choice_from(
                tree_text(find_member(m, "bifrostAction"@)),
                tree_text(find_member(m, "providerId"@)),
                tree_text(find_member(m, "chatId"@)),
                tree_text(find_member(m, "chatType"@)),
                tree_text(find_member(m, "userId"@)),
                tree_text(find_member(m, "command"@)),
                tree_u64(find_member(m, "expiresAtMs"@)),
            )
        } else {
            None
        },
        Tree::List(l) => if l.len() == 7 {
            choice_from(
                tree_text(Some(l[0])),
                tree_text(Some(l[1])),
                tree_text(Some(l[2])),
                tree_text(Some(l[3])),
                tree_text(Some(l[4])),
                tree_text(Some(l[5])),
                tree_u64(Some(l[6])),
            )
        } else {
            None
        },
        _ => None,
    }
}

fn build_choice(
    bifrost_action: Option<String>,
    provider_id: Option<String>,
    chat_id: Option<String>,
    chat_type: Option<String>,
    user_id: Option<String>,
    command: Option<String>,
    expires_at_ms: Option<u64>,
) -> (r: Option<SlashChoiceValue>)
    ensures
        opt_choice(r) == choice_from(
            opt(bifrost_action),
            opt(provider_id),
            opt(chat_id),
            opt(chat_type),
            opt(user_id),
            opt(command),
            expires_at_ms,
        ),
{
    match (bifrost_action, provider_id, chat_id, chat_type, user_id, command, expires_at_ms) {
        (Some(a), Some(p), Some(c), Some(t), Some(u), Some(w), Some(e)) => Some(
            SlashChoiceValue {
                bifrost_action: a,
                provider_id: p,
                chat_id: c,
                chat_type: t,
                user_id: u,
                command: w,
                expires_at_ms: e,
            },
        ),
        _ => None,
    }
}

pub open spec fn opt_choice(c: Option<SlashChoiceValue>) -> Option<ChoiceView> {
    match c {
        Some(v) => Some(v@),
        None => None,
    }
}

fn member_text(value: &Json, key: &str) -> (r: Option<String>)
    ensures
        opt(r) == tree_text(member(value@, key@)),
{
    match value.get(key) {
        Some(v) => plain_text(v),
        None => None,
    }
}

fn plain_text(value: &Json) -> (r: Option<String>)
    ensures
        opt(r) == tree_text(Some(value@)),
{
    match value.as_str() {
        Some(s) => Some(owned(s)),
        None => None,
    }
}

fn has_only_choice_members(list: &Vec<(String, Json)>) -> (r: bool)
    ensures
        r == only_choice_members(members(list@)),
{
    let ghost m = members(list@);
    let mut i: usize = 0;
    while i < list.len()
        invariant
            i <= list@.len(),
            m == members(list@),
            forall|k: int| 0 <= k < i ==> choice_member((#[trigger] m[k]).0),
        decreases list@.len() - i,
    {
        let key = list[i].0.as_str();
        proof {
            assert(m[i as int].0 == key@);
        }
        if !(same(key, "bifrostAction") || same(key, "providerId") || same(key, "chatId") || same(
            key,
            "chatType",
        ) || same(key, "userId") || same(key, "command") || same(key, "expiresAtMs")) {
            return false;
        }
        i = i + 1;
    }
    true
}

/// Reads what a click sent back.
pub fn read_slash_choice(value: &Json) -> (r: Option<SlashChoiceValue>)
    ensures
        opt_choice(r) == choice_in(value@),
{
    match value {
        Json::Object(list) => {
            proof {
                lemma_object_view(*list);
            }
            if !has_only_choice_members(list) {
                return None;
            }
            let expires: Option<u64> = match value.get("expiresAtMs") {
                Some(v) => v.as_u64(),
                None => None,
            };
            build_choice(
                member_text(value, "bifrostAction"),
                member_text(value, "providerId"),
                member_text(value, "chatId"),
                member_text(value, "chatType"),
                member_text(value, "userId"),
                member_text(value, "command"),
                expires,
            )
        },
        Json::List(list) => {
            proof {
                lemma_list_view(*list);
            }
            if list.len() != 7 {
                return None;
            }
            build_choice(
                plain_text(&list[0]),
                plain_text(&list[1]),
                plain_text(&list[2]),
                plain_text(&list[3]),
                plain_text(&list[4]),
                plain_text(&list[5]),
                list[6].as_u64(),
            )
        },
        _ => None,
    }
}

/// Why a click is refused, if it is: it has to come from the provider, the user
/// and the chat that the card was made for, in time, and to ask for something
/// that a button may ask for.
pub open spec fn choice_fault(
    v: ChoiceView,
    provider_id: Seq<char>,
    operator_id: Seq<char>,
    open_chat_id: Seq<char>,
    now_ms: u64,
) -> Option<Seq<char>> {
    if v.bifrost_action != SLASH_CHOICE_ACTION@ {
        Some("unsupported card action"@)
    } else if v.provider_id != provider_id {
        Some("card action provider binding mismatch"@)
    } else if v.user_id != operator_id {
        Some("card action user binding mismatch"@)
    } else if v.chat_id != open_chat_id {
        Some("card action chat binding mismatch"@)
    } else if v.chat_type != "p2p"@ && v.chat_type != "group"@ {
        Some("card action has unsupported chat type"@)
    } else if v.expires_at_ms <= now_ms {
        Some("card action has expired"@)
    } else if !choice_command_allowed(v.command) {
        Some("card action command is not allowed"@)
    } else {
        None
    }
}

pub fn validate_slash_choice_value(
    value: &SlashChoiceValue,
    provider_id: &str,
    operator_id: &str,
    open_chat_id: &str,
    now_ms: u64,
) -> (r: Result<(), String>)
    ensures
        fault_of(r) == choice_fault(value@, provider_id@, operator_id@, open_chat_id@, now_ms),
{
    if !same(value.bifrost_action.as_str(), SLASH_CHOICE_ACTION) {
        return Err(owned("unsupported card action"));
    }
    if !same(value.provider_id.as_str(), provider_id) {
        return Err(owned("card action provider binding mismatch"));
    }
    if !same(value.user_id.as_str(), operator_id) {
        return Err(owned("card action user binding mismatch"));
    }
    if !same(value.chat_id.as_str(), open_chat_id) {
        return Err(owned("card action chat binding mismatch"));
    }
    if !same(value.chat_type.as_str(), "p2p") && !same(value.chat_type.as_str(), "group") {
        return Err(owned("card action has unsupported chat type"));
    }
    if value.expires_at_ms <= now_ms {
        return Err(owned("card action has expired"));
    }
    if !is_allowed_choice_command(value.command.as_str()) {
        return Err(owned("card action command is not allowed"));
    }
    Ok(())
}

/// The view of what a click sent back, or of why it could not be read.
pub open spec fn choice_view(c: Result<SlashChoiceValue, String>) -> Result<ChoiceView, Seq<char>> {
    match c {
        Ok(v) => Ok(v@),
        Err(e) => Err(e@),
    }
}

/// The member of an object that is an object itself.
pub open spec fn object_in(t: Option<Tree>, key: Seq<char>) -> Option<Tree> {
    match member_of(t, key) {
        Some(Tree::Object(m)) => Some(Tree::Object(m)),
        _ => None,
    }
}

/// The message that a click stands for.
pub open spec fn choice_event(
    event_id: Seq<char>,
    provider_id: Seq<char>,
    operator_id: Seq<char>,
    open_chat_id: Seq<char>,
    v: ChoiceView,
    value: Tree,
    digest: Option<Seq<char>>,
    now_ms: u64,
) -> ImEventView {
    ImEventView {
        event_id,
        provider_id,
        provider_type: ImProviderType::Feishu,
        event_type: "message.receive"@,
        source: SourceView {
            chat_id: Some(open_chat_id),
            chat_type: Some(v.chat_type),
            user_id: Some(operator_id),
            user_name: None,
            sender_type: Some("user"@),
            message_id: None,
        },
        message: Some(
            MessageView {
                text: trimmed(v.command),
                mentions: Seq::empty(),
                images: Seq::empty(),
                files: Seq::empty(),
                reply_to: None,
                raw_type: Some("interactive_callback"@),
                raw_content: Some(value),
                create_time: None,
                update_time: None,
                root_id: None,
                parent_id: None,
                thread_id: None,
            },
        ),
        received_at: now_ms,
        raw_digest: digest,
    }
}

/// What a callback comes to: nothing where it is no click, the message that the
/// click stands for, or why it is refused. `choice` is what its value was read
/// as, and `digest` tells the callback apart from others.
pub open spec fn card_action(
    raw: Tree,
    choice: Result<ChoiceView, Seq<char>>,
    digest: Option<Seq<char>>,
    provider_id: Seq<char>,
    now_ms: u64,
) -> Result<Option<ImEventView>, Seq<char>> {
    let header = member(raw, "header"@);
    let event_id = cleaned(tree_text(member_of(header, "event_id"@)));
    let event = object_in(Some(raw), "event"@);
    let operator_id = cleaned(tree_text(member_of(member_of(event, "operator"@), "open_id"@)));
    let action = object_in(event, "action"@);
    let value = member_of(action, "value"@);
    let context = object_in(event, "context"@);
    let chat_id = cleaned(tree_text(member_of(context, "open_chat_id"@)));
    let message_id = cleaned(tree_text(member_of(context, "open_message_id"@)));
    if tree_text(member_of(header, "event_type"@)) != Some("card.action.trigger"@) {
        Ok(None)
    } else if event_id is None {
        Err("card action is missing header.event_id"@)
    } else if event is None {
        Err("card action is missing event"@)
    } else if operator_id is None {
        Err("card action is missing event.operator.open_id"@)
    } else if action is None {
        Err("card action is missing event.action"@)
    } else if tree_text(member_of(action, "tag"@)) != Some("button"@) {
        Err("card action does not originate from a button"@)
    } else if value is None {
        Err("card action is missing event.action.value"@)
    } else {
        match choice {
            Err(e) => Err("invalid card action value: "@ + e),
            Ok(v) => if context is None {
                Err("card action is missing event.context"@)
            } else if chat_id is None {
                Err("card action is missing event.context.open_chat_id"@)
            } else if message_id is None {
                Err("card action is missing event.context.open_message_id"@)
            } else {
                match choice_fault(
                    v,
                    provider_id,
                    operator_id->Some_0,
                    chat_id->Some_0,
                    now_ms,
                ) {
                    Some(e) => Err(e),
                    None => Ok(
                        Some(
                            choice_event(
                                event_id->Some_0,
                                provider_id,
                                operator_id->Some_0,
                                chat_id->Some_0,
                                v,
                                value->Some_0,
                                digest,
                                now_ms,
                            ),
                        ),
                    ),
                }
            },
        }
    }
}

/// The view of what a callback comes to.
pub open spec fn action_view(r: Result<Option<ImEvent>, String>) -> Result<
    Option<ImEventView>,
    Seq<char>,
> {
    match r {
        Ok(e) => Ok(event_view(e)),
        Err(e) => Err(e@),
    }
}

fn get_object<'a>(value: Option<&'a Json>, key: &str) -> (r: Option<&'a Json>)
    ensures
        opt_tree(r) == object_in(opt_tree(value), key@),
{
    match value {
        Some(v) => match v.get(key) {
            Some(inner) => if inner.is_object() {
                Some(inner)
            } else {
                None
            },
            None => None,
        },
        None => None,
    }
}

fn get_in<'a>(value: Option<&'a Json>, key: &str) -> (r: Option<&'a Json>)
    ensures
        opt_tree(r) == member_of(opt_tree(value), key@),
{
    match value {
        Some(v) => v.get(key),
        None => None,
    }
}

fn clean_text_in(value: Option<&Json>, key: &str) -> (r: Option<String>)
    ensures
        opt(r) == cleaned(tree_text(member_of(opt_tree(value), key@))),
{
    match value {
        Some(v) => json_string(v, key),
        None => None,
    }
}

fn text_in_is(value: Option<&Json>, key: &str, expected: &str) -> (r: bool)
    ensures
        r == (tree_text(member_of(opt_tree(value), key@)) == Some(expected@)),
{
    match get_in(value, key) {
        Some(v) => match v.as_str() {
            Some(s) => same(s, expected),
            None => false,
        },
        None => false,
    }
}

/// Reads a callback of a card, given what its value was read as and what tells it
/// apart from others.
pub fn card_action_event(
    raw: &Json,
    choice: &Result<SlashChoiceValue, String>,
    digest: Option<String>,
    provider_id: &str,
    now_ms: u64,
) -> (r: Result<Option<ImEvent>, String>)
    ensures
        action_view(r) == card_action(raw@, choice_view(*choice), opt(digest), provider_id@, now_ms),
{
    let header = raw.get("header");
    if !text_in_is(header, "event_type", "card.action.trigger") {
        return Ok(None);
    }
    let event_id = match clean_text_in(header, "event_id") {
        Some(id) => id,
        None => {
            return Err(owned("card action is missing header.event_id"));
        },
    };
    let event = get_object(Some(raw), "event");
    if event.is_none() {
        return Err(owned("card action is missing event"));
    }
    let operator_id = match clean_text_in(get_in(event, "operator"), "open_id") {
        Some(id) => id,
        None => {
            return Err(owned("card action is missing event.operator.open_id"));
        },
    };
    let action = get_object(event, "action");
    if action.is_none() {
        return Err(owned("card action is missing event.action"));
    }
    if !text_in_is(action, "tag", "button") {
        return Err(owned("card action does not originate from a button"));
    }
    let value = match get_in(action, "value") {
        Some(v) => v,
        None => {
            return Err(owned("card action is missing event.action.value"));
        },
    };
    let choice = match choice {
        Ok(c) => c,
        Err(e) => {
            return Err(concat2("invalid card action value: ", e.as_str()));
        },
    };
    let context = get_object(event, "context");
    if context.is_none() {
        return Err(owned("card action is missing event.context"));
    }
    let open_chat_id = match clean_text_in(context, "open_chat_id") {
        Some(id) => id,
        None => {
            return Err(owned("card action is missing event.context.open_chat_id"));
        },
    };
    if clean_text_in(context, "open_message_id").is_none() {
        return Err(owned("card action is missing event.context.open_message_id"));
    }
    if let Err(e) = validate_slash_choice_value(
        choice,
        provider_id,
        operator_id.as_str(),
        open_chat_id.as_str(),
        now_ms,
    ) {
        return Err(e);
    }
    let message = ImEventMessage {
        text: owned(trim(choice.command.as_str())),
        mentions: Vec::new(),
        images: Vec::new(),
        files: Vec::new(),
        reply_to: None,
        raw_type: Some(owned("interactive_callback")),
        raw_content: Some(value.copy()),
        create_time: None,
        update_time: None,
        root_id: None,
        parent_id: None,
        thread_id: None,
    };
    let made = ImEvent {
        event_id,
        provider_id: owned(provider_id),
        provider_type: ImProviderType::Feishu,
        event_type: owned("message.receive"),
        source: ImEventSource {
            chat_id: Some(open_chat_id),
            chat_type: Some(choice.chat_type.clone()),
            user_id: Some(operator_id),
            user_name: None,
            sender_type: Some(owned("user")),
            message_id: None,
        },
        message: Some(message),
        received_at: now_ms,
        raw_digest: digest,
    };
    proof {
        assert(made@.message->Some_0.mentions =~= Seq::empty());
        assert(made@.message->Some_0.images =~= Seq::empty());
        assert(made@.message->Some_0.files =~= Seq::empty());
    }
    Ok(Some(made))
}

/// The value that a click sent back.
pub open spec fn click_value(raw: Tree) -> Option<Tree> {
    member_of(object_in(object_in(Some(raw), "event"@), "action"@), "value"@)
}

/// What the value of a click is read as, or else the words for why it cannot be
/// read.
pub open spec fn click_choice(raw: Tree, reading_error: Seq<char>) -> Result<
    ChoiceView,
    Seq<char>,
> {
    match click_value(raw) {
        Some(value) => match choice_in(value) {
            Some(v) => Ok(v),
            None => Err(reading_error),
        },
        None => Err(reading_error),
    }
}

fn read_click_choice(raw: &Json, reading_error: &str) -> (r: Result<SlashChoiceValue, String>)
    ensures
        choice_view(r) == click_choice(raw@, reading_error@),
{
    let value = get_in(get_object(get_object(Some(raw), "event"), "action"), "value");
    match value {
        Some(v) => match read_slash_choice(v) {
            Some(c) => Ok(c),
            None => Err(owned(reading_error)),
        },
        None => Err(owned(reading_error)),
    }
}

/// Turns a callback of a card into the message that it stands for.
/// `reading_error` is what is said of a value that cannot be read.
pub fn normalize_feishu_card_action(
    raw: &Json,
    reading_error: &str,
    provider_id: &str,
    now_ms: u64,
) -> (r: Result<Option<ImEvent>, String>)
    ensures
        action_view(r) == card_action(
            raw@,
            click_choice(raw@, reading_error@),
            raw_digest_of(raw@),
            provider_id@,
            now_ms,
        ),
{
    let choice = read_click_choice(raw, reading_error);
    card_action_event(raw, &choice, raw_digest(raw), provider_id, now_ms)
}

// ---------------------------------------------------------------------------
// Laws of cards
// ---------------------------------------------------------------------------

/// A click that is let through sent back a choice that was made for the user, the
/// chat and the provider that it came from, in time, and stands for a command
/// that a button may stand for. What it becomes is a message of that user in that
/// chat with just that command.
pub proof fn lemma_only_bound_clicks_pass(
    raw: Tree,
    reading_error: Seq<char>,
    digest: Option<Seq<char>>,
    provider_id: Seq<char>,
    now_ms: u64,
)
    ensures
        card_action(
            raw,
            click_choice(raw, reading_error),
            digest,
            provider_id,
            now_ms,
        ) matches Ok(Some(e)) ==> {
            &&& click_value(raw) is Some
            &&& choice_in(click_value(raw)->Some_0) is Some
            &&& ({
                let v = choice_in(click_value(raw)->Some_0)->Some_0;
                &&& v.bifrost_action == SLASH_CHOICE_ACTION@
                &&& v.provider_id == provider_id
                &&& e.provider_id == provider_id
                &&& e.source.user_id == Some(v.user_id)
                &&& e.source.chat_id == Some(v.chat_id)
                &&& now_ms < v.expires_at_ms
                &&& choice_command_allowed(v.command)
                &&& e.message matches Some(m) && m.text == trimmed(v.command)
                &&& e.received_at == now_ms
            })
        },
{
}

/// What a button of a card sends back is read as the choice that it was made for,
/// and is accepted from that user in that chat until the card expires, and not
/// from then on.
pub proof fn lemma_own_card_is_accepted(
    b: BindingView,
    command: Seq<char>,
    made_ms: u64,
    now_ms: u64,
)
    requires
        b.chat_type == "p2p"@ || b.chat_type == "group"@,
        choice_command_allowed(command),
    ensures
        ({
            let read = choice_in(callback_value(b, command, card_expiry(made_ms)));
            &&& read is Some
            &&& read->Some_0.command == command
            &&& choice_fault(read->Some_0, b.provider_id, b.user_id, b.chat_id, now_ms) is None
                <==> now_ms < card_expiry(made_ms)
        }),
{
    lemma_callback_reads_back(b, command, card_expiry(made_ms));
}

proof fn lemma_callback_reads_back(b: BindingView, command: Seq<char>, expires: u64)
    ensures
        choice_in(callback_value(b, command, expires)) == Some(
            ChoiceView {
                bifrost_action: SLASH_CHOICE_ACTION@,
                provider_id: b.provider_id,
                chat_id: b.chat_id,
                chat_type: b.chat_type,
                user_id: b.user_id,
                command,
                expires_at_ms: expires,
            },
        ),
{
    reveal_strlit("bifrostAction");
    reveal_strlit("providerId");
    reveal_strlit("chatId");
    reveal_strlit("chatType");
    reveal_strlit("userId");
    reveal_strlit("command");
    reveal_strlit("expiresAtMs");
    assert("bifrostAction"@.len() == 13 && "providerId"@.len() == 10 && "chatId"@.len() == 6
        && "chatType"@.len() == 8 && "userId"@.len() == 6 && "command"@.len() == 7
        && "expiresAtMs"@.len() == 11);
    assert("chatId"@[0] == 'c' && "userId"@[0] == 'u');
    let m = callback_value(b, command, expires)->Object_0;
    let m1 = m.drop_first();
    let m2 = m1.drop_first();
    let m3 = m2.drop_first();
    let m4 = m3.drop_first();
    let m5 = m4.drop_first();
    let m6 = m5.drop_first();
    assert(m.len() == 7);
    assert(m1[0] == m[1] && m2[0] == m[2] && m3[0] == m[3] && m4[0] == m[4] && m5[0] == m[5]
        && m6[0] == m[6]);
    reveal_with_fuel(find_member, 8);
    assert(find_member(m, "bifrostAction"@) == Some(m[0].1));
    assert(find_member(m, "providerId"@) == Some(m[1].1));
    assert(find_member(m, "chatId"@) == Some(m[2].1));
    assert(find_member(m, "chatType"@) == Some(m[3].1));
    assert(find_member(m, "userId"@) == Some(m[4].1));
    assert(find_member(m, "command"@) == Some(m[5].1));
    assert(find_member(m, "expiresAtMs"@) == Some(m[6].1));
}

} // verus!
