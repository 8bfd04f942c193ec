//! Models and reasoning effort: chat commands, catalogs and what a run will use.

use vstd::prelude::*;
use vstd::string::*;

use crate::agent_config::{
    claude_product, claude_product_text, claude_title, claude_title_text, claude_word,
    claude_word_text, clean_opt, clean_optional_string, cleaned, CLAUDE_CODE_ADAPTER, DEFAULT_ADAPTER,
    TRAEX_ADAPTER,
};
use crate::json::opt_str;
use crate::map::{text_is_less, text_less};
use crate::progress::or_text;
use crate::sort::{
    in_order, lemma_ranked, lemma_ranked_map, ranked, sort_ranked, Comparable, Ranked,
};
use crate::text::{
    byte_len, concat2, concat3, copy_opt, cut, cut_text, decimal, decimal_text,
    ends_with, has_only_letters_digits_and, has_suffix, join, joined, list_contains, lowered,
    only_letters_digits_and, opt, owned, push_text, same, same_ignoring_case, texts, to_lower,
    trim, trimmed, word_len,
};

verus! {

broadcast use vstd::string::group_string_axioms;

/// `/models` and `/model`.
#[derive(Debug, PartialEq, Eq)]
pub enum ExternalCliModelSlashCommand {
    List,
    Show,
    Clear,
    Select(String),
}

/// `/efforts` and `/effort`.
#[derive(Debug, PartialEq, Eq)]
pub enum ExternalCliEffortSlashCommand {
    List,
    Show,
    Clear,
    Select(String),
}

/// The mathematical view of either command.
pub enum SlashView {
    List,
    Show,
    Clear,
    Select(Seq<char>),
}

impl View for ExternalCliModelSlashCommand {
    type V = SlashView;

    open spec fn view(&self) -> SlashView {
        match self {
            ExternalCliModelSlashCommand::List => SlashView::List,
            ExternalCliModelSlashCommand::Show => SlashView::Show,
            ExternalCliModelSlashCommand::Clear => SlashView::Clear,
            ExternalCliModelSlashCommand::Select(s) => SlashView::Select(s@),
        }
    }
}

impl View for ExternalCliEffortSlashCommand {
    type V = SlashView;

    open spec fn view(&self) -> SlashView {
        match self {
            ExternalCliEffortSlashCommand::List => SlashView::List,
            ExternalCliEffortSlashCommand::Show => SlashView::Show,
            ExternalCliEffortSlashCommand::Clear => SlashView::Clear,
            ExternalCliEffortSlashCommand::Select(s) => SlashView::Select(s@),
        }
    }
}

// ---------------------------------------------------------------------------
// Chat commands
// ---------------------------------------------------------------------------

/// The first word of a message.
pub open spec fn command_word(message: Seq<char>) -> Seq<char> {
    trimmed(message).take(word_len(trimmed(message)) as int)
}

/// What follows the first word of a message.
pub open spec fn command_rest(message: Seq<char>) -> Seq<char> {
    trimmed(trimmed(message).skip(word_len(trimmed(message)) as int))
}

/// Splits a message into its first word and the rest.
pub fn split_command<'a>(message: &'a str) -> (r: (&'a str, &'a str))
    ensures
        r.0@ == command_word(message@),
        r.1@ == command_rest(message@),
{
    let t = trim(message);
    let chars = crate::text::chars_of(t);
    let n: usize = chars.len();
    let mut i: usize = 0;
    proof {
        crate::text::lemma_word_len(t@);
    }
    while i < n && !crate::text::char_is_white(chars[i])
        invariant
            i <= n,
            n == chars@.len(),
            chars@ == t@,
            i <= word_len(t@) <= n,
            word_len(t@) < n ==> crate::text::is_white(t@[word_len(t@) as int]),
        decreases n - i,
    {
        i = i + 1;
    }
    proof {
        assert(forall|k: int| 0 <= k < word_len(t@) ==> !crate::text::is_white(#[trigger] t@[k]));
    }
    (t.substring_char(0, i), trim(t.substring_char(i, n)))
}

/// Why a text is no model name, if it is none.
pub open spec fn slug_fault(value: Seq<char>) -> Option<Seq<char>> {
    let v = trimmed(value);
    if v.len() == 0 {
        Some("用法: /model <model-slug>"@)
    } else if byte_len(v) > 128 {
        Some("模型名称过长，请使用 128 个字符以内的模型 slug。"@)
    } else if !only_letters_digits_and(v, "._-/:@"@) {
        Some("模型名称只能包含字母、数字、点、下划线、短横线、斜杠、冒号或 @。"@)
    } else {
        None
    }
}

/// Why a text is no reasoning effort, if it is none.
pub open spec fn effort_fault(value: Seq<char>) -> Option<Seq<char>> {
    let v = trimmed(value);
    if v.len() == 0 {
        Some("用法: /effort <level>"@)
    } else if byte_len(v) > 32 {
        Some("Reasoning Effort 过长，请使用 32 个字符以内的 level。"@)
    } else if !only_letters_digits_and(v, "_-"@) {
        Some("Reasoning Effort 只能包含字母、数字、下划线或短横线。"@)
    } else {
        None
    }
}

/// The view of a check that may fail with a reason.
pub open spec fn fault_of(r: Result<(), String>) -> Option<Seq<char>> {
    match r {
        Ok(_) => None,
        Err(e) => Some(e@),
    }
}

pub fn validate_external_model_slug(value: &str) -> (r: Result<(), String>)
    ensures
        fault_of(r) == slug_fault(value@),
{
    let v = trim(value);
    if v.is_empty() {
        return Err(owned("用法: /model <model-slug>"));
    }
    if v.len() > 128 {
        return Err(owned("模型名称过长，请使用 128 个字符以内的模型 slug。"));
    }
    if !has_only_letters_digits_and(v, "._-/:@") {
        return Err(owned("模型名称只能包含字母、数字、点、下划线、短横线、斜杠、冒号或 @。"));
    }
    Ok(())
}

pub fn validate_external_effort_value(value: &str) -> (r: Result<(), String>)
    ensures
        fault_of(r) == effort_fault(value@),
{
    let v = trim(value);
    if v.is_empty() {
        return Err(owned("用法: /effort <level>"));
    }
    if v.len() > 32 {
        return Err(owned("Reasoning Effort 过长，请使用 32 个字符以内的 level。"));
    }
    if !has_only_letters_digits_and(v, "_-") {
        return Err(owned("Reasoning Effort 只能包含字母、数字、下划线或短横线。"));
    }
    Ok(())
}

/// The model command that a message is, if it is one.
pub open spec fn model_slash(message: Seq<char>) -> Option<Result<SlashView, Seq<char>>> {
    let word = lowered(command_word(message));
    let rest = command_rest(message);
    if word == lowered("/models"@) {
        if rest.len() == 0 {
            Some(Ok(SlashView::List))
        } else {
            Some(Err("用法: /models"@))
        }
    } else if word != lowered("/model"@) {
        None
    } else if rest.len() == 0 {
        Some(Ok(SlashView::Show))
    } else if lowered(rest) == "clear"@ || lowered(rest) == "reset"@ || lowered(rest)
        == "default"@ {
        Some(Ok(SlashView::Clear))
    } else {
        match slug_fault(rest) {
            Some(reason) => Some(Err(reason)),
            None => Some(Ok(SlashView::Select(rest))),
        }
    }
}

/// The effort command that a message is, if it is one.
pub open spec fn effort_slash(message: Seq<char>) -> Option<Result<SlashView, Seq<char>>> {
    let word = lowered(command_word(message));
    let rest = command_rest(message);
    if word == lowered("/efforts"@) {
        if rest.len() == 0 {
            Some(Ok(SlashView::List))
        } else {
            Some(Err("用法: /efforts"@))
        }
    } else if word != lowered("/effort"@) {
        None
    } else if rest.len() == 0 {
        Some(Ok(SlashView::Show))
    } else if lowered(rest) == "clear"@ || lowered(rest) == "reset"@ || lowered(rest)
        == "default"@ || lowered(rest) == "auto"@ {
        Some(Ok(SlashView::Clear))
    } else {
        match effort_fault(rest) {
            Some(reason) => Some(Err(reason)),
            None => Some(Ok(SlashView::Select(lowered(rest)))),
        }
    }
}

/// Reads `/models` and `/model`.
pub fn parse_external_cli_model_slash_command(message: &str) -> (r: Option<
    Result<ExternalCliModelSlashCommand, String>,
>)
    ensures
        match r {
            None => model_slash(message@) is None,
            Some(Ok(c)) => model_slash(message@) == Some(Ok::<SlashView, Seq<char>>(c@)),
            Some(Err(e)) => model_slash(message@) == Some(Err::<SlashView, Seq<char>>(e@)),
        },
{
    let (command, rest) = split_command(message);
    if same_ignoring_case(command, "/models") {
        if rest.is_empty() {
            return Some(Ok(ExternalCliModelSlashCommand::List));
        }
        return Some(Err(owned("用法: /models")));
    }
    if !same_ignoring_case(command, "/model") {
        return None;
    }
    if rest.is_empty() {
        return Some(Ok(ExternalCliModelSlashCommand::Show));
    }
    let lower = to_lower(rest);
    let l = lower.as_str();
    if same(l, "clear") || same(l, "reset") || same(l, "default") {
        return Some(Ok(ExternalCliModelSlashCommand::Clear));
    }
    match validate_external_model_slug(rest) {
        Err(reason) => Some(Err(reason)),
        Ok(_) => Some(Ok(ExternalCliModelSlashCommand::Select(owned(rest)))),
    }
}

/// Reads `/efforts` and `/effort`.
pub fn parse_external_cli_effort_slash_command(message: &str) -> (r: Option<
    Result<ExternalCliEffortSlashCommand, String>,
>)
    ensures
        match r {
            None => effort_slash(message@) is None,
            Some(Ok(c)) => effort_slash(message@) == Some(Ok::<SlashView, Seq<char>>(c@)),
            Some(Err(e)) => effort_slash(message@) == Some(Err::<SlashView, Seq<char>>(e@)),
        },
{
    let (command, rest) = split_command(message);
    if same_ignoring_case(command, "/efforts") {
        if rest.is_empty() {
            return Some(Ok(ExternalCliEffortSlashCommand::List));
        }
        return Some(Err(owned("用法: /efforts")));
    }
    if !same_ignoring_case(command, "/effort") {
        return None;
    }
    if rest.is_empty() {
        return Some(Ok(ExternalCliEffortSlashCommand::Show));
    }
    let lower = to_lower(rest);
    let l = lower.as_str();
    if same(l, "clear") || same(l, "reset") || same(l, "default") || same(l, "auto") {
        return Some(Ok(ExternalCliEffortSlashCommand::Clear));
    }
    match validate_external_effort_value(rest) {
        Err(reason) => Some(Err(reason)),
        Ok(_) => Some(Ok(ExternalCliEffortSlashCommand::Select(to_lower(rest)))),
    }
}

// ---------------------------------------------------------------------------
// Labels and options
// ---------------------------------------------------------------------------

pub open spec fn adapter_label(adapter: Seq<char>) -> Seq<char> {
    let a = trimmed(adapter);
    if a == DEFAULT_ADAPTER@ {
        "Codex"@
    } else if a == TRAEX_ADAPTER@ {
        "Traex"@
    } else if a == CLAUDE_CODE_ADAPTER@ {
        claude_product()
    } else {
        "External CLI"@
    }
}

pub open spec fn knows_models(adapter: Seq<char>) -> bool {
    let a = trimmed(adapter);
    a == DEFAULT_ADAPTER@ || a == TRAEX_ADAPTER@ || a == CLAUDE_CODE_ADAPTER@
}

pub open spec fn default_model_label(adapter: Seq<char>) -> Option<(Seq<char>, Seq<char>)> {
    let a = trimmed(adapter);
    if a == DEFAULT_ADAPTER@ {
        Some(("Codex default model (not explicitly configured)"@, "codex default"@))
    } else if a == TRAEX_ADAPTER@ {
        Some(("Trae default model (not explicitly configured)"@, "trae default"@))
    } else if a == CLAUDE_CODE_ADAPTER@ {
        Some(
            (
                claude_product() + " default model (not explicitly configured)"@,
                claude_word() + " code default"@,
            ),
        )
    } else {
        None
    }
}

pub open spec fn effort_options(adapter: Seq<char>) -> Seq<Seq<char>> {
    let a = trimmed(adapter);
    if a == CLAUDE_CODE_ADAPTER@ {
        seq!["low"@, "medium"@, "high"@, "xhigh"@, "max"@]
    } else if a == DEFAULT_ADAPTER@ || a == TRAEX_ADAPTER@ {
        seq!["minimal"@, "low"@, "medium"@, "high"@, "xhigh"@]
    } else {
        Seq::empty()
    }
}

/// How an adapter is called in messages.
pub fn external_cli_model_adapter_label(adapter: &str) -> (r: String)
    ensures
        r@ == adapter_label(adapter@),
{
    let a = trim(adapter);
    if same(a, DEFAULT_ADAPTER) {
        owned("Codex")
    } else if same(a, TRAEX_ADAPTER) {
        owned("Traex")
    } else if same(a, CLAUDE_CODE_ADAPTER) {
        claude_product_text()
    } else {
        owned("External CLI")
    }
}

/// Whether an adapter answers the model commands.
pub fn supports_external_cli_model_slash(adapter: &str) -> (r: bool)
    ensures
        r == knows_models(adapter@),
{
    let a = trim(adapter);
    same(a, DEFAULT_ADAPTER) || same(a, TRAEX_ADAPTER) || same(a, CLAUDE_CODE_ADAPTER)
}

/// How the default model of an adapter is called, and where it comes from.
pub fn external_cli_default_model_label(adapter: &str) -> (r: Option<(String, String)>)
    ensures
        match r {
            Some((label, source)) => default_model_label(adapter@) == Some((label@, source@)),
            None => default_model_label(adapter@) is None,
        },
{
    let a = trim(adapter);
    if same(a, DEFAULT_ADAPTER) {
        Some(
            (
                owned("Codex default model (not explicitly configured)"),
                owned("codex default"),
            ),
        )
    } else if same(a, TRAEX_ADAPTER) {
        Some(
            (owned("Trae default model (not explicitly configured)"), owned("trae default")),
        )
    } else if same(a, CLAUDE_CODE_ADAPTER) {
        Some(
            (
                concat2(
                    claude_product_text().as_str(),
                    " default model (not explicitly configured)",
                ),
                concat2(claude_word_text().as_str(), " code default"),
            ),
        )
    } else {
        None
    }
}

/// The reasoning efforts that an adapter knows.
pub fn external_cli_effort_options(adapter: &str) -> (r: Vec<String>)
    ensures
        texts(r@) == effort_options(adapter@),
{
    let a = trim(adapter);
    let mut out: Vec<String> = Vec::new();
    if same(a, CLAUDE_CODE_ADAPTER) {
        push_text(&mut out, "low");
        push_text(&mut out, "medium");
        push_text(&mut out, "high");
        push_text(&mut out, "xhigh");
        push_text(&mut out, "max");
    } else if same(a, DEFAULT_ADAPTER) || same(a, TRAEX_ADAPTER) {
        push_text(&mut out, "minimal");
        push_text(&mut out, "low");
        push_text(&mut out, "medium");
        push_text(&mut out, "high");
        push_text(&mut out, "xhigh");
    }
    proof {
        assert(texts(out@) =~= effort_options(adapter@));
    }
    out
}

// ---------------------------------------------------------------------------
// Model catalogs
// ---------------------------------------------------------------------------

/// A reasoning effort that a model supports.
#[derive(Debug, PartialEq, Eq)]
pub struct ExternalCliReasoningLevelInfo {
    pub effort: String,
    pub description: Option<String>,
}

/// A service tier that a model is offered in.
#[derive(Debug, PartialEq, Eq)]
pub struct ExternalCliServiceTierInfo {
    pub id: String,
    pub name: Option<String>,
    pub description: Option<String>,
}

/// A model that a runner offers.
#[derive(Debug, PartialEq, Eq)]
pub struct ExternalCliModelInfo {
    pub slug: String,
    pub display_name: Option<String>,
    pub description: Option<String>,
    pub default_reasoning_level: Option<String>,
    pub supported_reasoning_levels: Vec<ExternalCliReasoningLevelInfo>,
    pub visibility: Option<String>,
    pub supported_in_api: Option<bool>,
    pub additional_speed_tiers: Vec<String>,
    pub service_tiers: Vec<ExternalCliServiceTierInfo>,
    pub model_load: Option<String>,
    pub priority: Option<i64>,
}

/// The mathematical view of a model.
#[verifier::ext_equal]
pub struct ModelView {
    pub slug: Seq<char>,
    pub display_name: Option<Seq<char>>,
    pub description: Option<Seq<char>>,
    pub default_reasoning_level: Option<Seq<char>>,
    pub supported_reasoning_levels: Seq<(Seq<char>, Option<Seq<char>>)>,
    pub visibility: Option<Seq<char>>,
    pub supported_in_api: Option<bool>,
    pub additional_speed_tiers: Seq<Seq<char>>,
    pub service_tiers: Seq<(Seq<char>, Option<Seq<char>>, Option<Seq<char>>)>,
    pub model_load: Option<Seq<char>>,
    pub priority: Option<i64>,
}

pub open spec fn level_views(v: Seq<ExternalCliReasoningLevelInfo>) -> Seq<
    (Seq<char>, Option<Seq<char>>),
> {
    v.map_values(|l: ExternalCliReasoningLevelInfo| (l.effort@, opt(l.description)))
}

pub open spec fn tier_views(v: Seq<ExternalCliServiceTierInfo>) -> Seq<
    (Seq<char>, Option<Seq<char>>, Option<Seq<char>>),
> {
    v.map_values(|t: ExternalCliServiceTierInfo| (t.id@, opt(t.name), opt(t.description)))
}

impl View for ExternalCliModelInfo {
    type V = ModelView;

    open spec fn view(&self) -> ModelView {
        ModelView {
            slug: self.slug@,
            display_name: opt(self.display_name),
            description: opt(self.description),
            default_reasoning_level: opt(self.default_reasoning_level),
            supported_reasoning_levels: level_views(self.supported_reasoning_levels@),
            visibility: opt(self.visibility),
            supported_in_api: self.supported_in_api,
            additional_speed_tiers: texts(self.additional_speed_tiers@),
            service_tiers: tier_views(self.service_tiers@),
            model_load: opt(self.model_load),
            priority: self.priority,
        }
    }
}

/// A model of which nothing is known.
pub open spec fn unknown_model() -> ModelView {
    ModelView {
        slug: Seq::empty(),
        display_name: None,
        description: None,
        default_reasoning_level: None,
        supported_reasoning_levels: Seq::empty(),
        visibility: None,
        supported_in_api: None,
        additional_speed_tiers: Seq::empty(),
        service_tiers: Seq::empty(),
        model_load: None,
        priority: None,
    }
}

impl Default for ExternalCliModelInfo {
    fn default() -> (r: Self)
        ensures
            r@ == unknown_model(),
    {
        let r = ExternalCliModelInfo {
            slug: String::new(),
            display_name: None,
            description: None,
            default_reasoning_level: None,
            supported_reasoning_levels: Vec::new(),
            visibility: None,
            supported_in_api: None,
            additional_speed_tiers: Vec::new(),
            service_tiers: Vec::new(),
            model_load: None,
            priority: None,
        };
        proof {
            assert(r@ =~= unknown_model());
        }
        r
    }
}

pub open spec fn model_views(v: Seq<ExternalCliModelInfo>) -> Seq<ModelView> {
    v.map_values(|m: ExternalCliModelInfo| m@)
}

/// `label` before a value, when there is one.
pub open spec fn labelled(label: Seq<char>, value: Option<Seq<char>>) -> Seq<Seq<char>> {
    match value {
        Some(v) => seq![label + v],
        None => Seq::empty(),
    }
}

/// What a catalog says of a model in brackets.
pub open spec fn model_extras(m: ModelView) -> Seq<Seq<char>> {
    labelled("reasoning: "@, m.default_reasoning_level) + (if m.additional_speed_tiers.len() == 0 {
        Seq::empty()
    } else {
        seq!["tiers: "@ + joined(m.additional_speed_tiers, ","@)]
    }) + labelled("Model load: "@, m.model_load) + labelled("visibility: "@, m.visibility)
}

/// The lines of a catalog on one model.
pub open spec fn model_lines(m: ModelView) -> Seq<Seq<char>> {
    let extras = model_extras(m);
    let suffix = if extras.len() == 0 {
        Seq::empty()
    } else {
        " ("@ + joined(extras, "; "@) + ")"@
    };
    seq!["- `"@ + m.slug + "` - "@ + or_text(m.display_name, m.slug) + suffix] + (
    match m.description {
        Some(d) => seq!["  "@ + cut(d, 140)],
        None => Seq::empty(),
    })
}

pub open spec fn catalog_lines(models: Seq<ModelView>) -> Seq<Seq<char>>
    decreases models.len(),
{
    if models.len() == 0 {
        Seq::empty()
    } else {
        catalog_lines(models.drop_last()) + model_lines(models.last())
    }
}

/// A catalog as text: at most forty models, and how many there are besides.
pub open spec fn catalog_text(adapter: Seq<char>, models: Seq<ModelView>) -> Seq<char> {
    let label = adapter_label(adapter);
    if models.len() == 0 {
        label + " 当前没有返回可展示的模型。"@
    } else {
        let shown = if models.len() > 40 {
            models.take(40)
        } else {
            models
        };
        joined(
            seq![label + " 可用模型:"@] + catalog_lines(shown) + (if models.len() > 40 {
                seq!["... 另有 "@ + decimal((models.len() - 40) as nat) + " 个模型未展示"@]
            } else {
                Seq::empty()
            }),
            "\n"@,
        )
    }
}

fn push_labelled(v: &mut Vec<String>, label: &str, value: &Option<String>)
    ensures
        texts(final(v)@) == texts(old(v)@) + labelled(label@, opt(*value)),
{
    let ghost start = texts(v@);
    match value {
        Some(s) => {
            let text = concat2(label, s.as_str());
            push_text(v, text.as_str());
        },
        None => {},
    }
    proof {
        assert(texts(v@) =~= start + labelled(label@, opt(*value)));
    }
}

fn push_model_lines(lines: &mut Vec<String>, m: &ExternalCliModelInfo)
    ensures
        texts(final(lines)@) == texts(old(lines)@) + model_lines(m@),
{
    let ghost start = texts(lines@);
    let mut extras: Vec<String> = Vec::new();
    push_labelled(&mut extras, "reasoning: ", &m.default_reasoning_level);
    proof {
        assert(texts(extras@) =~= labelled("reasoning: "@, m@.default_reasoning_level));
        assert(texts(m.additional_speed_tiers@).len() == m.additional_speed_tiers@.len());
    }
    let ghost so_far = texts(extras@);
    if m.additional_speed_tiers.len() > 0 {
        let tiers = join(&m.additional_speed_tiers, ",");
        let text = concat2("tiers: ", tiers.as_str());
        push_text(&mut extras, text.as_str());
        proof {
            assert(texts(extras@) =~= so_far + seq![
                "tiers: "@ + joined(m@.additional_speed_tiers, ","@),
            ]);
        }
    } else {
        proof {
            assert(so_far + Seq::<Seq<char>>::empty() =~= so_far);
        }
    }
    push_labelled(&mut extras, "Model load: ", &m.model_load);
    push_labelled(&mut extras, "visibility: ", &m.visibility);
    proof {
        assert(texts(extras@) == model_extras(m@));
        assert(texts(extras@).len() == extras@.len());
    }
    let mut line = concat3("- `", m.slug.as_str(), "` - ");
    match &m.display_name {
        Some(name) => line.append(name.as_str()),
        None => line.append(m.slug.as_str()),
    }
    let suffix = if extras.len() == 0 {
        String::new()
    } else {
        let list = join(&extras, "; ");
        concat3(" (", list.as_str(), ")")
    };
    line.append(suffix.as_str());
    push_text(lines, line.as_str());
    match &m.description {
        Some(d) => {
            let short = cut_text(d.as_str(), 140);
            let text = concat2("  ", short.as_str());
            push_text(lines, text.as_str());
        },
        None => {},
    }
    proof {
        assert(texts(lines@) =~= start + model_lines(m@));
    }
}

/// Shows a catalog of models.
pub fn format_external_cli_model_catalog(adapter: &str, models: &Vec<ExternalCliModelInfo>) -> (r:
    String)
    ensures
        r@ == catalog_text(adapter@, model_views(models@)),
{
    let label_text = external_cli_model_adapter_label(adapter);
    let label = label_text.as_str();
    let n: usize = models.len();
    let ghost all = model_views(models@);
    if n == 0 {
        return concat2(label, " 当前没有返回可展示的模型。");
    }
    let shown: usize = if n > 40 {
        40
    } else {
        n
    };
    let mut lines: Vec<String> = Vec::new();
    let title = concat2(label, " 可用模型:");
    push_text(&mut lines, title.as_str());
    let ghost head = seq![adapter_label(adapter@) + " 可用模型:"@];
    let mut i: usize = 0;
    proof {
        assert(all.take(0) =~= Seq::empty());
        assert(texts(lines@) =~= head + catalog_lines(all.take(0)));
    }
    while i < shown
        invariant
            i <= shown <= n,
            n == models@.len(),
            all == model_views(models@),
            texts(lines@) == head + catalog_lines(all.take(i as int)),
        decreases shown - i,
    {
        push_model_lines(&mut lines, &models[i]);
        proof {
            assert(all.take(i + 1).drop_last() =~= all.take(i as int));
            assert(all.take(i + 1).last() == models@[i as int]@);
            assert(texts(lines@) =~= head + catalog_lines(all.take(i + 1)));
        }
        i = i + 1;
    }
    let ghost so_far = texts(lines@);
    if n > 40 {
        let count = decimal_text((n - 40) as u64);
        let text = concat3("... 另有 ", count.as_str(), " 个模型未展示");
        push_text(&mut lines, text.as_str());
        proof {
            assert(texts(lines@) =~= so_far + seq![
                "... 另有 "@ + decimal((all.len() - 40) as nat) + " 个模型未展示"@,
            ]);
        }
    } else {
        proof {
            assert(all.take(i as int) =~= all);
            assert(so_far + Seq::<Seq<char>>::empty() =~= so_far);
        }
    }
    join(&lines, "\n")
}

// ---------------------------------------------------------------------------
// Choosing a model
// ---------------------------------------------------------------------------

/// The first model with exactly that name.
pub open spec fn named_model(models: Seq<ModelView>, slug: Seq<char>) -> Option<ModelView>
    decreases models.len(),
{
    if models.len() == 0 {
        None
    } else if models[0].slug == slug {
        Some(models[0])
    } else {
        named_model(models.drop_first(), slug)
    }
}

/// The first model with that name, up to the case of letters.
pub open spec fn similar_model(models: Seq<ModelView>, slug: Seq<char>) -> Option<ModelView>
    decreases models.len(),
{
    if models.len() == 0 {
        None
    } else if lowered(models[0].slug) == lowered(slug) {
        Some(models[0])
    } else {
        similar_model(models.drop_first(), slug)
    }
}

/// The names of some models in backquotes.
pub open spec fn quoted_slugs(models: Seq<ModelView>) -> Seq<Seq<char>> {
    models.map_values(|m: ModelView| "`"@ + m.slug + "`"@)
}

pub open spec fn available_models(models: Seq<ModelView>) -> Seq<char> {
    let shown = if models.len() > 8 {
        models.take(8)
    } else {
        models
    };
    joined(quoted_slugs(shown), ", "@) + (if models.len() > 8 {
        " 等 "@ + decimal(models.len()) + " 个"@
    } else {
        Seq::empty()
    })
}

/// The model that a request settles on, or why it is refused. `claude_code` takes
/// any well-formed name; the other agents take only names of their catalog.
pub open spec fn model_choice(
    adapter: Seq<char>,
    requested: Seq<char>,
    models: Seq<ModelView>,
) -> Result<Seq<char>, Seq<char>> {
    let wanted = trimmed(requested);
    let label = adapter_label(adapter);
    if trimmed(adapter) == CLAUDE_CODE_ADAPTER@ {
        match slug_fault(wanted) {
            Some(reason) => Err(reason),
            None => match similar_model(models, wanted) {
                Some(m) => Ok(m.slug),
                None => Ok(wanted),
            },
        }
    } else if named_model(models, wanted) is Some {
        Ok(wanted)
    } else if models.len() == 0 {
        Err(
            "未切换模型："@ + label + " 当前没有返回可展示的模型，不能设置为 `"@ + wanted
                + "`。"@,
        )
    } else {
        Err(
            "未切换模型：`"@ + wanted + "` 不在 "@ + label
                + " 可用模型列表中。\n可用模型包括: "@ + available_models(models)
                + "\n请发送 `/models` 查看完整列表。"@,
        )
    }
}

/// The view of a result whose both sides are texts.
pub open spec fn text_result(r: Result<String, String>) -> Result<Seq<char>, Seq<char>> {
    match r {
        Ok(s) => Ok(s@),
        Err(e) => Err(e@),
    }
}

fn find_similar_model<'a>(models: &'a Vec<ExternalCliModelInfo>, slug: &str) -> (r: Option<
    &'a ExternalCliModelInfo,
>)
    ensures
        match r {
            Some(m) => similar_model(model_views(models@), slug@) == Some(m@),
            None => similar_model(model_views(models@), slug@) is None,
        },
{
    let ghost all = model_views(models@);
    let mut i: usize = 0;
    proof {
        assert(all.skip(0) =~= all);
    }
    while i < models.len()
        invariant
            i <= models@.len(),
            all == model_views(models@),
            similar_model(all.skip(i as int), slug@) == similar_model(all, slug@),
        decreases models@.len() - i,
    {
        proof {
            assert(all.skip(i as int)[0] == models@[i as int]@);
            assert(all.skip(i as int).drop_first() =~= all.skip(i + 1));
        }
        if same_ignoring_case(models[i].slug.as_str(), slug) {
            return Some(&models[i]);
        }
        i = i + 1;
    }
    None
}

fn has_named_model(models: &Vec<ExternalCliModelInfo>, slug: &str) -> (r: bool)
    ensures
        r == (named_model(model_views(models@), slug@) is Some),
{
    let ghost all = model_views(models@);
    let mut i: usize = 0;
    proof {
        assert(all.skip(0) =~= all);
    }
    while i < models.len()
        invariant
            i <= models@.len(),
            all == model_views(models@),
            named_model(all.skip(i as int), slug@) == named_model(all, slug@),
        decreases models@.len() - i,
    {
        proof {
            assert(all.skip(i as int)[0] == models@[i as int]@);
            assert(all.skip(i as int).drop_first() =~= all.skip(i + 1));
        }
        if same(models[i].slug.as_str(), slug) {
            return true;
        }
        i = i + 1;
    }
    false
}

fn available_models_text(models: &Vec<ExternalCliModelInfo>) -> (r: String)
    ensures
        r@ == available_models(model_views(models@)),
{
    let n: usize = models.len();
    let ghost all = model_views(models@);
    let shown: usize = if n > 8 {
        8
    } else {
        n
    };
    let mut names: Vec<String> = Vec::new();
    let mut i: usize = 0;
    proof {
        assert(texts(names@) =~= quoted_slugs(all.take(0)));
    }
    while i < shown
        invariant
            i <= shown <= n,
            n == models@.len(),
            all == model_views(models@),
            texts(names@) == quoted_slugs(all.take(i as int)),
        decreases shown - i,
    {
        let ghost before = texts(names@);
        let name = concat3("`", models[i].slug.as_str(), "`");
        push_text(&mut names, name.as_str());
        proof {
            assert(quoted_slugs(all.take(i + 1)) =~= before.push(
                "`"@ + all[i as int].slug + "`"@,
            ));
        }
        i = i + 1;
    }
    let mut out = join(&names, ", ");
    let ghost list = out@;
    if n > 8 {
        let count = decimal_text(n as u64);
        let more = concat3(" 等 ", count.as_str(), " 个");
        out.append(more.as_str());
    } else {
        proof {
            assert(all.take(i as int) =~= all);
            assert(list + Seq::<char>::empty() =~= list);
        }
    }
    out
}

/// Checks a requested model against a catalog.
pub fn validate_external_cli_model_selection(
    adapter: &str,
    requested_model: &str,
    models: &Vec<ExternalCliModelInfo>,
) -> (r: Result<String, String>)
    ensures
        text_result(r) == model_choice(adapter@, requested_model@, model_views(models@)),
{
    let wanted = trim(requested_model);
    let label_text = external_cli_model_adapter_label(adapter);
    let label = label_text.as_str();
    if same(trim(adapter), CLAUDE_CODE_ADAPTER) {
        return match validate_external_model_slug(wanted) {
            Err(reason) => Err(reason),
            Ok(_) => match find_similar_model(models, wanted) {
                Some(m) => Ok(m.slug.clone()),
                None => Ok(owned(wanted)),
            },
        };
    }
    if has_named_model(models, wanted) {
        return Ok(owned(wanted));
    }
    if models.len() == 0 {
        let mut text = concat3(
            "未切换模型：",
            label,
            " 当前没有返回可展示的模型，不能设置为 `",
        );
        text.append(wanted);
        text.append("`。");
        return Err(text);
    }
    let available = available_models_text(models);
    let mut text = concat3("未切换模型：`", wanted, "` 不在 ");
    text.append(label);
    text.append(" 可用模型列表中。\n可用模型包括: ");
    text.append(available.as_str());
    text.append("\n请发送 `/models` 查看完整列表。");
    Err(text)
}

pub open spec fn status_text(
    head: Seq<char>,
    tail: Seq<char>,
    adapter: Seq<char>,
    effective: Option<Seq<char>>,
    source: Option<Seq<char>>,
    runner_id: Seq<char>,
    what: Seq<char>,
) -> Seq<char> {
    let label = adapter_label(adapter);
    match cleaned(effective) {
        Some(value) => "当前 "@ + label + " Runner `"@ + runner_id + what + value + "`\n来源: "@
            + or_text(source, "配置"@),
        None => "当前 "@ + label + " Runner `"@ + runner_id + head + label + tail,
    }
}

/// What a message says of the model in use.
pub open spec fn model_status(
    adapter: Seq<char>,
    effective: Option<Seq<char>>,
    source: Option<Seq<char>>,
    runner_id: Seq<char>,
) -> Seq<char> {
    status_text(
        "` 未设置模型 override，将使用 "@,
        " 默认模型。"@,
        adapter,
        effective,
        source,
        runner_id,
        "` 使用模型: `"@,
    )
}

/// What a message says of the reasoning effort in use.
pub open spec fn effort_status(
    adapter: Seq<char>,
    effective: Option<Seq<char>>,
    source: Option<Seq<char>>,
    runner_id: Seq<char>,
) -> Seq<char> {
    status_text(
        "` 未设置 Reasoning Effort override，将使用 "@,
        " 默认值。"@,
        adapter,
        effective,
        source,
        runner_id,
        "` 使用 Reasoning Effort: `"@,
    )
}

fn format_status(
    head: &str,
    tail: &str,
    adapter: &str,
    effective: Option<&str>,
    source: Option<&str>,
    runner_id: &str,
    what: &str,
) -> (r: String)
    ensures
        r@ == status_text(
            head@,
            tail@,
            adapter@,
            opt_str(effective),
            opt_str(source),
            runner_id@,
            what@,
        ),
{
    let label_text = external_cli_model_adapter_label(adapter);
    let label = label_text.as_str();
    let mut text = concat3("当前 ", label, " Runner `");
    text.append(runner_id);
    match clean_optional_string(effective) {
        Some(value) => {
            text.append(what);
            text.append(value.as_str());
            text.append("`\n来源: ");
            match source {
                Some(s) => text.append(s),
                None => text.append("配置"),
            }
        },
        None => {
            text.append(head);
            text.append(label);
            text.append(tail);
        },
    }
    text
}

/// Says which model a runner uses.
pub fn format_external_cli_model_status(
    adapter: &str,
    effective_model: Option<&str>,
    source: Option<&str>,
    runner_id: &str,
) -> (r: String)
    ensures
        r@ == model_status(adapter@, opt_str(effective_model), opt_str(source), runner_id@),
{
    format_status(
        "` 未设置模型 override，将使用 ",
        " 默认模型。",
        adapter,
        effective_model,
        source,
        runner_id,
        "` 使用模型: `",
    )
}

/// Says which reasoning effort a runner uses.
pub fn format_external_cli_effort_status(
    adapter: &str,
    effective_effort: Option<&str>,
    source: Option<&str>,
    runner_id: &str,
) -> (r: String)
    ensures
        r@ == effort_status(adapter@, opt_str(effective_effort), opt_str(source), runner_id@),
{
    format_status(
        "` 未设置 Reasoning Effort override，将使用 ",
        " 默认值。",
        adapter,
        effective_effort,
        source,
        runner_id,
        "` 使用 Reasoning Effort: `",
    )
}

// ---------------------------------------------------------------------------
// Choosing a reasoning effort
// ---------------------------------------------------------------------------

/// The list with one more effort, in lower case, unless it is blank or there.
pub open spec fn with_effort(options: Seq<Seq<char>>, value: Seq<char>) -> Seq<Seq<char>> {
    match cleaned(Some(value)) {
        None => options,
        Some(v) => if options.contains(lowered(v)) {
            options
        } else {
            options.push(lowered(v))
        },
    }
}

pub open spec fn unique_efforts(values: Seq<Seq<char>>) -> Seq<Seq<char>>
    decreases values.len(),
{
    if values.len() == 0 {
        Seq::empty()
    } else {
        with_effort(unique_efforts(values.drop_last()), values.last())
    }
}

pub open spec fn level_names(levels: Seq<(Seq<char>, Option<Seq<char>>)>) -> Seq<Seq<char>> {
    levels.map_values(|l: (Seq<char>, Option<Seq<char>>)| l.0)
}

/// The efforts of the model in use, else those of the adapter.
pub open spec fn efforts_for_model(
    adapter: Seq<char>,
    effective: Option<Seq<char>>,
    models: Seq<ModelView>,
) -> Seq<Seq<char>> {
    let own = match cleaned(effective) {
        Some(model) => match similar_model(models, model) {
            Some(m) => unique_efforts(level_names(m.supported_reasoning_levels)),
            None => Seq::empty(),
        },
        None => Seq::empty(),
    };
    if own.len() > 0 {
        own
    } else {
        unique_efforts(effort_options(adapter))
    }
}

/// Each text between two others.
pub open spec fn wrapped(before: Seq<char>, items: Seq<Seq<char>>, after: Seq<char>) -> Seq<
    Seq<char>,
> {
    items.map_values(|s: Seq<char>| before + s + after)
}

fn wrap_all(before: &str, items: &Vec<String>, after: &str) -> (r: Vec<String>)
    ensures
        texts(r@) == wrapped(before@, texts(items@), after@),
{
    let ghost all = texts(items@);
    let mut out: Vec<String> = Vec::new();
    let mut i: usize = 0;
    proof {
        assert(texts(out@) =~= wrapped(before@, all.take(0), after@));
    }
    while i < items.len()
        invariant
            i <= items@.len(),
            all == texts(items@),
            texts(out@) == wrapped(before@, all.take(i as int), after@),
        decreases items@.len() - i,
    {
        let ghost so_far = texts(out@);
        let text = concat3(before, items[i].as_str(), after);
        push_text(&mut out, text.as_str());
        proof {
            assert(wrapped(before@, all.take(i + 1), after@) =~= so_far.push(
                before@ + all[i as int] + after@,
            ));
        }
        i = i + 1;
    }
    proof {
        assert(all.take(i as int) =~= all);
    }
    out
}

pub open spec fn effort_catalog(adapter: Seq<char>) -> Seq<char> {
    let label = adapter_label(adapter);
    let options = effort_options(adapter);
    if options.len() == 0 {
        label + " 当前没有可展示的 reasoning effort 选项。"@
    } else {
        label + " 可用 Reasoning Effort:\n"@ + joined(wrapped("- `"@, options, "`"@), "\n"@)
    }
}

pub open spec fn effort_catalog_for_model(
    adapter: Seq<char>,
    effective: Option<Seq<char>>,
    models: Seq<ModelView>,
) -> Seq<char> {
    let label = adapter_label(adapter);
    let options = efforts_for_model(adapter, effective, models);
    let suffix = match cleaned(effective) {
        Some(m) => "（当前模型 `"@ + m + "`）"@,
        None => Seq::empty(),
    };
    if options.len() == 0 {
        label + " 当前没有可展示的 reasoning effort 选项。"@
    } else {
        label + " 可用 Reasoning Effort"@ + suffix + ":\n"@ + joined(
            wrapped("- `"@, options, "`"@),
            "\n"@,
        )
    }
}

fn push_unique_effort(options: &mut Vec<String>, value: &str)
    ensures
        texts(final(options)@) == with_effort(texts(old(options)@), value@),
{
    match clean_optional_string(Some(value)) {
        None => {},
        Some(v) => {
            let lower = to_lower(v.as_str());
            if !list_contains(options, lower.as_str()) {
                push_text(options, lower.as_str());
            }
        },
    }
}

fn unique_effort_list(values: &Vec<String>) -> (r: Vec<String>)
    ensures
        texts(r@) == unique_efforts(texts(values@)),
{
    let ghost all = texts(values@);
    let mut out: Vec<String> = Vec::new();
    let mut i: usize = 0;
    proof {
        assert(all.take(0) =~= Seq::empty());
        assert(texts(out@) =~= Seq::empty());
    }
    while i < values.len()
        invariant
            i <= values@.len(),
            all == texts(values@),
            texts(out@) == unique_efforts(all.take(i as int)),
        decreases values@.len() - i,
    {
        proof {
            assert(all.take(i + 1).drop_last() =~= all.take(i as int));
            assert(all.take(i + 1).last() == values@[i as int]@);
        }
        push_unique_effort(&mut out, values[i].as_str());
        i = i + 1;
    }
    proof {
        assert(all.take(i as int) =~= all);
    }
    out
}

fn level_name_list(levels: &Vec<ExternalCliReasoningLevelInfo>) -> (r: Vec<String>)
    ensures
        texts(r@) == level_names(level_views(levels@)),
{
    let ghost all = level_names(level_views(levels@));
    let mut out: Vec<String> = Vec::new();
    let mut i: usize = 0;
    proof {
        assert(texts(out@) =~= all.take(0));
    }
    while i < levels.len()
        invariant
            i <= levels@.len(),
            all == level_names(level_views(levels@)),
            texts(out@) == all.take(i as int),
        decreases levels@.len() - i,
    {
        push_text(&mut out, levels[i].effort.as_str());
        i = i + 1;
        proof {
            assert(all.take(i as int) =~= all.take(i - 1).push(all[i - 1]));
        }
    }
    proof {
        assert(all.take(i as int) =~= all);
    }
    out
}

/// The efforts that the model in use supports.
pub fn external_cli_effort_options_for_model(
    adapter: &str,
    effective_model: Option<&str>,
    models: &Vec<ExternalCliModelInfo>,
) -> (r: Vec<String>)
    ensures
        texts(r@) == efforts_for_model(adapter@, opt_str(effective_model), model_views(models@)),
{
    let own = match clean_optional_string(effective_model) {
        Some(model) => match find_similar_model(models, model.as_str()) {
            Some(m) => {
                let names = level_name_list(&m.supported_reasoning_levels);
                unique_effort_list(&names)
            },
            None => Vec::new(),
        },
        None => Vec::new(),
    };
    proof {
        assert(texts(own@).len() == own@.len());
        if own@.len() == 0 {
            assert(texts(own@) =~= Seq::empty());
        }
    }
    if own.len() > 0 {
        own
    } else {
        let all = external_cli_effort_options(adapter);
        unique_effort_list(&all)
    }
}

/// Shows the efforts of an adapter.
pub fn format_external_cli_effort_catalog(adapter: &str) -> (r: String)
    ensures
        r@ == effort_catalog(adapter@),
{
    let label_text = external_cli_model_adapter_label(adapter);
    let label = label_text.as_str();
    let options = external_cli_effort_options(adapter);
    proof {
        assert(texts(options@).len() == options@.len());
    }
    if options.len() == 0 {
        return concat2(label, " 当前没有可展示的 reasoning effort 选项。");
    }
    let lines = wrap_all("- `", &options, "`");
    let list = join(&lines, "\n");
    concat3(label, " 可用 Reasoning Effort:\n", list.as_str())
}

/// Shows the efforts of the model in use.
pub fn format_external_cli_effort_catalog_for_model(
    adapter: &str,
    effective_model: Option<&str>,
    models: &Vec<ExternalCliModelInfo>,
) -> (r: String)
    ensures
        r@ == effort_catalog_for_model(
            adapter@,
            opt_str(effective_model),
            model_views(models@),
        ),
{
    let label_text = external_cli_model_adapter_label(adapter);
    let label = label_text.as_str();
    let options = external_cli_effort_options_for_model(adapter, effective_model, models);
    proof {
        assert(texts(options@).len() == options@.len());
    }
    if options.len() == 0 {
        return concat2(label, " 当前没有可展示的 reasoning effort 选项。");
    }
    let suffix = match clean_optional_string(effective_model) {
        Some(m) => concat3("（当前模型 `", m.as_str(), "`）"),
        None => String::new(),
    };
    let lines = wrap_all("- `", &options, "`");
    let list = join(&lines, "\n");
    let mut text = concat3(label, " 可用 Reasoning Effort", suffix.as_str());
    text.append(":\n");
    text.append(list.as_str());
    text
}

/// The effort that a request settles on among some options, or why it is
/// refused.
pub open spec fn effort_among(
    adapter: Seq<char>,
    requested: Seq<char>,
    options: Seq<Seq<char>>,
    hint: Seq<char>,
) -> Result<Seq<char>, Seq<char>> {
    let effort = lowered(trimmed(requested));
    match effort_fault(effort) {
        Some(reason) => Err(reason),
        None => if options.contains(effort) {
            Ok(effort)
        } else {
            Err(
                "未切换 Reasoning Effort：`"@ + effort + "` 不在 "@ + adapter_label(adapter) + hint
                    + " 支持列表中。\n可用选项包括: "@ + joined(
                    wrapped("`"@, options, "`"@),
                    ", "@,
                ),
            )
        },
    }
}

pub open spec fn effort_choice(adapter: Seq<char>, requested: Seq<char>) -> Result<
    Seq<char>,
    Seq<char>,
> {
    effort_among(adapter, requested, effort_options(adapter), Seq::empty())
}

pub open spec fn effort_choice_for_model(
    adapter: Seq<char>,
    requested: Seq<char>,
    effective: Option<Seq<char>>,
    models: Seq<ModelView>,
) -> Result<Seq<char>, Seq<char>> {
    effort_among(
        adapter,
        requested,
        efforts_for_model(adapter, effective, models),
        match cleaned(effective) {
            Some(m) => " 当前模型 `"@ + m + "`"@,
            None => Seq::empty(),
        },
    )
}

fn choose_effort(adapter: &str, requested: &str, options: &Vec<String>, hint: &str) -> (r: Result<
    String,
    String,
>)
    ensures
        text_result(r) == effort_among(adapter@, requested@, texts(options@), hint@),
{
    let effort = to_lower(trim(requested));
    match validate_external_effort_value(effort.as_str()) {
        Err(reason) => {
            return Err(reason);
        },
        Ok(_) => {},
    }
    if list_contains(options, effort.as_str()) {
        return Ok(effort);
    }
    let label_text = external_cli_model_adapter_label(adapter);
    let label = label_text.as_str();
    let names = wrap_all("`", options, "`");
    let available = join(&names, ", ");
    let mut text = concat3("未切换 Reasoning Effort：`", effort.as_str(), "` 不在 ");
    text.append(label);
    text.append(hint);
    text.append(" 支持列表中。\n可用选项包括: ");
    text.append(available.as_str());
    Err(text)
}

/// Checks a requested effort against the options of an adapter.
pub fn validate_external_cli_effort_selection(adapter: &str, requested_effort: &str) -> (r: Result<
    String,
    String,
>)
    ensures
        text_result(r) == effort_choice(adapter@, requested_effort@),
{
    let options = external_cli_effort_options(adapter);
    let none = String::new();
    choose_effort(adapter, requested_effort, &options, none.as_str())
}

/// Checks a requested effort against the model in use.
pub fn validate_external_cli_effort_selection_for_model(
    adapter: &str,
    requested_effort: &str,
    effective_model: Option<&str>,
    models: &Vec<ExternalCliModelInfo>,
) -> (r: Result<String, String>)
    ensures
        text_result(r) == effort_choice_for_model(
            adapter@,
            requested_effort@,
            opt_str(effective_model),
            model_views(models@),
        ),
{
    let options = external_cli_effort_options_for_model(adapter, effective_model, models);
    let hint = match clean_optional_string(effective_model) {
        Some(m) => concat3(" 当前模型 `", m.as_str(), "`"),
        None => String::new(),
    };
    choose_effort(adapter, requested_effort, &options, hint.as_str())
}

/// A model that is accepted is in the catalog, except for `claude_code`, where it
/// is a well-formed name.
pub proof fn lemma_accepted_model(adapter: Seq<char>, requested: Seq<char>, models: Seq<ModelView>)
    requires
        model_choice(adapter, requested, models) is Ok,
    ensures
        trimmed(adapter) != CLAUDE_CODE_ADAPTER@ ==> exists|i: int|
            0 <= i < models.len() && (#[trigger] models[i]).slug == model_choice(
                adapter,
                requested,
                models,
            )->Ok_0,
        trimmed(adapter) == CLAUDE_CODE_ADAPTER@ ==> slug_fault(trimmed(requested)) is None,
{
    if trimmed(adapter) != CLAUDE_CODE_ADAPTER@ {
        lemma_named_model(models, trimmed(requested));
    }
}

proof fn lemma_named_model(models: Seq<ModelView>, slug: Seq<char>)
    requires
        named_model(models, slug) is Some,
    ensures
        exists|i: int| 0 <= i < models.len() && (#[trigger] models[i]).slug == slug,
    decreases models.len(),
{
    if models[0].slug != slug {
        let rest = models.drop_first();
        lemma_named_model(rest, slug);
        let i = choose|i: int| 0 <= i < rest.len() && (#[trigger] rest[i]).slug == slug;
        assert(models[i + 1].slug == slug);
    } else {
        assert(models[0].slug == slug);
    }
}

/// An effort that is accepted is one of the options on offer.
pub proof fn lemma_accepted_effort(
    adapter: Seq<char>,
    requested: Seq<char>,
    effective: Option<Seq<char>>,
    models: Seq<ModelView>,
)
    ensures
        effort_choice(adapter, requested) is Ok ==> effort_options(adapter).contains(
            effort_choice(adapter, requested)->Ok_0,
        ),
        effort_choice_for_model(adapter, requested, effective, models) is Ok ==> efforts_for_model(
            adapter,
            effective,
            models,
        ).contains(effort_choice_for_model(adapter, requested, effective, models)->Ok_0),
{
}

// ---------------------------------------------------------------------------
// Reading a catalog
// ---------------------------------------------------------------------------

/// The load of a model: a number, already written as a percentage, or a text.
#[derive(Debug, PartialEq, Eq)]
pub enum ModelLoad {
    Percent(String),
    Text(String),
    Other,
}

/// A model as a runner reports it.
#[derive(Debug, PartialEq, Eq)]
pub struct RawModel {
    pub slug: Option<String>,
    pub display_name: Option<String>,
    pub description: Option<String>,
    pub default_reasoning_level: Option<String>,
    pub supported_reasoning_levels: Vec<ExternalCliReasoningLevelInfo>,
    pub visibility: Option<String>,
    pub supported_in_api: Option<bool>,
    pub additional_speed_tiers: Vec<String>,
    pub service_tiers: Vec<ExternalCliServiceTierInfo>,
    pub model_load: Option<ModelLoad>,
    pub model_load_camel: Option<ModelLoad>,
    pub load_percent: Option<ModelLoad>,
    pub load: Option<ModelLoad>,
    pub priority: Option<i64>,
}

/// The load of a model as text, with a percent sign.
pub open spec fn load_text(load: Option<ModelLoad>) -> Option<Seq<char>> {
    match load {
        Some(ModelLoad::Percent(s)) => Some(s@),
        Some(ModelLoad::Text(s)) => match cleaned(Some(s@)) {
            Some(t) => if has_suffix(t, "%"@) {
                Some(t)
            } else {
                Some(t + "%"@)
            },
            None => None,
        },
        _ => None,
    }
}

pub open spec fn kept_levels(levels: Seq<(Seq<char>, Option<Seq<char>>)>) -> Seq<
    (Seq<char>, Option<Seq<char>>),
>
    decreases levels.len(),
{
    if levels.len() == 0 {
        Seq::empty()
    } else {
        let before = kept_levels(levels.drop_last());
        if crate::text::blank(levels.last().0) {
            before
        } else {
            before.push(levels.last())
        }
    }
}

pub open spec fn kept_tiers(
    tiers: Seq<(Seq<char>, Option<Seq<char>>, Option<Seq<char>>)>,
) -> Seq<(Seq<char>, Option<Seq<char>>, Option<Seq<char>>)>
    decreases tiers.len(),
{
    if tiers.len() == 0 {
        Seq::empty()
    } else {
        let before = kept_tiers(tiers.drop_last());
        if crate::text::blank(tiers.last().0) {
            before
        } else {
            before.push(tiers.last())
        }
    }
}

/// The texts of a list without surrounding white space, without blank ones.
pub open spec fn cleaned_texts(values: Seq<Seq<char>>) -> Seq<Seq<char>>
    decreases values.len(),
{
    if values.len() == 0 {
        Seq::empty()
    } else {
        let before = cleaned_texts(values.drop_last());
        match cleaned(Some(values.last())) {
            Some(v) => before.push(v),
            None => before,
        }
    }
}

/// Trims the texts of a list and drops those of which nothing is left.
pub fn normalize_string_list(values: &Vec<String>) -> (r: Vec<String>)
    ensures
        texts(r@) == cleaned_texts(texts(values@)),
{
    let ghost all = texts(values@);
    let mut out: Vec<String> = Vec::new();
    let mut i: usize = 0;
    proof {
        assert(all.take(0) =~= Seq::empty());
        assert(texts(out@) =~= Seq::empty());
    }
    while i < values.len()
        invariant
            i <= values@.len(),
            all == texts(values@),
            texts(out@) == cleaned_texts(all.take(i as int)),
        decreases values@.len() - i,
    {
        proof {
            assert(all.take(i + 1).drop_last() =~= all.take(i as int));
            assert(all.take(i + 1).last() == values@[i as int]@);
        }
        match clean_optional_string(Some(values[i].as_str())) {
            Some(v) => push_text(&mut out, v.as_str()),
            None => {},
        }
        i = i + 1;
    }
    proof {
        assert(all.take(i as int) =~= all);
    }
    out
}

/// Whether a model is meant to be listed.
pub open spec fn listed_visibility(visibility: Option<Seq<char>>) -> bool {
    match visibility {
        Some(v) => lowered(trimmed(v)) == lowered("list"@),
        None => true,
    }
}

/// The model that a report stands for, unless it has no name or is not listed.
pub open spec fn model_of(raw: RawModel) -> Option<ModelView> {
    match cleaned(opt(raw.slug)) {
        None => None,
        Some(slug) => if !listed_visibility(opt(raw.visibility)) {
            None
        } else {
            Some(
                ModelView {
                    slug,
                    display_name: cleaned(opt(raw.display_name)),
                    description: cleaned(opt(raw.description)),
                    default_reasoning_level: cleaned(opt(raw.default_reasoning_level)),
                    supported_reasoning_levels: kept_levels(
                        level_views(raw.supported_reasoning_levels@),
                    ),
                    visibility: cleaned(opt(raw.visibility)),
                    supported_in_api: raw.supported_in_api,
                    additional_speed_tiers: cleaned_texts(texts(raw.additional_speed_tiers@)),
                    service_tiers: kept_tiers(tier_views(raw.service_tiers@)),
                    model_load: load_text(
                        crate::json::first_of(
                            crate::json::first_of(
                                crate::json::first_of(raw.model_load, raw.model_load_camel),
                                raw.load_percent,
                            ),
                            raw.load,
                        ),
                    ),
                    priority: raw.priority,
                },
            )
        },
    }
}

pub open spec fn models_of(raws: Seq<RawModel>) -> Seq<ModelView>
    decreases raws.len(),
{
    if raws.len() == 0 {
        Seq::empty()
    } else {
        let before = models_of(raws.drop_last());
        match model_of(raws.last()) {
            Some(m) => before.push(m),
            None => before,
        }
    }
}

pub open spec fn or_max(priority: Option<i64>) -> i64 {
    match priority {
        Some(p) => p,
        None => i64::MAX,
    }
}

pub open spec fn model_before(a: ModelView, b: ModelView) -> bool {
    or_max(a.priority) < or_max(b.priority) || (or_max(a.priority) == or_max(b.priority)
        && text_less(a.slug, b.slug))
}

proof fn lemma_model_order(a: ModelView, b: ModelView, c: ModelView)
    ensures
        model_before(a, b) ==> !model_before(b, a),
        !model_before(b, a) && !model_before(c, b) ==> !model_before(c, a),
{
    crate::map::lemma_text_less_total(a.slug, b.slug);
    crate::map::lemma_text_less_total(b.slug, c.slug);
    crate::map::lemma_text_less_irreflexive(a.slug);
    if text_less(a.slug, b.slug) && text_less(b.slug, a.slug) {
        crate::map::lemma_text_less_transitive(a.slug, b.slug, a.slug);
    }
    if text_less(a.slug, b.slug) && text_less(b.slug, c.slug) {
        crate::map::lemma_text_less_transitive(a.slug, b.slug, c.slug);
        if text_less(c.slug, a.slug) {
            crate::map::lemma_text_less_transitive(a.slug, c.slug, a.slug);
        }
    }
    if text_less(c.slug, a.slug) && a.slug == b.slug {
        assert(text_less(c.slug, b.slug));
    }
    if text_less(c.slug, a.slug) && b.slug == c.slug {
        assert(text_less(b.slug, a.slug));
    }
    if text_less(c.slug, a.slug) && text_less(a.slug, b.slug) {
        crate::map::lemma_text_less_transitive(c.slug, a.slug, b.slug);
    }
}

/// Models come by priority, those without one last, and then by name.
impl Ranked for ModelView {
    open spec fn before(self, other: Self) -> bool {
        model_before(self, other)
    }

    proof fn lemma_asymmetric(a: Self, b: Self) {
        lemma_model_order(a, b, b);
    }

    proof fn lemma_transitive(a: Self, b: Self, c: Self) {
        lemma_model_order(a, b, c);
    }
}

impl Ranked for ExternalCliModelInfo {
    open spec fn before(self, other: Self) -> bool {
        model_before(self@, other@)
    }

    proof fn lemma_asymmetric(a: Self, b: Self) {
        lemma_model_order(a@, b@, b@);
    }

    proof fn lemma_transitive(a: Self, b: Self, c: Self) {
        lemma_model_order(a@, b@, c@);
    }
}

fn priority_or_max(priority: Option<i64>) -> (r: i64)
    ensures
        r == or_max(priority),
{
    match priority {
        Some(p) => p,
        None => i64::MAX,
    }
}

impl Comparable for ExternalCliModelInfo {
    fn comes_before(&self, other: &Self) -> (r: bool) {
        let a: i64 = priority_or_max(self.priority);
        let b: i64 = priority_or_max(other.priority);
        a < b || (a == b && text_is_less(self.slug.as_str(), other.slug.as_str()))
    }
}

fn keep_levels(levels: Vec<ExternalCliReasoningLevelInfo>) -> (r: Vec<
    ExternalCliReasoningLevelInfo,
>)
    ensures
        level_views(r@) == kept_levels(level_views(levels@)),
{
    let ghost all = level_views(levels@);
    let mut out: Vec<ExternalCliReasoningLevelInfo> = Vec::new();
    let mut i: usize = 0;
    proof {
        assert(all.take(0) =~= Seq::empty());
        assert(level_views(out@) =~= Seq::empty());
    }
    while i < levels.len()
        invariant
            i <= levels@.len(),
            all == level_views(levels@),
            level_views(out@) == kept_levels(all.take(i as int)),
        decreases levels@.len() - i,
    {
        let ghost before = out@;
        proof {
            assert(all.take(i + 1).drop_last() =~= all.take(i as int));
            assert(all.take(i + 1).last() == all[i as int]);
        }
        let level = &levels[i];
        if !trim(level.effort.as_str()).is_empty() {
            let kept = ExternalCliReasoningLevelInfo {
                effort: level.effort.clone(),
                description: copy_opt(&level.description),
            };
            out.push(kept);
            proof {
                assert(level_views(out@) =~= level_views(before).push(all[i as int]));
            }
        }
        i = i + 1;
    }
    proof {
        assert(all.take(i as int) =~= all);
    }
    out
}

fn keep_tiers(tiers: Vec<ExternalCliServiceTierInfo>) -> (r: Vec<ExternalCliServiceTierInfo>)
    ensures
        tier_views(r@) == kept_tiers(tier_views(tiers@)),
{
    let ghost all = tier_views(tiers@);
    let mut out: Vec<ExternalCliServiceTierInfo> = Vec::new();
    let mut i: usize = 0;
    proof {
        assert(all.take(0) =~= Seq::empty());
        assert(tier_views(out@) =~= Seq::empty());
    }
    while i < tiers.len()
        invariant
            i <= tiers@.len(),
            all == tier_views(tiers@),
            tier_views(out@) == kept_tiers(all.take(i as int)),
        decreases tiers@.len() - i,
    {
        let ghost before = out@;
        proof {
            assert(all.take(i + 1).drop_last() =~= all.take(i as int));
            assert(all.take(i + 1).last() == all[i as int]);
        }
        let tier = &tiers[i];
        if !trim(tier.id.as_str()).is_empty() {
            let kept = ExternalCliServiceTierInfo {
                id: tier.id.clone(),
                name: copy_opt(&tier.name),
                description: copy_opt(&tier.description),
            };
            out.push(kept);
            proof {
                assert(tier_views(out@) =~= tier_views(before).push(all[i as int]));
            }
        }
        i = i + 1;
    }
    proof {
        assert(all.take(i as int) =~= all);
    }
    out
}

/// Writes the load of a model.
pub fn format_model_load(load: Option<&ModelLoad>) -> (r: Option<String>)
    ensures
        opt(r) == load_text(
            match load {
                Some(l) => Some(*l),
                None => None,
            },
        ),
{
    match load {
        Some(ModelLoad::Percent(s)) => Some(s.clone()),
        Some(ModelLoad::Text(s)) => match clean_optional_string(Some(s.as_str())) {
            Some(t) => if ends_with(t.as_str(), "%") {
                Some(t)
            } else {
                Some(concat2(t.as_str(), "%"))
            },
            None => None,
        },
        _ => None,
    }
}

fn model_from_raw(raw: RawModel) -> (r: Option<ExternalCliModelInfo>)
    ensures
        match r {
            Some(m) => model_of(raw) == Some(m@),
            None => model_of(raw) is None,
        },
{
    let slug = match clean_opt(&raw.slug) {
        Some(s) => s,
        None => {
            return None;
        },
    };
    match &raw.visibility {
        Some(v) => {
            if !same_ignoring_case(trim(v.as_str()), "list") {
                return None;
            }
        },
        None => {},
    }
    let model_load = match &raw.model_load {
        Some(l) => format_model_load(Some(l)),
        None => match &raw.model_load_camel {
            Some(l) => format_model_load(Some(l)),
            None => match &raw.load_percent {
                Some(l) => format_model_load(Some(l)),
                None => match &raw.load {
                    Some(l) => format_model_load(Some(l)),
                    None => None,
                },
            },
        },
    };
    Some(
        ExternalCliModelInfo {
            slug,
            display_name: clean_opt(&raw.display_name),
            description: clean_opt(&raw.description),
            default_reasoning_level: clean_opt(&raw.default_reasoning_level),
            supported_reasoning_levels: keep_levels(raw.supported_reasoning_levels),
            visibility: clean_opt(&raw.visibility),
            supported_in_api: raw.supported_in_api,
            additional_speed_tiers: normalize_string_list(&raw.additional_speed_tiers),
            service_tiers: keep_tiers(raw.service_tiers),
            model_load,
            priority: raw.priority,
        },
    )
}

/// Turns what a runner reports into a catalog in order.
pub fn model_catalog_from_raw(raws: Vec<RawModel>) -> (r: Vec<ExternalCliModelInfo>)
    ensures
        model_views(r@) == ranked(models_of(raws@)),
{
    let ghost all = raws@;
    let n: usize = raws.len();
    let mut rest = raws;
    let mut out: Vec<ExternalCliModelInfo> = Vec::new();
    let mut i: usize = 0;
    proof {
        assert(all.take(0) =~= Seq::empty());
        assert(all.skip(0) =~= all);
        assert(model_views(out@) =~= Seq::empty());
    }
    while i < n
        invariant
            i <= n,
            n == all.len(),
            rest@ == all.skip(i as int),
            model_views(out@) == models_of(all.take(i as int)),
        decreases n - i,
    {
        let ghost before = out@;
        let raw = rest.remove(0);
        proof {
            assert(all.skip(i as int).remove(0) =~= all.skip(i + 1));
            assert(all.take(i + 1).drop_last() =~= all.take(i as int));
            assert(all.take(i + 1).last() == raw);
        }
        match model_from_raw(raw) {
            Some(m) => {
                out.push(m);
                proof {
                    assert(model_views(out@) =~= model_views(before).push(m@));
                }
            },
            None => {},
        }
        i = i + 1;
    }
    let ghost unsorted = out@;
    proof {
        assert(all.take(i as int) =~= all);
        lemma_ranked_map(unsorted, |m: ExternalCliModelInfo| m@);
    }
    sort_ranked(out)
}

/// A catalog is in order of priority and then of name.
pub proof fn lemma_catalog_in_order(raws: Seq<RawModel>)
    ensures
        in_order(ranked(models_of(raws))),
        ranked(models_of(raws)).to_multiset() == models_of(raws).to_multiset(),
{
    lemma_ranked(models_of(raws));
}

// ---------------------------------------------------------------------------
// The catalog of `claude_code`
// ---------------------------------------------------------------------------

pub open spec fn claude_model(
    slug: Seq<char>,
    name: Seq<char>,
    description: Seq<char>,
    level: Seq<char>,
    priority: i64,
) -> ModelView {
    ModelView {
        slug,
        display_name: Some(name),
        description: Some(description),
        default_reasoning_level: Some(level),
        supported_reasoning_levels: effort_options(CLAUDE_CODE_ADAPTER@).map_values(
            |e: Seq<char>| (e, None::<Seq<char>>),
        ),
        visibility: Some("list"@),
        supported_in_api: None,
        additional_speed_tiers: Seq::empty(),
        service_tiers: Seq::empty(),
        model_load: None,
        priority: Some(priority),
    }
}

pub open spec fn claude_catalog() -> Seq<ModelView> {
    seq![
        claude_model(
            "sonnet"@,
            "Sonnet"@,
            "Sonnet 4.6 - Efficient for routine tasks."@,
            "medium"@,
            0,
        ),
        claude_model(
            "opus"@,
            "Opus"@,
            "Opus 4.8 - Best for everyday, complex tasks; roughly 2x usage vs Sonnet."@,
            "high"@,
            1,
        ),
        claude_model(
            "haiku"@,
            "Haiku"@,
            "Haiku 4.5 - Fastest for quick answers."@,
            "medium"@,
            2,
        ),
        claude_model(
            "fable"@,
            "Fable"@,
            claude_title() + " Fable 5 is currently unavailable. "@ + claude_product()
                + " also accepts full model names via --model."@,
            "medium"@,
            3,
        ),
    ]
}

fn make_claude_model(slug: &str, name: &str, description: &str, level: &str, priority: i64) -> (r:
    ExternalCliModelInfo)
    ensures
        r@ == claude_model(slug@, name@, description@, level@, priority),
{
    let efforts = external_cli_effort_options(CLAUDE_CODE_ADAPTER);
    let ghost all = texts(efforts@);
    let mut levels: Vec<ExternalCliReasoningLevelInfo> = Vec::new();
    let mut i: usize = 0;
    while i < efforts.len()
        invariant
            i <= efforts@.len(),
            all == texts(efforts@),
            levels@.len() == i,
            forall|k: int|
                0 <= k < i ==> (#[trigger] levels@[k]).effort@ == all[k]
                    && levels@[k].description is None,
        decreases efforts@.len() - i,
    {
        levels.push(
            ExternalCliReasoningLevelInfo { effort: efforts[i].clone(), description: None },
        );
        i = i + 1;
    }
    let r = ExternalCliModelInfo {
        slug: owned(slug),
        display_name: Some(owned(name)),
        description: Some(owned(description)),
        default_reasoning_level: Some(owned(level)),
        supported_reasoning_levels: levels,
        visibility: Some(owned("list")),
        supported_in_api: None,
        additional_speed_tiers: Vec::new(),
        service_tiers: Vec::new(),
        model_load: None,
        priority: Some(priority),
    };
    proof {
        assert(r@ =~= claude_model(slug@, name@, description@, level@, priority));
    }
    r
}

/// The models that `claude_code` is known to offer.
pub fn default_claude_code_model_catalog() -> (r: Vec<ExternalCliModelInfo>)
    ensures
        model_views(r@) == claude_catalog(),
{
    let mut unavailable = concat3(
        claude_title_text().as_str(),
        " Fable 5 is currently unavailable. ",
        claude_product_text().as_str(),
    );
    unavailable.append(" also accepts full model names via --model.");
    let mut out: Vec<ExternalCliModelInfo> = Vec::new();
    out.push(
        make_claude_model(
            "sonnet",
            "Sonnet",
            "Sonnet 4.6 - Efficient for routine tasks.",
            "medium",
            0,
        ),
    );
    out.push(
        make_claude_model(
            "opus",
            "Opus",
            "Opus 4.8 - Best for everyday, complex tasks; roughly 2x usage vs Sonnet.",
            "high",
            1,
        ),
    );
    out.push(
        make_claude_model(
            "haiku",
            "Haiku",
            "Haiku 4.5 - Fastest for quick answers.",
            "medium",
            2,
        ),
    );
    out.push(
        make_claude_model(
            "fable",
            "Fable",
            unavailable.as_str(),
            "medium",
            3,
        ),
    );
    proof {
        assert(model_views(out@) =~= claude_catalog());
    }
    out
}

} // verus!
