//! Sessions that the installed command-line agents left on this machine: finding
//! them in what their files hold, and picking one to go on with.

use vstd::prelude::*;
use vstd::string::*;

use crate::agent_config::{claude_product, claude_product_text, claude_word, claude_word_text, clean_optional_string, cleaned, CLAUDE_CODE_ADAPTER, DEFAULT_ADAPTER, TRAEX_ADAPTER};
use crate::json::{find_member, first_of, lemma_list_view, member, opt_tree, parse_json, tree_i64, tree_text, tree_u64, trees, Json, Tree};
use crate::json::json_of_text;
use crate::map::{entries_map, lemma_ascending_unique, lemma_entry_in_map, lemma_text_less_irreflexive, lemma_text_less_total, lemma_text_less_transitive, position, text_is_less, text_less, TextMap};
use crate::session_state::{is_loaded, slot, state_key_of, upsert_session_state, upserted, ImAgentSessionState, SessionStateView, SessionStore, StoreView};
use crate::sort::{lemma_ranked, lemma_ranked_map, ranked, sort_ranked, Comparable, Ranked};
use crate::text::{byte_len, concat2, concat3, copy_opt, cut_text, decimal, decimal_text, has_only_letters_digits_and, has_prefix, is_white, join, joined, lemma_tidy_lines_are_kept, lemma_trimmed_idempotent, lemma_words_joined_are_tidy, lowered, only_letters_digits_and, opt, owned, same, same_ignoring_case, split_words, starts_with, texts, tidy, trim, trimmed, words};

verus! {

broadcast use vstd::string::group_string_axioms;

/// How many sessions are listed unless a number is asked for.
pub const DEFAULT_LIST_LIMIT: usize = 20;

/// How many session files are looked at.
pub const MAX_DISCOVERED_FILES: usize = 50000;

/// How much of a session file is read.
pub const MAX_SESSION_SCAN_BYTES: u64 = 4194304;

/// How much of an index file is read.
pub const MAX_INDEX_SCAN_BYTES: u64 = 33554432;

/// The longest line that is looked at.
pub const MAX_LINE_BYTES: usize = 1048576;

/// How much of a title is shown.
pub const MAX_TITLE_CHARS: usize = 96;

/// The shortest beginning of a session id that stands for the whole.
pub const MIN_ID_PREFIX_CHARS: usize = 8;

/// A session of a command-line agent on this machine.
#[derive(Debug, PartialEq, Eq)]
pub struct LocalExternalSession {
    pub id: String,
    pub title: String,
    pub datetime: String,
    pub updated_at_millis: u64,
}

#[verifier::ext_equal]
pub struct LocalSessionView {
    pub id: Seq<char>,
    pub title: Seq<char>,
    pub datetime: Seq<char>,
    pub updated_at_millis: u64,
}

impl View for LocalExternalSession {
    type V = LocalSessionView;

    open spec fn view(&self) -> LocalSessionView {
        LocalSessionView {
            id: self.id@,
            title: self.title@,
            datetime: self.datetime@,
            updated_at_millis: self.updated_at_millis,
        }
    }
}

impl LocalExternalSession {
    pub fn copy(&self) -> (r: Self)
        ensures
            r@ == self@,
    {
        LocalExternalSession {
            id: self.id.clone(),
            title: self.title.clone(),
            datetime: self.datetime.clone(),
            updated_at_millis: self.updated_at_millis,
        }
    }
}

/// The views of a list of sessions.
pub open spec fn session_views(v: Seq<LocalExternalSession>) -> Seq<LocalSessionView> {
    v.map_values(|s: LocalExternalSession| s@)
}

/// What `/resume` asks for.
#[derive(Debug, PartialEq, Eq)]
pub enum ExternalCliResumeSlashCommand {
    List,
    Pick(String),
}

#[verifier::ext_equal]
pub enum ResumeView {
    List,
    Pick(Seq<char>),
}

impl View for ExternalCliResumeSlashCommand {
    type V = ResumeView;

    open spec fn view(&self) -> ResumeView {
        match self {
            ExternalCliResumeSlashCommand::List => ResumeView::List,
            ExternalCliResumeSlashCommand::Pick(id) => ResumeView::Pick(id@),
        }
    }
}

/// The conversation that a picked session is remembered for.
#[derive(Debug, PartialEq, Eq)]
pub struct LocalSessionSelectionContext {
    pub session_key: String,
    pub runner_id: String,
}

/// What an index says about a session.
#[derive(Debug, PartialEq, Eq)]
pub struct SessionHints {
    pub title: Option<String>,
    pub updated_at_millis: u64,
}

#[verifier::ext_equal]
pub struct HintView {
    pub title: Option<Seq<char>>,
    pub updated_at_millis: u64,
}

impl View for SessionHints {
    type V = HintView;

    open spec fn view(&self) -> HintView {
        HintView { title: opt(self.title), updated_at_millis: self.updated_at_millis }
    }
}

/// The agents whose sessions are known.
#[derive(Clone, Copy, Debug, PartialEq, Eq, Structural)]
pub enum ProviderKind {
    Codex,
    Traex,
    ClaudeCode,
}

/// The agent that an adapter starts.
pub open spec fn provider_of(adapter: Seq<char>) -> Option<ProviderKind> {
    let a = trimmed(adapter);
    if a == DEFAULT_ADAPTER@ {
        Some(ProviderKind::Codex)
    } else if a == TRAEX_ADAPTER@ {
        Some(ProviderKind::Traex)
    } else if a == CLAUDE_CODE_ADAPTER@ {
        Some(ProviderKind::ClaudeCode)
    } else {
        None
    }
}

pub fn provider_kind(adapter: &str) -> (r: Option<ProviderKind>)
    ensures
        r == provider_of(adapter@),
{
    let a = trim(adapter);
    if same(a, DEFAULT_ADAPTER) {
        Some(ProviderKind::Codex)
    } else if same(a, TRAEX_ADAPTER) {
        Some(ProviderKind::Traex)
    } else if same(a, CLAUDE_CODE_ADAPTER) {
        Some(ProviderKind::ClaudeCode)
    } else {
        None
    }
}

pub fn supports_external_cli_resume_slash(adapter: &str) -> (r: bool)
    ensures
        r == (provider_of(adapter@) is Some),
{
    provider_kind(adapter).is_some()
}

/// Where an agent keeps its sessions: the environment variables that may name
/// its home, in the order they are asked, the directory under the user's home
/// that is used otherwise, and the places of the sessions and of the index below
/// the home.
#[derive(Debug, PartialEq, Eq)]
pub struct ProviderPlaces {
    pub home_variables: Vec<String>,
    pub default_home: String,
    pub sessions: String,
    pub index: String,
}

pub fn provider_places(kind: ProviderKind) -> (r: ProviderPlaces)
    ensures
        texts(r.home_variables@) == (match kind {
            ProviderKind::Codex => seq!["CODEX_HOME"@],
            ProviderKind::Traex => seq!["TRAE_HOME"@, "TRAEX_HOME"@],
            ProviderKind::ClaudeCode => seq!["CLAUDE_CONFIG_DIR"@, "CLAUDE_HOME"@],
        }),
        r.default_home@ == (match kind {
            ProviderKind::Codex => ".codex"@,
            ProviderKind::Traex => ".trae"@,
            ProviderKind::ClaudeCode => "."@ + claude_word(),
        }),
        r.sessions@ == (match kind {
            ProviderKind::Codex => "sessions"@,
            ProviderKind::Traex => "cli/sessions"@,
            ProviderKind::ClaudeCode => "projects"@,
        }),
        r.index@ == (match kind {
            ProviderKind::Codex => "session_index.jsonl"@,
            ProviderKind::Traex => "cli/history.jsonl"@,
            ProviderKind::ClaudeCode => "history.jsonl"@,
        }),
{
    let mut home_variables: Vec<String> = Vec::new();
    let places = match kind {
        ProviderKind::Codex => {
            home_variables.push(owned("CODEX_HOME"));
            (owned(".codex"), "sessions", "session_index.jsonl")
        },
        ProviderKind::Traex => {
            home_variables.push(owned("TRAE_HOME"));
            home_variables.push(owned("TRAEX_HOME"));
            (owned(".trae"), "cli/sessions", "cli/history.jsonl")
        },
        ProviderKind::ClaudeCode => {
            home_variables.push(owned("CLAUDE_CONFIG_DIR"));
            home_variables.push(owned("CLAUDE_HOME"));
            (concat2(".", claude_word_text().as_str()), "projects", "history.jsonl")
        },
    };
    proof {
        assert(texts(home_variables@) =~= (match kind {
            ProviderKind::Codex => seq!["CODEX_HOME"@],
            ProviderKind::Traex => seq!["TRAE_HOME"@, "TRAEX_HOME"@],
            ProviderKind::ClaudeCode => seq!["CLAUDE_CONFIG_DIR"@, "CLAUDE_HOME"@],
        }));
    }
    ProviderPlaces {
        home_variables,
        default_home: places.0,
        sessions: owned(places.1),
        index: owned(places.2),
    }
}

// ---------------------------------------------------------------------------
// The command
// ---------------------------------------------------------------------------

/// Whether a text can be the id of a session.
pub open spec fn session_id_like(id: Seq<char>) -> bool {
    byte_len(id) <= 128 && only_letters_digits_and(id, "-_.:"@)
}

/// What a message says, if it is the command `/resume`.
pub open spec fn resume_command_of(message: Seq<char>) -> Option<Result<ResumeView, Seq<char>>> {
    let w = words(trimmed(message));
    if w.len() == 0 || lowered(w[0]) != lowered("/resume"@) {
        None
    } else if w.len() == 1 {
        Some(Ok(ResumeView::List))
    } else if w.len() > 2 {
        Some(Err("用法: /resume [session-id]"@))
    } else if !session_id_like(w[1]) {
        Some(
            Err(
                "session id 只能包含字母、数字、短横线、下划线、点或冒号，且不能超过 128 个字符。"@,
            ),
        )
    } else {
        Some(Ok(ResumeView::Pick(w[1])))
    }
}

/// The view of what a message says.
pub open spec fn resume_view(
    r: Option<Result<ExternalCliResumeSlashCommand, String>>,
) -> Option<Result<ResumeView, Seq<char>>> {
    match r {
        None => None,
        Some(Ok(c)) => Some(Ok(c@)),
        Some(Err(e)) => Some(Err(e@)),
    }
}

pub fn parse_external_cli_resume_slash_command(message: &str) -> (r: Option<
    Result<ExternalCliResumeSlashCommand, String>,
>)
    ensures
        resume_view(r) == resume_command_of(message@),
{
    let parts = split_words(trim(message));
    proof {
        assert(texts(parts@).len() == parts@.len());
        assert(forall|i: int| 0 <= i < parts@.len() ==> texts(parts@)[i] == (#[trigger] parts@[i])@);
    }
    if parts.len() == 0 || !same_ignoring_case(parts[0].as_str(), "/resume") {
        return None;
    }
    if parts.len() == 1 {
        return Some(Ok(ExternalCliResumeSlashCommand::List));
    }
    if parts.len() > 2 {
        return Some(Err(owned("用法: /resume [session-id]")));
    }
    let id = parts[1].as_str();
    if id.len() > 128 || !has_only_letters_digits_and(id, "-_.:") {
        return Some(
            Err(
                owned(
                    "session id 只能包含字母、数字、短横线、下划线、点或冒号，且不能超过 128 个字符。",
                ),
            ),
        );
    }
    Some(Ok(ExternalCliResumeSlashCommand::Pick(owned(id))))
}

// ---------------------------------------------------------------------------
// Times and titles
// ---------------------------------------------------------------------------

/// The milliseconds since 1970 of the moment that an RFC 3339 text names, if it
/// names one, as `chrono` reads it.
pub uninterp spec fn rfc3339_millis(text: Seq<char>) -> Option<i64>;

/// The RFC 3339 text of a moment in UTC, to the second, as `chrono` writes it;
/// none where the moment is out of its range.
pub uninterp spec fn utc_text(millis: i64) -> Option<Seq<char>>;

/// `chrono::DateTime::parse_from_rfc3339`, then `timestamp_millis`: `None` where
/// the text is no RFC 3339 time. The result depends on the text alone.
#[verifier::external_body]
fn parse_rfc3339_millis(text: &str) -> (r: Option<i64>)
    ensures
        r == rfc3339_millis(text@),
{
    chrono::DateTime::parse_from_rfc3339(text).ok().map(|t| t.timestamp_millis())
}

/// `chrono::DateTime::<Utc>::from_timestamp_millis`, then `to_rfc3339_opts` to
/// the second with `Z`: `None` where the moment is out of range. The result
/// depends on the number alone.
#[verifier::external_body]
fn format_utc(millis: i64) -> (r: Option<String>)
    ensures
        opt(r) == utc_text(millis),
{
    chrono::DateTime::<chrono::Utc>::from_timestamp_millis(millis).map(
        |t| t.to_rfc3339_opts(chrono::SecondsFormat::Secs, true),
    )
}

/// A time in milliseconds: a small number is taken for seconds.
pub open spec fn epoch_millis(n: u64) -> u64 {
    if n < 10000000000 {
        (n * 1000) as u64
    } else {
        n
    }
}

pub fn normalize_epoch(value: u64) -> (r: u64)
    ensures
        r == epoch_millis(value),
{
    if value < 10000000000 {
        value * 1000
    } else {
        value
    }
}

/// A moment that is known and not before 1970, else 0.
pub open spec fn millis_or_zero(parsed: Option<i64>) -> u64 {
    match parsed {
        Some(n) => if n >= 0 {
            n as u64
        } else {
            0
        },
        None => 0,
    }
}

pub fn millis_since_epoch(parsed: Option<i64>) -> (r: u64)
    ensures
        r == millis_or_zero(parsed),
{
    match parsed {
        Some(n) => if n >= 0 {
            n as u64
        } else {
            0
        },
        None => 0,
    }
}

/// The time that a JSON value stands for: a number of seconds or milliseconds,
/// or an RFC 3339 text; 0 for anything else.
pub open spec fn timestamp_of(t: Option<Tree>) -> u64 {
    if tree_u64(t) is Some {
        epoch_millis(tree_u64(t)->Some_0)
    } else if tree_i64(t) is Some && tree_i64(t)->Some_0 >= 0 {
        epoch_millis(tree_i64(t)->Some_0 as u64)
    } else {
        match tree_text(t) {
            Some(s) => millis_or_zero(rfc3339_millis(s)),
            None => 0,
        }
    }
}

pub fn timestamp_from_value(value: Option<&Json>) -> (r: u64)
    ensures
        r == timestamp_of(opt_tree(value)),
{
    match value {
        Some(v) => {
            if let Some(n) = v.as_u64() {
                return normalize_epoch(n);
            }
            if let Some(n) = v.as_i64() {
                if n >= 0 {
                    return normalize_epoch(n as u64);
                }
            }
            match v.as_str() {
                Some(s) => millis_since_epoch(parse_rfc3339_millis(s)),
                None => 0,
            }
        },
        None => 0,
    }
}

/// How a time is shown.
pub open spec fn datetime_of(millis: u64) -> Seq<char> {
    if millis <= i64::MAX {
        or_unknown(utc_text(millis as i64))
    } else {
        or_unknown(None)
    }
}

/// The text of a time, if it has one.
pub open spec fn or_unknown(text: Option<Seq<char>>) -> Seq<char> {
    match text {
        Some(t) => t,
        None => "unknown"@,
    }
}

pub fn datetime_or_unknown(text: Option<String>) -> (r: String)
    ensures
        r@ == or_unknown(opt(text)),
{
    match text {
        Some(t) => t,
        None => owned("unknown"),
    }
}

pub fn format_datetime(timestamp_millis: u64) -> (r: String)
    ensures
        r@ == datetime_of(timestamp_millis),
{
    if timestamp_millis <= 9223372036854775807u64 {
        datetime_or_unknown(format_utc(timestamp_millis as i64))
    } else {
        datetime_or_unknown(None)
    }
}

/// A title on one line, with single blanks, cut where it is too long. A blank
/// title is replaced.
pub open spec fn title_of(value: Seq<char>) -> Seq<char> {
    let line = joined(words(value), " "@);
    if line.len() == 0 {
        "Untitled session"@
    } else if line.len() > MAX_TITLE_CHARS {
        line.take(MAX_TITLE_CHARS as int) + "…"@
    } else {
        line
    }
}

pub fn clean_title(value: &str) -> (r: String)
    ensures
        r@ == title_of(value@),
{
    let parts = split_words(value);
    let line = join(&parts, " ");
    let n: usize = line.as_str().unicode_len();
    if n == 0 {
        owned("Untitled session")
    } else if n > MAX_TITLE_CHARS {
        concat2(cut_text(line.as_str(), MAX_TITLE_CHARS).as_str(), "…")
    } else {
        line
    }
}

/// A shown title is never empty and never longer than the limit and one mark.
pub proof fn lemma_title_is_short(value: Seq<char>)
    ensures
        0 < title_of(value).len() <= MAX_TITLE_CHARS + 1,
{
    reveal_strlit("Untitled session");
    reveal_strlit("…");
}

/// Cleaning a title twice is cleaning it once.
pub proof fn lemma_titles_stay_clean(value: Seq<char>)
    ensures
        title_of(title_of(value)) == title_of(value),
{
    reveal_strlit("Untitled session");
    reveal_strlit("…");
    let line = joined(words(value), " "@);
    let t = title_of(value);
    lemma_words_joined_are_tidy(value);
    if line.len() == 0 {
        assert(tidy(t)) by {
            assert(!is_white(t[0]) && !is_white(t[1]) && !is_white(t[2]) && !is_white(t[3]));
            assert(!is_white(t[4]) && !is_white(t[5]) && !is_white(t[6]) && !is_white(t[7]));
            assert(t[8] == ' ');
            assert(!is_white(t[9]) && !is_white(t[10]) && !is_white(t[11]) && !is_white(t[12]));
            assert(!is_white(t[13]) && !is_white(t[14]) && !is_white(t[15]));
            assert(t.len() == 16);
        }
    } else if line.len() > MAX_TITLE_CHARS {
        let n = MAX_TITLE_CHARS as int;
        assert(t[0] == line[0]);
        assert(!is_white(t[n]));
        assert forall|i: int| 0 <= i < t.len() && is_white(#[trigger] t[i]) implies t[i] == ' '
            && i + 1 < t.len() && !is_white(t[i + 1]) by {
            assert(t[i] == line[i]);
            if i + 1 < n {
                assert(t[i + 1] == line[i + 1]);
            }
        }
        lemma_tidy_lines_are_kept(t);
        assert(t.take(n) =~= line.take(n));
    }
    lemma_tidy_lines_are_kept(t);
}

// ---------------------------------------------------------------------------
// What the lines of a file say
// ---------------------------------------------------------------------------

/// The text of a member that is not blank, trimmed.
pub open spec fn named_text(t: Tree, key: Seq<char>) -> Option<Seq<char>> {
    cleaned(tree_text(member(t, key)))
}

pub fn json_string(value: &Json, key: &str) -> (r: Option<String>)
    ensures
        opt(r) == named_text(value@, key@),
{
    match value.get(key) {
        Some(v) => clean_optional_string(v.as_str()),
        None => None,
    }
}

/// A member of an object is smaller than its list of members.
pub proof fn lemma_member_is_smaller(m: Seq<(Seq<char>, Tree)>, key: Seq<char>)
    ensures
        find_member(m, key) matches Some(c) ==> decreases_to!(m => c),
    decreases m.len(),
{
    if m.len() > 0 {
        if m[0].0 == key {
            assert(decreases_to!(m => m[0]));
            assert(decreases_to!(m[0] => m[0].1));
        } else {
            lemma_member_is_smaller(m.drop_first(), key);
            if find_member(m.drop_first(), key) is Some {
                let c = find_member(m.drop_first(), key)->Some_0;
                assert(decreases_to!(m => m.subrange(1, m.len() as int)));
            }
        }
    }
}

/// The first text that stands in a list: a text, or a text named `text` or
/// `content`.
pub open spec fn first_listed_text(items: Seq<Tree>) -> Option<Seq<char>>
    decreases items.len(),
{
    if items.len() == 0 {
        None
    } else {
        let here = first_of(
            cleaned(tree_text(Some(items[0]))),
            first_of(named_text(items[0], "text"@), named_text(items[0], "content"@)),
        );
        first_of(here, first_listed_text(items.drop_first()))
    }
}

/// The text of a message: the text itself, what an object names `text` or
/// `content`, or the first text of a list.
pub open spec fn message_text_of(t: Tree) -> Option<Seq<char>>
    decreases t,
{
    match t {
        Tree::Text(s) => cleaned(Some(s)),
        Tree::Object(m) => {
            let named = first_of(find_member(m, "text"@), find_member(m, "content"@));
            if tree_text(named) is Some {
                cleaned(tree_text(named))
            } else {
                match find_member(m, "content"@) {
                    Some(c) => {
                        proof {
                            lemma_member_is_smaller(m, "content"@);
                            assert(decreases_to!(t => t->Object_0));
                        }
                        message_text_of(c)
                    },
                    None => None,
                }
            }
        },
        Tree::List(items) => first_listed_text(items),
        _ => None,
    }
}

fn extract_listed_text(items: &Vec<Json>) -> (r: Option<String>)
    ensures
        opt(r) == first_listed_text(trees(items@)),
{
    let ghost all = trees(items@);
    let mut i: usize = 0;
    proof {
        assert(all.skip(0) =~= all);
    }
    while i < items.len()
        invariant
            i <= items@.len(),
            all == trees(items@),
            first_listed_text(all.skip(i as int)) == first_listed_text(all),
        decreases items@.len() - i,
    {
        proof {
            assert(all.skip(i as int)[0] == items@[i as int]@);
            assert(all.skip(i as int).drop_first() =~= all.skip(i + 1));
        }
        if let Some(t) = clean_optional_string(items[i].as_str()) {
            return Some(t);
        }
        if let Some(t) = json_string(&items[i], "text") {
            return Some(t);
        }
        if let Some(t) = json_string(&items[i], "content") {
            return Some(t);
        }
        i = i + 1;
    }
    proof {
        assert(all.skip(i as int).len() == 0);
    }
    None
}

fn message_text(value: &Json) -> (r: Option<String>)
    ensures
        opt(r) == message_text_of(value@),
    decreases value,
{
    match value {
        Json::Text(s) => clean_optional_string(Some(s.as_str())),
        Json::Object(_) => {
            let text = value.get("text");
            let content = value.get("content");
            let named = if text.is_some() {
                text
            } else {
                content
            };
            if let Some(v) = named {
                if let Some(s) = v.as_str() {
                    return clean_optional_string(Some(s));
                }
            }
            match content {
                Some(c) => message_text(c),
                None => None,
            }
        },
        Json::List(items) => {
            proof {
                lemma_list_view(*items);
            }
            extract_listed_text(items)
        },
        _ => None,
    }
}

pub fn extract_message_text(value: Option<&Json>) -> (r: Option<String>)
    ensures
        opt(r) == (match value {
            Some(v) => message_text_of(v@),
            None => None,
        }),
{
    match value {
        Some(v) => message_text(v),
        None => None,
    }
}

/// The JSON values that the lines of a file hold. A line that is too long or is
/// not JSON is passed over.
pub open spec fn line_values(lines: Seq<Seq<char>>) -> Seq<Tree>
    decreases lines.len(),
{
    if lines.len() == 0 {
        Seq::empty()
    } else {
        let before = line_values(lines.drop_last());
        match json_of_text(lines.last()) {
            Some(t) if byte_len(lines.last()) <= MAX_LINE_BYTES => before.push(t),
            _ => before,
        }
    }
}

pub fn read_json_lines(lines: &Vec<String>) -> (r: Vec<Json>)
    ensures
        trees(r@) == line_values(texts(lines@)),
{
    let ghost all = texts(lines@);
    let mut out: Vec<Json> = Vec::new();
    let mut i: usize = 0;
    proof {
        assert(trees(out@) =~= line_values(all.take(0)));
    }
    while i < lines.len()
        invariant
            i <= lines@.len(),
            all == texts(lines@),
            trees(out@) == line_values(all.take(i as int)),
        decreases lines@.len() - i,
    {
        let ghost before = out@;
        let line = lines[i].as_str();
        proof {
            assert(all.take(i + 1).drop_last() =~= all.take(i as int));
            assert(all.take(i + 1).last() == line@);
        }
        if line.len() <= MAX_LINE_BYTES {
            if let Some(v) = parse_json(line) {
                out.push(v);
                proof {
                    assert(trees(out@) =~= trees(before).push(out@.last()@));
                }
            }
        }
        i = i + 1;
    }
    proof {
        assert(all.take(i as int) =~= all);
    }
    out
}

/// What a session file says about its session.
#[derive(Debug, PartialEq, Eq)]
pub struct SessionMeta {
    pub id: Option<String>,
    pub updated_at_millis: u64,
    pub ai_title: Option<String>,
    pub title: Option<String>,
}

#[verifier::ext_equal]
pub struct MetaView {
    pub id: Option<Seq<char>>,
    pub updated_at_millis: u64,
    pub ai_title: Option<Seq<char>>,
    pub title: Option<Seq<char>>,
}

impl View for SessionMeta {
    type V = MetaView;

    open spec fn view(&self) -> MetaView {
        MetaView {
            id: opt(self.id),
            updated_at_millis: self.updated_at_millis,
            ai_title: opt(self.ai_title),
            title: opt(self.title),
        }
    }
}

pub open spec fn no_meta() -> MetaView {
    MetaView { id: None, updated_at_millis: 0, ai_title: None, title: None }
}

/// The later of two times.
pub open spec fn later(a: u64, b: u64) -> u64 {
    if a < b {
        b
    } else {
        a
    }
}

fn later_of(a: u64, b: u64) -> (r: u64)
    ensures
        r == later(a, b),
{
    if a < b {
        b
    } else {
        a
    }
}

/// What is known of a Codex or Traex session after one more line of its file.
pub open spec fn codex_step(m: MetaView, v: Tree) -> MetaView {
    let seen = later(m.updated_at_millis, timestamp_of(member(v, "timestamp"@)));
    match member(v, "payload"@) {
        None => MetaView { updated_at_millis: seen, ..m },
        Some(payload) => {
            let about = tree_text(member(v, "type"@)) == Some("session_meta"@);
            MetaView {
                id: if about {
                    first_of(named_text(payload, "session_id"@), named_text(payload, "id"@))
                } else {
                    m.id
                },
                updated_at_millis: if about {
                    later(seen, timestamp_of(member(payload, "timestamp"@)))
                } else {
                    seen
                },
                title: if m.title is None && tree_text(member(payload, "type"@)) == Some(
                    "message"@,
                ) && tree_text(member(payload, "role"@)) == Some("user"@) {
                    match member(payload, "content"@) {
                        Some(c) => message_text_of(c),
                        None => None,
                    }
                } else {
                    m.title
                },
                ..m
            }
        },
    }
}

/// What is known of a `claude_code` session after one more line of its file.
pub open spec fn claude_step(m: MetaView, v: Tree) -> MetaView {
    MetaView {
        id: first_of(
            m.id,
            first_of(named_text(v, "sessionId"@), named_text(v, "session_id"@)),
        ),
        updated_at_millis: later(m.updated_at_millis, timestamp_of(member(v, "timestamp"@))),
        ai_title: if tree_text(member(v, "type"@)) == Some("ai-title"@) {
            first_of(named_text(v, "aiTitle"@), named_text(v, "title"@))
        } else {
            m.ai_title
        },
        title: if m.title is None && tree_text(member(v, "type"@)) == Some("user"@) {
            match member(v, "message"@) {
                Some(c) => message_text_of(c),
                None => None,
            }
        } else {
            m.title
        },
    }
}

/// What the lines of a session file say about its session.
pub open spec fn meta_of(kind: ProviderKind, values: Seq<Tree>) -> MetaView
    decreases values.len(),
{
    if values.len() == 0 {
        no_meta()
    } else {
        let before = meta_of(kind, values.drop_last());
        match kind {
            ProviderKind::ClaudeCode => claude_step(before, values.last()),
            _ => codex_step(before, values.last()),
        }
    }
}

/// Whether a member is the text `expected`.
fn member_is(value: &Json, key: &str, expected: &str) -> (r: bool)
    ensures
        r == (tree_text(member(value@, key@)) == Some(expected@)),
{
    match value.get(key) {
        Some(v) => match v.as_str() {
            Some(s) => same(s, expected),
            None => false,
        },
        None => false,
    }
}

fn read_codex_line(meta: SessionMeta, value: &Json) -> (r: SessionMeta)
    ensures
        r@ == codex_step(meta@, value@),
{
    let mut m = meta;
    m.updated_at_millis = later_of(
        m.updated_at_millis,
        timestamp_from_value(value.get("timestamp")),
    );
    match value.get("payload") {
        None => m,
        Some(payload) => {
            if member_is(value, "type", "session_meta") {
                m.id = match json_string(payload, "session_id") {
                    Some(id) => Some(id),
                    None => json_string(payload, "id"),
                };
                m.updated_at_millis = later_of(
                    m.updated_at_millis,
                    timestamp_from_value(payload.get("timestamp")),
                );
            }
            if m.title.is_none() && member_is(payload, "type", "message") && member_is(
                payload,
                "role",
                "user",
            ) {
                m.title = extract_message_text(payload.get("content"));
            }
            m
        },
    }
}

fn read_claude_line(meta: SessionMeta, value: &Json) -> (r: SessionMeta)
    ensures
        r@ == claude_step(meta@, value@),
{
    let mut m = meta;
    if m.id.is_none() {
        m.id = match json_string(value, "sessionId") {
            Some(id) => Some(id),
            None => json_string(value, "session_id"),
        };
    }
    m.updated_at_millis = later_of(
        m.updated_at_millis,
        timestamp_from_value(value.get("timestamp")),
    );
    if member_is(value, "type", "ai-title") {
        m.ai_title = match json_string(value, "aiTitle") {
            Some(t) => Some(t),
            None => json_string(value, "title"),
        };
    }
    if m.title.is_none() && member_is(value, "type", "user") {
        m.title = extract_message_text(value.get("message"));
    }
    m
}

/// Reads what the lines of a session file say about its session.
pub fn read_session_meta(kind: ProviderKind, values: &Vec<Json>) -> (r: SessionMeta)
    ensures
        r@ == meta_of(kind, trees(values@)),
{
    let ghost all = trees(values@);
    let mut meta = SessionMeta { id: None, updated_at_millis: 0, ai_title: None, title: None };
    let mut i: usize = 0;
    while i < values.len()
        invariant
            i <= values@.len(),
            all == trees(values@),
            meta@ == meta_of(kind, all.take(i as int)),
        decreases values@.len() - i,
    {
        proof {
            assert(all.take(i + 1).drop_last() =~= all.take(i as int));
            assert(all.take(i + 1).last() == values@[i as int]@);
        }
        meta = match kind {
            ProviderKind::ClaudeCode => read_claude_line(meta, &values[i]),
            _ => read_codex_line(meta, &values[i]),
        };
        i = i + 1;
    }
    proof {
        assert(all.take(i as int) =~= all);
    }
    meta
}

// ---------------------------------------------------------------------------
// What an index says
// ---------------------------------------------------------------------------

pub open spec fn no_hint() -> HintView {
    HintView { title: None, updated_at_millis: 0 }
}

/// The hint at a key, or an empty one.
pub open spec fn hint_at(m: Map<Seq<char>, HintView>, id: Seq<char>) -> HintView {
    if m.contains_key(id) {
        m[id]
    } else {
        no_hint()
    }
}

/// A title that an index names, cleaned.
pub open spec fn indexed_title(v: Tree, key: Seq<char>) -> Option<Seq<char>> {
    match named_text(v, key) {
        Some(t) => Some(title_of(t)),
        None => None,
    }
}

/// What is known after one more line of a Codex session index. A newer line wins;
/// one without a title keeps the title.
pub open spec fn index_step(m: Map<Seq<char>, HintView>, v: Tree) -> Map<Seq<char>, HintView> {
    match named_text(v, "id"@) {
        None => m,
        Some(id) => {
            let entry = hint_at(m, id);
            let time = timestamp_of(member(v, "updated_at"@));
            m.insert(
                id,
                if time >= entry.updated_at_millis {
                    HintView {
                        title: first_of(indexed_title(v, "thread_name"@), entry.title),
                        updated_at_millis: time,
                    }
                } else {
                    entry
                },
            )
        },
    }
}

/// What is known after one more line of a prompt history. The first title stays
/// and the latest time counts.
pub open spec fn history_step(
    m: Map<Seq<char>, HintView>,
    v: Tree,
    id_key: Seq<char>,
    title_key: Seq<char>,
    time_key: Seq<char>,
) -> Map<Seq<char>, HintView> {
    match named_text(v, id_key) {
        None => m,
        Some(id) => {
            let entry = hint_at(m, id);
            m.insert(
                id,
                HintView {
                    title: first_of(entry.title, indexed_title(v, title_key)),
                    updated_at_millis: later(
                        entry.updated_at_millis,
                        timestamp_of(member(v, time_key)),
                    ),
                },
            )
        },
    }
}

/// What the index of an agent says about its sessions.
pub open spec fn hints_of(kind: ProviderKind, values: Seq<Tree>) -> Map<Seq<char>, HintView>
    decreases values.len(),
{
    if values.len() == 0 {
        Map::empty()
    } else {
        let before = hints_of(kind, values.drop_last());
        let v = values.last();
        match kind {
            ProviderKind::Codex => index_step(before, v),
            ProviderKind::Traex => history_step(before, v, "session_id"@, "text"@, "ts"@),
            ProviderKind::ClaudeCode => history_step(
                before,
                v,
                "sessionId"@,
                "display"@,
                "timestamp"@,
            ),
        }
    }
}

/// The views of the hints of a map.
pub open spec fn hint_views(m: Map<Seq<char>, SessionHints>) -> Map<Seq<char>, HintView> {
    m.map_values(|h: SessionHints| h@)
}

fn take_hint(hints: &mut TextMap<SessionHints>, id: &str) -> (r: SessionHints)
    ensures
        r@ == hint_at(hint_views(old(hints)@), id@),
        final(hints)@ == old(hints)@.remove(id@),
{
    match hints.remove(id) {
        Some(h) => h,
        None => SessionHints { title: None, updated_at_millis: 0 },
    }
}

fn put_hint(hints: &mut TextMap<SessionHints>, id: &str, hint: SessionHints)
    ensures
        hint_views(final(hints)@) == hint_views(old(hints)@).insert(id@, hint@),
{
    hints.insert(id, hint);
    proof {
        assert(hint_views(hints@) =~= hint_views(old(hints)@).insert(id@, hint@));
    }
}

fn read_title(value: &Json, key: &str) -> (r: Option<String>)
    ensures
        opt(r) == indexed_title(value@, key@),
{
    match json_string(value, key) {
        Some(t) => Some(clean_title(t.as_str())),
        None => None,
    }
}

fn read_index_line(hints: &mut TextMap<SessionHints>, value: &Json)
    ensures
        hint_views(final(hints)@) == index_step(hint_views(old(hints)@), value@),
{
    if let Some(id) = json_string(value, "id") {
        let mut entry = take_hint(hints, id.as_str());
        let title = read_title(value, "thread_name");
        let time: u64 = timestamp_from_value(value.get("updated_at"));
        if time >= entry.updated_at_millis {
            if title.is_some() {
                entry.title = title;
            }
            entry.updated_at_millis = time;
        }
        let ghost put = entry@;
        put_hint(hints, id.as_str(), entry);
        proof {
            assert(hint_views(old(hints)@.remove(id@)).insert(id@, put) =~= hint_views(
                old(hints)@,
            ).insert(id@, put));
        }
    }
}

fn read_history_line(
    hints: &mut TextMap<SessionHints>,
    value: &Json,
    id_key: &str,
    title_key: &str,
    time_key: &str,
)
    ensures
        hint_views(final(hints)@) == history_step(
            hint_views(old(hints)@),
            value@,
            id_key@,
            title_key@,
            time_key@,
        ),
{
    if let Some(id) = json_string(value, id_key) {
        let mut entry = take_hint(hints, id.as_str());
        if entry.title.is_none() {
            entry.title = read_title(value, title_key);
        }
        entry.updated_at_millis = later_of(
            entry.updated_at_millis,
            timestamp_from_value(value.get(time_key)),
        );
        let ghost put = entry@;
        put_hint(hints, id.as_str(), entry);
        proof {
            assert(hint_views(old(hints)@.remove(id@)).insert(id@, put) =~= hint_views(
                old(hints)@,
            ).insert(id@, put));
        }
    }
}

/// Reads what the index of an agent says about its sessions.
pub fn read_session_hints(kind: ProviderKind, values: &Vec<Json>) -> (r: TextMap<SessionHints>)
    ensures
        hint_views(r@) == hints_of(kind, trees(values@)),
{
    let ghost all = trees(values@);
    let mut hints: TextMap<SessionHints> = TextMap::new();
    let mut i: usize = 0;
    proof {
        assert(hint_views(hints@) =~= hints_of(kind, all.take(0)));
    }
    while i < values.len()
        invariant
            i <= values@.len(),
            all == trees(values@),
            hint_views(hints@) == hints_of(kind, all.take(i as int)),
        decreases values@.len() - i,
    {
        proof {
            assert(all.take(i + 1).drop_last() =~= all.take(i as int));
            assert(all.take(i + 1).last() == values@[i as int]@);
        }
        match kind {
            ProviderKind::Codex => read_index_line(&mut hints, &values[i]),
            ProviderKind::Traex => read_history_line(
                &mut hints,
                &values[i],
                "session_id",
                "text",
                "ts",
            ),
            ProviderKind::ClaudeCode => read_history_line(
                &mut hints,
                &values[i],
                "sessionId",
                "display",
                "timestamp",
            ),
        }
        i = i + 1;
    }
    proof {
        assert(all.take(i as int) =~= all);
    }
    hints
}

// ---------------------------------------------------------------------------
// Finding the sessions
// ---------------------------------------------------------------------------

/// A session file: its lines, its name without the extension, and when it was
/// changed.
#[derive(Debug, PartialEq, Eq)]
pub struct SessionFile {
    pub lines: Vec<String>,
    pub stem: Option<String>,
    pub modified_millis: u64,
}

#[verifier::ext_equal]
pub struct SessionFileView {
    pub lines: Seq<Seq<char>>,
    pub stem: Option<Seq<char>>,
    pub modified_millis: u64,
}

impl View for SessionFile {
    type V = SessionFileView;

    open spec fn view(&self) -> SessionFileView {
        SessionFileView {
            lines: texts(self.lines@),
            stem: opt(self.stem),
            modified_millis: self.modified_millis,
        }
    }
}

/// The views of a list of files.
pub open spec fn file_views(v: Seq<SessionFile>) -> Seq<SessionFileView> {
    v.map_values(|f: SessionFile| f@)
}

/// The session that is described by what its file and the index say. The id of a
/// `claude_code` session may come from the name of its file.
pub open spec fn described_session(
    kind: ProviderKind,
    meta: MetaView,
    stem: Option<Seq<char>>,
    modified_millis: u64,
    hints: Map<Seq<char>, HintView>,
) -> Option<LocalSessionView> {
    let id = match kind {
        ProviderKind::ClaudeCode => first_of(meta.id, stem),
        _ => meta.id,
    };
    match id {
        None => None,
        Some(id) => {
            let hint = hint_at(hints, id);
            let updated = later(
                later(hint.updated_at_millis, meta.updated_at_millis),
                modified_millis,
            );
            Some(
                LocalSessionView {
                    id,
                    title: title_of(
                        match first_of(meta.ai_title, first_of(hint.title, meta.title)) {
                            Some(t) => t,
                            None => "Untitled session"@,
                        },
                    ),
                    datetime: datetime_of(updated),
                    updated_at_millis: updated,
                },
            )
        },
    }
}

/// The session of a file.
pub open spec fn session_of(
    kind: ProviderKind,
    f: SessionFileView,
    hints: Map<Seq<char>, HintView>,
) -> Option<LocalSessionView> {
    described_session(
        kind,
        meta_of(kind, line_values(f.lines)),
        f.stem,
        f.modified_millis,
        hints,
    )
}

/// The sessions with one more: of two with the same id the newer one stays, and
/// of two as new the one that came later.
pub open spec fn with_session(
    m: Map<Seq<char>, LocalSessionView>,
    s: LocalSessionView,
) -> Map<Seq<char>, LocalSessionView> {
    if m.contains_key(s.id) && m[s.id].updated_at_millis > s.updated_at_millis {
        m
    } else {
        m.insert(s.id, s)
    }
}

/// The sessions of the files, by id.
pub open spec fn sessions_of(
    kind: ProviderKind,
    files: Seq<SessionFileView>,
    hints: Map<Seq<char>, HintView>,
) -> Map<Seq<char>, LocalSessionView>
    decreases files.len(),
{
    if files.len() == 0 {
        Map::empty()
    } else {
        let before = sessions_of(kind, files.drop_last(), hints);
        match session_of(kind, files.last(), hints) {
            Some(s) => with_session(before, s),
            None => before,
        }
    }
}

/// Whether a session is listed before another: the newer one, then the one with
/// the greater id.
pub open spec fn listed_before(a: LocalSessionView, b: LocalSessionView) -> bool {
    a.updated_at_millis > b.updated_at_millis || (a.updated_at_millis == b.updated_at_millis
        && text_less(b.id, a.id))
}

/// Whether a list holds the sessions of a map, each once, in the order that they
/// are listed in.
pub open spec fn lists_all(
    m: Map<Seq<char>, LocalSessionView>,
    list: Seq<LocalSessionView>,
) -> bool {
    &&& forall|i: int, j: int|
        0 <= i < j < list.len() ==> listed_before(#[trigger] list[i], #[trigger] list[j])
    &&& forall|s: LocalSessionView| #[trigger] list.contains(s) ==> m.contains_key(s.id) && m[s.id] == s
    &&& forall|k: Seq<char>| #[trigger] m.contains_key(k) ==> list.contains(m[k])
}

/// The sessions of a map in the order that they are listed in.
pub open spec fn listing(m: Map<Seq<char>, LocalSessionView>) -> Seq<LocalSessionView> {
    choose|list: Seq<LocalSessionView>| lists_all(m, list)
}

proof fn lemma_listed_before(a: LocalSessionView, b: LocalSessionView)
    ensures
        !(listed_before(a, b) && listed_before(b, a)),
{
    if listed_before(a, b) && listed_before(b, a) {
        lemma_text_less_transitive(a.id, b.id, a.id);
        lemma_text_less_irreflexive(a.id);
    }
}

proof fn lemma_same_listing(a: Seq<LocalSessionView>, b: Seq<LocalSessionView>)
    requires
        forall|i: int, j: int|
            0 <= i < j < a.len() ==> listed_before(#[trigger] a[i], #[trigger] a[j]),
        forall|i: int, j: int|
            0 <= i < j < b.len() ==> listed_before(#[trigger] b[i], #[trigger] b[j]),
        forall|s: LocalSessionView| #[trigger] a.contains(s) <==> b.contains(s),
    ensures
        a == b,
    decreases a.len(),
{
    if a.len() == 0 {
        if b.len() > 0 {
            assert(b.contains(b[0]));
            assert(a.contains(b[0]));
        }
        assert(a =~= b);
    } else {
        assert(a.contains(a[0]));
        assert(b.contains(a[0]));
        let p = choose|p: int| 0 <= p < b.len() && b[p] == a[0];
        assert(b.contains(b[0]));
        assert(a.contains(b[0]));
        let q = choose|q: int| 0 <= q < a.len() && a[q] == b[0];
        if p > 0 && q > 0 {
            assert(listed_before(b[0], b[p]));
            assert(listed_before(a[0], a[q]));
            lemma_listed_before(a[0], b[0]);
        }
        assert(a[0] == b[0]);
        let x = a.drop_first();
        let y = b.drop_first();
        assert forall|i: int, j: int| 0 <= i < j < x.len() implies listed_before(
            #[trigger] x[i],
            #[trigger] x[j],
        ) by {
            assert(listed_before(a[i + 1], a[j + 1]));
        }
        assert forall|i: int, j: int| 0 <= i < j < y.len() implies listed_before(
            #[trigger] y[i],
            #[trigger] y[j],
        ) by {
            assert(listed_before(b[i + 1], b[j + 1]));
        }
        assert forall|s: LocalSessionView| #[trigger] x.contains(s) <==> y.contains(s) by {
            if x.contains(s) {
                let i = choose|i: int| 0 <= i < x.len() && x[i] == s;
                assert(a[i + 1] == s);
                assert(a.contains(s));
                assert(b.contains(s));
                let k = choose|k: int| 0 <= k < b.len() && b[k] == s;
                assert(listed_before(a[0], a[i + 1]));
                if k == 0 {
                    lemma_listed_before(a[0], a[0]);
                }
                assert(y[k - 1] == s);
            }
            if y.contains(s) {
                let i = choose|i: int| 0 <= i < y.len() && y[i] == s;
                assert(b[i + 1] == s);
                assert(b.contains(s));
                assert(a.contains(s));
                let k = choose|k: int| 0 <= k < a.len() && a[k] == s;
                assert(listed_before(b[0], b[i + 1]));
                if k == 0 {
                    lemma_listed_before(b[0], b[0]);
                }
                assert(x[k - 1] == s);
            }
        }
        lemma_same_listing(x, y);
        assert(a =~= seq![a[0]] + x);
        assert(b =~= seq![b[0]] + y);
    }
}

/// There is one order in which the sessions can be listed.
pub proof fn lemma_listing_is_unique(
    m: Map<Seq<char>, LocalSessionView>,
    list: Seq<LocalSessionView>,
)
    requires
        lists_all(m, list),
    ensures
        list == listing(m),
{
    let other = listing(m);
    assert(lists_all(m, other));
    assert forall|s: LocalSessionView| #[trigger] list.contains(s) <==> other.contains(s) by {
        if list.contains(s) {
            assert(m.contains_key(s.id));
            assert(other.contains(m[s.id]));
        }
        if other.contains(s) {
            assert(m.contains_key(s.id));
            assert(list.contains(m[s.id]));
        }
    }
    lemma_same_listing(list, other);
}

impl Ranked for LocalSessionView {
    open spec fn before(self, other: Self) -> bool {
        listed_before(self, other)
    }

    proof fn lemma_asymmetric(a: Self, b: Self) {
        lemma_listed_before(a, b);
    }

    proof fn lemma_transitive(a: Self, b: Self, c: Self) {
        if !b.before(a) && !c.before(b) && c.before(a) {
            lemma_text_less_total(a.id, b.id);
            lemma_text_less_total(b.id, c.id);
            if text_less(b.id, a.id) && text_less(c.id, b.id) {
                lemma_text_less_transitive(c.id, b.id, a.id);
            }
            lemma_text_less_irreflexive(a.id);
            if text_less(a.id, c.id) && text_less(c.id, a.id) {
                lemma_text_less_transitive(a.id, c.id, a.id);
            }
        }
    }
}

impl Ranked for LocalExternalSession {
    open spec fn before(self, other: Self) -> bool {
        listed_before(self@, other@)
    }

    proof fn lemma_asymmetric(a: Self, b: Self) {
        lemma_listed_before(a@, b@);
    }

    proof fn lemma_transitive(a: Self, b: Self, c: Self) {
        LocalSessionView::lemma_transitive(a@, b@, c@);
    }
}

impl Comparable for LocalExternalSession {
    fn comes_before(&self, other: &Self) -> (r: bool) {
        self.updated_at_millis > other.updated_at_millis || (self.updated_at_millis
            == other.updated_at_millis && text_is_less(other.id.as_str(), self.id.as_str()))
    }
}

/// The views of the sessions of a map.
pub open spec fn session_map(m: Map<Seq<char>, LocalExternalSession>) -> Map<
    Seq<char>,
    LocalSessionView,
> {
    m.map_values(|s: LocalExternalSession| s@)
}

/// Describes a session by what its file and the index say.
pub fn describe_session(
    kind: ProviderKind,
    meta: SessionMeta,
    stem: &Option<String>,
    modified_millis: u64,
    hints: &TextMap<SessionHints>,
) -> (r: Option<LocalExternalSession>)
    ensures
        (match r {
            Some(s) => Some(s@),
            None => None,
        }) == described_session(kind, meta@, opt(*stem), modified_millis, hint_views(hints@)),
{
    let id = match meta.id {
        Some(id) => Some(id),
        None => match kind {
            ProviderKind::ClaudeCode => copy_opt(stem),
            _ => None,
        },
    };
    match id {
        None => None,
        Some(id) => {
            let mut updated: u64 = meta.updated_at_millis;
            let mut hint_title: Option<String> = None;
            if let Some(hint) = hints.get(id.as_str()) {
                updated = later_of(hint.updated_at_millis, meta.updated_at_millis);
                hint_title = copy_opt(&hint.title);
            }
            let updated: u64 = later_of(updated, modified_millis);
            let title = match meta.ai_title {
                Some(t) => t,
                None => match hint_title {
                    Some(t) => t,
                    None => match meta.title {
                        Some(t) => t,
                        None => owned("Untitled session"),
                    },
                },
            };
            Some(
                LocalExternalSession {
                    id,
                    title: clean_title(title.as_str()),
                    datetime: format_datetime(updated),
                    updated_at_millis: updated,
                },
            )
        },
    }
}

/// Adds a session: of two with the same id the newer one stays.
fn insert_latest(sessions: &mut TextMap<LocalExternalSession>, candidate: LocalExternalSession)
    ensures
        session_map(final(sessions)@) == with_session(session_map(old(sessions)@), candidate@),
{
    let replace = match sessions.get(candidate.id.as_str()) {
        Some(existing) => candidate.updated_at_millis >= existing.updated_at_millis,
        None => true,
    };
    if replace {
        let id = candidate.id.clone();
        sessions.insert(id.as_str(), candidate);
        proof {
            assert(session_map(sessions@) =~= session_map(old(sessions)@).insert(
                candidate.id@,
                candidate@,
            ));
        }
    }
}

fn find_sessions(
    kind: ProviderKind,
    files: &Vec<SessionFile>,
    hints: &TextMap<SessionHints>,
) -> (r: TextMap<LocalExternalSession>)
    ensures
        session_map(r@) == sessions_of(kind, file_views(files@), hint_views(hints@)),
{
    let ghost all = file_views(files@);
    let mut sessions: TextMap<LocalExternalSession> = TextMap::new();
    let mut i: usize = 0;
    proof {
        assert(session_map(sessions@) =~= sessions_of(kind, all.take(0), hint_views(hints@)));
    }
    while i < files.len()
        invariant
            i <= files@.len(),
            all == file_views(files@),
            session_map(sessions@) == sessions_of(kind, all.take(i as int), hint_views(hints@)),
        decreases files@.len() - i,
    {
        proof {
            assert(all.take(i + 1).drop_last() =~= all.take(i as int));
            assert(all.take(i + 1).last() == files@[i as int]@);
        }
        let values = read_json_lines(&files[i].lines);
        let meta = read_session_meta(kind, &values);
        if let Some(s) = describe_session(
            kind,
            meta,
            &files[i].stem,
            files[i].modified_millis,
            hints,
        ) {
            insert_latest(&mut sessions, s);
        }
        i = i + 1;
    }
    proof {
        assert(all.take(i as int) =~= all);
    }
    sessions
}

/// Every session stands under its own id.
pub proof fn lemma_sessions_by_id(
    kind: ProviderKind,
    files: Seq<SessionFileView>,
    hints: Map<Seq<char>, HintView>,
)
    ensures
        by_id(sessions_of(kind, files, hints)),
    decreases files.len(),
{
    if files.len() > 0 {
        lemma_sessions_by_id(kind, files.drop_last(), hints);
        let before = sessions_of(kind, files.drop_last(), hints);
        let all = sessions_of(kind, files, hints);
        assert forall|k: Seq<char>| #[trigger] all.contains_key(k) implies all[k].id == k by {
            if before.contains_key(k) {
            }
        }
    }
}

/// Whether a list holds the sessions of a map, each once, in any order.
pub open spec fn holds_all(
    m: Map<Seq<char>, LocalSessionView>,
    list: Seq<LocalSessionView>,
) -> bool {
    &&& list.no_duplicates()
    &&& forall|s: LocalSessionView| #[trigger]
        list.contains(s) <==> m.contains_key(s.id) && m[s.id] == s
}

/// Whether every session of a map stands under its own id.
pub open spec fn by_id(m: Map<Seq<char>, LocalSessionView>) -> bool {
    forall|k: Seq<char>| #[trigger] m.contains_key(k) ==> m[k].id == k
}

/// Sorting all sessions gives the listing.
proof fn lemma_sorted_is_listing(
    m: Map<Seq<char>, LocalSessionView>,
    given: Seq<LocalSessionView>,
)
    requires
        by_id(m),
        holds_all(m, given),
    ensures
        lists_all(m, ranked(given)),
        ranked(given) == listing(m),
{
    broadcast use vstd::seq_lib::group_to_multiset_ensures;

    let out = ranked(given);
    lemma_ranked(given);
    given.lemma_multiset_has_no_duplicates();
    out.lemma_multiset_has_no_duplicates_conv();
    assert forall|s: LocalSessionView| #[trigger] out.contains(s) <==> given.contains(s) by {
        assert(out.to_multiset().contains(s) <==> given.to_multiset().contains(s));
    }
    assert forall|a: int, b: int| 0 <= a < b < out.len() implies listed_before(
        #[trigger] out[a],
        #[trigger] out[b],
    ) by {
        assert(!out[b].before(out[a]));
        assert(out.contains(out[a]) && out.contains(out[b]));
        assert(given.contains(out[a]) && given.contains(out[b]));
        assert(out[a] != out[b]);
        lemma_text_less_total(out[a].id, out[b].id);
    }
    assert forall|k: Seq<char>| #[trigger] m.contains_key(k) implies out.contains(m[k]) by {
        assert(given.contains(m[k]));
    }
    assert forall|s: LocalSessionView| #[trigger] out.contains(s) implies m.contains_key(s.id)
        && m[s.id] == s by {
        assert(given.contains(s));
    }
    lemma_listing_is_unique(m, out);
}

proof fn lemma_some_list_holds_all(m: Map<Seq<char>, LocalSessionView>) -> (given: Seq<
    LocalSessionView,
>)
    requires
        by_id(m),
        m.dom().finite(),
    ensures
        holds_all(m, given),
    decreases m.dom().len(),
{
    if m.dom().len() == 0 {
        assert(m.dom() =~= Set::<Seq<char>>::empty());
        let none = Seq::<LocalSessionView>::empty();
        assert forall|s: LocalSessionView| #[trigger] none.contains(s) <==> m.contains_key(s.id)
            && m[s.id] == s by {
            assert(!m.dom().contains(s.id));
        }
        none
    } else {
        let k = m.dom().choose();
        assert(m.contains_key(k));
        let rest = m.remove(k);
        assert(rest.dom() =~= m.dom().remove(k));
        assert(by_id(rest)) by {
            assert forall|o: Seq<char>| #[trigger] rest.contains_key(o) implies rest[o].id == o by {
                assert(m.contains_key(o));
            }
        }
        let list = lemma_some_list_holds_all(rest);
        let given = list.push(m[k]);
        assert(!list.contains(m[k]));
        assert forall|s: LocalSessionView| #[trigger] given.contains(s) <==> m.contains_key(s.id)
            && m[s.id] == s by {
            if given.contains(s) {
                let i = choose|i: int| 0 <= i < given.len() && given[i] == s;
                if i < list.len() {
                    assert(list[i] == s);
                    assert(list.contains(s));
                }
            }
            if m.contains_key(s.id) && m[s.id] == s {
                if s.id == k {
                    assert(given[list.len() as int] == s);
                } else {
                    assert(list.contains(s));
                    let i = choose|i: int| 0 <= i < list.len() && list[i] == s;
                    assert(given[i] == s);
                }
            }
        }
        assert(given.no_duplicates()) by {
            assert forall|a: int, b: int|
                0 <= a < given.len() && 0 <= b < given.len() && a != b implies given[a]
                != given[b] by {
                if a == list.len() {
                    assert(list.contains(list[b]));
                } else if b == list.len() {
                    assert(list.contains(list[a]));
                }
            }
        }
        given
    }
}

/// Finitely many sessions can always be listed.
pub proof fn lemma_sessions_can_be_listed(m: Map<Seq<char>, LocalSessionView>)
    requires
        by_id(m),
        m.dom().finite(),
    ensures
        lists_all(m, listing(m)),
{
    let given = lemma_some_list_holds_all(m);
    lemma_sorted_is_listing(m, given);
}

proof fn lemma_sessions_finite(
    kind: ProviderKind,
    files: Seq<SessionFileView>,
    hints: Map<Seq<char>, HintView>,
)
    ensures
        sessions_of(kind, files, hints).dom().finite(),
    decreases files.len(),
{
    if files.len() > 0 {
        lemma_sessions_finite(kind, files.drop_last(), hints);
    }
}

/// Lists the sessions of a map.
fn list_sessions(sessions: &TextMap<LocalExternalSession>) -> (r: Vec<LocalExternalSession>)
    requires
        by_id(session_map(sessions@)),
    ensures
        session_views(r@) == listing(session_map(sessions@)),
{
    let n: usize = sessions.len();
    let ghost list = sessions.list();
    let ghost m = session_map(sessions@);
    let mut plain: Vec<LocalExternalSession> = Vec::new();
    let mut i: usize = 0;
    while i < n
        invariant
            i <= n,
            n == list.len(),
            list == sessions.list(),
            plain@.len() == i,
            forall|k: int| 0 <= k < i ==> (#[trigger] plain@[k])@ == list[k].1@,
        decreases n - i,
    {
        plain.push(sessions.value_at(i).copy());
        i = i + 1;
    }
    let ghost given = session_views(plain@);
    let ghost unsorted = plain@;
    let sorted = sort_ranked(plain);
    proof {
        assert forall|k: int| 0 <= k < given.len() implies m.contains_key(
            (#[trigger] given[k]).id,
        ) && m[given[k].id] == given[k] && given[k].id == list[k].0@ by {
            lemma_entry_in_map(list, k);
            assert(m.contains_key(list[k].0@));
        }
        assert(given.no_duplicates()) by {
            assert forall|a: int, b: int|
                0 <= a < given.len() && 0 <= b < given.len() && a != b implies given[a]
                != given[b] by {
                if given[a] == given[b] {
                    lemma_ascending_unique(list, a, b);
                }
            }
        }
        assert forall|s: LocalSessionView| #[trigger] given.contains(s) <==> m.contains_key(s.id)
            && m[s.id] == s by {
            if m.contains_key(s.id) && m[s.id] == s {
                assert(entries_map(list).contains_key(s.id));
                let p = position(list, s.id);
                assert(0 <= p < list.len() && list[p].0@ == s.id);
                lemma_entry_in_map(list, p);
                assert(given[p] == s);
            }
        }
        let f = |s: LocalExternalSession| s@;
        lemma_ranked_map(unsorted, f);
        lemma_sorted_is_listing(m, given);
    }
    sorted
}

/// The sessions of an agent, newest first, as many as asked for.
pub open spec fn discovered(
    kind: ProviderKind,
    files: Seq<SessionFileView>,
    index: Seq<Seq<char>>,
    limit: nat,
) -> Seq<LocalSessionView> {
    let all = listing(sessions_of(kind, files, hints_of(kind, line_values(index))));
    if all.len() <= limit {
        all
    } else {
        all.take(limit as int)
    }
}

/// How many sessions are listed.
pub open spec fn list_limit(limit: Option<usize>) -> nat {
    let n = match limit {
        Some(n) => n,
        None => DEFAULT_LIST_LIMIT,
    };
    if n < MAX_DISCOVERED_FILES {
        n as nat
    } else {
        MAX_DISCOVERED_FILES as nat
    }
}

/// Why the sessions of an adapter cannot be found.
pub open spec fn no_local_sessions(adapter: Seq<char>) -> Seq<char> {
    "adapter `"@ + trimmed(adapter) + "` does not support local session resume"@
}

/// Finds the sessions of an agent in its session files and its index.
pub fn discover_local_sessions(
    adapter: &str,
    files: &Vec<SessionFile>,
    index: &Vec<String>,
    limit: Option<usize>,
) -> (r: Result<Vec<LocalExternalSession>, String>)
    ensures
        match r {
            Ok(list) => provider_of(adapter@) is Some && session_views(list@) == discovered(
                provider_of(adapter@)->Some_0,
                file_views(files@),
                texts(index@),
                list_limit(limit),
            ),
            Err(e) => provider_of(adapter@) is None && e@ == no_local_sessions(adapter@),
        },
{
    match provider_kind(adapter) {
        None => Err(concat3("adapter `", trim(adapter), "` does not support local session resume")),
        Some(kind) => {
            let index_values = read_json_lines(index);
            let hints = read_session_hints(kind, &index_values);
            let sessions = find_sessions(kind, files, &hints);
            proof {
                lemma_sessions_by_id(kind, file_views(files@), hint_views(hints@));
            }
            let mut list = list_sessions(&sessions);
            let ghost all = list@;
            let wanted: usize = match limit {
                Some(n) => n,
                None => DEFAULT_LIST_LIMIT,
            };
            let wanted: usize = if wanted < MAX_DISCOVERED_FILES {
                wanted
            } else {
                MAX_DISCOVERED_FILES
            };
            if list.len() > wanted {
                list.truncate(wanted);
                proof {
                    assert(session_views(list@) =~= session_views(all).take(wanted as int));
                }
            }
            Ok(list)
        },
    }
}

// ---------------------------------------------------------------------------
// Picking a session
// ---------------------------------------------------------------------------

/// The first session with an id.
pub open spec fn with_id(list: Seq<LocalSessionView>, id: Seq<char>) -> Option<LocalSessionView>
    decreases list.len(),
{
    if list.len() == 0 {
        None
    } else if list[0].id == id {
        Some(list[0])
    } else {
        with_id(list.drop_first(), id)
    }
}

/// The sessions whose id begins with a text.
pub open spec fn with_id_prefix(list: Seq<LocalSessionView>, id: Seq<char>) -> Seq<LocalSessionView>
    decreases list.len(),
{
    if list.len() == 0 {
        Seq::empty()
    } else {
        let before = with_id_prefix(list.drop_last(), id);
        if has_prefix(list.last().id, id) {
            before.push(list.last())
        } else {
            before
        }
    }
}

/// The session that an id, or the beginning of one, stands for.
pub open spec fn picked(list: Seq<LocalSessionView>, requested: Seq<char>) -> Result<
    LocalSessionView,
    Seq<char>,
> {
    let id = trimmed(requested);
    let matching = with_id_prefix(list, id);
    if with_id(list, id) is Some {
        Ok(with_id(list, id)->Some_0)
    } else if id.len() < MIN_ID_PREFIX_CHARS {
        Err("未找到完整 session id `"@ + id + "`；使用前缀时请至少输入 8 个字符。"@)
    } else if matching.len() == 0 {
        Err("本地没有找到 session `"@ + id + "`。请先发送 /resume 查看最近会话。"@)
    } else if matching.len() > 1 {
        Err("session 前缀 `"@ + id + "` 匹配多条会话，请使用更长或完整的 id。"@)
    } else {
        Ok(matching[0])
    }
}

/// The view of a session or of the reason why there is none.
pub open spec fn session_result(r: Result<LocalExternalSession, String>) -> Result<
    LocalSessionView,
    Seq<char>,
> {
    match r {
        Ok(s) => Ok(s@),
        Err(e) => Err(e@),
    }
}

/// Picks the session that an id, or the beginning of one, stands for.
pub fn pick_session(sessions: &Vec<LocalExternalSession>, requested_id: &str) -> (r: Result<
    LocalExternalSession,
    String,
>)
    ensures
        session_result(r) == picked(session_views(sessions@), requested_id@),
{
    let ghost all = session_views(sessions@);
    let id = trim(requested_id);
    let mut i: usize = 0;
    proof {
        assert(all.skip(0) =~= all);
    }
    while i < sessions.len()
        invariant
            i <= sessions@.len(),
            all == session_views(sessions@),
            id@ == trimmed(requested_id@),
            with_id(all.skip(i as int), id@) == with_id(all, id@),
        decreases sessions@.len() - i,
    {
        proof {
            assert(all.skip(i as int)[0] == sessions@[i as int]@);
            assert(all.skip(i as int).drop_first() =~= all.skip(i + 1));
        }
        if same(sessions[i].id.as_str(), id) {
            return Ok(sessions[i].copy());
        }
        i = i + 1;
    }
    proof {
        assert(all.skip(i as int).len() == 0);
        assert(with_id(all, id@) is None);
    }
    if id.unicode_len() < MIN_ID_PREFIX_CHARS {
        return Err(
            concat3("未找到完整 session id `", id, "`；使用前缀时请至少输入 8 个字符。"),
        );
    }
    let mut matching: Vec<LocalExternalSession> = Vec::new();
    let mut k: usize = 0;
    proof {
        assert(session_views(matching@) =~= with_id_prefix(all.take(0), id@));
    }
    while k < sessions.len()
        invariant
            k <= sessions@.len(),
            all == session_views(sessions@),
            session_views(matching@) == with_id_prefix(all.take(k as int), id@),
        decreases sessions@.len() - k,
    {
        let ghost before = matching@;
        proof {
            assert(all.take(k + 1).drop_last() =~= all.take(k as int));
            assert(all.take(k + 1).last() == sessions@[k as int]@);
        }
        if starts_with(sessions[k].id.as_str(), id) {
            matching.push(sessions[k].copy());
            proof {
                assert(session_views(matching@) =~= session_views(before).push(
                    matching@.last()@,
                ));
            }
        }
        k = k + 1;
    }
    proof {
        assert(all.take(k as int) =~= all);
        assert(session_views(matching@).len() == matching@.len());
    }
    if matching.len() == 0 {
        return Err(
            concat3("本地没有找到 session `", id, "`。请先发送 /resume 查看最近会话。"),
        );
    }
    if matching.len() > 1 {
        return Err(
            concat3("session 前缀 `", id, "` 匹配多条会话，请使用更长或完整的 id。"),
        );
    }
    Ok(matching[0].copy())
}

/// The session of an agent that an id, or the beginning of one, stands for.
pub open spec fn resolved_session(
    adapter: Seq<char>,
    files: Seq<SessionFileView>,
    index: Seq<Seq<char>>,
    requested: Seq<char>,
) -> Result<LocalSessionView, Seq<char>> {
    match provider_of(adapter) {
        None => Err(no_local_sessions(adapter)),
        Some(kind) => picked(
            discovered(kind, files, index, MAX_DISCOVERED_FILES as nat),
            requested,
        ),
    }
}

pub fn resolve_local_session(
    adapter: &str,
    files: &Vec<SessionFile>,
    index: &Vec<String>,
    requested_id: &str,
) -> (r: Result<LocalExternalSession, String>)
    ensures
        session_result(r) == resolved_session(
            adapter@,
            file_views(files@),
            texts(index@),
            requested_id@,
        ),
{
    match discover_local_sessions(adapter, files, index, Some(MAX_DISCOVERED_FILES)) {
        Ok(sessions) => pick_session(&sessions, requested_id),
        Err(e) => Err(e),
    }
}

/// What an agent is called.
pub open spec fn provider_label(adapter: Seq<char>) -> Seq<char> {
    match provider_of(adapter) {
        Some(ProviderKind::Codex) => "Codex"@,
        Some(ProviderKind::Traex) => "Traex"@,
        Some(ProviderKind::ClaudeCode) => claude_product(),
        None => trimmed(adapter),
    }
}

/// The lines about the sessions of a list, numbered from 1.
pub open spec fn session_lines(list: Seq<LocalSessionView>) -> Seq<char>
    decreases list.len(),
{
    if list.len() == 0 {
        Seq::empty()
    } else {
        let s = list.last();
        session_lines(list.drop_last()) + ("\n"@ + decimal(list.len()) + ". "@ + s.id + " / "@
            + s.title + " / "@ + s.datetime)
    }
}

/// What is said about the sessions of an agent.
pub open spec fn session_list_text(adapter: Seq<char>, list: Seq<LocalSessionView>) -> Seq<char> {
    let label = provider_label(adapter);
    if list.len() == 0 {
        "没有找到 "@ + label + " 本地 session。"@
    } else {
        "最近 "@ + decimal(list.len()) + " 个 "@ + label + " 本地 session：\n"@ + session_lines(
            list,
        ) + "\n\n发送 `/resume <id>` 选择；也可以使用至少 8 位的唯一 id 前缀。"@
    }
}

pub fn format_local_session_list(
    adapter: &str,
    sessions: &Vec<LocalExternalSession>,
) -> (r: String)
    ensures
        r@ == session_list_text(adapter@, session_views(sessions@)),
{
    let ghost all = session_views(sessions@);
    let name = match provider_kind(adapter) {
        Some(ProviderKind::Codex) => owned("Codex"),
        Some(ProviderKind::Traex) => owned("Traex"),
        Some(ProviderKind::ClaudeCode) => claude_product_text(),
        None => owned(trim(adapter)),
    };
    let label = name.as_str();
    if sessions.len() == 0 {
        return concat3("没有找到 ", label, " 本地 session。");
    }
    let mut out = concat3("最近 ", decimal_text(sessions.len() as u64).as_str(), " 个 ");
    out.append(label);
    out.append(" 本地 session：\n");
    let ghost head = out@;
    let mut i: usize = 0;
    proof {
        assert(out@ =~= head + session_lines(all.take(0)));
    }
    while i < sessions.len()
        invariant
            i <= sessions@.len(),
            all == session_views(sessions@),
            out@ == head + session_lines(all.take(i as int)),
        decreases sessions@.len() - i,
    {
        let ghost before = out@;
        let s = &sessions[i];
        out.append("\n");
        out.append(decimal_text(i as u64 + 1).as_str());
        out.append(". ");
        out.append(s.id.as_str());
        out.append(" / ");
        out.append(s.title.as_str());
        out.append(" / ");
        out.append(s.datetime.as_str());
        proof {
            assert(all.take(i + 1).drop_last() =~= all.take(i as int));
            assert(all.take(i + 1).last() == s@);
            assert(out@ =~= head + session_lines(all.take(i + 1)));
        }
        i = i + 1;
    }
    out.append("\n\n发送 `/resume <id>` 选择；也可以使用至少 8 位的唯一 id 前缀。");
    proof {
        assert(all.take(i as int) =~= all);
        assert(out@ =~= session_list_text(adapter@, all));
    }
    out
}

/// The store after a session was picked for a conversation: its thread is the
/// session, its conversation is forgotten, and all else stays.
pub open spec fn selected(
    store: StoreView,
    session_key: Seq<char>,
    adapter: Seq<char>,
    runner_id: Seq<char>,
    id: Seq<char>,
    now: u64,
) -> StoreView {
    upserted(
        store,
        session_key,
        adapter,
        Some(runner_id),
        SessionStateView {
            external_thread_id: Some(id),
            external_conversation_id: None,
            ..slot(store, session_key, adapter, Some(runner_id))
        },
        now,
    )
}

fn select_thread(state: ImAgentSessionState, id: &str) -> (r: ImAgentSessionState)
    ensures
        r@ == (SessionStateView {
            external_thread_id: Some(id@),
            external_conversation_id: None,
            ..state@
        }),
{
    let mut changed = state;
    changed.external_thread_id = Some(owned(id));
    changed.external_conversation_id = None;
    changed
}

/// Remembers a picked session for a conversation.
pub fn persist_local_session_selection(
    store: &mut SessionStore,
    session_key: &str,
    adapter: &str,
    runner_id: &str,
    session: &LocalExternalSession,
    now: u64,
)
    ensures
        final(store)@ == selected(
            old(store)@,
            session_key@,
            adapter@,
            runner_id@,
            session@.id,
            now,
        ),
{
    let select = |s: ImAgentSessionState| -> (t: ImAgentSessionState)
        ensures
            t@ == (SessionStateView {
                external_thread_id: Some(session@.id),
                external_conversation_id: None,
                ..s@
            }),
        { select_thread(s, session.id.as_str()) };
    let _state = upsert_session_state(store, session_key, adapter, Some(runner_id), select, now);
}

/// A picked session is what the next message of the conversation goes on with:
/// what is read back has its thread and no conversation, and every other field
/// but the stamp of the write is as it was.
pub proof fn lemma_selection_is_loaded(
    store: StoreView,
    session_key: Seq<char>,
    adapter: Seq<char>,
    runner_id: Seq<char>,
    id: Seq<char>,
    now: u64,
    r: Option<SessionStateView>,
)
    requires
        trimmed(session_key).len() > 0,
        is_loaded(
            selected(store, session_key, adapter, runner_id, id, now).sessions,
            session_key,
            Some(adapter),
            Some(runner_id),
            r,
        ),
    ensures
        r matches Some(s) && s == (SessionStateView {
            external_thread_id: Some(id),
            external_conversation_id: None,
            updated_at: s.updated_at,
            updated_seq: s.updated_seq,
            ..slot(store, session_key, adapter, Some(runner_id))
        }),
{
    lemma_trimmed_idempotent(session_key);
    assert(state_key_of(trimmed(session_key), adapter, Some(runner_id)) == state_key_of(
        session_key,
        adapter,
        Some(runner_id),
    ));
}

/// What is said about a picked session.
pub open spec fn picked_text(s: LocalSessionView) -> Seq<char> {
    "已选择本地 session：\n- id: `"@ + s.id + "`\n- title: "@ + s.title + "\n- datetime: "@ + s.datetime
        + "\n\n下一条普通消息将恢复此会话。"@
}

pub fn format_picked_session(session: &LocalExternalSession) -> (r: String)
    ensures
        r@ == picked_text(session@),
{
    let mut out = concat3("已选择本地 session：\n- id: `", session.id.as_str(), "`\n- title: ");
    out.append(session.title.as_str());
    out.append("\n- datetime: ");
    out.append(session.datetime.as_str());
    out.append("\n\n下一条普通消息将恢复此会话。");
    out
}

/// What `/resume` answers.
pub open spec fn resume_answer(
    adapter: Seq<char>,
    command: ResumeView,
    has_selection: bool,
    files: Seq<SessionFileView>,
    index: Seq<Seq<char>>,
) -> Result<Seq<char>, Seq<char>> {
    if provider_of(adapter) is None {
        Err("/resume 当前仅支持 Codex、Traex 或 "@ + claude_product() + " Runner。"@)
    } else {
        match command {
            ResumeView::List => Ok(
                session_list_text(
                    adapter,
                    discovered(
                        provider_of(adapter)->Some_0,
                        files,
                        index,
                        DEFAULT_LIST_LIMIT as nat,
                    ),
                ),
            ),
            ResumeView::Pick(id) => if !has_selection {
                Err("sessionKey is required to persist /resume selection"@)
            } else {
                match resolved_session(adapter, files, index, id) {
                    Ok(s) => Ok(picked_text(s)),
                    Err(e) => Err(e),
                }
            },
        }
    }
}

/// The store after `/resume`: it changes where a session was picked, and only
/// there.
pub open spec fn resume_store(
    store: StoreView,
    adapter: Seq<char>,
    command: ResumeView,
    selection: Option<(Seq<char>, Seq<char>)>,
    files: Seq<SessionFileView>,
    index: Seq<Seq<char>>,
    now: u64,
) -> StoreView {
    match (command, selection) {
        (ResumeView::Pick(id), Some((session_key, runner_id))) => match resolved_session(
            adapter,
            files,
            index,
            id,
        ) {
            Ok(s) => selected(store, session_key, adapter, runner_id, s.id, now),
            Err(_) => store,
        },
        _ => store,
    }
}

/// Answers `/resume`: lists the sessions of the agent, or picks one and remembers
/// it for the conversation.
pub fn execute_local_session_resume_command(
    adapter: &str,
    command: &ExternalCliResumeSlashCommand,
    selection: &Option<LocalSessionSelectionContext>,
    files: &Vec<SessionFile>,
    index: &Vec<String>,
    store: &mut SessionStore,
    now: u64,
) -> (r: Result<String, String>)
    ensures
        crate::models::text_result(r) == resume_answer(
            adapter@,
            command@,
            selection is Some,
            file_views(files@),
            texts(index@),
        ),
        final(store)@ == resume_store(
            old(store)@,
            adapter@,
            command@,
            match *selection {
                Some(c) => Some((c.session_key@, c.runner_id@)),
                None => None,
            },
            file_views(files@),
            texts(index@),
            now,
        ),
{
    if !supports_external_cli_resume_slash(adapter) {
        return Err(
            concat3(
                "/resume 当前仅支持 Codex、Traex 或 ",
                claude_product_text().as_str(),
                " Runner。",
            ),
        );
    }
    match command {
        ExternalCliResumeSlashCommand::List => match discover_local_sessions(
            adapter,
            files,
            index,
            Some(DEFAULT_LIST_LIMIT),
        ) {
            Ok(sessions) => Ok(format_local_session_list(adapter, &sessions)),
            Err(e) => Err(e),
        },
        ExternalCliResumeSlashCommand::Pick(id) => match selection {
            None => Err(owned("sessionKey is required to persist /resume selection")),
            Some(context) => match resolve_local_session(adapter, files, index, id.as_str()) {
                Ok(session) => {
                    persist_local_session_selection(
                        store,
                        context.session_key.as_str(),
                        adapter,
                        context.runner_id.as_str(),
                        &session,
                        now,
                    );
                    Ok(format_picked_session(&session))
                },
                Err(e) => Err(e),
            },
        },
    }
}

// ---------------------------------------------------------------------------
// Laws of discovery
// ---------------------------------------------------------------------------

/// Every file whose session is known is accounted for: a session with its id is
/// found, and it is at least as new. Every session that is found is that of a
/// file.
pub proof fn lemma_newest_of_each_is_found(
    kind: ProviderKind,
    files: Seq<SessionFileView>,
    hints: Map<Seq<char>, HintView>,
)
    ensures
        forall|i: int|
            #![trigger files[i]]
            0 <= i < files.len() ==> (session_of(kind, files[i], hints) matches Some(s)
                ==> sessions_of(kind, files, hints).contains_key(s.id) && sessions_of(
                kind,
                files,
                hints,
            )[s.id].updated_at_millis >= s.updated_at_millis),
        forall|k: Seq<char>| #[trigger]
            sessions_of(kind, files, hints).contains_key(k) ==> exists|i: int|
                0 <= i < files.len() && session_of(kind, #[trigger] files[i], hints) == Some(
                    sessions_of(kind, files, hints)[k],
                ),
    decreases files.len(),
{
    let all = sessions_of(kind, files, hints);
    if files.len() > 0 {
        let rest = files.drop_last();
        let before = sessions_of(kind, rest, hints);
        lemma_newest_of_each_is_found(kind, rest, hints);
        lemma_sessions_by_id(kind, rest, hints);
        assert forall|i: int| #![trigger files[i]] 0 <= i < files.len() implies (session_of(
            kind,
            files[i],
            hints,
        ) matches Some(s) ==> all.contains_key(s.id) && all[s.id].updated_at_millis
            >= s.updated_at_millis) by {
            if i < rest.len() {
                assert(rest[i] == files[i]);
            }
        }
        assert forall|k: Seq<char>| #[trigger] all.contains_key(k) implies exists|i: int|
            0 <= i < files.len() && session_of(kind, #[trigger] files[i], hints) == Some(
                all[k],
            ) by {
            let last = session_of(kind, files.last(), hints);
            if last == Some(all[k]) {
                assert(session_of(kind, files[files.len() - 1], hints) == Some(all[k]));
            } else {
                assert(before.contains_key(k) && before[k] == all[k]);
                let i = choose|i: int|
                    0 <= i < rest.len() && session_of(kind, #[trigger] rest[i], hints) == Some(
                        before[k],
                    );
                assert(session_of(kind, files[i], hints) == Some(all[k]));
            }
        }
    }
}

/// What is listed is newest first, no id twice, and no more than asked for.
pub proof fn lemma_discovered_in_order(
    kind: ProviderKind,
    files: Seq<SessionFileView>,
    index: Seq<Seq<char>>,
    limit: nat,
)
    ensures
        discovered(kind, files, index, limit).len() <= limit,
        forall|i: int, j: int|
            0 <= i < j < discovered(kind, files, index, limit).len() ==> listed_before(
                #[trigger] discovered(kind, files, index, limit)[i],
                #[trigger] discovered(kind, files, index, limit)[j],
            ) && discovered(kind, files, index, limit)[i].id != discovered(
                kind,
                files,
                index,
                limit,
            )[j].id,
{
    let hints = hints_of(kind, line_values(index));
    let m = sessions_of(kind, files, hints);
    lemma_sessions_by_id(kind, files, hints);
    lemma_sessions_finite(kind, files, hints);
    lemma_sessions_can_be_listed(m);
    let full = listing(m);
    let d = discovered(kind, files, index, limit);
    assert forall|i: int, j: int| 0 <= i < j < d.len() implies listed_before(
        #[trigger] d[i],
        #[trigger] d[j],
    ) && d[i].id != d[j].id by {
        assert(d[i] == full[i] && d[j] == full[j]);
        assert(full.contains(full[i]) && full.contains(full[j]));
        if d[i].id == d[j].id {
            lemma_listed_before(full[i], full[j]);
        }
    }
}

/// A whole id always picks the session of that id, even where it is the
/// beginning of others.
pub proof fn lemma_whole_id_is_picked(list: Seq<LocalSessionView>, i: int)
    requires
        0 <= i < list.len(),
        trimmed(list[i].id) == list[i].id,
    ensures
        picked(list, list[i].id) matches Ok(s) && s.id == list[i].id && list.contains(s),
    decreases list.len(),
{
    lemma_with_id(list, i);
}

proof fn lemma_with_id(list: Seq<LocalSessionView>, i: int)
    requires
        0 <= i < list.len(),
    ensures
        with_id(list, list[i].id) matches Some(s) && s.id == list[i].id && list.contains(s),
    decreases list.len(),
{
    if list[0].id == list[i].id {
        assert(list.contains(list[0]));
    } else {
        let rest = list.drop_first();
        assert(rest[i - 1] == list[i]);
        lemma_with_id(rest, i - 1);
        let s = with_id(rest, list[i].id)->Some_0;
        let k = choose|k: int| 0 <= k < rest.len() && rest[k] == s;
        assert(list[k + 1] == s);
    }
}

} // verus!
