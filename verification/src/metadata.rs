//! What is recorded of a run besides its answer.

use vstd::prelude::*;
use vstd::string::*;

use crate::agent_config::{
    clean_optional_string, cleaned, map_texts, CLAUDE_CODE_ADAPTER, DEFAULT_ADAPTER, TRAEX_ADAPTER,
};
use crate::command_spec::{CommandSpec, CommandView};
use crate::gateway_config::{put_absent, put_text};
use crate::json::{
    first_of, json_to_text, lemma_list_view, lemma_object_view, member, member_of, members, opt_str,
    opt_tree, text_of_json, tree_bool, tree_i64, tree_list, tree_text, tree_u64, trees, Json, Tree,
};
use crate::map::TextMap;
use crate::model_config::{ExternalCliResolvedModelConfig, ResolvedView};
use crate::models::{default_model_label, external_cli_default_model_label};
use crate::progress::{
    event_views, minus, or_text, EventView, ExternalCliProgressEvent, ExternalCliProgressEventType,
};
use crate::request::{ExternalCliRunRequest, ExternalCliSavedImageAttachment};
use crate::text::{
    blank, byte_len, contains, cut, cut_text, decimal, decimal_text, has_text, lowered, opt, owned,
    same, texts, to_lower, trim,
};

verus! {

broadcast use vstd::string::group_string_axioms;

/// The mathematical view of a set of records.
pub type Records = Map<Seq<char>, Seq<char>>;

// ---------------------------------------------------------------------------
// Single records
// ---------------------------------------------------------------------------

/// A record of a text that is not blank, cut at two thousand characters.
pub open spec fn with_text(m: Records, key: Seq<char>, value: Seq<char>) -> Records {
    if blank(value) {
        m
    } else {
        m.insert(key, cut(value, 2000))
    }
}

pub open spec fn with_opt_text(m: Records, key: Seq<char>, value: Option<Seq<char>>) -> Records {
    match value {
        Some(v) => with_text(m, key, v),
        None => m,
    }
}

pub open spec fn with_number(m: Records, key: Seq<char>, value: nat) -> Records {
    m.insert(key, decimal(value))
}

pub open spec fn with_opt_number(m: Records, key: Seq<char>, value: Option<u64>) -> Records {
    match value {
        Some(v) => with_number(m, key, v as nat),
        None => m,
    }
}

pub open spec fn bool_text(value: bool) -> Seq<char> {
    if value {
        "true"@
    } else {
        "false"@
    }
}

pub open spec fn with_flag(m: Records, key: Seq<char>, value: bool) -> Records {
    m.insert(key, bool_text(value))
}

pub open spec fn with_opt_flag(m: Records, key: Seq<char>, value: Option<bool>) -> Records {
    match value {
        Some(v) => with_flag(m, key, v),
        None => m,
    }
}

/// A record of a JSON value, cut at four thousand characters.
pub open spec fn with_json(m: Records, key: Seq<char>, value: Tree) -> Records {
    m.insert(key, cut(text_of_json(value), 4000))
}

/// A JSON list of texts.
pub open spec fn text_list(v: Seq<Seq<char>>) -> Tree {
    Tree::List(v.map_values(|s: Seq<char>| Tree::Text(s)))
}

/// The first `max_chars` characters of a value.
pub fn truncate_metadata_value(value: &str, max_chars: usize) -> (r: String)
    ensures
        r@ == cut(value@, max_chars as nat),
{
    cut_text(value, max_chars)
}

fn insert_metadata(metadata: &mut TextMap<String>, key: &str, value: &str)
    ensures
        map_texts(final(metadata)@) == with_text(map_texts(old(metadata)@), key@, value@),
{
    if !trim(value).is_empty() {
        let short = truncate_metadata_value(value, 2000);
        put_text(metadata, key, short.as_str());
    }
}

fn insert_metadata_opt(metadata: &mut TextMap<String>, key: &str, value: &Option<String>)
    ensures
        map_texts(final(metadata)@) == with_opt_text(map_texts(old(metadata)@), key@, opt(*value)),
{
    match value {
        Some(v) => insert_metadata(metadata, key, v.as_str()),
        None => {},
    }
}

fn insert_metadata_u64(metadata: &mut TextMap<String>, key: &str, value: u64)
    ensures
        map_texts(final(metadata)@) == with_number(
            map_texts(old(metadata)@),
            key@,
            value as nat,
        ),
{
    let text = decimal_text(value);
    put_text(metadata, key, text.as_str());
}

fn insert_metadata_opt_u64(metadata: &mut TextMap<String>, key: &str, value: Option<u64>)
    ensures
        map_texts(final(metadata)@) == with_opt_number(map_texts(old(metadata)@), key@, value),
{
    match value {
        Some(v) => insert_metadata_u64(metadata, key, v),
        None => {},
    }
}

fn insert_metadata_bool(metadata: &mut TextMap<String>, key: &str, value: bool)
    ensures
        map_texts(final(metadata)@) == with_flag(map_texts(old(metadata)@), key@, value),
{
    if value {
        put_text(metadata, key, "true");
    } else {
        put_text(metadata, key, "false");
    }
}

fn insert_metadata_opt_bool(metadata: &mut TextMap<String>, key: &str, value: Option<bool>)
    ensures
        map_texts(final(metadata)@) == with_opt_flag(map_texts(old(metadata)@), key@, value),
{
    match value {
        Some(v) => insert_metadata_bool(metadata, key, v),
        None => {},
    }
}

fn insert_metadata_json(metadata: &mut TextMap<String>, key: &str, value: &Json)
    ensures
        map_texts(final(metadata)@) == with_json(map_texts(old(metadata)@), key@, value@),
{
    let text = json_to_text(value);
    let short = truncate_metadata_value(text.as_str(), 4000);
    put_text(metadata, key, short.as_str());
}

fn insert_metadata_list(metadata: &mut TextMap<String>, key: &str, values: &Vec<String>)
    ensures
        map_texts(final(metadata)@) == with_json(
            map_texts(old(metadata)@),
            key@,
            text_list(texts(values@)),
        ),
{
    let mut list: Vec<Json> = Vec::new();
    let mut i: usize = 0;
    while i < values.len()
        invariant
            i <= values@.len(),
            list@.len() == i,
            forall|k: int| 0 <= k < i ==> (#[trigger] list@[k])@ == Tree::Text(values@[k]@),
        decreases values@.len() - i,
    {
        list.push(Json::Text(values[i].clone()));
        i = i + 1;
    }
    proof {
        lemma_list_view(list);
        assert(trees(list@) =~= texts(values@).map_values(|s: Seq<char>| Tree::Text(s)));
    }
    let value = Json::List(list);
    insert_metadata_json(metadata, key, &value);
}

/// Puts a text at a key that has none yet.
fn put_text_if_absent(m: &mut TextMap<String>, key: &str, value: &str)
    ensures
        map_texts(final(m)@) == put_absent(map_texts(old(m)@), key@, value@),
{
    proof {
        assert(map_texts(m@).dom() =~= m@.dom());
    }
    if !m.contains_key(key) {
        put_text(m, key, value);
    }
}

// ---------------------------------------------------------------------------
// The thread and the tokens of a run
// ---------------------------------------------------------------------------

pub open spec fn codex_like(adapter: Seq<char>) -> bool {
    adapter == DEFAULT_ADAPTER@ || adapter == TRAEX_ADAPTER@ || adapter == CLAUDE_CODE_ADAPTER@
}

pub fn is_codex_like_adapter(adapter: &str) -> (r: bool)
    ensures
        r == codex_like(adapter@),
{
    same(adapter, DEFAULT_ADAPTER) || same(adapter, TRAEX_ADAPTER) || same(
        adapter,
        CLAUDE_CODE_ADAPTER,
    )
}

/// The thread that an event names.
pub open spec fn event_thread(raw: Tree) -> Option<Seq<char>> {
    cleaned(
        tree_text(
            first_of(
                first_of(
                    first_of(member(raw, "thread_id"@), member(raw, "threadId"@)),
                    member(raw, "session_id"@),
                ),
                member(raw, "sessionId"@),
            ),
        ),
    )
}

/// The thread that the first event to name one names.
pub open spec fn first_thread(events: Seq<EventView>) -> Option<Seq<char>>
    decreases events.len(),
{
    if events.len() == 0 {
        None
    } else {
        first_of(event_thread(events[0].raw), first_thread(events.drop_first()))
    }
}

/// The token counts that an event carries, if it carries an object of them.
pub open spec fn event_usage(raw: Tree) -> Option<Tree> {
    match first_of(member(raw, "usage"@), member_of(member(raw, "message"@), "usage"@)) {
        Some(u) => if u is Object {
            Some(u)
        } else {
            None
        },
        None => None,
    }
}

/// The token counts of the last event that carries any.
pub open spec fn last_usage(events: Seq<EventView>) -> Option<Tree>
    decreases events.len(),
{
    if events.len() == 0 {
        None
    } else {
        first_of(event_usage(events.last().raw), last_usage(events.drop_last()))
    }
}

pub open spec fn or_zero(v: Option<u64>) -> u64 {
    match v {
        Some(n) => n,
        None => 0,
    }
}

pub open spec fn sum_capped(a: u64, b: u64) -> u64 {
    if a + b > u64::MAX {
        u64::MAX
    } else {
        (a + b) as u64
    }
}

/// The total that is reported, else the sum of input and output unless it is
/// zero.
pub open spec fn usage_total(u: Tree) -> Option<u64> {
    let sum = sum_capped(
        or_zero(tree_u64(member(u, "input_tokens"@))),
        or_zero(tree_u64(member(u, "output_tokens"@))),
    );
    first_of(
        tree_u64(member(u, "total_tokens"@)),
        if sum > 0 {
            Some(sum)
        } else {
            None
        },
    )
}

pub open spec fn absent_number(m: Records, key: Seq<char>, value: Option<u64>) -> Records {
    match value {
        Some(v) => put_absent(m, key, decimal(v as nat)),
        None => m,
    }
}

pub open spec fn with_usage(m: Records, events: Seq<EventView>) -> Records {
    match last_usage(events) {
        None => m,
        Some(u) => {
            let m1 = absent_number(m, "usageInputTokens"@, tree_u64(member(u, "input_tokens"@)));
            let m2 = absent_number(
                m1,
                "usageCachedInputTokens"@,
                tree_u64(member(u, "cached_input_tokens"@)),
            );
            let m3 = absent_number(m2, "usageOutputTokens"@, tree_u64(member(u, "output_tokens"@)));
            let m4 = absent_number(
                m3,
                "usageReasoningOutputTokens"@,
                tree_u64(member(u, "reasoning_output_tokens"@)),
            );
            absent_number(m4, "usageTotalTokens"@, usage_total(u))
        },
    }
}

/// The records of a run with its thread and its token counts. What is recorded
/// already stays.
pub open spec fn with_run_records(
    m: Records,
    adapter: Seq<char>,
    events: Seq<EventView>,
) -> Records {
    if !codex_like(adapter) {
        m
    } else {
        let threaded = match first_thread(events) {
            Some(t) => put_absent(m, "threadId"@, t),
            None => m,
        };
        with_usage(threaded, events)
    }
}

fn member_u64(value: &Json, key: &str) -> (r: Option<u64>)
    ensures
        r == tree_u64(member(value@, key@)),
{
    match value.get(key) {
        Some(v) => v.as_u64(),
        None => None,
    }
}

fn put_number_if_absent(metadata: &mut TextMap<String>, key: &str, value: Option<u64>)
    ensures
        map_texts(final(metadata)@) == absent_number(map_texts(old(metadata)@), key@, value),
{
    match value {
        Some(v) => {
            let text = decimal_text(v);
            put_text_if_absent(metadata, key, text.as_str());
        },
        None => {},
    }
}

fn event_thread_id(raw: &Json) -> (r: Option<String>)
    ensures
        opt(r) == event_thread(raw@),
{
    let found = match raw.get("thread_id") {
        Some(v) => Some(v),
        None => match raw.get("threadId") {
            Some(v) => Some(v),
            None => match raw.get("session_id") {
                Some(v) => Some(v),
                None => raw.get("sessionId"),
            },
        },
    };
    match found {
        Some(v) => clean_optional_string(v.as_str()),
        None => None,
    }
}

fn first_thread_id(events: &Vec<ExternalCliProgressEvent>) -> (r: Option<String>)
    ensures
        opt(r) == first_thread(event_views(events@)),
{
    let ghost all = event_views(events@);
    let mut i: usize = 0;
    proof {
        assert(all.skip(0) =~= all);
    }
    while i < events.len()
        invariant
            i <= events@.len(),
            all == event_views(events@),
            first_thread(all.skip(i as int)) == first_thread(all),
        decreases events@.len() - i,
    {
        proof {
            assert(all.skip(i as int)[0] == events@[i as int]@);
            assert(all.skip(i as int).drop_first() =~= all.skip(i + 1));
        }
        match event_thread_id(&events[i].raw) {
            Some(t) => {
                return Some(t);
            },
            None => {},
        }
        i = i + 1;
    }
    None
}

fn find_usage(raw: &Json) -> (r: Option<&Json>)
    ensures
        opt_tree(r) == event_usage(raw@),
{
    let found = match raw.get("usage") {
        Some(v) => Some(v),
        None => match raw.get("message") {
            Some(m) => m.get("usage"),
            None => None,
        },
    };
    match found {
        Some(u) => if u.is_object() {
            Some(u)
        } else {
            None
        },
        None => None,
    }
}

/// Records the token counts of a run.
pub fn append_external_cli_usage_metadata(
    events: &Vec<ExternalCliProgressEvent>,
    metadata: &mut TextMap<String>,
)
    ensures
        map_texts(final(metadata)@) == with_usage(map_texts(old(metadata)@), event_views(events@)),
{
    let ghost all = event_views(events@);
    let mut i: usize = events.len();
    let mut found: Option<&Json> = None;
    proof {
        assert(all.take(i as int) =~= all);
    }
    while i > 0 && found.is_none()
        invariant
            i <= events@.len(),
            all == event_views(events@),
            found is None ==> last_usage(all.take(i as int)) == last_usage(all),
            found is Some ==> opt_tree(found) == last_usage(all),
        decreases i,
    {
        proof {
            assert(all.take(i as int).last() == events@[i - 1]@);
            assert(all.take(i as int).drop_last() =~= all.take(i - 1));
        }
        i = i - 1;
        found = find_usage(&events[i].raw);
    }
    match found {
        None => {},
        Some(usage) => {
            let input = member_u64(usage, "input_tokens");
            let output = member_u64(usage, "output_tokens");
            put_number_if_absent(metadata, "usageInputTokens", input);
            put_number_if_absent(
                metadata,
                "usageCachedInputTokens",
                member_u64(usage, "cached_input_tokens"),
            );
            put_number_if_absent(metadata, "usageOutputTokens", output);
            put_number_if_absent(
                metadata,
                "usageReasoningOutputTokens",
                member_u64(usage, "reasoning_output_tokens"),
            );
            let a: u64 = match input {
                Some(n) => n,
                None => 0,
            };
            let b: u64 = match output {
                Some(n) => n,
                None => 0,
            };
            let sum: u64 = a.saturating_add(b);
            let total = match member_u64(usage, "total_tokens") {
                Some(t) => Some(t),
                None => if sum > 0 {
                    Some(sum)
                } else {
                    None
                },
            };
            put_number_if_absent(metadata, "usageTotalTokens", total);
        },
    }
}

/// Records the thread and the token counts of a run.
pub fn append_external_cli_metadata(
    adapter: &str,
    events: &Vec<ExternalCliProgressEvent>,
    metadata: &mut TextMap<String>,
)
    ensures
        map_texts(final(metadata)@) == with_run_records(
            map_texts(old(metadata)@),
            adapter@,
            event_views(events@),
        ),
{
    if !is_codex_like_adapter(adapter) {
        return;
    }
    match first_thread_id(events) {
        Some(t) => put_text_if_absent(metadata, "threadId", t.as_str()),
        None => {},
    }
    append_external_cli_usage_metadata(events, metadata);
}

/// The records of what a run was set to use. What is recorded already stays.
pub open spec fn with_model_records(m: Records, adapter: Seq<char>, r: ResolvedView) -> Records {
    let m1 = match r.model {
        Some(model) => {
            let a = put_absent(m, "model"@, model);
            let b = match r.model_provider {
                Some(p) => put_absent(a, "modelProvider"@, p),
                None => a,
            };
            put_absent(
                put_absent(b, "modelSource"@, or_text(r.model_source, "runner config"@)),
                "modelLabel"@,
                model,
            )
        },
        None => match default_model_label(adapter) {
            Some((label, source)) => put_absent(
                put_absent(m, "modelLabel"@, label),
                "modelSource"@,
                source,
            ),
            None => m,
        },
    };
    let m2 = match r.reasoning_effort {
        Some(e) => put_absent(m1, "modelReasoningEffort"@, e),
        None => m1,
    };
    match r.reasoning_summary {
        Some(s) => put_absent(m2, "modelReasoningSummary"@, s),
        None => m2,
    }
}

fn put_opt_if_absent(metadata: &mut TextMap<String>, key: &str, value: &Option<String>)
    ensures
        map_texts(final(metadata)@) == (match *value {
            Some(v) => put_absent(map_texts(old(metadata)@), key@, v@),
            None => map_texts(old(metadata)@),
        }),
{
    match value {
        Some(v) => put_text_if_absent(metadata, key, v.as_str()),
        None => {},
    }
}

/// Records what a run was set to use. `resolved` is what it settles on.
pub fn append_external_cli_request_metadata(
    adapter: &str,
    resolved: &ExternalCliResolvedModelConfig,
    metadata: &mut TextMap<String>,
)
    ensures
        map_texts(final(metadata)@) == with_model_records(
            map_texts(old(metadata)@),
            adapter@,
            resolved@,
        ),
{
    match &resolved.model {
        Some(model) => {
            put_text_if_absent(metadata, "model", model.as_str());
            put_opt_if_absent(metadata, "modelProvider", &resolved.model_provider);
            match &resolved.model_source {
                Some(source) => put_text_if_absent(metadata, "modelSource", source.as_str()),
                None => put_text_if_absent(metadata, "modelSource", "runner config"),
            }
            put_text_if_absent(metadata, "modelLabel", model.as_str());
        },
        None => match external_cli_default_model_label(adapter) {
            Some((label, source)) => {
                put_text_if_absent(metadata, "modelLabel", label.as_str());
                put_text_if_absent(metadata, "modelSource", source.as_str());
            },
            None => {},
        },
    }
    put_opt_if_absent(metadata, "modelReasoningEffort", &resolved.reasoning_effort);
    put_opt_if_absent(metadata, "modelReasoningSummary", &resolved.reasoning_summary);
}

/// Recording the thread, the tokens and the model of a run leaves every record
/// that is there already as it is.
pub proof fn lemma_records_stay(
    m: Records,
    adapter: Seq<char>,
    events: Seq<EventView>,
    r: ResolvedView,
    key: Seq<char>,
)
    requires
        m.contains_key(key),
    ensures
        with_run_records(m, adapter, events).contains_key(key),
        with_run_records(m, adapter, events)[key] == m[key],
        with_model_records(m, adapter, r).contains_key(key),
        with_model_records(m, adapter, r)[key] == m[key],
{
}

// ---------------------------------------------------------------------------
// Tool calls
// ---------------------------------------------------------------------------

/// The text of a member of a member.
pub open spec fn plain_in(raw: Tree, outer: Seq<char>, inner: Seq<char>) -> Option<Seq<char>> {
    tree_text(member_of(member(raw, outer), inner))
}

/// The text of a member.
pub open spec fn plain_at(raw: Tree, key: Seq<char>) -> Option<Seq<char>> {
    tree_text(member(raw, key))
}

pub open spec fn tool_id(raw: Tree) -> Option<Seq<char>> {
    first_of(
        first_of(plain_in(raw, "item"@, "id"@), plain_at(raw, "item_id"@)),
        plain_at(raw, "id"@),
    )
}

pub open spec fn tool_name(raw: Tree) -> Option<Seq<char>> {
    first_of(
        first_of(
            first_of(plain_in(raw, "item"@, "name"@), plain_at(raw, "name"@)),
            plain_in(raw, "item"@, "type"@),
        ),
        plain_at(raw, "tool"@),
    )
}

/// Whether the status of a tool call, if it has one, is a success.
pub open spec fn status_success(raw: Tree) -> Option<bool> {
    match first_of(plain_in(raw, "item"@, "status"@), plain_at(raw, "status"@)) {
        Some(s) => Some(s == "completed"@ || s == "success"@ || s == "succeeded"@),
        None => None,
    }
}

pub open spec fn tool_succeeded(e: EventView) -> bool {
    match first_of(tree_bool(member(e.raw, "success"@)), status_success(e.raw)) {
        Some(b) => b,
        None => !has_text(lowered(e.content), "failed"@),
    }
}

pub open spec fn null_or_text(v: Option<Seq<char>>) -> Tree {
    match v {
        Some(s) => Tree::Text(s),
        None => Tree::Null,
    }
}

pub open spec fn null_or_signed(v: Option<i64>) -> Tree {
    match v {
        Some(n) => if n >= 0 {
            Tree::Unsigned(n as u64)
        } else {
            Tree::Signed(n)
        },
        None => Tree::Null,
    }
}

pub open spec fn null_or_unsigned(v: Option<u64>) -> Tree {
    match v {
        Some(n) => Tree::Unsigned(n),
        None => Tree::Null,
    }
}

/// The record of one finished tool call.
pub open spec fn tool_call(e: EventView) -> Tree {
    Tree::Object(
        seq![
            ("id"@, null_or_text(tool_id(e.raw))),
            (
                "name"@,
                Tree::Text(or_text(first_of(tool_name(e.raw), e.title), "tool"@)),
            ),
            (
                "command"@,
                null_or_text(
                    first_of(plain_in(e.raw, "item"@, "command"@), plain_at(e.raw, "command"@)),
                ),
            ),
            (
                "exitCode"@,
                null_or_signed(
                    first_of(
                        tree_i64(member_of(member(e.raw, "item"@), "exit_code"@)),
                        tree_i64(member(e.raw, "exitCode"@)),
                    ),
                ),
            ),
            ("success"@, Tree::Bool(tool_succeeded(e))),
            ("durationMs"@, null_or_unsigned(tree_u64(member(e.raw, "durationMs"@)))),
            ("outputBytes"@, Tree::Unsigned(byte_len(e.content) as u64)),
        ],
    )
}

/// The finished tool calls of a run.
pub open spec fn finished_tools(events: Seq<EventView>) -> Seq<EventView>
    decreases events.len(),
{
    if events.len() == 0 {
        Seq::empty()
    } else {
        let before = finished_tools(events.drop_last());
        if events.last().event_type == ExternalCliProgressEventType::ToolFinished {
            before.push(events.last())
        } else {
            before
        }
    }
}

pub open spec fn tool_calls(tools: Seq<EventView>) -> Seq<Tree> {
    tools.map_values(|e: EventView| tool_call(e))
}

pub open spec fn failed_tools(tools: Seq<EventView>) -> nat
    decreases tools.len(),
{
    if tools.len() == 0 {
        0
    } else {
        failed_tools(tools.drop_last()) + (if tool_succeeded(tools.last()) {
            0nat
        } else {
            1
        })
    }
}

pub open spec fn tool_time(tools: Seq<EventView>) -> nat
    decreases tools.len(),
{
    if tools.len() == 0 {
        0
    } else {
        tool_time(tools.drop_last()) + or_zero(
            tree_u64(member(tools.last().raw, "durationMs"@)),
        ) as nat
    }
}

pub open spec fn tool_output_bytes(tools: Seq<EventView>) -> nat
    decreases tools.len(),
{
    if tools.len() == 0 {
        0
    } else {
        tool_output_bytes(tools.drop_last()) + byte_len(tools.last().content) as nat
    }
}

pub open spec fn with_tool_records(m: Records, events: Seq<EventView>) -> Records {
    let tools = finished_tools(events);
    let m1 = with_number(m, "tools.count"@, tools.len());
    let m2 = with_number(m1, "tools.failedCount"@, failed_tools(tools));
    let m3 = with_number(m2, "tools.totalDurationMs"@, tool_time(tools));
    let m4 = with_number(m3, "tools.outputBytes"@, tool_output_bytes(tools));
    with_json(m4, "tools.calls"@, Tree::List(tool_calls(tools)))
}

fn str_in<'a>(raw: &'a Json, outer: &str, inner: &str) -> (r: Option<&'a str>)
    ensures
        opt_str(r) == plain_in(raw@, outer@, inner@),
{
    match raw.get(outer) {
        Some(v) => match v.get(inner) {
            Some(w) => w.as_str(),
            None => None,
        },
        None => None,
    }
}

fn str_at<'a>(raw: &'a Json, key: &str) -> (r: Option<&'a str>)
    ensures
        opt_str(r) == plain_at(raw@, key@),
{
    match raw.get(key) {
        Some(v) => v.as_str(),
        None => None,
    }
}

fn text_or_null(v: Option<&str>) -> (r: Json)
    ensures
        r@ == null_or_text(opt_str(v)),
{
    match v {
        Some(s) => Json::Text(owned(s)),
        None => Json::Null,
    }
}

fn tool_success(event: &ExternalCliProgressEvent) -> (r: bool)
    ensures
        r == tool_succeeded(event@),
{
    let stated = match event.raw.get("success") {
        Some(v) => v.as_bool(),
        None => None,
    };
    match stated {
        Some(b) => {
            return b;
        },
        None => {},
    }
    let status = match str_in(&event.raw, "item", "status") {
        Some(s) => Some(s),
        None => str_at(&event.raw, "status"),
    };
    match status {
        Some(s) => same(s, "completed") || same(s, "success") || same(s, "succeeded"),
        None => {
            let lower = to_lower(event.content.as_str());
            !contains(lower.as_str(), "failed")
        },
    }
}

fn tool_call_record(event: &ExternalCliProgressEvent) -> (r: Json)
    ensures
        r@ == tool_call(event@),
{
    let raw = &event.raw;
    let id = match str_in(raw, "item", "id") {
        Some(s) => Some(s),
        None => match str_at(raw, "item_id") {
            Some(s) => Some(s),
            None => str_at(raw, "id"),
        },
    };
    let named = match str_in(raw, "item", "name") {
        Some(s) => Some(s),
        None => match str_at(raw, "name") {
            Some(s) => Some(s),
            None => match str_in(raw, "item", "type") {
                Some(s) => Some(s),
                None => str_at(raw, "tool"),
            },
        },
    };
    let name = match named {
        Some(s) => owned(s),
        None => match &event.title {
            Some(t) => t.clone(),
            None => owned("tool"),
        },
    };
    let command = match str_in(raw, "item", "command") {
        Some(s) => Some(s),
        None => str_at(raw, "command"),
    };
    let item_code: Option<i64> = match raw.get("item") {
        Some(item) => match item.get("exit_code") {
            Some(v) => v.as_i64(),
            None => None,
        },
        None => None,
    };
    let code: Option<i64> = match item_code {
        Some(c) => Some(c),
        None => match raw.get("exitCode") {
            Some(v) => v.as_i64(),
            None => None,
        },
    };
    let exit_code = match code {
        Some(c) => if c >= 0 {
            Json::Unsigned(c as u64)
        } else {
            Json::Signed(c)
        },
        None => Json::Null,
    };
    let duration = match member_u64(raw, "durationMs") {
        Some(d) => Json::Unsigned(d),
        None => Json::Null,
    };
    let bytes: u64 = event.content.as_str().len() as u64;
    let mut object: Vec<(String, Json)> = Vec::new();
    object.push((owned("id"), text_or_null(id)));
    object.push((owned("name"), Json::Text(name)));
    object.push((owned("command"), text_or_null(command)));
    object.push((owned("exitCode"), exit_code));
    object.push((owned("success"), Json::Bool(tool_success(event))));
    object.push((owned("durationMs"), duration));
    object.push((owned("outputBytes"), Json::Unsigned(bytes)));
    proof {
        lemma_object_view(object);
        assert(members(object@) =~= tool_call(event@)->Object_0);
    }
    Json::Object(object)
}

proof fn lemma_failed_tools(tools: Seq<EventView>)
    ensures
        failed_tools(tools) <= tools.len(),
    decreases tools.len(),
{
    if tools.len() > 0 {
        lemma_failed_tools(tools.drop_last());
    }
}

proof fn lemma_tool_sums_grow(events: Seq<EventView>, i: int)
    requires
        0 <= i <= events.len(),
    ensures
        tool_time(finished_tools(events.take(i))) <= tool_time(finished_tools(events)),
        tool_output_bytes(finished_tools(events.take(i))) <= tool_output_bytes(
            finished_tools(events),
        ),
        finished_tools(events.take(i)).len() <= i,
    decreases events.len(),
{
    if i < events.len() {
        lemma_tool_sums_grow(events.drop_last(), i);
        assert(events.drop_last().take(i) =~= events.take(i));
        let before = finished_tools(events.drop_last());
        assert(before.push(events.last()).drop_last() =~= before);
    } else {
        assert(events.take(i) =~= events);
        lemma_finished_len(events);
    }
}

proof fn lemma_finished_len(events: Seq<EventView>)
    ensures
        finished_tools(events).len() <= events.len(),
    decreases events.len(),
{
    if events.len() > 0 {
        lemma_finished_len(events.drop_last());
    }
}

/// Records the tool calls of a run.
pub fn append_tool_observability_metadata(
    events: &Vec<ExternalCliProgressEvent>,
    metadata: &mut TextMap<String>,
)
    requires
        tool_time(finished_tools(event_views(events@))) <= u64::MAX,
        tool_output_bytes(finished_tools(event_views(events@))) <= u64::MAX,
    ensures
        map_texts(final(metadata)@) == with_tool_records(
            map_texts(old(metadata)@),
            event_views(events@),
        ),
{
    let ghost all = event_views(events@);
    let mut calls: Vec<Json> = Vec::new();
    let mut failed: u64 = 0;
    let mut time: u64 = 0;
    let mut bytes: u64 = 0;
    let mut i: usize = 0;
    proof {
        assert(all.take(0) =~= Seq::empty());
        assert(trees(calls@) =~= tool_calls(finished_tools(all.take(0))));
    }
    while i < events.len()
        invariant
            i <= events@.len(),
            all == event_views(events@),
            tool_time(finished_tools(all)) <= u64::MAX,
            tool_output_bytes(finished_tools(all)) <= u64::MAX,
            trees(calls@) == tool_calls(finished_tools(all.take(i as int))),
            failed == failed_tools(finished_tools(all.take(i as int))),
            failed <= i,
            time == tool_time(finished_tools(all.take(i as int))),
            bytes == tool_output_bytes(finished_tools(all.take(i as int))),
        decreases events@.len() - i,
    {
        let event = &events[i];
        let ghost so_far = finished_tools(all.take(i as int));
        let ghost before = calls@;
        proof {
            assert(all.take(i + 1).drop_last() =~= all.take(i as int));
            assert(all.take(i + 1).last() == event@);
            lemma_tool_sums_grow(all, i + 1);
        }
        if event.event_type == ExternalCliProgressEventType::ToolFinished {
            proof {
                let next = finished_tools(all.take(i + 1));
                assert(next == so_far.push(event@));
                assert(next.drop_last() =~= so_far);
                assert(next.last() == event@);
                lemma_failed_tools(next);
            }
            let call = tool_call_record(event);
            calls.push(call);
            if !tool_success(event) {
                failed = failed + 1;
            }
            let duration: u64 = match member_u64(&event.raw, "durationMs") {
                Some(d) => d,
                None => 0,
            };
            time = time + duration;
            bytes = bytes + event.content.as_str().len() as u64;
            proof {
                assert(trees(calls@) =~= trees(before).push(call@));
                assert(tool_calls(so_far.push(event@)) =~= tool_calls(so_far).push(
                    tool_call(event@),
                ));
            }
        }
        i = i + 1;
    }
    proof {
        assert(all.take(i as int) =~= all);
        assert(trees(calls@).len() == calls@.len());
        lemma_list_view(calls);
    }
    insert_metadata_u64(metadata, "tools.count", calls.len() as u64);
    insert_metadata_u64(metadata, "tools.failedCount", failed);
    insert_metadata_u64(metadata, "tools.totalDurationMs", time);
    insert_metadata_u64(metadata, "tools.outputBytes", bytes);
    let list = Json::List(calls);
    insert_metadata_json(metadata, "tools.calls", &list);
}

// ---------------------------------------------------------------------------
// Plans
// ---------------------------------------------------------------------------

pub open spec fn plan_updates(events: Seq<EventView>) -> nat
    decreases events.len(),
{
    if events.len() == 0 {
        0
    } else {
        plan_updates(events.drop_last()) + (if events.last().event_type
            == ExternalCliProgressEventType::PlanUpdated {
            1nat
        } else {
            0
        })
    }
}

/// The plan of the last event that updates one.
pub open spec fn latest_plan(events: Seq<EventView>) -> Option<Seq<Tree>>
    decreases events.len(),
{
    if events.len() == 0 {
        None
    } else if events.last().event_type == ExternalCliProgressEventType::PlanUpdated {
        let raw = events.last().raw;
        tree_list(first_of(member(raw, "plan"@), member(raw, "todos"@)))
    } else {
        latest_plan(events.drop_last())
    }
}

pub open spec fn steps_with_status(plan: Seq<Tree>, status: Seq<char>) -> nat
    decreases plan.len(),
{
    if plan.len() == 0 {
        0
    } else {
        steps_with_status(plan.drop_last(), status) + (if plain_at(plan.last(), "status"@) == Some(
            status,
        ) {
            1nat
        } else {
            0
        })
    }
}

pub open spec fn minus_nat(a: nat, b: nat) -> nat {
    if a >= b {
        (a - b) as nat
    } else {
        0
    }
}

/// How many steps of a hundred are done.
pub open spec fn percent(done: nat, total: nat) -> nat {
    if total == 0 {
        0
    } else {
        (if done * 100 > u64::MAX {
            u64::MAX as nat
        } else {
            done * 100
        }) / total
    }
}

pub open spec fn with_plan_records(m: Records, events: Seq<EventView>) -> Records {
    let m0 = with_number(m, "plan.updates"@, plan_updates(events));
    match latest_plan(events) {
        None => m0,
        Some(plan) => {
            let done = steps_with_status(plan, "completed"@);
            let under_way = steps_with_status(plan, "in_progress"@);
            let m1 = with_number(m0, "plan.total"@, plan.len());
            let m2 = with_number(m1, "plan.completed"@, done);
            let m3 = with_number(m2, "plan.inProgress"@, under_way);
            let m4 = with_number(
                m3,
                "plan.pending"@,
                minus_nat(minus_nat(plan.len(), done), under_way),
            );
            with_number(m4, "plan.completionPercent"@, percent(done, plan.len()))
        },
    }
}

proof fn lemma_steps_with_status(plan: Seq<Tree>, status: Seq<char>)
    ensures
        steps_with_status(plan, status) <= plan.len(),
    decreases plan.len(),
{
    if plan.len() > 0 {
        lemma_steps_with_status(plan.drop_last(), status);
    }
}

proof fn lemma_two_statuses(plan: Seq<Tree>, a: Seq<char>, b: Seq<char>)
    requires
        a != b,
    ensures
        steps_with_status(plan, a) + steps_with_status(plan, b) <= plan.len(),
    decreases plan.len(),
{
    if plan.len() > 0 {
        lemma_two_statuses(plan.drop_last(), a, b);
    }
}

/// The steps of a plan are done, under way or pending: the three counts add up
/// to the number of steps, and the share that is done is at most a hundred
/// percent.
pub proof fn lemma_plan_adds_up(plan: Seq<Tree>)
    ensures
        ({
            let done = steps_with_status(plan, "completed"@);
            let under_way = steps_with_status(plan, "in_progress"@);
            let pending = minus_nat(minus_nat(plan.len(), done), under_way);
            &&& done + under_way + pending == plan.len()
            &&& percent(done, plan.len()) <= 100
        }),
{
    reveal_strlit("completed");
    reveal_strlit("in_progress");
    assert("completed"@.len() == 9);
    assert("in_progress"@.len() == 11);
    lemma_two_statuses(plan, "completed"@, "in_progress"@);
    let done = steps_with_status(plan, "completed"@);
    let total = plan.len();
    if total > 0 {
        let scaled = if done * 100 > u64::MAX {
            u64::MAX as nat
        } else {
            done * 100
        };
        assert(scaled <= 100 * total);
        assert(scaled / total <= 100) by (nonlinear_arith)
            requires
                scaled <= 100 * total,
                total > 0,
        ;
    }
}

fn plan_status_count(plan: &Vec<Json>, status: &str) -> (r: u64)
    ensures
        r == steps_with_status(trees(plan@), status@),
{
    let ghost all = trees(plan@);
    let mut count: u64 = 0;
    let mut i: usize = 0;
    proof {
        assert(all.take(0) =~= Seq::empty());
    }
    while i < plan.len()
        invariant
            i <= plan@.len(),
            all == trees(plan@),
            count == steps_with_status(all.take(i as int), status@),
            count <= i,
        decreases plan@.len() - i,
    {
        proof {
            assert(all.take(i + 1).drop_last() =~= all.take(i as int));
            assert(all.take(i + 1).last() == plan@[i as int]@);
        }
        match str_at(&plan[i], "status") {
            Some(s) => {
                if same(s, status) {
                    count = count + 1;
                }
            },
            None => {},
        }
        i = i + 1;
    }
    proof {
        assert(all.take(i as int) =~= all);
    }
    count
}

fn completion_percent(done: u64, total: u64) -> (r: u64)
    ensures
        r == percent(done as nat, total as nat),
{
    if total == 0 {
        0
    } else if done > u64::MAX / 100 {
        u64::MAX / total
    } else {
        (done * 100) / total
    }
}

/// Records the plan of a run.
pub fn append_plan_observability_metadata(
    events: &Vec<ExternalCliProgressEvent>,
    metadata: &mut TextMap<String>,
)
    ensures
        map_texts(final(metadata)@) == with_plan_records(
            map_texts(old(metadata)@),
            event_views(events@),
        ),
{
    let ghost all = event_views(events@);
    let mut updates: u64 = 0;
    let mut plan: Option<&Vec<Json>> = None;
    let mut i: usize = 0;
    proof {
        assert(all.take(0) =~= Seq::empty());
    }
    while i < events.len()
        invariant
            i <= events@.len(),
            all == event_views(events@),
            updates == plan_updates(all.take(i as int)),
            updates <= i,
            match plan {
                Some(p) => latest_plan(all.take(i as int)) == Some(trees(p@)),
                None => latest_plan(all.take(i as int)) is None,
            },
        decreases events@.len() - i,
    {
        let event = &events[i];
        proof {
            assert(all.take(i + 1).drop_last() =~= all.take(i as int));
            assert(all.take(i + 1).last() == event@);
        }
        if event.event_type == ExternalCliProgressEventType::PlanUpdated {
            updates = updates + 1;
            let found = match event.raw.get("plan") {
                Some(v) => Some(v),
                None => event.raw.get("todos"),
            };
            plan = match found {
                Some(v) => v.as_list(),
                None => None,
            };
        }
        i = i + 1;
    }
    proof {
        assert(all.take(i as int) =~= all);
    }
    insert_metadata_u64(metadata, "plan.updates", updates);
    match plan {
        None => {},
        Some(steps) => {
            let total: u64 = steps.len() as u64;
            let done: u64 = plan_status_count(steps, "completed");
            let under_way: u64 = plan_status_count(steps, "in_progress");
            proof {
                assert(trees(steps@).len() == steps@.len());
                lemma_steps_with_status(trees(steps@), "completed"@);
            }
            let pending: u64 = total.saturating_sub(done).saturating_sub(under_way);
            insert_metadata_u64(metadata, "plan.total", total);
            insert_metadata_u64(metadata, "plan.completed", done);
            insert_metadata_u64(metadata, "plan.inProgress", under_way);
            insert_metadata_u64(metadata, "plan.pending", pending);
            insert_metadata_u64(
                metadata,
                "plan.completionPercent",
                completion_percent(done, total),
            );
        },
    }
}

// ---------------------------------------------------------------------------
// Messages
// ---------------------------------------------------------------------------

pub open spec fn is_answer(e: EventView) -> bool {
    e.event_type == ExternalCliProgressEventType::AssistantDelta || e.event_type
        == ExternalCliProgressEventType::AssistantFinal
}

pub open spec fn is_reasoning(e: EventView) -> bool {
    (e.title matches Some(t) && has_text(lowered(t), "reasoning"@)) || (plain_at(
        e.raw,
        "type"@,
    ) matches Some(t) && has_text(t, "reasoning"@))
}

pub open spec fn answer_chars(events: Seq<EventView>) -> nat
    decreases events.len(),
{
    if events.len() == 0 {
        0
    } else {
        answer_chars(events.drop_last()) + (if is_answer(events.last()) {
            events.last().content.len()
        } else {
            0
        })
    }
}

pub open spec fn reasoning_chars(events: Seq<EventView>) -> nat
    decreases events.len(),
{
    if events.len() == 0 {
        0
    } else {
        reasoning_chars(events.drop_last()) + (if is_reasoning(events.last()) {
            events.last().content.len()
        } else {
            0
        })
    }
}

pub open spec fn with_message_records(m: Records, events: Seq<EventView>) -> Records {
    with_number(
        with_number(m, "messages.assistantChars"@, answer_chars(events)),
        "messages.reasoningChars"@,
        reasoning_chars(events),
    )
}

proof fn lemma_message_sums_grow(events: Seq<EventView>, i: int)
    requires
        0 <= i <= events.len(),
    ensures
        answer_chars(events.take(i)) <= answer_chars(events),
        reasoning_chars(events.take(i)) <= reasoning_chars(events),
    decreases events.len(),
{
    if i < events.len() {
        lemma_message_sums_grow(events.drop_last(), i);
        assert(events.drop_last().take(i) =~= events.take(i));
    } else {
        assert(events.take(i) =~= events);
    }
}

fn event_is_reasoning(event: &ExternalCliProgressEvent) -> (r: bool)
    ensures
        r == is_reasoning(event@),
{
    let titled = match &event.title {
        Some(t) => {
            let lower = to_lower(t.as_str());
            contains(lower.as_str(), "reasoning")
        },
        None => false,
    };
    if titled {
        return true;
    }
    match str_at(&event.raw, "type") {
        Some(t) => contains(t, "reasoning"),
        None => false,
    }
}

/// Records how much an agent wrote.
pub fn append_message_observability_metadata(
    events: &Vec<ExternalCliProgressEvent>,
    metadata: &mut TextMap<String>,
)
    requires
        answer_chars(event_views(events@)) <= u64::MAX,
        reasoning_chars(event_views(events@)) <= u64::MAX,
    ensures
        map_texts(final(metadata)@) == with_message_records(
            map_texts(old(metadata)@),
            event_views(events@),
        ),
{
    let ghost all = event_views(events@);
    let mut answers: u64 = 0;
    let mut reasoning: u64 = 0;
    let mut i: usize = 0;
    proof {
        assert(all.take(0) =~= Seq::empty());
    }
    while i < events.len()
        invariant
            i <= events@.len(),
            all == event_views(events@),
            answer_chars(all) <= u64::MAX,
            reasoning_chars(all) <= u64::MAX,
            answers == answer_chars(all.take(i as int)),
            reasoning == reasoning_chars(all.take(i as int)),
        decreases events@.len() - i,
    {
        let event = &events[i];
        proof {
            assert(all.take(i + 1).drop_last() =~= all.take(i as int));
            assert(all.take(i + 1).last() == event@);
            lemma_message_sums_grow(all, i + 1);
        }
        let count: u64 = event.content.as_str().unicode_len() as u64;
        if event.event_type == ExternalCliProgressEventType::AssistantDelta || event.event_type
            == ExternalCliProgressEventType::AssistantFinal {
            answers = answers + count;
        }
        if event_is_reasoning(event) {
            reasoning = reasoning + count;
        }
        i = i + 1;
    }
    proof {
        assert(all.take(i as int) =~= all);
    }
    insert_metadata_u64(metadata, "messages.assistantChars", answers);
    insert_metadata_u64(metadata, "messages.reasoningChars", reasoning);
}

// ---------------------------------------------------------------------------
// The run as a whole
// ---------------------------------------------------------------------------

/// When the stages of a run began and ended.
#[derive(Debug, Clone, Copy, PartialEq, Eq)]
pub struct ExternalCliObservabilityTimings {
    pub started_at: u64,
    pub command_started_at: Option<u64>,
    pub command_finished_at: Option<u64>,
    pub finished_at: u64,
}

/// All that is known of a finished run.
#[derive(Debug, PartialEq, Eq)]
pub struct ExternalCliObservabilityInput<'a> {
    pub request: &'a ExternalCliRunRequest,
    pub spec: &'a CommandSpec,
    pub prompt: &'a str,
    pub saved_images: &'a Vec<ExternalCliSavedImageAttachment>,
    pub stdout: &'a Vec<u8>,
    pub stderr: &'a Vec<u8>,
    pub events: &'a Vec<ExternalCliProgressEvent>,
    pub timings: ExternalCliObservabilityTimings,
    pub cli_version: Option<&'a str>,
}

pub open spec fn image_bytes(images: Seq<ExternalCliSavedImageAttachment>) -> nat
    decreases images.len(),
{
    if images.len() == 0 {
        0
    } else {
        image_bytes(images.drop_last()) + images.last().size_bytes as nat
    }
}

pub open spec fn image_summary(image: ExternalCliSavedImageAttachment) -> Tree {
    Tree::Object(
        seq![
            ("mimeType"@, Tree::Text(image.mime_type@)),
            ("name"@, null_or_text(opt(image.name))),
            ("sizeBytes"@, Tree::Unsigned(image.size_bytes)),
            ("path"@, Tree::Text(image.path@)),
        ],
    )
}

pub open spec fn image_summaries(images: Seq<ExternalCliSavedImageAttachment>) -> Tree {
    Tree::List(images.map_values(|i: ExternalCliSavedImageAttachment| image_summary(i)))
}

/// The number of line feeds.
pub open spec fn line_feeds(bytes: Seq<u8>) -> nat
    decreases bytes.len(),
{
    if bytes.len() == 0 {
        0
    } else {
        line_feeds(bytes.drop_last()) + (if bytes.last() == 10 {
            1nat
        } else {
            0
        })
    }
}

/// A quarter of the characters, rounded up.
pub open spec fn estimated_tokens(chars: nat) -> nat {
    (chars + 3) / 4
}

/// The earliest time at which an event was seen.
pub open spec fn first_seen(events: Seq<EventView>) -> Option<u64>
    decreases events.len(),
{
    if events.len() == 0 {
        None
    } else {
        let before = first_seen(events.drop_last());
        match (tree_u64(member(events.last().raw, "observedAtMs"@)), before) {
            (Some(a), Some(b)) => Some(
                if a < b {
                    a
                } else {
                    b
                },
            ),
            (Some(a), None) => Some(a),
            (None, b) => b,
        }
    }
}

pub open spec fn with_command_records(
    m: Records,
    spec: CommandView,
    version: Option<Seq<char>>,
) -> Records {
    let m1 = with_text(m, "cli.executable"@, spec.executable);
    let m2 = with_json(m1, "cli.args"@, text_list(spec.args));
    let m3 = with_opt_text(m2, "cli.workDir"@, spec.work_dir);
    let m4 = with_opt_number(m3, "cli.timeoutSecs"@, spec.timeout_secs);
    with_opt_text(m4, "cli.version"@, version)
}

pub open spec fn with_runner_records(m: Records, request: ExternalCliRunRequest) -> Records {
    let c = request.adapter_config@;
    let m1 = with_text(m, "runner.adapter"@, request.adapter@);
    let m2 = with_opt_text(m1, "runner.id"@, opt(request.runner_id));
    let m3 = with_flag(m2, "runner.injectBifrostTools"@, request.inject_bifrost_tools);
    let m4 = with_json(m3, "config.addDirs"@, text_list(c.add_dirs));
    let m5 = with_json(m4, "config.enableFeatures"@, text_list(c.enable_features));
    let m6 = with_json(m5, "config.disableFeatures"@, text_list(c.disable_features));
    let m7 = with_opt_text(m6, "config.approvalPolicy"@, c.approval_policy);
    let m8 = with_opt_text(m7, "config.sandbox"@, c.sandbox);
    let m9 = with_opt_text(m8, "config.permissionMode"@, c.permission_mode);
    let m10 = with_opt_flag(m9, "config.dangerFullAccess"@, c.danger_full_access);
    let m11 = with_opt_flag(m10, "config.search"@, c.search);
    with_opt_flag(m11, "config.ephemeral"@, c.ephemeral)
}

pub open spec fn with_prompt_records(
    m: Records,
    prompt: Seq<char>,
    images: Seq<ExternalCliSavedImageAttachment>,
) -> Records {
    let m1 = with_number(m, "prompt.bytes"@, byte_len(prompt) as nat);
    let m2 = with_number(m1, "prompt.chars"@, prompt.len());
    let m3 = with_number(m2, "prompt.estimatedTokens"@, estimated_tokens(prompt.len()));
    let m4 = with_number(m3, "prompt.attachmentPathCount"@, images.len());
    let m5 = with_number(m4, "attachments.count"@, images.len());
    let m6 = with_number(m5, "attachments.totalBytes"@, image_bytes(images));
    with_json(m6, "attachments.summary"@, image_summaries(images))
}

pub open spec fn with_io_records(m: Records, stdout: Seq<u8>, stderr: Seq<u8>) -> Records {
    let m1 = with_number(m, "io.stdoutBytes"@, stdout.len());
    let m2 = with_number(m1, "io.stderrBytes"@, stderr.len());
    let m3 = with_number(m2, "io.stdoutLines"@, line_feeds(stdout));
    let m4 = with_number(m3, "io.stderrLines"@, line_feeds(stderr));
    let m5 = with_flag(m4, "io.stdoutTruncated"@, false);
    with_flag(m5, "io.stderrTruncated"@, false)
}

pub open spec fn with_timing_records(
    m: Records,
    t: ExternalCliObservabilityTimings,
    events: Seq<EventView>,
) -> Records {
    let m1 = match t.command_started_at {
        Some(a) => with_number(m, "timing.commandStartLatencyMs"@, minus(a, t.started_at) as nat),
        None => m,
    };
    let m2 = match (t.command_started_at, t.command_finished_at) {
        (Some(a), Some(b)) => with_number(m1, "timing.commandDurationMs"@, minus(b, a) as nat),
        _ => m1,
    };
    let m3 = match first_seen(events) {
        Some(a) => with_number(m2, "timing.firstEventLatencyMs"@, minus(a, t.started_at) as nat),
        None => m2,
    };
    with_number(m3, "timing.totalDurationMs"@, minus(t.finished_at, t.started_at) as nat)
}

pub open spec fn with_resume_records(m: Records, params: Tree) -> Records {
    match plain_at(params, "threadId"@) {
        Some(t) => with_text(
            with_flag(m, "resume.requested"@, true),
            "resume.requestedThreadId"@,
            t,
        ),
        None => with_flag(m, "resume.requested"@, false),
    }
}

/// Everything that is recorded of a finished run.
pub open spec fn with_observations(m: Records, input: ExternalCliObservabilityInput) -> Records {
    let events = event_views(input.events@);
    let m1 = with_command_records(m, input.spec@, opt_str(input.cli_version));
    let m2 = with_runner_records(m1, *input.request);
    let m3 = with_prompt_records(m2, input.prompt@, input.saved_images@);
    let m4 = with_io_records(m3, input.stdout@, input.stderr@);
    let m5 = with_timing_records(m4, input.timings, events);
    let m6 = with_resume_records(m5, input.request.params@);
    with_message_records(
        with_plan_records(with_tool_records(m6, events), events),
        events,
    )
}

/// Whether the sums that are recorded of a run fit in 64 bits.
pub open spec fn sums_fit(
    images: Seq<ExternalCliSavedImageAttachment>,
    events: Seq<EventView>,
) -> bool {
    &&& image_bytes(images) <= u64::MAX
    &&& tool_time(finished_tools(events)) <= u64::MAX
    &&& tool_output_bytes(finished_tools(events)) <= u64::MAX
    &&& answer_chars(events) <= u64::MAX
    &&& reasoning_chars(events) <= u64::MAX
}

proof fn lemma_image_bytes_grow(images: Seq<ExternalCliSavedImageAttachment>, i: int)
    requires
        0 <= i <= images.len(),
    ensures
        image_bytes(images.take(i)) <= image_bytes(images),
    decreases images.len(),
{
    if i < images.len() {
        lemma_image_bytes_grow(images.drop_last(), i);
        assert(images.drop_last().take(i) =~= images.take(i));
    } else {
        assert(images.take(i) =~= images);
    }
}

fn total_image_bytes(images: &Vec<ExternalCliSavedImageAttachment>) -> (r: u64)
    requires
        image_bytes(images@) <= u64::MAX,
    ensures
        r == image_bytes(images@),
{
    let mut total: u64 = 0;
    let mut i: usize = 0;
    proof {
        assert(images@.take(0) =~= Seq::empty());
    }
    while i < images.len()
        invariant
            i <= images@.len(),
            image_bytes(images@) <= u64::MAX,
            total == image_bytes(images@.take(i as int)),
        decreases images@.len() - i,
    {
        proof {
            assert(images@.take(i + 1).drop_last() =~= images@.take(i as int));
            assert(images@.take(i + 1).last() == images@[i as int]);
            lemma_image_bytes_grow(images@, i + 1);
        }
        total = total + images[i].size_bytes;
        i = i + 1;
    }
    proof {
        assert(images@.take(i as int) =~= images@);
    }
    total
}

fn image_summary_list(images: &Vec<ExternalCliSavedImageAttachment>) -> (r: Json)
    ensures
        r@ == image_summaries(images@),
{
    let mut list: Vec<Json> = Vec::new();
    let mut i: usize = 0;
    while i < images.len()
        invariant
            i <= images@.len(),
            list@.len() == i,
            forall|k: int| 0 <= k < i ==> (#[trigger] list@[k])@ == image_summary(images@[k]),
        decreases images@.len() - i,
    {
        let image = &images[i];
        let name = match &image.name {
            Some(n) => Json::Text(n.clone()),
            None => Json::Null,
        };
        let mut object: Vec<(String, Json)> = Vec::new();
        object.push((owned("mimeType"), Json::Text(image.mime_type.clone())));
        object.push((owned("name"), name));
        object.push((owned("sizeBytes"), Json::Unsigned(image.size_bytes)));
        object.push((owned("path"), Json::Text(image.path.clone())));
        proof {
            lemma_object_view(object);
            assert(members(object@) =~= image_summary(images@[i as int])->Object_0);
        }
        list.push(Json::Object(object));
        i = i + 1;
    }
    proof {
        lemma_list_view(list);
        assert(trees(list@) =~= image_summaries(images@)->List_0);
    }
    Json::List(list)
}

/// Counts the lines of some output.
pub fn line_count(bytes: &Vec<u8>) -> (r: u64)
    ensures
        r == line_feeds(bytes@),
{
    let mut count: u64 = 0;
    let mut i: usize = 0;
    proof {
        assert(bytes@.take(0) =~= Seq::empty());
    }
    while i < bytes.len()
        invariant
            i <= bytes@.len(),
            count == line_feeds(bytes@.take(i as int)),
            count <= i,
        decreases bytes@.len() - i,
    {
        proof {
            assert(bytes@.take(i + 1).drop_last() =~= bytes@.take(i as int));
            assert(bytes@.take(i + 1).last() == bytes@[i as int]);
        }
        if bytes[i] == 10 {
            count = count + 1;
        }
        i = i + 1;
    }
    proof {
        assert(bytes@.take(i as int) =~= bytes@);
    }
    count
}

/// Estimates the tokens of a text by its length.
pub fn estimate_tokens_from_chars(chars: usize) -> (r: u64)
    ensures
        r == estimated_tokens(chars as nat),
{
    let whole: usize = chars / 4;
    let more: usize = if chars % 4 == 0 {
        0
    } else {
        1
    };
    (whole + more) as u64
}

fn first_observed_at(events: &Vec<ExternalCliProgressEvent>) -> (r: Option<u64>)
    ensures
        r == first_seen(event_views(events@)),
{
    let ghost all = event_views(events@);
    let mut least: Option<u64> = None;
    let mut i: usize = 0;
    proof {
        assert(all.take(0) =~= Seq::empty());
    }
    while i < events.len()
        invariant
            i <= events@.len(),
            all == event_views(events@),
            least == first_seen(all.take(i as int)),
        decreases events@.len() - i,
    {
        proof {
            assert(all.take(i + 1).drop_last() =~= all.take(i as int));
            assert(all.take(i + 1).last() == events@[i as int]@);
        }
        match member_u64(&events[i].raw, "observedAtMs") {
            Some(a) => {
                least = match least {
                    Some(b) => if a < b {
                        Some(a)
                    } else {
                        Some(b)
                    },
                    None => Some(a),
                };
            },
            None => {},
        }
        i = i + 1;
    }
    proof {
        assert(all.take(i as int) =~= all);
    }
    least
}

fn append_command_records(
    spec: &CommandSpec,
    cli_version: Option<&str>,
    metadata: &mut TextMap<String>,
)
    ensures
        map_texts(final(metadata)@) == with_command_records(
            map_texts(old(metadata)@),
            spec@,
            opt_str(cli_version),
        ),
{
    insert_metadata(metadata, "cli.executable", spec.executable.as_str());
    insert_metadata_list(metadata, "cli.args", &spec.args);
    insert_metadata_opt(metadata, "cli.workDir", &spec.work_dir);
    insert_metadata_opt_u64(metadata, "cli.timeoutSecs", spec.timeout_secs);
    match cli_version {
        Some(version) => insert_metadata(metadata, "cli.version", version),
        None => {},
    }
}

fn append_runner_records(request: &ExternalCliRunRequest, metadata: &mut TextMap<String>)
    ensures
        map_texts(final(metadata)@) == with_runner_records(map_texts(old(metadata)@), *request),
{
    let config = &request.adapter_config;
    insert_metadata(metadata, "runner.adapter", request.adapter.as_str());
    insert_metadata_opt(metadata, "runner.id", &request.runner_id);
    insert_metadata_bool(metadata, "runner.injectBifrostTools", request.inject_bifrost_tools);
    insert_metadata_list(metadata, "config.addDirs", &config.add_dirs);
    insert_metadata_list(metadata, "config.enableFeatures", &config.enable_features);
    insert_metadata_list(metadata, "config.disableFeatures", &config.disable_features);
    insert_metadata_opt(metadata, "config.approvalPolicy", &config.approval_policy);
    insert_metadata_opt(metadata, "config.sandbox", &config.sandbox);
    insert_metadata_opt(metadata, "config.permissionMode", &config.permission_mode);
    insert_metadata_opt_bool(metadata, "config.dangerFullAccess", config.danger_full_access);
    insert_metadata_opt_bool(metadata, "config.search", config.search);
    insert_metadata_opt_bool(metadata, "config.ephemeral", config.ephemeral);
}

fn append_prompt_records(
    prompt: &str,
    images: &Vec<ExternalCliSavedImageAttachment>,
    metadata: &mut TextMap<String>,
)
    requires
        image_bytes(images@) <= u64::MAX,
    ensures
        map_texts(final(metadata)@) == with_prompt_records(
            map_texts(old(metadata)@),
            prompt@,
            images@,
        ),
{
    let chars: usize = prompt.unicode_len();
    insert_metadata_u64(metadata, "prompt.bytes", prompt.len() as u64);
    insert_metadata_u64(metadata, "prompt.chars", chars as u64);
    insert_metadata_u64(metadata, "prompt.estimatedTokens", estimate_tokens_from_chars(chars));
    insert_metadata_u64(metadata, "prompt.attachmentPathCount", images.len() as u64);
    insert_metadata_u64(metadata, "attachments.count", images.len() as u64);
    insert_metadata_u64(metadata, "attachments.totalBytes", total_image_bytes(images));
    let summary = image_summary_list(images);
    insert_metadata_json(metadata, "attachments.summary", &summary);
}

fn append_io_records(stdout: &Vec<u8>, stderr: &Vec<u8>, metadata: &mut TextMap<String>)
    ensures
        map_texts(final(metadata)@) == with_io_records(
            map_texts(old(metadata)@),
            stdout@,
            stderr@,
        ),
{
    insert_metadata_u64(metadata, "io.stdoutBytes", stdout.len() as u64);
    insert_metadata_u64(metadata, "io.stderrBytes", stderr.len() as u64);
    insert_metadata_u64(metadata, "io.stdoutLines", line_count(stdout));
    insert_metadata_u64(metadata, "io.stderrLines", line_count(stderr));
    insert_metadata_bool(metadata, "io.stdoutTruncated", false);
    insert_metadata_bool(metadata, "io.stderrTruncated", false);
}

fn append_timing_records(
    timings: &ExternalCliObservabilityTimings,
    events: &Vec<ExternalCliProgressEvent>,
    metadata: &mut TextMap<String>,
)
    ensures
        map_texts(final(metadata)@) == with_timing_records(
            map_texts(old(metadata)@),
            *timings,
            event_views(events@),
        ),
{
    match timings.command_started_at {
        Some(a) => {
            insert_metadata_u64(
                metadata,
                "timing.commandStartLatencyMs",
                a.saturating_sub(timings.started_at),
            );
            match timings.command_finished_at {
                Some(b) => insert_metadata_u64(
                    metadata,
                    "timing.commandDurationMs",
                    b.saturating_sub(a),
                ),
                None => {},
            }
        },
        None => {},
    }
    match first_observed_at(events) {
        Some(a) => insert_metadata_u64(
            metadata,
            "timing.firstEventLatencyMs",
            a.saturating_sub(timings.started_at),
        ),
        None => {},
    }
    insert_metadata_u64(
        metadata,
        "timing.totalDurationMs",
        timings.finished_at.saturating_sub(timings.started_at),
    );
}

fn append_resume_records(params: &Json, metadata: &mut TextMap<String>)
    ensures
        map_texts(final(metadata)@) == with_resume_records(map_texts(old(metadata)@), params@),
{
    match str_at(params, "threadId") {
        Some(t) => {
            insert_metadata_bool(metadata, "resume.requested", true);
            insert_metadata(metadata, "resume.requestedThreadId", t);
        },
        None => insert_metadata_bool(metadata, "resume.requested", false),
    }
}

/// Records everything that is known of a finished run.
pub fn append_external_cli_observability_metadata(
    input: ExternalCliObservabilityInput<'_>,
    metadata: &mut TextMap<String>,
)
    requires
        sums_fit(input.saved_images@, event_views(input.events@)),
    ensures
        map_texts(final(metadata)@) == with_observations(map_texts(old(metadata)@), input),
{
    append_command_records(input.spec, input.cli_version, metadata);
    append_runner_records(input.request, metadata);
    append_prompt_records(input.prompt, input.saved_images, metadata);
    append_io_records(input.stdout, input.stderr, metadata);
    append_timing_records(&input.timings, input.events, metadata);
    append_resume_records(&input.request.params, metadata);
    append_tool_observability_metadata(input.events, metadata);
    append_plan_observability_metadata(input.events, metadata);
    append_message_observability_metadata(input.events, metadata);
}

/// Tells whether the sums that are recorded of a run fit in 64 bits.
pub fn observability_sums_fit(
    images: &Vec<ExternalCliSavedImageAttachment>,
    events: &Vec<ExternalCliProgressEvent>,
) -> (r: bool)
    ensures
        r == sums_fit(images@, event_views(events@)),
{
    let mut total: u64 = 0;
    let mut i: usize = 0;
    proof {
        assert(images@.take(0) =~= Seq::empty());
    }
    while i < images.len()
        invariant
            i <= images@.len(),
            total == image_bytes(images@.take(i as int)),
        decreases images@.len() - i,
    {
        proof {
            assert(images@.take(i + 1).drop_last() =~= images@.take(i as int));
            assert(images@.take(i + 1).last() == images@[i as int]);
            lemma_image_bytes_grow(images@, i + 1);
        }
        match total.checked_add(images[i].size_bytes) {
            Some(sum) => {
                total = sum;
            },
            None => {
                return false;
            },
        }
        i = i + 1;
    }
    proof {
        assert(images@.take(i as int) =~= images@);
    }
    event_sums_fit(events)
}

fn event_sums_fit(events: &Vec<ExternalCliProgressEvent>) -> (r: bool)
    ensures
        r == (tool_time(finished_tools(event_views(events@))) <= u64::MAX && tool_output_bytes(
            finished_tools(event_views(events@)),
        ) <= u64::MAX && answer_chars(event_views(events@)) <= u64::MAX && reasoning_chars(
            event_views(events@),
        ) <= u64::MAX),
{
    let ghost all = event_views(events@);
    let mut time: u64 = 0;
    let mut bytes: u64 = 0;
    let mut answers: u64 = 0;
    let mut reasoning: u64 = 0;
    let mut i: usize = 0;
    proof {
        assert(all.take(0) =~= Seq::empty());
    }
    while i < events.len()
        invariant
            i <= events@.len(),
            all == event_views(events@),
            time == tool_time(finished_tools(all.take(i as int))),
            bytes == tool_output_bytes(finished_tools(all.take(i as int))),
            answers == answer_chars(all.take(i as int)),
            reasoning == reasoning_chars(all.take(i as int)),
        decreases events@.len() - i,
    {
        let event = &events[i];
        let ghost so_far = finished_tools(all.take(i as int));
        proof {
            assert(all.take(i + 1).drop_last() =~= all.take(i as int));
            assert(all.take(i + 1).last() == event@);
            lemma_tool_sums_grow(all, i + 1);
            lemma_message_sums_grow(all, i + 1);
            assert(so_far.push(event@).drop_last() =~= so_far);
        }
        let count: u64 = event.content.as_str().unicode_len() as u64;
        let is_finished = event.event_type == ExternalCliProgressEventType::ToolFinished;
        let is_said = event.event_type == ExternalCliProgressEventType::AssistantDelta
            || event.event_type == ExternalCliProgressEventType::AssistantFinal;
        let duration: u64 = match member_u64(&event.raw, "durationMs") {
            Some(d) => if is_finished {
                d
            } else {
                0
            },
            None => 0,
        };
        let length: u64 = if is_finished {
            event.content.as_str().len() as u64
        } else {
            0
        };
        let said: u64 = if is_said {
            count
        } else {
            0
        };
        let thought: u64 = if event_is_reasoning(event) {
            count
        } else {
            0
        };
        match (
            time.checked_add(duration),
            bytes.checked_add(length),
            answers.checked_add(said),
            reasoning.checked_add(thought),
        ) {
            (Some(t), Some(b), Some(a), Some(g)) => {
                time = t;
                bytes = b;
                answers = a;
                reasoning = g;
            },
            _ => {
                return false;
            },
        }
        i = i + 1;
    }
    proof {
        assert(all.take(i as int) =~= all);
    }
    true
}

} // verus!
