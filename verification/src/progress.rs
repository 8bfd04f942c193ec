//! Progress events: reading what an agent prints and handing it on.

use vstd::prelude::*;
use vstd::string::*;

use crate::agent_config::{
    claude_product, claude_product_text, clean_opt, clean_optional_string, cleaned};
use crate::json::{
    first_of, json_of_text, json_to_text, member, member_of, opt_tree, parse_json, put_default,
    scalar_text, text_of_json, tree_bool, tree_i64, tree_list, tree_text, tree_u64, trees,
    with_default, Json, Tree,
};
use crate::map::TextMap;
use crate::text::{
    blank, concat2, concat3, contains, copy_opt, decimal, decimal_text, has_text, join, joined,
    opt, owned, push_text, same, split_lines, text_lines, texts, trim, trimmed,
};

verus! {

broadcast use vstd::string::group_string_axioms;

/// What kind of step a progress event reports.
#[derive(Debug, Clone, Copy, PartialEq, Eq, Structural)]
pub enum ExternalCliProgressEventType {
    RunStarted,
    Status,
    PlanUpdated,
    AssistantDelta,
    AssistantFinal,
    ToolStarted,
    ToolFinished,
    RunFinished,
    RunFailed,
}

/// One step of a run, with the JSON value it was read from.
#[derive(Debug, PartialEq, Eq)]
pub struct ExternalCliProgressEvent {
    pub event_type: ExternalCliProgressEventType,
    pub content: String,
    pub title: Option<String>,
    pub raw: Json,
}

/// The mathematical view of a progress event.
#[verifier::ext_equal]
pub struct EventView {
    pub event_type: ExternalCliProgressEventType,
    pub content: Seq<char>,
    pub title: Option<Seq<char>>,
    pub raw: Tree,
}

impl View for ExternalCliProgressEvent {
    type V = EventView;

    open spec fn view(&self) -> EventView {
        EventView {
            event_type: self.event_type,
            content: self.content@,
            title: opt(self.title),
            raw: self.raw@,
        }
    }
}

impl ExternalCliProgressEvent {
    /// A copy of the event.
    pub fn copy(&self) -> (r: Self)
        ensures
            r@ == self@,
    {
        ExternalCliProgressEvent {
            event_type: self.event_type,
            content: self.content.clone(),
            title: copy_opt(&self.title),
            raw: self.raw.copy(),
        }
    }
}

/// The views of a list of events.
pub open spec fn event_views(v: Seq<ExternalCliProgressEvent>) -> Seq<EventView> {
    v.map_values(|e: ExternalCliProgressEvent| e@)
}

/// The view of an event that may be missing.
pub open spec fn opt_event(e: Option<ExternalCliProgressEvent>) -> Option<EventView> {
    match e {
        Some(e) => Some(e@),
        None => None,
    }
}

/// How far a step of a plan is.
#[derive(Debug, Clone, Copy, PartialEq, Eq, Structural)]
pub enum PlanStepStatus {
    Pending,
    InProgress,
    Completed,
}

/// One step of a plan.
#[derive(Debug, PartialEq, Eq)]
pub struct PlanStep {
    pub step: String,
    pub status: PlanStepStatus,
}

/// The mathematical view of a plan step.
pub struct StepView {
    pub step: Seq<char>,
    pub status: PlanStepStatus,
}

impl View for PlanStep {
    type V = StepView;

    open spec fn view(&self) -> StepView {
        StepView { step: self.step@, status: self.status }
    }
}

pub open spec fn step_views(v: Seq<PlanStep>) -> Seq<StepView> {
    v.map_values(|s: PlanStep| s@)
}

// ---------------------------------------------------------------------------
// Looking things up in an event
// ---------------------------------------------------------------------------

/// The text, number or truth value of a member, as text.
pub open spec fn text_at(raw: Tree, key: Seq<char>) -> Option<Seq<char>> {
    scalar_text(member(raw, key))
}

/// The same for a member of a member.
pub open spec fn text_in(raw: Tree, outer: Seq<char>, inner: Seq<char>) -> Option<Seq<char>> {
    scalar_text(member_of(member(raw, outer), inner))
}

pub open spec fn or_empty(v: Option<Seq<char>>) -> Seq<char> {
    match v {
        Some(s) => s,
        None => Seq::empty(),
    }
}

pub open spec fn or_text(v: Option<Seq<char>>, other: Seq<char>) -> Seq<char> {
    match v {
        Some(s) => s,
        None => other,
    }
}

pub open spec fn or_false(v: Option<bool>) -> bool {
    v == Some(true)
}

fn value_text(raw: &Json, key: &str) -> (r: Option<String>)
    ensures
        opt(r) == text_at(raw@, key@),
{
    match raw.get(key) {
        Some(v) => v.as_scalar_text(),
        None => None,
    }
}

fn or_value_text(first: Option<String>, raw: &Json, key: &str) -> (r: Option<String>)
    ensures
        opt(r) == first_of(opt(first), text_at(raw@, key@)),
{
    match first {
        Some(s) => Some(s),
        None => value_text(raw, key),
    }
}

fn value_text_path(raw: &Json, outer: &str, inner: &str) -> (r: Option<String>)
    ensures
        opt(r) == text_in(raw@, outer@, inner@),
{
    match raw.get(outer) {
        Some(v) => value_text(v, inner),
        None => None,
    }
}

fn or_value_text_path(first: Option<String>, raw: &Json, outer: &str, inner: &str) -> (r: Option<
    String,
>)
    ensures
        opt(r) == first_of(opt(first), text_in(raw@, outer@, inner@)),
{
    match first {
        Some(s) => Some(s),
        None => value_text_path(raw, outer, inner),
    }
}

fn unwrap_text(v: Option<String>, other: &str) -> (r: String)
    ensures
        r@ == or_text(opt(v), other@),
{
    match v {
        Some(s) => s,
        None => owned(other),
    }
}

fn unwrap_empty(v: Option<String>) -> (r: String)
    ensures
        r@ == or_empty(opt(v)),
{
    match v {
        Some(s) => s,
        None => String::new(),
    }
}

/// The first of two members that is there.
pub open spec fn member_or(raw: Tree, a: Seq<char>, b: Seq<char>) -> Option<Tree> {
    first_of(member(raw, a), member(raw, b))
}

fn get_or<'a>(raw: &'a Json, a: &str, b: &str) -> (r: Option<&'a Json>)
    ensures
        opt_tree(r) == member_or(raw@, a@, b@),
{
    match raw.get(a) {
        Some(v) => Some(v),
        None => raw.get(b),
    }
}

fn get_in<'a>(raw: &'a Json, outer: &str, inner: &str) -> (r: Option<&'a Json>)
    ensures
        opt_tree(r) == member_of(member(raw@, outer@), inner@),
{
    match raw.get(outer) {
        Some(v) => v.get(inner),
        None => None,
    }
}

fn flag_of(v: Option<&Json>) -> (r: bool)
    ensures
        r == or_false(tree_bool(opt_tree(v))),
{
    match v {
        Some(j) => match j.as_bool() {
            Some(b) => b,
            None => false,
        },
        None => false,
    }
}

// ---------------------------------------------------------------------------
// Plans
// ---------------------------------------------------------------------------

/// The status that a text names. `completed` and `in_progress` are told apart; any
/// other text, and none, stands for a step that is pending.
pub open spec fn status_of(s: Option<Seq<char>>) -> PlanStepStatus {
    if s == Some("completed"@) {
        PlanStepStatus::Completed
    } else if s == Some("in_progress"@) {
        PlanStepStatus::InProgress
    } else {
        PlanStepStatus::Pending
    }
}

/// The plan step that a to-do item stands for, unless it has no text.
pub open spec fn item_step(item: Tree) -> Option<StepView> {
    let text = cleaned(
        tree_text(
            first_of(
                first_of(first_of(member(item, "text"@), member(item, "step"@)), member(item, "content"@)),
                member(item, "title"@),
            ),
        ),
    );
    match text {
        None => None,
        Some(step) => Some(
            StepView {
                step,
                status: if or_false(tree_bool(member(item, "completed"@))) {
                    PlanStepStatus::Completed
                } else {
                    status_of(tree_text(member(item, "status"@)))
                },
            },
        ),
    }
}

/// The steps of a list of to-do items, in order.
pub open spec fn item_steps(items: Seq<Tree>) -> Seq<StepView>
    decreases items.len(),
{
    if items.len() == 0 {
        Seq::empty()
    } else {
        let before = item_steps(items.drop_last());
        match item_step(items.last()) {
            Some(s) => before.push(s),
            None => before,
        }
    }
}

/// The plan of an event: the items below `item`, else its own items.
pub open spec fn plan_steps(raw: Tree) -> Seq<StepView> {
    match tree_list(first_of(member_of(member(raw, "item"@), "items"@), member(raw, "items"@))) {
        Some(items) => item_steps(items),
        None => Seq::empty(),
    }
}

pub open spec fn plan_summary(n: nat) -> Seq<char> {
    "plan updated ("@ + decimal(n) + " steps)"@
}

fn parse_plan_status(status: Option<&str>) -> (r: PlanStepStatus)
    ensures
        r == status_of(crate::json::opt_str(status)),
{
    match status {
        Some(s) => if same(s, "completed") {
            PlanStepStatus::Completed
        } else if same(s, "in_progress") {
            PlanStepStatus::InProgress
        } else {
            PlanStepStatus::Pending
        },
        None => PlanStepStatus::Pending,
    }
}

fn todo_list_item_to_plan_step(item: &Json) -> (r: Option<PlanStep>)
    ensures
        match r {
            Some(s) => item_step(item@) == Some(s@),
            None => item_step(item@) is None,
        },
{
    let found = match item.get("text") {
        Some(v) => Some(v),
        None => match item.get("step") {
            Some(v) => Some(v),
            None => match item.get("content") {
                Some(v) => Some(v),
                None => item.get("title"),
            },
        },
    };
    let text = match found {
        Some(v) => clean_optional_string(v.as_str()),
        None => None,
    };
    match text {
        None => None,
        Some(step) => {
            let status = if flag_of(item.get("completed")) {
                PlanStepStatus::Completed
            } else {
                match item.get("status") {
                    Some(v) => parse_plan_status(v.as_str()),
                    None => PlanStepStatus::Pending,
                }
            };
            Some(PlanStep { step, status })
        },
    }
}

fn todo_list_steps_from_raw(raw: &Json) -> (r: Vec<PlanStep>)
    ensures
        step_views(r@) == plan_steps(raw@),
{
    let found = match get_in(raw, "item", "items") {
        Some(v) => Some(v),
        None => raw.get("items"),
    };
    let mut out: Vec<PlanStep> = Vec::new();
    let list = match found {
        Some(v) => v.as_list(),
        None => None,
    };
    match list {
        None => {
            proof {
                assert(step_views(out@) =~= plan_steps(raw@));
            }
            out
        },
        Some(items) => {
            let ghost all = trees(items@);
            let mut i: usize = 0;
            proof {
                assert(all.take(0) =~= Seq::empty());
                assert(step_views(out@) =~= item_steps(all.take(0)));
            }
            while i < items.len()
                invariant
                    i <= items@.len(),
                    all == trees(items@),
                    step_views(out@) == item_steps(all.take(i as int)),
                decreases items@.len() - i,
            {
                let ghost before = out@;
                proof {
                    assert(all.take(i + 1).drop_last() =~= all.take(i as int));
                    assert(all.take(i + 1).last() == items@[i as int]@);
                }
                match todo_list_item_to_plan_step(&items[i]) {
                    Some(step) => {
                        out.push(step);
                        proof {
                            assert(step_views(out@) =~= step_views(before).push(step@));
                        }
                    },
                    None => {},
                }
                i = i + 1;
            }
            proof {
                assert(all.take(i as int) =~= all);
            }
            out
        },
    }
}

/// The steps of the plan that an event carries.
pub fn external_progress_plan_steps(event: &ExternalCliProgressEvent) -> (r: Vec<PlanStep>)
    ensures
        step_views(r@) == plan_steps(event.raw@),
{
    todo_list_steps_from_raw(&event.raw)
}

fn plan_summary_text(n: usize) -> (r: String)
    ensures
        r@ == plan_summary(n as nat),
{
    let count = decimal_text(n as u64);
    concat3("plan updated (", count.as_str(), " steps)")
}

// ---------------------------------------------------------------------------
// Events of Codex and Traex
// ---------------------------------------------------------------------------

pub open spec fn plain_event(
    event_type: ExternalCliProgressEventType,
    content: Seq<char>,
    title: Option<Seq<char>>,
    raw: Tree,
) -> EventView {
    EventView { event_type, content, title, raw }
}

/// The plan update that a to-do list stands for, unless it has no steps.
pub open spec fn codex_plan_event(raw: Tree) -> Option<EventView> {
    let n = plan_steps(raw).len();
    if n == 0 {
        None
    } else {
        Some(plain_event(ExternalCliProgressEventType::PlanUpdated, plan_summary(n), None, raw))
    }
}

/// The raw value of a command event with the tool name, the command and, once
/// there is an exit code, whether the command succeeded.
pub open spec fn command_raw(raw: Tree) -> Tree {
    let command = or_empty(text_in(raw, "item"@, "command"@));
    let named = with_default(raw, "tool_name"@, Tree::Text("exec_command"@));
    let full = with_default(
        named,
        "arguments"@,
        Tree::Object(seq![("command"@, Tree::Text(command))]),
    );
    match tree_i64(member_of(member(raw, "item"@), "exit_code"@)) {
        Some(code) => with_default(full, "success"@, Tree::Bool(code == 0)),
        None => full,
    }
}

pub open spec fn command_event(
    raw: Tree,
    event_type: ExternalCliProgressEventType,
) -> EventView {
    plain_event(
        event_type,
        if event_type == ExternalCliProgressEventType::ToolStarted {
            or_empty(text_in(raw, "item"@, "command"@))
        } else if event_type == ExternalCliProgressEventType::ToolFinished {
            or_empty(text_in(raw, "item"@, "aggregated_output"@))
        } else {
            Seq::empty()
        },
        Some("exec_command"@),
        command_raw(raw),
    )
}

pub open spec fn item_started_event(raw: Tree) -> Option<EventView> {
    match text_in(raw, "item"@, "type"@) {
        None => None,
        Some(kind) => if kind == "todo_list"@ {
            codex_plan_event(raw)
        } else if kind == "command_execution"@ {
            Some(command_event(raw, ExternalCliProgressEventType::ToolStarted))
        } else if kind == "tool_call"@ {
            Some(
                plain_event(
                    ExternalCliProgressEventType::ToolStarted,
                    or_empty(
                        first_of(
                            text_in(raw, "item"@, "arguments"@),
                            text_in(raw, "item"@, "command"@),
                        ),
                    ),
                    first_of(text_in(raw, "item"@, "name"@), Some(kind)),
                    raw,
                ),
            )
        } else {
            Some(
                plain_event(
                    ExternalCliProgressEventType::Status,
                    or_text(text_in(raw, "item"@, "status"@), kind + " started"@),
                    Some(kind),
                    raw,
                ),
            )
        },
    }
}

pub open spec fn item_updated_event(raw: Tree) -> Option<EventView> {
    if text_in(raw, "item"@, "type"@) == Some("todo_list"@) {
        codex_plan_event(raw)
    } else {
        None
    }
}

/// The kind of event that a finished item of some type stands for. An item of
/// type `error` is a warning: whether the run failed is for the exit status to
/// say.
pub open spec fn completed_item_type(kind: Seq<char>) -> ExternalCliProgressEventType {
    if kind == "agent_message"@ {
        ExternalCliProgressEventType::AssistantFinal
    } else if kind == "reasoning"@ || kind == "reasoning_summary"@ {
        ExternalCliProgressEventType::AssistantDelta
    } else if kind == "tool_call"@ || kind == "tool_result"@ {
        ExternalCliProgressEventType::ToolFinished
    } else {
        ExternalCliProgressEventType::Status
    }
}

pub open spec fn item_completed_event(raw: Tree) -> Option<EventView> {
    match text_in(raw, "item"@, "type"@) {
        None => None,
        Some(kind) => if kind == "todo_list"@ {
            codex_plan_event(raw)
        } else if kind == "command_execution"@ {
            Some(command_event(raw, ExternalCliProgressEventType::ToolFinished))
        } else {
            Some(
                plain_event(
                    completed_item_type(kind),
                    or_empty(
                        first_of(
                            first_of(
                                first_of(
                                    first_of(
                                        text_in(raw, "item"@, "text"@),
                                        text_in(raw, "item"@, "message"@),
                                    ),
                                    text_in(raw, "item"@, "summary"@),
                                ),
                                text_in(raw, "item"@, "content"@),
                            ),
                            text_in(raw, "item"@, "title"@),
                        ),
                    ),
                    Some(kind),
                    raw,
                ),
            )
        },
    }
}

/// The event that a line of Codex or Traex stands for.
pub open spec fn codex_event(kind: Seq<char>, raw: Tree) -> Option<EventView> {
    if kind == "thread.started"@ {
        Some(
            plain_event(
                ExternalCliProgressEventType::RunStarted,
                or_text(text_at(raw, "thread_id"@), "thread started"@),
                Some("Codex thread"@),
                raw,
            ),
        )
    } else if kind == "turn.started"@ {
        Some(
            plain_event(
                ExternalCliProgressEventType::Status,
                "turn started"@,
                Some("Codex turn"@),
                raw,
            ),
        )
    } else if kind == "turn.completed"@ {
        Some(
            plain_event(
                ExternalCliProgressEventType::RunFinished,
                "turn completed"@,
                Some("Codex turn"@),
                raw,
            ),
        )
    } else if kind == "item.started"@ {
        item_started_event(raw)
    } else if kind == "item.updated"@ {
        item_updated_event(raw)
    } else if kind == "item.completed"@ {
        item_completed_event(raw)
    } else {
        None
    }
}

fn make_event(
    event_type: ExternalCliProgressEventType,
    content: String,
    title: Option<String>,
    raw: &Json,
) -> (r: ExternalCliProgressEvent)
    ensures
        r@ == plain_event(event_type, content@, opt(title), raw@),
{
    ExternalCliProgressEvent { event_type, content, title, raw: raw.copy() }
}

fn codex_todo_list_event(raw: &Json) -> (r: Option<ExternalCliProgressEvent>)
    ensures
        opt_event(r) == codex_plan_event(raw@),
{
    let steps = todo_list_steps_from_raw(raw);
    proof {
        assert(step_views(steps@).len() == steps@.len());
    }
    if steps.len() == 0 {
        None
    } else {
        Some(
            make_event(
                ExternalCliProgressEventType::PlanUpdated,
                plan_summary_text(steps.len()),
                None,
                raw,
            ),
        )
    }
}

fn codex_command_execution_event(
    raw: &Json,
    event_type: ExternalCliProgressEventType,
) -> (r: ExternalCliProgressEvent)
    ensures
        r@ == command_event(raw@, event_type),
{
    let command = unwrap_empty(value_text_path(raw, "item", "command"));
    let output = unwrap_empty(value_text_path(raw, "item", "aggregated_output"));
    let exit_code: Option<i64> = match get_in(raw, "item", "exit_code") {
        Some(v) => v.as_i64(),
        None => None,
    };
    let mut enriched = raw.copy();
    put_default(&mut enriched, "tool_name", Json::Text(owned("exec_command")));
    let mut arguments: Vec<(String, Json)> = Vec::new();
    arguments.push((owned("command"), Json::Text(command.clone())));
    let arguments_json = Json::Object(arguments);
    proof {
        crate::json::lemma_object_view(arguments);
        assert(crate::json::members(arguments@) =~= seq![("command"@, Tree::Text(command@))]);
    }
    put_default(&mut enriched, "arguments", arguments_json);
    match exit_code {
        Some(code) => put_default(&mut enriched, "success", Json::Bool(code == 0)),
        None => {},
    }
    let content = match event_type {
        ExternalCliProgressEventType::ToolStarted => command,
        ExternalCliProgressEventType::ToolFinished => output,
        _ => String::new(),
    };
    ExternalCliProgressEvent {
        event_type,
        content,
        title: Some(owned("exec_command")),
        raw: enriched,
    }
}

fn codex_item_started(raw: &Json) -> (r: Option<ExternalCliProgressEvent>)
    ensures
        opt_event(r) == item_started_event(raw@),
{
    let kind = match value_text_path(raw, "item", "type") {
        None => {
            return None;
        },
        Some(k) => k,
    };
    if same(kind.as_str(), "todo_list") {
        return codex_todo_list_event(raw);
    }
    if same(kind.as_str(), "command_execution") {
        return Some(
            codex_command_execution_event(raw, ExternalCliProgressEventType::ToolStarted),
        );
    }
    if same(kind.as_str(), "tool_call") {
        let arguments = value_text_path(raw, "item", "arguments");
        let content = unwrap_empty(or_value_text_path(arguments, raw, "item", "command"));
        let title = match value_text_path(raw, "item", "name") {
            Some(name) => Some(name),
            None => Some(kind),
        };
        return Some(make_event(ExternalCliProgressEventType::ToolStarted, content, title, raw));
    }
    let content = match value_text_path(raw, "item", "status") {
        Some(s) => s,
        None => concat2(kind.as_str(), " started"),
    };
    Some(make_event(ExternalCliProgressEventType::Status, content, Some(kind), raw))
}

fn codex_item_updated(raw: &Json) -> (r: Option<ExternalCliProgressEvent>)
    ensures
        opt_event(r) == item_updated_event(raw@),
{
    match value_text_path(raw, "item", "type") {
        None => None,
        Some(kind) => if same(kind.as_str(), "todo_list") {
            codex_todo_list_event(raw)
        } else {
            None
        },
    }
}

fn codex_item_completed(raw: &Json) -> (r: Option<ExternalCliProgressEvent>)
    ensures
        opt_event(r) == item_completed_event(raw@),
{
    let kind = match value_text_path(raw, "item", "type") {
        None => {
            return None;
        },
        Some(k) => k,
    };
    if same(kind.as_str(), "todo_list") {
        return codex_todo_list_event(raw);
    }
    if same(kind.as_str(), "command_execution") {
        return Some(
            codex_command_execution_event(raw, ExternalCliProgressEventType::ToolFinished),
        );
    }
    let text = value_text_path(raw, "item", "text");
    let text = or_value_text_path(text, raw, "item", "message");
    let text = or_value_text_path(text, raw, "item", "summary");
    let text = or_value_text_path(text, raw, "item", "content");
    let text = or_value_text_path(text, raw, "item", "title");
    let content = unwrap_empty(text);
    let k = kind.as_str();
    let event_type = if same(k, "agent_message") {
        ExternalCliProgressEventType::AssistantFinal
    } else if same(k, "reasoning") || same(k, "reasoning_summary") {
        ExternalCliProgressEventType::AssistantDelta
    } else if same(k, "tool_call") || same(k, "tool_result") {
        ExternalCliProgressEventType::ToolFinished
    } else {
        ExternalCliProgressEventType::Status
    };
    Some(make_event(event_type, content, Some(kind), raw))
}

/// Reads an event of Codex or Traex.
pub fn parse_codex_cli_event(event_type: &str, raw: &Json) -> (r: Option<ExternalCliProgressEvent>)
    ensures
        opt_event(r) == codex_event(event_type@, raw@),
{
    if same(event_type, "thread.started") {
        let content = unwrap_text(value_text(raw, "thread_id"), "thread started");
        return Some(
            make_event(
                ExternalCliProgressEventType::RunStarted,
                content,
                Some(owned("Codex thread")),
                raw,
            ),
        );
    }
    if same(event_type, "turn.started") {
        return Some(
            make_event(
                ExternalCliProgressEventType::Status,
                owned("turn started"),
                Some(owned("Codex turn")),
                raw,
            ),
        );
    }
    if same(event_type, "turn.completed") {
        return Some(
            make_event(
                ExternalCliProgressEventType::RunFinished,
                owned("turn completed"),
                Some(owned("Codex turn")),
                raw,
            ),
        );
    }
    if same(event_type, "item.started") {
        return codex_item_started(raw);
    }
    if same(event_type, "item.updated") {
        return codex_item_updated(raw);
    }
    if same(event_type, "item.completed") {
        return codex_item_completed(raw);
    }
    None
}

// ---------------------------------------------------------------------------
// Events of `claude_code`
// ---------------------------------------------------------------------------

/// What is remembered of a tool call until its result comes.
#[derive(Debug, PartialEq, Eq)]
pub struct ClaudeCodeToolContext {
    pub name: String,
    pub arguments: Json,
}

/// The tool calls whose results have been announced.
#[derive(Debug, PartialEq, Eq)]
pub struct ExternalCliParseState {
    pub claude_tools: TextMap<ClaudeCodeToolContext>,
}

/// The mathematical view of the remembered tool calls.
pub type ToolsView = Map<Seq<char>, (Seq<char>, Tree)>;

impl View for ExternalCliParseState {
    type V = ToolsView;

    open spec fn view(&self) -> ToolsView {
        self.claude_tools@.map_values(|c: ClaudeCodeToolContext| (c.name@, c.arguments@))
    }
}

impl ExternalCliParseState {
    pub fn new() -> (r: Self)
        ensures
            r@ == Map::<Seq<char>, (Seq<char>, Tree)>::empty(),
    {
        let r = ExternalCliParseState { claude_tools: TextMap::new() };
        proof {
            assert(r@ =~= Map::<Seq<char>, (Seq<char>, Tree)>::empty());
        }
        r
    }
}

/// The content of a message, else of the event itself.
pub open spec fn message_content(raw: Tree) -> Option<Tree> {
    first_of(member_of(member(raw, "message"@), "content"@), member(raw, "content"@))
}

/// The first part whose `type` is `kind`.
pub open spec fn part_of_type(parts: Seq<Tree>, kind: Seq<char>) -> Option<Tree>
    decreases parts.len(),
{
    if parts.len() == 0 {
        None
    } else if tree_text(member(parts[0], "type"@)) == Some(kind) {
        Some(parts[0])
    } else {
        part_of_type(parts.drop_first(), kind)
    }
}

/// The first part of that type in the content of a message.
pub open spec fn message_part(raw: Tree, kind: Seq<char>) -> Option<Tree> {
    match tree_list(message_content(raw)) {
        Some(parts) => part_of_type(parts, kind),
        None => None,
    }
}

/// The text that one part of a message adds.
pub open spec fn part_text(part: Tree) -> Option<Seq<char>> {
    first_of(tree_text(member(part, "text"@)), tree_text(Some(part)))
}

pub open spec fn part_texts(parts: Seq<Tree>) -> Seq<Seq<char>>
    decreases parts.len(),
{
    if parts.len() == 0 {
        Seq::empty()
    } else {
        let before = part_texts(parts.drop_last());
        match part_text(parts.last()) {
            Some(t) => before.push(t),
            None => before,
        }
    }
}

/// The text of a message: plain content, else its text parts on lines of their
/// own.
pub open spec fn message_text(raw: Tree) -> Option<Seq<char>> {
    match message_content(raw) {
        Some(Tree::Text(s)) => Some(s),
        Some(Tree::List(parts)) => if part_texts(parts).len() == 0 {
            None
        } else {
            Some(joined(part_texts(parts), "\n"@))
        },
        _ => None,
    }
}

/// How the arguments of a tool call read: the command, else the plain text, else
/// JSON.
pub open spec fn arguments_text(arguments: Tree) -> Seq<char> {
    match cleaned(tree_text(member(arguments, "command"@))) {
        Some(command) => command,
        None => match arguments {
            Tree::Null => Seq::empty(),
            Tree::Text(s) => s,
            _ => text_of_json(arguments),
        },
    }
}

pub open spec fn or_null(v: Option<Tree>) -> Tree {
    match v {
        Some(t) => t,
        None => Tree::Null,
    }
}

/// The identifier of the tool call in an assistant message.
pub open spec fn tool_use_id(part: Tree) -> Option<Seq<char>> {
    first_of(
        first_of(text_at(part, "id"@), text_at(part, "tool_use_id"@)),
        text_at(part, "toolUseId"@),
    )
}

/// The tool call that an assistant message announces: its identifier, its name
/// and its arguments.
pub open spec fn announced_tool(raw: Tree) -> Option<(Seq<char>, Seq<char>, Tree)> {
    match message_part(raw, "tool_use"@) {
        None => None,
        Some(part) => match tool_use_id(part) {
            None => None,
            Some(id) => Some(
                (id, or_text(text_at(part, "name"@), "tool"@), or_null(member(part, "input"@))),
            ),
        },
    }
}

pub open spec fn tool_raw(raw: Tree, id: Seq<char>, name: Seq<char>, arguments: Tree) -> Tree {
    with_default(
        with_default(
            with_default(raw, "tool_name"@, Tree::Text(name)),
            "tool_use_id"@,
            Tree::Text(id),
        ),
        "arguments"@,
        arguments,
    )
}

pub open spec fn tool_use_event(raw: Tree) -> Option<EventView> {
    match announced_tool(raw) {
        None => None,
        Some((id, name, arguments)) => Some(
            plain_event(
                ExternalCliProgressEventType::ToolStarted,
                arguments_text(arguments),
                Some(name),
                tool_raw(raw, id, name, arguments),
            ),
        ),
    }
}

/// The remembered tool calls after a message.
pub open spec fn tools_after(raw: Tree, tools: ToolsView) -> ToolsView {
    match announced_tool(raw) {
        None => tools,
        Some((id, name, arguments)) => tools.insert(id, (name, arguments)),
    }
}

/// The output of a tool: what it printed, with its error output behind it.
pub open spec fn tool_output(content: Seq<char>, stderr: Seq<char>) -> Seq<char> {
    if blank(stderr) {
        content
    } else if blank(content) {
        stderr
    } else {
        content + "\n"@ + stderr
    }
}

/// The event of a tool result, with what was remembered of the call.
pub open spec fn tool_result_event(raw: Tree, tools: ToolsView) -> Option<EventView> {
    match message_part(raw, "tool_result"@) {
        None => None,
        Some(part) => match first_of(text_at(part, "tool_use_id"@), text_at(part, "toolUseId"@)) {
            None => None,
            Some(id) => {
                let (name, arguments) = if tools.contains_key(id) {
                    tools[id]
                } else {
                    ("tool"@, Tree::Null)
                };
                let content = or_empty(
                    first_of(
                        text_at(part, "content"@),
                        text_in(raw, "tool_use_result"@, "stdout"@),
                    ),
                );
                let stderr = or_empty(text_in(raw, "tool_use_result"@, "stderr"@));
                let failed = or_false(
                    tree_bool(member_or(part, "is_error"@, "isError"@)),
                );
                let interrupted = or_false(
                    tree_bool(member_of(member(raw, "tool_use_result"@), "interrupted"@)),
                );
                Some(
                    plain_event(
                        ExternalCliProgressEventType::ToolFinished,
                        tool_output(content, stderr),
                        Some(name),
                        with_default(
                            tool_raw(raw, id, name, arguments),
                            "success"@,
                            Tree::Bool(!failed && !interrupted),
                        ),
                    ),
                )
            },
        },
    }
}

pub open spec fn system_event(raw: Tree) -> EventView {
    let subtype = or_empty(text_at(raw, "subtype"@));
    let session = first_of(text_at(raw, "session_id"@), text_at(raw, "sessionId"@));
    if subtype == "init"@ || session is Some {
        plain_event(
            ExternalCliProgressEventType::RunStarted,
            or_text(session, "session started"@),
            Some(claude_product() + " session"@),
            raw,
        )
    } else {
        plain_event(ExternalCliProgressEventType::Status, subtype, Some(claude_product()), raw)
    }
}

pub open spec fn assistant_event(raw: Tree) -> EventView {
    match tool_use_event(raw) {
        Some(e) => e,
        None => {
            let content = or_empty(message_text(raw));
            plain_event(
                if blank(content) {
                    ExternalCliProgressEventType::Status
                } else {
                    ExternalCliProgressEventType::AssistantFinal
                },
                content,
                Some(claude_product() + " assistant"@),
                raw,
            )
        },
    }
}

pub open spec fn result_event(raw: Tree) -> EventView {
    plain_event(
        if or_false(tree_bool(member_or(raw, "is_error"@, "isError"@))) {
            ExternalCliProgressEventType::RunFailed
        } else {
            ExternalCliProgressEventType::RunFinished
        },
        or_empty(
            first_of(
                first_of(text_at(raw, "result"@), text_at(raw, "error"@)),
                text_at(raw, "message"@),
            ),
        ),
        Some(claude_product() + " result"@),
        raw,
    )
}

/// The event that a line of `claude_code` stands for.
pub open spec fn claude_event(kind: Seq<char>, raw: Tree, tools: ToolsView) -> Option<EventView> {
    if kind == "system"@ {
        Some(system_event(raw))
    } else if kind == "assistant"@ {
        Some(assistant_event(raw))
    } else if kind == "user"@ {
        tool_result_event(raw, tools)
    } else if kind == "result"@ {
        Some(result_event(raw))
    } else {
        None
    }
}

fn claude_code_message_content(raw: &Json) -> (r: Option<&Json>)
    ensures
        opt_tree(r) == message_content(raw@),
{
    match get_in(raw, "message", "content") {
        Some(v) => Some(v),
        None => raw.get("content"),
    }
}

fn find_message_part<'a>(raw: &'a Json, kind: &str) -> (r: Option<&'a Json>)
    ensures
        opt_tree(r) == message_part(raw@, kind@),
{
    let list = match claude_code_message_content(raw) {
        Some(v) => v.as_list(),
        None => None,
    };
    match list {
        None => None,
        Some(parts) => {
            let ghost all = trees(parts@);
            let mut i: usize = 0;
            proof {
                assert(all.skip(0) =~= all);
            }
            while i < parts.len()
                invariant
                    i <= parts@.len(),
                    all == trees(parts@),
                    message_part(raw@, kind@) == part_of_type(all, kind@),
                    part_of_type(all.skip(i as int), kind@) == part_of_type(all, kind@),
                decreases parts@.len() - i,
            {
                proof {
                    assert(all.skip(i as int)[0] == parts@[i as int]@);
                    assert(all.skip(i as int).drop_first() =~= all.skip(i + 1));
                }
                let found = match parts[i].get("type") {
                    Some(t) => match t.as_str() {
                        Some(s) => same(s, kind),
                        None => false,
                    },
                    None => false,
                };
                if found {
                    return Some(&parts[i]);
                }
                i = i + 1;
            }
            None
        },
    }
}

/// How the arguments of a tool call read.
pub fn claude_code_tool_arguments_text(arguments: &Json) -> (r: String)
    ensures
        r@ == arguments_text(arguments@),
{
    let command = match arguments.get("command") {
        Some(v) => clean_optional_string(v.as_str()),
        None => None,
    };
    match command {
        Some(c) => c,
        None => match arguments {
            Json::Null => String::new(),
            Json::Text(s) => s.clone(),
            _ => json_to_text(arguments),
        },
    }
}

fn claude_code_message_text(raw: &Json) -> (r: Option<String>)
    ensures
        opt(r) == message_text(raw@),
{
    let content = match claude_code_message_content(raw) {
        Some(c) => c,
        None => {
            return None;
        },
    };
    match content.as_str() {
        Some(s) => {
            return Some(owned(s));
        },
        None => {},
    }
    match content.as_list() {
        None => None,
        Some(parts) => {
            let ghost all = trees(parts@);
            let mut out: Vec<String> = Vec::new();
            let mut i: usize = 0;
            proof {
                assert(all.take(0) =~= Seq::empty());
                assert(texts(out@) =~= part_texts(all.take(0)));
            }
            while i < parts.len()
                invariant
                    i <= parts@.len(),
                    all == trees(parts@),
                    texts(out@) == part_texts(all.take(i as int)),
                decreases parts@.len() - i,
            {
                proof {
                    assert(all.take(i + 1).drop_last() =~= all.take(i as int));
                    assert(all.take(i + 1).last() == parts@[i as int]@);
                }
                let part = &parts[i];
                let text = match part.get("text") {
                    Some(v) => match v.as_str() {
                        Some(s) => Some(s),
                        None => part.as_str(),
                    },
                    None => part.as_str(),
                };
                match text {
                    Some(s) => push_text(&mut out, s),
                    None => {},
                }
                i = i + 1;
            }
            proof {
                assert(all.take(i as int) =~= all);
                assert(texts(out@).len() == out@.len());
            }
            if out.len() == 0 {
                None
            } else {
                Some(join(&out, "\n"))
            }
        },
    }
}

fn put_tool_members(raw: &Json, id: &str, name: &str, arguments: &Json) -> (r: Json)
    ensures
        r@ == tool_raw(raw@, id@, name@, arguments@),
{
    let mut enriched = raw.copy();
    put_default(&mut enriched, "tool_name", Json::Text(owned(name)));
    put_default(&mut enriched, "tool_use_id", Json::Text(owned(id)));
    put_default(&mut enriched, "arguments", arguments.copy());
    enriched
}

fn claude_code_tool_use_event(raw: &Json, state: &mut ExternalCliParseState) -> (r: Option<
    ExternalCliProgressEvent,
>)
    ensures
        opt_event(r) == tool_use_event(raw@),
        final(state)@ == tools_after(raw@, old(state)@),
{
    let part = match find_message_part(raw, "tool_use") {
        Some(p) => p,
        None => {
            return None;
        },
    };
    let first = or_value_text(value_text(part, "id"), part, "tool_use_id");
    let id = match or_value_text(first, part, "toolUseId") {
        Some(id) => id,
        None => {
            return None;
        },
    };
    let name = unwrap_text(value_text(part, "name"), "tool");
    let arguments = match part.get("input") {
        Some(v) => v.copy(),
        None => Json::Null,
    };
    let content = claude_code_tool_arguments_text(&arguments);
    let enriched = put_tool_members(raw, id.as_str(), name.as_str(), &arguments);
    let context = ClaudeCodeToolContext { name: name.clone(), arguments };
    state.claude_tools.insert(id.as_str(), context);
    proof {
        assert(state@ =~= old(state)@.insert(id@, (name@, arguments@)));
    }
    Some(
        ExternalCliProgressEvent {
            event_type: ExternalCliProgressEventType::ToolStarted,
            content,
            title: Some(name),
            raw: enriched,
        },
    )
}

fn claude_code_tool_result_event(raw: &Json, state: &ExternalCliParseState) -> (r: Option<
    ExternalCliProgressEvent,
>)
    ensures
        opt_event(r) == tool_result_event(raw@, state@),
{
    let part = match find_message_part(raw, "tool_result") {
        Some(p) => p,
        None => {
            return None;
        },
    };
    let id = match or_value_text(value_text(part, "tool_use_id"), part, "toolUseId") {
        Some(id) => id,
        None => {
            return None;
        },
    };
    let (name, arguments) = match state.claude_tools.get(id.as_str()) {
        Some(context) => (context.name.clone(), context.arguments.copy()),
        None => (owned("tool"), Json::Null),
    };
    let content = unwrap_empty(
        or_value_text_path(value_text(part, "content"), raw, "tool_use_result", "stdout"),
    );
    let stderr = unwrap_empty(value_text_path(raw, "tool_use_result", "stderr"));
    let result = if trim(stderr.as_str()).is_empty() {
        content
    } else if trim(content.as_str()).is_empty() {
        stderr
    } else {
        concat3(content.as_str(), "\n", stderr.as_str())
    };
    let failed = flag_of(get_or(part, "is_error", "isError"));
    let interrupted = flag_of(get_in(raw, "tool_use_result", "interrupted"));
    let mut enriched = put_tool_members(raw, id.as_str(), name.as_str(), &arguments);
    put_default(&mut enriched, "success", Json::Bool(!failed && !interrupted));
    Some(
        ExternalCliProgressEvent {
            event_type: ExternalCliProgressEventType::ToolFinished,
            content: result,
            title: Some(name),
            raw: enriched,
        },
    )
}

fn claude_system_event(raw: &Json) -> (r: ExternalCliProgressEvent)
    ensures
        r@ == system_event(raw@),
{
    let subtype = unwrap_empty(value_text(raw, "subtype"));
    let session = or_value_text(value_text(raw, "session_id"), raw, "sessionId");
    if same(subtype.as_str(), "init") || session.is_some() {
        make_event(
            ExternalCliProgressEventType::RunStarted,
            unwrap_text(session, "session started"),
            Some(concat2(claude_product_text().as_str(), " session")),
            raw,
        )
    } else {
        make_event(
            ExternalCliProgressEventType::Status,
            subtype,
            Some(claude_product_text()),
            raw,
        )
    }
}

fn claude_result_event(raw: &Json) -> (r: ExternalCliProgressEvent)
    ensures
        r@ == result_event(raw@),
{
    let failed = flag_of(get_or(raw, "is_error", "isError"));
    let text = or_value_text(value_text(raw, "result"), raw, "error");
    let content = unwrap_empty(or_value_text(text, raw, "message"));
    make_event(
        if failed {
            ExternalCliProgressEventType::RunFailed
        } else {
            ExternalCliProgressEventType::RunFinished
        },
        content,
        Some(concat2(claude_product_text().as_str(), " result")),
        raw,
    )
}

/// Reads an event of `claude_code` and keeps track of its tool calls.
pub fn parse_claude_code_event(
    event_type: &str,
    raw: &Json,
    state: &mut ExternalCliParseState,
) -> (r: Option<ExternalCliProgressEvent>)
    ensures
        opt_event(r) == claude_event(event_type@, raw@, old(state)@),
        final(state)@ == (if event_type@ == "assistant"@ {
            tools_after(raw@, old(state)@)
        } else {
            old(state)@
        }),
{
    proof {
        reveal_strlit("system");
        reveal_strlit("assistant");
        reveal_strlit("user");
        reveal_strlit("result");
        assert("system"@.len() == 6);
        assert("assistant"@.len() == 9);
        assert("user"@.len() == 4);
        assert("result"@.len() == 6);
    }
    if same(event_type, "system") {
        return Some(claude_system_event(raw));
    }
    if same(event_type, "assistant") {
        match claude_code_tool_use_event(raw, state) {
            Some(event) => {
                return Some(event);
            },
            None => {},
        }
        let content = unwrap_empty(claude_code_message_text(raw));
        let kind = if trim(content.as_str()).is_empty() {
            ExternalCliProgressEventType::Status
        } else {
            ExternalCliProgressEventType::AssistantFinal
        };
        let title = concat2(claude_product_text().as_str(), " assistant");
        return Some(make_event(kind, content, Some(title), raw));
    }
    if same(event_type, "user") {
        return claude_code_tool_result_event(raw, state);
    }
    if same(event_type, "result") {
        return Some(claude_result_event(raw));
    }
    None
}

// ---------------------------------------------------------------------------
// Reading the output of an agent
// ---------------------------------------------------------------------------

/// The type that an event names itself.
pub open spec fn named_type(raw: Tree) -> Option<Seq<char>> {
    first_of(first_of(text_at(raw, "type"@), text_at(raw, "event"@)), text_at(raw, "kind"@))
}

/// The kind of a plain event, by the type that it names.
pub open spec fn generic_type(kind: Seq<char>) -> Option<ExternalCliProgressEventType> {
    if kind == "run_started"@ || kind == "started"@ {
        Some(ExternalCliProgressEventType::RunStarted)
    } else if kind == "status"@ || kind == "status_changed"@ {
        Some(ExternalCliProgressEventType::Status)
    } else if kind == "assistant_delta"@ || kind == "agent_message_delta"@ || kind
        == "message_delta"@ {
        Some(ExternalCliProgressEventType::AssistantDelta)
    } else if kind == "assistant_final"@ || kind == "agent_message"@ || kind == "message"@ {
        Some(ExternalCliProgressEventType::AssistantFinal)
    } else if kind == "tool_started"@ || kind == "tool_call_started"@ {
        Some(ExternalCliProgressEventType::ToolStarted)
    } else if kind == "tool_finished"@ || kind == "tool_call_finished"@ {
        Some(ExternalCliProgressEventType::ToolFinished)
    } else if kind == "run_finished"@ || kind == "finished"@ || kind == "done"@ {
        Some(ExternalCliProgressEventType::RunFinished)
    } else if kind == "run_failed"@ || kind == "failed"@ || kind == "error"@ {
        Some(ExternalCliProgressEventType::RunFailed)
    } else if has_text(kind, "delta"@) {
        Some(ExternalCliProgressEventType::AssistantDelta)
    } else if has_text(kind, "final"@) {
        Some(ExternalCliProgressEventType::AssistantFinal)
    } else {
        None
    }
}

pub open spec fn generic_content(raw: Tree) -> Seq<char> {
    or_empty(
        first_of(
            first_of(
                first_of(
                    first_of(
                        first_of(
                            first_of(text_at(raw, "content"@), text_at(raw, "delta"@)),
                            text_at(raw, "message"@),
                        ),
                        text_at(raw, "text"@),
                    ),
                    text_at(raw, "summary"@),
                ),
                text_at(raw, "final"@),
            ),
            text_at(raw, "status"@),
        ),
    )
}

/// The event of an agent that is neither Codex, Traex nor `claude_code`.
pub open spec fn generic_event(kind: Seq<char>, raw: Tree) -> Option<EventView> {
    let steps = plan_steps(raw);
    if (kind == "plan_updated"@ || kind == "todo_list"@) && steps.len() > 0 {
        Some(
            plain_event(
                ExternalCliProgressEventType::PlanUpdated,
                plan_summary(steps.len()),
                first_of(text_at(raw, "title"@), text_at(raw, "name"@)),
                raw,
            ),
        )
    } else {
        match generic_type(kind) {
            None => None,
            Some(event_type) => Some(
                plain_event(
                    event_type,
                    generic_content(raw),
                    first_of(
                        first_of(text_at(raw, "title"@), text_at(raw, "name"@)),
                        text_at(raw, "tool_name"@),
                    ),
                    raw,
                ),
            ),
        }
    }
}

/// The event that a JSON value stands for, given the remembered tool calls.
pub open spec fn event_of(raw: Tree, tools: ToolsView) -> Option<EventView> {
    match named_type(raw) {
        None => None,
        Some(kind) => first_of(
            first_of(codex_event(kind, raw), claude_event(kind, raw, tools)),
            generic_event(kind, raw),
        ),
    }
}

/// The remembered tool calls after a JSON value.
pub open spec fn tools_of(raw: Tree, tools: ToolsView) -> ToolsView {
    if named_type(raw) == Some("assistant"@) {
        tools_after(raw, tools)
    } else {
        tools
    }
}

fn generic_event_type(kind: &str) -> (r: Option<ExternalCliProgressEventType>)
    ensures
        r == generic_type(kind@),
{
    if same(kind, "run_started") || same(kind, "started") {
        Some(ExternalCliProgressEventType::RunStarted)
    } else if same(kind, "status") || same(kind, "status_changed") {
        Some(ExternalCliProgressEventType::Status)
    } else if same(kind, "assistant_delta") || same(kind, "agent_message_delta") || same(
        kind,
        "message_delta",
    ) {
        Some(ExternalCliProgressEventType::AssistantDelta)
    } else if same(kind, "assistant_final") || same(kind, "agent_message") || same(
        kind,
        "message",
    ) {
        Some(ExternalCliProgressEventType::AssistantFinal)
    } else if same(kind, "tool_started") || same(kind, "tool_call_started") {
        Some(ExternalCliProgressEventType::ToolStarted)
    } else if same(kind, "tool_finished") || same(kind, "tool_call_finished") {
        Some(ExternalCliProgressEventType::ToolFinished)
    } else if same(kind, "run_finished") || same(kind, "finished") || same(kind, "done") {
        Some(ExternalCliProgressEventType::RunFinished)
    } else if same(kind, "run_failed") || same(kind, "failed") || same(kind, "error") {
        Some(ExternalCliProgressEventType::RunFailed)
    } else if contains(kind, "delta") {
        Some(ExternalCliProgressEventType::AssistantDelta)
    } else if contains(kind, "final") {
        Some(ExternalCliProgressEventType::AssistantFinal)
    } else {
        None
    }
}

fn parse_generic_event(kind: &str, raw: Json) -> (r: Option<ExternalCliProgressEvent>)
    ensures
        opt_event(r) == generic_event(kind@, raw@),
{
    if same(kind, "plan_updated") || same(kind, "todo_list") {
        let steps = todo_list_steps_from_raw(&raw);
        proof {
            assert(step_views(steps@).len() == steps@.len());
        }
        if steps.len() > 0 {
            let title = or_value_text(value_text(&raw, "title"), &raw, "name");
            return Some(
                ExternalCliProgressEvent {
                    event_type: ExternalCliProgressEventType::PlanUpdated,
                    content: plan_summary_text(steps.len()),
                    title,
                    raw,
                },
            );
        }
    }
    let text = or_value_text(value_text(&raw, "content"), &raw, "delta");
    let text = or_value_text(text, &raw, "message");
    let text = or_value_text(text, &raw, "text");
    let text = or_value_text(text, &raw, "summary");
    let text = or_value_text(text, &raw, "final");
    let text = or_value_text(text, &raw, "status");
    let content = unwrap_empty(text);
    let title = or_value_text(value_text(&raw, "title"), &raw, "name");
    let title = or_value_text(title, &raw, "tool_name");
    match generic_event_type(kind) {
        None => None,
        Some(event_type) => Some(ExternalCliProgressEvent { event_type, content, title, raw }),
    }
}

/// Reads one JSON value that an agent printed.
pub fn parse_progress_event(raw: Json, state: &mut ExternalCliParseState) -> (r: Option<
    ExternalCliProgressEvent,
>)
    ensures
        opt_event(r) == event_of(raw@, old(state)@),
        final(state)@ == tools_of(raw@, old(state)@),
{
    let named = or_value_text(value_text(&raw, "type"), &raw, "event");
    let kind = match or_value_text(named, &raw, "kind") {
        Some(k) => k,
        None => {
            return None;
        },
    };
    proof {
        if kind@ == "assistant"@ {
            lemma_assistant_is_not_codex(raw@);
        }
    }
    match parse_codex_cli_event(kind.as_str(), &raw) {
        Some(event) => {
            return Some(event);
        },
        None => {},
    }
    match parse_claude_code_event(kind.as_str(), &raw, state) {
        Some(event) => {
            return Some(event);
        },
        None => {},
    }
    parse_generic_event(kind.as_str(), raw)
}

proof fn lemma_assistant_is_not_codex(raw: Tree)
    ensures
        codex_event("assistant"@, raw) is None,
{
    reveal_strlit("assistant");
    reveal_strlit("thread.started");
    reveal_strlit("turn.started");
    reveal_strlit("turn.completed");
    reveal_strlit("item.started");
    reveal_strlit("item.updated");
    reveal_strlit("item.completed");
    assert("assistant"@.len() == 9);
    assert("thread.started"@.len() == 14);
    assert("turn.started"@.len() == 12);
    assert("turn.completed"@.len() == 14);
    assert("item.started"@.len() == 12);
    assert("item.updated"@.len() == 12);
    assert("item.completed"@.len() == 14);
}

/// What a line of output stands for: nothing, unless it is JSON.
pub open spec fn line_value(line: Seq<char>) -> Option<Tree> {
    if blank(line) {
        None
    } else {
        json_of_text(trimmed(line))
    }
}

pub open spec fn line_event(line: Seq<char>, tools: ToolsView) -> Option<EventView> {
    match line_value(line) {
        Some(raw) => event_of(raw, tools),
        None => None,
    }
}

pub open spec fn tools_after_line(line: Seq<char>, tools: ToolsView) -> ToolsView {
    match line_value(line) {
        Some(raw) => tools_of(raw, tools),
        None => tools,
    }
}

/// Reads one line of an agent's output.
pub fn parse_progress_event_line_with_state(line: &str, state: &mut ExternalCliParseState) -> (r:
    Option<ExternalCliProgressEvent>)
    ensures
        opt_event(r) == line_event(line@, old(state)@),
        final(state)@ == tools_after_line(line@, old(state)@),
{
    let t = trim(line);
    if t.is_empty() {
        return None;
    }
    match parse_json(t) {
        Some(raw) => parse_progress_event(raw, state),
        None => None,
    }
}

/// The events of a list of lines, and the tool calls that are remembered then.
pub open spec fn events_of_lines(lines: Seq<Seq<char>>) -> (Seq<EventView>, ToolsView)
    decreases lines.len(),
{
    if lines.len() == 0 {
        (Seq::empty(), Map::empty())
    } else {
        let (events, tools) = events_of_lines(lines.drop_last());
        (
            match line_event(lines.last(), tools) {
                Some(e) => events.push(e),
                None => events,
            },
            tools_after_line(lines.last(), tools),
        )
    }
}

/// Reads the whole output of an agent.
pub fn parse_progress_events(stdout: &str) -> (r: Vec<ExternalCliProgressEvent>)
    ensures
        event_views(r@) == events_of_lines(text_lines(stdout@)).0,
{
    let lines = split_lines(stdout);
    let ghost all = text_lines(stdout@);
    let mut state = ExternalCliParseState::new();
    let mut events: Vec<ExternalCliProgressEvent> = Vec::new();
    let mut i: usize = 0;
    proof {
        assert(all.take(0) =~= Seq::empty());
        assert(event_views(events@) =~= events_of_lines(all.take(0)).0);
    }
    while i < lines.len()
        invariant
            i <= lines@.len(),
            all == texts(lines@),
            event_views(events@) == events_of_lines(all.take(i as int)).0,
            state@ == events_of_lines(all.take(i as int)).1,
        decreases lines@.len() - i,
    {
        let ghost before = events@;
        proof {
            assert(all.take(i + 1).drop_last() =~= all.take(i as int));
            assert(all.take(i + 1).last() == lines@[i as int]@);
        }
        match parse_progress_event_line_with_state(lines[i].as_str(), &mut state) {
            Some(event) => {
                events.push(event);
                proof {
                    assert(event_views(events@) =~= event_views(before).push(event@));
                }
            },
            None => {},
        }
        i = i + 1;
    }
    proof {
        assert(all.take(i as int) =~= all);
    }
    events
}

// ---------------------------------------------------------------------------
// Observing events as they come
// ---------------------------------------------------------------------------

/// `a - b`, or zero where that would be negative.
pub open spec fn minus(a: u64, b: u64) -> u64 {
    if a >= b {
        (a - b) as u64
    } else {
        0
    }
}

/// The identifier of the item that an event speaks of.
pub open spec fn item_key(raw: Tree) -> Option<Seq<char>> {
    cleaned(
        tree_text(
            first_of(
                first_of(member_of(member(raw, "item"@), "id"@), member(raw, "item_id"@)),
                member(raw, "id"@),
            ),
        ),
    )
}

pub open spec fn stamped(raw: Tree, at: u64) -> Tree {
    with_default(raw, "observedAtMs"@, Tree::Unsigned(at))
}

/// An event with the time it was seen and, at the end of a tool call whose start
/// was seen, how long the call took.
pub open spec fn observed_event(e: EventView, at: u64, started: Map<Seq<char>, u64>) -> EventView {
    let raw = stamped(e.raw, at);
    EventView {
        raw: match item_key(raw) {
            Some(key) => if e.event_type == ExternalCliProgressEventType::ToolFinished
                && started.contains_key(key) {
                with_default(raw, "durationMs"@, Tree::Unsigned(minus(at, started[key])))
            } else {
                raw
            },
            None => raw,
        },
        ..e
    }
}

/// The tool calls that are under way after an event.
pub open spec fn started_after(
    e: EventView,
    at: u64,
    started: Map<Seq<char>, u64>,
) -> Map<Seq<char>, u64> {
    match item_key(stamped(e.raw, at)) {
        Some(key) => if e.event_type == ExternalCliProgressEventType::ToolStarted {
            started.insert(key, at)
        } else if e.event_type == ExternalCliProgressEventType::ToolFinished {
            started.remove(key)
        } else {
            started
        },
        None => started,
    }
}

/// Notes when an event was seen and how long a finished tool call took.
pub fn enrich_progress_event_observation(
    event: &mut ExternalCliProgressEvent,
    observed_at: u64,
    tool_started_at: &mut TextMap<u64>,
)
    ensures
        final(event)@ == observed_event(old(event)@, observed_at, old(tool_started_at)@),
        final(tool_started_at)@ == started_after(old(event)@, observed_at, old(tool_started_at)@),
{
    put_default(&mut event.raw, "observedAtMs", Json::Unsigned(observed_at));
    let found = match get_in(&event.raw, "item", "id") {
        Some(v) => Some(v),
        None => get_or(&event.raw, "item_id", "id"),
    };
    let key = match found {
        Some(v) => clean_optional_string(v.as_str()),
        None => None,
    };
    match key {
        None => {},
        Some(id) => match event.event_type {
            ExternalCliProgressEventType::ToolStarted => {
                tool_started_at.insert(id.as_str(), observed_at);
            },
            ExternalCliProgressEventType::ToolFinished => {
                match tool_started_at.remove(id.as_str()) {
                    Some(started_at) => {
                        let duration: u64 = observed_at.saturating_sub(started_at);
                        put_default(&mut event.raw, "durationMs", Json::Unsigned(duration));
                    },
                    None => {},
                }
            },
            _ => {},
        },
    }
}

/// A tool call whose start was seen at `a` and whose end is seen at `b` took
/// `b - a`, unless the end says otherwise itself, and is no longer under way.
pub proof fn lemma_tool_duration(
    start: EventView,
    end: EventView,
    a: u64,
    b: u64,
    started: Map<Seq<char>, u64>,
)
    requires
        start.event_type == ExternalCliProgressEventType::ToolStarted,
        end.event_type == ExternalCliProgressEventType::ToolFinished,
        item_key(stamped(start.raw, a)) is Some,
        item_key(stamped(end.raw, b)) == item_key(stamped(start.raw, a)),
        end.raw is Object,
        member(stamped(end.raw, b), "durationMs"@) is None,
        a <= b,
    ensures
        ({
            let under_way = started_after(start, a, started);
            &&& member(observed_event(end, b, under_way).raw, "durationMs"@) == Some(
                Tree::Unsigned((b - a) as u64),
            )
            &&& !started_after(end, b, under_way).contains_key(
                item_key(stamped(end.raw, b))->Some_0,
            )
        }),
{
    let raw = stamped(end.raw, b);
    crate::json::lemma_with_default(raw, "durationMs"@, Tree::Unsigned((b - a) as u64), "id"@);
}

// ---------------------------------------------------------------------------
// Handing events on to the conversation
// ---------------------------------------------------------------------------

/// A tool call that is over.
#[derive(Debug, PartialEq, Eq)]
pub struct ToolCallLog {
    pub tool_name: String,
    pub arguments: String,
    pub result: String,
    pub success: bool,
}

/// What a conversation shows of the turn that is under way.
#[derive(Debug, PartialEq, Eq)]
pub struct ActiveTurnStatus {
    pub session_key: String,
    pub state: String,
    pub runner_type: Option<String>,
    pub runner_id: Option<String>,
    pub model: Option<String>,
    pub model_provider: Option<String>,
    pub model_reasoning_effort: Option<String>,
    pub model_reasoning_summary: Option<String>,
    pub work_dir: Option<String>,
}

/// What happens in a turn of a conversation.
#[derive(Debug, PartialEq, Eq)]
pub enum AgentTurnProgressEvent {
    Status(Box<ActiveTurnStatus>),
    AssistantDelta { content: String },
    AssistantFinal { content: String },
    PlanUpdated { steps: Vec<PlanStep>, title: Option<String> },
    ToolStarted { tool_name: String, arguments: String },
    ToolFinished { log: ToolCallLog, duration_ms: u64 },
    TurnFinished { content: String },
    TurnFailed { error: String },
}

/// What is known of the runner while its events come in.
#[derive(Debug, Clone, Copy, PartialEq, Eq)]
pub struct ExternalCliProgressStatusContext<'a> {
    runner_id: Option<&'a str>,
    model: Option<&'a str>,
    model_source: Option<&'a str>,
    reasoning_effort: Option<&'a str>,
    reasoning_summary: Option<&'a str>,
    work_dir: Option<&'a str>,
}

/// The mathematical view of what is known of a runner.
pub struct ContextView {
    pub runner_id: Option<Seq<char>>,
    pub model: Option<Seq<char>>,
    pub model_source: Option<Seq<char>>,
    pub reasoning_effort: Option<Seq<char>>,
    pub reasoning_summary: Option<Seq<char>>,
    pub work_dir: Option<Seq<char>>,
}

impl<'a> View for ExternalCliProgressStatusContext<'a> {
    type V = ContextView;

    closed spec fn view(&self) -> ContextView {
        ContextView {
            runner_id: crate::json::opt_str(self.runner_id),
            model: crate::json::opt_str(self.model),
            model_source: crate::json::opt_str(self.model_source),
            reasoning_effort: crate::json::opt_str(self.reasoning_effort),
            reasoning_summary: crate::json::opt_str(self.reasoning_summary),
            work_dir: crate::json::opt_str(self.work_dir),
        }
    }
}

impl<'a> ExternalCliProgressStatusContext<'a> {
    pub fn new(
        runner_id: Option<&'a str>,
        model: Option<&'a str>,
        model_source: Option<&'a str>,
        reasoning_effort: Option<&'a str>,
        reasoning_summary: Option<&'a str>,
        work_dir: Option<&'a str>,
    ) -> (r: Self)
        ensures
            r@ == (ContextView {
                runner_id: crate::json::opt_str(runner_id),
                model: crate::json::opt_str(model),
                model_source: crate::json::opt_str(model_source),
                reasoning_effort: crate::json::opt_str(reasoning_effort),
                reasoning_summary: crate::json::opt_str(reasoning_summary),
                work_dir: crate::json::opt_str(work_dir),
            }),
    {
        ExternalCliProgressStatusContext {
            runner_id,
            model,
            model_source,
            reasoning_effort,
            reasoning_summary,
            work_dir,
        }
    }
}

/// The mathematical view of what happens in a turn.
pub enum TurnView {
    Status {
        session_key: Seq<char>,
        state: Seq<char>,
        runner_type: Option<Seq<char>>,
        context: ContextView,
    },
    AssistantDelta { content: Seq<char> },
    AssistantFinal { content: Seq<char> },
    PlanUpdated { steps: Seq<StepView>, title: Option<Seq<char>> },
    ToolStarted { tool_name: Seq<char>, arguments: Seq<char> },
    ToolFinished {
        tool_name: Seq<char>,
        arguments: Seq<char>,
        result: Seq<char>,
        success: bool,
        duration_ms: u64,
    },
    TurnFinished { content: Seq<char> },
    TurnFailed { error: Seq<char> },
}

impl View for AgentTurnProgressEvent {
    type V = TurnView;

    open spec fn view(&self) -> TurnView {
        match self {
            AgentTurnProgressEvent::Status(s) => TurnView::Status {
                session_key: s.session_key@,
                state: s.state@,
                runner_type: opt(s.runner_type),
                context: ContextView {
                    runner_id: opt(s.runner_id),
                    model: opt(s.model),
                    model_source: opt(s.model_provider),
                    reasoning_effort: opt(s.model_reasoning_effort),
                    reasoning_summary: opt(s.model_reasoning_summary),
                    work_dir: opt(s.work_dir),
                },
            },
            AgentTurnProgressEvent::AssistantDelta { content } => TurnView::AssistantDelta {
                content: content@,
            },
            AgentTurnProgressEvent::AssistantFinal { content } => TurnView::AssistantFinal {
                content: content@,
            },
            AgentTurnProgressEvent::PlanUpdated { steps, title } => TurnView::PlanUpdated {
                steps: step_views(steps@),
                title: opt(*title),
            },
            AgentTurnProgressEvent::ToolStarted { tool_name, arguments } => TurnView::ToolStarted {
                tool_name: tool_name@,
                arguments: arguments@,
            },
            AgentTurnProgressEvent::ToolFinished { log, duration_ms } => TurnView::ToolFinished {
                tool_name: log.tool_name@,
                arguments: log.arguments@,
                result: log.result@,
                success: log.success,
                duration_ms: *duration_ms,
            },
            AgentTurnProgressEvent::TurnFinished { content } => TurnView::TurnFinished {
                content: content@,
            },
            AgentTurnProgressEvent::TurnFailed { error } => TurnView::TurnFailed { error: error@ },
        }
    }
}

/// The name of the tool that an event speaks of.
pub open spec fn event_tool_name(e: EventView, default: Seq<char>) -> Seq<char> {
    or_text(
        first_of(cleaned(e.title), cleaned(tree_text(member_or(e.raw, "tool_name"@, "name"@)))),
        default,
    )
}

/// The arguments of the tool call that an event speaks of.
pub open spec fn event_arguments(raw: Tree) -> Seq<char> {
    let arguments = member(raw, "arguments"@);
    let item = member(raw, "item"@);
    let plain = first_of(
        first_of(
            first_of(
                first_of(tree_text(member_of(arguments, "command"@)), tree_text(arguments)),
                tree_text(member(raw, "args"@)),
            ),
            tree_text(member_of(item, "command"@)),
        ),
        tree_text(member_of(item, "arguments"@)),
    );
    match plain {
        Some(text) => text,
        None => match arguments {
            Some(value) => if value is Null {
                Seq::empty()
            } else {
                text_of_json(value)
            },
            None => Seq::empty(),
        },
    }
}

/// What an event means for the turn of a conversation.
pub open spec fn turn_event(
    session_key: Seq<char>,
    adapter: Seq<char>,
    context: ContextView,
    e: EventView,
) -> Option<TurnView> {
    match e.event_type {
        ExternalCliProgressEventType::RunStarted | ExternalCliProgressEventType::Status => Some(
            TurnView::Status {
                session_key,
                state: or_text(cleaned(Some(e.content)), "running"@),
                runner_type: Some(adapter),
                context,
            },
        ),
        ExternalCliProgressEventType::AssistantDelta => Some(
            TurnView::AssistantDelta { content: e.content },
        ),
        ExternalCliProgressEventType::AssistantFinal => Some(
            TurnView::AssistantFinal { content: e.content },
        ),
        ExternalCliProgressEventType::PlanUpdated => if plan_steps(e.raw).len() == 0 {
            None
        } else {
            Some(TurnView::PlanUpdated { steps: plan_steps(e.raw), title: e.title })
        },
        ExternalCliProgressEventType::ToolStarted => Some(
            TurnView::ToolStarted {
                tool_name: event_tool_name(e, "runner"@),
                arguments: e.content,
            },
        ),
        ExternalCliProgressEventType::ToolFinished => Some(
            TurnView::ToolFinished {
                tool_name: event_tool_name(e, "runner"@),
                arguments: event_arguments(e.raw),
                result: e.content,
                success: tree_bool(member(e.raw, "success"@)) != Some(false),
                duration_ms: match tree_u64(member_or(e.raw, "durationMs"@, "duration_ms"@)) {
                    Some(n) => n,
                    None => 0,
                },
            },
        ),
        ExternalCliProgressEventType::RunFinished => Some(
            TurnView::TurnFinished { content: e.content },
        ),
        ExternalCliProgressEventType::RunFailed => Some(TurnView::TurnFailed { error: e.content }),
    }
}

fn owned_opt(v: Option<&str>) -> (r: Option<String>)
    ensures
        opt(r) == crate::json::opt_str(v),
{
    match v {
        Some(s) => Some(owned(s)),
        None => None,
    }
}

fn event_title_or_default(event: &ExternalCliProgressEvent, default: &str) -> (r: String)
    ensures
        r@ == event_tool_name(event@, default@),
{
    match clean_opt(&event.title) {
        Some(t) => t,
        None => {
            let named = match get_or(&event.raw, "tool_name", "name") {
                Some(v) => clean_optional_string(v.as_str()),
                None => None,
            };
            unwrap_text(named, default)
        },
    }
}

fn str_in<'a>(raw: &'a Json, outer: &str, inner: &str) -> (r: Option<&'a str>)
    ensures
        crate::json::opt_str(r) == tree_text(member_of(member(raw@, outer@), inner@)),
{
    match get_in(raw, outer, inner) {
        Some(v) => v.as_str(),
        None => None,
    }
}

fn str_at<'a>(raw: &'a Json, key: &str) -> (r: Option<&'a str>)
    ensures
        crate::json::opt_str(r) == tree_text(member(raw@, key@)),
{
    match raw.get(key) {
        Some(v) => v.as_str(),
        None => None,
    }
}

/// The arguments of the tool call that an event speaks of, as text.
pub fn external_progress_arguments_text(event: &ExternalCliProgressEvent) -> (r: String)
    ensures
        r@ == event_arguments(event.raw@),
{
    let raw = &event.raw;
    let plain = match str_in(raw, "arguments", "command") {
        Some(s) => Some(s),
        None => match str_at(raw, "arguments") {
            Some(s) => Some(s),
            None => match str_at(raw, "args") {
                Some(s) => Some(s),
                None => match str_in(raw, "item", "command") {
                    Some(s) => Some(s),
                    None => str_in(raw, "item", "arguments"),
                },
            },
        },
    };
    match plain {
        Some(s) => owned(s),
        None => match raw.get("arguments") {
            Some(value) => if value.is_null() {
                String::new()
            } else {
                json_to_text(value)
            },
            None => String::new(),
        },
    }
}

/// Says what an event means for the turn of a conversation.
pub fn external_progress_to_agent_turn_event(
    session_key: &str,
    adapter: &str,
    context: ExternalCliProgressStatusContext<'_>,
    event: &ExternalCliProgressEvent,
) -> (r: Option<AgentTurnProgressEvent>)
    ensures
        match r {
            Some(t) => turn_event(session_key@, adapter@, context@, event@) == Some(t@),
            None => turn_event(session_key@, adapter@, context@, event@) is None,
        },
{
    match event.event_type {
        ExternalCliProgressEventType::RunStarted | ExternalCliProgressEventType::Status => {
            let state = unwrap_text(
                clean_optional_string(Some(event.content.as_str())),
                "running",
            );
            let status = ActiveTurnStatus {
                session_key: owned(session_key),
                state,
                runner_type: Some(owned(adapter)),
                runner_id: owned_opt(context.runner_id),
                model: owned_opt(context.model),
                model_provider: owned_opt(context.model_source),
                model_reasoning_effort: owned_opt(context.reasoning_effort),
                model_reasoning_summary: owned_opt(context.reasoning_summary),
                work_dir: owned_opt(context.work_dir),
            };
            Some(AgentTurnProgressEvent::Status(Box::new(status)))
        },
        ExternalCliProgressEventType::AssistantDelta => Some(
            AgentTurnProgressEvent::AssistantDelta { content: event.content.clone() },
        ),
        ExternalCliProgressEventType::AssistantFinal => Some(
            AgentTurnProgressEvent::AssistantFinal { content: event.content.clone() },
        ),
        ExternalCliProgressEventType::PlanUpdated => {
            let steps = external_progress_plan_steps(event);
            proof {
                assert(step_views(steps@).len() == steps@.len());
            }
            if steps.len() == 0 {
                None
            } else {
                Some(
                    AgentTurnProgressEvent::PlanUpdated { steps, title: copy_opt(&event.title) },
                )
            }
        },
        ExternalCliProgressEventType::ToolStarted => Some(
            AgentTurnProgressEvent::ToolStarted {
                tool_name: event_title_or_default(event, "runner"),
                arguments: event.content.clone(),
            },
        ),
        ExternalCliProgressEventType::ToolFinished => {
            let success = match event.raw.get("success") {
                Some(v) => match v.as_bool() {
                    Some(b) => b,
                    None => true,
                },
                None => true,
            };
            let duration_ms: u64 = match get_or(&event.raw, "durationMs", "duration_ms") {
                Some(v) => match v.as_u64() {
                    Some(n) => n,
                    None => 0,
                },
                None => 0,
            };
            let log = ToolCallLog {
                tool_name: event_title_or_default(event, "runner"),
                arguments: external_progress_arguments_text(event),
                result: event.content.clone(),
                success,
            };
            Some(AgentTurnProgressEvent::ToolFinished { log, duration_ms })
        },
        ExternalCliProgressEventType::RunFinished => Some(
            AgentTurnProgressEvent::TurnFinished { content: event.content.clone() },
        ),
        ExternalCliProgressEventType::RunFailed => Some(
            AgentTurnProgressEvent::TurnFailed { error: event.content.clone() },
        ),
    }
}

} // verus!
