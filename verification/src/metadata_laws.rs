//! What the records of a run are for: what can be read of it afterwards, and under
//! which names.

use vstd::prelude::*;

use crate::command_spec::CommandView;
use crate::json::{member, member_of, text_of_json, tree_text, Tree};
use crate::metadata::{
    answer_chars, estimated_tokens, event_thread, failed_tools, finished_tools, first_seen,
    first_thread, image_bytes, image_summaries, image_summary, last_usage, latest_plan, line_feeds,
    percent, plan_updates, reasoning_chars, steps_with_status, text_list, tool_call, tool_calls,
    tool_output_bytes, tool_succeeded, tool_time, usage_total, with_command_records,
    with_io_records, with_message_records, with_model_records, with_observations, with_plan_records,
    with_prompt_records, with_resume_records, with_run_records, with_runner_records,
    with_timing_records, with_tool_records, with_usage, ExternalCliObservabilityInput,
    ExternalCliObservabilityTimings, Records,
};
use crate::model_config::ResolvedView;
use crate::models::default_model_label;
use crate::progress::{event_views, EventView, ExternalCliProgressEventType};
use crate::request::{ExternalCliRunRequest, ExternalCliSavedImageAttachment};
use crate::text::{blank, byte_len, cut, decimal, has_text, lowered, opt, trimmed};

verus! {

broadcast use vstd::string::group_string_axioms;

/// Whether a member of an object is a text.
pub open spec fn says(t: Tree, key: Seq<char>, text: Seq<char>) -> bool {
    member(t, key) == Some(Tree::Text(text))
}

/// Whether a name begins with two letters.
pub open spec fn begins(key: Seq<char>, a: char, b: char) -> bool {
    key.len() >= 2 && key[0] == a && key[1] == b
}

// ---------------------------------------------------------------------------
// Threads and tokens
// ---------------------------------------------------------------------------

/// The thread of an event stands under four names, the first that is there counts.
pub proof fn lemma_threads_of_events(raw: Tree, t: Seq<char>)
    requires
        !blank(t),
    ensures
        says(raw, "thread_id"@, t) ==> event_thread(raw) == Some(trimmed(t)),
        member(raw, "thread_id"@) is None && says(raw, "threadId"@, t) ==> event_thread(raw) == Some(
            trimmed(t),
        ),
        member(raw, "thread_id"@) is None && member(raw, "threadId"@) is None && says(
            raw,
            "session_id"@,
            t,
        ) ==> event_thread(raw) == Some(trimmed(t)),
        member(raw, "thread_id"@) is None && member(raw, "threadId"@) is None && member(
            raw,
            "session_id"@,
        ) is None && says(raw, "sessionId"@, t) ==> event_thread(raw) == Some(trimmed(t)),
        member(raw, "thread_id"@) is None && member(raw, "threadId"@) is None && member(
            raw,
            "session_id"@,
        ) is None && member(raw, "sessionId"@) is None ==> event_thread(raw) is None,
{
}

/// The thread of a run is the first that an event names.
pub proof fn lemma_thread_of_a_run(events: Seq<EventView>, at: int)
    ensures
        0 <= at < events.len() && event_thread(events[at].raw) is Some && (forall|i: int|
            0 <= i < at ==> event_thread((#[trigger] events[i]).raw) is None) ==> first_thread(
            events,
        ) == event_thread(events[at].raw),
        (forall|i: int| 0 <= i < events.len() ==> event_thread((#[trigger] events[i]).raw) is None)
            ==> first_thread(events) is None,
    decreases events.len(),
{
    if events.len() > 0 {
        let tail = events.drop_first();
        lemma_thread_of_a_run(tail, at - 1);
        if 0 < at < events.len() && (forall|i: int|
            0 <= i < at ==> event_thread((#[trigger] events[i]).raw) is None) {
            assert(event_thread(events[0].raw) is None);
            assert(tail[at - 1] == events[at]);
            assert forall|i: int| 0 <= i < at - 1 implies event_thread((#[trigger] tail[i]).raw) is None by {
                assert(tail[i] == events[i + 1]);
            }
        }
        if forall|i: int| 0 <= i < events.len() ==> event_thread((#[trigger] events[i]).raw) is None {
            assert(event_thread(events[0].raw) is None);
            assert forall|i: int| 0 <= i < tail.len() implies event_thread((#[trigger] tail[i]).raw) is None by {
                assert(tail[i] == events[i + 1]);
            }
        }
    }
}

/// What a run used is what the last event that says it says.
pub proof fn lemma_last_usage_counts(events: Seq<EventView>, e: EventView, u: Tree)
    ensures
        member(e.raw, "usage"@) == Some(u) && u is Object ==> last_usage(events.push(e)) == Some(u),
        member(e.raw, "usage"@) is None && member(e.raw, "message"@) is None ==> last_usage(
            events.push(e),
        ) == last_usage(events),
        member(e.raw, "usage"@) is None && member_of(member(e.raw, "message"@), "usage"@) == Some(u)
            && u is Object ==> last_usage(events.push(e)) == Some(u),
{
    assert(events.push(e).drop_last() =~= events);
}

/// The tokens in all are what is said, else those that went in and those that came
/// out.
pub proof fn lemma_tokens_in_all(u: Tree, a: u64, b: u64)
    ensures
        member(u, "total_tokens"@) == Some(Tree::Unsigned(a)) ==> usage_total(u) == Some(a),
        member(u, "total_tokens"@) is None && member(u, "input_tokens"@) == Some(Tree::Unsigned(a))
            && member(u, "output_tokens"@) == Some(Tree::Unsigned(b)) && 0 < a + b <= u64::MAX
            ==> usage_total(u) == Some((a + b) as u64),
        member(u, "total_tokens"@) is None && member(u, "input_tokens"@) is None && member(
            u,
            "output_tokens"@,
        ) is None ==> usage_total(u) is None,
{
}

/// What is recorded of the tokens, each under its own name.
pub proof fn lemma_tokens_are_recorded(m: Records, events: Seq<EventView>, u: Tree, n: u64)
    requires
        last_usage(events) == Some(u),
    ensures
        ({
            let r = with_usage(m, events);
            &&& member(u, "input_tokens"@) == Some(Tree::Unsigned(n)) && !m.contains_key(
                "usageInputTokens"@,
            ) ==> r.contains_key("usageInputTokens"@) && r["usageInputTokens"@] == decimal(n as nat)
            &&& member(u, "cached_input_tokens"@) == Some(Tree::Unsigned(n)) && !m.contains_key(
                "usageCachedInputTokens"@,
            ) ==> r.contains_key("usageCachedInputTokens"@) && r["usageCachedInputTokens"@]
                == decimal(n as nat)
            &&& member(u, "output_tokens"@) == Some(Tree::Unsigned(n)) && !m.contains_key(
                "usageOutputTokens"@,
            ) ==> r.contains_key("usageOutputTokens"@) && r["usageOutputTokens"@] == decimal(
                n as nat,
            )
            &&& member(u, "reasoning_output_tokens"@) == Some(Tree::Unsigned(n)) && !m.contains_key(
                "usageReasoningOutputTokens"@,
            ) ==> r.contains_key("usageReasoningOutputTokens"@) && r["usageReasoningOutputTokens"@]
                == decimal(n as nat)
            &&& usage_total(u) == Some(n) && !m.contains_key("usageTotalTokens"@)
                ==> r.contains_key("usageTotalTokens"@) && r["usageTotalTokens"@] == decimal(
                n as nat,
            )
        }),
{
    reveal_strlit("usageInputTokens");
    reveal_strlit("usageCachedInputTokens");
    reveal_strlit("usageOutputTokens");
    reveal_strlit("usageReasoningOutputTokens");
    reveal_strlit("usageTotalTokens");
    assert("usageInputTokens"@.len() == 16 && "usageCachedInputTokens"@.len() == 22
        && "usageOutputTokens"@.len() == 17 && "usageReasoningOutputTokens"@.len() == 26
        && "usageTotalTokens"@.len() == 16);
    assert("usageInputTokens"@[5] == 'I' && "usageTotalTokens"@[5] == 'T');
}

/// Threads and tokens are recorded for the agents that are known, and for no other.
pub proof fn lemma_whose_threads_are_recorded(
    m: Records,
    adapter: Seq<char>,
    events: Seq<EventView>,
    t: Seq<char>,
)
    ensures
        adapter != "codex"@ && adapter != "traex"@ && adapter != "claude_code"@ ==> with_run_records(
            m,
            adapter,
            events,
        ) == m,
        (adapter == "codex"@ || adapter == "traex"@ || adapter == "claude_code"@) && first_thread(
            events,
        ) == Some(t) && !m.contains_key("threadId"@) ==> with_run_records(
            m,
            adapter,
            events,
        ).contains_key("threadId"@) && with_run_records(m, adapter, events)["threadId"@] == t,
{
    reveal_strlit("usageInputTokens");
    reveal_strlit("usageCachedInputTokens");
    reveal_strlit("usageOutputTokens");
    reveal_strlit("usageReasoningOutputTokens");
    reveal_strlit("usageTotalTokens");
    reveal_strlit("threadId");
    assert("threadId"@.len() == 8 && "usageInputTokens"@.len() == 16
        && "usageCachedInputTokens"@.len() == 22 && "usageOutputTokens"@.len() == 17
        && "usageReasoningOutputTokens"@.len() == 26 && "usageTotalTokens"@.len() == 16);
}

/// The model of a run is recorded with its source; a run without one records what
/// its agent is said to use.
pub proof fn lemma_models_are_recorded(m: Records, adapter: Seq<char>, r: ResolvedView)
    requires
        !m.contains_key("model"@),
        !m.contains_key("modelLabel"@),
        !m.contains_key("modelSource"@),
        !m.contains_key("modelProvider"@),
        !m.contains_key("modelReasoningEffort"@),
        !m.contains_key("modelReasoningSummary"@),
    ensures
        ({
            let n = with_model_records(m, adapter, r);
            &&& r.model matches Some(x) ==> n["model"@] == x && n["modelLabel"@] == x
            &&& r.model is Some ==> (r.model_source matches Some(x) ==> n["modelSource"@] == x)
            &&& r.model is Some ==> (r.model_provider matches Some(x) ==> n["modelProvider"@] == x)
            &&& r.model is Some && r.model_source is None ==> n["modelSource"@] == "runner config"@
            &&& r.model is None ==> !n.contains_key("model"@) && (default_model_label(
                adapter,
            ) matches Some(d) ==> n["modelLabel"@] == d.0 && n["modelSource"@] == d.1)
            &&& r.reasoning_effort matches Some(x) ==> n["modelReasoningEffort"@] == x
            &&& r.reasoning_summary matches Some(x) ==> n["modelReasoningSummary"@] == x
            &&& r.reasoning_effort is None ==> !n.contains_key("modelReasoningEffort"@)
        }),
{
    reveal_strlit("model");
    reveal_strlit("modelLabel");
    reveal_strlit("modelSource");
    reveal_strlit("modelProvider");
    reveal_strlit("modelReasoningEffort");
    reveal_strlit("modelReasoningSummary");
    assert("model"@.len() == 5 && "modelLabel"@.len() == 10 && "modelSource"@.len() == 11
        && "modelProvider"@.len() == 13 && "modelReasoningEffort"@.len() == 20
        && "modelReasoningSummary"@.len() == 21);
}

// ---------------------------------------------------------------------------
// Tools
// ---------------------------------------------------------------------------

/// Tools are counted where they finished, in their order.
pub proof fn lemma_tools_in_order(events: Seq<EventView>, e: EventView)
    ensures
        finished_tools(Seq::<EventView>::empty()).len() == 0,
        e.event_type == ExternalCliProgressEventType::ToolFinished ==> finished_tools(
            events.push(e),
        ) == finished_tools(events).push(e),
        e.event_type != ExternalCliProgressEventType::ToolFinished ==> finished_tools(
            events.push(e),
        ) == finished_tools(events),
{
    assert(events.push(e).drop_last() =~= events);
}

/// What the tools add up to: those that failed, the time they took and what they
/// wrote.
pub proof fn lemma_tools_add_up(tools: Seq<EventView>, e: EventView, ms: u64)
    ensures
        failed_tools(tools.push(e)) == failed_tools(tools) + (if tool_succeeded(e) {
            0nat
        } else {
            1
        }),
        member(e.raw, "durationMs"@) == Some(Tree::Unsigned(ms)) ==> tool_time(tools.push(e))
            == tool_time(tools) + ms,
        member(e.raw, "durationMs"@) is None ==> tool_time(tools.push(e)) == tool_time(tools),
        tool_output_bytes(tools.push(e)) == tool_output_bytes(tools) + byte_len(e.content),
        tool_calls(tools.push(e)) == tool_calls(tools).push(tool_call(e)),
        failed_tools(Seq::<EventView>::empty()) == 0,
        tool_time(Seq::<EventView>::empty()) == 0,
        tool_output_bytes(Seq::<EventView>::empty()) == 0,
{
    assert(tools.push(e).drop_last() =~= tools);
    assert(tool_calls(tools.push(e)) =~= tool_calls(tools).push(tool_call(e)));
}

/// A tool succeeded where it says so; by its status where it has one; and else where
/// what it wrote does not speak of a failure.
pub proof fn lemma_tools_that_succeeded(e: EventView, b: bool, s: Seq<char>)
    ensures
        member(e.raw, "success"@) == Some(Tree::Bool(b)) ==> tool_succeeded(e) == b,
        member(e.raw, "success"@) is None && member_of(member(e.raw, "item"@), "status"@) == Some(
            Tree::Text(s),
        ) ==> (tool_succeeded(e) <==> s == "completed"@ || s == "success"@ || s == "succeeded"@),
        member(e.raw, "success"@) is None && member_of(member(e.raw, "item"@), "status"@) is None
            && says(e.raw, "status"@, s) ==> (tool_succeeded(e) <==> s == "completed"@ || s
            == "success"@ || s == "succeeded"@),
        member(e.raw, "success"@) is None && member_of(member(e.raw, "item"@), "status"@) is None
            && member(e.raw, "status"@) is None ==> (tool_succeeded(e) <==> !has_text(
            lowered(e.content),
            "failed"@,
        )),
{
}

/// What is recorded of one tool.
pub proof fn lemma_records_of_a_tool(e: EventView, t: Seq<char>, n: u64)
    ensures
        member(tool_call(e), "success"@) == Some(Tree::Bool(tool_succeeded(e))),
        member(tool_call(e), "outputBytes"@) == Some(Tree::Unsigned(byte_len(e.content) as u64)),
        member_of(member(e.raw, "item"@), "id"@) == Some(Tree::Text(t)) ==> says(
            tool_call(e),
            "id"@,
            t,
        ),
        member_of(member(e.raw, "item"@), "name"@) == Some(Tree::Text(t)) ==> says(
            tool_call(e),
            "name"@,
            t,
        ),
        member_of(member(e.raw, "item"@), "command"@) == Some(Tree::Text(t)) ==> says(
            tool_call(e),
            "command"@,
            t,
        ),
        member_of(member(e.raw, "item"@), "exit_code"@) == Some(Tree::Unsigned(n)) && n <= i64::MAX
            ==> member(tool_call(e), "exitCode"@) == Some(Tree::Unsigned(n)),
        member(e.raw, "durationMs"@) == Some(Tree::Unsigned(n)) ==> member(
            tool_call(e),
            "durationMs"@,
        ) == Some(Tree::Unsigned(n)),
{
    reveal_strlit("id");
    reveal_strlit("name");
    reveal_strlit("command");
    reveal_strlit("exitCode");
    reveal_strlit("success");
    reveal_strlit("durationMs");
    reveal_strlit("outputBytes");
    assert("id"@.len() == 2 && "name"@.len() == 4 && "command"@.len() == 7 && "exitCode"@.len() == 8
        && "success"@.len() == 7 && "durationMs"@.len() == 10 && "outputBytes"@.len() == 11);
    assert("command"@[0] == 'c' && "success"@[0] == 's');
    reveal_with_fuel(crate::json::find_member, 8);
}

/// What is recorded of the tools of a run.
pub proof fn lemma_records_of_tools(m: Records, events: Seq<EventView>)
    ensures
        ({
            let r = with_tool_records(m, events);
            let tools = finished_tools(events);
            &&& r["tools.count"@] == decimal(tools.len())
            &&& r["tools.failedCount"@] == decimal(failed_tools(tools))
            &&& r["tools.totalDurationMs"@] == decimal(tool_time(tools))
            &&& r["tools.outputBytes"@] == decimal(tool_output_bytes(tools))
            &&& r["tools.calls"@] == cut(text_of_json(Tree::List(tool_calls(tools))), 4000)
        }),
{
    reveal_strlit("tools.count");
    reveal_strlit("tools.failedCount");
    reveal_strlit("tools.totalDurationMs");
    reveal_strlit("tools.outputBytes");
    reveal_strlit("tools.calls");
    assert("tools.count"@.len() == 11 && "tools.failedCount"@.len() == 17
        && "tools.totalDurationMs"@.len() == 21 && "tools.outputBytes"@.len() == 17
        && "tools.calls"@.len() == 11);
    assert("tools.count"@[7] == 'o' && "tools.calls"@[7] == 'a');
    assert("tools.failedCount"@[6] == 'f' && "tools.outputBytes"@[6] == 'o');
}

// ---------------------------------------------------------------------------
// Plans and words
// ---------------------------------------------------------------------------

/// The plan of a run is that of its last update, and every update counts.
pub proof fn lemma_latest_plan_counts(events: Seq<EventView>, e: EventView, plan: Seq<Tree>)
    ensures
        plan_updates(Seq::<EventView>::empty()) == 0,
        e.event_type != ExternalCliProgressEventType::PlanUpdated ==> latest_plan(events.push(e))
            == latest_plan(events) && plan_updates(events.push(e)) == plan_updates(events),
        e.event_type == ExternalCliProgressEventType::PlanUpdated ==> plan_updates(events.push(e))
            == plan_updates(events) + 1,
        e.event_type == ExternalCliProgressEventType::PlanUpdated && member(e.raw, "plan"@) == Some(
            Tree::List(plan),
        ) ==> latest_plan(events.push(e)) == Some(plan),
        e.event_type == ExternalCliProgressEventType::PlanUpdated && member(e.raw, "plan"@) is None
            && member(e.raw, "todos"@) == Some(Tree::List(plan)) ==> latest_plan(events.push(e))
            == Some(plan),
{
    assert(events.push(e).drop_last() =~= events);
}

/// Steps are counted by their status.
pub proof fn lemma_steps_are_counted(plan: Seq<Tree>, step: Tree, status: Seq<char>)
    ensures
        steps_with_status(Seq::<Tree>::empty(), status) == 0,
        says(step, "status"@, status) ==> steps_with_status(plan.push(step), status)
            == steps_with_status(plan, status) + 1,
        !says(step, "status"@, status) ==> steps_with_status(plan.push(step), status)
            == steps_with_status(plan, status),
{
    assert(plan.push(step).drop_last() =~= plan);
}

/// A share is written in whole hundredths.
pub proof fn lemma_shares(done: nat, total: nat)
    requires
        done <= total,
        total * 100 <= u64::MAX,
    ensures
        total == 0 ==> percent(done, total) == 0,
        total > 0 ==> percent(done, total) == (done * 100) / total,
        total > 0 ==> percent(total, total) == 100,
{
    assert(done * 100 <= total * 100);
    if total > 0 {
        assert((total * 100) / total == 100) by (nonlinear_arith)
            requires
                total > 0,
        ;
    }
}

/// What is recorded of the plan of a run.
pub proof fn lemma_records_of_plans(m: Records, events: Seq<EventView>, plan: Seq<Tree>)
    ensures
        with_plan_records(m, events)["plan.updates"@] == decimal(plan_updates(events)),
        latest_plan(events) == Some(plan) ==> {
            let r = with_plan_records(m, events);
            let done = steps_with_status(plan, "completed"@);
            let under_way = steps_with_status(plan, "in_progress"@);
            &&& r["plan.total"@] == decimal(plan.len())
            &&& r["plan.completed"@] == decimal(done)
            &&& r["plan.inProgress"@] == decimal(under_way)
            &&& r["plan.pending"@] == decimal((plan.len() - done - under_way) as nat)
            &&& r["plan.completionPercent"@] == decimal(percent(done, plan.len()))
        },
{
    reveal_strlit("plan.updates");
    reveal_strlit("plan.total");
    reveal_strlit("plan.completed");
    reveal_strlit("plan.inProgress");
    reveal_strlit("plan.pending");
    reveal_strlit("plan.completionPercent");
    assert("plan.updates"@.len() == 12 && "plan.total"@.len() == 10 && "plan.completed"@.len() == 14
        && "plan.inProgress"@.len() == 15 && "plan.pending"@.len() == 12
        && "plan.completionPercent"@.len() == 22);
    assert("plan.updates"@[5] == 'u' && "plan.pending"@[5] == 'p');
    if latest_plan(events) == Some(plan) {
        crate::metadata::lemma_plan_adds_up(plan);
    }
}

/// Characters are counted of answers, and of what is reasoning by its title or its
/// type.
pub proof fn lemma_characters_are_counted(events: Seq<EventView>, e: EventView)
    ensures
        answer_chars(Seq::<EventView>::empty()) == 0,
        reasoning_chars(Seq::<EventView>::empty()) == 0,
        e.event_type == ExternalCliProgressEventType::AssistantDelta || e.event_type
            == ExternalCliProgressEventType::AssistantFinal ==> answer_chars(events.push(e))
            == answer_chars(events) + e.content.len(),
        e.event_type != ExternalCliProgressEventType::AssistantDelta && e.event_type
            != ExternalCliProgressEventType::AssistantFinal ==> answer_chars(events.push(e))
            == answer_chars(events),
        e.title matches Some(t) ==> (has_text(lowered(t), "reasoning"@) ==> reasoning_chars(
            events.push(e),
        ) == reasoning_chars(events) + e.content.len()),
        e.title is None && (forall|t: Seq<char>|
            #[trigger] says(e.raw, "type"@, t) ==> !has_text(t, "reasoning"@)) ==> reasoning_chars(
            events.push(e),
        ) == reasoning_chars(events),
        e.title is None ==> (tree_text(member(e.raw, "type"@)) matches Some(t) ==> (has_text(
            t,
            "reasoning"@,
        ) ==> reasoning_chars(events.push(e)) == reasoning_chars(events) + e.content.len())),
{
    assert(events.push(e).drop_last() =~= events);
    if e.title is None && tree_text(member(e.raw, "type"@)) is Some {
        assert(says(e.raw, "type"@, tree_text(member(e.raw, "type"@))->Some_0));
    }
}

/// What is recorded of the words of a run.
pub proof fn lemma_records_of_words(m: Records, events: Seq<EventView>)
    ensures
        with_message_records(m, events)["messages.assistantChars"@] == decimal(answer_chars(events)),
        with_message_records(m, events)["messages.reasoningChars"@] == decimal(
            reasoning_chars(events),
        ),
{
    reveal_strlit("messages.assistantChars");
    reveal_strlit("messages.reasoningChars");
    assert("messages.assistantChars"@[9] == 'a' && "messages.reasoningChars"@[9] == 'r');
}

// ---------------------------------------------------------------------------
// Sizes and times
// ---------------------------------------------------------------------------

/// Lines are counted by their ends, and four characters are taken for a token, a
/// part of one for a whole.
pub proof fn lemma_sizes(bytes: Seq<u8>, b: u8, n: nat, image: ExternalCliSavedImageAttachment, images:
    Seq<ExternalCliSavedImageAttachment>)
    ensures
        line_feeds(Seq::<u8>::empty()) == 0,
        line_feeds(bytes.push(10)) == line_feeds(bytes) + 1,
        b != 10 ==> line_feeds(bytes.push(b)) == line_feeds(bytes),
        estimated_tokens(0) == 0,
        estimated_tokens(4 * n) == n,
        estimated_tokens(4 * n + 1) == n + 1,
        image_bytes(Seq::<ExternalCliSavedImageAttachment>::empty()) == 0,
        image_bytes(images.push(image)) == image_bytes(images) + image.size_bytes,
{
    assert(bytes.push(10).drop_last() =~= bytes);
    assert(bytes.push(b).drop_last() =~= bytes);
    assert(images.push(image).drop_last() =~= images);
}

/// The first event is the one that was seen first, whatever its place.
pub proof fn lemma_first_event(events: Seq<EventView>, e: EventView, t: u64)
    ensures
        first_seen(Seq::<EventView>::empty()) is None,
        member(e.raw, "observedAtMs"@) is None ==> first_seen(events.push(e)) == first_seen(events),
        member(e.raw, "observedAtMs"@) == Some(Tree::Unsigned(t)) && first_seen(events) is None
            ==> first_seen(events.push(e)) == Some(t),
        member(e.raw, "observedAtMs"@) == Some(Tree::Unsigned(t)) ==> (first_seen(events) matches Some(
            s,
        ) ==> first_seen(events.push(e)) == Some(if t < s {
            t
        } else {
            s
        })),
{
    assert(events.push(e).drop_last() =~= events);
}

/// How long a run took, how long it was until its command began, how long the command
/// ran and how long it was until the first event.
pub proof fn lemma_records_of_times(
    m: Records,
    t: ExternalCliObservabilityTimings,
    events: Seq<EventView>,
    a: u64,
    b: u64,
    s: u64,
)
    requires
        t.started_at <= a <= b <= t.finished_at,
        t.started_at <= s,
        t.command_started_at == Some(a),
        t.command_finished_at == Some(b),
        first_seen(events) == Some(s),
    ensures
        ({
            let r = with_timing_records(m, t, events);
            &&& r["timing.commandStartLatencyMs"@] == decimal((a - t.started_at) as nat)
            &&& r["timing.commandDurationMs"@] == decimal((b - a) as nat)
            &&& r["timing.firstEventLatencyMs"@] == decimal((s - t.started_at) as nat)
            &&& r["timing.totalDurationMs"@] == decimal((t.finished_at - t.started_at) as nat)
        }),
{
    reveal_strlit("timing.commandStartLatencyMs");
    reveal_strlit("timing.commandDurationMs");
    reveal_strlit("timing.firstEventLatencyMs");
    reveal_strlit("timing.totalDurationMs");
    assert("timing.commandStartLatencyMs"@.len() == 28 && "timing.commandDurationMs"@.len() == 24
        && "timing.firstEventLatencyMs"@.len() == 26 && "timing.totalDurationMs"@.len() == 22);
}

/// What is recorded of the output of a run.
pub proof fn lemma_records_of_output(m: Records, stdout: Seq<u8>, stderr: Seq<u8>)
    ensures
        ({
            let r = with_io_records(m, stdout, stderr);
            &&& r["io.stdoutBytes"@] == decimal(stdout.len())
            &&& r["io.stderrBytes"@] == decimal(stderr.len())
            &&& r["io.stdoutLines"@] == decimal(line_feeds(stdout))
            &&& r["io.stderrLines"@] == decimal(line_feeds(stderr))
            &&& r["io.stdoutTruncated"@] == "false"@
            &&& r["io.stderrTruncated"@] == "false"@
        }),
{
    reveal_strlit("io.stdoutBytes");
    reveal_strlit("io.stderrBytes");
    reveal_strlit("io.stdoutLines");
    reveal_strlit("io.stderrLines");
    reveal_strlit("io.stdoutTruncated");
    reveal_strlit("io.stderrTruncated");
    assert("io.stdoutBytes"@[6] == 'o' && "io.stderrBytes"@[6] == 'e' && "io.stdoutLines"@[6] == 'o'
        && "io.stderrLines"@[6] == 'e' && "io.stdoutTruncated"@[6] == 'o'
        && "io.stderrTruncated"@[6] == 'e');
    assert("io.stdoutBytes"@[9] == 'B' && "io.stderrBytes"@[9] == 'B' && "io.stdoutLines"@[9] == 'L'
        && "io.stderrLines"@[9] == 'L' && "io.stdoutTruncated"@[9] == 'T'
        && "io.stderrTruncated"@[9] == 'T');
}

/// What is recorded of the prompt of a run.
pub proof fn lemma_records_of_prompts(
    m: Records,
    prompt: Seq<char>,
    images: Seq<ExternalCliSavedImageAttachment>,
)
    ensures
        ({
            let r = with_prompt_records(m, prompt, images);
            &&& r["prompt.bytes"@] == decimal(byte_len(prompt) as nat)
            &&& r["prompt.chars"@] == decimal(prompt.len())
            &&& r["prompt.estimatedTokens"@] == decimal(estimated_tokens(prompt.len()))
            &&& r["prompt.attachmentPathCount"@] == decimal(images.len())
            &&& r["attachments.count"@] == decimal(images.len())
            &&& r["attachments.totalBytes"@] == decimal(image_bytes(images))
            &&& r["attachments.summary"@] == cut(text_of_json(image_summaries(images)), 4000)
        }),
{
    reveal_strlit("prompt.bytes");
    reveal_strlit("prompt.chars");
    reveal_strlit("prompt.estimatedTokens");
    reveal_strlit("prompt.attachmentPathCount");
    reveal_strlit("attachments.count");
    reveal_strlit("attachments.totalBytes");
    reveal_strlit("attachments.summary");
    assert("prompt.bytes"@.len() == 12 && "prompt.chars"@.len() == 12 && "prompt.estimatedTokens"@.len()
        == 22 && "prompt.attachmentPathCount"@.len() == 26 && "attachments.count"@.len() == 17
        && "attachments.totalBytes"@.len() == 22 && "attachments.summary"@.len() == 19);
    assert("prompt.bytes"@[7] == 'b' && "prompt.chars"@[7] == 'c');
    assert("prompt.estimatedTokens"@[0] == 'p' && "attachments.totalBytes"@[0] == 'a');
}

/// What is recorded of the command of a run; a setting without words is left out and
/// a long one is cut.
pub proof fn lemma_records_of_commands(m: Records, spec: CommandView, version: Option<Seq<char>>)
    ensures
        ({
            let r = with_command_records(m, spec, version);
            &&& !blank(spec.executable) ==> r["cli.executable"@] == cut(spec.executable, 2000)
            &&& r["cli.args"@] == cut(text_of_json(text_list(spec.args)), 4000)
            &&& spec.work_dir matches Some(d) ==> (!blank(d) ==> r["cli.workDir"@] == cut(d, 2000))
            &&& spec.timeout_secs matches Some(n) ==> r["cli.timeoutSecs"@] == decimal(n as nat)
            &&& version matches Some(v) ==> (!blank(v) ==> r["cli.version"@] == cut(v, 2000))
        }),
{
    reveal_strlit("cli.executable");
    reveal_strlit("cli.args");
    reveal_strlit("cli.workDir");
    reveal_strlit("cli.timeoutSecs");
    reveal_strlit("cli.version");
    assert("cli.executable"@.len() == 14 && "cli.args"@.len() == 8 && "cli.workDir"@.len() == 11
        && "cli.timeoutSecs"@.len() == 15 && "cli.version"@.len() == 11);
    assert("cli.workDir"@[4] == 'w' && "cli.version"@[4] == 'v');
}

/// Whether a run goes on with a thread, and with which.
pub proof fn lemma_records_of_threads(m: Records, params: Tree, t: Seq<char>)
    ensures
        says(params, "threadId"@, t) && !blank(t) ==> with_resume_records(
            m,
            params,
        )["resume.requested"@] == "true"@ && with_resume_records(
            m,
            params,
        )["resume.requestedThreadId"@] == cut(t, 2000),
        member(params, "threadId"@) is None ==> with_resume_records(m, params)["resume.requested"@]
            == "false"@,
{
    reveal_strlit("resume.requested");
    reveal_strlit("resume.requestedThreadId");
    assert("resume.requested"@.len() == 16 && "resume.requestedThreadId"@.len() == 24);
}

/// What is recorded of the runner of a run.
pub proof fn lemma_records_of_runners(m: Records, request: ExternalCliRunRequest)
    ensures
        ({
            let r = with_runner_records(m, request);
            let c = request.adapter_config@;
            &&& !blank(request.adapter@) ==> r["runner.adapter"@] == cut(request.adapter@, 2000)
            &&& opt(request.runner_id) matches Some(i) ==> (!blank(i) ==> r["runner.id"@] == cut(
                i,
                2000,
            ))
            &&& request.inject_bifrost_tools ==> r["runner.injectBifrostTools"@] == "true"@
            &&& !request.inject_bifrost_tools ==> r["runner.injectBifrostTools"@] == "false"@
            &&& r["config.addDirs"@] == cut(text_of_json(text_list(c.add_dirs)), 4000)
            &&& r["config.enableFeatures"@] == cut(text_of_json(text_list(c.enable_features)), 4000)
            &&& r["config.disableFeatures"@] == cut(
                text_of_json(text_list(c.disable_features)),
                4000,
            )
            &&& c.sandbox matches Some(t) ==> (!blank(t) ==> r["config.sandbox"@] == cut(t, 2000))
            &&& c.approval_policy matches Some(t) ==> (!blank(t) ==> r["config.approvalPolicy"@]
                == cut(t, 2000))
            &&& c.permission_mode matches Some(t) ==> (!blank(t) ==> r["config.permissionMode"@]
                == cut(t, 2000))
            &&& c.danger_full_access == Some(true) ==> r["config.dangerFullAccess"@] == "true"@
            &&& c.danger_full_access == Some(false) ==> r["config.dangerFullAccess"@] == "false"@
            &&& c.search == Some(true) ==> r["config.search"@] == "true"@
            &&& c.ephemeral == Some(true) ==> r["config.ephemeral"@] == "true"@
        }),
{
    reveal_strlit("runner.adapter");
    reveal_strlit("runner.id");
    reveal_strlit("runner.injectBifrostTools");
    reveal_strlit("config.addDirs");
    reveal_strlit("config.enableFeatures");
    reveal_strlit("config.disableFeatures");
    reveal_strlit("config.approvalPolicy");
    reveal_strlit("config.sandbox");
    reveal_strlit("config.permissionMode");
    reveal_strlit("config.dangerFullAccess");
    reveal_strlit("config.search");
    reveal_strlit("config.ephemeral");
    assert("runner.adapter"@.len() == 14 && "runner.id"@.len() == 9
        && "runner.injectBifrostTools"@.len() == 25 && "config.addDirs"@.len() == 14
        && "config.enableFeatures"@.len() == 21 && "config.disableFeatures"@.len() == 22
        && "config.approvalPolicy"@.len() == 21 && "config.sandbox"@.len() == 14
        && "config.permissionMode"@.len() == 21 && "config.dangerFullAccess"@.len() == 23
        && "config.search"@.len() == 13 && "config.ephemeral"@.len() == 16);
    assert("runner.adapter"@[0] == 'r' && "config.addDirs"@[7] == 'a' && "config.sandbox"@[7] == 's'
        && "config.addDirs"@[0] == 'c' && "config.sandbox"@[0] == 'c');
    assert("config.enableFeatures"@[7] == 'e' && "config.approvalPolicy"@[7] == 'a'
        && "config.permissionMode"@[7] == 'p');
}

// ---------------------------------------------------------------------------
// All of it
// ---------------------------------------------------------------------------

proof fn lemma_command_records_alone(m: Records, spec: CommandView, version: Option<Seq<char>>, key: Seq<char>)
    requires
        !begins(key, 'c', 'l'),
    ensures
        with_command_records(m, spec, version).contains_key(key) == m.contains_key(key),
        m.contains_key(key) ==> with_command_records(m, spec, version)[key] == m[key],
{
    reveal_strlit("cli.executable");
    reveal_strlit("cli.args");
    reveal_strlit("cli.workDir");
    reveal_strlit("cli.timeoutSecs");
    reveal_strlit("cli.version");
    assert("cli.executable"@[0] == 'c' && "cli.executable"@[1] == 'l');
    assert("cli.args"@[0] == 'c' && "cli.args"@[1] == 'l');
    assert("cli.workDir"@[0] == 'c' && "cli.workDir"@[1] == 'l');
    assert("cli.timeoutSecs"@[0] == 'c' && "cli.timeoutSecs"@[1] == 'l');
    assert("cli.version"@[0] == 'c' && "cli.version"@[1] == 'l');
}

proof fn lemma_runner_records_alone(m: Records, request: ExternalCliRunRequest, key: Seq<char>)
    requires
        !begins(key, 'r', 'u') && !begins(key, 'c', 'o'),
    ensures
        with_runner_records(m, request).contains_key(key) == m.contains_key(key),
        m.contains_key(key) ==> with_runner_records(m, request)[key] == m[key],
{
    reveal_strlit("runner.adapter");
    reveal_strlit("runner.id");
    reveal_strlit("runner.injectBifrostTools");
    reveal_strlit("config.addDirs");
    reveal_strlit("config.enableFeatures");
    reveal_strlit("config.disableFeatures");
    reveal_strlit("config.approvalPolicy");
    reveal_strlit("config.sandbox");
    reveal_strlit("config.permissionMode");
    reveal_strlit("config.dangerFullAccess");
    reveal_strlit("config.search");
    reveal_strlit("config.ephemeral");
    assert("runner.adapter"@[0] == 'r' && "runner.adapter"@[1] == 'u');
    assert("runner.id"@[0] == 'r' && "runner.id"@[1] == 'u');
    assert("runner.injectBifrostTools"@[0] == 'r' && "runner.injectBifrostTools"@[1] == 'u');
    assert("config.addDirs"@[0] == 'c' && "config.addDirs"@[1] == 'o');
    assert("config.enableFeatures"@[0] == 'c' && "config.enableFeatures"@[1] == 'o');
    assert("config.disableFeatures"@[0] == 'c' && "config.disableFeatures"@[1] == 'o');
    assert("config.approvalPolicy"@[0] == 'c' && "config.approvalPolicy"@[1] == 'o');
    assert("config.sandbox"@[0] == 'c' && "config.sandbox"@[1] == 'o');
    assert("config.permissionMode"@[0] == 'c' && "config.permissionMode"@[1] == 'o');
    assert("config.dangerFullAccess"@[0] == 'c' && "config.dangerFullAccess"@[1] == 'o');
    assert("config.search"@[0] == 'c' && "config.search"@[1] == 'o');
    assert("config.ephemeral"@[0] == 'c' && "config.ephemeral"@[1] == 'o');
}

proof fn lemma_prompt_records_alone(m: Records, prompt: Seq<char>, images: Seq<ExternalCliSavedImageAttachment>, key: Seq<char>)
    requires
        !begins(key, 'p', 'r') && !begins(key, 'a', 't'),
    ensures
        with_prompt_records(m, prompt, images).contains_key(key) == m.contains_key(key),
        m.contains_key(key) ==> with_prompt_records(m, prompt, images)[key] == m[key],
{
    reveal_strlit("prompt.bytes");
    reveal_strlit("prompt.chars");
    reveal_strlit("prompt.estimatedTokens");
    reveal_strlit("prompt.attachmentPathCount");
    reveal_strlit("attachments.count");
    reveal_strlit("attachments.totalBytes");
    reveal_strlit("attachments.summary");
    assert("prompt.bytes"@[0] == 'p' && "prompt.bytes"@[1] == 'r');
    assert("prompt.chars"@[0] == 'p' && "prompt.chars"@[1] == 'r');
    assert("prompt.estimatedTokens"@[0] == 'p' && "prompt.estimatedTokens"@[1] == 'r');
    assert("prompt.attachmentPathCount"@[0] == 'p' && "prompt.attachmentPathCount"@[1] == 'r');
    assert("attachments.count"@[0] == 'a' && "attachments.count"@[1] == 't');
    assert("attachments.totalBytes"@[0] == 'a' && "attachments.totalBytes"@[1] == 't');
    assert("attachments.summary"@[0] == 'a' && "attachments.summary"@[1] == 't');
}

proof fn lemma_io_records_alone(m: Records, stdout: Seq<u8>, stderr: Seq<u8>, key: Seq<char>)
    requires
        !begins(key, 'i', 'o'),
    ensures
        with_io_records(m, stdout, stderr).contains_key(key) == m.contains_key(key),
        m.contains_key(key) ==> with_io_records(m, stdout, stderr)[key] == m[key],
{
    reveal_strlit("io.stdoutBytes");
    reveal_strlit("io.stderrBytes");
    reveal_strlit("io.stdoutLines");
    reveal_strlit("io.stderrLines");
    reveal_strlit("io.stdoutTruncated");
    reveal_strlit("io.stderrTruncated");
    assert("io.stdoutBytes"@[0] == 'i' && "io.stdoutBytes"@[1] == 'o');
    assert("io.stderrBytes"@[0] == 'i' && "io.stderrBytes"@[1] == 'o');
    assert("io.stdoutLines"@[0] == 'i' && "io.stdoutLines"@[1] == 'o');
    assert("io.stderrLines"@[0] == 'i' && "io.stderrLines"@[1] == 'o');
    assert("io.stdoutTruncated"@[0] == 'i' && "io.stdoutTruncated"@[1] == 'o');
    assert("io.stderrTruncated"@[0] == 'i' && "io.stderrTruncated"@[1] == 'o');
}

proof fn lemma_timing_records_alone(m: Records, t: ExternalCliObservabilityTimings, events: Seq<EventView>, key: Seq<char>)
    requires
        !begins(key, 't', 'i'),
    ensures
        with_timing_records(m, t, events).contains_key(key) == m.contains_key(key),
        m.contains_key(key) ==> with_timing_records(m, t, events)[key] == m[key],
{
    reveal_strlit("timing.commandStartLatencyMs");
    reveal_strlit("timing.commandDurationMs");
    reveal_strlit("timing.firstEventLatencyMs");
    reveal_strlit("timing.totalDurationMs");
    assert("timing.commandStartLatencyMs"@[0] == 't' && "timing.commandStartLatencyMs"@[1] == 'i');
    assert("timing.commandDurationMs"@[0] == 't' && "timing.commandDurationMs"@[1] == 'i');
    assert("timing.firstEventLatencyMs"@[0] == 't' && "timing.firstEventLatencyMs"@[1] == 'i');
    assert("timing.totalDurationMs"@[0] == 't' && "timing.totalDurationMs"@[1] == 'i');
}

proof fn lemma_resume_records_alone(m: Records, params: Tree, key: Seq<char>)
    requires
        !begins(key, 'r', 'e'),
    ensures
        with_resume_records(m, params).contains_key(key) == m.contains_key(key),
        m.contains_key(key) ==> with_resume_records(m, params)[key] == m[key],
{
    reveal_strlit("resume.requested");
    reveal_strlit("resume.requestedThreadId");
    assert("resume.requested"@[0] == 'r' && "resume.requested"@[1] == 'e');
    assert("resume.requestedThreadId"@[0] == 'r' && "resume.requestedThreadId"@[1] == 'e');
}

proof fn lemma_tool_records_alone(m: Records, events: Seq<EventView>, key: Seq<char>)
    requires
        !begins(key, 't', 'o'),
    ensures
        with_tool_records(m, events).contains_key(key) == m.contains_key(key),
        m.contains_key(key) ==> with_tool_records(m, events)[key] == m[key],
{
    reveal_strlit("tools.count");
    reveal_strlit("tools.failedCount");
    reveal_strlit("tools.totalDurationMs");
    reveal_strlit("tools.outputBytes");
    reveal_strlit("tools.calls");
    assert("tools.count"@[0] == 't' && "tools.count"@[1] == 'o');
    assert("tools.failedCount"@[0] == 't' && "tools.failedCount"@[1] == 'o');
    assert("tools.totalDurationMs"@[0] == 't' && "tools.totalDurationMs"@[1] == 'o');
    assert("tools.outputBytes"@[0] == 't' && "tools.outputBytes"@[1] == 'o');
    assert("tools.calls"@[0] == 't' && "tools.calls"@[1] == 'o');
}

proof fn lemma_plan_records_alone(m: Records, events: Seq<EventView>, key: Seq<char>)
    requires
        !begins(key, 'p', 'l'),
    ensures
        with_plan_records(m, events).contains_key(key) == m.contains_key(key),
        m.contains_key(key) ==> with_plan_records(m, events)[key] == m[key],
{
    reveal_strlit("plan.updates");
    reveal_strlit("plan.total");
    reveal_strlit("plan.completed");
    reveal_strlit("plan.inProgress");
    reveal_strlit("plan.pending");
    reveal_strlit("plan.completionPercent");
    assert("plan.updates"@[0] == 'p' && "plan.updates"@[1] == 'l');
    assert("plan.total"@[0] == 'p' && "plan.total"@[1] == 'l');
    assert("plan.completed"@[0] == 'p' && "plan.completed"@[1] == 'l');
    assert("plan.inProgress"@[0] == 'p' && "plan.inProgress"@[1] == 'l');
    assert("plan.pending"@[0] == 'p' && "plan.pending"@[1] == 'l');
    assert("plan.completionPercent"@[0] == 'p' && "plan.completionPercent"@[1] == 'l');
}

proof fn lemma_message_records_alone(m: Records, events: Seq<EventView>, key: Seq<char>)
    requires
        !begins(key, 'm', 'e'),
    ensures
        with_message_records(m, events).contains_key(key) == m.contains_key(key),
        m.contains_key(key) ==> with_message_records(m, events)[key] == m[key],
{
    reveal_strlit("messages.assistantChars");
    reveal_strlit("messages.reasoningChars");
    assert("messages.assistantChars"@[0] == 'm' && "messages.assistantChars"@[1] == 'e');
    assert("messages.reasoningChars"@[0] == 'm' && "messages.reasoningChars"@[1] == 'e');
}

/// Each part of the records stays as it was written when the others are added, so the
/// records of a run hold them all.
pub proof fn lemma_records_hold_every_part(m: Records, input: ExternalCliObservabilityInput, key: Seq<char>)
    ensures
        ({
            let r = with_observations(m, input);
            let none = Map::<Seq<char>, Seq<char>>::empty();
            let events = event_views(input.events@);
            let command = with_command_records(
                none,
                input.spec@,
                crate::json::opt_str(input.cli_version),
            );
            let runner = with_runner_records(none, *input.request);
            let prompt = with_prompt_records(none, input.prompt@, input.saved_images@);
            let io = with_io_records(none, input.stdout@, input.stderr@);
            let timing = with_timing_records(none, input.timings, events);
            let resume = with_resume_records(none, input.request.params@);
            let tools = with_tool_records(none, events);
            let plan = with_plan_records(none, events);
            let words = with_message_records(none, events);
            &&& command.contains_key(key) ==> r.contains_key(key) && r[key] == command[key]
            &&& runner.contains_key(key) ==> r.contains_key(key) && r[key] == runner[key]
            &&& prompt.contains_key(key) ==> r.contains_key(key) && r[key] == prompt[key]
            &&& io.contains_key(key) ==> r.contains_key(key) && r[key] == io[key]
            &&& timing.contains_key(key) ==> r.contains_key(key) && r[key] == timing[key]
            &&& resume.contains_key(key) ==> r.contains_key(key) && r[key] == resume[key]
            &&& tools.contains_key(key) ==> r.contains_key(key) && r[key] == tools[key]
            &&& plan.contains_key(key) ==> r.contains_key(key) && r[key] == plan[key]
            &&& words.contains_key(key) ==> r.contains_key(key) && r[key] == words[key]
        }),
{
    let none = Map::<Seq<char>, Seq<char>>::empty();
    let events = event_views(input.events@);
    let version = crate::json::opt_str(input.cli_version);
    let m1 = with_command_records(m, input.spec@, version);
    let m2 = with_runner_records(m1, *input.request);
    let m3 = with_prompt_records(m2, input.prompt@, input.saved_images@);
    let m4 = with_io_records(m3, input.stdout@, input.stderr@);
    let m5 = with_timing_records(m4, input.timings, events);
    let m6 = with_resume_records(m5, input.request.params@);
    let m7 = with_tool_records(m6, events);
    let m8 = with_plan_records(m7, events);
    assert(with_observations(m, input) == with_message_records(m8, events));
    if !begins(key, 'c', 'l') {
        lemma_command_records_alone(none, input.spec@, version, key);
    } else {
        lemma_command_part(m, input.spec@, version, key);
    }
    if !begins(key, 'r', 'u') && !begins(key, 'c', 'o') {
        lemma_runner_records_alone(m1, *input.request, key);
        lemma_runner_records_alone(none, *input.request, key);
    } else {
        lemma_runner_part(m1, *input.request, key);
    }
    if !begins(key, 'p', 'r') && !begins(key, 'a', 't') {
        lemma_prompt_records_alone(m2, input.prompt@, input.saved_images@, key);
        lemma_prompt_records_alone(none, input.prompt@, input.saved_images@, key);
    }
    if !begins(key, 'i', 'o') {
        lemma_io_records_alone(m3, input.stdout@, input.stderr@, key);
        lemma_io_records_alone(none, input.stdout@, input.stderr@, key);
    }
    if !begins(key, 't', 'i') {
        lemma_timing_records_alone(m4, input.timings, events, key);
        lemma_timing_records_alone(none, input.timings, events, key);
    }
    if !begins(key, 'r', 'e') {
        lemma_resume_records_alone(m5, input.request.params@, key);
        lemma_resume_records_alone(none, input.request.params@, key);
    }
    if !begins(key, 't', 'o') {
        lemma_tool_records_alone(m6, events, key);
        lemma_tool_records_alone(none, events, key);
    }
    if !begins(key, 'p', 'l') {
        lemma_plan_records_alone(m7, events, key);
        lemma_plan_records_alone(none, events, key);
    }
    if !begins(key, 'm', 'e') {
        lemma_message_records_alone(m8, events, key);
        lemma_message_records_alone(none, events, key);
    }
}

proof fn lemma_command_part(m: Records, spec: CommandView, version: Option<Seq<char>>, key: Seq<char>)
    ensures
        ({
            let none = Map::<Seq<char>, Seq<char>>::empty();
            with_command_records(none, spec, version).contains_key(key) ==> with_command_records(
                m,
                spec,
                version,
            ).contains_key(key) && with_command_records(m, spec, version)[key]
                == with_command_records(none, spec, version)[key]
        }),
{
}

proof fn lemma_runner_part(m: Records, request: ExternalCliRunRequest, key: Seq<char>)
    ensures
        ({
            let none = Map::<Seq<char>, Seq<char>>::empty();
            with_runner_records(none, request).contains_key(key) ==> with_runner_records(
                m,
                request,
            ).contains_key(key) && with_runner_records(m, request)[key] == with_runner_records(
                none,
                request,
            )[key]
        }),
{
}

/// What is recorded of one image.
pub proof fn lemma_records_of_an_image(image: ExternalCliSavedImageAttachment)
    ensures
        says(image_summary(image), "mimeType"@, image.mime_type@),
        says(image_summary(image), "path"@, image.path@),
        member(image_summary(image), "sizeBytes"@) == Some(Tree::Unsigned(image.size_bytes)),
        opt(image.name) matches Some(n) ==> says(image_summary(image), "name"@, n),
        image.name is None ==> member(image_summary(image), "name"@) == Some(Tree::Null),
{
    reveal_strlit("mimeType");
    reveal_strlit("name");
    reveal_strlit("sizeBytes");
    reveal_strlit("path");
    assert("mimeType"@.len() == 8 && "name"@.len() == 4 && "sizeBytes"@.len() == 9 && "path"@.len()
        == 4);
    assert("name"@[0] == 'n' && "path"@[0] == 'p');
    reveal_with_fuel(crate::json::find_member, 5);
}

/// What is recorded of all images is what is recorded of each, in their order.
pub proof fn lemma_records_of_images(images: Seq<ExternalCliSavedImageAttachment>, i: int)
    requires
        0 <= i < images.len(),
    ensures
        image_summaries(images) matches Tree::List(l) && l.len() == images.len() && l[i]
            == image_summary(images[i]),
{
}

/// Where the name and the identifier of a tool are looked for, one place after another.
pub proof fn lemma_names_of_tools(e: EventView, t: Seq<char>)
    requires
        member(e.raw, "item"@) is None,
    ensures
        says(e.raw, "item_id"@, t) ==> says(tool_call(e), "id"@, t),
        member(e.raw, "item_id"@) is None && says(e.raw, "id"@, t) ==> says(tool_call(e), "id"@, t),
        member(e.raw, "item_id"@) is None && member(e.raw, "id"@) is None ==> member(
            tool_call(e),
            "id"@,
        ) == Some(Tree::Null),
        says(e.raw, "name"@, t) ==> says(tool_call(e), "name"@, t),
        member(e.raw, "name"@) is None && says(e.raw, "tool"@, t) ==> says(
            tool_call(e),
            "name"@,
            t,
        ),
        member(e.raw, "name"@) is None && member(e.raw, "tool"@) is None && e.title == Some(t)
            ==> says(tool_call(e), "name"@, t),
        member(e.raw, "name"@) is None && member(e.raw, "tool"@) is None && e.title is None ==> says(
            tool_call(e),
            "name"@,
            "tool"@,
        ),
        says(e.raw, "command"@, t) ==> says(tool_call(e), "command"@, t),
        member(e.raw, "command"@) is None ==> member(tool_call(e), "command"@) == Some(Tree::Null),
        member(e.raw, "durationMs"@) is None ==> member(tool_call(e), "durationMs"@) == Some(
            Tree::Null,
        ),
{
    reveal_strlit("id");
    reveal_strlit("name");
    reveal_strlit("command");
    reveal_strlit("exitCode");
    reveal_strlit("success");
    reveal_strlit("durationMs");
    reveal_strlit("outputBytes");
    assert("id"@.len() == 2 && "name"@.len() == 4 && "command"@.len() == 7 && "exitCode"@.len() == 8
        && "success"@.len() == 7 && "durationMs"@.len() == 10 && "outputBytes"@.len() == 11);
    assert("command"@[0] == 'c' && "success"@[0] == 's');
    reveal_with_fuel(crate::json::find_member, 8);
}

/// An item without a name is called by its kind.
pub proof fn lemma_items_without_names(e: EventView, t: Seq<char>)
    requires
        member_of(member(e.raw, "item"@), "name"@) is None,
        member(e.raw, "name"@) is None,
        member_of(member(e.raw, "item"@), "type"@) == Some(Tree::Text(t)),
    ensures
        says(tool_call(e), "name"@, t),
{
    reveal_strlit("id");
    reveal_strlit("name");
    assert("id"@.len() == 2 && "name"@.len() == 4);
    reveal_with_fuel(crate::json::find_member, 3);
}

} // verus!
