//! What the reading of an agent's output is for: which event each line stands for
//! and what it tells.

use vstd::prelude::*;

use crate::agent_config::claude_product;
use crate::json::{
    json_of_text, lemma_with_default, member, member_of, scalar_text, text_of_json, Tree,
};
use crate::progress::{
    arguments_text, codex_event, event_arguments, event_of, event_tool_name, events_of_lines,
    generic_content, generic_event, generic_type, item_key, item_step, item_steps, observed_event,
    part_of_type, part_texts, plan_steps, stamped, started_after, tool_output, tool_use_id,
    tools_after, tools_of, turn_event, ContextView, EventView, ExternalCliProgressEventType,
    PlanStepStatus, StepView, ToolsView, TurnView,
};
use crate::text::{blank, decimal, has_text, joined, trimmed};

verus! {

broadcast use vstd::string::group_string_axioms;

/// Whether a member of an object is a text.
pub open spec fn says(t: Tree, key: Seq<char>, text: Seq<char>) -> bool {
    member(t, key) == Some(Tree::Text(text))
}

/// The names of lines are told apart.
proof fn lemma_kinds_differ()
    ensures
        "result"@ != "assistant"@,
        "result"@ != "system"@,
        "result"@ != "user"@,
        "result"@ != "thread.started"@,
        "result"@ != "turn.started"@,
        "result"@ != "turn.completed"@,
        "result"@ != "item.started"@,
        "result"@ != "item.updated"@,
        "result"@ != "item.completed"@,
        "assistant"@ != "system"@,
        "assistant"@ != "user"@,
        "assistant"@ != "thread.started"@,
        "assistant"@ != "turn.started"@,
        "assistant"@ != "turn.completed"@,
        "assistant"@ != "item.started"@,
        "assistant"@ != "item.updated"@,
        "assistant"@ != "item.completed"@,
        "user"@ != "system"@,
        "user"@ != "thread.started"@,
        "user"@ != "turn.started"@,
        "user"@ != "turn.completed"@,
        "user"@ != "item.started"@,
        "user"@ != "item.updated"@,
        "user"@ != "item.completed"@,
        "system"@ != "thread.started"@,
        "system"@ != "turn.started"@,
        "system"@ != "turn.completed"@,
        "system"@ != "item.started"@,
        "system"@ != "item.updated"@,
        "system"@ != "item.completed"@,
        "turn.completed"@ != "thread.started"@,
        "turn.completed"@ != "turn.started"@,
        "turn.started"@ != "thread.started"@,
        "item.started"@ != "thread.started"@,
        "item.started"@ != "turn.started"@,
        "item.started"@ != "turn.completed"@,
        "item.updated"@ != "thread.started"@,
        "item.updated"@ != "turn.started"@,
        "item.updated"@ != "turn.completed"@,
        "item.updated"@ != "item.started"@,
        "item.completed"@ != "thread.started"@,
        "item.completed"@ != "turn.started"@,
        "item.completed"@ != "turn.completed"@,
        "item.completed"@ != "item.started"@,
        "item.completed"@ != "item.updated"@,
{
    reveal_strlit("result");
    reveal_strlit("assistant");
    reveal_strlit("system");
    reveal_strlit("user");
    reveal_strlit("thread.started");
    reveal_strlit("turn.started");
    reveal_strlit("turn.completed");
    reveal_strlit("item.started");
    reveal_strlit("item.updated");
    reveal_strlit("item.completed");
    assert("result"@[0] == 'r' && "assistant"@[0] == 'a' && "system"@[0] == 's' && "user"@[0] == 'u'
        && "thread.started"@[0] == 't' && "turn.started"@[0] == 't' && "turn.completed"@[0] == 't'
        && "item.started"@[0] == 'i' && "item.updated"@[0] == 'i' && "item.completed"@[0] == 'i');
    assert("thread.started"@[1] == 'h' && "turn.started"@[1] == 'u' && "turn.completed"@[1] == 'u');
    assert("turn.started"@[5] == 's' && "turn.completed"@[5] == 'c');
    assert("item.started"@[5] == 's' && "item.updated"@[5] == 'u' && "item.completed"@[5] == 'c');
}

// ---------------------------------------------------------------------------
// Lines of `claude_code`
// ---------------------------------------------------------------------------

/// Whether a value says that something went wrong: `is_error`, or without one
/// `isError`, is true.
pub open spec fn says_error(t: Tree) -> bool {
    member(t, "is_error"@) == Some(Tree::Bool(true)) || (member(t, "is_error"@) is None && member(
        t,
        "isError"@,
    ) == Some(Tree::Bool(true)))
}

/// A result tells that the run failed just where it says so, and else that the run
/// is finished. What it shows is the result, else the error, else the message.
pub proof fn lemma_results_end_runs(raw: Tree, tools: ToolsView)
    requires
        says(raw, "type"@, "result"@),
    ensures
        event_of(raw, tools) matches Some(e) && (e.event_type
            == ExternalCliProgressEventType::RunFailed <==> says_error(raw)) && (e.event_type
            == ExternalCliProgressEventType::RunFinished <==> !says_error(raw)) && e.raw == raw && (
        forall|t: Seq<char>| #[trigger] says(raw, "result"@, t) ==> e.content == t) && (forall|
            t: Seq<char>,
        |
            member(raw, "result"@) is None && #[trigger] says(raw, "error"@, t) ==> e.content == t)
            && (forall|t: Seq<char>|
            member(raw, "result"@) is None && member(raw, "error"@) is None && #[trigger] says(
                raw,
                "message"@,
                t,
            ) ==> e.content == t),
{
    lemma_kinds_differ();
}

/// A system line that names a session starts the run under that name; one that
/// names none does so only where it is the first of all.
pub proof fn lemma_system_lines_start_runs(raw: Tree, tools: ToolsView)
    requires
        says(raw, "type"@, "system"@),
    ensures
        event_of(raw, tools) is Some,
        forall|id: Seq<char>| #[trigger]
            says(raw, "session_id"@, id) ==> event_of(raw, tools)->Some_0.event_type
                == ExternalCliProgressEventType::RunStarted && event_of(raw, tools)->Some_0.content
                == id,
        forall|id: Seq<char>|
            member(raw, "session_id"@) is None && #[trigger] says(raw, "sessionId"@, id)
                ==> event_of(raw, tools)->Some_0.event_type
                == ExternalCliProgressEventType::RunStarted && event_of(raw, tools)->Some_0.content
                == id,
        member(raw, "session_id"@) is None && member(raw, "sessionId"@) is None && says(
            raw,
            "subtype"@,
            "init"@,
        ) ==> event_of(raw, tools)->Some_0.event_type == ExternalCliProgressEventType::RunStarted,
        forall|t: Seq<char>|
            member(raw, "session_id"@) is None && member(raw, "sessionId"@) is None && t != "init"@
                && #[trigger] says(raw, "subtype"@, t) ==> event_of(raw, tools)->Some_0.event_type
                == ExternalCliProgressEventType::Status && event_of(raw, tools)->Some_0.content
                == t,
{
    lemma_kinds_differ();
}

/// The content of a message: that of its `message`, else its own.
pub open spec fn content_is(raw: Tree, content: Tree) -> bool {
    member_of(member(raw, "message"@), "content"@) == Some(content) || (member_of(
        member(raw, "message"@),
        "content"@,
    ) is None && member(raw, "content"@) == Some(content))
}

/// Plain words of the assistant are an answer, unless they are blank.
pub proof fn lemma_plain_words_are_answers(raw: Tree, tools: ToolsView, words: Seq<char>)
    requires
        says(raw, "type"@, "assistant"@),
        content_is(raw, Tree::Text(words)),
    ensures
        event_of(raw, tools) matches Some(e) && e.content == words && (blank(words)
            <==> e.event_type == ExternalCliProgressEventType::Status) && (!blank(words)
            <==> e.event_type == ExternalCliProgressEventType::AssistantFinal),
{
    lemma_kinds_differ();
}

/// Whether a part of a message is text, and which.
pub open spec fn is_text_part(part: Tree, text: Seq<char>) -> bool {
    says(part, "type"@, "text"@) && says(part, "text"@, text)
}

proof fn lemma_text_parts_alone(parts: Seq<Tree>, texts: Seq<Seq<char>>)
    requires
        parts.len() == texts.len(),
        forall|i: int| 0 <= i < parts.len() ==> is_text_part(#[trigger] parts[i], texts[i]),
    ensures
        part_texts(parts) == texts,
        part_of_type(parts, "tool_use"@) is None,
    decreases parts.len(),
{
    reveal_strlit("text");
    reveal_strlit("tool_use");
    assert("text"@.len() == 4 && "tool_use"@.len() == 8);
    if parts.len() > 0 {
        let n = parts.len() - 1;
        assert(is_text_part(parts[n], texts[n]));
        let head = parts.drop_last();
        assert forall|i: int| 0 <= i < head.len() implies is_text_part(
            #[trigger] head[i],
            texts.drop_last()[i],
        ) by {
            assert(head[i] == parts[i]);
            assert(is_text_part(parts[i], texts[i]));
        }
        lemma_text_parts_alone(head, texts.drop_last());
        assert(part_texts(parts) =~= texts);
        let tail = parts.drop_first();
        assert(is_text_part(parts[0], texts[0]));
        assert forall|i: int| 0 <= i < tail.len() implies is_text_part(
            #[trigger] tail[i],
            texts.drop_first()[i],
        ) by {
            assert(tail[i] == parts[i + 1]);
            assert(is_text_part(parts[i + 1], texts[i + 1]));
        }
        lemma_text_parts_alone(tail, texts.drop_first());
    } else {
        assert(part_texts(parts) =~= texts);
    }
}

/// The text parts of an answer are shown on lines of their own, in their order and
/// all of them.
pub proof fn lemma_answers_show_all_text_parts(
    raw: Tree,
    tools: ToolsView,
    parts: Seq<Tree>,
    texts: Seq<Seq<char>>,
)
    requires
        says(raw, "type"@, "assistant"@),
        content_is(raw, Tree::List(parts)),
        parts.len() == texts.len(),
        parts.len() > 0,
        forall|i: int| 0 <= i < parts.len() ==> is_text_part(#[trigger] parts[i], texts[i]),
        !blank(joined(texts, "\n"@)),
    ensures
        event_of(raw, tools) matches Some(e) && e.event_type
            == ExternalCliProgressEventType::AssistantFinal && e.content == joined(texts, "\n"@),
{
    lemma_kinds_differ();
    lemma_text_parts_alone(parts, texts);
}

/// Whether a message calls a tool: its first part that does so has an identifier,
/// a name and what it is called with.
pub open spec fn calls_tool(
    raw: Tree,
    parts: Seq<Tree>,
    at: int,
    id: Seq<char>,
    name: Seq<char>,
    input: Tree,
) -> bool {
    &&& content_is(raw, Tree::List(parts))
    &&& 0 <= at < parts.len()
    &&& says(parts[at], "type"@, "tool_use"@)
    &&& says(parts[at], "id"@, id)
    &&& says(parts[at], "name"@, name)
    &&& member(parts[at], "input"@) == Some(input)
    &&& forall|i: int| 0 <= i < at ==> !says(#[trigger] parts[i], "type"@, "tool_use"@)
}

proof fn lemma_first_part(parts: Seq<Tree>, at: int, kind: Seq<char>)
    requires
        0 <= at < parts.len(),
        says(parts[at], "type"@, kind),
        forall|i: int| 0 <= i < at ==> !says(#[trigger] parts[i], "type"@, kind),
    ensures
        part_of_type(parts, kind) == Some(parts[at]),
    decreases at,
{
    if at > 0 {
        let tail = parts.drop_first();
        assert(!says(parts[0], "type"@, kind));
        assert(tail[at - 1] == parts[at]);
        assert forall|i: int| 0 <= i < at - 1 implies !says(#[trigger] tail[i], "type"@, kind) by {
            assert(tail[i] == parts[i + 1]);
        }
        lemma_first_part(tail, at - 1, kind);
    }
}

/// A call of a tool is told as its start, under the name of the tool, and is
/// remembered under its identifier.
pub proof fn lemma_tool_calls_start_tools(
    raw: Tree,
    tools: ToolsView,
    parts: Seq<Tree>,
    at: int,
    id: Seq<char>,
    name: Seq<char>,
    input: Tree,
)
    requires
        says(raw, "type"@, "assistant"@),
        calls_tool(raw, parts, at, id, name, input),
    ensures
        event_of(raw, tools) matches Some(e) && e.event_type
            == ExternalCliProgressEventType::ToolStarted && e.title == Some(name) && e.content
            == arguments_text(input),
        tools_of(raw, tools) == tools.insert(id, (name, input)),
{
    lemma_kinds_differ();
    lemma_first_part(parts, at, "tool_use"@);
}

/// How a call reads: its command, else its text, else its JSON.
pub proof fn lemma_calls_read_as_commands(input: Tree, command: Seq<char>)
    ensures
        says(input, "command"@, command) && trimmed(command).len() > 0 ==> arguments_text(input)
            == trimmed(command),
        arguments_text(Tree::Text(command)) == command,
        arguments_text(Tree::Null) == Seq::<char>::empty(),
        input is Object && member(input, "command"@) is None ==> arguments_text(input)
            == text_of_json(input),
{
}

/// The end of a tool is told under the name that its call had, whatever lines came
/// between, and as a success unless the result is an error or was interrupted.
pub proof fn lemma_tool_results_end_their_tools(
    raw: Tree,
    tools: ToolsView,
    parts: Seq<Tree>,
    at: int,
    id: Seq<char>,
    output: Seq<char>,
)
    requires
        raw is Object,
        says(raw, "type"@, "user"@),
        content_is(raw, Tree::List(parts)),
        0 <= at < parts.len(),
        says(parts[at], "type"@, "tool_result"@),
        forall|i: int| 0 <= i < at ==> !says(#[trigger] parts[i], "type"@, "tool_result"@),
        says(parts[at], "tool_use_id"@, id),
        says(parts[at], "content"@, output),
        member(raw, "tool_name"@) is None,
        member(raw, "tool_use_id"@) is None,
        member(raw, "arguments"@) is None,
        member(raw, "success"@) is None,
    ensures
        event_of(raw, tools) matches Some(e) && e.event_type
            == ExternalCliProgressEventType::ToolFinished && (tools.contains_key(id) ==> e.title
            == Some(tools[id].0) && member(e.raw, "arguments"@) == Some(tools[id].1)) && (
        !tools.contains_key(id) ==> e.title == Some("tool"@)) && (member(
            raw,
            "tool_use_result"@,
        ) is None ==> e.content == output) && member(e.raw, "success"@) == Some(
            Tree::Bool(
                !says_error(parts[at]) && member_of(
                    member(raw, "tool_use_result"@),
                    "interrupted"@,
                ) != Some(Tree::Bool(true)),
            ),
        ),
{
    lemma_kinds_differ();
    lemma_first_part(parts, at, "tool_result"@);
    reveal_strlit("tool_name");
    reveal_strlit("tool_use_id");
    reveal_strlit("arguments");
    reveal_strlit("success");
    assert("tool_name"@.len() == 9 && "tool_use_id"@.len() == 11 && "arguments"@.len() == 9
        && "success"@.len() == 7);
    assert("tool_name"@[0] == 't' && "arguments"@[0] == 'a');
    let (name, arguments) = if tools.contains_key(id) {
        tools[id]
    } else {
        ("tool"@, Tree::Null)
    };
    let a = crate::json::with_default(raw, "tool_name"@, Tree::Text(name));
    let b = crate::json::with_default(a, "tool_use_id"@, Tree::Text(id));
    let c = crate::json::with_default(b, "arguments"@, arguments);
    let done = Tree::Bool(
        !says_error(parts[at]) && member_of(member(raw, "tool_use_result"@), "interrupted"@) != Some(
            Tree::Bool(true),
        ),
    );
    lemma_with_default(raw, "tool_name"@, Tree::Text(name), "arguments"@);
    lemma_with_default(raw, "tool_name"@, Tree::Text(name), "success"@);
    lemma_with_default(a, "tool_use_id"@, Tree::Text(id), "arguments"@);
    lemma_with_default(a, "tool_use_id"@, Tree::Text(id), "success"@);
    lemma_with_default(b, "arguments"@, arguments, "success"@);
    lemma_with_default(c, "success"@, done, "arguments"@);
}

// ---------------------------------------------------------------------------
// Lines of Codex and Traex
// ---------------------------------------------------------------------------

/// A thread starts a run under its identifier, and the end of a turn ends the run.
pub proof fn lemma_threads_and_turns(raw: Tree, tools: ToolsView)
    ensures
        says(raw, "type"@, "thread.started"@) ==> (event_of(raw, tools) matches Some(e)
            && e.event_type == ExternalCliProgressEventType::RunStarted && forall|id: Seq<char>|
            #[trigger] says(raw, "thread_id"@, id) ==> e.content == id),
        says(raw, "type"@, "turn.started"@) ==> (event_of(raw, tools) matches Some(e)
            && e.event_type == ExternalCliProgressEventType::Status),
        says(raw, "type"@, "turn.completed"@) ==> (event_of(raw, tools) matches Some(e)
            && e.event_type == ExternalCliProgressEventType::RunFinished),
{
    lemma_kinds_differ();
}

proof fn lemma_item_kinds_differ()
    ensures
        "agent_message"@ != "todo_list"@,
        "agent_message"@ != "command_execution"@,
        "reasoning"@ != "todo_list"@,
        "reasoning"@ != "command_execution"@,
        "reasoning"@ != "agent_message"@,
        "error"@ != "todo_list"@,
        "error"@ != "command_execution"@,
        "error"@ != "agent_message"@,
        "error"@ != "reasoning"@,
        "error"@ != "reasoning_summary"@,
        "error"@ != "tool_call"@,
        "error"@ != "tool_result"@,
        "tool_call"@ != "todo_list"@,
        "tool_call"@ != "command_execution"@,
        "tool_call"@ != "agent_message"@,
        "tool_call"@ != "reasoning"@,
        "tool_call"@ != "reasoning_summary"@,
        "command_execution"@ != "todo_list"@,
{
    reveal_strlit("agent_message");
    reveal_strlit("todo_list");
    reveal_strlit("command_execution");
    reveal_strlit("reasoning");
    reveal_strlit("reasoning_summary");
    reveal_strlit("error");
    reveal_strlit("tool_call");
    reveal_strlit("tool_result");
    assert("agent_message"@.len() == 13 && "todo_list"@.len() == 9 && "command_execution"@.len()
        == 17 && "reasoning"@.len() == 9 && "reasoning_summary"@.len() == 17 && "error"@.len() == 5
        && "tool_call"@.len() == 9 && "tool_result"@.len() == 11);
    assert("todo_list"@[0] == 't' && "tool_call"@[0] == 't' && "reasoning"@[0] == 'r');
    assert("todo_list"@[2] == 'd' && "tool_call"@[2] == 'o');
    assert("reasoning_summary"@[0] == 'r' && "command_execution"@[0] == 'c');
}

/// Whether a line is about an item of some type.
pub open spec fn item_of(raw: Tree, line: Seq<char>, item: Tree, kind: Seq<char>) -> bool {
    &&& says(raw, "type"@, line)
    &&& member(raw, "item"@) == Some(item)
    &&& says(item, "type"@, kind)
}

/// A message of the agent is an answer, and its thoughts are not. An error that is
/// told as an item is a warning: it does not end the run.
pub proof fn lemma_finished_items(raw: Tree, tools: ToolsView, item: Tree, text: Seq<char>)
    requires
        says(item, "text"@, text),
    ensures
        item_of(raw, "item.completed"@, item, "agent_message"@) ==> (event_of(
            raw,
            tools,
        ) matches Some(e) && e.event_type == ExternalCliProgressEventType::AssistantFinal
            && e.content == text),
        item_of(raw, "item.completed"@, item, "reasoning"@) ==> (event_of(raw, tools) matches Some(e)
            && e.event_type == ExternalCliProgressEventType::AssistantDelta && e.content == text),
        item_of(raw, "item.completed"@, item, "tool_call"@) ==> (event_of(raw, tools) matches Some(e)
            && e.event_type == ExternalCliProgressEventType::ToolFinished && e.content == text),
        item_of(raw, "item.completed"@, item, "error"@) ==> (event_of(raw, tools) matches Some(e)
            && e.event_type == ExternalCliProgressEventType::Status && e.content == text),
{
    lemma_kinds_differ();
    lemma_item_kinds_differ();
}

/// A command is told at its start by what is run and at its end by what it wrote;
/// it succeeded where it left with zero.
pub proof fn lemma_commands_are_tools(
    raw: Tree,
    tools: ToolsView,
    item: Tree,
    command: Seq<char>,
    output: Seq<char>,
    code: i64,
)
    requires
        raw is Object,
        says(item, "command"@, command),
        says(item, "aggregated_output"@, output),
        code < 0 ==> member(item, "exit_code"@) == Some(Tree::Signed(code)),
        code >= 0 ==> member(item, "exit_code"@) == Some(Tree::Unsigned(code as u64)),
        member(raw, "success"@) is None,
        member(raw, "tool_name"@) is None,
        member(raw, "arguments"@) is None,
    ensures
        item_of(raw, "item.started"@, item, "command_execution"@) ==> (event_of(
            raw,
            tools,
        ) matches Some(e) && e.event_type == ExternalCliProgressEventType::ToolStarted && e.content
            == command && e.title == Some("exec_command"@)),
        item_of(raw, "item.completed"@, item, "command_execution"@) ==> (event_of(
            raw,
            tools,
        ) matches Some(e) && e.event_type == ExternalCliProgressEventType::ToolFinished && e.content
            == output && member(e.raw, "success"@) == Some(Tree::Bool(code == 0)) && member(
            e.raw,
            "tool_name"@,
        ) == Some(Tree::Text("exec_command"@)) && member(e.raw, "arguments"@) == Some(
            Tree::Object(seq![("command"@, Tree::Text(command))]),
        )),
{
    lemma_kinds_differ();
    lemma_item_kinds_differ();
    reveal_strlit("tool_name");
    reveal_strlit("arguments");
    reveal_strlit("success");
    reveal_strlit("item");
    assert("tool_name"@.len() == 9 && "arguments"@.len() == 9 && "success"@.len() == 7
        && "item"@.len() == 4);
    assert("tool_name"@[0] == 't' && "arguments"@[0] == 'a');
    let args = Tree::Object(seq![("command"@, Tree::Text(command))]);
    let name = Tree::Text("exec_command"@);
    let a = crate::json::with_default(raw, "tool_name"@, name);
    let b = crate::json::with_default(a, "arguments"@, args);
    lemma_with_default(raw, "tool_name"@, name, "arguments"@);
    lemma_with_default(raw, "tool_name"@, name, "success"@);
    lemma_with_default(a, "arguments"@, args, "tool_name"@);
    lemma_with_default(a, "arguments"@, args, "success"@);
    lemma_with_default(b, "success"@, Tree::Bool(code == 0), "tool_name"@);
    lemma_with_default(b, "success"@, Tree::Bool(code == 0), "arguments"@);
}

// ---------------------------------------------------------------------------
// Plans
// ---------------------------------------------------------------------------

/// A to-do item with text is a step of the plan, and one without text is none. A
/// step is done where it says so, and else as far as its status says.
pub proof fn lemma_items_are_steps(item: Tree, text: Seq<char>)
    requires
        says(item, "text"@, text),
    ensures
        trimmed(text).len() == 0 ==> item_step(item) is None,
        trimmed(text).len() > 0 ==> (item_step(item) matches Some(s) && s.step == trimmed(text) && (
        s.status == PlanStepStatus::Completed <==> (member(item, "completed"@) == Some(
            Tree::Bool(true),
        ) || says(item, "status"@, "completed"@))) && (s.status == PlanStepStatus::InProgress <==> (
        member(item, "completed"@) != Some(Tree::Bool(true)) && says(
            item,
            "status"@,
            "in_progress"@,
        )))),
{
    reveal_strlit("completed");
    reveal_strlit("in_progress");
    assert("completed"@.len() == 9 && "in_progress"@.len() == 11);
}

/// The steps of a plan are those of its items, in their order.
pub proof fn lemma_plans_keep_their_order(items: Seq<Tree>, item: Tree)
    ensures
        item_steps(Seq::<Tree>::empty()) == Seq::<StepView>::empty(),
        item_steps(items.push(item)) == (match item_step(item) {
            Some(s) => item_steps(items).push(s),
            None => item_steps(items),
        }),
{
    assert(items.push(item).drop_last() =~= items);
}

/// A to-do list of Codex is a plan: the number of its steps is told at its start,
/// at every change and at its end, and a list without steps is passed over.
pub proof fn lemma_todo_lists_are_plans(
    raw: Tree,
    tools: ToolsView,
    item: Tree,
    items: Seq<Tree>,
)
    requires
        item_of(raw, "item.started"@, item, "todo_list"@) || item_of(
            raw,
            "item.updated"@,
            item,
            "todo_list"@,
        ) || item_of(raw, "item.completed"@, item, "todo_list"@),
        member(item, "items"@) == Some(Tree::List(items)),
    ensures
        item_steps(items).len() > 0 ==> (event_of(raw, tools) matches Some(e) && e.event_type
            == ExternalCliProgressEventType::PlanUpdated && e.content == "plan updated ("@ + decimal(
            item_steps(items).len(),
        ) + " steps)"@ && plan_steps(e.raw) == item_steps(items)),
        item_steps(items).len() == 0 ==> codex_event(
            (crate::json::tree_text(member(raw, "type"@)))->Some_0,
            raw,
        ) is None,
{
    lemma_kinds_differ();
}

// ---------------------------------------------------------------------------
// Lines by their own name
// ---------------------------------------------------------------------------

/// The names that agents give their events, and the events that they stand for.
pub proof fn lemma_names_of_events()
    ensures
        generic_type("run_started"@) == Some(ExternalCliProgressEventType::RunStarted),
        generic_type("started"@) == Some(ExternalCliProgressEventType::RunStarted),
        generic_type("status"@) == Some(ExternalCliProgressEventType::Status),
        generic_type("status_changed"@) == Some(ExternalCliProgressEventType::Status),
        generic_type("agent_message_delta"@) == Some(ExternalCliProgressEventType::AssistantDelta),
        generic_type("message_delta"@) == Some(ExternalCliProgressEventType::AssistantDelta),
        generic_type("agent_message"@) == Some(ExternalCliProgressEventType::AssistantFinal),
        generic_type("tool_call_started"@) == Some(ExternalCliProgressEventType::ToolStarted),
        generic_type("tool_call_finished"@) == Some(ExternalCliProgressEventType::ToolFinished),
        generic_type("finished"@) == Some(ExternalCliProgressEventType::RunFinished),
        generic_type("assistant_delta"@) == Some(ExternalCliProgressEventType::AssistantDelta),
        generic_type("assistant_final"@) == Some(ExternalCliProgressEventType::AssistantFinal),
        generic_type("message"@) == Some(ExternalCliProgressEventType::AssistantFinal),
        generic_type("tool_started"@) == Some(ExternalCliProgressEventType::ToolStarted),
        generic_type("tool_finished"@) == Some(ExternalCliProgressEventType::ToolFinished),
        generic_type("run_finished"@) == Some(ExternalCliProgressEventType::RunFinished),
        generic_type("done"@) == Some(ExternalCliProgressEventType::RunFinished),
        generic_type("run_failed"@) == Some(ExternalCliProgressEventType::RunFailed),
        generic_type("failed"@) == Some(ExternalCliProgressEventType::RunFailed),
        generic_type("error"@) == Some(ExternalCliProgressEventType::RunFailed),
{
    reveal_strlit("run_started");
    reveal_strlit("started");
    reveal_strlit("status");
    reveal_strlit("status_changed");
    reveal_strlit("assistant_delta");
    reveal_strlit("agent_message_delta");
    reveal_strlit("message_delta");
    reveal_strlit("assistant_final");
    reveal_strlit("agent_message");
    reveal_strlit("message");
    reveal_strlit("tool_started");
    reveal_strlit("tool_call_started");
    reveal_strlit("tool_finished");
    reveal_strlit("tool_call_finished");
    reveal_strlit("run_finished");
    reveal_strlit("finished");
    reveal_strlit("done");
    reveal_strlit("run_failed");
    reveal_strlit("failed");
    reveal_strlit("error");
    assert("run_started"@.len() == 11 && "started"@.len() == 7 && "status"@.len() == 6
        && "status_changed"@.len() == 14 && "assistant_delta"@.len() == 15
        && "agent_message_delta"@.len() == 19 && "message_delta"@.len() == 13
        && "assistant_final"@.len() == 15 && "agent_message"@.len() == 13 && "message"@.len() == 7
        && "tool_started"@.len() == 12 && "tool_call_started"@.len() == 17 && "tool_finished"@.len()
        == 13 && "tool_call_finished"@.len() == 18 && "run_finished"@.len() == 12
        && "finished"@.len() == 8 && "done"@.len() == 4 && "run_failed"@.len() == 10
        && "failed"@.len() == 6 && "error"@.len() == 5);
    assert("started"@[0] == 's' && "message"@[0] == 'm' && "status"@[0] == 's' && "failed"@[0]
        == 'f');
    assert("assistant_delta"@[10] == 'd' && "assistant_final"@[10] == 'f');
    assert("message_delta"@[0] == 'm' && "agent_message"@[0] == 'a' && "tool_finished"@[0] == 't');
    assert("tool_started"@[0] == 't' && "run_finished"@[0] == 'r');
}

/// A line that is known by its own name alone tells its content: the first of its
/// texts that is there.
pub proof fn lemma_named_lines_tell_their_content(
    raw: Tree,
    tools: ToolsView,
    kind: Seq<char>,
    content: Seq<char>,
)
    requires
        says(raw, "type"@, kind),
        kind == "assistant_final"@ || kind == "run_failed"@ || kind == "run_finished"@ || kind
            == "assistant_delta"@ || kind == "tool_started"@ || kind == "tool_finished"@,
        says(raw, "content"@, content),
    ensures
        event_of(raw, tools) matches Some(e) && Some(e.event_type) == generic_type(kind)
            && e.content == content && e.raw == raw,
{
    lemma_kinds_differ();
    lemma_names_of_events();
    reveal_strlit("assistant_final");
    reveal_strlit("run_failed");
    reveal_strlit("run_finished");
    reveal_strlit("assistant_delta");
    reveal_strlit("tool_started");
    reveal_strlit("tool_finished");
    reveal_strlit("result");
    reveal_strlit("assistant");
    reveal_strlit("system");
    reveal_strlit("user");
    reveal_strlit("thread.started");
    reveal_strlit("turn.started");
    reveal_strlit("turn.completed");
    reveal_strlit("item.started");
    reveal_strlit("item.updated");
    reveal_strlit("item.completed");
    reveal_strlit("plan_updated");
    reveal_strlit("todo_list");
    assert("assistant_final"@.len() == 15 && "run_failed"@.len() == 10 && "run_finished"@.len() == 12
        && "assistant_delta"@.len() == 15 && "tool_started"@.len() == 12 && "tool_finished"@.len()
        == 13);
    assert("result"@.len() == 6 && "assistant"@.len() == 9 && "system"@.len() == 6 && "user"@.len()
        == 4 && "thread.started"@.len() == 14 && "turn.started"@.len() == 12
        && "turn.completed"@.len() == 14 && "item.started"@.len() == 12 && "item.updated"@.len()
        == 12 && "item.completed"@.len() == 14 && "plan_updated"@.len() == 12 && "todo_list"@.len()
        == 9);
    assert("run_finished"@[0] == 'r' && "tool_started"@[1] == 'o' && "turn.started"@[1] == 'u'
        && "turn.started"@[0] == 't' && "item.started"@[0] == 'i' && "item.updated"@[0] == 'i'
        && "plan_updated"@[0] == 'p' && "tool_started"@[0] == 't');
}

// ---------------------------------------------------------------------------
// The whole output
// ---------------------------------------------------------------------------

/// Lines are read in their order: one more line adds at most its own event at the
/// end, and a line that is blank or no JSON adds none.
pub proof fn lemma_lines_are_read_in_order(lines: Seq<Seq<char>>, line: Seq<char>)
    ensures
        events_of_lines(Seq::<Seq<char>>::empty()).0 == Seq::<EventView>::empty(),
        blank(line) || json_of_text(trimmed(line)) is None ==> events_of_lines(lines.push(line))
            == events_of_lines(lines),
        !blank(line) ==> (json_of_text(trimmed(line)) matches Some(raw) ==> events_of_lines(
            lines.push(line),
        ).0 == (match event_of(raw, events_of_lines(lines).1) {
            Some(e) => events_of_lines(lines).0.push(e),
            None => events_of_lines(lines).0,
        })),
{
    assert(lines.push(line).drop_last() =~= lines);
}

/// A tool that was called on a line is known on every later one, until another call
/// takes its identifier.
pub proof fn lemma_called_tools_stay_known(
    lines: Seq<Seq<char>>,
    line: Seq<char>,
    raw: Tree,
    id: Seq<char>,
)
    requires
        !blank(line),
        json_of_text(trimmed(line)) == Some(raw),
        events_of_lines(lines).1.contains_key(id),
    ensures
        events_of_lines(lines.push(line)).1.contains_key(id),
        !says(raw, "type"@, "assistant"@) && member(raw, "type"@) is Some && !(member(
            raw,
            "type"@,
        )->Some_0 is List) && !(member(raw, "type"@)->Some_0 is Object) && !(member(
            raw,
            "type"@,
        )->Some_0 is Null) && member(raw, "type"@)->Some_0 is Text ==> events_of_lines(
            lines.push(line),
        ).1[id] == events_of_lines(lines).1[id],
{
    assert(lines.push(line).drop_last() =~= lines);
}

/// The kind of a line is its `type`, else its `event`, else its `kind`; a line
/// without any of them stands for nothing.
pub proof fn lemma_lines_without_a_kind(raw: Tree, tools: ToolsView)
    requires
        member(raw, "type"@) is None,
        member(raw, "event"@) is None,
        member(raw, "kind"@) is None,
    ensures
        event_of(raw, tools) is None,
{
}

// ---------------------------------------------------------------------------
// What a turn gets to see
// ---------------------------------------------------------------------------

/// Each event is shown as what it is: a failed run as a failure, a finished one as
/// finished, an answer as an answer, with what it says.
pub proof fn lemma_turns_show_events(
    session_key: Seq<char>,
    adapter: Seq<char>,
    context: ContextView,
    e: EventView,
)
    ensures
        e.event_type == ExternalCliProgressEventType::RunFailed ==> turn_event(
            session_key,
            adapter,
            context,
            e,
        ) == Some(TurnView::TurnFailed { error: e.content }),
        e.event_type == ExternalCliProgressEventType::RunFinished ==> turn_event(
            session_key,
            adapter,
            context,
            e,
        ) == Some(TurnView::TurnFinished { content: e.content }),
        e.event_type == ExternalCliProgressEventType::AssistantFinal ==> turn_event(
            session_key,
            adapter,
            context,
            e,
        ) == Some(TurnView::AssistantFinal { content: e.content }),
        e.event_type == ExternalCliProgressEventType::AssistantDelta ==> turn_event(
            session_key,
            adapter,
            context,
            e,
        ) == Some(TurnView::AssistantDelta { content: e.content }),
        e.event_type == ExternalCliProgressEventType::PlanUpdated && plan_steps(e.raw).len() > 0
            ==> turn_event(session_key, adapter, context, e) == Some(
            TurnView::PlanUpdated { steps: plan_steps(e.raw), title: e.title },
        ),
        e.event_type == ExternalCliProgressEventType::PlanUpdated && plan_steps(e.raw).len() == 0
            ==> turn_event(session_key, adapter, context, e) is None,
        e.event_type == ExternalCliProgressEventType::Status || e.event_type
            == ExternalCliProgressEventType::RunStarted ==> (turn_event(
            session_key,
            adapter,
            context,
            e,
        ) matches Some(TurnView::Status { session_key: k, state, runner_type, context: c }) && k
            == session_key && runner_type == Some(adapter) && c == context && (trimmed(
            e.content,
        ).len() > 0 ==> state == trimmed(e.content)) && (trimmed(e.content).len() == 0 ==> state
            == "running"@)),
{
}

/// A tool that is over is shown with its name, what it wrote, how long it took and
/// as a success unless it says otherwise.
pub proof fn lemma_turns_show_tools(
    session_key: Seq<char>,
    adapter: Seq<char>,
    context: ContextView,
    e: EventView,
    ms: u64,
)
    ensures
        e.event_type == ExternalCliProgressEventType::ToolStarted ==> (turn_event(
            session_key,
            adapter,
            context,
            e,
        ) matches Some(TurnView::ToolStarted { tool_name, arguments }) && arguments == e.content && (
        e.title matches Some(t) ==> (trimmed(t).len() > 0 ==> tool_name == trimmed(t)))),
        e.event_type == ExternalCliProgressEventType::ToolFinished ==> (turn_event(
            session_key,
            adapter,
            context,
            e,
        ) matches Some(
            TurnView::ToolFinished { tool_name, arguments, result, success, duration_ms },
        ) && result == e.content && (success <==> member(e.raw, "success"@) != Some(
            Tree::Bool(false),
        )) && (e.title matches Some(t) ==> (trimmed(t).len() > 0 ==> tool_name == trimmed(t))) && (
        member(e.raw, "durationMs"@) == Some(Tree::Unsigned(ms)) ==> duration_ms == ms)
            && (forall|c: Tree, t: Seq<char>|
            member(e.raw, "arguments"@) == Some(c) && #[trigger] says(c, "command"@, t) ==> arguments
                == t)),
{
}

/// An event that is stamped keeps its type, its content and its title, and gets the
/// time it was seen at.
pub proof fn lemma_stamped_events_stay(e: EventView, at: u64, started: Map<Seq<char>, u64>)
    requires
        e.raw is Object,
        member(e.raw, "observedAtMs"@) is None,
    ensures
        observed_event(e, at, started).event_type == e.event_type,
        observed_event(e, at, started).content == e.content,
        observed_event(e, at, started).title == e.title,
        member(observed_event(e, at, started).raw, "observedAtMs"@) == Some(Tree::Unsigned(at)),
        e.event_type != ExternalCliProgressEventType::ToolFinished ==> member(
            observed_event(e, at, started).raw,
            "durationMs"@,
        ) == member(e.raw, "durationMs"@),
{
    reveal_strlit("observedAtMs");
    reveal_strlit("durationMs");
    assert("observedAtMs"@.len() == 12 && "durationMs"@.len() == 10);
    let raw = crate::progress::stamped(e.raw, at);
    lemma_with_default(e.raw, "observedAtMs"@, Tree::Unsigned(at), "durationMs"@);
    match crate::progress::item_key(raw) {
        Some(key) => {
            if started.contains_key(key) {
                lemma_with_default(
                    raw,
                    "durationMs"@,
                    Tree::Unsigned(crate::progress::minus(at, started[key])),
                    "observedAtMs"@,
                );
            }
        },
        None => {},
    }
}

// ---------------------------------------------------------------------------
// Where the words of an event stand
// ---------------------------------------------------------------------------

/// An item that begins: a call of a tool under its name with what it is called with,
/// and anything else as a status.
pub proof fn lemma_items_that_begin(
    raw: Tree,
    tools: ToolsView,
    item: Tree,
    kind: Seq<char>,
    text: Seq<char>,
)
    requires
        item_of(raw, "item.started"@, item, kind),
    ensures
        kind == "tool_call"@ ==> (event_of(raw, tools) matches Some(e) && e.event_type
            == ExternalCliProgressEventType::ToolStarted && (says(item, "name"@, text) ==> e.title
            == Some(text)) && (member(item, "name"@) is None ==> e.title == Some("tool_call"@)) && (
        says(item, "arguments"@, text) ==> e.content == text) && (member(item, "arguments"@) is None
            && says(item, "command"@, text) ==> e.content == text)),
        kind != "todo_list"@ && kind != "command_execution"@ && kind != "tool_call"@ ==> (event_of(
            raw,
            tools,
        ) matches Some(e) && e.event_type == ExternalCliProgressEventType::Status && e.title == Some(
            kind,
        ) && (says(item, "status"@, text) ==> e.content == text) && (member(item, "status"@) is None
            ==> e.content == kind + " started"@)),
{
    lemma_kinds_differ();
    lemma_item_kinds_differ();
}

/// The words of an item that is over: its text, else its message, its summary, its
/// content or its title.
pub proof fn lemma_words_of_items(
    raw: Tree,
    tools: ToolsView,
    item: Tree,
    kind: Seq<char>,
    text: Seq<char>,
)
    requires
        item_of(raw, "item.completed"@, item, kind),
        kind != "todo_list"@,
        kind != "command_execution"@,
    ensures
        event_of(raw, tools) matches Some(e) && e.title == Some(kind) && (says(item, "text"@, text)
            ==> e.content == text) && (member(item, "text"@) is None && says(
            item,
            "message"@,
            text,
        ) ==> e.content == text) && (member(item, "text"@) is None && member(
            item,
            "message"@,
        ) is None && says(item, "summary"@, text) ==> e.content == text) && (member(
            item,
            "text"@,
        ) is None && member(item, "message"@) is None && member(item, "summary"@) is None && says(
            item,
            "content"@,
            text,
        ) ==> e.content == text) && (member(item, "text"@) is None && member(
            item,
            "message"@,
        ) is None && member(item, "summary"@) is None && member(item, "content"@) is None && says(
            item,
            "title"@,
            text,
        ) ==> e.content == text),
{
    lemma_kinds_differ();
}

/// The names that agents give their events.
pub open spec fn known_name(kind: Seq<char>) -> bool {
    kind == "run_started"@ || kind == "started"@ || kind == "status"@ || kind == "status_changed"@
        || kind == "assistant_delta"@ || kind == "agent_message_delta"@ || kind == "message_delta"@
        || kind == "assistant_final"@ || kind == "agent_message"@ || kind == "message"@ || kind
        == "tool_started"@ || kind == "tool_call_started"@ || kind == "tool_finished"@ || kind
        == "tool_call_finished"@ || kind == "run_finished"@ || kind == "finished"@ || kind
        == "done"@ || kind == "run_failed"@ || kind == "failed"@ || kind == "error"@
}

/// A kind that is not known but speaks of a part or of an end of an answer is one.
pub proof fn lemma_names_that_speak(a: Seq<char>, b: Seq<char>)
    ensures
        generic_type("plan_updated"@) is None,
        generic_type(a) is None ==> !has_text(a, "delta"@) && !has_text(a, "final"@),
        generic_type(a + "delta"@ + b) is Some,
        generic_type(a + "final"@ + b) is Some,
        !known_name(a) && has_text(a, "delta"@) ==> generic_type(a) == Some(
            ExternalCliProgressEventType::AssistantDelta,
        ),
        !known_name(a) && !has_text(a, "delta"@) && has_text(a, "final"@) ==> generic_type(a)
            == Some(ExternalCliProgressEventType::AssistantFinal),
{
    crate::text_laws::lemma_parts_of_texts(a, "delta"@, b);
    crate::text_laws::lemma_parts_of_texts(a, "final"@, b);
    reveal_strlit("plan_updated");
    reveal_strlit("run_started");
    reveal_strlit("started");
    reveal_strlit("status");
    reveal_strlit("status_changed");
    reveal_strlit("assistant_delta");
    reveal_strlit("agent_message_delta");
    reveal_strlit("message_delta");
    reveal_strlit("assistant_final");
    reveal_strlit("agent_message");
    reveal_strlit("message");
    reveal_strlit("tool_started");
    reveal_strlit("tool_call_started");
    reveal_strlit("tool_finished");
    reveal_strlit("tool_call_finished");
    reveal_strlit("run_finished");
    reveal_strlit("finished");
    reveal_strlit("done");
    reveal_strlit("run_failed");
    reveal_strlit("failed");
    reveal_strlit("error");
    reveal_strlit("delta");
    reveal_strlit("final");
    let p = "plan_updated"@;
    assert(p.len() == 12 && p[0] == 'p' && "tool_started"@[0] == 't' && "run_finished"@[0] == 'r');
    assert("run_started"@.len() == 11 && "started"@.len() == 7 && "status"@.len() == 6
        && "status_changed"@.len() == 14 && "assistant_delta"@.len() == 15
        && "agent_message_delta"@.len() == 19 && "message_delta"@.len() == 13
        && "assistant_final"@.len() == 15 && "agent_message"@.len() == 13 && "message"@.len() == 7
        && "tool_call_started"@.len() == 17 && "tool_finished"@.len() == 13
        && "tool_call_finished"@.len() == 18 && "finished"@.len() == 8 && "done"@.len() == 4
        && "run_failed"@.len() == 10 && "failed"@.len() == 6 && "error"@.len() == 5);
    if has_text(p, "delta"@) {
        let k = choose|k: int| crate::text::occurs_at(p, "delta"@, k);
        let s = p.subrange(k, k + "delta"@.len());
        assert(s[0] == 'd' && s[1] == 'e' && s[2] == 'l');
        assert(p[k] == 'd' && p[k + 2] == 'l');
    }
    if has_text(p, "final"@) {
        let k = choose|k: int| crate::text::occurs_at(p, "final"@, k);
        let s = p.subrange(k, k + "final"@.len());
        assert(s[0] == 'f');
        assert(p[k] == 'f');
    }
}

/// The words of a line that is known by its own name: its content, else its delta, its
/// message, its text, its summary, its end or its status.
pub proof fn lemma_words_of_named_lines(raw: Tree, text: Seq<char>)
    ensures
        says(raw, "content"@, text) ==> generic_content(raw) == text,
        member(raw, "content"@) is None && says(raw, "delta"@, text) ==> generic_content(raw)
            == text,
        member(raw, "content"@) is None && member(raw, "delta"@) is None && says(
            raw,
            "message"@,
            text,
        ) ==> generic_content(raw) == text,
        member(raw, "content"@) is None && member(raw, "delta"@) is None && member(
            raw,
            "message"@,
        ) is None && says(raw, "text"@, text) ==> generic_content(raw) == text,
        member(raw, "content"@) is None && member(raw, "delta"@) is None && member(
            raw,
            "message"@,
        ) is None && member(raw, "text"@) is None && says(raw, "summary"@, text)
            ==> generic_content(raw) == text,
        member(raw, "content"@) is None && member(raw, "delta"@) is None && member(
            raw,
            "message"@,
        ) is None && member(raw, "text"@) is None && member(raw, "summary"@) is None && says(
            raw,
            "final"@,
            text,
        ) ==> generic_content(raw) == text,
        member(raw, "content"@) is None && member(raw, "delta"@) is None && member(
            raw,
            "message"@,
        ) is None && member(raw, "text"@) is None && member(raw, "summary"@) is None && member(
            raw,
            "final"@,
        ) is None && says(raw, "status"@, text) ==> generic_content(raw) == text,
{
}

/// The title of a line that is known by its own name: its title, else its name, else
/// that of its tool.
pub proof fn lemma_titles_of_named_lines(raw: Tree, kind: Seq<char>, text: Seq<char>)
    requires
        kind != "plan_updated"@,
        kind != "todo_list"@,
    ensures
        generic_type(kind) is None ==> generic_event(kind, raw) is None,
        generic_type(kind) matches Some(t) ==> (generic_event(kind, raw) matches Some(e)
            && e.event_type == t && e.raw == raw && e.content == generic_content(raw) && (says(
            raw,
            "title"@,
            text,
        ) ==> e.title == Some(text)) && (member(raw, "title"@) is None && says(raw, "name"@, text)
            ==> e.title == Some(text)) && (member(raw, "title"@) is None && member(
            raw,
            "name"@,
        ) is None && says(raw, "tool_name"@, text) ==> e.title == Some(text)) && (member(
            raw,
            "title"@,
        ) is None && member(raw, "name"@) is None && member(raw, "tool_name"@) is None
            ==> e.title is None)),
{
}

/// A plan stands among the items of its item, else among its own; a line with steps
/// is a plan, and one without is none.
pub proof fn lemma_where_plans_stand(raw: Tree, item: Tree, items: Seq<Tree>)
    ensures
        member(raw, "item"@) == Some(item) && member(item, "items"@) == Some(Tree::List(items))
            ==> plan_steps(raw) == item_steps(items),
        member(raw, "item"@) is None && member(raw, "items"@) == Some(Tree::List(items))
            ==> plan_steps(raw) == item_steps(items),
        member(raw, "item"@) is None && member(raw, "items"@) is None ==> plan_steps(raw).len()
            == 0,
        plan_steps(raw).len() > 0 ==> (generic_event("plan_updated"@, raw) matches Some(e)
            && e.event_type == ExternalCliProgressEventType::PlanUpdated),
        plan_steps(raw).len() > 0 ==> (generic_event("todo_list"@, raw) matches Some(e)
            && e.event_type == ExternalCliProgressEventType::PlanUpdated),
        plan_steps(raw).len() == 0 ==> generic_event("plan_updated"@, raw) is None,
{
    lemma_names_that_speak(Seq::empty(), Seq::empty());
}

/// The words of a step: its text, else its step, its content or its title.
pub proof fn lemma_words_of_steps(item: Tree, text: Seq<char>)
    requires
        !blank(text),
        says(item, "text"@, text) || (member(item, "text"@) is None && says(item, "step"@, text))
            || (member(item, "text"@) is None && member(item, "step"@) is None && says(
            item,
            "content"@,
            text,
        )) || (member(item, "text"@) is None && member(item, "step"@) is None && member(
            item,
            "content"@,
        ) is None && says(item, "title"@, text)),
    ensures
        item_step(item) matches Some(s) && s.step == trimmed(text) && (member(
            item,
            "completed"@,
        ) is None && member(item, "status"@) is None ==> s.status == PlanStepStatus::Pending),
{
}

/// What a tool wrote to either side is shown, what it complained of last.
pub proof fn lemma_both_sides_of_tools(content: Seq<char>, stderr: Seq<char>)
    ensures
        blank(stderr) ==> tool_output(content, stderr) == content,
        !blank(stderr) && blank(content) ==> tool_output(content, stderr) == stderr,
        !blank(stderr) && !blank(content) ==> tool_output(content, stderr) == content + "\n"@
            + stderr,
{
}

/// The identifier of a call stands under one of three names.
pub proof fn lemma_identifiers_of_calls(part: Tree, id: Seq<char>)
    ensures
        says(part, "id"@, id) ==> tool_use_id(part) == Some(id),
        member(part, "id"@) is None && says(part, "tool_use_id"@, id) ==> tool_use_id(part) == Some(
            id,
        ),
        member(part, "id"@) is None && member(part, "tool_use_id"@) is None && says(
            part,
            "toolUseId"@,
            id,
        ) ==> tool_use_id(part) == Some(id),
        member(part, "id"@) is None && member(part, "tool_use_id"@) is None && member(
            part,
            "toolUseId"@,
        ) is None ==> tool_use_id(part) is None,
{
}

/// The name of a tool is the title of its event, else what the event calls it.
pub proof fn lemma_names_of_tools(e: EventView, default: Seq<char>, text: Seq<char>)
    requires
        !blank(text),
    ensures
        e.title == Some(text) ==> event_tool_name(e, default) == trimmed(text),
        e.title is None && says(e.raw, "tool_name"@, text) ==> event_tool_name(e, default)
            == trimmed(text),
        e.title is None && member(e.raw, "tool_name"@) is None && says(e.raw, "name"@, text)
            ==> event_tool_name(e, default) == trimmed(text),
        e.title is None && member(e.raw, "tool_name"@) is None && member(e.raw, "name"@) is None
            ==> event_tool_name(e, default) == default,
{
}

/// What a tool was called with: the command among its arguments, else the arguments as
/// text, else what its item says, else the arguments as they are.
pub proof fn lemma_arguments_of_tools(raw: Tree, arguments: Tree, item: Tree, text: Seq<char>)
    ensures
        member(raw, "arguments"@) == Some(arguments) && says(arguments, "command"@, text)
            ==> event_arguments(raw) == text,
        says(raw, "arguments"@, text) ==> event_arguments(raw) == text,
        member(raw, "arguments"@) is None && says(raw, "args"@, text) ==> event_arguments(raw)
            == text,
        member(raw, "arguments"@) is None && member(raw, "args"@) is None && member(raw, "item"@)
            == Some(item) && says(item, "command"@, text) ==> event_arguments(raw) == text,
        member(raw, "arguments"@) is None && member(raw, "args"@) is None && member(raw, "item"@)
            == Some(item) && member(item, "command"@) is None && says(item, "arguments"@, text)
            ==> event_arguments(raw) == text,
        member(raw, "arguments"@) == Some(arguments) && arguments is List && member(
            raw,
            "args"@,
        ) is None && member(raw, "item"@) is None ==> event_arguments(raw) == text_of_json(
            arguments,
        ),
        member(raw, "arguments"@) is None && member(raw, "args"@) is None && member(
            raw,
            "item"@,
        ) is None ==> event_arguments(raw).len() == 0,
{
}

/// A tool is known by the identifier of its item, else by its own.
pub proof fn lemma_keys_of_items(raw: Tree, item: Tree, id: Seq<char>)
    requires
        !blank(id),
    ensures
        member(raw, "item"@) == Some(item) && says(item, "id"@, id) ==> item_key(raw) == Some(
            trimmed(id),
        ),
        member(raw, "item"@) is None && says(raw, "item_id"@, id) ==> item_key(raw) == Some(
            trimmed(id),
        ),
        member(raw, "item"@) is None && member(raw, "item_id"@) is None && says(raw, "id"@, id)
            ==> item_key(raw) == Some(trimmed(id)),
        member(raw, "item"@) is None && member(raw, "item_id"@) is None && member(raw, "id"@) is None
            ==> item_key(raw) is None,
{
}

/// A tool that starts is under way from then on, one that finishes no longer, and no
/// other event changes what is under way.
pub proof fn lemma_tools_under_way(
    e: EventView,
    at: u64,
    started: Map<Seq<char>, u64>,
    key: Seq<char>,
    other: Seq<char>,
)
    requires
        item_key(stamped(e.raw, at)) == Some(key),
    ensures
        e.event_type == ExternalCliProgressEventType::ToolStarted ==> started_after(
            e,
            at,
            started,
        ).contains_key(key) && started_after(e, at, started)[key] == at,
        e.event_type == ExternalCliProgressEventType::ToolFinished ==> !started_after(
            e,
            at,
            started,
        ).contains_key(key),
        e.event_type != ExternalCliProgressEventType::ToolStarted && e.event_type
            != ExternalCliProgressEventType::ToolFinished ==> started_after(e, at, started)
            == started,
        other != key ==> started_after(e, at, started).contains_key(other) == started.contains_key(
            other,
        ),
{
}

/// Numbers and truth values are read as text where a text is asked for; lists and
/// objects are not.
pub proof fn lemma_values_as_text(n: u64, m: i64, b: bool, v: Seq<Tree>)
    ensures
        scalar_text(Some(Tree::Unsigned(n))) == Some(decimal(n as nat)),
        m < 0 ==> scalar_text(Some(Tree::Signed(m))) == Some(seq!['-'] + decimal((-m) as nat)),
        scalar_text(Some(Tree::Bool(true))) == Some("true"@),
        scalar_text(Some(Tree::Bool(false))) == Some("false"@),
        scalar_text(Some(Tree::Null)) is None,
        scalar_text(Some(Tree::List(v))) is None,
        scalar_text(None) is None,
{
}

/// A member of an object is the first of its name.
pub proof fn lemma_members_of_objects(m: Seq<(Seq<char>, Tree)>, at: int, key: Seq<char>)
    ensures
        0 <= at < m.len() && m[at].0 == key && (forall|i: int|
            0 <= i < at ==> (#[trigger] m[i]).0 != key) ==> member(Tree::Object(m), key) == Some(
            m[at].1,
        ),
        (forall|i: int| 0 <= i < m.len() ==> (#[trigger] m[i]).0 != key) ==> member(
            Tree::Object(m),
            key,
        ) is None,
        member(Tree::Null, key) is None,
    decreases m.len(),
{
    if m.len() > 0 {
        let tail = m.drop_first();
        lemma_members_of_objects(tail, at - 1, key);
        if 0 < at < m.len() && (forall|i: int| 0 <= i < at ==> (#[trigger] m[i]).0 != key) {
            assert(m[0].0 != key);
            assert(tail[at - 1] == m[at]);
            assert forall|i: int| 0 <= i < at - 1 implies (#[trigger] tail[i]).0 != key by {
                assert(tail[i] == m[i + 1]);
            }
        }
        if forall|i: int| 0 <= i < m.len() ==> (#[trigger] m[i]).0 != key {
            assert(m[0].0 != key);
            assert forall|i: int| 0 <= i < tail.len() implies (#[trigger] tail[i]).0 != key by {
                assert(tail[i] == m[i + 1]);
            }
        }
    }
}

/// Lines that have no type go by their event, and those without one by their kind.
pub proof fn lemma_other_names_of_kinds(raw: Tree, tools: ToolsView, kind: Seq<char>)
    requires
        says(raw, "type"@, kind) || (member(raw, "type"@) is None && says(raw, "event"@, kind)) || (
        member(raw, "type"@) is None && member(raw, "event"@) is None && says(raw, "kind"@, kind)),
    ensures
        kind == "result"@ ==> (event_of(raw, tools) matches Some(e) && (e.event_type
            == ExternalCliProgressEventType::RunFailed <==> says_error(raw))),
        kind == "turn.completed"@ ==> (event_of(raw, tools) matches Some(e) && e.event_type
            == ExternalCliProgressEventType::RunFinished),
        kind == "assistant"@ ==> tools_of(raw, tools) == tools_after(raw, tools),
        kind != "assistant"@ ==> tools_of(raw, tools) == tools,
{
    lemma_kinds_differ();
}

/// What the events of an agent are called where the line does not say.
pub proof fn lemma_titles_of_lines(raw: Tree, tools: ToolsView)
    ensures
        says(raw, "type"@, "thread.started"@) ==> (event_of(raw, tools) matches Some(e) && e.title
            == Some("Codex thread"@) && e.raw == raw),
        says(raw, "type"@, "turn.started"@) ==> (event_of(raw, tools) matches Some(e) && e.title
            == Some("Codex turn"@) && e.content == "turn started"@),
        says(raw, "type"@, "turn.completed"@) ==> (event_of(raw, tools) matches Some(e) && e.title
            == Some("Codex turn"@) && e.content == "turn completed"@),
        says(raw, "type"@, "result"@) ==> (event_of(raw, tools) matches Some(e) && e.title == Some(
            claude_product() + " result"@,
        )),
        says(raw, "type"@, "thread.started"@) && member(raw, "thread_id"@) is None ==> (event_of(
            raw,
            tools,
        ) matches Some(e) && e.content == "thread started"@),
        says(raw, "type"@, "system"@) && says(raw, "subtype"@, "init"@) && member(
            raw,
            "session_id"@,
        ) is None && member(raw, "sessionId"@) is None ==> (event_of(raw, tools) matches Some(e)
            && e.content == "session started"@ && e.title == Some(claude_product() + " session"@)),
{
    lemma_kinds_differ();
}

/// Summaries of thoughts are thoughts, and results of tools are ends of tools.
pub proof fn lemma_other_finished_items(raw: Tree, tools: ToolsView, item: Tree)
    ensures
        item_of(raw, "item.completed"@, item, "reasoning_summary"@) ==> (event_of(
            raw,
            tools,
        ) matches Some(e) && e.event_type == ExternalCliProgressEventType::AssistantDelta),
        item_of(raw, "item.completed"@, item, "tool_result"@) ==> (event_of(
            raw,
            tools,
        ) matches Some(e) && e.event_type == ExternalCliProgressEventType::ToolFinished),
        item_of(raw, "item.completed"@, item, "file_change"@) ==> (event_of(
            raw,
            tools,
        ) matches Some(e) && e.event_type == ExternalCliProgressEventType::Status),
{
    lemma_kinds_differ();
    reveal_strlit("reasoning_summary");
    reveal_strlit("tool_result");
    reveal_strlit("file_change");
    reveal_strlit("todo_list");
    reveal_strlit("command_execution");
    reveal_strlit("agent_message");
    reveal_strlit("reasoning");
    reveal_strlit("tool_call");
    assert("reasoning_summary"@.len() == 17 && "tool_result"@.len() == 11 && "file_change"@.len()
        == 11 && "todo_list"@.len() == 9 && "command_execution"@.len() == 17
        && "agent_message"@.len() == 13 && "reasoning"@.len() == 9 && "tool_call"@.len() == 9);
    assert("reasoning_summary"@[0] == 'r' && "command_execution"@[0] == 'c' && "tool_result"@[0]
        == 't' && "file_change"@[0] == 'f');
}

/// A result of a tool without words shows what the tool wrote, and one without a name
/// for its call under the first spelling goes by the other.
pub proof fn lemma_results_without_words(
    raw: Tree,
    tools: ToolsView,
    parts: Seq<Tree>,
    at: int,
    id: Seq<char>,
    run: Tree,
    out: Seq<char>,
    complaint: Seq<char>,
)
    requires
        says(raw, "type"@, "user"@),
        content_is(raw, Tree::List(parts)),
        0 <= at < parts.len(),
        says(parts[at], "type"@, "tool_result"@),
        forall|i: int| 0 <= i < at ==> !says(#[trigger] parts[i], "type"@, "tool_result"@),
        member(parts[at], "tool_use_id"@) is None,
        says(parts[at], "toolUseId"@, id),
        member(parts[at], "content"@) is None,
        member(raw, "tool_use_result"@) == Some(run),
        says(run, "stdout"@, out),
        says(run, "stderr"@, complaint),
    ensures
        event_of(raw, tools) matches Some(e) && e.event_type
            == ExternalCliProgressEventType::ToolFinished && e.content == tool_output(out, complaint)
            && (tools.contains_key(id) ==> e.title == Some(tools[id].0)),
{
    lemma_kinds_differ();
    lemma_first_part(parts, at, "tool_result"@);
}

/// How long a tool took may be written in either way.
pub proof fn lemma_other_durations(
    session_key: Seq<char>,
    adapter: Seq<char>,
    context: ContextView,
    e: EventView,
    ms: u64,
)
    requires
        e.event_type == ExternalCliProgressEventType::ToolFinished,
        member(e.raw, "durationMs"@) is None,
    ensures
        member(e.raw, "duration_ms"@) == Some(Tree::Unsigned(ms)) ==> (turn_event(
            session_key,
            adapter,
            context,
            e,
        ) matches Some(t) && t->ToolFinished_duration_ms == ms),
        member(e.raw, "duration_ms"@) is None ==> (turn_event(
            session_key,
            adapter,
            context,
            e,
        ) matches Some(t) && t->ToolFinished_duration_ms == 0),
{
}

/// Tools without a name are those of the runner.
pub proof fn lemma_nameless_tools(
    key: Seq<char>,
    adapter: Seq<char>,
    context: ContextView,
    e: EventView,
)
    ensures
        e.event_type == ExternalCliProgressEventType::ToolStarted ==> turn_event(
            key,
            adapter,
            context,
            e,
        ) == Some(
            TurnView::ToolStarted {
                tool_name: event_tool_name(e, "runner"@),
                arguments: e.content,
            },
        ),
        e.event_type == ExternalCliProgressEventType::ToolFinished ==> (turn_event(
            key,
            adapter,
            context,
            e,
        ) matches Some(TurnView::ToolFinished { tool_name, result, .. }) && tool_name
            == event_tool_name(e, "runner"@) && result == e.content),
{
}

/// The first part of a kind is the one that counts.
pub proof fn lemma_first_part_of_a_kind(parts: Seq<Tree>, at: int, kind: Seq<char>)
    requires
        0 <= at < parts.len(),
        says(parts[at], "type"@, kind),
        forall|j: int| 0 <= j < at ==> !says(#[trigger] parts[j], "type"@, kind),
    ensures
        part_of_type(parts, kind) == Some(parts[at]),
    decreases parts.len(),
{
    if at > 0 {
        assert(!says(parts[0], "type"@, kind));
        let rest = parts.drop_first();
        assert(rest[at - 1] == parts[at]);
        assert forall|j: int| 0 <= j < at - 1 implies !says(#[trigger] rest[j], "type"@, kind) by {
            assert(rest[j] == parts[j + 1]);
        }
        lemma_first_part_of_a_kind(rest, at - 1, kind);
    }
}

/// Lines of the assistant are shown under the name of the product; those without words
/// only tell that work goes on.
pub proof fn lemma_titles_of_assistant_lines(raw: Tree, tools: ToolsView)
    requires
        says(raw, "type"@, "assistant"@),
        crate::progress::tool_use_event(raw) is None,
    ensures
        event_of(raw, tools) matches Some(e) && e.title == Some(claude_product() + " assistant"@)
            && e.raw == raw && (e.event_type == ExternalCliProgressEventType::Status <==> blank(
            e.content,
        )) && (e.event_type == ExternalCliProgressEventType::AssistantFinal <==> !blank(e.content)),
{
    lemma_kinds_differ();
}

} // verus!
