//! What the building of commands is for: which words an agent is started with, and
//! what each setting adds to them.

use vstd::prelude::*;

use crate::agent_config::{
    cleaned, unset_config, AdapterConfigView, CHATGPT_WEB_ADAPTER, CLAUDE_CODE_ADAPTER,
    DEFAULT_ADAPTER, TRAEX_ADAPTER,
};
use crate::command_spec::{
    before_stdin, claude_configured, claude_danger, claude_generated, claude_kept,
    claude_permission_mode, codex_args, codex_danger, codex_generated, codex_kept,
    default_claude_args, default_exec_args, expected_command, flag_when, flag_with, given,
    has_work_dir_flag, names_service_tier, names_web_search, on, override_key, quoted_config,
    reasoning_config, repeated, resumed_session, resumed_thread, traex_danger, traex_generated,
    traex_kept, traex_permission_mode, with_last_message, without_flag, without_override,
    without_reasoning,
};
use crate::json::{member, Tree};
use crate::request::ExternalCliRunRequest;
use crate::text::{has_prefix, opt, trimmed};

verus! {

broadcast use vstd::string::group_string_axioms;

/// Whether an option stands among arguments, with its value right behind it.
pub open spec fn has_option(args: Seq<Seq<char>>, flag: Seq<char>, value: Seq<char>) -> bool {
    exists|i: int| 0 <= i < args.len() - 1 && #[trigger] args[i] == flag && args[i + 1] == value
}

pub broadcast proof fn lemma_option_of_sum(
    x: Seq<Seq<char>>,
    y: Seq<Seq<char>>,
    flag: Seq<char>,
    value: Seq<char>,
)
    requires
        has_option(x, flag, value) || has_option(y, flag, value),
    ensures
        #[trigger] has_option(x + y, flag, value),
{
    let s = x + y;
    if has_option(x, flag, value) {
        let i = choose|i: int|
            0 <= i < x.len() - 1 && #[trigger] x[i] == flag && x[i + 1] == value;
        assert(s[i] == flag && s[i + 1] == value);
    } else {
        let i = choose|i: int|
            0 <= i < y.len() - 1 && #[trigger] y[i] == flag && y[i + 1] == value;
        assert(s[x.len() + i] == flag && s[x.len() + i + 1] == value);
    }
}

pub broadcast proof fn lemma_option_of_pair(
    flag: Seq<char>,
    given: Option<Seq<char>>,
    value: Seq<char>,
)
    requires
        given == Some(value),
    ensures
        #[trigger] has_option(flag_with(flag, given), flag, value),
{
    lemma_two_words(flag, value);
}

pub broadcast proof fn lemma_option_of_config(
    prefix: Seq<char>,
    given: Option<Seq<char>>,
    value: Seq<char>,
)
    requires
        given is Some,
        value == prefix + given->Some_0 + "\""@,
    ensures
        #[trigger] has_option(quoted_config(prefix, given), "--config"@, value),
{
    lemma_two_words("--config"@, value);
}

proof fn lemma_two_words(flag: Seq<char>, value: Seq<char>)
    ensures
        has_option(seq![flag, value], flag, value),
{
    let s = seq![flag, value];
    assert(s[0] == flag && s[1] == value);
}

pub broadcast proof fn lemma_word_of_sum(x: Seq<Seq<char>>, y: Seq<Seq<char>>, word: Seq<char>)
    ensures
        #[trigger] (x + y).contains(word) <==> x.contains(word) || y.contains(word),
{
    let s = x + y;
    if x.contains(word) {
        let i = choose|i: int| 0 <= i < x.len() && x[i] == word;
        assert(s[i] == word);
    }
    if y.contains(word) {
        let i = choose|i: int| 0 <= i < y.len() && y[i] == word;
        assert(s[x.len() + i] == word);
    }
    if s.contains(word) {
        let i = choose|i: int| 0 <= i < s.len() && s[i] == word;
        if i < x.len() {
            assert(x[i] == word);
        } else {
            assert(y[i - x.len()] == word);
        }
    }
}

// ---------------------------------------------------------------------------
// Going on with a session
// ---------------------------------------------------------------------------

/// Whether parameters name a session: the first of the four names that is there.
pub open spec fn names_session(params: Tree, id: Seq<char>) -> bool {
    let named = Some(Tree::Text(id));
    ||| member(params, "sessionId"@) == named
    ||| member(params, "sessionId"@) is None && member(params, "session_id"@) == named
    ||| member(params, "sessionId"@) is None && member(params, "session_id"@) is None && member(
        params,
        "threadId"@,
    ) == named
    ||| member(params, "sessionId"@) is None && member(params, "session_id"@) is None && member(
        params,
        "threadId"@,
    ) is None && member(params, "thread_id"@) == named
}

/// Whether parameters name a thread.
pub open spec fn names_thread(params: Tree, id: Seq<char>) -> bool {
    let named = Some(Tree::Text(id));
    ||| member(params, "threadId"@) == named
    ||| member(params, "threadId"@) is None && member(params, "thread_id"@) == named
}

/// Whether parameters name neither a session nor a thread.
pub open spec fn names_nothing(params: Tree) -> bool {
    &&& member(params, "sessionId"@) is None
    &&& member(params, "session_id"@) is None
    &&& member(params, "threadId"@) is None
    &&& member(params, "thread_id"@) is None
}

/// A session of `claude_code` that the parameters name is gone on with: the command
/// is the one for a new session, with `--resume` and the session behind it.
pub proof fn lemma_named_sessions_are_resumed(
    request: ExternalCliRunRequest,
    new: ExternalCliRunRequest,
    last_message: Seq<char>,
    id: Seq<char>,
)
    requires
        request.adapter@ == "claude_code"@,
        new.adapter@ == "claude_code"@,
        request.adapter_config@ == new.adapter_config@,
        request.adapter_config@.args.len() == 0,
        names_session(request.params@, id),
        trimmed(id).len() > 0,
        names_nothing(new.params@),
    ensures
        expected_command(request, last_message) is Ok,
        expected_command(new, last_message) is Ok,
        expected_command(request, last_message)->Ok_0.args == expected_command(
            new,
            last_message,
        )->Ok_0.args + seq!["--resume"@, trimmed(id)],
{
    lemma_adapters_differ();
    let args = expected_command(new, last_message)->Ok_0.args;
    assert(args + Seq::<Seq<char>>::empty() =~= args);
    assert(resumed_session(request.params@) == Some(trimmed(id)));
    assert(resumed_session(new.params@) is None);
}

/// A command of `claude_code` that names no session goes on with none: no word for
/// it is among the arguments, unless a setting is that word.
pub proof fn lemma_unnamed_sessions_are_new(
    request: ExternalCliRunRequest,
    last_message: Seq<char>,
    word: Seq<char>,
)
    requires
        request.adapter@ == "claude_code"@,
        request.adapter_config@.args.len() == 0,
        forall|id: Seq<char>| trimmed(id).len() > 0 ==> !#[trigger] names_session(
            request.params@,
            id,
        ),
        word == "--resume"@ || word == "--continue"@,
        request.adapter_config@.model != Some(word),
        cleaned(request.adapter_config@.permission_mode) != Some(word),
        cleaned(request.adapter_config@.reasoning_effort) != Some(word),
        forall|i: int|
            0 <= i < request.adapter_config@.add_dirs.len() ==> trimmed(
                #[trigger] request.adapter_config@.add_dirs[i],
            ) != word,
    ensures
        expected_command(request, last_message) is Ok,
        !expected_command(request, last_message)->Ok_0.args.contains(word),
{
    broadcast use lemma_word_of_sum;

    lemma_adapters_differ();
    let c = request.adapter_config@;
    let params = request.params@;
    if resumed_session(params) is Some {
        assert(exists|id: Seq<char>| trimmed(id).len() > 0 && #[trigger] names_session(params, id))
            by {
            let found = crate::json::first_of(
                crate::json::first_of(
                    crate::json::first_of(
                        member(params, "sessionId"@),
                        member(params, "session_id"@),
                    ),
                    member(params, "threadId"@),
                ),
                member(params, "thread_id"@),
            );
            let id = found->Some_0->Text_0;
            assert(names_session(params, id));
        }
    }
    reveal_strlit("--resume");
    reveal_strlit("--continue");
    reveal_strlit("--model");
    reveal_strlit("--permission-mode");
    reveal_strlit("--dangerously-skip-permissions");
    reveal_strlit("--effort");
    reveal_strlit("--add-dir");
    reveal_strlit("acceptEdits");
    reveal_strlit("bypassPermissions");
    reveal_strlit("dontAsk");
    reveal_strlit("-p");
    reveal_strlit("--verbose");
    reveal_strlit("--output-format");
    reveal_strlit("stream-json");
    reveal_strlit("--input-format");
    reveal_strlit("text");
    reveal_strlit("-");
    assert("--resume"@[2] == 'r' && "--continue"@[2] == 'c' && "--resume"@[0] == '-'
        && "--continue"@[0] == '-');
    assert("--model"@[2] == 'm' && "--permission-mode"@[2] == 'p'
        && "--dangerously-skip-permissions"@[2] == 'd' && "--effort"@[2] == 'e' && "--add-dir"@[2]
        == 'a');
    assert("acceptEdits"@[0] == 'a' && "bypassPermissions"@[0] == 'b' && "dontAsk"@[0] == 'd'
        && "stream-json"@[0] == 's' && "text"@[0] == 't');
    assert("--verbose"@[2] == 'v' && "--output-format"@[2] == 'o' && "--input-format"@[2] == 'i');
    assert("-p"@.len() == 2 && "-"@.len() == 1);
    let base = default_claude_args();
    assert(!base.contains(word)) by {
        assert forall|i: int| 0 <= i < base.len() implies base[i] != word by {
            assert(base[i] == base[0] || base[i] == base[1] || base[i] == base[2] || base[i]
                == base[3] || base[i] == base[4] || base[i] == base[5]);
        }
    }
    crate::command_spec::lemma_without_flag(base, "--model"@);
    let a = crate::command_spec::without_flag_when(base, "--model"@, c.model is Some);
    crate::command_spec::lemma_without_flag(a, "--permission-mode"@);
    let b = without_flag(a, "--permission-mode"@);
    crate::command_spec::lemma_without_flag(b, "--effort"@);
    let kept = claude_kept(base, c);
    assert(!kept.contains(word));
    lemma_repeated_words("--add-dir"@, c.add_dirs, word);
    assert(!flag_with("--model"@, c.model).contains(word));
    assert(!claude_generated(c).contains(word));
    assert(!seq!["-"@].contains(word));
    if kept.len() > 0 && kept.last() == "-"@ {
        assert forall|i: int| 0 <= i < kept.drop_last().len() implies kept.drop_last()[i] != word by {
            assert(kept[i] != word);
        }
    }
    let none = flag_with("--resume"@, resumed_session(params));
    assert(none =~= Seq::<Seq<char>>::empty());
}

proof fn lemma_repeated_words(flag: Seq<char>, values: Seq<Seq<char>>, word: Seq<char>)
    requires
        flag != word,
        forall|i: int| 0 <= i < values.len() ==> trimmed(#[trigger] values[i]) != word,
    ensures
        !repeated(flag, values).contains(word),
    decreases values.len(),
{
    broadcast use lemma_word_of_sum;

    if values.len() > 0 {
        let head = values.drop_last();
        assert forall|i: int| 0 <= i < head.len() implies trimmed(#[trigger] head[i]) != word by {
            assert(head[i] == values[i]);
        }
        lemma_repeated_words(flag, head, word);
        assert(trimmed(values[values.len() - 1]) != word);
        assert(!flag_with(flag, cleaned(Some(values.last()))).contains(word));
    }
}

/// Own arguments of `claude_code` say themselves what to go on with: the parameters
/// change nothing.
pub proof fn lemma_own_arguments_decide(
    request: ExternalCliRunRequest,
    other: ExternalCliRunRequest,
    last_message: Seq<char>,
)
    requires
        request.adapter@ == "claude_code"@,
        other.adapter@ == "claude_code"@,
        request.adapter_config@ == other.adapter_config@,
        request.adapter_config@.args.len() > 0,
    ensures
        expected_command(request, last_message) is Ok,
        expected_command(other, last_message) is Ok,
        expected_command(request, last_message)->Ok_0.args == expected_command(
            other,
            last_message,
        )->Ok_0.args,
{
    lemma_adapters_differ();
}

proof fn lemma_adapters_differ()
    ensures
        CLAUDE_CODE_ADAPTER@ == "claude_code"@,
        DEFAULT_ADAPTER@ == "codex"@,
        TRAEX_ADAPTER@ == "traex"@,
        CHATGPT_WEB_ADAPTER@ == "chatgpt_web"@,
        "claude_code"@ != "codex"@,
        "claude_code"@ != "traex"@,
        "claude_code"@ != "chatgpt_web"@,
        "codex"@ != "traex"@,
        "codex"@ != "chatgpt_web"@,
        "traex"@ != "chatgpt_web"@,
{
    reveal_strlit("claude_code");
    reveal_strlit("codex");
    reveal_strlit("traex");
    reveal_strlit("chatgpt_web");
    assert("claude_code"@[1] == 'l' && "chatgpt_web"@[1] == 'h');
    assert("codex"@[0] == 'c' && "traex"@[0] == 't');
    assert("claude_code"@.len() == 11 && "codex"@.len() == 5);
}

// ---------------------------------------------------------------------------
// What is started
// ---------------------------------------------------------------------------

/// The program is the configured one, else the one that the adapter is named after;
/// environment, work directory and time limit are the configured ones.
pub proof fn lemma_commands_carry_settings(
    request: ExternalCliRunRequest,
    last_message: Seq<char>,
)
    requires
        request.adapter@ == "codex"@ || request.adapter@ == "traex"@ || request.adapter@
            == "claude_code"@,
    ensures
        expected_command(request, last_message) matches Ok(command) && (
        request.adapter_config@.executable matches Some(e) ==> command.executable == e) && (
        request.adapter_config@.executable is None && request.adapter@ != "claude_code"@
            ==> command.executable == request.adapter@) && (request.adapter_config@.executable is None
            && request.adapter@ == "claude_code"@ ==> command.executable == "claude_code"@.take(6))
            && command.env == request.adapter_config@.env && command.work_dir == opt(
            request.work_dir,
        ) && command.timeout_secs == request.adapter_config@.timeout_secs,
{
    lemma_adapters_differ();
}

/// An agent that nothing is known of is started with its own program and arguments
/// alone, and without either it is refused by its name.
pub proof fn lemma_unknown_agents(request: ExternalCliRunRequest, last_message: Seq<char>)
    requires
        request.adapter@ != "codex"@,
        request.adapter@ != "traex"@,
        request.adapter@ != "claude_code"@,
        request.adapter@ != "chatgpt_web"@,
    ensures
        expected_command(request, last_message) is Err <==> request.adapter_config@.executable is None
            && request.adapter_config@.args.len() == 0,
        expected_command(request, last_message) matches Err(e) ==> e == "adapter '"@
            + request.adapter@ + "' requires explicit adapterConfig.args"@,
        expected_command(request, last_message) matches Ok(command) ==> command.args
            == request.adapter_config@.args && command.env == request.adapter_config@.env
            && command.work_dir == opt(request.work_dir) && command.timeout_secs
            == request.adapter_config@.timeout_secs,
{
    lemma_adapters_differ();
}

/// The web agent is handed its operation and given two hours unless another limit
/// is set.
pub proof fn lemma_web_agent(request: ExternalCliRunRequest, last_message: Seq<char>)
    requires
        request.adapter@ == "chatgpt_web"@,
    ensures
        expected_command(request, last_message) matches Ok(command) && command.args
            == seq![request.operation@] && command.executable == "chatgpt_web"@
            && command.work_dir is None && command.env == Map::<Seq<char>, Seq<char>>::empty() && (
        request.adapter_config@.timeout_secs is None ==> command.timeout_secs == Some(7200u64)) && (
        request.adapter_config@.timeout_secs is Some ==> command.timeout_secs
            == request.adapter_config@.timeout_secs),
{
    lemma_adapters_differ();
}

// ---------------------------------------------------------------------------
// What settings add
// ---------------------------------------------------------------------------

/// Every value that is not blank is handed over behind its option, trimmed.
pub proof fn lemma_repeated_options(flag: Seq<char>, values: Seq<Seq<char>>, i: int)
    requires
        0 <= i < values.len(),
        trimmed(values[i]).len() > 0,
    ensures
        has_option(repeated(flag, values), flag, trimmed(values[i])),
    decreases values.len(),
{
    broadcast use {lemma_option_of_sum, lemma_option_of_pair};

    if i == values.len() - 1 {
        assert(flag_with(flag, cleaned(Some(values.last()))) == seq![flag, trimmed(values[i])]);
    } else {
        lemma_repeated_options(flag, values.drop_last(), i);
    }
}

/// What a list of values adds is what its values add, in their order; a blank value
/// adds nothing.
pub proof fn lemma_repeated_in_order(flag: Seq<char>, values: Seq<Seq<char>>, value: Seq<char>)
    ensures
        repeated(flag, Seq::<Seq<char>>::empty()) == Seq::<Seq<char>>::empty(),
        trimmed(value).len() > 0 ==> repeated(flag, values.push(value)) == repeated(flag, values)
            + seq![flag, trimmed(value)],
        trimmed(value).len() == 0 ==> repeated(flag, values.push(value)) == repeated(flag, values),
{
    assert(values.push(value).drop_last() =~= values);
    assert(repeated(flag, values) + Seq::<Seq<char>>::empty() =~= repeated(flag, values));
}

/// What is put before the mark of standard input is among the arguments.
proof fn lemma_options_before_stdin(
    args: Seq<Seq<char>>,
    more: Seq<Seq<char>>,
    flag: Seq<char>,
    value: Seq<char>,
)
    requires
        has_option(more, flag, value),
    ensures
        has_option(before_stdin(args, more), flag, value),
{
    broadcast use lemma_option_of_sum;

}

proof fn lemma_words_before_stdin(args: Seq<Seq<char>>, more: Seq<Seq<char>>, word: Seq<char>)
    requires
        more.contains(word),
    ensures
        before_stdin(args, more).contains(word),
{
    broadcast use lemma_word_of_sum;

}

proof fn lemma_single_word(word: Seq<char>)
    ensures
        seq![word].contains(word),
{
    assert(seq![word][0] == word);
}

/// The settings of `claude_code` stand among its arguments, own arguments or not.
pub proof fn lemma_claude_code_settings(
    request: ExternalCliRunRequest,
    last_message: Seq<char>,
    i: int,
)
    requires
        request.adapter@ == "claude_code"@,
    ensures
        expected_command(request, last_message) matches Ok(command) && (
        request.adapter_config@.model matches Some(m) ==> has_option(command.args, "--model"@, m)) && (
        request.adapter_config@.reasoning_effort matches Some(e) ==> (trimmed(e).len() > 0
            ==> has_option(command.args, "--effort"@, trimmed(e)))) && (0 <= i
            < request.adapter_config@.add_dirs.len() && trimmed(
            request.adapter_config@.add_dirs[i],
        ).len() > 0 ==> has_option(
            command.args,
            "--add-dir"@,
            trimmed(request.adapter_config@.add_dirs[i]),
        )) && (request.adapter_config@.danger_full_access == Some(true) ==> command.args.contains(
            "--dangerously-skip-permissions"@,
        )) && (request.adapter_config@.danger_full_access is None
            && request.adapter_config@.permission_mode is None ==> command.args.contains(
            "--dangerously-skip-permissions"@,
        )) && (request.adapter_config@.permission_mode matches Some(p) ==> (
        request.adapter_config@.danger_full_access != Some(true) && trimmed(p) == "plan"@
            ==> has_option(command.args, "--permission-mode"@, "plan"@))),
{
    broadcast use {lemma_option_of_sum, lemma_option_of_pair, lemma_word_of_sum};

    lemma_adapters_differ();
    lemma_permission_words();
    let c = request.adapter_config@;
    let g = claude_generated(c);
    let base = if c.args.len() > 0 {
        c.args
    } else {
        default_claude_args()
    };
    let kept = claude_kept(base, c);
    lemma_single_word("--dangerously-skip-permissions"@);
    if c.model is Some {
        assert(flag_with("--model"@, c.model) == seq!["--model"@, c.model->Some_0]);
        assert(has_option(g, "--model"@, c.model->Some_0));
        lemma_options_before_stdin(kept, g, "--model"@, c.model->Some_0);
    }
    if cleaned(c.reasoning_effort) is Some {
        let e = cleaned(c.reasoning_effort)->Some_0;
        assert(flag_with("--effort"@, cleaned(c.reasoning_effort)) == seq!["--effort"@, e]);
        assert(has_option(g, "--effort"@, e));
        lemma_options_before_stdin(kept, g, "--effort"@, e);
    }
    if 0 <= i < c.add_dirs.len() && trimmed(c.add_dirs[i]).len() > 0 {
        lemma_repeated_options("--add-dir"@, c.add_dirs, i);
        assert(has_option(g, "--add-dir"@, trimmed(c.add_dirs[i])));
        lemma_options_before_stdin(kept, g, "--add-dir"@, trimmed(c.add_dirs[i]));
    }
    if claude_danger(c) {
        assert(g.contains("--dangerously-skip-permissions"@));
        lemma_words_before_stdin(kept, g, "--dangerously-skip-permissions"@);
    }
    if c.permission_mode is Some && trimmed(c.permission_mode->Some_0) == "plan"@
        && c.danger_full_access != Some(true) {
        reveal_strlit("plan");
        assert("plan"@.len() == 4);
        assert(claude_permission_mode(c) == Some("plan"@));
        assert(!claude_danger(c));
        assert(flag_with("--permission-mode"@, claude_permission_mode(c)) == seq![
            "--permission-mode"@,
            "plan"@,
        ]);
        assert(has_option(g, "--permission-mode"@, "plan"@));
        lemma_options_before_stdin(kept, g, "--permission-mode"@, "plan"@);
    }
}

proof fn lemma_permission_words()
    ensures
        "plan"@ != "default"@,
        "plan"@ != "accept_edits"@,
        "plan"@ != "accept-edits"@,
        "plan"@ != "bypass_permissions"@,
        "plan"@ != "bypass-permissions"@,
        "plan"@ != "dont_ask"@,
        "plan"@ != "dont-ask"@,
        "accept_edits"@ != "default"@,
        "accept-edits"@ != "default"@,
        "bypass_permissions"@ != "default"@,
        "bypass_permissions"@ != "accept_edits"@,
        "bypass_permissions"@ != "accept-edits"@,
        "bypass-permissions"@ != "default"@,
        "bypass-permissions"@ != "accept_edits"@,
        "bypass-permissions"@ != "accept-edits"@,
        "dont_ask"@ != "default"@,
        "dont_ask"@ != "accept_edits"@,
        "dont_ask"@ != "accept-edits"@,
        "dont_ask"@ != "bypass_permissions"@,
        "dont_ask"@ != "bypass-permissions"@,
        "dont-ask"@ != "default"@,
        "dont-ask"@ != "accept_edits"@,
        "dont-ask"@ != "accept-edits"@,
        "dont-ask"@ != "bypass_permissions"@,
        "dont-ask"@ != "bypass-permissions"@,
{
    reveal_strlit("plan");
    reveal_strlit("default");
    reveal_strlit("accept_edits");
    reveal_strlit("accept-edits");
    reveal_strlit("bypass_permissions");
    reveal_strlit("bypass-permissions");
    reveal_strlit("dont_ask");
    reveal_strlit("dont-ask");
    assert("plan"@.len() == 4 && "default"@.len() == 7 && "accept_edits"@.len() == 12
        && "accept-edits"@.len() == 12 && "bypass_permissions"@.len() == 18
        && "bypass-permissions"@.len() == 18 && "dont_ask"@.len() == 8 && "dont-ask"@.len() == 8);
}

/// The permission modes of `claude_code` can be written in three ways each; the
/// default mode is not handed over, and every other word stays as it is.
pub proof fn lemma_permission_modes(c: AdapterConfigView, word: Seq<char>)
    requires
        c.permission_mode == Some(word),
        trimmed(word) == word,
        word.len() > 0,
    ensures
        word == "default"@ ==> claude_permission_mode(c) is None,
        word == "accept_edits"@ || word == "accept-edits"@ ==> claude_permission_mode(c) == Some(
            "acceptEdits"@,
        ),
        word == "bypass_permissions"@ || word == "bypass-permissions"@ ==> claude_permission_mode(c)
            == Some("bypassPermissions"@),
        word == "dont_ask"@ || word == "dont-ask"@ ==> claude_permission_mode(c) == Some(
            "dontAsk"@,
        ),
        word == "acceptEdits"@ || word == "plan"@ ==> claude_permission_mode(c) == Some(word),
        c.danger_full_access is None ==> (claude_danger(c) <==> word == "default"@),
        word == "default"@ ==> traex_permission_mode(c) == "bypass_permissions"@,
        word != "default"@ ==> traex_permission_mode(c) == word,
        c.danger_full_access is None ==> (traex_danger(c) <==> word == "default"@ || word
            == "bypass_permissions"@),
{
    lemma_permission_words();
    reveal_strlit("acceptEdits");
    reveal_strlit("default");
    reveal_strlit("accept_edits");
    reveal_strlit("accept-edits");
    reveal_strlit("bypass_permissions");
    reveal_strlit("bypass-permissions");
    reveal_strlit("dont_ask");
    reveal_strlit("dont-ask");
    assert("acceptEdits"@.len() == 11 && "default"@.len() == 7 && "accept_edits"@.len() == 12
        && "accept-edits"@.len() == 12 && "bypass_permissions"@.len() == 18
        && "bypass-permissions"@.len() == 18 && "dont_ask"@.len() == 8 && "dont-ask"@.len() == 8);
}

/// What is said of danger goes before what follows from the other settings.
pub proof fn lemma_danger(c: AdapterConfigView)
    ensures
        c.danger_full_access == Some(true) ==> codex_danger(c) && traex_danger(c) && claude_danger(
            c,
        ),
        c.danger_full_access == Some(false) ==> !codex_danger(c) && !traex_danger(c)
            && !claude_danger(c),
        c.danger_full_access is None ==> (codex_danger(c) <==> c.sandbox is None
            && c.approval_policy is None),
        c.danger_full_access is None && c.permission_mode is None ==> traex_danger(c)
            && claude_danger(c),
{
}

/// The settings of Codex stand among its arguments, own arguments or not.
pub proof fn lemma_codex_settings(request: ExternalCliRunRequest, last_message: Seq<char>, i: int)
    requires
        request.adapter@ == "codex"@,
    ensures
        expected_command(request, last_message) matches Ok(command) && codex_says(
            command.args,
            request.adapter_config@,
            i,
        ) && (!(exists|id: Seq<char>| #[trigger]
            names_thread(request.params@, id)) ==> codex_says_first(
            command.args,
            request.adapter_config@,
            i,
        )),
{
    lemma_adapters_differ();
    let c = request.adapter_config@;
    let params = request.params@;
    let resume = resumed_thread(params);
    let args = codex_args(c, params, opt(request.work_dir), last_message);
    if resume is Some {
        let found = crate::json::first_of(member(params, "threadId"@), member(params, "thread_id"@));
        assert(names_thread(params, found->Some_0->Text_0));
    }
    let base = crate::command_spec::exec_base(c.args, resume);
    let placed = match opt(request.work_dir) {
        Some(d) => crate::command_spec::with_codex_work_dir(base, d),
        None => base,
    };
    let kept = codex_kept(with_last_message(placed, last_message), c);
    lemma_codex_generated(c, resume is Some, i);
    lemma_codex_said(kept, c, resume is Some, crate::command_spec::exec_tail(c.args, resume), i);
}

/// What Codex is told whether a thread is new or not.
pub open spec fn codex_says(args: Seq<Seq<char>>, c: AdapterConfigView, i: int) -> bool {
    &&& c.model matches Some(m) ==> has_option(args, "--model"@, m)
    &&& cleaned(c.approval_policy) matches Some(p) ==> has_option(
        args,
        "--config"@,
        "approval_policy=\""@ + p + "\""@,
    )
    &&& cleaned(c.reasoning_effort) matches Some(e) ==> has_option(
        args,
        "--config"@,
        "model_reasoning_effort=\""@ + e + "\""@,
    )
    &&& cleaned(c.reasoning_summary) matches Some(s) ==> has_option(
        args,
        "--config"@,
        "model_reasoning_summary=\""@ + s + "\""@,
    )
    &&& cleaned(c.local_provider) matches Some(p) ==> has_option(args, "--local-provider"@, p)
    &&& cleaned(c.output_schema) matches Some(p) ==> has_option(args, "--output-schema"@, p)
    &&& cleaned(c.color) matches Some(p) ==> has_option(args, "--color"@, p)
    &&& 0 <= i < c.config_overrides.len() && trimmed(c.config_overrides[i]).len() > 0 ==> has_option(
        args,
        "--config"@,
        trimmed(c.config_overrides[i]),
    )
    &&& 0 <= i < c.enable_features.len() && trimmed(c.enable_features[i]).len() > 0 ==> has_option(
        args,
        "--enable"@,
        trimmed(c.enable_features[i]),
    )
    &&& 0 <= i < c.disable_features.len() && trimmed(c.disable_features[i]).len() > 0 ==> has_option(
        args,
        "--disable"@,
        trimmed(c.disable_features[i]),
    )
    &&& c.search == Some(true) && !names_web_search(c) ==> has_option(
        args,
        "--enable"@,
        "web_search"@,
    )
    &&& !names_service_tier(c) ==> has_option(args, "--config"@, "service_tier=\"fast\""@)
    &&& codex_danger(c) ==> args.contains("--dangerously-bypass-approvals-and-sandbox"@)
    &&& c.dangerously_bypass_hook_trust == Some(true) ==> args.contains(
        "--dangerously-bypass-hook-trust"@,
    )
    &&& c.strict_config == Some(true) ==> args.contains("--strict-config"@)
    &&& c.oss == Some(true) ==> args.contains("--oss"@)
    &&& c.skip_git_repo_check == Some(true) ==> args.contains("--skip-git-repo-check"@)
    &&& c.ignore_user_config == Some(true) ==> args.contains("--ignore-user-config"@)
    &&& c.ignore_rules == Some(true) ==> args.contains("--ignore-rules"@)
    &&& c.ephemeral == Some(true) ==> args.contains("--ephemeral"@)
}

/// What Codex is told of a new thread alone.
pub open spec fn codex_says_first(args: Seq<Seq<char>>, c: AdapterConfigView, i: int) -> bool {
    &&& c.profile matches Some(p) ==> has_option(args, "--profile"@, p)
    &&& c.profile_v2 matches Some(p) ==> has_option(args, "--profile-v2"@, p)
    &&& !codex_danger(c) ==> (c.sandbox matches Some(s) ==> has_option(args, "--sandbox"@, s))
    &&& 0 <= i < c.add_dirs.len() && trimmed(c.add_dirs[i]).len() > 0 ==> has_option(
        args,
        "--add-dir"@,
        trimmed(c.add_dirs[i]),
    )
}

/// Whether words stand together among others.
#[verifier::opaque]
pub open spec fn within(x: Seq<Seq<char>>, z: Seq<Seq<char>>) -> bool {
    exists|n: int| 0 <= n && n + x.len() <= z.len() && #[trigger] z.subrange(n, n + x.len()) == x
}

broadcast proof fn lemma_within_sum(x: Seq<Seq<char>>, y: Seq<Seq<char>>, z: Seq<Seq<char>>)
    requires
        within(x, y) || within(x, z),
    ensures
        #[trigger] within(x, y + z),
{
    reveal(within);
    if within(x, y) {
        let n = choose|n: int|
            0 <= n && n + x.len() <= y.len() && #[trigger] y.subrange(n, n + x.len()) == x;
        assert((y + z).subrange(n, n + x.len()) =~= x);
    } else {
        let n = choose|n: int|
            0 <= n && n + x.len() <= z.len() && #[trigger] z.subrange(n, n + x.len()) == x;
        let m = n + y.len();
        assert((y + z).subrange(m, m + x.len()) =~= z.subrange(n, n + x.len()));
    }
}

broadcast proof fn lemma_within_itself(x: Seq<Seq<char>>)
    ensures
        #[trigger] within(x, x),
{
    reveal(within);
    let n: int = 0;
    assert(x.subrange(n, n + x.len()) =~= x);
}

broadcast proof fn lemma_option_within(
    x: Seq<Seq<char>>,
    z: Seq<Seq<char>>,
    flag: Seq<char>,
    value: Seq<char>,
)
    requires
        #[trigger] within(x, z),
        #[trigger] has_option(x, flag, value),
    ensures
        has_option(z, flag, value),
{
    reveal(within);
    let n = choose|n: int|
        0 <= n && n + x.len() <= z.len() && #[trigger] z.subrange(n, n + x.len()) == x;
    let i = choose|i: int| 0 <= i < x.len() - 1 && #[trigger] x[i] == flag && x[i + 1] == value;
    assert(z[n + i] == x[i] && z[n + i + 1] == x[i + 1]);
}

broadcast proof fn lemma_word_within(x: Seq<Seq<char>>, z: Seq<Seq<char>>, word: Seq<char>)
    requires
        #[trigger] within(x, z),
        #[trigger] x.contains(word),
    ensures
        z.contains(word),
{
    reveal(within);
    let n = choose|n: int|
        0 <= n && n + x.len() <= z.len() && #[trigger] z.subrange(n, n + x.len()) == x;
    let i = choose|i: int| 0 <= i < x.len() && x[i] == word;
    assert(z[n + i] == x[i]);
}

/// The settings of reasoning stand behind each other.
proof fn lemma_reasoning(c: AdapterConfigView)
    ensures
        cleaned(c.reasoning_effort) matches Some(e) ==> has_option(
            reasoning_config(c),
            "--config"@,
            "model_reasoning_effort=\""@ + e + "\""@,
        ),
        cleaned(c.reasoning_summary) matches Some(s) ==> has_option(
            reasoning_config(c),
            "--config"@,
            "model_reasoning_summary=\""@ + s + "\""@,
        ),
{
    broadcast use {lemma_option_of_sum, lemma_option_of_config};

    if cleaned(c.reasoning_effort) is Some {
        lemma_option_of_config(
            "model_reasoning_effort=\""@,
            cleaned(c.reasoning_effort),
            "model_reasoning_effort=\""@ + cleaned(c.reasoning_effort)->Some_0 + "\""@,
        );
    }
    if cleaned(c.reasoning_summary) is Some {
        lemma_option_of_config(
            "model_reasoning_summary=\""@,
            cleaned(c.reasoning_summary),
            "model_reasoning_summary=\""@ + cleaned(c.reasoning_summary)->Some_0 + "\""@,
        );
    }
}

proof fn lemma_flag_with(flag: Seq<char>, value: Option<Seq<char>>)
    ensures
        value matches Some(v) ==> has_option(flag_with(flag, value), flag, v),
{
    if value is Some {
        lemma_option_of_pair(flag, value, value->Some_0);
    }
}

/// The parts of what is generated for Codex.
proof fn lemma_codex_parts(c: AdapterConfigView, resume: bool)
    ensures
        within(
            flag_with("--profile"@, given(c.profile, !resume)),
            codex_generated(c, resume),
        ),
        within(
            flag_with("--profile-v2"@, given(c.profile_v2, !resume)),
            codex_generated(c, resume),
        ),
        within(
            (if names_service_tier(c) {
                Seq::empty()
            } else {
                seq!["--config"@, "service_tier=\"fast\""@]
            }),
            codex_generated(c, resume),
        ),
        within(
            repeated("--config"@, c.config_overrides),
            codex_generated(c, resume),
        ),
        within(
            repeated("--enable"@, c.enable_features),
            codex_generated(c, resume),
        ),
        within(
            repeated("--disable"@, c.disable_features),
            codex_generated(c, resume),
        ),
        within(
            flag_with("--model"@, c.model),
            codex_generated(c, resume),
        ),
        within(
            flag_with("--sandbox"@, given(c.sandbox, !resume && !codex_danger(c))),
            codex_generated(c, resume),
        ),
        within(
            flag_when("--dangerously-bypass-approvals-and-sandbox"@, codex_danger(c)),
            codex_generated(c, resume),
        ),
        within(
            flag_when("--dangerously-bypass-hook-trust"@, on(c.dangerously_bypass_hook_trust)),
            codex_generated(c, resume),
        ),
        within(
            quoted_config("approval_policy=\""@, cleaned(c.approval_policy)),
            codex_generated(c, resume),
        ),
        within(
            reasoning_config(c),
            codex_generated(c, resume),
        ),
        within(
            (if on(c.search) && !names_web_search(c) {
                seq!["--enable"@, "web_search"@]
            } else {
                Seq::empty()
            }),
            codex_generated(c, resume),
        ),
        within(
            flag_when("--strict-config"@, on(c.strict_config)),
            codex_generated(c, resume),
        ),
        within(
            flag_when("--oss"@, on(c.oss)),
            codex_generated(c, resume),
        ),
        within(
            flag_with("--local-provider"@, cleaned(c.local_provider)),
            codex_generated(c, resume),
        ),
        within(
            flag_when("--skip-git-repo-check"@, on(c.skip_git_repo_check)),
            codex_generated(c, resume),
        ),
        within(
            flag_when("--ignore-user-config"@, on(c.ignore_user_config)),
            codex_generated(c, resume),
        ),
        within(
            flag_when("--ignore-rules"@, on(c.ignore_rules)),
            codex_generated(c, resume),
        ),
        within(
            (if resume {
                Seq::empty()
            } else {
                repeated("--add-dir"@, c.add_dirs)
            }),
            codex_generated(c, resume),
        ),
        within(
            flag_with("--output-schema"@, cleaned(c.output_schema)),
            codex_generated(c, resume),
        ),
        within(
            flag_with("--color"@, cleaned(c.color)),
            codex_generated(c, resume),
        ),
        within(
            flag_when("--ephemeral"@, on(c.ephemeral)),
            codex_generated(c, resume),
        ),
{
    broadcast use {lemma_within_sum, lemma_within_itself};

}

/// Every switch and every value of Codex is among what is generated for it.
proof fn lemma_codex_generated(c: AdapterConfigView, resume: bool, i: int)
    ensures
        codex_says(codex_generated(c, resume), c, i),
        !resume ==> codex_says_first(codex_generated(c, resume), c, i),
{
    broadcast use {lemma_option_within, lemma_word_within};

    lemma_codex_parts(c, resume);
    lemma_two_words("--config"@, "service_tier=\"fast\""@);
    lemma_two_words("--enable"@, "web_search"@);
    lemma_single_word("--dangerously-bypass-approvals-and-sandbox"@);
    lemma_single_word("--dangerously-bypass-hook-trust"@);
    lemma_single_word("--strict-config"@);
    lemma_single_word("--oss"@);
    lemma_single_word("--skip-git-repo-check"@);
    lemma_single_word("--ignore-user-config"@);
    lemma_single_word("--ignore-rules"@);
    lemma_single_word("--ephemeral"@);
    lemma_reasoning(c);
    lemma_flag_with("--profile"@, given(c.profile, !resume));
    lemma_flag_with("--profile-v2"@, given(c.profile_v2, !resume));
    lemma_flag_with("--model"@, c.model);
    lemma_flag_with("--sandbox"@, given(c.sandbox, !resume && !codex_danger(c)));
    lemma_flag_with("--local-provider"@, cleaned(c.local_provider));
    lemma_flag_with("--output-schema"@, cleaned(c.output_schema));
    lemma_flag_with("--color"@, cleaned(c.color));
    if cleaned(c.approval_policy) is Some {
        lemma_option_of_config(
            "approval_policy=\""@,
            cleaned(c.approval_policy),
            "approval_policy=\""@ + cleaned(c.approval_policy)->Some_0 + "\""@,
        );
    }
    if 0 <= i < c.config_overrides.len() && trimmed(c.config_overrides[i]).len() > 0 {
        lemma_repeated_options("--config"@, c.config_overrides, i);
    }
    if 0 <= i < c.enable_features.len() && trimmed(c.enable_features[i]).len() > 0 {
        lemma_repeated_options("--enable"@, c.enable_features, i);
    }
    if 0 <= i < c.disable_features.len() && trimmed(c.disable_features[i]).len() > 0 {
        lemma_repeated_options("--disable"@, c.disable_features, i);
    }
    if 0 <= i < c.add_dirs.len() && trimmed(c.add_dirs[i]).len() > 0 {
        lemma_repeated_options("--add-dir"@, c.add_dirs, i);
    }
}

/// What is generated for Codex reaches the command.
proof fn lemma_codex_said(
    kept: Seq<Seq<char>>,
    c: AdapterConfigView,
    resume: bool,
    tail: Seq<Seq<char>>,
    i: int,
)
    requires
        codex_says(codex_generated(c, resume), c, i),
        !resume ==> codex_says_first(codex_generated(c, resume), c, i),
    ensures
        codex_says(before_stdin(kept, codex_generated(c, resume)) + tail, c, i),
        !resume ==> codex_says_first(
            before_stdin(kept, codex_generated(c, resume)) + tail,
            c,
            i,
        ),
{
    let g = codex_generated(c, resume);
    let all = before_stdin(kept, g) + tail;
    assert forall|flag: Seq<char>, value: Seq<char>| has_option(g, flag, value) implies #[trigger] has_option(
        all,
        flag,
        value,
    ) by {
        lemma_options_before_stdin(kept, g, flag, value);
        lemma_option_of_sum(before_stdin(kept, g), tail, flag, value);
    }
    assert forall|word: Seq<char>| g.contains(word) implies #[trigger] all.contains(word) by {
        lemma_words_before_stdin(kept, g, word);
        lemma_word_of_sum(before_stdin(kept, g), tail, word);
    }
}

/// What Traex is told whether a thread is new or not.
pub open spec fn traex_says(args: Seq<Seq<char>>, c: AdapterConfigView, i: int) -> bool {
    &&& c.model matches Some(m) ==> has_option(args, "--model"@, m)
    &&& cleaned(c.reasoning_effort) matches Some(e) ==> has_option(
        args,
        "--config"@,
        "model_reasoning_effort=\""@ + e + "\""@,
    )
    &&& cleaned(c.reasoning_summary) matches Some(s) ==> has_option(
        args,
        "--config"@,
        "model_reasoning_summary=\""@ + s + "\""@,
    )
    &&& 0 <= i < c.config_overrides.len() && trimmed(c.config_overrides[i]).len() > 0 ==> has_option(
        args,
        "--config"@,
        trimmed(c.config_overrides[i]),
    )
    &&& 0 <= i < c.enable_features.len() && trimmed(c.enable_features[i]).len() > 0 ==> has_option(
        args,
        "--enable"@,
        trimmed(c.enable_features[i]),
    )
    &&& 0 <= i < c.disable_features.len() && trimmed(c.disable_features[i]).len() > 0 ==> has_option(
        args,
        "--disable"@,
        trimmed(c.disable_features[i]),
    )
    &&& !traex_danger(c) ==> has_option(args, "--permission-mode"@, traex_permission_mode(c))
    &&& traex_danger(c) ==> args.contains("--dangerously-bypass-approvals-and-sandbox"@)
    &&& c.skip_git_repo_check == Some(true) ==> args.contains("--skip-git-repo-check"@)
    &&& c.ignore_user_config == Some(true) ==> args.contains("--ignore-user-config"@)
    &&& c.ignore_rules == Some(true) ==> args.contains("--ignore-rules"@)
    &&& c.ephemeral == Some(true) ==> args.contains("--ephemeral"@)
}

/// What Traex is told of a new thread alone.
pub open spec fn traex_says_first(args: Seq<Seq<char>>, c: AdapterConfigView, i: int) -> bool {
    &&& c.profile matches Some(p) ==> has_option(args, "--profile"@, p)
    &&& !traex_danger(c) ==> (c.sandbox matches Some(s) ==> has_option(args, "--sandbox"@, s))
    &&& cleaned(c.output_schema) matches Some(p) ==> has_option(args, "--output-schema"@, p)
    &&& cleaned(c.color) matches Some(p) ==> has_option(args, "--color"@, p)
    &&& 0 <= i < c.add_dirs.len() && trimmed(c.add_dirs[i]).len() > 0 ==> has_option(
        args,
        "--add-dir"@,
        trimmed(c.add_dirs[i]),
    )
}

/// The settings of Traex stand among its arguments, own arguments or not.
pub proof fn lemma_traex_settings(request: ExternalCliRunRequest, last_message: Seq<char>, i: int)
    requires
        request.adapter@ == "traex"@,
    ensures
        expected_command(request, last_message) matches Ok(command) && traex_says(
            command.args,
            request.adapter_config@,
            i,
        ) && (!(exists|id: Seq<char>| #[trigger]
            names_thread(request.params@, id)) ==> traex_says_first(
            command.args,
            request.adapter_config@,
            i,
        )),
{
    lemma_adapters_differ();
    let c = request.adapter_config@;
    let params = request.params@;
    let resume = resumed_thread(params);
    if resume is Some {
        let found = crate::json::first_of(member(params, "threadId"@), member(params, "thread_id"@));
        assert(names_thread(params, found->Some_0->Text_0));
    }
    let base = crate::command_spec::exec_base(c.args, resume);
    let placed = match opt(request.work_dir) {
        Some(d) => crate::command_spec::with_traex_work_dir(base, d),
        None => base,
    };
    let kept = traex_kept(with_last_message(placed, last_message), c);
    lemma_traex_generated(c, resume is Some, i);
    let g = traex_generated(c, resume is Some);
    let tail = crate::command_spec::exec_tail(c.args, resume);
    let all = before_stdin(kept, g) + tail;
    assert forall|flag: Seq<char>, value: Seq<char>| has_option(g, flag, value) implies #[trigger] has_option(
        all,
        flag,
        value,
    ) by {
        lemma_options_before_stdin(kept, g, flag, value);
        lemma_option_of_sum(before_stdin(kept, g), tail, flag, value);
    }
    assert forall|word: Seq<char>| g.contains(word) implies #[trigger] all.contains(word) by {
        lemma_words_before_stdin(kept, g, word);
        lemma_word_of_sum(before_stdin(kept, g), tail, word);
    }
}

proof fn lemma_traex_generated(c: AdapterConfigView, resume: bool, i: int)
    ensures
        traex_says(traex_generated(c, resume), c, i),
        !resume ==> traex_says_first(traex_generated(c, resume), c, i),
{
    broadcast use {
        lemma_option_of_sum,
        lemma_option_of_pair,
        lemma_option_of_config,
        lemma_word_of_sum,
    };

    lemma_two_words("--config"@, "service_tier=\"fast\""@);
    lemma_two_words("--enable"@, "web_search"@);
    lemma_single_word("--dangerously-bypass-approvals-and-sandbox"@);
    lemma_single_word("--skip-git-repo-check"@);
    lemma_single_word("--ignore-user-config"@);
    lemma_single_word("--ignore-rules"@);
    lemma_single_word("--ephemeral"@);
    if 0 <= i < c.config_overrides.len() && trimmed(c.config_overrides[i]).len() > 0 {
        lemma_repeated_options("--config"@, c.config_overrides, i);
    }
    if 0 <= i < c.enable_features.len() && trimmed(c.enable_features[i]).len() > 0 {
        lemma_repeated_options("--enable"@, c.enable_features, i);
    }
    if 0 <= i < c.disable_features.len() && trimmed(c.disable_features[i]).len() > 0 {
        lemma_repeated_options("--disable"@, c.disable_features, i);
    }
    if 0 <= i < c.add_dirs.len() && trimmed(c.add_dirs[i]).len() > 0 {
        lemma_repeated_options("--add-dir"@, c.add_dirs, i);
    }
}

// ---------------------------------------------------------------------------
// Own arguments that settings replace
// ---------------------------------------------------------------------------

/// Arguments without an option stay as they are when it is taken out.
pub proof fn lemma_nothing_to_take_out(args: Seq<Seq<char>>, flag: Seq<char>)
    requires
        !args.contains(flag),
    ensures
        without_flag(args, flag) == args,
    decreases args.len(),
{
    if args.len() > 0 {
        assert(args[0] != flag);
        let tail = args.drop_first();
        assert forall|i: int| 0 <= i < tail.len() implies tail[i] != flag by {
            assert(args[i + 1] != flag);
        }
        lemma_nothing_to_take_out(tail, flag);
        assert(seq![args[0]] + tail =~= args);
    }
}

/// An option is taken out with its value, and what stands before and behind them
/// stays.
pub proof fn lemma_options_are_taken_out(
    before: Seq<Seq<char>>,
    flag: Seq<char>,
    value: Seq<char>,
    behind: Seq<Seq<char>>,
)
    requires
        !before.contains(flag),
        !has_prefix(value, "-"@),
    ensures
        without_flag(before + seq![flag, value] + behind, flag) == before + without_flag(
            behind,
            flag,
        ),
    decreases before.len(),
{
    let args = before + seq![flag, value] + behind;
    if before.len() == 0 {
        assert(args[0] == flag && args[1] == value);
        assert(args.skip(2) =~= behind);
        assert(before + without_flag(behind, flag) =~= without_flag(behind, flag));
    } else {
        assert(args[0] == before[0]);
        assert(before[0] != flag);
        let tail = before.drop_first();
        assert forall|i: int| 0 <= i < tail.len() implies tail[i] != flag by {
            assert(before[i + 1] != flag);
        }
        lemma_options_are_taken_out(tail, flag, value, behind);
        assert(args.drop_first() =~= tail + seq![flag, value] + behind);
        assert(seq![before[0]] + (tail + without_flag(behind, flag)) =~= before + without_flag(
            behind,
            flag,
        ));
    }
}

/// An option without a value is taken out alone: the option behind it stays.
pub proof fn lemma_bare_options_are_taken_out(
    before: Seq<Seq<char>>,
    flag: Seq<char>,
    behind: Seq<Seq<char>>,
)
    requires
        !before.contains(flag),
        behind.len() > 0 ==> has_prefix(behind[0], "-"@),
    ensures
        without_flag(before + seq![flag] + behind, flag) == before + without_flag(behind, flag),
    decreases before.len(),
{
    let args = before + seq![flag] + behind;
    if before.len() == 0 {
        assert(args[0] == flag);
        if behind.len() > 0 {
            assert(args[1] == behind[0]);
        }
        assert(args.drop_first() =~= behind);
        assert(before + without_flag(behind, flag) =~= without_flag(behind, flag));
    } else {
        assert(args[0] == before[0]);
        assert(before[0] != flag);
        let tail = before.drop_first();
        assert forall|i: int| 0 <= i < tail.len() implies tail[i] != flag by {
            assert(before[i + 1] != flag);
        }
        lemma_bare_options_are_taken_out(tail, flag, behind);
        assert(args.drop_first() =~= tail + seq![flag] + behind);
        assert(seq![before[0]] + (tail + without_flag(behind, flag)) =~= before + without_flag(
            behind,
            flag,
        ));
    }
}

/// Arguments that set nothing stay as they are when a setting is taken out.
pub proof fn lemma_no_setting_to_take_out(args: Seq<Seq<char>>, key: Seq<char>)
    requires
        !args.contains("--config"@),
    ensures
        without_override(args, key) == args,
    decreases args.len(),
{
    if args.len() >= 2 {
        assert(args[0] != "--config"@);
        let tail = args.drop_first();
        assert forall|i: int| 0 <= i < tail.len() implies tail[i] != "--config"@ by {
            assert(args[i + 1] != "--config"@);
        }
        lemma_no_setting_to_take_out(tail, key);
        assert(seq![args[0]] + tail =~= args);
    }
}

/// A setting is taken out with its option, and what stands before and behind stays;
/// a setting of another key stays too.
pub proof fn lemma_settings_are_taken_out(
    before: Seq<Seq<char>>,
    setting: Seq<char>,
    behind: Seq<Seq<char>>,
    key: Seq<char>,
)
    requires
        !before.contains("--config"@),
    ensures
        override_key(setting) == Some(key) ==> without_override(
            before + seq!["--config"@, setting] + behind,
            key,
        ) == before + without_override(behind, key),
        override_key(setting) != Some(key) ==> without_override(
            before + seq!["--config"@, setting] + behind,
            key,
        ) == before + seq!["--config"@] + without_override(seq![setting] + behind, key),
    decreases before.len(),
{
    let args = before + seq!["--config"@, setting] + behind;
    if before.len() == 0 {
        assert(args[0] == "--config"@ && args[1] == setting);
        assert(args.skip(2) =~= behind);
        assert(args.drop_first() =~= seq![setting] + behind);
        assert(before + without_override(behind, key) =~= without_override(behind, key));
        assert(before + seq!["--config"@] =~= seq!["--config"@]);
    } else {
        assert(args[0] == before[0]);
        assert(before[0] != "--config"@);
        let tail = before.drop_first();
        assert forall|i: int| 0 <= i < tail.len() implies tail[i] != "--config"@ by {
            assert(before[i + 1] != "--config"@);
        }
        lemma_settings_are_taken_out(tail, setting, behind, key);
        assert(args.drop_first() =~= tail + seq!["--config"@, setting] + behind);
        assert(seq![before[0]] + (tail + without_override(behind, key)) =~= before
            + without_override(behind, key));
        let rest = without_override(seq![setting] + behind, key);
        assert(seq![before[0]] + (tail + seq!["--config"@] + rest) =~= before + seq!["--config"@]
            + rest);
    }
}

// ---------------------------------------------------------------------------
// Commands without own arguments, word for word
// ---------------------------------------------------------------------------

/// Whether a word cannot be taken for an option.
pub open spec fn no_option(word: Seq<char>) -> bool {
    word.len() == 0 || word[0] != '-'
}

/// A word that no setting takes out.
spec fn stays(word: Seq<char>) -> bool {
    no_option(word) || word == "--cd"@ || word == "--json"@ || word == "--output-last-message"@
}

proof fn lemma_stays(args: Seq<Seq<char>>)
    requires
        forall|i: int| 0 <= i < args.len() ==> stays(#[trigger] args[i]),
    ensures
        !args.contains("--profile"@),
        !args.contains("--profile-v2"@),
        !args.contains("--model"@),
        !args.contains("--sandbox"@),
        !args.contains("--local-provider"@),
        !args.contains("--output-schema"@),
        !args.contains("--color"@),
        !args.contains("--permission-mode"@),
        !args.contains("--config"@),
        !args.contains("-"@),
        !args.contains("-o"@),
        !args.contains("-C"@),
{
    reveal_strlit("--cd");
    reveal_strlit("--json");
    reveal_strlit("--output-last-message");
    reveal_strlit("--profile");
    reveal_strlit("--profile-v2");
    reveal_strlit("--model");
    reveal_strlit("--sandbox");
    reveal_strlit("--local-provider");
    reveal_strlit("--output-schema");
    reveal_strlit("--color");
    reveal_strlit("--permission-mode");
    reveal_strlit("--config");
    reveal_strlit("-");
    reveal_strlit("-o");
    reveal_strlit("-C");
    assert("--cd"@.len() == 4 && "--json"@.len() == 6 && "--output-last-message"@.len() == 21);
    assert("--profile"@.len() == 9 && "--profile-v2"@.len() == 12 && "--model"@.len() == 7
        && "--sandbox"@.len() == 9 && "--local-provider"@.len() == 16 && "--output-schema"@.len()
        == 15 && "--color"@.len() == 7 && "--permission-mode"@.len() == 17 && "--config"@.len() == 8
        && "-"@.len() == 1 && "-o"@.len() == 2 && "-C"@.len() == 2);
    assert("--profile"@[0] == '-' && "--profile-v2"@[0] == '-' && "--model"@[0] == '-'
        && "--sandbox"@[0] == '-' && "--local-provider"@[0] == '-' && "--output-schema"@[0] == '-'
        && "--color"@[0] == '-' && "--permission-mode"@[0] == '-' && "--config"@[0] == '-'
        && "-"@[0] == '-' && "-o"@[0] == '-' && "-C"@[0] == '-');
}

proof fn lemma_kept(args: Seq<Seq<char>>, c: AdapterConfigView)
    requires
        forall|i: int| 0 <= i < args.len() ==> stays(#[trigger] args[i]),
    ensures
        codex_kept(args, c) == args,
        traex_kept(args, c) == args,
{
    lemma_stays(args);
    lemma_nothing_to_take_out(args, "--profile"@);
    lemma_nothing_to_take_out(args, "--profile-v2"@);
    lemma_nothing_to_take_out(args, "--model"@);
    lemma_nothing_to_take_out(args, "--sandbox"@);
    lemma_nothing_to_take_out(args, "--local-provider"@);
    lemma_nothing_to_take_out(args, "--output-schema"@);
    lemma_nothing_to_take_out(args, "--color"@);
    lemma_nothing_to_take_out(args, "--permission-mode"@);
    lemma_no_setting_to_take_out(args, "model_reasoning_effort"@);
    lemma_no_setting_to_take_out(args, "reasoning_effort"@);
    lemma_no_setting_to_take_out(args, "model_reasoning_summary"@);
    lemma_no_setting_to_take_out(args, "reasoning_summary"@);
}

/// What Codex is told before its settings.
pub open spec fn codex_head(
    resume: bool,
    work_dir: Option<Seq<char>>,
    last_message: Seq<char>,
) -> Seq<Seq<char>> {
    seq!["exec"@] + (match work_dir {
        Some(d) => seq!["--cd"@, d],
        None => Seq::empty(),
    }) + (if resume {
        seq!["resume"@]
    } else {
        Seq::empty()
    }) + seq!["--json"@, "--output-last-message"@, last_message]
}

/// What Traex is told before its settings.
pub open spec fn traex_head(
    resume: bool,
    work_dir: Option<Seq<char>>,
    last_message: Seq<char>,
) -> Seq<Seq<char>> {
    (match work_dir {
        Some(d) => seq!["--cd"@, d],
        None => Seq::empty(),
    }) + seq!["exec"@] + (if resume {
        seq!["resume"@]
    } else {
        Seq::empty()
    }) + seq!["--json"@, "--output-last-message"@, last_message]
}

proof fn lemma_exec_words()
    ensures
        "exec"@ != "e"@,
        no_option("exec"@),
        no_option("resume"@),
        "--cd"@ != "exec"@,
        "--json"@ != "-"@,
        "--json"@ != "--cd"@,
        "--json"@ != "-C"@,
        "exec"@ != "--cd"@,
        "exec"@ != "-C"@,
        "resume"@ != "--cd"@,
        "resume"@ != "-C"@,
        "--json"@ != "--output-last-message"@,
        "--cd"@ != "--output-last-message"@,
{
    reveal_strlit("exec");
    reveal_strlit("e");
    reveal_strlit("resume");
    reveal_strlit("--cd");
    reveal_strlit("--json");
    reveal_strlit("-");
    reveal_strlit("-C");
    reveal_strlit("--output-last-message");
    assert("exec"@.len() == 4 && "e"@.len() == 1 && "resume"@.len() == 6 && "--cd"@.len() == 4
        && "--json"@.len() == 6 && "-"@.len() == 1 && "-C"@.len() == 2
        && "--output-last-message"@.len() == 21);
    assert("exec"@[0] == 'e' && "resume"@[0] == 'r' && "--cd"@[0] == '-' && "--json"@[0] == '-');
}

/// The arguments before the settings, when nothing among them can be taken for an
/// option.
proof fn lemma_heads(resume: bool, work_dir: Option<Seq<char>>, last_message: Seq<char>)
    requires
        no_option(last_message),
        work_dir matches Some(d) ==> no_option(d),
    ensures
        with_last_message(
            match work_dir {
                Some(d) => crate::command_spec::with_codex_work_dir(default_exec_args(resume), d),
                None => default_exec_args(resume),
            },
            last_message,
        ) == codex_head(resume, work_dir, last_message),
        with_last_message(
            match work_dir {
                Some(d) => crate::command_spec::with_traex_work_dir(default_exec_args(resume), d),
                None => default_exec_args(resume),
            },
            last_message,
        ) == traex_head(resume, work_dir, last_message),
        forall|i: int|
            0 <= i < codex_head(resume, work_dir, last_message).len() ==> stays(
                #[trigger] codex_head(resume, work_dir, last_message)[i],
            ),
        forall|i: int|
            0 <= i < traex_head(resume, work_dir, last_message).len() ==> stays(
                #[trigger] traex_head(resume, work_dir, last_message)[i],
            ),
        codex_head(resume, work_dir, last_message).last() == last_message,
        traex_head(resume, work_dir, last_message).last() == last_message,
        last_message != "-"@,
{
    lemma_exec_words();
    reveal_strlit("-");
    reveal_strlit("--output-last-message");
    reveal_strlit("-o");
    assert("--output-last-message"@[0] == '-' && "-o"@[0] == '-' && "-"@[0] == '-');
    let base = default_exec_args(resume);
    assert(base[0] == "exec"@);
    assert forall|i: int| 0 <= i < base.len() implies stays(#[trigger] base[i]) && base[i] != "--cd"@
        && base[i] != "-C"@ && base[i] != "--output-last-message"@ by {
        if resume {
            assert(base[i] == base[0] || base[i] == base[1] || base[i] == base[2]);
        } else {
            assert(base[i] == base[0] || base[i] == base[1]);
        }
    }
    assert(!has_work_dir_flag(base));
    let codex = match work_dir {
        Some(d) => crate::command_spec::with_codex_work_dir(base, d),
        None => base,
    };
    let traex = match work_dir {
        Some(d) => crate::command_spec::with_traex_work_dir(base, d),
        None => base,
    };
    let more = seq!["--output-last-message"@, last_message];
    assert forall|i: int| 0 <= i < codex.len() implies stays(#[trigger] codex[i]) && codex[i]
        != "--output-last-message"@ by {
        if work_dir is Some {
            let d = work_dir->Some_0;
            assert(codex =~= seq!["exec"@, "--cd"@, d] + base.drop_first());
            if i == 0 {
                assert(codex[i] == "exec"@);
            } else if i == 1 {
                assert(codex[i] == "--cd"@);
            } else if i == 2 {
                assert(codex[i] == d);
            } else {
                assert(codex[i] == base[i - 2]);
            }
        } else {
            assert(codex[i] == base[i]);
        }
    }
    assert forall|i: int| 0 <= i < traex.len() implies stays(#[trigger] traex[i]) && traex[i]
        != "--output-last-message"@ by {
        if work_dir is Some {
            let d = work_dir->Some_0;
            assert(traex =~= seq!["--cd"@, d] + base);
            if i == 0 {
                assert(traex[i] == "--cd"@);
            } else if i == 1 {
                assert(traex[i] == d);
            } else {
                assert(traex[i] == base[i - 2]);
            }
        } else {
            assert(traex[i] == base[i]);
        }
    }
    lemma_stays(codex);
    lemma_stays(traex);
    assert(codex[0] == "exec"@);
    assert(codex.contains("exec"@));
    assert(traex.contains("exec"@)) by {
        if work_dir is Some {
            assert(traex[2] == "exec"@);
        } else {
            assert(traex[0] == "exec"@);
        }
    }
    assert(codex.last() != "-"@ && traex.last() != "-"@);
    assert(codex + more =~= codex_head(resume, work_dir, last_message));
    assert(traex + more =~= traex_head(resume, work_dir, last_message));
    assert forall|i: int|
        0 <= i < codex_head(resume, work_dir, last_message).len() implies stays(
        #[trigger] codex_head(resume, work_dir, last_message)[i],
    ) by {
        if i < codex.len() {
            assert(stays(codex[i]));
        }
    }
    assert forall|i: int|
        0 <= i < traex_head(resume, work_dir, last_message).len() implies stays(
        #[trigger] traex_head(resume, work_dir, last_message)[i],
    ) by {
        if i < traex.len() {
            assert(stays(traex[i]));
        }
    }
}

/// A new thread of Codex or Traex reads its prompt from standard input; a named
/// thread is gone on with under its name.
pub proof fn lemma_exec_commands(
    request: ExternalCliRunRequest,
    last_message: Seq<char>,
    id: Seq<char>,
)
    requires
        request.adapter@ == "codex"@ || request.adapter@ == "traex"@,
        request.adapter_config@.args.len() == 0,
        no_option(last_message),
        opt(request.work_dir) matches Some(d) ==> no_option(d),
    ensures
        expected_command(request, last_message) is Ok,
        request.adapter@ == "codex"@ && names_thread(request.params@, id) && trimmed(id).len() > 0
            ==> expected_command(request, last_message)->Ok_0.args == codex_head(
            true,
            opt(request.work_dir),
            last_message,
        ) + codex_generated(request.adapter_config@, true) + seq![trimmed(id), "-"@],
        request.adapter@ == "codex"@ && names_nothing(request.params@) ==> expected_command(
            request,
            last_message,
        )->Ok_0.args == codex_head(false, opt(request.work_dir), last_message) + codex_generated(
            request.adapter_config@,
            false,
        ) + seq!["-"@],
        request.adapter@ == "traex"@ && names_thread(request.params@, id) && trimmed(id).len() > 0
            ==> expected_command(request, last_message)->Ok_0.args == traex_head(
            true,
            opt(request.work_dir),
            last_message,
        ) + traex_generated(request.adapter_config@, true) + seq![trimmed(id), "-"@],
        request.adapter@ == "traex"@ && names_nothing(request.params@) ==> expected_command(
            request,
            last_message,
        )->Ok_0.args == traex_head(false, opt(request.work_dir), last_message) + traex_generated(
            request.adapter_config@,
            false,
        ) + seq!["-"@],
{
    lemma_adapters_differ();
    let c = request.adapter_config@;
    let params = request.params@;
    let dir = opt(request.work_dir);
    let resume = resumed_thread(params);
    lemma_heads(resume is Some, dir, last_message);
    lemma_kept(codex_head(resume is Some, dir, last_message), c);
    lemma_kept(traex_head(resume is Some, dir, last_message), c);
    if names_thread(params, id) && trimmed(id).len() > 0 {
        assert(resume == Some(trimmed(id)));
    }
    if names_nothing(params) {
        assert(resume is None);
    }
}

/// A new session of `claude_code` prints what it does as lines of JSON and reads its
/// prompt as text.
pub proof fn lemma_claude_code_commands(request: ExternalCliRunRequest, last_message: Seq<char>)
    requires
        request.adapter@ == "claude_code"@,
        request.adapter_config@.args.len() == 0,
        names_nothing(request.params@),
    ensures
        expected_command(request, last_message) matches Ok(command) && command.args == seq![
            "-p"@,
            "--verbose"@,
            "--output-format"@,
            "stream-json"@,
            "--input-format"@,
            "text"@,
        ] + claude_generated(request.adapter_config@),
{
    lemma_adapters_differ();
    reveal_strlit("-p");
    reveal_strlit("--verbose");
    reveal_strlit("--output-format");
    reveal_strlit("stream-json");
    reveal_strlit("--input-format");
    reveal_strlit("text");
    reveal_strlit("--model");
    reveal_strlit("--permission-mode");
    reveal_strlit("--effort");
    reveal_strlit("-");
    assert("-p"@.len() == 2 && "--verbose"@.len() == 9 && "--output-format"@.len() == 15
        && "stream-json"@.len() == 11 && "--input-format"@.len() == 14 && "text"@.len() == 4);
    assert("--model"@.len() == 7 && "--permission-mode"@.len() == 17 && "--effort"@.len() == 8
        && "-"@.len() == 1);
    let base = default_claude_args();
    let c = request.adapter_config@;
    assert(base[0] == "-p"@ && base[1] == "--verbose"@ && base[2] == "--output-format"@ && base[3]
        == "stream-json"@ && base[4] == "--input-format"@ && base[5] == "text"@ && base.len() == 6);
    lemma_nothing_to_take_out(base, "--model"@);
    lemma_nothing_to_take_out(base, "--permission-mode"@);
    lemma_nothing_to_take_out(base, "--effort"@);
    assert(claude_kept(base, c) == base);
    let args = claude_configured(base, c);
    assert(args + Seq::<Seq<char>>::empty() =~= args);
    assert(resumed_session(request.params@) is None);
}

/// Without settings each agent is told to ask for nothing, and Codex to be fast.
pub proof fn lemma_nothing_is_set(resume: bool)
    ensures
        codex_generated(unset_config(), resume) == seq![
            "--config"@,
            "service_tier=\"fast\""@,
            "--dangerously-bypass-approvals-and-sandbox"@,
        ],
        traex_generated(unset_config(), resume) == seq![
            "--dangerously-bypass-approvals-and-sandbox"@,
        ],
        claude_generated(unset_config()) == seq!["--dangerously-skip-permissions"@],
{
    let c = unset_config();
    assert(!names_service_tier(c));
    assert(codex_generated(c, resume) =~= seq![
        "--config"@,
        "service_tier=\"fast\""@,
        "--dangerously-bypass-approvals-and-sandbox"@,
    ]);
    assert(traex_generated(c, resume) =~= seq!["--dangerously-bypass-approvals-and-sandbox"@]);
    assert(claude_generated(c) =~= seq!["--dangerously-skip-permissions"@]);
}

/// A tier that is set takes the place of the fast one, and a feature that is enabled
/// is not enabled twice.
pub proof fn lemma_nothing_is_set_twice(setting: Seq<char>, feature: Seq<char>, resume: bool)
    requires
        override_key(setting) == Some("service_tier"@),
        trimmed(setting).len() > 0,
        trimmed(feature) == "web_search"@,
    ensures
        codex_generated(
            (AdapterConfigView {
                config_overrides: seq![setting],
                enable_features: seq![feature],
                search: Some(true),
                ..unset_config()
            }),
            resume,
        ) == seq![
            "--config"@,
            trimmed(setting),
            "--enable"@,
            "web_search"@,
            "--dangerously-bypass-approvals-and-sandbox"@,
        ],
{
    let c = AdapterConfigView {
        config_overrides: seq![setting],
        enable_features: seq![feature],
        search: Some(true),
        ..unset_config()
    };
    assert(override_key(c.config_overrides[0]) == Some("service_tier"@));
    assert(names_service_tier(c));
    assert(trimmed(c.enable_features[0]) == "web_search"@);
    assert(names_web_search(c));
    reveal_strlit("web_search");
    assert("web_search"@.len() == 10);
    reveal_with_fuel(repeated, 2);
    assert(c.config_overrides.drop_last() =~= Seq::<Seq<char>>::empty());
    assert(c.enable_features.drop_last() =~= Seq::<Seq<char>>::empty());
    assert(repeated("--config"@, c.config_overrides) =~= seq!["--config"@, trimmed(setting)]);
    assert(repeated("--enable"@, c.enable_features) =~= seq!["--enable"@, "web_search"@]);
    assert(codex_generated(c, resume) =~= seq![
        "--config"@,
        trimmed(setting),
        "--enable"@,
        "web_search"@,
        "--dangerously-bypass-approvals-and-sandbox"@,
    ]);
}

/// A switch that is off is as one that is not set.
pub proof fn lemma_switches_that_are_off(c: AdapterConfigView, resume: bool)
    ensures
        codex_generated(all_off(c, Some(false)), resume) == codex_generated(
            all_off(c, None),
            resume,
        ),
        traex_generated(all_off(c, Some(false)), resume) == traex_generated(
            all_off(c, None),
            resume,
        ),
{
    let x = all_off(c, Some(false));
    let y = all_off(c, None);
    assert(names_service_tier(x) == names_service_tier(y)) by {
        assert(x.config_overrides == y.config_overrides);
    }
}

/// Settings with every switch in one position.
pub open spec fn all_off(c: AdapterConfigView, position: Option<bool>) -> AdapterConfigView {
    AdapterConfigView {
        dangerously_bypass_hook_trust: position,
        strict_config: position,
        skip_git_repo_check: position,
        ignore_user_config: position,
        ignore_rules: position,
        oss: position,
        search: position,
        ephemeral: position,
        ..c
    }
}

/// A thread that is gone on with keeps the profile and the directories it was
/// started with: those of the settings are not told again.
pub proof fn lemma_threads_keep_their_profile(c: AdapterConfigView)
    ensures
        codex_generated(c, true) == codex_generated(
            (AdapterConfigView {
                profile: None,
                profile_v2: None,
                add_dirs: Seq::empty(),
                ..c
            }),
            true,
        ),
        traex_generated(c, true) == traex_generated(
            (AdapterConfigView {
                profile: None,
                sandbox: None,
                output_schema: None,
                color: None,
                add_dirs: Seq::empty(),
                ..c
            }),
            true,
        ),
{
    let x = AdapterConfigView { profile: None, profile_v2: None, add_dirs: Seq::empty(), ..c };
    assert(names_service_tier(x) == names_service_tier(c)) by {
        assert(x.config_overrides == c.config_overrides);
    }
    assert(names_web_search(x) == names_web_search(c)) by {
        assert(x.enable_features == c.enable_features);
    }
}

/// An agent that may do everything is told of no sandbox and no permission mode.
pub proof fn lemma_danger_needs_no_sandbox(c: AdapterConfigView, resume: bool)
    requires
        c.danger_full_access == Some(true),
    ensures
        codex_generated(c, resume) == codex_generated(
            (AdapterConfigView { sandbox: None, ..c }),
            resume,
        ),
        traex_generated(c, resume) == traex_generated(
            (AdapterConfigView { sandbox: None, permission_mode: None, ..c }),
            resume,
        ),
        claude_generated(c) == claude_generated(
            (AdapterConfigView { permission_mode: None, ..c }),
        ),
{
    let x = AdapterConfigView { sandbox: None, ..c };
    assert(names_service_tier(x) == names_service_tier(c)) by {
        assert(x.config_overrides == c.config_overrides);
    }
    assert(names_web_search(x) == names_web_search(c)) by {
        assert(x.enable_features == c.enable_features);
    }
}

/// Own arguments that run Codex or Traex are told where to leave the last message,
/// unless they say so themselves.
pub proof fn lemma_last_message(args: Seq<Seq<char>>, path: Seq<char>)
    ensures
        (args.contains("exec"@) || args.contains("e"@)) && !args.contains("--output-last-message"@)
            && !args.contains("-o"@) ==> has_option(
            with_last_message(args, path),
            "--output-last-message"@,
            path,
        ),
        args.contains("--output-last-message"@) || args.contains("-o"@) ==> with_last_message(
            args,
            path,
        ) == args,
        !args.contains("exec"@) && !args.contains("e"@) ==> with_last_message(args, path) == args,
{
    lemma_two_words("--output-last-message"@, path);
    lemma_options_before_stdin(
        args,
        seq!["--output-last-message"@, path],
        "--output-last-message"@,
        path,
    );
}

/// Own arguments are told the work directory, unless they say it themselves.
pub proof fn lemma_work_dir(args: Seq<Seq<char>>, dir: Seq<char>)
    ensures
        args.contains("--cd"@) || args.contains("-C"@)
            ==> crate::command_spec::with_codex_work_dir(args, dir) == args
            && crate::command_spec::with_traex_work_dir(args, dir) == args,
        !args.contains("--cd"@) && !args.contains("-C"@) ==> has_option(
            crate::command_spec::with_codex_work_dir(args, dir),
            "--cd"@,
            dir,
        ) && has_option(crate::command_spec::with_traex_work_dir(args, dir), "--cd"@, dir)
            && crate::command_spec::with_codex_work_dir(args, dir).len() == args.len() + 2
            && crate::command_spec::with_traex_work_dir(args, dir).skip(2) == args,
        !args.contains("--cd"@) && !args.contains("-C"@) && args.len() > 0 && args[0] == "exec"@
            ==> crate::command_spec::with_codex_work_dir(args, dir)[0] == "exec"@,
{
    broadcast use lemma_option_of_sum;

    lemma_two_words("--cd"@, dir);
    if !args.contains("--cd"@) && !args.contains("-C"@) {
        assert((seq!["--cd"@, dir] + args).skip(2) =~= args);
        if args.len() > 0 {
            let placed = seq![args[0], "--cd"@, dir] + args.drop_first();
            assert(placed[1] == "--cd"@ && placed[2] == dir);
        }
    }
}

proof fn lemma_reasoning_names()
    ensures
        "model_reasoning_effort"@ != "reasoning_effort"@,
        "model_reasoning_effort"@ != "model_reasoning_summary"@,
        "model_reasoning_effort"@ != "reasoning_summary"@,
        "reasoning_effort"@ != "model_reasoning_summary"@,
        "reasoning_effort"@ != "reasoning_summary"@,
        "model_reasoning_summary"@ != "reasoning_summary"@,
{
    reveal_strlit("model_reasoning_effort");
    reveal_strlit("reasoning_effort");
    reveal_strlit("model_reasoning_summary");
    reveal_strlit("reasoning_summary");
    assert("model_reasoning_effort"@.len() == 22 && "reasoning_effort"@.len() == 16
        && "model_reasoning_summary"@.len() == 23 && "reasoning_summary"@.len() == 17);
}

proof fn lemma_one_setting(setting: Seq<char>, key: Seq<char>)
    ensures
        override_key(setting) == Some(key) ==> without_override(
            seq!["exec"@, "--config"@, setting],
            key,
        ) == seq!["exec"@],
        override_key(setting) != Some(key) ==> without_override(
            seq!["exec"@, "--config"@, setting],
            key,
        ) == seq!["exec"@, "--config"@, setting],
        without_override(seq!["exec"@], key) == seq!["exec"@],
{
    lemma_exec_words();
    reveal_strlit("exec");
    reveal_strlit("--config");
    assert("exec"@.len() == 4 && "--config"@.len() == 8);
    let e = Seq::<Seq<char>>::empty();
    assert(!seq!["exec"@].contains("--config"@)) by {
        assert(seq!["exec"@].len() == 1);
    }
    lemma_settings_are_taken_out(seq!["exec"@], setting, e, key);
    assert(seq!["exec"@] + seq!["--config"@, setting] + e =~= seq!["exec"@, "--config"@, setting]);
    assert(seq!["exec"@] + without_override(e, key) =~= seq!["exec"@]);
    assert(seq![setting] + e =~= seq![setting]);
    assert(seq!["exec"@] + seq!["--config"@] + seq![setting] =~= seq![
        "exec"@,
        "--config"@,
        setting,
    ]);
}

/// A setting of reasoning among own arguments gives way to the settings of the runner,
/// under each of its four names, and stays where the runner says nothing of reasoning.
pub proof fn lemma_own_reasoning_gives_way(setting: Seq<char>, c: AdapterConfigView)
    ensures
        ({
            let own = seq!["exec"@, "--config"@, setting];
            let about = override_key(setting) == Some("model_reasoning_effort"@) || override_key(
                setting,
            ) == Some("reasoning_effort"@) || override_key(setting) == Some(
                "model_reasoning_summary"@,
            ) || override_key(setting) == Some("reasoning_summary"@);
            let said = c.reasoning_effort is Some || c.reasoning_summary is Some;
            &&& about && said ==> without_reasoning(own, said) == seq!["exec"@]
            &&& !about || !said ==> without_reasoning(own, said) == own
        }),
{
    lemma_reasoning_names();
    lemma_one_setting(setting, "model_reasoning_effort"@);
    lemma_one_setting(setting, "reasoning_effort"@);
    lemma_one_setting(setting, "model_reasoning_summary"@);
    lemma_one_setting(setting, "reasoning_summary"@);
}

/// The commands of Codex and Traex take those settings out of own arguments.
pub proof fn lemma_reasoning_is_taken_out(setting: Seq<char>, c: AdapterConfigView)
    requires
        no_option(setting),
        override_key(setting) == Some("model_reasoning_effort"@),
        c.reasoning_effort is Some,
    ensures
        codex_kept(seq!["exec"@, "--config"@, setting], c) == seq!["exec"@],
        traex_kept(seq!["exec"@, "--config"@, setting], c) == seq!["exec"@],
{
    let own = seq!["exec"@, "--config"@, setting];
    lemma_exec_words();
    lemma_own_reasoning_gives_way(setting, c);
    reveal_strlit("exec");
    reveal_strlit("--config");
    reveal_strlit("--profile");
    reveal_strlit("--profile-v2");
    reveal_strlit("--model");
    reveal_strlit("--sandbox");
    reveal_strlit("--local-provider");
    reveal_strlit("--output-schema");
    reveal_strlit("--color");
    reveal_strlit("--permission-mode");
    assert("exec"@.len() == 4 && "--config"@.len() == 8);
    assert("--profile"@.len() == 9 && "--profile-v2"@.len() == 12 && "--model"@.len() == 7
        && "--sandbox"@.len() == 9 && "--local-provider"@.len() == 16 && "--output-schema"@.len()
        == 15 && "--color"@.len() == 7 && "--permission-mode"@.len() == 17);
    assert("--profile"@[0] == '-' && "--profile-v2"@[0] == '-' && "--model"@[0] == '-'
        && "--sandbox"@[0] == '-' && "--local-provider"@[0] == '-' && "--output-schema"@[0] == '-'
        && "--color"@[0] == '-' && "--permission-mode"@[0] == '-');
    assert(own[0] == "exec"@ && own[1] == "--config"@ && own[2] == setting && own.len() == 3);
    assert forall|flag: Seq<char>|
        flag == "--profile"@ || flag == "--profile-v2"@ || flag == "--model"@ || flag
            == "--sandbox"@ || flag == "--local-provider"@ || flag == "--output-schema"@ || flag
            == "--color"@ || flag == "--permission-mode"@ implies #[trigger] without_flag(own, flag)
        == own by {
        lemma_nothing_to_take_out(own, flag);
    }
    let rest = seq!["exec"@];
    assert(rest[0] == "exec"@ && rest.len() == 1);
    lemma_nothing_to_take_out(rest, "--sandbox"@);
}

/// A setting is named by what stands before its first equals sign.
pub proof fn lemma_names_of_settings(key: Seq<char>, value: Seq<char>, s: Seq<char>)
    ensures
        !key.contains('=') ==> override_key(key + seq!['='] + value) == Some(trimmed(key)),
        !s.contains('=') ==> override_key(s) is None,
{
    reveal_strlit("=");
    assert("="@ =~= seq!['=']);
    if !key.contains('=') {
        crate::text_laws::lemma_splitting(key, '=', value);
    }
    if !s.contains('=') {
        crate::text_laws::lemma_nothing_to_split(s, '=');
    }
}

} // verus!
