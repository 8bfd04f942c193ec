//! Building the command line of an external agent.

use vstd::prelude::*;
use vstd::string::*;

use crate::agent_config::{
    claude_word, claude_word_text, clean_opt, clean_optional_string, cleaned, map_texts, AdapterConfigView,
    ExternalCliAdapterConfig, CHATGPT_WEB_ADAPTER, CLAUDE_CODE_ADAPTER, DEFAULT_ADAPTER,
    TRAEX_ADAPTER,
};
use crate::json::{first_of, member, opt_tree, tree_text, Json, Tree};
use crate::map::{copy_text_map, TextMap};
use crate::request::ExternalCliRunRequest;
use crate::text::{
    concat3, copy_opt, copy_texts, has_prefix, opt, owned, push_text, same, split_at_first,
    split_once, starts_with, texts, trim, trimmed,
};

verus! {

broadcast use vstd::string::group_string_axioms;

/// A command line that is ready to be started.
#[derive(Debug, PartialEq, Eq)]
pub struct CommandSpec {
    pub executable: String,
    pub args: Vec<String>,
    pub env: TextMap<String>,
    pub work_dir: Option<String>,
    pub timeout_secs: Option<u64>,
}

// ---------------------------------------------------------------------------
// What an argument list is made of
// ---------------------------------------------------------------------------

/// A flag and its value, when there is one.
pub open spec fn flag_with(flag: Seq<char>, value: Option<Seq<char>>) -> Seq<Seq<char>> {
    match value {
        Some(v) => seq![flag, v],
        None => Seq::empty(),
    }
}

/// A flag that stands alone, when it is wanted.
pub open spec fn flag_when(flag: Seq<char>, wanted: bool) -> Seq<Seq<char>> {
    if wanted {
        seq![flag]
    } else {
        Seq::empty()
    }
}

/// A value, when it is wanted.
pub open spec fn given<T>(value: Option<T>, wanted: bool) -> Option<T> {
    if wanted {
        value
    } else {
        None
    }
}

/// The flag before each value that is not blank.
pub open spec fn repeated(flag: Seq<char>, values: Seq<Seq<char>>) -> Seq<Seq<char>>
    decreases values.len(),
{
    if values.len() == 0 {
        Seq::empty()
    } else {
        repeated(flag, values.drop_last()) + flag_with(flag, cleaned(Some(values.last())))
    }
}

/// `name="value"` behind `--config`.
pub open spec fn quoted_config(prefix: Seq<char>, value: Option<Seq<char>>) -> Seq<Seq<char>> {
    match value {
        Some(v) => seq!["--config"@, prefix + v + "\""@],
        None => Seq::empty(),
    }
}

/// Whether an optional switch is on.
pub open spec fn on(switch: Option<bool>) -> bool {
    switch == Some(true)
}

/// The key of a `key=value` override.
pub open spec fn override_key(value: Seq<char>) -> Option<Seq<char>> {
    match split_at_first(value, "="@) {
        Some((key, _)) => Some(trimmed(key)),
        None => None,
    }
}

/// The arguments without a flag and the value behind it. An argument that
/// begins with a hyphen is no value.
pub open spec fn without_flag(args: Seq<Seq<char>>, flag: Seq<char>) -> Seq<Seq<char>>
    decreases args.len(),
{
    if args.len() == 0 {
        Seq::empty()
    } else if args[0] != flag {
        seq![args[0]] + without_flag(args.drop_first(), flag)
    } else if args.len() > 1 && !has_prefix(args[1], "-"@) {
        without_flag(args.skip(2), flag)
    } else {
        without_flag(args.drop_first(), flag)
    }
}

/// `without_flag`, when it is wanted.
pub open spec fn without_flag_when(args: Seq<Seq<char>>, flag: Seq<char>, wanted: bool) -> Seq<
    Seq<char>,
> {
    if wanted {
        without_flag(args, flag)
    } else {
        args
    }
}

/// The arguments without the `--config` overrides of a key.
pub open spec fn without_override(args: Seq<Seq<char>>, key: Seq<char>) -> Seq<Seq<char>>
    decreases args.len(),
{
    if args.len() < 2 {
        args
    } else if args[0] == "--config"@ && override_key(args[1]) == Some(key) {
        without_override(args.skip(2), key)
    } else {
        seq![args[0]] + without_override(args.drop_first(), key)
    }
}

/// The arguments without the overrides of the reasoning settings.
pub open spec fn without_reasoning(args: Seq<Seq<char>>, wanted: bool) -> Seq<Seq<char>> {
    if wanted {
        without_override(
            without_override(
                without_override(
                    without_override(args, "model_reasoning_effort"@),
                    "reasoning_effort"@,
                ),
                "model_reasoning_summary"@,
            ),
            "reasoning_summary"@,
        )
    } else {
        args
    }
}

/// Puts arguments in front of a final `-`, which stands for standard input.
pub open spec fn before_stdin(args: Seq<Seq<char>>, more: Seq<Seq<char>>) -> Seq<Seq<char>> {
    if args.len() > 0 && args.last() == "-"@ {
        args.drop_last() + more + seq!["-"@]
    } else {
        args + more
    }
}

// ---------------------------------------------------------------------------
// The agent of `claude_code`
// ---------------------------------------------------------------------------

pub open spec fn claude_permission_mode(c: AdapterConfigView) -> Option<Seq<char>> {
    match cleaned(c.permission_mode) {
        Some(v) => if v == "default"@ {
            None
        } else if v == "accept_edits"@ || v == "accept-edits"@ {
            Some("acceptEdits"@)
        } else if v == "bypass_permissions"@ || v == "bypass-permissions"@ {
            Some("bypassPermissions"@)
        } else if v == "dont_ask"@ || v == "dont-ask"@ {
            Some("dontAsk"@)
        } else {
            Some(v)
        },
        None => None,
    }
}

pub open spec fn claude_danger(c: AdapterConfigView) -> bool {
    match c.danger_full_access {
        Some(b) => b,
        None => claude_permission_mode(c) is None,
    }
}

/// The arguments that a configuration adds for `claude_code`.
pub open spec fn claude_generated(c: AdapterConfigView) -> Seq<Seq<char>> {
    flag_with("--model"@, c.model) + flag_with(
        "--permission-mode"@,
        given(claude_permission_mode(c), !claude_danger(c)),
    ) + flag_when("--dangerously-skip-permissions"@, claude_danger(c)) + flag_with(
        "--effort"@,
        cleaned(c.reasoning_effort),
    ) + repeated("--add-dir"@, c.add_dirs)
}

pub open spec fn claude_kept(args: Seq<Seq<char>>, c: AdapterConfigView) -> Seq<Seq<char>> {
    without_flag_when(
        without_flag(
            without_flag_when(args, "--model"@, c.model is Some),
            "--permission-mode"@,
        ),
        "--effort"@,
        c.reasoning_effort is Some,
    )
}

pub open spec fn claude_configured(args: Seq<Seq<char>>, c: AdapterConfigView) -> Seq<Seq<char>> {
    before_stdin(claude_kept(args, c), claude_generated(c))
}

// ---------------------------------------------------------------------------
// Traex
// ---------------------------------------------------------------------------

pub open spec fn traex_permission_mode(c: AdapterConfigView) -> Seq<char> {
    match cleaned(c.permission_mode) {
        Some(v) => if v == "default"@ {
            "bypass_permissions"@
        } else {
            v
        },
        None => "bypass_permissions"@,
    }
}

pub open spec fn traex_danger(c: AdapterConfigView) -> bool {
    match c.danger_full_access {
        Some(b) => b,
        None => traex_permission_mode(c) == "bypass_permissions"@,
    }
}

pub open spec fn reasoning_config(c: AdapterConfigView) -> Seq<Seq<char>> {
    quoted_config("model_reasoning_effort=\""@, cleaned(c.reasoning_effort)) + quoted_config(
        "model_reasoning_summary=\""@,
        cleaned(c.reasoning_summary),
    )
}

/// The arguments that a configuration adds for Traex.
pub open spec fn traex_generated(c: AdapterConfigView, is_resume: bool) -> Seq<Seq<char>> {
    repeated("--config"@, c.config_overrides) + repeated("--enable"@, c.enable_features) + repeated(
        "--disable"@,
        c.disable_features,
    ) + flag_with("--profile"@, given(c.profile, !is_resume)) + flag_with("--model"@, c.model)
        + reasoning_config(c) + flag_with(
        "--permission-mode"@,
        given(Some(traex_permission_mode(c)), !traex_danger(c)),
    ) + flag_with("--sandbox"@, given(c.sandbox, !is_resume && !traex_danger(c))) + flag_when(
        "--dangerously-bypass-approvals-and-sandbox"@,
        traex_danger(c),
    ) + flag_when("--skip-git-repo-check"@, on(c.skip_git_repo_check)) + flag_when(
        "--ignore-user-config"@,
        on(c.ignore_user_config),
    ) + flag_when("--ignore-rules"@, on(c.ignore_rules)) + (if is_resume {
        Seq::empty()
    } else {
        repeated("--add-dir"@, c.add_dirs)
    }) + flag_with("--output-schema"@, given(cleaned(c.output_schema), !is_resume)) + flag_with(
        "--color"@,
        given(cleaned(c.color), !is_resume),
    ) + flag_when("--ephemeral"@, on(c.ephemeral))
}

pub open spec fn traex_kept(args: Seq<Seq<char>>, c: AdapterConfigView) -> Seq<Seq<char>> {
    without_flag_when(
        without_reasoning(
            without_flag_when(
                without_flag_when(
                    without_flag_when(
                        without_flag(
                            without_flag_when(
                                without_flag_when(args, "--profile"@, c.profile is Some),
                                "--model"@,
                                c.model is Some,
                            ),
                            "--permission-mode"@,
                        ),
                        "--sandbox"@,
                        c.sandbox is Some,
                    ),
                    "--output-schema"@,
                    c.output_schema is Some,
                ),
                "--color"@,
                c.color is Some,
            ),
            c.reasoning_effort is Some || c.reasoning_summary is Some,
        ),
        "--sandbox"@,
        traex_danger(c),
    )
}

pub open spec fn traex_configured(
    args: Seq<Seq<char>>,
    c: AdapterConfigView,
    is_resume: bool,
) -> Seq<Seq<char>> {
    before_stdin(traex_kept(args, c), traex_generated(c, is_resume))
}

// ---------------------------------------------------------------------------
// Codex
// ---------------------------------------------------------------------------

pub open spec fn codex_danger(c: AdapterConfigView) -> bool {
    match c.danger_full_access {
        Some(b) => b,
        None => c.sandbox is None && c.approval_policy is None,
    }
}

/// Whether an override names the service tier.
pub open spec fn names_service_tier(c: AdapterConfigView) -> bool {
    exists|i: int|
        0 <= i < c.config_overrides.len() && #[trigger] override_key(c.config_overrides[i]) == Some(
            "service_tier"@,
        )
}

/// Whether web search is among the enabled features.
pub open spec fn names_web_search(c: AdapterConfigView) -> bool {
    exists|i: int|
        0 <= i < c.enable_features.len() && #[trigger] trimmed(c.enable_features[i])
            == "web_search"@
}

/// The arguments that a configuration adds for Codex.
pub open spec fn codex_generated(c: AdapterConfigView, is_resume: bool) -> Seq<Seq<char>> {
    flag_with("--profile"@, given(c.profile, !is_resume)) + flag_with(
        "--profile-v2"@,
        given(c.profile_v2, !is_resume),
    ) + (if names_service_tier(c) {
        Seq::empty()
    } else {
        seq!["--config"@, "service_tier=\"fast\""@]
    }) + repeated("--config"@, c.config_overrides) + repeated("--enable"@, c.enable_features)
        + repeated("--disable"@, c.disable_features) + flag_with("--model"@, c.model) + flag_with(
        "--sandbox"@,
        given(c.sandbox, !is_resume && !codex_danger(c)),
    ) + flag_when("--dangerously-bypass-approvals-and-sandbox"@, codex_danger(c)) + flag_when(
        "--dangerously-bypass-hook-trust"@,
        on(c.dangerously_bypass_hook_trust),
    ) + quoted_config("approval_policy=\""@, cleaned(c.approval_policy)) + reasoning_config(c) + (
    if on(c.search) && !names_web_search(c) {
        seq!["--enable"@, "web_search"@]
    } else {
        Seq::empty()
    }) + flag_when("--strict-config"@, on(c.strict_config)) + flag_when("--oss"@, on(c.oss))
        + flag_with("--local-provider"@, cleaned(c.local_provider)) + flag_when(
        "--skip-git-repo-check"@,
        on(c.skip_git_repo_check),
    ) + flag_when("--ignore-user-config"@, on(c.ignore_user_config)) + flag_when(
        "--ignore-rules"@,
        on(c.ignore_rules),
    ) + (if is_resume {
        Seq::empty()
    } else {
        repeated("--add-dir"@, c.add_dirs)
    }) + flag_with("--output-schema"@, cleaned(c.output_schema)) + flag_with(
        "--color"@,
        cleaned(c.color),
    ) + flag_when("--ephemeral"@, on(c.ephemeral))
}

pub open spec fn codex_kept(args: Seq<Seq<char>>, c: AdapterConfigView) -> Seq<Seq<char>> {
    without_flag_when(
        without_reasoning(
            without_flag_when(
                without_flag_when(
                    without_flag_when(
                        without_flag_when(
                            without_flag_when(
                                without_flag_when(
                                    without_flag_when(args, "--profile"@, c.profile is Some),
                                    "--profile-v2"@,
                                    c.profile_v2 is Some,
                                ),
                                "--model"@,
                                c.model is Some,
                            ),
                            "--sandbox"@,
                            c.sandbox is Some,
                        ),
                        "--local-provider"@,
                        c.local_provider is Some,
                    ),
                    "--output-schema"@,
                    c.output_schema is Some,
                ),
                "--color"@,
                c.color is Some,
            ),
            c.reasoning_effort is Some || c.reasoning_summary is Some,
        ),
        "--sandbox"@,
        codex_danger(c),
    )
}

pub open spec fn codex_configured(
    args: Seq<Seq<char>>,
    c: AdapterConfigView,
    is_resume: bool,
) -> Seq<Seq<char>> {
    before_stdin(codex_kept(args, c), codex_generated(c, is_resume))
}

// ---------------------------------------------------------------------------
// Building blocks
// ---------------------------------------------------------------------------

fn push_pair(args: &mut Vec<String>, flag: &str, value: &str)
    ensures
        texts(final(args)@) == texts(old(args)@) + flag_with(flag@, Some(value@)),
{
    push_text(args, flag);
    push_text(args, value);
    proof {
        assert(texts(args@) =~= texts(old(args)@) + seq![flag@, value@]);
    }
}

fn push_opt(args: &mut Vec<String>, flag: &str, value: &Option<String>)
    ensures
        texts(final(args)@) == texts(old(args)@) + flag_with(flag@, opt(*value)),
{
    match value {
        Some(v) => push_pair(args, flag, v.as_str()),
        None => {
            proof {
                assert(texts(args@) =~= texts(old(args)@) + flag_with(flag@, None));
            }
        },
    }
}

fn push_opt_when(args: &mut Vec<String>, flag: &str, value: &Option<String>, wanted: bool)
    ensures
        texts(final(args)@) == texts(old(args)@) + flag_with(flag@, given(opt(*value), wanted)),
{
    if wanted {
        push_opt(args, flag, value);
    } else {
        proof {
            assert(texts(args@) =~= texts(old(args)@) + flag_with(flag@, None));
        }
    }
}

fn push_when(args: &mut Vec<String>, flag: &str, wanted: bool)
    ensures
        texts(final(args)@) == texts(old(args)@) + flag_when(flag@, wanted),
{
    if wanted {
        push_text(args, flag);
    }
    proof {
        assert(texts(args@) =~= texts(old(args)@) + flag_when(flag@, wanted));
    }
}

fn is_on(switch: Option<bool>) -> (r: bool)
    ensures
        r == on(switch),
{
    match switch {
        Some(b) => b,
        None => false,
    }
}

/// Appends the flag before each value that is not blank.
fn append_repeatable_codex_pairs(args: &mut Vec<String>, flag: &str, values: &Vec<String>)
    ensures
        texts(final(args)@) == texts(old(args)@) + repeated(flag@, texts(values@)),
{
    let ghost start = texts(args@);
    let ghost all = texts(values@);
    let mut i: usize = 0;
    proof {
        assert(all.take(0) =~= Seq::empty());
        assert(start + repeated(flag@, all.take(0)) =~= start);
    }
    while i < values.len()
        invariant
            i <= values@.len(),
            all == texts(values@),
            texts(args@) == start + repeated(flag@, all.take(i as int)),
        decreases values@.len() - i,
    {
        let ghost before = texts(args@);
        let value = clean_optional_string(Some(values[i].as_str()));
        push_opt(args, flag, &value);
        proof {
            assert(all.take(i + 1).drop_last() =~= all.take(i as int));
            assert(all.take(i + 1).last() == values@[i as int]@);
            assert(texts(args@) =~= start + repeated(flag@, all.take(i + 1)));
        }
        i = i + 1;
    }
    proof {
        assert(all.take(i as int) =~= all);
    }
}

fn push_quoted_config(args: &mut Vec<String>, prefix: &str, value: &Option<String>)
    ensures
        texts(final(args)@) == texts(old(args)@) + quoted_config(prefix@, opt(*value)),
{
    match value {
        Some(v) => {
            let text = concat3(prefix, v.as_str(), "\"");
            push_pair(args, "--config", text.as_str());
        },
        None => {
            proof {
                assert(texts(args@) =~= texts(old(args)@) + quoted_config(prefix@, None));
            }
        },
    }
}

/// The trimmed key of a `key=value` override.
fn config_override_key(value: &str) -> (r: Option<String>)
    ensures
        opt(r) == override_key(value@),
{
    match split_once(value, "=") {
        Some((key, _)) => Some(owned(trim(key))),
        None => None,
    }
}

/// Removes a flag and the value behind it.
fn remove_codex_arg_with_value(args: &mut Vec<String>, flag: &str)
    ensures
        texts(final(args)@) == without_flag(texts(old(args)@), flag@),
{
    let ghost all = texts(args@);
    let n: usize = args.len();
    let mut out: Vec<String> = Vec::new();
    let mut i: usize = 0;
    proof {
        assert(all.skip(0) =~= all);
        assert(texts(out@) + without_flag(all, flag@) =~= without_flag(all, flag@));
    }
    while i < n
        invariant
            i <= n,
            n == args@.len(),
            all == texts(args@),
            texts(out@) + without_flag(all.skip(i as int), flag@) == without_flag(all, flag@),
        decreases n - i,
    {
        let ghost rest = all.skip(i as int);
        let ghost before = texts(out@);
        proof {
            assert(rest[0] == args@[i as int]@);
            assert(rest.drop_first() =~= all.skip(i + 1));
        }
        if !same(args[i].as_str(), flag) {
            push_text(&mut out, args[i].as_str());
            i = i + 1;
            proof {
                assert(texts(out@) + without_flag(all.skip(i as int), flag@) =~= before
                    + without_flag(rest, flag@));
            }
        } else if i + 1 < n && !starts_with(args[i + 1].as_str(), "-") {
            proof {
                assert(rest[1] == args@[i + 1]@);
                assert(rest.skip(2) =~= all.skip(i + 2));
            }
            i = i + 2;
        } else {
            proof {
                if i + 1 < n {
                    assert(rest[1] == args@[i + 1]@);
                }
            }
            i = i + 1;
        }
    }
    proof {
        assert(all.skip(i as int) =~= Seq::empty());
        assert(texts(out@) + without_flag(all.skip(i as int), flag@) =~= texts(out@));
    }
    *args = out;
}

fn remove_when(args: &mut Vec<String>, flag: &str, wanted: bool)
    ensures
        texts(final(args)@) == without_flag_when(texts(old(args)@), flag@, wanted),
{
    if wanted {
        remove_codex_arg_with_value(args, flag);
    }
}

/// Removes the `--config` overrides of a key.
fn remove_codex_config_with_key(args: &mut Vec<String>, key: &str)
    ensures
        texts(final(args)@) == without_override(texts(old(args)@), key@),
{
    let ghost all = texts(args@);
    let n: usize = args.len();
    let mut out: Vec<String> = Vec::new();
    let mut i: usize = 0;
    proof {
        assert(all.skip(0) =~= all);
        assert(texts(out@) + without_override(all, key@) =~= without_override(all, key@));
    }
    while i < n
        invariant
            i <= n,
            n == args@.len(),
            all == texts(args@),
            texts(out@) + without_override(all.skip(i as int), key@) == without_override(all, key@),
        decreases n - i,
    {
        let ghost rest = all.skip(i as int);
        let ghost before = texts(out@);
        proof {
            assert(rest[0] == args@[i as int]@);
            assert(rest.drop_first() =~= all.skip(i + 1));
            if i + 1 < n {
                assert(rest[1] == args@[i + 1]@);
                assert(rest.skip(2) =~= all.skip(i + 2));
            } else {
                assert(rest =~= seq![rest[0]] + without_override(all.skip(i + 1), key@));
            }
        }
        let mut drop_two = false;
        if i + 1 < n && same(args[i].as_str(), "--config") {
            match config_override_key(args[i + 1].as_str()) {
                Some(found) => {
                    drop_two = same(found.as_str(), key);
                },
                None => {},
            }
        }
        if drop_two {
            i = i + 2;
        } else {
            push_text(&mut out, args[i].as_str());
            i = i + 1;
            proof {
                assert(texts(out@) + without_override(all.skip(i as int), key@) =~= before
                    + without_override(rest, key@));
            }
        }
    }
    proof {
        assert(all.skip(i as int) =~= Seq::empty());
        assert(texts(out@) + without_override(all.skip(i as int), key@) =~= texts(out@));
    }
    *args = out;
}

fn remove_reasoning_when(args: &mut Vec<String>, wanted: bool)
    ensures
        texts(final(args)@) == without_reasoning(texts(old(args)@), wanted),
{
    if wanted {
        remove_codex_config_with_key(args, "model_reasoning_effort");
        remove_codex_config_with_key(args, "reasoning_effort");
        remove_codex_config_with_key(args, "model_reasoning_summary");
        remove_codex_config_with_key(args, "reasoning_summary");
    }
}

proof fn lemma_texts_add(a: Seq<String>, b: Seq<String>)
    ensures
        texts(a + b) == texts(a) + texts(b),
{
    assert(texts(a + b) =~= texts(a) + texts(b));
}

/// Puts the generated arguments in front of a final `-`.
fn insert_codex_args_before_stdin(args: &mut Vec<String>, generated: Vec<String>)
    ensures
        texts(final(args)@) == before_stdin(texts(old(args)@), texts(generated@)),
{
    let ghost start = args@;
    let ghost more = generated@;
    let n: usize = args.len();
    let mut generated = generated;
    proof {
        lemma_texts_add(start, more);
    }
    if n > 0 && same(args[n - 1].as_str(), "-") {
        let marker = args.pop();
        args.append(&mut generated);
        push_text(args, "-");
        proof {
            assert(start.subrange(0, n - 1) =~= start.drop_last());
            lemma_texts_add(start.drop_last(), more);
            assert(texts(start).drop_last() =~= texts(start.drop_last()));
            assert(texts(start).last() == start.last()@);
            assert(texts(args@) =~= texts(start).drop_last() + texts(more) + seq!["-"@]);
        }
    } else {
        args.append(&mut generated);
        proof {
            if n > 0 {
                assert(texts(start).last() == start[n - 1]@);
            }
        }
    }
}

fn append_codex_reasoning_config(args: &mut Vec<String>, config: &ExternalCliAdapterConfig)
    ensures
        texts(final(args)@) == texts(old(args)@) + reasoning_config(config@),
{
    let ghost start = texts(args@);
    let effort = clean_opt(&config.reasoning_effort);
    let summary = clean_opt(&config.reasoning_summary);
    push_quoted_config(args, "model_reasoning_effort=\"", &effort);
    push_quoted_config(args, "model_reasoning_summary=\"", &summary);
    proof {
        assert(texts(args@) =~= start + reasoning_config(config@));
    }
}

// ---------------------------------------------------------------------------
// The arguments of each agent
// ---------------------------------------------------------------------------

fn effective_claude_code_permission_mode(config: &ExternalCliAdapterConfig) -> (r: Option<String>)
    ensures
        opt(r) == claude_permission_mode(config@),
{
    match clean_opt(&config.permission_mode) {
        None => None,
        Some(value) => {
            let v = value.as_str();
            if same(v, "default") {
                None
            } else if same(v, "accept_edits") || same(v, "accept-edits") {
                Some(owned("acceptEdits"))
            } else if same(v, "bypass_permissions") || same(v, "bypass-permissions") {
                Some(owned("bypassPermissions"))
            } else if same(v, "dont_ask") || same(v, "dont-ask") {
                Some(owned("dontAsk"))
            } else {
                Some(value)
            }
        },
    }
}

fn effective_claude_code_danger_full_access(config: &ExternalCliAdapterConfig) -> (r: bool)
    ensures
        r == claude_danger(config@),
{
    match config.danger_full_access {
        Some(b) => b,
        None => effective_claude_code_permission_mode(config).is_none(),
    }
}

/// Brings the arguments of `claude_code` in line with a configuration.
fn append_claude_code_config_args(args: &mut Vec<String>, config: &ExternalCliAdapterConfig)
    ensures
        texts(final(args)@) == claude_configured(texts(old(args)@), config@),
{
    remove_when(args, "--model", config.model.is_some());
    remove_codex_arg_with_value(args, "--permission-mode");
    remove_when(args, "--effort", config.reasoning_effort.is_some());
    let danger = effective_claude_code_danger_full_access(config);
    let mode = effective_claude_code_permission_mode(config);
    let effort = clean_opt(&config.reasoning_effort);
    let mut generated: Vec<String> = Vec::new();
    push_opt(&mut generated, "--model", &config.model);
    proof {
        assert(texts(generated@) =~= flag_with("--model"@, config@.model));
    }
    push_opt_when(&mut generated, "--permission-mode", &mode, !danger);
    push_when(&mut generated, "--dangerously-skip-permissions", danger);
    push_opt(&mut generated, "--effort", &effort);
    append_repeatable_codex_pairs(&mut generated, "--add-dir", &config.add_dirs);
    insert_codex_args_before_stdin(args, generated);
}

fn effective_traex_permission_mode(config: &ExternalCliAdapterConfig) -> (r: String)
    ensures
        r@ == traex_permission_mode(config@),
{
    match clean_opt(&config.permission_mode) {
        Some(value) => if same(value.as_str(), "default") {
            owned("bypass_permissions")
        } else {
            value
        },
        None => owned("bypass_permissions"),
    }
}

fn effective_traex_danger_full_access(
    config: &ExternalCliAdapterConfig,
    permission_mode: &str,
) -> (r: bool)
    requires
        permission_mode@ == traex_permission_mode(config@),
    ensures
        r == traex_danger(config@),
{
    match config.danger_full_access {
        Some(b) => b,
        None => same(permission_mode, "bypass_permissions"),
    }
}

fn remove_overridden_traex_args(
    args: &mut Vec<String>,
    config: &ExternalCliAdapterConfig,
    danger: bool,
)
    requires
        danger == traex_danger(config@),
    ensures
        texts(final(args)@) == traex_kept(texts(old(args)@), config@),
{
    remove_when(args, "--profile", config.profile.is_some());
    remove_when(args, "--model", config.model.is_some());
    remove_codex_arg_with_value(args, "--permission-mode");
    remove_when(args, "--sandbox", config.sandbox.is_some());
    remove_when(args, "--output-schema", config.output_schema.is_some());
    remove_when(args, "--color", config.color.is_some());
    remove_reasoning_when(
        args,
        config.reasoning_effort.is_some() || config.reasoning_summary.is_some(),
    );
    remove_when(args, "--sandbox", danger);
}

/// Brings the arguments of Traex in line with a configuration.
fn append_traex_config_args(
    args: &mut Vec<String>,
    config: &ExternalCliAdapterConfig,
    is_resume: bool,
)
    ensures
        texts(final(args)@) == traex_configured(texts(old(args)@), config@, is_resume),
{
    let mode = effective_traex_permission_mode(config);
    let danger = effective_traex_danger_full_access(config, mode.as_str());
    remove_overridden_traex_args(args, config, danger);
    let schema = clean_opt(&config.output_schema);
    let color = clean_opt(&config.color);
    let mode = Some(mode);
    let mut generated: Vec<String> = Vec::new();
    append_repeatable_codex_pairs(&mut generated, "--config", &config.config_overrides);
    proof {
        assert(texts(generated@) =~= repeated("--config"@, config@.config_overrides));
    }
    append_repeatable_codex_pairs(&mut generated, "--enable", &config.enable_features);
    append_repeatable_codex_pairs(&mut generated, "--disable", &config.disable_features);
    push_opt_when(&mut generated, "--profile", &config.profile, !is_resume);
    push_opt(&mut generated, "--model", &config.model);
    append_codex_reasoning_config(&mut generated, config);
    push_opt_when(&mut generated, "--permission-mode", &mode, !danger);
    push_opt_when(&mut generated, "--sandbox", &config.sandbox, !is_resume && !danger);
    push_when(&mut generated, "--dangerously-bypass-approvals-and-sandbox", danger);
    push_when(&mut generated, "--skip-git-repo-check", is_on(config.skip_git_repo_check));
    push_when(&mut generated, "--ignore-user-config", is_on(config.ignore_user_config));
    push_when(&mut generated, "--ignore-rules", is_on(config.ignore_rules));
    let ghost so_far = texts(generated@);
    if !is_resume {
        append_repeatable_codex_pairs(&mut generated, "--add-dir", &config.add_dirs);
    } else {
        proof {
            assert(so_far + Seq::<Seq<char>>::empty() =~= so_far);
        }
    }
    push_opt_when(&mut generated, "--output-schema", &schema, !is_resume);
    push_opt_when(&mut generated, "--color", &color, !is_resume);
    push_when(&mut generated, "--ephemeral", is_on(config.ephemeral));
    insert_codex_args_before_stdin(args, generated);
}

fn effective_codex_danger_full_access(config: &ExternalCliAdapterConfig) -> (r: bool)
    ensures
        r == codex_danger(config@),
{
    match config.danger_full_access {
        Some(b) => b,
        None => config.sandbox.is_none() && config.approval_policy.is_none(),
    }
}

fn has_service_tier(config: &ExternalCliAdapterConfig) -> (r: bool)
    ensures
        r == names_service_tier(config@),
{
    let v = &config.config_overrides;
    let ghost all = texts(v@);
    let mut i: usize = 0;
    while i < v.len()
        invariant
            i <= v@.len(),
            v == config.config_overrides,
            all == texts(v@),
            forall|k: int| 0 <= k < i ==> #[trigger] override_key(all[k]) != Some("service_tier"@),
        decreases v@.len() - i,
    {
        proof {
            assert(all[i as int] == v@[i as int]@);
        }
        match config_override_key(v[i].as_str()) {
            Some(key) => {
                if same(key.as_str(), "service_tier") {
                    proof {
                        assert(override_key(config@.config_overrides[i as int]) == Some(
                            "service_tier"@,
                        ));
                    }
                    return true;
                }
            },
            None => {},
        }
        i = i + 1;
    }
    false
}

fn append_codex_default_service_tier(
    generated: &mut Vec<String>,
    config: &ExternalCliAdapterConfig,
)
    ensures
        texts(final(generated)@) == texts(old(generated)@) + (if names_service_tier(config@) {
            Seq::empty()
        } else {
            seq!["--config"@, "service_tier=\"fast\""@]
        }),
{
    if has_service_tier(config) {
        proof {
            assert(texts(generated@) + Seq::<Seq<char>>::empty() =~= texts(generated@));
        }
    } else {
        push_pair(generated, "--config", "service_tier=\"fast\"");
    }
}

fn has_web_search(config: &ExternalCliAdapterConfig) -> (r: bool)
    ensures
        r == names_web_search(config@),
{
    let v = &config.enable_features;
    let ghost all = texts(v@);
    let mut i: usize = 0;
    while i < v.len()
        invariant
            i <= v@.len(),
            v == config.enable_features,
            all == texts(v@),
            forall|k: int| 0 <= k < i ==> #[trigger] trimmed(all[k]) != "web_search"@,
        decreases v@.len() - i,
    {
        proof {
            assert(all[i as int] == v@[i as int]@);
        }
        if same(trim(v[i].as_str()), "web_search") {
            proof {
                assert(trimmed(config@.enable_features[i as int]) == "web_search"@);
            }
            return true;
        }
        i = i + 1;
    }
    false
}

fn append_codex_legacy_search_config(args: &mut Vec<String>, config: &ExternalCliAdapterConfig)
    ensures
        texts(final(args)@) == texts(old(args)@) + (if on(config@.search) && !names_web_search(
            config@,
        ) {
            seq!["--enable"@, "web_search"@]
        } else {
            Seq::empty()
        }),
{
    if is_on(config.search) && !has_web_search(config) {
        push_pair(args, "--enable", "web_search");
    } else {
        proof {
            assert(texts(args@) + Seq::<Seq<char>>::empty() =~= texts(args@));
        }
    }
}

fn remove_overridden_codex_args(
    args: &mut Vec<String>,
    config: &ExternalCliAdapterConfig,
    danger: bool,
)
    requires
        danger == codex_danger(config@),
    ensures
        texts(final(args)@) == codex_kept(texts(old(args)@), config@),
{
    remove_when(args, "--profile", config.profile.is_some());
    remove_when(args, "--profile-v2", config.profile_v2.is_some());
    remove_when(args, "--model", config.model.is_some());
    remove_when(args, "--sandbox", config.sandbox.is_some());
    remove_when(args, "--local-provider", config.local_provider.is_some());
    remove_when(args, "--output-schema", config.output_schema.is_some());
    remove_when(args, "--color", config.color.is_some());
    remove_reasoning_when(
        args,
        config.reasoning_effort.is_some() || config.reasoning_summary.is_some(),
    );
    remove_when(args, "--sandbox", danger);
}

/// Brings the arguments of Codex in line with a configuration.
fn append_codex_config_args(
    args: &mut Vec<String>,
    config: &ExternalCliAdapterConfig,
    is_resume: bool,
)
    ensures
        texts(final(args)@) == codex_configured(texts(old(args)@), config@, is_resume),
{
    let danger = effective_codex_danger_full_access(config);
    remove_overridden_codex_args(args, config, danger);
    let policy = clean_opt(&config.approval_policy);
    let provider = clean_opt(&config.local_provider);
    let schema = clean_opt(&config.output_schema);
    let color = clean_opt(&config.color);
    let mut generated: Vec<String> = Vec::new();
    push_opt_when(&mut generated, "--profile", &config.profile, !is_resume);
    proof {
        assert(texts(generated@) =~= flag_with(
            "--profile"@,
            given(config@.profile, !is_resume),
        ));
    }
    push_opt_when(&mut generated, "--profile-v2", &config.profile_v2, !is_resume);
    append_codex_default_service_tier(&mut generated, config);
    append_repeatable_codex_pairs(&mut generated, "--config", &config.config_overrides);
    append_repeatable_codex_pairs(&mut generated, "--enable", &config.enable_features);
    append_repeatable_codex_pairs(&mut generated, "--disable", &config.disable_features);
    push_opt(&mut generated, "--model", &config.model);
    push_opt_when(&mut generated, "--sandbox", &config.sandbox, !is_resume && !danger);
    push_when(&mut generated, "--dangerously-bypass-approvals-and-sandbox", danger);
    push_when(
        &mut generated,
        "--dangerously-bypass-hook-trust",
        is_on(config.dangerously_bypass_hook_trust),
    );
    push_quoted_config(&mut generated, "approval_policy=\"", &policy);
    append_codex_reasoning_config(&mut generated, config);
    append_codex_legacy_search_config(&mut generated, config);
    push_when(&mut generated, "--strict-config", is_on(config.strict_config));
    push_when(&mut generated, "--oss", is_on(config.oss));
    push_opt(&mut generated, "--local-provider", &provider);
    push_when(&mut generated, "--skip-git-repo-check", is_on(config.skip_git_repo_check));
    push_when(&mut generated, "--ignore-user-config", is_on(config.ignore_user_config));
    push_when(&mut generated, "--ignore-rules", is_on(config.ignore_rules));
    let ghost so_far = texts(generated@);
    if !is_resume {
        append_repeatable_codex_pairs(&mut generated, "--add-dir", &config.add_dirs);
    } else {
        proof {
            assert(so_far + Seq::<Seq<char>>::empty() =~= so_far);
        }
    }
    push_opt(&mut generated, "--output-schema", &schema);
    push_opt(&mut generated, "--color", &color);
    push_when(&mut generated, "--ephemeral", is_on(config.ephemeral));
    insert_codex_args_before_stdin(args, generated);
}

// ---------------------------------------------------------------------------
// Resuming a session
// ---------------------------------------------------------------------------

/// The thread that a request resumes.
pub open spec fn resumed_thread(params: Tree) -> Option<Seq<char>> {
    cleaned(tree_text(first_of(member(params, "threadId"@), member(params, "thread_id"@))))
}

/// The `claude_code` session that a request resumes.
pub open spec fn resumed_session(params: Tree) -> Option<Seq<char>> {
    cleaned(
        tree_text(
            first_of(
                first_of(
                    first_of(member(params, "sessionId"@), member(params, "session_id"@)),
                    member(params, "threadId"@),
                ),
                member(params, "thread_id"@),
            ),
        ),
    )
}

fn clean_json_text(value: Option<&Json>) -> (r: Option<String>)
    ensures
        opt(r) == cleaned(tree_text(opt_tree(value))),
{
    match value {
        Some(v) => clean_optional_string(v.as_str()),
        None => None,
    }
}

fn codex_thread_id_from_params(request: &ExternalCliRunRequest) -> (r: Option<String>)
    ensures
        opt(r) == resumed_thread(request.params@),
{
    let params = &request.params;
    let found = match params.get("threadId") {
        Some(v) => Some(v),
        None => params.get("thread_id"),
    };
    clean_json_text(found)
}

fn claude_code_session_id_from_params(request: &ExternalCliRunRequest) -> (r: Option<String>)
    ensures
        opt(r) == resumed_session(request.params@),
{
    let params = &request.params;
    let found = match params.get("sessionId") {
        Some(v) => Some(v),
        None => match params.get("session_id") {
            Some(v) => Some(v),
            None => match params.get("threadId") {
                Some(v) => Some(v),
                None => params.get("thread_id"),
            },
        },
    };
    clean_json_text(found)
}

// ---------------------------------------------------------------------------
// The whole command
// ---------------------------------------------------------------------------

pub open spec fn has_work_dir_flag(args: Seq<Seq<char>>) -> bool {
    args.contains("--cd"@) || args.contains("-C"@)
}

/// Puts `--cd dir` behind a leading `exec`, unless a directory is given.
pub open spec fn with_codex_work_dir(args: Seq<Seq<char>>, dir: Seq<char>) -> Seq<Seq<char>> {
    if has_work_dir_flag(args) {
        args
    } else if args.len() > 0 && (args[0] == "exec"@ || args[0] == "e"@) {
        seq![args[0], "--cd"@, dir] + args.drop_first()
    } else {
        seq!["--cd"@, dir] + args
    }
}

/// Puts `--cd dir` first, unless a directory is given.
pub open spec fn with_traex_work_dir(args: Seq<Seq<char>>, dir: Seq<char>) -> Seq<Seq<char>> {
    if has_work_dir_flag(args) {
        args
    } else {
        seq!["--cd"@, dir] + args
    }
}

/// Has an `exec` command write its last message to a file.
pub open spec fn with_last_message(args: Seq<Seq<char>>, path: Seq<char>) -> Seq<Seq<char>> {
    if !(args.contains("exec"@) || args.contains("e"@)) {
        args
    } else if args.contains("--output-last-message"@) || args.contains("-o"@) {
        args
    } else {
        before_stdin(args, seq!["--output-last-message"@, path])
    }
}

pub open spec fn default_exec_args(resume: bool) -> Seq<Seq<char>> {
    if resume {
        seq!["exec"@, "resume"@, "--json"@]
    } else {
        seq!["exec"@, "--json"@]
    }
}

/// The arguments of Codex and Traex behind the configured ones: the thread that
/// is resumed and the mark for standard input. A request that brings its own
/// arguments gets neither.
pub open spec fn exec_tail(own: Seq<Seq<char>>, resume: Option<Seq<char>>) -> Seq<Seq<char>> {
    if own.len() > 0 {
        Seq::empty()
    } else {
        match resume {
            Some(id) => seq![id, "-"@],
            None => seq!["-"@],
        }
    }
}

pub open spec fn exec_base(own: Seq<Seq<char>>, resume: Option<Seq<char>>) -> Seq<Seq<char>> {
    if own.len() > 0 {
        own
    } else {
        default_exec_args(resume is Some)
    }
}

pub open spec fn codex_args(
    c: AdapterConfigView,
    params: Tree,
    work_dir: Option<Seq<char>>,
    last_message: Seq<char>,
) -> Seq<Seq<char>> {
    let resume = resumed_thread(params);
    let base = exec_base(c.args, resume);
    let placed = match work_dir {
        Some(d) => with_codex_work_dir(base, d),
        None => base,
    };
    codex_configured(with_last_message(placed, last_message), c, resume is Some) + exec_tail(
        c.args,
        resume,
    )
}

pub open spec fn traex_args(
    c: AdapterConfigView,
    params: Tree,
    work_dir: Option<Seq<char>>,
    last_message: Seq<char>,
) -> Seq<Seq<char>> {
    let resume = resumed_thread(params);
    let base = exec_base(c.args, resume);
    let placed = match work_dir {
        Some(d) => with_traex_work_dir(base, d),
        None => base,
    };
    traex_configured(with_last_message(placed, last_message), c, resume is Some) + exec_tail(
        c.args,
        resume,
    )
}

pub open spec fn default_claude_args() -> Seq<Seq<char>> {
    seq![
        "-p"@,
        "--verbose"@,
        "--output-format"@,
        "stream-json"@,
        "--input-format"@,
        "text"@,
    ]
}

pub open spec fn claude_args(c: AdapterConfigView, params: Tree) -> Seq<Seq<char>> {
    if c.args.len() > 0 {
        claude_configured(c.args, c)
    } else {
        claude_configured(default_claude_args(), c) + flag_with(
            "--resume"@,
            resumed_session(params),
        )
    }
}

/// The mathematical view of a command line.
#[verifier::ext_equal]
pub struct CommandView {
    pub executable: Seq<char>,
    pub args: Seq<Seq<char>>,
    pub env: Map<Seq<char>, Seq<char>>,
    pub work_dir: Option<Seq<char>>,
    pub timeout_secs: Option<u64>,
}

impl View for CommandSpec {
    type V = CommandView;

    open spec fn view(&self) -> CommandView {
        CommandView {
            executable: self.executable@,
            args: texts(self.args@),
            env: map_texts(self.env@),
            work_dir: opt(self.work_dir),
            timeout_secs: self.timeout_secs,
        }
    }
}

/// The executable of an adapter that names none.
pub open spec fn default_executable(adapter: Seq<char>) -> Seq<char> {
    if adapter == CLAUDE_CODE_ADAPTER@ {
        claude_word()
    } else {
        adapter
    }
}

/// The command that a request asks for, or why there is none.
pub open spec fn expected_command(
    request: ExternalCliRunRequest,
    last_message: Seq<char>,
) -> Result<CommandView, Seq<char>> {
    let adapter = request.adapter@;
    let c = request.adapter_config@;
    if adapter == CHATGPT_WEB_ADAPTER@ {
        Ok(
            CommandView {
                executable: CHATGPT_WEB_ADAPTER@,
                args: seq![request.operation@],
                env: Map::empty(),
                work_dir: None,
                timeout_secs: first_of(c.timeout_secs, Some(7200)),
            },
        )
    } else if adapter != DEFAULT_ADAPTER@ && adapter != TRAEX_ADAPTER@ && adapter
        != CLAUDE_CODE_ADAPTER@ && c.executable is None && c.args.len() == 0 {
        Err("adapter '"@ + adapter + "' requires explicit adapterConfig.args"@)
    } else {
        Ok(
            CommandView {
                executable: match c.executable {
                    Some(e) => e,
                    None => default_executable(adapter),
                },
                args: if adapter == DEFAULT_ADAPTER@ {
                    codex_args(c, request.params@, opt(request.work_dir), last_message)
                } else if adapter == TRAEX_ADAPTER@ {
                    traex_args(c, request.params@, opt(request.work_dir), last_message)
                } else if adapter == CLAUDE_CODE_ADAPTER@ {
                    claude_args(c, request.params@)
                } else {
                    c.args
                },
                env: c.env,
                work_dir: opt(request.work_dir),
                timeout_secs: c.timeout_secs,
            },
        )
    }
}

fn insert_text(args: &mut Vec<String>, at: usize, s: &str)
    requires
        at <= old(args)@.len(),
    ensures
        texts(final(args)@) == texts(old(args)@).insert(at as int, s@),
        final(args)@.len() == old(args)@.len() + 1,
{
    args.insert(at, owned(s));
    proof {
        assert(texts(args@) =~= texts(old(args)@).insert(at as int, s@));
    }
}

fn ensure_codex_work_dir_arg(args: &mut Vec<String>, work_dir: &str)
    ensures
        texts(final(args)@) == with_codex_work_dir(texts(old(args)@), work_dir@),
{
    let ghost start = texts(args@);
    if crate::text::list_contains(args, "--cd") || crate::text::list_contains(args, "-C") {
        return;
    }
    let behind = args.len() > 0 && (same(args[0].as_str(), "exec") || same(args[0].as_str(), "e"));
    proof {
        if args@.len() > 0 {
            assert(start[0] == args@[0]@);
        }
    }
    let at: usize = if behind {
        1
    } else {
        0
    };
    insert_text(args, at, work_dir);
    insert_text(args, at, "--cd");
    proof {
        assert(texts(args@) =~= with_codex_work_dir(start, work_dir@));
    }
}

fn ensure_traex_work_dir_arg(args: &mut Vec<String>, work_dir: &str)
    ensures
        texts(final(args)@) == with_traex_work_dir(texts(old(args)@), work_dir@),
{
    let ghost start = texts(args@);
    if crate::text::list_contains(args, "--cd") || crate::text::list_contains(args, "-C") {
        return;
    }
    insert_text(args, 0, work_dir);
    insert_text(args, 0, "--cd");
    proof {
        assert(texts(args@) =~= with_traex_work_dir(start, work_dir@));
    }
}

fn ensure_codex_last_message_arg(args: &mut Vec<String>, last_message_path: &str)
    ensures
        texts(final(args)@) == with_last_message(texts(old(args)@), last_message_path@),
{
    if !(crate::text::list_contains(args, "exec") || crate::text::list_contains(args, "e")) {
        return;
    }
    if crate::text::list_contains(args, "--output-last-message") || crate::text::list_contains(
        args,
        "-o",
    ) {
        return;
    }
    let mut more: Vec<String> = Vec::new();
    push_text(&mut more, "--output-last-message");
    push_text(&mut more, last_message_path);
    proof {
        assert(texts(more@) =~= seq!["--output-last-message"@, last_message_path@]);
    }
    insert_codex_args_before_stdin(args, more);
}

fn default_executable_for_adapter(adapter: &str) -> (r: String)
    ensures
        r@ == default_executable(adapter@),
{
    if same(adapter, CLAUDE_CODE_ADAPTER) {
        claude_word_text()
    } else {
        owned(adapter)
    }
}

fn exec_base_args(config: &ExternalCliAdapterConfig, resume: bool) -> (r: Vec<String>)
    ensures
        texts(r@) == (if config.args@.len() > 0 {
            texts(config.args@)
        } else {
            default_exec_args(resume)
        }),
{
    if config.args.len() > 0 {
        copy_texts(&config.args)
    } else {
        let mut args: Vec<String> = Vec::new();
        push_text(&mut args, "exec");
        if resume {
            push_text(&mut args, "resume");
        }
        push_text(&mut args, "--json");
        proof {
            assert(texts(args@) =~= default_exec_args(resume));
        }
        args
    }
}

fn push_exec_tail(args: &mut Vec<String>, own_args: bool, resume: &Option<String>, own: &Vec<String>)
    requires
        own_args == (own@.len() > 0),
    ensures
        texts(final(args)@) == texts(old(args)@) + exec_tail(texts(own@), opt(*resume)),
{
    let ghost start = texts(args@);
    if !own_args {
        match resume {
            Some(id) => push_text(args, id.as_str()),
            None => {},
        }
        push_text(args, "-");
    }
    proof {
        assert(texts(args@) =~= start + exec_tail(texts(own@), opt(*resume)));
    }
}

/// Builds the command line of a run.
pub fn build_command_spec(request: &ExternalCliRunRequest, last_message_path: &str) -> (r: Result<
    CommandSpec,
    String,
>)
    ensures
        match r {
            Ok(spec) => expected_command(*request, last_message_path@) == Ok::<
                CommandView,
                Seq<char>,
            >(spec@),
            Err(e) => expected_command(*request, last_message_path@) == Err::<
                CommandView,
                Seq<char>,
            >(e@),
        },
{
    let config = &request.adapter_config;
    let adapter = request.adapter.as_str();
    if same(adapter, CHATGPT_WEB_ADAPTER) {
        let mut args: Vec<String> = Vec::new();
        push_text(&mut args, request.operation.as_str());
        let timeout_secs: Option<u64> = match config.timeout_secs {
            Some(t) => Some(t),
            None => Some(7200),
        };
        let spec = CommandSpec {
            executable: owned(CHATGPT_WEB_ADAPTER),
            args,
            env: TextMap::new(),
            work_dir: None,
            timeout_secs,
        };
        proof {
            assert(spec@.args =~= seq![request.operation@]);
            assert(spec@.env =~= Map::empty());
        }
        return Ok(spec);
    }
    let executable = match &config.executable {
        Some(e) => e.clone(),
        None => default_executable_for_adapter(adapter),
    };
    let own_args = config.args.len() > 0;
    let args = if same(adapter, DEFAULT_ADAPTER) {
        let resume = codex_thread_id_from_params(request);
        let mut args = exec_base_args(config, resume.is_some());
        match &request.work_dir {
            Some(d) => ensure_codex_work_dir_arg(&mut args, d.as_str()),
            None => {},
        }
        ensure_codex_last_message_arg(&mut args, last_message_path);
        append_codex_config_args(&mut args, config, resume.is_some());
        push_exec_tail(&mut args, own_args, &resume, &config.args);
        args
    } else if same(adapter, TRAEX_ADAPTER) {
        let resume = codex_thread_id_from_params(request);
        let mut args = exec_base_args(config, resume.is_some());
        match &request.work_dir {
            Some(d) => ensure_traex_work_dir_arg(&mut args, d.as_str()),
            None => {},
        }
        ensure_codex_last_message_arg(&mut args, last_message_path);
        append_traex_config_args(&mut args, config, resume.is_some());
        push_exec_tail(&mut args, own_args, &resume, &config.args);
        args
    } else if same(adapter, CLAUDE_CODE_ADAPTER) {
        if own_args {
            let mut args = copy_texts(&config.args);
            append_claude_code_config_args(&mut args, config);
            args
        } else {
            let mut args: Vec<String> = Vec::new();
            push_text(&mut args, "-p");
            push_text(&mut args, "--verbose");
            push_text(&mut args, "--output-format");
            push_text(&mut args, "stream-json");
            push_text(&mut args, "--input-format");
            push_text(&mut args, "text");
            proof {
                assert(texts(args@) =~= default_claude_args());
            }
            append_claude_code_config_args(&mut args, config);
            let session = claude_code_session_id_from_params(request);
            push_opt(&mut args, "--resume", &session);
            args
        }
    } else {
        if config.executable.is_none() && !own_args {
            return Err(
                concat3("adapter '", adapter, "' requires explicit adapterConfig.args"),
            );
        }
        copy_texts(&config.args)
    };
    let spec = CommandSpec {
        executable,
        args,
        env: copy_text_map(&config.env),
        work_dir: copy_opt(&request.work_dir),
        timeout_secs: config.timeout_secs,
    };
    Ok(spec)
}

// ---------------------------------------------------------------------------
// Laws
// ---------------------------------------------------------------------------

/// Removing a flag leaves no occurrence of it and brings in no new argument.
pub proof fn lemma_without_flag(args: Seq<Seq<char>>, flag: Seq<char>)
    ensures
        !without_flag(args, flag).contains(flag),
        forall|a: Seq<char>| #[trigger]
            without_flag(args, flag).contains(a) ==> args.contains(a),
    decreases args.len(),
{
    let r = without_flag(args, flag);
    if args.len() == 0 {
    } else if args[0] != flag {
        let rest = args.drop_first();
        lemma_without_flag(rest, flag);
        let t = without_flag(rest, flag);
        assert(r =~= seq![args[0]] + t);
        assert forall|a: Seq<char>| #[trigger] r.contains(a) implies args.contains(a) && a
            != flag by {
            let i = choose|i: int| 0 <= i < r.len() && r[i] == a;
            if i == 0 {
                assert(args[0] == a);
            } else {
                assert(t[i - 1] == a);
                assert(t.contains(a));
                let j = choose|j: int| 0 <= j < rest.len() && rest[j] == a;
                assert(args[j + 1] == a);
            }
        }
    } else {
        let k = if args.len() > 1 && !has_prefix(args[1], "-"@) {
            2int
        } else {
            1int
        };
        let rest = args.skip(k);
        assert(k == 1 ==> rest =~= args.drop_first());
        lemma_without_flag(rest, flag);
        assert(r == without_flag(rest, flag));
        assert forall|a: Seq<char>| #[trigger] r.contains(a) implies args.contains(a) by {
            let j = choose|j: int| 0 <= j < rest.len() && rest[j] == a;
            assert(args[j + k] == a);
        }
    }
}

proof fn lemma_without_flag_when(args: Seq<Seq<char>>, flag: Seq<char>, wanted: bool)
    ensures
        wanted ==> !without_flag_when(args, flag, wanted).contains(flag),
        forall|a: Seq<char>| #[trigger]
            without_flag_when(args, flag, wanted).contains(a) ==> args.contains(a),
{
    lemma_without_flag(args, flag);
}

/// Removing overrides brings in no new argument.
pub proof fn lemma_without_override(args: Seq<Seq<char>>, key: Seq<char>)
    ensures
        forall|a: Seq<char>| #[trigger]
            without_override(args, key).contains(a) ==> args.contains(a),
    decreases args.len(),
{
    if args.len() >= 2 {
        let r = without_override(args, key);
        if args[0] == "--config"@ && override_key(args[1]) == Some(key) {
            let rest = args.skip(2);
            lemma_without_override(rest, key);
            assert(r == without_override(rest, key));
            assert forall|a: Seq<char>| #[trigger] r.contains(a) implies args.contains(a) by {
                assert(rest.contains(a));
                let j = choose|j: int| 0 <= j < rest.len() && rest[j] == a;
                assert(args[j + 2] == a);
            }
        } else {
            let rest = args.drop_first();
            lemma_without_override(rest, key);
            let t = without_override(rest, key);
            assert(r =~= seq![args[0]] + t);
            assert forall|a: Seq<char>| #[trigger] r.contains(a) implies args.contains(a) by {
                let i = choose|i: int| 0 <= i < r.len() && r[i] == a;
                if i == 0 {
                    assert(args[0] == a);
                } else {
                    assert(t[i - 1] == a);
                    assert(t.contains(a));
                    let j = choose|j: int| 0 <= j < rest.len() && rest[j] == a;
                    assert(args[j + 1] == a);
                }
            }
        }
    }
}

proof fn lemma_without_reasoning(args: Seq<Seq<char>>, wanted: bool)
    ensures
        forall|a: Seq<char>| #[trigger]
            without_reasoning(args, wanted).contains(a) ==> args.contains(a),
{
    if wanted {
        let a1 = without_override(args, "model_reasoning_effort"@);
        let a2 = without_override(a1, "reasoning_effort"@);
        let a3 = without_override(a2, "model_reasoning_summary"@);
        lemma_without_override(args, "model_reasoning_effort"@);
        lemma_without_override(a1, "reasoning_effort"@);
        lemma_without_override(a2, "model_reasoning_summary"@);
        lemma_without_override(a3, "reasoning_summary"@);
    }
}

/// Of the arguments that a request brings along for Codex, no flag survives
/// that the configuration sets itself, and `--sandbox` never survives beside
/// full access.
pub proof fn lemma_codex_overrides(args: Seq<Seq<char>>, c: AdapterConfigView)
    ensures
        c.profile is Some ==> !codex_kept(args, c).contains("--profile"@),
        c.profile_v2 is Some ==> !codex_kept(args, c).contains("--profile-v2"@),
        c.model is Some ==> !codex_kept(args, c).contains("--model"@),
        c.sandbox is Some || codex_danger(c) ==> !codex_kept(args, c).contains("--sandbox"@),
        c.local_provider is Some ==> !codex_kept(args, c).contains("--local-provider"@),
        c.output_schema is Some ==> !codex_kept(args, c).contains("--output-schema"@),
        c.color is Some ==> !codex_kept(args, c).contains("--color"@),
{
    let a1 = without_flag_when(args, "--profile"@, c.profile is Some);
    let a2 = without_flag_when(a1, "--profile-v2"@, c.profile_v2 is Some);
    let a3 = without_flag_when(a2, "--model"@, c.model is Some);
    let a4 = without_flag_when(a3, "--sandbox"@, c.sandbox is Some);
    let a5 = without_flag_when(a4, "--local-provider"@, c.local_provider is Some);
    let a6 = without_flag_when(a5, "--output-schema"@, c.output_schema is Some);
    let a7 = without_flag_when(a6, "--color"@, c.color is Some);
    let a8 = without_reasoning(a7, c.reasoning_effort is Some || c.reasoning_summary is Some);
    lemma_without_flag_when(args, "--profile"@, c.profile is Some);
    lemma_without_flag_when(a1, "--profile-v2"@, c.profile_v2 is Some);
    lemma_without_flag_when(a2, "--model"@, c.model is Some);
    lemma_without_flag_when(a3, "--sandbox"@, c.sandbox is Some);
    lemma_without_flag_when(a4, "--local-provider"@, c.local_provider is Some);
    lemma_without_flag_when(a5, "--output-schema"@, c.output_schema is Some);
    lemma_without_flag_when(a6, "--color"@, c.color is Some);
    lemma_without_reasoning(a7, c.reasoning_effort is Some || c.reasoning_summary is Some);
    lemma_without_flag_when(a8, "--sandbox"@, codex_danger(c));
}

/// The same for Traex, which always sets its permission mode itself.
pub proof fn lemma_traex_overrides(args: Seq<Seq<char>>, c: AdapterConfigView)
    ensures
        c.profile is Some ==> !traex_kept(args, c).contains("--profile"@),
        c.model is Some ==> !traex_kept(args, c).contains("--model"@),
        !traex_kept(args, c).contains("--permission-mode"@),
        c.sandbox is Some || traex_danger(c) ==> !traex_kept(args, c).contains("--sandbox"@),
        c.output_schema is Some ==> !traex_kept(args, c).contains("--output-schema"@),
        c.color is Some ==> !traex_kept(args, c).contains("--color"@),
{
    let a1 = without_flag_when(args, "--profile"@, c.profile is Some);
    let a2 = without_flag_when(a1, "--model"@, c.model is Some);
    let a3 = without_flag(a2, "--permission-mode"@);
    let a4 = without_flag_when(a3, "--sandbox"@, c.sandbox is Some);
    let a5 = without_flag_when(a4, "--output-schema"@, c.output_schema is Some);
    let a6 = without_flag_when(a5, "--color"@, c.color is Some);
    let a7 = without_reasoning(a6, c.reasoning_effort is Some || c.reasoning_summary is Some);
    lemma_without_flag_when(args, "--profile"@, c.profile is Some);
    lemma_without_flag_when(a1, "--model"@, c.model is Some);
    lemma_without_flag(a2, "--permission-mode"@);
    lemma_without_flag_when(a3, "--sandbox"@, c.sandbox is Some);
    lemma_without_flag_when(a4, "--output-schema"@, c.output_schema is Some);
    lemma_without_flag_when(a5, "--color"@, c.color is Some);
    lemma_without_reasoning(a6, c.reasoning_effort is Some || c.reasoning_summary is Some);
    lemma_without_flag_when(a7, "--sandbox"@, traex_danger(c));
}

/// The same for `claude_code`.
pub proof fn lemma_claude_overrides(args: Seq<Seq<char>>, c: AdapterConfigView)
    ensures
        c.model is Some ==> !claude_kept(args, c).contains("--model"@),
        !claude_kept(args, c).contains("--permission-mode"@),
        c.reasoning_effort is Some ==> !claude_kept(args, c).contains("--effort"@),
{
    let a1 = without_flag_when(args, "--model"@, c.model is Some);
    let a2 = without_flag(a1, "--permission-mode"@);
    lemma_without_flag_when(args, "--model"@, c.model is Some);
    lemma_without_flag(a1, "--permission-mode"@);
    lemma_without_flag_when(a2, "--effort"@, c.reasoning_effort is Some);
}

/// A mark for standard input that ends the arguments stays at the end whatever
/// is put in front of it.
pub proof fn lemma_stdin_mark_stays_last(args: Seq<Seq<char>>, more: Seq<Seq<char>>)
    requires
        args.len() > 0,
        args.last() == "-"@,
    ensures
        before_stdin(args, more).len() > 0,
        before_stdin(args, more).last() == "-"@,
{
}

/// Codex and Traex read the prompt from standard input: a request without
/// arguments of its own always gets a command, and the mark for standard input
/// ends it.
pub proof fn lemma_default_command_reads_stdin(
    request: ExternalCliRunRequest,
    last_message: Seq<char>,
)
    requires
        request.adapter@ == DEFAULT_ADAPTER@ || request.adapter@ == TRAEX_ADAPTER@,
        request.adapter_config@.args.len() == 0,
    ensures
        expected_command(request, last_message) is Ok,
        expected_command(request, last_message)->Ok_0.args.len() > 0,
        expected_command(request, last_message)->Ok_0.args.last() == "-"@,
{
    reveal_strlit("codex");
    reveal_strlit("traex");
    reveal_strlit("chatgpt_web");
    assert(CHATGPT_WEB_ADAPTER@.len() == 11);
    assert(DEFAULT_ADAPTER@.len() == 5);
    assert(TRAEX_ADAPTER@.len() == 5);
}

} // verus!
