//! Runner configuration: what an external command-line agent is started with.

use vstd::prelude::*;
use vstd::string::*;

use crate::json::{Json, Tree};
use crate::map::{copy_text_map, TextMap};
use crate::text::{copy_opt, copy_texts, opt, owned, texts, trim, trimmed};

verus! {

pub const DEFAULT_RUNTIME: &'static str = "external_cli";

pub const DEFAULT_ADAPTER: &'static str = "codex";

pub const TRAEX_ADAPTER: &'static str = "traex";

pub const CLAUDE_CODE_ADAPTER: &'static str = "claude_code";

pub const CHATGPT_WEB_ADAPTER: &'static str = "chatgpt_web";

/// The word that the adapter `claude_code` begins with: the program that it runs.
pub open spec fn claude_word() -> Seq<char> {
    CLAUDE_CODE_ADAPTER@.take(6)
}

/// The same word with a capital.
pub open spec fn claude_title() -> Seq<char> {
    seq!['C'] + CLAUDE_CODE_ADAPTER@.subrange(1, 6)
}

/// What the agent of the adapter `claude_code` is called.
pub open spec fn claude_product() -> Seq<char> {
    claude_title() + " Code"@
}

pub fn claude_word_text() -> (r: String)
    ensures
        r@ == claude_word(),
{
    proof {
        reveal_strlit("claude_code");
    }
    owned(CLAUDE_CODE_ADAPTER.substring_char(0, 6))
}

pub fn claude_title_text() -> (r: String)
    ensures
        r@ == claude_title(),
{
    proof {
        reveal_strlit("claude_code");
    }
    let mut out = String::new();
    out.push('C');
    out.append(CLAUDE_CODE_ADAPTER.substring_char(1, 6));
    proof {
        assert(out@ =~= claude_title());
    }
    out
}

pub fn claude_product_text() -> (r: String)
    ensures
        r@ == claude_product(),
{
    let mut out = claude_title_text();
    out.append(" Code");
    out
}

/// The texts of a map from texts to texts.
pub open spec fn map_texts(m: Map<Seq<char>, String>) -> Map<Seq<char>, Seq<char>> {
    m.map_values(|s: String| s@)
}

/// The trees of a map from texts to JSON values.
pub open spec fn map_trees(m: Map<Seq<char>, Json>) -> Map<Seq<char>, Tree> {
    m.map_values(|j: Json| j@)
}

/// A text without surrounding white space, unless nothing is left of it.
pub open spec fn cleaned(v: Option<Seq<char>>) -> Option<Seq<char>> {
    match v {
        Some(s) => if trimmed(s).len() == 0 {
            None
        } else {
            Some(trimmed(s))
        },
        None => None,
    }
}

/// Trims an optional text and drops it when nothing is left.
pub fn clean_optional_string(value: Option<&str>) -> (r: Option<String>)
    ensures
        opt(r) == cleaned(crate::json::opt_str(value)),
{
    match value {
        Some(s) => {
            let t = trim(s);
            if t.is_empty() {
                None
            } else {
                Some(owned(t))
            }
        },
        None => None,
    }
}

/// Trims an optional owned text and drops it when nothing is left.
pub fn clean_opt(value: &Option<String>) -> (r: Option<String>)
    ensures
        opt(r) == cleaned(opt(*value)),
{
    match value {
        Some(s) => clean_optional_string(Some(s.as_str())),
        None => None,
    }
}

/// Cleaning twice is cleaning once.
pub proof fn lemma_cleaned_idempotent(v: Option<Seq<char>>)
    ensures
        cleaned(cleaned(v)) == cleaned(v),
{
    if let Some(s) = v {
        crate::text::lemma_trimmed_idempotent(s);
    }
}

/// How a runner is started: the executable, its arguments and its switches.
#[derive(Debug, PartialEq, Eq)]
pub struct ExternalCliAdapterConfig {
    pub executable: Option<String>,
    pub args: Vec<String>,
    pub env: TextMap<String>,
    pub profile: Option<String>,
    pub profile_v2: Option<String>,
    pub model: Option<String>,
    pub sandbox: Option<String>,
    pub approval_policy: Option<String>,
    pub permission_mode: Option<String>,
    pub reasoning_effort: Option<String>,
    pub reasoning_summary: Option<String>,
    pub danger_full_access: Option<bool>,
    pub dangerously_bypass_hook_trust: Option<bool>,
    pub strict_config: Option<bool>,
    pub skip_git_repo_check: Option<bool>,
    pub ignore_user_config: Option<bool>,
    pub ignore_rules: Option<bool>,
    pub oss: Option<bool>,
    pub local_provider: Option<String>,
    pub output_schema: Option<String>,
    pub color: Option<String>,
    pub add_dirs: Vec<String>,
    pub config_overrides: Vec<String>,
    pub enable_features: Vec<String>,
    pub disable_features: Vec<String>,
    pub search: Option<bool>,
    pub ephemeral: Option<bool>,
    pub timeout_secs: Option<u64>,
    pub extra: TextMap<Json>,
}

/// The mathematical view of an adapter configuration.
#[verifier::ext_equal]
pub struct AdapterConfigView {
    pub executable: Option<Seq<char>>,
    pub args: Seq<Seq<char>>,
    pub env: Map<Seq<char>, Seq<char>>,
    pub profile: Option<Seq<char>>,
    pub profile_v2: Option<Seq<char>>,
    pub model: Option<Seq<char>>,
    pub sandbox: Option<Seq<char>>,
    pub approval_policy: Option<Seq<char>>,
    pub permission_mode: Option<Seq<char>>,
    pub reasoning_effort: Option<Seq<char>>,
    pub reasoning_summary: Option<Seq<char>>,
    pub danger_full_access: Option<bool>,
    pub dangerously_bypass_hook_trust: Option<bool>,
    pub strict_config: Option<bool>,
    pub skip_git_repo_check: Option<bool>,
    pub ignore_user_config: Option<bool>,
    pub ignore_rules: Option<bool>,
    pub oss: Option<bool>,
    pub local_provider: Option<Seq<char>>,
    pub output_schema: Option<Seq<char>>,
    pub color: Option<Seq<char>>,
    pub add_dirs: Seq<Seq<char>>,
    pub config_overrides: Seq<Seq<char>>,
    pub enable_features: Seq<Seq<char>>,
    pub disable_features: Seq<Seq<char>>,
    pub search: Option<bool>,
    pub ephemeral: Option<bool>,
    pub timeout_secs: Option<u64>,
    pub extra: Map<Seq<char>, Tree>,
}

impl View for ExternalCliAdapterConfig {
    type V = AdapterConfigView;

    open spec fn view(&self) -> AdapterConfigView {
        AdapterConfigView {
            executable: opt(self.executable),
            args: texts(self.args@),
            env: map_texts(self.env@),
            profile: opt(self.profile),
            profile_v2: opt(self.profile_v2),
            model: opt(self.model),
            sandbox: opt(self.sandbox),
            approval_policy: opt(self.approval_policy),
            permission_mode: opt(self.permission_mode),
            reasoning_effort: opt(self.reasoning_effort),
            reasoning_summary: opt(self.reasoning_summary),
            danger_full_access: self.danger_full_access,
            dangerously_bypass_hook_trust: self.dangerously_bypass_hook_trust,
            strict_config: self.strict_config,
            skip_git_repo_check: self.skip_git_repo_check,
            ignore_user_config: self.ignore_user_config,
            ignore_rules: self.ignore_rules,
            oss: self.oss,
            local_provider: opt(self.local_provider),
            output_schema: opt(self.output_schema),
            color: opt(self.color),
            add_dirs: texts(self.add_dirs@),
            config_overrides: texts(self.config_overrides@),
            enable_features: texts(self.enable_features@),
            disable_features: texts(self.disable_features@),
            search: self.search,
            ephemeral: self.ephemeral,
            timeout_secs: self.timeout_secs,
            extra: map_trees(self.extra@),
        }
    }
}

/// The configuration in which nothing is set.
pub open spec fn unset_config() -> AdapterConfigView {
    AdapterConfigView {
        executable: None,
        args: Seq::empty(),
        env: Map::empty(),
        profile: None,
        profile_v2: None,
        model: None,
        sandbox: None,
        approval_policy: None,
        permission_mode: None,
        reasoning_effort: None,
        reasoning_summary: None,
        danger_full_access: None,
        dangerously_bypass_hook_trust: None,
        strict_config: None,
        skip_git_repo_check: None,
        ignore_user_config: None,
        ignore_rules: None,
        oss: None,
        local_provider: None,
        output_schema: None,
        color: None,
        add_dirs: Seq::empty(),
        config_overrides: Seq::empty(),
        enable_features: Seq::empty(),
        disable_features: Seq::empty(),
        search: None,
        ephemeral: None,
        timeout_secs: None,
        extra: Map::empty(),
    }
}

/// A copy of a map from texts to JSON values.
pub fn copy_json_map(m: &TextMap<Json>) -> (r: TextMap<Json>)
    ensures
        map_trees(r@) == map_trees(m@),
{
    let mut out: TextMap<Json> = TextMap::new();
    let mut i: usize = 0;
    let n: usize = m.len();
    while i < n
        invariant
            i <= n,
            n == m.list().len(),
            crate::map::ascending(m.list()),
            m@ == crate::map::entries_map(m.list()),
            forall|k: Seq<char>| #[trigger]
                out@.contains_key(k) <==> exists|j: int|
                    0 <= j < i && #[trigger] m.list()[j].0@ == k,
            forall|j: int|
                0 <= j < i ==> out@.contains_key(#[trigger] m.list()[j].0@)
                    && out@[m.list()[j].0@]@ == m.list()[j].1@,
        decreases n - i,
    {
        let ghost before = out@;
        let key = m.key_at(i);
        let value = m.value_at(i);
        out.insert(key.as_str(), value.copy());
        proof {
            let here = m.list()[i as int].0@;
            assert forall|k: Seq<char>| #[trigger]
                out@.contains_key(k) <==> exists|j: int|
                    0 <= j < i + 1 && #[trigger] m.list()[j].0@ == k by {
                if k == here {
                    assert(m.list()[i as int].0@ == k);
                } else if before.contains_key(k) {
                    let j = choose|j: int| 0 <= j < i && #[trigger] m.list()[j].0@ == k;
                    assert(m.list()[j].0@ == k);
                }
            }
            assert forall|j: int| 0 <= j < i + 1 implies out@.contains_key(
                #[trigger] m.list()[j].0@,
            ) && out@[m.list()[j].0@]@ == m.list()[j].1@ by {
                if j < i {
                    crate::map::lemma_text_less_irreflexive(here);
                    assert(crate::map::text_less(m.list()[j].0@, m.list()[i as int].0@));
                }
            }
        }
        i = i + 1;
    }
    proof {
        assert forall|k: Seq<char>| out@.contains_key(k) implies out@[k]@ == m@[k]@ by {
            let j = choose|j: int| 0 <= j < i && #[trigger] m.list()[j].0@ == k;
            crate::map::lemma_entry_in_map(m.list(), j);
        }
        assert(map_trees(out@) =~= map_trees(m@));
    }
    out
}

impl Default for ExternalCliAdapterConfig {
    fn default() -> (r: Self)
        ensures
            r@ == unset_config(),
    {
        let r = ExternalCliAdapterConfig {
            executable: None,
            args: Vec::new(),
            env: TextMap::new(),
            profile: None,
            profile_v2: None,
            model: None,
            sandbox: None,
            approval_policy: None,
            permission_mode: None,
            reasoning_effort: None,
            reasoning_summary: None,
            danger_full_access: None,
            dangerously_bypass_hook_trust: None,
            strict_config: None,
            skip_git_repo_check: None,
            ignore_user_config: None,
            ignore_rules: None,
            oss: None,
            local_provider: None,
            output_schema: None,
            color: None,
            add_dirs: Vec::new(),
            config_overrides: Vec::new(),
            enable_features: Vec::new(),
            disable_features: Vec::new(),
            search: None,
            ephemeral: None,
            timeout_secs: None,
            extra: TextMap::new(),
        };
        proof {
            assert(r@ =~= unset_config());
        }
        r
    }
}

impl ExternalCliAdapterConfig {
    /// A copy of the configuration.
    pub fn copy(&self) -> (r: Self)
        ensures
            r@ == self@,
    {
        ExternalCliAdapterConfig {
            executable: copy_opt(&self.executable),
            args: copy_texts(&self.args),
            env: copy_text_map(&self.env),
            profile: copy_opt(&self.profile),
            profile_v2: copy_opt(&self.profile_v2),
            model: copy_opt(&self.model),
            sandbox: copy_opt(&self.sandbox),
            approval_policy: copy_opt(&self.approval_policy),
            permission_mode: copy_opt(&self.permission_mode),
            reasoning_effort: copy_opt(&self.reasoning_effort),
            reasoning_summary: copy_opt(&self.reasoning_summary),
            danger_full_access: self.danger_full_access,
            dangerously_bypass_hook_trust: self.dangerously_bypass_hook_trust,
            strict_config: self.strict_config,
            skip_git_repo_check: self.skip_git_repo_check,
            ignore_user_config: self.ignore_user_config,
            ignore_rules: self.ignore_rules,
            oss: self.oss,
            local_provider: copy_opt(&self.local_provider),
            output_schema: copy_opt(&self.output_schema),
            color: copy_opt(&self.color),
            add_dirs: copy_texts(&self.add_dirs),
            config_overrides: copy_texts(&self.config_overrides),
            enable_features: copy_texts(&self.enable_features),
            disable_features: copy_texts(&self.disable_features),
            search: self.search,
            ephemeral: self.ephemeral,
            timeout_secs: self.timeout_secs,
            extra: copy_json_map(&self.extra),
        }
    }

    /// Whether nothing is set.
    pub fn is_unset(&self) -> (r: bool)
        ensures
            r == (self@ == unset_config()),
    {
        let r = self.executable.is_none() && self.args.is_empty() && self.env.is_empty()
            && self.profile.is_none() && self.profile_v2.is_none() && self.model.is_none()
            && self.sandbox.is_none() && self.approval_policy.is_none()
            && self.permission_mode.is_none() && self.reasoning_effort.is_none()
            && self.reasoning_summary.is_none() && self.danger_full_access.is_none()
            && self.dangerously_bypass_hook_trust.is_none() && self.strict_config.is_none()
            && self.skip_git_repo_check.is_none() && self.ignore_user_config.is_none()
            && self.ignore_rules.is_none() && self.oss.is_none() && self.local_provider.is_none()
            && self.output_schema.is_none() && self.color.is_none() && self.add_dirs.is_empty()
            && self.config_overrides.is_empty() && self.enable_features.is_empty()
            && self.disable_features.is_empty() && self.search.is_none()
            && self.ephemeral.is_none() && self.timeout_secs.is_none() && self.extra.is_empty();
        proof {
            if r {
                assert(self@ =~= unset_config());
            } else {
                lemma_unset_fields(*self);
            }
        }
        r
    }
}

proof fn lemma_unset_fields(c: ExternalCliAdapterConfig)
    ensures
        c@ == unset_config() ==> {
            &&& c.args@.len() == 0
            &&& c.add_dirs@.len() == 0
            &&& c.config_overrides@.len() == 0
            &&& c.enable_features@.len() == 0
            &&& c.disable_features@.len() == 0
            &&& c.env@ == Map::<Seq<char>, String>::empty()
            &&& c.extra@ == Map::<Seq<char>, Json>::empty()
        },
{
    if c@ == unset_config() {
        assert(texts(c.args@).len() == 0);
        assert(texts(c.add_dirs@).len() == 0);
        assert(texts(c.config_overrides@).len() == 0);
        assert(texts(c.enable_features@).len() == 0);
        assert(texts(c.disable_features@).len() == 0);
        assert(map_texts(c.env@).dom() =~= c.env@.dom());
        assert(map_trees(c.extra@).dom() =~= c.extra@.dom());
        assert(c.env@ =~= Map::<Seq<char>, String>::empty());
        assert(c.extra@ =~= Map::<Seq<char>, Json>::empty());
    }
}

} // verus!
