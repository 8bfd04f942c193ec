//! Which model and reasoning effort a run will use, and where they come from.

use vstd::prelude::*;
use vstd::string::*;

use crate::agent_config::{
    claude_word, claude_word_text, clean_opt, clean_optional_string, cleaned, AdapterConfigView,
    ExternalCliAdapterConfig, DEFAULT_ADAPTER, TRAEX_ADAPTER,
};
use crate::json::{first_of, json_of_text, member, opt_str, parse_json, tree_text, Json, Tree};
use crate::text::{
    concat2, copy_opt, drop_back, drop_front, opt, owned, same, split_at_first, split_once, texts,
    trim, trim_char, trimmed,
};

verus! {

broadcast use vstd::string::group_string_axioms;

/// The model settings of a run, with where they come from.
#[derive(Debug, PartialEq, Eq)]
pub struct ExternalCliResolvedModelConfig {
    pub model: Option<String>,
    pub model_provider: Option<String>,
    pub reasoning_effort: Option<String>,
    pub reasoning_summary: Option<String>,
    pub model_source: Option<String>,
    pub reasoning_source: Option<String>,
}

/// The mathematical view of the model settings.
pub struct ResolvedView {
    pub model: Option<Seq<char>>,
    pub model_provider: Option<Seq<char>>,
    pub reasoning_effort: Option<Seq<char>>,
    pub reasoning_summary: Option<Seq<char>>,
    pub model_source: Option<Seq<char>>,
    pub reasoning_source: Option<Seq<char>>,
}

impl View for ExternalCliResolvedModelConfig {
    type V = ResolvedView;

    open spec fn view(&self) -> ResolvedView {
        ResolvedView {
            model: opt(self.model),
            model_provider: opt(self.model_provider),
            reasoning_effort: opt(self.reasoning_effort),
            reasoning_summary: opt(self.reasoning_summary),
            model_source: opt(self.model_source),
            reasoning_source: opt(self.reasoning_source),
        }
    }
}

/// The settings of which nothing is known.
pub open spec fn nothing_known() -> ResolvedView {
    ResolvedView {
        model: None,
        model_provider: None,
        reasoning_effort: None,
        reasoning_summary: None,
        model_source: None,
        reasoning_source: None,
    }
}

impl Default for ExternalCliResolvedModelConfig {
    fn default() -> (r: Self)
        ensures
            r@ == nothing_known(),
    {
        ExternalCliResolvedModelConfig {
            model: None,
            model_provider: None,
            reasoning_effort: None,
            reasoning_summary: None,
            model_source: None,
            reasoning_source: None,
        }
    }
}

// ---------------------------------------------------------------------------
// TOML files
// ---------------------------------------------------------------------------

/// The members that `toml::from_str` finds at the top of a document, each with
/// its text where it is a string; `None` where the document is not TOML.
pub uninterp spec fn toml_document(text: Seq<char>) -> Option<
    Seq<(Seq<char>, Option<Seq<char>>)>,
>;

/// The views of the members of a TOML document.
pub open spec fn member_views(v: Seq<(String, Option<String>)>) -> Seq<
    (Seq<char>, Option<Seq<char>>),
> {
    v.map_values(|m: (String, Option<String>)| (m.0@, opt(m.1)))
}

/// `toml::from_str` into a `toml::Value`: the members of the table at the top,
/// which depend on the text alone. A member that is not a string has no text.
#[verifier::external_body]
pub(crate) fn parse_toml(text: &str) -> (r: Option<Vec<(String, Option<String>)>>)
    ensures
        (match r {
            Some(v) => Some(member_views(v@)),
            None => None,
        }) == toml_document(text@),
{
    match toml::from_str::<toml::Value>(text) {
        Ok(toml::Value::Table(table)) => Some(
            table.into_iter().map(|(k, v)| (k, v.as_str().map(str::to_string))).collect(),
        ),
        Ok(_) => Some(Vec::new()),
        Err(_) => None,
    }
}

/// The text of the first member named `key`.
pub open spec fn toml_text(members: Seq<(Seq<char>, Option<Seq<char>>)>, key: Seq<char>) -> Option<
    Seq<char>,
>
    decreases members.len(),
{
    if members.len() == 0 {
        None
    } else if members[0].0 == key {
        members[0].1
    } else {
        toml_text(members.drop_first(), key)
    }
}

fn find_toml_text(members: &Vec<(String, Option<String>)>, key: &str) -> (r: Option<String>)
    ensures
        opt(r) == toml_text(member_views(members@), key@),
{
    let ghost all = member_views(members@);
    let mut i: usize = 0;
    proof {
        assert(all.skip(0) =~= all);
    }
    while i < members.len()
        invariant
            i <= members@.len(),
            all == member_views(members@),
            toml_text(all.skip(i as int), key@) == toml_text(all, key@),
        decreases members@.len() - i,
    {
        proof {
            assert(all.skip(i as int)[0] == all[i as int]);
            assert(all.skip(i as int).drop_first() =~= all.skip(i + 1));
        }
        if same(members[i].0.as_str(), key) {
            return copy_opt(&members[i].1);
        }
        i = i + 1;
    }
    None
}

fn toml_string(members: &Vec<(String, Option<String>)>, key: &str) -> (r: Option<String>)
    ensures
        opt(r) == cleaned(toml_text(member_views(members@), key@)),
{
    clean_opt(&find_toml_text(members, key))
}

fn or_toml_string(first: Option<String>, members: &Vec<(String, Option<String>)>, key: &str) -> (r:
    Option<String>)
    ensures
        opt(r) == first_of(opt(first), cleaned(toml_text(member_views(members@), key@))),
{
    match first {
        Some(s) => Some(s),
        None => toml_string(members, key),
    }
}

/// The settings that the members of a configuration file stand for.
pub open spec fn settings_of_members(
    members: Seq<(Seq<char>, Option<Seq<char>>)>,
    source: Seq<char>,
) -> ResolvedView {
    ResolvedView {
        model: cleaned(toml_text(members, "model"@)),
        model_provider: cleaned(toml_text(members, "model_provider"@)),
        reasoning_effort: first_of(
            cleaned(toml_text(members, "model_reasoning_effort"@)),
            cleaned(toml_text(members, "reasoning_effort"@)),
        ),
        reasoning_summary: first_of(
            cleaned(toml_text(members, "model_reasoning_summary"@)),
            cleaned(toml_text(members, "reasoning_summary"@)),
        ),
        model_source: Some(source),
        reasoning_source: Some(source),
    }
}

/// Reads the model settings from the members of a configuration file.
pub fn model_config_from_members(members: &Vec<(String, Option<String>)>, source: &str) -> (r:
    ExternalCliResolvedModelConfig)
    ensures
        r@ == settings_of_members(member_views(members@), source@),
{
    ExternalCliResolvedModelConfig {
        model: toml_string(members, "model"),
        model_provider: toml_string(members, "model_provider"),
        reasoning_effort: or_toml_string(
            toml_string(members, "model_reasoning_effort"),
            members,
            "reasoning_effort",
        ),
        reasoning_summary: or_toml_string(
            toml_string(members, "model_reasoning_summary"),
            members,
            "reasoning_summary",
        ),
        model_source: Some(owned(source)),
        reasoning_source: Some(owned(source)),
    }
}

/// The settings of a configuration file that may be missing.
pub open spec fn settings_of_file(content: Option<Seq<char>>, source: Seq<char>) -> ResolvedView {
    match content {
        Some(text) => match toml_document(text) {
            Some(members) => settings_of_members(members, source),
            None => nothing_known(),
        },
        None => nothing_known(),
    }
}

/// Reads the model settings from the text of a configuration file. A file that
/// is missing or not TOML settles nothing.
pub fn read_model_config_toml(content: Option<&str>, source: &str) -> (r:
    ExternalCliResolvedModelConfig)
    ensures
        r@ == settings_of_file(opt_str(content), source@),
{
    match content {
        Some(text) => match parse_toml(text) {
            Some(members) => model_config_from_members(&members, source),
            None => ExternalCliResolvedModelConfig::default(),
        },
        None => ExternalCliResolvedModelConfig::default(),
    }
}

/// The settings of `base` with those of `overlay` put over them.
pub open spec fn merged(base: ResolvedView, overlay: ResolvedView) -> ResolvedView {
    ResolvedView {
        model: first_of(overlay.model, base.model),
        model_source: if overlay.model is Some {
            overlay.model_source
        } else {
            base.model_source
        },
        model_provider: first_of(overlay.model_provider, base.model_provider),
        reasoning_effort: first_of(overlay.reasoning_effort, base.reasoning_effort),
        reasoning_summary: first_of(overlay.reasoning_summary, base.reasoning_summary),
        reasoning_source: if overlay.reasoning_effort is Some || overlay.reasoning_summary is Some {
            overlay.reasoning_source
        } else {
            base.reasoning_source
        },
    }
}

/// Puts the settings of one source over those of another.
pub fn merge_model_config(
    base: &mut ExternalCliResolvedModelConfig,
    overlay: ExternalCliResolvedModelConfig,
)
    ensures
        final(base)@ == merged(old(base)@, overlay@),
{
    if overlay.model.is_some() {
        base.model = overlay.model;
        base.model_source = overlay.model_source;
    }
    if overlay.model_provider.is_some() {
        base.model_provider = overlay.model_provider;
    }
    let settles_reasoning = overlay.reasoning_effort.is_some()
        || overlay.reasoning_summary.is_some();
    if overlay.reasoning_effort.is_some() {
        base.reasoning_effort = overlay.reasoning_effort;
    }
    if overlay.reasoning_summary.is_some() {
        base.reasoning_summary = overlay.reasoning_summary;
    }
    if settles_reasoning {
        base.reasoning_source = overlay.reasoning_source;
    }
}

/// Where an agent keeps its own configuration.
#[derive(Debug, PartialEq, Eq)]
pub struct UserConfigLocation {
    /// Environment variables that name the directory, the first that is set wins.
    pub home_variables: Vec<String>,
    /// The directory below the user's home where none is set.
    pub default_dir: String,
    pub file_name: String,
    /// What follows the name of a profile in the name of its file.
    pub profile_suffix: String,
    pub source: String,
}

/// The mathematical view of a place of configuration.
#[verifier::ext_equal]
pub struct LocationView {
    pub home_variables: Seq<Seq<char>>,
    pub default_dir: Seq<char>,
    pub file_name: Seq<char>,
    pub profile_suffix: Seq<char>,
    pub source: Seq<char>,
}

impl View for UserConfigLocation {
    type V = LocationView;

    open spec fn view(&self) -> LocationView {
        LocationView {
            home_variables: texts(self.home_variables@),
            default_dir: self.default_dir@,
            file_name: self.file_name@,
            profile_suffix: self.profile_suffix@,
            source: self.source@,
        }
    }
}

pub open spec fn config_location(adapter: Seq<char>) -> Option<LocationView> {
    if trimmed(adapter) == DEFAULT_ADAPTER@ {
        Some(
            LocationView {
                home_variables: seq!["CODEX_HOME"@],
                default_dir: ".codex"@,
                file_name: "config.toml"@,
                profile_suffix: ".config.toml"@,
                source: "codex config"@,
            },
        )
    } else if trimmed(adapter) == TRAEX_ADAPTER@ {
        Some(
            LocationView {
                home_variables: seq!["TRAE_HOME"@, "TRAEX_HOME"@],
                default_dir: ".trae"@,
                file_name: "traecli.toml"@,
                profile_suffix: ".traecli.toml"@,
                source: "trae config"@,
            },
        )
    } else {
        None
    }
}

/// Where Codex and Traex keep their configuration.
pub fn external_cli_user_config_path(adapter: &str) -> (r: Option<UserConfigLocation>)
    ensures
        match r {
            Some(l) => config_location(adapter@) == Some(l@),
            None => config_location(adapter@) is None,
        },
{
    let a = trim(adapter);
    let mut home_variables: Vec<String> = Vec::new();
    if same(a, DEFAULT_ADAPTER) {
        crate::text::push_text(&mut home_variables, "CODEX_HOME");
        let l = UserConfigLocation {
            home_variables,
            default_dir: owned(".codex"),
            file_name: owned("config.toml"),
            profile_suffix: owned(".config.toml"),
            source: owned("codex config"),
        };
        proof {
            assert(l@.home_variables =~= seq!["CODEX_HOME"@]);
        }
        Some(l)
    } else if same(a, TRAEX_ADAPTER) {
        crate::text::push_text(&mut home_variables, "TRAE_HOME");
        crate::text::push_text(&mut home_variables, "TRAEX_HOME");
        let l = UserConfigLocation {
            home_variables,
            default_dir: owned(".trae"),
            file_name: owned("traecli.toml"),
            profile_suffix: owned(".traecli.toml"),
            source: owned("trae config"),
        };
        proof {
            assert(l@.home_variables =~= seq!["TRAE_HOME"@, "TRAEX_HOME"@]);
        }
        Some(l)
    } else {
        None
    }
}

/// The profile that a configuration names.
pub open spec fn profile_name(c: AdapterConfigView) -> Option<Seq<char>> {
    first_of(cleaned(c.profile_v2), cleaned(c.profile))
}

/// The name of the file of the profile that a configuration names.
pub fn profile_file_name(config: &ExternalCliAdapterConfig, location: &UserConfigLocation) -> (r:
    Option<String>)
    ensures
        opt(r) == (match profile_name(config@) {
            Some(p) => Some(p + location.profile_suffix@),
            None => None,
        }),
{
    let profile = match clean_opt(&config.profile_v2) {
        Some(p) => Some(p),
        None => clean_opt(&config.profile),
    };
    match profile {
        Some(p) => Some(concat2(p.as_str(), location.profile_suffix.as_str())),
        None => None,
    }
}

/// The settings of Codex or Traex: its configuration file, with the file of the
/// profile put over it where a profile is named.
pub open spec fn user_settings(
    base: Option<Seq<char>>,
    profile: Option<Seq<char>>,
    c: AdapterConfigView,
    source: Seq<char>,
) -> ResolvedView {
    if profile_name(c) is Some {
        merged(settings_of_file(base, source), settings_of_file(profile, source))
    } else {
        settings_of_file(base, source)
    }
}

/// Reads the settings of Codex or Traex from the texts of their files.
pub fn load_external_cli_user_model_config(
    base: Option<&str>,
    profile: Option<&str>,
    config: &ExternalCliAdapterConfig,
    source: &str,
) -> (r: ExternalCliResolvedModelConfig)
    ensures
        r@ == user_settings(opt_str(base), opt_str(profile), config@, source@),
{
    let mut resolved = read_model_config_toml(base, source);
    if clean_opt(&config.profile_v2).is_some() || clean_opt(&config.profile).is_some() {
        let overlay = read_model_config_toml(profile, source);
        merge_model_config(&mut resolved, overlay);
    }
    resolved
}

// ---------------------------------------------------------------------------
// The agent of `claude_code`
// ---------------------------------------------------------------------------

/// The settings with an effort from the environment: the first of the two
/// variables that is not blank.
pub open spec fn with_env_effort(
    base: ResolvedView,
    source: Seq<char>,
    level: Option<Seq<char>>,
    effort: Option<Seq<char>>,
) -> ResolvedView {
    match first_of(cleaned(level), cleaned(effort)) {
        Some(e) => ResolvedView {
            reasoning_effort: Some(e),
            reasoning_source: Some(source),
            ..base
        },
        None => base,
    }
}

/// Takes the effort from the two environment variables of `claude_code`.
pub fn apply_claude_code_env_effort(
    resolved: &mut ExternalCliResolvedModelConfig,
    source: &str,
    level: Option<&str>,
    effort: Option<&str>,
)
    ensures
        final(resolved)@ == with_env_effort(
            old(resolved)@,
            source@,
            opt_str(level),
            opt_str(effort),
        ),
{
    let found = match clean_optional_string(level) {
        Some(e) => Some(e),
        None => clean_optional_string(effort),
    };
    match found {
        Some(e) => {
            resolved.reasoning_effort = Some(e);
            resolved.reasoning_source = Some(owned(source));
        },
        None => {},
    }
}

pub open spec fn env_member(value: Tree, key: Seq<char>) -> Option<Seq<char>> {
    match member(value, "env"@) {
        Some(env) => tree_text(member(env, key)),
        None => None,
    }
}

/// The effort that a settings file of `claude_code` asks for.
pub open spec fn claude_settings(value: Tree, source: Seq<char>) -> ResolvedView {
    with_env_effort(
        ResolvedView {
            reasoning_effort: first_of(
                cleaned(tree_text(member(value, "effortLevel"@))),
                cleaned(tree_text(member(value, "effort_level"@))),
            ),
            reasoning_source: Some(source),
            ..nothing_known()
        },
        source,
        env_member(value, "CLAUDE_CODE_EFFORT_LEVEL"@),
        env_member(value, "CLAUDE_EFFORT"@),
    )
}

fn json_string(value: &Json, key: &str) -> (r: Option<String>)
    ensures
        opt(r) == cleaned(tree_text(member(value@, key@))),
{
    match value.get(key) {
        Some(v) => clean_optional_string(v.as_str()),
        None => None,
    }
}

fn json_str<'a>(value: &'a Json, key: &str) -> (r: Option<&'a str>)
    ensures
        opt_str(r) == tree_text(member(value@, key@)),
{
    match value.get(key) {
        Some(v) => v.as_str(),
        None => None,
    }
}

/// Reads the effort from a settings value of `claude_code`.
pub fn claude_code_effort_from_settings(value: &Json, source: &str) -> (r:
    ExternalCliResolvedModelConfig)
    ensures
        r@ == claude_settings(value@, source@),
{
    let effort = match json_string(value, "effortLevel") {
        Some(e) => Some(e),
        None => json_string(value, "effort_level"),
    };
    let mut resolved = ExternalCliResolvedModelConfig {
        model: None,
        model_provider: None,
        reasoning_effort: effort,
        reasoning_summary: None,
        model_source: None,
        reasoning_source: Some(owned(source)),
    };
    match value.get("env") {
        Some(env) => {
            apply_claude_code_env_effort(
                &mut resolved,
                source,
                json_str(env, "CLAUDE_CODE_EFFORT_LEVEL"),
                json_str(env, "CLAUDE_EFFORT"),
            );
        },
        None => {},
    }
    resolved
}

/// The effort that the text of a settings file asks for.
pub open spec fn claude_settings_of_text(content: Seq<char>, source: Seq<char>) -> ResolvedView {
    match json_of_text(content) {
        Some(value) => claude_settings(value, source),
        None => nothing_known(),
    }
}

/// Reads the effort from the text of a settings file of `claude_code`.
pub fn parse_claude_code_effort_config_json(content: &str, source: &str) -> (r:
    ExternalCliResolvedModelConfig)
    ensures
        r@ == claude_settings_of_text(content@, source@),
{
    match parse_json(content) {
        Some(value) => claude_code_effort_from_settings(&value, source),
        None => ExternalCliResolvedModelConfig::default(),
    }
}

/// The settings file that a configuration names for `claude_code`.
pub open spec fn claude_settings_path(extra: Map<Seq<char>, Tree>) -> Option<Seq<char>> {
    let found = if extra.contains_key("settings"@) {
        Some(extra["settings"@])
    } else if extra.contains_key("settingsPath"@) {
        Some(extra["settingsPath"@])
    } else if extra.contains_key("settings_path"@) {
        Some(extra["settings_path"@])
    } else {
        None
    };
    cleaned(tree_text(found))
}

/// The settings file that a configuration names for `claude_code`.
pub fn claude_code_settings_path(config: &ExternalCliAdapterConfig) -> (r: Option<String>)
    ensures
        opt(r) == claude_settings_path(config@.extra),
{
    let found = match config.extra.get("settings") {
        Some(v) => Some(v),
        None => match config.extra.get("settingsPath") {
            Some(v) => Some(v),
            None => config.extra.get("settings_path"),
        },
    };
    match found {
        Some(v) => clean_optional_string(v.as_str()),
        None => None,
    }
}

/// The effort settings of `claude_code` after a list of settings files, each put
/// over the ones before it.
pub open spec fn claude_files(contents: Seq<Seq<char>>) -> ResolvedView
    decreases contents.len(),
{
    if contents.len() == 0 {
        nothing_known()
    } else {
        merged(
            claude_files(contents.drop_last()),
            claude_settings_of_text(contents.last(), claude_word() + " settings"@),
        )
    }
}

pub open spec fn env_value(env: Map<Seq<char>, Seq<char>>, key: Seq<char>) -> Option<Seq<char>> {
    if env.contains_key(key) {
        Some(env[key])
    } else {
        None
    }
}

/// What `claude_code` will use: its settings files, then the environment of the
/// gateway, then the environment of the runner.
pub open spec fn claude_user_settings(
    contents: Seq<Seq<char>>,
    level: Option<Seq<char>>,
    effort: Option<Seq<char>>,
    env: Map<Seq<char>, Seq<char>>,
) -> ResolvedView {
    with_env_effort(
        with_env_effort(claude_files(contents), claude_word() + " env"@, level, effort),
        "runner config"@,
        env_value(env, "CLAUDE_CODE_EFFORT_LEVEL"@),
        env_value(env, "CLAUDE_EFFORT"@),
    )
}

fn env_str<'a>(config: &'a ExternalCliAdapterConfig, key: &str) -> (r: Option<&'a str>)
    ensures
        opt_str(r) == env_value(config@.env, key@),
{
    match config.env.get(key) {
        Some(s) => Some(s.as_str()),
        None => None,
    }
}

/// Reads the settings of `claude_code`: the texts of its settings files in the
/// order in which they apply, the two variables of the process, and those of
/// the runner.
pub fn load_claude_code_model_config(
    contents: &Vec<String>,
    level: Option<&str>,
    effort: Option<&str>,
    config: &ExternalCliAdapterConfig,
) -> (r: ExternalCliResolvedModelConfig)
    ensures
        r@ == claude_user_settings(
            texts(contents@),
            opt_str(level),
            opt_str(effort),
            config@.env,
        ),
{
    let ghost all = texts(contents@);
    let source = concat2(claude_word_text().as_str(), " settings");
    let env_source = concat2(claude_word_text().as_str(), " env");
    let mut resolved = ExternalCliResolvedModelConfig::default();
    let mut i: usize = 0;
    proof {
        assert(all.take(0) =~= Seq::empty());
    }
    while i < contents.len()
        invariant
            i <= contents@.len(),
            all == texts(contents@),
            source@ == claude_word() + " settings"@,
            resolved@ == claude_files(all.take(i as int)),
        decreases contents@.len() - i,
    {
        proof {
            assert(all.take(i + 1).drop_last() =~= all.take(i as int));
            assert(all.take(i + 1).last() == contents@[i as int]@);
        }
        let overlay = parse_claude_code_effort_config_json(contents[i].as_str(), source.as_str());
        merge_model_config(&mut resolved, overlay);
        i = i + 1;
    }
    proof {
        assert(all.take(i as int) =~= all);
    }
    apply_claude_code_env_effort(&mut resolved, env_source.as_str(), level, effort);
    apply_claude_code_env_effort(
        &mut resolved,
        "runner config",
        env_str(config, "CLAUDE_CODE_EFFORT_LEVEL"),
        env_str(config, "CLAUDE_EFFORT"),
    );
    resolved
}

// ---------------------------------------------------------------------------
// Overrides
// ---------------------------------------------------------------------------

/// The text that the right side of an override stands for: a TOML string, else
/// the text itself without quotes around it.
pub open spec fn override_text(raw: Seq<char>) -> Option<Seq<char>> {
    let t = trimmed(raw);
    if t.len() == 0 {
        None
    } else {
        first_of(
            match toml_document("value = "@ + t) {
                Some(members) => toml_text(members, "value"@),
                None => None,
            },
            cleaned(Some(drop_back(drop_front(t, '"'), '"'))),
        )
    }
}

/// Reads the right side of an override.
pub fn parse_config_override_string(raw_value: &str) -> (r: Option<String>)
    ensures
        opt(r) == override_text(raw_value@),
{
    let t = trim(raw_value);
    if t.is_empty() {
        return None;
    }
    let document = concat2("value = ", t);
    let found = match parse_toml(document.as_str()) {
        Some(members) => find_toml_text(&members, "value"),
        None => None,
    };
    match found {
        Some(s) => Some(s),
        None => clean_optional_string(Some(trim_char(t, '"'))),
    }
}

/// The settings with the value of one override.
pub open spec fn with_setting(base: ResolvedView, key: Seq<char>, value: Seq<char>) -> ResolvedView {
    if key == "model"@ {
        ResolvedView { model: Some(value), model_source: Some("runner config"@), ..base }
    } else if key == "model_provider"@ {
        ResolvedView { model_provider: Some(value), ..base }
    } else if key == "model_reasoning_effort"@ || key == "reasoning_effort"@ {
        ResolvedView {
            reasoning_effort: Some(value),
            reasoning_source: Some("runner config"@),
            ..base
        }
    } else if key == "model_reasoning_summary"@ || key == "reasoning_summary"@ {
        ResolvedView {
            reasoning_summary: Some(value),
            reasoning_source: Some("runner config"@),
            ..base
        }
    } else {
        base
    }
}

pub open spec fn with_override(base: ResolvedView, text: Seq<char>) -> ResolvedView {
    match split_at_first(text, "="@) {
        None => base,
        Some((key, raw)) => match override_text(raw) {
            None => base,
            Some(value) => with_setting(base, trimmed(key), value),
        },
    }
}

pub open spec fn with_overrides(base: ResolvedView, overrides: Seq<Seq<char>>) -> ResolvedView
    decreases overrides.len(),
{
    if overrides.len() == 0 {
        base
    } else {
        with_override(with_overrides(base, overrides.drop_last()), overrides.last())
    }
}

fn apply_setting(resolved: &mut ExternalCliResolvedModelConfig, key: &str, value: String)
    ensures
        final(resolved)@ == with_setting(old(resolved)@, key@, value@),
{
    if same(key, "model") {
        resolved.model = Some(value);
        resolved.model_source = Some(owned("runner config"));
    } else if same(key, "model_provider") {
        resolved.model_provider = Some(value);
    } else if same(key, "model_reasoning_effort") || same(key, "reasoning_effort") {
        resolved.reasoning_effort = Some(value);
        resolved.reasoning_source = Some(owned("runner config"));
    } else if same(key, "model_reasoning_summary") || same(key, "reasoning_summary") {
        resolved.reasoning_summary = Some(value);
        resolved.reasoning_source = Some(owned("runner config"));
    }
}

/// Applies `key=value` overrides, later ones over earlier ones.
pub fn apply_config_overrides_to_model_config(
    resolved: &mut ExternalCliResolvedModelConfig,
    overrides: &Vec<String>,
)
    ensures
        final(resolved)@ == with_overrides(old(resolved)@, texts(overrides@)),
{
    let ghost start = resolved@;
    let ghost all = texts(overrides@);
    let mut i: usize = 0;
    proof {
        assert(all.take(0) =~= Seq::empty());
    }
    while i < overrides.len()
        invariant
            i <= overrides@.len(),
            all == texts(overrides@),
            resolved@ == with_overrides(start, all.take(i as int)),
        decreases overrides@.len() - i,
    {
        proof {
            assert(all.take(i + 1).drop_last() =~= all.take(i as int));
            assert(all.take(i + 1).last() == overrides@[i as int]@);
        }
        match split_once(overrides[i].as_str(), "=") {
            None => {},
            Some((key, raw)) => match parse_config_override_string(raw) {
                None => {},
                Some(value) => apply_setting(resolved, trim(key), value),
            },
        }
        i = i + 1;
    }
    proof {
        assert(all.take(i as int) =~= all);
    }
}

/// What a run will use: the agent's own settings, unless they are to be ignored,
/// then the overrides of the runner, then its explicit settings.
pub open spec fn resolved_settings(user: ResolvedView, c: AdapterConfigView) -> ResolvedView {
    let base = if c.ignore_user_config == Some(true) {
        nothing_known()
    } else {
        user
    };
    let overridden = with_overrides(base, c.config_overrides);
    let model = cleaned(c.model);
    let effort = cleaned(c.reasoning_effort);
    let summary = cleaned(c.reasoning_summary);
    ResolvedView {
        model: first_of(model, overridden.model),
        model_provider: overridden.model_provider,
        reasoning_effort: first_of(effort, overridden.reasoning_effort),
        reasoning_summary: first_of(summary, overridden.reasoning_summary),
        model_source: if model is Some {
            Some("runner config"@)
        } else {
            overridden.model_source
        },
        reasoning_source: if effort is Some || summary is Some {
            Some("runner config"@)
        } else {
            overridden.reasoning_source
        },
    }
}

/// Settles the model and the reasoning effort of a run. `user` is what the
/// agent's own configuration says.
pub fn resolve_external_cli_model_config(
    user: ExternalCliResolvedModelConfig,
    config: &ExternalCliAdapterConfig,
) -> (r: ExternalCliResolvedModelConfig)
    ensures
        r@ == resolved_settings(user@, config@),
{
    let ignore = match config.ignore_user_config {
        Some(b) => b,
        None => false,
    };
    let mut resolved = if ignore {
        ExternalCliResolvedModelConfig::default()
    } else {
        user
    };
    apply_config_overrides_to_model_config(&mut resolved, &config.config_overrides);
    match clean_opt(&config.model) {
        Some(model) => {
            resolved.model = Some(model);
            resolved.model_source = Some(owned("runner config"));
        },
        None => {},
    }
    match clean_opt(&config.reasoning_effort) {
        Some(effort) => {
            resolved.reasoning_effort = Some(effort);
            resolved.reasoning_source = Some(owned("runner config"));
        },
        None => {},
    }
    match clean_opt(&config.reasoning_summary) {
        Some(summary) => {
            resolved.reasoning_summary = Some(summary);
            resolved.reasoning_source = Some(owned("runner config"));
        },
        None => {},
    }
    resolved
}

/// An explicit setting of the runner wins over everything else.
pub proof fn lemma_runner_settings_win(user: ResolvedView, c: AdapterConfigView)
    ensures
        cleaned(c.model) is Some ==> resolved_settings(user, c).model == cleaned(c.model)
            && resolved_settings(user, c).model_source == Some("runner config"@),
        cleaned(c.reasoning_effort) is Some ==> resolved_settings(user, c).reasoning_effort
            == cleaned(c.reasoning_effort) && resolved_settings(user, c).reasoning_source == Some(
            "runner config"@,
        ),
{
}

/// Where the agent's own configuration is to be ignored it has no influence.
pub proof fn lemma_ignored_user_settings(a: ResolvedView, b: ResolvedView, c: AdapterConfigView)
    requires
        c.ignore_user_config == Some(true),
    ensures
        resolved_settings(a, c) == resolved_settings(b, c),
{
}

} // verus!
