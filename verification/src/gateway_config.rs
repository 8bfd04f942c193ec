//! The runners of the gateway, and which of them a channel uses.

use vstd::prelude::*;
use vstd::string::*;

use crate::agent_config::{
    claude_title, claude_title_text, claude_word, claude_word_text, clean_opt, clean_optional_string, cleaned, map_texts, unset_config, AdapterConfigView,
    ExternalCliAdapterConfig, CLAUDE_CODE_ADAPTER, DEFAULT_ADAPTER, TRAEX_ADAPTER,
};
use crate::json::opt_str;
use crate::map::{
    ascending, entries_map, gathered, is_least, least_key, lemma_entry_in_map,
    lemma_gathered_in_place, lemma_least_key, lemma_no_least_key, lemma_text_less_irreflexive,
    lemma_text_less_transitive, text_less, TextMap,
};
use crate::models::{cleaned_texts, normalize_string_list};
use crate::progress::or_text;
use crate::text::{
    blank, concat2, copy_opt, copy_texts, lowered, opt, owned, same, same_ignoring_case, texts, to_lower,
    trim, trimmed,
};

verus! {

broadcast use vstd::string::group_string_axioms;

pub const DEFAULT_CODEX_RUNNER_ID: &'static str = "Codex";

pub const DEFAULT_TRAEX_RUNNER_ID: &'static str = "Traex";

/// The runner of the adapter `claude_code` that comes with the gateway.
pub open spec fn claude_runner_id() -> Seq<char> {
    claude_title() + "-Code"@
}

pub fn default_claude_code_runner_id() -> (r: String)
    ensures
        r@ == claude_runner_id(),
{
    let mut out = claude_title_text();
    out.append("-Code");
    out
}

pub const LEGACY_TRAEX_RUNNER_ALIAS: &'static str = "treex";

pub const CONFIG_VERSION: u32 = 1;

/// How much of a run a chat gets to see.
#[derive(Debug, Clone, Copy, PartialEq, Eq, Structural)]
pub enum ExternalCliDeliveryMode {
    NoIm,
    FinalReply,
    ProgressCard,
}

/// A runner.
#[derive(Debug, PartialEq, Eq)]
pub struct ExternalCliAgentSettings {
    pub enabled: bool,
    pub adapter: String,
    pub instructions: Option<String>,
    pub adapter_config: ExternalCliAdapterConfig,
    pub inject_bifrost_tools: bool,
    pub skill_paths: Vec<String>,
    pub delivery_mode: ExternalCliDeliveryMode,
}

/// The mathematical view of a runner.
#[verifier::ext_equal]
pub struct SettingsView {
    pub enabled: bool,
    pub adapter: Seq<char>,
    pub instructions: Option<Seq<char>>,
    pub adapter_config: AdapterConfigView,
    pub inject_bifrost_tools: bool,
    pub skill_paths: Seq<Seq<char>>,
    pub delivery_mode: ExternalCliDeliveryMode,
}

impl View for ExternalCliAgentSettings {
    type V = SettingsView;

    open spec fn view(&self) -> SettingsView {
        SettingsView {
            enabled: self.enabled,
            adapter: self.adapter@,
            instructions: opt(self.instructions),
            adapter_config: self.adapter_config@,
            inject_bifrost_tools: self.inject_bifrost_tools,
            skill_paths: texts(self.skill_paths@),
            delivery_mode: self.delivery_mode,
        }
    }
}

pub open spec fn default_settings() -> SettingsView {
    SettingsView {
        enabled: false,
        adapter: DEFAULT_ADAPTER@,
        instructions: None,
        adapter_config: unset_config(),
        inject_bifrost_tools: true,
        skill_paths: Seq::empty(),
        delivery_mode: ExternalCliDeliveryMode::FinalReply,
    }
}

impl Default for ExternalCliAgentSettings {
    fn default() -> (r: Self)
        ensures
            r@ == default_settings(),
    {
        let r = ExternalCliAgentSettings {
            enabled: false,
            adapter: owned(DEFAULT_ADAPTER),
            instructions: None,
            adapter_config: ExternalCliAdapterConfig::default(),
            inject_bifrost_tools: true,
            skill_paths: Vec::new(),
            delivery_mode: ExternalCliDeliveryMode::FinalReply,
        };
        proof {
            assert(r@ =~= default_settings());
        }
        r
    }
}

impl ExternalCliAgentSettings {
    /// A copy of the runner.
    pub fn copy(&self) -> (r: Self)
        ensures
            r@ == self@,
    {
        ExternalCliAgentSettings {
            enabled: self.enabled,
            adapter: self.adapter.clone(),
            instructions: copy_opt(&self.instructions),
            adapter_config: self.adapter_config.copy(),
            inject_bifrost_tools: self.inject_bifrost_tools,
            skill_paths: copy_texts(&self.skill_paths),
            delivery_mode: self.delivery_mode,
        }
    }
}

/// What a channel sets differently from its runner.
#[derive(Debug, PartialEq, Eq)]
pub struct ExternalCliChannelSettings {
    pub enabled: Option<bool>,
    pub runner_id: Option<String>,
    pub delivery_mode: Option<ExternalCliDeliveryMode>,
}

/// The mathematical view of a channel.
pub struct ChannelView {
    pub enabled: Option<bool>,
    pub runner_id: Option<Seq<char>>,
    pub delivery_mode: Option<ExternalCliDeliveryMode>,
}

impl View for ExternalCliChannelSettings {
    type V = ChannelView;

    open spec fn view(&self) -> ChannelView {
        ChannelView {
            enabled: self.enabled,
            runner_id: opt(self.runner_id),
            delivery_mode: self.delivery_mode,
        }
    }
}

impl Default for ExternalCliChannelSettings {
    fn default() -> (r: Self)
        ensures
            r@ == (ChannelView { enabled: None, runner_id: None, delivery_mode: None }),
    {
        ExternalCliChannelSettings { enabled: None, runner_id: None, delivery_mode: None }
    }
}

/// All runners and channels.
#[derive(Debug, PartialEq, Eq)]
pub struct ExternalCliGatewayConfig {
    pub version: u32,
    pub default_runner_id: String,
    pub runners: TextMap<ExternalCliAgentSettings>,
    pub channels: TextMap<ExternalCliChannelSettings>,
}

/// The mathematical view of the runners and channels.
#[verifier::ext_equal]
pub struct GatewayView {
    pub version: u32,
    pub default_runner_id: Seq<char>,
    pub runners: Map<Seq<char>, SettingsView>,
    pub channels: Map<Seq<char>, ChannelView>,
}

pub open spec fn runner_views(m: Map<Seq<char>, ExternalCliAgentSettings>) -> Map<
    Seq<char>,
    SettingsView,
> {
    m.map_values(|s: ExternalCliAgentSettings| s@)
}

pub open spec fn channel_views(m: Map<Seq<char>, ExternalCliChannelSettings>) -> Map<
    Seq<char>,
    ChannelView,
> {
    m.map_values(|c: ExternalCliChannelSettings| c@)
}

impl View for ExternalCliGatewayConfig {
    type V = GatewayView;

    open spec fn view(&self) -> GatewayView {
        GatewayView {
            version: self.version,
            default_runner_id: self.default_runner_id@,
            runners: runner_views(self.runners@),
            channels: channel_views(self.channels@),
        }
    }
}

proof fn lemma_runner_insert(
    m: Map<Seq<char>, ExternalCliAgentSettings>,
    k: Seq<char>,
    s: ExternalCliAgentSettings,
)
    ensures
        runner_views(m.insert(k, s)) == runner_views(m).insert(k, s@),
        runner_views(m.remove(k)) == runner_views(m).remove(k),
        runner_views(m).dom() == m.dom(),
{
    assert(runner_views(m.insert(k, s)) =~= runner_views(m).insert(k, s@));
    assert(runner_views(m.remove(k)) =~= runner_views(m).remove(k));
    assert(runner_views(m).dom() =~= m.dom());
}

proof fn lemma_channel_insert(
    m: Map<Seq<char>, ExternalCliChannelSettings>,
    k: Seq<char>,
    c: ExternalCliChannelSettings,
)
    ensures
        channel_views(m.insert(k, c)) == channel_views(m).insert(k, c@),
        channel_views(m.remove(k)) == channel_views(m).remove(k),
        channel_views(m).dom() == m.dom(),
{
    assert(channel_views(m.insert(k, c)) =~= channel_views(m).insert(k, c@));
    assert(channel_views(m.remove(k)) =~= channel_views(m).remove(k));
    assert(channel_views(m).dom() =~= m.dom());
}

// ---------------------------------------------------------------------------
// Putting single entries in shape
// ---------------------------------------------------------------------------

/// A runner in shape: an adapter that is named, and no blank texts.
pub open spec fn normalized_settings(s: SettingsView) -> SettingsView {
    SettingsView {
        adapter: or_text(cleaned(Some(s.adapter)), DEFAULT_ADAPTER@),
        instructions: cleaned(s.instructions),
        skill_paths: cleaned_texts(s.skill_paths),
        ..s
    }
}

/// A channel in shape: no blank runner.
pub open spec fn normalized_channel(c: ChannelView) -> ChannelView {
    ChannelView { runner_id: cleaned(c.runner_id), ..c }
}

/// Whether a channel sets nothing.
pub open spec fn sets_nothing(c: ChannelView) -> bool {
    c.enabled is None && c.runner_id is None && c.delivery_mode is None
}

pub fn normalized_agent_settings(settings: ExternalCliAgentSettings) -> (r:
    ExternalCliAgentSettings)
    ensures
        r@ == normalized_settings(settings@),
{
    let adapter = match clean_optional_string(Some(settings.adapter.as_str())) {
        Some(a) => a,
        None => owned(DEFAULT_ADAPTER),
    };
    ExternalCliAgentSettings {
        enabled: settings.enabled,
        adapter,
        instructions: clean_opt(&settings.instructions),
        skill_paths: normalize_string_list(&settings.skill_paths),
        adapter_config: settings.adapter_config,
        inject_bifrost_tools: settings.inject_bifrost_tools,
        delivery_mode: settings.delivery_mode,
    }
}

pub fn normalized_channel_settings(settings: ExternalCliChannelSettings) -> (r:
    ExternalCliChannelSettings)
    ensures
        r@ == normalized_channel(settings@),
{
    ExternalCliChannelSettings {
        enabled: settings.enabled,
        runner_id: clean_opt(&settings.runner_id),
        delivery_mode: settings.delivery_mode,
    }
}

pub fn is_empty_channel_settings(settings: &ExternalCliChannelSettings) -> (r: bool)
    ensures
        r == sets_nothing(settings@),
{
    settings.enabled.is_none() && settings.runner_id.is_none() && settings.delivery_mode.is_none()
}

proof fn lemma_cleaned_texts_idempotent(v: Seq<Seq<char>>)
    ensures
        cleaned_texts(cleaned_texts(v)) == cleaned_texts(v),
    decreases v.len(),
{
    if v.len() > 0 {
        let before = cleaned_texts(v.drop_last());
        lemma_cleaned_texts_idempotent(v.drop_last());
        crate::agent_config::lemma_cleaned_idempotent(Some(v.last()));
        if let Some(c) = cleaned(Some(v.last())) {
            assert(before.push(c).drop_last() =~= before);
        }
    }
}

/// Putting a runner or a channel in shape twice is doing it once.
pub proof fn lemma_entries_in_shape_stay(s: SettingsView, c: ChannelView)
    ensures
        normalized_settings(normalized_settings(s)) == normalized_settings(s),
        normalized_channel(normalized_channel(c)) == normalized_channel(c),
        normalized_settings(default_settings()) == default_settings(),
{
    crate::agent_config::lemma_cleaned_idempotent(Some(s.adapter));
    crate::agent_config::lemma_cleaned_idempotent(s.instructions);
    crate::agent_config::lemma_cleaned_idempotent(c.runner_id);
    lemma_cleaned_texts_idempotent(s.skill_paths);
    lemma_codex_is_clean();
    assert(normalized_settings(default_settings()) =~= default_settings());
}

proof fn lemma_codex_is_clean()
    ensures
        cleaned(Some(DEFAULT_ADAPTER@)) == Some(DEFAULT_ADAPTER@),
        cleaned(Some(TRAEX_ADAPTER@)) == Some(TRAEX_ADAPTER@),
        cleaned(Some(CLAUDE_CODE_ADAPTER@)) == Some(CLAUDE_CODE_ADAPTER@),
{
    reveal_strlit("codex");
    reveal_strlit("traex");
    reveal_strlit("claude_code");
    assert(DEFAULT_ADAPTER@.len() == 5 && DEFAULT_ADAPTER@[0] == 'c' && DEFAULT_ADAPTER@[4] == 'x');
    assert(TRAEX_ADAPTER@.len() == 5 && TRAEX_ADAPTER@[0] == 't' && TRAEX_ADAPTER@[4] == 'x');
    assert(CLAUDE_CODE_ADAPTER@.len() == 11 && CLAUDE_CODE_ADAPTER@[0] == 'c'
        && CLAUDE_CODE_ADAPTER@[10] == 'e');
}

// ---------------------------------------------------------------------------
// Default runners and old names
// ---------------------------------------------------------------------------

pub open spec fn runner_of(adapter: Seq<char>) -> SettingsView {
    SettingsView { enabled: true, adapter, ..default_settings() }
}

pub open spec fn put_absent<V>(m: Map<Seq<char>, V>, key: Seq<char>, value: V) -> Map<
    Seq<char>,
    V,
> {
    if m.contains_key(key) {
        m
    } else {
        m.insert(key, value)
    }
}

pub open spec fn with_default_runners(m: Map<Seq<char>, SettingsView>) -> Map<
    Seq<char>,
    SettingsView,
> {
    put_absent(
        put_absent(
            put_absent(m, DEFAULT_CODEX_RUNNER_ID@, runner_of(DEFAULT_ADAPTER@)),
            DEFAULT_TRAEX_RUNNER_ID@,
            runner_of(TRAEX_ADAPTER@),
        ),
        claude_runner_id(),
        runner_of(CLAUDE_CODE_ADAPTER@),
    )
}

pub fn default_runner_settings(adapter: &str) -> (r: ExternalCliAgentSettings)
    ensures
        r@ == runner_of(adapter@),
{
    let base = ExternalCliAgentSettings::default();
    ExternalCliAgentSettings { enabled: true, adapter: owned(adapter), ..base }
}

fn put_runner_if_absent(
    runners: &mut TextMap<ExternalCliAgentSettings>,
    key: &str,
    settings: ExternalCliAgentSettings,
)
    ensures
        runner_views(final(runners)@) == put_absent(
            runner_views(old(runners)@),
            key@,
            settings@,
        ),
{
    proof {
        lemma_runner_insert(runners@, key@, settings);
    }
    runners.insert_if_absent(key, settings);
}

/// Makes sure that the three runners that come with the gateway are there.
pub fn ensure_default_external_cli_runners(runners: &mut TextMap<ExternalCliAgentSettings>)
    ensures
        runner_views(final(runners)@) == with_default_runners(runner_views(old(runners)@)),
{
    put_runner_if_absent(
        runners,
        DEFAULT_CODEX_RUNNER_ID,
        default_runner_settings(DEFAULT_ADAPTER),
    );
    put_runner_if_absent(
        runners,
        DEFAULT_TRAEX_RUNNER_ID,
        default_runner_settings(TRAEX_ADAPTER),
    );
    put_runner_if_absent(
        runners,
        default_claude_code_runner_id().as_str(),
        default_runner_settings(CLAUDE_CODE_ADAPTER),
    );
}

/// The three runners that come with the gateway.
pub fn default_external_cli_runners() -> (r: TextMap<ExternalCliAgentSettings>)
    ensures
        runner_views(r@) == with_default_runners(Map::empty()),
{
    let mut runners: TextMap<ExternalCliAgentSettings> = TextMap::new();
    proof {
        assert(runner_views(runners@) =~= Map::empty());
    }
    ensure_default_external_cli_runners(&mut runners);
    runners
}

pub open spec fn default_gateway() -> GatewayView {
    GatewayView {
        version: CONFIG_VERSION,
        default_runner_id: DEFAULT_CODEX_RUNNER_ID@,
        runners: with_default_runners(Map::empty()),
        channels: Map::empty(),
    }
}

impl Default for ExternalCliGatewayConfig {
    fn default() -> (r: Self)
        ensures
            r@ == default_gateway(),
    {
        let r = ExternalCliGatewayConfig {
            version: CONFIG_VERSION,
            default_runner_id: owned(DEFAULT_CODEX_RUNNER_ID),
            runners: default_external_cli_runners(),
            channels: TextMap::new(),
        };
        proof {
            assert(r@.channels =~= Map::empty());
        }
        r
    }
}

/// Whether a name is the old name of Traex.
pub open spec fn traex_alias(k: Seq<char>) -> bool {
    lowered(k) == lowered(LEGACY_TRAEX_RUNNER_ALIAS@)
}

pub open spec fn traex_aliases() -> spec_fn(Seq<char>) -> bool {
    |k: Seq<char>| traex_alias(k)
}

/// Whether a name in lower case is one of the spellings of the runner of
/// `claude_code`.
pub open spec fn claude_spelling(l: Seq<char>) -> bool {
    l == CLAUDE_CODE_ADAPTER@ || l == claude_word() + "-code"@ || l == claude_word() || l
        == claude_word() + " code"@
}

/// Whether a name is one of the spellings of the runner of `claude_code`.
pub open spec fn claude_alias(k: Seq<char>) -> bool {
    claude_spelling(lowered(k))
}

pub open spec fn claude_aliases() -> spec_fn(Seq<char>) -> bool {
    |k: Seq<char>| claude_alias(k)
}

pub open spec fn renamed(id: Seq<char>, from: Seq<char>, to: Seq<char>) -> Seq<char> {
    if lowered(id) == lowered(from) {
        to
    } else {
        id
    }
}

pub open spec fn renamed_channel(c: ChannelView, from: Seq<char>, to: Seq<char>) -> ChannelView {
    ChannelView {
        runner_id: match c.runner_id {
            Some(id) => Some(renamed(id, from, to)),
            None => None,
        },
        ..c
    }
}

pub open spec fn renamed_channels(
    m: Map<Seq<char>, ChannelView>,
    from: Seq<char>,
    to: Seq<char>,
) -> Map<Seq<char>, ChannelView> {
    m.map_values(|c: ChannelView| renamed_channel(c, from, to))
}

/// The configuration with the runner `old` under the name `to`, unless there is
/// one already, and with every reference to `from` pointing there.
pub open spec fn moved(g: GatewayView, old_id: Seq<char>, from: Seq<char>, to: Seq<char>) -> GatewayView {
    GatewayView {
        runners: put_absent(g.runners.remove(old_id), to, g.runners[old_id]),
        default_runner_id: renamed(g.default_runner_id, from, to),
        channels: renamed_channels(g.channels, from, to),
        ..g
    }
}

pub open spec fn migrated_traex(g: GatewayView) -> GatewayView {
    match least_key(g.runners.dom(), traex_aliases()) {
        None => g,
        Some(k) => moved(g, k, LEGACY_TRAEX_RUNNER_ALIAS@, DEFAULT_TRAEX_RUNNER_ID@),
    }
}

pub open spec fn migrated_claude(g: GatewayView) -> GatewayView {
    match least_key(g.runners.dom(), claude_aliases()) {
        None => g,
        Some(k) => moved(g, k, k, claude_runner_id()),
    }
}

fn rename_channels(
    channels: &TextMap<ExternalCliChannelSettings>,
    from: &str,
    to: &str,
) -> (r: TextMap<ExternalCliChannelSettings>)
    ensures
        channel_views(r@) == renamed_channels(channel_views(channels@), from@, to@),
{
    let mut out: TextMap<ExternalCliChannelSettings> = TextMap::new();
    let n: usize = channels.len();
    let ghost list = channels.list();
    let ghost f = |k: Seq<char>, c: ExternalCliChannelSettings|
        Some((k, renamed_channel(c@, from@, to@)));
    let mut i: usize = 0;
    proof {
        assert(list.take(0) =~= Seq::empty());
        assert(channel_views(out@) =~= Map::empty());
    }
    while i < n
        invariant
            i <= n,
            n == list.len(),
            list == channels.list(),
            f == (|k: Seq<char>, c: ExternalCliChannelSettings|
                Some((k, renamed_channel(c@, from@, to@)))),
            channel_views(out@) == gathered(list.take(i as int), f),
        decreases n - i,
    {
        let channel = channels.value_at(i);
        let runner_id = match &channel.runner_id {
            Some(id) => if same_ignoring_case(id.as_str(), from) {
                Some(owned(to))
            } else {
                Some(id.clone())
            },
            None => None,
        };
        let next = ExternalCliChannelSettings {
            enabled: channel.enabled,
            runner_id,
            delivery_mode: channel.delivery_mode,
        };
        let key = channels.key_at(i);
        proof {
            lemma_channel_insert(out@, key@, next);
            assert(list.take(i + 1).drop_last() =~= list.take(i as int));
            assert(list.take(i + 1).last() == list[i as int]);
        }
        out.insert(key.as_str(), next);
        i = i + 1;
    }
    proof {
        assert(list.take(i as int) =~= list);
        lemma_gathered_in_place(list, f);
        assert(channel_views(out@) =~= renamed_channels(channel_views(channels@), from@, to@));
    }
    out
}

fn is_claude_spelling(l: &str) -> (r: bool)
    ensures
        r == claude_spelling(l@),
{
    let word = claude_word_text();
    let dashed = concat2(word.as_str(), "-code");
    let spaced = concat2(word.as_str(), " code");
    same(l, CLAUDE_CODE_ADAPTER) || same(l, dashed.as_str()) || same(l, word.as_str()) || same(
        l,
        spaced.as_str(),
    )
}

fn is_claude_alias(k: &str) -> (r: bool)
    ensures
        r == claude_alias(k@),
{
    let lower = to_lower(k);
    is_claude_spelling(lower.as_str())
}

fn first_traex_alias(runners: &TextMap<ExternalCliAgentSettings>) -> (r: Option<String>)
    ensures
        opt(r) == least_key(runners@.dom(), traex_aliases()),
        r matches Some(k) ==> runners@.contains_key(k@),
{
    let n: usize = runners.len();
    let ghost list = runners.list();
    let mut i: usize = 0;
    while i < n
        invariant
            i <= n,
            n == list.len(),
            list == runners.list(),
            ascending(list),
            runners@ == entries_map(list),
            forall|j: int| 0 <= j < i ==> !traex_alias(#[trigger] list[j].0@),
        decreases n - i,
    {
        let key = runners.key_at(i);
        if same_ignoring_case(key.as_str(), LEGACY_TRAEX_RUNNER_ALIAS) {
            proof {
                lemma_first_is_least(list, traex_aliases(), i as int);
            }
            return Some(key.clone());
        }
        i = i + 1;
    }
    proof {
        lemma_none_is_least(list, traex_aliases());
    }
    None
}

fn first_claude_alias(runners: &TextMap<ExternalCliAgentSettings>) -> (r: Option<String>)
    ensures
        opt(r) == least_key(runners@.dom(), claude_aliases()),
        r matches Some(k) ==> runners@.contains_key(k@),
{
    let n: usize = runners.len();
    let ghost list = runners.list();
    let mut i: usize = 0;
    while i < n
        invariant
            i <= n,
            n == list.len(),
            list == runners.list(),
            ascending(list),
            runners@ == entries_map(list),
            forall|j: int| 0 <= j < i ==> !claude_alias(#[trigger] list[j].0@),
        decreases n - i,
    {
        let key = runners.key_at(i);
        if is_claude_alias(key.as_str()) {
            proof {
                lemma_first_is_least(list, claude_aliases(), i as int);
            }
            return Some(key.clone());
        }
        i = i + 1;
    }
    proof {
        lemma_none_is_least(list, claude_aliases());
    }
    None
}

proof fn lemma_first_is_least<V>(
    list: Seq<(String, V)>,
    p: spec_fn(Seq<char>) -> bool,
    i: int,
)
    requires
        ascending(list),
        0 <= i < list.len(),
        p(list[i].0@),
        forall|j: int| 0 <= j < i ==> !p(#[trigger] list[j].0@),
    ensures
        least_key(entries_map(list).dom(), p) == Some(list[i].0@),
        entries_map(list).contains_key(list[i].0@),
{
    let keys = entries_map(list).dom();
    let k = list[i].0@;
    lemma_entry_in_map(list, i);
    assert forall|o: Seq<char>| #[trigger] keys.contains(o) && p(o) implies o == k || text_less(
        k,
        o,
    ) by {
        let q = crate::map::position(list, o);
        assert(crate::map::listed(list, o));
        assert(0 <= q < list.len() && list[q].0@ == o);
        if q > i {
            assert(text_less(list[i].0@, list[q].0@));
        }
    }
    assert(is_least(keys, p, k));
    lemma_least_key(keys, p, k);
}

proof fn lemma_none_is_least<V>(list: Seq<(String, V)>, p: spec_fn(Seq<char>) -> bool)
    requires
        forall|j: int| 0 <= j < list.len() ==> !p(#[trigger] list[j].0@),
    ensures
        least_key(entries_map(list).dom(), p) is None,
{
    let keys = entries_map(list).dom();
    assert forall|o: Seq<char>| #[trigger] keys.contains(o) implies !p(o) by {
        let q = crate::map::position(list, o);
        assert(crate::map::listed(list, o));
        assert(0 <= q < list.len() && list[q].0@ == o);
    }
    lemma_no_least_key(keys, p);
}

fn move_runner(config: &mut ExternalCliGatewayConfig, old_id: &str, from: &str, to: &str)
    requires
        old(config).runners@.contains_key(old_id@),
    ensures
        final(config)@ == moved(old(config)@, old_id@, from@, to@),
{
    let ghost start = config@;
    proof {
        lemma_runner_insert(config.runners@, old_id@, config.runners@[old_id@]);
    }
    match config.runners.remove(old_id) {
        Some(settings) => put_runner_if_absent(&mut config.runners, to, settings),
        None => {},
    }
    if same_ignoring_case(config.default_runner_id.as_str(), from) {
        config.default_runner_id = owned(to);
    }
    config.channels = rename_channels(&config.channels, from, to);
}

/// Gives the runner with the old name of Traex its present name.
pub fn migrate_legacy_traex_runner_id(config: &mut ExternalCliGatewayConfig)
    ensures
        final(config)@ == migrated_traex(old(config)@),
{
    proof {
        assert(runner_views(config.runners@).dom() =~= config.runners@.dom());
    }
    match first_traex_alias(&config.runners) {
        Some(old_id) => move_runner(
            config,
            old_id.as_str(),
            LEGACY_TRAEX_RUNNER_ALIAS,
            DEFAULT_TRAEX_RUNNER_ID,
        ),
        None => {},
    }
}

/// Gives a runner with another spelling of `claude_code` its present name.
pub fn migrate_legacy_claude_code_runner_id(config: &mut ExternalCliGatewayConfig)
    ensures
        final(config)@ == migrated_claude(old(config)@),
{
    proof {
        assert(runner_views(config.runners@).dom() =~= config.runners@.dom());
    }
    match first_claude_alias(&config.runners) {
        Some(old_id) => move_runner(
            config,
            old_id.as_str(),
            old_id.as_str(),
            default_claude_code_runner_id().as_str(),
        ),
        None => {},
    }
}

/// The runner that a name stands for.
pub open spec fn canonical(runners: Set<Seq<char>>, id: Seq<char>) -> Seq<char> {
    let t = trimmed(id);
    let l = lowered(t);
    if traex_alias(t) && runners.contains(DEFAULT_TRAEX_RUNNER_ID@) {
        DEFAULT_TRAEX_RUNNER_ID@
    } else if runners.contains(t) {
        t
    } else if l == "codex"@ && runners.contains(DEFAULT_CODEX_RUNNER_ID@) {
        DEFAULT_CODEX_RUNNER_ID@
    } else if (l == "traex"@ || l == "trae"@) && runners.contains(DEFAULT_TRAEX_RUNNER_ID@) {
        DEFAULT_TRAEX_RUNNER_ID@
    } else if claude_spelling(l) && runners.contains(claude_runner_id()) {
        claude_runner_id()
    } else {
        t
    }
}

/// Finds the runner that a name stands for.
pub fn canonical_external_cli_runner_id(config: &ExternalCliGatewayConfig, runner_id: &str) -> (r:
    String)
    ensures
        r@ == canonical(config@.runners.dom(), runner_id@),
{
    proof {
        assert(runner_views(config.runners@).dom() =~= config.runners@.dom());
    }
    let id = trim(runner_id);
    if same_ignoring_case(id, LEGACY_TRAEX_RUNNER_ALIAS) && config.runners.contains_key(
        DEFAULT_TRAEX_RUNNER_ID,
    ) {
        return owned(DEFAULT_TRAEX_RUNNER_ID);
    }
    if config.runners.contains_key(id) {
        return owned(id);
    }
    let lower = to_lower(id);
    let l = lower.as_str();
    if same(l, "codex") && config.runners.contains_key(DEFAULT_CODEX_RUNNER_ID) {
        return owned(DEFAULT_CODEX_RUNNER_ID);
    }
    if (same(l, "traex") || same(l, "trae")) && config.runners.contains_key(
        DEFAULT_TRAEX_RUNNER_ID,
    ) {
        return owned(DEFAULT_TRAEX_RUNNER_ID);
    }
    let claude_id = default_claude_code_runner_id();
    if is_claude_spelling(l) && config.runners.contains_key(claude_id.as_str()) {
        return claude_id;
    }
    owned(id)
}

// ---------------------------------------------------------------------------
// Putting the whole configuration in shape
// ---------------------------------------------------------------------------

/// What becomes of one runner: blank names go, the others lose the white space
/// around them.
pub open spec fn kept_runner() -> spec_fn(Seq<char>, ExternalCliAgentSettings) -> Option<
    (Seq<char>, SettingsView),
> {
    |k: Seq<char>, s: ExternalCliAgentSettings|
        if blank(k) {
            None
        } else {
            Some((trimmed(k), normalized_settings(s@)))
        }
}

/// What becomes of one channel: those that set nothing go.
pub open spec fn kept_channel(c: ChannelView) -> Option<ChannelView> {
    if sets_nothing(normalized_channel(c)) {
        None
    } else {
        Some(normalized_channel(c))
    }
}

/// The channels that set something, in shape.
pub open spec fn kept_channels(m: Map<Seq<char>, ChannelView>) -> Map<Seq<char>, ChannelView> {
    Map::new(
        |k: Seq<char>| m.contains_key(k) && kept_channel(m[k]) is Some,
        |k: Seq<char>| normalized_channel(m[k]),
    )
}

/// The configuration with its runners in shape, before old names are looked at.
pub open spec fn shaped(c: ExternalCliGatewayConfig) -> GatewayView {
    GatewayView {
        version: CONFIG_VERSION,
        default_runner_id: or_text(
            cleaned(Some(c.default_runner_id@)),
            DEFAULT_CODEX_RUNNER_ID@,
        ),
        runners: if c.runners@ == Map::<Seq<char>, ExternalCliAgentSettings>::empty() {
            with_default_runners(Map::empty())
        } else {
            gathered(c.runners.list(), kept_runner())
        },
        channels: c@.channels,
    }
}

pub open spec fn with_all_runners(g: GatewayView) -> GatewayView {
    GatewayView { runners: with_default_runners(g.runners), ..g }
}

/// The configuration with a default runner that exists.
pub open spec fn with_known_default(g: GatewayView) -> GatewayView {
    let c = canonical(g.runners.dom(), g.default_runner_id);
    if g.runners.contains_key(g.default_runner_id) {
        g
    } else if g.runners.contains_key(c) {
        GatewayView { default_runner_id: c, ..g }
    } else {
        GatewayView { runners: g.runners.insert(g.default_runner_id, default_settings()), ..g }
    }
}

/// The configuration in shape.
pub open spec fn normalized_gateway(c: ExternalCliGatewayConfig) -> GatewayView {
    let g = with_known_default(with_all_runners(migrated_claude(migrated_traex(shaped(c)))));
    GatewayView { channels: kept_channels(g.channels), ..g }
}

fn shape_runners(runners: TextMap<ExternalCliAgentSettings>) -> (r: TextMap<
    ExternalCliAgentSettings,
>)
    ensures
        runner_views(r@) == gathered(runners.list(), kept_runner()),
{
    let mut out: TextMap<ExternalCliAgentSettings> = TextMap::new();
    let n: usize = runners.len();
    let ghost list = runners.list();
    let ghost f = kept_runner();
    let mut i: usize = 0;
    proof {
        assert(list.take(0) =~= Seq::empty());
        assert(runner_views(out@) =~= Map::empty());
    }
    while i < n
        invariant
            i <= n,
            n == list.len(),
            list == runners.list(),
            f == kept_runner(),
            runner_views(out@) == gathered(list.take(i as int), f),
        decreases n - i,
    {
        proof {
            assert(list.take(i + 1).drop_last() =~= list.take(i as int));
            assert(list.take(i + 1).last() == list[i as int]);
        }
        let id = trim(runners.key_at(i).as_str());
        if !id.is_empty() {
            let settings = normalized_agent_settings(runners.value_at(i).copy());
            proof {
                lemma_runner_insert(out@, id@, settings);
            }
            out.insert(id, settings);
        }
        i = i + 1;
    }
    proof {
        assert(list.take(i as int) =~= list);
    }
    out
}

fn keep_channels(channels: TextMap<ExternalCliChannelSettings>) -> (r: TextMap<
    ExternalCliChannelSettings,
>)
    ensures
        channel_views(r@) == kept_channels(channel_views(channels@)),
{
    let mut out: TextMap<ExternalCliChannelSettings> = TextMap::new();
    let n: usize = channels.len();
    let ghost list = channels.list();
    let ghost f = |k: Seq<char>, c: ExternalCliChannelSettings|
        match kept_channel(c@) {
            Some(v) => Some((k, v)),
            None => None,
        };
    let mut i: usize = 0;
    proof {
        assert(list.take(0) =~= Seq::empty());
        assert(channel_views(out@) =~= Map::empty());
    }
    while i < n
        invariant
            i <= n,
            n == list.len(),
            list == channels.list(),
            f == (|k: Seq<char>, c: ExternalCliChannelSettings|
                match kept_channel(c@) {
                    Some(v) => Some((k, v)),
                    None => None,
                }),
            channel_views(out@) == gathered(list.take(i as int), f),
        decreases n - i,
    {
        proof {
            assert(list.take(i + 1).drop_last() =~= list.take(i as int));
            assert(list.take(i + 1).last() == list[i as int]);
        }
        let channel = channels.value_at(i);
        let next = normalized_channel_settings(
            ExternalCliChannelSettings {
                enabled: channel.enabled,
                runner_id: copy_opt(&channel.runner_id),
                delivery_mode: channel.delivery_mode,
            },
        );
        if !is_empty_channel_settings(&next) {
            let key = channels.key_at(i);
            proof {
                lemma_channel_insert(out@, key@, next);
            }
            out.insert(key.as_str(), next);
        }
        i = i + 1;
    }
    proof {
        assert(list.take(i as int) =~= list);
        lemma_gathered_in_place(list, f);
        let g = gathered(list, f);
        let k = kept_channels(channel_views(channels@));
        assert forall|key: Seq<char>| g.contains_key(key) <==> k.contains_key(key) by {}
        assert forall|key: Seq<char>| g.contains_key(key) implies g[key] == k[key] by {}
        assert(g =~= k);
    }
    out
}

/// Puts a configuration in shape: trimmed names, present names for old ones, the
/// runners that come with the gateway, a default runner that exists, and no
/// channel that sets nothing.
pub fn normalized_gateway_config(config: ExternalCliGatewayConfig) -> (r:
    ExternalCliGatewayConfig)
    ensures
        r@ == normalized_gateway(config),
{
    let default_runner_id = match clean_optional_string(Some(config.default_runner_id.as_str())) {
        Some(id) => id,
        None => owned(DEFAULT_CODEX_RUNNER_ID),
    };
    let runners = if config.runners.is_empty() {
        default_external_cli_runners()
    } else {
        shape_runners(config.runners)
    };
    let mut next = ExternalCliGatewayConfig {
        version: CONFIG_VERSION,
        default_runner_id,
        runners,
        channels: config.channels,
    };
    migrate_legacy_traex_runner_id(&mut next);
    migrate_legacy_claude_code_runner_id(&mut next);
    ensure_default_external_cli_runners(&mut next.runners);
    proof {
        lemma_runner_insert(
            next.runners@,
            next.default_runner_id@,
            next.runners@[next.default_runner_id@],
        );
    }
    if !next.runners.contains_key(next.default_runner_id.as_str()) {
        let c = canonical_external_cli_runner_id(&next, next.default_runner_id.as_str());
        if next.runners.contains_key(c.as_str()) {
            next.default_runner_id = c;
        } else {
            let settings = ExternalCliAgentSettings::default();
            proof {
                lemma_runner_insert(next.runners@, next.default_runner_id@, settings);
            }
            next.runners.insert(next.default_runner_id.as_str(), settings);
        }
    }
    let ExternalCliGatewayConfig { version, default_runner_id, runners, channels } = next;
    ExternalCliGatewayConfig {
        version,
        default_runner_id,
        runners,
        channels: keep_channels(channels),
    }
}

/// Whatever it is made from, a configuration in shape has the present version,
/// the three runners that come with the gateway, a default runner that exists,
/// runners in shape under trimmed names that are not blank, each with a trimmed
/// adapter that is not blank, and no channel that sets nothing or names a blank
/// runner.
pub proof fn lemma_normalized_gateway(c: ExternalCliGatewayConfig)
    ensures
        normalized_gateway(c).version == CONFIG_VERSION,
        normalized_gateway(c).runners.contains_key(DEFAULT_CODEX_RUNNER_ID@),
        normalized_gateway(c).runners.contains_key(DEFAULT_TRAEX_RUNNER_ID@),
        normalized_gateway(c).runners.contains_key(claude_runner_id()),
        normalized_gateway(c).runners.contains_key(normalized_gateway(c).default_runner_id),
        cleaned(Some(normalized_gateway(c).default_runner_id)) == Some(
            normalized_gateway(c).default_runner_id,
        ),
        runners_in_shape(normalized_gateway(c).runners),
        forall|k: Seq<char>| #[trigger]
            normalized_gateway(c).runners.contains_key(k) ==> cleaned(Some(k)) == Some(k)
                && cleaned(Some(normalized_gateway(c).runners[k].adapter)) == Some(
                normalized_gateway(c).runners[k].adapter,
            ),
        forall|k: Seq<char>| #[trigger]
            normalized_gateway(c).channels.contains_key(k) ==> !sets_nothing(
                normalized_gateway(c).channels[k],
            ) && normalized_channel(normalized_gateway(c).channels[k])
                == normalized_gateway(c).channels[k],
{
    let g = with_known_default(with_all_runners(migrated_claude(migrated_traex(shaped(c)))));
    assert forall|k: Seq<char>| #[trigger] kept_channels(g.channels).contains_key(k) implies
        normalized_channel(kept_channels(g.channels)[k]) == kept_channels(g.channels)[k] by {
        lemma_entries_in_shape_stay(default_settings(), g.channels[k]);
    }
    lemma_normalized_runners_in_shape(c);
    let runners = normalized_gateway(c).runners;
    assert forall|k: Seq<char>| #[trigger] runners.contains_key(k) implies cleaned(Some(k)) == Some(
        k,
    ) && cleaned(Some(runners[k].adapter)) == Some(runners[k].adapter) by {
        lemma_codex_is_clean();
        crate::agent_config::lemma_cleaned_idempotent(Some(runners[k].adapter));
        assert(normalized_settings(runners[k]).adapter == runners[k].adapter);
    }
}

// ---------------------------------------------------------------------------
// What applies to a channel
// ---------------------------------------------------------------------------

/// The runner of a channel, with where each of its settings comes from.
#[derive(Debug, PartialEq, Eq)]
pub struct ExternalCliEffectiveConfig {
    pub provider_id: Option<String>,
    pub runner_id: String,
    pub settings: ExternalCliAgentSettings,
    pub sources: TextMap<String>,
}

/// The channel of a provider, if it has one.
pub open spec fn channel_of(g: GatewayView, provider: Option<Seq<char>>) -> Option<ChannelView> {
    match provider {
        Some(p) => if g.channels.contains_key(p) {
            Some(g.channels[p])
        } else {
            None
        },
        None => None,
    }
}

/// The runner that is asked for: by the caller, else by the channel, else the
/// default one.
pub open spec fn requested_runner(
    g: GatewayView,
    provider: Option<Seq<char>>,
    wanted: Option<Seq<char>>,
) -> Seq<char> {
    let fallback = or_text(cleaned(Some(g.default_runner_id)), DEFAULT_CODEX_RUNNER_ID@);
    match wanted {
        Some(w) => or_text(cleaned(Some(w)), fallback),
        None => match channel_of(g, provider) {
            Some(c) => or_text(cleaned(c.runner_id), fallback),
            None => fallback,
        },
    }
}

pub open spec fn effective_runner(
    g: GatewayView,
    provider: Option<Seq<char>>,
    wanted: Option<Seq<char>>,
) -> Seq<char> {
    canonical(g.runners.dom(), requested_runner(g, provider, wanted))
}

/// The settings that apply: those of the runner, with what the channel sets.
pub open spec fn effective_settings(
    g: GatewayView,
    provider: Option<Seq<char>>,
    wanted: Option<Seq<char>>,
) -> SettingsView {
    let id = effective_runner(g, provider, wanted);
    let base = if g.runners.contains_key(id) {
        g.runners[id]
    } else {
        default_settings()
    };
    normalized_settings(
        match channel_of(g, provider) {
            Some(c) => SettingsView {
                enabled: match c.enabled {
                    Some(b) => b,
                    None => base.enabled,
                },
                delivery_mode: match c.delivery_mode {
                    Some(m) => m,
                    None => base.delivery_mode,
                },
                ..base
            },
            None => base,
        },
    )
}

pub open spec fn runner_sources() -> Map<Seq<char>, Seq<char>> {
    Map::<Seq<char>, Seq<char>>::empty().insert("runnerId"@, "runner"@).insert(
        "enabled"@,
        "runner"@,
    ).insert("adapter"@, "runner"@).insert("instructions"@, "runner"@).insert(
        "adapterConfig"@,
        "runner"@,
    ).insert("injectBifrostTools"@, "runner"@).insert("skillPaths"@, "runner"@).insert(
        "deliveryMode"@,
        "runner"@,
    )
}

pub open spec fn insert_when<V>(
    m: Map<Seq<char>, V>,
    key: Seq<char>,
    value: V,
    wanted: bool,
) -> Map<Seq<char>, V> {
    if wanted {
        m.insert(key, value)
    } else {
        m
    }
}

/// Where each setting comes from.
pub open spec fn effective_sources(
    g: GatewayView,
    provider: Option<Seq<char>>,
    wanted: Option<Seq<char>>,
) -> Map<Seq<char>, Seq<char>> {
    let base = insert_when(runner_sources(), "runnerId"@, "agent"@, wanted is Some);
    match channel_of(g, provider) {
        Some(c) => insert_when(
            insert_when(
                insert_when(base, "enabled"@, "channel"@, c.enabled is Some),
                "runnerId"@,
                "channel"@,
                c.runner_id is Some,
            ),
            "deliveryMode"@,
            "channel"@,
            c.delivery_mode is Some,
        ),
        None => base,
    }
}

/// Puts a text at a key of a map of texts.
pub fn put_text(m: &mut TextMap<String>, key: &str, value: &str)
    ensures
        map_texts(final(m)@) == map_texts(old(m)@).insert(key@, value@),
{
    let text = owned(value);
    m.insert(key, text);
    proof {
        assert(map_texts(m@) =~= map_texts(old(m)@).insert(key@, value@));
    }
}

fn put_text_when(m: &mut TextMap<String>, key: &str, value: &str, wanted: bool)
    ensures
        map_texts(final(m)@) == insert_when(map_texts(old(m)@), key@, value@, wanted),
{
    if wanted {
        put_text(m, key, value);
    }
}

fn base_sources() -> (r: TextMap<String>)
    ensures
        map_texts(r@) == runner_sources(),
{
    let mut m: TextMap<String> = TextMap::new();
    proof {
        assert(map_texts(m@) =~= Map::empty());
    }
    put_text(&mut m, "runnerId", "runner");
    put_text(&mut m, "enabled", "runner");
    put_text(&mut m, "adapter", "runner");
    put_text(&mut m, "instructions", "runner");
    put_text(&mut m, "adapterConfig", "runner");
    put_text(&mut m, "injectBifrostTools", "runner");
    put_text(&mut m, "skillPaths", "runner");
    put_text(&mut m, "deliveryMode", "runner");
    m
}

/// Works out the runner of a provider when the caller asks for none.
pub fn effective_config_for_provider(
    config: &ExternalCliGatewayConfig,
    provider_id: Option<&str>,
) -> (r: ExternalCliEffectiveConfig)
    ensures
        opt(r.provider_id) == opt_str(provider_id),
        r.runner_id@ == effective_runner(config@, opt_str(provider_id), None),
        r.settings@ == effective_settings(config@, opt_str(provider_id), None),
        map_texts(r.sources@) == effective_sources(config@, opt_str(provider_id), None),
{
    effective_config_for_provider_and_runner(config, provider_id, None)
}

/// Works out the runner of a provider, with its settings and their sources.
pub fn effective_config_for_provider_and_runner(
    config: &ExternalCliGatewayConfig,
    provider_id: Option<&str>,
    runner_id_override: Option<&str>,
) -> (r: ExternalCliEffectiveConfig)
    ensures
        opt(r.provider_id) == opt_str(provider_id),
        r.runner_id@ == effective_runner(
            config@,
            opt_str(provider_id),
            opt_str(runner_id_override),
        ),
        r.settings@ == effective_settings(
            config@,
            opt_str(provider_id),
            opt_str(runner_id_override),
        ),
        map_texts(r.sources@) == effective_sources(
            config@,
            opt_str(provider_id),
            opt_str(runner_id_override),
        ),
{
    let ghost g = config@;
    let channel: Option<&ExternalCliChannelSettings> = match provider_id {
        Some(p) => config.channels.get(p),
        None => None,
    };
    proof {
        assert(runner_views(config.runners@).dom() =~= config.runners@.dom());
        assert(channel_views(config.channels@).dom() =~= config.channels@.dom());
    }
    let fallback = match clean_optional_string(Some(config.default_runner_id.as_str())) {
        Some(id) => id,
        None => owned(DEFAULT_CODEX_RUNNER_ID),
    };
    let asked = match runner_id_override {
        Some(w) => clean_optional_string(Some(w)),
        None => match channel {
            Some(c) => clean_opt(&c.runner_id),
            None => None,
        },
    };
    let requested = match asked {
        Some(id) => id,
        None => fallback,
    };
    let runner_id = canonical_external_cli_runner_id(config, requested.as_str());
    let mut settings = match config.runners.get(runner_id.as_str()) {
        Some(s) => s.copy(),
        None => ExternalCliAgentSettings::default(),
    };
    let mut sources = base_sources();
    put_text_when(&mut sources, "runnerId", "agent", runner_id_override.is_some());
    match channel {
        Some(c) => {
            match c.enabled {
                Some(b) => {
                    settings.enabled = b;
                },
                None => {},
            }
            match c.delivery_mode {
                Some(m) => {
                    settings.delivery_mode = m;
                },
                None => {},
            }
            put_text_when(&mut sources, "enabled", "channel", c.enabled.is_some());
            put_text_when(&mut sources, "runnerId", "channel", c.runner_id.is_some());
            put_text_when(&mut sources, "deliveryMode", "channel", c.delivery_mode.is_some());
        },
        None => {},
    }
    ExternalCliEffectiveConfig {
        provider_id: match provider_id {
            Some(p) => Some(owned(p)),
            None => None,
        },
        runner_id,
        settings: normalized_agent_settings(settings),
        sources,
    }
}

/// The configuration after a channel has been set.
pub open spec fn with_channel(g: GatewayView, provider: Seq<char>, c: ChannelView) -> GatewayView {
    GatewayView {
        channels: match kept_channel(c) {
            Some(kept) => g.channels.insert(provider, kept),
            None => g.channels.remove(provider),
        },
        ..g
    }
}

/// Sets the channel of a provider; a channel that sets nothing is removed. The
/// answer is what then applies to the provider.
pub fn update_channel(
    config: &mut ExternalCliGatewayConfig,
    provider_id: &str,
    patch: ExternalCliChannelSettings,
) -> (r: Result<ExternalCliEffectiveConfig, String>)
    ensures
        r is Err <==> blank(provider_id@),
        r matches Err(e) ==> e@ == "provider_id cannot be empty"@ && final(config)@
            == old(config)@,
        r matches Ok(eff) ==> {
            let provider = Some(trimmed(provider_id@));
            &&& final(config)@ == with_channel(old(config)@, trimmed(provider_id@), patch@)
            &&& opt(eff.provider_id) == provider
            &&& eff.runner_id@ == effective_runner(final(config)@, provider, None)
            &&& eff.settings@ == effective_settings(final(config)@, provider, None)
            &&& map_texts(eff.sources@) == effective_sources(final(config)@, provider, None)
        },
{
    let provider = trim(provider_id);
    if provider.is_empty() {
        return Err(owned("provider_id cannot be empty"));
    }
    let patch = normalized_channel_settings(patch);
    proof {
        lemma_channel_insert(config.channels@, provider@, patch);
    }
    if is_empty_channel_settings(&patch) {
        let removed = config.channels.remove(provider);
    } else {
        config.channels.insert(provider, patch);
    }
    Ok(effective_config_for_provider(config, Some(provider)))
}

/// Setting a channel that sets nothing takes away what the channel had set: the
/// provider is then served by the default runner.
pub proof fn lemma_clearing_a_channel(g: GatewayView, provider: Seq<char>, c: ChannelView)
    requires
        sets_nothing(normalized_channel(c)),
    ensures
        channel_of(with_channel(g, provider, c), Some(provider)) is None,
        effective_runner(with_channel(g, provider, c), Some(provider), None) == effective_runner(
            g,
            None,
            None,
        ),
        effective_settings(with_channel(g, provider, c), Some(provider), None)
            == effective_settings(g, None, None),
{
}

/// What a channel sets is what applies to it, and no other provider is touched.
pub proof fn lemma_setting_a_channel(
    g: GatewayView,
    provider: Seq<char>,
    c: ChannelView,
    other: Seq<char>,
)
    requires
        !sets_nothing(normalized_channel(c)),
        other != provider,
    ensures
        ({
            let after = with_channel(g, provider, c);
            let settings = effective_settings(after, Some(provider), None);
            &&& c.enabled matches Some(b) ==> settings.enabled == b
            &&& c.delivery_mode matches Some(m) ==> settings.delivery_mode == m
            &&& cleaned(c.runner_id) matches Some(id) ==> effective_runner(
                after,
                Some(provider),
                None,
            ) == canonical(g.runners.dom(), id)
            &&& effective_settings(after, Some(other), None) == effective_settings(
                g,
                Some(other),
                None,
            )
            &&& effective_runner(after, Some(other), None) == effective_runner(
                g,
                Some(other),
                None,
            )
        }),
{
    crate::agent_config::lemma_cleaned_idempotent(c.runner_id);
}

// ---------------------------------------------------------------------------
// Putting a configuration in shape twice
// ---------------------------------------------------------------------------

/// Whether every runner is in shape.
pub open spec fn runners_in_shape(m: Map<Seq<char>, SettingsView>) -> bool {
    forall|k: Seq<char>| #[trigger]
        m.contains_key(k) ==> cleaned(Some(k)) == Some(k) && normalized_settings(m[k]) == m[k]
}

proof fn lemma_names_are_clean()
    ensures
        cleaned(Some(DEFAULT_CODEX_RUNNER_ID@)) == Some(DEFAULT_CODEX_RUNNER_ID@),
        cleaned(Some(DEFAULT_TRAEX_RUNNER_ID@)) == Some(DEFAULT_TRAEX_RUNNER_ID@),
        cleaned(Some(claude_runner_id())) == Some(claude_runner_id()),
        claude_alias(claude_runner_id()),
{
    reveal_strlit("Codex");
    reveal_strlit("Traex");
    reveal_strlit("claude_code");
    reveal_strlit("-Code");
    reveal_strlit("-code");
    assert(DEFAULT_CODEX_RUNNER_ID@.len() == 5 && DEFAULT_CODEX_RUNNER_ID@[0] == 'C'
        && DEFAULT_CODEX_RUNNER_ID@[4] == 'x');
    assert(DEFAULT_TRAEX_RUNNER_ID@.len() == 5 && DEFAULT_TRAEX_RUNNER_ID@[0] == 'T'
        && DEFAULT_TRAEX_RUNNER_ID@[4] == 'x');
    assert(claude_runner_id().len() == 11 && claude_runner_id()[0] == 'C'
        && claude_runner_id()[10] == 'e');
    let a = lowered(claude_runner_id());
    let b = claude_word() + "-code"@;
    assert(a.len() == 11 && b.len() == 11);
    assert(a[0] == b[0] && a[1] == b[1] && a[2] == b[2] && a[3] == b[3] && a[4] == b[4] && a[5]
        == b[5] && a[6] == b[6] && a[7] == b[7] && a[8] == b[8] && a[9] == b[9] && a[10] == b[10]);
    assert(a =~= b);
}

proof fn lemma_default_runners_in_shape(m: Map<Seq<char>, SettingsView>)
    requires
        runners_in_shape(m),
    ensures
        runners_in_shape(with_default_runners(m)),
{
    lemma_names_are_clean();
    lemma_codex_is_clean();
    lemma_entries_in_shape_stay(
        default_settings(),
        ChannelView { enabled: None, runner_id: None, delivery_mode: None },
    );
    assert(normalized_settings(runner_of(DEFAULT_ADAPTER@)) =~= runner_of(DEFAULT_ADAPTER@));
    assert(normalized_settings(runner_of(TRAEX_ADAPTER@)) =~= runner_of(TRAEX_ADAPTER@));
    assert(normalized_settings(runner_of(CLAUDE_CODE_ADAPTER@)) =~= runner_of(
        CLAUDE_CODE_ADAPTER@,
    ));
}

proof fn lemma_gathered_in_shape(list: Seq<(String, ExternalCliAgentSettings)>)
    ensures
        runners_in_shape(gathered(list, kept_runner())),
    decreases list.len(),
{
    if list.len() > 0 {
        lemma_gathered_in_shape(list.drop_last());
        let last = list.last();
        crate::agent_config::lemma_cleaned_idempotent(Some(last.0@));
        lemma_entries_in_shape_stay(
            last.1@,
            ChannelView { enabled: None, runner_id: None, delivery_mode: None },
        );
    }
}

proof fn lemma_migrated_in_shape(g: GatewayView)
    requires
        runners_in_shape(g.runners),
        cleaned(Some(g.default_runner_id)) == Some(g.default_runner_id),
    ensures
        runners_in_shape(migrated_traex(g).runners),
        runners_in_shape(migrated_claude(g).runners),
        cleaned(Some(migrated_traex(g).default_runner_id)) == Some(
            migrated_traex(g).default_runner_id,
        ),
        cleaned(Some(migrated_claude(g).default_runner_id)) == Some(
            migrated_claude(g).default_runner_id,
        ),
{
    lemma_names_are_clean();
    let keys = g.runners.dom();
    if let Some(k) = least_key(keys, traex_aliases()) {
        assert(is_least(keys, traex_aliases(), k));
        assert(keys.contains(k));
    }
    if let Some(k) = least_key(keys, claude_aliases()) {
        assert(is_least(keys, claude_aliases(), k));
        assert(keys.contains(k));
    }
}

proof fn lemma_normalized_runners_in_shape(c: ExternalCliGatewayConfig)
    ensures
        runners_in_shape(normalized_gateway(c).runners),
        cleaned(Some(normalized_gateway(c).default_runner_id)) == Some(
            normalized_gateway(c).default_runner_id,
        ),
{
    let g0 = shaped(c);
    lemma_names_are_clean();
    crate::agent_config::lemma_cleaned_idempotent(Some(c.default_runner_id@));
    lemma_gathered_in_shape(c.runners.list());
    assert(runners_in_shape(Map::empty()));
    lemma_default_runners_in_shape(Map::empty());
    lemma_migrated_in_shape(g0);
    let g1 = migrated_traex(g0);
    lemma_migrated_in_shape(g1);
    let g2 = migrated_claude(g1);
    lemma_default_runners_in_shape(g2.runners);
    let g3 = with_all_runners(g2);
    lemma_entries_in_shape_stay(
        default_settings(),
        ChannelView { enabled: None, runner_id: None, delivery_mode: None },
    );
    let id = canonical(g3.runners.dom(), g3.default_runner_id);
    if g3.runners.contains_key(id) {
        assert(cleaned(Some(id)) == Some(id));
    }
}

proof fn lemma_last_entry_is_gathered(
    list: Seq<(String, ExternalCliAgentSettings)>,
    i: int,
)
    requires
        0 <= i < list.len(),
        !blank(list[i].0@),
        forall|j: int| i < j < list.len() ==> trimmed((#[trigger] list[j]).0@) != trimmed(
            list[i].0@,
        ),
    ensures
        gathered(list, kept_runner()).contains_key(trimmed(list[i].0@)),
        gathered(list, kept_runner())[trimmed(list[i].0@)] == normalized_settings(list[i].1@),
    decreases list.len(),
{
    let rest = list.drop_last();
    if i < rest.len() {
        assert(rest[i] == list[i]);
        assert forall|j: int| i < j < rest.len() implies trimmed((#[trigger] rest[j]).0@)
            != trimmed(rest[i].0@) by {
            assert(rest[j] == list[j]);
        }
        lemma_last_entry_is_gathered(rest, i);
        assert(list[list.len() - 1] == list.last());
    }
}

/// A runner that is configured under a name that is neither blank nor an old name
/// or another spelling stays, in shape, and stays on or off. Of names that differ
/// in the white space around them alone, the last one counts.
pub proof fn lemma_runners_stay(c: ExternalCliGatewayConfig, k: Seq<char>)
    requires
        ascending(c.runners.list()),
        c.runners@.contains_key(k),
        !blank(k),
        !traex_alias(trimmed(k)),
        !claude_alias(trimmed(k)),
        forall|o: Seq<char>| #[trigger]
            c.runners@.contains_key(o) && trimmed(o) == trimmed(k) ==> o == k || text_less(o, k),
    ensures
        normalized_gateway(c).runners.contains_key(trimmed(k)),
        normalized_gateway(c).runners[trimmed(k)] == normalized_settings(c.runners@[k]@),
        normalized_gateway(c).runners[trimmed(k)].enabled == c.runners@[k].enabled,
{
    let list = c.runners.list();
    let t = trimmed(k);
    c.runners.lemma_list_is_map();
    let i = crate::map::position(list, k);
    assert(crate::map::listed(list, k));
    assert(0 <= i < list.len() && list[i].0@ == k);
    assert forall|j: int| i < j < list.len() implies trimmed((#[trigger] list[j]).0@) != t by {
        let o = list[j].0@;
        assert(text_less(list[i].0@, list[j].0@));
        if trimmed(o) == t {
            lemma_entry_in_map(list, j);
            assert(c.runners@.contains_key(o));
            lemma_text_less_irreflexive(k);
            if text_less(o, k) {
                lemma_text_less_transitive(k, o, k);
            }
        }
    }
    lemma_last_entry_is_gathered(list, i);
    let g0 = shaped(c);
    assert(g0.runners.contains_key(t));
    if let Some(old_id) = least_key(g0.runners.dom(), traex_aliases()) {
        assert(is_least(g0.runners.dom(), traex_aliases(), old_id));
        assert(old_id != t);
    }
    let g1 = migrated_traex(g0);
    assert(g1.runners.contains_key(t) && g1.runners[t] == g0.runners[t]);
    if let Some(old_id) = least_key(g1.runners.dom(), claude_aliases()) {
        assert(is_least(g1.runners.dom(), claude_aliases(), old_id));
        assert(old_id != t);
    }
    let g2 = migrated_claude(g1);
    assert(g2.runners.contains_key(t) && g2.runners[t] == g0.runners[t]);
}

/// Whether no old name is left that putting the configuration in shape once
/// more would change: no runner under the old name of Traex, no spelling of
/// `claude_code` ahead of the present one, and no reference to the present one
/// that differs from it in case alone.
pub open spec fn settled(g: GatewayView) -> bool {
    let present = claude_runner_id();
    &&& forall|k: Seq<char>| #[trigger] g.runners.contains_key(k) ==> !traex_alias(k)
    &&& forall|k: Seq<char>| #[trigger]
        g.runners.contains_key(k) && claude_alias(k) ==> k == present || text_less(present, k)
    &&& renamed(g.default_runner_id, present, present) == g.default_runner_id
    &&& renamed_channels(g.channels, present, present) == g.channels
}

/// Putting a configuration in shape twice is doing it once, unless it held
/// several spellings of an old name: each round gives up one of them.
pub proof fn lemma_normalizing_again(c: ExternalCliGatewayConfig, n: ExternalCliGatewayConfig)
    requires
        n@ == normalized_gateway(c),
        ascending(n.runners.list()),
        n.runners@ == entries_map(n.runners.list()),
        settled(n@),
    ensures
        normalized_gateway(n) == n@,
{
    let g = n@;
    let list = n.runners.list();
    let present = claude_runner_id();
    lemma_normalized_gateway(c);
    lemma_normalized_runners_in_shape(c);
    lemma_names_are_clean();
    assert(g.runners.dom() =~= n.runners@.dom());
    assert forall|i: int| 0 <= i < list.len() implies (kept_runner()(
        (#[trigger] list[i]).0@,
        list[i].1,
    ) matches Some(p) && p.0 == list[i].0@ && p.1 == list[i].1@) by {
        lemma_entry_in_map(list, i);
        assert(g.runners.contains_key(list[i].0@));
        assert(g.runners[list[i].0@] == list[i].1@);
    }
    lemma_gathered_in_place(list, kept_runner());
    assert(gathered(list, kept_runner()) =~= g.runners) by {
        let h = gathered(list, kept_runner());
        assert forall|k: Seq<char>| h.contains_key(k) <==> g.runners.contains_key(k) by {
            if g.runners.contains_key(k) {
                let p = crate::map::position(list, k);
                assert(crate::map::listed(list, k));
                assert(0 <= p < list.len() && list[p].0@ == k);
                lemma_entry_in_map(list, p);
            }
        }
        assert forall|k: Seq<char>| h.contains_key(k) implies h[k] == g.runners[k] by {
            let p = crate::map::position(list, k);
            assert(crate::map::listed(list, k));
            assert(0 <= p < list.len() && list[p].0@ == k);
            lemma_entry_in_map(list, p);
        }
    }
    assert(n.runners@.contains_key(present));
    assert(n.runners@ != Map::<Seq<char>, ExternalCliAgentSettings>::empty());
    assert(shaped(n) =~= g);
    lemma_no_least_key(g.runners.dom(), traex_aliases());
    assert(migrated_traex(g) == g);
    assert(is_least(g.runners.dom(), claude_aliases(), present)) by {
        assert forall|o: Seq<char>| #[trigger]
            g.runners.dom().contains(o) && claude_aliases()(o) implies o == present || text_less(
            present,
            o,
        ) by {
            assert(g.runners.contains_key(o));
        }
    }
    lemma_least_key(g.runners.dom(), claude_aliases(), present);
    assert(put_absent(g.runners.remove(present), present, g.runners[present]) =~= g.runners);
    assert(migrated_claude(g) =~= g);
    assert(with_known_default(with_all_runners(g)) == g);
    assert(kept_channels(g.channels) =~= g.channels) by {
        assert forall|k: Seq<char>| kept_channels(g.channels).contains_key(k)
            <==> g.channels.contains_key(k) by {
            if g.channels.contains_key(k) {
                assert(!sets_nothing(g.channels[k]));
            }
        }
    }
}

} // verus!
