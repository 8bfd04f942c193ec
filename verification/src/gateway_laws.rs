//! What the configuration of the gateway is for: which runner answers a provider, and
//! whose settings it runs with.

use vstd::prelude::*;

use crate::agent_config::{claude_title, cleaned, unset_config};
use crate::gateway_config::{
    canonical, claude_alias, claude_aliases, claude_runner_id, default_gateway, default_settings,
    effective_runner, effective_settings, effective_sources, kept_channels, migrated_claude,
    migrated_traex, normalized_settings, shaped, traex_alias, traex_aliases, with_channel,
    with_default_runners, with_known_default, ChannelView, ExternalCliDeliveryMode,
    ExternalCliGatewayConfig, GatewayView, SettingsView,
};
use crate::map::least_key;
use crate::text::{blank, lowered, trimmed};

verus! {

broadcast use vstd::string::group_string_axioms;

/// The names that runners have by default differ.
proof fn lemma_runner_names_differ()
    ensures
        "Codex"@ != "Traex"@,
        claude_runner_id() != "Codex"@,
        claude_runner_id() != "Traex"@,
{
    reveal_strlit("Codex");
    reveal_strlit("Traex");
    reveal_strlit("-Code");
    reveal_strlit("claude_code");
    assert("Codex"@[0] == 'C' && "Traex"@[0] == 'T');
    assert("Codex"@.len() == 5 && "Traex"@.len() == 5 && "-Code"@.len() == 5);
    assert(claude_title().len() == 6);
}

/// Settings that say nothing: an agent that is off, asks Codex, hands its tools over
/// and sends its last answer.
pub proof fn lemma_settings_that_say_nothing()
    ensures
        !default_settings().enabled,
        default_settings().adapter == "codex"@,
        default_settings().instructions is None,
        default_settings().adapter_config == unset_config(),
        default_settings().inject_bifrost_tools,
        default_settings().skill_paths.len() == 0,
        default_settings().delivery_mode == ExternalCliDeliveryMode::FinalReply,
{
}

/// Settings keep what they say, with the white space taken off; an adapter that is
/// not named is Codex, and instructions without words are none.
pub proof fn lemma_settings_are_kept(s: SettingsView)
    ensures
        normalized_settings(s).enabled == s.enabled,
        normalized_settings(s).adapter_config == s.adapter_config,
        normalized_settings(s).inject_bifrost_tools == s.inject_bifrost_tools,
        normalized_settings(s).delivery_mode == s.delivery_mode,
        blank(s.adapter) ==> normalized_settings(s).adapter == "codex"@,
        !blank(s.adapter) ==> normalized_settings(s).adapter == trimmed(s.adapter),
        s.instructions matches Some(t) ==> (blank(t) ==> normalized_settings(s).instructions is None)
            && (!blank(t) ==> normalized_settings(s).instructions == Some(trimmed(t))),
        s.instructions is None ==> normalized_settings(s).instructions is None,
{
}

/// Every gateway has a runner for each of the three agents it knows; one that is
/// there already stays as it is, and no other is touched.
pub proof fn lemma_default_runners(m: Map<Seq<char>, SettingsView>, k: Seq<char>)
    ensures
        ({
            let all = with_default_runners(m);
            &&& all.contains_key("Codex"@)
            &&& all.contains_key("Traex"@)
            &&& all.contains_key(claude_title() + "-Code"@)
            &&& m.contains_key(k) ==> all.contains_key(k) && all[k] == m[k]
            &&& all.contains_key(k) ==> m.contains_key(k) || k == "Codex"@ || k == "Traex"@ || k
                == claude_title() + "-Code"@
            &&& !m.contains_key("Codex"@) ==> all["Codex"@].enabled && all["Codex"@].adapter
                == "codex"@
            &&& !m.contains_key("Traex"@) ==> all["Traex"@].enabled && all["Traex"@].adapter
                == "traex"@
            &&& !m.contains_key(claude_title() + "-Code"@) ==> all[claude_title()
                + "-Code"@].enabled && all[claude_title() + "-Code"@].adapter == "claude_code"@
        }),
{
    lemma_runner_names_differ();
}

/// A gateway that nothing is known of asks Codex and has no channels.
pub proof fn lemma_default_gateway(k: Seq<char>)
    ensures
        default_gateway().default_runner_id == "Codex"@,
        default_gateway().runners["Codex"@].adapter == "codex"@,
        default_gateway().runners["Codex"@].enabled,
        !default_gateway().channels.contains_key(k),
        default_gateway().version == 1,
{
    lemma_default_runners(Map::empty(), "Codex"@);
}

// ---------------------------------------------------------------------------
// Names of runners
// ---------------------------------------------------------------------------

/// A runner is found by its name, with the white space taken off, and by the
/// spellings of the agents that are known.
pub proof fn lemma_names_of_runners(runners: Set<Seq<char>>, id: Seq<char>)
    ensures
        runners.contains(trimmed(id)) && lowered(trimmed(id)) != lowered("treex"@) ==> canonical(
            runners,
            id,
        ) == trimmed(id),
        lowered(trimmed(id)) == lowered("treex"@) && runners.contains("Traex"@) ==> canonical(
            runners,
            id,
        ) == "Traex"@,
        lowered(trimmed(id)) != lowered("treex"@) && !runners.contains(trimmed(id)) && lowered(
            trimmed(id),
        ) == "codex"@ && runners.contains("Codex"@) ==> canonical(runners, id) == "Codex"@,
        lowered(trimmed(id)) != lowered("treex"@) && !runners.contains(trimmed(id)) && (lowered(
            trimmed(id),
        ) == "traex"@ || lowered(trimmed(id)) == "trae"@) && runners.contains("Traex"@)
            ==> canonical(runners, id) == "Traex"@,
        lowered(trimmed(id)) != lowered("treex"@) && !runners.contains(trimmed(id)) && lowered(
            trimmed(id),
        ) == "claude_code"@ && runners.contains(claude_runner_id()) ==> canonical(runners, id)
            == claude_runner_id(),
        canonical(runners, id) == trimmed(id) || runners.contains(canonical(runners, id)),
{
    reveal_strlit("codex");
    reveal_strlit("traex");
    reveal_strlit("trae");
    reveal_strlit("claude_code");
    assert("codex"@.len() == 5 && "traex"@.len() == 5 && "trae"@.len() == 4 && "claude_code"@.len()
        == 11);
    assert("codex"@[0] == 'c' && "traex"@[0] == 't');
}

/// A runner that is asked for goes before the channel's, and the channel's before
/// the default; a name without words is as none.
pub proof fn lemma_which_runner_answers(g: GatewayView, provider: Seq<char>, wanted: Seq<char>)
    ensures
        !blank(wanted) ==> effective_runner(g, Some(provider), Some(wanted)) == canonical(
            g.runners.dom(),
            trimmed(wanted),
        ),
        blank(wanted) && !blank(g.default_runner_id) ==> effective_runner(
            g,
            Some(provider),
            Some(wanted),
        ) == canonical(g.runners.dom(), trimmed(g.default_runner_id)),
        g.channels.contains_key(provider) ==> (g.channels[provider].runner_id matches Some(r) ==> (
        !blank(r) ==> effective_runner(g, Some(provider), None) == canonical(
            g.runners.dom(),
            trimmed(r),
        ))),
        g.channels.contains_key(provider) && g.channels[provider].runner_id is None && !blank(
            g.default_runner_id,
        ) ==> effective_runner(g, Some(provider), None) == canonical(
            g.runners.dom(),
            trimmed(g.default_runner_id),
        ),
        !g.channels.contains_key(provider) && !blank(g.default_runner_id) ==> effective_runner(
            g,
            Some(provider),
            None,
        ) == canonical(g.runners.dom(), trimmed(g.default_runner_id)),
        !blank(g.default_runner_id) ==> effective_runner(g, None, None) == canonical(
            g.runners.dom(),
            trimmed(g.default_runner_id),
        ),
        blank(g.default_runner_id) ==> effective_runner(g, None, None) == canonical(
            g.runners.dom(),
            "Codex"@,
        ),
{
}

/// A runner's settings are used, with what the channel says in the place of whether
/// it is on and what it sends.
pub proof fn lemma_whose_settings(
    g: GatewayView,
    provider: Seq<char>,
    wanted: Option<Seq<char>>,
)
    requires
        g.runners.contains_key(effective_runner(g, Some(provider), wanted)),
    ensures
        ({
            let runner = g.runners[effective_runner(g, Some(provider), wanted)];
            let s = effective_settings(g, Some(provider), wanted);
            &&& s.adapter_config == runner.adapter_config
            &&& s.inject_bifrost_tools == runner.inject_bifrost_tools
            &&& !blank(runner.adapter) ==> s.adapter == trimmed(runner.adapter)
            &&& !g.channels.contains_key(provider) ==> s.enabled == runner.enabled
                && s.delivery_mode == runner.delivery_mode
            &&& g.channels.contains_key(provider) && g.channels[provider].enabled is None
                ==> s.enabled == runner.enabled
            &&& g.channels.contains_key(provider) && g.channels[provider].delivery_mode is None
                ==> s.delivery_mode == runner.delivery_mode
            &&& g.channels.contains_key(provider) ==> (g.channels[provider].enabled matches Some(b)
                ==> s.enabled == b)
            &&& g.channels.contains_key(provider) ==> (
            g.channels[provider].delivery_mode matches Some(d) ==> s.delivery_mode == d)
        }),
{
}

/// A runner that is not there is off and asks Codex.
pub proof fn lemma_missing_runners(g: GatewayView, wanted: Option<Seq<char>>)
    requires
        !g.runners.contains_key(effective_runner(g, None, wanted)),
    ensures
        !effective_settings(g, None, wanted).enabled,
        effective_settings(g, None, wanted).adapter == "codex"@,
{
    crate::gateway_config::lemma_entries_in_shape_stay(
        default_settings(),
        (ChannelView { enabled: None, runner_id: None, delivery_mode: None }),
    );
}

/// Where each setting came from: the runner, unless the channel set it or the runner
/// itself was asked for.
pub proof fn lemma_where_settings_come_from(
    g: GatewayView,
    provider: Seq<char>,
    wanted: Option<Seq<char>>,
)
    ensures
        ({
            let from = effective_sources(g, Some(provider), wanted);
            let here = g.channels.contains_key(provider);
            let c = g.channels[provider];
            &&& from["adapter"@] == "runner"@
            &&& from["adapterConfig"@] == "runner"@
            &&& from["instructions"@] == "runner"@
            &&& from["skillPaths"@] == "runner"@
            &&& from["injectBifrostTools"@] == "runner"@
            &&& here && c.enabled is Some ==> from["enabled"@] == "channel"@
            &&& !(here && c.enabled is Some) ==> from["enabled"@] == "runner"@
            &&& here && c.delivery_mode is Some ==> from["deliveryMode"@] == "channel"@
            &&& !(here && c.delivery_mode is Some) ==> from["deliveryMode"@] == "runner"@
            &&& here && c.runner_id is Some ==> from["runnerId"@] == "channel"@
            &&& !(here && c.runner_id is Some) && wanted is Some ==> from["runnerId"@] == "agent"@
            &&& !(here && c.runner_id is Some) && wanted is None ==> from["runnerId"@] == "runner"@
        }),
{
    reveal_strlit("runnerId");
    reveal_strlit("enabled");
    reveal_strlit("adapter");
    reveal_strlit("instructions");
    reveal_strlit("adapterConfig");
    reveal_strlit("injectBifrostTools");
    reveal_strlit("skillPaths");
    reveal_strlit("deliveryMode");
    assert("runnerId"@.len() == 8 && "enabled"@.len() == 7 && "adapter"@.len() == 7
        && "instructions"@.len() == 12 && "adapterConfig"@.len() == 13
        && "injectBifrostTools"@.len() == 18 && "skillPaths"@.len() == 10 && "deliveryMode"@.len()
        == 12);
    assert("enabled"@[0] == 'e' && "adapter"@[0] == 'a' && "instructions"@[0] == 'i'
        && "deliveryMode"@[0] == 'd');
}

// ---------------------------------------------------------------------------
// Old names
// ---------------------------------------------------------------------------

/// A runner under an old name of Traex moves to the present one with its settings,
/// and whatever named it follows; other runners stay.
pub proof fn lemma_old_traex_moves(g: GatewayView, provider: Seq<char>, other: Seq<char>)
    requires
        least_key(g.runners.dom(), traex_aliases()) is Some,
        g.channels.contains_key(provider),
    ensures
        ({
            let old_id = least_key(g.runners.dom(), traex_aliases())->Some_0;
            let after = migrated_traex(g);
            &&& after.runners.contains_key("Traex"@)
            &&& !g.runners.contains_key("Traex"@) ==> after.runners["Traex"@] == g.runners[old_id]
            &&& g.runners.contains_key(other) && other != old_id ==> after.runners.contains_key(
                other,
            ) && after.runners[other] == g.runners[other]
            &&& old_id != "Traex"@ ==> !after.runners.contains_key(old_id)
            &&& lowered(g.default_runner_id) == lowered("treex"@) ==> after.default_runner_id
                == "Traex"@
            &&& lowered(g.default_runner_id) != lowered("treex"@) ==> after.default_runner_id
                == g.default_runner_id
            &&& after.channels.contains_key(provider)
            &&& after.channels[provider].enabled == g.channels[provider].enabled
            &&& after.channels[provider].delivery_mode == g.channels[provider].delivery_mode
            &&& g.channels[provider].runner_id matches Some(r) ==> (lowered(r) == lowered("treex"@)
                ==> after.channels[provider].runner_id == Some("Traex"@)) && (lowered(r) != lowered(
                "treex"@,
            ) ==> after.channels[provider].runner_id == Some(r))
        }),
{
    lemma_aliases_have_the_name(g.runners.dom());
}

proof fn lemma_aliases_have_the_name(keys: Set<Seq<char>>)
    requires
        least_key(keys, traex_aliases()) is Some,
    ensures
        ({
            let k = least_key(keys, traex_aliases())->Some_0;
            keys.contains(k) && lowered(k) == lowered("treex"@) && k != "Traex"@
        }),
{
    let k = least_key(keys, traex_aliases())->Some_0;
    if k == "Traex"@ {
        reveal_strlit("Traex");
        reveal_strlit("treex");
        assert(lowered("Traex"@)[2] == 'a');
        assert(lowered("treex"@)[2] == 'e');
    }
}

/// Nothing moves where no runner has an old name.
pub proof fn lemma_present_names_stay(g: GatewayView)
    ensures
        least_key(g.runners.dom(), traex_aliases()) is None ==> migrated_traex(g) == g,
        least_key(g.runners.dom(), claude_aliases()) is None ==> migrated_claude(g) == g,
        traex_alias("treex"@),
        claude_alias("claude_code"@),
{
    reveal_strlit("claude_code");
    assert(lowered("claude_code"@) =~= "claude_code"@);
}

/// The default runner of a gateway is one that it has: a spelling of one becomes its
/// name, and a name that nothing has gets settings of its own.
pub proof fn lemma_default_runner_is_there(g: GatewayView, other: Seq<char>)
    ensures
        with_known_default(g).runners.contains_key(with_known_default(g).default_runner_id),
        g.runners.contains_key(g.default_runner_id) ==> with_known_default(g) == g,
        g.runners.contains_key(other) ==> with_known_default(g).runners.contains_key(other)
            && with_known_default(g).runners[other] == g.runners[other],
        !g.runners.contains_key(g.default_runner_id) && g.runners.contains_key(
            canonical(g.runners.dom(), g.default_runner_id),
        ) ==> with_known_default(g).default_runner_id == canonical(
            g.runners.dom(),
            g.default_runner_id,
        ) && with_known_default(g).runners == g.runners,
        with_known_default(g).channels == g.channels,
{
}

/// Channels that say something are kept as they are, with the white space taken off
/// the runner's name; the others go.
pub proof fn lemma_channels_are_kept(m: Map<Seq<char>, ChannelView>, k: Seq<char>)
    requires
        m.contains_key(k),
    ensures
        kept_channels(m).contains_key(k) <==> m[k].enabled is Some || m[k].delivery_mode is Some
            || cleaned(m[k].runner_id) is Some,
        kept_channels(m).contains_key(k) ==> kept_channels(m)[k].enabled == m[k].enabled
            && kept_channels(m)[k].delivery_mode == m[k].delivery_mode && kept_channels(
            m,
        )[k].runner_id == cleaned(m[k].runner_id),
{
}

/// A channel that is set says what it was set to, and the runners stay.
pub proof fn lemma_channels_are_set(
    g: GatewayView,
    provider: Seq<char>,
    c: ChannelView,
    other: Seq<char>,
)
    ensures
        with_channel(g, provider, c).runners == g.runners,
        with_channel(g, provider, c).default_runner_id == g.default_runner_id,
        c.enabled is Some || c.delivery_mode is Some || cleaned(c.runner_id) is Some
            ==> with_channel(g, provider, c).channels.contains_key(provider) && with_channel(
            g,
            provider,
            c,
        ).channels[provider] == (ChannelView {
            enabled: c.enabled,
            runner_id: cleaned(c.runner_id),
            delivery_mode: c.delivery_mode,
        }),
        !(c.enabled is Some || c.delivery_mode is Some || cleaned(c.runner_id) is Some)
            ==> !with_channel(g, provider, c).channels.contains_key(provider),
        other != provider ==> with_channel(g, provider, c).channels.contains_key(other)
            == g.channels.contains_key(other),
        other != provider && g.channels.contains_key(other) ==> with_channel(
            g,
            provider,
            c,
        ).channels[other] == g.channels[other],
{
}

/// A runner under another spelling of `claude_code` moves to the present name with its
/// settings, and whatever named it follows; other runners stay.
pub proof fn lemma_other_spellings_move(g: GatewayView, provider: Seq<char>, other: Seq<char>)
    requires
        least_key(g.runners.dom(), claude_aliases()) is Some,
        g.channels.contains_key(provider),
    ensures
        ({
            let old_id = least_key(g.runners.dom(), claude_aliases())->Some_0;
            let present = claude_title() + "-Code"@;
            let after = migrated_claude(g);
            &&& after.runners.contains_key(present)
            &&& !g.runners.contains_key(present) ==> after.runners[present] == g.runners[old_id]
            &&& g.runners.contains_key(other) && other != old_id ==> after.runners.contains_key(
                other,
            ) && after.runners[other] == g.runners[other]
            &&& lowered(g.default_runner_id) == lowered(old_id) ==> after.default_runner_id
                == present
            &&& lowered(g.default_runner_id) != lowered(old_id) ==> after.default_runner_id
                == g.default_runner_id
            &&& after.channels.contains_key(provider)
            &&& after.channels[provider].enabled == g.channels[provider].enabled
            &&& g.channels[provider].runner_id matches Some(r) ==> (lowered(r) == lowered(old_id)
                ==> after.channels[provider].runner_id == Some(present)) && (lowered(r) != lowered(
                old_id,
            ) ==> after.channels[provider].runner_id == Some(r))
        }),
{
}

/// The spellings of `claude_code`, whatever the case of their letters.
pub proof fn lemma_spellings(k: Seq<char>)
    ensures
        claude_alias(k) <==> lowered(k) == "claude_code"@ || lowered(k) == "claude_code"@.take(6)
            || lowered(k) == "claude_code"@.take(6) + "-code"@ || lowered(k)
            == "claude_code"@.take(6) + " code"@,
        traex_alias(k) <==> lowered(k) == lowered("treex"@),
{
}

/// A configuration without runners has those of the agents that are known, and one
/// without a default asks Codex.
pub proof fn lemma_empty_configurations(c: ExternalCliGatewayConfig)
    ensures
        shaped(c).version == 1,
        blank(c.default_runner_id@) ==> shaped(c).default_runner_id == "Codex"@,
        !blank(c.default_runner_id@) ==> shaped(c).default_runner_id == trimmed(
            c.default_runner_id@,
        ),
        c.runners@ == Map::<Seq<char>, crate::gateway_config::ExternalCliAgentSettings>::empty()
            ==> shaped(c).runners.contains_key("Codex"@) && shaped(c).runners["Codex"@].adapter
            == "codex"@ && shaped(c).runners["Codex"@].enabled,
        shaped(c).channels == c@.channels,
{
    lemma_default_runners(Map::empty(), "Codex"@);
}

/// A name that neither names a runner nor is a spelling of a known agent stays what it
/// is, and so does a spelling whose agent has no runner.
pub proof fn lemma_unknown_names_stay(runners: Set<Seq<char>>, id: Seq<char>)
    ensures
        ({
            let l = lowered(trimmed(id));
            let codex = l == "codex"@ && runners.contains("Codex"@);
            let traex = (l == "traex"@ || l == "trae"@ || l == lowered("treex"@))
                && runners.contains("Traex"@);
            let claude = claude_alias(trimmed(id)) && runners.contains(claude_runner_id());
            &&& !codex && !traex && !claude ==> canonical(runners, id) == trimmed(id)
            &&& !runners.contains(trimmed(id)) && !codex && !traex && claude ==> canonical(
                runners,
                id,
            ) == claude_runner_id()
        }),
        claude_runner_id() == claude_title() + "-Code"@,
{
}

} // verus!
