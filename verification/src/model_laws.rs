//! What the choice of models is for: which commands choose, what may be chosen and
//! whose choice counts.

use vstd::prelude::*;

use crate::agent_config::{claude_product, claude_word, cleaned, AdapterConfigView};
use crate::json::{json_of_text, member, Tree};
use crate::model_config::{
    claude_files, claude_settings, claude_settings_of_text, claude_settings_path,
    claude_user_settings, config_location, merged, nothing_known, override_text, profile_name,
    resolved_settings, settings_of_file, settings_of_members, toml_document, toml_text,
    user_settings, with_overrides, with_setting, ResolvedView,
};
use crate::models::{
    adapter_label, available_models, catalog_lines, catalog_text, claude_catalog, cleaned_texts,
    command_rest, command_word, default_model_label, effort_catalog, effort_catalog_for_model,
    effort_choice, effort_choice_for_model, effort_fault, effort_options, effort_slash,
    effort_status, efforts_for_model, kept_levels, kept_tiers, knows_models, load_text,
    model_before, model_choice, model_lines, model_of, model_slash, model_status, models_of,
    named_model, quoted_slugs, similar_model, slug_fault, unique_efforts, wrapped, ModelLoad,
    ModelView, RawModel, SlashView,
};
use crate::text::{
    blank, byte_len, cut, decimal, has_prefix, has_suffix, has_text, is_white, is_word, joined,
    lowered, occurs_at, only_letters_digits_and, opt, trim_back, trim_front, trimmed, word_len,
};

verus! {

broadcast use vstd::string::group_string_axioms;

// ---------------------------------------------------------------------------
// Commands
// ---------------------------------------------------------------------------

proof fn lemma_word_before_space(w: Seq<char>, rest: Seq<char>)
    requires
        forall|i: int| 0 <= i < w.len() ==> !is_white(#[trigger] w[i]),
        rest.len() > 0 ==> is_white(rest[0]),
    ensures
        word_len(w + rest) == w.len(),
    decreases w.len(),
{
    let s = w + rest;
    if w.len() > 0 {
        assert(s[0] == w[0]);
        let t = w.drop_first();
        assert forall|i: int| 0 <= i < t.len() implies !is_white(#[trigger] t[i]) by {
            assert(t[i] == w[i + 1]);
        }
        assert(s.drop_first() =~= t + rest);
        lemma_word_before_space(t, rest);
    } else {
        assert(s =~= rest);
    }
}

/// A message of a word and more is the word and the rest, with the white space
/// between them taken off.
pub proof fn lemma_messages_are_split(w: Seq<char>, rest: Seq<char>)
    requires
        is_word(w),
        rest.len() > 0,
        trimmed(rest) == rest,
    ensures
        command_word(w + " "@ + rest) == w,
        command_rest(w + " "@ + rest) == rest,
        command_word(w) == w,
        command_rest(w).len() == 0,
{
    reveal_strlit(" ");
    assert(" "@ =~= seq![' ']);
    let s = w + " "@ + rest;
    crate::text::lemma_trimmed_idempotent(rest);
    assert(!is_white(w[0]));
    assert(s[0] == w[0]);
    assert(trim_front(s) == s);
    assert(s.last() == rest.last());
    assert(trim_back(s) == s);
    assert(s =~= w + (" "@ + rest));
    assert((" "@ + rest)[0] == ' ');
    lemma_word_before_space(w, " "@ + rest);
    assert(s.take(w.len() as int) =~= w);
    assert(s.skip(w.len() as int) =~= " "@ + rest);
    crate::text::lemma_trim_front_of_sum(" "@, rest);
    reveal_with_fuel(trim_front, 2);
    assert(" "@.drop_first() =~= Seq::<char>::empty());
    assert(trim_front(" "@).len() == 0);
    assert(trimmed(" "@ + rest) == trim_back(trim_front(rest)));
    assert(!is_white(w[w.len() - 1]));
    assert(trim_front(w) == w && trim_back(w) == w);
    lemma_word_before_space(w, Seq::empty());
    assert(w + Seq::<char>::empty() =~= w);
    assert(w.take(w.len() as int) =~= w);
    assert(w.skip(w.len() as int) =~= Seq::<char>::empty());
}

proof fn lemma_command_words()
    ensures
        lowered("/model"@) == "/model"@,
        lowered("/models"@) == "/models"@,
        lowered("/effort"@) == "/effort"@,
        lowered("/efforts"@) == "/efforts"@,
        "/model"@ != "/models"@,
        "/effort"@ != "/efforts"@,
        "/model"@ != "/efforts"@,
        "/model"@ != "/effort"@,
        "/models"@ != "/effort"@,
        "/models"@ != "/efforts"@,
{
    reveal_strlit("/model");
    reveal_strlit("/models");
    reveal_strlit("/effort");
    reveal_strlit("/efforts");
    assert("/model"@.len() == 6 && "/models"@.len() == 7 && "/effort"@.len() == 7
        && "/efforts"@.len() == 8);
    assert("/models"@[1] == 'm' && "/effort"@[1] == 'e');
    assert(lowered("/model"@) =~= "/model"@);
    assert(lowered("/models"@) =~= "/models"@);
    assert(lowered("/effort"@) =~= "/effort"@);
    assert(lowered("/efforts"@) =~= "/efforts"@);
}

/// The commands for models: `/models` lists, `/model` shows, `/model` with a word for
/// nothing clears, and with a name chooses it, unless it cannot be a name. Any other
/// message is none of them.
pub proof fn lemma_model_commands(message: Seq<char>)
    ensures
        ({
            let word = lowered(command_word(message));
            let rest = command_rest(message);
            &&& word != "/model"@ && word != "/models"@ ==> model_slash(message) is None
            &&& word == "/models"@ && rest.len() == 0 ==> model_slash(message) == Some(
                Ok::<SlashView, Seq<char>>(SlashView::List),
            )
            &&& word == "/models"@ && rest.len() > 0 ==> (model_slash(message) matches Some(Err(_)))
            &&& word == "/model"@ && rest.len() == 0 ==> model_slash(message) == Some(
                Ok::<SlashView, Seq<char>>(SlashView::Show),
            )
            &&& word == "/model"@ && (lowered(rest) == "clear"@ || lowered(rest) == "reset"@
                || lowered(rest) == "default"@) ==> model_slash(message) == Some(
                Ok::<SlashView, Seq<char>>(SlashView::Clear),
            )
            &&& word == "/model"@ && rest.len() > 0 && lowered(rest) != "clear"@ && lowered(rest)
                != "reset"@ && lowered(rest) != "default"@ && slug_fault(rest) is None
                ==> model_slash(message) == Some(Ok::<SlashView, Seq<char>>(SlashView::Select(rest)))
            &&& word == "/model"@ && rest.len() > 0 && lowered(rest) != "clear"@ && lowered(rest)
                != "reset"@ && lowered(rest) != "default"@ ==> (slug_fault(rest) matches Some(e)
                ==> model_slash(message) == Some(Err::<SlashView, Seq<char>>(e)))
        }),
{
    lemma_command_words();
    lemma_words_for_nothing(command_rest(message));
}

proof fn lemma_words_for_nothing(rest: Seq<char>)
    ensures
        lowered(rest) == "clear"@ ==> rest.len() > 0,
        lowered(rest) == "reset"@ ==> rest.len() > 0,
        lowered(rest) == "default"@ ==> rest.len() > 0,
        lowered(rest) == "auto"@ ==> rest.len() > 0,
{
    reveal_strlit("clear");
    reveal_strlit("reset");
    reveal_strlit("default");
    reveal_strlit("auto");
    assert("clear"@.len() == 5 && "reset"@.len() == 5 && "default"@.len() == 7 && "auto"@.len()
        == 4);
    assert(lowered(rest).len() == rest.len());
}

/// The commands for efforts, in the same way; an effort is chosen in small letters.
pub proof fn lemma_effort_commands(message: Seq<char>)
    ensures
        ({
            let word = lowered(command_word(message));
            let rest = command_rest(message);
            &&& word != "/effort"@ && word != "/efforts"@ ==> effort_slash(message) is None
            &&& word == "/efforts"@ && rest.len() == 0 ==> effort_slash(message) == Some(
                Ok::<SlashView, Seq<char>>(SlashView::List),
            )
            &&& word == "/efforts"@ && rest.len() > 0 ==> (effort_slash(message) matches Some(
                Err(_),
            ))
            &&& word == "/effort"@ && rest.len() == 0 ==> effort_slash(message) == Some(
                Ok::<SlashView, Seq<char>>(SlashView::Show),
            )
            &&& word == "/effort"@ && (lowered(rest) == "clear"@ || lowered(rest) == "reset"@
                || lowered(rest) == "default"@ || lowered(rest) == "auto"@) ==> effort_slash(message)
                == Some(Ok::<SlashView, Seq<char>>(SlashView::Clear))
            &&& word == "/effort"@ && rest.len() > 0 && lowered(rest) != "clear"@ && lowered(rest)
                != "reset"@ && lowered(rest) != "default"@ && lowered(rest) != "auto"@
                && effort_fault(rest) is None ==> effort_slash(message) == Some(
                Ok::<SlashView, Seq<char>>(SlashView::Select(lowered(rest))),
            )
            &&& word == "/effort"@ && rest.len() > 0 && lowered(rest) != "clear"@ && lowered(rest)
                != "reset"@ && lowered(rest) != "default"@ && lowered(rest) != "auto"@ ==> (
            effort_fault(rest) matches Some(e) ==> effort_slash(message) == Some(
                Err::<SlashView, Seq<char>>(e),
            ))
        }),
{
    lemma_command_words();
    lemma_words_for_nothing(command_rest(message));
}

/// What can be the name of a model, and what a level of effort.
pub proof fn lemma_names_that_can_be(value: Seq<char>)
    ensures
        slug_fault(value) is None <==> !blank(value) && byte_len(trimmed(value)) <= 128
            && only_letters_digits_and(trimmed(value), "._-/:@"@),
        effort_fault(value) is None <==> !blank(value) && byte_len(trimmed(value)) <= 32
            && only_letters_digits_and(trimmed(value), "_-"@),
{
}

// ---------------------------------------------------------------------------
// Adapters
// ---------------------------------------------------------------------------

proof fn lemma_adapter_names()
    ensures
        "codex"@ != "traex"@,
        "codex"@ != "claude_code"@,
        "traex"@ != "claude_code"@,
{
    reveal_strlit("codex");
    reveal_strlit("traex");
    reveal_strlit("claude_code");
    assert("codex"@[0] == 'c' && "traex"@[0] == 't' && "codex"@.len() == 5 && "claude_code"@.len()
        == 11 && "traex"@.len() == 5);
}

/// What the agents are called, and what they are said to use when nothing is chosen.
pub proof fn lemma_agents(adapter: Seq<char>)
    ensures
        trimmed(adapter) == "codex"@ ==> adapter_label(adapter) == "Codex"@ && default_model_label(
            adapter,
        ) == Some(("Codex default model (not explicitly configured)"@, "codex default"@)),
        trimmed(adapter) == "traex"@ ==> adapter_label(adapter) == "Traex"@ && default_model_label(
            adapter,
        ) == Some(("Trae default model (not explicitly configured)"@, "trae default"@)),
        trimmed(adapter) == "claude_code"@ ==> adapter_label(adapter) == claude_product()
            && default_model_label(adapter) == Some(
            (
                claude_product() + " default model (not explicitly configured)"@,
                claude_word() + " code default"@,
            ),
        ),
        knows_models(adapter) <==> trimmed(adapter) == "codex"@ || trimmed(adapter) == "traex"@
            || trimmed(adapter) == "claude_code"@,
        !knows_models(adapter) ==> adapter_label(adapter) == "External CLI"@ && default_model_label(
            adapter,
        ) is None && effort_options(adapter).len() == 0,
{
    lemma_adapter_names();
}

/// The levels of effort, from the least to the most.
pub proof fn lemma_levels(adapter: Seq<char>)
    ensures
        trimmed(adapter) == "codex"@ || trimmed(adapter) == "traex"@ ==> effort_options(adapter)
            == seq!["minimal"@, "low"@, "medium"@, "high"@, "xhigh"@],
        trimmed(adapter) == "claude_code"@ ==> effort_options(adapter) == seq![
            "low"@,
            "medium"@,
            "high"@,
            "xhigh"@,
            "max"@,
        ],
{
    lemma_adapter_names();
}

// ---------------------------------------------------------------------------
// What may be chosen
// ---------------------------------------------------------------------------

proof fn lemma_named_model(models: Seq<ModelView>, slug: Seq<char>)
    ensures
        named_model(models, slug) is Some <==> exists|i: int|
            0 <= i < models.len() && (#[trigger] models[i]).slug == slug,
    decreases models.len(),
{
    if models.len() > 0 {
        let tail = models.drop_first();
        lemma_named_model(tail, slug);
        if exists|i: int| 0 <= i < tail.len() && (#[trigger] tail[i]).slug == slug {
            let i = choose|i: int| 0 <= i < tail.len() && (#[trigger] tail[i]).slug == slug;
            assert(models[i + 1].slug == slug);
        }
        if exists|i: int| 0 <= i < models.len() && (#[trigger] models[i]).slug == slug {
            let i = choose|i: int| 0 <= i < models.len() && (#[trigger] models[i]).slug == slug;
            if i > 0 {
                assert(tail[i - 1].slug == slug);
            }
        }
    }
}

proof fn lemma_similar_model(models: Seq<ModelView>, at: int, slug: Seq<char>)
    ensures
        0 <= at < models.len() && lowered(models[at].slug) == lowered(slug) && (forall|i: int|
            0 <= i < at ==> lowered((#[trigger] models[i]).slug) != lowered(slug))
            ==> similar_model(models, slug) == Some(models[at]),
        (forall|i: int|
            0 <= i < models.len() ==> lowered((#[trigger] models[i]).slug) != lowered(slug))
            ==> similar_model(models, slug) is None,
    decreases models.len(),
{
    if models.len() > 0 {
        let tail = models.drop_first();
        lemma_similar_model(tail, at - 1, slug);
        if 0 < at < models.len() && (forall|i: int|
            0 <= i < at ==> lowered((#[trigger] models[i]).slug) != lowered(slug)) {
            assert(lowered(models[0].slug) != lowered(slug));
            assert(tail[at - 1] == models[at]);
            assert forall|i: int| 0 <= i < at - 1 implies lowered((#[trigger] tail[i]).slug)
                != lowered(slug) by {
                assert(tail[i] == models[i + 1]);
            }
        }
        if forall|i: int|
            0 <= i < models.len() ==> lowered((#[trigger] models[i]).slug) != lowered(slug) {
            assert(lowered(models[0].slug) != lowered(slug));
            assert forall|i: int| 0 <= i < tail.len() implies lowered((#[trigger] tail[i]).slug)
                != lowered(slug) by {
                assert(tail[i] == models[i + 1]);
            }
        }
    }
}

/// Codex and Traex take a model just where their catalog has it, by its name.
pub proof fn lemma_models_of_the_catalog(
    adapter: Seq<char>,
    requested: Seq<char>,
    models: Seq<ModelView>,
)
    requires
        trimmed(adapter) != "claude_code"@,
    ensures
        model_choice(adapter, requested, models) is Ok <==> exists|i: int|
            0 <= i < models.len() && (#[trigger] models[i]).slug == trimmed(requested),
        model_choice(adapter, requested, models) matches Ok(m) ==> m == trimmed(requested),
{
    lemma_named_model(models, trimmed(requested));
}

/// `claude_code` takes every name that can be one: in the catalog's spelling where
/// the catalog has it, else as it was written.
pub proof fn lemma_models_by_name(
    adapter: Seq<char>,
    requested: Seq<char>,
    models: Seq<ModelView>,
    at: int,
)
    requires
        trimmed(adapter) == "claude_code"@,
    ensures
        slug_fault(trimmed(requested)) is Some ==> model_choice(adapter, requested, models) == Err::<
            Seq<char>,
            Seq<char>,
        >(slug_fault(trimmed(requested))->Some_0),
        slug_fault(trimmed(requested)) is None && 0 <= at < models.len() && lowered(models[at].slug)
            == lowered(trimmed(requested)) && (forall|i: int|
            0 <= i < at ==> lowered((#[trigger] models[i]).slug) != lowered(trimmed(requested)))
            ==> model_choice(adapter, requested, models) == Ok::<Seq<char>, Seq<char>>(
            models[at].slug,
        ),
        slug_fault(trimmed(requested)) is None && (forall|i: int|
            0 <= i < models.len() ==> lowered((#[trigger] models[i]).slug) != lowered(
                trimmed(requested),
            )) ==> model_choice(adapter, requested, models) == Ok::<Seq<char>, Seq<char>>(
            trimmed(requested),
        ),
{
    lemma_similar_model(models, at, trimmed(requested));
}

/// A level is taken just where it can be one and is among those that are offered,
/// however it was written.
pub proof fn lemma_levels_that_are_offered(
    adapter: Seq<char>,
    requested: Seq<char>,
    effective: Option<Seq<char>>,
    models: Seq<ModelView>,
)
    ensures
        ({
            let level = lowered(trimmed(requested));
            &&& effort_choice(adapter, requested) is Ok <==> effort_fault(level) is None
                && effort_options(adapter).contains(level)
            &&& effort_choice(adapter, requested) matches Ok(e) ==> e == level
            &&& effort_choice_for_model(adapter, requested, effective, models) is Ok
                <==> effort_fault(level) is None && efforts_for_model(
                adapter,
                effective,
                models,
            ).contains(level)
            &&& effort_choice_for_model(adapter, requested, effective, models) matches Ok(e) ==> e
                == level
        }),
{
}

/// Levels are offered once each, in small letters and in their order.
pub proof fn lemma_levels_are_offered_once(values: Seq<Seq<char>>, value: Seq<char>)
    ensures
        unique_efforts(Seq::<Seq<char>>::empty()).len() == 0,
        blank(value) ==> unique_efforts(values.push(value)) == unique_efforts(values),
        !blank(value) && unique_efforts(values).contains(lowered(trimmed(value)))
            ==> unique_efforts(values.push(value)) == unique_efforts(values),
        !blank(value) && !unique_efforts(values).contains(lowered(trimmed(value)))
            ==> unique_efforts(values.push(value)) == unique_efforts(values).push(
            lowered(trimmed(value)),
        ),
{
    assert(values.push(value).drop_last() =~= values);
}

/// A model that says which levels it has offers those; without a model, or with one
/// that does not say, the agent's own are offered.
pub proof fn lemma_whose_levels(
    adapter: Seq<char>,
    effective: Seq<char>,
    models: Seq<ModelView>,
    at: int,
)
    ensures
        efforts_for_model(adapter, None, models) == unique_efforts(effort_options(adapter)),
        !blank(effective) && 0 <= at < models.len() && lowered(models[at].slug) == lowered(
            trimmed(effective),
        ) && (forall|i: int|
            0 <= i < at ==> lowered((#[trigger] models[i]).slug) != lowered(trimmed(effective)))
            && unique_efforts(
            crate::models::level_names(models[at].supported_reasoning_levels),
        ).len() > 0 ==> efforts_for_model(adapter, Some(effective), models) == unique_efforts(
            crate::models::level_names(models[at].supported_reasoning_levels),
        ),
        (forall|i: int|
            0 <= i < models.len() ==> lowered((#[trigger] models[i]).slug) != lowered(
                trimmed(effective),
            )) ==> efforts_for_model(adapter, Some(effective), models) == unique_efforts(
            effort_options(adapter),
        ),
{
    lemma_similar_model(models, at, trimmed(effective));
}

// ---------------------------------------------------------------------------
// Catalogs
// ---------------------------------------------------------------------------

/// A model is shown where it has a name and nothing says that it is not listed.
pub proof fn lemma_models_that_are_shown(raw: RawModel)
    ensures
        model_of(raw) is Some <==> cleaned(opt(raw.slug)) is Some && (raw.visibility is None
            || lowered(trimmed(raw.visibility->Some_0@)) == lowered("list"@)),
        model_of(raw) matches Some(m) ==> Some(m.slug) == cleaned(opt(raw.slug)) && m.display_name
            == cleaned(opt(raw.display_name)) && m.description == cleaned(opt(raw.description))
            && m.default_reasoning_level == cleaned(opt(raw.default_reasoning_level)) && m.priority
            == raw.priority && m.supported_in_api == raw.supported_in_api,
{
}

/// The catalog has a model for every entry that is shown, in their order before they
/// are ranked.
pub proof fn lemma_entries_become_models(raws: Seq<RawModel>, raw: RawModel)
    ensures
        models_of(Seq::<RawModel>::empty()).len() == 0,
        models_of(raws.push(raw)) == (match model_of(raw) {
            Some(m) => models_of(raws).push(m),
            None => models_of(raws),
        }),
{
    assert(raws.push(raw).drop_last() =~= raws);
}

/// Models with a smaller number come first, models without one last, and equal ones
/// by their names.
pub proof fn lemma_rank_of_models(a: ModelView, b: ModelView, x: i64, y: i64)
    requires
        a.priority == Some(x),
    ensures
        b.priority == Some(y) && x < y ==> model_before(a, b) && !model_before(b, a),
        b.priority is None && x < i64::MAX ==> model_before(a, b) && !model_before(b, a),
        b.priority == Some(x) ==> (model_before(a, b) <==> crate::map::text_less(a.slug, b.slug)),
{
}

/// Levels and tiers without a name are left out, and the others stay in their order.
pub proof fn lemma_levels_and_tiers(
    levels: Seq<(Seq<char>, Option<Seq<char>>)>,
    level: (Seq<char>, Option<Seq<char>>),
    tiers: Seq<(Seq<char>, Option<Seq<char>>, Option<Seq<char>>)>,
    tier: (Seq<char>, Option<Seq<char>>, Option<Seq<char>>),
    values: Seq<Seq<char>>,
    value: Seq<char>,
)
    ensures
        blank(level.0) ==> kept_levels(levels.push(level)) == kept_levels(levels),
        !blank(level.0) ==> kept_levels(levels.push(level)) == kept_levels(levels).push(level),
        blank(tier.0) ==> kept_tiers(tiers.push(tier)) == kept_tiers(tiers),
        !blank(tier.0) ==> kept_tiers(tiers.push(tier)) == kept_tiers(tiers).push(tier),
        blank(value) ==> cleaned_texts(values.push(value)) == cleaned_texts(values),
        !blank(value) ==> cleaned_texts(values.push(value)) == cleaned_texts(values).push(
            trimmed(value),
        ),
{
    assert(levels.push(level).drop_last() =~= levels);
    assert(tiers.push(tier).drop_last() =~= tiers);
    assert(values.push(value).drop_last() =~= values);
}

/// A load is shown as a percentage, with the sign written once.
pub proof fn lemma_loads(s: String)
    ensures
        load_text(None) is None,
        load_text(Some(ModelLoad::Percent(s))) == Some(s@),
        blank(s@) ==> load_text(Some(ModelLoad::Text(s))) is None,
        !blank(s@) && has_suffix(trimmed(s@), "%"@) ==> load_text(Some(ModelLoad::Text(s))) == Some(
            trimmed(s@),
        ),
        !blank(s@) && !has_suffix(trimmed(s@), "%"@) ==> load_text(Some(ModelLoad::Text(s))) == Some(
            trimmed(s@) + "%"@,
        ),
{
}

/// The models that `claude_code` is known to have, the usual one first.
pub proof fn lemma_known_models()
    ensures
        claude_catalog().len() == 4,
        claude_catalog()[0].slug == "sonnet"@,
        claude_catalog()[1].slug == "opus"@,
        claude_catalog()[2].slug == "haiku"@,
        claude_catalog()[3].slug == "fable"@,
        claude_catalog()[0].default_reasoning_level == Some("medium"@),
        claude_catalog()[1].default_reasoning_level == Some("high"@),
        claude_catalog()[0].priority == Some(0i64),
        claude_catalog()[3].priority == Some(3i64),
        forall|i: int|
            0 <= i < 4 ==> crate::models::level_names(
                (#[trigger] claude_catalog()[i]).supported_reasoning_levels,
            ) == effort_options("claude_code"@),
{
    assert forall|i: int| 0 <= i < 4 implies crate::models::level_names(
        (#[trigger] claude_catalog()[i]).supported_reasoning_levels,
    ) == effort_options("claude_code"@) by {
        let l = claude_catalog()[i].supported_reasoning_levels;
        assert(claude_catalog()[i] == claude_catalog()[0] || claude_catalog()[i]
            == claude_catalog()[1] || claude_catalog()[i] == claude_catalog()[2]
            || claude_catalog()[i] == claude_catalog()[3]);
        assert(crate::models::level_names(l) =~= effort_options("claude_code"@));
    }
}

/// A catalog is shown model by model, each with its name, at most forty of them.
pub proof fn lemma_catalogs_are_shown(adapter: Seq<char>, models: Seq<ModelView>, m: ModelView)
    ensures
        catalog_lines(models.push(m)) == catalog_lines(models) + model_lines(m),
        model_lines(m).len() > 0,
        has_text(model_lines(m)[0], m.slug),
        m.display_name matches Some(n) ==> has_text(model_lines(m)[0], n),
        m.description is None ==> model_lines(m).len() == 1,
        m.description matches Some(d) ==> model_lines(m).len() == 2 && model_lines(m)[1] == "  "@
            + cut(d, 140),
        0 < models.len() <= 40 ==> catalog_text(adapter, models) == joined(
            seq![adapter_label(adapter) + " 可用模型:"@] + catalog_lines(models),
            "\n"@,
        ),
        models.len() > 40 ==> catalog_text(adapter, models) == joined(
            seq![adapter_label(adapter) + " 可用模型:"@] + catalog_lines(models.take(40)) + seq![
                "... 另有 "@ + decimal((models.len() - 40) as nat) + " 个模型未展示"@,
            ],
            "\n"@,
        ),
        models.len() == 0 ==> catalog_text(adapter, models) == adapter_label(adapter)
            + " 当前没有返回可展示的模型。"@,
{
    assert(models.push(m).drop_last() =~= models);
    let line = model_lines(m)[0];
    let a = "- `"@;
    let name = crate::progress::or_text(m.display_name, m.slug);
    let n = a.len() as int;
    assert(line.subrange(n, n + m.slug.len()) =~= m.slug);
    assert(occurs_at(line, m.slug, n));
    let k = (a + m.slug + "` - "@).len() as int;
    assert(line.subrange(k, k + name.len()) =~= name);
    assert(occurs_at(line, name, k));
    let head = seq![adapter_label(adapter) + " 可用模型:"@] + catalog_lines(models);
    assert(head + Seq::<Seq<char>>::empty() =~= head);
}

/// What is used is told with where it comes from, and the runner that uses it.
pub proof fn lemma_status_of_runners(
    adapter: Seq<char>,
    value: Seq<char>,
    source: Seq<char>,
    runner_id: Seq<char>,
)
    requires
        !blank(value),
    ensures
        has_text(model_status(adapter, Some(value), Some(source), runner_id), trimmed(value)),
        has_suffix(model_status(adapter, Some(value), Some(source), runner_id), source),
        has_text(model_status(adapter, Some(value), Some(source), runner_id), runner_id),
        has_text(effort_status(adapter, Some(value), Some(source), runner_id), trimmed(value)),
        has_suffix(effort_status(adapter, Some(value), Some(source), runner_id), source),
        has_text(model_status(adapter, None, Some(source), runner_id), runner_id),
{
    let label = adapter_label(adapter);
    let v = trimmed(value);
    let head = "当前 "@ + label + " Runner `"@;
    lemma_status_holds(head, runner_id, "` 使用模型: `"@, v, "`\n来源: "@, source);
    lemma_status_holds(head, runner_id, "` 使用 Reasoning Effort: `"@, v, "`\n来源: "@, source);
    let none = model_status(adapter, None, Some(source), runner_id);
    let n = head.len() as int;
    assert(none.subrange(n, n + runner_id.len()) =~= runner_id);
    assert(occurs_at(none, runner_id, n));
}

proof fn lemma_status_holds(
    head: Seq<char>,
    runner: Seq<char>,
    what: Seq<char>,
    value: Seq<char>,
    from: Seq<char>,
    source: Seq<char>,
)
    ensures
        has_text(head + runner + what + value + from + source, value),
        has_text(head + runner + what + value + from + source, runner),
        has_suffix(head + runner + what + value + from + source, source),
{
    let s = head + runner + what + value + from + source;
    let n = head.len() as int;
    assert(s.subrange(n, n + runner.len()) =~= runner);
    assert(occurs_at(s, runner, n));
    let k = (head + runner + what).len() as int;
    assert(s.subrange(k, k + value.len()) =~= value);
    assert(occurs_at(s, value, k));
    assert(s.subrange(s.len() - source.len(), s.len() as int) =~= source);
}

// ---------------------------------------------------------------------------
// Whose choice counts
// ---------------------------------------------------------------------------

/// A file says its model, its provider, its effort and its summary; the longer names
/// of the last two go first.
pub proof fn lemma_what_files_say(
    members: Seq<(Seq<char>, Option<Seq<char>>)>,
    source: Seq<char>,
)
    ensures
        ({
            let s = settings_of_members(members, source);
            &&& s.model == cleaned(toml_text(members, "model"@))
            &&& s.model_provider == cleaned(toml_text(members, "model_provider"@))
            &&& cleaned(toml_text(members, "model_reasoning_effort"@)) is Some
                ==> s.reasoning_effort == cleaned(toml_text(members, "model_reasoning_effort"@))
            &&& cleaned(toml_text(members, "model_reasoning_effort"@)) is None
                ==> s.reasoning_effort == cleaned(toml_text(members, "reasoning_effort"@))
            &&& cleaned(toml_text(members, "model_reasoning_summary"@)) is Some
                ==> s.reasoning_summary == cleaned(toml_text(members, "model_reasoning_summary"@))
            &&& cleaned(toml_text(members, "model_reasoning_summary"@)) is None
                ==> s.reasoning_summary == cleaned(toml_text(members, "reasoning_summary"@))
            &&& s.model_source == Some(source)
            &&& s.reasoning_source == Some(source)
        }),
{
}

/// A member of a file is the first with its name.
pub proof fn lemma_members_of_files(
    members: Seq<(Seq<char>, Option<Seq<char>>)>,
    at: int,
    key: Seq<char>,
)
    ensures
        0 <= at < members.len() && members[at].0 == key && (forall|i: int|
            0 <= i < at ==> (#[trigger] members[i]).0 != key) ==> toml_text(members, key)
            == members[at].1,
        (forall|i: int| 0 <= i < members.len() ==> (#[trigger] members[i]).0 != key) ==> toml_text(
            members,
            key,
        ) is None,
    decreases members.len(),
{
    if members.len() > 0 {
        let tail = members.drop_first();
        lemma_members_of_files(tail, at - 1, key);
        if 0 < at < members.len() && (forall|i: int| 0 <= i < at ==> (#[trigger] members[i]).0 != key) {
            assert(members[0].0 != key);
            assert(tail[at - 1] == members[at]);
            assert forall|i: int| 0 <= i < at - 1 implies (#[trigger] tail[i]).0 != key by {
                assert(tail[i] == members[i + 1]);
            }
        }
        if forall|i: int| 0 <= i < members.len() ==> (#[trigger] members[i]).0 != key {
            assert(members[0].0 != key);
            assert forall|i: int| 0 <= i < tail.len() implies (#[trigger] tail[i]).0 != key by {
                assert(tail[i] == members[i + 1]);
            }
        }
    }
}

/// A file that cannot be read says nothing.
pub proof fn lemma_unreadable_files(content: Seq<char>, source: Seq<char>)
    ensures
        settings_of_file(None, source) == nothing_known(),
        toml_document(content) is None ==> settings_of_file(Some(content), source)
            == nothing_known(),
        toml_document(content) matches Some(m) ==> settings_of_file(Some(content), source)
            == settings_of_members(m, source),
        json_of_text(content) is None ==> claude_settings_of_text(content, source)
            == nothing_known(),
{
}

/// Of two, the one on top counts where it says something, and says so.
pub proof fn lemma_the_one_on_top(base: ResolvedView, top: ResolvedView)
    ensures
        ({
            let m = merged(base, top);
            &&& top.model is Some ==> m.model == top.model && m.model_source == top.model_source
            &&& top.model is None ==> m.model == base.model && m.model_source == base.model_source
            &&& top.model_provider is Some ==> m.model_provider == top.model_provider
            &&& top.model_provider is None ==> m.model_provider == base.model_provider
            &&& top.reasoning_effort is Some ==> m.reasoning_effort == top.reasoning_effort
                && m.reasoning_source == top.reasoning_source
            &&& top.reasoning_effort is None ==> m.reasoning_effort == base.reasoning_effort
            &&& top.reasoning_summary is Some ==> m.reasoning_summary == top.reasoning_summary
                && m.reasoning_source == top.reasoning_source
            &&& top.reasoning_summary is None ==> m.reasoning_summary == base.reasoning_summary
            &&& top.reasoning_effort is None && top.reasoning_summary is None
                ==> m.reasoning_source == base.reasoning_source
        }),
{
}

/// A profile is read on top of the file, where one is named; the newer kind of
/// profile goes first.
pub proof fn lemma_profiles(
    base: Option<Seq<char>>,
    profile: Option<Seq<char>>,
    c: AdapterConfigView,
    source: Seq<char>,
)
    ensures
        cleaned(c.profile_v2) is Some ==> profile_name(c) == cleaned(c.profile_v2),
        cleaned(c.profile_v2) is None ==> profile_name(c) == cleaned(c.profile),
        profile_name(c) is None ==> user_settings(base, profile, c, source) == settings_of_file(
            base,
            source,
        ),
        profile_name(c) is Some ==> user_settings(base, profile, c, source) == merged(
            settings_of_file(base, source),
            settings_of_file(profile, source),
        ),
{
}

proof fn lemma_setting_names()
    ensures
        "model"@ != "model_provider"@,
        "model_reasoning_effort"@ != "model"@,
        "model_reasoning_effort"@ != "model_provider"@,
        "reasoning_effort"@ != "model"@,
        "reasoning_effort"@ != "model_provider"@,
        "model_reasoning_summary"@ != "model"@,
        "model_reasoning_summary"@ != "model_provider"@,
        "model_reasoning_summary"@ != "model_reasoning_effort"@,
        "model_reasoning_summary"@ != "reasoning_effort"@,
        "reasoning_summary"@ != "model"@,
        "reasoning_summary"@ != "model_provider"@,
        "reasoning_summary"@ != "model_reasoning_effort"@,
        "reasoning_summary"@ != "reasoning_effort"@,
{
    reveal_strlit("model");
    reveal_strlit("model_provider");
    reveal_strlit("model_reasoning_effort");
    reveal_strlit("reasoning_effort");
    reveal_strlit("model_reasoning_summary");
    reveal_strlit("reasoning_summary");
    assert("model"@.len() == 5 && "model_provider"@.len() == 14 && "model_reasoning_effort"@.len()
        == 22 && "reasoning_effort"@.len() == 16 && "model_reasoning_summary"@.len() == 23
        && "reasoning_summary"@.len() == 17);
}

/// A setting of the runner changes what it names and nothing else.
pub proof fn lemma_settings_of_the_runner(base: ResolvedView, key: Seq<char>, value: Seq<char>)
    ensures
        ({
            let s = with_setting(base, key, value);
            let model = key == "model"@;
            let provider = key == "model_provider"@;
            let effort = key == "model_reasoning_effort"@ || key == "reasoning_effort"@;
            let summary = key == "model_reasoning_summary"@ || key == "reasoning_summary"@;
            &&& model ==> s.model == Some(value) && s.model_source == Some("runner config"@)
            &&& !model ==> s.model == base.model && s.model_source == base.model_source
            &&& provider ==> s.model_provider == Some(value)
            &&& !provider ==> s.model_provider == base.model_provider
            &&& effort ==> s.reasoning_effort == Some(value) && s.reasoning_source == Some(
                "runner config"@,
            )
            &&& !effort ==> s.reasoning_effort == base.reasoning_effort
            &&& summary ==> s.reasoning_summary == Some(value) && s.reasoning_source == Some(
                "runner config"@,
            )
            &&& !summary ==> s.reasoning_summary == base.reasoning_summary
            &&& !effort && !summary ==> s.reasoning_source == base.reasoning_source
        }),
{
    lemma_setting_names();
}

/// Overrides are taken one behind the other, the last counts; one without an equals
/// sign or without a value says nothing.
pub proof fn lemma_overrides_in_order(
    base: ResolvedView,
    overrides: Seq<Seq<char>>,
    key: Seq<char>,
    raw: Seq<char>,
)
    requires
        !key.contains('='),
    ensures
        with_overrides(base, Seq::empty()) == base,
        override_text(raw) matches Some(v) ==> with_overrides(
            base,
            overrides.push(key + "="@ + raw),
        ) == with_setting(with_overrides(base, overrides), trimmed(key), v),
        override_text(raw) is None ==> with_overrides(base, overrides.push(key + "="@ + raw))
            == with_overrides(base, overrides),
        with_overrides(base, overrides.push(key)) == with_overrides(base, overrides),
        blank(raw) ==> override_text(raw) is None,
{
    reveal_strlit("=");
    assert("="@ =~= seq!['=']);
    crate::text_laws::lemma_splitting(key, '=', raw);
    crate::text_laws::lemma_nothing_to_split(key, '=');
    assert(overrides.push(key + "="@ + raw).drop_last() =~= overrides);
    assert(overrides.push(key).drop_last() =~= overrides);
}

/// What the runner is set to goes before its overrides, and those before what the
/// user has; the user's are left out where the runner says so.
pub proof fn lemma_runner_then_overrides_then_user(user: ResolvedView, c: AdapterConfigView)
    ensures
        ({
            let r = resolved_settings(user, c);
            let under = with_overrides(
                if c.ignore_user_config == Some(true) {
                    nothing_known()
                } else {
                    user
                },
                c.config_overrides,
            );
            &&& cleaned(c.model) is None ==> r.model == under.model && r.model_source
                == under.model_source
            &&& cleaned(c.reasoning_effort) is None ==> r.reasoning_effort
                == under.reasoning_effort
            &&& cleaned(c.reasoning_summary) matches Some(s) ==> r.reasoning_summary == Some(s)
                && r.reasoning_source == Some("runner config"@)
            &&& cleaned(c.reasoning_summary) is None ==> r.reasoning_summary
                == under.reasoning_summary
            &&& cleaned(c.reasoning_effort) is None && cleaned(c.reasoning_summary) is None
                ==> r.reasoning_source == under.reasoning_source
            &&& r.model_provider == under.model_provider
        }),
{
}

/// Where the settings of a user are kept.
pub proof fn lemma_where_settings_are(adapter: Seq<char>)
    ensures
        trimmed(adapter) == "codex"@ ==> (config_location(adapter) matches Some(l)
            && l.home_variables == seq!["CODEX_HOME"@] && l.default_dir == ".codex"@ && l.file_name
            == "config.toml"@ && l.profile_suffix == ".config.toml"@ && l.source == "codex config"@),
        trimmed(adapter) == "traex"@ ==> (config_location(adapter) matches Some(l)
            && l.home_variables == seq!["TRAE_HOME"@, "TRAEX_HOME"@] && l.default_dir == ".trae"@
            && l.file_name == "traecli.toml"@ && l.profile_suffix == ".traecli.toml"@ && l.source
            == "trae config"@),
        trimmed(adapter) != "codex"@ && trimmed(adapter) != "traex"@ ==> config_location(
            adapter,
        ) is None,
{
    lemma_adapter_names();
}

/// The effort of `claude_code`: the environment of its settings goes before the
/// settings, and the newer name before the older.
pub proof fn lemma_efforts_of_settings(value: Tree, source: Seq<char>, env: Tree, t: Seq<char>)
    requires
        !blank(t),
    ensures
        member(value, "env"@) == Some(env) && member(env, "CLAUDE_CODE_EFFORT_LEVEL"@) == Some(
            Tree::Text(t),
        ) ==> claude_settings(value, source).reasoning_effort == Some(trimmed(t)),
        member(value, "env"@) == Some(env) && member(env, "CLAUDE_CODE_EFFORT_LEVEL"@) is None
            && member(env, "CLAUDE_EFFORT"@) == Some(Tree::Text(t)) ==> claude_settings(
            value,
            source,
        ).reasoning_effort == Some(trimmed(t)),
        member(value, "env"@) is None && member(value, "effortLevel"@) == Some(Tree::Text(t))
            ==> claude_settings(value, source).reasoning_effort == Some(trimmed(t)),
        member(value, "env"@) is None && member(value, "effortLevel"@) is None && member(
            value,
            "effort_level"@,
        ) == Some(Tree::Text(t)) ==> claude_settings(value, source).reasoning_effort == Some(
            trimmed(t),
        ),
        claude_settings(value, source).reasoning_source == Some(source),
        claude_settings(value, source).model is None,
{
}

/// Files are read one on top of the other; the environment of the process counts
/// more than they, and that of the runner more than both.
pub proof fn lemma_efforts_in_order(
    contents: Seq<Seq<char>>,
    content: Seq<char>,
    level: Seq<char>,
    effort: Option<Seq<char>>,
    env: Map<Seq<char>, Seq<char>>,
)
    ensures
        claude_files(Seq::<Seq<char>>::empty()) == nothing_known(),
        claude_files(contents.push(content)) == merged(
            claude_files(contents),
            claude_settings_of_text(content, claude_word() + " settings"@),
        ),
        env.contains_key("CLAUDE_CODE_EFFORT_LEVEL"@) && !blank(env["CLAUDE_CODE_EFFORT_LEVEL"@])
            ==> claude_user_settings(contents, Some(level), effort, env).reasoning_effort == Some(
            trimmed(env["CLAUDE_CODE_EFFORT_LEVEL"@]),
        ) && claude_user_settings(contents, Some(level), effort, env).reasoning_source == Some(
            "runner config"@,
        ),
        !env.contains_key("CLAUDE_CODE_EFFORT_LEVEL"@) && !env.contains_key("CLAUDE_EFFORT"@)
            && !blank(level) ==> claude_user_settings(
            contents,
            Some(level),
            effort,
            env,
        ).reasoning_effort == Some(trimmed(level)) && claude_user_settings(
            contents,
            Some(level),
            effort,
            env,
        ).reasoning_source == Some(claude_word() + " env"@),
        !env.contains_key("CLAUDE_CODE_EFFORT_LEVEL"@) && !env.contains_key("CLAUDE_EFFORT"@)
            ==> claude_user_settings(contents, None, None, env) == claude_files(contents),
{
    assert(contents.push(content).drop_last() =~= contents);
}

/// The settings of `claude_code` may be named in three ways, the shortest first.
pub proof fn lemma_paths_of_settings(extra: Map<Seq<char>, Tree>, t: Seq<char>)
    requires
        !blank(t),
    ensures
        extra.contains_key("settings"@) && extra["settings"@] == Tree::Text(t)
            ==> claude_settings_path(extra) == Some(trimmed(t)),
        !extra.contains_key("settings"@) && extra.contains_key("settingsPath"@)
            && extra["settingsPath"@] == Tree::Text(t) ==> claude_settings_path(extra) == Some(
            trimmed(t),
        ),
        !extra.contains_key("settings"@) && !extra.contains_key("settingsPath"@)
            && extra.contains_key("settings_path"@) && extra["settings_path"@] == Tree::Text(t)
            ==> claude_settings_path(extra) == Some(trimmed(t)),
        !extra.contains_key("settings"@) && !extra.contains_key("settingsPath"@)
            && !extra.contains_key("settings_path"@) ==> claude_settings_path(extra) is None,
{
}

/// A model that is not there is refused with those that are: the first eight by name,
/// and how many there are where there are more.
pub proof fn lemma_models_that_are_offered(models: Seq<ModelView>, m: ModelView)
    ensures
        models.len() <= 8 ==> available_models(models) == joined(quoted_slugs(models), ", "@),
        models.len() > 8 ==> available_models(models) == joined(
            quoted_slugs(models.take(8)),
            ", "@,
        ) + (" 等 "@ + decimal(models.len()) + " 个"@),
        quoted_slugs(models.push(m)) == quoted_slugs(models).push("`"@ + m.slug + "`"@),
{
    let none = Seq::<char>::empty();
    assert(joined(quoted_slugs(models), ", "@) + none =~= joined(quoted_slugs(models), ", "@));
    assert(quoted_slugs(models.push(m)) =~= quoted_slugs(models).push("`"@ + m.slug + "`"@));
}

/// A refusal says what was asked for and what can be had.
pub proof fn lemma_refusals_of_models(
    adapter: Seq<char>,
    requested: Seq<char>,
    models: Seq<ModelView>,
)
    requires
        trimmed(adapter) != "claude_code"@,
        model_choice(adapter, requested, models) is Err,
    ensures
        has_text(model_choice(adapter, requested, models)->Err_0, trimmed(requested)),
        models.len() > 0 ==> has_text(
            model_choice(adapter, requested, models)->Err_0,
            available_models(models),
        ),
{
    let e = model_choice(adapter, requested, models)->Err_0;
    let wanted = trimmed(requested);
    let label = adapter_label(adapter);
    if models.len() == 0 {
        let head = "未切换模型："@ + label + " 当前没有返回可展示的模型，不能设置为 `"@;
        let k = head.len() as int;
        assert(e.subrange(k, k + wanted.len()) =~= wanted);
        assert(occurs_at(e, wanted, k));
    } else {
        let head = "未切换模型：`"@;
        let k = head.len() as int;
        assert(e.subrange(k, k + wanted.len()) =~= wanted);
        assert(occurs_at(e, wanted, k));
        let more = head + wanted + "` 不在 "@ + label + " 可用模型列表中。\n可用模型包括: "@;
        let n = more.len() as int;
        let have = available_models(models);
        assert(e.subrange(n, n + have.len()) =~= have);
        assert(occurs_at(e, have, n));
    }
}

/// Levels are shown one to a line, those of the model where one is in use.
pub proof fn lemma_levels_are_shown(
    adapter: Seq<char>,
    effective: Option<Seq<char>>,
    models: Seq<ModelView>,
)
    ensures
        effort_options(adapter).len() > 0 ==> has_suffix(
            effort_catalog(adapter),
            joined(wrapped("- `"@, effort_options(adapter), "`"@), "\n"@),
        ),
        efforts_for_model(adapter, effective, models).len() > 0 ==> has_suffix(
            effort_catalog_for_model(adapter, effective, models),
            joined(wrapped("- `"@, efforts_for_model(adapter, effective, models), "`"@), "\n"@),
        ),
        has_prefix(effort_catalog(adapter), adapter_label(adapter)),
        has_prefix(effort_catalog_for_model(adapter, effective, models), adapter_label(adapter)),
{
    let label = adapter_label(adapter);
    let a = effort_catalog(adapter);
    let b = effort_catalog_for_model(adapter, effective, models);
    let x = joined(wrapped("- `"@, effort_options(adapter), "`"@), "\n"@);
    let y = joined(wrapped("- `"@, efforts_for_model(adapter, effective, models), "`"@), "\n"@);
    assert(a.subrange(0, label.len() as int) =~= label);
    assert(b.subrange(0, label.len() as int) =~= label);
    if effort_options(adapter).len() > 0 {
        assert(a.subrange(a.len() - x.len(), a.len() as int) =~= x);
    }
    if efforts_for_model(adapter, effective, models).len() > 0 {
        assert(b.subrange(b.len() - y.len(), b.len() as int) =~= y);
    }
}

/// What is said of names that cannot be.
pub proof fn lemma_reasons_against_names(v: Seq<char>)
    ensures
        blank(v) ==> slug_fault(v) == Some("用法: /model <model-slug>"@) && effort_fault(v) == Some(
            "用法: /effort <level>"@,
        ),
        !blank(v) && byte_len(trimmed(v)) > 128 ==> slug_fault(v) == Some(
            "模型名称过长，请使用 128 个字符以内的模型 slug。"@,
        ),
        !blank(v) && byte_len(trimmed(v)) <= 128 && !only_letters_digits_and(
            trimmed(v),
            "._-/:@"@,
        ) ==> slug_fault(v) == Some(
            "模型名称只能包含字母、数字、点、下划线、短横线、斜杠、冒号或 @。"@,
        ),
        !blank(v) && byte_len(trimmed(v)) > 32 ==> effort_fault(v) == Some(
            "Reasoning Effort 过长，请使用 32 个字符以内的 level。"@,
        ),
        !blank(v) && byte_len(trimmed(v)) <= 32 && !only_letters_digits_and(trimmed(v), "_-"@)
            ==> effort_fault(v) == Some(
            "Reasoning Effort 只能包含字母、数字、下划线或短横线。"@,
        ),
{
}

/// Lists take no words.
pub proof fn lemma_lists_take_no_words(message: Seq<char>)
    requires
        command_rest(message).len() > 0,
    ensures
        lowered(command_word(message)) == lowered("/models"@) ==> model_slash(message) == Some(
            Err::<SlashView, Seq<char>>("用法: /models"@),
        ),
        lowered(command_word(message)) == lowered("/efforts"@) ==> effort_slash(message) == Some(
            Err::<SlashView, Seq<char>>("用法: /efforts"@),
        ),
{
}

/// A model is shown with its name, with what is known of it in brackets, and with what
/// it is for below.
pub proof fn lemma_lines_of_a_model(m: ModelView)
    ensures
        ({
            let bare = m.default_reasoning_level is None && m.additional_speed_tiers.len() == 0
                && m.model_load is None && m.visibility is None;
            let name = match m.display_name {
                Some(n) => n,
                None => m.slug,
            };
            let lines = model_lines(m);
            &&& lines.len() == (if m.description is Some {
                2nat
            } else {
                1
            })
            &&& bare ==> lines[0] == "- `"@ + m.slug + "` - "@ + name
            &&& m.description matches Some(d) ==> lines[1] == "  "@ + cut(d, 140)
        }),
{
    let none = Seq::<char>::empty();
    let name = match m.display_name {
        Some(n) => n,
        None => m.slug,
    };
    let head = "- `"@ + m.slug + "` - "@ + name;
    assert(head + none =~= head);
}

/// What is known of a model stands in brackets: its level, its tiers, its load and its
/// visibility, in this order.
pub proof fn lemma_extras_of_a_model(
    m: ModelView,
    level: Seq<char>,
    load: Seq<char>,
    seen: Seq<char>,
)
    requires
        m.default_reasoning_level == Some(level),
        m.additional_speed_tiers.len() > 0,
        m.model_load == Some(load),
        m.visibility == Some(seen),
    ensures
        model_lines(m)[0] == "- `"@ + m.slug + "` - "@ + (match m.display_name {
            Some(n) => n,
            None => m.slug,
        }) + (" ("@ + joined(
            seq![
                "reasoning: "@ + level,
                "tiers: "@ + joined(m.additional_speed_tiers, ","@),
                "Model load: "@ + load,
                "visibility: "@ + seen,
            ],
            "; "@,
        ) + ")"@),
{
    let extras = crate::models::model_extras(m);
    assert(extras =~= seq![
        "reasoning: "@ + level,
        "tiers: "@ + joined(m.additional_speed_tiers, ","@),
        "Model load: "@ + load,
        "visibility: "@ + seen,
    ]);
}

/// What else is known of a model may stand alone.
pub proof fn lemma_single_extras(m: ModelView, t: Seq<char>)
    requires
        m.additional_speed_tiers.len() == 0,
    ensures
        ({
            let head = "- `"@ + m.slug + "` - "@ + (match m.display_name {
                Some(n) => n,
                None => m.slug,
            });
            &&& m.default_reasoning_level == Some(t) && m.model_load is None && m.visibility is None
                ==> model_lines(m)[0] == head + (" ("@ + joined(seq!["reasoning: "@ + t], "; "@)
                + ")"@)
            &&& m.default_reasoning_level is None && m.model_load == Some(t) && m.visibility is None
                ==> model_lines(m)[0] == head + (" ("@ + joined(seq!["Model load: "@ + t], "; "@)
                + ")"@)
            &&& m.default_reasoning_level is None && m.model_load is None && m.visibility == Some(t)
                ==> model_lines(m)[0] == head + (" ("@ + joined(seq!["visibility: "@ + t], "; "@)
                + ")"@)
        }),
{
    let extras = crate::models::model_extras(m);
    if m.default_reasoning_level == Some(t) && m.model_load is None && m.visibility is None {
        assert(extras =~= seq!["reasoning: "@ + t]);
    }
    if m.default_reasoning_level is None && m.model_load == Some(t) && m.visibility is None {
        assert(extras =~= seq!["Model load: "@ + t]);
    }
    if m.default_reasoning_level is None && m.model_load is None && m.visibility == Some(t) {
        assert(extras =~= seq!["visibility: "@ + t]);
    }
}

/// The words of a refusal.
pub proof fn lemma_words_of_refusals(
    adapter: Seq<char>,
    requested: Seq<char>,
    models: Seq<ModelView>,
)
    requires
        trimmed(adapter) != "claude_code"@,
        model_choice(adapter, requested, models) is Err,
    ensures
        models.len() == 0 ==> model_choice(adapter, requested, models)->Err_0 == "未切换模型："@
            + adapter_label(adapter) + " 当前没有返回可展示的模型，不能设置为 `"@ + trimmed(requested)
            + "`。"@,
        models.len() > 0 ==> model_choice(adapter, requested, models)->Err_0 == "未切换模型：`"@
            + trimmed(requested) + "` 不在 "@ + adapter_label(adapter)
            + " 可用模型列表中。\n可用模型包括: "@ + available_models(models)
            + "\n请发送 `/models` 查看完整列表。"@,
{
}

/// The words of what is in use, and of where it comes from.
pub proof fn lemma_words_of_status(
    adapter: Seq<char>,
    v: Seq<char>,
    source: Option<Seq<char>>,
    id: Seq<char>,
)
    ensures
        ({
            let head = "当前 "@ + adapter_label(adapter) + " Runner `"@ + id;
            let from = match source {
                Some(s) => s,
                None => "配置"@,
            };
            &&& !blank(v) ==> model_status(adapter, Some(v), source, id) == head
                + "` 使用模型: `"@ + trimmed(v) + "`\n来源: "@ + from
            &&& !blank(v) ==> effort_status(adapter, Some(v), source, id) == head
                + "` 使用 Reasoning Effort: `"@ + trimmed(v) + "`\n来源: "@ + from
            &&& model_status(adapter, None, source, id) == head
                + "` 未设置模型 override，将使用 "@ + adapter_label(adapter) + " 默认模型。"@
            &&& effort_status(adapter, None, source, id) == head
                + "` 未设置 Reasoning Effort override，将使用 "@ + adapter_label(adapter)
                + " 默认值。"@
        }),
{
}

/// The words of a list of levels.
pub proof fn lemma_words_of_levels(
    adapter: Seq<char>,
    v: Seq<char>,
    models: Seq<ModelView>,
)
    ensures
        ({
            let label = adapter_label(adapter);
            let own = effort_options(adapter);
            let plain = efforts_for_model(adapter, None, models);
            let those = efforts_for_model(adapter, Some(v), models);
            let nothing = label + " 当前没有可展示的 reasoning effort 选项。"@;
            &&& own.len() == 0 ==> effort_catalog(adapter) == nothing
            &&& own.len() > 0 ==> effort_catalog(adapter) == label + " 可用 Reasoning Effort:\n"@
                + joined(wrapped("- `"@, own, "`"@), "\n"@)
            &&& plain.len() == 0 ==> effort_catalog_for_model(adapter, None, models) == nothing
            &&& !blank(v) && those.len() > 0 ==> effort_catalog_for_model(adapter, Some(v), models)
                == label + " 可用 Reasoning Effort"@ + ("（当前模型 `"@ + trimmed(v) + "`）"@)
                + ":\n"@ + joined(wrapped("- `"@, those, "`"@), "\n"@)
        }),
{
}

/// The words that refuse a level: which it is, of what, and which there are.
pub proof fn lemma_words_against_levels(
    adapter: Seq<char>,
    requested: Seq<char>,
    v: Seq<char>,
    models: Seq<ModelView>,
)
    requires
        effort_fault(lowered(trimmed(requested))) is None,
    ensures
        ({
            let level = lowered(trimmed(requested));
            let those = efforts_for_model(adapter, Some(v), models);
            !blank(v) && !those.contains(level) ==> effort_choice_for_model(
                adapter,
                requested,
                Some(v),
                models,
            ) == Err::<Seq<char>, Seq<char>>(
                "未切换 Reasoning Effort：`"@ + level + "` 不在 "@ + adapter_label(adapter) + (
                " 当前模型 `"@ + trimmed(v) + "`"@) + " 支持列表中。\n可用选项包括: "@ + joined(
                    wrapped("`"@, those, "`"@),
                    ", "@,
                ),
            )
        }),
        effort_choice_for_model(adapter, requested, Some(v), models) matches Ok(l) ==> l == lowered(
            trimmed(requested),
        ) && efforts_for_model(adapter, Some(v), models).contains(l),
{
}

/// The names of the models that are always known, and what is said of them.
pub proof fn lemma_words_of_known_models()
    ensures
        claude_catalog()[0].display_name == Some("Sonnet"@),
        claude_catalog()[1].display_name == Some("Opus"@),
        claude_catalog()[2].display_name == Some("Haiku"@),
        claude_catalog()[3].display_name == Some("Fable"@),
        claude_catalog()[0].description == Some("Sonnet 4.6 - Efficient for routine tasks."@),
        claude_catalog()[1].description == Some(
            "Opus 4.8 - Best for everyday, complex tasks; roughly 2x usage vs Sonnet."@,
        ),
        claude_catalog()[2].description == Some("Haiku 4.5 - Fastest for quick answers."@),
        claude_catalog()[3].description == Some(
            crate::agent_config::claude_title() + " Fable 5 is currently unavailable. "@
                + claude_product() + " also accepts full model names via --model."@,
        ),
        claude_catalog()[2].default_reasoning_level == Some("medium"@),
        claude_catalog()[3].default_reasoning_level == Some("medium"@),
        claude_catalog()[1].priority == Some(1i64),
        claude_catalog()[2].priority == Some(2i64),
        forall|i: int| 0 <= i < 4 ==> (#[trigger] claude_catalog()[i]).visibility == Some("list"@),
{
    assert forall|i: int| 0 <= i < 4 implies (#[trigger] claude_catalog()[i]).visibility == Some(
        "list"@,
    ) by {
        assert(claude_catalog()[i] == claude_catalog()[0] || claude_catalog()[i]
            == claude_catalog()[1] || claude_catalog()[i] == claude_catalog()[2]
            || claude_catalog()[i] == claude_catalog()[3]);
    }
}

/// An override is read as a value of a settings file; where it is none, its words are
/// taken without their quotes.
pub proof fn lemma_values_of_overrides(raw: Seq<char>, v: Seq<char>)
    ensures
        blank(raw) ==> override_text(raw) is None,
        !blank(raw) ==> (toml_document("value = "@ + trimmed(raw)) matches Some(members)
            ==> toml_text(members, "value"@) == Some(v) ==> override_text(raw) == Some(v)),
        !blank(raw) && toml_document("value = "@ + trimmed(raw)) is None ==> override_text(raw)
            == cleaned(
            Some(
                crate::text::drop_back(crate::text::drop_front(trimmed(raw), '"'), '"'),
            ),
        ),
{
}

} // verus!
