//! What the resolution of rules is for: which rules a request gets, and which it
//! does not.

use vstd::prelude::*;

use crate::resolver::{
    active_skip, active_skips, admitted, answer_at, base_value_of, cache_key_of, candidate_of,
    candidates_for, changes_responses, collected, evaluable, filtered_header, find_entry, gated,
    lemma_candidates_in_order, lemma_closed_stays_closed, lemma_naming_an_operation_skips_it,
    lemma_resolution_in_order, lemma_rightly_chosen, lower_case, meets, meets_all, meets_any,
    merged_values, of_protocol, placed_at, remembering, resolution, rightly_chosen, routes_requests,
    rules_of, skip_of, skipped, skips, upper_case, with_entry, without_entry, FactsView, FilterView,
    HostAnswer, OutcomeView, Protocol, ProtocolCategory, RequestView, ResolvedRuleView,
    ResolverView, RuleView, SkipView, SourceView, DEFAULT_CACHE_CAPACITY,
};
use crate::sort::{lemma_ranked, ranked, Ranked};
use crate::text::{has_prefix, lemma_trimmed_idempotent, trim_back, trim_front, trimmed};

verus! {

broadcast use vstd::string::group_string_axioms;

// ---------------------------------------------------------------------------
// Filters
// ---------------------------------------------------------------------------

/// Whether a request meets every filter of a rule that lets requests in and none
/// that keeps them out, as far as the filters can be decided.
pub open spec fn lets_through(
    r: RuleView,
    included: Seq<bool>,
    excluded: Seq<bool>,
    ctx: RequestView,
) -> bool {
    &&& forall|i: int|
        0 <= i < r.include_filters.len() && evaluable(#[trigger] r.include_filters[i], ctx)
            ==> meets(r.include_filters[i], ctx, answer_at(included, i))
    &&& forall|i: int|
        0 <= i < r.exclude_filters.len() && evaluable(#[trigger] r.exclude_filters[i], ctx)
            ==> !meets(r.exclude_filters[i], ctx, answer_at(excluded, i))
}

/// A rule that applies lets the request through: the request meets each of its
/// include filters and none of its exclude filters that can be decided.
pub proof fn lemma_rules_that_apply_let_the_request_through(
    rules: Seq<RuleView>,
    facts: Seq<FactsView>,
    ctx: RequestView,
    candidates: Seq<(usize, Option<Seq<Seq<char>>>, bool)>,
)
    ensures
        forall|j: int|
            #![trigger resolution(rules, facts, ctx, candidates)[j]]
            0 <= j < resolution(rules, facts, ctx, candidates).len() ==> exists|k: int|
                0 <= k < candidates.len() && (#[trigger] candidates[k]).0 < rules.len()
                    && !candidates[k].2 && resolution(rules, facts, ctx, candidates)[j].rule
                    == rules[candidates[k].0 as int] && resolution(
                    rules,
                    facts,
                    ctx,
                    candidates,
                )[j].captures == candidates[k].1 && resolution(
                    rules,
                    facts,
                    ctx,
                    candidates,
                )[j].resolved_value == facts[k].expanded && lets_through(
                    rules[candidates[k].0 as int],
                    facts[k].included,
                    facts[k].excluded,
                    ctx,
                ),
{
    let off = active_skips(rules, facts, ctx, candidates);
    let all = resolution(rules, facts, ctx, candidates);
    lemma_rightly_chosen(rules, facts, ctx, off, candidates);
    assert forall|j: int| #![trigger all[j]] 0 <= j < all.len() implies exists|k: int|
        0 <= k < candidates.len() && (#[trigger] candidates[k]).0 < rules.len() && !candidates[k].2
            && all[j].rule == rules[candidates[k].0 as int] && all[j].captures == candidates[k].1
            && all[j].resolved_value == facts[k].expanded && lets_through(
            rules[candidates[k].0 as int],
            facts[k].included,
            facts[k].excluded,
            ctx,
        ) by {
        assert(all[j] == gated(rules, facts, ctx, off, candidates).chosen[j]);
        let k = choose|k: int|
            0 <= k < candidates.len() && rightly_chosen(
                rules,
                facts[k],
                ctx,
                off,
                #[trigger] candidates[k],
                gated(rules, facts, ctx, off, candidates).chosen[j],
            );
        let r = rules[candidates[k].0 as int];
        assert(admitted(r, facts[k], ctx));
        assert forall|i: int|
            0 <= i < r.exclude_filters.len() && evaluable(
                #[trigger] r.exclude_filters[i],
                ctx,
            ) implies !meets(r.exclude_filters[i], ctx, answer_at(facts[k].excluded, i)) by {
            assert(!meets_any(r.exclude_filters, facts[k].excluded, ctx));
        }
        assert(lets_through(r, facts[k].included, facts[k].excluded, ctx));
    }
}

/// A filter on methods looks at the method of the request, whatever the case of
/// its letters, and at nothing else.
pub proof fn lemma_method_filters(methods: Seq<Seq<char>>, ctx: RequestView, answer: bool)
    ensures
        evaluable(FilterView::Method(methods), ctx),
        meets(FilterView::Method(methods), ctx, answer) <==> exists|i: int|
            0 <= i < methods.len() && upper_case(#[trigger] methods[i]) == upper_case(ctx.method),
{
}

/// A filter on the presence of a header looks for it in the request, by its name
/// in lower case.
pub proof fn lemma_header_filters(name: Seq<char>, ctx: RequestView, answer: bool)
    ensures
        evaluable(FilterView::HeaderExists(name), ctx),
        meets(FilterView::HeaderExists(name), ctx, answer) <==> ctx.req_headers.contains_key(
            lower_case(name),
        ),
        evaluable(FilterView::HeaderMatch { name, is_request: true }, ctx),
        meets(FilterView::HeaderMatch { name, is_request: true }, ctx, answer) <==> answer
            && ctx.req_headers.contains_key(lower_case(name)),
        evaluable(FilterView::HeaderMatch { name, is_request: false }, ctx)
            <==> ctx.res_headers is Some,
        ctx.res_headers matches Some(headers) ==> (meets(
            FilterView::HeaderMatch { name, is_request: false },
            ctx,
            answer,
        ) <==> answer && headers.contains_key(lower_case(name))),
{
}

/// Filters on paths, addresses and whole locations go by what they were asked;
/// a filter on the status does so once there is one. A filter on bodies is never
/// met, and one that is handled elsewhere always is.
pub proof fn lemma_asked_filters(ctx: RequestView, answer: bool)
    ensures
        evaluable(FilterView::Path, ctx) && meets(FilterView::Path, ctx, answer) == answer,
        evaluable(FilterView::ClientIp, ctx) && meets(FilterView::ClientIp, ctx, answer) == answer,
        evaluable(FilterView::Url, ctx) && meets(FilterView::Url, ctx, answer) == answer,
        evaluable(FilterView::StatusCode, ctx) <==> ctx.status_code is Some,
        ctx.status_code is Some ==> meets(FilterView::StatusCode, ctx, answer) == answer,
        evaluable(FilterView::Body, ctx) && !meets(FilterView::Body, ctx, answer),
        evaluable(FilterView::Custom, ctx) && meets(FilterView::Custom, ctx, answer),
{
}

/// The answer to a filter is the one at its own place, and no without one.
pub proof fn lemma_answers_belong_to_filters(answers: Seq<bool>, i: int)
    requires
        0 <= i,
    ensures
        i < answers.len() ==> answer_at(answers, i) == answers[i],
        i >= answers.len() ==> !answer_at(answers, i),
{
}

// ---------------------------------------------------------------------------
// Which rules apply
// ---------------------------------------------------------------------------

/// Whether a candidate leaves its operation to those behind it: it is of another
/// operation, it is disabled, or it is not negated and either shares its operation or
/// does not let the request through.
pub open spec fn leaves_open(
    rules: Seq<RuleView>,
    f: FactsView,
    ctx: RequestView,
    c: (usize, Option<Seq<Seq<char>>>, bool),
    p: Protocol,
) -> bool {
    c.0 < rules.len() ==> {
        let r = rules[c.0 as int];
        ||| r.protocol != p
        ||| r.disabled
        ||| !c.2 && (r.multi_match || !lets_through(r, f.included, f.excluded, ctx))
    }
}

/// Operations are closed by candidates alone that apply or are negated.
proof fn lemma_closed_by_candidates(
    rules: Seq<RuleView>,
    facts: Seq<FactsView>,
    ctx: RequestView,
    off: Seq<SkipView>,
    candidates: Seq<(usize, Option<Seq<Seq<char>>>, bool)>,
    p: Protocol,
)
    requires
        forall|j: int|
            0 <= j < candidates.len() ==> leaves_open(
                rules,
                facts[j],
                ctx,
                #[trigger] candidates[j],
                p,
            ),
    ensures
        !gated(rules, facts, ctx, off, candidates).closed.contains(p),
    decreases candidates.len(),
{
    if candidates.len() > 0 {
        let n = candidates.len() - 1;
        let rest = candidates.drop_last();
        assert forall|j: int| 0 <= j < rest.len() implies leaves_open(
            rules,
            facts[j],
            ctx,
            #[trigger] rest[j],
            p,
        ) by {
            assert(rest[j] == candidates[j]);
        }
        lemma_closed_by_candidates(rules, facts, ctx, off, rest, p);
        assert(candidates[n] == candidates.last());
        assert(leaves_open(rules, facts[n], ctx, candidates[n], p));
        if candidates[n].0 < rules.len() {
            let r = rules[candidates[n].0 as int];
            lemma_admitted_is_let_through(r, facts[n], ctx);
        }
    }
}

proof fn lemma_admitted_is_let_through(r: RuleView, f: FactsView, ctx: RequestView)
    ensures
        admitted(r, f, ctx) <==> lets_through(r, f.included, f.excluded, ctx),
{
    if admitted(r, f, ctx) {
        assert forall|i: int|
            0 <= i < r.exclude_filters.len() && evaluable(
                #[trigger] r.exclude_filters[i],
                ctx,
            ) implies !meets(r.exclude_filters[i], ctx, answer_at(f.excluded, i)) by {
            assert(!meets_any(r.exclude_filters, f.excluded, ctx));
        }
    }
}

/// Whether a candidate is a skip directive in force that turns a rule off.
pub open spec fn turns_off(
    rules: Seq<RuleView>,
    facts: Seq<FactsView>,
    ctx: RequestView,
    candidates: Seq<(usize, Option<Seq<Seq<char>>>, bool)>,
    m: int,
    r: RuleView,
    plain: Seq<char>,
) -> bool {
    &&& directs_skipping(rules, facts, ctx, candidates, m)
    &&& skip_of(rules[candidates[m].0 as int].value) matches Some(s) && skips(s, r, plain)
}

proof fn lemma_turned_off_by_a_directive(
    rules: Seq<RuleView>,
    facts: Seq<FactsView>,
    ctx: RequestView,
    candidates: Seq<(usize, Option<Seq<Seq<char>>>, bool)>,
    upto: int,
    r: RuleView,
    plain: Seq<char>,
)
    requires
        0 <= upto <= candidates.len(),
        skipped(active_skips(rules, facts, ctx, candidates.take(upto)), r, plain),
    ensures
        exists|m: int| #[trigger] turns_off(rules, facts, ctx, candidates, m, r, plain),
    decreases upto,
{
    let some = candidates.take(upto);
    let off = active_skips(rules, facts, ctx, some);
    if upto > 0 {
        let n = upto - 1;
        assert(some.drop_last() =~= candidates.take(n));
        assert(some.last() == candidates[n]);
        let before = active_skips(rules, facts, ctx, candidates.take(n));
        let q = choose|q: int| 0 <= q < off.len() && skips(#[trigger] off[q], r, plain);
        if q < before.len() {
            assert(before[q] == off[q]);
            lemma_turned_off_by_a_directive(rules, facts, ctx, candidates, n, r, plain);
        } else {
            let d = rules[candidates[n].0 as int];
            lemma_admitted_is_let_through(d, facts[n], ctx);
            assert(turns_off(rules, facts, ctx, candidates, n, r, plain));
        }
    }
}

/// A candidate applies that is neither negated nor disabled, is no skip directive,
/// lets the request through and is turned off by no skip directive in force, where its
/// operation may be shared or every candidate before it leaves its operation open.
pub proof fn lemma_passing_candidates_apply(
    rules: Seq<RuleView>,
    facts: Seq<FactsView>,
    ctx: RequestView,
    candidates: Seq<(usize, Option<Seq<Seq<char>>>, bool)>,
    k: int,
)
    requires
        0 <= k < candidates.len(),
        candidates[k].0 < rules.len(),
        !candidates[k].2,
        !rules[candidates[k].0 as int].disabled,
        rules[candidates[k].0 as int].protocol != Protocol::Skip,
        forall|m: int|
            !#[trigger] turns_off(
                rules,
                facts,
                ctx,
                candidates,
                m,
                rules[candidates[k].0 as int],
                facts[k].plain,
            ),
        lets_through(
            rules[candidates[k].0 as int],
            facts[k].included,
            facts[k].excluded,
            ctx,
        ),
        rules[candidates[k].0 as int].multi_match || forall|j: int|
            0 <= j < k ==> leaves_open(
                rules,
                facts[j],
                ctx,
                #[trigger] candidates[j],
                rules[candidates[k].0 as int].protocol,
            ),
    ensures
        resolution(rules, facts, ctx, candidates).contains(
            (ResolvedRuleView {
                rule: rules[candidates[k].0 as int],
                captures: candidates[k].1,
                resolved_value: facts[k].expanded,
            }),
        ),
{
    let off = active_skips(rules, facts, ctx, candidates);
    let r = rules[candidates[k].0 as int];
    let f = facts[k];
    assert(candidates.take(candidates.len() as int) =~= candidates);
    if skipped(off, r, f.plain) {
        lemma_turned_off_by_a_directive(
            rules,
            facts,
            ctx,
            candidates,
            candidates.len() as int,
            r,
            f.plain,
        );
    }
    lemma_admitted_is_let_through(r, f, ctx);
    let before = candidates.take(k);
    assert forall|j: int| 0 <= j < before.len() implies #[trigger] before[j] == candidates[j] by {}
    if !r.multi_match {
        lemma_closed_by_candidates(rules, facts, ctx, off, before, r.protocol);
    }
    let upto = candidates.take(k + 1);
    assert(upto.drop_last() =~= before);
    assert(upto.last() == candidates[k]);
    lemma_closed_stays_closed(rules, facts, ctx, off, candidates, k + 1);
    let early = gated(rules, facts, ctx, off, upto).chosen;
    let full = gated(rules, facts, ctx, off, candidates).chosen;
    let x = ResolvedRuleView { rule: r, captures: candidates[k].1, resolved_value: f.expanded };
    assert(early.last() == x);
    let at = early.len() - 1;
    assert(full.take(early.len() as int)[at] == full[at]);
    assert(full[at] == x);
}

/// No disabled rule applies, and no skip directive.
pub proof fn lemma_what_never_applies(
    rules: Seq<RuleView>,
    facts: Seq<FactsView>,
    ctx: RequestView,
    candidates: Seq<(usize, Option<Seq<Seq<char>>>, bool)>,
    j: int,
)
    requires
        0 <= j < resolution(rules, facts, ctx, candidates).len(),
    ensures
        !resolution(rules, facts, ctx, candidates)[j].rule.disabled,
        resolution(rules, facts, ctx, candidates)[j].rule.protocol != Protocol::Skip,
{
    let off = active_skips(rules, facts, ctx, candidates);
    lemma_rightly_chosen(rules, facts, ctx, off, candidates);
    let found = gated(rules, facts, ctx, off, candidates).chosen;
    assert(found[j] == resolution(rules, facts, ctx, candidates)[j]);
}

/// The rules that apply stand in the order of their priority, the highest first:
/// of rules in that order and of the candidates that their patterns bring.
pub proof fn lemma_higher_priorities_come_first(
    given: Seq<RuleView>,
    facts: Seq<FactsView>,
    ctx: RequestView,
    outcomes: Seq<OutcomeView>,
)
    requires
        given.len() <= usize::MAX,
    ensures
        ({
            let rules = ranked(given);
            let found = resolution(
                rules,
                facts,
                ctx,
                collected(rules, outcomes, rules.len()),
            );
            &&& rules.to_multiset() == given.to_multiset()
            &&& forall|i: int, j: int|
                0 <= i < j < rules.len() ==> (#[trigger] rules[i]).priority >= (
                #[trigger] rules[j]).priority
            &&& forall|i: int, j: int|
                0 <= i < j < found.len() ==> (#[trigger] found[i]).rule.priority >= (
                #[trigger] found[j]).rule.priority
        }),
{
    let rules = ranked(given);
    lemma_ranked(given);
    let candidates = collected(rules, outcomes, rules.len());
    let found = resolution(rules, facts, ctx, candidates);
    lemma_candidates_in_order(rules, outcomes, rules.len());
    lemma_resolution_in_order(
        rules,
        facts,
        ctx,
        active_skips(rules, facts, ctx, candidates),
        candidates,
    );
    assert forall|i: int, j: int| 0 <= i < j < rules.len() implies (#[trigger] rules[i]).priority
        >= (#[trigger] rules[j]).priority by {
        assert(!rules[j].before(rules[i]));
    }
    let bare = rules_of(found);
    assert forall|i: int, j: int| 0 <= i < j < found.len() implies (
    #[trigger] found[i]).rule.priority >= (#[trigger] found[j]).rule.priority by {
        assert(bare[i] == found[i].rule && bare[j] == found[j].rule);
        assert(!bare[j].before(bare[i]));
    }
}

/// A rule is a candidate where its pattern matches, and a negated one where it
/// does not; each brings what its pattern captured, a negated one nothing.
pub proof fn lemma_patterns_make_candidates(
    rules: Seq<RuleView>,
    outcomes: Seq<OutcomeView>,
    i: int,
)
    requires
        rules.len() <= usize::MAX,
        0 <= i < rules.len(),
    ensures
        collected(rules, outcomes, rules.len()).contains((i as usize, outcomes[i].captures, false))
            <==> !rules[i].negated && outcomes[i].matched,
        collected(rules, outcomes, rules.len()).contains((i as usize, None, true))
            <==> rules[i].negated && !outcomes[i].matched,
{
    lemma_collected_by_place(rules, outcomes, rules.len(), i);
}

proof fn lemma_collected_by_place(
    rules: Seq<RuleView>,
    outcomes: Seq<OutcomeView>,
    n: nat,
    i: int,
)
    requires
        n <= rules.len() <= usize::MAX,
        0 <= i < rules.len(),
    ensures
        collected(rules, outcomes, n).contains((i as usize, outcomes[i].captures, false)) <==> i < n
            && !rules[i].negated && outcomes[i].matched,
        collected(rules, outcomes, n).contains((i as usize, None, true)) <==> i < n
            && rules[i].negated && !outcomes[i].matched,
    decreases n,
{
    if n > 0 {
        let m = (n - 1) as nat;
        lemma_collected_by_place(rules, outcomes, m, i);
        let before = collected(rules, outcomes, m);
        let after = collected(rules, outcomes, n);
        let a = (i as usize, outcomes[i].captures, false);
        let b = (i as usize, None::<Seq<Seq<char>>>, true);
        match candidate_of(rules[n - 1], outcomes[n - 1], n - 1) {
            Some(c) => {
                assert(after == before.push(c));
                assert(after[before.len() as int] == c);
                if before.contains(a) {
                    let q = choose|q: int| 0 <= q < before.len() && before[q] == a;
                    assert(after[q] == a);
                }
                if before.contains(b) {
                    let q = choose|q: int| 0 <= q < before.len() && before[q] == b;
                    assert(after[q] == b);
                }
                if after.contains(a) {
                    let q = choose|q: int| 0 <= q < after.len() && after[q] == a;
                    if q < before.len() {
                        assert(before[q] == a);
                    }
                }
                if after.contains(b) {
                    let q = choose|q: int| 0 <= q < after.len() && after[q] == b;
                    if q < before.len() {
                        assert(before[q] == b);
                    }
                }
            },
            None => {},
        }
    }
}

// ---------------------------------------------------------------------------
// Skip directives
// ---------------------------------------------------------------------------

proof fn lemma_directive_is_active(
    rules: Seq<RuleView>,
    facts: Seq<FactsView>,
    ctx: RequestView,
    candidates: Seq<(usize, Option<Seq<Seq<char>>>, bool)>,
    m: int,
)
    requires
        0 <= m < candidates.len(),
        active_skip(rules, facts[m], ctx, candidates[m]) is Some,
    ensures
        active_skips(rules, facts, ctx, candidates).contains(
            active_skip(rules, facts[m], ctx, candidates[m])->Some_0,
        ),
    decreases candidates.len(),
{
    let rest = candidates.drop_last();
    let before = active_skips(rules, facts, ctx, rest);
    let after = active_skips(rules, facts, ctx, candidates);
    let s = active_skip(rules, facts[m], ctx, candidates[m])->Some_0;
    if m < rest.len() {
        assert(rest[m] == candidates[m]);
        lemma_directive_is_active(rules, facts, ctx, rest, m);
        let q = choose|q: int| 0 <= q < before.len() && before[q] == s;
        assert(after[q] == s);
    } else {
        assert(after.last() == s);
    }
}

/// Whether a candidate is a skip directive that is in force: not negated, not
/// disabled, and its filters let the request through.
pub open spec fn directs_skipping(
    rules: Seq<RuleView>,
    facts: Seq<FactsView>,
    ctx: RequestView,
    candidates: Seq<(usize, Option<Seq<Seq<char>>>, bool)>,
    m: int,
) -> bool {
    &&& 0 <= m < candidates.len()
    &&& candidates[m].0 < rules.len()
    &&& !candidates[m].2
    &&& !rules[candidates[m].0 as int].disabled
    &&& rules[candidates[m].0 as int].protocol == Protocol::Skip
    &&& lets_through(rules[candidates[m].0 as int], facts[m].included, facts[m].excluded, ctx)
}

proof fn lemma_directive_turns_off(
    rules: Seq<RuleView>,
    facts: Seq<FactsView>,
    ctx: RequestView,
    candidates: Seq<(usize, Option<Seq<Seq<char>>>, bool)>,
    m: int,
    j: int,
)
    requires
        directs_skipping(rules, facts, ctx, candidates, m),
        skip_of(rules[candidates[m].0 as int].value) is Some,
        0 <= j < resolution(rules, facts, ctx, candidates).len(),
    ensures
        exists|resolved: Seq<char>|
            !#[trigger] skips(
                skip_of(rules[candidates[m].0 as int].value)->Some_0,
                resolution(rules, facts, ctx, candidates)[j].rule,
                resolved,
            ),
{
    let off = active_skips(rules, facts, ctx, candidates);
    let d = rules[candidates[m].0 as int];
    assert(meets_all(d.include_filters, facts[m].included, ctx));
    assert(!meets_any(d.exclude_filters, facts[m].excluded, ctx));
    assert(admitted(d, facts[m], ctx));
    lemma_directive_is_active(rules, facts, ctx, candidates, m);
    let s = skip_of(d.value)->Some_0;
    lemma_rightly_chosen(rules, facts, ctx, off, candidates);
    let found = gated(rules, facts, ctx, off, candidates).chosen;
    assert(found[j] == resolution(rules, facts, ctx, candidates)[j]);
    let k = choose|k: int|
        0 <= k < candidates.len() && rightly_chosen(
            rules,
            facts[k],
            ctx,
            off,
            #[trigger] candidates[k],
            found[j],
        );
    let q = choose|q: int| 0 <= q < off.len() && off[q] == s;
    assert(!skips(off[q], found[j].rule, facts[k].plain));
}

/// A skip directive on a pattern keeps every rule with that pattern from applying.
pub proof fn lemma_skipped_patterns_do_not_apply(
    rules: Seq<RuleView>,
    facts: Seq<FactsView>,
    ctx: RequestView,
    candidates: Seq<(usize, Option<Seq<Seq<char>>>, bool)>,
    m: int,
    pattern: Seq<char>,
)
    requires
        directs_skipping(rules, facts, ctx, candidates, m),
        trimmed(pattern) == pattern,
        pattern.len() > 0,
        rules[candidates[m].0 as int].value == "pattern="@ + pattern,
    ensures
        forall|j: int|
            0 <= j < resolution(rules, facts, ctx, candidates).len() ==> (#[trigger] resolution(
                rules,
                facts,
                ctx,
                candidates,
            )[j]).rule.pattern != pattern,
{
    reveal_strlit("pattern=");
    let head = "pattern="@;
    let value = head + pattern;
    lemma_trimmed_idempotent(pattern);
    assert(value[0] == 'p');
    assert(trim_front(value) == value);
    assert(value.last() == pattern.last());
    assert(trim_back(value) == value);
    assert(value.subrange(0, 8) =~= head);
    assert(value.skip(8) =~= pattern);
    assert(skip_of(value) == Some(SkipView::Pattern(pattern)));
    let found = resolution(rules, facts, ctx, candidates);
    assert forall|j: int| 0 <= j < found.len() implies (#[trigger] found[j]).rule.pattern
        != pattern by {
        lemma_directive_turns_off(rules, facts, ctx, candidates, m, j);
    }
}

/// A skip directive on an operation keeps every rule that is written as that
/// operation from applying, whatever its value becomes.
pub proof fn lemma_skipped_operations_do_not_apply(
    rules: Seq<RuleView>,
    facts: Seq<FactsView>,
    ctx: RequestView,
    candidates: Seq<(usize, Option<Seq<Seq<char>>>, bool)>,
    m: int,
    name: Seq<char>,
    value: Seq<char>,
)
    requires
        directs_skipping(rules, facts, ctx, candidates, m),
        rules[candidates[m].0 as int].value == "operation="@ + (name + "://"@ + value),
    ensures
        forall|j: int|
            0 <= j < resolution(rules, facts, ctx, candidates).len() ==> !((#[trigger] resolution(
                rules,
                facts,
                ctx,
                candidates,
            )[j]).rule.protocol_name == name && resolution(
                rules,
                facts,
                ctx,
                candidates,
            )[j].rule.value == value),
{
    let found = resolution(rules, facts, ctx, candidates);
    let d = rules[candidates[m].0 as int];
    assert forall|j: int| 0 <= j < found.len() implies !((
    #[trigger] found[j]).rule.protocol_name == name && found[j].rule.value == value) by {
        if found[j].rule.protocol_name == name && found[j].rule.value == value {
            lemma_naming_an_operation_skips_it(found[j].rule, Seq::empty());
            lemma_directive_turns_off(rules, facts, ctx, candidates, m, j);
            let resolved = choose|resolved: Seq<char>|
                !#[trigger] skips(skip_of(d.value)->Some_0, found[j].rule, resolved);
            lemma_naming_an_operation_skips_it(found[j].rule, resolved);
        }
    }
}

/// The value of a skip directive that names neither a pattern nor an operation
/// turns nothing off.
pub proof fn lemma_other_values_skip_nothing(value: Seq<char>)
    requires
        !has_prefix(trimmed(value), "pattern="@),
        !has_prefix(trimmed(value), "operation="@),
    ensures
        skip_of(value) is None,
{
}

// ---------------------------------------------------------------------------
// Values and hosts
// ---------------------------------------------------------------------------

/// Redirects and breakpoints look a named value up, and keep their own value where
/// there is none of that name. Files and templates always keep their own value.
/// Every other operation takes what its source gives.
pub proof fn lemma_where_values_come_from(
    r: RuleView,
    values: Map<Seq<char>, Seq<char>>,
    source_value: Seq<char>,
    name: Seq<char>,
)
    ensures
        (r.protocol == Protocol::Redirect || r.protocol == Protocol::Bp) && r.value_source
            == SourceView::ValueRef(name) && values.contains_key(name) ==> base_value_of(
            r,
            values,
            source_value,
        ) == values[name],
        (r.protocol == Protocol::Redirect || r.protocol == Protocol::Bp) && (r.value_source is Other
            || (r.value_source == SourceView::ValueRef(name) && !values.contains_key(name)))
            ==> base_value_of(r, values, source_value) == r.value,
        r.protocol == Protocol::File || r.protocol == Protocol::RawFile || r.protocol
            == Protocol::Tpl ==> base_value_of(r, values, source_value) == r.value,
        r.protocol != Protocol::Redirect && r.protocol != Protocol::Bp && r.protocol
            != Protocol::File && r.protocol != Protocol::RawFile && r.protocol != Protocol::Tpl
            ==> base_value_of(r, values, source_value) == source_value,
{
}

/// Values that are merged in are new ones; a value that is there already stays.
pub proof fn lemma_merged_values_are_new(
    values: Map<Seq<char>, Seq<char>>,
    more: Seq<(Seq<char>, Seq<char>)>,
)
    ensures
        forall|k: Seq<char>| #[trigger]
            values.contains_key(k) ==> merged_values(values, more).contains_key(k)
                && merged_values(values, more)[k] == values[k],
        forall|i: int|
            0 <= i < more.len() ==> merged_values(values, more).contains_key((#[trigger] more[i]).0),
        forall|k: Seq<char>| #[trigger]
            merged_values(values, more).contains_key(k) && !values.contains_key(k) ==> exists|i: int|
                0 <= i < more.len() && (#[trigger] more[i]).0 == k && merged_values(
                    values,
                    more,
                )[k] == more[i].1,
    decreases more.len(),
{
    if more.len() > 0 {
        let rest = more.drop_last();
        lemma_merged_values_are_new(values, rest);
        let before = merged_values(values, rest);
        let after = merged_values(values, more);
        assert forall|i: int| 0 <= i < more.len() implies after.contains_key(
            (#[trigger] more[i]).0,
        ) by {
            if i < rest.len() {
                assert(rest[i] == more[i]);
            }
        }
        assert forall|k: Seq<char>| #[trigger]
            after.contains_key(k) && !values.contains_key(k) implies exists|i: int|
            0 <= i < more.len() && (#[trigger] more[i]).0 == k && after[k] == more[i].1 by {
            if before.contains_key(k) {
                let i = choose|i: int|
                    0 <= i < rest.len() && (#[trigger] rest[i]).0 == k && before[k] == rest[i].1;
                assert(more[i] == rest[i]);
            } else {
                assert(more[more.len() - 1].0 == k);
            }
        }
    }
}

/// A rule that is off or negated, or whose pattern cannot trigger or does not
/// cover the host, neither changes responses of a host nor routes its requests.
pub proof fn lemma_hosts_need_rules_in_force(r: RuleView, a: HostAnswer)
    requires
        r.disabled || r.negated || !a.can_trigger || !(a.covers_first || a.covers_second),
    ensures
        !changes_responses(r, a),
        !routes_requests(r, a),
{
}

/// Of the rules in force that cover a host, those with one of the six routing
/// operations route its requests, and those that act on responses and do not
/// settle the request change its responses.
pub proof fn lemma_rules_that_cover_a_host(r: RuleView, a: HostAnswer)
    requires
        !r.disabled,
        !r.negated,
        a.can_trigger,
        a.covers_first || a.covers_second,
    ensures
        routes_requests(r, a) <==> (r.protocol == Protocol::Host || r.protocol == Protocol::XHost
            || r.protocol == Protocol::Http || r.protocol == Protocol::Https || r.protocol
            == Protocol::Ws || r.protocol == Protocol::Wss),
        routes_requests(r, a) ==> !changes_responses(r, a),
        r.category == ProtocolCategory::Request ==> !changes_responses(r, a),
        r.protocol == Protocol::Redirect || r.protocol == Protocol::File || r.protocol
            == Protocol::Tpl || r.protocol == Protocol::RawFile || r.protocol == Protocol::Proxy
            || r.protocol == Protocol::Pac || r.protocol == Protocol::Delete || r.protocol
            == Protocol::Decode || r.protocol == Protocol::UrlReplace ==> !changes_responses(r, a),
        r.category != ProtocolCategory::Request && (r.protocol is Other || r.protocol
            == Protocol::Bp || r.protocol == Protocol::Skip) ==> changes_responses(r, a),
{
}

/// Without the cache every request is matched anew and leaves no trace.
pub proof fn lemma_requests_without_the_cache(
    s: ResolverView,
    ctx: RequestView,
    outcomes: Seq<OutcomeView>,
)
    requires
        !s.cache_enabled,
    ensures
        candidates_for(s, ctx, outcomes) == collected(s.rules, outcomes, s.rules.len()),
        remembering(s, ctx, outcomes) == s,
{
}

/// A request that is seen for the second time, by its location, its host and its path,
/// gets the candidates of the first time, whatever the patterns would say now.
pub proof fn lemma_first_matching_is_remembered(
    s: ResolverView,
    ctx: RequestView,
    outcomes: Seq<OutcomeView>,
    again: RequestView,
    later: Seq<OutcomeView>,
)
    requires
        s.cache_enabled,
        again.url == ctx.url,
        again.host == ctx.host,
        again.path == ctx.path,
    ensures
        candidates_for(remembering(s, ctx, outcomes), again, later) == candidates_for(
            s,
            ctx,
            outcomes,
        ),
        remembering(s, ctx, outcomes).rules == s.rules,
        remembering(s, ctx, outcomes).values == s.values,
        remembering(s, ctx, outcomes).cache_enabled,
{
    let key = cache_key_of(ctx.url, ctx.host, ctx.path);
    if find_entry(s.cache, key) is None {
        let value = collected(s.rules, outcomes, s.rules.len());
        let after = with_entry(s.cache, s.capacity, key, value);
        assert(after[0] == (key, value));
    }
}

/// The newest entry of the cache stands first; where it is full, the one that was used
/// longest ago goes.
pub proof fn lemma_entries_of_the_cache(
    entries: Seq<(Seq<char>, Seq<(usize, Option<Seq<Seq<char>>>, bool)>)>,
    capacity: nat,
    key: Seq<char>,
    value: Seq<(usize, Option<Seq<Seq<char>>>, bool)>,
)
    requires
        find_entry(entries, key) is None,
    ensures
        with_entry(entries, capacity, key, value)[0] == (key, value),
        entries.len() < capacity ==> with_entry(entries, capacity, key, value).drop_first()
            == entries,
        entries.len() == capacity && capacity > 0 ==> with_entry(
            entries,
            capacity,
            key,
            value,
        ).drop_first() == entries.drop_last(),
{
    let after = with_entry(entries, capacity, key, value);
    assert(after[0] == (key, value));
    assert(after.drop_first() =~= (if entries.len() == capacity {
        entries.drop_last()
    } else {
        entries
    }));
}

/// The header that a filter looks at is the one of its name in lower case, of the
/// request or of the response as it says.
pub proof fn lemma_headers_that_are_looked_at(name: Seq<char>, ctx: RequestView)
    ensures
        ctx.req_headers.contains_key(lower_case(name)) ==> filtered_header(
            FilterView::HeaderMatch { name, is_request: true },
            ctx,
        ) == Some(ctx.req_headers[lower_case(name)]),
        !ctx.req_headers.contains_key(lower_case(name)) ==> filtered_header(
            FilterView::HeaderMatch { name, is_request: true },
            ctx,
        ) is None,
        ctx.res_headers matches Some(h) ==> (h.contains_key(lower_case(name)) ==> filtered_header(
            FilterView::HeaderMatch { name, is_request: false },
            ctx,
        ) == Some(h[lower_case(name)])) && (!h.contains_key(lower_case(name)) ==> filtered_header(
            FilterView::HeaderMatch { name, is_request: false },
            ctx,
        ) is None),
        ctx.res_headers is None ==> filtered_header(
            FilterView::HeaderMatch { name, is_request: false },
            ctx,
        ) is None,
{
}

/// The rules of one operation are found among those that apply, all of them and in
/// their order.
pub proof fn lemma_rules_of_an_operation(
    list: Seq<ResolvedRuleView>,
    x: ResolvedRuleView,
    p: Protocol,
)
    ensures
        of_protocol(Seq::<ResolvedRuleView>::empty(), p).len() == 0,
        x.rule.protocol == p ==> of_protocol(list.push(x), p) == of_protocol(list, p).push(x),
        x.rule.protocol != p ==> of_protocol(list.push(x), p) == of_protocol(list, p),
{
    assert(list.push(x).drop_last() =~= list);
}

/// A rule that is added stands before those of the same priority and behind those of
/// a higher one.
pub proof fn lemma_where_rules_are_added(rules: Seq<RuleView>, r: RuleView, pos: int, i: int)
    requires
        placed_at(rules, r, pos),
        0 <= i < rules.len(),
    ensures
        rules[i].priority > r.priority ==> i < pos,
        rules[i].priority <= r.priority ==> pos <= i,
{
}

/// What the cache holds at most, unless something else is said.
pub proof fn lemma_size_of_the_cache()
    ensures
        DEFAULT_CACHE_CAPACITY == 1000,
{
}

/// Putting an answer into the cache again moves it to the front; the others stay.
pub proof fn lemma_answers_are_renewed(
    entries: Seq<(Seq<char>, Seq<(usize, Option<Seq<Seq<char>>>, bool)>)>,
    capacity: nat,
    key: Seq<char>,
    value: Seq<(usize, Option<Seq<Seq<char>>>, bool)>,
    other: Seq<char>,
)
    ensures
        find_entry(with_entry(entries, capacity, key, value), key) == Some(value),
        find_entry(entries, key) is Some && other != key ==> find_entry(
            with_entry(entries, capacity, key, value),
            other,
        ) == find_entry(entries, other),
        find_entry(entries, key) is Some ==> find_entry(without_entry(entries, key), key) is None,
{
    let after = with_entry(entries, capacity, key, value);
    assert(after[0] == (key, value));
    if find_entry(entries, key) is Some {
        let rest = without_entry(entries, key);
        assert(after.drop_first() =~= rest);
        lemma_taking_an_entry_out(entries, key, other);
        lemma_taking_an_entry_out(entries, key, key);
    }
}

proof fn lemma_taking_an_entry_out(
    entries: Seq<(Seq<char>, Seq<(usize, Option<Seq<Seq<char>>>, bool)>)>,
    key: Seq<char>,
    other: Seq<char>,
)
    ensures
        other != key ==> find_entry(without_entry(entries, key), other) == find_entry(
            entries,
            other,
        ),
        find_entry(without_entry(entries, key), key) is None,
    decreases entries.len(),
{
    if entries.len() > 0 {
        let before = entries.drop_last();
        lemma_taking_an_entry_out(before, key, other);
        assert(before.push(entries.last()) =~= entries);
        lemma_entry_at_the_end(before, entries.last(), other);
        let kept = without_entry(before, key);
        lemma_entry_at_the_end(kept, entries.last(), other);
        lemma_entry_at_the_end(kept, entries.last(), key);
    }
}

proof fn lemma_entry_at_the_end(
    entries: Seq<(Seq<char>, Seq<(usize, Option<Seq<Seq<char>>>, bool)>)>,
    e: (Seq<char>, Seq<(usize, Option<Seq<Seq<char>>>, bool)>),
    key: Seq<char>,
)
    ensures
        find_entry(entries, key) is Some ==> find_entry(entries.push(e), key) == find_entry(
            entries,
            key,
        ),
        find_entry(entries, key) is None && e.0 == key ==> find_entry(entries.push(e), key) == Some(
            e.1,
        ),
        find_entry(entries, key) is None && e.0 != key ==> find_entry(entries.push(e), key) is None,
    decreases entries.len(),
{
    let all = entries.push(e);
    if entries.len() == 0 {
        assert(all[0] == e);
        assert(all.drop_first() =~= entries);
    } else {
        assert(all[0] == entries[0]);
        assert(all.drop_first() =~= entries.drop_first().push(e));
        lemma_entry_at_the_end(entries.drop_first(), e, key);
    }
}

} // verus!
