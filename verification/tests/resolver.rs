use bifrost::map::TextMap;
use bifrost::resolver::{
    base_value, cache_key, matches_filter, normalize_skip_operation, Filter, HostAnswer, MatchOutcome,
    Protocol, ProtocolCategory, RequestContext, ResolvedRule, ResolvedRules, Rule, RuleEvidence, RulesResolver,
    SkipRule, ValueSource,
};

fn rule(pattern: &str, protocol: Protocol, name: &str, value: &str, priority: i64) -> Rule {
    Rule {
        pattern: pattern.to_string(),
        protocol,
        protocol_name: name.to_string(),
        category: ProtocolCategory::Request,
        multi_match: false,
        value: value.to_string(),
        value_source: ValueSource::Other,
        include_filters: Vec::new(),
        exclude_filters: Vec::new(),
        priority,
        negated: false,
        disabled: false,
        raw: format!("{pattern} {name}://{value}"),
        file: None,
        line: None,
    }
}

fn context(url: &str) -> RequestContext {
    let mut req_headers = TextMap::new();
    req_headers.insert("x-test", "1".to_string());
    RequestContext {
        url: url.to_string(),
        method: "GET".to_string(),
        host: "example.com".to_string(),
        path: "/".to_string(),
        client_ip: "127.0.0.1".to_string(),
        req_headers,
        status_code: None,
        res_headers: None,
    }
}

fn hit() -> MatchOutcome {
    MatchOutcome {
        matched: true,
        captures: None,
    }
}

fn miss() -> MatchOutcome {
    MatchOutcome {
        matched: false,
        captures: None,
    }
}

fn evidence_of(rules: &[Rule]) -> Vec<RuleEvidence> {
    rules
        .iter()
        .map(|rule| RuleEvidence {
            included: vec![true; rule.include_filters.len()],
            excluded: vec![false; rule.exclude_filters.len()],
            source_value: rule.value.clone(),
        })
        .collect()
}

/// A template that stands for itself.
fn fill(
    base: &String,
    _: &RequestContext,
    _: &Option<Vec<String>>,
    _: &TextMap<String>,
) -> String {
    base.clone()
}

fn values(resolved: &ResolvedRules) -> Vec<String> {
    resolved
        .rules()
        .iter()
        .map(|rule| rule.resolved_value.clone())
        .collect()
}

fn resolve_all(rules: Vec<Rule>) -> Vec<String> {
    let resolver = RulesResolver::new(rules).disable_cache();
    let evidence = evidence_of(resolver.rules());
    let outcomes = resolver.rules().iter().map(|_| hit()).collect();
    values(&resolver.resolve_uncached(&context("http://example.com/"), &outcomes, &evidence, fill))
}

#[test]
fn rules_apply_in_the_order_of_priority_and_once_per_operation() {
    assert_eq!(
        resolve_all(vec![
            rule("a", Protocol::Host, "host", "low", 1),
            rule("b", Protocol::Host, "host", "high", 9),
            rule("c", Protocol::Proxy, "proxy", "p", 5),
        ]),
        vec!["high", "p"]
    );
}

#[test]
fn operations_that_may_be_shared_apply_more_than_once() {
    let shared = |value: &str| Rule {
        multi_match: true,
        ..rule("a", Protocol::Other(1), "reqHeaders", value, 0)
    };
    assert_eq!(
        resolve_all(vec![shared("one"), shared("two")]),
        vec!["one", "two"]
    );
}

#[test]
fn a_negated_rule_blocks_its_operation() {
    let negated = Rule {
        negated: true,
        ..rule("!a", Protocol::Host, "host", "none", 10)
    };
    let rules = vec![negated, rule("b", Protocol::Host, "host", "h", 1)];
    let resolver = RulesResolver::new(rules).disable_cache();
    let evidence = evidence_of(resolver.rules());
    let found = |first: MatchOutcome| {
        values(&resolver.resolve_uncached(
            &context("http://example.com/"),
            &vec![first, hit()],
            &evidence,
            fill,
        ))
    };
    assert!(found(miss()).is_empty(), "what the pattern leaves out is blocked");
    assert_eq!(found(hit()), vec!["h"]);
}

#[test]
fn a_skip_directive_turns_rules_off() {
    assert_eq!(
        resolve_all(vec![
            rule("a", Protocol::Skip, "skip", "operation=host://h", 10),
            rule("b", Protocol::Host, "host", "h", 1),
            rule("c", Protocol::Proxy, "proxy", "p", 1),
        ]),
        vec!["p"]
    );
    assert_eq!(
        resolve_all(vec![
            rule("a", Protocol::Skip, "skip", "pattern=c", 10),
            rule("b", Protocol::Host, "host", "h", 1),
            rule("c", Protocol::Proxy, "proxy", "p", 1),
        ]),
        vec!["h"]
    );
}

#[test]
fn filters_decide_whether_a_rule_applies() {
    let filtered = |filter: Filter| Rule {
        include_filters: vec![filter],
        ..rule("a", Protocol::Host, "host", "h", 0)
    };
    assert_eq!(
        resolve_all(vec![filtered(Filter::Method(vec!["get".to_string()]))]),
        vec!["h"]
    );
    assert!(resolve_all(vec![filtered(Filter::Method(vec!["POST".to_string()]))]).is_empty());
    assert_eq!(
        resolve_all(vec![filtered(Filter::HeaderExists("X-Test".to_string()))]),
        vec!["h"]
    );
    assert!(
        resolve_all(vec![filtered(Filter::HeaderExists("X-Other".to_string()))]).is_empty()
    );
    assert_eq!(
        resolve_all(vec![filtered(Filter::StatusCode)]),
        vec!["h"],
        "a filter on the response waits for it"
    );
    let mut ctx = context("http://example.com/");
    ctx.status_code = Some(404);
    assert!(!matches_filter(&Filter::StatusCode, &ctx, false));
    assert!(matches_filter(&Filter::StatusCode, &ctx, true));
}

#[test]
fn what_is_remembered_is_what_is_found_afresh() {
    let mut resolver = RulesResolver::new(vec![
        rule("a", Protocol::Host, "host", "h", 1),
        rule("b", Protocol::Proxy, "proxy", "p", 0),
    ])
    .with_cache_capacity(1);
    let evidence = evidence_of(resolver.rules());
    let ctx = context("http://example.com/");
    assert_eq!(resolver.cached_candidates(&ctx), None);
    let outcomes = vec![hit(), miss()];
    let first = values(&resolver.resolve(&ctx, &outcomes, &evidence, fill));
    assert_eq!(first, vec!["h"]);
    assert_eq!(resolver.cached_candidates(&ctx).expect("known").len(), 1);
    assert_eq!(
        values(&resolver.resolve(&ctx, &vec![miss(), miss()], &evidence, fill)),
        first,
        "the candidates are remembered"
    );

    let other = context("http://example.com/other");
    assert_ne!(cache_key(&ctx), cache_key(&other));
    resolver.resolve(&other, &outcomes, &evidence, fill);
    assert_eq!(resolver.cached_candidates(&ctx), None, "only one list is kept");

    resolver.set_value("name", "value".to_string());
    assert_eq!(resolver.cached_candidates(&other), None);
    assert_eq!(resolver.values().get("name"), Some(&"value".to_string()));

    let mut uncached = resolver.disable_cache();
    uncached.resolve(&ctx, &outcomes, &evidence, fill);
    assert_eq!(uncached.cached_candidates(&ctx), None);
}

#[test]
fn rules_that_are_added_take_their_place() {
    let mut resolver = RulesResolver::from_store(
        vec![
            rule("a", Protocol::Host, "host", "one", 5),
            rule("b", Protocol::Host, "host", "three", 1),
        ],
        TextMap::new(),
    );
    assert_eq!(resolver.add_rule(rule("c", Protocol::Host, "host", "two", 3)), 1);
    let order: Vec<&str> = resolver
        .rules()
        .iter()
        .map(|rule| rule.value.as_str())
        .collect();
    assert_eq!(order, vec!["one", "two", "three"]);
    assert_eq!(resolver.rule_count(), 3);
    resolver.merge_from_store(&vec![("k".to_string(), "v".to_string())]);
    assert_eq!(resolver.values().get("k"), Some(&"v".to_string()));
}

#[test]
fn hosts_are_covered_by_rules_that_are_in_force() {
    let on_responses = Rule {
        category: ProtocolCategory::Response,
        ..rule("a", Protocol::Other(7), "resHeaders", "x", 0)
    };
    let answer = |covers_first: bool| HostAnswer {
        can_trigger: true,
        covers_first,
        covers_second: false,
    };
    let resolver = RulesResolver::new(vec![on_responses]);
    assert!(resolver.has_response_rules_for_host(&vec![answer(true)]));
    assert!(!resolver.has_response_rules_for_host(&vec![answer(false)]));
    assert!(!resolver.has_tls_auto_intercept_route_rules_for_host(&vec![answer(true)]));
    let routing = RulesResolver::new(vec![rule("a", Protocol::Host, "host", "h", 0)]);
    assert!(routing.has_tls_auto_intercept_route_rules_for_host(&vec![answer(true)]));
    assert!(!routing.has_response_rules_for_host(&vec![answer(true)]));
}

#[test]
fn skip_directives_are_read() {
    assert_eq!(
        SkipRule::parse(" pattern= *.example.com "),
        Some(SkipRule::Pattern("*.example.com".to_string()))
    );
    assert_eq!(SkipRule::parse("pattern="), None);
    assert_eq!(SkipRule::parse("  "), None);
    assert_eq!(normalize_skip_operation(" host://`h` "), "host://h");
    assert_eq!(normalize_skip_operation("plain"), "plain");
}

#[test]
fn resolved_rules_are_found_by_their_operation() {
    let resolver = RulesResolver::new(vec![
        rule("a", Protocol::Host, "host", "h", 3),
        rule("b", Protocol::Proxy, "proxy", "p", 2),
    ]);
    let evidence = evidence_of(resolver.rules());
    let found = resolver.resolve_uncached(
        &context("http://example.com/"),
        &vec![hit(), hit()],
        &evidence,
            fill,
    );
    assert_eq!(found.len(), 2);
    assert!(!found.is_empty());
    let proxies = found.get_by_protocol(Protocol::Proxy);
    assert_eq!(proxies.len(), 1);
    assert_eq!(proxies[0].resolved_value, "p");
    assert!(found.has_protocol(Protocol::Host));
    assert!(!found.has_protocol(Protocol::Redirect));
    assert!(found.get_by_protocol(Protocol::Redirect).is_empty());

    let mut more = ResolvedRules::default();
    more.add(ResolvedRule::new_simple(
        rule("c", Protocol::Host, "host", "raw", 0),
        Some(vec!["1".to_string()]),
        &TextMap::new(),
        "source",
        |base: &String, captures: &Option<Vec<String>>, _: &TextMap<String>| {
            format!("{base} {}", captures.as_ref().unwrap()[0])
        },
    ));
    assert_eq!(values(&more), vec!["source 1"]);
}

#[test]
fn values_are_looked_up_where_the_operation_allows_it() {
    let mut values = TextMap::new();
    values.insert("target", "looked up".to_string());
    let named = |protocol: Protocol| Rule {
        value_source: ValueSource::ValueRef("target".to_string()),
        ..rule("a", protocol, "x", "plain", 0)
    };
    assert_eq!(
        base_value(&named(Protocol::Redirect), &values, "source"),
        "looked up"
    );
    assert_eq!(
        base_value(&named(Protocol::Redirect), &TextMap::new(), "source"),
        "plain"
    );
    assert_eq!(base_value(&named(Protocol::File), &values, "source"), "plain");
    assert_eq!(base_value(&named(Protocol::Host), &values, "source"), "source");
}

#[test]
fn values_are_expanded_from_the_base_value() {
    let mut values = TextMap::new();
    values.insert("target", "http://$1.test".to_string());
    let redirect = Rule {
        value_source: ValueSource::ValueRef("target".to_string()),
        ..rule("a", Protocol::Redirect, "redirect", "plain", 0)
    };
    let expand = |base: &String,
                  ctx: &RequestContext,
                  captures: &Option<Vec<String>>,
                  _: &TextMap<String>| {
        let first = captures.as_ref().map_or("", |found| found[0].as_str());
        format!("{} for {}", base.replace("$1", first), ctx.host)
    };
    let resolved = ResolvedRule::new(
        redirect.copy(),
        Some(vec!["one".to_string()]),
        &context("http://example.com/"),
        &values,
        "source",
        expand,
    );
    assert_eq!(resolved.resolved_value, "http://one.test for example.com");

    let resolver = RulesResolver::from_store(vec![redirect], values).disable_cache();
    let evidence = evidence_of(resolver.rules());
    let outcome = MatchOutcome {
        matched: true,
        captures: Some(vec!["two".to_string()]),
    };
    let found = resolver.resolve_uncached(
        &context("http://example.com/"),
        &vec![outcome],
        &evidence,
        expand,
    );
    assert_eq!(found.rules()[0].resolved_value, "http://two.test for example.com");
}

#[test]
fn a_skip_directive_may_quote_the_value() {
    for directive in ["operation=host://h", "operation=host://`h`"] {
        assert!(resolve_all(vec![
            rule("a", Protocol::Skip, "skip", directive, 10),
            rule("b", Protocol::Host, "host", "h", 1),
        ])
        .is_empty());
    }
    let skip = SkipRule::parse("operation=host://``h``").expect("a directive");
    let quoted = rule("b", Protocol::Host, "host", "`h`", 1);
    assert!(!skip.matches(&quoted, "`h`"), "one pair of back quotes is dropped on either side");
    let bare = SkipRule::parse("operation=host://`h`").expect("a directive");
    assert!(bare.matches(&quoted, "other"));
}
