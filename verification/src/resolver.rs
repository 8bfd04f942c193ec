//! Rules for requests: which of them apply to a request, in which order, and what
//! value each of them has.
//!
//! Matchers, ranges, regular expressions and templates are held elsewhere. What
//! the first three answer for a request comes in as plain values, and what fills
//! templates in comes in as a function.

use vstd::prelude::*;
use vstd::string::*;

use crate::agent_config::map_texts;
use crate::map::TextMap;
use crate::sort::{in_order, lemma_ranked, lemma_ranked_map, ranked, sort_ranked, Comparable, Ranked};
use crate::text::{
    concat2, concat3, copy_opt, copy_texts, find_text, has_prefix, has_text, is_white,
    lemma_find_from, lemma_trim_back_facts, lemma_trim_back_keeps, lemma_trim_back_of_sum,
    lemma_trim_front_facts, lemma_trim_front_of_sum, lemma_trimmed_after_trim_back, occurs_at, opt,
    owned, same, split_at_first, split_once, strip_prefix, texts, trim, trim_back, trim_front,
    trimmed,
};

verus! {

broadcast use vstd::string::group_string_axioms;

/// How many candidate lists are kept unless a number is asked for.
pub const DEFAULT_CACHE_CAPACITY: usize = 1000;

/// What a rule does with a request. Operations that no decision here depends on
/// are told apart by a number.
#[derive(Clone, Copy, Debug, PartialEq, Eq, Structural)]
pub enum Protocol {
    Host,
    XHost,
    Http,
    Https,
    Ws,
    Wss,
    Proxy,
    Pac,
    Redirect,
    File,
    Tpl,
    RawFile,
    Delete,
    Decode,
    UrlReplace,
    Bp,
    Skip,
    Other(u32),
}

/// When an operation takes effect.
#[derive(Clone, Copy, Debug, PartialEq, Eq, Structural)]
pub enum ProtocolCategory {
    Request,
    Response,
    Both,
}

/// Where the value of a rule comes from: a named value, or anything else.
#[derive(Debug, PartialEq, Eq)]
pub enum ValueSource {
    ValueRef(String),
    Other,
}

#[verifier::ext_equal]
pub enum SourceView {
    ValueRef(Seq<char>),
    Other,
}

impl View for ValueSource {
    type V = SourceView;

    open spec fn view(&self) -> SourceView {
        match self {
            ValueSource::ValueRef(n) => SourceView::ValueRef(n@),
            ValueSource::Other => SourceView::Other,
        }
    }
}

impl ValueSource {
    fn copy(&self) -> (r: Self)
        ensures
            r@ == self@,
    {
        match self {
            ValueSource::ValueRef(n) => ValueSource::ValueRef(n.clone()),
            ValueSource::Other => ValueSource::Other,
        }
    }
}

/// A condition on a request beyond the pattern of its rule.
#[derive(Debug, PartialEq, Eq)]
pub enum Filter {
    Method(Vec<String>),
    StatusCode,
    Path,
    HeaderExists(String),
    HeaderMatch { name: String, is_request: bool },
    ClientIp,
    Body,
    Url,
    Custom,
}

#[verifier::ext_equal]
pub enum FilterView {
    Method(Seq<Seq<char>>),
    StatusCode,
    Path,
    HeaderExists(Seq<char>),
    HeaderMatch { name: Seq<char>, is_request: bool },
    ClientIp,
    Body,
    Url,
    Custom,
}

impl View for Filter {
    type V = FilterView;

    open spec fn view(&self) -> FilterView {
        match self {
            Filter::Method(v) => FilterView::Method(texts(v@)),
            Filter::StatusCode => FilterView::StatusCode,
            Filter::Path => FilterView::Path,
            Filter::HeaderExists(n) => FilterView::HeaderExists(n@),
            Filter::HeaderMatch { name, is_request } => FilterView::HeaderMatch {
                name: name@,
                is_request: *is_request,
            },
            Filter::ClientIp => FilterView::ClientIp,
            Filter::Body => FilterView::Body,
            Filter::Url => FilterView::Url,
            Filter::Custom => FilterView::Custom,
        }
    }
}

/// The views of a list of filters.
pub open spec fn filter_views(v: Seq<Filter>) -> Seq<FilterView> {
    v.map_values(|f: Filter| f@)
}

impl Filter {
    fn copy(&self) -> (r: Self)
        ensures
            r@ == self@,
    {
        match self {
            Filter::Method(v) => Filter::Method(copy_texts(v)),
            Filter::StatusCode => Filter::StatusCode,
            Filter::Path => Filter::Path,
            Filter::HeaderExists(n) => Filter::HeaderExists(n.clone()),
            Filter::HeaderMatch { name, is_request } => Filter::HeaderMatch {
                name: name.clone(),
                is_request: *is_request,
            },
            Filter::ClientIp => Filter::ClientIp,
            Filter::Body => Filter::Body,
            Filter::Url => Filter::Url,
            Filter::Custom => Filter::Custom,
        }
    }
}

fn copy_filters(v: &Vec<Filter>) -> (r: Vec<Filter>)
    ensures
        filter_views(r@) == filter_views(v@),
{
    let mut out: Vec<Filter> = Vec::new();
    let mut i: usize = 0;
    while i < v.len()
        invariant
            i <= v@.len(),
            out@.len() == i,
            forall|k: int| 0 <= k < i ==> (#[trigger] out@[k])@ == v@[k]@,
        decreases v@.len() - i,
    {
        out.push(v[i].copy());
        i = i + 1;
    }
    proof {
        assert(filter_views(out@) =~= filter_views(v@));
    }
    out
}

/// A rule: what it does, to which requests, and with which value.
#[derive(Debug, PartialEq, Eq)]
pub struct Rule {
    pub pattern: String,
    pub protocol: Protocol,
    pub protocol_name: String,
    pub category: ProtocolCategory,
    pub multi_match: bool,
    pub value: String,
    pub value_source: ValueSource,
    pub include_filters: Vec<Filter>,
    pub exclude_filters: Vec<Filter>,
    pub priority: i64,
    pub negated: bool,
    pub disabled: bool,
    pub raw: String,
    pub file: Option<String>,
    pub line: Option<usize>,
}

#[verifier::ext_equal]
pub struct RuleView {
    pub pattern: Seq<char>,
    pub protocol: Protocol,
    pub protocol_name: Seq<char>,
    pub category: ProtocolCategory,
    pub multi_match: bool,
    pub value: Seq<char>,
    pub value_source: SourceView,
    pub include_filters: Seq<FilterView>,
    pub exclude_filters: Seq<FilterView>,
    pub priority: i64,
    pub negated: bool,
    pub disabled: bool,
    pub raw: Seq<char>,
    pub file: Option<Seq<char>>,
    pub line: Option<usize>,
}

impl View for Rule {
    type V = RuleView;

    open spec fn view(&self) -> RuleView {
        RuleView {
            pattern: self.pattern@,
            protocol: self.protocol,
            protocol_name: self.protocol_name@,
            category: self.category,
            multi_match: self.multi_match,
            value: self.value@,
            value_source: self.value_source@,
            include_filters: filter_views(self.include_filters@),
            exclude_filters: filter_views(self.exclude_filters@),
            priority: self.priority,
            negated: self.negated,
            disabled: self.disabled,
            raw: self.raw@,
            file: opt(self.file),
            line: self.line,
        }
    }
}

impl Rule {
    pub fn copy(&self) -> (r: Self)
        ensures
            r@ == self@,
    {
        Rule {
            pattern: self.pattern.clone(),
            protocol: self.protocol,
            protocol_name: self.protocol_name.clone(),
            category: self.category,
            multi_match: self.multi_match,
            value: self.value.clone(),
            value_source: self.value_source.copy(),
            include_filters: copy_filters(&self.include_filters),
            exclude_filters: copy_filters(&self.exclude_filters),
            priority: self.priority,
            negated: self.negated,
            disabled: self.disabled,
            raw: self.raw.clone(),
            file: copy_opt(&self.file),
            line: self.line,
        }
    }
}

/// The views of a list of rules.
pub open spec fn rule_views(v: Seq<Rule>) -> Seq<RuleView> {
    v.map_values(|r: Rule| r@)
}

/// A request, and its response once there is one. The names of headers are in
/// lower case.
#[derive(Debug, PartialEq, Eq)]
pub struct RequestContext {
    pub url: String,
    pub method: String,
    pub host: String,
    pub path: String,
    pub client_ip: String,
    pub req_headers: TextMap<String>,
    pub status_code: Option<u16>,
    pub res_headers: Option<TextMap<String>>,
}

#[verifier::ext_equal]
pub struct RequestView {
    pub url: Seq<char>,
    pub method: Seq<char>,
    pub host: Seq<char>,
    pub path: Seq<char>,
    pub client_ip: Seq<char>,
    pub req_headers: Map<Seq<char>, Seq<char>>,
    pub status_code: Option<u16>,
    pub res_headers: Option<Map<Seq<char>, Seq<char>>>,
}

impl View for RequestContext {
    type V = RequestView;

    open spec fn view(&self) -> RequestView {
        RequestView {
            url: self.url@,
            method: self.method@,
            host: self.host@,
            path: self.path@,
            client_ip: self.client_ip@,
            req_headers: map_texts(self.req_headers@),
            status_code: self.status_code,
            res_headers: match self.res_headers {
                Some(h) => Some(map_texts(h@)),
                None => None,
            },
        }
    }
}

// ---------------------------------------------------------------------------
// The value of a rule
// ---------------------------------------------------------------------------

/// The text that the value of a rule is expanded from. Breakpoints and redirects
/// look a named value up and else keep the value as it is written; files and
/// templates always keep it; everything else takes what its source gives.
pub open spec fn base_value_of(
    r: RuleView,
    values: Map<Seq<char>, Seq<char>>,
    source_value: Seq<char>,
) -> Seq<char> {
    match r.protocol {
        Protocol::Bp | Protocol::Redirect => match r.value_source {
            SourceView::ValueRef(n) if values.contains_key(n) => values[n],
            _ => r.value,
        },
        Protocol::File | Protocol::RawFile | Protocol::Tpl => r.value,
        _ => source_value,
    }
}

/// The text that the value of a rule is expanded from, given the named values
/// and what the source of the rule's value gives.
pub fn base_value(rule: &Rule, values: &TextMap<String>, source_value: &str) -> (r: String)
    ensures
        r@ == base_value_of(rule@, map_texts(values@), source_value@),
{
    match rule.protocol {
        Protocol::Bp | Protocol::Redirect => match &rule.value_source {
            ValueSource::ValueRef(name) => match values.get(name.as_str()) {
                Some(v) => v.clone(),
                None => rule.value.clone(),
            },
            _ => rule.value.clone(),
        },
        Protocol::File | Protocol::RawFile | Protocol::Tpl => rule.value.clone(),
        _ => owned(source_value),
    }
}

/// A rule that applies to a request: what its pattern captured, and its value.
#[derive(Debug, PartialEq, Eq)]
pub struct ResolvedRule {
    pub rule: Rule,
    pub captures: Option<Vec<String>>,
    pub resolved_value: String,
}

#[verifier::ext_equal]
pub struct ResolvedRuleView {
    pub rule: RuleView,
    pub captures: Option<Seq<Seq<char>>>,
    pub resolved_value: Seq<char>,
}

/// The views of captured texts.
pub open spec fn capture_views(c: Option<Vec<String>>) -> Option<Seq<Seq<char>>> {
    match c {
        Some(v) => Some(texts(v@)),
        None => None,
    }
}

fn copy_captures(c: &Option<Vec<String>>) -> (r: Option<Vec<String>>)
    ensures
        capture_views(r) == capture_views(*c),
{
    match c {
        Some(v) => Some(copy_texts(v)),
        None => None,
    }
}

impl View for ResolvedRule {
    type V = ResolvedRuleView;

    open spec fn view(&self) -> ResolvedRuleView {
        ResolvedRuleView {
            rule: self.rule@,
            captures: capture_views(self.captures),
            resolved_value: self.resolved_value@,
        }
    }
}

/// Whether a text is what the template of a rule's base value can become for a
/// request, with what the pattern captured. `expand` fills templates in.
pub open spec fn expands_to<
    F: FnOnce(&String, &RequestContext, &Option<Vec<String>>, &TextMap<String>) -> String,
>(
    expand: F,
    r: RuleView,
    captures: Option<Seq<Seq<char>>>,
    ctx: &RequestContext,
    values: &TextMap<String>,
    source_value: Seq<char>,
    out: Seq<char>,
) -> bool {
    exists|base: String, given: Option<Vec<String>>, text: String|
        {
            &&& base@ == base_value_of(r, map_texts(values@), source_value)
            &&& capture_views(given) == captures
            &&& #[trigger] call_ensures(expand, (&base, ctx, &given, values), text)
            &&& text@ == out
        }
}

impl ResolvedRule {
    /// A rule with its value: what `expand` makes of the template of the rule's
    /// base value for the request. `source_value` is what the source of the
    /// rule's value gives.
    pub fn new<
        F: FnOnce(&String, &RequestContext, &Option<Vec<String>>, &TextMap<String>) -> String,
    >(
        rule: Rule,
        captures: Option<Vec<String>>,
        ctx: &RequestContext,
        values: &TextMap<String>,
        source_value: &str,
        expand: F,
    ) -> (r: Self)
        requires
            forall|base: String, given: Option<Vec<String>>|
                #[trigger] call_requires(expand, (&base, ctx, &given, values)),
        ensures
            r@.rule == rule@,
            r@.captures == capture_views(captures),
            expands_to(
                expand,
                rule@,
                capture_views(captures),
                ctx,
                values,
                source_value@,
                r@.resolved_value,
            ),
    {
        let base = base_value(&rule, values, source_value);
        let resolved_value = expand(&base, ctx, &captures, values);
        ResolvedRule { rule, captures, resolved_value }
    }

    /// The same outside of any request: `expand` fills the template in for an
    /// empty one.
    pub fn new_simple<F: FnOnce(&String, &Option<Vec<String>>, &TextMap<String>) -> String>(
        rule: Rule,
        captures: Option<Vec<String>>,
        values: &TextMap<String>,
        source_value: &str,
        expand: F,
    ) -> (r: Self)
        requires
            forall|base: String, given: Option<Vec<String>>|
                #[trigger] call_requires(expand, (&base, &given, values)),
        ensures
            r@.rule == rule@,
            r@.captures == capture_views(captures),
            exists|base: String, given: Option<Vec<String>>, text: String|
                {
                    &&& base@ == base_value_of(rule@, map_texts(values@), source_value@)
                    &&& capture_views(given) == capture_views(captures)
                    &&& #[trigger] call_ensures(expand, (&base, &given, values), text)
                    &&& text@ == r@.resolved_value
                },
    {
        let base = base_value(&rule, values, source_value);
        let resolved_value = expand(&base, &captures, values);
        ResolvedRule { rule, captures, resolved_value }
    }
}

// ---------------------------------------------------------------------------
// Filters
// ---------------------------------------------------------------------------

/// The text in upper case, as `str::to_uppercase` makes it.
pub uninterp spec fn upper_case(s: Seq<char>) -> Seq<char>;

/// The text in lower case, as `str::to_lowercase` makes it.
pub uninterp spec fn lower_case(s: Seq<char>) -> Seq<char>;

/// `str::to_uppercase`: the text in upper case by the rules of Unicode. It
/// depends on the text alone.
#[verifier::external_body]
fn to_upper_case(s: &str) -> (r: String)
    ensures
        r@ == upper_case(s@),
{
    s.to_uppercase()
}

/// `str::to_lowercase`: the text in lower case by the rules of Unicode. It
/// depends on the text alone.
#[verifier::external_body]
fn to_lower_case(s: &str) -> (r: String)
    ensures
        r@ == lower_case(s@),
{
    s.to_lowercase()
}

/// Whether a filter can be decided yet: the status and the headers of a response
/// are not known before there is one.
pub open spec fn evaluable(f: FilterView, ctx: RequestView) -> bool {
    match f {
        FilterView::StatusCode => ctx.status_code is Some,
        FilterView::HeaderMatch { name, is_request } => is_request || ctx.res_headers is Some,
        _ => true,
    }
}

/// Whether a method is among others, whatever the case of its letters.
pub open spec fn lists_method(methods: Seq<Seq<char>>, method: Seq<char>) -> bool {
    exists|i: int|
        0 <= i < methods.len() && upper_case(#[trigger] methods[i]) == upper_case(method)
}

/// Whether a request meets a filter. `answer` is what the range, the matcher or
/// the pattern of the filter says of the part of the request that it looks at.
pub open spec fn meets(f: FilterView, ctx: RequestView, answer: bool) -> bool {
    match f {
        FilterView::Method(methods) => lists_method(methods, ctx.method),
        FilterView::StatusCode => ctx.status_code is Some && answer,
        FilterView::Path | FilterView::ClientIp | FilterView::Url => answer,
        FilterView::HeaderExists(name) => ctx.req_headers.contains_key(lower_case(name)),
        FilterView::HeaderMatch { name, is_request } => answer && (if is_request {
            ctx.req_headers.contains_key(lower_case(name))
        } else {
            ctx.res_headers is Some && ctx.res_headers->Some_0.contains_key(lower_case(name))
        }),
        FilterView::Body => false,
        FilterView::Custom => true,
    }
}

/// The header that a filter looks at, if the request or its response has it.
pub open spec fn filtered_header(f: FilterView, ctx: RequestView) -> Option<Seq<char>> {
    match f {
        FilterView::HeaderMatch { name, is_request } => {
            let n = lower_case(name);
            if is_request {
                if ctx.req_headers.contains_key(n) {
                    Some(ctx.req_headers[n])
                } else {
                    None
                }
            } else if ctx.res_headers is Some && ctx.res_headers->Some_0.contains_key(n) {
                Some(ctx.res_headers->Some_0[n])
            } else {
                None
            }
        },
        _ => None,
    }
}

pub fn filter_is_evaluable(filter: &Filter, ctx: &RequestContext) -> (r: bool)
    ensures
        r == evaluable(filter@, ctx@),
{
    match filter {
        Filter::StatusCode => ctx.status_code.is_some(),
        Filter::HeaderMatch { name: _, is_request } => *is_request || ctx.res_headers.is_some(),
        _ => true,
    }
}

/// Finds the header that a filter looks at.
pub fn header_for_filter(filter: &Filter, ctx: &RequestContext) -> (r: Option<String>)
    ensures
        opt(r) == filtered_header(filter@, ctx@),
{
    match filter {
        Filter::HeaderMatch { name, is_request } => {
            let lower = to_lower_case(name.as_str());
            let found = if *is_request {
                ctx.req_headers.get(lower.as_str())
            } else {
                match &ctx.res_headers {
                    Some(h) => h.get(lower.as_str()),
                    None => None,
                }
            };
            match found {
                Some(v) => Some(v.clone()),
                None => None,
            }
        },
        _ => None,
    }
}

fn method_is_listed(methods: &Vec<String>, method: &str) -> (r: bool)
    ensures
        r == lists_method(texts(methods@), method@),
{
    let wanted = to_upper_case(method);
    let mut i: usize = 0;
    while i < methods.len()
        invariant
            i <= methods@.len(),
            wanted@ == upper_case(method@),
            forall|k: int|
                0 <= k < i ==> upper_case(#[trigger] texts(methods@)[k]) != upper_case(method@),
        decreases methods@.len() - i,
    {
        let upper = to_upper_case(methods[i].as_str());
        proof {
            assert(texts(methods@)[i as int] == methods@[i as int]@);
        }
        if same(upper.as_str(), wanted.as_str()) {
            return true;
        }
        i = i + 1;
    }
    false
}

pub fn matches_filter(filter: &Filter, ctx: &RequestContext, answer: bool) -> (r: bool)
    ensures
        r == meets(filter@, ctx@, answer),
{
    match filter {
        Filter::Method(methods) => method_is_listed(methods, ctx.method.as_str()),
        Filter::StatusCode => ctx.status_code.is_some() && answer,
        Filter::Path | Filter::ClientIp | Filter::Url => answer,
        Filter::HeaderExists(name) => {
            let lower = to_lower_case(name.as_str());
            proof {
                assert(map_texts(ctx.req_headers@).contains_key(lower@)
                    <==> ctx.req_headers@.contains_key(lower@));
            }
            ctx.req_headers.contains_key(lower.as_str())
        },
        Filter::HeaderMatch { name: _, is_request: _ } => {
            answer && header_for_filter(filter, ctx).is_some()
        },
        Filter::Body => false,
        Filter::Custom => true,
    }
}

/// The answer at a place of a list; there is none behind its end.
pub open spec fn answer_at(answers: Seq<bool>, i: int) -> bool {
    0 <= i < answers.len() && answers[i]
}

/// Whether a request meets every filter that can be decided.
pub open spec fn meets_all(
    filters: Seq<FilterView>,
    answers: Seq<bool>,
    ctx: RequestView,
) -> bool {
    forall|i: int|
        0 <= i < filters.len() && evaluable(#[trigger] filters[i], ctx) ==> meets(
            filters[i],
            ctx,
            answer_at(answers, i),
        )
}

/// Whether a request meets some filter that can be decided.
pub open spec fn meets_any(
    filters: Seq<FilterView>,
    answers: Seq<bool>,
    ctx: RequestView,
) -> bool {
    exists|i: int|
        0 <= i < filters.len() && evaluable(#[trigger] filters[i], ctx) && meets(
            filters[i],
            ctx,
            answer_at(answers, i),
        )
}

fn answer_for(answers: &Vec<bool>, i: usize) -> (r: bool)
    ensures
        r == answer_at(answers@, i as int),
{
    i < answers.len() && answers[i]
}

pub fn matches_all_filters(filters: &Vec<Filter>, answers: &Vec<bool>, ctx: &RequestContext) -> (r:
    bool)
    ensures
        r == meets_all(filter_views(filters@), answers@, ctx@),
{
    let ghost all = filter_views(filters@);
    let mut i: usize = 0;
    while i < filters.len()
        invariant
            i <= filters@.len(),
            all == filter_views(filters@),
            forall|k: int|
                0 <= k < i && evaluable(#[trigger] all[k], ctx@) ==> meets(
                    all[k],
                    ctx@,
                    answer_at(answers@, k),
                ),
        decreases filters@.len() - i,
    {
        proof {
            assert(all[i as int] == filters@[i as int]@);
        }
        if filter_is_evaluable(&filters[i], ctx) && !matches_filter(
            &filters[i],
            ctx,
            answer_for(answers, i),
        ) {
            return false;
        }
        i = i + 1;
    }
    true
}

pub fn matches_any_filter(filters: &Vec<Filter>, answers: &Vec<bool>, ctx: &RequestContext) -> (r:
    bool)
    ensures
        r == meets_any(filter_views(filters@), answers@, ctx@),
{
    let ghost all = filter_views(filters@);
    let mut i: usize = 0;
    while i < filters.len()
        invariant
            i <= filters@.len(),
            all == filter_views(filters@),
            forall|k: int|
                0 <= k < i && evaluable(#[trigger] all[k], ctx@) ==> !meets(
                    all[k],
                    ctx@,
                    answer_at(answers@, k),
                ),
        decreases filters@.len() - i,
    {
        proof {
            assert(all[i as int] == filters@[i as int]@);
        }
        if filter_is_evaluable(&filters[i], ctx) && matches_filter(
            &filters[i],
            ctx,
            answer_for(answers, i),
        ) {
            return true;
        }
        i = i + 1;
    }
    false
}

// ---------------------------------------------------------------------------
// Skip directives
// ---------------------------------------------------------------------------

/// An operation in its plain form: white space around its parts and back quotes
/// around its value are dropped.
pub open spec fn plain_operation(operation: Seq<char>) -> Seq<char> {
    let o = trimmed(operation);
    match split_at_first(o, "://"@) {
        None => o,
        Some((protocol, value)) => trimmed(protocol) + "://"@ + unquoted(trimmed(value)),
    }
}

/// A text without the back quotes that enclose it.
pub open spec fn unquoted(v: Seq<char>) -> Seq<char> {
    if v.len() >= 2 && v[0] == '`' && v.last() == '`' {
        v.subrange(1, v.len() - 1)
    } else {
        v
    }
}

pub fn normalize_skip_operation(operation: &str) -> (r: String)
    ensures
        r@ == plain_operation(operation@),
{
    let o = trim(operation);
    match split_once(o, "://") {
        None => owned(o),
        Some((protocol, value)) => {
            let v = trim(value);
            let n: usize = v.unicode_len();
            if n >= 2 && v.get_char(0) == '`' && v.get_char(n - 1) == '`' {
                concat3(trim(protocol), "://", v.substring_char(1, n - 1))
            } else {
                concat3(trim(protocol), "://", v)
            }
        },
    }
}

/// Which rules a skip directive turns off: those with a pattern, or those with
/// an operation.
#[derive(Debug, PartialEq, Eq)]
pub enum SkipRule {
    Pattern(String),
    Operation(String),
}

#[verifier::ext_equal]
pub enum SkipView {
    Pattern(Seq<char>),
    Operation(Seq<char>),
}

impl View for SkipRule {
    type V = SkipView;

    open spec fn view(&self) -> SkipView {
        match self {
            SkipRule::Pattern(p) => SkipView::Pattern(p@),
            SkipRule::Operation(o) => SkipView::Operation(o@),
        }
    }
}

/// The skip directive that a value spells, if it spells one.
pub open spec fn skip_of(value: Seq<char>) -> Option<SkipView> {
    let v = trimmed(value);
    if has_prefix(v, "pattern="@) {
        let p = trimmed(v.skip("pattern="@.len() as int));
        if p.len() == 0 {
            None
        } else {
            Some(SkipView::Pattern(p))
        }
    } else if has_prefix(v, "operation="@) {
        let o = plain_operation(v.skip("operation="@.len() as int));
        if o.len() == 0 {
            None
        } else {
            Some(SkipView::Operation(o))
        }
    } else {
        None
    }
}

/// The operation that a rule stands for with a value.
pub open spec fn operation_of(r: RuleView, value: Seq<char>) -> Seq<char> {
    plain_operation(r.protocol_name + "://"@ + value)
}

/// Whether a skip directive turns a rule off. An operation is compared with the
/// rule's value as it is written and as it is resolved.
pub open spec fn skips(s: SkipView, r: RuleView, resolved_value: Seq<char>) -> bool {
    match s {
        SkipView::Pattern(p) => r.pattern == p,
        SkipView::Operation(o) => o == operation_of(r, r.value) || o == operation_of(
            r,
            resolved_value,
        ),
    }
}

impl SkipRule {
    pub fn parse(value: &str) -> (r: Option<Self>)
        ensures
            (match r {
                Some(s) => Some(s@),
                None => None,
            }) == skip_of(value@),
    {
        let v = trim(value);
        match strip_prefix(v, "pattern=") {
            Some(rest) => {
                let p = trim(rest);
                if p.is_empty() {
                    None
                } else {
                    Some(SkipRule::Pattern(owned(p)))
                }
            },
            None => match strip_prefix(v, "operation=") {
                Some(rest) => {
                    let o = normalize_skip_operation(rest);
                    if o.as_str().is_empty() {
                        None
                    } else {
                        Some(SkipRule::Operation(o))
                    }
                },
                None => None,
            },
        }
    }

    pub fn matches(&self, rule: &Rule, resolved_value: &str) -> (r: bool)
        ensures
            r == skips(self@, rule@, resolved_value@),
    {
        match self {
            SkipRule::Pattern(p) => same(rule.pattern.as_str(), p.as_str()),
            SkipRule::Operation(o) => {
                let raw = normalize_skip_operation(
                    concat3(rule.protocol_name.as_str(), "://", rule.value.as_str()).as_str(),
                );
                let resolved = normalize_skip_operation(
                    concat3(rule.protocol_name.as_str(), "://", resolved_value).as_str(),
                );
                same(o.as_str(), raw.as_str()) || same(o.as_str(), resolved.as_str())
            },
        }
    }
}

proof fn lemma_spelled_operation(op: Seq<char>)
    requires
        plain_operation(op).len() > 0,
    ensures
        skip_of("operation="@ + op) == Some(SkipView::Operation(plain_operation(op))),
{
    reveal_strlit("operation=");
    reveal_strlit("pattern=");
    let head = "operation="@;
    let whole = head + op;
    lemma_trimmed_after_trim_back(op);
    lemma_trim_back_of_sum(head, op);
    assert(whole[0] == 'o');
    assert(trim_front(whole) == whole);
    lemma_trim_front_facts(op);
    lemma_trim_back_facts(op);
    if trim_back(op).len() == 0 {
        assert(trimmed(op).len() == 0);
        reveal_strlit("://");
        assert(split_at_first(trimmed(op), "://"@) is None);
    }
    let v = trimmed(whole);
    assert(v == head + trim_back(op));
    assert(!has_prefix(v, "pattern="@)) by {
        if has_prefix(v, "pattern="@) {
            assert(v[0] == v.subrange(0, 8)[0]);
        }
    }
    assert(v.subrange(0, 10) =~= head);
    assert(v.skip(10) =~= trim_back(op));
}

/// An operation that is trimmed, in its parts.
proof fn lemma_trimmed_operation(name: Seq<char>, value: Seq<char>)
    ensures
        trimmed(name + "://"@ + value) == trim_front(name) + "://"@ + trim_back(value),
{
    reveal_strlit("://");
    let mark = "://"@;
    let n = trim_front(name);
    let w = trim_back(value);
    let whole = name + mark + value;
    lemma_trim_front_facts(name);
    lemma_trim_back_facts(value);
    assert(whole =~= name + (mark + value));
    lemma_trim_front_of_sum(name, mark + value);
    assert((mark + value)[0] == ':');
    assert(trim_front(mark + value) == mark + value);
    assert(trim_front(whole) =~= (n + mark) + value);
    lemma_trim_back_of_sum(n + mark, value);
    assert((n + mark).last() == '/');
    assert(trim_back(n + mark) == n + mark);
    assert(trimmed(whole) =~= n + mark + w);
}

/// The first `://` of an operation stands behind its name.
proof fn lemma_operation_splits(n: Seq<char>, w: Seq<char>)
    requires
        !has_text(n, "://"@),
    ensures
        split_at_first(n + "://"@ + w, "://"@) == Some((n, w)),
{
    reveal_strlit("://");
    let mark = "://"@;
    let o = n + mark + w;
    let k = n.len() as int;
    assert(o.subrange(k, k + 3) =~= mark);
    assert forall|j: int| 0 <= j < k implies !occurs_at(o, mark, j) by {
        if occurs_at(o, mark, j) {
            let part = o.subrange(j, j + 3);
            assert(part[0] == o[j] && part[1] == o[j + 1] && part[2] == o[j + 2]);
            assert(o[k] == ':' && o[k + 1] == '/');
            if j + 3 <= k {
                assert(n.subrange(j, j + 3) =~= part);
                assert(occurs_at(n, mark, j));
            }
        }
    }
    assert(occurs_at(o, mark, k));
    lemma_find_from(o, mark, 0);
    assert(find_text(o, mark) == Some(k));
    assert(o.take(k) =~= n);
    assert(o.skip(k + 3) =~= w);
}

/// The plain form of an operation whose name holds no `://`.
proof fn lemma_plain_operation(name: Seq<char>, value: Seq<char>)
    requires
        !has_text(name, "://"@),
    ensures
        plain_operation(name + "://"@ + value) == trimmed(name) + "://"@ + unquoted(trimmed(value)),
{
    let n = trim_front(name);
    let w = trim_back(value);
    lemma_trim_front_facts(name);
    lemma_trimmed_operation(name, value);
    assert(!has_text(n, "://"@)) by {
        if has_text(n, "://"@) {
            reveal_strlit("://");
            let j = choose|j: int| occurs_at(n, "://"@, j);
            let at = name.len() - n.len() + j;
            assert(name.subrange(at, at + 3) =~= n.subrange(j, j + 3));
            assert(occurs_at(name, "://"@, at));
        }
    }
    lemma_operation_splits(n, w);
    assert(trim_front(n) == n);
    lemma_trimmed_after_trim_back(value);
}

/// A skip directive that names the operation of a rule as it is written turns the
/// rule off, whatever the rule's value becomes.
pub proof fn lemma_naming_an_operation_skips_it(r: RuleView, resolved_value: Seq<char>)
    ensures
        skip_of("operation="@ + (r.protocol_name + "://"@ + r.value)) matches Some(s) && skips(
            s,
            r,
            resolved_value,
        ),
{
    reveal_strlit("://");
    let op = r.protocol_name + "://"@ + r.value;
    let i = r.protocol_name.len() as int;
    assert(op[i] == ':');
    assert(plain_operation(op).len() > 0) by {
        lemma_trimmed_keeps(op, i);
    }
    lemma_spelled_operation(op);
}

proof fn lemma_trimmed_keeps(s: Seq<char>, i: int)
    requires
        0 <= i < s.len(),
        !is_white(s[i]),
    ensures
        trimmed(s).len() > 0,
{
    let a = s.take(i);
    let b = s.skip(i);
    assert(s =~= a + b);
    assert(b[0] == s[i]);
    lemma_trim_front_of_sum(a, b);
    assert(trim_front(b) == b);
    if trim_front(a).len() > 0 {
        let f = trim_front(a) + b;
        assert(f[trim_front(a).len() as int] == b[0]);
        lemma_trim_back_keeps(f, trim_front(a).len() as int);
    } else {
        lemma_trim_back_keeps(b, 0);
    }
}

/// The same holds with the value in back quotes, where the value is not itself in
/// back quotes and has no white space around it, and the name of the operation
/// holds no `://`.
pub proof fn lemma_naming_a_quoted_operation_skips_it(r: RuleView, resolved_value: Seq<char>)
    requires
        !has_text(r.protocol_name, "://"@),
        unquoted(trimmed(r.value)) == r.value,
    ensures
        skip_of(
            "operation="@ + (r.protocol_name + "://"@ + ("`"@ + r.value + "`"@)),
        ) matches Some(s) && skips(s, r, resolved_value),
{
    reveal_strlit("`");
    reveal_strlit("://");
    let quoted = "`"@ + r.value + "`"@;
    assert(quoted[0] == '`' && quoted.last() == '`');
    assert(trimmed(quoted) == quoted);
    assert(unquoted(quoted) =~= r.value);
    lemma_plain_operation(r.protocol_name, r.value);
    lemma_plain_operation(r.protocol_name, quoted);
    lemma_spelled_operation(r.protocol_name + "://"@ + quoted);
}

/// The views of a list of skip directives.
pub open spec fn skip_views(v: Seq<SkipRule>) -> Seq<SkipView> {
    v.map_values(|s: SkipRule| s@)
}

/// Whether some skip directive turns a rule off.
pub open spec fn skipped(list: Seq<SkipView>, r: RuleView, resolved_value: Seq<char>) -> bool {
    exists|i: int| 0 <= i < list.len() && skips(#[trigger] list[i], r, resolved_value)
}

fn should_skip_rule(rule: &Rule, active_skips: &Vec<SkipRule>, resolved_value: &str) -> (r: bool)
    ensures
        r == skipped(skip_views(active_skips@), rule@, resolved_value@),
{
    let ghost all = skip_views(active_skips@);
    let mut i: usize = 0;
    while i < active_skips.len()
        invariant
            i <= active_skips@.len(),
            all == skip_views(active_skips@),
            forall|k: int| 0 <= k < i ==> !skips(#[trigger] all[k], rule@, resolved_value@),
        decreases active_skips@.len() - i,
    {
        proof {
            assert(all[i as int] == active_skips@[i as int]@);
        }
        if active_skips[i].matches(rule, resolved_value) {
            return true;
        }
        i = i + 1;
    }
    false
}

// ---------------------------------------------------------------------------
// Candidates
// ---------------------------------------------------------------------------

/// What the matcher of a rule says of a request.
#[derive(Debug, PartialEq, Eq)]
pub struct MatchOutcome {
    pub matched: bool,
    pub captures: Option<Vec<String>>,
}

#[verifier::ext_equal]
pub struct OutcomeView {
    pub matched: bool,
    pub captures: Option<Seq<Seq<char>>>,
}

impl View for MatchOutcome {
    type V = OutcomeView;

    open spec fn view(&self) -> OutcomeView {
        OutcomeView { matched: self.matched, captures: capture_views(self.captures) }
    }
}

/// The views of a list of outcomes.
pub open spec fn outcome_views(v: Seq<MatchOutcome>) -> Seq<OutcomeView> {
    v.map_values(|o: MatchOutcome| o@)
}

/// A rule whose pattern speaks for it, by its place among the rules. A negated
/// rule is a candidate where its pattern does not match.
#[derive(Debug, PartialEq, Eq)]
pub struct CandidateMatch {
    pub rule_index: usize,
    pub captures: Option<Vec<String>>,
    pub is_negated: bool,
}

impl View for CandidateMatch {
    type V = (usize, Option<Seq<Seq<char>>>, bool);

    open spec fn view(&self) -> (usize, Option<Seq<Seq<char>>>, bool) {
        (self.rule_index, capture_views(self.captures), self.is_negated)
    }
}

/// The views of a list of candidates.
pub open spec fn candidate_views(v: Seq<CandidateMatch>) -> Seq<
    (usize, Option<Seq<Seq<char>>>, bool),
> {
    v.map_values(|c: CandidateMatch| c@)
}

/// The candidate that a rule is, if it is one.
pub open spec fn candidate_of(r: RuleView, o: OutcomeView, i: int) -> Option<
    (usize, Option<Seq<Seq<char>>>, bool),
> {
    if r.negated {
        if o.matched {
            None
        } else {
            Some((i as usize, None, true))
        }
    } else if o.matched {
        Some((i as usize, o.captures, false))
    } else {
        None
    }
}

/// The candidates among the first `n` rules, in the order of the rules.
pub open spec fn collected(rules: Seq<RuleView>, outcomes: Seq<OutcomeView>, n: nat) -> Seq<
    (usize, Option<Seq<Seq<char>>>, bool),
>
    decreases n,
{
    if n == 0 {
        Seq::empty()
    } else {
        let before = collected(rules, outcomes, (n - 1) as nat);
        match candidate_of(rules[n - 1], outcomes[n - 1], n - 1) {
            Some(c) => before.push(c),
            None => before,
        }
    }
}

/// Collects the rules whose patterns speak for them.
pub fn collect_candidates(rules: &Vec<Rule>, outcomes: &Vec<MatchOutcome>) -> (r: Vec<
    CandidateMatch,
>)
    requires
        outcomes@.len() == rules@.len(),
    ensures
        candidate_views(r@) == collected(
            rule_views(rules@),
            outcome_views(outcomes@),
            rules@.len(),
        ),
{
    let ghost rv = rule_views(rules@);
    let ghost ov = outcome_views(outcomes@);
    let mut out: Vec<CandidateMatch> = Vec::new();
    let mut i: usize = 0;
    proof {
        assert(candidate_views(out@) =~= collected(rv, ov, 0));
    }
    while i < rules.len()
        invariant
            i <= rules@.len(),
            outcomes@.len() == rules@.len(),
            rv == rule_views(rules@),
            ov == outcome_views(outcomes@),
            candidate_views(out@) == collected(rv, ov, i as nat),
        decreases rules@.len() - i,
    {
        let ghost before = out@;
        proof {
            assert(rv[i as int] == rules@[i as int]@);
            assert(ov[i as int] == outcomes@[i as int]@);
        }
        if rules[i].negated {
            if !outcomes[i].matched {
                out.push(CandidateMatch { rule_index: i, captures: None, is_negated: true });
                proof {
                    assert(candidate_views(out@) =~= candidate_views(before).push(
                        out@.last()@,
                    ));
                }
            }
        } else if outcomes[i].matched {
            out.push(
                CandidateMatch {
                    rule_index: i,
                    captures: copy_captures(&outcomes[i].captures),
                    is_negated: false,
                },
            );
            proof {
                assert(candidate_views(out@) =~= candidate_views(before).push(out@.last()@));
            }
        }
        i = i + 1;
    }
    out
}

// ---------------------------------------------------------------------------
// The rules that apply
// ---------------------------------------------------------------------------

/// What is found out about a rule for a request: the answers to its filters, and
/// what the source of its value gives.
#[derive(Debug, PartialEq, Eq)]
pub struct RuleEvidence {
    pub included: Vec<bool>,
    pub excluded: Vec<bool>,
    pub source_value: String,
}

/// What is known of the rule of a candidate besides its pattern: the answers to
/// its filters, and its value expanded with what the pattern captured and without.
#[derive(Debug, PartialEq, Eq)]
pub struct RuleFacts {
    pub included: Vec<bool>,
    pub excluded: Vec<bool>,
    pub expanded: String,
    pub plain: String,
}

#[verifier::ext_equal]
pub struct FactsView {
    pub included: Seq<bool>,
    pub excluded: Seq<bool>,
    pub expanded: Seq<char>,
    pub plain: Seq<char>,
}

impl View for RuleFacts {
    type V = FactsView;

    open spec fn view(&self) -> FactsView {
        FactsView {
            included: self.included@,
            excluded: self.excluded@,
            expanded: self.expanded@,
            plain: self.plain@,
        }
    }
}

/// The views of a list of facts.
pub open spec fn facts_views(v: Seq<RuleFacts>) -> Seq<FactsView> {
    v.map_values(|f: RuleFacts| f@)
}

/// Whether a request gets past the filters of a rule: it meets all that let a
/// request in and none that keep one out.
pub open spec fn admitted(r: RuleView, f: FactsView, ctx: RequestView) -> bool {
    meets_all(r.include_filters, f.included, ctx) && !meets_any(r.exclude_filters, f.excluded, ctx)
}

fn is_admitted(rule: &Rule, facts: &RuleFacts, ctx: &RequestContext) -> (r: bool)
    ensures
        r == admitted(rule@, facts@, ctx@),
{
    matches_all_filters(&rule.include_filters, &facts.included, ctx) && !matches_any_filter(
        &rule.exclude_filters,
        &facts.excluded,
        ctx,
    )
}

/// The skip directive that a candidate brings, if it brings one.
pub open spec fn active_skip(
    rules: Seq<RuleView>,
    f: FactsView,
    ctx: RequestView,
    c: (usize, Option<Seq<Seq<char>>>, bool),
) -> Option<SkipView> {
    if c.2 || c.0 >= rules.len() {
        None
    } else {
        let r = rules[c.0 as int];
        if r.disabled || r.protocol != Protocol::Skip || !admitted(r, f, ctx) {
            None
        } else {
            skip_of(r.value)
        }
    }
}

/// The skip directives that the candidates bring. Each candidate has facts of its
/// own.
pub open spec fn active_skips(
    rules: Seq<RuleView>,
    facts: Seq<FactsView>,
    ctx: RequestView,
    candidates: Seq<(usize, Option<Seq<Seq<char>>>, bool)>,
) -> Seq<SkipView>
    decreases candidates.len(),
{
    if candidates.len() == 0 {
        Seq::empty()
    } else {
        let before = active_skips(rules, facts, ctx, candidates.drop_last());
        match active_skip(rules, facts[candidates.len() - 1], ctx, candidates.last()) {
            Some(s) => before.push(s),
            None => before,
        }
    }
}

/// Where the choice of rules stands: the rules that apply, and the operations
/// for which no further rule is taken.
#[verifier::ext_equal]
pub struct GateView {
    pub chosen: Seq<ResolvedRuleView>,
    pub closed: Set<Protocol>,
}

/// The choice after one more candidate. A negated one closes its operation. Any
/// other applies where it is not disabled, its operation is not closed, it gets
/// past its filters and no skip directive turns it off; it then closes its
/// operation unless several rules may share it. A skip directive itself never
/// applies.
pub open spec fn gate_step(
    rules: Seq<RuleView>,
    f: FactsView,
    ctx: RequestView,
    skips: Seq<SkipView>,
    g: GateView,
    c: (usize, Option<Seq<Seq<char>>>, bool),
) -> GateView {
    if c.0 >= rules.len() {
        g
    } else {
        let r = rules[c.0 as int];
        if r.disabled {
            g
        } else if c.2 {
            GateView { closed: g.closed.insert(r.protocol), ..g }
        } else if (!r.multi_match && g.closed.contains(r.protocol)) || !admitted(r, f, ctx)
            || r.protocol == Protocol::Skip || skipped(skips, r, f.plain) {
            g
        } else {
            GateView {
                chosen: g.chosen.push(
                    ResolvedRuleView { rule: r, captures: c.1, resolved_value: f.expanded },
                ),
                closed: if r.multi_match {
                    g.closed
                } else {
                    g.closed.insert(r.protocol)
                },
            }
        }
    }
}

/// The choice after a list of candidates.
pub open spec fn gated(
    rules: Seq<RuleView>,
    facts: Seq<FactsView>,
    ctx: RequestView,
    skips: Seq<SkipView>,
    candidates: Seq<(usize, Option<Seq<Seq<char>>>, bool)>,
) -> GateView
    decreases candidates.len(),
{
    if candidates.len() == 0 {
        GateView { chosen: Seq::empty(), closed: Set::empty() }
    } else {
        gate_step(
            rules,
            facts[candidates.len() - 1],
            ctx,
            skips,
            gated(rules, facts, ctx, skips, candidates.drop_last()),
            candidates.last(),
        )
    }
}

/// The rules of the candidates that apply to a request.
pub open spec fn resolution(
    rules: Seq<RuleView>,
    facts: Seq<FactsView>,
    ctx: RequestView,
    candidates: Seq<(usize, Option<Seq<Seq<char>>>, bool)>,
) -> Seq<ResolvedRuleView> {
    gated(rules, facts, ctx, active_skips(rules, facts, ctx, candidates), candidates).chosen
}

/// Collects the skip directives that the candidates bring.
pub fn collect_active_skips(
    rules: &Vec<Rule>,
    facts: &Vec<RuleFacts>,
    ctx: &RequestContext,
    candidates: &Vec<CandidateMatch>,
) -> (r: Vec<SkipRule>)
    requires
        facts@.len() == candidates@.len(),
    ensures
        skip_views(r@) == active_skips(
            rule_views(rules@),
            facts_views(facts@),
            ctx@,
            candidate_views(candidates@),
        ),
{
    let ghost rv = rule_views(rules@);
    let ghost fv = facts_views(facts@);
    let ghost all = candidate_views(candidates@);
    let mut out: Vec<SkipRule> = Vec::new();
    let mut i: usize = 0;
    proof {
        assert(skip_views(out@) =~= active_skips(rv, fv, ctx@, all.take(0)));
    }
    while i < candidates.len()
        invariant
            i <= candidates@.len(),
            facts@.len() == candidates@.len(),
            rv == rule_views(rules@),
            fv == facts_views(facts@),
            all == candidate_views(candidates@),
            skip_views(out@) == active_skips(rv, fv, ctx@, all.take(i as int)),
        decreases candidates@.len() - i,
    {
        let ghost before = out@;
        let c = &candidates[i];
        proof {
            assert(all.take(i + 1).drop_last() =~= all.take(i as int));
            assert(all.take(i + 1).last() == c@);
        }
        if !c.is_negated && c.rule_index < rules.len() {
            let rule = &rules[c.rule_index];
            proof {
                assert(rv[c.rule_index as int] == rule@);
                assert(fv[i as int] == facts@[i as int]@);
            }
            if !rule.disabled && rule.protocol == Protocol::Skip && is_admitted(
                rule,
                &facts[i],
                ctx,
            ) {
                if let Some(s) = SkipRule::parse(rule.value.as_str()) {
                    out.push(s);
                    proof {
                        assert(skip_views(out@) =~= skip_views(before).push(out@.last()@));
                    }
                }
            }
        }
        i = i + 1;
    }
    proof {
        assert(all.take(i as int) =~= all);
    }
    out
}

/// The places of the rules of an operation in a list.
pub open spec fn places(list: Seq<ResolvedRuleView>, p: Protocol) -> Seq<usize>
    decreases list.len(),
{
    if list.len() == 0 {
        Seq::empty()
    } else {
        let before = places(list.drop_last(), p);
        if list.last().rule.protocol == p {
            before.push((list.len() - 1) as usize)
        } else {
            before
        }
    }
}

/// The rules of an operation in a list, in the order of the list.
pub open spec fn of_protocol(list: Seq<ResolvedRuleView>, p: Protocol) -> Seq<ResolvedRuleView>
    decreases list.len(),
{
    if list.len() == 0 {
        Seq::empty()
    } else {
        let before = of_protocol(list.drop_last(), p);
        if list.last().rule.protocol == p {
            before.push(list.last())
        } else {
            before
        }
    }
}

/// The places of an operation are where its rules are.
proof fn lemma_places(list: Seq<ResolvedRuleView>, p: Protocol)
    requires
        list.len() <= usize::MAX,
    ensures
        places(list, p).len() == of_protocol(list, p).len(),
        forall|i: int|
            0 <= i < places(list, p).len() ==> (#[trigger] places(list, p)[i]) < list.len()
                && list[places(list, p)[i] as int] == of_protocol(list, p)[i],
    decreases list.len(),
{
    if list.len() > 0 {
        lemma_places(list.drop_last(), p);
        let before = places(list.drop_last(), p);
        assert forall|i: int| 0 <= i < places(list, p).len() implies (#[trigger] places(
            list,
            p,
        )[i]) < list.len() && list[places(list, p)[i] as int] == of_protocol(list, p)[i] by {
            if i < before.len() {
                assert(places(list, p)[i] == before[i]);
                assert(list.drop_last()[before[i] as int] == list[before[i] as int]);
            }
        }
    }
}

/// The views of a list of rules that apply.
pub open spec fn resolved_views(v: Seq<ResolvedRule>) -> Seq<ResolvedRuleView> {
    v.map_values(|r: ResolvedRule| r@)
}

/// The rules that apply to a request, in order, and where those of each operation
/// stand.
#[derive(Debug, PartialEq, Eq)]
pub struct ResolvedRules {
    rules: Vec<ResolvedRule>,
    by_protocol: Vec<(Protocol, Vec<usize>)>,
}

/// Whether an index lists, for each operation that occurs, the places of its
/// rules.
pub open spec fn indexes(index: Seq<(Protocol, Vec<usize>)>, list: Seq<ResolvedRuleView>) -> bool {
    &&& forall|k: int|
        0 <= k < index.len() ==> (#[trigger] index[k]).1@ == places(list, index[k].0)
            && index[k].1@.len() > 0
    &&& forall|j: int, k: int|
        0 <= j < k < index.len() ==> (#[trigger] index[j]).0 != (#[trigger] index[k]).0
    &&& forall|p: Protocol|
        (#[trigger] places(list, p)).len() > 0 ==> exists|k: int|
            0 <= k < index.len() && (#[trigger] index[k]).0 == p
}

impl View for ResolvedRules {
    type V = Seq<ResolvedRuleView>;

    closed spec fn view(&self) -> Seq<ResolvedRuleView> {
        resolved_views(self.rules@)
    }
}

impl ResolvedRules {
    #[verifier::type_invariant]
    spec fn inv(self) -> bool {
        indexes(self.by_protocol@, resolved_views(self.rules@))
    }

    pub fn new() -> (r: Self)
        ensures
            r@ == Seq::<ResolvedRuleView>::empty(),
    {
        let r = ResolvedRules { rules: Vec::new(), by_protocol: Vec::new() };
        proof {
            assert(r@ =~= Seq::<ResolvedRuleView>::empty());
        }
        r
    }

    /// The rules in order.
    pub fn rules(&self) -> (r: &Vec<ResolvedRule>)
        ensures
            resolved_views(r@) == self@,
    {
        &self.rules
    }

    /// The place of an operation in the index.
    fn entry_of(&self, protocol: Protocol) -> (r: Option<usize>)
        ensures
            match r {
                Some(k) => k < self.by_protocol@.len() && self.by_protocol@[k as int].0
                    == protocol,
                None => forall|k: int|
                    0 <= k < self.by_protocol@.len() ==> (#[trigger] self.by_protocol@[k]).0
                        != protocol,
            },
    {
        let mut k: usize = 0;
        while k < self.by_protocol.len()
            invariant
                k <= self.by_protocol@.len(),
                forall|j: int|
                    0 <= j < k ==> (#[trigger] self.by_protocol@[j]).0 != protocol,
            decreases self.by_protocol@.len() - k,
        {
            if self.by_protocol[k].0 == protocol {
                return Some(k);
            }
            k = k + 1;
        }
        None
    }

    /// Adds a rule behind the others.
    pub fn add(&mut self, resolved: ResolvedRule)
        ensures
            final(self)@ == old(self)@.push(resolved@),
    {
        proof {
            use_type_invariant(&*self);
        }
        let at: usize = self.rules.len();
        let protocol = resolved.rule.protocol;
        let entry = self.entry_of(protocol);
        let ghost before = resolved_views(self.rules@);
        let ghost known = self.by_protocol@;
        let mut taken = ResolvedRules::new();
        std::mem::swap(self, &mut taken);
        let mut rules = taken.rules;
        let mut index = taken.by_protocol;
        rules.push(resolved);
        let ghost after = resolved_views(rules@);
        proof {
            assert(after =~= before.push(resolved@));
            assert(after.drop_last() =~= before);
            assert forall|p: Protocol| p != protocol implies #[trigger] places(after, p) == places(
                before,
                p,
            ) by {}
            assert(places(after, protocol) == places(before, protocol).push(at));
        }
        match entry {
            Some(k) => {
                let mut e = index.remove(k);
                e.1.push(at);
                index.insert(k, e);
                proof {
                    assert(index@.len() == known.len());
                    assert(forall|j: int| 0 <= j < known.len() && j != k ==> index@[j] == known[j]);
                    assert(index@[k as int].0 == protocol);
                    assert(index@[k as int].1@ == places(after, protocol));
                    assert forall|j: int| 0 <= j < index@.len() implies (#[trigger] index@[j]).1@
                        == places(after, index@[j].0) && index@[j].1@.len() > 0 by {
                        if j != k {
                            assert(index@[j] == known[j]);
                            assert(known[j].0 != known[k as int].0);
                        }
                    }
                    assert forall|i: int, j: int| 0 <= i < j < index@.len() implies (
                    #[trigger] index@[i]).0 != (#[trigger] index@[j]).0 by {
                        assert(known[i].0 != known[j].0);
                    }
                    assert forall|p: Protocol| (#[trigger] places(after, p)).len() > 0 implies exists|
                        j: int,
                    |
                        0 <= j < index@.len() && (#[trigger] index@[j]).0 == p by {
                        if p == protocol {
                            assert(index@[k as int].0 == p);
                        } else {
                            assert(places(before, p).len() > 0);
                            let j = choose|j: int|
                                0 <= j < known.len() && (#[trigger] known[j]).0 == p;
                            assert(index@[j].0 == p);
                        }
                    }
                }
            },
            None => {
                let mut fresh: Vec<usize> = Vec::new();
                fresh.push(at);
                index.push((protocol, fresh));
                proof {
                    assert(places(before, protocol).len() == 0);
                    assert(places(after, protocol) =~= seq![at]);
                    assert forall|j: int| 0 <= j < index@.len() implies (#[trigger] index@[j]).1@
                        == places(after, index@[j].0) && index@[j].1@.len() > 0 by {
                        if j < known.len() {
                            assert(index@[j] == known[j]);
                        } else {
                            assert(index@[j].1@ =~= seq![at]);
                        }
                    }
                    assert forall|i: int, j: int| 0 <= i < j < index@.len() implies (
                    #[trigger] index@[i]).0 != (#[trigger] index@[j]).0 by {
                        assert(index@[i] == known[i]);
                        if j < known.len() {
                            assert(index@[j] == known[j]);
                        }
                    }
                    assert forall|p: Protocol| (#[trigger] places(after, p)).len() > 0 implies exists|
                        j: int,
                    |
                        0 <= j < index@.len() && (#[trigger] index@[j]).0 == p by {
                        if p == protocol {
                            assert(index@[known.len() as int].0 == p);
                        } else {
                            assert(places(before, p).len() > 0);
                            let j = choose|j: int|
                                0 <= j < known.len() && (#[trigger] known[j]).0 == p;
                            assert(index@[j].0 == p);
                        }
                    }
                }
            },
        }
        *self = ResolvedRules { rules, by_protocol: index };
    }

    /// The rules of an operation, in order.
    pub fn get_by_protocol(&self, protocol: Protocol) -> (r: Vec<&ResolvedRule>)
        ensures
            r@.map_values(|x: &ResolvedRule| x@) == of_protocol(self@, protocol),
    {
        let n: usize = self.rules.len();
        proof {
            use_type_invariant(self);
            assert(self@.len() == n);
            lemma_places(self@, protocol);
        }
        let mut out: Vec<&ResolvedRule> = Vec::new();
        match self.entry_of(protocol) {
            Some(k) => {
                let found = &self.by_protocol[k].1;
                let mut i: usize = 0;
                while i < found.len()
                    invariant
                        i <= found@.len(),
                        found@ == places(self@, protocol),
                        self@ == resolved_views(self.rules@),
                        places(self@, protocol).len() == of_protocol(self@, protocol).len(),
                        forall|j: int|
                            0 <= j < places(self@, protocol).len() ==> (#[trigger] places(
                                self@,
                                protocol,
                            )[j]) < self@.len() && self@[places(self@, protocol)[j] as int]
                                == of_protocol(self@, protocol)[j],
                        out@.len() == i,
                        forall|j: int|
                            0 <= j < i ==> (#[trigger] out@[j])@ == of_protocol(
                                self@,
                                protocol,
                            )[j],
                    decreases found@.len() - i,
                {
                    proof {
                        assert(places(self@, protocol)[i as int] == found@[i as int]);
                    }
                    out.push(&self.rules[found[i]]);
                    i = i + 1;
                }
            },
            None => {
                proof {
                    assert(places(self@, protocol).len() == 0);
                }
            },
        }
        proof {
            assert(out@.map_values(|x: &ResolvedRule| x@) =~= of_protocol(self@, protocol));
        }
        out
    }

    /// Whether some rule has an operation.
    pub fn has_protocol(&self, protocol: Protocol) -> (r: bool)
        ensures
            r == exists|i: int|
                0 <= i < self@.len() && (#[trigger] self@[i]).rule.protocol == protocol,
    {
        proof {
            use_type_invariant(self);
            lemma_has_places(self@, protocol);
        }
        self.entry_of(protocol).is_some()
    }

    pub fn is_empty(&self) -> (r: bool)
        ensures
            r == (self@.len() == 0),
    {
        self.rules.len() == 0
    }

    pub fn len(&self) -> (r: usize)
        ensures
            r == self@.len(),
    {
        self.rules.len()
    }
}

/// An operation has places in a list where some rule of the list has it.
proof fn lemma_has_places(list: Seq<ResolvedRuleView>, p: Protocol)
    ensures
        places(list, p).len() > 0 <==> exists|i: int|
            0 <= i < list.len() && (#[trigger] list[i]).rule.protocol == p,
    decreases list.len(),
{
    if list.len() > 0 {
        let rest = list.drop_last();
        lemma_has_places(rest, p);
        if places(list, p).len() > 0 {
            if list.last().rule.protocol == p {
                assert(list[list.len() - 1].rule.protocol == p);
            } else {
                let i = choose|i: int|
                    0 <= i < rest.len() && (#[trigger] rest[i]).rule.protocol == p;
                assert(list[i].rule.protocol == p);
            }
        }
        if exists|i: int| 0 <= i < list.len() && (#[trigger] list[i]).rule.protocol == p {
            let i = choose|i: int| 0 <= i < list.len() && (#[trigger] list[i]).rule.protocol == p;
            if i < rest.len() {
                assert(rest[i].rule.protocol == p);
            }
        }
    }
}

impl Default for ResolvedRules {
    fn default() -> (r: Self)
        ensures
            r@ == Seq::<ResolvedRuleView>::empty(),
    {
        ResolvedRules::new()
    }
}

fn is_closed(closed: &Vec<Protocol>, protocol: Protocol) -> (r: bool)
    ensures
        r == closed@.to_set().contains(protocol),
{
    let mut i: usize = 0;
    while i < closed.len()
        invariant
            i <= closed@.len(),
            forall|j: int| 0 <= j < i ==> (#[trigger] closed@[j]) != protocol,
        decreases closed@.len() - i,
    {
        if closed[i] == protocol {
            proof {
                assert(closed@.contains(closed@[i as int]));
            }
            return true;
        }
        i = i + 1;
    }
    false
}

fn close(closed: &mut Vec<Protocol>, protocol: Protocol)
    ensures
        final(closed)@.to_set() == old(closed)@.to_set().insert(protocol),
{
    closed.push(protocol);
    proof {
        let before = old(closed)@;
        let after = closed@;
        assert forall|p: Protocol| after.to_set().contains(p) <==> before.to_set().insert(
            protocol,
        ).contains(p) by {
            if after.contains(p) {
                let i = choose|i: int| 0 <= i < after.len() && after[i] == p;
                if i < before.len() {
                    assert(before[i] == p);
                    assert(before.contains(p));
                }
            }
            if before.contains(p) {
                let i = choose|i: int| 0 <= i < before.len() && before[i] == p;
                assert(after[i] == p);
            }
            assert(after[before.len() as int] == protocol);
        }
        assert(after.to_set() =~= before.to_set().insert(protocol));
    }
}

/// Whether some facts of candidates are what is found out about their rules: the
/// answers to the filters, and what `expand` makes of the base values.
pub open spec fn facts_from<
    F: FnOnce(&String, &RequestContext, &Option<Vec<String>>, &TextMap<String>) -> String,
>(
    facts: Seq<FactsView>,
    rules: Seq<RuleView>,
    candidates: Seq<(usize, Option<Seq<Seq<char>>>, bool)>,
    ctx: &RequestContext,
    values: &TextMap<String>,
    evidence: Seq<RuleEvidence>,
    expand: F,
) -> bool {
    &&& facts.len() == candidates.len()
    &&& forall|i: int|
        0 <= i < candidates.len() && candidates[i].0 < rules.len() ==> {
            let at = candidates[i].0 as int;
            let e = evidence[at];
            let f = #[trigger] facts[i];
            &&& f.included == e.included@
            &&& f.excluded == e.excluded@
            &&& expands_to(
                expand,
                rules[at],
                candidates[i].1,
                ctx,
                values,
                e.source_value@,
                f.expanded,
            )
            &&& expands_to(expand, rules[at], None, ctx, values, e.source_value@, f.plain)
        }
}

fn copy_answers(v: &Vec<bool>) -> (r: Vec<bool>)
    ensures
        r@ == v@,
{
    let mut out: Vec<bool> = Vec::new();
    let mut i: usize = 0;
    while i < v.len()
        invariant
            i <= v@.len(),
            out@ == v@.take(i as int),
        decreases v@.len() - i,
    {
        out.push(v[i]);
        proof {
            assert(v@.take(i + 1) =~= v@.take(i as int).push(v@[i as int]));
        }
        i = i + 1;
    }
    proof {
        assert(v@.take(i as int) =~= v@);
    }
    out
}

/// Works out the facts of candidates. The value of each rule is expanded from its
/// base value.
pub fn candidate_facts<
    F: Copy + Fn(&String, &RequestContext, &Option<Vec<String>>, &TextMap<String>) -> String,
>(
    rules: &Vec<Rule>,
    candidates: &Vec<CandidateMatch>,
    ctx: &RequestContext,
    values: &TextMap<String>,
    evidence: &Vec<RuleEvidence>,
    expand: F,
) -> (r: Vec<RuleFacts>)
    requires
        evidence@.len() == rules@.len(),
        forall|base: String, given: Option<Vec<String>>|
            #[trigger] call_requires(expand, (&base, ctx, &given, values)),
    ensures
        facts_from(
            facts_views(r@),
            rule_views(rules@),
            candidate_views(candidates@),
            ctx,
            values,
            evidence@,
            expand,
        ),
{
    let ghost rv = rule_views(rules@);
    let ghost all = candidate_views(candidates@);
    let none: Option<Vec<String>> = None;
    let mut out: Vec<RuleFacts> = Vec::new();
    let mut i: usize = 0;
    while i < candidates.len()
        invariant
            i <= candidates@.len(),
            evidence@.len() == rules@.len(),
            none is None,
            rv == rule_views(rules@),
            all == candidate_views(candidates@),
            forall|base: String, given: Option<Vec<String>>|
                #[trigger] call_requires(expand, (&base, ctx, &given, values)),
            facts_from(
                facts_views(out@),
                rv,
                all.take(i as int),
                ctx,
                values,
                evidence@,
                expand,
            ),
        decreases candidates@.len() - i,
    {
        let c = &candidates[i];
        let ghost before = facts_views(out@);
        proof {
            assert(all[i as int] == c@);
        }
        let facts = if c.rule_index < rules.len() {
            let rule = &rules[c.rule_index];
            let e = &evidence[c.rule_index];
            let base = base_value(rule, values, e.source_value.as_str());
            proof {
                assert(rv[c.rule_index as int] == rule@);
            }
            RuleFacts {
                included: copy_answers(&e.included),
                excluded: copy_answers(&e.excluded),
                expanded: expand(&base, ctx, &c.captures, values),
                plain: expand(&base, ctx, &none, values),
            }
        } else {
            RuleFacts {
                included: Vec::new(),
                excluded: Vec::new(),
                expanded: String::new(),
                plain: String::new(),
            }
        };
        out.push(facts);
        proof {
            let after = facts_views(out@);
            assert(after =~= before.push(facts@));
            let now = all.take(i + 1);
            assert forall|k: int| 0 <= k < now.len() && now[k].0 < rv.len() implies {
                let at = now[k].0 as int;
                let e = evidence@[at];
                let f = #[trigger] after[k];
                &&& f.included == e.included@
                &&& f.excluded == e.excluded@
                &&& expands_to(expand, rv[at], now[k].1, ctx, values, e.source_value@, f.expanded)
                &&& expands_to(expand, rv[at], None, ctx, values, e.source_value@, f.plain)
            } by {
                if k < i {
                    assert(after[k] == before[k]);
                    assert(now[k] == all.take(i as int)[k]);
                } else {
                    assert(after[k] == facts@);
                }
            }
        }
        i = i + 1;
    }
    proof {
        assert(all.take(i as int) =~= all);
    }
    out
}

/// Chooses the rules of the candidates that apply to a request.
pub fn apply_filter_gate(
    rules: &Vec<Rule>,
    facts: &Vec<RuleFacts>,
    ctx: &RequestContext,
    candidates: &Vec<CandidateMatch>,
) -> (r: ResolvedRules)
    requires
        facts@.len() == candidates@.len(),
    ensures
        r@ == resolution(
            rule_views(rules@),
            facts_views(facts@),
            ctx@,
            candidate_views(candidates@),
        ),
{
    let ghost rv = rule_views(rules@);
    let ghost fv = facts_views(facts@);
    let ghost all = candidate_views(candidates@);
    let skips = collect_active_skips(rules, facts, ctx, candidates);
    let ghost sv = skip_views(skips@);
    let mut result = ResolvedRules::new();
    let mut closed: Vec<Protocol> = Vec::new();
    let mut i: usize = 0;
    proof {
        assert(closed@.to_set() =~= Set::<Protocol>::empty());
    }
    while i < candidates.len()
        invariant
            i <= candidates@.len(),
            facts@.len() == candidates@.len(),
            rv == rule_views(rules@),
            fv == facts_views(facts@),
            sv == skip_views(skips@),
            all == candidate_views(candidates@),
            result@ == gated(rv, fv, ctx@, sv, all.take(i as int)).chosen,
            closed@.to_set() == gated(rv, fv, ctx@, sv, all.take(i as int)).closed,
        decreases candidates@.len() - i,
    {
        let c = &candidates[i];
        let fact = &facts[i];
        proof {
            assert(all.take(i + 1).drop_last() =~= all.take(i as int));
            assert(all.take(i + 1).last() == c@);
            assert(fv[i as int] == fact@);
        }
        i = i + 1;
        if c.rule_index >= rules.len() {
            continue;
        }
        let rule = &rules[c.rule_index];
        proof {
            assert(rv[c.rule_index as int] == rule@);
        }
        if rule.disabled {
            continue;
        }
        if c.is_negated {
            close(&mut closed, rule.protocol);
            continue;
        }
        if !rule.multi_match && is_closed(&closed, rule.protocol) {
            continue;
        }
        if !is_admitted(rule, fact, ctx) {
            continue;
        }
        if rule.protocol == Protocol::Skip {
            continue;
        }
        if should_skip_rule(rule, &skips, fact.plain.as_str()) {
            continue;
        }
        result.add(
            ResolvedRule {
                rule: rule.copy(),
                captures: copy_captures(&c.captures),
                resolved_value: fact.expanded.clone(),
            },
        );
        if !rule.multi_match {
            close(&mut closed, rule.protocol);
        }
    }
    proof {
        assert(all.take(i as int) =~= all);
    }
    result
}

// ---------------------------------------------------------------------------
// The cache of candidates
// ---------------------------------------------------------------------------

#[verifier::external_type_specification]
#[verifier::external_body]
#[verifier::reject_recursive_types(K)]
#[verifier::reject_recursive_types(V)]
#[verifier::reject_recursive_types(S)]
pub struct ExLruCache<K, V, S>(lru::LruCache<K, V, S>);

#[verifier::external_type_specification]
#[verifier::external_body]
pub struct ExLruHasher(lru::DefaultHasher);

/// The entries of a cache, the one used last first.
pub uninterp spec fn cache_entries(
    c: lru::LruCache<String, Vec<(usize, Option<Vec<String>>, bool)>>,
) -> Seq<(Seq<char>, Seq<(usize, Option<Seq<Seq<char>>>, bool)>)>;

/// How many entries a cache holds at most.
pub uninterp spec fn cache_capacity(
    c: lru::LruCache<String, Vec<(usize, Option<Vec<String>>, bool)>>,
) -> nat;

/// The views of candidates as they are kept.
pub open spec fn kept_views(v: Seq<(usize, Option<Vec<String>>, bool)>) -> Seq<
    (usize, Option<Seq<Seq<char>>>, bool),
> {
    v.map_values(|c: (usize, Option<Vec<String>>, bool)| (c.0, capture_views(c.1), c.2))
}

/// The candidates that are kept for a key.
pub open spec fn find_entry(
    entries: Seq<(Seq<char>, Seq<(usize, Option<Seq<Seq<char>>>, bool)>)>,
    key: Seq<char>,
) -> Option<Seq<(usize, Option<Seq<Seq<char>>>, bool)>>
    decreases entries.len(),
{
    if entries.len() == 0 {
        None
    } else if entries[0].0 == key {
        Some(entries[0].1)
    } else {
        find_entry(entries.drop_first(), key)
    }
}

/// The entries without those of a key.
pub open spec fn without_entry(
    entries: Seq<(Seq<char>, Seq<(usize, Option<Seq<Seq<char>>>, bool)>)>,
    key: Seq<char>,
) -> Seq<(Seq<char>, Seq<(usize, Option<Seq<Seq<char>>>, bool)>)>
    decreases entries.len(),
{
    if entries.len() == 0 {
        Seq::empty()
    } else {
        let before = without_entry(entries.drop_last(), key);
        if entries.last().0 == key {
            before
        } else {
            before.push(entries.last())
        }
    }
}

/// The entries after a value was put at a key. It comes first; where the key is
/// new and the cache is full, the entry that was used the longest time ago goes.
pub open spec fn with_entry(
    entries: Seq<(Seq<char>, Seq<(usize, Option<Seq<Seq<char>>>, bool)>)>,
    capacity: nat,
    key: Seq<char>,
    value: Seq<(usize, Option<Seq<Seq<char>>>, bool)>,
) -> Seq<(Seq<char>, Seq<(usize, Option<Seq<Seq<char>>>, bool)>)> {
    seq![(key, value)] + (if find_entry(entries, key) is Some {
        without_entry(entries, key)
    } else if entries.len() == capacity {
        entries.drop_last()
    } else {
        entries
    })
}

/// `lru::LruCache::new`: a cache without entries that holds as many as asked for.
/// `new` sets room aside for all of them at once, and panics where their number
/// is beyond what can be laid out in memory: hence the bound.
#[verifier::external_body]
fn new_cache(capacity: usize) -> (r: lru::LruCache<
    String,
    Vec<(usize, Option<Vec<String>>, bool)>,
>)
    requires
        0 < capacity <= usize::MAX / 128,
    ensures
        cache_entries(r).len() == 0,
        cache_capacity(r) == capacity,
{
    lru::LruCache::new(std::num::NonZeroUsize::new(capacity).unwrap_or(std::num::NonZeroUsize::MIN))
}

/// `lru::LruCache::peek`: a copy of the value of a key, if it has one. No entry
/// counts as used by it.
#[verifier::external_body]
fn peek_cache(
    c: &lru::LruCache<String, Vec<(usize, Option<Vec<String>>, bool)>>,
    key: &str,
) -> (r: Option<Vec<(usize, Option<Vec<String>>, bool)>>)
    ensures
        (match r {
            Some(v) => Some(kept_views(v@)),
            None => None,
        }) == find_entry(cache_entries(*c), key@),
{
    c.peek(key).cloned()
}

/// `lru::LruCache::put`: the key has the value and comes first. A new key takes
/// the place of the one used the longest time ago where the cache is full; the
/// other entries stay in their order.
#[verifier::external_body]
fn put_cache(
    c: &mut lru::LruCache<String, Vec<(usize, Option<Vec<String>>, bool)>>,
    key: String,
    value: Vec<(usize, Option<Vec<String>>, bool)>,
)
    ensures
        (cache_entries(*final(c)) == with_entry(
            cache_entries(*old(c)),
            cache_capacity(*old(c)),
            key@,
            kept_views(value@),
        )),
        cache_capacity(*final(c)) == cache_capacity(*old(c)),
{
    c.put(key, value);
}

/// `lru::LruCache::clear`: no entry is left.
#[verifier::external_body]
fn clear_cache_entries(c: &mut lru::LruCache<String, Vec<(usize, Option<Vec<String>>, bool)>>)
    ensures
        cache_entries(*final(c)).len() == 0,
        cache_capacity(*final(c)) == cache_capacity(*old(c)),
{
    c.clear();
}

fn to_kept(v: &Vec<CandidateMatch>) -> (r: Vec<(usize, Option<Vec<String>>, bool)>)
    ensures
        kept_views(r@) == candidate_views(v@),
{
    let mut out: Vec<(usize, Option<Vec<String>>, bool)> = Vec::new();
    let mut i: usize = 0;
    while i < v.len()
        invariant
            i <= v@.len(),
            out@.len() == i,
            forall|k: int|
                0 <= k < i ==> (#[trigger] out@[k]).0 == v@[k].rule_index && capture_views(
                    out@[k].1,
                ) == capture_views(v@[k].captures) && out@[k].2 == v@[k].is_negated,
        decreases v@.len() - i,
    {
        out.push((v[i].rule_index, copy_captures(&v[i].captures), v[i].is_negated));
        i = i + 1;
    }
    proof {
        assert(kept_views(out@) =~= candidate_views(v@));
    }
    out
}

fn from_kept(v: &Vec<(usize, Option<Vec<String>>, bool)>) -> (r: Vec<CandidateMatch>)
    ensures
        candidate_views(r@) == kept_views(v@),
{
    let mut out: Vec<CandidateMatch> = Vec::new();
    let mut i: usize = 0;
    while i < v.len()
        invariant
            i <= v@.len(),
            out@.len() == i,
            forall|k: int|
                0 <= k < i ==> (#[trigger] out@[k]).rule_index == v@[k].0 && capture_views(
                    out@[k].captures,
                ) == capture_views(v@[k].1) && out@[k].is_negated == v@[k].2,
        decreases v@.len() - i,
    {
        out.push(
            CandidateMatch {
                rule_index: v[i].0,
                captures: copy_captures(&v[i].1),
                is_negated: v[i].2,
            },
        );
        i = i + 1;
    }
    proof {
        assert(candidate_views(out@) =~= kept_views(v@));
    }
    out
}

/// What the candidates of a request are kept under. The method and the headers
/// are left out: they belong to the filters.
pub open spec fn cache_key_of(url: Seq<char>, host: Seq<char>, path: Seq<char>) -> Seq<char> {
    url + "|"@ + host + "|"@ + path
}

pub fn cache_key(ctx: &RequestContext) -> (r: String)
    ensures
        r@ == cache_key_of(ctx@.url, ctx@.host, ctx@.path),
{
    let mut out = concat3(ctx.url.as_str(), "|", ctx.host.as_str());
    out.append("|");
    out.append(ctx.path.as_str());
    out
}

// ---------------------------------------------------------------------------
// The resolver
// ---------------------------------------------------------------------------

impl Ranked for RuleView {
    open spec fn before(self, other: Self) -> bool {
        self.priority > other.priority
    }

    proof fn lemma_asymmetric(a: Self, b: Self) {
    }

    proof fn lemma_transitive(a: Self, b: Self, c: Self) {
    }
}

impl Ranked for Rule {
    open spec fn before(self, other: Self) -> bool {
        self.priority > other.priority
    }

    proof fn lemma_asymmetric(a: Self, b: Self) {
    }

    proof fn lemma_transitive(a: Self, b: Self, c: Self) {
    }
}

impl Comparable for Rule {
    fn comes_before(&self, other: &Self) -> (r: bool) {
        self.priority > other.priority
    }
}

/// Rules in the order of their priority.
struct RuleList {
    rules: Vec<Rule>,
}

impl View for RuleList {
    type V = Seq<RuleView>;

    closed spec fn view(&self) -> Seq<RuleView> {
        rule_views(self.rules@)
    }
}

impl RuleList {
    #[verifier::type_invariant]
    spec fn inv(self) -> bool {
        in_order(self.rules@)
    }

    /// Puts rules in order. Those of the same priority keep their order.
    fn sorted(rules: Vec<Rule>) -> (r: Self)
        ensures
            r@ == ranked(rule_views(rules@)),
    {
        let ghost given = rules@;
        let sorted = sort_ranked(rules);
        proof {
            lemma_ranked(given);
            lemma_ranked_map(given, |r: Rule| r@);
        }
        RuleList { rules: sorted }
    }

    fn all(&self) -> (r: &Vec<Rule>)
        ensures
            rule_views(r@) == self@,
            in_order(self@),
    {
        proof {
            use_type_invariant(self);
            assert forall|i: int, j: int| 0 <= i < j < self@.len() implies !(
            #[trigger] self@[j]).before(#[trigger] self@[i]) by {
                assert(!self.rules@[j].before(self.rules@[i]));
            }
        }
        &self.rules
    }

    /// Puts a rule in its place, and says which it is.
    fn insert(&mut self, rule: Rule) -> (r: usize)
        ensures
            placed_at(old(self)@, rule@, r as int),
            final(self)@ == old(self)@.insert(r as int, rule@),
    {
        proof {
            use_type_invariant(&*self);
        }
        let ghost before = self.rules@;
        let mut low: usize = 0;
        let mut high: usize = self.rules.len();
        while low < high
            invariant
                low <= high <= self.rules@.len(),
                self.rules@ == before,
                in_order(before),
                forall|i: int| 0 <= i < low ==> (#[trigger] before[i]).priority > rule.priority,
                forall|i: int|
                    high <= i < before.len() ==> (#[trigger] before[i]).priority
                        <= rule.priority,
            decreases high - low,
        {
            let mid: usize = low + (high - low) / 2;
            if self.rules[mid].priority > rule.priority {
                proof {
                    assert forall|i: int| 0 <= i <= mid implies (#[trigger] before[i]).priority
                        > rule.priority by {
                        if i < mid {
                            assert(!before[mid as int].before(before[i]));
                        }
                    }
                }
                low = mid + 1;
            } else {
                proof {
                    assert forall|i: int| mid <= i < before.len() implies (
                    #[trigger] before[i]).priority <= rule.priority by {
                        if i > mid {
                            assert(!before[i].before(before[mid as int]));
                        }
                    }
                }
                high = mid;
            }
        }
        let mut rules: Vec<Rule> = Vec::new();
        std::mem::swap(&mut rules, &mut self.rules);
        rules.insert(low, rule);
        proof {
            let after = rules@;
            assert(after == before.insert(low as int, rule));
            assert(rule_views(after) =~= rule_views(before).insert(low as int, rule@));
            assert forall|i: int, j: int| 0 <= i < j < after.len() implies !(
            #[trigger] after[j]).before(#[trigger] after[i]) by {
                let a = if i < low {
                    i
                } else {
                    i - 1
                };
                let b = if j < low {
                    j
                } else {
                    j - 1
                };
                if i != low && j != low {
                    assert(after[i] == before[a] && after[j] == before[b]);
                    assert(!before[b].before(before[a]));
                } else if i == low {
                    assert(after[j] == before[b]);
                } else {
                    assert(after[i] == before[a]);
                }
            }
        }
        self.rules = rules;
        proof {
            assert(placed_at(old(self)@, rule@, low as int));
            assert(self@ =~= old(self)@.insert(low as int, rule@));
        }
        low
    }
}

/// The rules in the order of their priority, the values they refer to, and the
/// candidates of requests seen before.
pub struct RulesResolver {
    rules: RuleList,
    values: TextMap<String>,
    cache: lru::LruCache<String, Vec<(usize, Option<Vec<String>>, bool)>>,
    cache_enabled: bool,
}

#[verifier::ext_equal]
pub struct ResolverView {
    pub rules: Seq<RuleView>,
    pub values: Map<Seq<char>, Seq<char>>,
    pub cache: Seq<(Seq<char>, Seq<(usize, Option<Seq<Seq<char>>>, bool)>)>,
    pub capacity: nat,
    pub cache_enabled: bool,
}

impl View for RulesResolver {
    type V = ResolverView;

    closed spec fn view(&self) -> ResolverView {
        ResolverView {
            rules: self.rules@,
            values: map_texts(self.values@),
            cache: cache_entries(self.cache),
            capacity: cache_capacity(self.cache),
            cache_enabled: self.cache_enabled,
        }
    }
}

/// Whether some rules are those of the candidates that apply to a request, each
/// with what `expand` makes of its base value.
pub open spec fn resolved_from<
    F: FnOnce(&String, &RequestContext, &Option<Vec<String>>, &TextMap<String>) -> String,
>(
    found: Seq<ResolvedRuleView>,
    s: ResolverView,
    ctx: &RequestContext,
    candidates: Seq<(usize, Option<Seq<Seq<char>>>, bool)>,
    evidence: Seq<RuleEvidence>,
    expand: F,
) -> bool {
    exists|values: TextMap<String>, facts: Seq<FactsView>|
        {
            &&& map_texts(values@) == s.values
            &&& #[trigger] facts_from(facts, s.rules, candidates, ctx, &values, evidence, expand)
            &&& found == resolution(s.rules, facts, ctx@, candidates)
        }
}

/// The candidates that are known for a request.
pub open spec fn known_candidates(s: ResolverView, ctx: RequestView) -> Option<
    Seq<(usize, Option<Seq<Seq<char>>>, bool)>,
> {
    if s.cache_enabled {
        find_entry(s.cache, cache_key_of(ctx.url, ctx.host, ctx.path))
    } else {
        None
    }
}

/// The candidates of a request: those that are known, else those that the
/// outcomes make.
pub open spec fn candidates_for(
    s: ResolverView,
    ctx: RequestView,
    outcomes: Seq<OutcomeView>,
) -> Seq<(usize, Option<Seq<Seq<char>>>, bool)> {
    match known_candidates(s, ctx) {
        Some(c) => c,
        None => collected(s.rules, outcomes, s.rules.len()),
    }
}

/// The resolver after the candidates of a request were asked for.
pub open spec fn remembering(
    s: ResolverView,
    ctx: RequestView,
    outcomes: Seq<OutcomeView>,
) -> ResolverView {
    if s.cache_enabled && known_candidates(s, ctx) is None {
        ResolverView {
            cache: with_entry(
                s.cache,
                s.capacity,
                cache_key_of(ctx.url, ctx.host, ctx.path),
                collected(s.rules, outcomes, s.rules.len()),
            ),
            ..s
        }
    } else {
        s
    }
}

/// Whether `r` has its place in front of the rules from `pos` on, and behind
/// those before.
pub open spec fn placed_at(rules: Seq<RuleView>, r: RuleView, pos: int) -> bool {
    &&& 0 <= pos <= rules.len()
    &&& forall|i: int| 0 <= i < pos ==> (#[trigger] rules[i]).priority > r.priority
    &&& forall|i: int| pos <= i < rules.len() ==> (#[trigger] rules[i]).priority <= r.priority
}

/// The values with those of a list that are not there yet.
pub open spec fn merged_values(
    values: Map<Seq<char>, Seq<char>>,
    more: Seq<(Seq<char>, Seq<char>)>,
) -> Map<Seq<char>, Seq<char>>
    decreases more.len(),
{
    if more.len() == 0 {
        values
    } else {
        let before = merged_values(values, more.drop_last());
        if before.contains_key(more.last().0) {
            before
        } else {
            before.insert(more.last().0, more.last().1)
        }
    }
}

/// The views of pairs of texts.
pub open spec fn pair_views(v: Seq<(String, String)>) -> Seq<(Seq<char>, Seq<char>)> {
    v.map_values(|p: (String, String)| (p.0@, p.1@))
}

/// The operations whose rules name where a request goes.
pub open spec fn routes(p: Protocol) -> bool {
    match p {
        Protocol::Host
        | Protocol::XHost
        | Protocol::Http
        | Protocol::Https
        | Protocol::Ws
        | Protocol::Wss => true,
        _ => false,
    }
}

/// The operations that decide about a request before there is a response.
pub open spec fn settles_request(p: Protocol) -> bool {
    routes(p) || match p {
        Protocol::Proxy
        | Protocol::Redirect
        | Protocol::File
        | Protocol::Tpl
        | Protocol::RawFile
        | Protocol::Delete
        | Protocol::Decode
        | Protocol::UrlReplace
        | Protocol::Pac => true,
        _ => false,
    }
}

fn is_route(p: Protocol) -> (r: bool)
    ensures
        r == routes(p),
{
    match p {
        Protocol::Host
        | Protocol::XHost
        | Protocol::Http
        | Protocol::Https
        | Protocol::Ws
        | Protocol::Wss => true,
        _ => false,
    }
}

fn settles(p: Protocol) -> (r: bool)
    ensures
        r == settles_request(p),
{
    match p {
        Protocol::Proxy
        | Protocol::Redirect
        | Protocol::File
        | Protocol::Tpl
        | Protocol::RawFile
        | Protocol::Delete
        | Protocol::Decode
        | Protocol::UrlReplace
        | Protocol::Pac => true,
        _ => is_route(p),
    }
}

/// What the matcher of a rule says of a host: whether it may make the proxy look
/// into TLS at all, and whether it covers the host under each of two addresses.
#[derive(Clone, Copy, Debug, PartialEq, Eq, Structural)]
pub struct HostAnswer {
    pub can_trigger: bool,
    pub covers_first: bool,
    pub covers_second: bool,
}

/// The addresses that a matcher is asked about for a host: for rules on responses
/// and for rules that route.
pub fn host_scope_urls(host: &str) -> (r: (String, String, String))
    ensures
        r.0@ == "https://"@ + host@,
        r.1@ == "http://"@ + host@,
        r.2@ == "wss://"@ + host@,
{
    (concat2("https://", host), concat2("http://", host), concat2("wss://", host))
}

/// Whether a rule that is in force covers a host.
pub open spec fn covers(r: RuleView, a: HostAnswer) -> bool {
    !r.disabled && !r.negated && a.can_trigger && (a.covers_first || a.covers_second)
}

/// Whether a rule may change the responses of a host.
pub open spec fn changes_responses(r: RuleView, a: HostAnswer) -> bool {
    covers(r, a) && r.category != ProtocolCategory::Request && !settles_request(r.protocol)
}

/// Whether a rule may route the requests to a host.
pub open spec fn routes_requests(r: RuleView, a: HostAnswer) -> bool {
    covers(r, a) && routes(r.protocol)
}

impl RulesResolver {
    /// A resolver for some rules, which are put in the order of their priority.
    /// Rules of the same priority keep their order.
    pub fn new(rules: Vec<Rule>) -> (r: Self)
        ensures
            r@.rules == ranked(rule_views(rules@)),
            r@.values == Map::<Seq<char>, Seq<char>>::empty(),
            r@.cache.len() == 0,
            r@.capacity == DEFAULT_CACHE_CAPACITY,
            r@.cache_enabled,
    {
        let r = RulesResolver {
            rules: RuleList::sorted(rules),
            values: TextMap::new(),
            cache: new_cache(DEFAULT_CACHE_CAPACITY),
            cache_enabled: true,
        };
        proof {
            assert(r@.values =~= Map::<Seq<char>, Seq<char>>::empty());
        }
        r
    }

    pub fn with_values(self, values: TextMap<String>) -> (r: Self)
        ensures
            r@ == (ResolverView { values: map_texts(values@), ..self@ }),
    {
        RulesResolver {
            rules: self.rules,
            values,
            cache: self.cache,
            cache_enabled: self.cache_enabled,
        }
    }

    /// A resolver for some rules and the values of a store.
    pub fn from_store(rules: Vec<Rule>, values: TextMap<String>) -> (r: Self)
        ensures
            r@.rules == ranked(rule_views(rules@)),
            r@.values == map_texts(values@),
            r@.cache.len() == 0,
            r@.capacity == DEFAULT_CACHE_CAPACITY,
            r@.cache_enabled,
    {
        RulesResolver::new(rules).with_values(values)
    }

    /// Adds the values of a store that are not there yet, and forgets all
    /// candidates.
    pub fn merge_from_store(&mut self, entries: &Vec<(String, String)>)
        ensures
            final(self)@.rules == old(self)@.rules,
            final(self)@.values == merged_values(old(self)@.values, pair_views(entries@)),
            final(self)@.cache.len() == 0,
            final(self)@.capacity == old(self)@.capacity,
            final(self)@.cache_enabled == old(self)@.cache_enabled,
    {
        let ghost all = pair_views(entries@);
        let ghost start = self@;
        let mut i: usize = 0;
        while i < entries.len()
            invariant
                i <= entries@.len(),
                all == pair_views(entries@),
                self@.rules == start.rules,
                self@.cache == start.cache,
                self@.capacity == start.capacity,
                self@.cache_enabled == start.cache_enabled,
                self@.values == merged_values(start.values, all.take(i as int)),
            decreases entries@.len() - i,
        {
            let ghost before = self.values@;
            proof {
                assert(all.take(i + 1).drop_last() =~= all.take(i as int));
                assert(all.take(i + 1).last() == (entries@[i as int].0@, entries@[i as int].1@));
            }
            self.put_value(entries[i].0.as_str(), entries[i].1.clone(), false);
            i = i + 1;
        }
        proof {
            assert(all.take(i as int) =~= all);
        }
        self.clear_cache();
    }

    fn put_value(&mut self, key: &str, value: String, replace: bool)
        ensures
            final(self)@ == (ResolverView {
                values: if !replace && old(self)@.values.contains_key(key@) {
                    old(self)@.values
                } else {
                    old(self)@.values.insert(key@, value@)
                },
                ..old(self)@
            }),
    {
        let ghost before = self.values@;
        if replace {
            self.values.insert(key, value);
        } else {
            self.values.insert_if_absent(key, value);
        }
        proof {
            assert(map_texts(before).contains_key(key@) <==> before.contains_key(key@));
            assert(map_texts(before.insert(key@, value)) =~= map_texts(before).insert(
                key@,
                value@,
            ));
        }
    }

    pub fn values(&self) -> (r: &TextMap<String>)
        ensures
            map_texts(r@) == self@.values,
    {
        &self.values
    }

    /// The resolver with room for another number of candidate lists, and none of
    /// them known. 0 stands for the usual number.
    pub fn with_cache_capacity(self, capacity: usize) -> (r: Self)
        requires
            capacity <= usize::MAX / 128,
        ensures
            r@.rules == self@.rules,
            r@.values == self@.values,
            r@.cache.len() == 0,
            r@.capacity == (if capacity == 0 {
                DEFAULT_CACHE_CAPACITY
            } else {
                capacity
            }),
            r@.cache_enabled == self@.cache_enabled,
    {
        let room: usize = if capacity == 0 {
            DEFAULT_CACHE_CAPACITY
        } else {
            capacity
        };
        RulesResolver {
            rules: self.rules,
            values: self.values,
            cache: new_cache(room),
            cache_enabled: self.cache_enabled,
        }
    }

    pub fn disable_cache(self) -> (r: Self)
        ensures
            r@ == (ResolverView { cache_enabled: false, ..self@ }),
    {
        RulesResolver {
            rules: self.rules,
            values: self.values,
            cache: self.cache,
            cache_enabled: false,
        }
    }

    /// Sets a value, and forgets all candidates.
    pub fn set_value(&mut self, key: &str, value: String)
        ensures
            final(self)@.rules == old(self)@.rules,
            final(self)@.values == old(self)@.values.insert(key@, value@),
            final(self)@.cache.len() == 0,
            final(self)@.capacity == old(self)@.capacity,
            final(self)@.cache_enabled == old(self)@.cache_enabled,
    {
        self.put_value(key, value, true);
        self.clear_cache();
    }

    /// Puts a rule in its place, and forgets all candidates. The place comes out.
    pub fn add_rule(&mut self, rule: Rule) -> (r: usize)
        ensures
            placed_at(old(self)@.rules, rule@, r as int),
            final(self)@.rules == old(self)@.rules.insert(r as int, rule@),
            final(self)@.values == old(self)@.values,
            final(self)@.cache.len() == 0,
            final(self)@.capacity == old(self)@.capacity,
            final(self)@.cache_enabled == old(self)@.cache_enabled,
    {
        let place = self.rules.insert(rule);
        self.clear_cache();
        place
    }

    /// Forgets all candidates.
    pub fn clear_cache(&mut self)
        ensures
            final(self)@.rules == old(self)@.rules,
            final(self)@.values == old(self)@.values,
            final(self)@.cache.len() == 0,
            final(self)@.capacity == old(self)@.capacity,
            final(self)@.cache_enabled == old(self)@.cache_enabled,
    {
        clear_cache_entries(&mut self.cache);
    }

    /// Whether some rule may change the responses of a host. The answers come one
    /// per rule, about the addresses of the host under `https` and `http`.
    pub fn has_response_rules_for_host(&self, answers: &Vec<HostAnswer>) -> (r: bool)
        requires
            answers@.len() == self@.rules.len(),
        ensures
            r == exists|i: int|
                0 <= i < self@.rules.len() && changes_responses(
                    #[trigger] self@.rules[i],
                    answers@[i],
                ),
    {
        let rules = self.rules.all();
        let mut i: usize = 0;
        while i < rules.len()
            invariant
                i <= rules@.len(),
                answers@.len() == rules@.len(),
                self@.rules == rule_views(rules@),
                forall|k: int|
                    0 <= k < i ==> !changes_responses(#[trigger] self@.rules[k], answers@[k]),
            decreases rules@.len() - i,
        {
            let rule = &rules[i];
            let a = answers[i];
            proof {
                assert(self@.rules[i as int] == rule@);
            }
            if !rule.disabled && !rule.negated && rule.category != ProtocolCategory::Request
                && !settles(rule.protocol) && a.can_trigger && (a.covers_first
                || a.covers_second) {
                return true;
            }
            i = i + 1;
        }
        false
    }

    /// Whether some rule may route the requests to a host. The answers come one
    /// per rule, about the addresses of the host under `https` and `wss`.
    pub fn has_tls_auto_intercept_route_rules_for_host(&self, answers: &Vec<HostAnswer>) -> (r:
        bool)
        requires
            answers@.len() == self@.rules.len(),
        ensures
            r == exists|i: int|
                0 <= i < self@.rules.len() && routes_requests(
                    #[trigger] self@.rules[i],
                    answers@[i],
                ),
    {
        let rules = self.rules.all();
        let mut i: usize = 0;
        while i < rules.len()
            invariant
                i <= rules@.len(),
                answers@.len() == rules@.len(),
                self@.rules == rule_views(rules@),
                forall|k: int|
                    0 <= k < i ==> !routes_requests(#[trigger] self@.rules[k], answers@[k]),
            decreases rules@.len() - i,
        {
            let rule = &rules[i];
            let a = answers[i];
            proof {
                assert(self@.rules[i as int] == rule@);
            }
            if !rule.disabled && !rule.negated && is_route(rule.protocol) && a.can_trigger && (
            a.covers_first || a.covers_second) {
                return true;
            }
            i = i + 1;
        }
        false
    }

    /// The candidates that are known for a request.
    pub fn cached_candidates(&self, ctx: &RequestContext) -> (r: Option<Vec<CandidateMatch>>)
        ensures
            (match r {
                Some(v) => Some(candidate_views(v@)),
                None => None,
            }) == known_candidates(self@, ctx@),
    {
        if !self.cache_enabled {
            return None;
        }
        let key = cache_key(ctx);
        match peek_cache(&self.cache, key.as_str()) {
            Some(kept) => Some(from_kept(&kept)),
            None => None,
        }
    }

    /// The candidates of a request. New ones are remembered.
    pub fn matcher_candidates(
        &mut self,
        ctx: &RequestContext,
        outcomes: &Vec<MatchOutcome>,
    ) -> (r: Vec<CandidateMatch>)
        requires
            outcomes@.len() == old(self)@.rules.len(),
        ensures
            candidate_views(r@) == candidates_for(old(self)@, ctx@, outcome_views(outcomes@)),
            final(self)@ == remembering(old(self)@, ctx@, outcome_views(outcomes@)),
    {
        match self.cached_candidates(ctx) {
            Some(known) => known,
            None => {
                let found = collect_candidates(self.rules.all(), outcomes);
                if self.cache_enabled {
                    let key = cache_key(ctx);
                    let kept = to_kept(&found);
                    put_cache(&mut self.cache, key, kept);
                    proof {
                        assert(self@ =~= remembering(
                            old(self)@,
                            ctx@,
                            outcome_views(outcomes@),
                        ));
                    }
                }
                found
            },
        }
    }

    /// The rules of some candidates that apply to a request, given what is found
    /// out about each rule. `expand` fills the templates of values in.
    pub fn resolve_candidates<
        F: Copy + Fn(&String, &RequestContext, &Option<Vec<String>>, &TextMap<String>) -> String,
    >(
        &self,
        ctx: &RequestContext,
        candidates: &Vec<CandidateMatch>,
        evidence: &Vec<RuleEvidence>,
        expand: F,
    ) -> (r: ResolvedRules)
        requires
            evidence@.len() == self@.rules.len(),
            forall|base: String, given: Option<Vec<String>>, values: TextMap<String>|
                #[trigger] call_requires(expand, (&base, ctx, &given, &values)),
        ensures
            resolved_from(
                r@,
                self@,
                ctx,
                candidate_views(candidates@),
                evidence@,
                expand,
            ),
    {
        let facts = candidate_facts(
            self.rules.all(),
            candidates,
            ctx,
            &self.values,
            evidence,
            expand,
        );
        apply_filter_gate(self.rules.all(), &facts, ctx, candidates)
    }

    /// The rules that apply to a request, given what the matchers say of it and
    /// what is found out about each rule.
    pub fn resolve<
        F: Copy + Fn(&String, &RequestContext, &Option<Vec<String>>, &TextMap<String>) -> String,
    >(
        &mut self,
        ctx: &RequestContext,
        outcomes: &Vec<MatchOutcome>,
        evidence: &Vec<RuleEvidence>,
        expand: F,
    ) -> (r: ResolvedRules)
        requires
            outcomes@.len() == old(self)@.rules.len(),
            evidence@.len() == old(self)@.rules.len(),
            forall|base: String, given: Option<Vec<String>>, values: TextMap<String>|
                #[trigger] call_requires(expand, (&base, ctx, &given, &values)),
        ensures
            resolved_from(
                r@,
                old(self)@,
                ctx,
                candidates_for(old(self)@, ctx@, outcome_views(outcomes@)),
                evidence@,
                expand,
            ),
            final(self)@ == remembering(old(self)@, ctx@, outcome_views(outcomes@)),
    {
        let candidates = self.matcher_candidates(ctx, outcomes);
        self.resolve_candidates(ctx, &candidates, evidence, expand)
    }

    /// The rules that apply to a request, without a look at the candidates of
    /// requests seen before and without remembering those of this one.
    pub fn resolve_uncached<
        F: Copy + Fn(&String, &RequestContext, &Option<Vec<String>>, &TextMap<String>) -> String,
    >(
        &self,
        ctx: &RequestContext,
        outcomes: &Vec<MatchOutcome>,
        evidence: &Vec<RuleEvidence>,
        expand: F,
    ) -> (r: ResolvedRules)
        requires
            outcomes@.len() == self@.rules.len(),
            evidence@.len() == self@.rules.len(),
            forall|base: String, given: Option<Vec<String>>, values: TextMap<String>|
                #[trigger] call_requires(expand, (&base, ctx, &given, &values)),
        ensures
            resolved_from(
                r@,
                self@,
                ctx,
                collected(self@.rules, outcome_views(outcomes@), self@.rules.len()),
                evidence@,
                expand,
            ),
    {
        let candidates = collect_candidates(self.rules.all(), outcomes);
        self.resolve_candidates(ctx, &candidates, evidence, expand)
    }

    /// The rules, in the order of their priority.
    pub fn rules(&self) -> (r: &Vec<Rule>)
        ensures
            rule_views(r@) == self@.rules,
            in_order(self@.rules),
    {
        self.rules.all()
    }

    pub fn rule_count(&self) -> (r: usize)
        ensures
            r == self@.rules.len(),
    {
        self.rules.all().len()
    }
}

// ---------------------------------------------------------------------------
// Laws of resolution
// ---------------------------------------------------------------------------

/// Whether every candidate list of a cache is the one that `f` gives for its key.
pub open spec fn coherent(
    cache: Seq<(Seq<char>, Seq<(usize, Option<Seq<Seq<char>>>, bool)>)>,
    f: spec_fn(Seq<char>) -> Seq<(usize, Option<Seq<Seq<char>>>, bool)>,
) -> bool {
    forall|i: int| 0 <= i < cache.len() ==> (#[trigger] cache[i]).1 == f(cache[i].0)
}

proof fn lemma_found_entry(
    entries: Seq<(Seq<char>, Seq<(usize, Option<Seq<Seq<char>>>, bool)>)>,
    key: Seq<char>,
    f: spec_fn(Seq<char>) -> Seq<(usize, Option<Seq<Seq<char>>>, bool)>,
)
    requires
        coherent(entries, f),
    ensures
        find_entry(entries, key) matches Some(v) ==> v == f(key),
    decreases entries.len(),
{
    if entries.len() > 0 {
        let rest = entries.drop_first();
        assert(coherent(rest, f)) by {
            assert forall|i: int| 0 <= i < rest.len() implies (#[trigger] rest[i]).1 == f(
                rest[i].0,
            ) by {
                assert(rest[i] == entries[i + 1]);
            }
        }
        lemma_found_entry(rest, key, f);
        assert(entries[0].1 == f(entries[0].0));
    }
}

proof fn lemma_without_entry(
    entries: Seq<(Seq<char>, Seq<(usize, Option<Seq<Seq<char>>>, bool)>)>,
    key: Seq<char>,
    f: spec_fn(Seq<char>) -> Seq<(usize, Option<Seq<Seq<char>>>, bool)>,
)
    requires
        coherent(entries, f),
    ensures
        coherent(without_entry(entries, key), f),
    decreases entries.len(),
{
    if entries.len() > 0 {
        let rest = entries.drop_last();
        assert(coherent(rest, f)) by {
            assert forall|i: int| 0 <= i < rest.len() implies (#[trigger] rest[i]).1 == f(
                rest[i].0,
            ) by {
                assert(rest[i] == entries[i]);
            }
        }
        lemma_without_entry(rest, key, f);
        assert(entries[entries.len() - 1].1 == f(entries.last().0));
    }
}

/// As long as the matchers answer alike for requests that share a cache key, a
/// remembered resolution is the fresh one, and the cache stays that way: what is
/// kept under a key is what the matchers make of every request with that key.
pub proof fn lemma_cached_is_fresh(
    s: ResolverView,
    ctx: RequestView,
    outcomes: Seq<OutcomeView>,
    facts: Seq<FactsView>,
    f: spec_fn(Seq<char>) -> Seq<(usize, Option<Seq<Seq<char>>>, bool)>,
)
    requires
        0 < s.capacity,
        coherent(s.cache, f),
        f(cache_key_of(ctx.url, ctx.host, ctx.path)) == collected(
            s.rules,
            outcomes,
            s.rules.len(),
        ),
    ensures
        resolution(s.rules, facts, ctx, candidates_for(s, ctx, outcomes)) == resolution(
            s.rules,
            facts,
            ctx,
            collected(s.rules, outcomes, s.rules.len()),
        ),
        coherent(remembering(s, ctx, outcomes).cache, f),
{
    let key = cache_key_of(ctx.url, ctx.host, ctx.path);
    lemma_found_entry(s.cache, key, f);
    lemma_without_entry(s.cache, key, f);
    let fresh = collected(s.rules, outcomes, s.rules.len());
    let after = with_entry(s.cache, s.capacity, key, fresh);
    assert(coherent(after, f)) by {
        let rest = after.drop_first();
        assert forall|i: int| 0 <= i < after.len() implies (#[trigger] after[i]).1 == f(
            after[i].0,
        ) by {
            if i > 0 {
                if find_entry(s.cache, key) is Some {
                    assert(after[i] == without_entry(s.cache, key)[i - 1]);
                } else if s.cache.len() == s.capacity {
                    assert(after[i] == s.cache.drop_last()[i - 1]);
                    assert(after[i] == s.cache[i - 1]);
                } else {
                    assert(after[i] == s.cache[i - 1]);
                }
            }
        }
    }
}

/// A cache never outgrows its capacity.
pub proof fn lemma_cache_stays_bounded(
    s: ResolverView,
    ctx: RequestView,
    outcomes: Seq<OutcomeView>,
)
    requires
        s.cache.len() <= s.capacity,
        0 < s.capacity,
    ensures
        remembering(s, ctx, outcomes).cache.len() <= s.capacity,
{
}

/// Two requests whose addresses and hosts hold no bar share a cache key only where
/// address, host and path are the same.
pub proof fn lemma_cache_key_tells_apart(
    url: Seq<char>,
    host: Seq<char>,
    path: Seq<char>,
    other_url: Seq<char>,
    other_host: Seq<char>,
    other_path: Seq<char>,
)
    requires
        !url.contains('|'),
        !host.contains('|'),
        !other_url.contains('|'),
        !other_host.contains('|'),
        cache_key_of(url, host, path) == cache_key_of(other_url, other_host, other_path),
    ensures
        url == other_url,
        host == other_host,
        path == other_path,
{
    reveal_strlit("|");
    lemma_split_at_bar(url, host + "|"@ + path, other_url, other_host + "|"@ + other_path);
    assert(cache_key_of(url, host, path) =~= url + "|"@ + (host + "|"@ + path));
    assert(cache_key_of(other_url, other_host, other_path) =~= other_url + "|"@ + (other_host
        + "|"@ + other_path));
    lemma_split_at_bar(host, path, other_host, other_path);
}

proof fn lemma_split_at_bar(a: Seq<char>, b: Seq<char>, c: Seq<char>, d: Seq<char>)
    ensures
        !a.contains('|') && !c.contains('|') && a + "|"@ + b == c + "|"@ + d ==> a == c && b == d,
{
    reveal_strlit("|");
    if !a.contains('|') && !c.contains('|') && a + "|"@ + b == c + "|"@ + d {
        let x = a + "|"@ + b;
        let y = c + "|"@ + d;
        assert(x[a.len() as int] == '|');
        assert(y[c.len() as int] == '|');
        if a.len() < c.len() {
            assert(c[a.len() as int] == y[a.len() as int]);
            assert(c.contains('|'));
        }
        if c.len() < a.len() {
            assert(a[c.len() as int] == x[c.len() as int]);
            assert(a.contains('|'));
        }
        assert(a =~= x.take(a.len() as int));
        assert(c =~= y.take(c.len() as int));
        assert(b =~= x.skip(a.len() as int + 1));
        assert(d =~= y.skip(c.len() as int + 1));
    }
}

/// The method, the headers and the response of a request have no say in its
/// candidates.
pub proof fn lemma_candidates_ignore_filters(
    s: ResolverView,
    ctx: RequestView,
    other: RequestView,
    outcomes: Seq<OutcomeView>,
)
    requires
        ctx.url == other.url,
        ctx.host == other.host,
        ctx.path == other.path,
    ensures
        candidates_for(s, ctx, outcomes) == candidates_for(s, other, outcomes),
        remembering(s, ctx, outcomes) == remembering(s, other, outcomes),
{
}

/// Answers without that of one place, if there is one.
pub open spec fn answers_without(answers: Seq<bool>, at: int) -> Seq<bool> {
    if 0 <= at < answers.len() {
        answers.remove(at)
    } else {
        answers
    }
}

/// Before there is a response, filters on its status and its headers have no say:
/// with or without one of them, wherever it stands, a request meets the same lists
/// of filters.
pub proof fn lemma_response_filters_wait(
    filters: Seq<FilterView>,
    answers: Seq<bool>,
    at: int,
    ctx: RequestView,
)
    requires
        ctx.status_code is None,
        ctx.res_headers is None,
        0 <= at < filters.len(),
        filters[at] is StatusCode || (filters[at] matches FilterView::HeaderMatch {
            name,
            is_request,
        } && !is_request),
    ensures
        meets_all(filters, answers, ctx) == meets_all(
            filters.remove(at),
            answers_without(answers, at),
            ctx,
        ),
        meets_any(filters, answers, ctx) == meets_any(
            filters.remove(at),
            answers_without(answers, at),
            ctx,
        ),
{
    let fewer = filters.remove(at);
    let rest = answers_without(answers, at);
    assert(!evaluable(filters[at], ctx));
    assert forall|i: int| 0 <= i < fewer.len() implies ({
        let k = if i < at {
            i
        } else {
            i + 1
        };
        (#[trigger] fewer[i]) == filters[k] && answer_at(rest, i) == answer_at(answers, k)
    }) by {}
    if meets_all(filters, answers, ctx) {
        assert forall|i: int| 0 <= i < fewer.len() && evaluable(
            #[trigger] fewer[i],
            ctx,
        ) implies meets(fewer[i], ctx, answer_at(rest, i)) by {
            let k = if i < at {
                i
            } else {
                i + 1
            };
            assert(evaluable(filters[k], ctx));
        }
    }
    if meets_all(fewer, rest, ctx) {
        assert forall|i: int| 0 <= i < filters.len() && evaluable(
            #[trigger] filters[i],
            ctx,
        ) implies meets(filters[i], ctx, answer_at(answers, i)) by {
            let k = if i < at {
                i
            } else {
                i - 1
            };
            assert(evaluable(fewer[k], ctx));
        }
    }
    if meets_any(filters, answers, ctx) {
        let i = choose|i: int|
            0 <= i < filters.len() && evaluable(#[trigger] filters[i], ctx) && meets(
                filters[i],
                ctx,
                answer_at(answers, i),
            );
        let k = if i < at {
            i
        } else {
            i - 1
        };
        assert(evaluable(fewer[k], ctx) && meets(fewer[k], ctx, answer_at(rest, k)));
    }
    if meets_any(fewer, rest, ctx) {
        let i = choose|i: int|
            0 <= i < fewer.len() && evaluable(#[trigger] fewer[i], ctx) && meets(
                fewer[i],
                ctx,
                answer_at(rest, i),
            );
        let k = if i < at {
            i
        } else {
            i + 1
        };
        assert(evaluable(filters[k], ctx) && meets(filters[k], ctx, answer_at(answers, k)));
    }
}

/// Whether a rule that applies comes from a candidate as it should.
pub open spec fn rightly_chosen(
    rules: Seq<RuleView>,
    f: FactsView,
    ctx: RequestView,
    skips: Seq<SkipView>,
    c: (usize, Option<Seq<Seq<char>>>, bool),
    x: ResolvedRuleView,
) -> bool {
    &&& !c.2
    &&& c.0 < rules.len()
    &&& x.rule == rules[c.0 as int]
    &&& x.captures == c.1
    &&& x.resolved_value == f.expanded
    &&& !x.rule.disabled
    &&& x.rule.protocol != Protocol::Skip
    &&& admitted(x.rule, f, ctx)
    &&& !skipped(skips, x.rule, f.plain)
}

/// Every rule that applies is that of a candidate that is neither negated nor
/// disabled, that gets past its filters and that no skip directive turns off. No
/// skip directive itself applies.
pub proof fn lemma_rightly_chosen(
    rules: Seq<RuleView>,
    facts: Seq<FactsView>,
    ctx: RequestView,
    skips: Seq<SkipView>,
    candidates: Seq<(usize, Option<Seq<Seq<char>>>, bool)>,
)
    ensures
        forall|j: int|
            #![trigger gated(rules, facts, ctx, skips, candidates).chosen[j]]
            0 <= j < gated(rules, facts, ctx, skips, candidates).chosen.len() ==> exists|k: int|
                0 <= k < candidates.len() && rightly_chosen(
                    rules,
                    facts[k],
                    ctx,
                    skips,
                    #[trigger] candidates[k],
                    gated(rules, facts, ctx, skips, candidates).chosen[j],
                ),
    decreases candidates.len(),
{
    if candidates.len() > 0 {
        let rest = candidates.drop_last();
        lemma_rightly_chosen(rules, facts, ctx, skips, rest);
        let before = gated(rules, facts, ctx, skips, rest).chosen;
        let after = gated(rules, facts, ctx, skips, candidates).chosen;
        assert forall|j: int| #![trigger after[j]] 0 <= j < after.len() implies exists|k: int|
            0 <= k < candidates.len() && rightly_chosen(
                rules,
                facts[k],
                ctx,
                skips,
                #[trigger] candidates[k],
                after[j],
            ) by {
            if j < before.len() {
                assert(after[j] == before[j]);
                let k = choose|k: int|
                    0 <= k < rest.len() && rightly_chosen(
                        rules,
                        facts[k],
                        ctx,
                        skips,
                        #[trigger] rest[k],
                        before[j],
                    );
                assert(candidates[k] == rest[k]);
            } else {
                assert(rightly_chosen(
                    rules,
                    facts[candidates.len() - 1],
                    ctx,
                    skips,
                    candidates[candidates.len() - 1],
                    after[j],
                ));
            }
        }
    }
}

/// The value of every rule that applies is what its base value becomes for the
/// request, with what the pattern of the rule captured.
pub proof fn lemma_values_come_from_base_values<
    F: FnOnce(&String, &RequestContext, &Option<Vec<String>>, &TextMap<String>) -> String,
>(
    found: Seq<ResolvedRuleView>,
    s: ResolverView,
    ctx: &RequestContext,
    candidates: Seq<(usize, Option<Seq<Seq<char>>>, bool)>,
    evidence: Seq<RuleEvidence>,
    expand: F,
)
    requires
        resolved_from(found, s, ctx, candidates, evidence, expand),
    ensures
        forall|j: int|
            0 <= j < found.len() ==> exists|values: TextMap<String>, at: int|
                {
                    &&& map_texts(values@) == s.values
                    &&& 0 <= at < s.rules.len()
                    &&& (#[trigger] found[j]).rule == s.rules[at]
                    &&& #[trigger] expands_to(
                        expand,
                        s.rules[at],
                        found[j].captures,
                        ctx,
                        &values,
                        evidence[at].source_value@,
                        found[j].resolved_value,
                    )
                },
{
    let (values, facts) = choose|values: TextMap<String>, facts: Seq<FactsView>|
        {
            &&& map_texts(values@) == s.values
            &&& #[trigger] facts_from(facts, s.rules, candidates, ctx, &values, evidence, expand)
            &&& found == resolution(s.rules, facts, ctx@, candidates)
        };
    let off = active_skips(s.rules, facts, ctx@, candidates);
    lemma_rightly_chosen(s.rules, facts, ctx@, off, candidates);
    assert forall|j: int| 0 <= j < found.len() implies exists|values: TextMap<String>, at: int|
        {
            &&& map_texts(values@) == s.values
            &&& 0 <= at < s.rules.len()
            &&& (#[trigger] found[j]).rule == s.rules[at]
            &&& #[trigger] expands_to(
                expand,
                s.rules[at],
                found[j].captures,
                ctx,
                &values,
                evidence[at].source_value@,
                found[j].resolved_value,
            )
        } by {
        let k = choose|k: int|
            0 <= k < candidates.len() && rightly_chosen(
                s.rules,
                facts[k],
                ctx@,
                off,
                #[trigger] candidates[k],
                gated(s.rules, facts, ctx@, off, candidates).chosen[j],
            );
        let at = candidates[k].0 as int;
        let f = facts[k];
        assert(expands_to(
            expand,
            s.rules[at],
            found[j].captures,
            ctx,
            &values,
            evidence[at].source_value@,
            found[j].resolved_value,
        ));
    }
}

/// Of the rules that apply, no two have the same operation unless one of them may
/// share it.
pub proof fn lemma_one_rule_per_operation(
    rules: Seq<RuleView>,
    facts: Seq<FactsView>,
    ctx: RequestView,
    skips: Seq<SkipView>,
    candidates: Seq<(usize, Option<Seq<Seq<char>>>, bool)>,
)
    ensures
        forall|i: int, j: int|
            #![trigger gated(rules, facts, ctx, skips, candidates).chosen[i], gated(rules, facts, ctx, skips, candidates).chosen[j]]
            0 <= i < j < gated(rules, facts, ctx, skips, candidates).chosen.len() && gated(
                rules,
                facts,
                ctx,
                skips,
                candidates,
            ).chosen[i].rule.protocol == gated(
                rules,
                facts,
                ctx,
                skips,
                candidates,
            ).chosen[j].rule.protocol ==> gated(
                rules,
                facts,
                ctx,
                skips,
                candidates,
            ).chosen[i].rule.multi_match || gated(
                rules,
                facts,
                ctx,
                skips,
                candidates,
            ).chosen[j].rule.multi_match,
        forall|i: int|
            #![trigger gated(rules, facts, ctx, skips, candidates).chosen[i]]
            0 <= i < gated(rules, facts, ctx, skips, candidates).chosen.len() && !gated(
                rules,
                facts,
                ctx,
                skips,
                candidates,
            ).chosen[i].rule.multi_match ==> gated(
                rules,
                facts,
                ctx,
                skips,
                candidates,
            ).closed.contains(
                gated(rules, facts, ctx, skips, candidates).chosen[i].rule.protocol,
            ),
    decreases candidates.len(),
{
    if candidates.len() > 0 {
        let rest = candidates.drop_last();
        lemma_one_rule_per_operation(rules, facts, ctx, skips, rest);
        let before = gated(rules, facts, ctx, skips, rest);
        let after = gated(rules, facts, ctx, skips, candidates);
        assert forall|i: int| #![trigger after.chosen[i]]
            0 <= i < after.chosen.len() && !after.chosen[i].rule.multi_match implies after.closed.contains(
            after.chosen[i].rule.protocol,
        ) by {
            if i < before.chosen.len() {
                assert(after.chosen[i] == before.chosen[i]);
            }
        }
        assert forall|i: int, j: int| #![trigger after.chosen[i], after.chosen[j]]
            0 <= i < j < after.chosen.len() && after.chosen[i].rule.protocol
                == after.chosen[j].rule.protocol implies after.chosen[i].rule.multi_match
            || after.chosen[j].rule.multi_match by {
            assert(after.chosen[i] == before.chosen[i]);
            if j < before.chosen.len() {
                assert(after.chosen[j] == before.chosen[j]);
            }
        }
    }
}

/// More candidates only add rules at the end. What they add leaves closed
/// operations alone, unless it may share them.
pub proof fn lemma_closed_stays_closed(
    rules: Seq<RuleView>,
    facts: Seq<FactsView>,
    ctx: RequestView,
    skips: Seq<SkipView>,
    candidates: Seq<(usize, Option<Seq<Seq<char>>>, bool)>,
    n: int,
)
    requires
        0 <= n <= candidates.len(),
    ensures
        ({
            let early = gated(rules, facts, ctx, skips, candidates.take(n));
            let full = gated(rules, facts, ctx, skips, candidates);
            &&& early.chosen.len() <= full.chosen.len()
            &&& full.chosen.take(early.chosen.len() as int) == early.chosen
            &&& early.closed.subset_of(full.closed)
            &&& forall|j: int|
                early.chosen.len() <= j < full.chosen.len() ==> (
                #[trigger] full.chosen[j]).rule.multi_match || !early.closed.contains(
                    full.chosen[j].rule.protocol,
                )
        }),
    decreases candidates.len() - n,
{
    let early = gated(rules, facts, ctx, skips, candidates.take(n));
    let full = gated(rules, facts, ctx, skips, candidates);
    if n == candidates.len() {
        assert(candidates.take(n) =~= candidates);
        assert(full.chosen.take(early.chosen.len() as int) =~= early.chosen);
    } else {
        lemma_closed_stays_closed(rules, facts, ctx, skips, candidates, n + 1);
        let mid = gated(rules, facts, ctx, skips, candidates.take(n + 1));
        assert(candidates.take(n + 1).drop_last() =~= candidates.take(n));
        assert(candidates.take(n + 1).last() == candidates[n]);
        assert(full.chosen.take(early.chosen.len() as int) =~= early.chosen) by {
            assert(forall|j: int| 0 <= j < early.chosen.len() ==> mid.chosen[j] == early.chosen[j]);
            assert(forall|j: int|
                0 <= j < mid.chosen.len() ==> full.chosen.take(mid.chosen.len() as int)[j]
                    == mid.chosen[j]);
            assert forall|j: int| 0 <= j < early.chosen.len() implies full.chosen.take(
                early.chosen.len() as int,
            )[j] == early.chosen[j] by {
                assert(full.chosen.take(mid.chosen.len() as int)[j] == full.chosen[j]);
            }
        }
        assert forall|j: int| early.chosen.len() <= j < full.chosen.len() implies (
        #[trigger] full.chosen[j]).rule.multi_match || !early.closed.contains(
            full.chosen[j].rule.protocol,
        ) by {
            if j < mid.chosen.len() {
                assert(full.chosen.take(mid.chosen.len() as int)[j] == full.chosen[j]);
            }
        }
    }
}

/// A negated rule that holds keeps every later rule of its operation from
/// applying, unless that rule may share the operation.
pub proof fn lemma_negated_rule_blocks(
    rules: Seq<RuleView>,
    facts: Seq<FactsView>,
    ctx: RequestView,
    skips: Seq<SkipView>,
    candidates: Seq<(usize, Option<Seq<Seq<char>>>, bool)>,
    k: int,
)
    requires
        0 <= k < candidates.len(),
        candidates[k].2,
        candidates[k].0 < rules.len(),
        !rules[candidates[k].0 as int].disabled,
    ensures
        ({
            let early = gated(rules, facts, ctx, skips, candidates.take(k)).chosen;
            let full = gated(rules, facts, ctx, skips, candidates).chosen;
            &&& early.len() <= full.len()
            &&& full.take(early.len() as int) == early
            &&& forall|j: int|
                early.len() <= j < full.len() ==> (#[trigger] full[j]).rule.multi_match
                    || full[j].rule.protocol != rules[candidates[k].0 as int].protocol
        }),
{
    lemma_closed_stays_closed(rules, facts, ctx, skips, candidates, k + 1);
    assert(candidates.take(k + 1).drop_last() =~= candidates.take(k));
    assert(candidates.take(k + 1).last() == candidates[k]);
}

/// Candidates come in the order of the rules, no rule twice.
pub proof fn lemma_candidates_in_order(
    rules: Seq<RuleView>,
    outcomes: Seq<OutcomeView>,
    n: nat,
)
    requires
        n <= rules.len(),
        n <= usize::MAX,
    ensures
        forall|i: int|
            0 <= i < collected(rules, outcomes, n).len() ==> (#[trigger] collected(
                rules,
                outcomes,
                n,
            )[i]).0 < n,
        forall|i: int, j: int|
            0 <= i < j < collected(rules, outcomes, n).len() ==> (#[trigger] collected(
                rules,
                outcomes,
                n,
            )[i]).0 < (#[trigger] collected(rules, outcomes, n)[j]).0,
    decreases n,
{
    if n > 0 {
        let m = (n - 1) as nat;
        lemma_candidates_in_order(rules, outcomes, m);
        let before = collected(rules, outcomes, m);
        let after = collected(rules, outcomes, n);
        assert forall|i: int| 0 <= i < after.len() implies (#[trigger] after[i]).0 < n by {
            if i < before.len() {
                assert(after[i] == before[i]);
            }
        }
        assert forall|i: int, j: int| 0 <= i < j < after.len() implies (#[trigger] after[i]).0 < (
        #[trigger] after[j]).0 by {
            assert(after[i] == before[i]);
            if j < before.len() {
                assert(after[j] == before[j]);
            }
        }
    }
}

/// The rules that apply, without their values.
pub open spec fn rules_of(list: Seq<ResolvedRuleView>) -> Seq<RuleView> {
    list.map_values(|x: ResolvedRuleView| x.rule)
}

/// Rules apply in the order of their priority: where the rules are in order and
/// the candidates come in their order, so do the rules that apply.
pub proof fn lemma_resolution_in_order(
    rules: Seq<RuleView>,
    facts: Seq<FactsView>,
    ctx: RequestView,
    skips: Seq<SkipView>,
    candidates: Seq<(usize, Option<Seq<Seq<char>>>, bool)>,
)
    requires
        in_order(rules),
        forall|i: int, j: int|
            0 <= i < j < candidates.len() ==> (#[trigger] candidates[i]).0 < (
            #[trigger] candidates[j]).0,
    ensures
        in_order(rules_of(gated(rules, facts, ctx, skips, candidates).chosen)),
    decreases candidates.len(),
{
    if candidates.len() > 0 {
        let rest = candidates.drop_last();
        assert forall|i: int, j: int| 0 <= i < j < rest.len() implies (#[trigger] rest[i]).0 < (
        #[trigger] rest[j]).0 by {
            assert(rest[i] == candidates[i] && rest[j] == candidates[j]);
        }
        lemma_resolution_in_order(rules, facts, ctx, skips, rest);
        lemma_rightly_chosen(rules, facts, ctx, skips, rest);
        let before = gated(rules, facts, ctx, skips, rest).chosen;
        let after = gated(rules, facts, ctx, skips, candidates).chosen;
        let a = rules_of(before);
        let b = rules_of(after);
        let c = candidates.last();
        assert forall|i: int, j: int| 0 <= i < j < b.len() implies !(#[trigger] b[j]).before(
            #[trigger] b[i],
        ) by {
            assert(after[i] == before[i]);
            assert(b[i] == a[i]);
            if j < before.len() {
                assert(after[j] == before[j]);
                assert(b[j] == a[j]);
                assert(!a[j].before(a[i]));
            } else {
                let k = choose|k: int|
                    0 <= k < rest.len() && rightly_chosen(
                        rules,
                        facts[k],
                        ctx,
                        skips,
                        #[trigger] rest[k],
                        before[i],
                    );
                assert(candidates[k] == rest[k]);
                assert(candidates[k].0 < candidates[candidates.len() - 1].0);
                assert(!rules[c.0 as int].before(rules[candidates[k].0 as int]));
            }
        }
    }
}

} // verus!
