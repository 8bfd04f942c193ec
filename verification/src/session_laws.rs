//! What the store of sessions is for: what is remembered of a session, which one is
//! found again, and what a hand-over between runners tells.

use vstd::prelude::*;

use crate::agent_config::cleaned;
use crate::session_state::{
    context_fault, empty_store, handed_over, imported_section, in_scope, is_loaded, normal_contexts,
    normal_messages, normal_state, out_of_scope, rendered_context, slot, state_fault, state_key_of,
    state_metadata, trimmed_context, upserted, waiting, waits, with_context, ImportedContextView,
    SessionMessageView, SessionStateView, StoreView,
};
use crate::text::{blank, has_text, occurs_at, trimmed};
use crate::text_laws::lemma_splitting;

verus! {

broadcast use vstd::string::group_string_axioms;

/// A text is kept without the white space round it, and one without words is none.
pub proof fn lemma_cleaning(t: Seq<char>)
    ensures
        blank(t) ==> cleaned(Some(t)) is None,
        !blank(t) ==> cleaned(Some(t)) == Some(trimmed(t)),
        cleaned(None) is None,
{
}

// ---------------------------------------------------------------------------
// What is kept of a session
// ---------------------------------------------------------------------------

/// Messages are kept in their order, those without a role or without words left out.
pub proof fn lemma_messages_in_order(v: Seq<SessionMessageView>, m: SessionMessageView)
    ensures
        normal_messages(Seq::<SessionMessageView>::empty()).len() == 0,
        blank(m.role) || blank(m.content) ==> normal_messages(v.push(m)) == normal_messages(v),
        !blank(m.role) && !blank(m.content) ==> normal_messages(v.push(m)) == normal_messages(
            v,
        ).push(
            SessionMessageView {
                role: trimmed(m.role),
                content: trimmed(m.content),
                timestamp: m.timestamp,
                content_parts: m.content_parts,
            },
        ),
{
    assert(v.push(m).drop_last() =~= v);
}

/// Results of other runners are kept in their order, those that lack a part left out.
pub proof fn lemma_results_in_order(v: Seq<ImportedContextView>, c: ImportedContextView)
    ensures
        normal_contexts(Seq::<ImportedContextView>::empty()).len() == 0,
        complete(c) ==> normal_contexts(v.push(c)) == normal_contexts(v).push(trimmed_context(c)),
        !complete(c) ==> normal_contexts(v.push(c)) == normal_contexts(v),
        trimmed_context(c).created_at == c.created_at,
        trimmed_context(c).response == trimmed(c.response),
        trimmed_context(c).user_message == trimmed(c.user_message),
        trimmed_context(c).call_id == trimmed(c.call_id),
        trimmed_context(c).source_session_key == trimmed(c.source_session_key),
        trimmed_context(c).target_runner_id == trimmed(c.target_runner_id),
        trimmed_context(c).target_adapter == trimmed(c.target_adapter),
{
    assert(v.push(c).drop_last() =~= v);
}

/// Whether a result has all of its parts.
pub open spec fn complete(c: ImportedContextView) -> bool {
    &&& !blank(c.call_id)
    &&& !blank(c.source_session_key)
    &&& !blank(c.target_runner_id)
    &&& !blank(c.target_adapter)
    &&& !blank(c.user_message)
    &&& !blank(c.response)
}

/// What is said of a result that lacks a part: the first that is missing.
pub proof fn lemma_incomplete_results(c: ImportedContextView)
    ensures
        complete(c) <==> context_fault(c) is None,
        blank(c.call_id) ==> context_fault(c) == Some("imported context call_id cannot be empty"@),
        !blank(c.call_id) && blank(c.source_session_key) ==> context_fault(c) == Some(
            "imported context source_session_key cannot be empty"@,
        ),
        !blank(c.call_id) && !blank(c.source_session_key) && blank(c.target_runner_id)
            ==> context_fault(c) == Some("imported context target_runner_id cannot be empty"@),
{
}

/// A session is remembered under its key and its adapter, and refused without them.
pub proof fn lemma_nameless_sessions(s: SessionStateView)
    ensures
        blank(s.session_key) ==> state_fault(s) == Some("session_key cannot be empty"@),
        !blank(s.session_key) && blank(s.adapter) ==> state_fault(s) == Some(
            "adapter cannot be empty"@,
        ),
        !blank(s.session_key) && !blank(s.adapter) ==> state_fault(s) is None,
{
}

/// Everything that is said of a session is kept, with the white space taken off; it
/// is as new as it says, and as new as now where it does not say.
pub proof fn lemma_sessions_are_kept(s: SessionStateView, now: u64)
    ensures
        ({
            let n = normal_state(s, now);
            &&& n.session_key == trimmed(s.session_key)
            &&& n.adapter == trimmed(s.adapter)
            &&& n.runner_id == cleaned(s.runner_id)
            &&& n.external_conversation_id == cleaned(s.external_conversation_id)
            &&& n.external_thread_id == cleaned(s.external_thread_id)
            &&& n.history_path == cleaned(s.history_path)
            &&& n.work_dir == cleaned(s.work_dir)
            &&& n.model_override == cleaned(s.model_override)
            &&& n.model_override_source == cleaned(s.model_override_source)
            &&& n.reasoning_effort_override == cleaned(s.reasoning_effort_override)
            &&& n.reasoning_effort_override_source == cleaned(s.reasoning_effort_override_source)
            &&& n.latest_run_id == cleaned(s.latest_run_id)
            &&& n.title == cleaned(s.title)
            &&& n.last_user_message == cleaned(s.last_user_message)
            &&& n.last_response == cleaned(s.last_response)
            &&& n.status == cleaned(s.status)
            &&& n.messages == normal_messages(s.messages)
            &&& n.pending_imported_contexts == normal_contexts(s.pending_imported_contexts)
            &&& s.updated_at != 0 ==> n.updated_at == s.updated_at
            &&& s.updated_at == 0 ==> n.updated_at == now
        }),
{
}

// ---------------------------------------------------------------------------
// Keys
// ---------------------------------------------------------------------------

/// White space round the parts of a key does not matter, and no runner is as a runner
/// without a name.
pub proof fn lemma_keys_ignore_white_space(k: Seq<char>, a: Seq<char>, r: Seq<char>)
    ensures
        state_key_of(trimmed(k), trimmed(a), Some(trimmed(r))) == state_key_of(k, a, Some(r)),
        state_key_of(k, a, None) == state_key_of(k, a, Some(Seq::empty())),
{
    crate::text::lemma_trimmed_idempotent(k);
    crate::text::lemma_trimmed_idempotent(a);
    crate::text::lemma_trimmed_idempotent(r);
}

/// Sessions with different names are kept apart, and so are two agents or two runners
/// of one session.
pub proof fn lemma_keys_keep_apart(
    k: Seq<char>,
    a: Seq<char>,
    r: Seq<char>,
    l: Seq<char>,
    b: Seq<char>,
    q: Seq<char>,
)
    requires
        !trimmed(k).contains(':'),
        !trimmed(l).contains(':'),
        !trimmed(a).contains(':'),
        !trimmed(b).contains(':'),
        state_key_of(k, a, Some(r)) == state_key_of(l, b, Some(q)),
    ensures
        trimmed(k) == trimmed(l),
        trimmed(a) == trimmed(b),
        trimmed(r) == trimmed(q),
{
    reveal_strlit("::");
    assert("::"@ =~= seq![':', ':']);
    let c = seq![':'];
    let x = trimmed(a) + "::"@ + trimmed(r);
    let y = trimmed(b) + "::"@ + trimmed(q);
    assert(state_key_of(k, a, Some(r)) =~= trimmed(k) + c + (c + x));
    assert(state_key_of(l, b, Some(q)) =~= trimmed(l) + c + (c + y));
    lemma_splitting(trimmed(k), ':', c + x);
    lemma_splitting(trimmed(l), ':', c + y);
    assert(c + x == c + y);
    assert((c + x).skip(1) =~= x);
    assert((c + y).skip(1) =~= y);
    assert(x =~= trimmed(a) + c + (c + trimmed(r)));
    assert(y =~= trimmed(b) + c + (c + trimmed(q)));
    lemma_splitting(trimmed(a), ':', c + trimmed(r));
    lemma_splitting(trimmed(b), ':', c + trimmed(q));
    assert((c + trimmed(r)).skip(1) =~= trimmed(r));
    assert((c + trimmed(q)).skip(1) =~= trimmed(q));
}

// ---------------------------------------------------------------------------
// What is found again
// ---------------------------------------------------------------------------

/// What is found belongs to the session, to the adapter and to the runner that were
/// asked for, and nothing else that does is newer.
pub proof fn lemma_found_is_newest(
    m: Map<Seq<char>, SessionStateView>,
    session_key: Seq<char>,
    adapter: Option<Seq<char>>,
    s: SessionStateView,
    o: Seq<char>,
)
    requires
        is_loaded(m, session_key, adapter, None, Some(s)),
    ensures
        s.session_key == trimmed(session_key),
        adapter matches Some(a) ==> s.adapter == a,
        exists|k: Seq<char>| m.contains_key(k) && m[k] == s,
        m.contains_key(o) && m[o].session_key == trimmed(session_key) && (adapter matches Some(a)
            ==> m[o].adapter == a) ==> m[o].updated_at <= s.updated_at && (m[o].updated_at
            == s.updated_at ==> m[o].updated_seq <= s.updated_seq),
{
    let k = choose|k: Seq<char>| #[trigger]
        crate::session_state::is_latest(m, trimmed(session_key), adapter, None, k) && s == m[k];
    assert(m.contains_key(k) && m[k] == s);
    if o == k {
    } else if m.contains_key(o) && in_scope(m[o], trimmed(session_key), adapter, None) {
        assert(crate::session_state::older(m[o], m[k]) || !crate::session_state::older(m[k], m[o]));
    }
}

/// Nothing is found only where nothing of the session is there.
pub proof fn lemma_nothing_is_found(
    m: Map<Seq<char>, SessionStateView>,
    session_key: Seq<char>,
    o: Seq<char>,
)
    requires
        is_loaded(m, session_key, None, None, None),
        !blank(session_key),
        m.contains_key(o),
    ensures
        m[o].session_key != trimmed(session_key),
{
    assert(!in_scope(m[o], trimmed(session_key), None, None));
}

/// What is changed is as new as now, is numbered behind all that was written before,
/// and is kept under its key; the rest of the store stays.
pub proof fn lemma_changes_are_written(
    store: StoreView,
    k: Seq<char>,
    a: Seq<char>,
    r: Option<Seq<char>>,
    s: SessionStateView,
    now: u64,
    other: Seq<char>,
)
    ensures
        ({
            let after = upserted(store, k, a, r, s, now);
            let key = state_key_of(k, a, r);
            &&& after.sessions.contains_key(key)
            &&& after.sessions[key].updated_at == now
            &&& after.sessions[key].title == s.title
            &&& after.sessions[key].messages == s.messages
            &&& after.sessions[key].external_thread_id == s.external_thread_id
            &&& after.sessions[key].pending_imported_contexts == s.pending_imported_contexts
            &&& store.write_seq < u64::MAX ==> after.write_seq == store.write_seq + 1
                && after.sessions[key].updated_seq == store.write_seq + 1
            &&& other != key ==> after.sessions.contains_key(other) == store.sessions.contains_key(
                other,
            )
            &&& other != key && store.sessions.contains_key(other) ==> after.sessions[other]
                == store.sessions[other]
        }),
{
}

/// A session that is changed for the first time starts empty under its names.
pub proof fn lemma_new_sessions_are_empty(
    store: StoreView,
    k: Seq<char>,
    a: Seq<char>,
    r: Option<Seq<char>>,
)
    ensures
        store.sessions.contains_key(state_key_of(k, a, r)) ==> slot(store, k, a, r)
            == store.sessions[state_key_of(k, a, r)],
        !store.sessions.contains_key(state_key_of(k, a, r)) ==> {
            let s = slot(store, k, a, r);
            &&& s.session_key == trimmed(k)
            &&& s.adapter == trimmed(a)
            &&& s.runner_id == cleaned(r)
            &&& s.messages.len() == 0
            &&& s.pending_imported_contexts.len() == 0
            &&& s.title is None
            &&& s.external_thread_id is None
            &&& s.external_conversation_id is None
            &&& s.model_override is None
            &&& s.reasoning_effort_override is None
        },
{
}

/// What is cleared is what belongs to the session, and to the adapter and the runner
/// where they are given; the rest stays.
pub proof fn lemma_what_is_cleared(
    m: Map<Seq<char>, SessionStateView>,
    session_key: Seq<char>,
    adapter: Option<Seq<char>>,
    runner_id: Option<Seq<char>>,
    k: Seq<char>,
)
    requires
        m.contains_key(k),
    ensures
        ({
            let mine = m[k].session_key == session_key && (adapter is None || adapter == Some(
                m[k].adapter,
            )) && (runner_id is None || runner_id == m[k].runner_id);
            let left = out_of_scope(m, session_key, adapter, runner_id);
            &&& mine ==> !left.contains_key(k)
            &&& !mine ==> left.contains_key(k) && left[k] == m[k]
        }),
{
}

// ---------------------------------------------------------------------------
// Results of other runners
// ---------------------------------------------------------------------------

/// A result waits behind those that came before it, dated now where it has no date;
/// the same call waits once.
pub proof fn lemma_results_wait(s: SessionStateView, c: ImportedContextView, now: u64)
    ensures
        ({
            let before = s.pending_imported_contexts;
            let after = with_context(s, c, now).pending_imported_contexts;
            &&& (exists|i: int| 0 <= i < before.len() && (#[trigger] before[i]).call_id == c.call_id)
                ==> after == before
            &&& !(exists|i: int| 0 <= i < before.len() && (#[trigger] before[i]).call_id
                == c.call_id) ==> after.drop_last() == before && after.last().call_id == c.call_id
                && after.last().response == c.response && after.last().user_message
                == c.user_message && after.last().created_at == (if c.created_at == 0 {
                now
            } else {
                c.created_at
            })
            &&& with_context(s, c, now).messages == s.messages
            &&& with_context(s, c, now).session_key == s.session_key
        }),
{
    let before = s.pending_imported_contexts;
    if !waits(before, c.call_id) {
        assert(with_context(s, c, now).pending_imported_contexts.drop_last() =~= before);
    }
}

/// Results are handed over once: afterwards none waits, and the rest of the session
/// and of the store stays.
pub proof fn lemma_results_are_handed_over(
    store: StoreView,
    k: Seq<char>,
    a: Seq<char>,
    r: Option<Seq<char>>,
    now: u64,
    other: Seq<char>,
)
    ensures
        ({
            let key = state_key_of(k, a, r);
            let after = handed_over(store, k, a, r, now);
            &&& waiting(after, k, a, r).len() == 0
            &&& store.sessions.contains_key(key) ==> after.sessions.contains_key(key)
                && after.sessions[key].messages == store.sessions[key].messages
                && after.sessions[key].title == store.sessions[key].title
                && after.sessions[key].external_thread_id
                == store.sessions[key].external_thread_id
            &&& other != key ==> after.sessions.contains_key(other) == store.sessions.contains_key(
                other,
            )
            &&& other != key && store.sessions.contains_key(other) ==> after.sessions[other]
                == store.sessions[other]
        }),
{
}

/// Results are told in their order, and each tells its call, its runner, what was
/// asked and what was answered.
pub proof fn lemma_results_are_told(v: Seq<ImportedContextView>, c: ImportedContextView)
    ensures
        imported_section(v.push(c)) == imported_section(v) + rendered_context(c),
        has_text(rendered_context(c), c.call_id),
        has_text(rendered_context(c), c.target_runner_id),
        has_text(rendered_context(c), c.target_adapter),
        has_text(rendered_context(c), c.user_message),
        has_text(rendered_context(c), c.response),
{
    assert(v.push(c).drop_last() =~= v);
    assert(imported_section(v.push(c)) =~= imported_section(v) + rendered_context(c));
    let r = rendered_context(c);
    let a = "### Runner Call "@;
    let b = "\n"@;
    let d = "- Target Runner: "@;
    let e = " ("@;
    let f = ")\n"@;
    let g = "- User Request: "@;
    let h = "\n\nResult:\n"@;
    let z = "\n\n"@;
    lemma_holds(a, c.call_id, b + d + c.target_runner_id + e + c.target_adapter + f + g
        + c.user_message + h + c.response + z, r);
    lemma_holds(a + c.call_id + b + d, c.target_runner_id, e + c.target_adapter + f + g
        + c.user_message + h + c.response + z, r);
    lemma_holds(
        a + c.call_id + b + d + c.target_runner_id + e,
        c.target_adapter,
        f + g + c.user_message + h + c.response + z,
        r,
    );
    lemma_holds(
        a + c.call_id + b + d + c.target_runner_id + e + c.target_adapter + f + g,
        c.user_message,
        h + c.response + z,
        r,
    );
    lemma_holds(
        a + c.call_id + b + d + c.target_runner_id + e + c.target_adapter + f + g + c.user_message
            + h,
        c.response,
        z,
        r,
    );
}

proof fn lemma_holds(a: Seq<char>, p: Seq<char>, b: Seq<char>, s: Seq<char>)
    requires
        s =~= a + p + b,
    ensures
        has_text(s, p),
{
    let n = a.len() as int;
    assert(s.subrange(n, n + p.len()) =~= p);
    assert(occurs_at(s, p, n));
}

/// What a session hands to a run: its thread, its conversation and what was chosen
/// for it, under the names that runs read.
pub proof fn lemma_what_runs_are_told(s: SessionStateView)
    ensures
        ({
            let m = state_metadata(s);
            &&& m.contains_key("threadId"@) <==> cleaned(s.external_thread_id) is Some
            &&& cleaned(s.external_thread_id) matches Some(t) ==> m["threadId"@] == t
            &&& m.contains_key("conversationId"@) <==> cleaned(s.external_conversation_id) is Some
            &&& cleaned(s.external_conversation_id) matches Some(t) ==> m["conversationId"@] == t
            &&& m.contains_key("modelOverride"@) <==> cleaned(s.model_override) is Some
            &&& cleaned(s.model_override) matches Some(t) ==> m["modelOverride"@] == t
            &&& cleaned(s.model_override_source) matches Some(t) ==> m["modelOverrideSource"@] == t
            &&& cleaned(s.reasoning_effort_override) matches Some(t)
                ==> m["reasoningEffortOverride"@] == t && m["modelReasoningEffort"@] == t
            &&& cleaned(s.reasoning_effort_override_source) matches Some(t)
                ==> m["reasoningEffortOverrideSource"@] == t
            &&& m.contains_key("reasoningEffortOverride"@) <==> cleaned(
                s.reasoning_effort_override,
            ) is Some
        }),
{
    reveal_strlit("threadId");
    reveal_strlit("conversationId");
    reveal_strlit("modelOverride");
    reveal_strlit("modelOverrideSource");
    reveal_strlit("modelReasoningEffort");
    reveal_strlit("reasoningEffortOverride");
    reveal_strlit("reasoningEffortOverrideSource");
    assert("threadId"@.len() == 8 && "conversationId"@.len() == 14 && "modelOverride"@.len() == 13
        && "modelOverrideSource"@.len() == 19 && "modelReasoningEffort"@.len() == 20
        && "reasoningEffortOverride"@.len() == 23 && "reasoningEffortOverrideSource"@.len() == 29);
}

/// What is said of a result that names no agent, or holds no request or no answer.
pub proof fn lemma_results_without_words(c: ImportedContextView)
    requires
        !blank(c.call_id),
        !blank(c.source_session_key),
        !blank(c.target_runner_id),
    ensures
        blank(c.target_adapter) ==> context_fault(c) == Some(
            "imported context target_adapter cannot be empty"@,
        ),
        !blank(c.target_adapter) && (blank(c.user_message) || blank(c.response)) ==> context_fault(c)
            == Some("imported context user_message and response cannot be empty"@),
{
}

/// What runs are told begins with what it is.
pub proof fn lemma_heading_of_results()
    ensures
        imported_section(Seq::empty()) == "## Imported Runner Results\n\n"@
            + "The following results were produced by user-triggered slash Runner calls in this conversation. Use them as current conversation context.\n\n"@,
{
    let none = Seq::<ImportedContextView>::empty();
    assert(imported_section(none) =~= "## Imported Runner Results\n\n"@
        + "The following results were produced by user-triggered slash Runner calls in this conversation. Use them as current conversation context.\n\n"@);
}

/// A new store holds no session, and nothing was written to it yet.
pub proof fn lemma_new_stores(key: Seq<char>)
    ensures
        empty_store().write_seq == 0,
        !empty_store().sessions.contains_key(key),
{
}

} // verus!
