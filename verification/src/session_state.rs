//! What is remembered about each conversation: which runner it talks to, where
//! that runner left off and which results of other runners wait to be handed
//! over.

use vstd::prelude::*;
use vstd::string::*;

use crate::agent_config::{clean_opt, clean_optional_string, cleaned, lemma_cleaned_idempotent, map_texts};
use crate::json::{opt_str, Json, Tree};
use crate::map::{
    entries_map, gathered, lemma_entry_in_map, lemma_gathered_in_place, lemma_text_less_irreflexive,
    lemma_text_less_transitive, position, text_less, TextMap,
};
use crate::models::fault_of;
use crate::text::{concat2, concat3, copy_opt, decimal, decimal_text, lemma_trimmed_idempotent, opt, owned, same, trim, trimmed};

verus! {

broadcast use vstd::string::group_string_axioms;

/// The adapter of the built-in agent.
pub const BUILTIN_AGENT_ADAPTER: &'static str = "bifrost_agent";

/// The layout version of a stored session file.
pub const STORE_VERSION: u32 = 1;

/// The name of the file that the sessions are stored in.
pub const STORE_FILENAME: &'static str = "session_state.json";

/// The largest session file that is read.
pub const MAX_STORE_FILE_BYTES: u64 = 16777216;

/// One message of a remembered conversation.
#[derive(Debug, PartialEq, Eq)]
pub struct ImAgentSessionMessage {
    pub role: String,
    pub content: String,
    pub timestamp: Option<u64>,
    pub content_parts: Option<Json>,
}

#[verifier::ext_equal]
pub struct SessionMessageView {
    pub role: Seq<char>,
    pub content: Seq<char>,
    pub timestamp: Option<u64>,
    pub content_parts: Option<Tree>,
}

/// The view of an optional JSON value.
pub open spec fn parts_tree(parts: Option<Json>) -> Option<Tree> {
    match parts {
        Some(p) => Some(p@),
        None => None,
    }
}

impl View for ImAgentSessionMessage {
    type V = SessionMessageView;

    open spec fn view(&self) -> SessionMessageView {
        SessionMessageView {
            role: self.role@,
            content: self.content@,
            timestamp: self.timestamp,
            content_parts: parts_tree(self.content_parts),
        }
    }
}

/// The result of a call to another runner that waits to be handed over.
#[derive(Debug, PartialEq, Eq)]
pub struct ImImportedRunnerContext {
    pub call_id: String,
    pub source_session_key: String,
    pub target_runner_id: String,
    pub target_adapter: String,
    pub user_message: String,
    pub response: String,
    pub created_at: u64,
}

#[verifier::ext_equal]
pub struct ImportedContextView {
    pub call_id: Seq<char>,
    pub source_session_key: Seq<char>,
    pub target_runner_id: Seq<char>,
    pub target_adapter: Seq<char>,
    pub user_message: Seq<char>,
    pub response: Seq<char>,
    pub created_at: u64,
}

impl View for ImImportedRunnerContext {
    type V = ImportedContextView;

    open spec fn view(&self) -> ImportedContextView {
        ImportedContextView {
            call_id: self.call_id@,
            source_session_key: self.source_session_key@,
            target_runner_id: self.target_runner_id@,
            target_adapter: self.target_adapter@,
            user_message: self.user_message@,
            response: self.response@,
            created_at: self.created_at,
        }
    }
}

/// What is remembered about one conversation with one runner.
#[derive(Debug, PartialEq, Eq)]
pub struct ImAgentSessionState {
    pub session_key: String,
    pub adapter: String,
    pub runner_id: Option<String>,
    pub external_conversation_id: Option<String>,
    pub external_thread_id: Option<String>,
    pub history_path: Option<String>,
    pub work_dir: Option<String>,
    pub model_override: Option<String>,
    pub model_override_source: Option<String>,
    pub reasoning_effort_override: Option<String>,
    pub reasoning_effort_override_source: Option<String>,
    pub latest_run_id: Option<String>,
    pub title: Option<String>,
    pub last_user_message: Option<String>,
    pub last_response: Option<String>,
    pub status: Option<String>,
    pub messages: Vec<ImAgentSessionMessage>,
    pub pending_imported_contexts: Vec<ImImportedRunnerContext>,
    pub updated_at: u64,
    pub updated_seq: u64,
}

#[verifier::ext_equal]
pub struct SessionStateView {
    pub session_key: Seq<char>,
    pub adapter: Seq<char>,
    pub runner_id: Option<Seq<char>>,
    pub external_conversation_id: Option<Seq<char>>,
    pub external_thread_id: Option<Seq<char>>,
    pub history_path: Option<Seq<char>>,
    pub work_dir: Option<Seq<char>>,
    pub model_override: Option<Seq<char>>,
    pub model_override_source: Option<Seq<char>>,
    pub reasoning_effort_override: Option<Seq<char>>,
    pub reasoning_effort_override_source: Option<Seq<char>>,
    pub latest_run_id: Option<Seq<char>>,
    pub title: Option<Seq<char>>,
    pub last_user_message: Option<Seq<char>>,
    pub last_response: Option<Seq<char>>,
    pub status: Option<Seq<char>>,
    pub messages: Seq<SessionMessageView>,
    pub pending_imported_contexts: Seq<ImportedContextView>,
    pub updated_at: u64,
    pub updated_seq: u64,
}

/// The views of a list of messages.
pub open spec fn message_views(v: Seq<ImAgentSessionMessage>) -> Seq<SessionMessageView> {
    v.map_values(|m: ImAgentSessionMessage| m@)
}

/// The views of a list of imported results.
pub open spec fn context_views(v: Seq<ImImportedRunnerContext>) -> Seq<ImportedContextView> {
    v.map_values(|c: ImImportedRunnerContext| c@)
}

impl View for ImAgentSessionState {
    type V = SessionStateView;

    open spec fn view(&self) -> SessionStateView {
        SessionStateView {
            session_key: self.session_key@,
            adapter: self.adapter@,
            runner_id: opt(self.runner_id),
            external_conversation_id: opt(self.external_conversation_id),
            external_thread_id: opt(self.external_thread_id),
            history_path: opt(self.history_path),
            work_dir: opt(self.work_dir),
            model_override: opt(self.model_override),
            model_override_source: opt(self.model_override_source),
            reasoning_effort_override: opt(self.reasoning_effort_override),
            reasoning_effort_override_source: opt(self.reasoning_effort_override_source),
            latest_run_id: opt(self.latest_run_id),
            title: opt(self.title),
            last_user_message: opt(self.last_user_message),
            last_response: opt(self.last_response),
            status: opt(self.status),
            messages: message_views(self.messages@),
            pending_imported_contexts: context_views(self.pending_imported_contexts@),
            updated_at: self.updated_at,
            updated_seq: self.updated_seq,
        }
    }
}

/// The state of a conversation of which nothing is known yet.
pub open spec fn fresh_state(
    session_key: Seq<char>,
    adapter: Seq<char>,
    runner_id: Option<Seq<char>>,
) -> SessionStateView {
    SessionStateView {
        session_key,
        adapter,
        runner_id,
        external_conversation_id: None,
        external_thread_id: None,
        history_path: None,
        work_dir: None,
        model_override: None,
        model_override_source: None,
        reasoning_effort_override: None,
        reasoning_effort_override_source: None,
        latest_run_id: None,
        title: None,
        last_user_message: None,
        last_response: None,
        status: None,
        messages: Seq::empty(),
        pending_imported_contexts: Seq::empty(),
        updated_at: 0,
        updated_seq: 0,
    }
}

impl ImAgentSessionMessage {
    pub fn copy(&self) -> (r: Self)
        ensures
            r@ == self@,
    {
        ImAgentSessionMessage {
            role: self.role.clone(),
            content: self.content.clone(),
            timestamp: self.timestamp,
            content_parts: match &self.content_parts {
                Some(p) => Some(p.copy()),
                None => None,
            },
        }
    }
}

impl ImImportedRunnerContext {
    pub fn copy(&self) -> (r: Self)
        ensures
            r@ == self@,
    {
        ImImportedRunnerContext {
            call_id: self.call_id.clone(),
            source_session_key: self.source_session_key.clone(),
            target_runner_id: self.target_runner_id.clone(),
            target_adapter: self.target_adapter.clone(),
            user_message: self.user_message.clone(),
            response: self.response.clone(),
            created_at: self.created_at,
        }
    }
}

fn copy_messages(v: &Vec<ImAgentSessionMessage>) -> (r: Vec<ImAgentSessionMessage>)
    ensures
        message_views(r@) == message_views(v@),
{
    let mut out: Vec<ImAgentSessionMessage> = Vec::new();
    let mut i: usize = 0;
    while i < v.len()
        invariant
            i <= v@.len(),
            out@.len() == i,
            forall|k: int| 0 <= k < i ==> (#[trigger] out@[k])@ == v@[k]@,
        decreases v@.len() - i,
    {
        out.push(v[i].copy());
        i = i + 1;
    }
    proof {
        assert(message_views(out@) =~= message_views(v@));
    }
    out
}

fn copy_contexts(v: &Vec<ImImportedRunnerContext>) -> (r: Vec<ImImportedRunnerContext>)
    ensures
        context_views(r@) == context_views(v@),
{
    let mut out: Vec<ImImportedRunnerContext> = Vec::new();
    let mut i: usize = 0;
    while i < v.len()
        invariant
            i <= v@.len(),
            out@.len() == i,
            forall|k: int| 0 <= k < i ==> (#[trigger] out@[k])@ == v@[k]@,
        decreases v@.len() - i,
    {
        out.push(v[i].copy());
        i = i + 1;
    }
    proof {
        assert(context_views(out@) =~= context_views(v@));
    }
    out
}

impl ImAgentSessionState {
    pub fn copy(&self) -> (r: Self)
        ensures
            r@ == self@,
    {
        ImAgentSessionState {
            session_key: self.session_key.clone(),
            adapter: self.adapter.clone(),
            runner_id: copy_opt(&self.runner_id),
            external_conversation_id: copy_opt(&self.external_conversation_id),
            external_thread_id: copy_opt(&self.external_thread_id),
            history_path: copy_opt(&self.history_path),
            work_dir: copy_opt(&self.work_dir),
            model_override: copy_opt(&self.model_override),
            model_override_source: copy_opt(&self.model_override_source),
            reasoning_effort_override: copy_opt(&self.reasoning_effort_override),
            reasoning_effort_override_source: copy_opt(&self.reasoning_effort_override_source),
            latest_run_id: copy_opt(&self.latest_run_id),
            title: copy_opt(&self.title),
            last_user_message: copy_opt(&self.last_user_message),
            last_response: copy_opt(&self.last_response),
            status: copy_opt(&self.status),
            messages: copy_messages(&self.messages),
            pending_imported_contexts: copy_contexts(&self.pending_imported_contexts),
            updated_at: self.updated_at,
            updated_seq: self.updated_seq,
        }
    }

    /// The state of a conversation of which nothing is known yet.
    pub fn fresh(session_key: String, adapter: String, runner_id: Option<String>) -> (r: Self)
        ensures
            r@ == fresh_state(session_key@, adapter@, opt(runner_id)),
    {
        let r = ImAgentSessionState {
            session_key,
            adapter,
            runner_id,
            external_conversation_id: None,
            external_thread_id: None,
            history_path: None,
            work_dir: None,
            model_override: None,
            model_override_source: None,
            reasoning_effort_override: None,
            reasoning_effort_override_source: None,
            latest_run_id: None,
            title: None,
            last_user_message: None,
            last_response: None,
            status: None,
            messages: Vec::new(),
            pending_imported_contexts: Vec::new(),
            updated_at: 0,
            updated_seq: 0,
        };
        proof {
            assert(r@ =~= fresh_state(session_key@, adapter@, opt(runner_id)));
        }
        r
    }
}

impl Default for ImAgentSessionState {
    fn default() -> (r: Self)
        ensures
            r@ == fresh_state(Seq::empty(), Seq::empty(), None),
    {
        let r = ImAgentSessionState::fresh(String::new(), String::new(), None);
        proof {
            assert(r@ =~= fresh_state(Seq::empty(), Seq::empty(), None));
        }
        r
    }
}

// ---------------------------------------------------------------------------
// Bringing a state into shape
// ---------------------------------------------------------------------------

/// The messages without surrounding white space. One without a role or without
/// content is dropped.
pub open spec fn normal_messages(v: Seq<SessionMessageView>) -> Seq<SessionMessageView>
    decreases v.len(),
{
    if v.len() == 0 {
        Seq::empty()
    } else {
        let before = normal_messages(v.drop_last());
        let m = v.last();
        if trimmed(m.role).len() == 0 || trimmed(m.content).len() == 0 {
            before
        } else {
            before.push(
                SessionMessageView { role: trimmed(m.role), content: trimmed(m.content), ..m },
            )
        }
    }
}

/// An imported result without surrounding white space in its texts.
pub open spec fn trimmed_context(c: ImportedContextView) -> ImportedContextView {
    ImportedContextView {
        call_id: trimmed(c.call_id),
        source_session_key: trimmed(c.source_session_key),
        target_runner_id: trimmed(c.target_runner_id),
        target_adapter: trimmed(c.target_adapter),
        user_message: trimmed(c.user_message),
        response: trimmed(c.response),
        created_at: c.created_at,
    }
}

/// Why an imported result is refused, if it is: the first of its texts that is
/// blank.
pub open spec fn context_fault(c: ImportedContextView) -> Option<Seq<char>> {
    let t = trimmed_context(c);
    if t.call_id.len() == 0 {
        Some("imported context call_id cannot be empty"@)
    } else if t.source_session_key.len() == 0 {
        Some("imported context source_session_key cannot be empty"@)
    } else if t.target_runner_id.len() == 0 {
        Some("imported context target_runner_id cannot be empty"@)
    } else if t.target_adapter.len() == 0 {
        Some("imported context target_adapter cannot be empty"@)
    } else if t.user_message.len() == 0 || t.response.len() == 0 {
        Some("imported context user_message and response cannot be empty"@)
    } else {
        None
    }
}

/// The imported results that are not refused, trimmed.
pub open spec fn normal_contexts(v: Seq<ImportedContextView>) -> Seq<ImportedContextView>
    decreases v.len(),
{
    if v.len() == 0 {
        Seq::empty()
    } else {
        let before = normal_contexts(v.drop_last());
        if context_fault(v.last()) is Some {
            before
        } else {
            before.push(trimmed_context(v.last()))
        }
    }
}

/// Why a state is refused, if it is.
pub open spec fn state_fault(s: SessionStateView) -> Option<Seq<char>> {
    if trimmed(s.session_key).len() == 0 {
        Some("session_key cannot be empty"@)
    } else if trimmed(s.adapter).len() == 0 {
        Some("adapter cannot be empty"@)
    } else {
        None
    }
}

/// A state in shape: its texts are trimmed, blank ones are dropped, and it has a
/// time.
pub open spec fn normal_state(s: SessionStateView, now: u64) -> SessionStateView {
    SessionStateView {
        session_key: trimmed(s.session_key),
        adapter: trimmed(s.adapter),
        runner_id: cleaned(s.runner_id),
        external_conversation_id: cleaned(s.external_conversation_id),
        external_thread_id: cleaned(s.external_thread_id),
        history_path: cleaned(s.history_path),
        work_dir: cleaned(s.work_dir),
        model_override: cleaned(s.model_override),
        model_override_source: cleaned(s.model_override_source),
        reasoning_effort_override: cleaned(s.reasoning_effort_override),
        reasoning_effort_override_source: cleaned(s.reasoning_effort_override_source),
        latest_run_id: cleaned(s.latest_run_id),
        title: cleaned(s.title),
        last_user_message: cleaned(s.last_user_message),
        last_response: cleaned(s.last_response),
        status: cleaned(s.status),
        messages: normal_messages(s.messages),
        pending_imported_contexts: normal_contexts(s.pending_imported_contexts),
        updated_at: if s.updated_at == 0 {
            now
        } else {
            s.updated_at
        },
        updated_seq: s.updated_seq,
    }
}

/// Trims an imported result, and refuses one with a blank text.
pub fn normalize_imported_context(context: &ImImportedRunnerContext) -> (r: Result<
    ImImportedRunnerContext,
    String,
>)
    ensures
        match r {
            Ok(c) => context_fault(context@) is None && c@ == trimmed_context(context@),
            Err(e) => context_fault(context@) == Some(e@),
        },
{
    let out = ImImportedRunnerContext {
        call_id: owned(trim(context.call_id.as_str())),
        source_session_key: owned(trim(context.source_session_key.as_str())),
        target_runner_id: owned(trim(context.target_runner_id.as_str())),
        target_adapter: owned(trim(context.target_adapter.as_str())),
        user_message: owned(trim(context.user_message.as_str())),
        response: owned(trim(context.response.as_str())),
        created_at: context.created_at,
    };
    if out.call_id.as_str().is_empty() {
        return Err(owned("imported context call_id cannot be empty"));
    }
    if out.source_session_key.as_str().is_empty() {
        return Err(owned("imported context source_session_key cannot be empty"));
    }
    if out.target_runner_id.as_str().is_empty() {
        return Err(owned("imported context target_runner_id cannot be empty"));
    }
    if out.target_adapter.as_str().is_empty() {
        return Err(owned("imported context target_adapter cannot be empty"));
    }
    if out.user_message.as_str().is_empty() || out.response.as_str().is_empty() {
        return Err(owned("imported context user_message and response cannot be empty"));
    }
    Ok(out)
}

fn normalize_messages(v: &Vec<ImAgentSessionMessage>) -> (r: Vec<ImAgentSessionMessage>)
    ensures
        message_views(r@) == normal_messages(message_views(v@)),
{
    let ghost all = message_views(v@);
    let mut out: Vec<ImAgentSessionMessage> = Vec::new();
    let mut i: usize = 0;
    proof {
        assert(message_views(out@) =~= normal_messages(all.take(0)));
    }
    while i < v.len()
        invariant
            i <= v@.len(),
            all == message_views(v@),
            message_views(out@) == normal_messages(all.take(i as int)),
        decreases v@.len() - i,
    {
        let role = trim(v[i].role.as_str());
        let content = trim(v[i].content.as_str());
        let ghost done = out@;
        proof {
            assert(all.take(i + 1).drop_last() =~= all.take(i as int));
            assert(all.take(i + 1).last() == v@[i as int]@);
        }
        if !role.is_empty() && !content.is_empty() {
            let mut m = v[i].copy();
            m.role = owned(role);
            m.content = owned(content);
            out.push(m);
            proof {
                assert(message_views(out@) =~= message_views(done).push(out@.last()@));
                assert(message_views(out@) =~= normal_messages(all.take(i + 1)));
            }
        }
        i = i + 1;
    }
    proof {
        assert(all.take(i as int) =~= all);
    }
    out
}

fn normalize_contexts(v: &Vec<ImImportedRunnerContext>) -> (r: Vec<ImImportedRunnerContext>)
    ensures
        context_views(r@) == normal_contexts(context_views(v@)),
{
    let ghost all = context_views(v@);
    let mut out: Vec<ImImportedRunnerContext> = Vec::new();
    let mut i: usize = 0;
    proof {
        assert(context_views(out@) =~= normal_contexts(all.take(0)));
    }
    while i < v.len()
        invariant
            i <= v@.len(),
            all == context_views(v@),
            context_views(out@) == normal_contexts(all.take(i as int)),
        decreases v@.len() - i,
    {
        let ghost done = out@;
        proof {
            assert(all.take(i + 1).drop_last() =~= all.take(i as int));
            assert(all.take(i + 1).last() == v@[i as int]@);
        }
        if let Ok(c) = normalize_imported_context(&v[i]) {
            out.push(c);
            proof {
                assert(context_views(out@) =~= context_views(done).push(out@.last()@));
            }
        }
        i = i + 1;
    }
    proof {
        assert(all.take(i as int) =~= all);
    }
    out
}

/// Brings a state into shape. A state without a conversation or without an
/// adapter is refused.
pub fn normalize_state(state: &ImAgentSessionState, now: u64) -> (r: Result<
    ImAgentSessionState,
    String,
>)
    ensures
        match r {
            Ok(s) => state_fault(state@) is None && s@ == normal_state(state@, now),
            Err(e) => state_fault(state@) == Some(e@),
        },
{
    let session_key = trim(state.session_key.as_str());
    let adapter = trim(state.adapter.as_str());
    if session_key.is_empty() {
        return Err(owned("session_key cannot be empty"));
    }
    if adapter.is_empty() {
        return Err(owned("adapter cannot be empty"));
    }
    Ok(
        ImAgentSessionState {
            session_key: owned(session_key),
            adapter: owned(adapter),
            runner_id: clean_opt(&state.runner_id),
            external_conversation_id: clean_opt(&state.external_conversation_id),
            external_thread_id: clean_opt(&state.external_thread_id),
            history_path: clean_opt(&state.history_path),
            work_dir: clean_opt(&state.work_dir),
            model_override: clean_opt(&state.model_override),
            model_override_source: clean_opt(&state.model_override_source),
            reasoning_effort_override: clean_opt(&state.reasoning_effort_override),
            reasoning_effort_override_source: clean_opt(&state.reasoning_effort_override_source),
            latest_run_id: clean_opt(&state.latest_run_id),
            title: clean_opt(&state.title),
            last_user_message: clean_opt(&state.last_user_message),
            last_response: clean_opt(&state.last_response),
            status: clean_opt(&state.status),
            messages: normalize_messages(&state.messages),
            pending_imported_contexts: normalize_contexts(&state.pending_imported_contexts),
            updated_at: if state.updated_at == 0 {
                now
            } else {
                state.updated_at
            },
            updated_seq: state.updated_seq,
        },
    )
}

/// Messages in shape stay as they are.
pub proof fn lemma_messages_normalized(v: Seq<SessionMessageView>)
    ensures
        normal_messages(normal_messages(v)) == normal_messages(v),
    decreases v.len(),
{
    if v.len() > 0 {
        let before = normal_messages(v.drop_last());
        lemma_messages_normalized(v.drop_last());
        let m = v.last();
        lemma_trimmed_idempotent(m.role);
        lemma_trimmed_idempotent(m.content);
        let n = SessionMessageView { role: trimmed(m.role), content: trimmed(m.content), ..m };
        assert(before.push(n).drop_last() =~= before);
        assert(before.push(n).last() == n);
    }
}

/// Trimming an imported result again changes nothing, nor does it refuse it.
pub proof fn lemma_context_normalized(c: ImportedContextView)
    ensures
        trimmed_context(trimmed_context(c)) == trimmed_context(c),
        context_fault(trimmed_context(c)) == context_fault(c),
{
    lemma_trimmed_idempotent(c.call_id);
    lemma_trimmed_idempotent(c.source_session_key);
    lemma_trimmed_idempotent(c.target_runner_id);
    lemma_trimmed_idempotent(c.target_adapter);
    lemma_trimmed_idempotent(c.user_message);
    lemma_trimmed_idempotent(c.response);
}

/// Imported results in shape stay as they are.
pub proof fn lemma_contexts_normalized(v: Seq<ImportedContextView>)
    ensures
        normal_contexts(normal_contexts(v)) == normal_contexts(v),
    decreases v.len(),
{
    if v.len() > 0 {
        let before = normal_contexts(v.drop_last());
        lemma_contexts_normalized(v.drop_last());
        let c = v.last();
        lemma_context_normalized(c);
        let n = trimmed_context(c);
        assert(before.push(n).drop_last() =~= before);
        assert(before.push(n).last() == n);
    }
}

/// A state that was brought into shape is accepted again and stays as it is,
/// whenever that is done, as long as it has a time.
pub proof fn lemma_state_normalized(s: SessionStateView, now: u64, later: u64)
    requires
        state_fault(s) is None,
        normal_state(s, now).updated_at != 0,
    ensures
        state_fault(normal_state(s, now)) is None,
        normal_state(normal_state(s, now), later) == normal_state(s, now),
{
    lemma_trimmed_idempotent(s.session_key);
    lemma_trimmed_idempotent(s.adapter);
    lemma_cleaned_idempotent(s.runner_id);
    lemma_cleaned_idempotent(s.external_conversation_id);
    lemma_cleaned_idempotent(s.external_thread_id);
    lemma_cleaned_idempotent(s.history_path);
    lemma_cleaned_idempotent(s.work_dir);
    lemma_cleaned_idempotent(s.model_override);
    lemma_cleaned_idempotent(s.model_override_source);
    lemma_cleaned_idempotent(s.reasoning_effort_override);
    lemma_cleaned_idempotent(s.reasoning_effort_override_source);
    lemma_cleaned_idempotent(s.latest_run_id);
    lemma_cleaned_idempotent(s.title);
    lemma_cleaned_idempotent(s.last_user_message);
    lemma_cleaned_idempotent(s.last_response);
    lemma_cleaned_idempotent(s.status);
    lemma_messages_normalized(s.messages);
    lemma_contexts_normalized(s.pending_imported_contexts);
}


// ---------------------------------------------------------------------------
// The store
// ---------------------------------------------------------------------------

/// All remembered conversations, and how often the store was written.
#[derive(Debug, PartialEq, Eq)]
pub struct SessionStore {
    pub write_seq: u64,
    pub sessions: TextMap<ImAgentSessionState>,
}

#[verifier::ext_equal]
pub struct StoreView {
    pub write_seq: u64,
    pub sessions: Map<Seq<char>, SessionStateView>,
}

/// The views of the states of a map.
pub open spec fn state_views(m: Map<Seq<char>, ImAgentSessionState>) -> Map<
    Seq<char>,
    SessionStateView,
> {
    m.map_values(|s: ImAgentSessionState| s@)
}

impl View for SessionStore {
    type V = StoreView;

    open spec fn view(&self) -> StoreView {
        StoreView { write_seq: self.write_seq, sessions: state_views(self.sessions@) }
    }
}

/// The store that nothing was written to.
pub open spec fn empty_store() -> StoreView {
    StoreView { write_seq: 0, sessions: Map::empty() }
}

impl Default for SessionStore {
    fn default() -> (r: Self)
        ensures
            r@ == empty_store(),
    {
        let r = SessionStore { write_seq: 0, sessions: TextMap::new() };
        proof {
            assert(r@ =~= empty_store());
        }
        r
    }
}

/// Why a session file of this size is not read, if it is not.
pub fn check_store_size(bytes: u64) -> (r: Result<(), String>)
    ensures
        r is Ok <==> bytes <= MAX_STORE_FILE_BYTES,
        r matches Err(e) ==> e@ == "session state file exceeds 16777216 bytes"@,
{
    if bytes > MAX_STORE_FILE_BYTES {
        Err(owned("session state file exceeds 16777216 bytes"))
    } else {
        Ok(())
    }
}

/// Why a session file of this version is not read, if it is not.
pub fn check_store_version(version: u32) -> (r: Result<(), String>)
    ensures
        r is Ok <==> version == STORE_VERSION,
        r matches Err(e) ==> e@ == "unsupported session state version "@ + decimal(version as nat),
{
    if version == STORE_VERSION {
        Ok(())
    } else {
        Err(concat2("unsupported session state version ", decimal_text(version as u64).as_str()))
    }
}

/// The key that the state of a conversation with a runner is stored under.
pub open spec fn state_key_of(
    session_key: Seq<char>,
    adapter: Seq<char>,
    runner_id: Option<Seq<char>>,
) -> Seq<char> {
    trimmed(session_key) + "::"@ + trimmed(adapter) + "::"@ + match runner_id {
        Some(r) => trimmed(r),
        None => Seq::empty(),
    }
}

pub fn state_key(session_key: &str, adapter: &str, runner_id: Option<&str>) -> (r: String)
    ensures
        r@ == state_key_of(session_key@, adapter@, opt_str(runner_id)),
{
    let mut out = concat3(trim(session_key), "::", trim(adapter));
    out.append("::");
    match runner_id {
        Some(id) => {
            out.append(trim(id));
        },
        None => {
            proof {
                assert(out@ =~= out@ + Seq::<char>::empty());
            }
        },
    }
    out
}

/// The number of the next write. It stays at the largest number once reached.
pub open spec fn next_seq(n: u64) -> u64 {
    if n < u64::MAX {
        (n + 1) as u64
    } else {
        n
    }
}

fn following(n: u64) -> (r: u64)
    ensures
        r == next_seq(n),
{
    if n < u64::MAX {
        n + 1
    } else {
        n
    }
}

/// Whether a state belongs to a conversation and, where they are given, to an
/// adapter and a runner.
pub open spec fn in_scope(
    s: SessionStateView,
    session_key: Seq<char>,
    adapter: Option<Seq<char>>,
    runner_id: Option<Seq<char>>,
) -> bool {
    &&& s.session_key == session_key
    &&& adapter is Some ==> s.adapter == adapter->Some_0
    &&& runner_id is Some ==> s.runner_id == runner_id
}

fn state_in_scope(
    state: &ImAgentSessionState,
    session_key: &str,
    adapter: Option<&str>,
    runner_id: Option<&str>,
) -> (r: bool)
    ensures
        r == in_scope(state@, session_key@, opt_str(adapter), opt_str(runner_id)),
{
    if !same(state.session_key.as_str(), session_key) {
        return false;
    }
    if let Some(a) = adapter {
        if !same(state.adapter.as_str(), a) {
            return false;
        }
    }
    match runner_id {
        Some(id) => match &state.runner_id {
            Some(own) => same(own.as_str(), id),
            None => false,
        },
        None => true,
    }
}

/// Whether `a` was written before `b`: by the time, then by the write number.
pub open spec fn older(a: SessionStateView, b: SessionStateView) -> bool {
    a.updated_at < b.updated_at || (a.updated_at == b.updated_at && a.updated_seq < b.updated_seq)
}

/// Whether the state at `k` is the one written last among those in scope. Of
/// states written at once, it is the one with the greatest key.
pub open spec fn is_latest(
    m: Map<Seq<char>, SessionStateView>,
    session_key: Seq<char>,
    adapter: Option<Seq<char>>,
    runner_id: Option<Seq<char>>,
    k: Seq<char>,
) -> bool {
    &&& m.contains_key(k)
    &&& in_scope(m[k], session_key, adapter, runner_id)
    &&& forall|o: Seq<char>| #[trigger]
        m.contains_key(o) && in_scope(m[o], session_key, adapter, runner_id) && o != k ==> older(
            m[o],
            m[k],
        ) || (!older(m[k], m[o]) && text_less(o, k))
}

/// What is read back for a conversation. With an adapter and a runner the state
/// stored for just these comes first; else it is the latest state in scope.
pub open spec fn is_loaded(
    m: Map<Seq<char>, SessionStateView>,
    session_key: Seq<char>,
    adapter: Option<Seq<char>>,
    runner_id: Option<Seq<char>>,
    r: Option<SessionStateView>,
) -> bool {
    let sk = trimmed(session_key);
    if sk.len() == 0 {
        r is None
    } else if adapter is Some && runner_id is Some && m.contains_key(
        state_key_of(sk, adapter->Some_0, runner_id),
    ) {
        r == Some(m[state_key_of(sk, adapter->Some_0, runner_id)])
    } else {
        match r {
            Some(s) => exists|k: Seq<char>| #[trigger]
                is_latest(m, sk, adapter, runner_id, k) && s == m[k],
            None => forall|k: Seq<char>| #[trigger]
                m.contains_key(k) ==> !in_scope(m[k], sk, adapter, runner_id),
        }
    }
}

/// There is one latest state at most, so what is read back is determined.
pub proof fn lemma_loaded_is_unique(
    m: Map<Seq<char>, SessionStateView>,
    session_key: Seq<char>,
    adapter: Option<Seq<char>>,
    runner_id: Option<Seq<char>>,
    a: Option<SessionStateView>,
    b: Option<SessionStateView>,
)
    requires
        is_loaded(m, session_key, adapter, runner_id, a),
        is_loaded(m, session_key, adapter, runner_id, b),
    ensures
        a == b,
{
    let sk = trimmed(session_key);
    if a is Some && b is Some && a != b {
        let x = choose|k: Seq<char>| #[trigger]
            is_latest(m, sk, adapter, runner_id, k) && a->Some_0 == m[k];
        let y = choose|k: Seq<char>| #[trigger]
            is_latest(m, sk, adapter, runner_id, k) && b->Some_0 == m[k];
        assert(m.contains_key(x) && m.contains_key(y));
        if text_less(x, y) && text_less(y, x) {
            lemma_text_less_transitive(x, y, x);
            lemma_text_less_irreflexive(x);
        }
    }
}

/// The latest of the states in scope.
fn latest_in_scope(
    store: &SessionStore,
    session_key: &str,
    adapter: Option<&str>,
    runner_id: Option<&str>,
) -> (r: Option<ImAgentSessionState>)
    ensures
        match r {
            Some(s) => exists|k: Seq<char>| #[trigger]
                is_latest(store@.sessions, session_key@, opt_str(adapter), opt_str(runner_id), k)
                    && s@ == store@.sessions[k],
            None => forall|k: Seq<char>| #[trigger]
                store@.sessions.contains_key(k) ==> !in_scope(
                    store@.sessions[k],
                    session_key@,
                    opt_str(adapter),
                    opt_str(runner_id),
                ),
        },
{
    let ghost ad = opt_str(adapter);
    let ghost ru = opt_str(runner_id);
    let n: usize = store.sessions.len();
    let ghost list = store.sessions.list();
    let mut best: Option<usize> = None;
    let mut i: usize = 0;
    while i < n
        invariant
            i <= n,
            n == list.len(),
            list == store.sessions.list(),
            ad == opt_str(adapter),
            ru == opt_str(runner_id),
            match best {
                Some(b) => b < i && in_scope(list[b as int].1@, session_key@, ad, ru) && forall|
                    j: int,
                |
                    0 <= j < i && j != b && in_scope((#[trigger] list[j]).1@, session_key@, ad, ru)
                        ==> older(list[j].1@, list[b as int].1@) || (!older(
                        list[b as int].1@,
                        list[j].1@,
                    ) && j < b),
                None => forall|j: int|
                    0 <= j < i ==> !in_scope((#[trigger] list[j]).1@, session_key@, ad, ru),
            },
        decreases n - i,
    {
        let state = store.sessions.value_at(i);
        if state_in_scope(state, session_key, adapter, runner_id) {
            match best {
                Some(b) => {
                    let known = store.sessions.value_at(b);
                    if state.updated_at > known.updated_at || (state.updated_at
                        == known.updated_at && state.updated_seq >= known.updated_seq) {
                        best = Some(i);
                    }
                },
                None => {
                    best = Some(i);
                },
            }
        }
        i = i + 1;
    }
    proof {
        let m = store@.sessions;
        assert forall|k: Seq<char>| #[trigger] m.contains_key(k) implies {
            let p = position(list, k);
            0 <= p < list.len() && list[p].0@ == k && m[k] == list[p].1@
        } by {
            assert(entries_map(list).contains_key(k));
            let p = position(list, k);
            assert(0 <= p < list.len() && list[p].0@ == k);
            lemma_entry_in_map(list, p);
        }
        if let Some(b) = best {
            let k = list[b as int].0@;
            lemma_entry_in_map(list, b as int);
            assert(m.contains_key(k) && m[k] == list[b as int].1@);
            assert forall|o: Seq<char>| #[trigger]
                m.contains_key(o) && in_scope(m[o], session_key@, ad, ru) && o != k implies older(
                m[o],
                m[k],
            ) || (!older(m[k], m[o]) && text_less(o, k)) by {
                let p = position(list, o);
                assert(in_scope(list[p].1@, session_key@, ad, ru));
                if p < b {
                    assert(text_less(list[p].0@, list[b as int].0@));
                }
            }
            assert(is_latest(m, session_key@, ad, ru, k));
        }
    }
    match best {
        Some(b) => Some(store.sessions.value_at(b).copy()),
        None => None,
    }
}

/// Reads back what is remembered of a conversation.
pub fn load_latest_session_state(
    store: &SessionStore,
    session_key: &str,
    adapter: Option<&str>,
    runner_id: Option<&str>,
) -> (r: Option<ImAgentSessionState>)
    ensures
        is_loaded(
            store@.sessions,
            session_key@,
            opt_str(adapter),
            opt_str(runner_id),
            match r {
                Some(s) => Some(s@),
                None => None,
            },
        ),
{
    let session_key = trim(session_key);
    if session_key.is_empty() {
        return None;
    }
    if let (Some(a), Some(id)) = (adapter, runner_id) {
        let key = state_key(session_key, a, Some(id));
        if let Some(state) = store.sessions.get(key.as_str()) {
            return Some(state.copy());
        }
    }
    latest_in_scope(store, session_key, adapter, runner_id)
}

/// Reads back what is remembered of a conversation with an adapter.
pub fn load_session_state(
    store: &SessionStore,
    session_key: &str,
    adapter: &str,
    runner_id: Option<&str>,
) -> (r: Option<ImAgentSessionState>)
    ensures
        is_loaded(
            store@.sessions,
            session_key@,
            Some(adapter@),
            opt_str(runner_id),
            match r {
                Some(s) => Some(s@),
                None => None,
            },
        ),
{
    load_latest_session_state(store, session_key, Some(adapter), runner_id)
}

/// The views of a list of states.
pub open spec fn listed_states(list: Seq<(String, ImAgentSessionState)>) -> Seq<SessionStateView> {
    list.map_values(|e: (String, ImAgentSessionState)| e.1@)
}

/// All states, in the order of their keys.
pub fn list_session_states(store: &SessionStore) -> (r: Vec<ImAgentSessionState>)
    ensures
        r@.map_values(|s: ImAgentSessionState| s@) == listed_states(store.sessions.list()),
{
    let n: usize = store.sessions.len();
    let mut out: Vec<ImAgentSessionState> = Vec::new();
    let mut i: usize = 0;
    while i < n
        invariant
            i <= n,
            n == store.sessions.list().len(),
            out@.len() == i,
            forall|k: int| 0 <= k < i ==> (#[trigger] out@[k])@ == store.sessions.list()[k].1@,
        decreases n - i,
    {
        out.push(store.sessions.value_at(i).copy());
        i = i + 1;
    }
    proof {
        assert(out@.map_values(|s: ImAgentSessionState| s@) =~= listed_states(
            store.sessions.list(),
        ));
    }
    out
}

/// The store after a state was put in it.
pub open spec fn stored(store: StoreView, key: Seq<char>, s: SessionStateView) -> StoreView {
    StoreView {
        write_seq: s.updated_seq,
        sessions: store.sessions.insert(key, s),
    }
}

/// The store after a state was remembered.
pub open spec fn remembered(store: StoreView, s: SessionStateView, now: u64) -> StoreView {
    let n = SessionStateView {
        updated_seq: next_seq(store.write_seq),
        ..normal_state(s, now)
    };
    stored(store, state_key_of(n.session_key, n.adapter, n.runner_id), n)
}

proof fn lemma_state_views_insert(
    m: Map<Seq<char>, ImAgentSessionState>,
    k: Seq<char>,
    s: ImAgentSessionState,
)
    ensures
        state_views(m.insert(k, s)) == state_views(m).insert(k, s@),
{
    assert(state_views(m.insert(k, s)) =~= state_views(m).insert(k, s@));
}

/// Remembers a state in place of what was stored for the same conversation,
/// adapter and runner. A refused state leaves the store as it was.
pub fn remember_session_state(
    store: &mut SessionStore,
    state: &ImAgentSessionState,
    now: u64,
) -> (r: Result<(), String>)
    ensures
        fault_of(r) == state_fault(state@),
        final(store)@ == (if r is Ok {
            remembered(old(store)@, state@, now)
        } else {
            old(store)@
        }),
{
    match normalize_state(state, now) {
        Ok(s) => {
            let mut s = s;
            let seq: u64 = following(store.write_seq);
            s.updated_seq = seq;
            let key = match &s.runner_id {
                Some(id) => state_key(
                    s.session_key.as_str(),
                    s.adapter.as_str(),
                    Some(id.as_str()),
                ),
                None => state_key(s.session_key.as_str(), s.adapter.as_str(), None),
            };
            let ghost before = store.sessions@;
            let ghost put = s;
            store.write_seq = seq;
            store.sessions.insert(key.as_str(), s);
            proof {
                lemma_state_views_insert(before, key@, put);
            }
            Ok(())
        },
        Err(e) => Err(e),
    }
}

/// What stands in the store for a conversation, or a fresh state.
pub open spec fn slot(
    store: StoreView,
    session_key: Seq<char>,
    adapter: Seq<char>,
    runner_id: Option<Seq<char>>,
) -> SessionStateView {
    let key = state_key_of(session_key, adapter, runner_id);
    if store.sessions.contains_key(key) {
        store.sessions[key]
    } else {
        fresh_state(trimmed(session_key), trimmed(adapter), cleaned(runner_id))
    }
}

/// The store after the state of a conversation was changed to `s`.
pub open spec fn upserted(
    store: StoreView,
    session_key: Seq<char>,
    adapter: Seq<char>,
    runner_id: Option<Seq<char>>,
    s: SessionStateView,
    now: u64,
) -> StoreView {
    stored(
        store,
        state_key_of(session_key, adapter, runner_id),
        SessionStateView { updated_at: now, updated_seq: next_seq(store.write_seq), ..s },
    )
}

/// Changes the state of a conversation with `update`, which starts from a fresh
/// state where there is none. The change is stamped with the time and the next
/// write number.
pub fn upsert_session_state<F: FnOnce(ImAgentSessionState) -> ImAgentSessionState>(
    store: &mut SessionStore,
    session_key: &str,
    adapter: &str,
    runner_id: Option<&str>,
    update: F,
    now: u64,
) -> (r: ImAgentSessionState)
    requires
        forall|s: ImAgentSessionState| #[trigger] call_requires(update, (s,)),
    ensures
        exists|s: ImAgentSessionState, t: ImAgentSessionState|
            {
                &&& s@ == slot(old(store)@, session_key@, adapter@, opt_str(runner_id))
                &&& #[trigger] call_ensures(update, (s,), t)
                &&& final(store)@ == upserted(
                    old(store)@,
                    session_key@,
                    adapter@,
                    opt_str(runner_id),
                    t@,
                    now,
                )
            },
        final(store)@.sessions.contains_key(
            state_key_of(session_key@, adapter@, opt_str(runner_id)),
        ),
        r@ == final(store)@.sessions[state_key_of(session_key@, adapter@, opt_str(runner_id))],
{
    let seq: u64 = following(store.write_seq);
    let key = state_key(session_key, adapter, runner_id);
    let ghost before = store.sessions@;
    let found = store.sessions.remove(key.as_str());
    let state = match found {
        Some(s) => s,
        None => ImAgentSessionState::fresh(
            owned(trim(session_key)),
            owned(trim(adapter)),
            clean_optional_string(runner_id),
        ),
    };
    let ghost start = state;
    let mut state = update(state);
    let ghost changed = state;
    state.updated_at = now;
    state.updated_seq = seq;
    let out = state.copy();
    let ghost put = state;
    store.write_seq = seq;
    store.sessions.insert(key.as_str(), state);
    proof {
        assert(before.remove(key@).insert(key@, put) =~= before.insert(key@, put));
        lemma_state_views_insert(before, key@, put);
        assert(call_ensures(update, (start,), changed));
        assert(store@ =~= upserted(
            old(store)@,
            session_key@,
            adapter@,
            opt_str(runner_id),
            changed@,
            now,
        ));
    }
    out
}

// ---------------------------------------------------------------------------
// Forgetting
// ---------------------------------------------------------------------------

/// The states of a list that are in scope, in the order of the list.
pub open spec fn scope_of(
    list: Seq<(String, ImAgentSessionState)>,
    session_key: Seq<char>,
    adapter: Option<Seq<char>>,
    runner_id: Option<Seq<char>>,
) -> Seq<SessionStateView>
    decreases list.len(),
{
    if list.len() == 0 {
        Seq::empty()
    } else {
        let before = scope_of(list.drop_last(), session_key, adapter, runner_id);
        if in_scope(list.last().1@, session_key, adapter, runner_id) {
            before.push(list.last().1@)
        } else {
            before
        }
    }
}

/// The states that are not in scope.
pub open spec fn out_of_scope(
    m: Map<Seq<char>, SessionStateView>,
    session_key: Seq<char>,
    adapter: Option<Seq<char>>,
    runner_id: Option<Seq<char>>,
) -> Map<Seq<char>, SessionStateView> {
    Map::new(
        |k: Seq<char>| m.contains_key(k) && !in_scope(m[k], session_key, adapter, runner_id),
        |k: Seq<char>| m[k],
    )
}

/// What is kept of an entry when a scope is cleared.
pub open spec fn kept(
    session_key: Seq<char>,
    adapter: Option<Seq<char>>,
    runner_id: Option<Seq<char>>,
) -> spec_fn(Seq<char>, ImAgentSessionState) -> Option<(Seq<char>, SessionStateView)> {
    |k: Seq<char>, s: ImAgentSessionState|
        if in_scope(s@, session_key, adapter, runner_id) {
            None
        } else {
            Some((k, s@))
        }
}

/// Forgets all states of a conversation, or those with an adapter and a runner
/// where these are given. A blank adapter or runner counts as not given. The
/// forgotten states are handed back in the order of their keys.
pub fn clear_session_state_scope(
    store: &mut SessionStore,
    session_key: &str,
    adapter: Option<&str>,
    runner_id: Option<&str>,
) -> (r: Vec<ImAgentSessionState>)
    ensures
        final(store)@.write_seq == old(store)@.write_seq,
        trimmed(session_key@).len() == 0 ==> r@.len() == 0 && final(store)@ == old(store)@,
        trimmed(session_key@).len() > 0 ==> {
            &&& final(store)@.sessions == out_of_scope(
                old(store)@.sessions,
                trimmed(session_key@),
                cleaned(opt_str(adapter)),
                cleaned(opt_str(runner_id)),
            )
            &&& r@.map_values(|s: ImAgentSessionState| s@) == scope_of(
                old(store).sessions.list(),
                trimmed(session_key@),
                cleaned(opt_str(adapter)),
                cleaned(opt_str(runner_id)),
            )
        },
{
    let session_key = trim(session_key);
    if session_key.is_empty() {
        return Vec::new();
    }
    let adapter_text = clean_optional_string(adapter);
    let runner_text = clean_optional_string(runner_id);
    let adapter: Option<&str> = match &adapter_text {
        Some(a) => Some(a.as_str()),
        None => None,
    };
    let runner_id: Option<&str> = match &runner_text {
        Some(id) => Some(id.as_str()),
        None => None,
    };
    let ghost ad = opt_str(adapter);
    let ghost ru = opt_str(runner_id);
    let n: usize = store.sessions.len();
    let ghost list = store.sessions.list();
    let ghost f = kept(session_key@, ad, ru);
    let mut rest: TextMap<ImAgentSessionState> = TextMap::new();
    let mut removed: Vec<ImAgentSessionState> = Vec::new();
    let mut i: usize = 0;
    proof {
        assert(list.take(0) =~= Seq::<(String, ImAgentSessionState)>::empty());
        assert(state_views(rest@) =~= gathered(list.take(0), f));
        assert(removed@.map_values(|s: ImAgentSessionState| s@) =~= scope_of(
            list.take(0),
            session_key@,
            ad,
            ru,
        ));
    }
    while i < n
        invariant
            i <= n,
            n == list.len(),
            list == store.sessions.list(),
            ad == opt_str(adapter),
            ru == opt_str(runner_id),
            f == kept(session_key@, ad, ru),
            state_views(rest@) == gathered(list.take(i as int), f),
            removed@.map_values(|s: ImAgentSessionState| s@) == scope_of(
                list.take(i as int),
                session_key@,
                ad,
                ru,
            ),
        decreases n - i,
    {
        let key = store.sessions.key_at(i);
        let state = store.sessions.value_at(i);
        let ghost held = rest@;
        let ghost gone = removed@;
        proof {
            assert(list.take(i + 1).drop_last() =~= list.take(i as int));
            assert(list.take(i + 1).last() == list[i as int]);
        }
        if state_in_scope(state, session_key, adapter, runner_id) {
            removed.push(state.copy());
            proof {
                assert(removed@.map_values(|s: ImAgentSessionState| s@) =~= gone.map_values(
                    |s: ImAgentSessionState| s@,
                ).push(state@));
            }
        } else {
            let copied = state.copy();
            let ghost put = copied;
            rest.insert(key.as_str(), copied);
            proof {
                lemma_state_views_insert(held, key@, put);
            }
        }
        i = i + 1;
    }
    proof {
        assert(list.take(i as int) =~= list);
        lemma_gathered_in_place(list, f);
        let m = old(store)@.sessions;
        let kept_map = gathered(list, f);
        assert forall|k: Seq<char>| kept_map.contains_key(k) <==> out_of_scope(
            m,
            session_key@,
            ad,
            ru,
        ).contains_key(k) by {
            assert(entries_map(list).contains_key(k) <==> m.contains_key(k));
        }
        assert forall|k: Seq<char>| kept_map.contains_key(k) implies kept_map[k] == m[k] by {
            assert(Some((k, kept_map[k])) == f(k, entries_map(list)[k]));
        }
        assert(kept_map =~= out_of_scope(m, session_key@, ad, ru));
    }
    store.sessions = rest;
    removed
}

/// Forgets all states of a conversation.
pub fn clear_session_state(store: &mut SessionStore, session_key: &str)
    ensures
        final(store)@ == (if trimmed(session_key@).len() == 0 {
            old(store)@
        } else {
            StoreView {
                write_seq: old(store)@.write_seq,
                sessions: out_of_scope(old(store)@.sessions, trimmed(session_key@), None, None),
            }
        }),
{
    let _removed = clear_session_state_scope(store, session_key, None, None);
}

// ---------------------------------------------------------------------------
// Results imported from other runners
// ---------------------------------------------------------------------------

/// Whether an imported result of this call waits already.
pub open spec fn waits(v: Seq<ImportedContextView>, call_id: Seq<char>) -> bool {
    exists|i: int| 0 <= i < v.len() && (#[trigger] v[i]).call_id == call_id
}

/// The state with an imported result at the end of those that wait, unless one
/// of the same call waits already.
pub open spec fn with_context(
    s: SessionStateView,
    c: ImportedContextView,
    now: u64,
) -> SessionStateView {
    if waits(s.pending_imported_contexts, c.call_id) {
        s
    } else {
        SessionStateView {
            pending_imported_contexts: s.pending_imported_contexts.push(
                ImportedContextView {
                    created_at: if c.created_at == 0 {
                        now
                    } else {
                        c.created_at
                    },
                    ..c
                },
            ),
            ..s
        }
    }
}

fn add_context(
    state: ImAgentSessionState,
    context: &ImImportedRunnerContext,
    now: u64,
) -> (r: ImAgentSessionState)
    ensures
        r@ == with_context(state@, context@, now),
{
    let mut changed = state;
    let ghost start = changed@;
    let ghost list = start.pending_imported_contexts;
    let mut i: usize = 0;
    while i < changed.pending_imported_contexts.len()
        invariant
            i <= changed.pending_imported_contexts@.len(),
            changed@ == start,
            start == state@,
            list == start.pending_imported_contexts,
            forall|k: int| 0 <= k < i ==> (#[trigger] list[k]).call_id != context@.call_id,
        decreases changed.pending_imported_contexts@.len() - i,
    {
        if same(changed.pending_imported_contexts[i].call_id.as_str(), context.call_id.as_str()) {
            proof {
                assert(list[i as int].call_id == context@.call_id);
                assert(waits(list, context@.call_id));
            }
            return changed;
        }
        i = i + 1;
    }
    let mut added = context.copy();
    if added.created_at == 0 {
        added.created_at = now;
    }
    let ghost put = added@;
    changed.pending_imported_contexts.push(added);
    proof {
        assert(changed@.pending_imported_contexts =~= list.push(put));
        assert(changed@ =~= with_context(start, context@, now));
    }
    changed
}

/// The store after an imported result was put in line.
pub open spec fn pushed(
    store: StoreView,
    session_key: Seq<char>,
    adapter: Seq<char>,
    runner_id: Option<Seq<char>>,
    c: ImportedContextView,
    now: u64,
) -> StoreView {
    upserted(
        store,
        session_key,
        adapter,
        runner_id,
        with_context(
            slot(store, session_key, adapter, runner_id),
            trimmed_context(c),
            now,
        ),
        now,
    )
}

/// Puts an imported result in line for a conversation. One with a blank text is
/// refused; one of a call that waits already is not put in line again.
pub fn push_imported_context(
    store: &mut SessionStore,
    session_key: &str,
    adapter: &str,
    runner_id: Option<&str>,
    context: &ImImportedRunnerContext,
    now: u64,
) -> (r: Result<(), String>)
    ensures
        fault_of(r) == context_fault(context@),
        final(store)@ == (if r is Ok {
            pushed(old(store)@, session_key@, adapter@, opt_str(runner_id), context@, now)
        } else {
            old(store)@
        }),
{
    match normalize_imported_context(context) {
        Ok(c) => {
            let add = |s: ImAgentSessionState| -> (t: ImAgentSessionState)
                ensures
                    t@ == with_context(s@, c@, now),
                { add_context(s, &c, now) };
            let _state = upsert_session_state(store, session_key, adapter, runner_id, add, now);
            Ok(())
        },
        Err(e) => Err(e),
    }
}

/// The imported results that wait for a conversation.
pub open spec fn waiting(
    store: StoreView,
    session_key: Seq<char>,
    adapter: Seq<char>,
    runner_id: Option<Seq<char>>,
) -> Seq<ImportedContextView> {
    let key = state_key_of(session_key, adapter, runner_id);
    if store.sessions.contains_key(key) {
        store.sessions[key].pending_imported_contexts
    } else {
        Seq::empty()
    }
}

/// The store after the imported results of a conversation were handed over.
pub open spec fn handed_over(
    store: StoreView,
    session_key: Seq<char>,
    adapter: Seq<char>,
    runner_id: Option<Seq<char>>,
    now: u64,
) -> StoreView {
    let key = state_key_of(session_key, adapter, runner_id);
    let seq = next_seq(store.write_seq);
    if waiting(store, session_key, adapter, runner_id).len() == 0 {
        StoreView { write_seq: seq, ..store }
    } else {
        stored(
            store,
            key,
            SessionStateView {
                pending_imported_contexts: Seq::empty(),
                updated_at: now,
                updated_seq: seq,
                ..store.sessions[key]
            },
        )
    }
}

/// Hands over the imported results that wait for a conversation. None is left.
pub fn take_imported_contexts(
    store: &mut SessionStore,
    session_key: &str,
    adapter: &str,
    runner_id: Option<&str>,
    now: u64,
) -> (r: Vec<ImImportedRunnerContext>)
    ensures
        context_views(r@) == waiting(old(store)@, session_key@, adapter@, opt_str(runner_id)),
        final(store)@ == handed_over(
            old(store)@,
            session_key@,
            adapter@,
            opt_str(runner_id),
            now,
        ),
{
    let seq: u64 = following(store.write_seq);
    let key = state_key(session_key, adapter, runner_id);
    let ghost before = store.sessions@;
    store.write_seq = seq;
    match store.sessions.remove(key.as_str()) {
        Some(s) => {
            let mut state = s;
            let mut imported: Vec<ImImportedRunnerContext> = Vec::new();
            std::mem::swap(&mut imported, &mut state.pending_imported_contexts);
            if imported.len() > 0 {
                state.updated_at = now;
                state.updated_seq = seq;
            }
            let ghost put = state;
            store.sessions.insert(key.as_str(), state);
            proof {
                assert(before.remove(key@).insert(key@, put) =~= before.insert(key@, put));
                lemma_state_views_insert(before, key@, put);
                assert(put@.pending_imported_contexts =~= Seq::<ImportedContextView>::empty());
                if imported@.len() == 0 {
                    assert(context_views(imported@) =~= Seq::<ImportedContextView>::empty());
                    assert(put@ =~= before[key@]@);
                    assert(store@.sessions =~= old(store)@.sessions);
                } else {
                    assert(context_views(imported@).len() == imported@.len());
                }
                assert(store@ =~= handed_over(
                    old(store)@,
                    session_key@,
                    adapter@,
                    opt_str(runner_id),
                    now,
                ));
            }
            imported
        },
        None => {
            let none: Vec<ImImportedRunnerContext> = Vec::new();
            proof {
                assert(before.remove(key@) =~= before);
                assert(context_views(none@) =~= Seq::<ImportedContextView>::empty());
            }
            none
        },
    }
}

/// The paragraph about one imported result.
pub open spec fn rendered_context(c: ImportedContextView) -> Seq<char> {
    "### Runner Call "@ + c.call_id + "\n"@ + "- Target Runner: "@ + c.target_runner_id + " ("@
        + c.target_adapter + ")\n"@ + "- User Request: "@ + c.user_message + "\n\nResult:\n"@
        + c.response + "\n\n"@
}

fn render_context(context: &ImImportedRunnerContext) -> (r: String)
    ensures
        r@ == rendered_context(context@),
{
    let mut out = owned("### Runner Call ");
    out.append(context.call_id.as_str());
    out.append("\n");
    out.append("- Target Runner: ");
    out.append(context.target_runner_id.as_str());
    out.append(" (");
    out.append(context.target_adapter.as_str());
    out.append(")\n");
    out.append("- User Request: ");
    out.append(context.user_message.as_str());
    out.append("\n\nResult:\n");
    out.append(context.response.as_str());
    out.append("\n\n");
    out
}

/// The paragraphs about all imported results, one behind the other.
pub open spec fn rendered_contexts(v: Seq<ImportedContextView>) -> Seq<char>
    decreases v.len(),
{
    if v.len() == 0 {
        Seq::empty()
    } else {
        rendered_contexts(v.drop_last()) + rendered_context(v.last())
    }
}

/// What an agent is told about imported results.
pub open spec fn imported_section(v: Seq<ImportedContextView>) -> Seq<char> {
    "## Imported Runner Results\n\n"@
        + "The following results were produced by user-triggered slash Runner calls in this conversation. Use them as current conversation context.\n\n"@
        + rendered_contexts(v)
}

/// What an agent is told about imported results, if there are any.
pub fn render_imported_contexts(contexts: &Vec<ImImportedRunnerContext>) -> (r: Option<String>)
    ensures
        opt(r) == (if contexts@.len() == 0 {
            None
        } else {
            Some(imported_section(context_views(contexts@)))
        }),
{
    if contexts.len() == 0 {
        return None;
    }
    let ghost all = context_views(contexts@);
    let head = concat2(
        "## Imported Runner Results\n\n",
        "The following results were produced by user-triggered slash Runner calls in this conversation. Use them as current conversation context.\n\n",
    );
    let mut out = head.clone();
    let mut i: usize = 0;
    proof {
        assert(out@ =~= head@ + rendered_contexts(all.take(0)));
    }
    while i < contexts.len()
        invariant
            i <= contexts@.len(),
            all == context_views(contexts@),
            out@ == head@ + rendered_contexts(all.take(i as int)),
        decreases contexts@.len() - i,
    {
        let part = render_context(&contexts[i]);
        out.append(part.as_str());
        proof {
            assert(all.take(i + 1).drop_last() =~= all.take(i as int));
            assert(all.take(i + 1).last() == contexts@[i as int]@);
            assert(out@ =~= head@ + rendered_contexts(all.take(i + 1)));
        }
        i = i + 1;
    }
    proof {
        assert(all.take(i as int) =~= all);
    }
    Some(out)
}

// ---------------------------------------------------------------------------
// What a run is told about its conversation
// ---------------------------------------------------------------------------

/// The map with a value at a key, where there is a value.
pub open spec fn with_entry(
    m: Map<Seq<char>, Seq<char>>,
    key: Seq<char>,
    value: Option<Seq<char>>,
) -> Map<Seq<char>, Seq<char>> {
    match value {
        Some(v) => m.insert(key, v),
        None => m,
    }
}

fn put_entry(m: &mut TextMap<String>, key: &str, value: &Option<String>)
    ensures
        map_texts(final(m)@) == with_entry(map_texts(old(m)@), key@, cleaned(opt(*value))),
{
    match clean_opt(value) {
        Some(v) => {
            let ghost put = v;
            m.insert(key, v);
            proof {
                assert(map_texts(m@) =~= map_texts(old(m)@).insert(key@, put@));
            }
        },
        None => {},
    }
}

/// What a run is told about its conversation.
pub open spec fn state_metadata(s: SessionStateView) -> Map<Seq<char>, Seq<char>> {
    let m = Map::<Seq<char>, Seq<char>>::empty();
    let m = with_entry(m, "threadId"@, cleaned(s.external_thread_id));
    let m = with_entry(m, "conversationId"@, cleaned(s.external_conversation_id));
    let m = with_entry(m, "modelOverride"@, cleaned(s.model_override));
    let m = with_entry(m, "modelOverrideSource"@, cleaned(s.model_override_source));
    let m = with_entry(m, "modelReasoningEffort"@, cleaned(s.reasoning_effort_override));
    let m = with_entry(m, "reasoningEffortOverride"@, cleaned(s.reasoning_effort_override));
    with_entry(
        m,
        "reasoningEffortOverrideSource"@,
        cleaned(s.reasoning_effort_override_source),
    )
}

pub fn metadata_from_state(state: &ImAgentSessionState) -> (r: TextMap<String>)
    ensures
        map_texts(r@) == state_metadata(state@),
{
    let mut m: TextMap<String> = TextMap::new();
    proof {
        assert(map_texts(m@) =~= Map::<Seq<char>, Seq<char>>::empty());
    }
    put_entry(&mut m, "threadId", &state.external_thread_id);
    put_entry(&mut m, "conversationId", &state.external_conversation_id);
    put_entry(&mut m, "modelOverride", &state.model_override);
    put_entry(&mut m, "modelOverrideSource", &state.model_override_source);
    put_entry(&mut m, "modelReasoningEffort", &state.reasoning_effort_override);
    put_entry(&mut m, "reasoningEffortOverride", &state.reasoning_effort_override);
    put_entry(
        &mut m,
        "reasoningEffortOverrideSource",
        &state.reasoning_effort_override_source,
    );
    m
}

// ---------------------------------------------------------------------------
// Laws of the store
// ---------------------------------------------------------------------------

/// A state that was remembered for a runner is what is read back for its
/// conversation, adapter and runner, with the number of the write. States under
/// other keys stay as they were.
pub proof fn lemma_remembered_is_loaded(
    store: StoreView,
    s: SessionStateView,
    now: u64,
    r: Option<SessionStateView>,
)
    requires
        state_fault(s) is None,
        cleaned(s.runner_id) is Some,
        is_loaded(
            remembered(store, s, now).sessions,
            s.session_key,
            Some(s.adapter),
            s.runner_id,
            r,
        ),
    ensures
        r == Some(
            SessionStateView { updated_seq: next_seq(store.write_seq), ..normal_state(s, now) },
        ),
        forall|k: Seq<char>|
            k != state_key_of(s.session_key, s.adapter, s.runner_id) && #[trigger]
            store.sessions.contains_key(k) ==> remembered(store, s, now).sessions.contains_key(k)
                && remembered(store, s, now).sessions[k] == store.sessions[k],
{
    lemma_trimmed_idempotent(s.session_key);
    lemma_trimmed_idempotent(s.adapter);
    lemma_trimmed_idempotent(s.runner_id->Some_0);
}

/// Whether no state has a write number that is still to come.
pub open spec fn numbered(store: StoreView) -> bool {
    forall|k: Seq<char>| #[trigger]
        store.sessions.contains_key(k) ==> store.sessions[k].updated_seq <= store.write_seq
}

/// The empty store has no write number that is still to come, and none comes in
/// with any change of the store.
pub proof fn lemma_store_stays_numbered(
    store: StoreView,
    session_key: Seq<char>,
    adapter: Seq<char>,
    runner_id: Option<Seq<char>>,
    s: SessionStateView,
    c: ImportedContextView,
    now: u64,
)
    requires
        numbered(store),
    ensures
        numbered(empty_store()),
        numbered(remembered(store, s, now)),
        numbered(upserted(store, session_key, adapter, runner_id, s, now)),
        numbered(pushed(store, session_key, adapter, runner_id, c, now)),
        numbered(handed_over(store, session_key, adapter, runner_id, now)),
        numbered(
            StoreView {
                write_seq: store.write_seq,
                sessions: out_of_scope(store.sessions, session_key, Some(adapter), runner_id),
            },
        ),
{
    let key = state_key_of(session_key, adapter, runner_id);
    let n = remembered(store, s, now);
    assert forall|k: Seq<char>| #[trigger] n.sessions.contains_key(k) implies n.sessions[k].updated_seq
        <= n.write_seq by {
        if store.sessions.contains_key(k) {
        }
    }
    let u = upserted(store, session_key, adapter, runner_id, s, now);
    assert forall|k: Seq<char>| #[trigger] u.sessions.contains_key(k) implies u.sessions[k].updated_seq
        <= u.write_seq by {
        if store.sessions.contains_key(k) {
        }
    }
    let p = pushed(store, session_key, adapter, runner_id, c, now);
    assert forall|k: Seq<char>| #[trigger] p.sessions.contains_key(k) implies p.sessions[k].updated_seq
        <= p.write_seq by {
        if store.sessions.contains_key(k) {
        }
    }
    let h = handed_over(store, session_key, adapter, runner_id, now);
    assert forall|k: Seq<char>| #[trigger] h.sessions.contains_key(k) implies h.sessions[k].updated_seq
        <= h.write_seq by {
        if store.sessions.contains_key(k) {
        }
    }
}

/// Of two states in scope with the same time, the one written later is read
/// back: a state that was just remembered wins over any that is not newer by its
/// time, as long as write numbers are left.
pub proof fn lemma_last_write_wins(
    store: StoreView,
    s: SessionStateView,
    now: u64,
    adapter: Option<Seq<char>>,
    r: Option<SessionStateView>,
)
    requires
        numbered(store),
        store.write_seq < u64::MAX,
        state_fault(s) is None,
        adapter is Some ==> adapter->Some_0 == trimmed(s.adapter),
        forall|k: Seq<char>| #[trigger]
            store.sessions.contains_key(k) ==> store.sessions[k].updated_at <= normal_state(
                s,
                now,
            ).updated_at,
        is_loaded(remembered(store, s, now).sessions, s.session_key, adapter, None, r),
    ensures
        r == Some(
            SessionStateView { updated_seq: next_seq(store.write_seq), ..normal_state(s, now) },
        ),
{
    let m = remembered(store, s, now).sessions;
    let sk = trimmed(s.session_key);
    lemma_trimmed_idempotent(s.session_key);
    let n = SessionStateView { updated_seq: next_seq(store.write_seq), ..normal_state(s, now) };
    let key = state_key_of(n.session_key, n.adapter, n.runner_id);
    assert(m.contains_key(key) && m[key] == n);
    assert(in_scope(m[key], sk, adapter, None));
    let k = choose|k: Seq<char>| #[trigger] is_latest(m, sk, adapter, None, k) && r->Some_0 == m[k];
    if k != key {
        assert(m.contains_key(k));
        assert(store.sessions.contains_key(k));
    }
}

/// After a conversation was cleared nothing is read back for it, whatever was
/// stored, and conversations other than that one keep their states.
pub proof fn lemma_cleared_is_forgotten(
    m: Map<Seq<char>, SessionStateView>,
    session_key: Seq<char>,
    r: Option<SessionStateView>,
)
    requires
        is_loaded(
            out_of_scope(m, trimmed(session_key), None, None),
            session_key,
            None,
            None,
            r,
        ),
    ensures
        r is None,
        forall|k: Seq<char>| #[trigger]
            m.contains_key(k) && m[k].session_key != trimmed(session_key) ==> out_of_scope(
                m,
                trimmed(session_key),
                None,
                None,
            ).contains_key(k) && out_of_scope(m, trimmed(session_key), None, None)[k] == m[k],
{
    if r is Some {
        let n = out_of_scope(m, trimmed(session_key), None, None);
        let k = choose|k: Seq<char>| #[trigger]
            is_latest(n, trimmed(session_key), None, None, k) && r->Some_0 == n[k];
        assert(n.contains_key(k));
    }
}

/// An imported result that was put in line is handed over, behind those that
/// waited before it, and is handed over once: nothing is left for the next time.
pub proof fn lemma_imported_once(
    store: StoreView,
    session_key: Seq<char>,
    adapter: Seq<char>,
    runner_id: Option<Seq<char>>,
    c: ImportedContextView,
    now: u64,
)
    requires
        context_fault(c) is None,
    ensures
        ({
            let after = pushed(store, session_key, adapter, runner_id, c, now);
            let before = waiting(store, session_key, adapter, runner_id);
            &&& waits(waiting(after, session_key, adapter, runner_id), trimmed(c.call_id))
            &&& waiting(after, session_key, adapter, runner_id).take(before.len() as int) == before
            &&& waiting(after, session_key, adapter, runner_id).len() == before.len() + (if waits(
                before,
                trimmed(c.call_id),
            ) {
                0int
            } else {
                1int
            })
            &&& waiting(
                handed_over(after, session_key, adapter, runner_id, now),
                session_key,
                adapter,
                runner_id,
            ).len() == 0
        }),
{
    let after = pushed(store, session_key, adapter, runner_id, c, now);
    let before = waiting(store, session_key, adapter, runner_id);
    let line = waiting(after, session_key, adapter, runner_id);
    assert(slot(store, session_key, adapter, runner_id).pending_imported_contexts =~= before);
    if waits(before, trimmed(c.call_id)) {
        assert(line == before);
    } else {
        assert(line[before.len() as int].call_id == trimmed(c.call_id));
    }
    assert(line.take(before.len() as int) =~= before);
}

/// Whether every call waits once at most.
pub open spec fn calls_differ(v: Seq<ImportedContextView>) -> bool {
    forall|i: int, j: int|
        0 <= i < j < v.len() ==> (#[trigger] v[i]).call_id != (#[trigger] v[j]).call_id
}

/// No call ever waits twice.
pub proof fn lemma_calls_stay_apart(s: SessionStateView, c: ImportedContextView, now: u64)
    requires
        calls_differ(s.pending_imported_contexts),
    ensures
        calls_differ(with_context(s, c, now).pending_imported_contexts),
{
    let v = s.pending_imported_contexts;
    let w = with_context(s, c, now).pending_imported_contexts;
    assert forall|i: int, j: int| 0 <= i < j < w.len() implies (#[trigger] w[i]).call_id != (
    #[trigger] w[j]).call_id by {
        assert(v[i].call_id == w[i].call_id);
        if j < v.len() {
            assert(v[j].call_id == w[j].call_id);
        }
    }
}

} // verus!
