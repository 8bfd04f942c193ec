//! Runs: what a command leaves behind, what is answered, and what is reported.

use vstd::prelude::*;
use vstd::string::*;
use vstd::utf8::{decode_utf8, valid_utf8};

use crate::agent_config::{
    clean_optional_string, cleaned, map_texts, CHATGPT_WEB_ADAPTER, CLAUDE_CODE_ADAPTER,
    DEFAULT_ADAPTER, DEFAULT_RUNTIME, TRAEX_ADAPTER,
};
use crate::agent_config::{AdapterConfigView, ExternalCliAdapterConfig};
use crate::command_spec::CommandSpec;
use crate::gateway_config::{insert_when, put_text, CONFIG_VERSION};
use crate::json::{
    first_of, json_to_text, lemma_object_view, members, opt_str, text_of_json, Json, Tree,
};
use crate::map::TextMap;
use crate::metadata::{
    append_external_cli_metadata, append_external_cli_observability_metadata,
    append_external_cli_request_metadata, codex_like, is_codex_like_adapter, sums_fit,
    with_model_records, with_observations, with_run_records, ExternalCliObservabilityInput, Records,
};
use crate::model_config::{ExternalCliResolvedModelConfig, ResolvedView};
use crate::models::fault_of;
use crate::paths::{below, join_path, PathStyle};
use crate::progress::{
    event_views, events_of_lines, minus, or_text, parse_progress_events, plain_event, EventView,
    ExternalCliProgressEvent, ExternalCliProgressEventType,
};
use crate::request::{ExternalCliRunRequest, ExternalCliSavedImageAttachment};
use crate::text::{
    blank, concat2, concat3, contains, copy_opt, copy_texts, cut, cut_text, decimal, decimal_text,
    has_prefix, has_text, lowered, opt, owned, same, split_lines, starts_with, text_lines, texts,
    to_lower, trim, trimmed,
};

verus! {

broadcast use vstd::string::group_string_axioms;

/// How a run ended.
#[derive(Debug, Clone, Copy, PartialEq, Eq, Structural)]
pub enum ExternalCliRunStatus {
    Succeeded,
    Failed,
    Stopped,
    TimedOut,
}

/// Where the traces of a run stand.
#[derive(Debug, PartialEq, Eq)]
pub struct ExternalCliRunArtifacts {
    pub run_dir: String,
    pub prompt: String,
    pub command_snapshot: String,
    pub stdout: String,
    pub stderr: String,
    pub normalized_events: String,
    pub last_message: String,
}

/// What a run reports.
#[derive(Debug, PartialEq, Eq)]
pub struct ExternalCliRunResult {
    pub run_id: String,
    pub session_key: Option<String>,
    pub runtime: String,
    pub adapter: String,
    pub status: ExternalCliRunStatus,
    pub exit_code: Option<i32>,
    pub response: String,
    pub responses: Vec<String>,
    pub started_at: u64,
    pub finished_at: u64,
    pub duration_ms: u64,
    pub artifacts: ExternalCliRunArtifacts,
    pub events: Vec<ExternalCliProgressEvent>,
    pub metadata: TextMap<String>,
}

/// What a command printed and how it ended.
#[derive(Debug, PartialEq, Eq)]
pub struct CommandOutput {
    pub status: ExternalCliRunStatus,
    pub exit_code: Option<i32>,
    pub stdout: Vec<u8>,
    pub stderr: Vec<u8>,
    pub events: Vec<ExternalCliProgressEvent>,
}

/// What an adapter makes of a run.
#[derive(Debug, PartialEq, Eq)]
pub struct AdapterRunOutput {
    pub status: ExternalCliRunStatus,
    pub exit_code: Option<i32>,
    pub stdout: Vec<u8>,
    pub stderr: Vec<u8>,
    pub events: Vec<ExternalCliProgressEvent>,
    pub response: String,
    pub responses: Vec<String>,
    pub metadata: TextMap<String>,
}

/// The mathematical view of what an adapter makes of a run.
#[verifier::ext_equal]
pub struct OutputView {
    pub status: ExternalCliRunStatus,
    pub exit_code: Option<i32>,
    pub stdout: Seq<u8>,
    pub stderr: Seq<u8>,
    pub events: Seq<EventView>,
    pub response: Seq<char>,
    pub responses: Seq<Seq<char>>,
    pub metadata: Records,
}

impl View for AdapterRunOutput {
    type V = OutputView;

    open spec fn view(&self) -> OutputView {
        OutputView {
            status: self.status,
            exit_code: self.exit_code,
            stdout: self.stdout@,
            stderr: self.stderr@,
            events: event_views(self.events@),
            response: self.response@,
            responses: texts(self.responses@),
            metadata: map_texts(self.metadata@),
        }
    }
}

// ---------------------------------------------------------------------------
// Bytes and texts
// ---------------------------------------------------------------------------

/// The text that `String::from_utf8_lossy` reads from bytes.
pub uninterp spec fn lossy_text(bytes: Seq<u8>) -> Seq<char>;

/// `String::from_utf8_lossy`: the bytes as UTF-8 text, with replacement
/// characters where they are not UTF-8. It depends on the bytes alone, and where
/// they are UTF-8 it is the text that they spell.
#[verifier::external_body]
pub(crate) fn text_from_bytes(bytes: &Vec<u8>) -> (r: String)
    ensures
        r@ == lossy_text(bytes@),
        valid_utf8(bytes@) ==> r@ == decode_utf8(bytes@),
{
    String::from_utf8_lossy(bytes).to_string()
}

/// Whether what `taskkill` printed says that there is no such process.
pub open spec fn says_missing(text: Seq<char>) -> bool {
    let t = lowered(text);
    has_text(t, "not found"@) || has_text(t, "no running instance of the task"@) || has_text(
        t,
        "cannot find the process"@,
    )
}

/// Whether a text of `taskkill` says that there is no such process.
pub fn message_indicates_missing_process(message: &str) -> (r: bool)
    ensures
        r == says_missing(message@),
{
    let lower = to_lower(message);
    let t = lower.as_str();
    contains(t, "not found") || contains(t, "no running instance of the task") || contains(
        t,
        "cannot find the process",
    )
}

/// Whether the output of `taskkill` says that there is no such process.
pub fn taskkill_message_indicates_missing_process(stdout: &Vec<u8>, stderr: &Vec<u8>) -> (r: bool)
    ensures
        r == says_missing(lossy_text(stdout@) + "\n"@ + lossy_text(stderr@)),
{
    let out = text_from_bytes(stdout);
    let err = text_from_bytes(stderr);
    let message = concat3(out.as_str(), "\n", err.as_str());
    message_indicates_missing_process(message.as_str())
}

/// The first line that is not blank, trimmed.
pub open spec fn first_filled(lines: Seq<Seq<char>>) -> Option<Seq<char>>
    decreases lines.len(),
{
    if lines.len() == 0 {
        None
    } else {
        first_of(cleaned(Some(lines[0])), first_filled(lines.drop_first()))
    }
}

fn first_filled_line(text: &str) -> (r: Option<String>)
    ensures
        opt(r) == first_filled(text_lines(text@)),
{
    let lines = split_lines(text);
    let ghost all = texts(lines@);
    let mut i: usize = 0;
    proof {
        assert(all.skip(0) =~= all);
    }
    while i < lines.len()
        invariant
            i <= lines@.len(),
            all == texts(lines@),
            all == text_lines(text@),
            first_filled(all.skip(i as int)) == first_filled(all),
        decreases lines@.len() - i,
    {
        proof {
            assert(all.skip(i as int)[0] == lines@[i as int]@);
            assert(all.skip(i as int).drop_first() =~= all.skip(i + 1));
        }
        match clean_optional_string(Some(lines[i].as_str())) {
            Some(line) => {
                return Some(line);
            },
            None => {},
        }
        i = i + 1;
    }
    None
}

/// The first filled line of two texts, one behind the other.
pub open spec fn first_filled_of(a: Seq<char>, b: Seq<char>) -> Option<Seq<char>> {
    first_of(first_filled(text_lines(a)), first_filled(text_lines(b)))
}

/// Picks the version out of what a command printed: the first filled line, at
/// most two hundred characters of it. Only Codex, Traex and `claude_code` have a
/// version.
pub fn cli_version_from_output(adapter: &str, stdout: &str, stderr: &str) -> (r: Option<String>)
    ensures
        opt(r) == (if codex_like(adapter@) {
            match first_filled_of(stdout@, stderr@) {
                Some(line) => Some(cut(line, 200)),
                None => None,
            }
        } else {
            None
        }),
{
    if !is_codex_like_adapter(adapter) {
        return None;
    }
    let line = match first_filled_line(stdout) {
        Some(l) => Some(l),
        None => first_filled_line(stderr),
    };
    match line {
        Some(l) => Some(cut_text(l.as_str(), 200)),
        None => None,
    }
}

/// Picks the version out of the bytes that a command printed.
pub fn cli_version_from_bytes(adapter: &str, stdout: &Vec<u8>, stderr: &Vec<u8>) -> (r: Option<
    String,
>)
    ensures
        opt(r) == (if codex_like(adapter@) {
            match first_filled_of(lossy_text(stdout@), lossy_text(stderr@)) {
                Some(line) => Some(cut(line, 200)),
                None => None,
            }
        } else {
            None
        }),
{
    let out = text_from_bytes(stdout);
    let err = text_from_bytes(stderr);
    cli_version_from_output(adapter, out.as_str(), err.as_str())
}

/// Why listing the models failed, from what the command printed.
pub fn model_catalog_failure(adapter: &str, stdout: &str, stderr: &str) -> (r: String)
    ensures
        r@ == adapter@ + " model catalog command failed: "@ + cut(
            or_text(first_filled_of(stderr@, stdout@), "debug models failed"@),
            500,
        ),
{
    let line = match first_filled_line(stderr) {
        Some(l) => Some(l),
        None => first_filled_line(stdout),
    };
    let reason = match line {
        Some(l) => l,
        None => owned("debug models failed"),
    };
    let short = cut_text(reason.as_str(), 500);
    concat3(adapter, " model catalog command failed: ", short.as_str())
}

/// Why listing the models failed, from the bytes that the command printed.
pub fn model_catalog_failure_from_bytes(adapter: &str, stdout: &Vec<u8>, stderr: &Vec<u8>) -> (r:
    String)
    ensures
        r@ == adapter@ + " model catalog command failed: "@ + cut(
            or_text(
                first_filled_of(lossy_text(stderr@), lossy_text(stdout@)),
                "debug models failed"@,
            ),
            500,
        ),
{
    let out = text_from_bytes(stdout);
    let err = text_from_bytes(stderr);
    model_catalog_failure(adapter, out.as_str(), err.as_str())
}

/// Where the models of an adapter are listed.
#[derive(Debug, PartialEq, Eq)]
pub enum ModelCatalogSource {
    /// The list that comes with the gateway.
    BuiltIn,
    /// The executable to ask.
    Command(String),
}

pub open spec fn catalog_executable(adapter: Seq<char>, c: AdapterConfigView) -> Seq<char> {
    or_text(cleaned(c.executable), adapter)
}

/// Decides where the models of an adapter are listed.
pub fn model_catalog_source(adapter: &str, config: &ExternalCliAdapterConfig) -> (r: Result<
    ModelCatalogSource,
    String,
>)
    ensures
        ({
            let a = trimmed(adapter@);
            match r {
                Ok(ModelCatalogSource::BuiltIn) => a == CLAUDE_CODE_ADAPTER@,
                Ok(ModelCatalogSource::Command(exe)) => a != CLAUDE_CODE_ADAPTER@ && (a
                    == DEFAULT_ADAPTER@ || a == TRAEX_ADAPTER@) && exe@ == catalog_executable(
                    a,
                    config@,
                ),
                Err(e) => a != CLAUDE_CODE_ADAPTER@ && a != DEFAULT_ADAPTER@ && a != TRAEX_ADAPTER@
                    && e@ == "adapter `"@ + a + "` does not support model catalog"@,
            }
        }),
{
    let a = trim(adapter);
    if same(a, CLAUDE_CODE_ADAPTER) {
        return Ok(ModelCatalogSource::BuiltIn);
    }
    if !same(a, DEFAULT_ADAPTER) && !same(a, TRAEX_ADAPTER) {
        return Err(concat3("adapter `", a, "` does not support model catalog"));
    }
    let executable = match &config.executable {
        Some(e) => clean_optional_string(Some(e.as_str())),
        None => None,
    };
    match executable {
        Some(e) => Ok(ModelCatalogSource::Command(e)),
        None => Ok(ModelCatalogSource::Command(owned(a))),
    }
}

// ---------------------------------------------------------------------------
// Answers
// ---------------------------------------------------------------------------

/// The text of the last event of a kind that is not blank, trimmed.
pub open spec fn last_filled(
    events: Seq<EventView>,
    kind: ExternalCliProgressEventType,
) -> Option<Seq<char>>
    decreases events.len(),
{
    if events.len() == 0 {
        None
    } else if events.last().event_type == kind && !blank(events.last().content) {
        Some(trimmed(events.last().content))
    } else {
        last_filled(events.drop_last(), kind)
    }
}

/// The answer of a run: the last message that the agent wrote down, else its
/// last final message, else what it finished with, else all it printed.
pub open spec fn answer_of(
    last_message: Seq<char>,
    stdout: Seq<char>,
    events: Seq<EventView>,
) -> Seq<char> {
    or_text(
        first_of(
            first_of(
                cleaned(Some(last_message)),
                last_filled(events, ExternalCliProgressEventType::AssistantFinal),
            ),
            last_filled(events, ExternalCliProgressEventType::RunFinished),
        ),
        trimmed(stdout),
    )
}

pub open spec fn status_words(status: ExternalCliRunStatus, response: Seq<char>) -> Seq<char> {
    match status {
        ExternalCliRunStatus::Failed => "External CLI run failed."@,
        ExternalCliRunStatus::Stopped => "External CLI run was stopped by request."@,
        ExternalCliRunStatus::TimedOut => "External CLI run timed out."@,
        ExternalCliRunStatus::Succeeded => response,
    }
}

/// What a chat gets to see: the answer, or where a run that did not succeed has
/// none, why it failed.
pub open spec fn visible_answer(
    status: ExternalCliRunStatus,
    response: Seq<char>,
    stdout: Seq<char>,
    stderr: Seq<char>,
    events: Seq<EventView>,
) -> Seq<char> {
    if status == ExternalCliRunStatus::Succeeded || !blank(response) {
        response
    } else {
        or_text(
            first_of(
                first_of(
                    last_filled(events, ExternalCliProgressEventType::RunFailed),
                    cleaned(Some(stderr)),
                ),
                cleaned(Some(stdout)),
            ),
            status_words(status, response),
        )
    }
}

fn last_filled_content(
    events: &Vec<ExternalCliProgressEvent>,
    kind: ExternalCliProgressEventType,
) -> (r: Option<String>)
    ensures
        opt(r) == last_filled(event_views(events@), kind),
{
    let ghost all = event_views(events@);
    let mut i: usize = events.len();
    proof {
        assert(all.take(i as int) =~= all);
    }
    while i > 0
        invariant
            i <= events@.len(),
            all == event_views(events@),
            last_filled(all.take(i as int), kind) == last_filled(all, kind),
        decreases i,
    {
        let event = &events[i - 1];
        proof {
            assert(all.take(i as int).last() == event@);
            assert(all.take(i as int).drop_last() =~= all.take(i - 1));
        }
        if event.event_type == kind {
            let t = trim(event.content.as_str());
            if !t.is_empty() {
                return Some(owned(t));
            }
        }
        i = i - 1;
    }
    None
}

/// Works out the answer of a run.
pub fn final_response(
    last_message: &str,
    stdout_text: &str,
    events: &Vec<ExternalCliProgressEvent>,
) -> (r: String)
    ensures
        r@ == answer_of(last_message@, stdout_text@, event_views(events@)),
{
    match clean_optional_string(Some(last_message)) {
        Some(m) => {
            return m;
        },
        None => {},
    }
    match last_filled_content(events, ExternalCliProgressEventType::AssistantFinal) {
        Some(c) => {
            return c;
        },
        None => {},
    }
    match last_filled_content(events, ExternalCliProgressEventType::RunFinished) {
        Some(c) => {
            return c;
        },
        None => {},
    }
    owned(trim(stdout_text))
}

/// Works out what a chat gets to see of a run.
pub fn visible_terminal_response(
    status: ExternalCliRunStatus,
    response: String,
    stdout_text: &str,
    stderr_text: &str,
    events: &Vec<ExternalCliProgressEvent>,
) -> (r: String)
    ensures
        r@ == visible_answer(
            status,
            response@,
            stdout_text@,
            stderr_text@,
            event_views(events@),
        ),
{
    if status == ExternalCliRunStatus::Succeeded || !trim(response.as_str()).is_empty() {
        return response;
    }
    match last_filled_content(events, ExternalCliProgressEventType::RunFailed) {
        Some(c) => {
            return c;
        },
        None => {},
    }
    match clean_optional_string(Some(stderr_text)) {
        Some(c) => {
            return c;
        },
        None => {},
    }
    match clean_optional_string(Some(stdout_text)) {
        Some(c) => {
            return c;
        },
        None => {},
    }
    match status {
        ExternalCliRunStatus::Failed => owned("External CLI run failed."),
        ExternalCliRunStatus::Stopped => owned("External CLI run was stopped by request."),
        ExternalCliRunStatus::TimedOut => owned("External CLI run timed out."),
        ExternalCliRunStatus::Succeeded => response,
    }
}

/// A run that did not succeed is never answered with silence.
pub proof fn lemma_failures_are_visible(
    status: ExternalCliRunStatus,
    response: Seq<char>,
    stdout: Seq<char>,
    stderr: Seq<char>,
    events: Seq<EventView>,
)
    requires
        status != ExternalCliRunStatus::Succeeded,
    ensures
        !blank(visible_answer(status, response, stdout, stderr, events)),
{
    lemma_last_filled(events, ExternalCliProgressEventType::RunFailed);
    crate::text::lemma_trimmed_idempotent(stderr);
    crate::text::lemma_trimmed_idempotent(stdout);
    reveal_strlit("External CLI run failed.");
    reveal_strlit("External CLI run was stopped by request.");
    reveal_strlit("External CLI run timed out.");
    lemma_begins_with_letter("External CLI run failed."@);
    lemma_begins_with_letter("External CLI run was stopped by request."@);
    lemma_begins_with_letter("External CLI run timed out."@);
}

proof fn lemma_begins_with_letter(s: Seq<char>)
    ensures
        s.len() > 0 && s[0] == 'E' && s.last() == '.' ==> !blank(s),
{
}

proof fn lemma_last_filled(events: Seq<EventView>, kind: ExternalCliProgressEventType)
    ensures
        last_filled(events, kind) matches Some(s) ==> !blank(s),
    decreases events.len(),
{
    if events.len() > 0 {
        if events.last().event_type == kind && !blank(events.last().content) {
            crate::text::lemma_trimmed_idempotent(events.last().content);
        } else {
            lemma_last_filled(events.drop_last(), kind);
        }
    }
}

// ---------------------------------------------------------------------------
// From the end of a command to the output of a run
// ---------------------------------------------------------------------------

/// How waiting for a command ended.
#[derive(Debug, PartialEq, Eq)]
pub enum CommandWaitOutcome {
    Exited { success: bool, code: Option<i32> },
    WaitFailed(String),
    TimedOut,
    Stopped,
}

/// The line that is put behind the error output of a command that was ended.
pub open spec fn terminal_line(outcome: CommandWaitOutcome, timeout_secs: Option<u64>) -> Seq<u8> {
    match outcome {
        CommandWaitOutcome::TimedOut => vstd::utf8::encode_utf8(
            "external cli timed out after "@ + decimal(
                match timeout_secs {
                    Some(t) => t as nat,
                    None => 0,
                },
            ) + " seconds\n"@,
        ),
        CommandWaitOutcome::Stopped => vstd::utf8::encode_utf8(
            "external cli stopped by request\n"@,
        ),
        _ => Seq::empty(),
    }
}

pub open spec fn outcome_status(outcome: CommandWaitOutcome) -> ExternalCliRunStatus {
    match outcome {
        CommandWaitOutcome::Exited { success, .. } => if success {
            ExternalCliRunStatus::Succeeded
        } else {
            ExternalCliRunStatus::Failed
        },
        CommandWaitOutcome::WaitFailed(_) => ExternalCliRunStatus::Failed,
        CommandWaitOutcome::TimedOut => ExternalCliRunStatus::TimedOut,
        CommandWaitOutcome::Stopped => ExternalCliRunStatus::Stopped,
    }
}

/// Settles what a command leaves behind once the wait for it is over.
pub fn command_output(
    outcome: CommandWaitOutcome,
    stdout: Vec<u8>,
    stderr: Vec<u8>,
    events: Vec<ExternalCliProgressEvent>,
    timeout_secs: Option<u64>,
) -> (r: Result<CommandOutput, String>)
    ensures
        r is Err <==> outcome is WaitFailed,
        r matches Err(e) ==> e@ == "wait external cli failed: "@ + outcome->WaitFailed_0@,
        r matches Ok(o) ==> {
            &&& o.status == outcome_status(outcome)
            &&& o.exit_code == (match outcome {
                CommandWaitOutcome::Exited { code, .. } => code,
                _ => None,
            })
            &&& o.stdout == stdout
            &&& o.stderr@ == stderr@ + terminal_line(outcome, timeout_secs)
            &&& o.events == events
        },
{
    match outcome {
        CommandWaitOutcome::Exited { success, code } => {
            let status = if success {
                ExternalCliRunStatus::Succeeded
            } else {
                ExternalCliRunStatus::Failed
            };
            proof {
                assert(stderr@ + Seq::<u8>::empty() =~= stderr@);
            }
            Ok(CommandOutput { status, exit_code: code, stdout, stderr, events })
        },
        CommandWaitOutcome::WaitFailed(error) => Err(
            concat2("wait external cli failed: ", error.as_str()),
        ),
        CommandWaitOutcome::TimedOut => {
            let secs: u64 = match timeout_secs {
                Some(t) => t,
                None => 0,
            };
            let digits = decimal_text(secs);
            let line = concat3("external cli timed out after ", digits.as_str(), " seconds\n");
            let mut bytes = line.as_str().as_bytes_vec();
            let mut stderr = stderr;
            stderr.append(&mut bytes);
            Ok(
                CommandOutput {
                    status: ExternalCliRunStatus::TimedOut,
                    exit_code: None,
                    stdout,
                    stderr,
                    events,
                },
            )
        },
        CommandWaitOutcome::Stopped => {
            let mut bytes = "external cli stopped by request\n".as_bytes_vec();
            let mut stderr = stderr;
            stderr.append(&mut bytes);
            Ok(
                CommandOutput {
                    status: ExternalCliRunStatus::Stopped,
                    exit_code: None,
                    stdout,
                    stderr,
                    events,
                },
            )
        },
    }
}

/// The event of a run that was stopped.
pub open spec fn stopped_event(content: Seq<char>, kind: Seq<char>) -> EventView {
    plain_event(
        ExternalCliProgressEventType::RunFailed,
        content,
        Some("Stopped"@),
        Tree::Object(seq![("type"@, Tree::Text(kind))]),
    )
}

fn make_stopped_event(content: &str, kind: &str) -> (r: ExternalCliProgressEvent)
    ensures
        r@ == stopped_event(content@, kind@),
{
    let mut object: Vec<(String, Json)> = Vec::new();
    object.push((owned("type"), Json::Text(owned(kind))));
    proof {
        lemma_object_view(object);
        assert(members(object@) =~= seq![("type"@, Tree::Text(kind@))]);
    }
    ExternalCliProgressEvent {
        event_type: ExternalCliProgressEventType::RunFailed,
        content: owned(content),
        title: Some(owned("Stopped")),
        raw: Json::Object(object),
    }
}

fn single_event(event: ExternalCliProgressEvent) -> (r: Vec<ExternalCliProgressEvent>)
    ensures
        event_views(r@) == seq![event@],
{
    let mut v: Vec<ExternalCliProgressEvent> = Vec::new();
    v.push(event);
    proof {
        assert(event_views(v@) =~= seq![event@]);
    }
    v
}

fn single_text(text: &str) -> (r: Vec<String>)
    ensures
        texts(r@) == seq![text@],
{
    let mut v: Vec<String> = Vec::new();
    crate::text::push_text(&mut v, text);
    proof {
        assert(texts(v@) =~= seq![text@]);
    }
    v
}

fn no_metadata() -> (r: TextMap<String>)
    ensures
        map_texts(r@) == Map::<Seq<char>, Seq<char>>::empty(),
{
    let r: TextMap<String> = TextMap::new();
    proof {
        assert(map_texts(r@) =~= Map::<Seq<char>, Seq<char>>::empty());
    }
    r
}

/// What becomes of a command: its events, those read as they came or else those
/// of all it printed, and its answer. A run that was asked to stop is answered
/// with that.
pub open spec fn run_output(
    o: CommandOutput,
    stdout: Seq<char>,
    stderr: Seq<char>,
    was_stopped: bool,
    last_message: Seq<char>,
) -> OutputView {
    let words = "External CLI run was stopped by request."@;
    let events = if was_stopped {
        seq![stopped_event(words, "run_stopped"@)]
    } else if o.events@.len() == 0 {
        events_of_lines(text_lines(stdout)).0
    } else {
        event_views(o.events@)
    };
    let status = if was_stopped {
        ExternalCliRunStatus::Stopped
    } else {
        o.status
    };
    let answer = if was_stopped {
        words
    } else {
        answer_of(last_message, stdout, events)
    };
    let response = visible_answer(status, answer, stdout, stderr, events);
    OutputView {
        status,
        exit_code: if was_stopped {
            None
        } else {
            o.exit_code
        },
        stdout: o.stdout@,
        stderr: o.stderr@,
        events,
        response,
        responses: seq![response],
        metadata: Map::empty(),
    }
}

/// Turns what a command left behind into the output of a run. `stdout_text` and
/// `stderr_text` are what it printed, as text.
pub fn command_run_output(
    output: CommandOutput,
    stdout_text: &str,
    stderr_text: &str,
    was_stopped: bool,
    last_message: &str,
) -> (r: AdapterRunOutput)
    ensures
        r@ == run_output(output, stdout_text@, stderr_text@, was_stopped, last_message@),
{
    let CommandOutput { status, exit_code, stdout, stderr, events } = output;
    let no_events = events.len() == 0;
    let events = if was_stopped {
        single_event(
            make_stopped_event("External CLI run was stopped by request.", "run_stopped"),
        )
    } else if no_events {
        parse_progress_events(stdout_text)
    } else {
        events
    };
    let status = if was_stopped {
        ExternalCliRunStatus::Stopped
    } else {
        status
    };
    let answer = if was_stopped {
        owned("External CLI run was stopped by request.")
    } else {
        final_response(last_message, stdout_text, &events)
    };
    let response = visible_terminal_response(status, answer, stdout_text, stderr_text, &events);
    let r = AdapterRunOutput {
        status,
        exit_code: if was_stopped {
            None
        } else {
            exit_code
        },
        stdout,
        stderr,
        events,
        responses: single_text(response.as_str()),
        response,
        metadata: no_metadata(),
    };
    proof {
        assert(r@ =~= run_output(output, stdout_text@, stderr_text@, was_stopped, last_message@));
    }
    r
}

/// Turns what a command left behind into the output of a run.
pub fn finish_command_run(output: CommandOutput, was_stopped: bool, last_message: &str) -> (r:
    AdapterRunOutput)
    ensures
        r@ == run_output(
            output,
            lossy_text(output.stdout@),
            lossy_text(output.stderr@),
            was_stopped,
            last_message@,
        ),
{
    let out = text_from_bytes(&output.stdout);
    let err = text_from_bytes(&output.stderr);
    command_run_output(output, out.as_str(), err.as_str(), was_stopped, last_message)
}

/// A run that was asked to stop is reported as stopped, without an exit code.
pub proof fn lemma_stopped_run(
    o: CommandOutput,
    stdout: Seq<char>,
    stderr: Seq<char>,
    last_message: Seq<char>,
)
    ensures
        run_output(o, stdout, stderr, true, last_message).status == ExternalCliRunStatus::Stopped,
        run_output(o, stdout, stderr, true, last_message).exit_code is None,
        run_output(o, stdout, stderr, true, last_message).response
            == "External CLI run was stopped by request."@,
{
    reveal_strlit("External CLI run was stopped by request.");
    lemma_begins_with_letter("External CLI run was stopped by request."@);
}

// ---------------------------------------------------------------------------
// ChatGPT in the browser
// ---------------------------------------------------------------------------

pub open spec fn chatgpt_failed_event(response: Seq<char>, error: Seq<char>) -> EventView {
    plain_event(
        ExternalCliProgressEventType::RunFailed,
        response,
        Some("Failed"@),
        Tree::Object(
            seq![
                ("type"@, Tree::Text("run_failed"@)),
                ("adapter"@, Tree::Text(CHATGPT_WEB_ADAPTER@)),
                ("error"@, Tree::Text(error)),
            ],
        ),
    )
}

/// The output of a browser run that ended with an error. An error that begins
/// with `stopped:` is a request to stop.
pub open spec fn chatgpt_failure(error: Seq<char>, diagnostics: Option<Seq<char>>) -> OutputView {
    if has_prefix(error, "stopped:"@) {
        let words = "ChatGPT Web run was stopped by request."@;
        OutputView {
            status: ExternalCliRunStatus::Stopped,
            exit_code: None,
            stdout: Seq::empty(),
            stderr: vstd::utf8::encode_utf8(error),
            events: seq![stopped_event(words, "run_stopped"@)],
            response: words,
            responses: seq![words],
            metadata: Map::empty(),
        }
    } else {
        let words = "ChatGPT Web run failed: "@ + error;
        OutputView {
            status: ExternalCliRunStatus::Failed,
            exit_code: None,
            stdout: Seq::empty(),
            stderr: vstd::utf8::encode_utf8(error),
            events: seq![chatgpt_failed_event(words, error)],
            response: words,
            responses: seq![words],
            metadata: match diagnostics {
                Some(path) => Map::<Seq<char>, Seq<char>>::empty().insert(
                    "failureDiagnostics"@,
                    path,
                ),
                None => Map::empty(),
            },
        }
    }
}

/// Turns the error of a browser run into the output of a run. `diagnostics` is
/// where its traces stand, if there are any.
pub fn chatgpt_web_failure(error: &str, diagnostics: Option<&str>) -> (r: AdapterRunOutput)
    ensures
        r@ == chatgpt_failure(error@, opt_str(diagnostics)),
{
    let stderr = error.as_bytes_vec();
    if starts_with(error, "stopped:") {
        let words = "ChatGPT Web run was stopped by request.";
        let r = AdapterRunOutput {
            status: ExternalCliRunStatus::Stopped,
            exit_code: None,
            stdout: Vec::new(),
            stderr,
            events: single_event(make_stopped_event(words, "run_stopped")),
            response: owned(words),
            responses: single_text(words),
            metadata: no_metadata(),
        };
        proof {
            assert(r@ =~= chatgpt_failure(error@, opt_str(diagnostics)));
        }
        return r;
    }
    let words = concat2("ChatGPT Web run failed: ", error);
    let mut object: Vec<(String, Json)> = Vec::new();
    object.push((owned("type"), Json::Text(owned("run_failed"))));
    object.push((owned("adapter"), Json::Text(owned(CHATGPT_WEB_ADAPTER))));
    object.push((owned("error"), Json::Text(owned(error))));
    proof {
        lemma_object_view(object);
        assert(members(object@) =~= chatgpt_failed_event(words@, error@).raw->Object_0);
    }
    let event = ExternalCliProgressEvent {
        event_type: ExternalCliProgressEventType::RunFailed,
        content: words.clone(),
        title: Some(owned("Failed")),
        raw: Json::Object(object),
    };
    let mut metadata = no_metadata();
    match diagnostics {
        Some(path) => put_text(&mut metadata, "failureDiagnostics", path),
        None => {},
    }
    let r = AdapterRunOutput {
        status: ExternalCliRunStatus::Failed,
        exit_code: None,
        stdout: Vec::new(),
        stderr,
        events: single_event(event),
        responses: single_text(words.as_str()),
        response: words,
        metadata,
    };
    proof {
        assert(r@ =~= chatgpt_failure(error@, opt_str(diagnostics)));
    }
    r
}

// ---------------------------------------------------------------------------
// The report
// ---------------------------------------------------------------------------

/// Where the traces of a run stand below its directory.
#[verifier::ext_equal]
pub struct ArtifactsView {
    pub run_dir: Seq<char>,
    pub prompt: Seq<char>,
    pub command_snapshot: Seq<char>,
    pub stdout: Seq<char>,
    pub stderr: Seq<char>,
    pub normalized_events: Seq<char>,
    pub last_message: Seq<char>,
}

impl View for ExternalCliRunArtifacts {
    type V = ArtifactsView;

    open spec fn view(&self) -> ArtifactsView {
        ArtifactsView {
            run_dir: self.run_dir@,
            prompt: self.prompt@,
            command_snapshot: self.command_snapshot@,
            stdout: self.stdout@,
            stderr: self.stderr@,
            normalized_events: self.normalized_events@,
            last_message: self.last_message@,
        }
    }
}

pub open spec fn artifacts_in(style: PathStyle, run_dir: Seq<char>) -> ArtifactsView {
    ArtifactsView {
        run_dir,
        prompt: below(style, run_dir, "prompt.md"@),
        command_snapshot: below(style, run_dir, "runtime_snapshot.json"@),
        stdout: below(style, run_dir, "cli.stdout.log"@),
        stderr: below(style, run_dir, "cli.stderr.log"@),
        normalized_events: below(style, run_dir, "normalized_events.jsonl"@),
        last_message: below(style, run_dir, "last_message.md"@),
    }
}

/// Names the files of a run.
pub fn run_artifacts(style: PathStyle, run_dir: &str) -> (r: ExternalCliRunArtifacts)
    ensures
        r@ == artifacts_in(style, run_dir@),
{
    ExternalCliRunArtifacts {
        run_dir: owned(run_dir),
        prompt: join_path(style, run_dir, "prompt.md"),
        command_snapshot: join_path(style, run_dir, "runtime_snapshot.json"),
        stdout: join_path(style, run_dir, "cli.stdout.log"),
        stderr: join_path(style, run_dir, "cli.stderr.log"),
        normalized_events: join_path(style, run_dir, "normalized_events.jsonl"),
        last_message: join_path(style, run_dir, "last_message.md"),
    }
}

/// An image as a JSON text, its members in the order of their declaration.
pub open spec fn image_json(image: ExternalCliSavedImageAttachment) -> Seq<char> {
    "{\"path\":"@ + text_of_json(Tree::Text(image.path@)) + ",\"mimeType\":"@ + text_of_json(
        Tree::Text(image.mime_type@),
    ) + ",\"sizeBytes\":"@ + decimal(image.size_bytes as nat) + (match image.name {
        Some(n) => ",\"name\":"@ + text_of_json(Tree::Text(n@)),
        None => Seq::empty(),
    }) + "}"@
}

pub open spec fn image_jsons(images: Seq<ExternalCliSavedImageAttachment>) -> Seq<Seq<char>> {
    images.map_values(|i: ExternalCliSavedImageAttachment| image_json(i))
}

/// The images of a run as a JSON text.
pub open spec fn images_json(images: Seq<ExternalCliSavedImageAttachment>) -> Seq<char> {
    "["@ + crate::text::joined(image_jsons(images), ","@) + "]"@
}

fn image_json_text(image: &ExternalCliSavedImageAttachment) -> (r: String)
    ensures
        r@ == image_json(*image),
{
    let path = json_to_text(&Json::Text(image.path.clone()));
    let mime = json_to_text(&Json::Text(image.mime_type.clone()));
    let size = decimal_text(image.size_bytes);
    let mut out = concat3("{\"path\":", path.as_str(), ",\"mimeType\":");
    out.append(mime.as_str());
    out.append(",\"sizeBytes\":");
    out.append(size.as_str());
    let ghost so_far = out@;
    match &image.name {
        Some(n) => {
            let name = json_to_text(&Json::Text(n.clone()));
            let part = concat2(",\"name\":", name.as_str());
            out.append(part.as_str());
        },
        None => {
            proof {
                assert(so_far + Seq::<char>::empty() =~= so_far);
            }
        },
    }
    out.append("}");
    out
}

/// Writes the images of a run as JSON.
pub fn images_json_text(images: &Vec<ExternalCliSavedImageAttachment>) -> (r: String)
    ensures
        r@ == images_json(images@),
{
    let ghost all = image_jsons(images@);
    let mut parts: Vec<String> = Vec::new();
    let mut i: usize = 0;
    proof {
        assert(texts(parts@) =~= all.take(0));
    }
    while i < images.len()
        invariant
            i <= images@.len(),
            all == image_jsons(images@),
            texts(parts@) == all.take(i as int),
        decreases images@.len() - i,
    {
        let text = image_json_text(&images[i]);
        crate::text::push_text(&mut parts, text.as_str());
        i = i + 1;
        proof {
            assert(all.take(i as int) =~= all.take(i - 1).push(all[i - 1]));
        }
    }
    proof {
        assert(all.take(i as int) =~= all);
    }
    let list = crate::text::join(&parts, ",");
    concat3("[", list.as_str(), "]")
}

/// Everything that is recorded of a run: what the adapter recorded, the thread
/// and tokens, the model, the observations and the images.
pub open spec fn run_records(
    m: Records,
    input: ExternalCliObservabilityInput,
    resolved: ResolvedView,
) -> Records {
    let adapter = input.request.adapter@;
    let events = event_views(input.events@);
    let m1 = with_run_records(m, adapter, events);
    let m2 = with_model_records(m1, adapter, resolved);
    let m3 = with_observations(m2, input);
    insert_when(
        m3,
        "attachments.images"@,
        images_json(input.saved_images@),
        input.saved_images@.len() > 0,
    )
}

/// Records everything that is known of a run.
pub fn record_run(
    input: ExternalCliObservabilityInput<'_>,
    resolved: &ExternalCliResolvedModelConfig,
    metadata: &mut TextMap<String>,
)
    requires
        sums_fit(input.saved_images@, event_views(input.events@)),
    ensures
        map_texts(final(metadata)@) == run_records(map_texts(old(metadata)@), input, resolved@),
{
    let adapter = input.request.adapter.as_str();
    let images = input.saved_images;
    append_external_cli_metadata(adapter, input.events, metadata);
    append_external_cli_request_metadata(adapter, resolved, metadata);
    append_external_cli_observability_metadata(input, metadata);
    if images.len() > 0 {
        let text = images_json_text(images);
        put_text(metadata, "attachments.images", text.as_str());
    }
}

/// Puts together the report of a run that is over.
pub fn run_result(
    style: PathStyle,
    run_id: String,
    run_dir: &str,
    request: ExternalCliRunRequest,
    output: AdapterRunOutput,
    metadata: TextMap<String>,
    started_at: u64,
    finished_at: u64,
) -> (r: ExternalCliRunResult)
    ensures
        r.run_id == run_id,
        r.session_key == request.session_key,
        r.runtime == request.runtime,
        r.adapter == request.adapter,
        r.status == output.status,
        r.exit_code == output.exit_code,
        r.response == output.response,
        r.responses == output.responses,
        r.started_at == started_at,
        r.finished_at == finished_at,
        r.duration_ms == minus(finished_at, started_at),
        r.artifacts@ == artifacts_in(style, run_dir@),
        r.events == output.events,
        r.metadata == metadata,
{
    let duration_ms: u64 = finished_at.saturating_sub(started_at);
    ExternalCliRunResult {
        run_id,
        session_key: request.session_key,
        runtime: request.runtime,
        adapter: request.adapter,
        status: output.status,
        exit_code: output.exit_code,
        response: output.response,
        responses: output.responses,
        started_at,
        finished_at,
        duration_ms,
        artifacts: run_artifacts(style, run_dir),
        events: output.events,
        metadata,
    }
}

/// Whether a report is that of a run whose worker was stopped, whatever its
/// conversation and its adapter.
pub open spec fn reports_stop(r: ExternalCliRunResult, now: u64) -> bool {
    let words = "External runner worker was stopped by request."@;
    &&& r.run_id@ == "stopped-"@ + decimal(now as nat)
    &&& r.runtime@ == DEFAULT_RUNTIME@
    &&& r.status == ExternalCliRunStatus::Stopped
    &&& r.exit_code is None
    &&& r.response@ == words
    &&& texts(r.responses@) == seq![words]
    &&& r.started_at == now
    &&& r.finished_at == now
    &&& r.duration_ms == 0
    &&& r.artifacts@ == (ArtifactsView {
        run_dir: Seq::empty(),
        prompt: Seq::empty(),
        command_snapshot: Seq::empty(),
        stdout: Seq::empty(),
        stderr: Seq::empty(),
        normalized_events: Seq::empty(),
        last_message: Seq::empty(),
    })
    &&& event_views(r.events@) == seq![stopped_event(words, "worker_stopped"@)]
    &&& map_texts(r.metadata@) == Map::<Seq<char>, Seq<char>>::empty()
}

impl ExternalCliRunResult {
    /// The report of a run whose worker was stopped.
    pub fn stopped(session_key: Option<String>, adapter: String, now: u64) -> (r: Self)
        ensures
            reports_stop(r, now),
            r.session_key == session_key,
            r.adapter == adapter,
    {
        let words = "External runner worker was stopped by request.";
        let digits = decimal_text(now);
        ExternalCliRunResult {
            run_id: concat2("stopped-", digits.as_str()),
            session_key,
            runtime: owned(DEFAULT_RUNTIME),
            adapter,
            status: ExternalCliRunStatus::Stopped,
            exit_code: None,
            response: owned(words),
            responses: single_text(words),
            started_at: now,
            finished_at: now,
            duration_ms: 0,
            artifacts: ExternalCliRunArtifacts {
                run_dir: String::new(),
                prompt: String::new(),
                command_snapshot: String::new(),
                stdout: String::new(),
                stderr: String::new(),
                normalized_events: String::new(),
                last_message: String::new(),
            },
            events: single_event(make_stopped_event(words, "worker_stopped")),
            metadata: no_metadata(),
        }
    }
}

/// The response that is shown for a run that is looked up later: the one that
/// was reported, else one worked out from what the run left behind.
pub fn detail_response(
    reported: Option<&str>,
    last_message: &str,
    stdout: &str,
    events: &Vec<ExternalCliProgressEvent>,
) -> (r: String)
    ensures
        r@ == (match opt_str(reported) {
            Some(text) => if blank(text) {
                answer_of(last_message@, stdout@, event_views(events@))
            } else {
                text
            },
            None => answer_of(last_message@, stdout@, event_views(events@)),
        }),
{
    match reported {
        Some(text) => {
            if !trim(text).is_empty() {
                return owned(text);
            }
        },
        None => {},
    }
    final_response(last_message, stdout, events)
}

/// What is written down of a command before it is started. Values of the
/// environment are left out.
#[derive(Debug, PartialEq, Eq)]
pub struct CommandSnapshot {
    pub executable: String,
    pub args: Vec<String>,
    pub env_keys: Vec<String>,
    pub work_dir: Option<String>,
    pub runtime: String,
    pub adapter: String,
    pub params: Json,
    pub timeout_secs: Option<u64>,
}

/// The keys of a list of entries.
pub open spec fn entry_keys(list: Seq<(String, String)>) -> Seq<Seq<char>> {
    list.map_values(|e: (String, String)| e.0@)
}

/// Writes down a command before it is started.
pub fn command_snapshot(request: &ExternalCliRunRequest, spec: &CommandSpec) -> (r:
    CommandSnapshot)
    ensures
        r.executable@ == spec@.executable,
        texts(r.args@) == spec@.args,
        texts(r.env_keys@) == entry_keys(spec.env.list()),
        opt(r.work_dir) == spec@.work_dir,
        r.runtime@ == request.runtime@,
        r.adapter@ == request.adapter@,
        r.params@ == request.params@,
        r.timeout_secs == spec@.timeout_secs,
{
    let n: usize = spec.env.len();
    let ghost all = entry_keys(spec.env.list());
    let mut env_keys: Vec<String> = Vec::new();
    let mut i: usize = 0;
    proof {
        assert(texts(env_keys@) =~= all.take(0));
    }
    while i < n
        invariant
            i <= n,
            n == spec.env.list().len(),
            all == entry_keys(spec.env.list()),
            texts(env_keys@) == all.take(i as int),
        decreases n - i,
    {
        crate::text::push_text(&mut env_keys, spec.env.key_at(i).as_str());
        i = i + 1;
        proof {
            assert(all.take(i as int) =~= all.take(i - 1).push(all[i - 1]));
        }
    }
    proof {
        assert(all.take(i as int) =~= all);
    }
    CommandSnapshot {
        executable: spec.executable.clone(),
        args: copy_texts(&spec.args),
        env_keys,
        work_dir: copy_opt(&spec.work_dir),
        runtime: request.runtime.clone(),
        adapter: request.adapter.clone(),
        params: request.params.copy(),
        timeout_secs: spec.timeout_secs,
    }
}

// ---------------------------------------------------------------------------
// Workers
// ---------------------------------------------------------------------------

/// Checks the version of the protocol that a worker is spoken to in.
pub fn worker_protocol_check(version: u32) -> (r: Result<(), String>)
    ensures
        fault_of(r) == (if version == CONFIG_VERSION {
            None
        } else {
            Some(
                "unsupported external runner worker protocol version "@ + decimal(version as nat),
            )
        }),
{
    if version == CONFIG_VERSION {
        Ok(())
    } else {
        let digits = decimal_text(version as u64);
        Err(
            concat2("unsupported external runner worker protocol version ", digits.as_str()),
        )
    }
}

/// What a worker reports.
#[derive(Debug, PartialEq, Eq)]
pub enum ExternalCliWorkerEvent {
    Started { session_key: Option<String>, pid: u32 },
    Finished { result: Box<ExternalCliRunResult> },
    Progress { event: ExternalCliProgressEvent },
    Failed { error: String },
    Stopped,
}

/// What to do about a report of a worker.
#[derive(Debug, PartialEq, Eq)]
pub enum WorkerStep {
    Wait,
    Forward(ExternalCliProgressEvent),
    Finish(Box<ExternalCliRunResult>),
    Fail(String),
}

/// Decides what to do about a report of a worker.
pub fn on_worker_event(event: ExternalCliWorkerEvent, now: u64) -> (r: WorkerStep)
    ensures
        match event {
            ExternalCliWorkerEvent::Started { .. } => r is Wait,
            ExternalCliWorkerEvent::Progress { event } => r == WorkerStep::Forward(event),
            ExternalCliWorkerEvent::Finished { result } => r == WorkerStep::Finish(result),
            ExternalCliWorkerEvent::Failed { error } => r == WorkerStep::Fail(error),
            ExternalCliWorkerEvent::Stopped => r matches WorkerStep::Finish(result)
                && reports_stop(*result, now) && result.session_key is None && result.adapter@
                == DEFAULT_ADAPTER@,
        },
{
    match event {
        ExternalCliWorkerEvent::Started { session_key, pid } => WorkerStep::Wait,
        ExternalCliWorkerEvent::Progress { event } => WorkerStep::Forward(event),
        ExternalCliWorkerEvent::Finished { result } => WorkerStep::Finish(result),
        ExternalCliWorkerEvent::Failed { error } => WorkerStep::Fail(error),
        ExternalCliWorkerEvent::Stopped => WorkerStep::Finish(
            Box::new(ExternalCliRunResult::stopped(None, owned(DEFAULT_ADAPTER), now)),
        ),
    }
}

} // verus!
