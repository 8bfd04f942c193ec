//! The course of a run: where its traces go, what is read from its output, what
//! is reported at its end, and what is found of it later.

use vstd::prelude::*;
use vstd::string::*;
use vstd::utf8::encode_utf8;

use crate::agent_config::map_texts;
use crate::command_spec::CommandSpec;
use crate::json::{opt_str, Json};
use crate::map::TextMap;
use crate::metadata::{
    observability_sums_fit, sums_fit, ExternalCliObservabilityInput, ExternalCliObservabilityTimings,
};
use crate::model_config::ExternalCliResolvedModelConfig;
use crate::models::text_result;
use crate::paths::{below, clean_name, join_path, PathStyle};
use crate::progress::{
    enrich_progress_event_observation, event_views, events_of_lines, line_event, minus,
    observed_event, opt_event, parse_progress_event_line_with_state, started_after, tools_after_line,
    EventView, ExternalCliParseState, ExternalCliProgressEvent, ToolsView,
};
use crate::request::{
    is_run_id, request_fault, validate_run_id, validate_run_request, validate_work_dir,
    work_dir_fault, ExternalCliRunRequest, ExternalCliSavedImageAttachment,
};
use crate::runs::{
    answer_of, artifacts_in, detail_response, record_run, run_artifacts, run_records, run_result,
    AdapterRunOutput, ExternalCliRunArtifacts, ExternalCliRunResult, ExternalCliWorkerEvent,
};
use crate::text::{
    blank, concat2, concat3, decimal, decimal_text, has_prefix, has_text, occurs_at, owned, texts,
};

verus! {

broadcast use vstd::string::group_string_axioms;

// ---------------------------------------------------------------------------
// Starting a run
// ---------------------------------------------------------------------------

/// What runs share: how paths are written, and the directory that holds theirs.
#[derive(Debug, PartialEq, Eq)]
pub struct ExternalCliRuntime {
    pub style: PathStyle,
    pub runs_root: String,
}

/// Where a run stands.
#[derive(Debug, PartialEq, Eq)]
pub struct RunPlan {
    pub style: PathStyle,
    pub run_id: String,
    pub started_at: u64,
    pub artifacts: ExternalCliRunArtifacts,
    pub stop_marker: String,
    pub result: String,
}

/// Whether a text is written like a unique identifier: 36 characters, each a
/// lower-case hexadecimal digit or a hyphen.
pub open spec fn uuid_shaped(s: Seq<char>) -> bool {
    s.len() == 36 && forall|i: int| 0 <= i < s.len() ==> #[trigger] hex_or_hyphen(s[i])
}

pub open spec fn hex_or_hyphen(c: char) -> bool {
    ('0' <= c <= '9') || ('a' <= c <= 'f') || c == '-'
}

/// `uuid::Uuid::new_v4`, written by its `Display`: the hyphenated form with
/// lower-case digits. Which identifier comes out is left to chance.
#[verifier::external_body]
fn new_unique_id() -> (r: String)
    ensures
        uuid_shaped(r@),
{
    uuid::Uuid::new_v4().to_string()
}

/// The identifier of a run.
pub open spec fn run_id_of(started_at: u64, unique: Seq<char>) -> Seq<char> {
    decimal(started_at as nat) + "-"@ + unique
}

proof fn lemma_decimal_chars(n: nat)
    ensures
        forall|i: int| 0 <= i < decimal(n).len() ==> '0' <= #[trigger] decimal(n)[i] <= '9',
        decimal(n).len() > 0,
    decreases n,
{
    if n >= 10 {
        lemma_decimal_chars(n / 10);
    }
}

/// Every identifier that a run is given names a directory inside the directory of
/// all runs, so that the run is found again under it.
pub proof fn lemma_own_run_ids_are_valid(started_at: u64, unique: Seq<char>)
    requires
        uuid_shaped(unique),
    ensures
        is_run_id(run_id_of(started_at, unique)),
        clean_name(run_id_of(started_at, unique)),
{
    reveal_strlit("-");
    reveal_strlit("/");
    reveal_strlit("\\");
    reveal_strlit("..");
    reveal_strlit(".");
    let id = run_id_of(started_at, unique);
    let d = decimal(started_at as nat);
    lemma_decimal_chars(started_at as nat);
    assert forall|i: int| 0 <= i < id.len() implies #[trigger] hex_or_hyphen(id[i]) by {
        if i < d.len() {
            assert(id[i] == d[i]);
        } else if i > d.len() {
            assert(id[i] == unique[i - d.len() - 1]);
            assert(hex_or_hyphen(unique[i - d.len() - 1]));
        }
    }
    assert forall|p: Seq<char>|
        p.len() > 0 && !hex_or_hyphen(p[0]) implies !#[trigger] has_text(id, p) by {
        if has_text(id, p) {
            let i = choose|i: int| occurs_at(id, p, i);
            assert(id.subrange(i, i + p.len())[0] == id[i]);
            assert(hex_or_hyphen(id[i]));
        }
    }
    assert(!has_text(id, "/"@));
    assert(!has_text(id, "\\"@));
    assert(!has_text(id, ".."@));
    assert(hex_or_hyphen(id[0]));
    assert("."@[0] == '.' && ".."@[0] == '.');
    assert forall|i: int| 0 <= i < id.len() implies #[trigger] id[i] != '/' && id[i] != '\\'
        && id[i] != ':' by {
        assert(hex_or_hyphen(id[i]));
    }
    assert(!has_prefix(id, "."@)) by {
        if has_prefix(id, "."@) {
            assert(id[0] == "."@[0]);
        }
    }
}

/// What keeps a run from being started.
pub open spec fn start_fault(
    style: PathStyle,
    request: ExternalCliRunRequest,
    resolved: Option<Seq<char>>,
    allowed: Seq<Seq<char>>,
) -> Option<Seq<char>> {
    match request_fault(request) {
        Some(fault) => Some(fault),
        None => work_dir_fault(style, request, resolved, allowed),
    }
}

impl ExternalCliRuntime {
    pub fn new(style: PathStyle, runs_root: &str) -> (r: Self)
        ensures
            r.style == style,
            r.runs_root@ == runs_root@,
    {
        ExternalCliRuntime { style, runs_root: owned(runs_root) }
    }

    /// The directory of a run.
    pub open spec fn dir_of(&self, run_id: Seq<char>) -> Seq<char> {
        below(self.style, self.runs_root@, run_id)
    }

    /// The places of a run with an identifier.
    pub fn plan_with_id(&self, started_at: u64, unique: &str) -> (r: RunPlan)
        ensures
            r.run_id@ == run_id_of(started_at, unique@),
            r.style == self.style,
            r.started_at == started_at,
            r.artifacts@ == artifacts_in(self.style, self.dir_of(r.run_id@)),
            r.stop_marker@ == below(self.style, self.dir_of(r.run_id@), "stop_requested"@),
            r.result@ == below(self.style, self.dir_of(r.run_id@), "result.json"@),
    {
        let digits = decimal_text(started_at);
        let run_id = concat3(digits.as_str(), "-", unique);
        let run_dir = join_path(self.style, self.runs_root.as_str(), run_id.as_str());
        RunPlan {
            style: self.style,
            artifacts: run_artifacts(self.style, run_dir.as_str()),
            stop_marker: join_path(self.style, run_dir.as_str(), "stop_requested"),
            result: join_path(self.style, run_dir.as_str(), "result.json"),
            run_id,
            started_at,
        }
    }

    /// Checks a request and gives the run an identifier and its places. `resolved`
    /// is the working directory and `allowed` are the allowed ones, as the file
    /// system resolves them.
    pub fn plan_run(
        &self,
        request: &ExternalCliRunRequest,
        resolved: Option<&str>,
        allowed: &Vec<String>,
        started_at: u64,
    ) -> (r: Result<RunPlan, String>)
        ensures
            match r {
                Ok(plan) => {
                    &&& start_fault(self.style, *request, opt_str(resolved), texts(allowed@)) is None
                    &&& exists|unique: Seq<char>|
                        #[trigger] uuid_shaped(unique) && plan.run_id@ == run_id_of(
                            started_at,
                            unique,
                        )
                    &&& is_run_id(plan.run_id@)
                    &&& plan.style == self.style
                    &&& plan.started_at == started_at
                    &&& plan.artifacts@ == artifacts_in(self.style, self.dir_of(plan.run_id@))
                    &&& plan.stop_marker@ == below(
                        self.style,
                        self.dir_of(plan.run_id@),
                        "stop_requested"@,
                    )
                    &&& plan.result@ == below(
                        self.style,
                        self.dir_of(plan.run_id@),
                        "result.json"@,
                    )
                },
                Err(error) => start_fault(
                    self.style,
                    *request,
                    opt_str(resolved),
                    texts(allowed@),
                ) == Some(error@),
            },
    {
        if let Err(error) = validate_run_request(request) {
            return Err(error);
        }
        if let Err(error) = validate_work_dir(self.style, request, resolved, allowed) {
            return Err(error);
        }
        let unique = new_unique_id();
        proof {
            lemma_own_run_ids_are_valid(started_at, unique@);
        }
        Ok(self.plan_with_id(started_at, unique.as_str()))
    }
}

// ---------------------------------------------------------------------------
// Reading the output of a run
// ---------------------------------------------------------------------------

/// What has been read from the output of a command.
#[derive(Debug, PartialEq, Eq)]
pub struct StdoutReader {
    pub bytes: Vec<u8>,
    pub events: Vec<ExternalCliProgressEvent>,
    pub parse_state: ExternalCliParseState,
    pub tool_started_at: TextMap<u64>,
}

#[verifier::ext_equal]
pub struct ReaderView {
    pub bytes: Seq<u8>,
    pub events: Seq<EventView>,
    pub tools: ToolsView,
    pub started: Map<Seq<char>, u64>,
}

impl View for StdoutReader {
    type V = ReaderView;

    open spec fn view(&self) -> ReaderView {
        ReaderView {
            bytes: self.bytes@,
            events: event_views(self.events@),
            tools: self.parse_state@,
            started: self.tool_started_at@,
        }
    }
}

pub open spec fn nothing_read() -> ReaderView {
    ReaderView {
        bytes: Seq::empty(),
        events: Seq::empty(),
        tools: Map::empty(),
        started: Map::empty(),
    }
}

/// The event that a line reports, with the time it was seen.
pub open spec fn reported_event(v: ReaderView, line: Seq<char>, at: u64) -> Option<EventView> {
    match line_event(line, v.tools) {
        Some(e) => Some(observed_event(e, at, v.started)),
        None => None,
    }
}

/// A line as it is kept.
pub open spec fn kept_line(line: Seq<char>) -> Seq<u8> {
    encode_utf8(line).push(10)
}

/// What has been read after one more line.
pub open spec fn read_after(v: ReaderView, line: Seq<char>, at: u64) -> ReaderView {
    ReaderView {
        bytes: v.bytes + kept_line(line),
        events: match reported_event(v, line, at) {
            Some(e) => v.events.push(e),
            None => v.events,
        },
        tools: tools_after_line(line, v.tools),
        started: match line_event(line, v.tools) {
            Some(e) => started_after(e, at, v.started),
            None => v.started,
        },
    }
}

/// Appends a line to the bytes that are kept of an output.
pub fn keep_line(bytes: &mut Vec<u8>, line: &str)
    ensures
        final(bytes)@ == old(bytes)@ + kept_line(line@),
{
    let mut more = line.as_bytes_vec();
    more.push(10);
    bytes.append(&mut more);
}

impl StdoutReader {
    pub fn new() -> (r: Self)
        ensures
            r@ == nothing_read(),
    {
        let r = StdoutReader {
            bytes: Vec::new(),
            events: Vec::new(),
            parse_state: ExternalCliParseState::new(),
            tool_started_at: TextMap::new(),
        };
        proof {
            assert(r@ =~= nothing_read());
        }
        r
    }

    /// Takes in a line that was read at `observed_at` and hands out the event that
    /// it reports.
    pub fn take_line(&mut self, line: &str, observed_at: u64) -> (r: Option<
        ExternalCliProgressEvent,
    >)
        ensures
            opt_event(r) == reported_event(old(self)@, line@, observed_at),
            final(self)@ == read_after(old(self)@, line@, observed_at),
    {
        keep_line(&mut self.bytes, line);
        match parse_progress_event_line_with_state(line, &mut self.parse_state) {
            Some(found) => {
                let mut event = found;
                enrich_progress_event_observation(
                    &mut event,
                    observed_at,
                    &mut self.tool_started_at,
                );
                let shown = event.copy();
                let ghost before = self.events@;
                self.events.push(event);
                proof {
                    assert(event_views(self.events@) =~= event_views(before).push(event@));
                }
                Some(shown)
            },
            None => None,
        }
    }
}

/// What has been read after some lines, each with the time it was read at.
pub open spec fn read_lines(lines: Seq<(Seq<char>, u64)>) -> ReaderView
    decreases lines.len(),
{
    if lines.len() == 0 {
        nothing_read()
    } else {
        read_after(read_lines(lines.drop_last()), lines.last().0, lines.last().1)
    }
}

pub open spec fn lines_alone(lines: Seq<(Seq<char>, u64)>) -> Seq<Seq<char>> {
    lines.map_values(|l: (Seq<char>, u64)| l.0)
}

/// Whether two events say the same but for what was observed of them.
pub open spec fn same_report(a: EventView, b: EventView) -> bool {
    a.event_type == b.event_type && a.content == b.content && a.title == b.title
}

/// The events that are reported while a command runs are those that its whole
/// output holds, in the same order, but for what was observed of them.
pub proof fn lemma_live_events_match_output(lines: Seq<(Seq<char>, u64)>)
    ensures
        read_lines(lines).tools == events_of_lines(lines_alone(lines)).1,
        read_lines(lines).events.len() == events_of_lines(lines_alone(lines)).0.len(),
        forall|i: int|
            0 <= i < read_lines(lines).events.len() ==> same_report(
                #[trigger] read_lines(lines).events[i],
                events_of_lines(lines_alone(lines)).0[i],
            ),
    decreases lines.len(),
{
    if lines.len() > 0 {
        lemma_live_events_match_output(lines.drop_last());
        assert(lines_alone(lines).drop_last() =~= lines_alone(lines.drop_last()));
        assert(lines_alone(lines).last() == lines.last().0);
        let v = read_lines(lines.drop_last());
        let w = events_of_lines(lines_alone(lines.drop_last()));
        assert forall|i: int| 0 <= i < read_lines(lines).events.len() implies same_report(
            #[trigger] read_lines(lines).events[i],
            events_of_lines(lines_alone(lines)).0[i],
        ) by {
            if i < v.events.len() {
                assert(read_lines(lines).events[i] == v.events[i]);
                assert(events_of_lines(lines_alone(lines)).0[i] == w.0[i]);
                assert(same_report(v.events[i], w.0[i]));
            }
        }
    } else {
        assert(lines_alone(lines) =~= Seq::empty());
    }
}

// ---------------------------------------------------------------------------
// Ending a run
// ---------------------------------------------------------------------------

/// All that a run is over with.
#[derive(Debug, PartialEq, Eq)]
pub struct RunEnd<'a> {
    pub request: ExternalCliRunRequest,
    pub spec: &'a CommandSpec,
    pub prompt: &'a str,
    pub saved_images: &'a Vec<ExternalCliSavedImageAttachment>,
    pub output: AdapterRunOutput,
    pub command_started_at: Option<u64>,
    pub command_finished_at: Option<u64>,
    pub finished_at: u64,
    pub cli_version: Option<&'a str>,
}

/// What is known of a run that is over.
pub open spec fn end_input<'a>(end: RunEnd<'a>, started_at: u64) -> ExternalCliObservabilityInput<
    'a,
> {
    ExternalCliObservabilityInput {
        request: &end.request,
        spec: end.spec,
        prompt: end.prompt,
        saved_images: end.saved_images,
        stdout: &end.output.stdout,
        stderr: &end.output.stderr,
        events: &end.output.events,
        timings: ExternalCliObservabilityTimings {
            started_at,
            command_started_at: end.command_started_at,
            command_finished_at: end.command_finished_at,
            finished_at: end.finished_at,
        },
        cli_version: end.cli_version,
    }
}

/// Records what is known of a run that is over and puts its report together.
/// Nothing comes out where a sum that is recorded does not fit in 64 bits.
pub fn complete_run(
    plan: RunPlan,
    end: RunEnd<'_>,
    resolved: &ExternalCliResolvedModelConfig,
) -> (r: Option<ExternalCliRunResult>)
    ensures
        r is Some <==> sums_fit(end.saved_images@, event_views(end.output.events@)),
        r matches Some(report) ==> {
            &&& report.run_id == plan.run_id
            &&& report.session_key == end.request.session_key
            &&& report.runtime == end.request.runtime
            &&& report.adapter == end.request.adapter
            &&& report.status == end.output.status
            &&& report.exit_code == end.output.exit_code
            &&& report.response == end.output.response
            &&& report.responses == end.output.responses
            &&& report.started_at == plan.started_at
            &&& report.finished_at == end.finished_at
            &&& report.duration_ms == minus(end.finished_at, plan.started_at)
            &&& report.artifacts@ == artifacts_in(plan.style, plan.artifacts.run_dir@)
            &&& report.events == end.output.events
            &&& map_texts(report.metadata@) == run_records(
                map_texts(end.output.metadata@),
                end_input(end, plan.started_at),
                resolved@,
            )
        },
{
    if !observability_sums_fit(end.saved_images, &end.output.events) {
        return None;
    }
    let mut metadata = crate::map::copy_text_map(&end.output.metadata);
    let timings = ExternalCliObservabilityTimings {
        started_at: plan.started_at,
        command_started_at: end.command_started_at,
        command_finished_at: end.command_finished_at,
        finished_at: end.finished_at,
    };
    record_run(
        ExternalCliObservabilityInput {
            request: &end.request,
            spec: end.spec,
            prompt: end.prompt,
            saved_images: end.saved_images,
            stdout: &end.output.stdout,
            stderr: &end.output.stderr,
            events: &end.output.events,
            timings,
            cli_version: end.cli_version,
        },
        resolved,
        &mut metadata,
    );
    Some(
        run_result(
            plan.style,
            plan.run_id,
            plan.artifacts.run_dir.as_str(),
            end.request,
            end.output,
            metadata,
            plan.started_at,
            end.finished_at,
        ),
    )
}

// ---------------------------------------------------------------------------
// Looking a run up
// ---------------------------------------------------------------------------

/// What is found of a run later.
#[derive(Debug, PartialEq, Eq)]
pub struct ExternalCliRunDetail {
    pub run_id: String,
    pub snapshot: Json,
    pub events: Vec<ExternalCliProgressEvent>,
    pub response: String,
    pub stdout: String,
    pub stderr: String,
    pub artifacts: ExternalCliRunArtifacts,
    pub metadata: TextMap<String>,
}

/// What the files of a run hold. A report that is missing or cannot be read is
/// none.
#[derive(Debug, PartialEq, Eq)]
pub struct RunFiles {
    pub snapshot: Json,
    pub events: Vec<ExternalCliProgressEvent>,
    pub stdout: String,
    pub stderr: String,
    pub last_message: String,
    pub report: Option<(String, TextMap<String>)>,
}

/// Where the files of a run stand, if its identifier is one.
pub fn run_places(style: PathStyle, runs_root: &str, run_id: &str) -> (r: Result<
    ExternalCliRunArtifacts,
    String,
>)
    ensures
        match r {
            Ok(places) => is_run_id(run_id@) && places@ == artifacts_in(
                style,
                below(style, runs_root@, run_id@),
            ),
            Err(error) => !is_run_id(run_id@) && error@ == "invalid run_id"@,
        },
{
    match validate_run_id(run_id) {
        Err(error) => Err(error),
        Ok(_) => Ok(run_artifacts(style, join_path(style, runs_root, run_id).as_str())),
    }
}

/// The response that is shown for a run: the one that was reported unless it is
/// blank, else one worked out from what the run left behind.
pub open spec fn shown_response(files: RunFiles) -> Seq<char> {
    let found = answer_of(files.last_message@, files.stdout@, event_views(files.events@));
    match files.report {
        Some(report) => if blank(report.0@) {
            found
        } else {
            report.0@
        },
        None => found,
    }
}

/// Puts together what is found of a run.
pub fn run_detail(run_id: &str, places: ExternalCliRunArtifacts, files: RunFiles) -> (r:
    ExternalCliRunDetail)
    ensures
        r.run_id@ == run_id@,
        r.snapshot == files.snapshot,
        r.events == files.events,
        r.response@ == shown_response(files),
        r.stdout == files.stdout,
        r.stderr == files.stderr,
        r.artifacts == places,
        match files.report {
            Some(report) => r.metadata == report.1,
            None => r.metadata@ == Map::<Seq<char>, String>::empty(),
        },
{
    let response = match &files.report {
        Some(report) => detail_response(
            Some(report.0.as_str()),
            files.last_message.as_str(),
            files.stdout.as_str(),
            &files.events,
        ),
        None => detail_response(
            None,
            files.last_message.as_str(),
            files.stdout.as_str(),
            &files.events,
        ),
    };
    let metadata = match files.report {
        Some(report) => report.1,
        None => TextMap::new(),
    };
    ExternalCliRunDetail {
        run_id: owned(run_id),
        snapshot: files.snapshot,
        events: files.events,
        response,
        stdout: files.stdout,
        stderr: files.stderr,
        artifacts: places,
        metadata,
    }
}

/// Where a run is asked to stop, if it is one that is known. `exists` says whether
/// its directory is there.
pub fn stop_marker_of(style: PathStyle, runs_root: &str, run_id: &str, exists: bool) -> (r: Result<
    String,
    String,
>)
    ensures
        text_result(r) == (if !is_run_id(run_id@) {
            Err("invalid run_id"@)
        } else if !exists {
            Err("run '"@ + run_id@ + "' not found"@)
        } else {
            Ok(below(style, below(style, runs_root@, run_id@), "stop_requested"@))
        }),
{
    if let Err(error) = validate_run_id(run_id) {
        return Err(error);
    }
    if !exists {
        return Err(concat3("run '", run_id, "' not found"));
    }
    Ok(join_path(style, join_path(style, runs_root, run_id).as_str(), "stop_requested"))
}

// ---------------------------------------------------------------------------
// A worker
// ---------------------------------------------------------------------------

/// How the run of a worker came to its end.
#[derive(Debug, PartialEq, Eq)]
pub enum WorkerRunEnd {
    StopRequested,
    Finished(Box<ExternalCliRunResult>),
    Failed(String),
    Cancelled,
    Broken(String),
}

/// What a worker reports at the end of its run.
pub fn worker_final_event(end: WorkerRunEnd) -> (r: ExternalCliWorkerEvent)
    ensures
        match end {
            WorkerRunEnd::StopRequested => r is Stopped,
            WorkerRunEnd::Finished(result) => r == (ExternalCliWorkerEvent::Finished { result }),
            WorkerRunEnd::Failed(error) => r == (ExternalCliWorkerEvent::Failed { error }),
            WorkerRunEnd::Cancelled => r is Stopped,
            WorkerRunEnd::Broken(error) => r matches ExternalCliWorkerEvent::Failed { error: told }
                && told@ == "external runner worker task failed: "@ + error@,
        },
{
    match end {
        WorkerRunEnd::StopRequested => ExternalCliWorkerEvent::Stopped,
        WorkerRunEnd::Finished(result) => ExternalCliWorkerEvent::Finished { result },
        WorkerRunEnd::Failed(error) => ExternalCliWorkerEvent::Failed { error },
        WorkerRunEnd::Cancelled => ExternalCliWorkerEvent::Stopped,
        WorkerRunEnd::Broken(error) => ExternalCliWorkerEvent::Failed {
            error: concat2("external runner worker task failed: ", error.as_str()),
        },
    }
}

} // verus!
