//! What a run is for: which requests are taken, what an agent is told, what a run
//! answers and how it ended.

use vstd::prelude::*;

use crate::active_runs::stop_target;
use crate::digest::{fingerprint_of, hex_digit, hex_of, raw_digest_of};
use crate::json::{member, text_of_json, Tree};
use crate::paths::{absolute, below, climbs, last_name, lies_below, PathStyle};
use crate::progress::{EventView, ExternalCliProgressEventType};
use crate::request::{
    base64_decoded, extension_of, has_image, image_bytes_of, image_line, image_lines, image_path,
    image_payload, image_section, images_dir, instruction_section, is_run_id, needs_message,
    prompt_of, request_fault, skill_allowed, skill_section, skill_sections, taken_images,
    tool_section, trusted_base, work_dir_fault, ExternalCliImageInput, ExternalCliRunRequest,
    ExternalCliSavedImageAttachment, SkillText,
};
use crate::runs::{
    answer_of, artifacts_in, catalog_executable, chatgpt_failure, first_filled, first_filled_of,
    image_json, images_json, last_filled, outcome_status, run_output, run_records, says_missing,
    terminal_line, visible_answer, CommandOutput, CommandWaitOutcome, ExternalCliRunStatus,
};
use crate::runtime::{run_id_of, shown_response, start_fault, RunFiles};
use crate::text::{blank, decimal, has_prefix, has_text, lowered, opt, trimmed};

verus! {

broadcast use vstd::string::group_string_axioms;

// ---------------------------------------------------------------------------
// Requests
// ---------------------------------------------------------------------------

/// A request is taken where it names the one runtime there is and an adapter, and
/// says something: words or an image, unless its operation needs none.
pub proof fn lemma_requests_that_are_taken(r: ExternalCliRunRequest)
    ensures
        request_fault(r) is None <==> r.runtime@ == "external_cli"@ && !blank(r.adapter@) && (
        !needs_message(r.operation@) || !blank(r.message@) || exists|i: int|
            0 <= i < r.images@.len() && !blank((#[trigger] r.images@[i]).data@)),
        blank(r.runtime@) ==> request_fault(r) == Some("runtime cannot be empty"@),
        r.runtime@ == "external_cli"@ && blank(r.adapter@) ==> request_fault(r) == Some(
            "adapter cannot be empty"@,
        ),
{
    reveal_strlit("external_cli");
    let t = "external_cli"@;
    assert(t.len() == 12 && t[0] == 'e' && t[11] == 'i');
    assert(trimmed(t).len() > 0) by {
        crate::text::lemma_trim_front_facts(t);
        crate::text::lemma_trim_back_keeps(crate::text::trim_front(t), 0);
    }
    if exists|i: int| 0 <= i < r.images@.len() && !blank((#[trigger] r.images@[i]).data@) {
        let i = choose|i: int| 0 <= i < r.images@.len() && !blank((#[trigger] r.images@[i]).data@);
        assert(crate::request::has_data(r.images@[i]));
    }
    if has_image(r.images@) {
        let i = choose|i: int|
            0 <= i < r.images@.len() && crate::request::has_data(#[trigger] r.images@[i]);
        assert(!blank(r.images@[i].data@));
    }
}

/// The operations that say something.
pub proof fn lemma_operations_with_words(operation: Seq<char>)
    ensures
        needs_message(operation) <==> blank(operation) || trimmed(operation) == "ask"@ || trimmed(
            operation,
        ) == "create"@ || trimmed(operation) == "send"@,
{
}

/// A work directory is taken where no directory is said to be allowed, or where it
/// lies in one that is.
pub proof fn lemma_work_dirs(
    style: PathStyle,
    r: ExternalCliRunRequest,
    path: Seq<char>,
    allowed: Seq<Seq<char>>,
    i: int,
)
    ensures
        r.work_dir is None ==> work_dir_fault(style, r, Some(path), allowed) is None,
        r.allow_work_dirs@.len() == 0 ==> work_dir_fault(style, r, Some(path), allowed) is None,
        0 <= i < allowed.len() && lies_below(style, path, allowed[i]) ==> work_dir_fault(
            style,
            r,
            Some(path),
            allowed,
        ) is None,
        r.work_dir is Some && r.allow_work_dirs@.len() > 0 && (forall|j: int|
            0 <= j < allowed.len() ==> !lies_below(style, path, #[trigger] allowed[j]))
            ==> work_dir_fault(style, r, Some(path), allowed) is Some,
{
    if 0 <= i < allowed.len() && lies_below(style, path, allowed[i]) {
        assert(crate::request::below_any(style, path, allowed));
    }
}

/// What is wrong with a request goes before what is wrong with its directory.
pub proof fn lemma_first_faults(
    style: PathStyle,
    r: ExternalCliRunRequest,
    resolved: Option<Seq<char>>,
    allowed: Seq<Seq<char>>,
)
    ensures
        request_fault(r) is Some ==> start_fault(style, r, resolved, allowed) == request_fault(r),
        request_fault(r) is None ==> start_fault(style, r, resolved, allowed) == work_dir_fault(
            style,
            r,
            resolved,
            allowed,
        ),
{
}

/// A skill is read where it does not climb and lies in the work directory, in an
/// allowed one or in that of the agents; a relative path lies where it is read from.
pub proof fn lemma_skills_that_are_read(
    style: PathStyle,
    path: Seq<char>,
    work_dir: Option<Seq<char>>,
    allowed: Seq<Seq<char>>,
    agents_dir: Seq<char>,
    i: int,
)
    ensures
        climbs(style, path) ==> !skill_allowed(style, path, work_dir, allowed, agents_dir),
        !climbs(style, path) && !absolute(style, path) ==> skill_allowed(
            style,
            path,
            work_dir,
            allowed,
            agents_dir,
        ),
        !climbs(style, path) && lies_below(style, path, agents_dir) ==> skill_allowed(
            style,
            path,
            work_dir,
            allowed,
            agents_dir,
        ),
        !climbs(style, path) && 0 <= i < allowed.len() && lies_below(style, path, allowed[i])
            ==> skill_allowed(style, path, work_dir, allowed, agents_dir),
        !climbs(style, path) && (work_dir matches Some(d) && lies_below(style, path, d))
            ==> skill_allowed(style, path, work_dir, allowed, agents_dir),
        absolute(style, path) && !(work_dir matches Some(d) && lies_below(style, path, d))
            && !lies_below(style, path, agents_dir) && (forall|j: int|
            0 <= j < allowed.len() ==> !lies_below(style, path, #[trigger] allowed[j]))
            ==> !skill_allowed(style, path, work_dir, allowed, agents_dir),
{
    if 0 <= i < allowed.len() && lies_below(style, path, allowed[i]) {
        assert(crate::request::below_any(style, path, allowed));
    }
}

/// A run is never named by a path.
pub proof fn lemma_names_of_runs(id: Seq<char>)
    ensures
        is_run_id(id) ==> !id.contains('/') && !id.contains('\\') && id.len() > 0 && id[0] != '.',
        is_run_id(id) ==> !has_text(id, ".."@),
        id.len() > 0 && !id.contains('/') && !id.contains('\\') && !id.contains('.') ==> is_run_id(
            id,
        ),
{
    reveal_strlit("/");
    reveal_strlit("\\");
    reveal_strlit(".");
    reveal_strlit("..");
    let slash = "/"@;
    let back = "\\"@;
    if is_run_id(id) {
        if id.contains('/') {
            let k = choose|k: int| 0 <= k < id.len() && id[k] == '/';
            assert(id.subrange(k, k + slash.len()) =~= slash);
            assert(crate::text::occurs_at(id, slash, k));
        }
        if id.contains('\\') {
            let k = choose|k: int| 0 <= k < id.len() && id[k] == '\\';
            assert(id.subrange(k, k + back.len()) =~= back);
            assert(crate::text::occurs_at(id, back, k));
        }
        if id[0] == '.' {
            assert(id.subrange(0, "."@.len() as int) =~= "."@);
        }
    }
    if id.len() > 0 && !id.contains('/') && !id.contains('\\') && !id.contains('.') {
        if has_text(id, "/"@) {
            let k = choose|k: int| crate::text::occurs_at(id, "/"@, k);
            assert(id.subrange(k, k + slash.len())[0] == '/');
            assert(id[k] == '/');
        }
        if has_text(id, "\\"@) {
            let k = choose|k: int| crate::text::occurs_at(id, "\\"@, k);
            assert(id.subrange(k, k + back.len())[0] == '\\');
            assert(id[k] == '\\');
        }
        if has_text(id, ".."@) {
            let k = choose|k: int| crate::text::occurs_at(id, ".."@, k);
            assert(id.subrange(k, k + ".."@.len())[0] == '.');
            assert(id[k] == '.');
        }
        if has_prefix(id, "."@) {
            assert(id.subrange(0, "."@.len() as int)[0] == '.');
            assert(id[0] == '.');
        }
    }
}

// ---------------------------------------------------------------------------
// Prompts
// ---------------------------------------------------------------------------

/// A prompt ends with what the user said, on a line of its own.
pub proof fn lemma_prompts_end_with_the_message(
    r: ExternalCliRunRequest,
    skills: Seq<SkillText>,
    images: Seq<ExternalCliSavedImageAttachment>,
)
    ensures
        crate::text::has_suffix(prompt_of(r, skills, images), trimmed(r.message@) + "\n"@),
{
    let p = prompt_of(r, skills, images);
    let end = trimmed(r.message@) + "\n"@;
    assert(p.subrange(p.len() - end.len(), p.len() as int) =~= end);
}

/// A request without instructions, tools, skills and images is told the message
/// alone.
pub proof fn lemma_bare_prompts(r: ExternalCliRunRequest)
    requires
        r.instructions is None,
        !r.inject_bifrost_tools || r.adapter@ == "chatgpt_web"@,
    ensures
        prompt_of(r, Seq::empty(), Seq::empty()) == trimmed(r.message@) + "\n"@,
{
    assert(prompt_of(r, Seq::empty(), Seq::empty()) =~= trimmed(r.message@) + "\n"@);
}

/// Instructions come first, and what is told of the tools comes behind them.
pub proof fn lemma_prompts_begin_with_instructions(
    r: ExternalCliRunRequest,
    skills: Seq<SkillText>,
    images: Seq<ExternalCliSavedImageAttachment>,
)
    ensures
        opt(r.instructions) matches Some(t) ==> (!blank(t) ==> has_prefix(
            prompt_of(r, skills, images),
            trimmed(t) + "\n\n"@,
        )),
        r.instructions is None && r.inject_bifrost_tools && r.adapter@ != "chatgpt_web"@
            ==> has_prefix(prompt_of(r, skills, images), "## Bifrost Tool Context\n\n"@),
{
    let p = prompt_of(r, skills, images);
    let i = instruction_section(opt(r.instructions));
    assert(p.subrange(0, i.len() as int) =~= i);
    if r.instructions is None && r.inject_bifrost_tools && r.adapter@ != "chatgpt_web"@ {
        let t = tool_section(true);
        let head = "## Bifrost Tool Context\n\n"@;
        assert(p.subrange(0, t.len() as int) =~= t);
        lemma_tool_words();
        assert(p.subrange(0, head.len() as int) =~= t.subrange(0, head.len() as int));
    }
}

proof fn lemma_tool_words()
    ensures
        has_prefix(tool_section(true), "## Bifrost Tool Context\n\n"@),
        tool_section(false).len() == 0,
{
    reveal_strlit("## Bifrost Tool Context\n\n");
    reveal_strlit(
        "## Bifrost Tool Context\n\n- You are being invoked by Bifrost IM Gateway through an external CLI adapter.\n- Prefer the local `bifrost` CLI for Bifrost proxy, traffic, rule, IM, and remote-invoke operations when the requested task needs those capabilities.\n- Keep filesystem work inside the configured working directory and allowed extra directories.\n\n",
    );
    let head = "## Bifrost Tool Context\n\n"@;
    assert(tool_section(true).subrange(0, head.len() as int) =~= head);
}

/// Skills are told one behind the other, each under its path; one without words is
/// left out.
pub proof fn lemma_skills_in_order(skills: Seq<SkillText>, s: SkillText)
    ensures
        skill_sections(Seq::<SkillText>::empty()).len() == 0,
        skill_sections(skills.push(s)) == skill_sections(skills) + skill_section(s),
        blank(s.content@) ==> skill_section(s).len() == 0,
        !blank(s.content@) ==> skill_section(s) == "## Skill: "@ + s.path@ + "\n\n"@ + trimmed(
            s.content@,
        ) + "\n\n"@,
{
    assert(skills.push(s).drop_last() =~= skills);
}

/// Images are told with their numbers, from one on, and their paths.
pub proof fn lemma_images_are_numbered(
    images: Seq<ExternalCliSavedImageAttachment>,
    image: ExternalCliSavedImageAttachment,
)
    ensures
        image_section(Seq::<ExternalCliSavedImageAttachment>::empty()).len() == 0,
        image_lines(images.push(image)) == image_lines(images) + image_line(
            images.len() + 1,
            image,
        ),
        has_text(image_line(images.len() + 1, image), image.path@),
        has_prefix(image_line(images.len() + 1, image), decimal(images.len() + 1)),
{
    assert(images.push(image).drop_last() =~= images);
    let l = image_line(images.len() + 1, image);
    let n = decimal(images.len() + 1);
    assert(l.subrange(0, n.len() as int) =~= n);
    let at = (n + ". `"@).len() as int;
    assert(l.subrange(at, at + image.path@.len()) =~= image.path@);
    assert(crate::text::occurs_at(l, image.path@, at));
}

// ---------------------------------------------------------------------------
// Images
// ---------------------------------------------------------------------------

/// The first six images with data are taken, in their order.
pub proof fn lemma_images_that_are_taken(images: Seq<ExternalCliImageInput>, k: int)
    ensures
        taken_images(images).len() <= 6,
        0 <= k < taken_images(images).len() ==> 0 <= taken_images(images)[k] < images.len()
            && !blank(images[taken_images(images)[k]].data@),
        taken_images(images).len() < 6 && 0 <= k < images.len() && !blank(images[k].data@)
            ==> taken_images(images).contains(k),
        forall|i: int, j: int|
            0 <= i < j < taken_images(images).len() ==> taken_images(images)[i] < taken_images(
                images,
            )[j],
    decreases images.len(),
{
    if images.len() > 0 {
        let head = images.drop_last();
        let before = taken_images(head);
        let all = taken_images(images);
        let last = images.len() - 1;
        lemma_images_that_are_taken(head, k);
        assert forall|i: int| 0 <= i < before.len() implies 0 <= #[trigger] before[i] < head.len() by {
            lemma_images_that_are_taken(head, i);
        }
        if crate::request::has_data(images.last()) && before.len() < 6 {
            assert(all == before.push(last));
            assert(all[before.len() as int] == last);
            if 0 <= k < all.len() {
                if k < before.len() {
                    assert(all[k] == before[k]);
                    assert(head[before[k]] == images[before[k]]);
                }
            }
            if 0 <= k < images.len() && !blank(images[k].data@) {
                if k < last {
                    assert(head[k] == images[k]);
                    assert(before.contains(k));
                    let j = choose|j: int| 0 <= j < before.len() && before[j] == k;
                    assert(all[j] == k);
                } else {
                    assert(all.contains(last));
                }
            }
        } else {
            assert(all == before);
            if 0 <= k < all.len() {
                assert(head[before[k]] == images[before[k]]);
            }
            if all.len() < 6 && 0 <= k < images.len() && !blank(images[k].data@) {
                assert(k < last);
                assert(head[k] == images[k]);
            }
        }
    }
}

/// The data of an image may stand behind a data address; it begins behind the first
/// comma.
pub proof fn lemma_image_data(kind: Seq<char>, data: Seq<char>)
    requires
        !kind.contains(','),
        trimmed("data:"@ + kind + ","@ + data) == "data:"@ + kind + ","@ + data,
    ensures
        image_payload("data:"@ + kind + ","@ + data) == data,
        !has_prefix(trimmed(data), "data:"@) ==> image_payload(data) == trimmed(data),
{
    reveal_strlit(",");
    assert(","@ =~= seq![',']);
    let t = "data:"@ + kind + ","@ + data;
    assert(t.subrange(0, "data:"@.len() as int) =~= "data:"@);
    assert(t.skip("data:"@.len() as int) =~= kind + seq![','] + data);
    crate::text_laws::lemma_splitting(kind, ',', data);
}

/// Data that cannot be read is refused with the reason.
pub proof fn lemma_unreadable_images(data: Seq<char>)
    ensures
        base64_decoded(image_payload(data)) matches Ok(b) ==> image_bytes_of(data) == Ok::<
            Seq<u8>,
            Seq<char>,
        >(b),
        base64_decoded(image_payload(data)) matches Err(e) ==> image_bytes_of(data) == Err::<
            Seq<u8>,
            Seq<char>,
        >("decode image attachment failed: "@ + e),
{
}

/// The endings that images are saved with.
pub proof fn lemma_endings_of_images(kind: Seq<char>)
    ensures
        lowered(trimmed(kind)) == "image/png"@ ==> extension_of(kind) == "png"@,
        lowered(trimmed(kind)) == "image/jpeg"@ ==> extension_of(kind) == "jpg"@,
        lowered(trimmed(kind)) == "image/jpg"@ ==> extension_of(kind) == "jpg"@,
        lowered(trimmed(kind)) == "image/gif"@ ==> extension_of(kind) == "gif"@,
        lowered(trimmed(kind)) == "image/webp"@ ==> extension_of(kind) == "webp"@,
        lowered(trimmed(kind)) == "image/bmp"@ ==> extension_of(kind) == "img"@,
{
    reveal_strlit("image/png");
    reveal_strlit("image/jpeg");
    reveal_strlit("image/jpg");
    reveal_strlit("image/gif");
    reveal_strlit("image/webp");
    reveal_strlit("image/bmp");
    assert("image/png"@.len() == 9 && "image/jpeg"@.len() == 10 && "image/jpg"@.len() == 9
        && "image/gif"@.len() == 9 && "image/webp"@.len() == 10 && "image/bmp"@.len() == 9);
    assert("image/png"@[6] == 'p' && "image/jpeg"@[6] == 'j' && "image/jpg"@[6] == 'j'
        && "image/gif"@[6] == 'g' && "image/webp"@[6] == 'w' && "image/bmp"@[6] == 'b');
}

/// Images are numbered from one on in their directory, and kept with the session
/// where it has a directory that can be trusted, else with the run.
pub proof fn lemma_places_of_images(
    style: PathStyle,
    params: Tree,
    sessions_root: Seq<char>,
    run_dir: Seq<char>,
    dir: Seq<char>,
    index: nat,
    kind: Seq<char>,
)
    ensures
        lowered(trimmed(kind)) == "image/png"@ ==> image_path(style, dir, index, kind) == below(
            style,
            dir,
            "image-"@ + decimal(index + 1) + "."@ + "png"@,
        ),
        trusted_base(style, params, sessions_root) is None ==> images_dir(
            style,
            params,
            sessions_root,
            run_dir,
        ) == below(style, below(style, run_dir, "attachments"@), "images"@),
        trusted_base(style, params, sessions_root) matches Some(b) ==> (last_name(
            style,
            run_dir,
        ) matches Some(n) ==> images_dir(style, params, sessions_root, run_dir) == below(
            style,
            below(style, b, n),
            "images"@,
        )),
{
    lemma_endings_of_images(kind);
}

/// A directory that a session asks for is trusted where it is absolute, does not
/// climb and lies in the directory of the sessions.
pub proof fn lemma_trusted_directories(
    style: PathStyle,
    params: Tree,
    root: Seq<char>,
    path: Seq<char>,
)
    requires
        member(params, "attachmentBaseDir"@) == Some(Tree::Text(path)) || (member(
            params,
            "attachmentBaseDir"@,
        ) is None && member(params, "attachment_base_dir"@) == Some(Tree::Text(path))),
        !blank(path),
    ensures
        ({
            let p = trimmed(path);
            let good = absolute(style, p) && !climbs(style, p) && lies_below(style, p, root);
            &&& good ==> trusted_base(style, params, root) == Some(p)
            &&& !good ==> trusted_base(style, params, root) is None
        }),
{
}

// ---------------------------------------------------------------------------
// Answers
// ---------------------------------------------------------------------------

/// Whether an event is the last of its kind that says something.
pub open spec fn last_said(
    events: Seq<EventView>,
    kind: ExternalCliProgressEventType,
    i: int,
) -> bool {
    &&& 0 <= i < events.len()
    &&& events[i].event_type == kind
    &&& !blank(events[i].content)
    &&& forall|j: int|
        i < j < events.len() ==> (#[trigger] events[j]).event_type != kind || blank(
            events[j].content,
        )
}

/// Whether no event of a kind says anything.
pub open spec fn never_said(events: Seq<EventView>, kind: ExternalCliProgressEventType) -> bool {
    forall|j: int|
        0 <= j < events.len() ==> (#[trigger] events[j]).event_type != kind || blank(
            events[j].content,
        )
}

proof fn lemma_last_filled(events: Seq<EventView>, kind: ExternalCliProgressEventType, i: int)
    ensures
        last_said(events, kind, i) ==> last_filled(events, kind) == Some(
            trimmed(events[i].content),
        ),
        never_said(events, kind) ==> last_filled(events, kind) is None,
    decreases events.len(),
{
    if events.len() > 0 {
        let head = events.drop_last();
        let last = events[events.len() - 1];
        if last_said(events, kind, i) && i < events.len() - 1 {
            assert(last.event_type != kind || blank(last.content));
            assert forall|j: int| i < j < head.len() implies (#[trigger] head[j]).event_type != kind
                || blank(head[j].content) by {
                assert(head[j] == events[j]);
            }
            assert(last_said(head, kind, i));
        }
        if never_said(events, kind) {
            assert(last.event_type != kind || blank(last.content));
            assert forall|j: int| 0 <= j < head.len() implies (#[trigger] head[j]).event_type != kind
                || blank(head[j].content) by {
                assert(head[j] == events[j]);
            }
        }
        lemma_last_filled(head, kind, i);
    }
}

/// A run answers with the last message it left; without one with the last answer it
/// told, then with how it finished, and else with all that it wrote.
pub proof fn lemma_answers(
    last_message: Seq<char>,
    stdout: Seq<char>,
    events: Seq<EventView>,
    i: int,
)
    ensures
        !blank(last_message) ==> answer_of(last_message, stdout, events) == trimmed(last_message),
        blank(last_message) && last_said(events, ExternalCliProgressEventType::AssistantFinal, i)
            ==> answer_of(last_message, stdout, events) == trimmed(events[i].content),
        blank(last_message) && never_said(events, ExternalCliProgressEventType::AssistantFinal)
            && last_said(events, ExternalCliProgressEventType::RunFinished, i) ==> answer_of(
            last_message,
            stdout,
            events,
        ) == trimmed(events[i].content),
        blank(last_message) && never_said(events, ExternalCliProgressEventType::AssistantFinal)
            && never_said(events, ExternalCliProgressEventType::RunFinished) ==> answer_of(
            last_message,
            stdout,
            events,
        ) == trimmed(stdout),
{
    lemma_last_filled(events, ExternalCliProgressEventType::AssistantFinal, i);
    lemma_last_filled(events, ExternalCliProgressEventType::RunFinished, i);
}

/// What is shown of a run that did not succeed: its answer, else why it failed, else
/// what it complained of, else what it wrote, else how it ended.
pub proof fn lemma_failures_are_told(
    status: ExternalCliRunStatus,
    response: Seq<char>,
    stdout: Seq<char>,
    stderr: Seq<char>,
    events: Seq<EventView>,
    i: int,
)
    ensures
        status == ExternalCliRunStatus::Succeeded || !blank(response) ==> visible_answer(
            status,
            response,
            stdout,
            stderr,
            events,
        ) == response,
        status != ExternalCliRunStatus::Succeeded && blank(response) ==> {
            let shown = visible_answer(status, response, stdout, stderr, events);
            let failed = ExternalCliProgressEventType::RunFailed;
            &&& last_said(events, failed, i) ==> shown == trimmed(events[i].content)
            &&& never_said(events, failed) && !blank(stderr) ==> shown == trimmed(stderr)
            &&& never_said(events, failed) && blank(stderr) && !blank(stdout) ==> shown == trimmed(
                stdout,
            )
            &&& never_said(events, failed) && blank(stderr) && blank(stdout) ==> shown == (
            match status {
                ExternalCliRunStatus::Stopped => "External CLI run was stopped by request."@,
                ExternalCliRunStatus::TimedOut => "External CLI run timed out."@,
                _ => "External CLI run failed."@,
            })
        },
{
    lemma_last_filled(events, ExternalCliProgressEventType::RunFailed, i);
}

/// How a command ended is how its run ended.
pub proof fn lemma_ends_of_commands(code: Option<i32>, error: String)
    ensures
        outcome_status(CommandWaitOutcome::Exited { success: true, code })
            == ExternalCliRunStatus::Succeeded,
        outcome_status(CommandWaitOutcome::Exited { success: false, code })
            == ExternalCliRunStatus::Failed,
        outcome_status(CommandWaitOutcome::TimedOut) == ExternalCliRunStatus::TimedOut,
        outcome_status(CommandWaitOutcome::Stopped) == ExternalCliRunStatus::Stopped,
        outcome_status(CommandWaitOutcome::WaitFailed(error)) == ExternalCliRunStatus::Failed,
        terminal_line(CommandWaitOutcome::Exited { success: true, code }, None).len() == 0,
        terminal_line(CommandWaitOutcome::Exited { success: false, code }, None).len() == 0,
{
}

/// A run that was not stopped has the command's end, what it wrote and the events of
/// its output, and answers as one.
pub proof fn lemma_runs_report_their_commands(
    o: CommandOutput,
    stdout: Seq<char>,
    stderr: Seq<char>,
    last_message: Seq<char>,
)
    ensures
        ({
            let out = run_output(o, stdout, stderr, false, last_message);
            &&& out.status == o.status
            &&& out.exit_code == o.exit_code
            &&& out.stdout == o.stdout@
            &&& out.stderr == o.stderr@
            &&& o.events@.len() > 0 ==> out.events == crate::progress::event_views(o.events@)
            &&& o.events@.len() == 0 ==> out.events == crate::progress::events_of_lines(
                crate::text::text_lines(stdout),
            ).0
            &&& o.status == ExternalCliRunStatus::Succeeded ==> out.response == answer_of(
                last_message,
                stdout,
                out.events,
            )
            &&& out.responses == seq![out.response]
        }),
{
}

/// A failure of the web agent is told with its reason, and a stop as a stop.
pub proof fn lemma_failures_of_the_web_agent(error: Seq<char>, diagnostics: Option<Seq<char>>)
    ensures
        has_prefix(error, "stopped:"@) ==> chatgpt_failure(error, diagnostics).status
            == ExternalCliRunStatus::Stopped && chatgpt_failure(error, diagnostics).response
            == "ChatGPT Web run was stopped by request."@,
        !has_prefix(error, "stopped:"@) ==> chatgpt_failure(error, diagnostics).status
            == ExternalCliRunStatus::Failed && chatgpt_failure(error, diagnostics).response
            == "ChatGPT Web run failed: "@ + error && (diagnostics matches Some(p)
            ==> chatgpt_failure(error, diagnostics).metadata["failureDiagnostics"@] == p),
        chatgpt_failure(error, diagnostics).events.len() == 1,
        chatgpt_failure(error, diagnostics).events[0].event_type
            == ExternalCliProgressEventType::RunFailed,
        chatgpt_failure(error, diagnostics).events[0].content == chatgpt_failure(
            error,
            diagnostics,
        ).response,
{
}

/// A report that says something is what is shown of a run; without one the answer is
/// looked for in what the run left.
pub proof fn lemma_what_is_shown_of_runs(files: RunFiles)
    ensures
        files.report matches Some(report) ==> (!blank(report.0@) ==> shown_response(files)
            == report.0@),
        files.report is None ==> shown_response(files) == answer_of(
            files.last_message@,
            files.stdout@,
            crate::progress::event_views(files.events@),
        ),
{
}

/// A process that is gone is told by the words of the system, however they are
/// written.
pub proof fn lemma_missing_processes(text: Seq<char>)
    ensures
        has_text(lowered(text), "not found"@) ==> says_missing(text),
        has_text(lowered(text), "no running instance of the task"@) ==> says_missing(text),
        has_text(lowered(text), "cannot find the process"@) ==> says_missing(text),
        text.len() == 0 ==> !says_missing(text),
{
    reveal_strlit("not found");
    reveal_strlit("no running instance of the task");
    reveal_strlit("cannot find the process");
    assert("not found"@.len() == 9 && "no running instance of the task"@.len() == 31
        && "cannot find the process"@.len() == 23);
}

/// The first line with words is taken, from the first of two texts that has one.
pub proof fn lemma_first_lines(lines: Seq<Seq<char>>, i: int, a: Seq<char>, b: Seq<char>)
    ensures
        0 <= i < lines.len() && !blank(lines[i]) && (forall|j: int|
            0 <= j < i ==> blank(#[trigger] lines[j])) ==> first_filled(lines) == Some(
            trimmed(lines[i]),
        ),
        (forall|j: int| 0 <= j < lines.len() ==> blank(#[trigger] lines[j])) ==> first_filled(
            lines,
        ) is None,
        first_filled(crate::text::text_lines(a)) is Some ==> first_filled_of(a, b) == first_filled(
            crate::text::text_lines(a),
        ),
        first_filled(crate::text::text_lines(a)) is None ==> first_filled_of(a, b) == first_filled(
            crate::text::text_lines(b),
        ),
    decreases lines.len(),
{
    if lines.len() > 0 {
        let tail = lines.drop_first();
        if 0 < i < lines.len() && (forall|j: int| 0 <= j < i ==> blank(#[trigger] lines[j])) {
            assert(blank(lines[0]));
            assert forall|j: int| 0 <= j < i - 1 implies blank(#[trigger] tail[j]) by {
                assert(tail[j] == lines[j + 1]);
            }
            assert(tail[i - 1] == lines[i]);
        }
        if forall|j: int| 0 <= j < lines.len() ==> blank(#[trigger] lines[j]) {
            assert(blank(lines[0]));
            assert forall|j: int| 0 <= j < tail.len() implies blank(#[trigger] tail[j]) by {
                assert(tail[j] == lines[j + 1]);
            }
        }
        lemma_first_lines(tail, i - 1, a, b);
    }
}

/// The files of a run stand in its directory under names that differ.
pub proof fn lemma_files_of_runs(style: PathStyle, dir: Seq<char>)
    ensures
        artifacts_in(style, dir).run_dir == dir,
        artifacts_in(style, dir).prompt == below(style, dir, "prompt.md"@),
        artifacts_in(style, dir).command_snapshot == below(style, dir, "runtime_snapshot.json"@),
        artifacts_in(style, dir).stdout == below(style, dir, "cli.stdout.log"@),
        artifacts_in(style, dir).stderr == below(style, dir, "cli.stderr.log"@),
        artifacts_in(style, dir).normalized_events == below(
            style,
            dir,
            "normalized_events.jsonl"@,
        ),
        artifacts_in(style, dir).last_message == below(style, dir, "last_message.md"@),
{
}

/// Runs are named after when they started, and runs of one moment by what is unique
/// to them.
pub proof fn lemma_names_of_runs_differ(a: u64, b: u64, x: Seq<char>, y: Seq<char>)
    requires
        run_id_of(a, x) == run_id_of(b, y),
    ensures
        a == b,
        x == y,
{
    reveal_strlit("-");
    assert("-"@ =~= seq!['-']);
    lemma_no_hyphen(a as nat);
    lemma_no_hyphen(b as nat);
    crate::text_laws::lemma_splitting(decimal(a as nat), '-', x);
    crate::text_laws::lemma_splitting(decimal(b as nat), '-', y);
    crate::text_laws::lemma_numbers_are_read_back(a as nat, u64::MAX as nat);
    crate::text_laws::lemma_numbers_are_read_back(b as nat, u64::MAX as nat);
}

proof fn lemma_no_hyphen(n: nat)
    ensures
        !decimal(n).contains('-'),
    decreases n,
{
    if n >= 10 {
        lemma_no_hyphen(n / 10);
        let d = decimal(n);
        if d.contains('-') {
            let i = choose|i: int| 0 <= i < d.len() && d[i] == '-';
            if i < d.len() - 1 {
                assert(decimal(n / 10)[i] == '-');
            } else {
                assert(d[i] as u32 == 48 + n % 10);
            }
        }
    } else {
        let d = decimal(n);
        assert(d[0] as u32 == 48 + n);
    }
}

/// The run of a session is stopped; a session without one says so.
pub proof fn lemma_what_is_stopped(sessions: Map<Seq<char>, Seq<char>>, key: Seq<char>)
    ensures
        blank(key) ==> stop_target(sessions, key) == Err::<Seq<char>, Seq<char>>(
            "session_key cannot be empty"@,
        ),
        !blank(key) && sessions.contains_key(trimmed(key)) ==> stop_target(sessions, key) == Ok::<
            Seq<char>,
            Seq<char>,
        >(sessions[trimmed(key)]),
        !blank(key) && !sessions.contains_key(trimmed(key)) ==> stop_target(sessions, key) is Err,
{
}

/// The catalog of models is asked from the configured program, else from the adapter's
/// own.
pub proof fn lemma_catalog_programs(adapter: Seq<char>, c: crate::agent_config::AdapterConfigView)
    ensures
        c.executable is None ==> catalog_executable(adapter, c) == adapter,
        c.executable matches Some(e) ==> (!blank(e) ==> catalog_executable(adapter, c) == trimmed(
            e,
        )) && (blank(e) ==> catalog_executable(adapter, c) == adapter),
{
}

/// Digests are written with two digits for each byte, the higher one first.
pub proof fn lemma_digests(bytes: Seq<u8>, b: u8, raw: Tree)
    ensures
        hex_of(Seq::<u8>::empty()).len() == 0,
        hex_of(bytes.push(b)) == hex_of(bytes) + seq![hex_digit(b / 16), hex_digit(b % 16)],
        hex_digit(0) == '0',
        hex_digit(9) == '9',
        hex_digit(10) == 'a',
        hex_digit(15) == 'f',
        fingerprint_of(text_of_json(raw)) matches Some(f) ==> raw_digest_of(raw) == Some(
            "sha256:"@ + f,
        ),
{
    assert(bytes.push(b).drop_last() =~= bytes);
    assert(hex_of(bytes.push(b)) =~= hex_of(bytes) + seq![hex_digit(b / 16), hex_digit(b % 16)]);
}

/// The records of a run hold what its command, its agent and its model brought, and
/// the images that came with it.
pub proof fn lemma_records_of_a_run(
    m: crate::metadata::Records,
    input: crate::metadata::ExternalCliObservabilityInput,
    resolved: crate::model_config::ResolvedView,
    key: Seq<char>,
)
    requires
        key != "attachments.images"@,
    ensures
        ({
            let r = run_records(m, input, resolved);
            let adapter = input.request.adapter@;
            let events = crate::progress::event_views(input.events@);
            let under = crate::metadata::with_observations(
                crate::metadata::with_model_records(
                    crate::metadata::with_run_records(m, adapter, events),
                    adapter,
                    resolved,
                ),
                input,
            );
            &&& r.contains_key(key) == under.contains_key(key)
            &&& under.contains_key(key) ==> r[key] == under[key]
            &&& input.saved_images@.len() > 0 ==> r.contains_key("attachments.images"@)
                && r["attachments.images"@] == images_json(input.saved_images@)
        }),
{
}

/// The images of a run are recorded as a list of objects, in their order.
pub proof fn lemma_images_as_json(
    images: Seq<ExternalCliSavedImageAttachment>,
    image: ExternalCliSavedImageAttachment,
)
    ensures
        images_json(Seq::<ExternalCliSavedImageAttachment>::empty()) == "[]"@,
        images_json(seq![image]) == "["@ + image_json(image) + "]"@,
        has_text(image_json(image), text_of_json(Tree::Text(image.path@))),
        has_text(image_json(image), text_of_json(Tree::Text(image.mime_type@))),
        has_text(image_json(image), decimal(image.size_bytes as nat)),
        image.name is None ==> image_json(image) == "{\"path\":"@ + text_of_json(
            Tree::Text(image.path@),
        ) + ",\"mimeType\":"@ + text_of_json(Tree::Text(image.mime_type@)) + ",\"sizeBytes\":"@
            + decimal(image.size_bytes as nat) + "}"@,
{
    reveal_strlit("[");
    reveal_strlit("]");
    reveal_strlit("[]");
    let none = Seq::<ExternalCliSavedImageAttachment>::empty();
    assert(crate::runs::image_jsons(none) =~= Seq::<Seq<char>>::empty());
    assert(images_json(none) =~= "[]"@);
    assert(crate::runs::image_jsons(seq![image]) =~= seq![image_json(image)]);
    let j = image_json(image);
    let a = "{\"path\":"@;
    let p = text_of_json(Tree::Text(image.path@));
    let b = ",\"mimeType\":"@;
    let t = text_of_json(Tree::Text(image.mime_type@));
    let c = ",\"sizeBytes\":"@;
    let n = decimal(image.size_bytes as nat);
    let k = a.len() as int;
    assert(j.subrange(k, k + p.len()) =~= p);
    assert(crate::text::occurs_at(j, p, k));
    let k = (a + p + b).len() as int;
    assert(j.subrange(k, k + t.len()) =~= t);
    assert(crate::text::occurs_at(j, t, k));
    let k = (a + p + b + t + c).len() as int;
    assert(j.subrange(k, k + n.len()) =~= n);
    assert(crate::text::occurs_at(j, n, k));
    if image.name is None {
        assert(j =~= a + p + b + t + c + n + "}"@);
    }
}

/// What is written of a command that did not end by itself.
pub proof fn lemma_last_lines(code: Option<i32>, secs: u64, error: String)
    ensures
        terminal_line(CommandWaitOutcome::TimedOut, Some(secs)) == vstd::utf8::encode_utf8(
            "external cli timed out after "@ + decimal(secs as nat) + " seconds\n"@,
        ),
        terminal_line(CommandWaitOutcome::TimedOut, None) == vstd::utf8::encode_utf8(
            "external cli timed out after "@ + decimal(0) + " seconds\n"@,
        ),
        terminal_line(CommandWaitOutcome::Stopped, Some(secs)) == vstd::utf8::encode_utf8(
            "external cli stopped by request\n"@,
        ),
        terminal_line(CommandWaitOutcome::WaitFailed(error), Some(secs)).len() == 0,
{
}

/// A run that was stopped says so and nothing else, whatever its command gave.
pub proof fn lemma_runs_that_were_stopped(
    o: CommandOutput,
    stdout: Seq<char>,
    stderr: Seq<char>,
    last_message: Seq<char>,
)
    ensures
        ({
            let out = run_output(o, stdout, stderr, true, last_message);
            &&& out.status == ExternalCliRunStatus::Stopped
            &&& out.exit_code is None
            &&& out.stdout == o.stdout@
            &&& out.stderr == o.stderr@
            &&& out.events.len() == 1
            &&& out.events[0].event_type == ExternalCliProgressEventType::RunFailed
            &&& out.events[0].content == "External CLI run was stopped by request."@
            &&& out.events[0].title == Some("Stopped"@)
            &&& member(out.events[0].raw, "type"@) == Some(Tree::Text("run_stopped"@))
        }),
{
    reveal_with_fuel(crate::json::find_member, 2);
}

/// What is told of a run of the web agent that failed or was stopped.
pub proof fn lemma_events_of_the_web_agent(error: Seq<char>, diagnostics: Option<Seq<char>>)
    ensures
        ({
            let out = chatgpt_failure(error, diagnostics);
            let stopped = has_prefix(error, "stopped:"@);
            let raw = out.events[0].raw;
            &&& out.stdout.len() == 0
            &&& out.stderr == vstd::utf8::encode_utf8(error)
            &&& out.exit_code is None
            &&& out.responses == seq![out.response]
            &&& stopped ==> out.events[0].title == Some("Stopped"@) && member(raw, "type"@) == Some(
                Tree::Text("run_stopped"@),
            )
            &&& !stopped ==> out.events[0].title == Some("Failed"@) && member(raw, "type"@) == Some(
                Tree::Text("run_failed"@),
            ) && member(raw, "adapter"@) == Some(Tree::Text("chatgpt_web"@)) && member(raw, "error"@)
                == Some(Tree::Text(error))
        }),
{
    reveal_strlit("type");
    reveal_strlit("adapter");
    reveal_strlit("error");
    assert("type"@.len() == 4 && "adapter"@.len() == 7 && "error"@.len() == 5);
    reveal_with_fuel(crate::json::find_member, 4);
}

/// A session without a run cannot be stopped, and that is said with its name.
pub proof fn lemma_nothing_to_stop(sessions: Map<Seq<char>, Seq<char>>, key: Seq<char>)
    requires
        !blank(key),
        !sessions.contains_key(trimmed(key)),
    ensures
        stop_target(sessions, key) == Err::<Seq<char>, Seq<char>>(
            "no active external cli run for session '"@ + trimmed(key) + "'"@,
        ),
{
}

/// A report without words shows what the run itself left.
pub proof fn lemma_blank_reports(files: RunFiles)
    requires
        files.report matches Some(report) && blank(report.0@),
    ensures
        shown_response(files) == answer_of(
            files.last_message@,
            files.stdout@,
            crate::progress::event_views(files.events@),
        ),
{
}

/// Images with a name are recorded with it.
pub proof fn lemma_named_images(image: ExternalCliSavedImageAttachment)
    ensures
        opt(image.name) matches Some(n) ==> image_json(image) == "{\"path\":"@ + text_of_json(
            Tree::Text(image.path@),
        ) + ",\"mimeType\":"@ + text_of_json(Tree::Text(image.mime_type@)) + ",\"sizeBytes\":"@
            + decimal(image.size_bytes as nat) + (",\"name\":"@ + text_of_json(Tree::Text(n)))
            + "}"@,
{
}

/// A worker that was stopped reports a run of its own that took no time.
pub proof fn lemma_workers_that_were_stopped(
    r: crate::runs::ExternalCliRunResult,
    now: u64,
)
    requires
        crate::runs::reports_stop(r, now),
    ensures
        r.run_id@ == "stopped-"@ + decimal(now as nat),
        r.status == ExternalCliRunStatus::Stopped,
        r.response@ == "External runner worker was stopped by request."@,
        r.started_at == now,
        r.finished_at == now,
        r.duration_ms == 0,
        crate::progress::event_views(r.events@).len() == 1,
        crate::progress::event_views(r.events@)[0].event_type
            == ExternalCliProgressEventType::RunFailed,
        crate::progress::event_views(r.events@)[0].content == r.response@,
        member(crate::progress::event_views(r.events@)[0].raw, "type"@) == Some(
            Tree::Text("worker_stopped"@),
        ),
{
    reveal_with_fuel(crate::json::find_member, 2);
}

} // verus!
