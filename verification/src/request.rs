//! What a run of an external command-line agent is asked to do.

use vstd::prelude::*;
use vstd::string::*;

use crate::agent_config::{
    clean_optional_string, cleaned, unset_config, ExternalCliAdapterConfig, CHATGPT_WEB_ADAPTER,
    DEFAULT_ADAPTER, DEFAULT_RUNTIME,
};
use crate::gateway_config::ExternalCliAgentSettings;
use crate::json::{first_of, member, opt_str, tree_text, Json, Tree};
use crate::models::fault_of;
use crate::paths::{
    absolute, below, clean_name, climbs, has_parent_component, is_absolute, join_path, last_name,
    lemma_directories_stay_apart, lemma_names_below, lemma_names_stay_apart, lies_below,
    path_file_name, path_starts_with, plain_start, PathStyle,
};
use crate::progress::or_text;
use crate::text::{
    blank, concat2, concat3, contains, copy_opt, copy_texts, decimal, decimal_text, has_prefix,
    has_text, lowered, opt, owned, same, split_at_first, split_once, starts_with, strip_prefix,
    texts, to_lower, trim, trimmed,
};

verus! {

broadcast use vstd::string::group_string_axioms;

/// An image that comes with a message, as base64 text or a data URL.
#[derive(Debug, PartialEq, Eq)]
pub struct ExternalCliImageInput {
    pub mime_type: String,
    pub data: String,
    pub name: Option<String>,
}

/// An image that has been written to disk.
#[derive(Debug, PartialEq, Eq)]
pub struct ExternalCliSavedImageAttachment {
    pub path: String,
    pub mime_type: String,
    pub size_bytes: u64,
    pub name: Option<String>,
}

/// A request to run an external command-line agent.
#[derive(Debug, PartialEq, Eq)]
pub struct ExternalCliRunRequest {
    pub message: String,
    pub images: Vec<ExternalCliImageInput>,
    pub operation: String,
    pub params: Json,
    pub provider_id: Option<String>,
    pub runner_id: Option<String>,
    pub session_key: Option<String>,
    pub runtime: String,
    pub adapter: String,
    pub work_dir: Option<String>,
    pub instructions: Option<String>,
    pub adapter_config: ExternalCliAdapterConfig,
    pub allow_work_dirs: Vec<String>,
    pub inject_bifrost_tools: bool,
    pub skill_paths: Vec<String>,
}

// ---------------------------------------------------------------------------
// Requests and settings
// ---------------------------------------------------------------------------

/// A request that asks a runner as it is set up.
pub fn run_request_from_settings(
    message: &str,
    provider_id: Option<String>,
    session_key: Option<String>,
    settings: &ExternalCliAgentSettings,
) -> (r: ExternalCliRunRequest)
    ensures
        r.message@ == message@,
        r.images@.len() == 0,
        r.operation@ == "ask"@,
        r.params@ == Tree::Null,
        r.provider_id == provider_id,
        r.runner_id is None,
        r.session_key == session_key,
        r.runtime@ == DEFAULT_RUNTIME@,
        r.adapter@ == settings@.adapter,
        r.work_dir is None,
        opt(r.instructions) == settings@.instructions,
        r.adapter_config@ == settings@.adapter_config,
        r.allow_work_dirs@.len() == 0,
        r.inject_bifrost_tools == settings@.inject_bifrost_tools,
        texts(r.skill_paths@) == settings@.skill_paths,
{
    ExternalCliRunRequest {
        message: owned(message),
        images: Vec::new(),
        operation: owned("ask"),
        params: Json::Null,
        provider_id,
        runner_id: None,
        session_key,
        runtime: owned(DEFAULT_RUNTIME),
        adapter: settings.adapter.clone(),
        work_dir: None,
        instructions: copy_opt(&settings.instructions),
        adapter_config: settings.adapter_config.copy(),
        allow_work_dirs: Vec::new(),
        inject_bifrost_tools: settings.inject_bifrost_tools,
        skill_paths: copy_texts(&settings.skill_paths),
    }
}

/// Fills what a request leaves open from the settings of a runner. A request
/// cannot switch off the tools that the runner brings along.
pub fn merge_run_request_with_settings(
    request: ExternalCliRunRequest,
    settings: &ExternalCliAgentSettings,
) -> (r: ExternalCliRunRequest)
    ensures
        r.adapter@ == (if request.adapter@ == DEFAULT_ADAPTER@ {
            settings@.adapter
        } else {
            request.adapter@
        }),
        opt(r.instructions) == first_of(opt(request.instructions), settings@.instructions),
        r.adapter_config@ == (if request.adapter_config@ == unset_config() {
            settings@.adapter_config
        } else {
            request.adapter_config@
        }),
        r.inject_bifrost_tools == (request.inject_bifrost_tools || settings@.inject_bifrost_tools),
        texts(r.skill_paths@) == (if request.skill_paths@.len() == 0 {
            settings@.skill_paths
        } else {
            texts(request.skill_paths@)
        }),
        r.message == request.message,
        r.images == request.images,
        r.operation == request.operation,
        r.params == request.params,
        r.provider_id == request.provider_id,
        r.runner_id == request.runner_id,
        r.session_key == request.session_key,
        r.runtime == request.runtime,
        r.work_dir == request.work_dir,
        r.allow_work_dirs == request.allow_work_dirs,
{
    let mut request = request;
    if same(request.adapter.as_str(), DEFAULT_ADAPTER) {
        request.adapter = settings.adapter.clone();
    }
    if request.instructions.is_none() {
        request.instructions = copy_opt(&settings.instructions);
    }
    if request.adapter_config.is_unset() {
        request.adapter_config = settings.adapter_config.copy();
    }
    if !request.inject_bifrost_tools {
        request.inject_bifrost_tools = settings.inject_bifrost_tools;
    }
    if request.skill_paths.len() == 0 {
        request.skill_paths = copy_texts(&settings.skill_paths);
    }
    request
}

// ---------------------------------------------------------------------------
// Checking a request
// ---------------------------------------------------------------------------

/// Whether an operation needs something to say.
pub open spec fn needs_message(operation: Seq<char>) -> bool {
    let o = trimmed(operation);
    o.len() == 0 || o == "ask"@ || o == "create"@ || o == "send"@
}

/// Whether an image has data.
pub open spec fn has_data(image: ExternalCliImageInput) -> bool {
    !blank(image.data@)
}

pub open spec fn has_image(images: Seq<ExternalCliImageInput>) -> bool {
    exists|i: int| 0 <= i < images.len() && has_data(#[trigger] images[i])
}

/// Why a request cannot be run, if it cannot.
pub open spec fn request_fault(r: ExternalCliRunRequest) -> Option<Seq<char>> {
    if blank(r.runtime@) {
        Some("runtime cannot be empty"@)
    } else if r.runtime@ != DEFAULT_RUNTIME@ {
        Some(
            "unsupported runtime '"@ + r.runtime@ + "'; currently supported runtime is '"@
                + DEFAULT_RUNTIME@ + "'"@,
        )
    } else if blank(r.adapter@) {
        Some("adapter cannot be empty"@)
    } else if needs_message(r.operation@) && blank(r.message@) && !has_image(r.images@) {
        Some("message cannot be empty"@)
    } else {
        None
    }
}

fn any_image(images: &Vec<ExternalCliImageInput>) -> (r: bool)
    ensures
        r == has_image(images@),
{
    let mut i: usize = 0;
    while i < images.len()
        invariant
            i <= images@.len(),
            forall|k: int| 0 <= k < i ==> !has_data(#[trigger] images@[k]),
        decreases images@.len() - i,
    {
        if !trim(images[i].data.as_str()).is_empty() {
            proof {
                assert(has_data(images@[i as int]));
            }
            return true;
        }
        i = i + 1;
    }
    false
}

/// Checks a request before it is run.
pub fn validate_run_request(request: &ExternalCliRunRequest) -> (r: Result<(), String>)
    ensures
        fault_of(r) == request_fault(*request),
{
    if trim(request.runtime.as_str()).is_empty() {
        return Err(owned("runtime cannot be empty"));
    }
    if !same(request.runtime.as_str(), DEFAULT_RUNTIME) {
        let mut text = concat3(
            "unsupported runtime '",
            request.runtime.as_str(),
            "'; currently supported runtime is '",
        );
        text.append(DEFAULT_RUNTIME);
        text.append("'");
        return Err(text);
    }
    if trim(request.adapter.as_str()).is_empty() {
        return Err(owned("adapter cannot be empty"));
    }
    let operation = trim(request.operation.as_str());
    let needed = operation.is_empty() || same(operation, "ask") || same(operation, "create")
        || same(operation, "send");
    if needed && trim(request.message.as_str()).is_empty() && !any_image(&request.images) {
        return Err(owned("message cannot be empty"));
    }
    Ok(())
}

/// Whether a text can name the directory of a run: it stays inside the directory
/// of all runs.
pub open spec fn is_run_id(id: Seq<char>) -> bool {
    id.len() > 0 && !has_text(id, "/"@) && !has_text(id, "\\"@) && !has_text(id, ".."@)
        && !has_prefix(id, "."@)
}

/// Checks the identifier of a run.
pub fn validate_run_id(run_id: &str) -> (r: Result<(), String>)
    ensures
        fault_of(r) == (if is_run_id(run_id@) {
            None
        } else {
            Some("invalid run_id"@)
        }),
{
    if run_id.is_empty() || contains(run_id, "/") || contains(run_id, "\\") || contains(
        run_id,
        "..",
    ) || starts_with(run_id, ".") {
        return Err(owned("invalid run_id"));
    }
    Ok(())
}

/// Whether some directory of a list holds a path.
pub open spec fn below_any(style: PathStyle, path: Seq<char>, dirs: Seq<Seq<char>>) -> bool {
    exists|i: int| 0 <= i < dirs.len() && #[trigger] lies_below(style, path, dirs[i])
}

fn is_below_any(style: PathStyle, path: &str, dirs: &Vec<String>) -> (r: bool)
    ensures
        r == below_any(style, path@, texts(dirs@)),
{
    let ghost all = texts(dirs@);
    let mut i: usize = 0;
    while i < dirs.len()
        invariant
            i <= dirs@.len(),
            all == texts(dirs@),
            forall|k: int| 0 <= k < i ==> !(#[trigger] lies_below(style, path@, all[k])),
        decreases dirs@.len() - i,
    {
        proof {
            assert(all[i as int] == dirs@[i as int]@);
        }
        if path_starts_with(style, path, dirs[i].as_str()) {
            return true;
        }
        i = i + 1;
    }
    false
}

/// Why a request may not run in its directory, if it may not. `resolved` is the
/// directory with all links followed, if it exists, and `allowed` holds those of
/// the allowed directories that exist, in the same form.
pub open spec fn work_dir_fault(
    style: PathStyle,
    r: ExternalCliRunRequest,
    resolved: Option<Seq<char>>,
    allowed: Seq<Seq<char>>,
) -> Option<Seq<char>> {
    match (r.work_dir, resolved) {
        (Some(dir), Some(path)) => if r.allow_work_dirs@.len() == 0 || below_any(
            style,
            path,
            allowed,
        ) {
            None
        } else {
            Some("work_dir '"@ + dir@ + "' is outside allowWorkDirs"@)
        },
        _ => None,
    }
}

/// Checks the directory of a request against the allowed ones. A directory that
/// does not exist is left to the start of the command to report.
pub fn validate_work_dir(
    style: PathStyle,
    request: &ExternalCliRunRequest,
    resolved: Option<&str>,
    allowed: &Vec<String>,
) -> (r: Result<(), String>)
    ensures
        fault_of(r) == work_dir_fault(style, *request, opt_str(resolved), texts(allowed@)),
{
    match &request.work_dir {
        None => Ok(()),
        Some(dir) => {
            if request.allow_work_dirs.len() == 0 {
                return Ok(());
            }
            match resolved {
                None => Ok(()),
                Some(path) => if is_below_any(style, path, allowed) {
                    Ok(())
                } else {
                    Err(concat3("work_dir '", dir.as_str(), "' is outside allowWorkDirs"))
                },
            }
        },
    }
}

// ---------------------------------------------------------------------------
// Skills and the prompt
// ---------------------------------------------------------------------------

/// Whether a skill may be read: a path that does not climb, and is relative or
/// lies below the working directory, an allowed directory or the directory of
/// skills.
pub open spec fn skill_allowed(
    style: PathStyle,
    path: Seq<char>,
    work_dir: Option<Seq<char>>,
    allowed: Seq<Seq<char>>,
    agents_dir: Seq<char>,
) -> bool {
    !climbs(style, path) && (!absolute(style, path) || (work_dir matches Some(d) && lies_below(
        style,
        path,
        d,
    )) || below_any(style, path, allowed) || lies_below(style, path, agents_dir))
}

/// Decides whether a skill may be read.
pub fn is_skill_path_allowed(
    style: PathStyle,
    skill_path: &str,
    work_dir: Option<&str>,
    allow_work_dirs: &Vec<String>,
    agents_dir: &str,
) -> (r: bool)
    ensures
        r == skill_allowed(
            style,
            skill_path@,
            opt_str(work_dir),
            texts(allow_work_dirs@),
            agents_dir@,
        ),
{
    if has_parent_component(style, skill_path) {
        return false;
    }
    if !is_absolute(style, skill_path) {
        return true;
    }
    match work_dir {
        Some(d) => {
            if path_starts_with(style, skill_path, d) {
                return true;
            }
        },
        None => {},
    }
    if is_below_any(style, skill_path, allow_work_dirs) {
        return true;
    }
    path_starts_with(style, skill_path, agents_dir)
}

/// A skill that has been read: where it stands and what it says.
#[derive(Debug, PartialEq, Eq)]
pub struct SkillText {
    pub path: String,
    pub content: String,
}

pub open spec fn skill_section(skill: SkillText) -> Seq<char> {
    match cleaned(Some(skill.content@)) {
        Some(content) => "## Skill: "@ + skill.path@ + "\n\n"@ + content + "\n\n"@,
        None => Seq::empty(),
    }
}

pub open spec fn skill_sections(skills: Seq<SkillText>) -> Seq<char>
    decreases skills.len(),
{
    if skills.len() == 0 {
        Seq::empty()
    } else {
        skill_sections(skills.drop_last()) + skill_section(skills.last())
    }
}

pub open spec fn image_line(number: nat, image: ExternalCliSavedImageAttachment) -> Seq<char> {
    decimal(number) + ". `"@ + image.path@ + "` (mime_type: "@ + image.mime_type@
        + ", size_bytes: "@ + decimal(image.size_bytes as nat) + ")\n"@
}

pub open spec fn image_lines(images: Seq<ExternalCliSavedImageAttachment>) -> Seq<char>
    decreases images.len(),
{
    if images.len() == 0 {
        Seq::empty()
    } else {
        image_lines(images.drop_last()) + image_line(images.len(), images.last())
    }
}

pub open spec fn instruction_section(instructions: Option<Seq<char>>) -> Seq<char> {
    match cleaned(instructions) {
        Some(i) => i + "\n\n"@,
        None => Seq::empty(),
    }
}

pub open spec fn tool_section(wanted: bool) -> Seq<char> {
    if wanted {
        "## Bifrost Tool Context\n\n- You are being invoked by Bifrost IM Gateway through an external CLI adapter.\n- Prefer the local `bifrost` CLI for Bifrost proxy, traffic, rule, IM, and remote-invoke operations when the requested task needs those capabilities.\n- Keep filesystem work inside the configured working directory and allowed extra directories.\n\n"@
    } else {
        Seq::empty()
    }
}

pub open spec fn image_section(images: Seq<ExternalCliSavedImageAttachment>) -> Seq<char> {
    if images.len() == 0 {
        Seq::empty()
    } else {
        "## Attached Images\n\nThe user pasted the following local image files. Use these paths when you need to inspect or reason about the images.\n\n"@
            + image_lines(images) + "\n"@
    }
}

/// The prompt of a run: instructions, a word on the tools at hand, skills,
/// images and the message.
pub open spec fn prompt_of(
    r: ExternalCliRunRequest,
    skills: Seq<SkillText>,
    images: Seq<ExternalCliSavedImageAttachment>,
) -> Seq<char> {
    instruction_section(opt(r.instructions)) + tool_section(
        r.inject_bifrost_tools && r.adapter@ != CHATGPT_WEB_ADAPTER@,
    ) + skill_sections(skills) + image_section(images) + trimmed(r.message@) + "\n"@
}

fn skill_sections_text(skills: &Vec<SkillText>) -> (r: String)
    ensures
        r@ == skill_sections(skills@),
{
    let mut out = String::new();
    let mut i: usize = 0;
    proof {
        assert(skills@.take(0) =~= Seq::empty());
    }
    while i < skills.len()
        invariant
            i <= skills@.len(),
            out@ == skill_sections(skills@.take(i as int)),
        decreases skills@.len() - i,
    {
        let skill = &skills[i];
        let ghost before = out@;
        match clean_optional_string(Some(skill.content.as_str())) {
            Some(content) => {
                let mut section = concat3("## Skill: ", skill.path.as_str(), "\n\n");
                section.append(content.as_str());
                section.append("\n\n");
                out.append(section.as_str());
            },
            None => {},
        }
        proof {
            assert(skills@.take(i + 1).drop_last() =~= skills@.take(i as int));
            assert(skills@.take(i + 1).last() == *skill);
            assert(out@ =~= before + skill_section(*skill));
        }
        i = i + 1;
    }
    proof {
        assert(skills@.take(i as int) =~= skills@);
    }
    out
}

fn image_lines_text(images: &Vec<ExternalCliSavedImageAttachment>) -> (r: String)
    ensures
        r@ == image_lines(images@),
{
    let mut out = String::new();
    let mut i: usize = 0;
    proof {
        assert(images@.take(0) =~= Seq::empty());
    }
    while i < images.len()
        invariant
            i <= images@.len(),
            out@ == image_lines(images@.take(i as int)),
        decreases images@.len() - i,
    {
        let image = &images[i];
        let number = decimal_text(i as u64 + 1);
        let size = decimal_text(image.size_bytes);
        let mut line = concat3(number.as_str(), ". `", image.path.as_str());
        line.append("` (mime_type: ");
        line.append(image.mime_type.as_str());
        line.append(", size_bytes: ");
        line.append(size.as_str());
        line.append(")\n");
        out.append(line.as_str());
        proof {
            assert(images@.take(i + 1).drop_last() =~= images@.take(i as int));
            assert(images@.take(i + 1).last() == *image);
        }
        i = i + 1;
    }
    proof {
        assert(images@.take(i as int) =~= images@);
    }
    out
}

/// Writes the prompt of a run. `skills` are those that may be read, in the order
/// of the request.
pub fn build_prompt(
    request: &ExternalCliRunRequest,
    skills: &Vec<SkillText>,
    saved_images: &Vec<ExternalCliSavedImageAttachment>,
) -> (r: String)
    ensures
        r@ == prompt_of(*request, skills@, saved_images@),
{
    let instructions = match &request.instructions {
        Some(i) => clean_optional_string(Some(i.as_str())),
        None => None,
    };
    let mut out = match instructions {
        Some(i) => concat2(i.as_str(), "\n\n"),
        None => String::new(),
    };
    let ghost a = out@;
    if request.inject_bifrost_tools && !same(request.adapter.as_str(), CHATGPT_WEB_ADAPTER) {
        out.append(
            "## Bifrost Tool Context\n\n- You are being invoked by Bifrost IM Gateway through an external CLI adapter.\n- Prefer the local `bifrost` CLI for Bifrost proxy, traffic, rule, IM, and remote-invoke operations when the requested task needs those capabilities.\n- Keep filesystem work inside the configured working directory and allowed extra directories.\n\n",
        );
    } else {
        proof {
            assert(a + Seq::<char>::empty() =~= a);
        }
    }
    let skill_text = skill_sections_text(skills);
    out.append(skill_text.as_str());
    let ghost b = out@;
    if saved_images.len() > 0 {
        let lines = image_lines_text(saved_images);
        let section = concat3(
            "## Attached Images\n\nThe user pasted the following local image files. Use these paths when you need to inspect or reason about the images.\n\n",
            lines.as_str(),
            "\n",
        );
        out.append(section.as_str());
    } else {
        proof {
            assert(b + Seq::<char>::empty() =~= b);
        }
    }
    out.append(trim(request.message.as_str()));
    out.append("\n");
    out
}

// ---------------------------------------------------------------------------
// Images
// ---------------------------------------------------------------------------

/// The images that are taken along: the first six that have data.
pub open spec fn taken_images(images: Seq<ExternalCliImageInput>) -> Seq<int>
    decreases images.len(),
{
    if images.len() == 0 {
        Seq::empty()
    } else {
        let before = taken_images(images.drop_last());
        if has_data(images.last()) && before.len() < 6 {
            before.push(images.len() - 1)
        } else {
            before
        }
    }
}

/// Picks the images that are taken along, by their places.
pub fn select_images(images: &Vec<ExternalCliImageInput>) -> (r: Vec<usize>)
    ensures
        r@.map_values(|i: usize| i as int) == taken_images(images@),
        forall|k: int| 0 <= k < r@.len() ==> (#[trigger] r@[k]) < images@.len(),
{
    let mut out: Vec<usize> = Vec::new();
    let mut i: usize = 0;
    proof {
        assert(images@.take(0) =~= Seq::empty());
        assert(out@.map_values(|i: usize| i as int) =~= taken_images(images@.take(0)));
    }
    while i < images.len()
        invariant
            i <= images@.len(),
            out@.map_values(|i: usize| i as int) == taken_images(images@.take(i as int)),
            forall|k: int| 0 <= k < out@.len() ==> (#[trigger] out@[k]) < images@.len(),
        decreases images@.len() - i,
    {
        let ghost before = out@;
        proof {
            assert(images@.take(i + 1).drop_last() =~= images@.take(i as int));
            assert(images@.take(i + 1).last() == images@[i as int]);
            assert(out@.map_values(|i: usize| i as int).len() == out@.len());
        }
        if out.len() < 6 && !trim(images[i].data.as_str()).is_empty() {
            out.push(i);
            proof {
                assert(out@.map_values(|i: usize| i as int) =~= before.map_values(
                    |i: usize| i as int,
                ).push(i as int));
            }
        }
        i = i + 1;
    }
    proof {
        assert(images@.take(i as int) =~= images@);
    }
    out
}

/// What `base64` reads from a text in its standard alphabet with padding: bytes,
/// or the text of its error.
pub uninterp spec fn base64_decoded(text: Seq<char>) -> Result<Seq<u8>, Seq<char>>;

/// `decode` of `base64::engine::general_purpose::STANDARD`: bytes, or the error
/// as text. Either depends on the text alone.
#[verifier::external_body]
pub(crate) fn decode_base64(text: &str) -> (r: Result<Vec<u8>, String>)
    ensures
        (match r {
            Ok(bytes) => Ok::<Seq<u8>, Seq<char>>(bytes@),
            Err(e) => Err(e@),
        }) == base64_decoded(text@),
{
    base64::Engine::decode(&base64::engine::general_purpose::STANDARD, text)
        .map_err(|error| error.to_string())
}

/// The base64 text of an image: what follows the comma of a data URL, else all
/// of it.
pub open spec fn image_payload(data: Seq<char>) -> Seq<char> {
    let t = trimmed(data);
    if has_prefix(t, "data:"@) {
        match split_at_first(t.skip("data:"@.len() as int), ","@) {
            Some((_, payload)) => payload,
            None => t,
        }
    } else {
        t
    }
}

pub open spec fn image_bytes_of(data: Seq<char>) -> Result<Seq<u8>, Seq<char>> {
    match base64_decoded(image_payload(data)) {
        Ok(bytes) => Ok(bytes),
        Err(e) => Err("decode image attachment failed: "@ + e),
    }
}

/// Finds the base64 text of an image.
pub fn image_data_payload<'a>(data: &'a str) -> (r: &'a str)
    ensures
        r@ == image_payload(data@),
{
    let t = trim(data);
    match strip_prefix(t, "data:") {
        Some(rest) => match split_once(rest, ",") {
            Some((_, payload)) => payload,
            None => t,
        },
        None => t,
    }
}

/// Reads the bytes of an image.
pub fn decode_image_data(data: &str) -> (r: Result<Vec<u8>, String>)
    ensures
        (match r {
            Ok(bytes) => Ok::<Seq<u8>, Seq<char>>(bytes@),
            Err(e) => Err(e@),
        }) == image_bytes_of(data@),
{
    match decode_base64(image_data_payload(data)) {
        Ok(bytes) => Ok(bytes),
        Err(e) => Err(concat2("decode image attachment failed: ", e.as_str())),
    }
}

pub open spec fn extension_of(mime_type: Seq<char>) -> Seq<char> {
    let t = lowered(trimmed(mime_type));
    if t == "image/jpeg"@ || t == "image/jpg"@ {
        "jpg"@
    } else if t == "image/webp"@ {
        "webp"@
    } else if t == "image/gif"@ {
        "gif"@
    } else if t == "image/png"@ {
        "png"@
    } else {
        "img"@
    }
}

/// The file name extension of an image.
pub fn image_extension(mime_type: &str) -> (r: &'static str)
    ensures
        r@ == extension_of(mime_type@),
{
    let lower = to_lower(trim(mime_type));
    let t = lower.as_str();
    if same(t, "image/jpeg") || same(t, "image/jpg") {
        "jpg"
    } else if same(t, "image/webp") {
        "webp"
    } else if same(t, "image/gif") {
        "gif"
    } else if same(t, "image/png") {
        "png"
    } else {
        "img"
    }
}

/// The directory for attachments that a request names, if it can be trusted: an
/// absolute path below the directory of sessions that does not climb.
pub open spec fn trusted_base(
    style: PathStyle,
    params: Tree,
    sessions_root: Seq<char>,
) -> Option<Seq<char>> {
    match cleaned(
        tree_text(
            first_of(member(params, "attachmentBaseDir"@), member(params, "attachment_base_dir"@)),
        ),
    ) {
        Some(path) => if absolute(style, path) && !climbs(style, path) && lies_below(
            style,
            path,
            sessions_root,
        ) {
            Some(path)
        } else {
            None
        },
        None => None,
    }
}

/// Finds the directory for attachments that a request may name.
pub fn trusted_session_attachment_base_dir(
    style: PathStyle,
    request: &ExternalCliRunRequest,
    sessions_root: &str,
) -> (r: Option<String>)
    ensures
        opt(r) == trusted_base(style, request.params@, sessions_root@),
{
    let found = match request.params.get("attachmentBaseDir") {
        Some(v) => Some(v),
        None => request.params.get("attachment_base_dir"),
    };
    let value = match found {
        Some(v) => clean_optional_string(v.as_str()),
        None => None,
    };
    match value {
        Some(path) => if is_absolute(style, path.as_str()) && !has_parent_component(
            style,
            path.as_str(),
        ) && path_starts_with(style, path.as_str(), sessions_root) {
            Some(path)
        } else {
            None
        },
        None => None,
    }
}

/// The directory that the images of a run go to.
pub open spec fn images_dir(
    style: PathStyle,
    params: Tree,
    sessions_root: Seq<char>,
    run_dir: Seq<char>,
) -> Seq<char> {
    let base = match trusted_base(style, params, sessions_root) {
        Some(b) => below(style, b, or_text(last_name(style, run_dir), "run"@)),
        None => below(style, run_dir, "attachments"@),
    };
    below(style, base, "images"@)
}

/// Works out the directory that the images of a run go to.
pub fn image_attachment_dir(
    style: PathStyle,
    request: &ExternalCliRunRequest,
    sessions_root: &str,
    run_dir: &str,
) -> (r: String)
    ensures
        r@ == images_dir(style, request.params@, sessions_root@, run_dir@),
{
    let base = match trusted_session_attachment_base_dir(style, request, sessions_root) {
        Some(b) => {
            let name = match path_file_name(style, run_dir) {
                Some(n) => n,
                None => owned("run"),
            };
            join_path(style, b.as_str(), name.as_str())
        },
        None => join_path(style, run_dir, "attachments"),
    };
    join_path(style, base.as_str(), "images")
}

/// The path of the image that is taken along at some place.
pub open spec fn image_path(
    style: PathStyle,
    dir: Seq<char>,
    index: nat,
    mime_type: Seq<char>,
) -> Seq<char> {
    below(style, dir, "image-"@ + decimal(index + 1) + "."@ + extension_of(mime_type))
}

/// Works out where an image goes.
pub fn image_attachment_path(
    style: PathStyle,
    dir: &str,
    index: usize,
    mime_type: &str,
) -> (r: String)
    requires
        index < usize::MAX,
    ensures
        r@ == image_path(style, dir@, index as nat, mime_type@),
{
    let number = decimal_text(index as u64 + 1);
    let mut name = concat3("image-", number.as_str(), ".");
    name.append(image_extension(mime_type));
    join_path(style, dir, name.as_str())
}

/// A trusted directory for attachments never leads out of the directory of
/// sessions.
pub proof fn lemma_trusted_base_is_inside(style: PathStyle, params: Tree, sessions_root: Seq<char>)
    requires
        trusted_base(style, params, sessions_root) is Some,
    ensures
        lies_below(style, trusted_base(style, params, sessions_root)->Some_0, sessions_root),
        !climbs(style, trusted_base(style, params, sessions_root)->Some_0),
{
}

/// Two runs keep their images in two directories, so that neither overwrites an
/// image of the other. The directories that theirs lie in are written for POSIX or
/// stand on a drive.
pub proof fn lemma_runs_keep_images_apart(
    style: PathStyle,
    params: Tree,
    sessions_root: Seq<char>,
    runs_root: Seq<char>,
    first: Seq<char>,
    second: Seq<char>,
)
    requires
        clean_name(first),
        clean_name(second),
        first != second,
        plain_start(style, runs_root),
        trusted_base(style, params, sessions_root) matches Some(b) ==> plain_start(style, b),
    ensures
        images_dir(style, params, sessions_root, below(style, runs_root, first)) != images_dir(
            style,
            params,
            sessions_root,
            below(style, runs_root, second),
        ),
{
    let one = below(style, runs_root, first);
    let two = below(style, runs_root, second);
    lemma_own_names_are_clean();
    lemma_names_below(style, runs_root, first);
    lemma_names_below(style, runs_root, second);
    let (a, b) = match trusted_base(style, params, sessions_root) {
        Some(base) => {
            lemma_names_below(style, base, first);
            lemma_names_below(style, base, second);
            lemma_names_stay_apart(style, base, first, second);
            (below(style, base, first), below(style, base, second))
        },
        None => {
            lemma_names_below(style, one, "attachments"@);
            lemma_names_below(style, two, "attachments"@);
            lemma_names_stay_apart(style, runs_root, first, second);
            lemma_directories_stay_apart(style, one, two, "attachments"@);
            (below(style, one, "attachments"@), below(style, two, "attachments"@))
        },
    };
    lemma_directories_stay_apart(style, a, b, "images"@);
}

proof fn lemma_own_names_are_clean()
    ensures
        clean_name("images"@),
        clean_name("attachments"@),
{
    reveal_strlit("images");
    reveal_strlit("attachments");
    reveal_strlit(".");
    reveal_strlit("..");
    assert("images"@.len() == 6 && "attachments"@.len() == 11 && "."@.len() == 1 && ".."@.len()
        == 2);
}

} // verus!
