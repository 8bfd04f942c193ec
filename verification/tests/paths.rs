use bifrost::agent_config::{ExternalCliAdapterConfig, DEFAULT_RUNTIME};
use bifrost::json::Json;
use bifrost::paths::{
    has_parent_component, is_absolute, join_path, path_components, path_file_name,
    path_starts_with, PathStyle,
};
use bifrost::request::{
    image_attachment_dir, is_skill_path_allowed, trusted_session_attachment_base_dir,
    validate_work_dir, ExternalCliRunRequest,
};
use bifrost::runtime::{run_places, stop_marker_of};

const POSIX: PathStyle = PathStyle::Posix;
const WINDOWS: PathStyle = PathStyle::Windows;

fn request_with_base(base: &str) -> ExternalCliRunRequest {
    ExternalCliRunRequest {
        images: Vec::new(),
        message: "hello".to_string(),
        operation: "ask".to_string(),
        params: Json::Object(vec![(
            "attachmentBaseDir".to_string(),
            Json::Text(base.to_string()),
        )]),
        provider_id: None,
        runner_id: None,
        session_key: None,
        runtime: DEFAULT_RUNTIME.to_string(),
        adapter: "mock".to_string(),
        work_dir: Some("C:\\work\\a".to_string()),
        instructions: None,
        adapter_config: ExternalCliAdapterConfig::default(),
        allow_work_dirs: vec!["C:\\work".to_string()],
        inject_bifrost_tools: false,
        skill_paths: Vec::new(),
    }
}

#[test]
fn what_is_absolute_depends_on_the_system() {
    assert!(is_absolute(POSIX, "/a"));
    assert!(!is_absolute(POSIX, "a/b"));
    assert!(!is_absolute(POSIX, "C:\\a"));
    for path in [
        "C:\\a",
        "c:/a",
        "\\\\server\\share",
        "//server/share/a",
        "\\\\.\\pipe",
        "\\\\?\\C:\\a",
        "\\\\?\\UNC\\server\\share",
        "\\\\?\\anything",
    ] {
        assert!(is_absolute(WINDOWS, path), "{path}");
    }
    for path in ["C:", "C:a", "\\a", "/a", "a", "", "\\\\server", "1:\\a"] {
        assert!(!is_absolute(WINDOWS, path), "{path}");
    }
}

#[test]
fn parents_are_seen_behind_every_separator() {
    assert!(has_parent_component(POSIX, "/a/../b"));
    assert!(!has_parent_component(POSIX, "a\\..\\b"));
    assert!(has_parent_component(WINDOWS, "a\\..\\b"));
    assert!(has_parent_component(WINDOWS, "C:\\a/../b"));
    assert!(has_parent_component(WINDOWS, "C:.."));
    assert!(!has_parent_component(WINDOWS, "\\\\?\\C:\\a/../b"));
    assert!(!has_parent_component(WINDOWS, "a\\..b"));
}

#[test]
fn components_are_the_beginning_and_the_names() {
    assert_eq!(path_components(POSIX, "/a//b/./c/"), vec!["/", "a", "b", "c"]);
    assert_eq!(path_components(POSIX, "./a/."), vec![".", "a"]);
    assert_eq!(path_components(WINDOWS, "c:\\a/b\\.\\c\\"), vec!["C:", "/", "a", "b", "c"]);
    assert_eq!(path_components(WINDOWS, "C:.\\a"), vec!["C:", "a"]);
    assert_eq!(
        path_components(WINDOWS, "\\\\server\\share"),
        path_components(WINDOWS, "//server/share/")
    );
    assert_eq!(
        path_components(WINDOWS, "\\\\?\\C:\\a/b\\."),
        vec!["\\\\?\\C:", "/", "a/b", "."]
    );
    assert_eq!(
        path_components(WINDOWS, "\\\\?\\UNC\\server\\share\\a"),
        vec!["\\\\?\\UNC\\server\\share", "/", "a"]
    );
}

#[test]
fn paths_lie_below_one_another_by_their_components() {
    assert!(path_starts_with(POSIX, "/srv/work", "/srv"));
    assert!(!path_starts_with(POSIX, "/srvx", "/srv"));
    assert!(path_starts_with(WINDOWS, "c:\\Work\\a", "C:/Work"));
    assert!(!path_starts_with(WINDOWS, "C:\\Workshop", "C:\\Work"));
    assert!(!path_starts_with(WINDOWS, "D:\\Work", "C:\\Work"));
    assert!(!path_starts_with(WINDOWS, "\\\\?\\C:\\Work", "C:\\Work"));
}

#[test]
fn names_are_put_below_directories() {
    assert_eq!(join_path(POSIX, "/a", "b"), "/a/b");
    assert_eq!(join_path(POSIX, "/a/", "b"), "/a/b");
    assert_eq!(join_path(POSIX, "", "b"), "b");
    assert_eq!(join_path(POSIX, "/a", "/b"), "/b");
    assert_eq!(join_path(WINDOWS, "C:\\a", "b"), "C:\\a\\b");
    assert_eq!(join_path(WINDOWS, "C:/a/", "b"), "C:/a/b");
    assert_eq!(join_path(WINDOWS, "C:", "b"), "C:b");
    assert_eq!(join_path(WINDOWS, "C:\\a", "D:\\b"), "D:\\b");
    assert_eq!(join_path(WINDOWS, "C:\\a", "\\b"), "C:\\b");
    assert_eq!(join_path(WINDOWS, "\\\\?\\C:\\a", "..\\b/./c"), "\\\\?\\C:\\b\\c");
    assert_eq!(join_path(WINDOWS, "\\\\?\\C:\\a", "\\b"), "\\\\?\\C:\\b");
    assert_eq!(join_path(WINDOWS, "\\\\?\\C:\\a", ".."), "\\\\?\\C:\\");
}

#[test]
fn the_last_name_is_a_name() {
    assert_eq!(path_file_name(POSIX, "/a/b/").as_deref(), Some("b"));
    assert_eq!(path_file_name(POSIX, "/a/.."), None);
    assert_eq!(path_file_name(POSIX, "/"), None);
    assert_eq!(path_file_name(WINDOWS, "C:\\a\\b").as_deref(), Some("b"));
    assert_eq!(path_file_name(POSIX, "C:\\a\\b").as_deref(), Some("C:\\a\\b"));
    assert_eq!(path_file_name(WINDOWS, "C:\\"), None);
}

#[test]
fn skills_elsewhere_on_a_drive_are_refused() {
    let allowed = |path: &str| {
        is_skill_path_allowed(
            WINDOWS,
            path,
            Some("C:\\work"),
            &vec!["D:\\extra".to_string()],
            "C:\\Users\\me\\.agents",
        )
    };
    assert!(allowed("skills\\SKILL.md"));
    assert!(allowed("C:\\work\\SKILL.md"));
    assert!(allowed("d:/extra/SKILL.md"));
    assert!(allowed("C:\\Users\\me\\.agents\\SKILL.md"));
    assert!(!allowed("C:\\Windows\\SKILL.md"));
    assert!(!allowed("C:\\work\\..\\secret.md"));
    assert!(!allowed("..\\secret.md"));
    assert!(!allowed("\\\\server\\share\\SKILL.md"));
    let posix = |path: &str| is_skill_path_allowed(POSIX, path, Some("/work"), &Vec::new(), "/agents");
    assert!(posix("SKILL.md"));
    assert!(posix("/work/SKILL.md"));
    assert!(!posix("/etc/passwd"));
    assert!(!posix("../SKILL.md"));
}

#[test]
fn directories_are_checked_in_the_style_of_the_system() {
    let root = "C:\\agent\\sessions";
    let inside = request_with_base("C:/agent/sessions/today");
    assert_eq!(
        trusted_session_attachment_base_dir(WINDOWS, &inside, root).as_deref(),
        Some("C:/agent/sessions/today")
    );
    assert_eq!(
        image_attachment_dir(WINDOWS, &inside, root, "C:\\runs\\run-1"),
        "C:/agent/sessions/today\\run-1\\images"
    );
    let climbing = request_with_base("C:\\agent\\sessions\\..\\other");
    assert_eq!(trusted_session_attachment_base_dir(WINDOWS, &climbing, root), None);
    assert_eq!(
        image_attachment_dir(WINDOWS, &climbing, root, "C:\\runs\\run-1"),
        "C:\\runs\\run-1\\attachments\\images"
    );
    let allowed = vec!["C:\\work".to_string()];
    assert_eq!(validate_work_dir(WINDOWS, &inside, Some("c:\\work\\a"), &allowed), Ok(()));
    assert_eq!(
        validate_work_dir(WINDOWS, &inside, Some("C:\\worked"), &allowed),
        Err("work_dir 'C:\\work\\a' is outside allowWorkDirs".to_string())
    );
    assert_eq!(
        run_places(WINDOWS, "C:\\runs", "id").map(|places| places.prompt),
        Ok("C:\\runs\\id\\prompt.md".to_string())
    );
    assert_eq!(
        stop_marker_of(WINDOWS, "C:\\runs", "id", true),
        Ok("C:\\runs\\id\\stop_requested".to_string())
    );
}
