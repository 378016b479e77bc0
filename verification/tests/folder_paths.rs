use surya_ui::pickers::folder_paths::{child_path, normalize_project_path, project_name};

#[test]
fn windows_listing_joins_use_one_native_separator_on_any_client() {
    for base in ["E:\\", "E:/", "E:\\/"] {
        assert_eq!(child_path(base, "workshop-plans"), "E:\\workshop-plans");
    }
    assert_eq!(child_path("E:\\workshop", "notes"), "E:\\workshop\\notes");
    assert_eq!(
        child_path("\\\\server\\share\\", "notes"),
        "\\\\server\\share\\notes"
    );
}

#[test]
fn submission_normalizes_windows_paths_and_preserves_drive_and_unc_roots() {
    for path in [
        "E:\\/workshop-plans",
        "E:/workshop-plans",
        "E:\\workshop-plans",
    ] {
        assert_eq!(
            normalize_project_path(path, "windows"),
            "E:\\workshop-plans"
        );
    }
    assert_eq!(normalize_project_path("E:/", "windows"), "E:\\");
    assert_eq!(
        normalize_project_path("//server/share/folder", "windows"),
        "\\\\server\\share\\folder"
    );
    assert_eq!(
        normalize_project_path("\\\\server\\share", "windows"),
        "\\\\server\\share"
    );
}

#[test]
fn unix_paths_and_literal_backslashes_are_not_reinterpreted() {
    assert_eq!(child_path("/", "workshop"), "/workshop");
    assert_eq!(
        child_path("/home/user", "back\\slash"),
        "/home/user/back\\slash"
    );
    assert_eq!(
        normalize_project_path("/home/back\\slash", "linux"),
        "/home/back\\slash"
    );
    assert_eq!(
        normalize_project_path("/Users/me/project", "macos"),
        "/Users/me/project"
    );
}

#[test]
fn project_names_follow_the_device_path_and_preserve_roots() {
    for (path, platform, expected) in [
        ("E:\\workshop-plans", "windows", "workshop-plans"),
        ("E:\\workshop-plans\\", "windows", "workshop-plans"),
        ("\\\\server\\share\\Notes", "windows", "Notes"),
        ("E:\\", "windows", "E:\\"),
        ("/", "linux", "/"),
        ("/home/back\\slash", "linux", "back\\slash"),
        ("/Users/me/Project Notes/", "macos", "Project Notes"),
    ] {
        assert_eq!(project_name(path, platform), expected);
    }
}

#[test]
fn platform_names_compare_without_case() {
    assert_eq!(normalize_project_path("E:/a//b/", "Windows"), "E:\\a\\b");
    assert_eq!(normalize_project_path("/a/b", "WINDOWS"), "\\a\\b");
    assert_eq!(child_path("relative", "x"), "relative/x");
    assert_eq!(project_name("", "linux"), "");
}

#[test]
fn a_normalised_windows_path_has_no_slash_and_settles() {
    for path in ["E:/work//repo/", "//server/share/x", "/rooted/dir", "E:", "relative\\a/b", ""] {
        let once = normalize_project_path(path, "Windows");
        assert!(!once.contains('/'), "{path:?} gave {once:?}");
        assert_eq!(normalize_project_path(&once, "windows"), once, "{path:?}");
    }
    assert_eq!(normalize_project_path("/home/a\\b", "linux"), "/home/a\\b");
}
