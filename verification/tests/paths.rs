use koharu::paths::{
    clean_panic_location, display_path, project_root, verbatim_root, ParentDir, Platform,
    ProjectRoot,
};

#[test]
fn verbatim_prefix_is_stripped_on_windows() {
    assert_eq!(display_path(r"\\?\C:\x", Platform::Windows), r"C:\x");
    assert_eq!(display_path(r"\\?\UNC\srv\s", Platform::Windows), r"\\srv\s");
}

#[test]
fn other_paths_are_shown_as_they_are() {
    assert_eq!(display_path(r"C:\x", Platform::Windows), r"C:\x");
    assert_eq!(display_path(r"\\srv\s", Platform::Windows), r"\\srv\s");
    assert_eq!(display_path("", Platform::Windows), "");
    assert_eq!(display_path(r"\\?\C:\x", Platform::Other), r"\\?\C:\x");
    assert_eq!(display_path("/home/โคฮารุ", Platform::Other), "/home/โคฮารุ");
}

#[test]
fn only_the_first_prefix_is_stripped() {
    assert_eq!(display_path(r"\\?\\\?\x", Platform::Windows), r"\\?\x");
    assert_eq!(display_path(r"\\?\", Platform::Windows), "");
    assert_eq!(display_path(r"\\?\UNC\", Platform::Windows), r"\\");
    assert_eq!(display_path(r"\\?\UNC", Platform::Windows), "UNC");
}

#[test]
fn root_gets_the_verbatim_form_once() {
    assert_eq!(
        verbatim_root("C:/Users/a/KoharuTH"),
        Some(r"\\?\C:\Users\a\KoharuTH".to_string())
    );
    assert_eq!(verbatim_root(r"\\?\C:\Users"), None);
    assert_eq!(verbatim_root(""), Some(r"\\?\".to_string()));
}

#[test]
fn display_undoes_the_verbatim_form() {
    for path in [r"C:\x\y", "D:/mixed\\up", r"\\srv\share", "", "ไทย/x"] {
        let stored = verbatim_root(path).unwrap();
        assert_eq!(display_path(&stored, Platform::Windows), path.replace('/', "\\"));
    }
    // A path that itself begins with `UNC\` is the exception.
    let stored = verbatim_root(r"UNC\x").unwrap();
    assert_eq!(display_path(&stored, Platform::Windows), r"\\x");
}

#[test]
fn registry_location_is_cut_to_the_crate() {
    assert_eq!(
        clean_panic_location("/cargo/registry/src/abc/cudarc-0.19.7/src/lib.rs:200:5"),
        "cudarc-0.19.7/src/lib.rs:200:5"
    );
    assert_eq!(
        clean_panic_location(r"C:\cargo\registry\src\index-1\tokio-1.0\src\a.rs:1:2"),
        "tokio-1.0/src/a.rs:1:2"
    );
    assert_eq!(clean_panic_location(r"C:\registry/src\h/serde\lib.rs:1:2"), "serde/lib.rs:1:2");
}

#[test]
fn own_code_is_kept_with_slashes() {
    assert_eq!(clean_panic_location(r"koharu\src\app.rs:10:3"), "koharu/src/app.rs:10:3");
    assert_eq!(clean_panic_location("koharu/src/app.rs:10:3"), "koharu/src/app.rs:10:3");
    assert_eq!(clean_panic_location(""), "");
}

#[test]
fn a_registry_without_a_hash_is_kept() {
    assert_eq!(clean_panic_location("/x/registry/src/lib.rs"), "/x/registry/src/lib.rs");
    assert_eq!(clean_panic_location("registry/src/h/c"), "registry/src/h/c");
    assert_eq!(clean_panic_location("/registry/src//c"), "c");
    assert_eq!(
        clean_panic_location("/registry/src/h/c/registry/src/i/d"),
        "c/registry/src/i/d"
    );
}

#[test]
fn a_cleaned_location_is_a_tail_without_backslashes() {
    for location in [r"a\b\c", r"\registry\src\h\x\y", "/registry/src/", "plain"] {
        let clean = clean_panic_location(location);
        assert!(!clean.contains('\\'));
        assert!(location.replace('\\', "/").ends_with(&clean));
    }
}

#[test]
fn a_project_file_is_opened_in_its_directory() {
    let ext = Some("koharuproj");
    assert_eq!(project_root(true, ext, ParentDir::Named, true), ProjectRoot::Parent);
    assert_eq!(project_root(true, Some("KoharuProj"), ParentDir::Named, false), ProjectRoot::Parent);
    assert_eq!(project_root(true, ext, ParentDir::Empty, true), ProjectRoot::CurrentDir);
    assert_eq!(project_root(true, ext, ParentDir::Empty, false), ProjectRoot::Given);
    assert_eq!(project_root(true, ext, ParentDir::Missing, true), ProjectRoot::CurrentDir);
}

#[test]
fn anything_else_is_opened_where_it_is() {
    assert_eq!(
        project_root(false, Some("koharuproj"), ParentDir::Named, true),
        ProjectRoot::Given
    );
    assert_eq!(project_root(true, Some("khr"), ParentDir::Named, true), ProjectRoot::Given);
    assert_eq!(project_root(true, Some(""), ParentDir::Empty, true), ProjectRoot::Given);
    assert_eq!(project_root(true, None, ParentDir::Named, true), ProjectRoot::Given);
}
