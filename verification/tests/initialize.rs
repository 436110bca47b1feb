use koharu::initialize::{InitEvent, InitStep, Initialization, BUNDLE_DIR, LOG_LIMIT_BYTES};
use koharu::paths::Platform;

/// The steps of an initialization; every step in `failing` fails.
fn steps(mut init: Initialization, attached: bool, webview: InitEvent, failing: &[InitStep]) -> Vec<InitStep> {
    let mut seen = Vec::new();
    loop {
        seen.push(init.step);
        let event = match init.step {
            InitStep::Done | InitStep::Failed => return seen,
            InitStep::AttachConsole => InitEvent::Attached(attached),
            InitStep::LookAtWebview => webview,
            step if failing.contains(&step) => InitEvent::Error,
            _ => InitEvent::Success,
        };
        init.advance(event);
    }
}

const TAIL: [InitStep; 3] = [InitStep::SetCacheDir, InitStep::InstallPanicHook, InitStep::Done];

#[test]
fn limits_and_names() {
    assert_eq!(LOG_LIMIT_BYTES, 10 * 1024 * 1024);
    assert_eq!(BUNDLE_DIR, "com.hetcreep.koharu-th-beta");
}

#[test]
fn everything_on_windows() {
    let init = Initialization::initialize(Platform::Windows, true, false);
    assert_eq!(
        steps(init, false, InitEvent::Webview(true, false), &[]),
        vec![
            InitStep::AttachConsole,
            InitStep::CreateConsole,
            InitStep::EnableAnsi,
            InitStep::MakeLogDir,
            InitStep::StartLog,
            InitStep::RegisterCudnn,
            InitStep::CollectStaleRuntimes,
            InitStep::MigrateModelCache,
            InitStep::LookAtWebview,
            InitStep::MakeWebviewDir,
            InitStep::MoveWebview,
            InitStep::MakeModelDir,
            InitStep::MakeLibraryDir,
            InitStep::ProtectDirs,
            InitStep::RegisterFileTypes,
            InitStep::SweepLibraries,
            InitStep::SweepAppRoot,
            InitStep::SetCacheDir,
            InitStep::InstallPanicHook,
            InitStep::Done,
        ]
    );
}

#[test]
fn less_on_other_systems() {
    let init = Initialization::initialize(Platform::Other, true, true);
    let seen = steps(init, false, InitEvent::Webview(false, false), &[]);
    assert_eq!(seen[0], InitStep::MakeLogDir);
    for step in [InitStep::AttachConsole, InitStep::ProtectDirs, InitStep::RegisterFileTypes] {
        assert!(!seen.contains(&step));
    }
    assert_eq!(&seen[seen.len() - 3..], &TAIL);
}

#[test]
fn a_console_is_opened_on_demand() {
    for (attached, headless, debug, opened) in [
        (false, true, false, true),
        (false, false, true, true),
        (false, false, false, false),
        (true, true, true, false),
    ] {
        let init = Initialization::initialize(Platform::Windows, headless, debug);
        let seen = steps(init, attached, InitEvent::NoDataDir, &[]);
        assert_eq!(seen.contains(&InitStep::CreateConsole), opened);
    }
}

#[test]
fn web_view_data_moves_only_to_a_free_place() {
    for (event, moved) in [
        (InitEvent::Webview(true, false), true),
        (InitEvent::Webview(true, true), false),
        (InitEvent::Webview(false, false), false),
        (InitEvent::NoDataDir, false),
    ] {
        let init = Initialization::initialize(Platform::Other, false, false);
        let seen = steps(init, false, event, &[]);
        assert_eq!(seen.contains(&InitStep::MoveWebview), moved);
    }
    let init = Initialization::initialize(Platform::Other, false, false);
    let seen = steps(init, false, InitEvent::Webview(true, false), &[InitStep::MakeWebviewDir]);
    assert!(!seen.contains(&InitStep::MoveWebview));
}

#[test]
fn only_the_cache_directory_is_fatal() {
    let all = [
        InitStep::CreateConsole,
        InitStep::EnableAnsi,
        InitStep::MakeLogDir,
        InitStep::RegisterCudnn,
        InitStep::CollectStaleRuntimes,
        InitStep::MoveWebview,
        InitStep::MakeModelDir,
        InitStep::MakeLibraryDir,
        InitStep::RegisterFileTypes,
    ];
    let init = Initialization::initialize(Platform::Windows, true, true);
    let seen = steps(init, false, InitEvent::Webview(true, false), &all);
    assert_eq!(&seen[seen.len() - 3..], &TAIL);
    let init = Initialization::initialize(Platform::Windows, true, true);
    let seen = steps(init, false, InitEvent::NoDataDir, &[InitStep::SetCacheDir]);
    assert_eq!(seen.last(), Some(&InitStep::Failed));
    assert!(!seen.contains(&InitStep::InstallPanicHook));
}

#[test]
fn the_cache_is_migrated_before_its_directory_is_made() {
    let init = Initialization::initialize(Platform::Other, false, false);
    let seen = steps(init, false, InitEvent::NoDataDir, &[]);
    let at = |step: InitStep| seen.iter().position(|s| *s == step).unwrap();
    assert!(at(InitStep::MigrateModelCache) < at(InitStep::MakeModelDir));
    assert!(at(InitStep::RegisterCudnn) < at(InitStep::SetCacheDir));
}

#[test]
fn events_of_other_steps_change_nothing() {
    let mut init = Initialization::initialize(Platform::Windows, false, false);
    init.advance(InitEvent::NoDataDir);
    assert_eq!(init.step, InitStep::AttachConsole);
    init.advance(InitEvent::Webview(true, true));
    assert_eq!(init.step, InitStep::AttachConsole);
}
