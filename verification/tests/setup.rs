use koharu::paths::Platform;
use koharu::setup::{
    startup_failure_message, Download, Setup, SetupEvent, SetupStep, UpdateProgress,
    UPDATE_CHECK_LIMIT_SECS,
};

/// What the world is like during a setup.
#[derive(Clone, Copy)]
struct World {
    updater: bool,
    check: SetupEvent,
    install: bool,
    gpu: bool,
    cudnn: bool,
    fetch: bool,
    cuda: bool,
    build: bool,
    splash: bool,
    main: bool,
}

const GOOD: World = World {
    updater: true,
    check: SetupEvent::Found(false),
    install: true,
    gpu: true,
    cudnn: true,
    fetch: true,
    cuda: true,
    build: true,
    splash: true,
    main: true,
};

fn result(ok: bool) -> SetupEvent {
    if ok {
        SetupEvent::Success
    } else {
        SetupEvent::Error
    }
}

fn steps(mut setup: Setup, world: World) -> Vec<SetupStep> {
    let mut seen = Vec::new();
    loop {
        seen.push(setup.step);
        let event = match setup.step {
            SetupStep::Done | SetupStep::Exit | SetupStep::Restart => return seen,
            SetupStep::OpenUpdater => result(world.updater),
            SetupStep::CheckUpdate => world.check,
            SetupStep::InstallUpdate => result(world.install),
            SetupStep::FindGpu | SetupStep::FindGpuForRuntime | SetupStep::FindGpuForProbe => {
                SetupEvent::Found(world.gpu)
            }
            SetupStep::FindCudnn => SetupEvent::Found(world.cudnn),
            SetupStep::InstallCudnn => result(world.fetch),
            SetupStep::ProbeCuda => SetupEvent::Found(world.cuda),
            SetupStep::BuildResources => result(world.build),
            SetupStep::CloseSplash => SetupEvent::Found(world.splash),
            SetupStep::ShowMain => SetupEvent::Found(world.main),
            _ => SetupEvent::Success,
        };
        setup.advance(event);
    }
}

#[test]
fn a_first_start_on_windows() {
    let world = World { cudnn: false, ..GOOD };
    assert_eq!(
        steps(Setup::begin(Platform::Windows, false), world),
        vec![
            SetupStep::OpenUpdater,
            SetupStep::CheckUpdate,
            SetupStep::FindGpu,
            SetupStep::FindCudnn,
            SetupStep::InstallCudnn,
            SetupStep::RegisterNewCudnn,
            SetupStep::FindGpuForRuntime,
            SetupStep::RegisterCudnn,
            SetupStep::RegisterToolkit,
            SetupStep::RemoveSuperseded,
            SetupStep::FindGpuForProbe,
            SetupStep::ProbeCuda,
            SetupStep::RecordProbe(true),
            SetupStep::BuildResources,
            SetupStep::CloseSplash,
            SetupStep::ShowMain,
            SetupStep::Done,
        ]
    );
}

#[test]
fn a_start_on_the_processor_elsewhere() {
    let seen = steps(Setup::begin(Platform::Other, true), GOOD);
    assert_eq!(
        seen,
        vec![
            SetupStep::OpenUpdater,
            SetupStep::CheckUpdate,
            SetupStep::FindGpu,
            SetupStep::FindCudnn,
            SetupStep::FindGpuForRuntime,
            SetupStep::RegisterCudnn,
            SetupStep::RemoveSuperseded,
            SetupStep::BuildResources,
            SetupStep::CloseSplash,
            SetupStep::ShowMain,
            SetupStep::Done,
        ]
    );
}

#[test]
fn a_start_without_a_gpu() {
    let seen = steps(Setup::begin(Platform::Windows, false), World { gpu: false, ..GOOD });
    assert_eq!(
        seen[2..],
        [
            SetupStep::FindGpu,
            SetupStep::FindGpuForRuntime,
            SetupStep::FindGpuForProbe,
            SetupStep::BuildResources,
            SetupStep::CloseSplash,
            SetupStep::ShowMain,
            SetupStep::Done,
        ]
    );
}

#[test]
fn an_update_is_installed_and_started() {
    let world = World { check: SetupEvent::Found(true), ..GOOD };
    assert_eq!(
        steps(Setup::begin(Platform::Windows, false), world),
        vec![
            SetupStep::OpenUpdater,
            SetupStep::CheckUpdate,
            SetupStep::AnnounceUpdate,
            SetupStep::InstallUpdate,
            SetupStep::AnnounceReady,
            SetupStep::Restart,
        ]
    );
    assert_eq!(UPDATE_CHECK_LIMIT_SECS, 8);
}

#[test]
fn no_trouble_with_the_update_stops_the_start() {
    for world in [
        World { updater: false, ..GOOD },
        World { check: SetupEvent::Error, ..GOOD },
        World { check: SetupEvent::TimedOut, ..GOOD },
        World { check: SetupEvent::Found(true), install: false, ..GOOD },
    ] {
        let seen = steps(Setup::begin(Platform::Windows, false), world);
        assert_eq!(seen.last(), Some(&SetupStep::Done));
        assert!(!seen.contains(&SetupStep::Restart));
    }
}

#[test]
fn cudnn_that_cannot_be_fetched_is_no_reason_to_stop() {
    let world = World { cudnn: false, fetch: false, cuda: false, ..GOOD };
    let seen = steps(Setup::begin(Platform::Windows, false), world);
    assert!(!seen.contains(&SetupStep::RegisterNewCudnn));
    assert!(seen.contains(&SetupStep::RecordProbe(false)));
    assert_eq!(seen.last(), Some(&SetupStep::Done));
}

#[test]
fn a_failed_start_is_reported() {
    let seen = steps(Setup::begin(Platform::Windows, false), World { build: false, ..GOOD });
    assert_eq!(
        seen[seen.len() - 3..],
        [SetupStep::BuildResources, SetupStep::ReportFailure, SetupStep::Exit]
    );
}

#[test]
fn a_missing_window_ends_the_program() {
    let seen = steps(Setup::begin(Platform::Other, true), World { splash: false, ..GOOD });
    assert_eq!(seen[seen.len() - 2..], [SetupStep::CloseSplash, SetupStep::Exit]);
    let seen = steps(Setup::begin(Platform::Other, true), World { main: false, ..GOOD });
    assert_eq!(seen[seen.len() - 2..], [SetupStep::ShowMain, SetupStep::Exit]);
}

#[test]
fn the_forced_processor_is_never_second_guessed() {
    for gpu in [false, true] {
        let seen = steps(Setup::begin(Platform::Windows, true), World { gpu, ..GOOD });
        assert!(!seen.contains(&SetupStep::FindGpuForProbe));
        assert!(!seen.contains(&SetupStep::ProbeCuda));
    }
}

#[test]
fn events_out_of_place_are_passed_over() {
    let mut setup = Setup::begin(Platform::Windows, false);
    setup.advance(SetupEvent::TimedOut);
    assert_eq!(setup.step, SetupStep::OpenUpdater);
    setup.advance(SetupEvent::Found(true));
    assert_eq!(setup, Setup::begin(Platform::Windows, false));
}

#[test]
fn a_download_counts_its_chunks() {
    let mut download = Download::new();
    assert_eq!(download.count(3), 3);
    assert_eq!(download.count(0), 3);
    assert_eq!(download.count(u64::MAX - 3), u64::MAX);
    assert_eq!(download.done, u64::MAX);
}

#[test]
fn the_splash_screen_is_told_of_the_update() {
    let started = UpdateProgress::Started { version: "1.2".to_string() };
    assert_eq!(started.kind(), "started");
    assert_eq!(UpdateProgress::Ready.kind(), "ready");
    let mut download = Download { done: 5 };
    let report = download.report(7, Some(100));
    assert_eq!(report.kind(), "downloading");
    assert!(matches!(
        report,
        UpdateProgress::Downloading { bytes_done: 12, bytes_total: Some(100) }
    ));
    assert_eq!(download.done, 12);
    assert!(matches!(
        download.report(0, None),
        UpdateProgress::Downloading { bytes_done: 12, bytes_total: None }
    ));
}

#[test]
fn the_failure_message_names_the_error() {
    assert_eq!(
        startup_failure_message("no models"),
        "Failed to initialize app resources:\n\nno models\n\nCommon causes: missing GPU drivers, \
         no disk space for the model cache, or a corrupted model download. Check the log file at \
         %LOCALAPPDATA%\\Koharu\\ for details."
    );
}
