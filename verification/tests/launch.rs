use koharu::launch::{
    bind_address, run, ws_port_script, Launch, LaunchEvent, LaunchStep, PROBE_STACK_BYTES,
};
use koharu::paths::Platform;

fn started(args: &[&str], platform: Platform) -> Launch {
    let args: Vec<String> = args.iter().map(|arg| arg.to_string()).collect();
    run(&args, platform)
}

fn steps(mut launch: Launch, download: bool, headless: bool, failing: Option<LaunchStep>) -> Vec<LaunchStep> {
    let mut seen = Vec::new();
    loop {
        seen.push(launch.step);
        let event = match launch.step {
            LaunchStep::Done | LaunchStep::Failed | LaunchStep::Exit(_) => return seen,
            LaunchStep::TryCuda => LaunchEvent::Tried(Some(true)),
            LaunchStep::ParseArguments => LaunchEvent::Arguments(download, headless),
            step if Some(step) == failing => LaunchEvent::Error,
            _ => LaunchEvent::Success,
        };
        launch.advance(event);
    }
}

#[test]
fn a_trial_does_nothing_else() {
    let args = ["koharu", "--headless", "--cuda-smoke-test"];
    assert_eq!(
        steps(started(&args, Platform::Windows), true, true, None),
        vec![
            LaunchStep::RegisterCudnn,
            LaunchStep::RegisterToolkit,
            LaunchStep::TryCuda,
            LaunchStep::Exit(0),
        ]
    );
    assert_eq!(
        steps(started(&args, Platform::Other), false, false, None),
        vec![LaunchStep::RegisterCudnn, LaunchStep::TryCuda, LaunchStep::Exit(0)]
    );
}

#[test]
fn a_trial_exits_by_its_verdict() {
    for (verdict, code) in [(Some(true), 0), (Some(false), 1), (None, 1)] {
        let mut launch = started(&["koharu", "--cuda-smoke-test"], Platform::Other);
        launch.advance(LaunchEvent::Error);
        assert_eq!(launch.step, LaunchStep::TryCuda);
        launch.advance(LaunchEvent::Tried(verdict));
        assert_eq!(launch.step, LaunchStep::Exit(code));
    }
    assert_eq!(PROBE_STACK_BYTES, 64 * 1024 * 1024);
}

#[test]
fn a_run_with_windows() {
    assert_eq!(
        steps(started(&["koharu"], Platform::Windows), false, false, None),
        vec![
            LaunchStep::ParseArguments,
            LaunchStep::Initialize,
            LaunchStep::Bind,
            LaunchStep::ReadPort,
            LaunchStep::BuildShell,
            LaunchStep::Serve,
            LaunchStep::RunShell,
            LaunchStep::Done,
        ]
    );
}

#[test]
fn a_run_without_windows() {
    let seen = steps(started(&["koharu", "--headless"], Platform::Other), false, true, None);
    assert_eq!(
        seen[5..],
        [
            LaunchStep::Serve,
            LaunchStep::BuildResources,
            LaunchStep::AwaitInterrupt,
            LaunchStep::Done,
        ]
    );
    assert!(!seen.contains(&LaunchStep::RunShell));
}

#[test]
fn a_run_that_only_downloads() {
    assert_eq!(
        steps(started(&["koharu", "-d"], Platform::Other), true, true, None),
        vec![
            LaunchStep::ParseArguments,
            LaunchStep::Initialize,
            LaunchStep::FetchLibraries,
            LaunchStep::FetchModels,
            LaunchStep::Done,
        ]
    );
}

#[test]
fn faults_end_the_run() {
    for step in [
        LaunchStep::Initialize,
        LaunchStep::Bind,
        LaunchStep::ReadPort,
        LaunchStep::BuildShell,
        LaunchStep::BuildResources,
        LaunchStep::AwaitInterrupt,
    ] {
        let seen = steps(started(&["koharu"], Platform::Other), false, true, Some(step));
        assert_eq!(seen[seen.len() - 2..], [step, LaunchStep::Failed]);
    }
    for step in [LaunchStep::FetchLibraries, LaunchStep::FetchModels] {
        let seen = steps(started(&["koharu"], Platform::Other), true, false, Some(step));
        assert_eq!(seen[seen.len() - 2..], [step, LaunchStep::Failed]);
    }
}

#[test]
fn the_listener_is_local() {
    assert_eq!(bind_address(None), "127.0.0.1:0");
    assert_eq!(bind_address(Some(0)), "127.0.0.1:0");
    assert_eq!(bind_address(Some(8080)), "127.0.0.1:8080");
    assert_eq!(bind_address(Some(u16::MAX)), "127.0.0.1:65535");
}

#[test]
fn the_window_learns_the_port() {
    assert_eq!(ws_port_script(49_152), "window.__KOHARU_WS_PORT__ = 49152;");
    assert_eq!(ws_port_script(7), "window.__KOHARU_WS_PORT__ = 7;");
}
