use koharu::cuda_probe::{
    is_probe_run, probe_exit_code, ProbeEvent, ProbeStep, PROBE_ARGUMENT, PROBE_DEADLINE_MS,
    PROBE_PAUSE_MS,
};

fn strings(args: &[&str]) -> Vec<String> {
    args.iter().map(|arg| arg.to_string()).collect()
}

#[test]
fn the_argument_may_stand_anywhere() {
    assert_eq!(PROBE_ARGUMENT, "--cuda-smoke-test");
    assert!(is_probe_run(&strings(&["koharu", "--cuda-smoke-test"])));
    assert!(is_probe_run(&strings(&["koharu", "--cpu", "--cuda-smoke-test", "x"])));
    assert!(!is_probe_run(&strings(&["koharu", "--cuda-smoke"])));
    assert!(!is_probe_run(&strings(&["koharu", "--cuda-smoke-test=1"])));
    assert!(!is_probe_run(&Vec::new()));
}

#[test]
fn the_child_exits_zero_only_on_success() {
    assert_eq!(probe_exit_code(Some(true)), 0);
    assert_eq!(probe_exit_code(Some(false)), 1);
    assert_eq!(probe_exit_code(None), 1);
}

/// Runs a trial whose child exits after `exit_ms`, if ever, and tells the verdict, whether the
/// child was killed, and when the trial ended.
fn trial(exit_ms: Option<u64>, success: bool) -> (bool, bool, u64) {
    let mut now = 0;
    let mut killed = false;
    let mut step = ProbeStep::run_cuda_smoke_subprocess();
    loop {
        let event = match step {
            ProbeStep::FindProgram | ProbeStep::Spawn => ProbeEvent::Success,
            ProbeStep::Poll => match exit_ms {
                Some(at) if now >= at => ProbeEvent::Exited(success),
                _ => ProbeEvent::Running(now),
            },
            ProbeStep::Pause => {
                now += PROBE_PAUSE_MS;
                ProbeEvent::Success
            }
            ProbeStep::Kill => {
                killed = true;
                ProbeEvent::Success
            }
            ProbeStep::Finished(usable) => return (usable, killed, now),
        };
        step = step.next(event);
    }
}

#[test]
fn only_a_clean_exit_makes_the_gpu_usable() {
    assert_eq!(trial(Some(0), true), (true, false, 0));
    assert_eq!(trial(Some(250), true), (true, false, 300));
    assert_eq!(trial(Some(250), false), (false, false, 300));
}

#[test]
fn a_hung_child_is_killed_at_its_deadline() {
    assert_eq!(trial(None, true), (false, true, PROBE_DEADLINE_MS));
    assert_eq!(PROBE_DEADLINE_MS, 20_000);
    assert_eq!(trial(Some(19_950), true), (true, false, 20_000));
}

#[test]
fn the_deadline_decides_between_pause_and_kill() {
    assert_eq!(ProbeStep::Poll.next(ProbeEvent::Running(19_999)), ProbeStep::Pause);
    assert_eq!(ProbeStep::Poll.next(ProbeEvent::Running(20_000)), ProbeStep::Kill);
    assert_eq!(ProbeStep::Poll.next(ProbeEvent::Running(u64::MAX)), ProbeStep::Kill);
    assert_eq!(ProbeStep::Kill.next(ProbeEvent::Error), ProbeStep::Finished(false));
}

#[test]
fn a_trial_that_cannot_start_finds_no_gpu() {
    let failed = ProbeStep::Finished(false);
    assert_eq!(ProbeStep::FindProgram.next(ProbeEvent::Error), failed);
    assert_eq!(ProbeStep::Spawn.next(ProbeEvent::Error), failed);
    assert_eq!(ProbeStep::Poll.next(ProbeEvent::Error), failed);
    assert_eq!(failed.next(ProbeEvent::Exited(true)), failed);
}
