use koharu::clock::{FIRST_SECOND, LAST_SECOND};
use koharu::crash::{
    crash_dump, crash_log_name, crash_log_name_at, crash_notice, crash_time, crash_time_at,
    is_expected_panic, panic_location, panic_payload, CrashEvent, CrashFacts, CrashNotice,
    CrashStep, PanicSite,
};
use koharu::paths::Platform;

const RULE: &str =
    "================================================================================\n";

#[test]
fn only_the_probe_thread_may_panic() {
    assert!(is_expected_panic(Some("koharu-cuda-smoke")));
    assert!(!is_expected_panic(Some("cuda-smoke")));
    assert!(!is_expected_panic(Some("main")));
    assert!(!is_expected_panic(None));
}

#[test]
fn payload_is_the_literal_then_the_string() {
    assert_eq!(panic_payload(Some("a"), Some("b")), "a");
    assert_eq!(panic_payload(None, Some("b")), "b");
    assert_eq!(panic_payload(None, None), "Unknown panic payload");
}

#[test]
fn location_names_file_line_and_column() {
    let site = PanicSite { file: "src/a.rs".to_string(), line: 120, column: 7 };
    assert_eq!(panic_location(Some(site)), "src/a.rs:120:7");
    let far = PanicSite { file: String::new(), line: u32::MAX, column: 0 };
    assert_eq!(panic_location(Some(far)), ":4294967295:0");
    assert_eq!(panic_location(None), "Unknown location");
}

#[test]
fn dump_is_named_after_its_moment() {
    assert_eq!(crash_log_name_at(0, 0), Some("crash_19700101_000000.log".to_string()));
    assert_eq!(
        crash_log_name_at(1_700_000_000, 5),
        Some("crash_20231114_221320.log".to_string())
    );
    assert_eq!(
        crash_log_name_at(253_402_300_799, 999_999_999),
        Some("crash_99991231_235959.log".to_string())
    );
    assert_eq!(crash_log_name_at(i64::MAX, 0), None);
    assert!(crash_log_name_at(LAST_SECOND, 0).is_some());
    assert_eq!(crash_log_name_at(LAST_SECOND + 1, 0), None);
    assert!(crash_log_name_at(FIRST_SECOND, 0).is_some());
    assert_eq!(crash_log_name_at(FIRST_SECOND - 1, 0), None);
    assert_eq!(crash_log_name_at(0, u32::MAX), None);
}

#[test]
fn dump_states_its_moment() {
    assert_eq!(crash_time_at(0, 0), Some("1970-01-01T00:00:00+00:00".to_string()));
    assert_eq!(
        crash_time_at(1_700_000_000, 500_000_000),
        Some("2023-11-14T22:13:20.500+00:00".to_string())
    );
    assert_eq!(crash_time_at(i64::MIN, 0), None);
    assert_eq!(
        crash_time_at(59, 1_000_000_000),
        Some("1970-01-01T00:00:60+00:00".to_string())
    );
    assert!(crash_time_at(-1, 1_999_999_999).is_some());
    assert_eq!(crash_time_at(59, 2_000_000_000), None);
    assert_eq!(crash_time_at(58, 1_000_000_000), None);
    assert!(crash_time_at(LAST_SECOND, 0).is_some());
    assert!(crash_time_at(FIRST_SECOND, 0).is_some());
    assert_eq!(crash_time_at(FIRST_SECOND - 1, 0), None);
}

#[test]
fn the_present_can_be_named() {
    let name = crash_log_name();
    assert_eq!(name.len(), "crash_20231114_221320.log".len());
    assert!(name.starts_with("crash_20"));
    assert!(name.ends_with(".log"));
    let time = crash_time();
    assert!(time.starts_with("20"));
    assert!(time.ends_with("+00:00"));
}

fn facts() -> CrashFacts {
    CrashFacts {
        time: "T".to_string(),
        arch: "x86_64".to_string(),
        cpu: Some("Intel64".to_string()),
        cuda_available: true,
        payload: "boom".to_string(),
        location: "a.rs:1:2".to_string(),
        backtrace: "<bt>".to_string(),
    }
}

#[test]
fn dump_tells_everything() {
    let expected = format!(
        "{RULE}KOHARU-TH FATAL CRASH DUMP\n{RULE}Timestamp: T\nOS: Windows\nArch: x86_64\n\
         CPU: Intel64\nCUDA Available: true\n\nPanic Payload: boom\nLocation: a.rs:1:2\n\n\
         Backtrace:\n<bt>\n{RULE}"
    );
    assert_eq!(crash_dump(&facts()), expected);
}

#[test]
fn dump_of_an_unknown_processor() {
    let mut facts = facts();
    facts.cpu = None;
    facts.cuda_available = false;
    let text = crash_dump(&facts);
    assert!(text.contains("\nCPU: Unknown\nCUDA Available: false\n"));
}

#[test]
fn headless_run_prints_the_whole_location() {
    let notice = crash_notice(
        true,
        "boom",
        "/c/registry/src/h/cudarc/lib.rs:1:2",
        r"\\?\C:\k\crashes\crash_1.log",
        Platform::Windows,
    );
    let expected = format!(
        "{RULE}FATAL PANIC AT /c/registry/src/h/cudarc/lib.rs:1:2\nboom\n\
         Crash dump saved to C:\\k\\crashes\\crash_1.log\n{RULE}"
    );
    match notice {
        CrashNotice::Console(text) => assert_eq!(text, expected),
        CrashNotice::Dialog(_) => panic!("a dialog in a run without windows"),
    }
}

#[test]
fn dialog_shows_clean_location_and_path() {
    let notice = crash_notice(
        false,
        "boom",
        "/c/registry/src/h/cudarc/lib.rs:1:2",
        r"\\?\C:\k\crash_1.log",
        Platform::Windows,
    );
    let expected = "A fatal panic occurred (probably GPU CUDA Out Of Memory or model execution \
                    error).\n\nError: boom\nLocation: cudarc/lib.rs:1:2\n\nA detailed diagnostic \
                    crash dump has been saved to:\nC:\\k\\crash_1.log\n\nPlease report this issue \
                    to the Koharu-TH developers.";
    match notice {
        CrashNotice::Dialog(text) => assert_eq!(text, expected),
        CrashNotice::Console(_) => panic!("no dialog in a run with windows"),
    }
}

#[test]
fn expected_panic_is_left_alone() {
    let step = CrashStep::on_panic(Some("koharu-cuda-smoke"));
    assert_eq!(step, CrashStep::Ignore);
    assert_eq!(step.next(CrashEvent::Success), CrashStep::Ignore);
    assert_eq!(step.next(CrashEvent::Error), CrashStep::Ignore);
}

#[test]
fn crash_is_reported_before_the_exit() {
    let mut step = CrashStep::on_panic(Some("main"));
    let mut seen = vec![step];
    for event in [CrashEvent::Error, CrashEvent::Error, CrashEvent::Success] {
        step = step.next(event);
        seen.push(step);
    }
    step = step.next(CrashEvent::Success);
    seen.push(step);
    step = step.next(CrashEvent::Success);
    seen.push(step);
    assert_eq!(
        seen,
        vec![
            CrashStep::MakeCrashDir,
            CrashStep::WriteDump,
            CrashStep::ReportWriteFault,
            CrashStep::RecordCrash,
            CrashStep::Notify,
            CrashStep::Exit,
        ]
    );
    assert_eq!(CrashStep::WriteDump.next(CrashEvent::Success), CrashStep::RecordCrash);
    assert_eq!(CrashStep::on_panic(None), CrashStep::MakeCrashDir);
}
