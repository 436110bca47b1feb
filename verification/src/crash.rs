//! What is written and shown when the program panics.

use crate::clock::{
    format_utc, is_utc_moment, rfc3339_utc, utc_now, utc_rfc3339, utc_stamp, STAMP_PATTERN,
};
use crate::course::{is_course, lemma_door, lemma_kept, met_before, Machine};
use crate::paths::{clean_location, clean_panic_location, display_path, shown_path, Platform};
use crate::text::{contains, decimal, lemma_middle, occurs_at, push_decimal, same_text};
use vstd::prelude::*;
use vstd::string::StringExecFns;

verus! {

/// Whether a panic on a thread of this name is expected. The probe of the CUDA toolkit runs on a
/// thread of its own and catches its panics there; they are no crash of the program.
pub fn is_expected_panic(thread_name: Option<&str>) -> (r: bool)
    ensures
        r == (thread_name is Some && thread_name->0@ == "koharu-cuda-smoke"@),
{
    match thread_name {
        Some(name) => same_text(name, "koharu-cuda-smoke"),
        None => false,
    }
}

/// The message of a panic: the payload if it is text, whether a literal or an owned string.
pub fn panic_payload<'a>(literal: Option<&'a str>, owned: Option<&'a str>) -> (r: &'a str)
    ensures
        r@ == (if literal is Some {
            literal->0@
        } else if owned is Some {
            owned->0@
        } else {
            "Unknown panic payload"@
        }),
{
    match literal {
        Some(text) => text,
        None => match owned {
            Some(text) => text,
            None => "Unknown panic payload",
        },
    }
}

/// A place in the source.
pub struct PanicSite {
    pub file: String,
    pub line: u32,
    pub column: u32,
}

/// The place of a panic as text: file, line and column.
pub open spec fn location_text(site: Option<PanicSite>) -> Seq<char> {
    match site {
        Some(at) => at.file@ + ":"@ + decimal(at.line as nat) + ":"@ + decimal(at.column as nat),
        None => "Unknown location"@,
    }
}

/// The place of a panic begins with its file and ends with its line and column, between colons.
pub proof fn law_location_names_the_place(site: PanicSite)
    ensures
        site.file@.is_prefix_of(location_text(Some(site))),
        (":"@ + decimal(site.line as nat) + ":"@ + decimal(site.column as nat)).is_suffix_of(
            location_text(Some(site)),
        ),
        location_text(Some(site)).len() == site.file@.len() + 2 + decimal(site.line as nat).len()
            + decimal(site.column as nat).len(),
        location_text(None) == "Unknown location"@,
{
    reveal_strlit(":");
    let text = location_text(Some(site));
    let tail = ":"@ + decimal(site.line as nat) + ":"@ + decimal(site.column as nat);
    assert(text =~= site.file@ + tail);
    let n = site.file@.len() as int;
    assert(text.subrange(0, n) =~= site.file@);
    assert(text.subrange(n, text.len() as int) =~= tail);
}

/// Renders the place of a panic.
pub fn panic_location(site: Option<PanicSite>) -> (r: String)
    ensures
        r@ == location_text(site),
{
    match site {
        Some(at) => {
            let mut text = at.file.clone();
            text.append(":");
            push_decimal(&mut text, at.line as u64);
            text.append(":");
            push_decimal(&mut text, at.column as u64);
            text
        },
        None => String::from_str("Unknown location"),
    }
}

/// The name of the crash dump of a moment.
pub open spec fn crash_log_text(secs: int, nanos: int) -> Seq<char> {
    "crash_"@ + utc_stamp(secs, nanos, STAMP_PATTERN@) + ".log"@
}

/// The name of a crash dump is its stamp between `crash_` and `.log`.
pub proof fn law_dump_is_named_after_its_moment(secs: int, nanos: int)
    ensures
        ({
            let name = crash_log_text(secs, nanos);
            let stamp = utc_stamp(secs, nanos, "%Y%m%d_%H%M%S"@);
            &&& "crash_"@.is_prefix_of(name)
            &&& ".log"@.is_suffix_of(name)
            &&& name.len() == stamp.len() + 10
            &&& name.subrange(6, 6 + stamp.len() as int) == stamp
        }),
{
    let name = crash_log_text(secs, nanos);
    let stamp = utc_stamp(secs, nanos, STAMP_PATTERN@);
    let n = stamp.len() as int;
    reveal_strlit("crash_");
    reveal_strlit(".log");
    assert(name.subrange(0, 6) =~= "crash_"@);
    assert(name.subrange(6, 6 + n) =~= stamp);
    assert(name.subrange(6 + n, name.len() as int) =~= ".log"@);
}

/// The name of the crash dump of the moment `secs` seconds and `nanos` nanoseconds after the
/// Unix epoch; `None` where that is no moment of the calendar.
pub fn crash_log_name_at(secs: i64, nanos: u32) -> (r: Option<String>)
    ensures
        match r {
            Some(name) => is_utc_moment(secs as int, nanos as int) && name@ == crash_log_text(
                secs as int,
                nanos as int,
            ),
            None => !is_utc_moment(secs as int, nanos as int),
        },
{
    match format_utc(secs, nanos, STAMP_PATTERN) {
        Some(stamp) => {
            let mut name = String::from_str("crash_");
            name.append(stamp.as_str());
            name.append(".log");
            Some(name)
        },
        None => None,
    }
}

/// The name of the crash dump of this moment.
pub fn crash_log_name() -> (r: String)
    ensures
        exists|secs: int, nanos: int|
            is_utc_moment(secs, nanos) && r@ == #[trigger] crash_log_text(secs, nanos),
{
    let (secs, nanos) = utc_now();
    match crash_log_name_at(secs, nanos) {
        Some(name) => name,
        None => String::new(),
    }
}

/// The moment `secs` seconds and `nanos` nanoseconds after the Unix epoch as a crash dump states
/// it; `None` where that is no moment of the calendar.
pub fn crash_time_at(secs: i64, nanos: u32) -> (r: Option<String>)
    ensures
        match r {
            Some(text) => is_utc_moment(secs as int, nanos as int) && text@ == utc_rfc3339(
                secs as int,
                nanos as int,
            ),
            None => !is_utc_moment(secs as int, nanos as int),
        },
{
    rfc3339_utc(secs, nanos)
}

/// This moment as a crash dump states it.
pub fn crash_time() -> (r: String)
    ensures
        exists|secs: int, nanos: int|
            is_utc_moment(secs, nanos) && r@ == #[trigger] utc_rfc3339(secs, nanos),
{
    let (secs, nanos) = utc_now();
    match crash_time_at(secs, nanos) {
        Some(text) => text,
        None => String::new(),
    }
}

/// The rule that frames a crash report.
pub open spec fn rule() -> Seq<char> {
    "================================================================================\n"@
}

/// What a crash dump tells of the program and its machine.
pub struct CrashFacts {
    /// When the dump was written.
    pub time: String,
    /// The architecture that the program was built for.
    pub arch: String,
    /// What the system calls its processor, if it says.
    pub cpu: Option<String>,
    pub cuda_available: bool,
    /// The message of the panic.
    pub payload: String,
    /// The place of the panic.
    pub location: String,
    pub backtrace: String,
}

/// The text of a crash dump.
pub open spec fn dump_text(facts: CrashFacts) -> Seq<char> {
    rule() + "KOHARU-TH FATAL CRASH DUMP\n"@ + rule() + "Timestamp: "@ + facts.time@
        + "\nOS: Windows\nArch: "@ + facts.arch@ + "\nCPU: "@ + (match facts.cpu {
        Some(name) => name@,
        None => "Unknown"@,
    }) + "\nCUDA Available: "@ + (if facts.cuda_available {
        "true"@
    } else {
        "false"@
    }) + "\n\nPanic Payload: "@ + facts.payload@ + "\nLocation: "@ + facts.location@
        + "\n\nBacktrace:\n"@ + facts.backtrace@ + "\n"@ + rule()
}

proof fn lemma_labelled(before: Seq<char>, label: Seq<char>, fact: Seq<char>)
    ensures
        contains(before + label + fact, label + fact),
{
    assert(before + label + fact =~= before + (label + fact) + Seq::empty());
    lemma_middle(before, label + fact, Seq::empty());
}

proof fn lemma_still_there(before: Seq<char>, more: Seq<char>, part: Seq<char>)
    requires
        contains(before, part),
    ensures
        contains(before + more, part),
{
    let i = choose|i: int| occurs_at(before, part, i);
    assert((before + more).subrange(i, i + part.len()) =~= before.subrange(i, i + part.len()));
    assert(occurs_at(before + more, part, i));
}

/// A crash dump states every fact of the crash, whole and behind the words that announce it: the
/// time, the architecture, the processor or that it is unknown, whether CUDA was there, the
/// message, the place and the backtrace.
pub proof fn law_dump_states_the_facts(facts: CrashFacts)
    ensures
        ({
            let text = dump_text(facts);
            let cpu = match facts.cpu {
                Some(name) => name@,
                None => "Unknown"@,
            };
            let cuda = if facts.cuda_available {
                "true"@
            } else {
                "false"@
            };
            &&& contains(text, "Timestamp: "@ + facts.time@)
            &&& contains(text, "\nOS: Windows\nArch: "@ + facts.arch@)
            &&& contains(text, "\nCPU: "@ + cpu)
            &&& contains(text, "\nCUDA Available: "@ + cuda)
            &&& contains(text, "\n\nPanic Payload: "@ + facts.payload@)
            &&& contains(text, "\nLocation: "@ + facts.location@)
            &&& contains(text, "\n\nBacktrace:\n"@ + facts.backtrace@)
        }),
{
    let cpu = match facts.cpu {
        Some(name) => name@,
        None => "Unknown"@,
    };
    let cuda = if facts.cuda_available {
        "true"@
    } else {
        "false"@
    };
    let start = rule() + "KOHARU-TH FATAL CRASH DUMP\n"@ + rule();
    let part0 = start + "Timestamp: "@ + facts.time@;
    lemma_labelled(start, "Timestamp: "@, facts.time@);
    let part1 = part0 + "\nOS: Windows\nArch: "@ + facts.arch@;
    lemma_labelled(part0, "\nOS: Windows\nArch: "@, facts.arch@);
    lemma_still_there(part0, "\nOS: Windows\nArch: "@, "Timestamp: "@ + facts.time@);
    lemma_still_there(part0 + "\nOS: Windows\nArch: "@, facts.arch@, "Timestamp: "@ + facts.time@);
    let part2 = part1 + "\nCPU: "@ + cpu;
    lemma_labelled(part1, "\nCPU: "@, cpu);
    lemma_still_there(part1, "\nCPU: "@, "Timestamp: "@ + facts.time@);
    lemma_still_there(part1 + "\nCPU: "@, cpu, "Timestamp: "@ + facts.time@);
    lemma_still_there(part1, "\nCPU: "@, "\nOS: Windows\nArch: "@ + facts.arch@);
    lemma_still_there(part1 + "\nCPU: "@, cpu, "\nOS: Windows\nArch: "@ + facts.arch@);
    let part3 = part2 + "\nCUDA Available: "@ + cuda;
    lemma_labelled(part2, "\nCUDA Available: "@, cuda);
    lemma_still_there(part2, "\nCUDA Available: "@, "Timestamp: "@ + facts.time@);
    lemma_still_there(part2 + "\nCUDA Available: "@, cuda, "Timestamp: "@ + facts.time@);
    lemma_still_there(part2, "\nCUDA Available: "@, "\nOS: Windows\nArch: "@ + facts.arch@);
    lemma_still_there(part2 + "\nCUDA Available: "@, cuda, "\nOS: Windows\nArch: "@ + facts.arch@);
    lemma_still_there(part2, "\nCUDA Available: "@, "\nCPU: "@ + cpu);
    lemma_still_there(part2 + "\nCUDA Available: "@, cuda, "\nCPU: "@ + cpu);
    let part4 = part3 + "\n\nPanic Payload: "@ + facts.payload@;
    lemma_labelled(part3, "\n\nPanic Payload: "@, facts.payload@);
    lemma_still_there(part3, "\n\nPanic Payload: "@, "Timestamp: "@ + facts.time@);
    lemma_still_there(part3 + "\n\nPanic Payload: "@, facts.payload@, "Timestamp: "@ + facts.time@);
    lemma_still_there(part3, "\n\nPanic Payload: "@, "\nOS: Windows\nArch: "@ + facts.arch@);
    lemma_still_there(part3 + "\n\nPanic Payload: "@, facts.payload@, "\nOS: Windows\nArch: "@ + facts.arch@);
    lemma_still_there(part3, "\n\nPanic Payload: "@, "\nCPU: "@ + cpu);
    lemma_still_there(part3 + "\n\nPanic Payload: "@, facts.payload@, "\nCPU: "@ + cpu);
    lemma_still_there(part3, "\n\nPanic Payload: "@, "\nCUDA Available: "@ + cuda);
    lemma_still_there(part3 + "\n\nPanic Payload: "@, facts.payload@, "\nCUDA Available: "@ + cuda);
    let part5 = part4 + "\nLocation: "@ + facts.location@;
    lemma_labelled(part4, "\nLocation: "@, facts.location@);
    lemma_still_there(part4, "\nLocation: "@, "Timestamp: "@ + facts.time@);
    lemma_still_there(part4 + "\nLocation: "@, facts.location@, "Timestamp: "@ + facts.time@);
    lemma_still_there(part4, "\nLocation: "@, "\nOS: Windows\nArch: "@ + facts.arch@);
    lemma_still_there(part4 + "\nLocation: "@, facts.location@, "\nOS: Windows\nArch: "@ + facts.arch@);
    lemma_still_there(part4, "\nLocation: "@, "\nCPU: "@ + cpu);
    lemma_still_there(part4 + "\nLocation: "@, facts.location@, "\nCPU: "@ + cpu);
    lemma_still_there(part4, "\nLocation: "@, "\nCUDA Available: "@ + cuda);
    lemma_still_there(part4 + "\nLocation: "@, facts.location@, "\nCUDA Available: "@ + cuda);
    lemma_still_there(part4, "\nLocation: "@, "\n\nPanic Payload: "@ + facts.payload@);
    lemma_still_there(part4 + "\nLocation: "@, facts.location@, "\n\nPanic Payload: "@ + facts.payload@);
    let part6 = part5 + "\n\nBacktrace:\n"@ + facts.backtrace@;
    lemma_labelled(part5, "\n\nBacktrace:\n"@, facts.backtrace@);
    lemma_still_there(part5, "\n\nBacktrace:\n"@, "Timestamp: "@ + facts.time@);
    lemma_still_there(part5 + "\n\nBacktrace:\n"@, facts.backtrace@, "Timestamp: "@ + facts.time@);
    lemma_still_there(part5, "\n\nBacktrace:\n"@, "\nOS: Windows\nArch: "@ + facts.arch@);
    lemma_still_there(part5 + "\n\nBacktrace:\n"@, facts.backtrace@, "\nOS: Windows\nArch: "@ + facts.arch@);
    lemma_still_there(part5, "\n\nBacktrace:\n"@, "\nCPU: "@ + cpu);
    lemma_still_there(part5 + "\n\nBacktrace:\n"@, facts.backtrace@, "\nCPU: "@ + cpu);
    lemma_still_there(part5, "\n\nBacktrace:\n"@, "\nCUDA Available: "@ + cuda);
    lemma_still_there(part5 + "\n\nBacktrace:\n"@, facts.backtrace@, "\nCUDA Available: "@ + cuda);
    lemma_still_there(part5, "\n\nBacktrace:\n"@, "\n\nPanic Payload: "@ + facts.payload@);
    lemma_still_there(part5 + "\n\nBacktrace:\n"@, facts.backtrace@, "\n\nPanic Payload: "@ + facts.payload@);
    lemma_still_there(part5, "\n\nBacktrace:\n"@, "\nLocation: "@ + facts.location@);
    lemma_still_there(part5 + "\n\nBacktrace:\n"@, facts.backtrace@, "\nLocation: "@ + facts.location@);
    lemma_still_there(part6, "\n"@, "Timestamp: "@ + facts.time@);
    lemma_still_there(part6 + "\n"@, rule(), "Timestamp: "@ + facts.time@);
    lemma_still_there(part6, "\n"@, "\nOS: Windows\nArch: "@ + facts.arch@);
    lemma_still_there(part6 + "\n"@, rule(), "\nOS: Windows\nArch: "@ + facts.arch@);
    lemma_still_there(part6, "\n"@, "\nCPU: "@ + cpu);
    lemma_still_there(part6 + "\n"@, rule(), "\nCPU: "@ + cpu);
    lemma_still_there(part6, "\n"@, "\nCUDA Available: "@ + cuda);
    lemma_still_there(part6 + "\n"@, rule(), "\nCUDA Available: "@ + cuda);
    lemma_still_there(part6, "\n"@, "\n\nPanic Payload: "@ + facts.payload@);
    lemma_still_there(part6 + "\n"@, rule(), "\n\nPanic Payload: "@ + facts.payload@);
    lemma_still_there(part6, "\n"@, "\nLocation: "@ + facts.location@);
    lemma_still_there(part6 + "\n"@, rule(), "\nLocation: "@ + facts.location@);
    lemma_still_there(part6, "\n"@, "\n\nBacktrace:\n"@ + facts.backtrace@);
    lemma_still_there(part6 + "\n"@, rule(), "\n\nBacktrace:\n"@ + facts.backtrace@);
}

/// A crash dump holds nothing but the facts, the words that announce them and the rules that frame
/// it.
pub proof fn law_dump_holds_nothing_else(facts: CrashFacts)
    ensures
        dump_text(facts).len() == 3 * rule().len() + facts.time@.len() + facts.arch@.len() + (
        match facts.cpu {
            Some(name) => name@.len(),
            None => "Unknown"@.len(),
        }) + (if facts.cuda_available {
            "true"@.len()
        } else {
            "false"@.len()
        }) + facts.payload@.len() + facts.location@.len() + facts.backtrace@.len() + 122,
        rule().is_prefix_of(dump_text(facts)),
        rule().is_suffix_of(dump_text(facts)),
{
    reveal_strlit("KOHARU-TH FATAL CRASH DUMP\n");
    reveal_strlit("Timestamp: ");
    reveal_strlit("\nOS: Windows\nArch: ");
    reveal_strlit("\nCPU: ");
    reveal_strlit("\nCUDA Available: ");
    reveal_strlit("\n\nPanic Payload: ");
    reveal_strlit("\nLocation: ");
    reveal_strlit("\n\nBacktrace:\n");
    reveal_strlit("\n");
    let text = dump_text(facts);
    let n = rule().len() as int;
    assert(text.subrange(0, n) =~= rule());
    assert(text.subrange(text.len() - n, text.len() as int) =~= rule());
}

/// Writes the text of a crash dump.
pub fn crash_dump(facts: &CrashFacts) -> (r: String)
    ensures
        r@ == dump_text(*facts),
{
    let rule =
        "================================================================================\n";
    let mut text = String::from_str(rule);
    text.append("KOHARU-TH FATAL CRASH DUMP\n");
    text.append(rule);
    text.append("Timestamp: ");
    text.append(facts.time.as_str());
    text.append("\nOS: Windows\nArch: ");
    text.append(facts.arch.as_str());
    text.append("\nCPU: ");
    match &facts.cpu {
        Some(name) => text.append(name.as_str()),
        None => text.append("Unknown"),
    }
    text.append("\nCUDA Available: ");
    if facts.cuda_available {
        text.append("true");
    } else {
        text.append("false");
    }
    text.append("\n\nPanic Payload: ");
    text.append(facts.payload.as_str());
    text.append("\nLocation: ");
    text.append(facts.location.as_str());
    text.append("\n\nBacktrace:\n");
    text.append(facts.backtrace.as_str());
    text.append("\n");
    text.append(rule);
    text
}

/// The next thing to do on a panic.
#[derive(Clone, Copy, PartialEq, Eq, Structural, Debug)]
pub enum CrashStep {
    /// Make the directory of the crash dumps.
    MakeCrashDir,
    /// Write the dump.
    WriteDump,
    /// Tell the error stream that the dump could not be written.
    ReportWriteFault,
    /// Count the crash against the GPU runtime.
    RecordCrash,
    /// Tell the user.
    Notify,
    /// End the program with exit code 1.
    Exit,
    /// The panic is left to unwind.
    Ignore,
}

/// What came of a step.
#[derive(Clone, Copy, PartialEq, Eq, Structural, Debug)]
pub enum CrashEvent {
    Success,
    Error,
}

impl Machine for CrashStep {
    type Event = CrashEvent;

    open spec fn next_state(self, event: CrashEvent) -> CrashStep {
        match (self, event) {
            (CrashStep::MakeCrashDir, _) => CrashStep::WriteDump,
            (CrashStep::WriteDump, CrashEvent::Success) => CrashStep::RecordCrash,
            (CrashStep::WriteDump, CrashEvent::Error) => CrashStep::ReportWriteFault,
            (CrashStep::ReportWriteFault, _) => CrashStep::RecordCrash,
            (CrashStep::RecordCrash, _) => CrashStep::Notify,
            (CrashStep::Notify, _) => CrashStep::Exit,
            _ => self,
        }
    }
}

/// The first step for a panic on a thread of this name.
pub open spec fn first_crash_step(thread_name: Option<Seq<char>>) -> CrashStep {
    if thread_name == Some("koharu-cuda-smoke"@) {
        CrashStep::Ignore
    } else {
        CrashStep::MakeCrashDir
    }
}

impl CrashStep {
    /// The first step for a panic on a thread of this name.
    pub fn on_panic(thread_name: Option<&str>) -> (r: Self)
        ensures
            r == first_crash_step(
                match thread_name {
                    Some(name) => Some(name@),
                    None => None,
                },
            ),
    {
        if is_expected_panic(thread_name) {
            CrashStep::Ignore
        } else {
            CrashStep::MakeCrashDir
        }
    }

    /// The next step once `event` came of this one.
    pub fn next(self, event: CrashEvent) -> (r: Self)
        ensures
            r == self.next_state(event),
    {
        match (self, event) {
            (CrashStep::MakeCrashDir, _) => CrashStep::WriteDump,
            (CrashStep::WriteDump, CrashEvent::Success) => CrashStep::RecordCrash,
            (CrashStep::WriteDump, CrashEvent::Error) => CrashStep::ReportWriteFault,
            (CrashStep::ReportWriteFault, _) => CrashStep::RecordCrash,
            (CrashStep::RecordCrash, _) => CrashStep::Notify,
            (CrashStep::Notify, _) => CrashStep::Exit,
            (step, _) => step,
        }
    }
}

/// A panic of the probe is never treated as a crash: no dump, no dialog and no exit.
pub proof fn law_expected_panic_is_left_alone(
    states: Seq<CrashStep>,
    events: Seq<CrashEvent>,
    k: int,
)
    requires
        is_course(states, events),
        states[0] == first_crash_step(Some("koharu-cuda-smoke"@)),
        0 <= k < states.len(),
    ensures
        states[k] == CrashStep::Ignore,
{
    lemma_kept(states, events, k, |s: CrashStep| s == CrashStep::Ignore);
}

/// The program ends only once a dump was tried, the crash was counted and the user was told.
pub proof fn law_crash_is_reported_before_exit(
    states: Seq<CrashStep>,
    events: Seq<CrashEvent>,
    k: int,
    thread_name: Option<Seq<char>>,
)
    requires
        is_course(states, events),
        states[0] == first_crash_step(thread_name),
        0 <= k < states.len(),
        states[k] == CrashStep::Exit,
    ensures
        met_before(states, events, k, |s: CrashStep, e: CrashEvent| s == CrashStep::WriteDump),
        met_before(states, events, k, |s: CrashStep, e: CrashEvent| s == CrashStep::RecordCrash),
        met_before(states, events, k, |s: CrashStep, e: CrashEvent| s == CrashStep::Notify),
{
    let told = |s: CrashStep| s == CrashStep::Exit;
    let counted = |s: CrashStep| s == CrashStep::Notify || s == CrashStep::Exit;
    let dumped = |s: CrashStep|
        s == CrashStep::ReportWriteFault || s == CrashStep::RecordCrash || s == CrashStep::Notify
            || s == CrashStep::Exit;
    lemma_door(
        states,
        events,
        k,
        dumped,
        |s: CrashStep, e: CrashEvent| s == CrashStep::WriteDump,
    );
    lemma_door(
        states,
        events,
        k,
        counted,
        |s: CrashStep, e: CrashEvent| s == CrashStep::RecordCrash,
    );
    lemma_door(states, events, k, told, |s: CrashStep, e: CrashEvent| s == CrashStep::Notify);
}

/// Whether a crash has come further than `other`.
pub open spec fn crash_rank(step: CrashStep) -> int {
    match step {
        CrashStep::MakeCrashDir => 0,
        CrashStep::WriteDump => 1,
        CrashStep::ReportWriteFault => 2,
        CrashStep::RecordCrash => 3,
        CrashStep::Notify => 4,
        CrashStep::Exit => 5,
        CrashStep::Ignore => -1,
    }
}

/// A crash moves on at every answer until the program ends, and comes back to no step. It is left
/// alone on the thread of the probe and nowhere else.
pub proof fn law_crash_moves_on(step: CrashStep, event: CrashEvent, thread_name: Option<Seq<char>>)
    ensures
        step != CrashStep::Exit && step != CrashStep::Ignore ==> crash_rank(step.next_state(event))
            > crash_rank(step),
        step == CrashStep::Exit || step == CrashStep::Ignore ==> step.next_state(event) == step,
        first_crash_step(thread_name) == CrashStep::Ignore <==> thread_name == Some(
            "koharu-cuda-smoke"@,
        ),
        first_crash_step(thread_name) == CrashStep::MakeCrashDir <==> thread_name != Some(
            "koharu-cuda-smoke"@,
        ),
{
}

/// Nothing is left out of a crash: the directory, the dump, a word where the dump could not be
/// written, the count, the notice.
pub proof fn law_crash_leaves_nothing_out(states: Seq<CrashStep>, events: Seq<CrashEvent>, k: int)
    requires
        is_course(states, events),
        states[0] == CrashStep::MakeCrashDir,
        0 <= k < states.len(),
    ensures
        (crash_rank(states[k]) > crash_rank(CrashStep::MakeCrashDir)) ==> met_before(
            states,
            events,
            k,
            |s: CrashStep, e: CrashEvent| s == CrashStep::MakeCrashDir,
        ),
        (crash_rank(states[k]) > crash_rank(CrashStep::WriteDump)) ==> met_before(
            states,
            events,
            k,
            |s: CrashStep, e: CrashEvent| s == CrashStep::WriteDump,
        ),
        (crash_rank(states[k]) > crash_rank(CrashStep::ReportWriteFault)) ==> met_before(
            states,
            events,
            k,
            |s: CrashStep, e: CrashEvent|
                s == CrashStep::ReportWriteFault || (s == CrashStep::WriteDump &&
                    e == CrashEvent::Success),
        ),
        (crash_rank(states[k]) > crash_rank(CrashStep::RecordCrash)) ==> met_before(
            states,
            events,
            k,
            |s: CrashStep, e: CrashEvent| s == CrashStep::RecordCrash,
        ),
        (crash_rank(states[k]) > crash_rank(CrashStep::Notify)) ==> met_before(
            states,
            events,
            k,
            |s: CrashStep, e: CrashEvent| s == CrashStep::Notify,
        ),
{
    if crash_rank(states[k]) > crash_rank(CrashStep::MakeCrashDir) {
        lemma_door(
            states,
            events,
            k,
            |s: CrashStep| crash_rank(s) > crash_rank(CrashStep::MakeCrashDir),
            |s: CrashStep, e: CrashEvent| s == CrashStep::MakeCrashDir,
        );
    }
    if crash_rank(states[k]) > crash_rank(CrashStep::WriteDump) {
        lemma_door(
            states,
            events,
            k,
            |s: CrashStep| crash_rank(s) > crash_rank(CrashStep::WriteDump),
            |s: CrashStep, e: CrashEvent| s == CrashStep::WriteDump,
        );
    }
    if crash_rank(states[k]) > crash_rank(CrashStep::ReportWriteFault) {
        lemma_door(
            states,
            events,
            k,
            |s: CrashStep| crash_rank(s) > crash_rank(CrashStep::ReportWriteFault),
            |s: CrashStep, e: CrashEvent|
                s == CrashStep::ReportWriteFault || (s == CrashStep::WriteDump &&
                    e == CrashEvent::Success),
        );
    }
    if crash_rank(states[k]) > crash_rank(CrashStep::RecordCrash) {
        lemma_door(
            states,
            events,
            k,
            |s: CrashStep| crash_rank(s) > crash_rank(CrashStep::RecordCrash),
            |s: CrashStep, e: CrashEvent| s == CrashStep::RecordCrash,
        );
    }
    if crash_rank(states[k]) > crash_rank(CrashStep::Notify) {
        lemma_door(
            states,
            events,
            k,
            |s: CrashStep| crash_rank(s) > crash_rank(CrashStep::Notify),
            |s: CrashStep, e: CrashEvent| s == CrashStep::Notify,
        );
    }
}

/// A fault of the dump is reported only where there was one.
pub proof fn law_crash_steps_have_reasons(states: Seq<CrashStep>, events: Seq<CrashEvent>, k: int)
    requires
        is_course(states, events),
        states[0] == CrashStep::MakeCrashDir,
        0 <= k < states.len(),
    ensures
        (states[k] == CrashStep::ReportWriteFault) ==> met_before(
            states,
            events,
            k,
            |s: CrashStep, e: CrashEvent| s == CrashStep::WriteDump && e == CrashEvent::Error,
        ),
{
    if states[k] == CrashStep::ReportWriteFault {
        lemma_door(
            states,
            events,
            k,
            |s: CrashStep| s == CrashStep::ReportWriteFault,
            |s: CrashStep, e: CrashEvent| s == CrashStep::WriteDump && e == CrashEvent::Error,
        );
    }
}

/// What the user is told of a crash, and where.
pub enum CrashNotice {
    /// Lines for the error stream of a run without windows.
    Console(String),
    /// The text of a dialog.
    Dialog(String),
}

/// What a run without windows prints of a crash.
pub open spec fn console_text(
    payload: Seq<char>,
    location: Seq<char>,
    dump_path: Seq<char>,
    platform: Platform,
) -> Seq<char> {
    rule() + "FATAL PANIC AT "@ + location + "\n"@ + payload + "\nCrash dump saved to "@
        + shown_path(dump_path, platform) + "\n"@ + rule()
}

/// What the dialog says of a crash.
pub open spec fn dialog_text(
    payload: Seq<char>,
    location: Seq<char>,
    dump_path: Seq<char>,
    platform: Platform,
) -> Seq<char> {
    "A fatal panic occurred (probably GPU CUDA Out Of Memory or model execution error).\n\nError: "@
        + payload + "\nLocation: "@ + clean_location(location)
        + "\n\nA detailed diagnostic crash dump has been saved to:\n"@ + shown_path(
        dump_path,
        platform,
    ) + "\n\nPlease report this issue to the Koharu-TH developers."@
}

/// What the user is told of a crash names its message, its place and the path of its dump. The
/// dialog shows the place without the noise of the registry, the console shows it whole, and both
/// show the path as people read it.
pub proof fn law_notice_names_the_crash(
    payload: Seq<char>,
    location: Seq<char>,
    dump_path: Seq<char>,
    platform: Platform,
)
    ensures
        ({
            let dialog = dialog_text(payload, location, dump_path, platform);
            &&& contains(dialog, payload + "\nLocation: "@ + clean_location(location))
            &&& contains(
                dialog,
                clean_location(location)
                    + "\n\nA detailed diagnostic crash dump has been saved to:\n"@ + shown_path(
                    dump_path,
                    platform,
                ),
            )
            &&& dialog.len() == 211 + payload.len() + clean_location(location).len() + shown_path(
                dump_path,
                platform,
            ).len()
        }),
        ({
            let console = console_text(payload, location, dump_path, platform);
            &&& contains(console, "FATAL PANIC AT "@ + location + "\n"@ + payload)
            &&& contains(
                console,
                payload + "\nCrash dump saved to "@ + shown_path(dump_path, platform),
            )
            &&& console.len() == 2 * rule().len() + 38 + payload.len() + location.len()
                + shown_path(dump_path, platform).len()
        }),
{
    let intro =
        "A fatal panic occurred (probably GPU CUDA Out Of Memory or model execution error).\n\nError: "@;
    let place = clean_location(location);
    let saved = "\n\nA detailed diagnostic crash dump has been saved to:\n"@;
    let path = shown_path(dump_path, platform);
    let please = "\n\nPlease report this issue to the Koharu-TH developers."@;
    let dialog = dialog_text(payload, location, dump_path, platform);
    let console = console_text(payload, location, dump_path, platform);
    reveal_strlit(
        "A fatal panic occurred (probably GPU CUDA Out Of Memory or model execution error).\n\nError: ",
    );
    reveal_strlit("\nLocation: ");
    reveal_strlit("\n\nA detailed diagnostic crash dump has been saved to:\n");
    reveal_strlit("\n\nPlease report this issue to the Koharu-TH developers.");
    reveal_strlit("FATAL PANIC AT ");
    reveal_strlit("\n");
    reveal_strlit("\nCrash dump saved to ");
    let named = payload + "\nLocation: "@ + place;
    assert(dialog =~= intro + named + (saved + path + please));
    lemma_middle(intro, named, saved + path + please);
    let told = place + saved + path;
    assert(dialog =~= (intro + payload + "\nLocation: "@) + told + please);
    lemma_middle(intro + payload + "\nLocation: "@, told, please);
    let panic = "FATAL PANIC AT "@ + location + "\n"@ + payload;
    let end = "\n"@ + rule();
    assert(console =~= rule() + panic + ("\nCrash dump saved to "@ + path + end));
    lemma_middle(rule(), panic, "\nCrash dump saved to "@ + path + end);
    let dump = payload + "\nCrash dump saved to "@ + path;
    let head = rule() + "FATAL PANIC AT "@ + location + "\n"@;
    assert(console =~= head + dump + end);
    lemma_middle(head, dump, end);
}

/// Tells the user of a crash: on the error stream where there are no windows, else in a dialog,
/// which shows the place without the noise of the registry.
pub fn crash_notice(
    headless: bool,
    payload: &str,
    location: &str,
    dump_path: &str,
    platform: Platform,
) -> (r: CrashNotice)
    ensures
        match r {
            CrashNotice::Console(text) => headless && text@ == console_text(
                payload@,
                location@,
                dump_path@,
                platform,
            ),
            CrashNotice::Dialog(text) => !headless && text@ == dialog_text(
                payload@,
                location@,
                dump_path@,
                platform,
            ),
        },
{
    let shown = display_path(dump_path, platform);
    if headless {
        let rule =
            "================================================================================\n";
        let mut text = String::from_str(rule);
        text.append("FATAL PANIC AT ");
        text.append(location);
        text.append("\n");
        text.append(payload);
        text.append("\nCrash dump saved to ");
        text.append(shown.as_str());
        text.append("\n");
        text.append(rule);
        CrashNotice::Console(text)
    } else {
        let clean = clean_panic_location(location);
        let mut text = String::from_str(
            "A fatal panic occurred (probably GPU CUDA Out Of Memory or model execution error).\n\nError: ",
        );
        text.append(payload);
        text.append("\nLocation: ");
        text.append(clean.as_str());
        text.append("\n\nA detailed diagnostic crash dump has been saved to:\n");
        text.append(shown.as_str());
        text.append("\n\nPlease report this issue to the Koharu-TH developers.");
        CrashNotice::Dialog(text)
    }
}

} // verus!
