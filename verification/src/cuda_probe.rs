//! The trial of the CUDA toolkit in a throw-away child process.
//!
//! A broken toolkit may panic, crash or hang while it loads. Done in a child with a deadline,
//! that cannot take the program along. [`ProbeStep`] says what to do next; the caller does it
//! and hands back a [`ProbeEvent`].

use crate::course::{is_course, lemma_door, met_before, Machine};
use crate::text::same_text;
use vstd::prelude::*;

verus! {

/// The argument that makes the program the child: it runs the trial and exits.
pub const PROBE_ARGUMENT: &'static str = "--cuda-smoke-test";

/// How long the child may take, in milliseconds.
pub const PROBE_DEADLINE_MS: u64 = 20_000;

/// How long to wait between two looks at the child, in milliseconds.
pub const PROBE_PAUSE_MS: u64 = 100;

/// Whether these arguments ask for the trial, so that the program is the child.
pub fn is_probe_run(args: &Vec<String>) -> (r: bool)
    ensures
        r == exists|i: int| 0 <= i < args@.len() && (#[trigger] args@[i])@ == PROBE_ARGUMENT@,
{
    let mut i: usize = 0;
    while i < args.len()
        invariant
            i <= args@.len(),
            forall|j: int| 0 <= j < i ==> (#[trigger] args@[j])@ != PROBE_ARGUMENT@,
        decreases args@.len() - i,
    {
        if same_text(args[i].as_str(), PROBE_ARGUMENT) {
            return true;
        }
        i = i + 1;
    }
    false
}

/// The exit code of the child. `None` stands for a trial that could not be run or that panicked.
pub fn probe_exit_code(verdict: Option<bool>) -> (r: i32)
    ensures
        r == (if verdict == Some(true) {
            0int
        } else {
            1
        }),
{
    match verdict {
        Some(true) => 0,
        _ => 1,
    }
}

/// The next thing to do for a trial.
#[derive(Clone, Copy, PartialEq, Eq, Structural, Debug)]
pub enum ProbeStep {
    /// Find the program's own executable.
    FindProgram,
    /// Start it as a child, with the argument of the trial.
    Spawn,
    /// Look whether the child has exited.
    Poll,
    /// Wait a little.
    Pause,
    /// Kill the child and wait for its end.
    Kill,
    /// The trial is over: whether the GPU can be used.
    Finished(bool),
}

/// What came of a step.
#[derive(Clone, Copy, PartialEq, Eq, Structural, Debug)]
pub enum ProbeEvent {
    Success,
    Error,
    /// The child has exited, with success or not.
    Exited(bool),
    /// The child is still running, this many milliseconds after its start.
    Running(u64),
}

impl Machine for ProbeStep {
    type Event = ProbeEvent;

    open spec fn next_state(self, event: ProbeEvent) -> ProbeStep {
        match (self, event) {
            (ProbeStep::FindProgram, ProbeEvent::Success) => ProbeStep::Spawn,
            (ProbeStep::FindProgram, ProbeEvent::Error) => ProbeStep::Finished(false),
            (ProbeStep::Spawn, ProbeEvent::Success) => ProbeStep::Poll,
            (ProbeStep::Spawn, ProbeEvent::Error) => ProbeStep::Finished(false),
            (ProbeStep::Poll, ProbeEvent::Exited(success)) => ProbeStep::Finished(success),
            (ProbeStep::Poll, ProbeEvent::Running(elapsed)) => if elapsed >= PROBE_DEADLINE_MS {
                ProbeStep::Kill
            } else {
                ProbeStep::Pause
            },
            (ProbeStep::Poll, ProbeEvent::Error) => ProbeStep::Finished(false),
            (ProbeStep::Pause, ProbeEvent::Success) => ProbeStep::Poll,
            (ProbeStep::Kill, _) => ProbeStep::Finished(false),
            _ => self,
        }
    }
}

impl ProbeStep {
    /// The first step of a trial.
    pub fn run_cuda_smoke_subprocess() -> (r: Self)
        ensures
            r == ProbeStep::FindProgram,
    {
        ProbeStep::FindProgram
    }

    /// The next step once `event` came of this one. An event that does not belong to the step
    /// changes nothing.
    pub fn next(self, event: ProbeEvent) -> (r: Self)
        ensures
            r == self.next_state(event),
    {
        match (self, event) {
            (ProbeStep::FindProgram, ProbeEvent::Success) => ProbeStep::Spawn,
            (ProbeStep::FindProgram, ProbeEvent::Error) => ProbeStep::Finished(false),
            (ProbeStep::Spawn, ProbeEvent::Success) => ProbeStep::Poll,
            (ProbeStep::Spawn, ProbeEvent::Error) => ProbeStep::Finished(false),
            (ProbeStep::Poll, ProbeEvent::Exited(success)) => ProbeStep::Finished(success),
            (ProbeStep::Poll, ProbeEvent::Running(elapsed)) => if elapsed >= PROBE_DEADLINE_MS {
                ProbeStep::Kill
            } else {
                ProbeStep::Pause
            },
            (ProbeStep::Poll, ProbeEvent::Error) => ProbeStep::Finished(false),
            (ProbeStep::Pause, ProbeEvent::Success) => ProbeStep::Poll,
            (ProbeStep::Kill, _) => ProbeStep::Finished(false),
            _ => self,
        }
    }
}

/// The GPU counts as usable only when the child exited with success.
pub proof fn law_only_a_clean_exit_counts(
    states: Seq<ProbeStep>,
    events: Seq<ProbeEvent>,
    k: int,
)
    requires
        is_course(states, events),
        states[0] == ProbeStep::FindProgram,
        0 <= k < states.len(),
        states[k] == ProbeStep::Finished(true),
    ensures
        met_before(
            states,
            events,
            k,
            |s: ProbeStep, e: ProbeEvent| s == ProbeStep::Poll && e == ProbeEvent::Exited(true),
        ),
{
    lemma_door(
        states,
        events,
        k,
        |s: ProbeStep| s == ProbeStep::Finished(true),
        |s: ProbeStep, e: ProbeEvent| s == ProbeStep::Poll && e == ProbeEvent::Exited(true),
    );
}

/// Whether an answer is one to this step.
pub open spec fn answers_probe(step: ProbeStep, event: ProbeEvent) -> bool {
    match step {
        ProbeStep::FindProgram | ProbeStep::Spawn => event == ProbeEvent::Success || event
            == ProbeEvent::Error,
        ProbeStep::Poll => event != ProbeEvent::Success,
        ProbeStep::Pause => event == ProbeEvent::Success,
        ProbeStep::Kill => true,
        ProbeStep::Finished(_) => false,
    }
}

/// A trial moves on at every answer to its step and at nothing else: once it is over, it stays so.
pub proof fn law_probe_moves_on(step: ProbeStep, event: ProbeEvent)
    ensures
        step.next_state(event) != step <==> answers_probe(step, event),
{
}

/// Each step of a trial comes only for its reason: the child is started once the program is found,
/// looked at once it is started, given a pause while it has time left, and killed where it has
/// none. The GPU counts as usable for a clean exit, and as not usable for any other end.
pub proof fn law_probe_steps_have_reasons(states: Seq<ProbeStep>, events: Seq<ProbeEvent>, k: int)
    requires
        is_course(states, events),
        states[0] == ProbeStep::FindProgram,
        0 <= k < states.len(),
    ensures
        (states[k] == ProbeStep::Spawn) ==> met_before(
            states,
            events,
            k,
            |s: ProbeStep, e: ProbeEvent| s == ProbeStep::FindProgram && e == ProbeEvent::Success,
        ),
        (states[k] == ProbeStep::Poll || states[k] == ProbeStep::Pause ||
            states[k] == ProbeStep::Kill) ==> met_before(
            states,
            events,
            k,
            |s: ProbeStep, e: ProbeEvent| s == ProbeStep::Spawn && e == ProbeEvent::Success,
        ),
        (states[k] == ProbeStep::Pause) ==> met_before(
            states,
            events,
            k,
            |s: ProbeStep, e: ProbeEvent|
                s == ProbeStep::Poll && e is Running && e->Running_0 < PROBE_DEADLINE_MS,
        ),
        (states[k] == ProbeStep::Kill) ==> met_before(
            states,
            events,
            k,
            |s: ProbeStep, e: ProbeEvent|
                s == ProbeStep::Poll && e is Running && e->Running_0 >= PROBE_DEADLINE_MS,
        ),
        (states[k] == ProbeStep::Finished(true)) ==> met_before(
            states,
            events,
            k,
            |s: ProbeStep, e: ProbeEvent| s == ProbeStep::Poll && e == ProbeEvent::Exited(true),
        ),
        (states[k] == ProbeStep::Finished(false)) ==> met_before(
            states,
            events,
            k,
            |s: ProbeStep, e: ProbeEvent|
                ((s == ProbeStep::FindProgram || s == ProbeStep::Spawn || s == ProbeStep::Poll) &&
                    e == ProbeEvent::Error) || (s == ProbeStep::Poll &&
                    e == ProbeEvent::Exited(false)) || s == ProbeStep::Kill,
        ),
{
    if states[k] == ProbeStep::Spawn {
        lemma_door(
            states,
            events,
            k,
            |s: ProbeStep| s == ProbeStep::Spawn,
            |s: ProbeStep, e: ProbeEvent| s == ProbeStep::FindProgram && e == ProbeEvent::Success,
        );
    }
    if states[k] == ProbeStep::Poll || states[k] == ProbeStep::Pause ||
        states[k] == ProbeStep::Kill {
        lemma_door(
            states,
            events,
            k,
            |s: ProbeStep| s == ProbeStep::Poll || s == ProbeStep::Pause || s == ProbeStep::Kill,
            |s: ProbeStep, e: ProbeEvent| s == ProbeStep::Spawn && e == ProbeEvent::Success,
        );
    }
    if states[k] == ProbeStep::Pause {
        lemma_door(
            states,
            events,
            k,
            |s: ProbeStep| s == ProbeStep::Pause,
            |s: ProbeStep, e: ProbeEvent|
                s == ProbeStep::Poll && e is Running && e->Running_0 < PROBE_DEADLINE_MS,
        );
    }
    if states[k] == ProbeStep::Kill {
        lemma_door(
            states,
            events,
            k,
            |s: ProbeStep| s == ProbeStep::Kill,
            |s: ProbeStep, e: ProbeEvent|
                s == ProbeStep::Poll && e is Running && e->Running_0 >= PROBE_DEADLINE_MS,
        );
    }
    if states[k] == ProbeStep::Finished(true) {
        lemma_door(
            states,
            events,
            k,
            |s: ProbeStep| s == ProbeStep::Finished(true),
            |s: ProbeStep, e: ProbeEvent| s == ProbeStep::Poll && e == ProbeEvent::Exited(true),
        );
    }
    if states[k] == ProbeStep::Finished(false) {
        lemma_door(
            states,
            events,
            k,
            |s: ProbeStep| s == ProbeStep::Finished(false),
            |s: ProbeStep, e: ProbeEvent|
                ((s == ProbeStep::FindProgram || s == ProbeStep::Spawn || s == ProbeStep::Poll) &&
                    e == ProbeEvent::Error) || (s == ProbeStep::Poll &&
                    e == ProbeEvent::Exited(false)) || s == ProbeStep::Kill,
        );
    }
}

/// A child that is still running at its deadline is killed before anything else happens.
pub proof fn law_a_late_child_is_killed(
    states: Seq<ProbeStep>,
    events: Seq<ProbeEvent>,
    k: int,
    elapsed: u64,
)
    requires
        is_course(states, events),
        0 <= k < events.len(),
        states[k] == ProbeStep::Poll,
        events[k] == ProbeEvent::Running(elapsed),
        elapsed >= PROBE_DEADLINE_MS,
    ensures
        states[k + 1] == ProbeStep::Kill,
        k + 1 < events.len() ==> states[k + 2] == ProbeStep::Finished(false),
{
    assert(states[k + 1] == states[k].next_state(events[k]));
    if k + 1 < events.len() {
        assert(states[k + 1 + 1] == states[k + 1].next_state(events[k + 1]));
    }
}

/// The program begins a pause only after a look that found the child running with time left.
pub proof fn law_pauses_keep_the_deadline(
    states: Seq<ProbeStep>,
    events: Seq<ProbeEvent>,
    k: int,
)
    requires
        is_course(states, events),
        0 < k < states.len(),
        states[k] == ProbeStep::Pause,
        states[k - 1] != ProbeStep::Pause,
    ensures
        states[k - 1] == ProbeStep::Poll,
        events[k - 1] matches ProbeEvent::Running(elapsed) && elapsed < PROBE_DEADLINE_MS,
{
    assert(states[k - 1 + 1] == states[k - 1].next_state(events[k - 1]));
}

} // verus!
