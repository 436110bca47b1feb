//! What happens behind the splash screen: the update, the GPU runtime, its trial, the resources
//! and the main window.
//!
//! [`Setup`] says what to do next; the caller does it and hands back a [`SetupEvent`].

use crate::course::{is_course, lemma_door, lemma_kept, met_before, Machine};
use crate::paths::Platform;
use vstd::prelude::*;
use vstd::string::StringExecFns;

verus! {

/// How long the check for an update may take, in seconds: a start without a network is not held
/// up.
pub const UPDATE_CHECK_LIMIT_SECS: u64 = 8;

/// The next thing to do behind the splash screen.
#[derive(Clone, Copy, PartialEq, Eq, Structural, Debug)]
pub enum SetupStep {
    /// Get hold of the updater.
    OpenUpdater,
    /// Check for an update, within the time limit.
    CheckUpdate,
    /// Tell the splash screen that an update begins.
    AnnounceUpdate,
    /// Download the update and install it.
    InstallUpdate,
    /// Tell the splash screen that the update is in place.
    AnnounceReady,
    /// Restart into the new version.
    Restart,
    /// Find out whether there is an NVIDIA GPU.
    FindGpu,
    /// Find out whether cuDNN is installed.
    FindCudnn,
    /// Download cuDNN and install it.
    InstallCudnn,
    /// Have the loader search the directory of the new cuDNN.
    RegisterNewCudnn,
    /// Find out once more whether there is an NVIDIA GPU.
    FindGpuForRuntime,
    /// Have the loader search the directory of cuDNN.
    RegisterCudnn,
    /// Have the loader search the CUDA toolkit.
    RegisterToolkit,
    /// Remove the versions of cuDNN that the active one has replaced. This is asked for wherever
    /// there is a GPU, after a download that failed too; to remove nothing while the active
    /// version is missing is left to the installer.
    RemoveSuperseded,
    /// Find out whether there is an NVIDIA GPU to try.
    FindGpuForProbe,
    /// Try CUDA in a child process.
    ProbeCuda,
    /// Note whether CUDA can be used.
    RecordProbe(bool),
    /// Build the resources.
    BuildResources,
    /// Tell the user that the start has failed.
    ReportFailure,
    /// Close the splash screen.
    CloseSplash,
    /// Show the main window.
    ShowMain,
    /// The program is up.
    Done,
    /// End the program with exit code 1.
    Exit,
}

/// What came of a step.
#[derive(Clone, Copy, PartialEq, Eq, Structural, Debug)]
pub enum SetupEvent {
    Success,
    Error,
    /// The check reached its time limit.
    TimedOut,
    /// Whether there is what was looked for: an update, a GPU, cuDNN, a window, a working CUDA.
    Found(bool),
}

/// A setup in progress.
#[derive(Clone, Copy, PartialEq, Eq, Structural, Debug)]
pub struct Setup {
    /// The system that the program runs on.
    pub platform: Platform,
    /// The command line forces the processor.
    pub cpu: bool,
    /// The next thing to do.
    pub step: SetupStep,
}

impl Setup {
    /// The same setup at another step.
    pub open spec fn at(self, step: SetupStep) -> Self {
        Setup { step, ..self }
    }

    /// What follows once the GPU runtime is in place: its trial, unless the processor is forced.
    pub open spec fn trial(self) -> SetupStep {
        if self.cpu {
            SetupStep::BuildResources
        } else {
            SetupStep::FindGpuForProbe
        }
    }
}

impl Machine for Setup {
    type Event = SetupEvent;

    open spec fn next_state(self, event: SetupEvent) -> Setup {
        match (self.step, event) {
            (SetupStep::OpenUpdater, SetupEvent::Success) => self.at(SetupStep::CheckUpdate),
            (SetupStep::OpenUpdater, SetupEvent::Error) => self.at(SetupStep::FindGpu),
            (SetupStep::CheckUpdate, SetupEvent::Found(found)) => self.at(
                if found {
                    SetupStep::AnnounceUpdate
                } else {
                    SetupStep::FindGpu
                },
            ),
            (SetupStep::CheckUpdate, SetupEvent::Error) => self.at(SetupStep::FindGpu),
            (SetupStep::CheckUpdate, SetupEvent::TimedOut) => self.at(SetupStep::FindGpu),
            (SetupStep::AnnounceUpdate, _) => self.at(SetupStep::InstallUpdate),
            (SetupStep::InstallUpdate, SetupEvent::Success) => self.at(SetupStep::AnnounceReady),
            (SetupStep::InstallUpdate, SetupEvent::Error) => self.at(SetupStep::FindGpu),
            (SetupStep::AnnounceReady, _) => self.at(SetupStep::Restart),
            (SetupStep::FindGpu, SetupEvent::Found(found)) => self.at(
                if found {
                    SetupStep::FindCudnn
                } else {
                    SetupStep::FindGpuForRuntime
                },
            ),
            (SetupStep::FindCudnn, SetupEvent::Found(found)) => self.at(
                if found {
                    SetupStep::FindGpuForRuntime
                } else {
                    SetupStep::InstallCudnn
                },
            ),
            (SetupStep::InstallCudnn, SetupEvent::Success) => self.at(SetupStep::RegisterNewCudnn),
            (SetupStep::InstallCudnn, SetupEvent::Error) => self.at(SetupStep::FindGpuForRuntime),
            (SetupStep::RegisterNewCudnn, _) => self.at(SetupStep::FindGpuForRuntime),
            (SetupStep::FindGpuForRuntime, SetupEvent::Found(found)) => self.at(
                if found {
                    SetupStep::RegisterCudnn
                } else {
                    self.trial()
                },
            ),
            (SetupStep::RegisterCudnn, _) => self.at(
                if self.platform == Platform::Windows {
                    SetupStep::RegisterToolkit
                } else {
                    SetupStep::RemoveSuperseded
                },
            ),
            (SetupStep::RegisterToolkit, _) => self.at(SetupStep::RemoveSuperseded),
            (SetupStep::RemoveSuperseded, _) => self.at(self.trial()),
            (SetupStep::FindGpuForProbe, SetupEvent::Found(found)) => self.at(
                if found {
                    SetupStep::ProbeCuda
                } else {
                    SetupStep::BuildResources
                },
            ),
            (SetupStep::ProbeCuda, SetupEvent::Found(usable)) => self.at(
                SetupStep::RecordProbe(usable),
            ),
            (SetupStep::RecordProbe(_), _) => self.at(SetupStep::BuildResources),
            (SetupStep::BuildResources, SetupEvent::Success) => self.at(SetupStep::CloseSplash),
            (SetupStep::BuildResources, SetupEvent::Error) => self.at(SetupStep::ReportFailure),
            (SetupStep::ReportFailure, _) => self.at(SetupStep::Exit),
            (SetupStep::CloseSplash, SetupEvent::Found(found)) => self.at(
                if found {
                    SetupStep::ShowMain
                } else {
                    SetupStep::Exit
                },
            ),
            (SetupStep::ShowMain, SetupEvent::Found(found)) => self.at(
                if found {
                    SetupStep::Done
                } else {
                    SetupStep::Exit
                },
            ),
            _ => self,
        }
    }
}

impl Setup {
    /// A setup at its start.
    pub fn begin(platform: Platform, cpu: bool) -> (r: Self)
        ensures
            r == (Setup { platform, cpu, step: SetupStep::OpenUpdater }),
    {
        Setup { platform, cpu, step: SetupStep::OpenUpdater }
    }

    fn after_runtime(&self) -> (r: SetupStep)
        ensures
            r == self.trial(),
    {
        if self.cpu {
            SetupStep::BuildResources
        } else {
            SetupStep::FindGpuForProbe
        }
    }

    /// Goes on once `event` came of the step. An event that does not belong to the step changes
    /// nothing.
    pub fn advance(&mut self, event: SetupEvent)
        ensures
            *final(self) == old(self).next_state(event),
    {
        let step = match (self.step, event) {
            (SetupStep::OpenUpdater, SetupEvent::Success) => SetupStep::CheckUpdate,
            (SetupStep::OpenUpdater, SetupEvent::Error) => SetupStep::FindGpu,
            (SetupStep::CheckUpdate, SetupEvent::Found(found)) => if found {
                SetupStep::AnnounceUpdate
            } else {
                SetupStep::FindGpu
            },
            (SetupStep::CheckUpdate, SetupEvent::Error) => SetupStep::FindGpu,
            (SetupStep::CheckUpdate, SetupEvent::TimedOut) => SetupStep::FindGpu,
            (SetupStep::AnnounceUpdate, _) => SetupStep::InstallUpdate,
            (SetupStep::InstallUpdate, SetupEvent::Success) => SetupStep::AnnounceReady,
            (SetupStep::InstallUpdate, SetupEvent::Error) => SetupStep::FindGpu,
            (SetupStep::AnnounceReady, _) => SetupStep::Restart,
            (SetupStep::FindGpu, SetupEvent::Found(found)) => if found {
                SetupStep::FindCudnn
            } else {
                SetupStep::FindGpuForRuntime
            },
            (SetupStep::FindCudnn, SetupEvent::Found(found)) => if found {
                SetupStep::FindGpuForRuntime
            } else {
                SetupStep::InstallCudnn
            },
            (SetupStep::InstallCudnn, SetupEvent::Success) => SetupStep::RegisterNewCudnn,
            (SetupStep::InstallCudnn, SetupEvent::Error) => SetupStep::FindGpuForRuntime,
            (SetupStep::RegisterNewCudnn, _) => SetupStep::FindGpuForRuntime,
            (SetupStep::FindGpuForRuntime, SetupEvent::Found(found)) => if found {
                SetupStep::RegisterCudnn
            } else {
                self.after_runtime()
            },
            (SetupStep::RegisterCudnn, _) => match self.platform {
                Platform::Windows => SetupStep::RegisterToolkit,
                Platform::Other => SetupStep::RemoveSuperseded,
            },
            (SetupStep::RegisterToolkit, _) => SetupStep::RemoveSuperseded,
            (SetupStep::RemoveSuperseded, _) => self.after_runtime(),
            (SetupStep::FindGpuForProbe, SetupEvent::Found(found)) => if found {
                SetupStep::ProbeCuda
            } else {
                SetupStep::BuildResources
            },
            (SetupStep::ProbeCuda, SetupEvent::Found(usable)) => SetupStep::RecordProbe(usable),
            (SetupStep::RecordProbe(_), _) => SetupStep::BuildResources,
            (SetupStep::BuildResources, SetupEvent::Success) => SetupStep::CloseSplash,
            (SetupStep::BuildResources, SetupEvent::Error) => SetupStep::ReportFailure,
            (SetupStep::ReportFailure, _) => SetupStep::Exit,
            (SetupStep::CloseSplash, SetupEvent::Found(found)) => if found {
                SetupStep::ShowMain
            } else {
                SetupStep::Exit
            },
            (SetupStep::ShowMain, SetupEvent::Found(found)) => if found {
                SetupStep::Done
            } else {
                SetupStep::Exit
            },
            (step, _) => step,
        };
        self.step = step;
    }
}

/// A setup at its start.
pub open spec fn is_setup_start(setup: Setup) -> bool {
    setup.step == SetupStep::OpenUpdater
}

/// Where a step stands in the order of all steps.
pub open spec fn setup_rank(step: SetupStep) -> int {
    match step {
        SetupStep::OpenUpdater => 0,
        SetupStep::CheckUpdate => 1,
        SetupStep::AnnounceUpdate => 2,
        SetupStep::InstallUpdate => 3,
        SetupStep::AnnounceReady => 4,
        SetupStep::FindGpu => 5,
        SetupStep::FindCudnn => 6,
        SetupStep::InstallCudnn => 7,
        SetupStep::RegisterNewCudnn => 8,
        SetupStep::FindGpuForRuntime => 9,
        SetupStep::RegisterCudnn => 10,
        SetupStep::RegisterToolkit => 11,
        SetupStep::RemoveSuperseded => 12,
        SetupStep::FindGpuForProbe => 13,
        SetupStep::ProbeCuda => 14,
        SetupStep::RecordProbe(_) => 15,
        SetupStep::BuildResources => 16,
        SetupStep::ReportFailure => 17,
        SetupStep::CloseSplash => 18,
        SetupStep::ShowMain => 19,
        SetupStep::Done => 20,
        SetupStep::Exit => 21,
        SetupStep::Restart => 22,
    }
}

/// No step comes back: each event leads on or changes nothing.
pub proof fn law_setup_leads_on(setup: Setup, event: SetupEvent)
    ensures
        setup.next_state(event) == setup || setup_rank(setup.next_state(event).step) > setup_rank(
            setup.step,
        ),
{
}

/// Whatever goes wrong with the update, the start goes on: no failure and no time limit on the
/// way to an update ends in anything but the next part of the start.
pub proof fn law_update_never_blocks(setup: Setup, event: SetupEvent)
    requires
        setup.step == SetupStep::OpenUpdater || setup.step == SetupStep::CheckUpdate || setup.step
            == SetupStep::InstallUpdate,
        event == SetupEvent::Error || (event == SetupEvent::TimedOut && setup.step
            == SetupStep::CheckUpdate),
    ensures
        setup.next_state(event).step == SetupStep::FindGpu,
{
}

/// The program restarts only into an update that was found and installed.
pub proof fn law_restart_needs_an_update(states: Seq<Setup>, events: Seq<SetupEvent>, k: int)
    requires
        is_course(states, events),
        is_setup_start(states[0]),
        0 <= k < states.len(),
        states[k].step == SetupStep::Restart,
    ensures
        met_before(
            states,
            events,
            k,
            |s: Setup, e: SetupEvent|
                s.step == SetupStep::CheckUpdate && e == SetupEvent::Found(true),
        ),
        met_before(
            states,
            events,
            k,
            |s: Setup, e: SetupEvent|
                s.step == SetupStep::InstallUpdate && e == SetupEvent::Success,
        ),
{
    lemma_door(
        states,
        events,
        k,
        |s: Setup|
            s.step == SetupStep::AnnounceUpdate || s.step == SetupStep::InstallUpdate || s.step
                == SetupStep::AnnounceReady || s.step == SetupStep::Restart,
        |s: Setup, e: SetupEvent| s.step == SetupStep::CheckUpdate && e == SetupEvent::Found(true),
    );
    lemma_door(
        states,
        events,
        k,
        |s: Setup| s.step == SetupStep::AnnounceReady || s.step == SetupStep::Restart,
        |s: Setup, e: SetupEvent| s.step == SetupStep::InstallUpdate && e == SetupEvent::Success,
    );
}

/// cuDNN is downloaded only where there is a GPU for it and it is missing.
pub proof fn law_cudnn_is_fetched_only_if_needed(
    states: Seq<Setup>,
    events: Seq<SetupEvent>,
    k: int,
)
    requires
        is_course(states, events),
        is_setup_start(states[0]),
        0 <= k < states.len(),
        states[k].step == SetupStep::InstallCudnn,
    ensures
        met_before(
            states,
            events,
            k,
            |s: Setup, e: SetupEvent| s.step == SetupStep::FindGpu && e == SetupEvent::Found(true),
        ),
        met_before(
            states,
            events,
            k,
            |s: Setup, e: SetupEvent|
                s.step == SetupStep::FindCudnn && e == SetupEvent::Found(false),
        ),
{
    lemma_door(
        states,
        events,
        k,
        |s: Setup| s.step == SetupStep::FindCudnn || s.step == SetupStep::InstallCudnn,
        |s: Setup, e: SetupEvent| s.step == SetupStep::FindGpu && e == SetupEvent::Found(true),
    );
    lemma_door(
        states,
        events,
        k,
        |s: Setup| s.step == SetupStep::InstallCudnn,
        |s: Setup, e: SetupEvent| s.step == SetupStep::FindCudnn && e == SetupEvent::Found(false),
    );
}

/// Unless the processor is forced, the resources are built only once it is known whether CUDA
/// can be used: there is no GPU, or it was tried and the verdict noted.
pub proof fn law_cuda_is_tried_before_resources(
    states: Seq<Setup>,
    events: Seq<SetupEvent>,
    k: int,
)
    requires
        is_course(states, events),
        is_setup_start(states[0]),
        !states[0].cpu,
        0 <= k < states.len(),
        states[k].step == SetupStep::BuildResources,
    ensures
        met_before(
            states,
            events,
            k,
            |s: Setup, e: SetupEvent|
                s.step is RecordProbe || (s.step == SetupStep::FindGpuForProbe && e
                    == SetupEvent::Found(false)),
        ),
{
    lemma_kept(states, events, k, |s: Setup| !s.cpu);
    lemma_door(
        states,
        events,
        k,
        |s: Setup| !s.cpu && setup_rank(s.step) >= 16 && s.step != SetupStep::Restart,
        |s: Setup, e: SetupEvent|
            s.step is RecordProbe || (s.step == SetupStep::FindGpuForProbe && e
                == SetupEvent::Found(false)),
    );
}

/// Where the processor is forced, CUDA is never tried.
pub proof fn law_forced_cpu_skips_the_trial(states: Seq<Setup>, events: Seq<SetupEvent>, k: int)
    requires
        is_course(states, events),
        is_setup_start(states[0]),
        states[0].cpu,
        0 <= k < states.len(),
    ensures
        states[k].step != SetupStep::FindGpuForProbe,
        states[k].step != SetupStep::ProbeCuda,
        !(states[k].step is RecordProbe),
{
    lemma_kept(
        states,
        events,
        k,
        |s: Setup|
            s.cpu && s.step != SetupStep::FindGpuForProbe && s.step != SetupStep::ProbeCuda && !(
            s.step is RecordProbe),
    );
}

/// The verdict that is noted is that of the trial.
pub proof fn law_the_verdict_is_noted(setup: Setup, usable: bool)
    requires
        setup.step == SetupStep::ProbeCuda,
    ensures
        setup.next_state(SetupEvent::Found(usable)).step == SetupStep::RecordProbe(usable),
{
}

/// The main window is shown only once the resources are built. The program ends only once the
/// user was told of a failure, or where a window is missing.
pub proof fn law_window_needs_resources(states: Seq<Setup>, events: Seq<SetupEvent>, k: int)
    requires
        is_course(states, events),
        is_setup_start(states[0]),
        0 <= k < states.len(),
    ensures
        states[k].step == SetupStep::ShowMain || states[k].step == SetupStep::Done ==> met_before(
            states,
            events,
            k,
            |s: Setup, e: SetupEvent|
                s.step == SetupStep::BuildResources && e == SetupEvent::Success,
        ),
        states[k].step == SetupStep::Exit ==> met_before(
            states,
            events,
            k,
            |s: Setup, e: SetupEvent|
                s.step == SetupStep::ReportFailure || (s.step == SetupStep::CloseSplash && e
                    == SetupEvent::Found(false)) || (s.step == SetupStep::ShowMain && e
                    == SetupEvent::Found(false)),
        ),
{
    if states[k].step == SetupStep::ShowMain || states[k].step == SetupStep::Done {
        lemma_door(
            states,
            events,
            k,
            |s: Setup|
                s.step == SetupStep::CloseSplash || s.step == SetupStep::ShowMain || s.step
                    == SetupStep::Done,
            |s: Setup, e: SetupEvent|
                s.step == SetupStep::BuildResources && e == SetupEvent::Success,
        );
    }
    if states[k].step == SetupStep::Exit {
        lemma_door(
            states,
            events,
            k,
            |s: Setup| s.step == SetupStep::Exit,
            |s: Setup, e: SetupEvent|
                s.step == SetupStep::ReportFailure || (s.step == SetupStep::CloseSplash && e
                    == SetupEvent::Found(false)) || (s.step == SetupStep::ShowMain && e
                    == SetupEvent::Found(false)),
        );
    }
}

/// The program has come further than `other`: no restart is on the way.
pub open spec fn is_past(step: SetupStep, other: SetupStep) -> bool {
    setup_rank(step) > setup_rank(other) && step != SetupStep::Restart
}

/// Whether an answer is one to this step.
pub open spec fn answers_setup(step: SetupStep, event: SetupEvent) -> bool {
    let done = event == SetupEvent::Success || event == SetupEvent::Error;
    match step {
        SetupStep::OpenUpdater
        | SetupStep::InstallUpdate
        | SetupStep::InstallCudnn
        | SetupStep::BuildResources => done,
        SetupStep::CheckUpdate => event is Found || event == SetupEvent::Error || event
            == SetupEvent::TimedOut,
        SetupStep::FindGpu
        | SetupStep::FindCudnn
        | SetupStep::FindGpuForRuntime
        | SetupStep::FindGpuForProbe
        | SetupStep::ProbeCuda
        | SetupStep::CloseSplash
        | SetupStep::ShowMain => event is Found,
        SetupStep::Restart | SetupStep::Done | SetupStep::Exit => false,
        _ => true,
    }
}

/// A setup moves on at every answer to its step and at nothing else, it keeps its platform and
/// its device, and it ends only with a restart, an exit or the program up.
pub proof fn law_setup_moves_on(setup: Setup, event: SetupEvent)
    ensures
        setup.next_state(event) != setup <==> answers_setup(setup.step, event),
        setup.next_state(event).platform == setup.platform,
        setup.next_state(event).cpu == setup.cpu,
{
}

/// Once an update is installed, nothing but the restart into it comes.
pub proof fn law_installed_update_is_started(
    states: Seq<Setup>,
    events: Seq<SetupEvent>,
    at: int,
    k: int,
)
    requires
        is_course(states, events),
        0 <= at < k < states.len(),
        states[at].step == SetupStep::InstallUpdate,
        events[at] == SetupEvent::Success,
    ensures
        states[k].step == SetupStep::AnnounceReady || states[k].step == SetupStep::Restart,
    decreases k,
{
    assert(states[k] == states[k - 1].next_state(events[k - 1]));
    if k - 1 > at {
        law_installed_update_is_started(states, events, at, k - 1);
    }
}

/// An update is looked for, announced and installed but for a reason: no updater, or no answer
/// that there is one.
pub proof fn law_update_is_looked_for(states: Seq<Setup>, events: Seq<SetupEvent>, k: int)
    requires
        is_course(states, events),
        is_setup_start(states[0]),
        0 <= k < states.len(),
    ensures
        (is_past(states[k].step, SetupStep::OpenUpdater)) ==> met_before(
            states,
            events,
            k,
            |s: Setup, e: SetupEvent| s.step == SetupStep::OpenUpdater,
        ),
        (is_past(states[k].step, SetupStep::CheckUpdate)) ==> met_before(
            states,
            events,
            k,
            |s: Setup, e: SetupEvent|
                s.step == SetupStep::CheckUpdate || (s.step == SetupStep::OpenUpdater &&
                    e == SetupEvent::Error),
        ),
        (is_past(states[k].step, SetupStep::AnnounceUpdate)) ==> met_before(
            states,
            events,
            k,
            |s: Setup, e: SetupEvent|
                s.step == SetupStep::AnnounceUpdate || (s.step == SetupStep::OpenUpdater &&
                    e == SetupEvent::Error) || (s.step == SetupStep::CheckUpdate &&
                    e != SetupEvent::Found(true)),
        ),
        (is_past(states[k].step, SetupStep::InstallUpdate)) ==> met_before(
            states,
            events,
            k,
            |s: Setup, e: SetupEvent|
                s.step == SetupStep::InstallUpdate || (s.step == SetupStep::OpenUpdater &&
                    e == SetupEvent::Error) || (s.step == SetupStep::CheckUpdate &&
                    e != SetupEvent::Found(true)),
        ),
{
    if is_past(states[k].step, SetupStep::OpenUpdater) {
        lemma_door(
            states,
            events,
            k,
            |s: Setup| is_past(s.step, SetupStep::OpenUpdater),
            |s: Setup, e: SetupEvent| s.step == SetupStep::OpenUpdater,
        );
    }
    if is_past(states[k].step, SetupStep::CheckUpdate) {
        lemma_door(
            states,
            events,
            k,
            |s: Setup| is_past(s.step, SetupStep::CheckUpdate),
            |s: Setup, e: SetupEvent|
                s.step == SetupStep::CheckUpdate || (s.step == SetupStep::OpenUpdater &&
                    e == SetupEvent::Error),
        );
    }
    if is_past(states[k].step, SetupStep::AnnounceUpdate) {
        lemma_door(
            states,
            events,
            k,
            |s: Setup| is_past(s.step, SetupStep::AnnounceUpdate),
            |s: Setup, e: SetupEvent|
                s.step == SetupStep::AnnounceUpdate || (s.step == SetupStep::OpenUpdater &&
                    e == SetupEvent::Error) || (s.step == SetupStep::CheckUpdate &&
                    e != SetupEvent::Found(true)),
        );
    }
    if is_past(states[k].step, SetupStep::InstallUpdate) {
        lemma_door(
            states,
            events,
            k,
            |s: Setup| is_past(s.step, SetupStep::InstallUpdate),
            |s: Setup, e: SetupEvent|
                s.step == SetupStep::InstallUpdate || (s.step == SetupStep::OpenUpdater &&
                    e == SetupEvent::Error) || (s.step == SetupStep::CheckUpdate &&
                    e != SetupEvent::Found(true)),
        );
    }
}

/// Wherever there is a GPU and cuDNN is missing, it is installed, and registered once it is.
pub proof fn law_cudnn_is_fetched_where_missing(states: Seq<Setup>, events: Seq<SetupEvent>, k: int)
    requires
        is_course(states, events),
        is_setup_start(states[0]),
        0 <= k < states.len(),
    ensures
        (is_past(states[k].step, SetupStep::FindGpu)) ==> met_before(
            states,
            events,
            k,
            |s: Setup, e: SetupEvent| s.step == SetupStep::FindGpu,
        ),
        (is_past(states[k].step, SetupStep::FindCudnn)) ==> met_before(
            states,
            events,
            k,
            |s: Setup, e: SetupEvent|
                s.step == SetupStep::FindCudnn || (s.step == SetupStep::FindGpu &&
                    e == SetupEvent::Found(false)),
        ),
        (is_past(states[k].step, SetupStep::InstallCudnn)) ==> met_before(
            states,
            events,
            k,
            |s: Setup, e: SetupEvent|
                s.step == SetupStep::InstallCudnn || (s.step == SetupStep::FindGpu &&
                    e == SetupEvent::Found(false)) || (s.step == SetupStep::FindCudnn &&
                    e == SetupEvent::Found(true)),
        ),
        (is_past(states[k].step, SetupStep::RegisterNewCudnn)) ==> met_before(
            states,
            events,
            k,
            |s: Setup, e: SetupEvent|
                s.step == SetupStep::RegisterNewCudnn || (s.step == SetupStep::FindGpu &&
                    e == SetupEvent::Found(false)) || (s.step == SetupStep::FindCudnn &&
                    e == SetupEvent::Found(true)) || (s.step == SetupStep::InstallCudnn &&
                    e == SetupEvent::Error),
        ),
{
    if is_past(states[k].step, SetupStep::FindGpu) {
        lemma_door(
            states,
            events,
            k,
            |s: Setup| is_past(s.step, SetupStep::FindGpu),
            |s: Setup, e: SetupEvent| s.step == SetupStep::FindGpu,
        );
    }
    if is_past(states[k].step, SetupStep::FindCudnn) {
        lemma_door(
            states,
            events,
            k,
            |s: Setup| is_past(s.step, SetupStep::FindCudnn),
            |s: Setup, e: SetupEvent|
                s.step == SetupStep::FindCudnn || (s.step == SetupStep::FindGpu &&
                    e == SetupEvent::Found(false)),
        );
    }
    if is_past(states[k].step, SetupStep::InstallCudnn) {
        lemma_door(
            states,
            events,
            k,
            |s: Setup| is_past(s.step, SetupStep::InstallCudnn),
            |s: Setup, e: SetupEvent|
                s.step == SetupStep::InstallCudnn || (s.step == SetupStep::FindGpu &&
                    e == SetupEvent::Found(false)) || (s.step == SetupStep::FindCudnn &&
                    e == SetupEvent::Found(true)),
        );
    }
    if is_past(states[k].step, SetupStep::RegisterNewCudnn) {
        lemma_door(
            states,
            events,
            k,
            |s: Setup| is_past(s.step, SetupStep::RegisterNewCudnn),
            |s: Setup, e: SetupEvent|
                s.step == SetupStep::RegisterNewCudnn || (s.step == SetupStep::FindGpu &&
                    e == SetupEvent::Found(false)) || (s.step == SetupStep::FindCudnn &&
                    e == SetupEvent::Found(true)) || (s.step == SetupStep::InstallCudnn &&
                    e == SetupEvent::Error),
        );
    }
}

/// Wherever the runtime step finds a GPU, cuDNN and, on Windows, the toolkit are registered and
/// superseded versions removed before CUDA is tried and before the resources are built, on a first
/// start and on any later one.
pub proof fn law_runtime_is_registered(states: Seq<Setup>, events: Seq<SetupEvent>, k: int)
    requires
        is_course(states, events),
        is_setup_start(states[0]),
        0 <= k < states.len(),
    ensures
        (is_past(states[k].step, SetupStep::FindGpuForRuntime)) ==> met_before(
            states,
            events,
            k,
            |s: Setup, e: SetupEvent| s.step == SetupStep::FindGpuForRuntime,
        ),
        (is_past(states[k].step, SetupStep::RegisterCudnn)) ==> met_before(
            states,
            events,
            k,
            |s: Setup, e: SetupEvent|
                s.step == SetupStep::RegisterCudnn || (s.step == SetupStep::FindGpuForRuntime &&
                    e == SetupEvent::Found(false)),
        ),
        (is_past(states[k].step, SetupStep::RegisterToolkit) &&
            states[k].platform == Platform::Windows) ==> met_before(
            states,
            events,
            k,
            |s: Setup, e: SetupEvent|
                s.step == SetupStep::RegisterToolkit || (s.step == SetupStep::FindGpuForRuntime &&
                    e == SetupEvent::Found(false)),
        ),
        (is_past(states[k].step, SetupStep::RemoveSuperseded)) ==> met_before(
            states,
            events,
            k,
            |s: Setup, e: SetupEvent|
                s.step == SetupStep::RemoveSuperseded || (s.step == SetupStep::FindGpuForRuntime
                    && e == SetupEvent::Found(false)),
        ),
{
    if is_past(states[k].step, SetupStep::FindGpuForRuntime) {
        lemma_door(
            states,
            events,
            k,
            |s: Setup| is_past(s.step, SetupStep::FindGpuForRuntime),
            |s: Setup, e: SetupEvent| s.step == SetupStep::FindGpuForRuntime,
        );
    }
    if is_past(states[k].step, SetupStep::RegisterCudnn) {
        lemma_door(
            states,
            events,
            k,
            |s: Setup| is_past(s.step, SetupStep::RegisterCudnn),
            |s: Setup, e: SetupEvent|
                s.step == SetupStep::RegisterCudnn || (s.step == SetupStep::FindGpuForRuntime &&
                    e == SetupEvent::Found(false)),
        );
    }
    if is_past(states[k].step, SetupStep::RegisterToolkit) &&
        states[k].platform == Platform::Windows {
        lemma_door(
            states,
            events,
            k,
            |s: Setup|
                is_past(s.step, SetupStep::RegisterToolkit) && s.platform == Platform::Windows,
            |s: Setup, e: SetupEvent|
                s.step == SetupStep::RegisterToolkit || (s.step == SetupStep::FindGpuForRuntime &&
                    e == SetupEvent::Found(false)),
        );
    }
    if is_past(states[k].step, SetupStep::RemoveSuperseded) {
        lemma_door(
            states,
            events,
            k,
            |s: Setup| is_past(s.step, SetupStep::RemoveSuperseded),
            |s: Setup, e: SetupEvent|
                s.step == SetupStep::RemoveSuperseded || (s.step == SetupStep::FindGpuForRuntime
                    && e == SetupEvent::Found(false)),
        );
    }
}

/// Unless the processor is forced, CUDA is tried wherever there is a GPU, the verdict is noted, and
/// nobody gets a window or an exit without a try at the resources.
pub proof fn law_cuda_is_tried_where_there_is_a_gpu(states: Seq<Setup>, events: Seq<SetupEvent>, k: int)
    requires
        is_course(states, events),
        is_setup_start(states[0]),
        0 <= k < states.len(),
    ensures
        (is_past(states[k].step, SetupStep::FindGpuForProbe) && !states[k].cpu) ==> met_before(
            states,
            events,
            k,
            |s: Setup, e: SetupEvent| s.step == SetupStep::FindGpuForProbe,
        ),
        (is_past(states[k].step, SetupStep::ProbeCuda) && !states[k].cpu) ==> met_before(
            states,
            events,
            k,
            |s: Setup, e: SetupEvent|
                s.step == SetupStep::ProbeCuda || (s.step == SetupStep::FindGpuForProbe &&
                    e == SetupEvent::Found(false)),
        ),
        (is_past(states[k].step, SetupStep::RecordProbe(true)) && !states[k].cpu) ==> met_before(
            states,
            events,
            k,
            |s: Setup, e: SetupEvent|
                s.step is RecordProbe || (s.step == SetupStep::FindGpuForProbe &&
                    e == SetupEvent::Found(false)),
        ),
        (is_past(states[k].step, SetupStep::BuildResources)) ==> met_before(
            states,
            events,
            k,
            |s: Setup, e: SetupEvent| s.step == SetupStep::BuildResources,
        ),
{
    if is_past(states[k].step, SetupStep::FindGpuForProbe) && !states[k].cpu {
        lemma_door(
            states,
            events,
            k,
            |s: Setup| is_past(s.step, SetupStep::FindGpuForProbe) && !s.cpu,
            |s: Setup, e: SetupEvent| s.step == SetupStep::FindGpuForProbe,
        );
    }
    if is_past(states[k].step, SetupStep::ProbeCuda) && !states[k].cpu {
        lemma_door(
            states,
            events,
            k,
            |s: Setup| is_past(s.step, SetupStep::ProbeCuda) && !s.cpu,
            |s: Setup, e: SetupEvent|
                s.step == SetupStep::ProbeCuda || (s.step == SetupStep::FindGpuForProbe &&
                    e == SetupEvent::Found(false)),
        );
    }
    if is_past(states[k].step, SetupStep::RecordProbe(true)) && !states[k].cpu {
        lemma_door(
            states,
            events,
            k,
            |s: Setup| is_past(s.step, SetupStep::RecordProbe(true)) && !s.cpu,
            |s: Setup, e: SetupEvent|
                s.step is RecordProbe || (s.step == SetupStep::FindGpuForProbe &&
                    e == SetupEvent::Found(false)),
        );
    }
    if is_past(states[k].step, SetupStep::BuildResources) {
        lemma_door(
            states,
            events,
            k,
            |s: Setup| is_past(s.step, SetupStep::BuildResources),
            |s: Setup, e: SetupEvent| s.step == SetupStep::BuildResources,
        );
    }
}

/// Nothing comes up behind the splash screen but for a reason: each step that depends on an answer
/// has met that answer.
pub proof fn law_setup_steps_have_reasons(states: Seq<Setup>, events: Seq<SetupEvent>, k: int)
    requires
        is_course(states, events),
        is_setup_start(states[0]),
        0 <= k < states.len(),
    ensures
        (states[k].step == SetupStep::CheckUpdate) ==> met_before(
            states,
            events,
            k,
            |s: Setup, e: SetupEvent|
                (s.step == SetupStep::OpenUpdater && e == SetupEvent::Success),
        ),
        (states[k].step == SetupStep::AnnounceUpdate) ==> met_before(
            states,
            events,
            k,
            |s: Setup, e: SetupEvent|
                (s.step == SetupStep::CheckUpdate && e == SetupEvent::Found(true)),
        ),
        (states[k].step == SetupStep::InstallUpdate) ==> met_before(
            states,
            events,
            k,
            |s: Setup, e: SetupEvent| s.step == SetupStep::AnnounceUpdate,
        ),
        (states[k].step == SetupStep::AnnounceReady) ==> met_before(
            states,
            events,
            k,
            |s: Setup, e: SetupEvent|
                (s.step == SetupStep::InstallUpdate && e == SetupEvent::Success),
        ),
        (states[k].step == SetupStep::Restart) ==> met_before(
            states,
            events,
            k,
            |s: Setup, e: SetupEvent| s.step == SetupStep::AnnounceReady,
        ),
        (states[k].step == SetupStep::FindCudnn) ==> met_before(
            states,
            events,
            k,
            |s: Setup, e: SetupEvent|
                (s.step == SetupStep::FindGpu && e == SetupEvent::Found(true)),
        ),
        (states[k].step == SetupStep::InstallCudnn) ==> met_before(
            states,
            events,
            k,
            |s: Setup, e: SetupEvent|
                (s.step == SetupStep::FindCudnn && e == SetupEvent::Found(false)),
        ),
        (states[k].step == SetupStep::RegisterNewCudnn) ==> met_before(
            states,
            events,
            k,
            |s: Setup, e: SetupEvent|
                (s.step == SetupStep::InstallCudnn && e == SetupEvent::Success),
        ),
        (states[k].step == SetupStep::RegisterCudnn) ==> met_before(
            states,
            events,
            k,
            |s: Setup, e: SetupEvent|
                (s.step == SetupStep::FindGpuForRuntime && e == SetupEvent::Found(true)),
        ),
        (states[k].step == SetupStep::RegisterToolkit) ==> met_before(
            states,
            events,
            k,
            |s: Setup, e: SetupEvent|
                s.step == SetupStep::RegisterCudnn && s.platform == Platform::Windows,
        ),
        (states[k].step == SetupStep::RemoveSuperseded) ==> met_before(
            states,
            events,
            k,
            |s: Setup, e: SetupEvent|
                s.step == SetupStep::RegisterCudnn || s.step == SetupStep::RegisterToolkit,
        ),
        (states[k].step == SetupStep::ProbeCuda) ==> met_before(
            states,
            events,
            k,
            |s: Setup, e: SetupEvent|
                (s.step == SetupStep::FindGpuForProbe && e == SetupEvent::Found(true)),
        ),
        (states[k].step == SetupStep::RecordProbe(true)) ==> met_before(
            states,
            events,
            k,
            |s: Setup, e: SetupEvent|
                (s.step == SetupStep::ProbeCuda && e == SetupEvent::Found(true)),
        ),
        (states[k].step == SetupStep::RecordProbe(false)) ==> met_before(
            states,
            events,
            k,
            |s: Setup, e: SetupEvent|
                (s.step == SetupStep::ProbeCuda && e == SetupEvent::Found(false)),
        ),
        (states[k].step == SetupStep::ReportFailure) ==> met_before(
            states,
            events,
            k,
            |s: Setup, e: SetupEvent|
                (s.step == SetupStep::BuildResources && e == SetupEvent::Error),
        ),
        (states[k].step == SetupStep::CloseSplash) ==> met_before(
            states,
            events,
            k,
            |s: Setup, e: SetupEvent|
                (s.step == SetupStep::BuildResources && e == SetupEvent::Success),
        ),
        (states[k].step == SetupStep::ShowMain) ==> met_before(
            states,
            events,
            k,
            |s: Setup, e: SetupEvent|
                (s.step == SetupStep::CloseSplash && e == SetupEvent::Found(true)),
        ),
        (states[k].step == SetupStep::Done) ==> met_before(
            states,
            events,
            k,
            |s: Setup, e: SetupEvent|
                (s.step == SetupStep::ShowMain && e == SetupEvent::Found(true)),
        ),
        (states[k].step == SetupStep::Exit) ==> met_before(
            states,
            events,
            k,
            |s: Setup, e: SetupEvent|
                s.step == SetupStep::ReportFailure || (s.step == SetupStep::CloseSplash &&
                    e == SetupEvent::Found(false)) || (s.step == SetupStep::ShowMain &&
                    e == SetupEvent::Found(false)),
        ),
{
    if states[k].step == SetupStep::CheckUpdate {
        lemma_door(
            states,
            events,
            k,
            |s: Setup| s.step == SetupStep::CheckUpdate,
            |s: Setup, e: SetupEvent|
                (s.step == SetupStep::OpenUpdater && e == SetupEvent::Success),
        );
    }
    if states[k].step == SetupStep::AnnounceUpdate {
        lemma_door(
            states,
            events,
            k,
            |s: Setup| s.step == SetupStep::AnnounceUpdate,
            |s: Setup, e: SetupEvent|
                (s.step == SetupStep::CheckUpdate && e == SetupEvent::Found(true)),
        );
    }
    if states[k].step == SetupStep::InstallUpdate {
        lemma_door(
            states,
            events,
            k,
            |s: Setup| s.step == SetupStep::InstallUpdate,
            |s: Setup, e: SetupEvent| s.step == SetupStep::AnnounceUpdate,
        );
    }
    if states[k].step == SetupStep::AnnounceReady {
        lemma_door(
            states,
            events,
            k,
            |s: Setup| s.step == SetupStep::AnnounceReady,
            |s: Setup, e: SetupEvent|
                (s.step == SetupStep::InstallUpdate && e == SetupEvent::Success),
        );
    }
    if states[k].step == SetupStep::Restart {
        lemma_door(
            states,
            events,
            k,
            |s: Setup| s.step == SetupStep::Restart,
            |s: Setup, e: SetupEvent| s.step == SetupStep::AnnounceReady,
        );
    }
    if states[k].step == SetupStep::FindCudnn {
        lemma_door(
            states,
            events,
            k,
            |s: Setup| s.step == SetupStep::FindCudnn,
            |s: Setup, e: SetupEvent|
                (s.step == SetupStep::FindGpu && e == SetupEvent::Found(true)),
        );
    }
    if states[k].step == SetupStep::InstallCudnn {
        lemma_door(
            states,
            events,
            k,
            |s: Setup| s.step == SetupStep::InstallCudnn,
            |s: Setup, e: SetupEvent|
                (s.step == SetupStep::FindCudnn && e == SetupEvent::Found(false)),
        );
    }
    if states[k].step == SetupStep::RegisterNewCudnn {
        lemma_door(
            states,
            events,
            k,
            |s: Setup| s.step == SetupStep::RegisterNewCudnn,
            |s: Setup, e: SetupEvent|
                (s.step == SetupStep::InstallCudnn && e == SetupEvent::Success),
        );
    }
    if states[k].step == SetupStep::RegisterCudnn {
        lemma_door(
            states,
            events,
            k,
            |s: Setup| s.step == SetupStep::RegisterCudnn,
            |s: Setup, e: SetupEvent|
                (s.step == SetupStep::FindGpuForRuntime && e == SetupEvent::Found(true)),
        );
    }
    if states[k].step == SetupStep::RegisterToolkit {
        lemma_door(
            states,
            events,
            k,
            |s: Setup| s.step == SetupStep::RegisterToolkit,
            |s: Setup, e: SetupEvent|
                s.step == SetupStep::RegisterCudnn && s.platform == Platform::Windows,
        );
    }
    if states[k].step == SetupStep::RemoveSuperseded {
        lemma_door(
            states,
            events,
            k,
            |s: Setup| s.step == SetupStep::RemoveSuperseded,
            |s: Setup, e: SetupEvent|
                s.step == SetupStep::RegisterCudnn || s.step == SetupStep::RegisterToolkit,
        );
    }
    if states[k].step == SetupStep::ProbeCuda {
        lemma_door(
            states,
            events,
            k,
            |s: Setup| s.step == SetupStep::ProbeCuda,
            |s: Setup, e: SetupEvent|
                (s.step == SetupStep::FindGpuForProbe && e == SetupEvent::Found(true)),
        );
    }
    if states[k].step == SetupStep::RecordProbe(true) {
        lemma_door(
            states,
            events,
            k,
            |s: Setup| s.step == SetupStep::RecordProbe(true),
            |s: Setup, e: SetupEvent|
                (s.step == SetupStep::ProbeCuda && e == SetupEvent::Found(true)),
        );
    }
    if states[k].step == SetupStep::RecordProbe(false) {
        lemma_door(
            states,
            events,
            k,
            |s: Setup| s.step == SetupStep::RecordProbe(false),
            |s: Setup, e: SetupEvent|
                (s.step == SetupStep::ProbeCuda && e == SetupEvent::Found(false)),
        );
    }
    if states[k].step == SetupStep::ReportFailure {
        lemma_door(
            states,
            events,
            k,
            |s: Setup| s.step == SetupStep::ReportFailure,
            |s: Setup, e: SetupEvent|
                (s.step == SetupStep::BuildResources && e == SetupEvent::Error),
        );
    }
    if states[k].step == SetupStep::CloseSplash {
        lemma_door(
            states,
            events,
            k,
            |s: Setup| s.step == SetupStep::CloseSplash,
            |s: Setup, e: SetupEvent|
                (s.step == SetupStep::BuildResources && e == SetupEvent::Success),
        );
    }
    if states[k].step == SetupStep::ShowMain {
        lemma_door(
            states,
            events,
            k,
            |s: Setup| s.step == SetupStep::ShowMain,
            |s: Setup, e: SetupEvent|
                (s.step == SetupStep::CloseSplash && e == SetupEvent::Found(true)),
        );
    }
    if states[k].step == SetupStep::Done {
        lemma_door(
            states,
            events,
            k,
            |s: Setup| s.step == SetupStep::Done,
            |s: Setup, e: SetupEvent|
                (s.step == SetupStep::ShowMain && e == SetupEvent::Found(true)),
        );
    }
    if states[k].step == SetupStep::Exit {
        lemma_door(
            states,
            events,
            k,
            |s: Setup| s.step == SetupStep::Exit,
            |s: Setup, e: SetupEvent|
                s.step == SetupStep::ReportFailure || (s.step == SetupStep::CloseSplash &&
                    e == SetupEvent::Found(false)) || (s.step == SetupStep::ShowMain &&
                    e == SetupEvent::Found(false)),
        );
    }
}

/// The progress of a download, counted up chunk by chunk.
#[derive(Clone, Copy, PartialEq, Eq, Structural, Debug)]
pub struct Download {
    /// The bytes that have arrived.
    pub done: u64,
}

impl Download {
    /// A download of which nothing has arrived.
    pub fn new() -> (r: Self)
        ensures
            r.done == 0,
    {
        Download { done: 0 }
    }

    /// Counts a chunk and tells how many bytes have arrived.
    pub fn count(&mut self, chunk: u64) -> (r: u64)
        requires
            old(self).done + chunk <= u64::MAX,
        ensures
            r == old(self).done + chunk,
            final(self).done == r,
    {
        self.done = self.done + chunk;
        self.done
    }
}

/// What the splash screen is told of an update.
#[derive(Debug)]
pub enum UpdateProgress {
    /// The download of this version begins.
    Started { version: String },
    /// This many bytes have arrived, of so many if the server says.
    Downloading { bytes_done: u64, bytes_total: Option<u64> },
    /// The update is in place.
    Ready,
}

impl UpdateProgress {
    /// The word that tells the splash screen which of these it is.
    pub fn kind(&self) -> (r: &'static str)
        ensures
            r@ == (match *self {
                UpdateProgress::Started { .. } => "started"@,
                UpdateProgress::Downloading { .. } => "downloading"@,
                UpdateProgress::Ready => "ready"@,
            }),
    {
        match self {
            UpdateProgress::Started { .. } => "started",
            UpdateProgress::Downloading { .. } => "downloading",
            UpdateProgress::Ready => "ready",
        }
    }
}

impl Download {
    /// Counts a chunk and makes the report of it.
    pub fn report(&mut self, chunk: u64, total: Option<u64>) -> (r: UpdateProgress)
        requires
            old(self).done + chunk <= u64::MAX,
        ensures
            final(self).done == old(self).done + chunk,
            r == (UpdateProgress::Downloading {
                bytes_done: (old(self).done + chunk) as u64,
                bytes_total: total,
            }),
    {
        let bytes_done: u64 = self.count(chunk);
        UpdateProgress::Downloading { bytes_done, bytes_total: total }
    }
}

/// What the user is told when the start has failed.
pub fn startup_failure_message(error: &str) -> (r: String)
    ensures
        r@ == "Failed to initialize app resources:\n\n"@ + error@
            + "\n\nCommon causes: missing GPU drivers, no disk space for the model cache, or a corrupted model download. Check the log file at %LOCALAPPDATA%\\Koharu\\ for details."@,
{
    let mut text = String::from_str("Failed to initialize app resources:\n\n");
    text.append(error);
    text.append(
        "\n\nCommon causes: missing GPU drivers, no disk space for the model cache, or a corrupted model download. Check the log file at %LOCALAPPDATA%\\Koharu\\ for details.",
    );
    text
}

} // verus!
