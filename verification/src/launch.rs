//! What a run of the program does, from its arguments to its end.
//!
//! [`run`] picks the kind of run. [`Launch`] says what to do next; the caller does it and hands
//! back a [`LaunchEvent`].

use crate::course::{is_course, lemma_door, lemma_door_within, lemma_kept, met_before, Machine};
use crate::cuda_probe::{is_probe_run, probe_exit_code, PROBE_ARGUMENT};
use crate::paths::Platform;
use crate::text::{decimal, push_decimal};
use vstd::prelude::*;
use vstd::string::StringExecFns;

verus! {

/// The stack of the thread that tries CUDA, in bytes: the convolutions need more than the main
/// thread of a windowed program has.
pub const PROBE_STACK_BYTES: usize = 67_108_864;

/// The next thing to do.
#[derive(Clone, Copy, PartialEq, Eq, Structural, Debug)]
pub enum LaunchStep {
    /// Have the loader search the directory of cuDNN, for the trial.
    RegisterCudnn,
    /// Have the loader search the CUDA toolkit, for the trial.
    RegisterToolkit,
    /// Try CUDA on a thread of its own.
    TryCuda,
    /// End the process with this exit code.
    Exit(i32),
    /// Parse the command line.
    ParseArguments,
    /// Set up what every run needs.
    Initialize,
    /// Provide the dynamic libraries.
    FetchLibraries,
    /// Download the models.
    FetchModels,
    /// Listen for connections of the window.
    Bind,
    /// Read the port that the listener has got.
    ReadPort,
    /// Build the window shell.
    BuildShell,
    /// Serve connections in the background.
    Serve,
    /// Build the resources.
    BuildResources,
    /// Wait for an interrupt of the user.
    AwaitInterrupt,
    /// Run the window shell until it is closed.
    RunShell,
    /// The run is over.
    Done,
    /// The run ends with the error of the last step.
    Failed,
}

/// What came of a step.
#[derive(Clone, Copy, PartialEq, Eq, Structural, Debug)]
pub enum LaunchEvent {
    Success,
    Error,
    /// What the command line asks for: only to download, and to run without windows.
    Arguments(bool, bool),
    /// What the trial of CUDA said; `None` where it could not be run or panicked.
    Tried(Option<bool>),
}

/// A run in progress.
#[derive(Clone, Copy, PartialEq, Eq, Structural, Debug)]
pub struct Launch {
    /// The system that the program runs on.
    pub platform: Platform,
    /// The run only downloads. Known once the command line is parsed.
    pub download: bool,
    /// The run has no windows. Known once the command line is parsed.
    pub headless: bool,
    /// The next thing to do.
    pub step: LaunchStep,
}

impl Launch {
    /// The same run at another step.
    pub open spec fn at(self, step: LaunchStep) -> Self {
        Launch { step, ..self }
    }
}

impl Machine for Launch {
    type Event = LaunchEvent;

    open spec fn next_state(self, event: LaunchEvent) -> Launch {
        match (self.step, event) {
            (LaunchStep::RegisterCudnn, _) => self.at(
                if self.platform == Platform::Windows {
                    LaunchStep::RegisterToolkit
                } else {
                    LaunchStep::TryCuda
                },
            ),
            (LaunchStep::RegisterToolkit, _) => self.at(LaunchStep::TryCuda),
            (LaunchStep::TryCuda, LaunchEvent::Tried(verdict)) => self.at(
                LaunchStep::Exit(
                    if verdict == Some(true) {
                        0
                    } else {
                        1
                    },
                ),
            ),
            (LaunchStep::ParseArguments, LaunchEvent::Arguments(download, headless)) => Launch {
                download,
                headless,
                step: LaunchStep::Initialize,
                ..self
            },
            (LaunchStep::Initialize, LaunchEvent::Success) => self.at(
                if self.download {
                    LaunchStep::FetchLibraries
                } else {
                    LaunchStep::Bind
                },
            ),
            (LaunchStep::FetchLibraries, LaunchEvent::Success) => self.at(LaunchStep::FetchModels),
            (LaunchStep::FetchModels, LaunchEvent::Success) => self.at(LaunchStep::Done),
            (LaunchStep::Bind, LaunchEvent::Success) => self.at(LaunchStep::ReadPort),
            (LaunchStep::ReadPort, LaunchEvent::Success) => self.at(LaunchStep::BuildShell),
            (LaunchStep::BuildShell, LaunchEvent::Success) => self.at(LaunchStep::Serve),
            (LaunchStep::Serve, _) => self.at(
                if self.headless {
                    LaunchStep::BuildResources
                } else {
                    LaunchStep::RunShell
                },
            ),
            (LaunchStep::BuildResources, LaunchEvent::Success) => self.at(
                LaunchStep::AwaitInterrupt,
            ),
            (LaunchStep::AwaitInterrupt, LaunchEvent::Success) => self.at(LaunchStep::Done),
            (LaunchStep::RunShell, _) => self.at(LaunchStep::Done),
            (LaunchStep::Initialize, LaunchEvent::Error)
            | (LaunchStep::FetchLibraries, LaunchEvent::Error)
            | (LaunchStep::FetchModels, LaunchEvent::Error)
            | (LaunchStep::Bind, LaunchEvent::Error)
            | (LaunchStep::ReadPort, LaunchEvent::Error)
            | (LaunchStep::BuildShell, LaunchEvent::Error)
            | (LaunchStep::BuildResources, LaunchEvent::Error)
            | (LaunchStep::AwaitInterrupt, LaunchEvent::Error) => self.at(LaunchStep::Failed),
            _ => self,
        }
    }
}

/// Whether these arguments make the run a trial of CUDA.
pub open spec fn asks_for_trial(args: Seq<String>) -> bool {
    exists|i: int| 0 <= i < args.len() && (#[trigger] args[i])@ == PROBE_ARGUMENT@
}

/// A run with these arguments at its start.
pub open spec fn launched(args: Seq<String>, platform: Platform) -> Launch {
    Launch {
        platform,
        download: false,
        headless: false,
        step: if asks_for_trial(args) {
            LaunchStep::RegisterCudnn
        } else {
            LaunchStep::ParseArguments
        },
    }
}

/// Starts a run of the program with these arguments: a trial of CUDA where they ask for it,
/// before the command line is parsed.
pub fn run(args: &Vec<String>, platform: Platform) -> (r: Launch)
    ensures
        r == launched(args@, platform),
{
    let step = if is_probe_run(args) {
        LaunchStep::RegisterCudnn
    } else {
        LaunchStep::ParseArguments
    };
    Launch { platform, download: false, headless: false, step }
}

impl Launch {
    /// Goes on once `event` came of the step. An event that does not belong to the step changes
    /// nothing.
    pub fn advance(&mut self, event: LaunchEvent)
        ensures
            *final(self) == old(self).next_state(event),
    {
        let step = match (self.step, event) {
            (LaunchStep::RegisterCudnn, _) => match self.platform {
                Platform::Windows => LaunchStep::RegisterToolkit,
                Platform::Other => LaunchStep::TryCuda,
            },
            (LaunchStep::RegisterToolkit, _) => LaunchStep::TryCuda,
            (LaunchStep::TryCuda, LaunchEvent::Tried(verdict)) => LaunchStep::Exit(
                probe_exit_code(verdict),
            ),
            (LaunchStep::ParseArguments, LaunchEvent::Arguments(download, headless)) => {
                self.download = download;
                self.headless = headless;
                LaunchStep::Initialize
            },
            (LaunchStep::Initialize, LaunchEvent::Success) => if self.download {
                LaunchStep::FetchLibraries
            } else {
                LaunchStep::Bind
            },
            (LaunchStep::FetchLibraries, LaunchEvent::Success) => LaunchStep::FetchModels,
            (LaunchStep::FetchModels, LaunchEvent::Success) => LaunchStep::Done,
            (LaunchStep::Bind, LaunchEvent::Success) => LaunchStep::ReadPort,
            (LaunchStep::ReadPort, LaunchEvent::Success) => LaunchStep::BuildShell,
            (LaunchStep::BuildShell, LaunchEvent::Success) => LaunchStep::Serve,
            (LaunchStep::Serve, _) => if self.headless {
                LaunchStep::BuildResources
            } else {
                LaunchStep::RunShell
            },
            (LaunchStep::BuildResources, LaunchEvent::Success) => LaunchStep::AwaitInterrupt,
            (LaunchStep::AwaitInterrupt, LaunchEvent::Success) => LaunchStep::Done,
            (LaunchStep::RunShell, _) => LaunchStep::Done,
            (LaunchStep::Initialize, LaunchEvent::Error)
            | (LaunchStep::FetchLibraries, LaunchEvent::Error)
            | (LaunchStep::FetchModels, LaunchEvent::Error)
            | (LaunchStep::Bind, LaunchEvent::Error)
            | (LaunchStep::ReadPort, LaunchEvent::Error)
            | (LaunchStep::BuildShell, LaunchEvent::Error)
            | (LaunchStep::BuildResources, LaunchEvent::Error)
            | (LaunchStep::AwaitInterrupt, LaunchEvent::Error) => LaunchStep::Failed,
            (step, _) => step,
        };
        self.step = step;
    }
}

/// The steps of a trial.
pub open spec fn is_trial_step(step: LaunchStep) -> bool {
    step == LaunchStep::RegisterCudnn || step == LaunchStep::RegisterToolkit || step
        == LaunchStep::TryCuda || step is Exit
}

/// A run that is asked for the trial does nothing else: it parses no command line, sets nothing
/// up and opens no window. Any other run never tries CUDA in its own process.
pub proof fn law_trial_stands_alone(
    args: Seq<String>,
    platform: Platform,
    states: Seq<Launch>,
    events: Seq<LaunchEvent>,
    k: int,
)
    requires
        is_course(states, events),
        states[0] == launched(args, platform),
        0 <= k < states.len(),
    ensures
        is_trial_step(states[k].step) == asks_for_trial(args),
{
    if asks_for_trial(args) {
        lemma_kept(states, events, k, |s: Launch| is_trial_step(s.step));
    } else {
        lemma_kept(states, events, k, |s: Launch| !is_trial_step(s.step));
    }
}

/// The trial reports success by exit code 0 if and only if CUDA has worked.
pub proof fn law_trial_exit_code(launch: Launch, verdict: Option<bool>)
    requires
        launch.step == LaunchStep::TryCuda,
    ensures
        launch.next_state(LaunchEvent::Tried(verdict)).step == LaunchStep::Exit(0) <==> verdict
            == Some(true),
{
}

/// Nothing of the program proper happens before it is set up.
pub proof fn law_initialized_first(states: Seq<Launch>, events: Seq<LaunchEvent>, k: int)
    requires
        is_course(states, events),
        states[0].step == LaunchStep::ParseArguments,
        0 <= k < states.len(),
    ensures
        states[k].step == LaunchStep::ParseArguments || states[k].step == LaunchStep::Initialize
            || states[k].step == LaunchStep::Failed || met_before(
            states,
            events,
            k,
            |s: Launch, e: LaunchEvent|
                s.step == LaunchStep::Initialize && e == LaunchEvent::Success,
        ),
{
    let early = |s: Launch|
        s.step == LaunchStep::ParseArguments || s.step == LaunchStep::Initialize || s.step
            == LaunchStep::Failed;
    if !early(states[k]) {
        lemma_kept(states, events, k, |s: Launch| !is_trial_step(s.step));
        lemma_door(
            states,
            events,
            k,
            |s: Launch| !early(s) && !is_trial_step(s.step),
            |s: Launch, e: LaunchEvent|
                s.step == LaunchStep::Initialize && e == LaunchEvent::Success,
        );
    }
}

/// Where a step stands in the order of all steps.
pub open spec fn launch_rank(step: LaunchStep) -> int {
    match step {
        LaunchStep::RegisterCudnn => 0,
        LaunchStep::RegisterToolkit => 1,
        LaunchStep::TryCuda => 2,
        LaunchStep::Exit(_) => 3,
        LaunchStep::ParseArguments => 4,
        LaunchStep::Initialize => 5,
        LaunchStep::FetchLibraries => 6,
        LaunchStep::FetchModels => 7,
        LaunchStep::Bind => 8,
        LaunchStep::ReadPort => 9,
        LaunchStep::BuildShell => 10,
        LaunchStep::Serve => 11,
        LaunchStep::BuildResources => 12,
        LaunchStep::AwaitInterrupt => 13,
        LaunchStep::RunShell => 14,
        LaunchStep::Done => 15,
        LaunchStep::Failed => 16,
    }
}

/// No step of a run comes back: each event leads on or changes nothing.
pub proof fn law_launch_leads_on(launch: Launch, event: LaunchEvent)
    ensures
        launch.next_state(event) == launch || launch_rank(launch.next_state(event).step)
            > launch_rank(launch.step),
{
}

/// The steps that listen or open windows.
pub open spec fn is_service_step(step: LaunchStep) -> bool {
    step == LaunchStep::Bind || step == LaunchStep::ReadPort || step == LaunchStep::BuildShell
        || step == LaunchStep::Serve || step == LaunchStep::BuildResources || step
        == LaunchStep::AwaitInterrupt || step == LaunchStep::RunShell
}

/// A run that only downloads opens no listener and no window, and any other run downloads
/// nothing ahead of its use.
pub proof fn law_download_only(states: Seq<Launch>, events: Seq<LaunchEvent>, k: int)
    requires
        is_course(states, events),
        states[0].step == LaunchStep::ParseArguments,
        0 <= k < states.len(),
    ensures
        is_service_step(states[k].step) ==> !states[k].download,
        states[k].step == LaunchStep::FetchLibraries || states[k].step == LaunchStep::FetchModels
            ==> states[k].download,
{
    lemma_kept(
        states,
        events,
        k,
        |s: Launch|
            {
                &&& is_service_step(s.step) ==> !s.download
                &&& s.step == LaunchStep::FetchLibraries || s.step == LaunchStep::FetchModels
                    ==> s.download
            },
    );
}

/// A run without windows never runs the window shell; one with windows never waits for an
/// interrupt.
pub proof fn law_headless_has_no_window(states: Seq<Launch>, events: Seq<LaunchEvent>, k: int)
    requires
        is_course(states, events),
        states[0].step == LaunchStep::ParseArguments,
        0 <= k < states.len(),
    ensures
        states[k].step == LaunchStep::RunShell ==> !states[k].headless,
        states[k].step == LaunchStep::BuildResources || states[k].step
            == LaunchStep::AwaitInterrupt ==> states[k].headless,
{
    lemma_kept(
        states,
        events,
        k,
        |s: Launch|
            {
                &&& s.step == LaunchStep::RunShell ==> !s.headless
                &&& s.step == LaunchStep::BuildResources || s.step == LaunchStep::AwaitInterrupt
                    ==> s.headless
            },
    );
}

/// The listener serves before the resources are awaited and before the window opens.
pub proof fn law_served_first(states: Seq<Launch>, events: Seq<LaunchEvent>, k: int)
    requires
        is_course(states, events),
        states[0].step == LaunchStep::ParseArguments,
        0 <= k < states.len(),
        states[k].step == LaunchStep::BuildResources || states[k].step == LaunchStep::RunShell,
    ensures
        met_before(states, events, k, |s: Launch, e: LaunchEvent| s.step == LaunchStep::Serve),
{
    lemma_door(
        states,
        events,
        k,
        |s: Launch| s.step == LaunchStep::BuildResources || s.step == LaunchStep::RunShell,
        |s: Launch, e: LaunchEvent| s.step == LaunchStep::Serve,
    );
}

/// Whether an answer is one to this step.
pub open spec fn answers_launch(step: LaunchStep, event: LaunchEvent) -> bool {
    match step {
        LaunchStep::RegisterCudnn
        | LaunchStep::RegisterToolkit
        | LaunchStep::Serve
        | LaunchStep::RunShell => true,
        LaunchStep::TryCuda => event is Tried,
        LaunchStep::ParseArguments => event is Arguments,
        LaunchStep::Exit(_) | LaunchStep::Done | LaunchStep::Failed => false,
        _ => event == LaunchEvent::Success || event == LaunchEvent::Error,
    }
}

/// A run moves on at every answer to its step and at nothing else. What the command line asks for
/// is kept from the moment it is known.
pub proof fn law_launch_moves_on(launch: Launch, event: LaunchEvent)
    ensures
        launch.next_state(event) != launch <==> answers_launch(launch.step, event),
        launch.next_state(event).platform == launch.platform,
        launch.step != LaunchStep::ParseArguments ==> {
            &&& launch.next_state(event).download == launch.download
            &&& launch.next_state(event).headless == launch.headless
        },
        forall|download: bool, headless: bool|
            launch.step == LaunchStep::ParseArguments && event == LaunchEvent::Arguments(
                download,
                headless,
            ) ==> {
                let next = #[trigger] launch.next_state(LaunchEvent::Arguments(download, headless));
                &&& next.download == download
                &&& next.headless == headless
                &&& next.step == LaunchStep::Initialize
            },
{
}

/// A trial registers cuDNN and, on Windows only, the toolkit, then tries CUDA, then ends.
pub proof fn law_trial_in_order(platform: Platform, events: Seq<LaunchEvent>, verdict: Option<bool>)
    requires
        events.len() == 3,
    ensures
        ({
            let start = Launch {
                platform,
                download: false,
                headless: false,
                step: LaunchStep::RegisterCudnn,
            };
            let second = start.next_state(events[0]);
            let third = second.next_state(events[1]);
            let tried = LaunchEvent::Tried(verdict);
            let code: i32 = if verdict == Some(true) {
                0
            } else {
                1
            };
            if platform == Platform::Windows {
                &&& second.step == LaunchStep::RegisterToolkit
                &&& third.step == LaunchStep::TryCuda
                &&& third.next_state(tried).step == LaunchStep::Exit(code)
            } else {
                &&& second.step == LaunchStep::TryCuda
                &&& second.next_state(tried).step == LaunchStep::Exit(code)
            }
        }),
{
}

/// A run is a trial if and only if one of its arguments, wherever it stands, is
/// `--cuda-smoke-test`.
pub proof fn law_trial_argument(args: Seq<String>, platform: Platform)
    ensures
        launched(args, platform).step == LaunchStep::RegisterCudnn <==> args.map_values(
            |arg: String| arg@,
        ).contains("--cuda-smoke-test"@),
        launched(args, platform).step == LaunchStep::ParseArguments <==> !args.map_values(
            |arg: String| arg@,
        ).contains("--cuda-smoke-test"@),
        launched(args, platform).platform == platform,
{
    let texts = args.map_values(|arg: String| arg@);
    if asks_for_trial(args) {
        let i = choose|i: int|
            0 <= i < args.len() && (#[trigger] args[i])@ == PROBE_ARGUMENT@;
        assert(texts[i] == PROBE_ARGUMENT@);
    }
    if texts.contains("--cuda-smoke-test"@) {
        let i = choose|i: int| 0 <= i < texts.len() && texts[i] == "--cuda-smoke-test"@;
        assert(args[i]@ == PROBE_ARGUMENT@);
    }
}

/// A run is where its command line lets it be.
pub open spec fn is_consistent(launch: Launch) -> bool {
    &&& is_service_step(launch.step) ==> !launch.download
    &&& launch.step == LaunchStep::FetchLibraries || launch.step == LaunchStep::FetchModels
        ==> launch.download
    &&& launch.step == LaunchStep::RunShell ==> !launch.headless
    &&& launch.step == LaunchStep::BuildResources || launch.step == LaunchStep::AwaitInterrupt
        ==> launch.headless
}

/// A run is set up, and one that only downloads fetches the libraries and the models before it is
/// done.
pub proof fn law_download_fetches_everything(states: Seq<Launch>, events: Seq<LaunchEvent>, k: int)
    requires
        is_course(states, events),
        states[0].step == LaunchStep::ParseArguments,
        0 <= k < states.len(),
    ensures
        (launch_rank(states[k].step) > launch_rank(LaunchStep::ParseArguments) &&
            states[k].step != LaunchStep::Failed && !is_trial_step(states[k].step)) ==>
            met_before(
            states,
            events,
            k,
            |s: Launch, e: LaunchEvent| s.step == LaunchStep::ParseArguments,
        ),
        (launch_rank(states[k].step) > launch_rank(LaunchStep::Initialize) &&
            states[k].step != LaunchStep::Failed && !is_trial_step(states[k].step)) ==>
            met_before(
            states,
            events,
            k,
            |s: Launch, e: LaunchEvent|
                s.step == LaunchStep::Initialize && e == LaunchEvent::Success,
        ),
        (launch_rank(states[k].step) > launch_rank(LaunchStep::FetchLibraries) &&
            states[k].step != LaunchStep::Failed && !is_trial_step(states[k].step) &&
            states[k].download) ==> met_before(
            states,
            events,
            k,
            |s: Launch, e: LaunchEvent|
                s.step == LaunchStep::FetchLibraries && e == LaunchEvent::Success,
        ),
        (launch_rank(states[k].step) > launch_rank(LaunchStep::FetchModels) &&
            states[k].step != LaunchStep::Failed && !is_trial_step(states[k].step) &&
            states[k].download) ==> met_before(
            states,
            events,
            k,
            |s: Launch, e: LaunchEvent|
                s.step == LaunchStep::FetchModels && e == LaunchEvent::Success,
        ),
{
    if launch_rank(states[k].step) > launch_rank(LaunchStep::ParseArguments) &&
        states[k].step != LaunchStep::Failed && !is_trial_step(states[k].step) {
        lemma_door_within(
            states,
            events,
            k,
            |s: Launch| is_consistent(s),
            |s: Launch|
                launch_rank(s.step) > launch_rank(LaunchStep::ParseArguments) &&
                    s.step != LaunchStep::Failed && !is_trial_step(s.step),
            |s: Launch, e: LaunchEvent| s.step == LaunchStep::ParseArguments,
        );
    }
    if launch_rank(states[k].step) > launch_rank(LaunchStep::Initialize) &&
        states[k].step != LaunchStep::Failed && !is_trial_step(states[k].step) {
        lemma_door_within(
            states,
            events,
            k,
            |s: Launch| is_consistent(s),
            |s: Launch|
                launch_rank(s.step) > launch_rank(LaunchStep::Initialize) &&
                    s.step != LaunchStep::Failed && !is_trial_step(s.step),
            |s: Launch, e: LaunchEvent|
                s.step == LaunchStep::Initialize && e == LaunchEvent::Success,
        );
    }
    if launch_rank(states[k].step) > launch_rank(LaunchStep::FetchLibraries) &&
        states[k].step != LaunchStep::Failed && !is_trial_step(states[k].step) &&
        states[k].download {
        lemma_door_within(
            states,
            events,
            k,
            |s: Launch| is_consistent(s),
            |s: Launch|
                launch_rank(s.step) > launch_rank(LaunchStep::FetchLibraries) &&
                    s.step != LaunchStep::Failed && !is_trial_step(s.step) && s.download,
            |s: Launch, e: LaunchEvent|
                s.step == LaunchStep::FetchLibraries && e == LaunchEvent::Success,
        );
    }
    if launch_rank(states[k].step) > launch_rank(LaunchStep::FetchModels) &&
        states[k].step != LaunchStep::Failed && !is_trial_step(states[k].step) &&
        states[k].download {
        lemma_door_within(
            states,
            events,
            k,
            |s: Launch| is_consistent(s),
            |s: Launch|
                launch_rank(s.step) > launch_rank(LaunchStep::FetchModels) &&
                    s.step != LaunchStep::Failed && !is_trial_step(s.step) && s.download,
            |s: Launch, e: LaunchEvent|
                s.step == LaunchStep::FetchModels && e == LaunchEvent::Success,
        );
    }
}

/// A run that does not only download binds, reads its port, builds its windows and serves, each
/// with success, before it goes on.
pub proof fn law_run_serves(states: Seq<Launch>, events: Seq<LaunchEvent>, k: int)
    requires
        is_course(states, events),
        states[0].step == LaunchStep::ParseArguments,
        0 <= k < states.len(),
    ensures
        (launch_rank(states[k].step) > launch_rank(LaunchStep::Bind) &&
            states[k].step != LaunchStep::Failed && !is_trial_step(states[k].step) &&
            !states[k].download) ==> met_before(
            states,
            events,
            k,
            |s: Launch, e: LaunchEvent| s.step == LaunchStep::Bind && e == LaunchEvent::Success,
        ),
        (launch_rank(states[k].step) > launch_rank(LaunchStep::ReadPort) &&
            states[k].step != LaunchStep::Failed && !is_trial_step(states[k].step) &&
            !states[k].download) ==> met_before(
            states,
            events,
            k,
            |s: Launch, e: LaunchEvent| s.step == LaunchStep::ReadPort && e == LaunchEvent::Success,
        ),
        (launch_rank(states[k].step) > launch_rank(LaunchStep::BuildShell) &&
            states[k].step != LaunchStep::Failed && !is_trial_step(states[k].step) &&
            !states[k].download) ==> met_before(
            states,
            events,
            k,
            |s: Launch, e: LaunchEvent|
                s.step == LaunchStep::BuildShell && e == LaunchEvent::Success,
        ),
        (launch_rank(states[k].step) > launch_rank(LaunchStep::Serve) &&
            states[k].step != LaunchStep::Failed && !is_trial_step(states[k].step) &&
            !states[k].download) ==> met_before(
            states,
            events,
            k,
            |s: Launch, e: LaunchEvent| s.step == LaunchStep::Serve,
        ),
{
    if launch_rank(states[k].step) > launch_rank(LaunchStep::Bind) &&
        states[k].step != LaunchStep::Failed && !is_trial_step(states[k].step) &&
        !states[k].download {
        lemma_door_within(
            states,
            events,
            k,
            |s: Launch| is_consistent(s),
            |s: Launch|
                launch_rank(s.step) > launch_rank(LaunchStep::Bind) &&
                    s.step != LaunchStep::Failed && !is_trial_step(s.step) && !s.download,
            |s: Launch, e: LaunchEvent| s.step == LaunchStep::Bind && e == LaunchEvent::Success,
        );
    }
    if launch_rank(states[k].step) > launch_rank(LaunchStep::ReadPort) &&
        states[k].step != LaunchStep::Failed && !is_trial_step(states[k].step) &&
        !states[k].download {
        lemma_door_within(
            states,
            events,
            k,
            |s: Launch| is_consistent(s),
            |s: Launch|
                launch_rank(s.step) > launch_rank(LaunchStep::ReadPort) &&
                    s.step != LaunchStep::Failed && !is_trial_step(s.step) && !s.download,
            |s: Launch, e: LaunchEvent| s.step == LaunchStep::ReadPort && e == LaunchEvent::Success,
        );
    }
    if launch_rank(states[k].step) > launch_rank(LaunchStep::BuildShell) &&
        states[k].step != LaunchStep::Failed && !is_trial_step(states[k].step) &&
        !states[k].download {
        lemma_door_within(
            states,
            events,
            k,
            |s: Launch| is_consistent(s),
            |s: Launch|
                launch_rank(s.step) > launch_rank(LaunchStep::BuildShell) &&
                    s.step != LaunchStep::Failed && !is_trial_step(s.step) && !s.download,
            |s: Launch, e: LaunchEvent|
                s.step == LaunchStep::BuildShell && e == LaunchEvent::Success,
        );
    }
    if launch_rank(states[k].step) > launch_rank(LaunchStep::Serve) &&
        states[k].step != LaunchStep::Failed && !is_trial_step(states[k].step) &&
        !states[k].download {
        lemma_door_within(
            states,
            events,
            k,
            |s: Launch| is_consistent(s),
            |s: Launch|
                launch_rank(s.step) > launch_rank(LaunchStep::Serve) &&
                    s.step != LaunchStep::Failed && !is_trial_step(s.step) && !s.download,
            |s: Launch, e: LaunchEvent| s.step == LaunchStep::Serve,
        );
    }
}

/// A run without windows is done only once its resources are built and an interrupt came, one with
/// windows only once they were run.
pub proof fn law_run_ends_in_its_way(states: Seq<Launch>, events: Seq<LaunchEvent>, k: int)
    requires
        is_course(states, events),
        states[0].step == LaunchStep::ParseArguments,
        0 <= k < states.len(),
    ensures
        (launch_rank(states[k].step) > launch_rank(LaunchStep::BuildResources) &&
            states[k].step != LaunchStep::Failed && !is_trial_step(states[k].step) &&
            !states[k].download && states[k].headless) ==> met_before(
            states,
            events,
            k,
            |s: Launch, e: LaunchEvent|
                s.step == LaunchStep::BuildResources && e == LaunchEvent::Success,
        ),
        (launch_rank(states[k].step) > launch_rank(LaunchStep::AwaitInterrupt) &&
            states[k].step != LaunchStep::Failed && !is_trial_step(states[k].step) &&
            !states[k].download && states[k].headless) ==> met_before(
            states,
            events,
            k,
            |s: Launch, e: LaunchEvent|
                s.step == LaunchStep::AwaitInterrupt && e == LaunchEvent::Success,
        ),
        (launch_rank(states[k].step) > launch_rank(LaunchStep::RunShell) &&
            states[k].step != LaunchStep::Failed && !is_trial_step(states[k].step) &&
            !states[k].download && !states[k].headless) ==> met_before(
            states,
            events,
            k,
            |s: Launch, e: LaunchEvent| s.step == LaunchStep::RunShell,
        ),
{
    if launch_rank(states[k].step) > launch_rank(LaunchStep::BuildResources) &&
        states[k].step != LaunchStep::Failed && !is_trial_step(states[k].step) &&
        !states[k].download && states[k].headless {
        lemma_door_within(
            states,
            events,
            k,
            |s: Launch| is_consistent(s),
            |s: Launch|
                launch_rank(s.step) > launch_rank(LaunchStep::BuildResources) &&
                    s.step != LaunchStep::Failed && !is_trial_step(s.step) && !s.download &&
                    s.headless,
            |s: Launch, e: LaunchEvent|
                s.step == LaunchStep::BuildResources && e == LaunchEvent::Success,
        );
    }
    if launch_rank(states[k].step) > launch_rank(LaunchStep::AwaitInterrupt) &&
        states[k].step != LaunchStep::Failed && !is_trial_step(states[k].step) &&
        !states[k].download && states[k].headless {
        lemma_door_within(
            states,
            events,
            k,
            |s: Launch| is_consistent(s),
            |s: Launch|
                launch_rank(s.step) > launch_rank(LaunchStep::AwaitInterrupt) &&
                    s.step != LaunchStep::Failed && !is_trial_step(s.step) && !s.download &&
                    s.headless,
            |s: Launch, e: LaunchEvent|
                s.step == LaunchStep::AwaitInterrupt && e == LaunchEvent::Success,
        );
    }
    if launch_rank(states[k].step) > launch_rank(LaunchStep::RunShell) &&
        states[k].step != LaunchStep::Failed && !is_trial_step(states[k].step) &&
        !states[k].download && !states[k].headless {
        lemma_door_within(
            states,
            events,
            k,
            |s: Launch| is_consistent(s),
            |s: Launch|
                launch_rank(s.step) > launch_rank(LaunchStep::RunShell) &&
                    s.step != LaunchStep::Failed && !is_trial_step(s.step) && !s.download &&
                    !s.headless,
            |s: Launch, e: LaunchEvent| s.step == LaunchStep::RunShell,
        );
    }
}

/// The steps that depend on the command line or on an answer come only for it, and a run fails only
/// for an error.
pub proof fn law_launch_steps_have_reasons(states: Seq<Launch>, events: Seq<LaunchEvent>, k: int)
    requires
        is_course(states, events),
        states[0].step == LaunchStep::ParseArguments,
        0 <= k < states.len(),
    ensures
        (states[k].step == LaunchStep::FetchLibraries) ==> met_before(
            states,
            events,
            k,
            |s: Launch, e: LaunchEvent|
                s.step == LaunchStep::Initialize && e == LaunchEvent::Success && s.download,
        ),
        (states[k].step == LaunchStep::FetchModels) ==> met_before(
            states,
            events,
            k,
            |s: Launch, e: LaunchEvent|
                s.step == LaunchStep::FetchLibraries && e == LaunchEvent::Success,
        ),
        (states[k].step == LaunchStep::Bind) ==> met_before(
            states,
            events,
            k,
            |s: Launch, e: LaunchEvent|
                s.step == LaunchStep::Initialize && e == LaunchEvent::Success && !s.download,
        ),
        (states[k].step == LaunchStep::BuildResources) ==> met_before(
            states,
            events,
            k,
            |s: Launch, e: LaunchEvent| s.step == LaunchStep::Serve && s.headless,
        ),
        (states[k].step == LaunchStep::AwaitInterrupt) ==> met_before(
            states,
            events,
            k,
            |s: Launch, e: LaunchEvent|
                s.step == LaunchStep::BuildResources && e == LaunchEvent::Success,
        ),
        (states[k].step == LaunchStep::RunShell) ==> met_before(
            states,
            events,
            k,
            |s: Launch, e: LaunchEvent| s.step == LaunchStep::Serve && !s.headless,
        ),
        (states[k].step == LaunchStep::Done) ==> met_before(
            states,
            events,
            k,
            |s: Launch, e: LaunchEvent|
                (s.step == LaunchStep::FetchModels && e == LaunchEvent::Success) ||
                    (s.step == LaunchStep::AwaitInterrupt && e == LaunchEvent::Success) ||
                    s.step == LaunchStep::RunShell,
        ),
        (states[k].step == LaunchStep::Failed) ==> met_before(
            states,
            events,
            k,
            |s: Launch, e: LaunchEvent|
                (s.step == LaunchStep::Initialize || s.step == LaunchStep::FetchLibraries ||
                    s.step == LaunchStep::FetchModels || s.step == LaunchStep::Bind ||
                    s.step == LaunchStep::ReadPort || s.step == LaunchStep::BuildShell ||
                    s.step == LaunchStep::BuildResources || s.step == LaunchStep::AwaitInterrupt) &&
                    e == LaunchEvent::Error,
        ),
{
    if states[k].step == LaunchStep::FetchLibraries {
        lemma_door(
            states,
            events,
            k,
            |s: Launch| s.step == LaunchStep::FetchLibraries,
            |s: Launch, e: LaunchEvent|
                s.step == LaunchStep::Initialize && e == LaunchEvent::Success && s.download,
        );
    }
    if states[k].step == LaunchStep::FetchModels {
        lemma_door(
            states,
            events,
            k,
            |s: Launch| s.step == LaunchStep::FetchModels,
            |s: Launch, e: LaunchEvent|
                s.step == LaunchStep::FetchLibraries && e == LaunchEvent::Success,
        );
    }
    if states[k].step == LaunchStep::Bind {
        lemma_door(
            states,
            events,
            k,
            |s: Launch| s.step == LaunchStep::Bind,
            |s: Launch, e: LaunchEvent|
                s.step == LaunchStep::Initialize && e == LaunchEvent::Success && !s.download,
        );
    }
    if states[k].step == LaunchStep::BuildResources {
        lemma_door(
            states,
            events,
            k,
            |s: Launch| s.step == LaunchStep::BuildResources,
            |s: Launch, e: LaunchEvent| s.step == LaunchStep::Serve && s.headless,
        );
    }
    if states[k].step == LaunchStep::AwaitInterrupt {
        lemma_door(
            states,
            events,
            k,
            |s: Launch| s.step == LaunchStep::AwaitInterrupt,
            |s: Launch, e: LaunchEvent|
                s.step == LaunchStep::BuildResources && e == LaunchEvent::Success,
        );
    }
    if states[k].step == LaunchStep::RunShell {
        lemma_door(
            states,
            events,
            k,
            |s: Launch| s.step == LaunchStep::RunShell,
            |s: Launch, e: LaunchEvent| s.step == LaunchStep::Serve && !s.headless,
        );
    }
    if states[k].step == LaunchStep::Done {
        lemma_door(
            states,
            events,
            k,
            |s: Launch| s.step == LaunchStep::Done,
            |s: Launch, e: LaunchEvent|
                (s.step == LaunchStep::FetchModels && e == LaunchEvent::Success) ||
                    (s.step == LaunchStep::AwaitInterrupt && e == LaunchEvent::Success) ||
                    s.step == LaunchStep::RunShell,
        );
    }
    if states[k].step == LaunchStep::Failed {
        lemma_door(
            states,
            events,
            k,
            |s: Launch| s.step == LaunchStep::Failed,
            |s: Launch, e: LaunchEvent|
                (s.step == LaunchStep::Initialize || s.step == LaunchStep::FetchLibraries ||
                    s.step == LaunchStep::FetchModels || s.step == LaunchStep::Bind ||
                    s.step == LaunchStep::ReadPort || s.step == LaunchStep::BuildShell ||
                    s.step == LaunchStep::BuildResources || s.step == LaunchStep::AwaitInterrupt) &&
                    e == LaunchEvent::Error,
        );
    }
}

/// The address to listen on: this machine only, at the port asked for or at any free one.
pub fn bind_address(port: Option<u16>) -> (r: String)
    ensures
        r@ == "127.0.0.1:"@ + decimal(
            match port {
                Some(port) => port as nat,
                None => 0,
            },
        ),
{
    let mut text = String::from_str("127.0.0.1:");
    match port {
        Some(port) => push_decimal(&mut text, port as u64),
        None => push_decimal(&mut text, 0),
    }
    text
}

/// The script that tells the window the port of the listener.
pub fn ws_port_script(port: u16) -> (r: String)
    ensures
        r@ == "window.__KOHARU_WS_PORT__ = "@ + decimal(port as nat) + ";"@,
{
    let mut text = String::from_str("window.__KOHARU_WS_PORT__ = ");
    push_decimal(&mut text, port as u64);
    text.append(";");
    text
}

} // verus!
