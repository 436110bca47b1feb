//! The building of the program's resources: the device that they are built for, and the order
//! in which they are.
//!
//! [`BuildStep`] and [`PartStep`] say what to do next; the caller does it and hands back an
//! event.

use crate::course::{is_course, lemma_door, lemma_kept, met_before, Machine};
use crate::device::is_cpu_selection;
use crate::paths::Platform;
use vstd::prelude::*;

verus! {

/// How long the resources may take to build for an accelerator, in seconds. A broken toolkit may
/// hang for good.
pub const ACCELERATED_LIMIT_SECS: u64 = 45;

/// The next thing to do to get resources for a device.
#[derive(Clone, Copy, PartialEq, Eq, Structural, Debug)]
pub enum BuildStep {
    /// Make the requested device that of this session; it is the processor or not.
    SelectRequested(bool),
    /// Build for the requested accelerator, within the time limit.
    Accelerated,
    /// Make the processor the device of this session.
    SelectCpu,
    /// Build for the processor.
    OnCpu,
    /// The resources are built.
    Ready,
    /// There are no resources, for the error of the last step.
    Failed,
}

/// What came of a step.
#[derive(Clone, Copy, PartialEq, Eq, Structural, Debug)]
pub enum BuildEvent {
    Success,
    Error,
    /// The time limit was reached.
    TimedOut,
}

impl Machine for BuildStep {
    type Event = BuildEvent;

    open spec fn next_state(self, event: BuildEvent) -> BuildStep {
        match (self, event) {
            (BuildStep::SelectRequested(cpu), BuildEvent::Success) => if cpu {
                BuildStep::OnCpu
            } else {
                BuildStep::Accelerated
            },
            (BuildStep::Accelerated, BuildEvent::Success) => BuildStep::Ready,
            (BuildStep::Accelerated, BuildEvent::Error) => BuildStep::SelectCpu,
            (BuildStep::Accelerated, BuildEvent::TimedOut) => BuildStep::SelectCpu,
            (BuildStep::SelectCpu, BuildEvent::Success) => BuildStep::OnCpu,
            (BuildStep::OnCpu, BuildEvent::Success) => BuildStep::Ready,
            (BuildStep::OnCpu, BuildEvent::Error) => BuildStep::Failed,
            _ => self,
        }
    }
}

/// The first step for a requested device.
pub open spec fn first_build_step(selection: Seq<char>) -> BuildStep {
    BuildStep::SelectRequested(selection == "CPU"@)
}

impl BuildStep {
    /// The first step for the requested device.
    pub fn build_resources(selection: &str) -> (r: Self)
        ensures
            r == first_build_step(selection@),
    {
        BuildStep::SelectRequested(is_cpu_selection(selection))
    }

    /// The next step once `event` came of this one. An event that does not belong to the step
    /// changes nothing.
    pub fn next(self, event: BuildEvent) -> (r: Self)
        ensures
            r == self.next_state(event),
    {
        match (self, event) {
            (BuildStep::SelectRequested(cpu), BuildEvent::Success) => if cpu {
                BuildStep::OnCpu
            } else {
                BuildStep::Accelerated
            },
            (BuildStep::Accelerated, BuildEvent::Success) => BuildStep::Ready,
            (BuildStep::Accelerated, BuildEvent::Error) => BuildStep::SelectCpu,
            (BuildStep::Accelerated, BuildEvent::TimedOut) => BuildStep::SelectCpu,
            (BuildStep::SelectCpu, BuildEvent::Success) => BuildStep::OnCpu,
            (BuildStep::OnCpu, BuildEvent::Success) => BuildStep::Ready,
            (BuildStep::OnCpu, BuildEvent::Error) => BuildStep::Failed,
            _ => self,
        }
    }
}

/// Whatever becomes of the accelerator, the processor is tried before the program gives up.
pub proof fn law_cpu_is_tried_before_giving_up(
    states: Seq<BuildStep>,
    events: Seq<BuildEvent>,
    k: int,
    selection: Seq<char>,
)
    requires
        is_course(states, events),
        states[0] == first_build_step(selection),
        0 <= k < states.len(),
        states[k] == BuildStep::Failed,
    ensures
        met_before(
            states,
            events,
            k,
            |s: BuildStep, e: BuildEvent| s == BuildStep::OnCpu && e == BuildEvent::Error,
        ),
{
    lemma_door(
        states,
        events,
        k,
        |s: BuildStep| s == BuildStep::Failed,
        |s: BuildStep, e: BuildEvent| s == BuildStep::OnCpu && e == BuildEvent::Error,
    );
}

/// Where an accelerator was requested, the processor is made the session's device before
/// anything is built for it.
pub proof fn law_fallback_selects_cpu_first(
    states: Seq<BuildStep>,
    events: Seq<BuildEvent>,
    k: int,
    selection: Seq<char>,
)
    requires
        is_course(states, events),
        states[0] == first_build_step(selection),
        selection != "CPU"@,
        0 <= k < states.len(),
        states[k] == BuildStep::OnCpu,
    ensures
        met_before(
            states,
            events,
            k,
            |s: BuildStep, e: BuildEvent| s == BuildStep::SelectCpu && e == BuildEvent::Success,
        ),
{
    lemma_door(
        states,
        events,
        k,
        |s: BuildStep|
            s == BuildStep::OnCpu || s == BuildStep::Failed || s == BuildStep::SelectRequested(
                true,
            ),
        |s: BuildStep, e: BuildEvent| s == BuildStep::SelectCpu && e == BuildEvent::Success,
    );
}

/// Nothing is built before a device has been made that of the session.
pub proof fn law_device_is_selected_first(
    states: Seq<BuildStep>,
    events: Seq<BuildEvent>,
    k: int,
    selection: Seq<char>,
)
    requires
        is_course(states, events),
        states[0] == first_build_step(selection),
        0 <= k < states.len(),
        states[k] != states[0],
    ensures
        met_before(
            states,
            events,
            k,
            |s: BuildStep, e: BuildEvent|
                s == BuildStep::SelectRequested(selection == "CPU"@) && e == BuildEvent::Success,
        ),
{
    lemma_door(
        states,
        events,
        k,
        |s: BuildStep| s != first_build_step(selection),
        |s: BuildStep, e: BuildEvent|
            s == BuildStep::SelectRequested(selection == "CPU"@) && e == BuildEvent::Success,
    );
}

/// The choice `CPU`, written so, is that of the processor, and no other choice is.
pub proof fn law_only_cpu_means_the_processor(selection: Seq<char>)
    ensures
        first_build_step(selection) == BuildStep::SelectRequested(true) <==> selection == "CPU"@,
        first_build_step(selection) == BuildStep::SelectRequested(false) <==> selection != "CPU"@,
{
}

/// Whether an answer is one to this step.
pub open spec fn answers_build(step: BuildStep, event: BuildEvent) -> bool {
    match step {
        BuildStep::SelectRequested(_) | BuildStep::SelectCpu => event == BuildEvent::Success,
        BuildStep::Accelerated => true,
        BuildStep::OnCpu => event == BuildEvent::Success || event == BuildEvent::Error,
        BuildStep::Ready | BuildStep::Failed => false,
    }
}

/// The search for a device moves on at every answer to its step and at nothing else, and it comes
/// back to no step.
pub proof fn law_build_moves_on(step: BuildStep, event: BuildEvent)
    ensures
        step.next_state(event) != step <==> answers_build(step, event),
        answers_build(step, event) ==> build_rank(step.next_state(event)) > build_rank(step),
{
}

/// Where a step stands in the order of all steps.
pub open spec fn build_rank(step: BuildStep) -> int {
    match step {
        BuildStep::SelectRequested(_) => 0,
        BuildStep::Accelerated => 1,
        BuildStep::SelectCpu => 2,
        BuildStep::OnCpu => 3,
        BuildStep::Ready => 4,
        BuildStep::Failed => 5,
    }
}

/// Each step of the search for a device comes only for its reason: the accelerator where it was
/// requested, the processor where it was requested or the accelerator has failed or hung, resources
/// where a build has succeeded, and none only where that for the processor has failed.
pub proof fn law_build_steps_have_reasons(states: Seq<BuildStep>, events: Seq<BuildEvent>, k: int)
    requires
        is_course(states, events),
        states[0] is SelectRequested,
        0 <= k < states.len(),
    ensures
        (states[k] == BuildStep::Accelerated) ==> met_before(
            states,
            events,
            k,
            |s: BuildStep, e: BuildEvent|
                s == BuildStep::SelectRequested(false) && e == BuildEvent::Success,
        ),
        (states[k] == BuildStep::SelectCpu) ==> met_before(
            states,
            events,
            k,
            |s: BuildStep, e: BuildEvent|
                s == BuildStep::Accelerated && (e == BuildEvent::Error ||
                    e == BuildEvent::TimedOut),
        ),
        (states[k] == BuildStep::OnCpu) ==> met_before(
            states,
            events,
            k,
            |s: BuildStep, e: BuildEvent|
                (s == BuildStep::SelectRequested(true) || s == BuildStep::SelectCpu) &&
                    e == BuildEvent::Success,
        ),
        (states[k] == BuildStep::Ready) ==> met_before(
            states,
            events,
            k,
            |s: BuildStep, e: BuildEvent|
                (s == BuildStep::Accelerated || s == BuildStep::OnCpu) && e == BuildEvent::Success,
        ),
        (states[k] == BuildStep::Failed) ==> met_before(
            states,
            events,
            k,
            |s: BuildStep, e: BuildEvent| s == BuildStep::OnCpu && e == BuildEvent::Error,
        ),
{
    if states[k] == BuildStep::Accelerated {
        lemma_door(
            states,
            events,
            k,
            |s: BuildStep| s == BuildStep::Accelerated,
            |s: BuildStep, e: BuildEvent|
                s == BuildStep::SelectRequested(false) && e == BuildEvent::Success,
        );
    }
    if states[k] == BuildStep::SelectCpu {
        lemma_door(
            states,
            events,
            k,
            |s: BuildStep| s == BuildStep::SelectCpu,
            |s: BuildStep, e: BuildEvent|
                s == BuildStep::Accelerated && (e == BuildEvent::Error ||
                    e == BuildEvent::TimedOut),
        );
    }
    if states[k] == BuildStep::OnCpu {
        lemma_door(
            states,
            events,
            k,
            |s: BuildStep| s == BuildStep::OnCpu,
            |s: BuildStep, e: BuildEvent|
                (s == BuildStep::SelectRequested(true) || s == BuildStep::SelectCpu) &&
                    e == BuildEvent::Success,
        );
    }
    if states[k] == BuildStep::Ready {
        lemma_door(
            states,
            events,
            k,
            |s: BuildStep| s == BuildStep::Ready,
            |s: BuildStep, e: BuildEvent|
                (s == BuildStep::Accelerated || s == BuildStep::OnCpu) && e == BuildEvent::Success,
        );
    }
    if states[k] == BuildStep::Failed {
        lemma_door(
            states,
            events,
            k,
            |s: BuildStep| s == BuildStep::Failed,
            |s: BuildStep, e: BuildEvent| s == BuildStep::OnCpu && e == BuildEvent::Error,
        );
    }
}

/// The next thing to do to build the parts of the resources.
#[derive(Clone, Copy, PartialEq, Eq, Structural, Debug)]
pub enum PartStep {
    /// Find out whether CUDA is available.
    FindCuda,
    /// Fetch the dynamic libraries that are missing.
    EnsureLibraries,
    /// Load the dynamic libraries.
    PreloadLibraries,
    /// Have the loader search the library directory.
    AddLibraryDir,
    /// Have the loader search the CUDA toolkit again, which the step before has shut out.
    RegisterToolkit,
    /// Load the models, for the device that the build is for.
    LoadModels,
    /// Start warming the models up in the background. Whether they ever are is of no account.
    StartWarmup,
    /// Set the language model up, for the device that the build is for.
    MakeLanguageModel,
    /// Make the directory for the user's fonts.
    MakeFontDir,
    /// Set the renderer up.
    MakeRenderer,
    /// Open the project that was asked for on the command line.
    OpenProject,
    /// Put that project on the list of recent ones.
    NoteProject,
    /// Open the device that the build is for.
    OpenDevice,
    /// The resources are built.
    Ready,
    /// There are no resources, for this fault and the error of the last step.
    Failed(PartFault),
}

/// A fault that no resources can be built with.
#[derive(Clone, Copy, PartialEq, Eq, Structural, Debug)]
pub enum PartFault {
    EnsureLibraries,
    PreloadLibraries,
    AddLibraryDir,
    LoadModels,
    MakeRenderer,
    OpenDevice,
}

impl PartFault {
    /// What is put in front of the error, if anything is.
    pub fn context(self) -> (r: Option<&'static str>)
        ensures
            match self {
                PartFault::EnsureLibraries => r is Some && r->0@
                    == "Failed to ensure dynamic libraries"@,
                PartFault::PreloadLibraries => r is Some && r->0@
                    == "Failed to preload dynamic libraries"@,
                PartFault::AddLibraryDir => r is Some && r->0@ == "Failed to add DLL directory"@,
                PartFault::LoadModels => r is Some && r->0@ == "Failed to initialize ML model"@,
                PartFault::MakeRenderer => r is Some && r->0@ == "Failed to initialize renderer"@,
                PartFault::OpenDevice => r is None,
            },
    {
        match self {
            PartFault::EnsureLibraries => Some("Failed to ensure dynamic libraries"),
            PartFault::PreloadLibraries => Some("Failed to preload dynamic libraries"),
            PartFault::AddLibraryDir => Some("Failed to add DLL directory"),
            PartFault::LoadModels => Some("Failed to initialize ML model"),
            PartFault::MakeRenderer => Some("Failed to initialize renderer"),
            PartFault::OpenDevice => None,
        }
    }
}

/// What came of a step.
#[derive(Clone, Copy, PartialEq, Eq, Structural, Debug)]
pub enum PartEvent {
    Success,
    Error,
    /// Whether CUDA is available.
    Cuda(bool),
}

/// A build of the parts in progress.
#[derive(Clone, Copy, PartialEq, Eq, Structural, Debug)]
pub struct PartBuild {
    /// The device that the build is for: the processor, or else an accelerator. The models, the
    /// language model and the device itself are asked for with this.
    pub cpu: bool,
    /// The system that the program runs on.
    pub platform: Platform,
    /// A project was asked for on the command line.
    pub has_project: bool,
    /// The next thing to do.
    pub step: PartStep,
}

impl PartBuild {
    /// The same build at another step.
    pub open spec fn at(self, step: PartStep) -> Self {
        PartBuild { step, ..self }
    }
}

impl Machine for PartBuild {
    type Event = PartEvent;

    open spec fn next_state(self, event: PartEvent) -> PartBuild {
        match (self.step, event) {
            (PartStep::FindCuda, PartEvent::Cuda(available)) => if available {
                self.at(PartStep::EnsureLibraries)
            } else {
                self.at(PartStep::LoadModels)
            },
            (PartStep::EnsureLibraries, PartEvent::Success) => self.at(PartStep::PreloadLibraries),
            (PartStep::EnsureLibraries, PartEvent::Error) => self.at(
                PartStep::Failed(PartFault::EnsureLibraries),
            ),
            (PartStep::PreloadLibraries, PartEvent::Success) => if self.platform
                == Platform::Windows {
                self.at(PartStep::AddLibraryDir)
            } else {
                self.at(PartStep::LoadModels)
            },
            (PartStep::PreloadLibraries, PartEvent::Error) => self.at(
                PartStep::Failed(PartFault::PreloadLibraries),
            ),
            (PartStep::AddLibraryDir, PartEvent::Success) => self.at(PartStep::RegisterToolkit),
            (PartStep::AddLibraryDir, PartEvent::Error) => self.at(
                PartStep::Failed(PartFault::AddLibraryDir),
            ),
            (PartStep::RegisterToolkit, PartEvent::Success) => self.at(PartStep::LoadModels),
            (PartStep::LoadModels, PartEvent::Success) => self.at(PartStep::StartWarmup),
            (PartStep::LoadModels, PartEvent::Error) => self.at(
                PartStep::Failed(PartFault::LoadModels),
            ),
            (PartStep::StartWarmup, _) => self.at(PartStep::MakeLanguageModel),
            (PartStep::MakeLanguageModel, PartEvent::Success) => self.at(PartStep::MakeFontDir),
            (PartStep::MakeFontDir, PartEvent::Success) => self.at(PartStep::MakeRenderer),
            (PartStep::MakeFontDir, PartEvent::Error) => self.at(PartStep::MakeRenderer),
            (PartStep::MakeRenderer, PartEvent::Success) => if self.has_project {
                self.at(PartStep::OpenProject)
            } else {
                self.at(PartStep::OpenDevice)
            },
            (PartStep::MakeRenderer, PartEvent::Error) => self.at(
                PartStep::Failed(PartFault::MakeRenderer),
            ),
            (PartStep::OpenProject, PartEvent::Success) => self.at(PartStep::NoteProject),
            (PartStep::OpenProject, PartEvent::Error) => self.at(PartStep::OpenDevice),
            (PartStep::NoteProject, PartEvent::Success) => self.at(PartStep::OpenDevice),
            (PartStep::NoteProject, PartEvent::Error) => self.at(PartStep::OpenDevice),
            (PartStep::OpenDevice, PartEvent::Success) => self.at(PartStep::Ready),
            (PartStep::OpenDevice, PartEvent::Error) => self.at(
                PartStep::Failed(PartFault::OpenDevice),
            ),
            _ => self,
        }
    }
}

impl PartBuild {
    /// A build of the parts for the processor or for an accelerator.
    pub fn build_resources_inner(cpu: bool, platform: Platform, has_project: bool) -> (r: Self)
        ensures
            r.cpu == cpu,
            r.platform == platform,
            r.has_project == has_project,
            r.step == (if cpu {
                PartStep::LoadModels
            } else {
                PartStep::FindCuda
            }),
    {
        let step = if cpu {
            PartStep::LoadModels
        } else {
            PartStep::FindCuda
        };
        PartBuild { cpu, platform, has_project, step }
    }

    /// Goes on once `event` came of the step. An event that does not belong to the step changes
    /// nothing.
    pub fn advance(&mut self, event: PartEvent)
        ensures
            *final(self) == old(self).next_state(event),
    {
        let step = match (self.step, event) {
            (PartStep::FindCuda, PartEvent::Cuda(available)) => if available {
                PartStep::EnsureLibraries
            } else {
                PartStep::LoadModels
            },
            (PartStep::EnsureLibraries, PartEvent::Success) => PartStep::PreloadLibraries,
            (PartStep::EnsureLibraries, PartEvent::Error) => PartStep::Failed(
                PartFault::EnsureLibraries,
            ),
            (PartStep::PreloadLibraries, PartEvent::Success) => match self.platform {
                Platform::Windows => PartStep::AddLibraryDir,
                Platform::Other => PartStep::LoadModels,
            },
            (PartStep::PreloadLibraries, PartEvent::Error) => PartStep::Failed(
                PartFault::PreloadLibraries,
            ),
            (PartStep::AddLibraryDir, PartEvent::Success) => PartStep::RegisterToolkit,
            (PartStep::AddLibraryDir, PartEvent::Error) => PartStep::Failed(
                PartFault::AddLibraryDir,
            ),
            (PartStep::RegisterToolkit, PartEvent::Success) => PartStep::LoadModels,
            (PartStep::LoadModels, PartEvent::Success) => PartStep::StartWarmup,
            (PartStep::LoadModels, PartEvent::Error) => PartStep::Failed(PartFault::LoadModels),
            (PartStep::StartWarmup, _) => PartStep::MakeLanguageModel,
            (PartStep::MakeLanguageModel, PartEvent::Success) => PartStep::MakeFontDir,
            (PartStep::MakeFontDir, PartEvent::Success) => PartStep::MakeRenderer,
            (PartStep::MakeFontDir, PartEvent::Error) => PartStep::MakeRenderer,
            (PartStep::MakeRenderer, PartEvent::Success) => if self.has_project {
                PartStep::OpenProject
            } else {
                PartStep::OpenDevice
            },
            (PartStep::MakeRenderer, PartEvent::Error) => PartStep::Failed(PartFault::MakeRenderer),
            (PartStep::OpenProject, PartEvent::Success) => PartStep::NoteProject,
            (PartStep::OpenProject, PartEvent::Error) => PartStep::OpenDevice,
            (PartStep::NoteProject, PartEvent::Success) => PartStep::OpenDevice,
            (PartStep::NoteProject, PartEvent::Error) => PartStep::OpenDevice,
            (PartStep::OpenDevice, PartEvent::Success) => PartStep::Ready,
            (PartStep::OpenDevice, PartEvent::Error) => PartStep::Failed(PartFault::OpenDevice),
            (step, _) => step,
        };
        self.step = step;
    }
}

/// A build of the parts at its start.
pub open spec fn is_part_start(build: PartBuild) -> bool {
    build.step == if build.cpu {
        PartStep::LoadModels
    } else {
        PartStep::FindCuda
    }
}

/// The steps from the models on.
pub open spec fn has_models(step: PartStep) -> bool {
    match step {
        PartStep::StartWarmup
        | PartStep::MakeLanguageModel
        | PartStep::MakeFontDir
        | PartStep::MakeRenderer
        | PartStep::OpenProject
        | PartStep::NoteProject
        | PartStep::OpenDevice
        | PartStep::Ready => true,
        PartStep::Failed(fault) => fault == PartFault::MakeRenderer || fault
            == PartFault::OpenDevice,
        _ => false,
    }
}

/// The steps from the renderer on.
pub open spec fn has_renderer(step: PartStep) -> bool {
    match step {
        PartStep::OpenProject | PartStep::NoteProject | PartStep::OpenDevice | PartStep::Ready => true,
        PartStep::Failed(fault) => fault == PartFault::OpenDevice,
        _ => false,
    }
}

/// Resources are ready only once the models were loaded, the renderer was set up and the device
/// was opened, each without fault.
pub proof fn law_ready_has_all_parts(states: Seq<PartBuild>, events: Seq<PartEvent>, k: int)
    requires
        is_course(states, events),
        is_part_start(states[0]),
        0 <= k < states.len(),
        states[k].step == PartStep::Ready,
    ensures
        met_before(
            states,
            events,
            k,
            |s: PartBuild, e: PartEvent| s.step == PartStep::LoadModels && e == PartEvent::Success,
        ),
        met_before(
            states,
            events,
            k,
            |s: PartBuild, e: PartEvent|
                s.step == PartStep::MakeRenderer && e == PartEvent::Success,
        ),
        met_before(
            states,
            events,
            k,
            |s: PartBuild, e: PartEvent| s.step == PartStep::OpenDevice && e == PartEvent::Success,
        ),
{
    lemma_door(
        states,
        events,
        k,
        |s: PartBuild| has_models(s.step),
        |s: PartBuild, e: PartEvent| s.step == PartStep::LoadModels && e == PartEvent::Success,
    );
    lemma_door(
        states,
        events,
        k,
        |s: PartBuild| has_renderer(s.step),
        |s: PartBuild, e: PartEvent| s.step == PartStep::MakeRenderer && e == PartEvent::Success,
    );
    lemma_door(
        states,
        events,
        k,
        |s: PartBuild| s.step == PartStep::Ready,
        |s: PartBuild, e: PartEvent| s.step == PartStep::OpenDevice && e == PartEvent::Success,
    );
}

/// Where a step stands in the order of all steps.
pub open spec fn part_rank(step: PartStep) -> int {
    match step {
        PartStep::FindCuda => 0,
        PartStep::EnsureLibraries => 1,
        PartStep::PreloadLibraries => 2,
        PartStep::AddLibraryDir => 3,
        PartStep::RegisterToolkit => 4,
        PartStep::LoadModels => 5,
        PartStep::StartWarmup => 6,
        PartStep::MakeLanguageModel => 7,
        PartStep::MakeFontDir => 8,
        PartStep::MakeRenderer => 9,
        PartStep::OpenProject => 10,
        PartStep::NoteProject => 11,
        PartStep::OpenDevice => 12,
        PartStep::Ready => 13,
        PartStep::Failed(_) => 14,
    }
}

/// No step of a build comes back: each event leads on or changes nothing.
pub proof fn law_parts_lead_on(build: PartBuild, event: PartEvent)
    ensures
        build.next_state(event) == build || part_rank(build.next_state(event).step) > part_rank(
            build.step,
        ),
{
}

/// The device that a build is for stays the same all along, and so what the models, the language
/// model and the device itself are asked for with.
pub proof fn law_build_keeps_its_device(states: Seq<PartBuild>, events: Seq<PartEvent>, k: int)
    requires
        is_course(states, events),
        0 <= k < states.len(),
    ensures
        states[k].cpu == states[0].cpu,
        states[k].platform == states[0].platform,
        states[k].has_project == states[0].has_project,
{
    let first = states[0];
    lemma_kept(states, events, k, |s: PartBuild| s.at(first.step) == first);
}

/// The step whose error a fault stands for.
pub open spec fn fault_step(fault: PartFault) -> PartStep {
    match fault {
        PartFault::EnsureLibraries => PartStep::EnsureLibraries,
        PartFault::PreloadLibraries => PartStep::PreloadLibraries,
        PartFault::AddLibraryDir => PartStep::AddLibraryDir,
        PartFault::LoadModels => PartStep::LoadModels,
        PartFault::MakeRenderer => PartStep::MakeRenderer,
        PartFault::OpenDevice => PartStep::OpenDevice,
    }
}

/// A build fails for a fault if and only if the step of that fault had an error: each such error
/// ends the build, and nothing else does.
pub proof fn law_build_fails_for_its_faults(
    states: Seq<PartBuild>,
    events: Seq<PartEvent>,
    k: int,
    fault: PartFault,
)
    requires
        is_course(states, events),
        is_part_start(states[0]),
        0 <= k < states.len(),
    ensures
        states[k].step == PartStep::Failed(fault) <==> met_before(
            states,
            events,
            k,
            |s: PartBuild, e: PartEvent| s.step == fault_step(fault) && e == PartEvent::Error,
        ),
    decreases k,
{
    let faulty = |s: PartBuild, e: PartEvent|
        s.step == fault_step(fault) && e == PartEvent::Error;
    if states[k].step == PartStep::Failed(fault) {
        lemma_door(
            states,
            events,
            k,
            |s: PartBuild| s.step == PartStep::Failed(fault),
            faulty,
        );
    }
    if met_before(states, events, k, faulty) {
        law_build_fails_for_its_faults(states, events, k - 1, fault);
        assert(states[k] == states[k - 1].next_state(events[k - 1]));
        let j = choose|j: int| 0 <= j < k && faulty(#[trigger] states[j], events[j]);
        if j < k - 1 {
            assert(met_before(states, events, k - 1, faulty));
        }
    }
}

/// A build for the processor looks for no CUDA and touches no dynamic library, and it fails for
/// nothing but the models, the renderer or the device.
pub proof fn law_processor_needs_no_libraries(
    states: Seq<PartBuild>,
    events: Seq<PartEvent>,
    k: int,
)
    requires
        is_course(states, events),
        is_part_start(states[0]),
        states[0].cpu,
        0 <= k < states.len(),
    ensures
        states[k].cpu,
        part_rank(states[k].step) >= part_rank(PartStep::LoadModels),
        states[k].step matches PartStep::Failed(fault) ==> fault == PartFault::LoadModels || fault
            == PartFault::MakeRenderer || fault == PartFault::OpenDevice,
{
    lemma_kept(
        states,
        events,
        k,
        |s: PartBuild|
            {
                &&& s.cpu
                &&& part_rank(s.step) >= part_rank(PartStep::LoadModels)
                &&& s.step matches PartStep::Failed(fault) ==> fault == PartFault::LoadModels
                    || fault == PartFault::MakeRenderer || fault == PartFault::OpenDevice
            },
    );
}

/// Whether an answer is one to this step.
pub open spec fn answers_part(step: PartStep, event: PartEvent) -> bool {
    match step {
        PartStep::FindCuda => event is Cuda,
        PartStep::RegisterToolkit | PartStep::MakeLanguageModel => event == PartEvent::Success,
        PartStep::StartWarmup => true,
        PartStep::Ready | PartStep::Failed(_) => false,
        _ => event == PartEvent::Success || event == PartEvent::Error,
    }
}

/// A build moves on at every answer to its step and at nothing else.
pub proof fn law_parts_move_on(build: PartBuild, event: PartEvent)
    ensures
        build.next_state(event) != build <==> answers_part(build.step, event),
{
}

/// Nothing is left out of a build but for a reason. What is past a step has met it, with success
/// where its fault is fatal. The libraries are provided where an accelerator is wanted and CUDA is
/// there. A project that was asked for is opened, whatever the device and the system are, and where
/// it could be opened it is put on the list of recent ones.
pub proof fn law_parts_leave_nothing_out(states: Seq<PartBuild>, events: Seq<PartEvent>, k: int)
    requires
        is_course(states, events),
        is_part_start(states[0]),
        0 <= k < states.len(),
    ensures
        (part_rank(states[k].step) > part_rank(PartStep::FindCuda) &&
            !(states[k].step is Failed) && !states[k].cpu) ==> met_before(
            states,
            events,
            k,
            |s: PartBuild, e: PartEvent| s.step == PartStep::FindCuda,
        ),
        (part_rank(states[k].step) > part_rank(PartStep::EnsureLibraries) &&
            !(states[k].step is Failed) && !states[k].cpu) ==> met_before(
            states,
            events,
            k,
            |s: PartBuild, e: PartEvent|
                (s.step == PartStep::EnsureLibraries && e == PartEvent::Success) ||
                    (s.step == PartStep::FindCuda && e == PartEvent::Cuda(false)),
        ),
        (part_rank(states[k].step) > part_rank(PartStep::PreloadLibraries) &&
            !(states[k].step is Failed) && !states[k].cpu) ==> met_before(
            states,
            events,
            k,
            |s: PartBuild, e: PartEvent|
                (s.step == PartStep::PreloadLibraries && e == PartEvent::Success) ||
                    (s.step == PartStep::FindCuda && e == PartEvent::Cuda(false)),
        ),
        (part_rank(states[k].step) > part_rank(PartStep::AddLibraryDir) &&
            !(states[k].step is Failed) && !states[k].cpu &&
            states[k].platform == Platform::Windows) ==> met_before(
            states,
            events,
            k,
            |s: PartBuild, e: PartEvent|
                (s.step == PartStep::AddLibraryDir && e == PartEvent::Success) ||
                    (s.step == PartStep::FindCuda && e == PartEvent::Cuda(false)),
        ),
        (part_rank(states[k].step) > part_rank(PartStep::RegisterToolkit) &&
            !(states[k].step is Failed) && !states[k].cpu &&
            states[k].platform == Platform::Windows) ==> met_before(
            states,
            events,
            k,
            |s: PartBuild, e: PartEvent|
                s.step == PartStep::RegisterToolkit || (s.step == PartStep::FindCuda &&
                    e == PartEvent::Cuda(false)),
        ),
        (part_rank(states[k].step) > part_rank(PartStep::LoadModels) &&
            !(states[k].step is Failed)) ==> met_before(
            states,
            events,
            k,
            |s: PartBuild, e: PartEvent| s.step == PartStep::LoadModels && e == PartEvent::Success,
        ),
        (part_rank(states[k].step) > part_rank(PartStep::StartWarmup) &&
            !(states[k].step is Failed)) ==> met_before(
            states,
            events,
            k,
            |s: PartBuild, e: PartEvent| s.step == PartStep::StartWarmup,
        ),
        (part_rank(states[k].step) > part_rank(PartStep::MakeLanguageModel) &&
            !(states[k].step is Failed)) ==> met_before(
            states,
            events,
            k,
            |s: PartBuild, e: PartEvent| s.step == PartStep::MakeLanguageModel,
        ),
        (part_rank(states[k].step) > part_rank(PartStep::MakeFontDir) &&
            !(states[k].step is Failed)) ==> met_before(
            states,
            events,
            k,
            |s: PartBuild, e: PartEvent| s.step == PartStep::MakeFontDir,
        ),
        (part_rank(states[k].step) > part_rank(PartStep::MakeRenderer) &&
            !(states[k].step is Failed)) ==> met_before(
            states,
            events,
            k,
            |s: PartBuild, e: PartEvent|
                s.step == PartStep::MakeRenderer && e == PartEvent::Success,
        ),
        (part_rank(states[k].step) > part_rank(PartStep::OpenProject) &&
            !(states[k].step is Failed) && states[k].has_project) ==> met_before(
            states,
            events,
            k,
            |s: PartBuild, e: PartEvent| s.step == PartStep::OpenProject,
        ),
        (part_rank(states[k].step) > part_rank(PartStep::NoteProject) &&
            !(states[k].step is Failed) && states[k].has_project) ==> met_before(
            states,
            events,
            k,
            |s: PartBuild, e: PartEvent|
                s.step == PartStep::NoteProject || (s.step == PartStep::OpenProject &&
                    e == PartEvent::Error),
        ),
        (part_rank(states[k].step) > part_rank(PartStep::OpenDevice) &&
            !(states[k].step is Failed)) ==> met_before(
            states,
            events,
            k,
            |s: PartBuild, e: PartEvent| s.step == PartStep::OpenDevice && e == PartEvent::Success,
        ),
{
    if part_rank(states[k].step) > part_rank(PartStep::FindCuda) &&
        !(states[k].step is Failed) && !states[k].cpu {
        lemma_door(
            states,
            events,
            k,
            |s: PartBuild|
                part_rank(s.step) > part_rank(PartStep::FindCuda) && !(s.step is Failed) && !s.cpu,
            |s: PartBuild, e: PartEvent| s.step == PartStep::FindCuda,
        );
    }
    if part_rank(states[k].step) > part_rank(PartStep::EnsureLibraries) &&
        !(states[k].step is Failed) && !states[k].cpu {
        lemma_door(
            states,
            events,
            k,
            |s: PartBuild|
                part_rank(s.step) > part_rank(PartStep::EnsureLibraries) && !(s.step is Failed) &&
                    !s.cpu,
            |s: PartBuild, e: PartEvent|
                (s.step == PartStep::EnsureLibraries && e == PartEvent::Success) ||
                    (s.step == PartStep::FindCuda && e == PartEvent::Cuda(false)),
        );
    }
    if part_rank(states[k].step) > part_rank(PartStep::PreloadLibraries) &&
        !(states[k].step is Failed) && !states[k].cpu {
        lemma_door(
            states,
            events,
            k,
            |s: PartBuild|
                part_rank(s.step) > part_rank(PartStep::PreloadLibraries) && !(s.step is Failed)
                    && !s.cpu,
            |s: PartBuild, e: PartEvent|
                (s.step == PartStep::PreloadLibraries && e == PartEvent::Success) ||
                    (s.step == PartStep::FindCuda && e == PartEvent::Cuda(false)),
        );
    }
    if part_rank(states[k].step) > part_rank(PartStep::AddLibraryDir) &&
        !(states[k].step is Failed) && !states[k].cpu && states[k].platform == Platform::Windows {
        lemma_door(
            states,
            events,
            k,
            |s: PartBuild|
                part_rank(s.step) > part_rank(PartStep::AddLibraryDir) && !(s.step is Failed) &&
                    !s.cpu && s.platform == Platform::Windows,
            |s: PartBuild, e: PartEvent|
                (s.step == PartStep::AddLibraryDir && e == PartEvent::Success) ||
                    (s.step == PartStep::FindCuda && e == PartEvent::Cuda(false)),
        );
    }
    if part_rank(states[k].step) > part_rank(PartStep::RegisterToolkit) &&
        !(states[k].step is Failed) && !states[k].cpu && states[k].platform == Platform::Windows {
        lemma_door(
            states,
            events,
            k,
            |s: PartBuild|
                part_rank(s.step) > part_rank(PartStep::RegisterToolkit) && !(s.step is Failed) &&
                    !s.cpu && s.platform == Platform::Windows,
            |s: PartBuild, e: PartEvent|
                s.step == PartStep::RegisterToolkit || (s.step == PartStep::FindCuda &&
                    e == PartEvent::Cuda(false)),
        );
    }
    if part_rank(states[k].step) > part_rank(PartStep::LoadModels) && !(states[k].step is Failed) {
        lemma_door(
            states,
            events,
            k,
            |s: PartBuild|
                part_rank(s.step) > part_rank(PartStep::LoadModels) && !(s.step is Failed),
            |s: PartBuild, e: PartEvent| s.step == PartStep::LoadModels && e == PartEvent::Success,
        );
    }
    if part_rank(states[k].step) > part_rank(PartStep::StartWarmup) && !(states[k].step is Failed) {
        lemma_door(
            states,
            events,
            k,
            |s: PartBuild|
                part_rank(s.step) > part_rank(PartStep::StartWarmup) && !(s.step is Failed),
            |s: PartBuild, e: PartEvent| s.step == PartStep::StartWarmup,
        );
    }
    if part_rank(states[k].step) > part_rank(PartStep::MakeLanguageModel) &&
        !(states[k].step is Failed) {
        lemma_door(
            states,
            events,
            k,
            |s: PartBuild|
                part_rank(s.step) > part_rank(PartStep::MakeLanguageModel) && !(s.step is Failed),
            |s: PartBuild, e: PartEvent| s.step == PartStep::MakeLanguageModel,
        );
    }
    if part_rank(states[k].step) > part_rank(PartStep::MakeFontDir) && !(states[k].step is Failed) {
        lemma_door(
            states,
            events,
            k,
            |s: PartBuild|
                part_rank(s.step) > part_rank(PartStep::MakeFontDir) && !(s.step is Failed),
            |s: PartBuild, e: PartEvent| s.step == PartStep::MakeFontDir,
        );
    }
    if part_rank(states[k].step) > part_rank(PartStep::MakeRenderer) &&
        !(states[k].step is Failed) {
        lemma_door(
            states,
            events,
            k,
            |s: PartBuild|
                part_rank(s.step) > part_rank(PartStep::MakeRenderer) && !(s.step is Failed),
            |s: PartBuild, e: PartEvent|
                s.step == PartStep::MakeRenderer && e == PartEvent::Success,
        );
    }
    if part_rank(states[k].step) > part_rank(PartStep::OpenProject) &&
        !(states[k].step is Failed) && states[k].has_project {
        lemma_door(
            states,
            events,
            k,
            |s: PartBuild|
                part_rank(s.step) > part_rank(PartStep::OpenProject) && !(s.step is Failed) &&
                    s.has_project,
            |s: PartBuild, e: PartEvent| s.step == PartStep::OpenProject,
        );
    }
    if part_rank(states[k].step) > part_rank(PartStep::NoteProject) &&
        !(states[k].step is Failed) && states[k].has_project {
        lemma_door(
            states,
            events,
            k,
            |s: PartBuild|
                part_rank(s.step) > part_rank(PartStep::NoteProject) && !(s.step is Failed) &&
                    s.has_project,
            |s: PartBuild, e: PartEvent|
                s.step == PartStep::NoteProject || (s.step == PartStep::OpenProject &&
                    e == PartEvent::Error),
        );
    }
    if part_rank(states[k].step) > part_rank(PartStep::OpenDevice) && !(states[k].step is Failed) {
        lemma_door(
            states,
            events,
            k,
            |s: PartBuild|
                part_rank(s.step) > part_rank(PartStep::OpenDevice) && !(s.step is Failed),
            |s: PartBuild, e: PartEvent| s.step == PartStep::OpenDevice && e == PartEvent::Success,
        );
    }
}

/// The steps that depend on an answer, on the system or on a project come only for it: without a
/// project that was asked for, none is opened.
pub proof fn law_part_steps_have_reasons(states: Seq<PartBuild>, events: Seq<PartEvent>, k: int)
    requires
        is_course(states, events),
        is_part_start(states[0]),
        0 <= k < states.len(),
    ensures
        (states[k].step == PartStep::EnsureLibraries) ==> met_before(
            states,
            events,
            k,
            |s: PartBuild, e: PartEvent| s.step == PartStep::FindCuda && e == PartEvent::Cuda(true),
        ),
        (states[k].step == PartStep::PreloadLibraries) ==> met_before(
            states,
            events,
            k,
            |s: PartBuild, e: PartEvent|
                s.step == PartStep::EnsureLibraries && e == PartEvent::Success,
        ),
        (states[k].step == PartStep::AddLibraryDir) ==> met_before(
            states,
            events,
            k,
            |s: PartBuild, e: PartEvent|
                s.step == PartStep::PreloadLibraries && e == PartEvent::Success &&
                    s.platform == Platform::Windows,
        ),
        (states[k].step == PartStep::RegisterToolkit) ==> met_before(
            states,
            events,
            k,
            |s: PartBuild, e: PartEvent|
                s.step == PartStep::AddLibraryDir && e == PartEvent::Success,
        ),
        (states[k].step == PartStep::OpenProject) ==> met_before(
            states,
            events,
            k,
            |s: PartBuild, e: PartEvent| s.step == PartStep::MakeRenderer && s.has_project,
        ),
        (states[k].step == PartStep::NoteProject) ==> met_before(
            states,
            events,
            k,
            |s: PartBuild, e: PartEvent| s.step == PartStep::OpenProject && e == PartEvent::Success,
        ),
{
    if states[k].step == PartStep::EnsureLibraries {
        lemma_door(
            states,
            events,
            k,
            |s: PartBuild| s.step == PartStep::EnsureLibraries,
            |s: PartBuild, e: PartEvent| s.step == PartStep::FindCuda && e == PartEvent::Cuda(true),
        );
    }
    if states[k].step == PartStep::PreloadLibraries {
        lemma_door(
            states,
            events,
            k,
            |s: PartBuild| s.step == PartStep::PreloadLibraries,
            |s: PartBuild, e: PartEvent|
                s.step == PartStep::EnsureLibraries && e == PartEvent::Success,
        );
    }
    if states[k].step == PartStep::AddLibraryDir {
        lemma_door(
            states,
            events,
            k,
            |s: PartBuild| s.step == PartStep::AddLibraryDir,
            |s: PartBuild, e: PartEvent|
                s.step == PartStep::PreloadLibraries && e == PartEvent::Success &&
                    s.platform == Platform::Windows,
        );
    }
    if states[k].step == PartStep::RegisterToolkit {
        lemma_door(
            states,
            events,
            k,
            |s: PartBuild| s.step == PartStep::RegisterToolkit,
            |s: PartBuild, e: PartEvent|
                s.step == PartStep::AddLibraryDir && e == PartEvent::Success,
        );
    }
    if states[k].step == PartStep::OpenProject {
        lemma_door(
            states,
            events,
            k,
            |s: PartBuild| s.step == PartStep::OpenProject,
            |s: PartBuild, e: PartEvent| s.step == PartStep::MakeRenderer && s.has_project,
        );
    }
    if states[k].step == PartStep::NoteProject {
        lemma_door(
            states,
            events,
            k,
            |s: PartBuild| s.step == PartStep::NoteProject,
            |s: PartBuild, e: PartEvent| s.step == PartStep::OpenProject && e == PartEvent::Success,
        );
    }
}

/// Models that cannot be warmed up, a font directory that cannot be made, a project that cannot
/// be opened and a list of recent projects that cannot be written are no reason to give up.
pub proof fn law_small_faults_are_survived(build: PartBuild, event: PartEvent)
    requires
        build.step == PartStep::StartWarmup || build.step == PartStep::MakeFontDir || build.step
            == PartStep::OpenProject || build.step == PartStep::NoteProject,
        event == PartEvent::Success || event == PartEvent::Error,
    ensures
        part_rank(build.step) < part_rank(build.next_state(event).step) < part_rank(
            PartStep::Ready,
        ),
{
}

/// Once the loader's search was narrowed to the library directory, the very next thing is to have
/// it search the CUDA toolkit again.
pub proof fn law_toolkit_is_registered_after_narrowing(
    states: Seq<PartBuild>,
    events: Seq<PartEvent>,
    k: int,
)
    requires
        is_course(states, events),
        0 <= k < events.len(),
        states[k].step == PartStep::AddLibraryDir,
        events[k] == PartEvent::Success,
    ensures
        states[k + 1].step == PartStep::RegisterToolkit,
{
    assert(states[k + 1] == states[k].next_state(events[k]));
}

/// When a project was opened, in seconds since the Unix epoch, for the list of recent ones. A
/// clock before the epoch, `None`, counts as the epoch.
pub fn last_opened_at(since_epoch: Option<u64>) -> (r: i64)
    ensures
        r == (match since_epoch {
            Some(secs) => secs as i64,
            None => 0,
        }),
{
    match since_epoch {
        Some(secs) => secs as i64,
        None => 0,
    }
}

} // verus!
