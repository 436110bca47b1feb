//! What the program sets up before anything else, and in which order.
//!
//! [`Initialization`] says what to do next; the caller does it and hands back an
//! [`InitEvent`].

use crate::course::{is_course, lemma_door, met_before, Machine};
use crate::paths::Platform;
use vstd::prelude::*;

verus! {

/// The size at which the log file is set aside.
pub const LOG_LIMIT_BYTES: u64 = 10_485_760;

/// The directory of the web view's data below the local data directory. It is the identifier
/// of the program's bundle.
pub const BUNDLE_DIR: &'static str = "com.hetcreep.koharu-th-beta";

/// The next thing to set up. All of it is tried and, but for the cache directory, no failure
/// stops the rest.
#[derive(Clone, Copy, PartialEq, Eq, Structural, Debug)]
pub enum InitStep {
    /// Attach to the console of the parent process.
    AttachConsole,
    /// Open a console window.
    CreateConsole,
    /// Have the console understand escape sequences.
    EnableAnsi,
    /// Make the log directory.
    MakeLogDir,
    /// Start logging.
    StartLog,
    /// Have the loader search the directory of cuDNN.
    RegisterCudnn,
    /// Remove runtime versions that have been stale for long enough.
    CollectStaleRuntimes,
    /// Move the model cache to its new place.
    MigrateModelCache,
    /// Find out whether the web view's data is at its old place and at its new one.
    LookAtWebview,
    /// Make the directory that the web view's data goes to.
    MakeWebviewDir,
    /// Move the web view's data.
    MoveWebview,
    /// Make the directory of the models.
    MakeModelDir,
    /// Make the directory of the dynamic libraries.
    MakeLibraryDir,
    /// Have cleaner tools leave the directories alone.
    ProtectDirs,
    /// Register the types of project files.
    RegisterFileTypes,
    /// Remove what cleaner tools left in the library directory.
    SweepLibraries,
    /// Remove stale temporary files from the data directory.
    SweepAppRoot,
    /// Tell the models where their cache is.
    SetCacheDir,
    /// Install the panic hook.
    InstallPanicHook,
    /// Everything is set up.
    Done,
    /// The program cannot start, for the error of the last step.
    Failed,
}

/// What came of a step.
#[derive(Clone, Copy, PartialEq, Eq, Structural, Debug)]
pub enum InitEvent {
    Success,
    Error,
    /// Whether there was a console to attach to.
    Attached(bool),
    /// Whether the web view's data is at its old place, and whether it is at its new one.
    Webview(bool, bool),
    /// The system has no directory for local data.
    NoDataDir,
}

/// An initialization in progress.
#[derive(Clone, Copy, PartialEq, Eq, Structural, Debug)]
pub struct Initialization {
    /// The system that the program runs on.
    pub platform: Platform,
    /// The program runs without windows.
    pub headless: bool,
    /// The program was asked for its debug output.
    pub debug: bool,
    /// The next thing to do.
    pub step: InitStep,
}

impl Initialization {
    /// The same initialization at another step.
    pub open spec fn at(self, step: InitStep) -> Self {
        Initialization { step, ..self }
    }

    /// What follows on the file types and directories of the system.
    pub open spec fn after_dirs(self) -> InitStep {
        if self.platform == Platform::Windows {
            InitStep::ProtectDirs
        } else {
            InitStep::SweepLibraries
        }
    }
}

/// The step behind a step that was done or tried.
pub open spec fn next_in_line(init: Initialization) -> InitStep {
    match init.step {
        InitStep::CreateConsole => InitStep::EnableAnsi,
        InitStep::EnableAnsi => InitStep::MakeLogDir,
        InitStep::MakeLogDir => InitStep::StartLog,
        InitStep::StartLog => InitStep::RegisterCudnn,
        InitStep::RegisterCudnn => InitStep::CollectStaleRuntimes,
        InitStep::CollectStaleRuntimes => InitStep::MigrateModelCache,
        InitStep::MigrateModelCache => InitStep::LookAtWebview,
        InitStep::MakeWebviewDir => InitStep::MoveWebview,
        InitStep::MoveWebview => InitStep::MakeModelDir,
        InitStep::MakeModelDir => InitStep::MakeLibraryDir,
        InitStep::MakeLibraryDir => init.after_dirs(),
        InitStep::ProtectDirs => InitStep::RegisterFileTypes,
        InitStep::RegisterFileTypes => InitStep::SweepLibraries,
        InitStep::SweepLibraries => InitStep::SweepAppRoot,
        InitStep::SweepAppRoot => InitStep::SetCacheDir,
        InitStep::SetCacheDir => InitStep::InstallPanicHook,
        InitStep::InstallPanicHook => InitStep::Done,
        other => other,
    }
}

impl Machine for Initialization {
    type Event = InitEvent;

    open spec fn next_state(self, event: InitEvent) -> Initialization {
        match (self.step, event) {
            (InitStep::AttachConsole, InitEvent::Attached(attached)) => self.at(
                if !attached && (self.headless || self.debug) {
                    InitStep::CreateConsole
                } else {
                    InitStep::EnableAnsi
                },
            ),
            (InitStep::LookAtWebview, InitEvent::Webview(old_there, new_there)) => self.at(
                if old_there && !new_there {
                    InitStep::MakeWebviewDir
                } else {
                    InitStep::MakeModelDir
                },
            ),
            (InitStep::LookAtWebview, InitEvent::NoDataDir) => self.at(InitStep::MakeModelDir),
            (InitStep::MakeWebviewDir, InitEvent::Error) => self.at(InitStep::MakeModelDir),
            (InitStep::SetCacheDir, InitEvent::Error) => self.at(InitStep::Failed),
            (_, InitEvent::Success) => self.at(next_in_line(self)),
            (_, InitEvent::Error) => self.at(next_in_line(self)),
            _ => self,
        }
    }
}

impl Initialization {
    /// An initialization at its start. Only Windows has consoles to attach to.
    pub fn initialize(platform: Platform, headless: bool, debug: bool) -> (r: Self)
        ensures
            r.platform == platform,
            r.headless == headless,
            r.debug == debug,
            r.step == (if platform == Platform::Windows {
                InitStep::AttachConsole
            } else {
                InitStep::MakeLogDir
            }),
    {
        let step = match platform {
            Platform::Windows => InitStep::AttachConsole,
            Platform::Other => InitStep::MakeLogDir,
        };
        Initialization { platform, headless, debug, step }
    }

    fn line(&self) -> (r: InitStep)
        ensures
            r == next_in_line(*self),
    {
        match self.step {
            InitStep::CreateConsole => InitStep::EnableAnsi,
            InitStep::EnableAnsi => InitStep::MakeLogDir,
            InitStep::MakeLogDir => InitStep::StartLog,
            InitStep::StartLog => InitStep::RegisterCudnn,
            InitStep::RegisterCudnn => InitStep::CollectStaleRuntimes,
            InitStep::CollectStaleRuntimes => InitStep::MigrateModelCache,
            InitStep::MigrateModelCache => InitStep::LookAtWebview,
            InitStep::MakeWebviewDir => InitStep::MoveWebview,
            InitStep::MoveWebview => InitStep::MakeModelDir,
            InitStep::MakeModelDir => InitStep::MakeLibraryDir,
            InitStep::MakeLibraryDir => match self.platform {
                Platform::Windows => InitStep::ProtectDirs,
                Platform::Other => InitStep::SweepLibraries,
            },
            InitStep::ProtectDirs => InitStep::RegisterFileTypes,
            InitStep::RegisterFileTypes => InitStep::SweepLibraries,
            InitStep::SweepLibraries => InitStep::SweepAppRoot,
            InitStep::SweepAppRoot => InitStep::SetCacheDir,
            InitStep::SetCacheDir => InitStep::InstallPanicHook,
            InitStep::InstallPanicHook => InitStep::Done,
            other => other,
        }
    }

    /// Goes on once `event` came of the step. An event that does not belong to the step changes
    /// nothing.
    pub fn advance(&mut self, event: InitEvent)
        ensures
            *final(self) == old(self).next_state(event),
    {
        let step = match (self.step, event) {
            (InitStep::AttachConsole, InitEvent::Attached(attached)) => if !attached && (
            self.headless || self.debug) {
                InitStep::CreateConsole
            } else {
                InitStep::EnableAnsi
            },
            (InitStep::LookAtWebview, InitEvent::Webview(old_there, new_there)) => if old_there
                && !new_there {
                InitStep::MakeWebviewDir
            } else {
                InitStep::MakeModelDir
            },
            (InitStep::LookAtWebview, InitEvent::NoDataDir) => InitStep::MakeModelDir,
            (InitStep::MakeWebviewDir, InitEvent::Error) => InitStep::MakeModelDir,
            (InitStep::SetCacheDir, InitEvent::Error) => InitStep::Failed,
            (_, InitEvent::Success) => self.line(),
            (_, InitEvent::Error) => self.line(),
            (step, _) => step,
        };
        self.step = step;
    }
}

/// The start of an initialization on its system.
pub open spec fn is_init_start(init: Initialization) -> bool {
    init.step == if init.platform == Platform::Windows {
        InitStep::AttachConsole
    } else {
        InitStep::MakeLogDir
    }
}

/// Where a step stands in the order of all steps.
pub open spec fn rank(step: InitStep) -> int {
    match step {
        InitStep::AttachConsole => 0,
        InitStep::CreateConsole => 1,
        InitStep::EnableAnsi => 2,
        InitStep::MakeLogDir => 3,
        InitStep::StartLog => 4,
        InitStep::RegisterCudnn => 5,
        InitStep::CollectStaleRuntimes => 6,
        InitStep::MigrateModelCache => 7,
        InitStep::LookAtWebview => 8,
        InitStep::MakeWebviewDir => 9,
        InitStep::MoveWebview => 10,
        InitStep::MakeModelDir => 11,
        InitStep::MakeLibraryDir => 12,
        InitStep::ProtectDirs => 13,
        InitStep::RegisterFileTypes => 14,
        InitStep::SweepLibraries => 15,
        InitStep::SweepAppRoot => 16,
        InitStep::SetCacheDir => 17,
        InitStep::InstallPanicHook => 18,
        InitStep::Done => 19,
        InitStep::Failed => 20,
    }
}

/// No step comes back: each event leads on or changes nothing.
pub proof fn law_initialization_leads_on(init: Initialization, event: InitEvent)
    ensures
        init.next_state(event) == init || rank(init.next_state(event).step) > rank(init.step),
{
}

/// The model cache is migrated before the new directory is made: a rename onto it needs it
/// missing.
pub proof fn law_cache_is_migrated_before_its_directory(
    states: Seq<Initialization>,
    events: Seq<InitEvent>,
    k: int,
)
    requires
        is_course(states, events),
        is_init_start(states[0]),
        0 <= k < states.len(),
        states[k].step == InitStep::MakeModelDir,
    ensures
        met_before(
            states,
            events,
            k,
            |s: Initialization, e: InitEvent| s.step == InitStep::MigrateModelCache,
        ),
{
    lemma_door(
        states,
        events,
        k,
        |s: Initialization| rank(s.step) > rank(InitStep::MigrateModelCache),
        |s: Initialization, e: InitEvent| s.step == InitStep::MigrateModelCache,
    );
}

/// The directory of cuDNN is registered before the models hear of anything.
pub proof fn law_cudnn_is_registered_before_models(
    states: Seq<Initialization>,
    events: Seq<InitEvent>,
    k: int,
)
    requires
        is_course(states, events),
        is_init_start(states[0]),
        0 <= k < states.len(),
        states[k].step == InitStep::SetCacheDir,
    ensures
        met_before(
            states,
            events,
            k,
            |s: Initialization, e: InitEvent| s.step == InitStep::RegisterCudnn,
        ),
{
    lemma_door(
        states,
        events,
        k,
        |s: Initialization| rank(s.step) > rank(InitStep::RegisterCudnn),
        |s: Initialization, e: InitEvent| s.step == InitStep::RegisterCudnn,
    );
}

/// The program gives up only where the models cannot be told of their cache.
pub proof fn law_only_the_cache_dir_is_fatal(
    states: Seq<Initialization>,
    events: Seq<InitEvent>,
    k: int,
)
    requires
        is_course(states, events),
        is_init_start(states[0]),
        0 <= k < states.len(),
        states[k].step == InitStep::Failed,
    ensures
        met_before(
            states,
            events,
            k,
            |s: Initialization, e: InitEvent|
                s.step == InitStep::SetCacheDir && e == InitEvent::Error,
        ),
{
    lemma_door(
        states,
        events,
        k,
        |s: Initialization| s.step == InitStep::Failed,
        |s: Initialization, e: InitEvent| s.step == InitStep::SetCacheDir && e == InitEvent::Error,
    );
}

/// The web view's data is moved only where it is at the old place and nothing is at the new one:
/// nothing is overwritten.
pub proof fn law_webview_is_moved_only_to_a_free_place(
    states: Seq<Initialization>,
    events: Seq<InitEvent>,
    k: int,
)
    requires
        is_course(states, events),
        is_init_start(states[0]),
        0 <= k < states.len(),
        states[k].step == InitStep::MoveWebview,
    ensures
        met_before(
            states,
            events,
            k,
            |s: Initialization, e: InitEvent|
                s.step == InitStep::LookAtWebview && e == InitEvent::Webview(true, false),
        ),
        met_before(
            states,
            events,
            k,
            |s: Initialization, e: InitEvent|
                s.step == InitStep::MakeWebviewDir && e == InitEvent::Success,
        ),
{
    lemma_door(
        states,
        events,
        k,
        |s: Initialization|
            s.step == InitStep::MakeWebviewDir || s.step == InitStep::MoveWebview,
        |s: Initialization, e: InitEvent|
            s.step == InitStep::LookAtWebview && e == InitEvent::Webview(true, false),
    );
    lemma_door(
        states,
        events,
        k,
        |s: Initialization| s.step == InitStep::MoveWebview,
        |s: Initialization, e: InitEvent|
            s.step == InitStep::MakeWebviewDir && e == InitEvent::Success,
    );
}

/// Whether an answer is one to this step.
pub open spec fn answers_init(step: InitStep, event: InitEvent) -> bool {
    match step {
        InitStep::AttachConsole => event is Attached,
        InitStep::LookAtWebview => event is Webview || event is NoDataDir,
        InitStep::Done | InitStep::Failed => false,
        _ => event == InitEvent::Success || event == InitEvent::Error,
    }
}

/// An initialization moves on at every answer to its step and at nothing else, and keeps what it
/// was begun with.
pub proof fn law_initialization_moves_on(init: Initialization, event: InitEvent)
    ensures
        init.next_state(event) != init <==> answers_init(init.step, event),
        init.next_state(event).platform == init.platform,
        init.next_state(event).headless == init.headless,
        init.next_state(event).debug == init.debug,
{
}

/// Nothing is left out of an initialization but for a reason, whatever the answers were. What is past
/// a step has met it; the steps of Windows are met on Windows, the console is opened where one is
/// wanted and none was attached, and the web view's data is moved where it is at its old place
/// only.
pub proof fn law_initialization_leaves_nothing_out(states: Seq<Initialization>, events: Seq<InitEvent>, k: int)
    requires
        is_course(states, events),
        is_init_start(states[0]),
        0 <= k < states.len(),
    ensures
        (rank(states[k].step) > rank(InitStep::AttachConsole) &&
            states[k].step != InitStep::Failed && states[k].platform == Platform::Windows) ==>
            met_before(
            states,
            events,
            k,
            |s: Initialization, e: InitEvent| s.step == InitStep::AttachConsole,
        ),
        (rank(states[k].step) > rank(InitStep::EnableAnsi) &&
            states[k].step != InitStep::Failed && states[k].platform == Platform::Windows) ==>
            met_before(
            states,
            events,
            k,
            |s: Initialization, e: InitEvent| s.step == InitStep::EnableAnsi,
        ),
        (rank(states[k].step) > rank(InitStep::CreateConsole) &&
            states[k].step != InitStep::Failed && states[k].platform == Platform::Windows &&
            (states[k].headless || states[k].debug)) ==> met_before(
            states,
            events,
            k,
            |s: Initialization, e: InitEvent|
                s.step == InitStep::CreateConsole || (s.step == InitStep::AttachConsole &&
                    e == InitEvent::Attached(true)),
        ),
        (rank(states[k].step) > rank(InitStep::MakeLogDir) &&
            states[k].step != InitStep::Failed) ==> met_before(
            states,
            events,
            k,
            |s: Initialization, e: InitEvent| s.step == InitStep::MakeLogDir,
        ),
        (rank(states[k].step) > rank(InitStep::StartLog) &&
            states[k].step != InitStep::Failed) ==> met_before(
            states,
            events,
            k,
            |s: Initialization, e: InitEvent| s.step == InitStep::StartLog,
        ),
        (rank(states[k].step) > rank(InitStep::RegisterCudnn) &&
            states[k].step != InitStep::Failed) ==> met_before(
            states,
            events,
            k,
            |s: Initialization, e: InitEvent| s.step == InitStep::RegisterCudnn,
        ),
        (rank(states[k].step) > rank(InitStep::CollectStaleRuntimes) &&
            states[k].step != InitStep::Failed) ==> met_before(
            states,
            events,
            k,
            |s: Initialization, e: InitEvent| s.step == InitStep::CollectStaleRuntimes,
        ),
        (rank(states[k].step) > rank(InitStep::MigrateModelCache) &&
            states[k].step != InitStep::Failed) ==> met_before(
            states,
            events,
            k,
            |s: Initialization, e: InitEvent| s.step == InitStep::MigrateModelCache,
        ),
        (rank(states[k].step) > rank(InitStep::LookAtWebview) &&
            states[k].step != InitStep::Failed) ==> met_before(
            states,
            events,
            k,
            |s: Initialization, e: InitEvent| s.step == InitStep::LookAtWebview,
        ),
        (rank(states[k].step) > rank(InitStep::MakeWebviewDir) &&
            states[k].step != InitStep::Failed) ==> met_before(
            states,
            events,
            k,
            |s: Initialization, e: InitEvent|
                s.step == InitStep::MakeWebviewDir || (s.step == InitStep::LookAtWebview &&
                    e != InitEvent::Webview(true, false)),
        ),
        (rank(states[k].step) > rank(InitStep::MoveWebview) &&
            states[k].step != InitStep::Failed) ==> met_before(
            states,
            events,
            k,
            |s: Initialization, e: InitEvent|
                s.step == InitStep::MoveWebview || (s.step == InitStep::LookAtWebview &&
                    e != InitEvent::Webview(true, false)) || (s.step == InitStep::MakeWebviewDir &&
                    e == InitEvent::Error),
        ),
        (rank(states[k].step) > rank(InitStep::MakeModelDir) &&
            states[k].step != InitStep::Failed) ==> met_before(
            states,
            events,
            k,
            |s: Initialization, e: InitEvent| s.step == InitStep::MakeModelDir,
        ),
        (rank(states[k].step) > rank(InitStep::MakeLibraryDir) &&
            states[k].step != InitStep::Failed) ==> met_before(
            states,
            events,
            k,
            |s: Initialization, e: InitEvent| s.step == InitStep::MakeLibraryDir,
        ),
        (rank(states[k].step) > rank(InitStep::ProtectDirs) &&
            states[k].step != InitStep::Failed && states[k].platform == Platform::Windows) ==>
            met_before(
            states,
            events,
            k,
            |s: Initialization, e: InitEvent| s.step == InitStep::ProtectDirs,
        ),
        (rank(states[k].step) > rank(InitStep::RegisterFileTypes) &&
            states[k].step != InitStep::Failed && states[k].platform == Platform::Windows) ==>
            met_before(
            states,
            events,
            k,
            |s: Initialization, e: InitEvent| s.step == InitStep::RegisterFileTypes,
        ),
        (rank(states[k].step) > rank(InitStep::SweepLibraries) &&
            states[k].step != InitStep::Failed) ==> met_before(
            states,
            events,
            k,
            |s: Initialization, e: InitEvent| s.step == InitStep::SweepLibraries,
        ),
        (rank(states[k].step) > rank(InitStep::SweepAppRoot) &&
            states[k].step != InitStep::Failed) ==> met_before(
            states,
            events,
            k,
            |s: Initialization, e: InitEvent| s.step == InitStep::SweepAppRoot,
        ),
        (rank(states[k].step) > rank(InitStep::SetCacheDir) &&
            states[k].step != InitStep::Failed) ==> met_before(
            states,
            events,
            k,
            |s: Initialization, e: InitEvent|
                s.step == InitStep::SetCacheDir && e == InitEvent::Success,
        ),
        (rank(states[k].step) > rank(InitStep::InstallPanicHook) &&
            states[k].step != InitStep::Failed) ==> met_before(
            states,
            events,
            k,
            |s: Initialization, e: InitEvent| s.step == InitStep::InstallPanicHook,
        ),
{
    if rank(states[k].step) > rank(InitStep::AttachConsole) &&
        states[k].step != InitStep::Failed && states[k].platform == Platform::Windows {
        lemma_door(
            states,
            events,
            k,
            |s: Initialization|
                rank(s.step) > rank(InitStep::AttachConsole) && s.step != InitStep::Failed &&
                    s.platform == Platform::Windows,
            |s: Initialization, e: InitEvent| s.step == InitStep::AttachConsole,
        );
    }
    if rank(states[k].step) > rank(InitStep::EnableAnsi) && states[k].step != InitStep::Failed
        && states[k].platform == Platform::Windows {
        lemma_door(
            states,
            events,
            k,
            |s: Initialization|
                rank(s.step) > rank(InitStep::EnableAnsi) && s.step != InitStep::Failed &&
                    s.platform == Platform::Windows,
            |s: Initialization, e: InitEvent| s.step == InitStep::EnableAnsi,
        );
    }
    if rank(states[k].step) > rank(InitStep::CreateConsole) &&
        states[k].step != InitStep::Failed && states[k].platform == Platform::Windows &&
        (states[k].headless || states[k].debug) {
        lemma_door(
            states,
            events,
            k,
            |s: Initialization|
                rank(s.step) > rank(InitStep::CreateConsole) && s.step != InitStep::Failed &&
                    s.platform == Platform::Windows && (s.headless || s.debug),
            |s: Initialization, e: InitEvent|
                s.step == InitStep::CreateConsole || (s.step == InitStep::AttachConsole &&
                    e == InitEvent::Attached(true)),
        );
    }
    if rank(states[k].step) > rank(InitStep::MakeLogDir) && states[k].step != InitStep::Failed {
        lemma_door(
            states,
            events,
            k,
            |s: Initialization|
                rank(s.step) > rank(InitStep::MakeLogDir) && s.step != InitStep::Failed,
            |s: Initialization, e: InitEvent| s.step == InitStep::MakeLogDir,
        );
    }
    if rank(states[k].step) > rank(InitStep::StartLog) && states[k].step != InitStep::Failed {
        lemma_door(
            states,
            events,
            k,
            |s: Initialization|
                rank(s.step) > rank(InitStep::StartLog) && s.step != InitStep::Failed,
            |s: Initialization, e: InitEvent| s.step == InitStep::StartLog,
        );
    }
    if rank(states[k].step) > rank(InitStep::RegisterCudnn) && states[k].step != InitStep::Failed {
        lemma_door(
            states,
            events,
            k,
            |s: Initialization|
                rank(s.step) > rank(InitStep::RegisterCudnn) && s.step != InitStep::Failed,
            |s: Initialization, e: InitEvent| s.step == InitStep::RegisterCudnn,
        );
    }
    if rank(states[k].step) > rank(InitStep::CollectStaleRuntimes) &&
        states[k].step != InitStep::Failed {
        lemma_door(
            states,
            events,
            k,
            |s: Initialization|
                rank(s.step) > rank(InitStep::CollectStaleRuntimes) && s.step != InitStep::Failed,
            |s: Initialization, e: InitEvent| s.step == InitStep::CollectStaleRuntimes,
        );
    }
    if rank(states[k].step) > rank(InitStep::MigrateModelCache) &&
        states[k].step != InitStep::Failed {
        lemma_door(
            states,
            events,
            k,
            |s: Initialization|
                rank(s.step) > rank(InitStep::MigrateModelCache) && s.step != InitStep::Failed,
            |s: Initialization, e: InitEvent| s.step == InitStep::MigrateModelCache,
        );
    }
    if rank(states[k].step) > rank(InitStep::LookAtWebview) && states[k].step != InitStep::Failed {
        lemma_door(
            states,
            events,
            k,
            |s: Initialization|
                rank(s.step) > rank(InitStep::LookAtWebview) && s.step != InitStep::Failed,
            |s: Initialization, e: InitEvent| s.step == InitStep::LookAtWebview,
        );
    }
    if rank(states[k].step) > rank(InitStep::MakeWebviewDir) && states[k].step != InitStep::Failed {
        lemma_door(
            states,
            events,
            k,
            |s: Initialization|
                rank(s.step) > rank(InitStep::MakeWebviewDir) && s.step != InitStep::Failed,
            |s: Initialization, e: InitEvent|
                s.step == InitStep::MakeWebviewDir || (s.step == InitStep::LookAtWebview &&
                    e != InitEvent::Webview(true, false)),
        );
    }
    if rank(states[k].step) > rank(InitStep::MoveWebview) && states[k].step != InitStep::Failed {
        lemma_door(
            states,
            events,
            k,
            |s: Initialization|
                rank(s.step) > rank(InitStep::MoveWebview) && s.step != InitStep::Failed,
            |s: Initialization, e: InitEvent|
                s.step == InitStep::MoveWebview || (s.step == InitStep::LookAtWebview &&
                    e != InitEvent::Webview(true, false)) || (s.step == InitStep::MakeWebviewDir &&
                    e == InitEvent::Error),
        );
    }
    if rank(states[k].step) > rank(InitStep::MakeModelDir) && states[k].step != InitStep::Failed {
        lemma_door(
            states,
            events,
            k,
            |s: Initialization|
                rank(s.step) > rank(InitStep::MakeModelDir) && s.step != InitStep::Failed,
            |s: Initialization, e: InitEvent| s.step == InitStep::MakeModelDir,
        );
    }
    if rank(states[k].step) > rank(InitStep::MakeLibraryDir) && states[k].step != InitStep::Failed {
        lemma_door(
            states,
            events,
            k,
            |s: Initialization|
                rank(s.step) > rank(InitStep::MakeLibraryDir) && s.step != InitStep::Failed,
            |s: Initialization, e: InitEvent| s.step == InitStep::MakeLibraryDir,
        );
    }
    if rank(states[k].step) > rank(InitStep::ProtectDirs) &&
        states[k].step != InitStep::Failed && states[k].platform == Platform::Windows {
        lemma_door(
            states,
            events,
            k,
            |s: Initialization|
                rank(s.step) > rank(InitStep::ProtectDirs) && s.step != InitStep::Failed &&
                    s.platform == Platform::Windows,
            |s: Initialization, e: InitEvent| s.step == InitStep::ProtectDirs,
        );
    }
    if rank(states[k].step) > rank(InitStep::RegisterFileTypes) &&
        states[k].step != InitStep::Failed && states[k].platform == Platform::Windows {
        lemma_door(
            states,
            events,
            k,
            |s: Initialization|
                rank(s.step) > rank(InitStep::RegisterFileTypes) && s.step != InitStep::Failed &&
                    s.platform == Platform::Windows,
            |s: Initialization, e: InitEvent| s.step == InitStep::RegisterFileTypes,
        );
    }
    if rank(states[k].step) > rank(InitStep::SweepLibraries) && states[k].step != InitStep::Failed {
        lemma_door(
            states,
            events,
            k,
            |s: Initialization|
                rank(s.step) > rank(InitStep::SweepLibraries) && s.step != InitStep::Failed,
            |s: Initialization, e: InitEvent| s.step == InitStep::SweepLibraries,
        );
    }
    if rank(states[k].step) > rank(InitStep::SweepAppRoot) && states[k].step != InitStep::Failed {
        lemma_door(
            states,
            events,
            k,
            |s: Initialization|
                rank(s.step) > rank(InitStep::SweepAppRoot) && s.step != InitStep::Failed,
            |s: Initialization, e: InitEvent| s.step == InitStep::SweepAppRoot,
        );
    }
    if rank(states[k].step) > rank(InitStep::SetCacheDir) && states[k].step != InitStep::Failed {
        lemma_door(
            states,
            events,
            k,
            |s: Initialization|
                rank(s.step) > rank(InitStep::SetCacheDir) && s.step != InitStep::Failed,
            |s: Initialization, e: InitEvent|
                s.step == InitStep::SetCacheDir && e == InitEvent::Success,
        );
    }
    if rank(states[k].step) > rank(InitStep::InstallPanicHook) &&
        states[k].step != InitStep::Failed {
        lemma_door(
            states,
            events,
            k,
            |s: Initialization|
                rank(s.step) > rank(InitStep::InstallPanicHook) && s.step != InitStep::Failed,
            |s: Initialization, e: InitEvent| s.step == InitStep::InstallPanicHook,
        );
    }
}

/// The steps that depend on an answer or on the system come only for it.
pub proof fn law_initialization_steps_have_reasons(states: Seq<Initialization>, events: Seq<InitEvent>, k: int)
    requires
        is_course(states, events),
        is_init_start(states[0]),
        0 <= k < states.len(),
    ensures
        (states[k].step == InitStep::CreateConsole) ==> met_before(
            states,
            events,
            k,
            |s: Initialization, e: InitEvent|
                s.step == InitStep::AttachConsole && e == InitEvent::Attached(false) &&
                    (s.headless || s.debug),
        ),
        (states[k].step == InitStep::MakeWebviewDir) ==> met_before(
            states,
            events,
            k,
            |s: Initialization, e: InitEvent|
                s.step == InitStep::LookAtWebview && e == InitEvent::Webview(true, false),
        ),
        (states[k].step == InitStep::MoveWebview) ==> met_before(
            states,
            events,
            k,
            |s: Initialization, e: InitEvent|
                s.step == InitStep::MakeWebviewDir && e == InitEvent::Success,
        ),
        (states[k].step == InitStep::ProtectDirs) ==> met_before(
            states,
            events,
            k,
            |s: Initialization, e: InitEvent|
                s.step == InitStep::MakeLibraryDir && s.platform == Platform::Windows,
        ),
        (states[k].step == InitStep::RegisterFileTypes) ==> met_before(
            states,
            events,
            k,
            |s: Initialization, e: InitEvent| s.step == InitStep::ProtectDirs,
        ),
        (states[k].step == InitStep::Failed) ==> met_before(
            states,
            events,
            k,
            |s: Initialization, e: InitEvent|
                s.step == InitStep::SetCacheDir && e == InitEvent::Error,
        ),
{
    if states[k].step == InitStep::CreateConsole {
        lemma_door(
            states,
            events,
            k,
            |s: Initialization| s.step == InitStep::CreateConsole,
            |s: Initialization, e: InitEvent|
                s.step == InitStep::AttachConsole && e == InitEvent::Attached(false) &&
                    (s.headless || s.debug),
        );
    }
    if states[k].step == InitStep::MakeWebviewDir {
        lemma_door(
            states,
            events,
            k,
            |s: Initialization| s.step == InitStep::MakeWebviewDir,
            |s: Initialization, e: InitEvent|
                s.step == InitStep::LookAtWebview && e == InitEvent::Webview(true, false),
        );
    }
    if states[k].step == InitStep::MoveWebview {
        lemma_door(
            states,
            events,
            k,
            |s: Initialization| s.step == InitStep::MoveWebview,
            |s: Initialization, e: InitEvent|
                s.step == InitStep::MakeWebviewDir && e == InitEvent::Success,
        );
    }
    if states[k].step == InitStep::ProtectDirs {
        lemma_door(
            states,
            events,
            k,
            |s: Initialization| s.step == InitStep::ProtectDirs,
            |s: Initialization, e: InitEvent|
                s.step == InitStep::MakeLibraryDir && s.platform == Platform::Windows,
        );
    }
    if states[k].step == InitStep::RegisterFileTypes {
        lemma_door(
            states,
            events,
            k,
            |s: Initialization| s.step == InitStep::RegisterFileTypes,
            |s: Initialization, e: InitEvent| s.step == InitStep::ProtectDirs,
        );
    }
    if states[k].step == InitStep::Failed {
        lemma_door(
            states,
            events,
            k,
            |s: Initialization| s.step == InitStep::Failed,
            |s: Initialization, e: InitEvent|
                s.step == InitStep::SetCacheDir && e == InitEvent::Error,
        );
    }
}

/// A console window is opened only for a run that wants one and had none to attach to.
pub proof fn law_console_is_opened_on_demand(
    states: Seq<Initialization>,
    events: Seq<InitEvent>,
    k: int,
)
    requires
        is_course(states, events),
        is_init_start(states[0]),
        0 <= k < states.len(),
        states[k].step == InitStep::CreateConsole,
    ensures
        met_before(
            states,
            events,
            k,
            |s: Initialization, e: InitEvent|
                {
                    &&& s.step == InitStep::AttachConsole
                    &&& e == InitEvent::Attached(false)
                    &&& s.headless || s.debug
                },
        ),
{
    lemma_door(
        states,
        events,
        k,
        |s: Initialization| s.step == InitStep::CreateConsole,
        |s: Initialization, e: InitEvent|
            {
                &&& s.step == InitStep::AttachConsole
                &&& e == InitEvent::Attached(false)
                &&& s.headless || s.debug
            },
    );
}

} // verus!
