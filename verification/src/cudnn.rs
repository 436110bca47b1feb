//! What the commands about the cuDNN runtime decide.

use crate::course::{is_course, lemma_door, met_before, Machine};
use vstd::prelude::*;
use vstd::string::StringExecFns;

verus! {

/// How cuDNN stands on this machine.
#[derive(Debug)]
pub enum CudnnStatus {
    /// A version is installed.
    Installed { version: String },
    /// A version is installed and in use.
    Ready { version: String },
    /// An installation has failed.
    Failed { version: String, error: String },
    /// Anything else: no version can be upgraded.
    Other,
}

impl CudnnStatus {
    /// The version that an upgrade would replace.
    pub open spec fn base(self) -> Option<Seq<char>> {
        match self {
            CudnnStatus::Installed { version } => Some(version@),
            CudnnStatus::Ready { version } => Some(version@),
            _ => None,
        }
    }

    /// The version that an upgrade would replace, if one is installed.
    pub fn upgrade_base(&self) -> (r: Option<String>)
        ensures
            match r {
                Some(version) => self.base() == Some(version@),
                None => self.base() is None,
            },
    {
        match self {
            CudnnStatus::Installed { version } => Some(String::from_str(version.as_str())),
            CudnnStatus::Ready { version } => Some(String::from_str(version.as_str())),
            _ => None,
        }
    }

    /// The status that the window is told of an installation that has failed.
    pub fn install_failure(error: &str) -> (r: Self)
        ensures
            r is Failed,
            r->Failed_version@.len() == 0,
            r->Failed_error@ == error@,
    {
        let version = String::from_str("");
        proof {
            reveal_strlit("");
        }
        CudnnStatus::Failed { version, error: String::from_str(error) }
    }
}

/// The next thing to do in a search for an upgrade.
#[derive(Clone, Copy, PartialEq, Eq, Structural, Debug)]
pub enum UpgradeStep {
    /// Fetch the list of versions.
    FetchManifest,
    /// Read how cuDNN stands.
    ReadStatus,
    /// Pick an upgrade of the installed version from the list.
    PickUpgrade,
    /// There is nothing to upgrade.
    NothingInstalled,
    /// The list could not be fetched.
    Failed,
}

/// What came of a step.
#[derive(Clone, Copy, PartialEq, Eq, Structural, Debug)]
pub enum UpgradeEvent {
    Success,
    Error,
    /// Whether a version is installed that can be upgraded.
    HasBase(bool),
}

impl Machine for UpgradeStep {
    type Event = UpgradeEvent;

    open spec fn next_state(self, event: UpgradeEvent) -> UpgradeStep {
        match (self, event) {
            (UpgradeStep::FetchManifest, UpgradeEvent::Success) => UpgradeStep::ReadStatus,
            (UpgradeStep::FetchManifest, UpgradeEvent::Error) => UpgradeStep::Failed,
            (UpgradeStep::ReadStatus, UpgradeEvent::HasBase(has_base)) => if has_base {
                UpgradeStep::PickUpgrade
            } else {
                UpgradeStep::NothingInstalled
            },
            _ => self,
        }
    }
}

impl UpgradeStep {
    /// Starts a search for an upgrade.
    pub fn runtime_check_cudnn_upgrade() -> (r: Self)
        ensures
            r == UpgradeStep::FetchManifest,
    {
        UpgradeStep::FetchManifest
    }

    /// What follows once `event` came of the step. An event that does not belong to the step
    /// changes nothing.
    pub fn next(self, event: UpgradeEvent) -> (r: Self)
        ensures
            r == self.next_state(event),
    {
        match (self, event) {
            (UpgradeStep::FetchManifest, UpgradeEvent::Success) => UpgradeStep::ReadStatus,
            (UpgradeStep::FetchManifest, UpgradeEvent::Error) => UpgradeStep::Failed,
            (UpgradeStep::ReadStatus, UpgradeEvent::HasBase(has_base)) => if has_base {
                UpgradeStep::PickUpgrade
            } else {
                UpgradeStep::NothingInstalled
            },
            (step, _) => step,
        }
    }
}

/// Whether an answer is one to this step.
pub open spec fn answers_upgrade(step: UpgradeStep, event: UpgradeEvent) -> bool {
    match step {
        UpgradeStep::FetchManifest => event == UpgradeEvent::Success || event
            == UpgradeEvent::Error,
        UpgradeStep::ReadStatus => event is HasBase,
        _ => false,
    }
}

/// A search moves on at every answer to its step and at nothing else.
pub proof fn law_upgrade_moves_on(step: UpgradeStep, event: UpgradeEvent)
    ensures
        step.next_state(event) != step <==> answers_upgrade(step, event),
{
}

/// An upgrade replaces an installed version, in use or not, and nothing else has a version to
/// replace.
pub proof fn law_upgrade_base(version: String, error: String)
    ensures
        (CudnnStatus::Installed { version }).base() == Some(version@),
        (CudnnStatus::Ready { version }).base() == Some(version@),
        (CudnnStatus::Failed { version, error }).base() is None,
        CudnnStatus::Other.base() is None,
{
}

/// Each end of a search comes only for its reason.
pub proof fn law_upgrade_steps_have_reasons(states: Seq<UpgradeStep>, events: Seq<UpgradeEvent>, k: int)
    requires
        is_course(states, events),
        states[0] == UpgradeStep::FetchManifest,
        0 <= k < states.len(),
    ensures
        (states[k] == UpgradeStep::ReadStatus) ==> met_before(
            states,
            events,
            k,
            |s: UpgradeStep, e: UpgradeEvent|
                s == UpgradeStep::FetchManifest && e == UpgradeEvent::Success,
        ),
        (states[k] == UpgradeStep::PickUpgrade) ==> met_before(
            states,
            events,
            k,
            |s: UpgradeStep, e: UpgradeEvent|
                s == UpgradeStep::ReadStatus && e == UpgradeEvent::HasBase(true),
        ),
        (states[k] == UpgradeStep::NothingInstalled) ==> met_before(
            states,
            events,
            k,
            |s: UpgradeStep, e: UpgradeEvent|
                s == UpgradeStep::ReadStatus && e == UpgradeEvent::HasBase(false),
        ),
        (states[k] == UpgradeStep::Failed) ==> met_before(
            states,
            events,
            k,
            |s: UpgradeStep, e: UpgradeEvent|
                s == UpgradeStep::FetchManifest && e == UpgradeEvent::Error,
        ),
{
    if states[k] == UpgradeStep::ReadStatus {
        lemma_door(
            states,
            events,
            k,
            |s: UpgradeStep| s == UpgradeStep::ReadStatus,
            |s: UpgradeStep, e: UpgradeEvent|
                s == UpgradeStep::FetchManifest && e == UpgradeEvent::Success,
        );
    }
    if states[k] == UpgradeStep::PickUpgrade {
        lemma_door(
            states,
            events,
            k,
            |s: UpgradeStep| s == UpgradeStep::PickUpgrade,
            |s: UpgradeStep, e: UpgradeEvent|
                s == UpgradeStep::ReadStatus && e == UpgradeEvent::HasBase(true),
        );
    }
    if states[k] == UpgradeStep::NothingInstalled {
        lemma_door(
            states,
            events,
            k,
            |s: UpgradeStep| s == UpgradeStep::NothingInstalled,
            |s: UpgradeStep, e: UpgradeEvent|
                s == UpgradeStep::ReadStatus && e == UpgradeEvent::HasBase(false),
        );
    }
    if states[k] == UpgradeStep::Failed {
        lemma_door(
            states,
            events,
            k,
            |s: UpgradeStep| s == UpgradeStep::Failed,
            |s: UpgradeStep, e: UpgradeEvent|
                s == UpgradeStep::FetchManifest && e == UpgradeEvent::Error,
        );
    }
}

/// An upgrade is picked only from a list that was fetched, and only for an installed version.
pub proof fn law_upgrade_needs_both(states: Seq<UpgradeStep>, events: Seq<UpgradeEvent>, k: int)
    requires
        is_course(states, events),
        states[0] == UpgradeStep::FetchManifest,
        0 <= k < states.len(),
        states[k] == UpgradeStep::PickUpgrade,
    ensures
        met_before(
            states,
            events,
            k,
            |s: UpgradeStep, e: UpgradeEvent|
                s == UpgradeStep::FetchManifest && e == UpgradeEvent::Success,
        ),
        met_before(
            states,
            events,
            k,
            |s: UpgradeStep, e: UpgradeEvent|
                s == UpgradeStep::ReadStatus && e == UpgradeEvent::HasBase(true),
        ),
{
    lemma_door(
        states,
        events,
        k,
        |s: UpgradeStep|
            s == UpgradeStep::ReadStatus || s == UpgradeStep::PickUpgrade || s
                == UpgradeStep::NothingInstalled,
        |s: UpgradeStep, e: UpgradeEvent|
            s == UpgradeStep::FetchManifest && e == UpgradeEvent::Success,
    );
    lemma_door(
        states,
        events,
        k,
        |s: UpgradeStep| s == UpgradeStep::PickUpgrade,
        |s: UpgradeStep, e: UpgradeEvent|
            s == UpgradeStep::ReadStatus && e == UpgradeEvent::HasBase(true),
    );
}

} // verus!
