//! The one-time move of the model cache from `models` to the shorter `hf`.
//!
//! [`MigrationStep`] says what to do next; the caller does it and hands back a
//! [`MigrationEvent`].

use crate::course::{is_course, lemma_door, met_before, Machine};
use vstd::prelude::*;

verus! {

/// The directory of the model cache.
pub const MODEL_DIR: &'static str = "hf";

/// The directory that the model cache had before.
pub const LEGACY_MODEL_DIR: &'static str = "models";

/// Whether a cache directory counts as filled: it is there, can be listed, and its listing has
/// an entry. `first_entry` tells of the listing, `None` where it failed.
pub fn has_content(exists: bool, first_entry: Option<bool>) -> (r: bool)
    ensures
        r == (exists && first_entry == Some(true)),
{
    match first_entry {
        Some(there) => exists && there,
        None => false,
    }
}

/// How a migration ended.
#[derive(Clone, Copy, PartialEq, Eq, Structural, Debug)]
pub enum MigrationOutcome {
    /// The old directory is missing or empty.
    NothingToDo,
    /// Both directories are filled; both were left alone.
    Conflict,
    /// The directory above the new one could not be made.
    ParentFailed,
    /// The old directory has become the new one.
    Migrated,
    /// The rename failed; the old directory was left alone.
    RenameFailed,
}

/// The next thing to do for a migration.
#[derive(Clone, Copy, PartialEq, Eq, Structural, Debug)]
pub enum MigrationStep {
    /// Find out whether the old directory is filled.
    LookAtLegacy,
    /// Find out whether the new directory is filled.
    LookAtModern,
    /// Make the directory above the new one.
    MakeParent,
    /// Rename the old directory to the new one.
    Rename,
    /// The migration is over.
    Finished(MigrationOutcome),
}

/// What came of a step.
#[derive(Clone, Copy, PartialEq, Eq, Structural, Debug)]
pub enum MigrationEvent {
    /// Whether the directory is filled.
    Filled(bool),
    Success,
    Error,
}

impl Machine for MigrationStep {
    type Event = MigrationEvent;

    open spec fn next_state(self, event: MigrationEvent) -> MigrationStep {
        match (self, event) {
            (MigrationStep::LookAtLegacy, MigrationEvent::Filled(filled)) => if filled {
                MigrationStep::LookAtModern
            } else {
                MigrationStep::Finished(MigrationOutcome::NothingToDo)
            },
            (MigrationStep::LookAtModern, MigrationEvent::Filled(filled)) => if filled {
                MigrationStep::Finished(MigrationOutcome::Conflict)
            } else {
                MigrationStep::MakeParent
            },
            (MigrationStep::MakeParent, MigrationEvent::Success) => MigrationStep::Rename,
            (MigrationStep::MakeParent, MigrationEvent::Error) => MigrationStep::Finished(
                MigrationOutcome::ParentFailed,
            ),
            (MigrationStep::Rename, MigrationEvent::Success) => MigrationStep::Finished(
                MigrationOutcome::Migrated,
            ),
            (MigrationStep::Rename, MigrationEvent::Error) => MigrationStep::Finished(
                MigrationOutcome::RenameFailed,
            ),
            _ => self,
        }
    }
}

impl MigrationStep {
    /// The first step of a migration.
    pub fn migrate_legacy_model_cache() -> (r: Self)
        ensures
            r == MigrationStep::LookAtLegacy,
    {
        MigrationStep::LookAtLegacy
    }

    /// The next step once `event` came of this one. An event that does not belong to the step
    /// changes nothing.
    pub fn next(self, event: MigrationEvent) -> (r: Self)
        ensures
            r == self.next_state(event),
    {
        match (self, event) {
            (MigrationStep::LookAtLegacy, MigrationEvent::Filled(filled)) => if filled {
                MigrationStep::LookAtModern
            } else {
                MigrationStep::Finished(MigrationOutcome::NothingToDo)
            },
            (MigrationStep::LookAtModern, MigrationEvent::Filled(filled)) => if filled {
                MigrationStep::Finished(MigrationOutcome::Conflict)
            } else {
                MigrationStep::MakeParent
            },
            (MigrationStep::MakeParent, MigrationEvent::Success) => MigrationStep::Rename,
            (MigrationStep::MakeParent, MigrationEvent::Error) => MigrationStep::Finished(
                MigrationOutcome::ParentFailed,
            ),
            (MigrationStep::Rename, MigrationEvent::Success) => MigrationStep::Finished(
                MigrationOutcome::Migrated,
            ),
            (MigrationStep::Rename, MigrationEvent::Error) => MigrationStep::Finished(
                MigrationOutcome::RenameFailed,
            ),
            _ => self,
        }
    }
}

/// Whether an answer is one to this step.
pub open spec fn answers_migration(step: MigrationStep, event: MigrationEvent) -> bool {
    match step {
        MigrationStep::LookAtLegacy | MigrationStep::LookAtModern => event is Filled,
        MigrationStep::MakeParent | MigrationStep::Rename => !(event is Filled),
        MigrationStep::Finished(_) => false,
    }
}

/// A migration moves on at every answer to its step and at nothing else: once it is over, it stays
/// so.
pub proof fn law_migration_moves_on(step: MigrationStep, event: MigrationEvent)
    ensures
        step.next_state(event) != step <==> answers_migration(step, event),
{
}

/// A rename is asked for only after the old directory was found filled and the new one was
/// found not to be.
pub proof fn law_rename_needs_both_answers(
    states: Seq<MigrationStep>,
    events: Seq<MigrationEvent>,
    k: int,
)
    requires
        is_course(states, events),
        states[0] == MigrationStep::LookAtLegacy,
        0 <= k < states.len(),
        states[k] == MigrationStep::Rename,
    ensures
        met_before(
            states,
            events,
            k,
            |s: MigrationStep, e: MigrationEvent|
                s == MigrationStep::LookAtLegacy && e == MigrationEvent::Filled(true),
        ),
        met_before(
            states,
            events,
            k,
            |s: MigrationStep, e: MigrationEvent|
                s == MigrationStep::LookAtModern && e == MigrationEvent::Filled(false),
        ),
{
    let settled = |s: MigrationStep|
        s == MigrationStep::Finished(MigrationOutcome::Migrated) || s == MigrationStep::Finished(
            MigrationOutcome::RenameFailed,
        ) || s == MigrationStep::Finished(MigrationOutcome::ParentFailed);
    lemma_door(
        states,
        events,
        k,
        |s: MigrationStep|
            s == MigrationStep::LookAtModern || s == MigrationStep::MakeParent || s
                == MigrationStep::Rename || s == MigrationStep::Finished(MigrationOutcome::Conflict)
                || settled(s),
        |s: MigrationStep, e: MigrationEvent|
            s == MigrationStep::LookAtLegacy && e == MigrationEvent::Filled(true),
    );
    lemma_door(
        states,
        events,
        k,
        |s: MigrationStep|
            s == MigrationStep::MakeParent || s == MigrationStep::Rename || settled(s),
        |s: MigrationStep, e: MigrationEvent|
            s == MigrationStep::LookAtModern && e == MigrationEvent::Filled(false),
    );
}

/// The files in the two cache directories, by name; `None` stands for a directory that is not
/// there.
pub struct Caches {
    pub legacy: Option<Map<Seq<char>, Seq<u8>>>,
    pub modern: Option<Map<Seq<char>, Seq<u8>>>,
}

/// A directory is there and has an entry.
pub open spec fn is_filled(dir: Option<Map<Seq<char>, Seq<u8>>>) -> bool {
    dir is Some && exists|name: Seq<char>| dir->0.dom().contains(name)
}

/// The caches once `event` came of a step. A rename moves the whole directory; one that fails
/// changes nothing.
pub open spec fn caches_after(
    caches: Caches,
    step: MigrationStep,
    event: MigrationEvent,
) -> Caches {
    if step == MigrationStep::Rename && event == MigrationEvent::Success {
        Caches { legacy: None, modern: caches.legacy }
    } else {
        caches
    }
}

/// What comes of a step, with these caches, where making the parent and renaming go as told.
pub open spec fn migration_report(
    caches: Caches,
    step: MigrationStep,
    parent_made: bool,
    renamed: bool,
) -> MigrationEvent {
    let done = match step {
        MigrationStep::MakeParent => parent_made,
        _ => renamed,
    };
    match step {
        MigrationStep::LookAtLegacy => MigrationEvent::Filled(is_filled(caches.legacy)),
        MigrationStep::LookAtModern => MigrationEvent::Filled(is_filled(caches.modern)),
        _ => if done {
            MigrationEvent::Success
        } else {
            MigrationEvent::Error
        },
    }
}

/// A migration from this step on, for at most `fuel` steps.
pub open spec fn migrated(
    caches: Caches,
    step: MigrationStep,
    parent_made: bool,
    renamed: bool,
    fuel: nat,
) -> (Caches, MigrationStep)
    decreases fuel,
{
    if fuel == 0 {
        (caches, step)
    } else {
        let event = migration_report(caches, step, parent_made, renamed);
        migrated(
            caches_after(caches, step, event),
            step.next_state(event),
            parent_made,
            renamed,
            (fuel - 1) as nat,
        )
    }
}

/// How every migration ends. A missing or empty old directory is left as it is; so are two
/// filled ones. Else the old directory becomes the new one and is gone from its old place, or,
/// where that fails, stays as it was. No file is lost on any way.
pub proof fn law_migration(caches: Caches, parent_made: bool, renamed: bool)
    ensures
        ({
            let (after, step) = migrated(
                caches,
                MigrationStep::LookAtLegacy,
                parent_made,
                renamed,
                4,
            );
            if !is_filled(caches.legacy) {
                &&& step == MigrationStep::Finished(MigrationOutcome::NothingToDo)
                &&& after == caches
            } else if is_filled(caches.modern) {
                &&& step == MigrationStep::Finished(MigrationOutcome::Conflict)
                &&& after == caches
            } else if !parent_made {
                &&& step == MigrationStep::Finished(MigrationOutcome::ParentFailed)
                &&& after == caches
            } else if !renamed {
                &&& step == MigrationStep::Finished(MigrationOutcome::RenameFailed)
                &&& after == caches
            } else {
                &&& step == MigrationStep::Finished(MigrationOutcome::Migrated)
                &&& after.modern == caches.legacy
                &&& after.legacy is None
            }
        }),
{
    reveal_with_fuel(migrated, 5);
}

} // verus!
