use koharu::cache_migration::{
    has_content, MigrationEvent, MigrationOutcome, MigrationStep, LEGACY_MODEL_DIR, MODEL_DIR,
};

fn outcome(legacy: bool, modern: bool, parent: bool, rename: bool) -> MigrationOutcome {
    let result = |ok: bool| if ok { MigrationEvent::Success } else { MigrationEvent::Error };
    let mut step = MigrationStep::migrate_legacy_model_cache();
    loop {
        let event = match step {
            MigrationStep::LookAtLegacy => MigrationEvent::Filled(legacy),
            MigrationStep::LookAtModern => MigrationEvent::Filled(modern),
            MigrationStep::MakeParent => result(parent),
            MigrationStep::Rename => {
                assert!(legacy && !modern);
                result(rename)
            }
            MigrationStep::Finished(outcome) => return outcome,
        };
        step = step.next(event);
    }
}

#[test]
fn cache_directories_have_their_names() {
    assert_eq!(MODEL_DIR, "hf");
    assert_eq!(LEGACY_MODEL_DIR, "models");
}

#[test]
fn a_directory_with_an_entry_has_content() {
    assert!(has_content(true, Some(true)));
    assert!(!has_content(true, Some(false)));
    assert!(!has_content(true, None));
    assert!(!has_content(false, None));
    assert!(!has_content(false, Some(true)));
}

#[test]
fn fresh_installs_have_nothing_to_migrate() {
    assert_eq!(outcome(false, false, true, true), MigrationOutcome::NothingToDo);
    assert_eq!(outcome(false, true, true, true), MigrationOutcome::NothingToDo);
}

#[test]
fn two_filled_caches_are_left_alone() {
    assert_eq!(outcome(true, true, true, true), MigrationOutcome::Conflict);
}

#[test]
fn a_migration_may_succeed_or_fail() {
    assert_eq!(outcome(true, false, true, true), MigrationOutcome::Migrated);
    assert_eq!(outcome(true, false, true, false), MigrationOutcome::RenameFailed);
    assert_eq!(outcome(true, false, false, true), MigrationOutcome::ParentFailed);
}

#[test]
fn a_finished_migration_stays_finished() {
    let end = MigrationStep::Finished(MigrationOutcome::Migrated);
    assert_eq!(end.next(MigrationEvent::Filled(true)), end);
    assert_eq!(end.next(MigrationEvent::Error), end);
    let rename = MigrationStep::Rename;
    assert_eq!(rename.next(MigrationEvent::Filled(false)), rename);
}
