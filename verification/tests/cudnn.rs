use koharu::cudnn::{CudnnStatus, UpgradeEvent, UpgradeStep};

#[test]
fn an_installed_version_can_be_upgraded() {
    let installed = CudnnStatus::Installed { version: "9.8".to_string() };
    assert_eq!(installed.upgrade_base(), Some("9.8".to_string()));
    let ready = CudnnStatus::Ready { version: "9.18".to_string() };
    assert_eq!(ready.upgrade_base(), Some("9.18".to_string()));
    assert_eq!(CudnnStatus::Other.upgrade_base(), None);
    let failed = CudnnStatus::Failed { version: "9".to_string(), error: "x".to_string() };
    assert_eq!(failed.upgrade_base(), None);
}

#[test]
fn a_failed_installation_is_told_without_a_version() {
    match CudnnStatus::install_failure("no network") {
        CudnnStatus::Failed { version, error } => {
            assert_eq!(version, "");
            assert_eq!(error, "no network");
        }
        _ => panic!("not a failure"),
    }
}

#[test]
fn an_upgrade_needs_a_list_and_a_version() {
    let start = UpgradeStep::runtime_check_cudnn_upgrade();
    assert_eq!(start, UpgradeStep::FetchManifest);
    assert_eq!(start.next(UpgradeEvent::Error), UpgradeStep::Failed);
    let fetched = start.next(UpgradeEvent::Success);
    assert_eq!(fetched, UpgradeStep::ReadStatus);
    assert_eq!(fetched.next(UpgradeEvent::HasBase(true)), UpgradeStep::PickUpgrade);
    assert_eq!(fetched.next(UpgradeEvent::HasBase(false)), UpgradeStep::NothingInstalled);
    assert_eq!(start.next(UpgradeEvent::HasBase(true)), start);
}
