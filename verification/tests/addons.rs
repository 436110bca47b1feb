use koharu::addons::{addon_flag_name, addon_language, get_installed_addons, ADDON_COUNT};

#[test]
fn packs_and_their_flags() {
    let languages: Vec<&str> = (0..ADDON_COUNT).map(|i| addon_language(i).unwrap()).collect();
    assert_eq!(languages, vec!["fr", "de", "es", "pt", "ko"]);
    assert_eq!(addon_language(ADDON_COUNT), None);
    assert_eq!(addon_flag_name("fr"), "addon_fr.flag");
}

#[test]
fn enabled_packs_in_order() {
    assert_eq!(get_installed_addons(&vec![true, false, true, false, true]), vec!["fr", "es", "ko"]);
    assert_eq!(get_installed_addons(&vec![true; 5]), vec!["fr", "de", "es", "pt", "ko"]);
    assert!(get_installed_addons(&vec![false; 5]).is_empty());
}

#[test]
fn no_flags_known_no_packs() {
    assert!(get_installed_addons(&Vec::new()).is_empty());
    assert_eq!(get_installed_addons(&vec![false, true]), vec!["de"]);
    assert_eq!(get_installed_addons(&vec![true; 9]).len(), 5);
}
