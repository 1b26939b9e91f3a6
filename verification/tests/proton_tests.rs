use gogdl_cli::management::set_proton_version;
use gogdl_cli::proton::{
    browse_choice, page_before_empty, proton_dir, proton_in_use, proton_version_dir,
    release_label, release_proton_from_games, remove_proton_version, BrowseChoice,
};
use gogdl_cli::settings::AppSettings;

fn setup() -> AppSettings {
    let mut s = AppSettings::with_data_dir(Some("/data".to_string()));
    s.add_game("1", "/g/a", None, true, 1);
    s.add_game("1", "/g/b", None, true, 2);
    s.add_proton_version("P1", "/data/proton/P1");
    s.add_proton_version("P2", "/data/proton/P2");
    s.add_proton_version("P1", "/elsewhere/P1");
    set_proton_version(&mut s, 1, "P1").unwrap();
    set_proton_version(&mut s, 2, "P2").unwrap();
    s
}

#[test]
fn in_use_means_some_game_is_set_to_it() {
    let s = setup();
    assert!(proton_in_use(&s, "P1"));
    assert!(proton_in_use(&s, "P2"));
    assert!(!proton_in_use(&s, "P3"));
}

#[test]
fn releasing_unsets_only_that_version() {
    let mut s = setup();
    release_proton_from_games(&mut s, "P1");
    assert_eq!(s.find_game(1).unwrap().proton_version, None);
    assert_eq!(s.find_game(2).unwrap().proton_version.as_ref().unwrap().version, "P2");
    assert!(!proton_in_use(&s, "P1"));
}

#[test]
fn removing_drops_every_entry_of_that_name() {
    let mut s = setup();
    remove_proton_version(&mut s, "P1");
    let names: Vec<&str> = s.downloaded_proton_versions.iter().map(|p| p.version.as_str()).collect();
    assert_eq!(names, vec!["P2"]);
    assert_eq!(s.downloaded_games.len(), 2);
    remove_proton_version(&mut s, "nothing");
    assert_eq!(s.downloaded_proton_versions.len(), 1);
}

#[test]
fn install_dirs() {
    assert_eq!(proton_dir("/data"), "/data/proton");
    assert_eq!(proton_version_dir("/data", "GE-Proton9-20"), "/data/proton/GE-Proton9-20");
}

#[test]
fn release_labels_show_size_in_mebibytes() {
    assert_eq!(release_label("GE-Proton9-20", None), "GE-Proton9-20");
    assert_eq!(release_label("GE-Proton9-20", Some(450 * 1024 * 1024 + 12345)), "GE-Proton9-20 (450 MB)");
    assert_eq!(release_label("x", Some(1000)), "x (0 MB)");
}

#[test]
fn browse_menu_on_first_page() {
    assert_eq!(browse_choice(0, 3, 1), BrowseChoice::Release(0));
    assert_eq!(browse_choice(2, 3, 1), BrowseChoice::Release(2));
    assert_eq!(browse_choice(3, 3, 1), BrowseChoice::NextPage);
    assert_eq!(browse_choice(4, 3, 1), BrowseChoice::Back);
}

#[test]
fn browse_menu_on_later_pages() {
    assert_eq!(browse_choice(3, 3, 2), BrowseChoice::PreviousPage);
    assert_eq!(browse_choice(4, 3, 2), BrowseChoice::NextPage);
    assert_eq!(browse_choice(5, 3, 2), BrowseChoice::Back);
}

#[test]
fn empty_page_falls_back() {
    assert_eq!(page_before_empty(3), Some(2));
    assert_eq!(page_before_empty(1), None);
    assert_eq!(page_before_empty(0), None);
}
