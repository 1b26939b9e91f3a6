use gogdl_cli::cli::{
    default_games_dir, download_root, game_menu_label, install_hint_path, login_action,
    manage_mode, proton_direct, resolve_install_path, LoginAction, ManageAction, ManageMode,
};
use gogdl_cli::download::{
    already_downloaded, auth_action, game_install_dir, record_download, requires_login_refresh,
    AuthAction, AuthStatus,
};
use gogdl_cli::settings::AppSettings;

#[test]
fn manage_modes() {
    assert_eq!(
        manage_mode(Some(5), Some(ManageAction::ClearArgs)),
        ManageMode::Direct(5, ManageAction::ClearArgs)
    );
    assert_eq!(manage_mode(Some(5), None), ManageMode::MissingAction);
    assert_eq!(manage_mode(None, Some(ManageAction::ClearEnv)), ManageMode::Interactive);
    assert_eq!(manage_mode(None, None), ManageMode::Interactive);
}

#[test]
fn proton_flags_pick_direct_mode() {
    assert!(!proton_direct(false, &None, false, &None));
    assert!(proton_direct(true, &None, false, &None));
    assert!(proton_direct(false, &Some("x".to_string()), false, &None));
    assert!(proton_direct(false, &None, true, &None));
    assert!(proton_direct(false, &None, false, &Some("x".to_string())));
}

#[test]
fn login_actions() {
    assert_eq!(login_action(true, Some("abc".to_string())), LoginAction::Exchange("abc".to_string()));
    assert_eq!(login_action(true, None), LoginAction::MissingCode);
    assert_eq!(login_action(false, Some("abc".to_string())), LoginAction::OpenBrowser);
}

#[test]
fn download_folders() {
    assert_eq!(default_games_dir("/data"), "/data/games");
    assert_eq!(download_root(None, "/home/u", "/data"), "/data/games");
    assert_eq!(download_root(Some("stuff"), "/home/u", "/data"), "/home/u/stuff/games");
    assert_eq!(game_install_dir("/data/games", "Foo"), "/data/games/Foo");
}

#[test]
fn install_prompt_answers() {
    assert_eq!(resolve_install_path("", "/data/games", "/pwd"), "/data/games");
    assert_eq!(resolve_install_path("/mnt/g", "/data/games", "/pwd"), "/mnt/g");
    assert_eq!(resolve_install_path("~/g", "/data/games", "/pwd"), "~/g");
    assert_eq!(resolve_install_path("g", "/data/games", "/pwd"), "/pwd/g");
    assert_eq!(install_hint_path("/data/games", "/data"), None);
    assert_eq!(install_hint_path("/mnt/g", "/data"), Some("/mnt/g".to_string()));
}

#[test]
fn library_lines() {
    assert_eq!(game_menu_label("Foo", true), "Foo [installed]");
    assert_eq!(game_menu_label("Foo", false), "Foo");
}

#[test]
fn skip_only_complete_downloads_without_fix() {
    let mut s = AppSettings::with_data_dir(Some("/data".to_string()));
    record_download(&mut s, 5, "1.0", "/data/games", "Foo", true);
    record_download(&mut s, 5, "0.9", "/data/games", "Foo", false);
    assert_eq!(s.downloaded_games[0].path, "/data/games/Foo");
    assert!(already_downloaded(&s, 5, "1.0", false));
    assert!(!already_downloaded(&s, 5, "1.0", true));
    assert!(!already_downloaded(&s, 5, "0.9", false));
    assert!(!already_downloaded(&s, 6, "1.0", false));
    record_download(&mut s, 5, "0.9", "/data/games", "Foo", true);
    assert!(already_downloaded(&s, 5, "0.9", false));
    assert_eq!(s.downloaded_games.len(), 2);
}

#[test]
fn sessions() {
    assert!(requires_login_refresh(401));
    assert!(!requires_login_refresh(403));
    assert_eq!(auth_action(AuthStatus::Valid), AuthAction::Proceed);
    assert_eq!(auth_action(AuthStatus::TokenExpired), AuthAction::Refresh);
    assert_eq!(auth_action(AuthStatus::NotLoggedIn), AuthAction::RequireLogin);
    assert_eq!(auth_action(AuthStatus::OtherError), AuthAction::Proceed);
}
