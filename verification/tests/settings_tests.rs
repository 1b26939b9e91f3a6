use gogdl_cli::management::{
    clear_args_cli, clear_env_cli, executable_full_path, set_arg, set_env, set_executable,
    set_prefix_path, set_proton_at, set_proton_version, ManageError,
};
use gogdl_cli::settings::{AppSettings, DownloadedGame, DownloadedProtonVersion};

fn empty(data: &str) -> AppSettings {
    AppSettings::with_data_dir(Some(data.to_string()))
}

fn game(settings: &AppSettings, id: i32) -> &DownloadedGame {
    settings.find_game(id).expect("game")
}

#[test]
fn fresh_settings_are_empty() {
    let s = AppSettings::with_data_dir(None);
    assert_eq!(s.data_path, "");
    assert!(s.downloaded_games.is_empty());
    assert!(s.downloaded_proton_versions.is_empty());
    let d = AppSettings::default();
    assert!(d.downloaded_games.is_empty());
    assert!(d.downloaded_proton_versions.is_empty());
}

#[test]
fn add_game_appends_a_fresh_entry() {
    let mut s = empty("/data");
    s.add_game("1.0", "/data/games/Foo", None, true, 5);
    assert_eq!(s.downloaded_games.len(), 1);
    let g = &s.downloaded_games[0];
    assert_eq!(g.build_id, "1.0");
    assert_eq!(g.path, "/data/games/Foo");
    assert!(g.download_complete);
    assert_eq!(g.game_id, 5);
    assert_eq!(g.executable, None);
    assert!(g.args.is_empty());
    assert!(g.environment_variables.is_empty());
    assert_eq!(g.prefix_path, None);
}

#[test]
fn add_game_replaces_the_same_build_and_moves_it_last() {
    let mut s = empty("/data");
    s.add_game("1.0", "/p/a", None, false, 5);
    s.add_game("2.0", "/p/b", None, true, 5);
    s.add_game("1.0", "/p/c", None, true, 6);
    s.add_game("1.0", "/p/d", None, true, 5);
    let keys: Vec<(String, i32, String)> = s
        .downloaded_games
        .iter()
        .map(|g| (g.build_id.clone(), g.game_id, g.path.clone()))
        .collect();
    assert_eq!(
        keys,
        vec![
            ("2.0".to_string(), 5, "/p/b".to_string()),
            ("1.0".to_string(), 6, "/p/c".to_string()),
            ("1.0".to_string(), 5, "/p/d".to_string()),
        ]
    );
}

#[test]
fn add_game_twice_equals_once() {
    let mut once = empty("/data");
    once.add_game("2.0", "/p/x", None, true, 9);
    once.add_game("1.0", "/p/y", None, true, 9);
    let mut twice = once.clone();
    once.add_game("2.0", "/p/z", None, false, 9);
    twice.add_game("2.0", "/p/z", None, false, 9);
    twice.add_game("2.0", "/p/z", None, false, 9);
    assert_eq!(once, twice);
}

#[test]
fn add_proton_version_appends() {
    let mut s = empty("/data");
    s.add_proton_version("GE-Proton9-20", "/data/proton/GE-Proton9-20");
    s.add_proton_version("GE-Proton9-21", "/data/proton/GE-Proton9-21");
    assert_eq!(s.downloaded_proton_versions.len(), 2);
    assert_eq!(s.downloaded_proton_versions[1].version, "GE-Proton9-21");
    assert!(s.has_proton_version("GE-Proton9-20"));
    assert!(!s.has_proton_version("GE-Proton8-1"));
}

#[test]
fn lookups_find_the_first_match() {
    let mut s = empty("/data");
    s.add_game("1", "/p/one", None, true, 3);
    s.add_game("2", "/p/two", None, true, 3);
    assert_eq!(s.find_game_index(3), Some(0));
    assert_eq!(game(&s, 3).path, "/p/one");
    assert!(s.is_game_installed(3));
    assert!(!s.is_game_installed(4));
    assert!(s.find_game(4).is_none());
    assert_eq!(s.find_build_index("2", 3), Some(1));
    assert_eq!(s.find_build_index("2", 4), None);
}

fn configured() -> AppSettings {
    let mut s = empty("/data");
    s.add_game("1", "/games/Foo", None, true, 10);
    s.add_game("1", "/games/Bar", None, true, 20);
    s.add_proton_version("GE-Proton9-20", "/data/proton/GE-Proton9-20");
    s
}

#[test]
fn set_proton_version_by_name() {
    let mut s = configured();
    assert_eq!(set_proton_version(&mut s, 20, "GE-Proton9-20"), Ok(()));
    assert_eq!(
        game(&s, 20).proton_version,
        Some(DownloadedProtonVersion {
            version: "GE-Proton9-20".to_string(),
            path: "/data/proton/GE-Proton9-20".to_string()
        })
    );
    assert_eq!(game(&s, 10).proton_version, None);
}

#[test]
fn set_proton_version_errors() {
    let mut s = configured();
    let before = s.clone();
    assert_eq!(set_proton_version(&mut s, 20, "nope"), Err(ManageError::ProtonVersionNotFound));
    assert_eq!(set_proton_version(&mut s, 99, "nope"), Err(ManageError::ProtonVersionNotFound));
    assert_eq!(set_proton_version(&mut s, 99, "GE-Proton9-20"), Err(ManageError::GameNotFound));
    assert_eq!(s, before);
}

#[test]
fn set_executable_and_its_path() {
    let mut s = configured();
    assert_eq!(
        executable_full_path(&s, 10, "bin/Foo.exe"),
        Some("/games/Foo/bin/Foo.exe".to_string())
    );
    assert_eq!(executable_full_path(&s, 11, "x.exe"), None);
    assert_eq!(set_executable(&mut s, 10, "bin/Foo.exe"), Ok(()));
    assert_eq!(game(&s, 10).executable.as_deref(), Some("bin/Foo.exe"));
    assert_eq!(set_executable(&mut s, 11, "x.exe"), Err(ManageError::GameNotFound));
}

#[test]
fn args_get_a_dash_and_accumulate() {
    let mut s = configured();
    assert_eq!(set_arg(&mut s, 10, "windowed"), Ok(()));
    assert_eq!(set_arg(&mut s, 10, "nosound"), Ok(()));
    assert_eq!(game(&s, 10).args, vec!["-windowed".to_string(), "-nosound".to_string()]);
    assert!(game(&s, 20).args.is_empty());
    assert_eq!(clear_args_cli(&mut s, 10), Ok(()));
    assert!(game(&s, 10).args.is_empty());
    assert_eq!(set_arg(&mut s, 1, "x"), Err(ManageError::GameNotFound));
    assert_eq!(clear_args_cli(&mut s, 1), Err(ManageError::GameNotFound));
}

#[test]
fn clearing_args_undoes_adding_one() {
    let mut a = configured();
    let mut b = configured();
    set_arg(&mut a, 10, "windowed").unwrap();
    clear_args_cli(&mut a, 10).unwrap();
    clear_args_cli(&mut b, 10).unwrap();
    assert_eq!(a, b);
}

#[test]
fn env_vars_accumulate_and_clear() {
    let mut s = configured();
    assert_eq!(set_env(&mut s, 20, "DXVK_HUD", "fps"), Ok(()));
    assert_eq!(set_env(&mut s, 20, "A", "b"), Ok(()));
    assert_eq!(
        game(&s, 20).environment_variables,
        vec![("DXVK_HUD".to_string(), "fps".to_string()), ("A".to_string(), "b".to_string())]
    );
    assert_eq!(clear_env_cli(&mut s, 20), Ok(()));
    assert!(game(&s, 20).environment_variables.is_empty());
    assert_eq!(set_env(&mut s, 21, "A", "b"), Err(ManageError::GameNotFound));
    assert_eq!(clear_env_cli(&mut s, 21), Err(ManageError::GameNotFound));
}

#[test]
fn proton_from_menu_and_prefix() {
    let mut s = configured();
    assert_eq!(set_proton_at(&mut s, 10, 0), Ok(()));
    assert_eq!(game(&s, 10).proton_version.as_ref().unwrap().version, "GE-Proton9-20");
    assert_eq!(set_proton_at(&mut s, 11, 0), Err(ManageError::GameNotFound));
    assert_eq!(set_prefix_path(&mut s, 10, "/data/prefixes/10"), Ok(()));
    assert_eq!(game(&s, 10).prefix_path.as_deref(), Some("/data/prefixes/10"));
    assert_eq!(set_prefix_path(&mut s, 11, "/x"), Err(ManageError::GameNotFound));
}
