use gogdl_cli::management::{set_arg, set_env, set_executable, set_prefix_path, set_proton_version};
use gogdl_cli::runner::{
    game_command, game_display_name, game_file_path, get_game_status, get_run_status_plain,
    launch_config, manage_menu_label, needs_executable, needs_proton, new_prefix_dir,
    run_menu_label, steam_client_dir, wineboot_command, RunError,
};
use gogdl_cli::settings::AppSettings;

fn setup() -> AppSettings {
    let mut s = AppSettings::with_data_dir(Some("/data".to_string()));
    s.add_game("1", "/games/Foo", None, true, 42);
    s.add_proton_version("GE-Proton9-20", "/data/proton/GE-Proton9-20");
    s
}

#[test]
fn statuses_name_what_is_missing() {
    let mut s = setup();
    assert_eq!(get_run_status_plain(s.find_game(42).unwrap()), "[needs: proton, exe]");
    assert_eq!(get_game_status(s.find_game(42).unwrap()), "[no proton, no exe]");
    set_proton_version(&mut s, 42, "GE-Proton9-20").unwrap();
    assert_eq!(get_run_status_plain(s.find_game(42).unwrap()), "[needs: exe]");
    assert_eq!(get_game_status(s.find_game(42).unwrap()), "[proton, no exe]");
    set_executable(&mut s, 42, "Foo.exe").unwrap();
    assert_eq!(get_run_status_plain(s.find_game(42).unwrap()), "[ready]");
    assert_eq!(get_game_status(s.find_game(42).unwrap()), "[proton, exe]");
    let mut t = setup();
    set_executable(&mut t, 42, "Foo.exe").unwrap();
    assert_eq!(get_run_status_plain(t.find_game(42).unwrap()), "[needs: proton]");
}

#[test]
fn menu_lines() {
    let s = setup();
    let g = s.find_game(42).unwrap();
    assert_eq!(game_display_name(g), "Foo");
    assert_eq!(run_menu_label(g), "Foo [needs: proton, exe]");
    assert_eq!(manage_menu_label(g), "Foo [no proton, no exe]");
}

#[test]
fn what_a_run_still_needs() {
    let mut s = setup();
    assert!(needs_proton(&s, 42));
    assert!(needs_proton(&s, 7));
    assert_eq!(needs_executable(&s, 42), Ok(true));
    assert_eq!(needs_executable(&s, 7), Err(RunError::GameNotFound));
    set_proton_version(&mut s, 42, "GE-Proton9-20").unwrap();
    set_executable(&mut s, 42, "bin/Foo.exe").unwrap();
    assert!(!needs_proton(&s, 42));
    assert_eq!(needs_executable(&s, 42), Ok(false));
}

#[test]
fn launch_config_errors_in_order() {
    let mut s = setup();
    assert_eq!(launch_config(&s, 7), Err(RunError::GameNotFound));
    assert_eq!(launch_config(&s, 42), Err(RunError::ProtonNotSet));
    set_proton_version(&mut s, 42, "GE-Proton9-20").unwrap();
    assert_eq!(launch_config(&s, 42), Err(RunError::ExecutableNotSet));
}

#[test]
fn folders() {
    assert_eq!(steam_client_dir("/data"), "/data/steam");
    assert_eq!(new_prefix_dir("/data", 42), "/data/prefixes/42");
    assert_eq!(game_file_path("/games/Foo", "bin/Foo.exe"), "/games/Foo/bin/Foo.exe");
}

#[test]
fn wineboot_makes_the_prefix() {
    let c = wineboot_command("/data/proton/P", "/data/steam", "/data/prefixes/42");
    assert_eq!(c.program, "/data/proton/P/proton");
    assert_eq!(c.args, vec!["run".to_string(), "wineboot".to_string()]);
    assert_eq!(
        c.env,
        vec![
            ("STEAM_COMPAT_CLIENT_INSTALL_PATH".to_string(), "/data/steam".to_string()),
            ("STEAM_COMPAT_DATA_PATH".to_string(), "/data/prefixes/42".to_string()),
        ]
    );
    assert_eq!(c.current_dir, None);
}

#[test]
fn game_launch_command() {
    let mut s = setup();
    set_proton_version(&mut s, 42, "GE-Proton9-20").unwrap();
    set_executable(&mut s, 42, "bin/Foo.exe").unwrap();
    set_arg(&mut s, 42, "windowed").unwrap();
    set_env(&mut s, 42, "DXVK_HUD", "fps").unwrap();
    set_prefix_path(&mut s, 42, "/data/prefixes/42").unwrap();
    let config = launch_config(&s, 42).unwrap();
    assert_eq!(config.prefix_path.as_deref(), Some("/data/prefixes/42"));
    let c = game_command(&config, "/data/steam", "/data/prefixes/42");
    assert_eq!(c.program, "/data/proton/GE-Proton9-20/proton");
    assert_eq!(
        c.args,
        vec!["run".to_string(), "/games/Foo/bin/Foo.exe".to_string(), "-windowed".to_string()]
    );
    assert_eq!(
        c.env,
        vec![
            ("DXVK_HUD".to_string(), "fps".to_string()),
            ("STEAM_COMPAT_CLIENT_INSTALL_PATH".to_string(), "/data/steam".to_string()),
            ("STEAM_COMPAT_DATA_PATH".to_string(), "/data/prefixes/42".to_string()),
        ]
    );
    assert_eq!(c.current_dir.as_deref(), Some("/games/Foo/bin"));
}
