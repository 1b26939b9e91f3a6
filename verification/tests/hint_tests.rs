use gogdl_cli::hint::{
    download_command, games_list_command, manage_add_arg_command, manage_add_env_command,
    manage_clear_args_command, manage_clear_env_command, manage_set_executable_command,
    manage_set_proton_command, proton_download_command, proton_installed_command,
    proton_list_command, proton_remove_command, run_command,
};
use gogdl_cli::text::{i32_to_string, last_path_segment};

#[test]
fn run_hint_names_the_game() {
    assert_eq!(run_command(1234567890), "gogdl run -g 1234567890");
    assert_eq!(run_command(-5), "gogdl run -g -5");
    assert_eq!(run_command(0), "gogdl run -g 0");
}

#[test]
fn download_hint_with_and_without_path() {
    assert_eq!(download_command(1234567890, None), "gogdl download -g 1234567890");
    assert_eq!(
        download_command(1234567890, Some("/home/user/.local/share/gogdl/games")),
        "gogdl download -g 1234567890 -p \"/home/user/.local/share/gogdl/games\""
    );
}

#[test]
fn manage_hints() {
    assert_eq!(
        manage_set_proton_command(7, "GE-Proton9-20"),
        "gogdl manage -g 7 set-proton -v \"GE-Proton9-20\""
    );
    assert_eq!(
        manage_set_executable_command(7, "Game.exe"),
        "gogdl manage -g 7 set-executable -p \"Game.exe\""
    );
    assert_eq!(manage_add_arg_command(7, "windowed"), "gogdl manage -g 7 add-arg -a \"windowed\"");
    assert_eq!(manage_clear_args_command(7), "gogdl manage -g 7 clear-args");
    assert_eq!(
        manage_add_env_command(7, "DXVK_HUD", "fps"),
        "gogdl manage -g 7 add-env -k \"DXVK_HUD\" -v \"fps\""
    );
    assert_eq!(manage_clear_env_command(7), "gogdl manage -g 7 clear-env");
}

#[test]
fn listing_hints() {
    assert_eq!(games_list_command(), "gogdl games -l");
    assert_eq!(proton_installed_command(), "gogdl proton -i");
}

#[test]
fn proton_list_hint_names_page_past_the_first() {
    assert_eq!(proton_list_command(1), "gogdl proton -l");
    assert_eq!(proton_list_command(2), "gogdl proton -l -p 2");
    assert_eq!(proton_list_command(0), "gogdl proton -l -p 0");
}

#[test]
fn proton_version_hints() {
    assert_eq!(proton_download_command("GE-Proton9-20"), "gogdl proton -d \"GE-Proton9-20\"");
    assert_eq!(proton_remove_command("GE-Proton9-20"), "gogdl proton -r \"GE-Proton9-20\"");
}

#[test]
fn decimal_rendering_matches_display() {
    for n in [0, 1, 9, 10, 99, 100, -1, -10, 2147483647, -2147483648, 1234567890] {
        assert_eq!(i32_to_string(n), n.to_string());
    }
}

#[test]
fn last_segment_of_paths() {
    assert_eq!(last_path_segment("/home/u/games/The Witcher"), "The Witcher");
    assert_eq!(last_path_segment("Game"), "Game");
    assert_eq!(last_path_segment("/a/b/"), "");
    assert_eq!(last_path_segment(""), "");
}
