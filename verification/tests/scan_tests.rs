use gogdl_cli::executables::{
    classify_entry, is_game_executable, is_skipped_dir, join_relative, scan_folder, ScanStep,
};
use gogdl_cli::order::{sort_dedup, str_lt};

#[test]
fn support_folders_are_skipped_in_any_case() {
    assert!(is_skipped_dir("Redist"));
    assert!(is_skipped_dir("__support"));
    assert!(is_skipped_dir("DirectX"));
    assert!(is_skipped_dir("_CommonRedist"));
    assert!(is_skipped_dir("game_support_files"));
    assert!(!is_skipped_dir("bin"));
    assert!(!is_skipped_dir("Data"));
}

#[test]
fn game_executables_are_listed() {
    assert!(is_game_executable("Game.exe"));
    assert!(is_game_executable("GAME.EXE"));
    assert!(!is_game_executable("unins000.exe"));
    assert!(!is_game_executable("Setup.exe"));
    assert!(!is_game_executable("CrashReporter.exe"));
    assert!(!is_game_executable("vc_redist.x64.exe"));
    assert!(!is_game_executable("DXSETUP.exe"));
    assert!(!is_game_executable("dotNetFx.exe"));
    assert!(!is_game_executable("readme.txt"));
    assert!(!is_game_executable("exe"));
}

#[test]
fn relative_paths() {
    assert_eq!(join_relative("", "Game.exe"), "Game.exe");
    assert_eq!(join_relative("bin/x64", "Game.exe"), "bin/x64/Game.exe");
    assert_eq!(scan_folder("/games/Foo", ""), "/games/Foo");
    assert_eq!(scan_folder("/games/Foo", "bin"), "/games/Foo/bin");
}

#[test]
fn entries_are_classified() {
    assert_eq!(classify_entry("", "bin", true, false), ScanStep::Enter("bin".to_string()));
    assert_eq!(classify_entry("a", "redist", true, false), ScanStep::Pass);
    assert_eq!(classify_entry("bin", "Game.exe", false, true), ScanStep::List("bin/Game.exe".to_string()));
    assert_eq!(classify_entry("bin", "setup.exe", false, true), ScanStep::Pass);
    assert_eq!(classify_entry("bin", "Game.exe", false, false), ScanStep::Pass);
}

#[test]
fn listing_is_sorted_without_repeats() {
    let found = vec![
        "b/Game.exe".to_string(),
        "Game.exe".to_string(),
        "a/Tool.exe".to_string(),
        "Game.exe".to_string(),
        "Zeta.exe".to_string(),
    ];
    let mut expected = found.clone();
    expected.sort();
    expected.dedup();
    let listed = sort_dedup(found);
    assert_eq!(listed, expected);
    assert_eq!(sort_dedup(listed.clone()), listed);
    assert!(sort_dedup(vec![]).is_empty());
}

#[test]
fn string_order_matches_std() {
    let words = ["", "a", "ab", "b", "B", "é", "aa", "Game.exe", "game.exe"];
    for x in words {
        for y in words {
            assert_eq!(str_lt(x, y), x < y, "{} < {}", x, y);
        }
    }
}
