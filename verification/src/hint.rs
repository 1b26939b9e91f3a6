//! The command lines that the interactive menus show as hints, so that a
//! user can learn the scripting form of each action.
use vstd::prelude::*;
use crate::text::{append_i64, decimal};

verus! {

/// The hint for running a game.
pub fn run_command(game_id: i32) -> (s: String)
    ensures
        s@ == "gogdl run -g "@ + decimal(game_id as int),
{
    let mut s = String::from_str("gogdl run -g ");
    append_i64(&mut s, game_id as i64);
    s
}

/// The hint for downloading a game, with the install path when one was given.
pub fn download_command(game_id: i32, path: Option<&str>) -> (s: String)
    ensures
        s@ == match path {
            Some(p) => "gogdl download -g "@ + decimal(game_id as int) + " -p \""@ + p@ + "\""@,
            None => "gogdl download -g "@ + decimal(game_id as int),
        },
{
    let mut s = String::from_str("gogdl download -g ");
    append_i64(&mut s, game_id as i64);
    match path {
        Some(p) => {
            s.append(" -p \"");
            s.append(p);
            s.append("\"");
        },
        None => {},
    }
    s
}

/// The hint for choosing a game's Proton version.
pub fn manage_set_proton_command(game_id: i32, version: &str) -> (s: String)
    ensures
        s@ == "gogdl manage -g "@ + decimal(game_id as int) + " set-proton -v \""@ + version@
            + "\""@,
{
    let mut s = String::from_str("gogdl manage -g ");
    append_i64(&mut s, game_id as i64);
    s.append(" set-proton -v \"");
    s.append(version);
    s.append("\"");
    s
}

/// The hint for choosing a game's executable.
pub fn manage_set_executable_command(game_id: i32, path: &str) -> (s: String)
    ensures
        s@ == "gogdl manage -g "@ + decimal(game_id as int) + " set-executable -p \""@ + path@
            + "\""@,
{
    let mut s = String::from_str("gogdl manage -g ");
    append_i64(&mut s, game_id as i64);
    s.append(" set-executable -p \"");
    s.append(path);
    s.append("\"");
    s
}

/// The hint for adding a launch argument.
pub fn manage_add_arg_command(game_id: i32, arg: &str) -> (s: String)
    ensures
        s@ == "gogdl manage -g "@ + decimal(game_id as int) + " add-arg -a \""@ + arg@ + "\""@,
{
    let mut s = String::from_str("gogdl manage -g ");
    append_i64(&mut s, game_id as i64);
    s.append(" add-arg -a \"");
    s.append(arg);
    s.append("\"");
    s
}

/// The hint for clearing the launch arguments.
pub fn manage_clear_args_command(game_id: i32) -> (s: String)
    ensures
        s@ == "gogdl manage -g "@ + decimal(game_id as int) + " clear-args"@,
{
    let mut s = String::from_str("gogdl manage -g ");
    append_i64(&mut s, game_id as i64);
    s.append(" clear-args");
    s
}

/// The hint for adding an environment variable.
pub fn manage_add_env_command(game_id: i32, key: &str, value: &str) -> (s: String)
    ensures
        s@ == "gogdl manage -g "@ + decimal(game_id as int) + " add-env -k \""@ + key@
            + "\" -v \""@ + value@ + "\""@,
{
    let mut s = String::from_str("gogdl manage -g ");
    append_i64(&mut s, game_id as i64);
    s.append(" add-env -k \"");
    s.append(key);
    s.append("\" -v \"");
    s.append(value);
    s.append("\"");
    s
}

/// The hint for clearing the environment variables.
pub fn manage_clear_env_command(game_id: i32) -> (s: String)
    ensures
        s@ == "gogdl manage -g "@ + decimal(game_id as int) + " clear-env"@,
{
    let mut s = String::from_str("gogdl manage -g ");
    append_i64(&mut s, game_id as i64);
    s.append(" clear-env");
    s
}

/// The hint for listing the owned games.
pub fn games_list_command() -> (s: String)
    ensures
        s@ == "gogdl games -l"@,
{
    String::from_str("gogdl games -l")
}

/// The hint for listing a page of Proton versions; the first page needs no
/// page flag.
pub fn proton_list_command(page: i32) -> (s: String)
    ensures
        s@ == if page == 1 {
            "gogdl proton -l"@
        } else {
            "gogdl proton -l -p "@ + decimal(page as int)
        },
{
    if page == 1 {
        String::from_str("gogdl proton -l")
    } else {
        let mut s = String::from_str("gogdl proton -l -p ");
        append_i64(&mut s, page as i64);
        s
    }
}

/// The hint for downloading a Proton version.
pub fn proton_download_command(version: &str) -> (s: String)
    ensures
        s@ == "gogdl proton -d \""@ + version@ + "\""@,
{
    let mut s = String::from_str("gogdl proton -d \"");
    s.append(version);
    s.append("\"");
    s
}

/// The hint for listing the installed Proton versions.
pub fn proton_installed_command() -> (s: String)
    ensures
        s@ == "gogdl proton -i"@,
{
    String::from_str("gogdl proton -i")
}

/// The hint for removing an installed Proton version.
pub fn proton_remove_command(version: &str) -> (s: String)
    ensures
        s@ == "gogdl proton -r \""@ + version@ + "\""@,
{
    let mut s = String::from_str("gogdl proton -r \"");
    s.append(version);
    s.append("\"");
    s
}

} // verus!
