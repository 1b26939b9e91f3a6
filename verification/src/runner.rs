//! Launching a game under Proton: what is still to be configured, the
//! menu lines of installed games, and the commands that make a Wine prefix
//! and start the game.
use vstd::prelude::*;
use crate::settings::{
    AppSettings, DownloadedGame, GameView, SettingsView, first_game, has_game, lemma_first_game_unique, opt_chars,
    pairs_view, strings_view,
};
use crate::text::{append_i64, decimal, last_path_segment, last_segment};
use crate::management::{add_arg_edit, add_env_edit, edit_first_game, law_edit_keeps_place};

verus! {

/// The status of a game in the run menu: ready, or what it still needs.
pub open spec fn run_status(g: GameView) -> Seq<char> {
    if g.proton_version is Some && g.executable is Some {
        "[ready]"@
    } else if g.executable is Some {
        "[needs: proton]"@
    } else if g.proton_version is Some {
        "[needs: exe]"@
    } else {
        "[needs: proton, exe]"@
    }
}

/// The status of a game in the run menu (plain text, no colours).
pub fn get_run_status_plain(game: &DownloadedGame) -> (r: String)
    ensures
        r@ == run_status(game@),
{
    let proton_ok = game.proton_version.is_some();
    let exe_ok = game.executable.is_some();
    if proton_ok && exe_ok {
        String::from_str("[ready]")
    } else if exe_ok {
        String::from_str("[needs: proton]")
    } else if proton_ok {
        String::from_str("[needs: exe]")
    } else {
        String::from_str("[needs: proton, exe]")
    }
}

/// The status of a game in the management menu: which of Proton and
/// executable are set.
pub open spec fn config_status(g: GameView) -> Seq<char> {
    "["@ + (if g.proton_version is Some { "proton"@ } else { "no proton"@ }) + ", "@ + (
    if g.executable is Some {
        "exe"@
    } else {
        "no exe"@
    }) + "]"@
}

/// The status of a game in the management menu.
pub fn get_game_status(game: &DownloadedGame) -> (r: String)
    ensures
        r@ == config_status(game@),
{
    let mut r = String::from_str("[");
    if game.proton_version.is_some() {
        r.append("proton");
    } else {
        r.append("no proton");
    }
    r.append(", ");
    if game.executable.is_some() {
        r.append("exe");
    } else {
        r.append("no exe");
    }
    r.append("]");
    r
}

/// The name a game is shown by: the last part of its install path.
pub fn game_display_name(game: &DownloadedGame) -> (r: String)
    ensures
        r@ == last_segment(game@.path),
{
    last_path_segment(game.path.as_str())
}

/// The line of a game in the run menu: its name, then its run status.
pub fn run_menu_label(game: &DownloadedGame) -> (r: String)
    ensures
        r@ == last_segment(game@.path) + " "@ + run_status(game@),
{
    let mut r = game_display_name(game);
    r.append(" ");
    let status = get_run_status_plain(game);
    r.append(status.as_str());
    r
}

/// The line of a game in the management menu: its name, then which of
/// Proton and executable are set.
pub fn manage_menu_label(game: &DownloadedGame) -> (r: String)
    ensures
        r@ == last_segment(game@.path) + " "@ + config_status(game@),
{
    let mut r = game_display_name(game);
    r.append(" ");
    let status = get_game_status(game);
    r.append(status.as_str());
    r
}

/// A game still needs a Proton version before it can run: it is not
/// installed, or none is set.
pub open spec fn proton_needed(games: Seq<GameView>, game_id: i32) -> bool {
    !has_game(games, game_id) || games[first_game(games, game_id)].proton_version is None
}

/// Whether a game still needs a Proton version before it can run.
pub fn needs_proton(settings: &AppSettings, game_id: i32) -> (r: bool)
    ensures
        r == proton_needed(settings@.games, game_id),
{
    match settings.find_game(game_id) {
        Some(g) => g.proton_version.is_none(),
        None => true,
    }
}

/// Why a game cannot be launched.
#[derive(Clone, Copy, Debug, PartialEq, Eq, Structural)]
pub enum RunError {
    /// No installed game has the given id.
    GameNotFound,
    /// The game has no Proton version set.
    ProtonNotSet,
    /// The game has no executable set.
    ExecutableNotSet,
}

/// Whether an installed game still needs an executable.
pub fn needs_executable(settings: &AppSettings, game_id: i32) -> (r: Result<bool, RunError>)
    ensures
        match r {
            Ok(b) => has_game(settings@.games, game_id) && b == settings@.games[first_game(
                settings@.games,
                game_id,
            )].executable is None,
            Err(e) => e == RunError::GameNotFound && !has_game(settings@.games, game_id),
        },
{
    match settings.find_game(game_id) {
        Some(g) => Ok(g.executable.is_none()),
        None => Err(RunError::GameNotFound),
    }
}

/// What launching a configured game takes from its entry.
#[derive(Clone, Debug, PartialEq, Eq)]
pub struct LaunchConfig {
    pub proton_path: String,
    pub prefix_path: Option<String>,
    pub game_path: String,
    pub executable: String,
    pub environment_variables: Vec<(String, String)>,
    pub args: Vec<String>,
}

/// The abstract value of a launch configuration.
pub struct LaunchConfigView {
    pub proton_path: Seq<char>,
    pub prefix_path: Option<Seq<char>>,
    pub game_path: Seq<char>,
    pub executable: Seq<char>,
    pub environment_variables: Seq<(Seq<char>, Seq<char>)>,
    pub args: Seq<Seq<char>>,
}

impl View for LaunchConfig {
    type V = LaunchConfigView;

    open spec fn view(&self) -> LaunchConfigView {
        LaunchConfigView {
            proton_path: self.proton_path@,
            prefix_path: opt_chars(self.prefix_path),
            game_path: self.game_path@,
            executable: self.executable@,
            environment_variables: pairs_view(self.environment_variables@),
            args: strings_view(self.args@),
        }
    }
}

/// A copy of a list of strings.
pub fn copy_strings(v: &Vec<String>) -> (r: Vec<String>)
    ensures
        strings_view(r@) == strings_view(v@),
{
    let mut r: Vec<String> = Vec::new();
    let mut i: usize = 0;
    while i < v.len()
        invariant
            i <= v@.len(),
            r@.len() == i,
            forall|k: int| 0 <= k < i ==> (#[trigger] r@[k])@ == v@[k]@,
        decreases v@.len() - i,
    {
        let c = v[i].clone();
        r.push(c);
        i = i + 1;
    }
    assert(strings_view(r@) =~= strings_view(v@));
    r
}

/// A copy of a list of string pairs.
pub fn copy_pairs(v: &Vec<(String, String)>) -> (r: Vec<(String, String)>)
    ensures
        pairs_view(r@) == pairs_view(v@),
{
    let mut r: Vec<(String, String)> = Vec::new();
    let mut i: usize = 0;
    while i < v.len()
        invariant
            i <= v@.len(),
            r@.len() == i,
            forall|k: int| 0 <= k < i ==> (#[trigger] r@[k]).0@ == v@[k].0@ && r@[k].1@ == v@[k].1@,
        decreases v@.len() - i,
    {
        let a = v[i].0.clone();
        let b = v[i].1.clone();
        r.push((a, b));
        i = i + 1;
    }
    assert(pairs_view(r@) =~= pairs_view(v@));
    r
}

/// The launch configuration of a game entry, where it is complete: its Proton
/// version's folder, its prefix (if made), its folder, executable, variables
/// and arguments.
pub open spec fn config_of(g: GameView) -> Result<LaunchConfigView, RunError> {
    match g.proton_version {
        None => Err(RunError::ProtonNotSet),
        Some(p) => match g.executable {
            None => Err(RunError::ExecutableNotSet),
            Some(exe) => Ok(
                LaunchConfigView {
                    proton_path: p.path,
                    prefix_path: g.prefix_path,
                    game_path: g.path,
                    executable: exe,
                    environment_variables: g.environment_variables,
                    args: g.args,
                },
            ),
        },
    }
}

/// The launch configuration of the first installed game with the given id:
/// refused where no such game is installed, or its Proton version or its
/// executable is not set (checked in that order).
pub fn launch_config(settings: &AppSettings, game_id: i32) -> (r: Result<LaunchConfig, RunError>)
    ensures
        !has_game(settings@.games, game_id) ==> r == Err::<LaunchConfig, RunError>(RunError::GameNotFound),
        has_game(settings@.games, game_id) ==> match config_of(
            settings@.games[first_game(settings@.games, game_id)],
        ) {
            Ok(c) => r is Ok && r->Ok_0@ == c,
            Err(e) => r == Err::<LaunchConfig, RunError>(e),
        },
{
    let g = match settings.find_game(game_id) {
        Some(g) => g,
        None => {
            return Err(RunError::GameNotFound);
        },
    };
    let proton_path = match &g.proton_version {
        Some(p) => p.path.clone(),
        None => {
            return Err(RunError::ProtonNotSet);
        },
    };
    let executable = match &g.executable {
        Some(e) => e.clone(),
        None => {
            return Err(RunError::ExecutableNotSet);
        },
    };
    let prefix_path = match &g.prefix_path {
        Some(p) => Some(p.clone()),
        None => None,
    };
    Ok(
        LaunchConfig {
            proton_path,
            prefix_path,
            game_path: g.path.clone(),
            executable,
            environment_variables: copy_pairs(&g.environment_variables),
            args: copy_strings(&g.args),
        },
    )
}

/// The folder that Proton is given as the Steam client install: shared by
/// all games, under the data directory.
pub fn steam_client_dir(data_path: &str) -> (r: String)
    ensures
        r@ == data_path@ + "/steam"@,
{
    let mut r = data_path.to_owned();
    r.append("/steam");
    r
}

/// The Wine prefix made for a game on its first run.
pub fn new_prefix_dir(data_path: &str, game_id: i32) -> (r: String)
    ensures
        r@ == data_path@ + "/prefixes/"@ + decimal(game_id as int),
{
    let mut r = data_path.to_owned();
    r.append("/prefixes/");
    append_i64(&mut r, game_id as i64);
    r
}


/// A file of a game: the game folder, a '/', and the path relative to it.
pub fn game_file_path(game_path: &str, relative: &str) -> (r: String)
    ensures
        r@ == game_path@ + "/"@ + relative@,
{
    let mut r = game_path.to_owned();
    r.append("/");
    r.append(relative);
    r
}

/// The folder that `std::path::Path::parent` gives for `path`, as text
/// (`None` for a root or an empty path).
pub uninterp spec fn path_parent(path: Seq<char>) -> Option<Seq<char>>;

/// The folder that holds a path.
///
/// Calls `std::path::Path::new(path).parent()` and takes the result as text;
/// the contract only names it, since path parsing is not restated here.
#[verifier::external_body]
fn parent_dir(path: &str) -> (r: Option<String>)
    ensures
        opt_chars(r) == path_parent(path@),
{
    match std::path::Path::new(path).parent() {
        Some(p) => Some(p.to_string_lossy().into_owned()),
        None => None,
    }
}

/// A program to start: its path, arguments, added environment variables (a
/// later one wins over an earlier one of the same name) and working folder
/// (`None`: the current one).
#[derive(Clone, Debug, PartialEq, Eq)]
pub struct LaunchCommand {
    pub program: String,
    pub args: Vec<String>,
    pub env: Vec<(String, String)>,
    pub current_dir: Option<String>,
}

/// The abstract value of a launch command.
pub struct LaunchCommandView {
    pub program: Seq<char>,
    pub args: Seq<Seq<char>>,
    pub env: Seq<(Seq<char>, Seq<char>)>,
    pub current_dir: Option<Seq<char>>,
}

impl View for LaunchCommand {
    type V = LaunchCommandView;

    open spec fn view(&self) -> LaunchCommandView {
        LaunchCommandView {
            program: self.program@,
            args: strings_view(self.args@),
            env: pairs_view(self.env@),
            current_dir: opt_chars(self.current_dir),
        }
    }
}

/// The variables that point Proton at the shared Steam client folder and at
/// the game's prefix.
pub open spec fn steam_env(steam_client: Seq<char>, prefix: Seq<char>) -> Seq<(Seq<char>, Seq<char>)> {
    seq![("STEAM_COMPAT_CLIENT_INSTALL_PATH"@, steam_client), ("STEAM_COMPAT_DATA_PATH"@, prefix)]
}

fn push_steam_env(env: &mut Vec<(String, String)>, steam_client: &str, prefix: &str)
    ensures
        pairs_view(final(env)@) == pairs_view(old(env)@) + steam_env(steam_client@, prefix@),
{
    let ghost before = env@;
    env.push((String::from_str("STEAM_COMPAT_CLIENT_INSTALL_PATH"), steam_client.to_owned()));
    env.push((String::from_str("STEAM_COMPAT_DATA_PATH"), prefix.to_owned()));
    assert(pairs_view(env@) =~= pairs_view(before) + steam_env(steam_client@, prefix@));
}

/// The command that makes a game's Wine prefix: Proton's `run wineboot` with
/// the Steam variables set.
pub fn wineboot_command(proton_path: &str, steam_client: &str, prefix: &str) -> (r: LaunchCommand)
    ensures
        r@.program == proton_path@ + "/proton"@,
        r@.args == seq!["run"@, "wineboot"@],
        r@.env == steam_env(steam_client@, prefix@),
        r@.current_dir is None,
{
    let mut program = proton_path.to_owned();
    program.append("/proton");
    let mut args: Vec<String> = Vec::new();
    args.push(String::from_str("run"));
    args.push(String::from_str("wineboot"));
    let mut env: Vec<(String, String)> = Vec::new();
    push_steam_env(&mut env, steam_client, prefix);
    assert(strings_view(args@) =~= seq!["run"@, "wineboot"@]);
    assert(pairs_view(env@) =~= steam_env(steam_client@, prefix@)) by {
        assert(pairs_view(Seq::<(String, String)>::empty()) =~= Seq::<(Seq<char>, Seq<char>)>::empty());
    }
    LaunchCommand { program, args, env, current_dir: None }
}

/// The command that starts a game: Proton's `run` on the executable, then
/// the game's arguments; the game's variables, then the Steam variables; run
/// from the folder that holds the executable.
pub fn game_command(config: &LaunchConfig, steam_client: &str, prefix: &str) -> (r: LaunchCommand)
    ensures
        r@.program == config@.proton_path + "/proton"@,
        r@.args == seq!["run"@, config@.game_path + "/"@ + config@.executable] + config@.args,
        r@.env == config@.environment_variables + steam_env(steam_client@, prefix@),
        r@.current_dir == path_parent(config@.game_path + "/"@ + config@.executable),
{
    let mut program = config.proton_path.clone();
    program.append("/proton");
    let full = game_file_path(config.game_path.as_str(), config.executable.as_str());
    let current_dir = parent_dir(full.as_str());
    let mut args: Vec<String> = Vec::new();
    args.push(String::from_str("run"));
    args.push(full);
    let mut i: usize = 0;
    while i < config.args.len()
        invariant
            i <= config.args@.len(),
            args@.len() == i + 2,
            args@[0]@ == "run"@,
            args@[1]@ == config@.game_path + "/"@ + config@.executable,
            forall|k: int| 0 <= k < i ==> (#[trigger] args@[k + 2])@ == config.args@[k]@,
        decreases config.args@.len() - i,
    {
        args.push(config.args[i].clone());
        i = i + 1;
    }
    let mut env = copy_pairs(&config.environment_variables);
    push_steam_env(&mut env, steam_client, prefix);
    assert(strings_view(args@) =~= seq!["run"@, config@.game_path + "/"@ + config@.executable] + config@.args) by {
        let want = seq!["run"@, config@.game_path + "/"@ + config@.executable] + config@.args;
        assert forall|k: int| 0 <= k < args@.len() implies strings_view(args@)[k] == want[k] by {
            if k >= 2 {
                assert(args@[(k - 2) + 2]@ == config.args@[k - 2]@);
            }
        }
    }
    LaunchCommand { program, args, env, current_dir }
}

/// A launch takes the game's entry in full: a game can be launched exactly
/// when its Proton version and executable are set, and then its launch
/// configuration carries every stored argument and variable, in order, with
/// the game's folder, executable, Proton folder and prefix.
pub proof fn law_launch_takes_game_in_full(g: GameView)
    ensures
        (config_of(g) is Ok) <==> (g.proton_version is Some && g.executable is Some),
        config_of(g) is Ok ==> {
            let c = config_of(g)->Ok_0;
            &&& c.args == g.args
            &&& c.environment_variables == g.environment_variables
            &&& c.executable == g.executable->0
            &&& c.game_path == g.path
            &&& c.proton_path == g.proton_version->0.path
            &&& c.prefix_path == g.prefix_path
        },
{
}

/// What is added to a game reaches its launch: after adding the argument
/// `arg` and the variable `key`=`value` to a launchable game, its launch
/// configuration has the earlier arguments followed by "-arg", and the
/// earlier variables followed by that pair.
pub proof fn law_additions_reach_launch(
    s: SettingsView,
    game_id: i32,
    arg: Seq<char>,
    key: Seq<char>,
    value: Seq<char>,
)
    requires
        has_game(s.games, game_id),
        config_of(s.games[first_game(s.games, game_id)]) is Ok,
    ensures
        ({
            let s2 = edit_first_game(edit_first_game(s, game_id, add_arg_edit(arg)), game_id, add_env_edit(key, value));
            let before = config_of(s.games[first_game(s.games, game_id)])->Ok_0;
            let after = config_of(s2.games[first_game(s2.games, game_id)]);
            &&& after is Ok
            &&& after->Ok_0.args == before.args.push(seq!['-'] + arg)
            &&& after->Ok_0.environment_variables == before.environment_variables.push((key, value))
        }),
{
    law_edit_keeps_place(s, game_id, add_arg_edit(arg));
    let s1 = edit_first_game(s, game_id, add_arg_edit(arg));
    law_edit_keeps_place(s1, game_id, add_env_edit(key, value));
}

} // verus!
