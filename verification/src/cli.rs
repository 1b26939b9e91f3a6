//! The command line: its commands and options, and the decisions that pick
//! between a direct action and an interactive menu, and the folders that
//! the options name.
use vstd::prelude::*;
use crate::text::{starts_with_char, str_eq};

verus! {

/// The parsed command line.
#[derive(Clone, Debug, PartialEq, Eq)]
pub struct Args {
    pub command: Commands,
}

/// The commands of the program.
#[derive(Clone, Debug, PartialEq, Eq)]
pub enum Commands {
    /// Run a game (interactive if no game is given).
    Run { game_id: Option<i32> },
    /// Sign in: open the sign-in page, or exchange a code from it.
    Login { code: bool, login_code: Option<String> },
    /// Configure a game (interactive if no game and action are given).
    Manage { game_id: Option<i32>, action: Option<ManageAction> },
    /// Browse and install owned games, or list them.
    Games { list: bool },
    /// Download a game, or list its builds.
    Download {
        game_id: i32,
        version_id: Option<String>,
        path: Option<String>,
        fix: bool,
        list_builds: bool,
    },
    /// Manage Proton versions (interactive if no option is given).
    Proton {
        list: bool,
        download: Option<String>,
        page: i32,
        installed: bool,
        remove: Option<String>,
    },
}

/// The direct actions of the `manage` command.
#[derive(Clone, Debug, PartialEq, Eq)]
pub enum ManageAction {
    SetProton { version: String },
    SetExecutable { path: String },
    AddArg { arg: String },
    ClearArgs,
    AddEnv { key: String, value: String },
    ClearEnv,
    DownloadSaveFiles,
    UploadSaveFiles,
}

/// How the `manage` command proceeds.
#[derive(Clone, Debug, PartialEq, Eq)]
pub enum ManageMode {
    /// Apply this action to this game.
    Direct(i32, ManageAction),
    /// A game was named without an action: an error.
    MissingAction,
    /// Open the menu.
    Interactive,
}

/// How the `manage` command proceeds: directly where both a game and an
/// action are given, with an error where only a game is, and through the
/// menu otherwise.
pub fn manage_mode(game_id: Option<i32>, action: Option<ManageAction>) -> (r: ManageMode)
    ensures
        r == match (game_id, action) {
            (Some(g), Some(a)) => ManageMode::Direct(g, a),
            (Some(_), None) => ManageMode::MissingAction,
            (None, _) => ManageMode::Interactive,
        },
{
    match (game_id, action) {
        (Some(g), Some(a)) => ManageMode::Direct(g, a),
        (Some(_), None) => ManageMode::MissingAction,
        (None, _) => ManageMode::Interactive,
    }
}

/// Whether the `proton` command acts directly (some option was given) rather
/// than through its menu.
pub fn proton_direct(list: bool, download: &Option<String>, installed: bool, remove: &Option<String>) -> (r:
    bool)
    ensures
        r == (list || download is Some || installed || remove is Some),
{
    list || download.is_some() || installed || remove.is_some()
}

/// What the `login` command does.
#[derive(Clone, Debug, PartialEq, Eq)]
pub enum LoginAction {
    /// Exchange this code for tokens and store them.
    Exchange(String),
    /// A code was asked for but not given: an error.
    MissingCode,
    /// Open the sign-in page in a browser.
    OpenBrowser,
}

/// What the `login` command does: with `--code`, exchange the given code (an
/// error without one); without it, open the sign-in page.
pub fn login_action(code: bool, login_code: Option<String>) -> (r: LoginAction)
    ensures
        r == if code {
            match login_code {
                Some(c) => LoginAction::Exchange(c),
                None => LoginAction::MissingCode,
            }
        } else {
            LoginAction::OpenBrowser
        },
{
    if code {
        match login_code {
            Some(c) => LoginAction::Exchange(c),
            None => LoginAction::MissingCode,
        }
    } else {
        LoginAction::OpenBrowser
    }
}

/// The folder games are installed in by default: `games` under the data
/// directory.
pub fn default_games_dir(data_path: &str) -> (r: String)
    ensures
        r@ == data_path@ + "/games"@,
{
    let mut r = data_path.to_owned();
    r.append("/games");
    r
}

/// The folder the `download` command installs into: `games` under the given
/// path (taken relative to the working folder `pwd`), or under the data
/// directory where no path is given.
pub fn download_root(path: Option<&str>, pwd: &str, data_path: &str) -> (r: String)
    ensures
        r@ == match path {
            Some(p) => pwd@ + "/"@ + p@ + "/games"@,
            None => data_path@ + "/games"@,
        },
{
    match path {
        Some(p) => {
            let mut r = pwd.to_owned();
            r.append("/");
            r.append(p);
            r.append("/games");
            r
        },
        None => default_games_dir(data_path),
    }
}

/// The install folder that an answer to the install prompt names: the
/// default for an empty answer, the answer itself where it starts with '/'
/// or '~', and otherwise the answer taken relative to the working folder.
pub fn resolve_install_path(answer: &str, default_path: &str, pwd: &str) -> (r: String)
    ensures
        r@ == if answer@.len() == 0 {
            default_path@
        } else if answer@[0] == '/' || answer@[0] == '~' {
            answer@
        } else {
            pwd@ + "/"@ + answer@
        },
{
    if answer.unicode_len() == 0 {
        default_path.to_owned()
    } else if starts_with_char(answer, '/') || starts_with_char(answer, '~') {
        answer.to_owned()
    } else {
        let mut r = pwd.to_owned();
        r.append("/");
        r.append(answer);
        r
    }
}

/// The path to name in the download hint: none where the game goes to the
/// default folder.
pub fn install_hint_path(download_path: &str, data_path: &str) -> (r: Option<String>)
    ensures
        match r {
            None => download_path@ == data_path@ + "/games"@,
            Some(p) => download_path@ != data_path@ + "/games"@ && p@ == download_path@,
        },
{
    let default = default_games_dir(data_path);
    if str_eq(download_path, default.as_str()) {
        None
    } else {
        Some(download_path.to_owned())
    }
}

/// The line of an owned game in the library menu, marked where installed.
pub fn game_menu_label(title: &str, installed: bool) -> (r: String)
    ensures
        r@ == if installed { title@ + " [installed]"@ } else { title@ },
{
    let mut r = title.to_owned();
    if installed {
        r.append(" [installed]");
    }
    r
}

} // verus!
