//! The decisions around downloading a game: whether the wanted build is
//! already there, where it goes, how the result is recorded, and which
//! failures call for signing in again.
use vstd::prelude::*;
use crate::settings::{
    AppSettings, GameView, SettingsView, builds_unique, games_after_add, law_add_game_keeps_builds_unique,
    new_game_view, same_build,
};
use crate::text::str_eq;

verus! {

/// Some entry holds a complete download of the build `build_id` of the game
/// `game_id`.
pub open spec fn complete_build_present(games: Seq<GameView>, build_id: Seq<char>, game_id: i32) -> bool {
    exists|i: int|
        0 <= i < games.len() && (#[trigger] games[i]).game_id == game_id && games[i].build_id
            == build_id && games[i].download_complete
}

/// Whether a download of the build can be skipped: the build is already
/// completely downloaded and no repair ("fix") was asked for.
pub fn already_downloaded(settings: &AppSettings, game_id: i32, build_id: &str, fix: bool) -> (r: bool)
    ensures
        r == (!fix && complete_build_present(settings@.games, build_id@, game_id)),
{
    if fix {
        return false;
    }
    let mut i: usize = 0;
    while i < settings.downloaded_games.len()
        invariant
            !fix,
            i <= settings.downloaded_games@.len(),
            forall|j: int|
                0 <= j < i ==> !((#[trigger] settings@.games[j]).game_id == game_id
                    && settings@.games[j].build_id == build_id@ && settings@.games[j].download_complete),
        decreases settings.downloaded_games@.len() - i,
    {
        let g = &settings.downloaded_games[i];
        if g.game_id == game_id && g.download_complete && str_eq(g.build_id.as_str(), build_id) {
            assert(settings@.games[i as int].game_id == game_id);
            return true;
        }
        i = i + 1;
    }
    false
}

/// The folder a game is installed in: the download folder, a '/', and the
/// game's title.
pub fn game_install_dir(download_path: &str, title: &str) -> (r: String)
    ensures
        r@ == download_path@ + "/"@ + title@,
{
    let mut r = download_path.to_owned();
    r.append("/");
    r.append(title);
    r
}

/// Records a finished (or broken-off) download of a build, in the game's
/// folder under the download folder, with no Proton version chosen.
pub fn record_download(
    settings: &mut AppSettings,
    game_id: i32,
    build_id: &str,
    download_path: &str,
    title: &str,
    complete: bool,
)
    ensures
        final(settings)@ == (SettingsView {
            games: games_after_add(
                old(settings)@.games,
                new_game_view(build_id@, download_path@ + "/"@ + title@, None, complete, game_id),
            ),
            ..old(settings)@
        }),
{
    let dir = game_install_dir(download_path, title);
    settings.add_game(build_id, dir.as_str(), None, complete, game_id);
}

/// A recorded download decides the next one: once a complete download of a
/// build is recorded, that build counts as already downloaded; once an
/// incomplete one is recorded (where every build was recorded once), it does
/// not, so the next download runs again.
pub proof fn law_recorded_download_decides_skip(
    games: Seq<GameView>,
    build_id: Seq<char>,
    path: Seq<char>,
    game_id: i32,
)
    ensures
        complete_build_present(
            games_after_add(games, new_game_view(build_id, path, None, true, game_id)),
            build_id,
            game_id,
        ),
        builds_unique(games) ==> !complete_build_present(
            games_after_add(games, new_game_view(build_id, path, None, false, game_id)),
            build_id,
            game_id,
        ),
{
    let done = games_after_add(games, new_game_view(build_id, path, None, true, game_id));
    let last = done.len() - 1;
    assert(done[last] == new_game_view(build_id, path, None, true, game_id));
    assert(done[last].game_id == game_id);
    if builds_unique(games) {
        let entry = new_game_view(build_id, path, None, false, game_id);
        let r = games_after_add(games, entry);
        law_add_game_keeps_builds_unique(games, entry);
        let n = r.len() - 1;
        assert(r[n] == entry);
        assert forall|i: int|
            0 <= i < r.len() && (#[trigger] r[i]).game_id == game_id && r[i].build_id == build_id
                implies !r[i].download_complete by {
            if i != n {
                assert(!same_build(r[i], r[n].build_id, r[n].game_id));
            }
        }
    }
}

/// The HTTP status with which the store answers a request whose session has
/// lapsed.
pub const UNAUTHORIZED: u16 = 401u16;

/// Whether an HTTP failure calls for renewing the sign-in.
pub fn requires_login_refresh(status: u16) -> (r: bool)
    ensures
        r == (status == 401),
{
    status == UNAUTHORIZED
}

/// How checking the stored session came out.
#[derive(Clone, Copy, Debug, PartialEq, Eq, Structural)]
pub enum AuthStatus {
    /// The session is valid.
    Valid,
    /// The access token has expired.
    TokenExpired,
    /// No one is signed in.
    NotLoggedIn,
    /// Some other failure.
    OtherError,
}

/// What to do about the session before talking to the store.
#[derive(Clone, Copy, Debug, PartialEq, Eq, Structural)]
pub enum AuthAction {
    /// Go on.
    Proceed,
    /// Refresh the token, store the new one, and go on (or stop where
    /// refreshing fails).
    Refresh,
    /// Stop and ask the user to sign in.
    RequireLogin,
}

/// What to do about the session: refresh an expired token, stop where no
/// one is signed in, and otherwise go on (other failures surface later).
pub fn auth_action(status: AuthStatus) -> (r: AuthAction)
    ensures
        r == match status {
            AuthStatus::TokenExpired => AuthAction::Refresh,
            AuthStatus::NotLoggedIn => AuthAction::RequireLogin,
            _ => AuthAction::Proceed,
        },
{
    match status {
        AuthStatus::TokenExpired => AuthAction::Refresh,
        AuthStatus::NotLoggedIn => AuthAction::RequireLogin,
        _ => AuthAction::Proceed,
    }
}

} // verus!
