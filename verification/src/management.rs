//! Editing the launch configuration of an installed game: its Proton
//! version, executable, launch arguments, environment variables and prefix.
use vstd::prelude::*;
use crate::settings::{
    AppSettings, DownloadedGame, GameView, ProtonView, SettingsView, builds_unique, is_first_game, same_build, first_game, first_proton, has_game,
    has_proton, lemma_first_game_unique, lemma_first_proton_unique, pairs_view, strings_view,
};
use crate::text::str_eq;

verus! {

/// Why an edit of the settings was refused.
#[derive(Clone, Copy, Debug, PartialEq, Eq, Structural)]
pub enum ManageError {
    /// No installed game has the given id.
    GameNotFound,
    /// No installed Proton version has the given name.
    ProtonVersionNotFound,
}

/// The settings with the game at position `i` replaced.
pub open spec fn with_game_at(s: SettingsView, i: int, g: GameView) -> SettingsView {
    SettingsView { games: s.games.update(i, g), ..s }
}

/// The settings after the first game with the id `game_id` is replaced by
/// `edit` of it.
pub open spec fn edit_first_game(
    s: SettingsView,
    game_id: i32,
    edit: spec_fn(GameView) -> GameView,
) -> SettingsView {
    let i = first_game(s.games, game_id);
    with_game_at(s, i, edit(s.games[i]))
}

/// The outcome of an edit of the first game with a given id: refused, and
/// nothing changed, where no such game is installed; otherwise `edit` is
/// applied to that game alone.
pub open spec fn game_edit_done(
    old_s: SettingsView,
    new_s: SettingsView,
    game_id: i32,
    r: Result<(), ManageError>,
    edit: spec_fn(GameView) -> GameView,
) -> bool {
    match r {
        Ok(()) => has_game(old_s.games, game_id) && new_s == edit_first_game(old_s, game_id, edit),
        Err(e) => e == ManageError::GameNotFound && !has_game(old_s.games, game_id) && new_s
            == old_s,
    }
}

/// Sets the executable.
pub open spec fn set_executable_edit(path: Seq<char>) -> spec_fn(GameView) -> GameView {
    |g: GameView| GameView { executable: Some(path), ..g }
}

/// Adds a launch argument, written with a leading dash.
pub open spec fn add_arg_edit(arg: Seq<char>) -> spec_fn(GameView) -> GameView {
    |g: GameView| GameView { args: g.args.push(seq!['-'] + arg), ..g }
}

/// Adds an environment variable.
pub open spec fn add_env_edit(key: Seq<char>, value: Seq<char>) -> spec_fn(GameView) -> GameView {
    |g: GameView|
        GameView { environment_variables: g.environment_variables.push((key, value)), ..g }
}

/// Removes all launch arguments.
pub open spec fn clear_args_edit() -> spec_fn(GameView) -> GameView {
    |g: GameView| GameView { args: Seq::empty(), ..g }
}

/// Removes all environment variables.
pub open spec fn clear_env_edit() -> spec_fn(GameView) -> GameView {
    |g: GameView| GameView { environment_variables: Seq::empty(), ..g }
}

/// Sets the Proton version.
pub open spec fn set_proton_edit(p: ProtonView) -> spec_fn(GameView) -> GameView {
    |g: GameView| GameView { proton_version: Some(p), ..g }
}

/// Records the Wine prefix.
pub open spec fn set_prefix_edit(prefix: Seq<char>) -> spec_fn(GameView) -> GameView {
    |g: GameView| GameView { prefix_path: Some(prefix), ..g }
}

/// Takes the game at position `i` out, for it to be put back by `put_game`.
fn take_game(settings: &mut AppSettings, i: usize) -> (g: DownloadedGame)
    requires
        i < old(settings)@.games.len(),
    ensures
        g@ == old(settings)@.games[i as int],
        final(settings).data_path == old(settings).data_path,
        final(settings).downloaded_proton_versions == old(settings).downloaded_proton_versions,
        final(settings).downloaded_games@ == old(settings).downloaded_games@.remove(i as int),
{
    settings.downloaded_games.remove(i)
}

/// Puts a game back at position `i`, where `take_game` took one.
fn put_game(settings: &mut AppSettings, i: usize, g: DownloadedGame, Ghost(before): Ghost<SettingsView>)
    requires
        i < before.games.len(),
        old(settings).downloaded_games@.len() + 1 == before.games.len(),
        old(settings)@.data_path == before.data_path,
        old(settings)@.protons == before.protons,
        forall|k: int| 0 <= k < i ==> (#[trigger] old(settings).downloaded_games@[k])@ == before.games[k],
        forall|k: int|
            i <= k < old(settings).downloaded_games@.len() ==> (#[trigger] old(
                settings,
            ).downloaded_games@[k])@ == before.games[k + 1],
    ensures
        final(settings)@ == with_game_at(before, i as int, g@),
{
    settings.downloaded_games.insert(i, g);
    assert(settings@.games =~= before.games.update(i as int, g@));
}

/// Sets a game's Proton version to the installed version of the given name.
pub fn set_proton_version(settings: &mut AppSettings, game_id: i32, proton_version: &str) -> (r:
    Result<(), ManageError>)
    ensures
        r == Err::<(), ManageError>(ManageError::ProtonVersionNotFound) <==> !has_proton(
            old(settings)@.protons,
            proton_version@,
        ),
        r is Err ==> final(settings)@ == old(settings)@,
        has_proton(old(settings)@.protons, proton_version@) ==> game_edit_done(
            old(settings)@,
            final(settings)@,
            game_id,
            r,
            set_proton_edit(old(settings)@.protons[first_proton(old(settings)@.protons, proton_version@)]),
        ),
{
    let p = match settings.find_proton_index(proton_version) {
        Some(p) => p,
        None => {
            return Err(ManageError::ProtonVersionNotFound);
        },
    };
    proof {
        lemma_first_proton_unique(settings@.protons, proton_version@, p as int);
    }
    let i = match settings.find_game_index(game_id) {
        Some(i) => i,
        None => {
            return Err(ManageError::GameNotFound);
        },
    };
    proof {
        lemma_first_game_unique(settings@.games, game_id, i as int);
    }
    let ghost before = settings@;
    let chosen = settings.downloaded_proton_versions[p].copied();
    let mut g = take_game(settings, i);
    g.proton_version = Some(chosen);
    put_game(settings, i, g, Ghost(before));
    Ok(())
}


/// The file on disk that an executable path names for the first installed
/// game with the given id: the game's folder, a '/', and the path (`None`
/// where no such game is installed).
pub fn executable_full_path(settings: &AppSettings, game_id: i32, executable_path: &str) -> (r: Option<
    String,
>)
    ensures
        match r {
            Some(p) => has_game(settings@.games, game_id) && p@ == settings@.games[first_game(
                settings@.games,
                game_id,
            )].path + "/"@ + executable_path@,
            None => !has_game(settings@.games, game_id),
        },
{
    match settings.find_game(game_id) {
        Some(g) => {
            let mut p = g.path.clone();
            p.append("/");
            p.append(executable_path);
            Some(p)
        },
        None => None,
    }
}

/// Sets a game's executable (a path relative to the game's folder). Whether
/// the file exists is for the caller to check first.
pub fn set_executable(settings: &mut AppSettings, game_id: i32, executable_path: &str) -> (r: Result<
    (),
    ManageError,
>)
    ensures
        game_edit_done(
            old(settings)@,
            final(settings)@,
            game_id,
            r,
            set_executable_edit(executable_path@),
        ),
{
    let i = match settings.find_game_index(game_id) {
        Some(i) => i,
        None => {
            return Err(ManageError::GameNotFound);
        },
    };
    proof {
        lemma_first_game_unique(settings@.games, game_id, i as int);
    }
    let ghost before = settings@;
    let mut g = take_game(settings, i);
    g.executable = Some(executable_path.to_owned());
    put_game(settings, i, g, Ghost(before));
    Ok(())
}

/// Adds a launch argument to a game, written with a leading dash.
pub fn set_arg(settings: &mut AppSettings, game_id: i32, arg: &str) -> (r: Result<(), ManageError>)
    ensures
        game_edit_done(
            old(settings)@,
            final(settings)@,
            game_id,
            r,
            add_arg_edit(arg@),
        ),
{
    let i = match settings.find_game_index(game_id) {
        Some(i) => i,
        None => {
            return Err(ManageError::GameNotFound);
        },
    };
    proof {
        lemma_first_game_unique(settings@.games, game_id, i as int);
        reveal_strlit("-");
    }
    let ghost before = settings@;
    let mut g = take_game(settings, i);
    let mut new_arg = String::from_str("-");
    new_arg.append(arg);
    assert("-"@ =~= seq!['-']);
    assert(new_arg@ =~= seq!['-'] + arg@);
    let ghost old_args = g.args@;
    g.args.push(new_arg);
    assert(strings_view(g.args@) =~= strings_view(old_args).push(seq!['-'] + arg@));
    put_game(settings, i, g, Ghost(before));
    Ok(())
}

/// Adds an environment variable to a game's launch.
pub fn set_env(settings: &mut AppSettings, game_id: i32, key: &str, value: &str) -> (r: Result<
    (),
    ManageError,
>)
    ensures
        game_edit_done(
            old(settings)@,
            final(settings)@,
            game_id,
            r,
            add_env_edit(key@, value@),
        ),
{
    let i = match settings.find_game_index(game_id) {
        Some(i) => i,
        None => {
            return Err(ManageError::GameNotFound);
        },
    };
    proof {
        lemma_first_game_unique(settings@.games, game_id, i as int);
    }
    let ghost before = settings@;
    let mut g = take_game(settings, i);
    let ghost old_env = g.environment_variables@;
    g.environment_variables.push((key.to_owned(), value.to_owned()));
    assert(pairs_view(g.environment_variables@) =~= pairs_view(old_env).push((key@, value@)));
    put_game(settings, i, g, Ghost(before));
    Ok(())
}

/// Removes all launch arguments of a game.
pub fn clear_args_cli(settings: &mut AppSettings, game_id: i32) -> (r: Result<(), ManageError>)
    ensures
        game_edit_done(
            old(settings)@,
            final(settings)@,
            game_id,
            r,
            clear_args_edit(),
        ),
{
    let i = match settings.find_game_index(game_id) {
        Some(i) => i,
        None => {
            return Err(ManageError::GameNotFound);
        },
    };
    proof {
        lemma_first_game_unique(settings@.games, game_id, i as int);
    }
    let ghost before = settings@;
    let mut g = take_game(settings, i);
    g.args.clear();
    assert(strings_view(g.args@) =~= Seq::<Seq<char>>::empty());
    put_game(settings, i, g, Ghost(before));
    Ok(())
}

/// Removes all environment variables of a game.
pub fn clear_env_cli(settings: &mut AppSettings, game_id: i32) -> (r: Result<(), ManageError>)
    ensures
        game_edit_done(
            old(settings)@,
            final(settings)@,
            game_id,
            r,
            clear_env_edit(),
        ),
{
    let i = match settings.find_game_index(game_id) {
        Some(i) => i,
        None => {
            return Err(ManageError::GameNotFound);
        },
    };
    proof {
        lemma_first_game_unique(settings@.games, game_id, i as int);
    }
    let ghost before = settings@;
    let mut g = take_game(settings, i);
    g.environment_variables.clear();
    assert(pairs_view(g.environment_variables@) =~= Seq::<(Seq<char>, Seq<char>)>::empty());
    put_game(settings, i, g, Ghost(before));
    Ok(())
}

/// Sets a game's Proton version to the installed version at the given
/// position of the list (a choice from a menu of that list).
pub fn set_proton_at(settings: &mut AppSettings, game_id: i32, version_index: usize) -> (r: Result<
    (),
    ManageError,
>)
    requires
        version_index < old(settings)@.protons.len(),
    ensures
        game_edit_done(
            old(settings)@,
            final(settings)@,
            game_id,
            r,
            set_proton_edit(old(settings)@.protons[version_index as int]),
        ),
{
    let i = match settings.find_game_index(game_id) {
        Some(i) => i,
        None => {
            return Err(ManageError::GameNotFound);
        },
    };
    proof {
        lemma_first_game_unique(settings@.games, game_id, i as int);
    }
    let ghost before = settings@;
    let chosen = settings.downloaded_proton_versions[version_index].copied();
    let mut g = take_game(settings, i);
    g.proton_version = Some(chosen);
    put_game(settings, i, g, Ghost(before));
    Ok(())
}

/// Records the Wine prefix that was made for a game.
pub fn set_prefix_path(settings: &mut AppSettings, game_id: i32, prefix_path: &str) -> (r: Result<
    (),
    ManageError,
>)
    ensures
        game_edit_done(
            old(settings)@,
            final(settings)@,
            game_id,
            r,
            set_prefix_edit(prefix_path@),
        ),
{
    let i = match settings.find_game_index(game_id) {
        Some(i) => i,
        None => {
            return Err(ManageError::GameNotFound);
        },
    };
    proof {
        lemma_first_game_unique(settings@.games, game_id, i as int);
    }
    let ghost before = settings@;
    let mut g = take_game(settings, i);
    g.prefix_path = Some(prefix_path.to_owned());
    put_game(settings, i, g, Ghost(before));
    Ok(())
}


/// An edit that keeps a game's build and id.
pub open spec fn keeps_identity(edit: spec_fn(GameView) -> GameView) -> bool {
    forall|g: GameView|
        #![trigger edit(g)]
        edit(g).game_id == g.game_id && edit(g).build_id == g.build_id
}

/// Editing a game leaves it where it was: after an edit that keeps the
/// game's build and id, the same position is the first with that id, a
/// lookup of the id reads back the edited game, and still no two entries
/// hold the same build of the same game.
pub proof fn law_edit_keeps_place(s: SettingsView, game_id: i32, edit: spec_fn(GameView) -> GameView)
    requires
        has_game(s.games, game_id),
        keeps_identity(edit),
    ensures
        is_first_game(s.games, game_id, first_game(s.games, game_id)),
        has_game(edit_first_game(s, game_id, edit).games, game_id),
        first_game(edit_first_game(s, game_id, edit).games, game_id) == first_game(s.games, game_id),
        edit_first_game(s, game_id, edit).games[first_game(s.games, game_id)] == edit(
            s.games[first_game(s.games, game_id)],
        ),
        builds_unique(s.games) ==> builds_unique(edit_first_game(s, game_id, edit).games),
{
    let w = choose|w: int| 0 <= w < s.games.len() && (#[trigger] s.games[w]).game_id == game_id;
    lemma_first_exists(s.games, game_id, w);
    let i = first_game(s.games, game_id);
    let t = edit_first_game(s, game_id, edit).games;
    assert(edit(s.games[i]).game_id == s.games[i].game_id);
    assert(is_first_game(t, game_id, i)) by {
        assert forall|j: int| 0 <= j < i implies (#[trigger] t[j]).game_id != game_id by {
            assert(t[j] == s.games[j]);
        }
    }
    lemma_first_game_unique(t, game_id, i);
    if builds_unique(s.games) {
        assert(edit(s.games[i]).build_id == s.games[i].build_id);
        assert forall|a: int, b: int|
            0 <= a < t.len() && 0 <= b < t.len() && a != b implies !same_build(
            #[trigger] t[a],
            (#[trigger] t[b]).build_id,
            t[b].game_id,
        ) by {
            assert(!same_build(s.games[a], s.games[b].build_id, s.games[b].game_id));
        }
    }
}

/// A first game exists wherever some game has the id.
proof fn lemma_first_exists(games: Seq<GameView>, game_id: i32, w: int)
    requires
        0 <= w < games.len(),
        games[w].game_id == game_id,
    ensures
        is_first_game(games, game_id, first_game(games, game_id)),
    decreases w,
{
    if exists|j: int| 0 <= j < w && (#[trigger] games[j]).game_id == game_id {
        let j = choose|j: int| 0 <= j < w && (#[trigger] games[j]).game_id == game_id;
        lemma_first_exists(games, game_id, j);
    } else {
        assert(is_first_game(games, game_id, w));
    }
}

/// Clearing a game's launch arguments undoes adding one: adding an argument
/// and then clearing leaves what clearing alone leaves.
pub proof fn law_clear_args_undoes_add(s: SettingsView, game_id: i32, arg: Seq<char>)
    requires
        has_game(s.games, game_id),
    ensures
        edit_first_game(edit_first_game(s, game_id, add_arg_edit(arg)), game_id, clear_args_edit())
            == edit_first_game(s, game_id, clear_args_edit()),
{
    law_edit_keeps_place(s, game_id, add_arg_edit(arg));
    let i = first_game(s.games, game_id);
    let s1 = edit_first_game(s, game_id, add_arg_edit(arg));
    assert(s1.games[i] == add_arg_edit(arg)(s.games[i]));
    assert(clear_args_edit()(s1.games[i]) == clear_args_edit()(s.games[i]));
    assert(s1.games.update(i, clear_args_edit()(s1.games[i])) =~= s.games.update(
        i,
        clear_args_edit()(s.games[i]),
    ));
}

/// Clearing a game's environment variables undoes adding one.
pub proof fn law_clear_env_undoes_add(s: SettingsView, game_id: i32, key: Seq<char>, value: Seq<char>)
    requires
        has_game(s.games, game_id),
    ensures
        edit_first_game(edit_first_game(s, game_id, add_env_edit(key, value)), game_id, clear_env_edit())
            == edit_first_game(s, game_id, clear_env_edit()),
{
    law_edit_keeps_place(s, game_id, add_env_edit(key, value));
    let i = first_game(s.games, game_id);
    let s1 = edit_first_game(s, game_id, add_env_edit(key, value));
    assert(s1.games[i] == add_env_edit(key, value)(s.games[i]));
    assert(clear_env_edit()(s1.games[i]) == clear_env_edit()(s.games[i]));
    assert(s1.games.update(i, clear_env_edit()(s1.games[i])) =~= s.games.update(
        i,
        clear_env_edit()(s.games[i]),
    ));
}

/// Arguments accumulate: adding `a` and then `b` leaves the game's earlier
/// arguments followed by "-a" and "-b", in that order.
pub proof fn law_args_accumulate(s: SettingsView, game_id: i32, a: Seq<char>, b: Seq<char>)
    requires
        has_game(s.games, game_id),
    ensures
        ({
            let s2 = edit_first_game(edit_first_game(s, game_id, add_arg_edit(a)), game_id, add_arg_edit(b));
            let i = first_game(s.games, game_id);
            &&& first_game(s2.games, game_id) == i
            &&& s2.games[i].args == s.games[i].args.push(seq!['-'] + a).push(seq!['-'] + b)
        }),
{
    law_edit_keeps_place(s, game_id, add_arg_edit(a));
    let s1 = edit_first_game(s, game_id, add_arg_edit(a));
    law_edit_keeps_place(s1, game_id, add_arg_edit(b));
}

/// The value a launch gives the variable `key` among `vars`: that of the
/// last pair with the key, since a later variable wins over an earlier one.
pub open spec fn env_value(vars: Seq<(Seq<char>, Seq<char>)>, key: Seq<char>) -> Option<Seq<char>>
    decreases vars.len(),
{
    if vars.len() == 0 {
        None
    } else if vars.last().0 == key {
        Some(vars.last().1)
    } else {
        env_value(vars.drop_last(), key)
    }
}

/// Variables accumulate: adding `key`=`value` leaves the game where it was
/// with its earlier variables followed by that pair, for every key and value
/// (a key that is already set is added again, not skipped).
pub proof fn law_env_accumulates(s: SettingsView, game_id: i32, key: Seq<char>, value: Seq<char>)
    requires
        has_game(s.games, game_id),
    ensures
        ({
            let s1 = edit_first_game(s, game_id, add_env_edit(key, value));
            let i = first_game(s.games, game_id);
            &&& has_game(s1.games, game_id)
            &&& 0 <= i < s.games.len()
            &&& first_game(s1.games, game_id) == i
            &&& s1.games[i].environment_variables == s.games[i].environment_variables.push((key, value))
            &&& s1.games[i].environment_variables.last() == (key, value)
        }),
{
    law_edit_keeps_place(s, game_id, add_env_edit(key, value));
}

/// The latest value of a variable is the one the game launches with:
/// after adding `key`=`v1` and then `key`=`v2`, the game's value of `key`
/// is `v2`, and every other variable keeps the value it had.
pub proof fn law_env_later_value_wins(
    s: SettingsView,
    game_id: i32,
    key: Seq<char>,
    v1: Seq<char>,
    v2: Seq<char>,
    other: Seq<char>,
)
    requires
        has_game(s.games, game_id),
        other != key,
    ensures
        ({
            let s2 = edit_first_game(edit_first_game(s, game_id, add_env_edit(key, v1)), game_id, add_env_edit(key, v2));
            let i = first_game(s.games, game_id);
            &&& first_game(s2.games, game_id) == i
            &&& env_value(s2.games[i].environment_variables, key) == Some(v2)
            &&& env_value(s2.games[i].environment_variables, other) == env_value(
                s.games[i].environment_variables,
                other,
            )
        }),
{
    law_env_accumulates(s, game_id, key, v1);
    let s1 = edit_first_game(s, game_id, add_env_edit(key, v1));
    law_env_accumulates(s1, game_id, key, v2);
    let i = first_game(s.games, game_id);
    let e0 = s.games[i].environment_variables;
    let e1 = e0.push((key, v1));
    let e2 = e1.push((key, v2));
    assert(e2.drop_last() =~= e1);
    assert(e1.drop_last() =~= e0);
    assert(env_value(e2, key) == Some(v2));
    assert(env_value(e1, other) == env_value(e0, other));
    assert(env_value(e2, other) == env_value(e1, other));
}

} // verus!
