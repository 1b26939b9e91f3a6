//! The persisted state: the installed games with their launch
//! configuration, and the installed Proton versions.
use vstd::prelude::*;
use crate::text::str_eq;

verus! {

/// An installed Proton (Wine) version.
#[derive(Clone, Debug, PartialEq, Eq)]
pub struct DownloadedProtonVersion {
    pub version: String,
    pub path: String,
}

/// The abstract value of a Proton version.
pub struct ProtonView {
    pub version: Seq<char>,
    pub path: Seq<char>,
}

impl View for DownloadedProtonVersion {
    type V = ProtonView;

    open spec fn view(&self) -> ProtonView {
        ProtonView { version: self.version@, path: self.path@ }
    }
}

impl DownloadedProtonVersion {
    /// A copy with the same contents.
    pub fn copied(&self) -> (r: DownloadedProtonVersion)
        ensures
            r@ == self@,
    {
        DownloadedProtonVersion { version: self.version.clone(), path: self.path.clone() }
    }
}

/// An installed (or partly downloaded) build of a game and how it is launched.
#[derive(Clone, Debug, PartialEq, Eq)]
pub struct DownloadedGame {
    pub build_id: String,
    pub path: String,
    pub proton_version: Option<DownloadedProtonVersion>,
    pub download_complete: bool,
    pub game_id: i32,
    pub executable: Option<String>,
    pub args: Vec<String>,
    pub environment_variables: Vec<(String, String)>,
    pub prefix_path: Option<String>,
}

/// The abstract value of an installed game.
pub struct GameView {
    pub build_id: Seq<char>,
    pub path: Seq<char>,
    pub proton_version: Option<ProtonView>,
    pub download_complete: bool,
    pub game_id: i32,
    pub executable: Option<Seq<char>>,
    pub args: Seq<Seq<char>>,
    pub environment_variables: Seq<(Seq<char>, Seq<char>)>,
    pub prefix_path: Option<Seq<char>>,
}

/// The characters of an optional string.
pub open spec fn opt_chars(o: Option<String>) -> Option<Seq<char>> {
    match o {
        Some(s) => Some(s@),
        None => None,
    }
}

/// The abstract value of an optional Proton version.
pub open spec fn opt_proton(o: Option<DownloadedProtonVersion>) -> Option<ProtonView> {
    match o {
        Some(p) => Some(p@),
        None => None,
    }
}

/// The characters of each string of a sequence.
pub open spec fn strings_view(v: Seq<String>) -> Seq<Seq<char>> {
    v.map_values(|s: String| s@)
}

/// The characters of each string pair of a sequence.
pub open spec fn pairs_view(v: Seq<(String, String)>) -> Seq<(Seq<char>, Seq<char>)> {
    v.map_values(|p: (String, String)| (p.0@, p.1@))
}

impl View for DownloadedGame {
    type V = GameView;

    open spec fn view(&self) -> GameView {
        GameView {
            build_id: self.build_id@,
            path: self.path@,
            proton_version: opt_proton(self.proton_version),
            download_complete: self.download_complete,
            game_id: self.game_id,
            executable: opt_chars(self.executable),
            args: strings_view(self.args@),
            environment_variables: pairs_view(self.environment_variables@),
            prefix_path: opt_chars(self.prefix_path),
        }
    }
}

/// The whole persisted state.
#[derive(Clone, Debug, PartialEq, Eq)]
pub struct AppSettings {
    pub data_path: String,
    pub downloaded_games: Vec<DownloadedGame>,
    pub downloaded_proton_versions: Vec<DownloadedProtonVersion>,
}

/// The abstract value of the persisted state.
pub struct SettingsView {
    pub data_path: Seq<char>,
    pub games: Seq<GameView>,
    pub protons: Seq<ProtonView>,
}

impl View for AppSettings {
    type V = SettingsView;

    open spec fn view(&self) -> SettingsView {
        SettingsView {
            data_path: self.data_path@,
            games: self.downloaded_games@.map_values(|g: DownloadedGame| g@),
            protons: self.downloaded_proton_versions@.map_values(|p: DownloadedProtonVersion| p@),
        }
    }
}

/// Some game of `games` has the id `game_id`.
pub open spec fn has_game(games: Seq<GameView>, game_id: i32) -> bool {
    exists|i: int| 0 <= i < games.len() && (#[trigger] games[i]).game_id == game_id
}

/// `i` is the first position of a game with the id `game_id`: the one that a
/// search from the front finds.
pub open spec fn is_first_game(games: Seq<GameView>, game_id: i32, i: int) -> bool {
    &&& 0 <= i < games.len()
    &&& games[i].game_id == game_id
    &&& forall|j: int| 0 <= j < i ==> (#[trigger] games[j]).game_id != game_id
}

/// The first position of a game with the id `game_id` (meaningful where
/// `has_game` holds).
pub open spec fn first_game(games: Seq<GameView>, game_id: i32) -> int {
    choose|i: int| is_first_game(games, game_id, i)
}

/// A search from the front ends at one position at most.
pub proof fn lemma_first_game_unique(games: Seq<GameView>, game_id: i32, i: int)
    requires
        is_first_game(games, game_id, i),
    ensures
        has_game(games, game_id),
        first_game(games, game_id) == i,
{
    assert(games[i].game_id == game_id);
    let k = first_game(games, game_id);
    assert(is_first_game(games, game_id, k));
    if k < i {
        assert(games[k].game_id != game_id);
    }
    if i < k {
        assert(games[i].game_id != game_id);
    }
}

/// Where a game is kept under the key (build, game id).
pub open spec fn same_build(g: GameView, build_id: Seq<char>, game_id: i32) -> bool {
    g.build_id == build_id && g.game_id == game_id
}

/// Some entry holds the build `build_id` of the game `game_id`.
pub open spec fn has_build(games: Seq<GameView>, build_id: Seq<char>, game_id: i32) -> bool {
    exists|i: int| 0 <= i < games.len() && same_build(#[trigger] games[i], build_id, game_id)
}

/// `i` is the first position that holds the build `build_id` of the game `game_id`.
pub open spec fn is_first_build(games: Seq<GameView>, build_id: Seq<char>, game_id: i32, i: int) -> bool {
    &&& 0 <= i < games.len()
    &&& same_build(games[i], build_id, game_id)
    &&& forall|j: int| 0 <= j < i ==> !same_build(#[trigger] games[j], build_id, game_id)
}

/// No two entries hold the same build of the same game.
pub open spec fn builds_unique(games: Seq<GameView>) -> bool {
    forall|i: int, j: int|
        0 <= i < games.len() && 0 <= j < games.len() && i != j ==> !same_build(
            #[trigger] games[i],
            (#[trigger] games[j]).build_id,
            games[j].game_id,
        )
}

/// Where some entry holds a build, a first such entry exists.
pub proof fn lemma_first_build_exists(games: Seq<GameView>, build_id: Seq<char>, game_id: i32)
    requires
        has_build(games, build_id, game_id),
    ensures
        is_first_build(games, build_id, game_id, choose|i: int| is_first_build(games, build_id, game_id, i)),
    decreases games.len(),
{
    let init = games.drop_last();
    if has_build(init, build_id, game_id) {
        lemma_first_build_exists(init, build_id, game_id);
        let i = choose|i: int| is_first_build(init, build_id, game_id, i);
        assert(is_first_build(games, build_id, game_id, i)) by {
            assert forall|j: int| 0 <= j < i implies !same_build(#[trigger] games[j], build_id, game_id) by {
                assert(games[j] == init[j]);
            }
            assert(games[i] == init[i]);
        }
    } else {
        let w = choose|w: int| 0 <= w < games.len() && same_build(#[trigger] games[w], build_id, game_id);
        let last = games.len() - 1;
        if w < last {
            assert(init[w] == games[w]);
        }
        assert(is_first_build(games, build_id, game_id, last)) by {
            assert forall|j: int| 0 <= j < last implies !same_build(#[trigger] games[j], build_id, game_id) by {
                assert(games[j] == init[j]);
            }
        }
    }
}

/// Recording a build keeps every build of a game recorded once: where no
/// two entries held the same build of the same game before, none do after.
pub proof fn law_add_game_keeps_builds_unique(games: Seq<GameView>, entry: GameView)
    requires
        builds_unique(games),
    ensures
        builds_unique(games_after_add(games, entry)),
        has_build(games_after_add(games, entry), entry.build_id, entry.game_id),
        games_after_add(games, entry).last() == entry,
{
    let r = games_after_add(games, entry);
    if has_build(games, entry.build_id, entry.game_id) {
        lemma_first_build_exists(games, entry.build_id, entry.game_id);
        let i = choose|i: int| is_first_build(games, entry.build_id, entry.game_id, i);
        let rest = games.remove(i);
        assert(r == rest.push(entry));
        assert forall|k: int| 0 <= k < rest.len() implies !same_build(
            #[trigger] rest[k],
            entry.build_id,
            entry.game_id,
        ) by {
            if k < i {
                assert(rest[k] == games[k]);
            } else {
                assert(rest[k] == games[k + 1]);
                assert(!same_build(games[k + 1], games[i].build_id, games[i].game_id));
            }
        }
        assert forall|a: int, b: int|
            0 <= a < r.len() && 0 <= b < r.len() && a != b implies !same_build(
            #[trigger] r[a],
            (#[trigger] r[b]).build_id,
            r[b].game_id,
        ) by {
            if a < rest.len() && b < rest.len() {
                let ga = if a < i { a } else { a + 1 };
                let gb = if b < i { b } else { b + 1 };
                assert(r[a] == games[ga]);
                assert(r[b] == games[gb]);
            } else if a < rest.len() {
                assert(r[a] == rest[a]);
            } else {
                assert(r[b] == rest[b]);
            }
        }
        assert(r[r.len() - 1] == entry);
    } else {
        assert(r == games.push(entry));
        assert forall|a: int, b: int|
            0 <= a < r.len() && 0 <= b < r.len() && a != b implies !same_build(
            #[trigger] r[a],
            (#[trigger] r[b]).build_id,
            r[b].game_id,
        ) by {
            if a < games.len() && b < games.len() {
                assert(r[a] == games[a]);
                assert(r[b] == games[b]);
            } else if a < games.len() {
                assert(r[a] == games[a]);
            } else {
                assert(r[b] == games[b]);
            }
        }
        assert(r[r.len() - 1] == entry);
    }
    assert(same_build(r[r.len() - 1], entry.build_id, entry.game_id));
}

/// Recording the same build twice leaves what recording it once leaves
/// (where every build was recorded once to begin with).
pub proof fn law_add_game_idempotent(games: Seq<GameView>, entry: GameView)
    requires
        builds_unique(games),
    ensures
        games_after_add(games_after_add(games, entry), entry) == games_after_add(games, entry),
{
    law_add_game_keeps_builds_unique(games, entry);
    let r = games_after_add(games, entry);
    let last = r.len() - 1;
    assert(r[last] == entry);
    assert(is_first_build(r, entry.build_id, entry.game_id, last)) by {
        assert forall|j: int| 0 <= j < last implies !same_build(#[trigger] r[j], entry.build_id, entry.game_id) by {
            assert(!same_build(r[j], r[last].build_id, r[last].game_id));
        }
    }
    let c = choose|c: int| is_first_build(r, entry.build_id, entry.game_id, c);
    assert(c == last) by {
        if c < last {
            assert(!same_build(r[c], entry.build_id, entry.game_id));
        }
    }
    assert(r.remove(last).push(entry) =~= r);
}

/// The entry that recording a fresh download makes: no Proton choice beyond
/// the given one, no executable, no arguments, no variables, no prefix yet.
pub open spec fn new_game_view(
    build_id: Seq<char>,
    path: Seq<char>,
    proton_version: Option<ProtonView>,
    download_complete: bool,
    game_id: i32,
) -> GameView {
    GameView {
        build_id,
        path,
        proton_version,
        download_complete,
        game_id,
        executable: None,
        args: Seq::empty(),
        environment_variables: Seq::empty(),
        prefix_path: None,
    }
}

/// The games after recording a build: an earlier entry for the same build of
/// the same game (the first one) is dropped, and the new entry goes last.
pub open spec fn games_after_add(games: Seq<GameView>, entry: GameView) -> Seq<GameView> {
    if has_build(games, entry.build_id, entry.game_id) {
        let i = choose|i: int| is_first_build(games, entry.build_id, entry.game_id, i);
        games.remove(i).push(entry)
    } else {
        games.push(entry)
    }
}

/// Some installed Proton version has the name `name`.
pub open spec fn has_proton(protons: Seq<ProtonView>, name: Seq<char>) -> bool {
    exists|i: int| 0 <= i < protons.len() && (#[trigger] protons[i]).version == name
}

/// `i` is the first position of a Proton version named `name`.
pub open spec fn is_first_proton(protons: Seq<ProtonView>, name: Seq<char>, i: int) -> bool {
    &&& 0 <= i < protons.len()
    &&& protons[i].version == name
    &&& forall|j: int| 0 <= j < i ==> (#[trigger] protons[j]).version != name
}

/// The first position of a Proton version named `name`.
pub open spec fn first_proton(protons: Seq<ProtonView>, name: Seq<char>) -> int {
    choose|i: int| is_first_proton(protons, name, i)
}

/// A search from the front ends at one position at most.
pub proof fn lemma_first_proton_unique(protons: Seq<ProtonView>, name: Seq<char>, i: int)
    requires
        is_first_proton(protons, name, i),
    ensures
        has_proton(protons, name),
        first_proton(protons, name) == i,
{
    assert(protons[i].version == name);
    let k = first_proton(protons, name);
    assert(is_first_proton(protons, name, k));
    if k < i {
        assert(protons[k].version != name);
    }
    if i < k {
        assert(protons[i].version != name);
    }
}

/// The state that a data directory (where one was found) gives before
/// anything is installed.
pub open spec fn fresh_settings(data_dir: Option<Seq<char>>) -> SettingsView {
    SettingsView {
        data_path: match data_dir {
            Some(d) => d,
            None => Seq::empty(),
        },
        games: Seq::empty(),
        protons: Seq::empty(),
    }
}

/// The data directory that the platform's conventions give this program
/// (`None` where no home directory can be found).
///
/// Calls `directories::ProjectDirs::from("com", "fernandonr189", "gogdl")` and
/// takes its `data_dir` as text. The answer depends on the environment (the
/// home directory and the XDG variables), so nothing is stated of it.
#[verifier::external_body]
fn project_data_dir() -> Option<String> {
    match directories::ProjectDirs::from("com", "fernandonr189", "gogdl") {
        Some(dirs) => Some(dirs.data_dir().to_string_lossy().into_owned()),
        None => None,
    }
}

impl AppSettings {
    /// The state before anything is installed, under the given data directory
    /// (the empty path where none was found).
    pub fn with_data_dir(data_dir: Option<String>) -> (r: AppSettings)
        ensures
            r@ == fresh_settings(opt_chars(data_dir)),
    {
        let data_path = match data_dir {
            Some(d) => d,
            None => String::new(),
        };
        let r = AppSettings {
            data_path,
            downloaded_games: Vec::new(),
            downloaded_proton_versions: Vec::new(),
        };
        assert(r@.games =~= Seq::<GameView>::empty());
        assert(r@.protons =~= Seq::<ProtonView>::empty());
        r
    }

    /// The position of the first game with the given id.
    pub fn find_game_index(&self, game_id: i32) -> (r: Option<usize>)
        ensures
            match r {
                Some(i) => is_first_game(self@.games, game_id, i as int),
                None => !has_game(self@.games, game_id),
            },
    {
        let mut i: usize = 0;
        while i < self.downloaded_games.len()
            invariant
                i <= self.downloaded_games@.len(),
                forall|j: int| 0 <= j < i ==> (#[trigger] self@.games[j]).game_id != game_id,
            decreases self.downloaded_games@.len() - i,
        {
            if self.downloaded_games[i].game_id == game_id {
                return Some(i);
            }
            i = i + 1;
        }
        None
    }

    /// The first game with the given id.
    pub fn find_game(&self, game_id: i32) -> (r: Option<&DownloadedGame>)
        ensures
            match r {
                Some(g) => has_game(self@.games, game_id) && g@ == self@.games[first_game(
                    self@.games,
                    game_id,
                )],
                None => !has_game(self@.games, game_id),
            },
    {
        match self.find_game_index(game_id) {
            Some(i) => {
                proof {
                    lemma_first_game_unique(self@.games, game_id, i as int);
                }
                Some(&self.downloaded_games[i])
            },
            None => None,
        }
    }

    /// Whether a game with the given id is installed.
    pub fn is_game_installed(&self, game_id: i32) -> (r: bool)
        ensures
            r == has_game(self@.games, game_id),
    {
        self.find_game_index(game_id).is_some()
    }

    /// The position of the first Proton version with the given name.
    pub fn find_proton_index(&self, name: &str) -> (r: Option<usize>)
        ensures
            match r {
                Some(i) => is_first_proton(self@.protons, name@, i as int),
                None => !has_proton(self@.protons, name@),
            },
    {
        let mut i: usize = 0;
        while i < self.downloaded_proton_versions.len()
            invariant
                i <= self.downloaded_proton_versions@.len(),
                forall|j: int| 0 <= j < i ==> (#[trigger] self@.protons[j]).version != name@,
            decreases self.downloaded_proton_versions@.len() - i,
        {
            if str_eq(self.downloaded_proton_versions[i].version.as_str(), name) {
                return Some(i);
            }
            i = i + 1;
        }
        None
    }

    /// Whether a Proton version with the given name is installed.
    pub fn has_proton_version(&self, name: &str) -> (r: bool)
        ensures
            r == has_proton(self@.protons, name@),
    {
        self.find_proton_index(name).is_some()
    }

    /// The position of the first entry holding the given build of the given game.
    pub fn find_build_index(&self, build_id: &str, game_id: i32) -> (r: Option<usize>)
        ensures
            match r {
                Some(i) => is_first_build(self@.games, build_id@, game_id, i as int),
                None => !has_build(self@.games, build_id@, game_id),
            },
    {
        let mut i: usize = 0;
        while i < self.downloaded_games.len()
            invariant
                i <= self.downloaded_games@.len(),
                forall|j: int| 0 <= j < i ==> !same_build(#[trigger] self@.games[j], build_id@, game_id),
            decreases self.downloaded_games@.len() - i,
        {
            if self.downloaded_games[i].game_id == game_id && str_eq(
                self.downloaded_games[i].build_id.as_str(),
                build_id,
            ) {
                return Some(i);
            }
            i = i + 1;
        }
        None
    }

    /// Records a build of a game: an earlier entry for the same build of the
    /// same game goes, and the new entry is appended with no executable,
    /// arguments, variables or prefix.
    pub fn add_game(
        &mut self,
        build_id: &str,
        path: &str,
        proton_version: Option<DownloadedProtonVersion>,
        download_complete: bool,
        game_id: i32,
    )
        ensures
            final(self)@.data_path == old(self)@.data_path,
            final(self)@.protons == old(self)@.protons,
            final(self)@.games == games_after_add(
                old(self)@.games,
                new_game_view(build_id@, path@, opt_proton(proton_version), download_complete, game_id),
            ),
    {
        let ghost old_games = self@.games;
        let ghost entry = new_game_view(build_id@, path@, opt_proton(proton_version), download_complete, game_id);
        let found = self.find_build_index(build_id, game_id);
        match found {
            Some(k) => {
                assert(is_first_build(old_games, build_id@, game_id, k as int));
                self.downloaded_games.remove(k);
            },
            None => {},
        }
        let entry_exec = DownloadedGame {
            build_id: build_id.to_owned(),
            path: path.to_owned(),
            proton_version,
            download_complete,
            game_id,
            executable: None,
            args: Vec::new(),
            environment_variables: Vec::new(),
            prefix_path: None,
        };
        assert(entry_exec@.args =~= Seq::<Seq<char>>::empty());
        assert(entry_exec@.environment_variables =~= Seq::<(Seq<char>, Seq<char>)>::empty());
        self.downloaded_games.push(entry_exec);
        proof {
            match found {
                Some(k) => {
                    assert(has_build(old_games, build_id@, game_id));
                    let c = choose|c: int| is_first_build(old_games, build_id@, game_id, c);
                    assert(c == k) by {
                        if c < k {
                            assert(!same_build(old_games[c], build_id@, game_id));
                        }
                        if k < c {
                            assert(!same_build(old_games[k as int], build_id@, game_id));
                        }
                    }
                    assert(self@.games =~= old_games.remove(k as int).push(entry));
                },
                None => {
                    assert(self@.games =~= old_games.push(entry));
                },
            }
        }
    }

    /// Records an installed Proton version (appended; nothing is checked).
    pub fn add_proton_version(&mut self, version: &str, path: &str)
        ensures
            final(self)@.data_path == old(self)@.data_path,
            final(self)@.games == old(self)@.games,
            final(self)@.protons == old(self)@.protons.push(
                ProtonView { version: version@, path: path@ },
            ),
    {
        let ghost old_protons = self@.protons;
        self.downloaded_proton_versions.push(
            DownloadedProtonVersion { version: version.to_owned(), path: path.to_owned() },
        );
        assert(self@.protons =~= old_protons.push(ProtonView { version: version@, path: path@ }));
    }
}

impl Default for AppSettings {
    /// The state before anything is installed, under this program's data
    /// directory for the current user (the empty path where none is found).
    fn default() -> (r: AppSettings)
        ensures
            r@.games.len() == 0,
            r@.protons.len() == 0,
    {
        AppSettings::with_data_dir(project_data_dir())
    }
}

} // verus!
