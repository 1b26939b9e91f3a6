//! Proton versions: which games use one, taking one out of use and off the
//! installed list, where versions are installed, and the paging of the
//! version browser.
use vstd::prelude::*;
use crate::settings::{AppSettings, DownloadedProtonVersion, GameView, ProtonView, SettingsView, has_proton};
use crate::text::{append_u64, decimal, str_eq};

verus! {

/// The game is set to the Proton version named `name`.
pub open spec fn uses_proton(g: GameView, name: Seq<char>) -> bool {
    match g.proton_version {
        Some(p) => p.version == name,
        None => false,
    }
}

/// Some game is set to the Proton version named `name`.
pub open spec fn proton_used_by(games: Seq<GameView>, name: Seq<char>) -> bool {
    exists|i: int| 0 <= i < games.len() && uses_proton(#[trigger] games[i], name)
}

/// The game with its Proton version unset where it was the version named `name`.
pub open spec fn released(g: GameView, name: Seq<char>) -> GameView {
    if uses_proton(g, name) {
        GameView { proton_version: None, ..g }
    } else {
        g
    }
}

/// The installed versions other than those named `name`, in their order.
pub open spec fn without_proton(protons: Seq<ProtonView>, name: Seq<char>) -> Seq<ProtonView> {
    protons.filter(|p: ProtonView| p.version != name)
}

/// Whether some installed game is set to the Proton version named `name`.
pub fn proton_in_use(settings: &AppSettings, name: &str) -> (r: bool)
    ensures
        r == proton_used_by(settings@.games, name@),
{
    let mut i: usize = 0;
    while i < settings.downloaded_games.len()
        invariant
            i <= settings.downloaded_games@.len(),
            forall|j: int| 0 <= j < i ==> !uses_proton(#[trigger] settings@.games[j], name@),
        decreases settings.downloaded_games@.len() - i,
    {
        let used = match &settings.downloaded_games[i].proton_version {
            Some(p) => str_eq(p.version.as_str(), name),
            None => false,
        };
        if used {
            assert(uses_proton(settings@.games[i as int], name@));
            return true;
        }
        i = i + 1;
    }
    false
}

/// Unsets the Proton version of every game that is set to the version named
/// `name`; nothing else changes.
pub fn release_proton_from_games(settings: &mut AppSettings, name: &str)
    ensures
        final(settings)@.data_path == old(settings)@.data_path,
        final(settings)@.protons == old(settings)@.protons,
        final(settings)@.games == old(settings)@.games.map_values(|g: GameView| released(g, name@)),
{
    let ghost before = settings@;
    let mut i: usize = 0;
    while i < settings.downloaded_games.len()
        invariant
            settings@.data_path == before.data_path,
            settings@.protons == before.protons,
            settings@.games.len() == before.games.len(),
            i <= settings@.games.len(),
            forall|j: int| 0 <= j < i ==> settings@.games[j] == released(before.games[j], name@),
            forall|j: int| i <= j < settings@.games.len() ==> settings@.games[j] == before.games[j],
        decreases settings@.games.len() - i,
    {
        let used = match &settings.downloaded_games[i].proton_version {
            Some(p) => str_eq(p.version.as_str(), name),
            None => false,
        };
        if used {
            let ghost mid = settings@;
            let mut g = settings.downloaded_games.remove(i);
            g.proton_version = None;
            settings.downloaded_games.insert(i, g);
            assert(settings@.games =~= mid.games.update(
                i as int,
                released(before.games[i as int], name@),
            ));
        }
        i = i + 1;
    }
    assert(settings@.games =~= before.games.map_values(|g: GameView| released(g, name@)));
}

/// Takes the versions named `name` off the installed list, keeping the rest
/// in order.
pub fn remove_proton_version(settings: &mut AppSettings, name: &str)
    ensures
        final(settings)@.data_path == old(settings)@.data_path,
        final(settings)@.games == old(settings)@.games,
        final(settings)@.protons == without_proton(old(settings)@.protons, name@),
{
    let ghost before = settings@;
    let ghost keep = |p: ProtonView| p.version != name@;
    let mut kept: Vec<DownloadedProtonVersion> = Vec::new();
    let mut i: usize = 0;
    while i < settings.downloaded_proton_versions.len()
        invariant
            settings@ == before,
            i <= before.protons.len(),
            keep == (|p: ProtonView| p.version != name@),
            kept@.map_values(|p: DownloadedProtonVersion| p@) == before.protons.take(i as int).filter(keep),
        decreases before.protons.len() - i,
    {
        let ghost prev = kept@;
        let same = str_eq(settings.downloaded_proton_versions[i].version.as_str(), name);
        if !same {
            kept.push(settings.downloaded_proton_versions[i].copied());
        }
        proof {
            let t = before.protons.take(i as int + 1);
            assert(t.drop_last() =~= before.protons.take(i as int));
            assert(t.last() == before.protons[i as int]);
            reveal(Seq::filter);
            assert(t.filter(keep) == if keep(t.last()) {
                t.drop_last().filter(keep).push(t.last())
            } else {
                t.drop_last().filter(keep)
            });
            if !same {
                assert(kept@.map_values(|p: DownloadedProtonVersion| p@) =~= prev.map_values(
                    |p: DownloadedProtonVersion| p@,
                ).push(before.protons[i as int]));
            }
        }
        i = i + 1;
    }
    settings.downloaded_proton_versions = kept;
    assert(before.protons.take(before.protons.len() as int) =~= before.protons);
}

/// Where Proton versions are installed under the data directory.
pub fn proton_dir(data_path: &str) -> (r: String)
    ensures
        r@ == data_path@ + "/proton"@,
{
    let mut r = data_path.to_owned();
    r.append("/proton");
    r
}

/// Where the Proton version `tag` is installed under the data directory.
pub fn proton_version_dir(data_path: &str, tag: &str) -> (r: String)
    ensures
        r@ == data_path@ + "/proton"@ + "/"@ + tag@,
{
    let mut r = proton_dir(data_path);
    r.append("/");
    r.append(tag);
    r
}

/// A size in whole mebibytes (rounded down).
pub open spec fn mebibytes(bytes: int) -> int {
    bytes / 1024 / 1024
}

/// The menu line of a release: its tag, then its download size in MB where
/// it is known.
pub fn release_label(tag: &str, download_size: Option<u64>) -> (r: String)
    ensures
        r@ == match download_size {
            Some(b) => tag@ + " ("@ + decimal(mebibytes(b as int)) + " MB)"@,
            None => tag@,
        },
{
    let mut r = tag.to_owned();
    match download_size {
        Some(b) => {
            r.append(" (");
            append_u64(&mut r, b / 1024 / 1024);
            r.append(" MB)");
        },
        None => {},
    }
    r
}

/// What a choice in the version browser asks for.
#[derive(Clone, Copy, Debug, PartialEq, Eq, Structural)]
pub enum BrowseChoice {
    /// Download the release at this position of the page.
    Release(usize),
    /// Show the previous page.
    PreviousPage,
    /// Show the next page.
    NextPage,
    /// Leave the browser.
    Back,
}

/// What the item at `selection` of the browser's menu asks for. The menu
/// lists the page's releases, then "previous page" (past the first page
/// only), "next page" and "back".
pub fn browse_choice(selection: usize, releases: usize, page: i32) -> (r: BrowseChoice)
    ensures
        r == if selection < releases {
            BrowseChoice::Release(selection)
        } else if page > 1 && selection - releases == 0 {
            BrowseChoice::PreviousPage
        } else if (page > 1 && selection - releases == 1) || (page <= 1 && selection - releases
            == 0) {
            BrowseChoice::NextPage
        } else {
            BrowseChoice::Back
        },
{
    if selection < releases {
        return BrowseChoice::Release(selection);
    }
    let option = selection - releases;
    let has_prev = page > 1;
    if has_prev && option == 0 {
        BrowseChoice::PreviousPage
    } else if (has_prev && option == 1) || (!has_prev && option == 0) {
        BrowseChoice::NextPage
    } else {
        BrowseChoice::Back
    }
}

/// The page to fall back to when a page holds no releases: the one before
/// it, except on the first page, where browsing ends.
pub fn page_before_empty(page: i32) -> (r: Option<i32>)
    ensures
        r == if page > 1 { Some((page - 1) as i32) } else { None::<i32> },
{
    if page > 1 {
        Some(page - 1)
    } else {
        None
    }
}


/// Removing a version takes it out of use and off the list: after every game
/// set to it is released and the version is removed, no game is set to it
/// and none of that name is installed, while every other installed version
/// stays.
pub proof fn law_removed_version_gone(s: SettingsView, name: Seq<char>)
    ensures
        !proton_used_by(s.games.map_values(|g: GameView| released(g, name)), name),
        !has_proton(without_proton(s.protons, name), name),
        forall|i: int|
            0 <= i < s.protons.len() && s.protons[i].version != name ==> #[trigger] without_proton(
                s.protons,
                name,
            ).contains(s.protons[i]),
{
    let games = s.games.map_values(|g: GameView| released(g, name));
    assert forall|i: int| 0 <= i < games.len() implies !uses_proton(#[trigger] games[i], name) by {
        assert(games[i] == released(s.games[i], name));
    }
    let keep = |p: ProtonView| p.version != name;
    let rest = without_proton(s.protons, name);
    assert forall|i: int| 0 <= i < rest.len() implies (#[trigger] rest[i]).version != name by {
        s.protons.lemma_filter_pred(keep, i);
    }
    assert forall|i: int| 0 <= i < s.protons.len() && s.protons[i].version != name implies #[trigger] rest.contains(
        s.protons[i],
    ) by {
        s.protons.lemma_filter_contains(keep, i);
    }
}

} // verus!
