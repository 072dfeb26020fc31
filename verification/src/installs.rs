//! Installed titles, as the library-folders document names the folders and
//! as the install manifests in each folder describe the titles.
use vstd::prelude::*;
use std::collections::HashSet;
use crate::accounts::{key_ids, read_key_ids, text_at, text_under};
use crate::data::{AppID, AppView, LibraryFolder};
use crate::error::{DiscoveryError, Fault, PathError};
use crate::manifest::{entries_view, parse_document, parse_manifest, Tree, TreeValue};
use crate::pattern::is_numeric_key;
use crate::text::{chars_of, i32_value, is_number, join_path, joined, parse_i32, parse_u64, u64_value};

verus! {

/// The folder that one entry of the library-folders document declares: the
/// key is a number, `path` the folder, and the keys under `apps` the ids of
/// its titles. An entry with another key, without a path or without a
/// title declares nothing.
pub open spec fn declared_folder(key: Seq<char>, value: Tree) -> Option<(Seq<char>, Set<i32>)> {
    if is_number(key) {
        match text_under(value, "path"@) {
            Some(path) => {
                let apps = match value.get("apps"@) {
                    Some(table) => key_ids(table),
                    None => Set::empty(),
                };
                if apps.is_empty() {
                    None
                } else {
                    Some((path, apps))
                }
            },
            None => None,
        }
    } else {
        None
    }
}

/// The folders that `entries[at..]` declare, behind those in `found`.
pub open spec fn folders_from(
    entries: Seq<(Seq<char>, Tree)>,
    at: int,
    found: Seq<(Seq<char>, Set<i32>)>,
) -> Seq<(Seq<char>, Set<i32>)>
    decreases entries.len() - at,
{
    if 0 <= at < entries.len() {
        folders_from(
            entries,
            at + 1,
            match declared_folder(entries[at].0, entries[at].1) {
                Some(folder) => found.push(folder),
                None => found,
            },
        )
    } else {
        found
    }
}

/// The folders that a library-folders document declares, in its order.
pub open spec fn declared_folders(libraries: Tree) -> Seq<(Seq<char>, Set<i32>)> {
    match libraries {
        Tree::Object(entries) => folders_from(entries, 0, Seq::empty()),
        Tree::Text(_) => Seq::empty(),
    }
}

/// What a list of folders means.
pub open spec fn folders_view(folders: Seq<LibraryFolder>) -> Seq<(Seq<char>, Set<i32>)> {
    Seq::new(folders.len(), |i: int| folders[i]@)
}

/// Reads the folders that a library-folders document declares.
pub fn read_folders(libraries: &TreeValue) -> (r: Vec<LibraryFolder>)
    ensures
        folders_view(r@) == declared_folders(libraries@),
{
    let mut found: Vec<LibraryFolder> = Vec::new();
    assert(folders_view(found@) =~= Seq::empty());
    match libraries.as_object() {
        None => found,
        Some(entries) => {
            let ghost all = entries_view(entries@);
            let mut i: usize = 0;
            while i < entries.len()
                invariant
                    i <= entries.len(),
                    all == entries_view(entries@),
                    folders_from(all, 0, Seq::empty()) == folders_from(
                        all,
                        i as int,
                        folders_view(found@),
                    ),
                decreases entries.len() - i,
            {
                assert(all[i as int] == (entries@[i as int].0@, entries@[i as int].1@));
                let ghost before = folders_view(found@);
                if is_numeric_key(entries[i].0.as_str()) {
                    match text_at(&entries[i].1, "path") {
                        Some(path) => {
                            let apps = match entries[i].1.get("apps") {
                                Some(table) => read_key_ids(table),
                                None => HashSet::new(),
                            };
                            if !apps.is_empty() {
                                found.push(LibraryFolder { path: path.to_owned(), apps });
                                assert(folders_view(found@) =~= before.push((path@, apps@)));
                            }
                        },
                        None => {},
                    }
                }
                i += 1;
            }
            found
        },
    }
}

/// The index of the first folder at or after `from` whose path is `path`, or
/// the number of folders where there is none.
pub open spec fn folder_index(folders: Seq<(Seq<char>, Set<i32>)>, path: Seq<char>, from: int) -> int
    decreases folders.len() - from,
{
    if 0 <= from < folders.len() {
        if folders[from].0 == path {
            from
        } else {
            folder_index(folders, path, from + 1)
        }
    } else {
        from
    }
}

/// The folders after `folder` was entered: it takes the place of the folder
/// with the same path, or goes to the end.
pub open spec fn put_folder(folders: Seq<(Seq<char>, Set<i32>)>, folder: (Seq<char>, Set<i32>)) -> Seq<
    (Seq<char>, Set<i32>),
> {
    let i = folder_index(folders, folder.0, 0);
    if i < folders.len() {
        folders.update(i, folder)
    } else {
        folders.push(folder)
    }
}

/// The folders `declared[at..]`, entered one by one into `found`.
pub open spec fn directories_from(
    declared: Seq<(Seq<char>, Set<i32>)>,
    at: int,
    found: Seq<(Seq<char>, Set<i32>)>,
) -> Seq<(Seq<char>, Set<i32>)>
    decreases declared.len() - at,
{
    if 0 <= at < declared.len() {
        directories_from(declared, at + 1, put_folder(found, declared[at]))
    } else {
        found
    }
}

pub proof fn lemma_folder_index(folders: Seq<(Seq<char>, Set<i32>)>, path: Seq<char>, from: int)
    requires
        0 <= from <= folders.len(),
    ensures
        from <= folder_index(folders, path, from) <= folders.len(),
        folder_index(folders, path, from) < folders.len() ==> folders[folder_index(
            folders,
            path,
            from,
        )].0 == path,
        forall|i: int|
            from <= i < folder_index(folders, path, from) ==> (#[trigger] folders[i]).0 != path,
    decreases folders.len() - from,
{
    if from < folders.len() && folders[from].0 != path {
        lemma_folder_index(folders, path, from + 1);
    }
}

/// No path occurs twice.
pub open spec fn distinct_paths(folders: Seq<(Seq<char>, Set<i32>)>) -> bool {
    forall|i: int, j: int|
        0 <= i < j < folders.len() ==> (#[trigger] folders[i]).0 != (#[trigger] folders[j]).0
}

/// Entering folders one by one keeps the paths distinct.
pub proof fn lemma_directories_distinct(
    declared: Seq<(Seq<char>, Set<i32>)>,
    at: int,
    found: Seq<(Seq<char>, Set<i32>)>,
)
    requires
        0 <= at <= declared.len(),
        distinct_paths(found),
    ensures
        distinct_paths(directories_from(declared, at, found)),
    decreases declared.len() - at,
{
    if at < declared.len() {
        let folder = declared[at];
        lemma_folder_index(found, folder.0, 0);
        let i = folder_index(found, folder.0, 0);
        let after = put_folder(found, folder);
        assert forall|a: int, b: int| 0 <= a < b < after.len() implies (#[trigger] after[a]).0 != (
        #[trigger] after[b]).0 by {
            if i < found.len() {
                assert(after[a].0 == found[a].0);
                assert(after[b].0 == found[b].0);
            } else {
                assert(after[a] == found[a]);
                if b < found.len() {
                    assert(after[b] == found[b]);
                }
            }
        }
        lemma_directories_distinct(declared, at + 1, after);
    }
}

/// Enters `folder`; see [`put_folder`].
pub fn enter_folder(folders: &mut Vec<LibraryFolder>, folder: LibraryFolder)
    ensures
        folders_view(final(folders)@) == put_folder(folders_view(old(folders)@), folder@),
{
    let ghost before = folders_view(folders@);
    let mut i: usize = 0;
    while i < folders.len()
        invariant
            i <= folders.len(),
            folders@ == old(folders)@,
            before == folders_view(folders@),
            folder_index(before, folder.path@, 0) == folder_index(before, folder.path@, i as int),
        decreases folders.len() - i,
    {
        assert(before[i as int] == folders@[i as int]@);
        if folders[i].path == folder.path {
            folders.set(i, folder);
            assert(folders_view(folders@) =~= put_folder(before, folder@));
            return ;
        }
        i += 1;
    }
    folders.push(folder);
    assert(folders_view(folders@) =~= put_folder(before, folder@));
}

/// The directory of install manifests inside the library folder `folder`.
pub open spec fn steamapps_location(folder: Seq<char>) -> Seq<char> {
    joined(folder, "steamapps"@)
}

/// The path of the manifest directory; see [`steamapps_location`].
pub fn steamapps_path(folder: &str) -> (r: String)
    ensures
        r@ == steamapps_location(folder@),
{
    join_path(folder, "steamapps")
}

/// Where the library-folders document lies under the install directory.
pub open spec fn libraryfolders_location(root: Seq<char>) -> Seq<char> {
    joined(steamapps_location(root), "libraryfolders.vdf"@)
}

/// The path of the library-folders document; see
/// [`libraryfolders_location`].
pub fn libraryfolders_path(root: &str) -> (r: String)
    ensures
        r@ == libraryfolders_location(root@),
{
    join_path(steamapps_path(root).as_str(), "libraryfolders.vdf")
}

/// A file name with the extension of an install manifest: something, and
/// then `.acf`.
pub open spec fn is_manifest_name(name: Seq<char>) -> bool {
    name.len() > 4 && name.subrange(name.len() - 4, name.len() as int) == seq!['.', 'a', 'c', 'f']
}

/// Whether a file of this name is an install manifest.
pub fn is_manifest_file(name: &str) -> (r: bool)
    ensures
        r == is_manifest_name(name@),
{
    let chars = chars_of(name);
    let n = chars.len();
    if n > 4 {
        let r = chars[n - 4] == '.' && chars[n - 3] == 'a' && chars[n - 2] == 'c' && chars[n - 1]
            == 'f';
        proof {
            let tail = name@.subrange(n - 4, n as int);
            assert(tail[0] == chars@[n - 4]);
            assert(tail[1] == chars@[n - 3]);
            assert(tail[2] == chars@[n - 2]);
            assert(tail[3] == chars@[n - 1]);
            if r {
                assert(tail =~= seq!['.', 'a', 'c', 'f']);
            }
        }
        r
    } else {
        false
    }
}

/// The title that an install manifest describes, in the manifest directory
/// `steamapps`: `appid` is its id, `name` its name, `installdir` the
/// directory under `common` in which it lies, `LastPlayed` the time it was
/// last played. A manifest without id, name or directory describes nothing;
/// a time that is no unsigned number is no time.
pub open spec fn installed_app(manifest: Tree, steamapps: Seq<char>) -> Option<AppView> {
    match (
        text_under(manifest, "appid"@),
        text_under(manifest, "name"@),
        text_under(manifest, "installdir"@),
    ) {
        (Some(id_text), Some(name), Some(directory)) => match i32_value(id_text) {
            Some(id) => Some(
                AppView {
                    id,
                    name,
                    location: joined(joined(steamapps, "common"@), directory),
                    last_played: match text_under(manifest, "LastPlayed"@) {
                        Some(time) => u64_value(time),
                        None => None,
                    },
                },
            ),
            None => None,
        },
        _ => None,
    }
}

/// Reads the title that a manifest describes; see [`installed_app`].
pub fn read_app(manifest: &TreeValue, steamapps: &str) -> (r: Option<AppID>)
    ensures
        match r {
            Some(app) => installed_app(manifest@, steamapps@) == Some(app@),
            None => installed_app(manifest@, steamapps@) is None,
        },
{
    let id_text = match text_at(manifest, "appid") {
        Some(text) => text,
        None => {
            return None;
        },
    };
    let name = match text_at(manifest, "name") {
        Some(text) => text,
        None => {
            return None;
        },
    };
    let directory = match text_at(manifest, "installdir") {
        Some(text) => text,
        None => {
            return None;
        },
    };
    let id = match parse_i32(id_text) {
        Some(id) => id,
        None => {
            return None;
        },
    };
    let last_played = match text_at(manifest, "LastPlayed") {
        Some(time) => parse_u64(time),
        None => None,
    };
    let common = join_path(steamapps, "common");
    Some(
        AppID {
            id,
            name: name.to_owned(),
            location: join_path(common.as_str(), directory),
            last_played,
        },
    )
}

/// The index of the first title at or after `from` whose id is `id`, or the
/// number of titles where there is none.
pub open spec fn game_index(games: Seq<(AppView, Tree)>, id: i32, from: int) -> int
    decreases games.len() - from,
{
    if 0 <= from < games.len() {
        if games[from].0.id == id {
            from
        } else {
            game_index(games, id, from + 1)
        }
    } else {
        from
    }
}

pub proof fn lemma_game_index(games: Seq<(AppView, Tree)>, id: i32, from: int)
    requires
        0 <= from <= games.len(),
    ensures
        from <= game_index(games, id, from) <= games.len(),
        game_index(games, id, from) < games.len() ==> games[game_index(games, id, from)].0.id == id,
        forall|i: int| from <= i < game_index(games, id, from) ==> (#[trigger] games[i]).0.id != id,
    decreases games.len() - from,
{
    if from < games.len() && games[from].0.id != id {
        lemma_game_index(games, id, from + 1);
    }
}

/// The titles after `app` was entered with its manifest: it takes the place
/// of the title with the same id, or goes to the end.
pub open spec fn put_game(games: Seq<(AppView, Tree)>, app: AppView, manifest: Tree) -> Seq<
    (AppView, Tree),
> {
    let i = game_index(games, app.id, 0);
    if i < games.len() {
        games.update(i, (app, manifest))
    } else {
        games.push((app, manifest))
    }
}

/// No id occurs twice.
pub open spec fn distinct_ids(games: Seq<(AppView, Tree)>) -> bool {
    forall|i: int, j: int|
        0 <= i < j < games.len() ==> (#[trigger] games[i]).0.id != (#[trigger] games[j]).0.id
}

/// Entering a title keeps the ids distinct, and the title that was entered
/// is the one entry with its id.
pub proof fn lemma_put_game(games: Seq<(AppView, Tree)>, app: AppView, manifest: Tree)
    requires
        distinct_ids(games),
    ensures
        distinct_ids(put_game(games, app, manifest)),
        exists|i: int|
            0 <= i < put_game(games, app, manifest).len() && #[trigger] put_game(
                games,
                app,
                manifest,
            )[i] == (app, manifest),
{
    lemma_game_index(games, app.id, 0);
    let at = game_index(games, app.id, 0);
    let after = put_game(games, app, manifest);
    assert(after[at] == (app, manifest));
    assert forall|i: int, j: int| 0 <= i < j < after.len() implies (#[trigger] after[i]).0.id != (
    #[trigger] after[j]).0.id by {
        if at < games.len() {
            assert(after[i].0.id == games[i].0.id);
            assert(after[j].0.id == games[j].0.id);
        } else {
            assert(after[i] == games[i]);
            if j < games.len() {
                assert(after[j] == games[j]);
            }
        }
    }
}

/// What a list of titles with their manifests means.
pub open spec fn games_view(games: Seq<(AppID, TreeValue)>) -> Seq<(AppView, Tree)> {
    Seq::new(games.len(), |i: int| (games[i].0@, games[i].1@))
}

/// Enters `app` with its manifest; see [`put_game`].
pub fn enter_game(games: &mut Vec<(AppID, TreeValue)>, app: AppID, manifest: TreeValue)
    ensures
        games_view(final(games)@) == put_game(games_view(old(games)@), app@, manifest@),
{
    let ghost before = games_view(games@);
    let mut i: usize = 0;
    while i < games.len()
        invariant
            i <= games.len(),
            games@ == old(games)@,
            before == games_view(games@),
            game_index(before, app.id, 0) == game_index(before, app.id, i as int),
        decreases games.len() - i,
    {
        assert(before[i as int] == (games@[i as int].0@, games@[i as int].1@));
        if games[i].0.id == app.id {
            games.set(i, (app, manifest));
            assert(games_view(games@) =~= put_game(before, app@, manifest@));
            return ;
        }
        i += 1;
    }
    games.push((app, manifest));
    assert(games_view(games@) =~= put_game(before, app@, manifest@));
}

/// The titles that the manifests `manifests[at..]` describe, entered one by
/// one into `found`; or the fault of the first manifest that holds no object.
pub open spec fn games_from(
    manifests: Seq<String>,
    at: int,
    found: Seq<(AppView, Tree)>,
    steamapps: Seq<char>,
) -> Result<Seq<(AppView, Tree)>, Fault>
    decreases manifests.len() - at,
{
    if 0 <= at < manifests.len() {
        match parse_document(manifests[at]@) {
            Some(manifest) => games_from(
                manifests,
                at + 1,
                match installed_app(manifest, steamapps) {
                    Some(app) => put_game(found, app, manifest),
                    None => found,
                },
                steamapps,
            ),
            None => Err(Fault::InvalidData),
        }
    } else {
        Ok(found)
    }
}

/// Entering the titles of manifests one by one keeps the ids distinct.
pub proof fn lemma_games_distinct(
    manifests: Seq<String>,
    at: int,
    found: Seq<(AppView, Tree)>,
    steamapps: Seq<char>,
)
    requires
        0 <= at <= manifests.len(),
        distinct_ids(found),
    ensures
        games_from(manifests, at, found, steamapps) matches Ok(games) ==> distinct_ids(games),
    decreases manifests.len() - at,
{
    if at < manifests.len() {
        match parse_document(manifests[at]@) {
            Some(manifest) => {
                let next = match installed_app(manifest, steamapps) {
                    Some(app) => put_game(found, app, manifest),
                    None => found,
                };
                if let Some(app) = installed_app(manifest, steamapps) {
                    lemma_put_game(found, app, manifest);
                }
                lemma_games_distinct(manifests, at + 1, next, steamapps);
            },
            None => {},
        }
    }
}

/// Reads the manifests of one folder into `games`; see [`games_from`]. Where
/// a manifest fails, `games` may hold some of the folder's titles.
pub fn read_games(games: &mut Vec<(AppID, TreeValue)>, manifests: &Vec<String>, steamapps: &str) -> (r:
    Result<(), DiscoveryError>)
    ensures
        match games_from(manifests@, 0, games_view(old(games)@), steamapps@) {
            Ok(found) => r is Ok && games_view(final(games)@) == found,
            Err(fault) => r matches Err(e) && e@ == fault,
        },
{
    let ghost goal = games_from(manifests@, 0, games_view(games@), steamapps@);
    let mut i: usize = 0;
    while i < manifests.len()
        invariant
            i <= manifests.len(),
            goal == games_from(manifests@, 0, games_view(old(games)@), steamapps@),
            goal == games_from(manifests@, i as int, games_view(games@), steamapps@),
        decreases manifests.len() - i,
    {
        match parse_manifest(manifests[i].as_str()) {
            Ok(manifest) => {
                match read_app(&manifest, steamapps) {
                    Some(app) => {
                        enter_game(games, app, manifest);
                    },
                    None => {},
                }
            },
            Err(e) => {
                return Err(DiscoveryError::InvalidData(e));
            },
        }
        i += 1;
    }
    Ok(())
}

/// The manifests that were read in one library folder.
#[derive(Debug, Clone, PartialEq, Eq)]
pub struct FolderScan {
    /// The library folder, as the library-folders document writes it.
    pub path: String,
    /// The text of each install manifest in the folder's manifest
    /// directory, in the order in which the directory lists them.
    pub manifests: Vec<String>,
}

impl View for FolderScan {
    type V = (Seq<char>, Seq<String>);

    open spec fn view(&self) -> (Seq<char>, Seq<String>) {
        (self.path@, self.manifests@)
    }
}

/// What a list of scans means.
pub open spec fn scans_view(scans: Seq<FolderScan>) -> Seq<(Seq<char>, Seq<String>)> {
    Seq::new(scans.len(), |i: int| scans[i]@)
}

/// The index of the first scan at or after `from` of the folder `path`, or
/// the number of scans where there is none.
pub open spec fn scan_index(scans: Seq<(Seq<char>, Seq<String>)>, path: Seq<char>, from: int) -> int
    decreases scans.len() - from,
{
    if 0 <= from < scans.len() {
        if scans[from].0 == path {
            from
        } else {
            scan_index(scans, path, from + 1)
        }
    } else {
        from
    }
}

/// The manifests that were read in the folder `path`, where it was scanned.
pub open spec fn scanned(scans: Seq<(Seq<char>, Seq<String>)>, path: Seq<char>) -> Option<
    Seq<String>,
> {
    let i = scan_index(scans, path, 0);
    if i < scans.len() {
        Some(scans[i].1)
    } else {
        None
    }
}

fn find_scan<'a>(scans: &'a Vec<FolderScan>, path: &str) -> (r: Option<&'a Vec<String>>)
    ensures
        match r {
            Some(manifests) => scanned(scans_view(scans@), path@) == Some(manifests@),
            None => scanned(scans_view(scans@), path@) is None,
        },
{
    let wanted = path.to_owned();
    let ghost all = scans_view(scans@);
    let mut i: usize = 0;
    while i < scans.len()
        invariant
            i <= scans.len(),
            wanted@ == path@,
            all == scans_view(scans@),
            scan_index(all, path@, 0) == scan_index(all, path@, i as int),
        decreases scans.len() - i,
    {
        assert(all[i as int] == scans@[i as int]@);
        if scans[i].path == wanted {
            return Some(&scans[i].manifests);
        }
        i += 1;
    }
    None
}

/// The titles in the folders `folders[at..]`, entered into `found`; or the
/// fault of the first folder that was not scanned or that holds a manifest
/// without an object.
pub open spec fn installs_from(
    folders: Seq<(Seq<char>, Set<i32>)>,
    at: int,
    found: Seq<(AppView, Tree)>,
    scans: Seq<(Seq<char>, Seq<String>)>,
) -> Result<Seq<(AppView, Tree)>, Fault>
    decreases folders.len() - at,
{
    if 0 <= at < folders.len() {
        let steamapps = steamapps_location(folders[at].0);
        match scanned(scans, folders[at].0) {
            Some(manifests) => match games_from(manifests, 0, found, steamapps) {
                Ok(games) => installs_from(folders, at + 1, games, scans),
                Err(fault) => Err(fault),
            },
            None => Err(Fault::NotFound(steamapps)),
        }
    } else {
        Ok(found)
    }
}

/// The titles of all folders have distinct ids.
pub proof fn lemma_installs_distinct(
    folders: Seq<(Seq<char>, Set<i32>)>,
    at: int,
    found: Seq<(AppView, Tree)>,
    scans: Seq<(Seq<char>, Seq<String>)>,
)
    requires
        0 <= at <= folders.len(),
        distinct_ids(found),
    ensures
        installs_from(folders, at, found, scans) matches Ok(games) ==> distinct_ids(games),
    decreases folders.len() - at,
{
    if at < folders.len() {
        let steamapps = steamapps_location(folders[at].0);
        match scanned(scans, folders[at].0) {
            Some(manifests) => {
                lemma_games_distinct(manifests, 0, found, steamapps);
                match games_from(manifests, 0, found, steamapps) {
                    Ok(games) => {
                        lemma_installs_distinct(folders, at + 1, games, scans);
                    },
                    Err(_) => {},
                }
            },
            None => {},
        }
    }
}

/// What install discovery finds under the install directory `root`: the
/// library folders and the installed titles with their manifests.
///
/// `libraryfolders` is the text of the library-folders document, or `None`
/// where the file is missing; `scans` holds, for each library folder whose
/// manifest directory could be read, the manifests in it. Every declared
/// folder needs its scan, and every manifest has to hold an object: the
/// first that fails, fails the whole discovery.
pub open spec fn discovered_installs(
    root: Seq<char>,
    libraryfolders: Option<Seq<char>>,
    scans: Seq<(Seq<char>, Seq<String>)>,
) -> Result<(Seq<(Seq<char>, Set<i32>)>, Seq<(AppView, Tree)>), Fault> {
    match libraryfolders {
        None => Err(Fault::NotFound(libraryfolders_location(root))),
        Some(text) => match parse_document(text) {
            None => Err(Fault::InvalidData),
            Some(libraries) => {
                let folders = declared_folders(libraries);
                match installs_from(folders, 0, Seq::empty(), scans) {
                    Ok(games) => Ok((directories_from(folders, 0, Seq::empty()), games)),
                    Err(fault) => Err(fault),
                }
            },
        },
    }
}

/// What install discovery finds holds each library folder once and each
/// title once: of two manifests with one id the later has taken the place of
/// the earlier.
pub proof fn lemma_discovered_installs_distinct(
    root: Seq<char>,
    libraryfolders: Option<Seq<char>>,
    scans: Seq<(Seq<char>, Seq<String>)>,
)
    ensures
        discovered_installs(root, libraryfolders, scans) matches Ok(found) ==> distinct_paths(
            found.0,
        ) && distinct_ids(found.1),
{
    if let Some(text) = libraryfolders {
        if let Some(libraries) = parse_document(text) {
            let folders = declared_folders(libraries);
            lemma_installs_distinct(folders, 0, Seq::empty(), scans);
            lemma_directories_distinct(folders, 0, Seq::empty());
        }
    }
}

/// Discovers the library folders and the installed titles; see
/// [`discovered_installs`].
pub fn read_installs(root: &str, libraryfolders: Option<&str>, scans: &Vec<FolderScan>) -> (r:
    Result<(Vec<LibraryFolder>, Vec<(AppID, TreeValue)>), DiscoveryError>)
    ensures
        match discovered_installs(
            root@,
            match libraryfolders {
                Some(text) => Some(text@),
                None => None,
            },
            scans_view(scans@),
        ) {
            Ok(found) => r matches Ok(pair) && folders_view(pair.0@) == found.0 && games_view(
                pair.1@,
            ) == found.1,
            Err(fault) => r matches Err(e) && e@ == fault,
        },
{
    let text = match libraryfolders {
        Some(text) => text,
        None => {
            return Err(DiscoveryError::NotFound(PathError { path: libraryfolders_path(root) }));
        },
    };
    let libraries = match parse_manifest(text) {
        Ok(libraries) => libraries,
        Err(e) => {
            return Err(DiscoveryError::InvalidData(e));
        },
    };
    let folders = read_folders(&libraries);
    let ghost declared = folders_view(folders@);
    let ghost goal = installs_from(declared, 0, Seq::empty(), scans_view(scans@));
    let mut directories: Vec<LibraryFolder> = Vec::new();
    let mut games: Vec<(AppID, TreeValue)> = Vec::new();
    assert(folders_view(directories@) =~= Seq::empty());
    assert(games_view(games@) =~= Seq::empty());
    let mut i: usize = 0;
    while i < folders.len()
        invariant
            i <= folders.len(),
            declared == folders_view(folders@),
            declared == declared_folders(libraries@),
            parse_document(text@) == Some(libraries@),
            libraryfolders == Some(text),
            goal == installs_from(declared, 0, Seq::empty(), scans_view(scans@)),
            goal == installs_from(declared, i as int, games_view(games@), scans_view(scans@)),
            directories_from(declared, 0, Seq::empty()) == directories_from(
                declared,
                i as int,
                folders_view(directories@),
            ),
        decreases folders.len() - i,
    {
        assert(declared[i as int] == folders@[i as int]@);
        let steamapps = steamapps_path(folders[i].path.as_str());
        match find_scan(scans, folders[i].path.as_str()) {
            Some(manifests) => {
                match read_games(&mut games, manifests, steamapps.as_str()) {
                    Ok(()) => {},
                    Err(e) => {
                        return Err(e);
                    },
                }
            },
            None => {
                return Err(DiscoveryError::NotFound(PathError { path: steamapps }));
            },
        }
        enter_folder(&mut directories, folders[i].clone());
        i += 1;
    }
    Ok((directories, games))
}

} // verus!
