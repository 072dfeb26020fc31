//! The model of a Steam installation: its accounts, library folders and
//! installed titles, and the art of each title.
//!
//! The model is rebuilt from documents that the caller has read. A rebuild
//! either succeeds and replaces what it is about, or fails and changes
//! nothing.
use vstd::prelude::*;
use std::collections::HashMap;
use crate::accounts::{
    declared_accounts,
    declared_view,
    discovered_accounts,
    localconfig_location,
    localconfig_path,
    read_accounts,
    read_declared,
};
use crate::data::{
    accounts_view,
    AccountView,
    AppID,
    AppView,
    LibraryFolder,
    SteamAccount,
    SteamID,
};
use crate::error::{DiscoveryError, LoginError};
use crate::installs::{
    declared_folders,
    discovered_installs,
    distinct_ids,
    distinct_paths,
    folders_view,
    game_index,
    games_view,
    lemma_discovered_installs_distinct,
    read_folders,
    read_installs,
    scans_view,
    steamapps_location,
    steamapps_path,
    FolderScan,
};
use crate::manifest::{parse_document, parse_manifest, Tree, TreeValue};
use crate::text::same_text;

verus! {

/// A Steam installation and what was discovered in it.
#[derive(Debug, Clone)]
pub struct SteamModel {
    /// The directory in which the client is installed.
    pub install_path: String,
    /// The account that is logged in, where the caller has recorded it.
    pub current_user: Option<SteamAccount>,
    /// The accounts of the last discovery, in the order of the login-users
    /// document.
    pub user_cache: Vec<SteamAccount>,
    /// The library folders of the last discovery, each path once.
    pub directories: Vec<LibraryFolder>,
    /// The installed titles of the last discovery with their manifests, each
    /// id once.
    pub games: Vec<(AppID, TreeValue)>,
}

/// What a model means.
pub struct ModelView {
    pub install_path: Seq<char>,
    pub current_user: Option<AccountView>,
    pub user_cache: Seq<AccountView>,
    pub directories: Seq<(Seq<char>, Set<i32>)>,
    pub games: Seq<(AppView, Tree)>,
}

impl ModelView {
    /// Each library folder is there once, and each title.
    pub open spec fn wf(self) -> bool {
        distinct_paths(self.directories) && distinct_ids(self.games)
    }
}

impl View for SteamModel {
    type V = ModelView;

    open spec fn view(&self) -> ModelView {
        ModelView {
            install_path: self.install_path@,
            current_user: match self.current_user {
                Some(account) => Some(account@),
                None => None,
            },
            user_cache: accounts_view(self.user_cache@),
            directories: folders_view(self.directories@),
            games: games_view(self.games@),
        }
    }
}

/// What a list of titles means.
pub open spec fn apps_view(apps: Seq<AppID>) -> Seq<AppView> {
    Seq::new(apps.len(), |i: int| apps[i]@)
}

/// The titles of a list of titles with manifests.
pub open spec fn titles(games: Seq<(AppView, Tree)>) -> Seq<AppView> {
    Seq::new(games.len(), |i: int| games[i].0)
}

/// The index of the first account at or after `from` whose name is `name`,
/// or the number of accounts where there is none.
pub open spec fn account_index(accounts: Seq<AccountView>, name: Seq<char>, from: int) -> int
    decreases accounts.len() - from,
{
    if 0 <= from < accounts.len() {
        if accounts[from].name == name {
            from
        } else {
            account_index(accounts, name, from + 1)
        }
    } else {
        from
    }
}

pub proof fn lemma_account_index(accounts: Seq<AccountView>, name: Seq<char>, from: int)
    requires
        0 <= from <= accounts.len(),
    ensures
        from <= account_index(accounts, name, from) <= accounts.len(),
        account_index(accounts, name, from) < accounts.len() ==> accounts[account_index(
            accounts,
            name,
            from,
        )].name == name,
        forall|i: int|
            from <= i < account_index(accounts, name, from) ==> (#[trigger] accounts[i]).name
                != name,
    decreases accounts.len() - from,
{
    if from < accounts.len() && accounts[from].name != name {
        lemma_account_index(accounts, name, from + 1);
    }
}

/// The account named `name`: the first of that name.
pub open spec fn account_named(accounts: Seq<AccountView>, name: Seq<char>) -> Option<AccountView> {
    let i = account_index(accounts, name, 0);
    if i < accounts.len() {
        Some(accounts[i])
    } else {
        None
    }
}

/// The account to begin with; see [`SteamModel::initial_account`]. It is
/// meant for a list that holds an account.
pub open spec fn initial_account_of(accounts: Seq<AccountView>, name: Option<Seq<char>>) -> AccountView {
    match name {
        Some(name) => match account_named(accounts, name) {
            Some(account) => account,
            None => accounts[0],
        },
        None => accounts[0],
    }
}

/// The manifest of the title `id`.
pub open spec fn manifest_of(games: Seq<(AppView, Tree)>, id: i32) -> Option<Tree> {
    let i = game_index(games, id, 0);
    if i < games.len() {
        Some(games[i].1)
    } else {
        None
    }
}

/// The local configuration that each declared account needs: the account's
/// `id3` and the path of the document.
pub open spec fn account_sources_of(root: Seq<char>, declared: Seq<(Seq<char>, SteamID)>) -> Seq<
    (i64, Seq<char>),
> {
    Seq::new(
        declared.len(),
        |i: int| (declared[i].1.id3, localconfig_location(root, declared[i].1.id3)),
    )
}

/// The manifest directory that each declared folder needs: the folder as the
/// document writes it, and the path of the directory.
pub open spec fn install_sources_of(folders: Seq<(Seq<char>, Set<i32>)>) -> Seq<
    (Seq<char>, Seq<char>),
> {
    Seq::new(folders.len(), |i: int| (folders[i].0, steamapps_location(folders[i].0)))
}

impl Default for SteamModel {
    fn default() -> (r: SteamModel)
        ensures
            r@ == (ModelView {
                install_path: Seq::empty(),
                current_user: None,
                user_cache: Seq::empty(),
                directories: Seq::empty(),
                games: Seq::empty(),
            }),
    {
        SteamModel::new(String::new())
    }
}

impl SteamModel {
    /// The model of the installation in `install_path`, with nothing
    /// discovered yet.
    pub fn new(install_path: String) -> (r: SteamModel)
        ensures
            r@ == (ModelView {
                install_path: install_path@,
                current_user: None,
                user_cache: Seq::empty(),
                directories: Seq::empty(),
                games: Seq::empty(),
            }),
            r@.wf(),
    {
        let r = SteamModel {
            install_path,
            current_user: None,
            user_cache: Vec::new(),
            directories: Vec::new(),
            games: Vec::new(),
        };
        assert(accounts_view(r.user_cache@) =~= Seq::empty());
        assert(folders_view(r.directories@) =~= Seq::empty());
        assert(games_view(r.games@) =~= Seq::empty());
        r
    }

    /// The discovered account that is logged in: the first account whose
    /// name is `auto_login_user`, the name that the client keeps for its
    /// automatic login. Fails where no discovered account has that name.
    pub fn get_current_user(&self, auto_login_user: &str) -> (r: Result<SteamAccount, LoginError>)
        ensures
            match account_named(self@.user_cache, auto_login_user@) {
                Some(account) => r matches Ok(found) && found@ == account,
                None => r matches Err(LoginError::Other(text)) && text@ == "Failed to find user"@,
            },
    {
        let ghost all = accounts_view(self.user_cache@);
        let mut i: usize = 0;
        while i < self.user_cache.len()
            invariant
                i <= self.user_cache.len(),
                all == accounts_view(self.user_cache@),
                all == self@.user_cache,
                account_index(all, auto_login_user@, 0) == account_index(
                    all,
                    auto_login_user@,
                    i as int,
                ),
            decreases self.user_cache.len() - i,
        {
            assert(all[i as int] == self.user_cache@[i as int]@);
            if same_text(self.user_cache[i].name(), auto_login_user) {
                return Ok(self.user_cache[i].clone());
            }
            i += 1;
        }
        Err(LoginError::Other("Failed to find user".to_owned()))
    }

    /// The account to begin with: the discovered account that is logged in,
    /// where `auto_login_user` is known and names one, and else the first
    /// discovered account. There is none only where no account was
    /// discovered.
    pub fn initial_account(&self, auto_login_user: Option<&str>) -> (r: Option<SteamAccount>)
        ensures
            match r {
                Some(account) => account@ == initial_account_of(
                    self@.user_cache,
                    match auto_login_user {
                        Some(name) => Some(name@),
                        None => None,
                    },
                ) && self@.user_cache.len() > 0,
                None => self@.user_cache.len() == 0,
            },
    {
        proof {
            if let Some(name) = auto_login_user {
                lemma_account_index(self@.user_cache, name@, 0);
            }
        }
        let current = match auto_login_user {
            Some(name) => match self.get_current_user(name) {
                Ok(account) => Some(account),
                Err(_) => None,
            },
            None => None,
        };
        match current {
            Some(account) => Some(account),
            None => {
                if self.user_cache.len() > 0 {
                    assert(self@.user_cache[0] == self.user_cache@[0]@);
                    Some(self.user_cache[0].clone())
                } else {
                    None
                }
            },
        }
    }

    /// The local configurations that [`SteamModel::detect_accounts`] needs
    /// for this login-users document; see [`account_sources_of`]. A document
    /// that holds no object needs none.
    pub fn account_sources(&self, loginusers: &str) -> (r: Vec<(i64, String)>)
        ensures
            Seq::new(r@.len(), |i: int| (r@[i].0, r@[i].1@)) == match parse_document(loginusers@) {
                Some(users) => account_sources_of(self@.install_path, declared_accounts(users)),
                None => Seq::empty(),
            },
    {
        let mut sources: Vec<(i64, String)> = Vec::new();
        match parse_manifest(loginusers) {
            Err(_) => {},
            Ok(users) => {
                let declared = read_declared(&users);
                let ghost all = declared_view(declared@);
                let mut i: usize = 0;
                while i < declared.len()
                    invariant
                        i <= declared.len(),
                        sources.len() == i,
                        all == declared_view(declared@),
                        forall|k: int|
                            0 <= k < i ==> (#[trigger] sources@[k]).0 == all[k].1.id3
                                && sources@[k].1@ == localconfig_location(
                                self.install_path@,
                                all[k].1.id3,
                            ),
                    decreases declared.len() - i,
                {
                    assert(all[i as int] == (declared@[i as int].0@, declared@[i as int].1));
                    let id3 = declared[i].1.id3;
                    sources.push((id3, localconfig_path(self.install_path.as_str(), id3)));
                    i += 1;
                }
                assert(Seq::new(sources@.len(), |i: int| (sources@[i].0, sources@[i].1@))
                    =~= account_sources_of(self@.install_path, all));
            },
        }
        sources
    }

    /// Discovers the accounts anew; see [`discovered_accounts`].
    ///
    /// Where the discovery succeeds, its accounts replace the earlier ones
    /// and nothing else changes. Where it fails, the model stays as it was.
    pub fn detect_accounts(&mut self, loginusers: Option<&str>, configs: &HashMap<i64, String>) -> (r:
        Result<(), DiscoveryError>)
        ensures
            match discovered_accounts(
                old(self)@.install_path,
                match loginusers {
                    Some(text) => Some(text@),
                    None => None,
                },
                configs@,
            ) {
                Ok(accounts) => r is Ok && final(self)@ == (ModelView {
                    user_cache: accounts,
                    ..old(self)@
                }),
                Err(fault) => r matches Err(e) && e@ == fault && *final(self) == *old(self),
            },
            old(self)@.wf() ==> final(self)@.wf(),
    {
        match read_accounts(self.install_path.as_str(), loginusers, configs) {
            Ok(accounts) => {
                self.user_cache = accounts;
                Ok(())
            },
            Err(e) => Err(e),
        }
    }

    /// The manifest directories that [`SteamModel::detect_installs`] needs
    /// for this library-folders document; see [`install_sources_of`]. A
    /// document that holds no object needs none.
    pub fn install_sources(&self, libraryfolders: &str) -> (r: Vec<(String, String)>)
        ensures
            Seq::new(r@.len(), |i: int| (r@[i].0@, r@[i].1@)) == match parse_document(
                libraryfolders@,
            ) {
                Some(libraries) => install_sources_of(declared_folders(libraries)),
                None => Seq::empty(),
            },
    {
        let mut sources: Vec<(String, String)> = Vec::new();
        match parse_manifest(libraryfolders) {
            Err(_) => {},
            Ok(libraries) => {
                let folders = read_folders(&libraries);
                let ghost all = folders_view(folders@);
                let mut i: usize = 0;
                while i < folders.len()
                    invariant
                        i <= folders.len(),
                        sources.len() == i,
                        all == folders_view(folders@),
                        forall|k: int|
                            0 <= k < i ==> (#[trigger] sources@[k]).0@ == all[k].0
                                && sources@[k].1@ == steamapps_location(all[k].0),
                    decreases folders.len() - i,
                {
                    assert(all[i as int] == folders@[i as int]@);
                    let path = folders[i].path.clone();
                    let directory = steamapps_path(path.as_str());
                    sources.push((path, directory));
                    i += 1;
                }
                assert(Seq::new(sources@.len(), |i: int| (sources@[i].0@, sources@[i].1@))
                    =~= install_sources_of(all));
            },
        }
        sources
    }

    /// Discovers the library folders and the installed titles anew, and
    /// returns the titles; see [`discovered_installs`].
    ///
    /// Where the discovery succeeds, its folders and titles replace the
    /// earlier ones and nothing else changes. Where it fails, the model stays
    /// as it was.
    pub fn detect_installs(&mut self, libraryfolders: Option<&str>, scans: &Vec<FolderScan>) -> (r:
        Result<Vec<AppID>, DiscoveryError>)
        ensures
            match discovered_installs(
                old(self)@.install_path,
                match libraryfolders {
                    Some(text) => Some(text@),
                    None => None,
                },
                scans_view(scans@),
            ) {
                Ok(found) => r matches Ok(apps) && apps_view(apps@) == titles(found.1)
                    && final(self)@ == (ModelView {
                    directories: found.0,
                    games: found.1,
                    ..old(self)@
                }),
                Err(fault) => r matches Err(e) && e@ == fault && *final(self) == *old(self),
            },
            r is Ok || old(self)@.wf() ==> final(self)@.wf(),
    {
        proof {
            lemma_discovered_installs_distinct(
                self@.install_path,
                match libraryfolders {
                    Some(text) => Some(text@),
                    None => None,
                },
                scans_view(scans@),
            );
        }
        match read_installs(self.install_path.as_str(), libraryfolders, scans) {
            Ok(pair) => {
                self.directories = pair.0;
                self.games = pair.1;
                Ok(self.get_installed_apps())
            },
            Err(e) => Err(e),
        }
    }

    /// The installed titles, in the order in which they were first found.
    pub fn get_installed_apps(&self) -> (r: Vec<AppID>)
        ensures
            apps_view(r@) == titles(self@.games),
    {
        let mut apps: Vec<AppID> = Vec::new();
        let mut i: usize = 0;
        while i < self.games.len()
            invariant
                i <= self.games.len(),
                apps.len() == i,
                forall|k: int| 0 <= k < i ==> (#[trigger] apps@[k])@ == self.games@[k].0@,
            decreases self.games.len() - i,
        {
            apps.push(self.games[i].0.clone());
            i += 1;
        }
        assert(apps_view(apps@) =~= titles(self@.games));
        apps
    }

    /// The installed titles with their manifests.
    pub fn get_installed_apps_with_manifests(&self) -> (r: &Vec<(AppID, TreeValue)>)
        ensures
            *r == self.games,
    {
        &self.games
    }

    /// The manifest of the installed title with the id of `appid`.
    pub fn get_app_manifest(&self, appid: &AppID) -> (r: Option<&TreeValue>)
        ensures
            match r {
                Some(manifest) => manifest_of(self@.games, appid.id) == Some(manifest@),
                None => manifest_of(self@.games, appid.id) is None,
            },
    {
        let ghost all = games_view(self.games@);
        let mut i: usize = 0;
        while i < self.games.len()
            invariant
                i <= self.games.len(),
                all == games_view(self.games@),
                all == self@.games,
                game_index(all, appid.id, 0) == game_index(all, appid.id, i as int),
            decreases self.games.len() - i,
        {
            assert(all[i as int] == (self.games@[i as int].0@, self.games@[i as int].1@));
            if self.games[i].0.id == appid.id {
                return Some(&self.games[i].1);
            }
            i += 1;
        }
        None
    }
}

} // verus!
