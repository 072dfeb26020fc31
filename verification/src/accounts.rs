//! Accounts, as the login-users document declares them and as each
//! account's local configuration lists its titles.
use vstd::prelude::*;
use std::collections::HashMap;
use std::collections::HashSet;
use crate::data::{accounts_view, steam_id, AccountView, SteamAccount, SteamID};
use crate::error::{DiscoveryError, Fault, PathError};
use crate::manifest::{entries_view, parse_document, parse_manifest, Tree, TreeValue};
use crate::text::{decimal, decimal_text, i32_value, i64_value, join_path, joined, parse_i32, parse_i64};

verus! {

/// The string under `key`, where `node` is an object that holds one there.
pub open spec fn text_under(node: Tree, key: Seq<char>) -> Option<Seq<char>> {
    match node.get(key) {
        Some(Tree::Text(text)) => Some(text),
        _ => None,
    }
}

/// The string under `key`; see [`text_under`].
pub fn text_at<'a>(node: &'a TreeValue, key: &str) -> (r: Option<&'a str>)
    ensures
        match r {
            Some(text) => text_under(node@, key@) == Some(text@),
            None => text_under(node@, key@) is None,
        },
{
    match node.get(key) {
        Some(value) => value.as_str(),
        None => None,
    }
}

/// The name and the identity that one entry of the login-users document
/// declares: the key is the 64-bit identifier, `AccountName` the name. An
/// entry without a name, or with a key that is no 64-bit integer, declares
/// nothing.
pub open spec fn declared_account(key: Seq<char>, value: Tree) -> Option<(Seq<char>, SteamID)> {
    match text_under(value, "AccountName"@) {
        Some(name) => if name.len() > 0 {
            match i64_value(key) {
                Some(id64) => Some((name, steam_id(id64))),
                None => None,
            }
        } else {
            None
        },
        None => None,
    }
}

/// The accounts that `entries[at..]` declare, behind those in `found`.
pub open spec fn declared_from(
    entries: Seq<(Seq<char>, Tree)>,
    at: int,
    found: Seq<(Seq<char>, SteamID)>,
) -> Seq<(Seq<char>, SteamID)>
    decreases entries.len() - at,
{
    if 0 <= at < entries.len() {
        declared_from(
            entries,
            at + 1,
            match declared_account(entries[at].0, entries[at].1) {
                Some(account) => found.push(account),
                None => found,
            },
        )
    } else {
        found
    }
}

/// The accounts that a login-users document declares, in its order.
pub open spec fn declared_accounts(users: Tree) -> Seq<(Seq<char>, SteamID)> {
    match users {
        Tree::Object(entries) => declared_from(entries, 0, Seq::empty()),
        Tree::Text(_) => Seq::empty(),
    }
}

/// What a list of declared accounts means.
pub open spec fn declared_view(list: Seq<(String, SteamID)>) -> Seq<(Seq<char>, SteamID)> {
    Seq::new(list.len(), |i: int| (list[i].0@, list[i].1))
}

/// Reads the accounts that a login-users document declares.
pub fn read_declared(users: &TreeValue) -> (r: Vec<(String, SteamID)>)
    ensures
        declared_view(r@) == declared_accounts(users@),
{
    let mut found: Vec<(String, SteamID)> = Vec::new();
    assert(declared_view(found@) =~= Seq::empty());
    match users.as_object() {
        None => found,
        Some(entries) => {
            let ghost all = entries_view(entries@);
            let mut i: usize = 0;
            while i < entries.len()
                invariant
                    i <= entries.len(),
                    all == entries_view(entries@),
                    declared_from(all, 0, Seq::empty()) == declared_from(
                        all,
                        i as int,
                        declared_view(found@),
                    ),
                decreases entries.len() - i,
            {
                assert(all[i as int] == (entries@[i as int].0@, entries@[i as int].1@));
                let ghost before = declared_view(found@);
                match text_at(&entries[i].1, "AccountName") {
                    Some(name) => {
                        if !name.is_empty() {
                            match parse_i64(entries[i].0.as_str()) {
                                Some(id64) => {
                                    found.push((name.to_owned(), SteamID::from(id64)));
                                    assert(declared_view(found@) =~= before.push(
                                        (name@, steam_id(id64)),
                                    ));
                                },
                                None => {},
                            }
                        }
                    },
                    None => {},
                }
                i += 1;
            }
            found
        },
    }
}

/// The value under `first`, or else the one under `second`.
pub open spec fn either(node: Tree, first: Seq<char>, second: Seq<char>) -> Option<Tree> {
    match node.get(first) {
        Some(value) => Some(value),
        None => node.get(second),
    }
}

fn either_at<'a>(node: &'a TreeValue, first: &str, second: &str) -> (r: Option<&'a TreeValue>)
    ensures
        match r {
            Some(value) => either(node@, first@, second@) == Some(value@),
            None => either(node@, first@, second@) is None,
        },
{
    match node.get(first) {
        Some(value) => Some(value),
        None => node.get(second),
    }
}

/// The table of owned titles in a local configuration: it stands under
/// `Software`, then `Valve` or else `valve`, then `Steam` or else `steam`,
/// then `apps`.
pub open spec fn apps_table(config: Tree) -> Option<Tree> {
    match config.get("Software"@) {
        Some(software) => match either(software, "Valve"@, "valve"@) {
            Some(valve) => match either(valve, "Steam"@, "steam"@) {
                Some(steam) => steam.get("apps"@),
                None => None,
            },
            None => None,
        },
        None => None,
    }
}

/// The ids that the keys of `entries[at..]` write, added to `found`.
pub open spec fn ids_from(entries: Seq<(Seq<char>, Tree)>, at: int, found: Set<i32>) -> Set<i32>
    decreases entries.len() - at,
{
    if 0 <= at < entries.len() {
        ids_from(
            entries,
            at + 1,
            match i32_value(entries[at].0) {
                Some(id) => found.insert(id),
                None => found,
            },
        )
    } else {
        found
    }
}

/// The ids that the keys of an object write. A key that is no 32-bit integer
/// counts for nothing, and so does a node that is no object.
pub open spec fn key_ids(node: Tree) -> Set<i32> {
    match node {
        Tree::Object(entries) => ids_from(entries, 0, Set::empty()),
        Tree::Text(_) => Set::empty(),
    }
}

/// An id is among [`ids_from`] exactly when it was found before or one of
/// the keys writes it.
pub proof fn lemma_ids_from(entries: Seq<(Seq<char>, Tree)>, at: int, found: Set<i32>, id: i32)
    requires
        0 <= at <= entries.len(),
    ensures
        ids_from(entries, at, found).contains(id) <==> found.contains(id) || exists|i: int|
            at <= i < entries.len() && i32_value(#[trigger] entries[i].0) == Some(id),
        found.finite() ==> ids_from(entries, at, found).finite(),
    decreases entries.len() - at,
{
    if at < entries.len() {
        let next = match i32_value(entries[at].0) {
            Some(v) => found.insert(v),
            None => found,
        };
        lemma_ids_from(entries, at + 1, next, id);
        if exists|i: int| at <= i < entries.len() && i32_value(#[trigger] entries[i].0) == Some(id) {
            let i = choose|i: int|
                at <= i < entries.len() && i32_value(#[trigger] entries[i].0) == Some(id);
            if i != at {
                assert(at + 1 <= i < entries.len() && i32_value(entries[i].0) == Some(id));
            }
        }
    }
}

/// The ids that the keys of `node` write; see [`key_ids`].
pub fn read_key_ids(node: &TreeValue) -> (r: HashSet<i32>)
    ensures
        r@ == key_ids(node@),
{
    broadcast use vstd::std_specs::hash::group_hash_axioms;

    let mut found: HashSet<i32> = HashSet::new();
    match node.as_object() {
        None => found,
        Some(entries) => {
            let ghost all = entries_view(entries@);
            let mut i: usize = 0;
            while i < entries.len()
                invariant
                    i <= entries.len(),
                    all == entries_view(entries@),
                    ids_from(all, 0, Set::empty()) == ids_from(all, i as int, found@),
                decreases entries.len() - i,
            {
                assert(all[i as int] == (entries@[i as int].0@, entries@[i as int].1@));
                match parse_i32(entries[i].0.as_str()) {
                    Some(id) => {
                        found.insert(id);
                    },
                    None => {},
                }
                i += 1;
            }
            found
        },
    }
}

/// The titles that a local configuration lists as owned. Where the table of
/// titles or a step on the way to it is missing, the account owns nothing.
pub open spec fn owned_games(config: Tree) -> Set<i32> {
    match apps_table(config) {
        Some(table) => key_ids(table),
        None => Set::empty(),
    }
}

/// The titles that a local configuration lists; see [`owned_games`].
pub fn read_owned_games(config: &TreeValue) -> (r: HashSet<i32>)
    ensures
        r@ == owned_games(config@),
{
    let table = match config.get("Software") {
        Some(software) => match either_at(software, "Valve", "valve") {
            Some(valve) => match either_at(valve, "Steam", "steam") {
                Some(steam) => steam.get("apps"),
                None => None,
            },
            None => None,
        },
        None => None,
    };
    match table {
        Some(node) => read_key_ids(node),
        None => HashSet::new(),
    }
}

/// Where the login-users document lies under the install directory `root`.
pub open spec fn loginusers_location(root: Seq<char>) -> Seq<char> {
    joined(joined(root, "config"@), "loginusers.vdf"@)
}

/// Where the local configuration of the account `id3` lies under `root`.
pub open spec fn localconfig_location(root: Seq<char>, id3: i64) -> Seq<char> {
    joined(
        joined(joined(joined(root, "userdata"@), decimal_text(id3 as int)), "config"@),
        "localconfig.vdf"@,
    )
}

/// The path of the login-users document; see [`loginusers_location`].
pub fn loginusers_path(root: &str) -> (r: String)
    ensures
        r@ == loginusers_location(root@),
{
    let config = join_path(root, "config");
    join_path(config.as_str(), "loginusers.vdf")
}

/// The path of an account's local configuration; see
/// [`localconfig_location`].
pub fn localconfig_path(root: &str, id3: i64) -> (r: String)
    ensures
        r@ == localconfig_location(root@, id3),
{
    let userdata = join_path(root, "userdata");
    let user = join_path(userdata.as_str(), decimal(id3).as_str());
    let config = join_path(user.as_str(), "config");
    join_path(config.as_str(), "localconfig.vdf")
}

/// The titles of the account `id`, from the local configurations `configs`,
/// which are keyed by `id3`. The configuration has to be there and has to
/// hold an object.
pub open spec fn account_games(configs: Map<i64, String>, root: Seq<char>, id: SteamID) -> Result<
    Set<i32>,
    Fault,
> {
    if !configs.contains_key(id.id3) {
        Err(Fault::NotFound(localconfig_location(root, id.id3)))
    } else {
        match parse_document(configs[id.id3]@) {
            Some(config) => Ok(owned_games(config)),
            None => Err(Fault::InvalidData),
        }
    }
}

/// The accounts of `declared[at..]` with their titles, behind those in
/// `found`; or the fault of the first of them whose configuration fails.
pub open spec fn accounts_from(
    declared: Seq<(Seq<char>, SteamID)>,
    at: int,
    found: Seq<AccountView>,
    configs: Map<i64, String>,
    root: Seq<char>,
) -> Result<Seq<AccountView>, Fault>
    decreases declared.len() - at,
{
    if 0 <= at < declared.len() {
        match account_games(configs, root, declared[at].1) {
            Ok(games) => accounts_from(
                declared,
                at + 1,
                found.push(account_of(declared[at], games)),
                configs,
                root,
            ),
            Err(fault) => Err(fault),
        }
    } else {
        Ok(found)
    }
}

/// The account that is made of a declared account and its titles.
pub open spec fn account_of(declared: (Seq<char>, SteamID), games: Set<i32>) -> AccountView {
    AccountView { name: declared.0, id: Some(declared.1), games }
}

/// What [`accounts_from`] gives, said directly: where it succeeds, the
/// accounts in `found` and then one account for each of `declared[at..]`, in
/// that order, each with the titles of its configuration; where it fails, the
/// fault of the first of `declared[at..]` whose configuration fails.
pub proof fn lemma_accounts_from(
    declared: Seq<(Seq<char>, SteamID)>,
    at: int,
    found: Seq<AccountView>,
    configs: Map<i64, String>,
    root: Seq<char>,
)
    requires
        0 <= at <= declared.len(),
    ensures
        match accounts_from(declared, at, found, configs, root) {
            Ok(accounts) => {
                &&& accounts.len() == found.len() + declared.len() - at
                &&& forall|i: int| 0 <= i < found.len() ==> accounts[i] == found[i]
                &&& forall|i: int|
                    at <= i < declared.len() ==> (account_games(configs, root, declared[i].1)
                        matches Ok(games) && #[trigger] accounts[found.len() + i - at]
                        == account_of(declared[i], games))
            },
            Err(fault) => exists|i: int|
                {
                    &&& at <= i < declared.len()
                    &&& #[trigger] account_games(configs, root, declared[i].1) == Err::<
                        Set<i32>,
                        Fault,
                    >(fault)
                    &&& forall|j: int|
                        at <= j < i ==> (#[trigger] account_games(configs, root, declared[j].1))
                            is Ok
                },
        },
    decreases declared.len() - at,
{
    if at < declared.len() {
        match account_games(configs, root, declared[at].1) {
            Ok(games) => {
                let next = found.push(account_of(declared[at], games));
                lemma_accounts_from(declared, at + 1, next, configs, root);
                match accounts_from(declared, at + 1, next, configs, root) {
                    Ok(accounts) => {
                        assert forall|i: int| 0 <= i < found.len() implies accounts[i]
                            == found[i] by {
                            assert(accounts[i] == next[i]);
                        }
                        assert forall|i: int| at <= i < declared.len() implies (account_games(
                            configs,
                            root,
                            declared[i].1,
                        ) matches Ok(games) && #[trigger] accounts[found.len() + i - at]
                            == account_of(declared[i], games)) by {
                            if i == at {
                                assert(accounts[found.len() as int] == next[found.len() as int]);
                            } else {
                                assert(accounts[next.len() + i - (at + 1)] == accounts[found.len()
                                    + i - at]);
                            }
                        }
                    },
                    Err(fault) => {
                        let i = choose|i: int|
                            {
                                &&& at + 1 <= i < declared.len()
                                &&& #[trigger] account_games(configs, root, declared[i].1) == Err::<
                                    Set<i32>,
                                    Fault,
                                >(fault)
                                &&& forall|j: int|
                                    at + 1 <= j < i ==> (#[trigger] account_games(
                                        configs,
                                        root,
                                        declared[j].1,
                                    )) is Ok
                            };
                        assert(at <= i < declared.len() && account_games(
                            configs,
                            root,
                            declared[i].1,
                        ) == Err::<Set<i32>, Fault>(fault));
                    },
                }
            },
            Err(fault) => {
                assert(account_games(configs, root, declared[at].1) == Err::<Set<i32>, Fault>(
                    fault,
                ));
            },
        }
    }
}

/// A discovery that succeeds gives one account for each declared account,
/// in the order of the document: with the declared name and identity, and
/// with the titles that the account's configuration lists.
pub proof fn lemma_discovered_accounts(
    root: Seq<char>,
    loginusers: Seq<char>,
    configs: Map<i64, String>,
)
    ensures
        discovered_accounts(root, Some(loginusers), configs) matches Ok(accounts) ==> {
            &&& parse_document(loginusers) matches Some(users)
            &&& accounts.len() == declared_accounts(users).len()
            &&& forall|i: int|
                0 <= i < accounts.len() ==> {
                    let declared = declared_accounts(users)[i];
                    &&& configs.contains_key(declared.1.id3)
                    &&& parse_document(configs[declared.1.id3]@) matches Some(config)
                    &&& #[trigger] accounts[i] == account_of(declared, owned_games(config))
                }
        },
{
    if let Some(users) = parse_document(loginusers) {
        let declared = declared_accounts(users);
        lemma_accounts_from(declared, 0, Seq::empty(), configs, root);
        if let Ok(accounts) = accounts_from(declared, 0, Seq::empty(), configs, root) {
            assert forall|i: int| 0 <= i < accounts.len() implies {
                let d = declared[i];
                &&& configs.contains_key(d.1.id3)
                &&& parse_document(configs[d.1.id3]@) matches Some(config)
                &&& #[trigger] accounts[i] == account_of(d, owned_games(config))
            } by {
                assert(accounts[0 + i - 0] == accounts[i]);
            }
        }
    }
}

/// What account discovery finds under the install directory `root`.
///
/// `loginusers` is the text of the login-users document, or `None` where the
/// file is missing; `configs` holds the text of each local configuration that
/// is there, under the account's `id3`. Every declared account needs its
/// configuration: the first one that is missing, or that holds no object,
/// fails the whole discovery.
pub open spec fn discovered_accounts(
    root: Seq<char>,
    loginusers: Option<Seq<char>>,
    configs: Map<i64, String>,
) -> Result<Seq<AccountView>, Fault> {
    match loginusers {
        None => Err(Fault::NotFound(loginusers_location(root))),
        Some(text) => match parse_document(text) {
            None => Err(Fault::InvalidData),
            Some(users) => accounts_from(declared_accounts(users), 0, Seq::empty(), configs, root),
        },
    }
}

/// Discovers the accounts; see [`discovered_accounts`].
pub fn read_accounts(root: &str, loginusers: Option<&str>, configs: &HashMap<i64, String>) -> (r:
    Result<Vec<SteamAccount>, DiscoveryError>)
    ensures
        match discovered_accounts(
            root@,
            match loginusers {
                Some(text) => Some(text@),
                None => None,
            },
            configs@,
        ) {
            Ok(accounts) => r matches Ok(found) && accounts_view(found@) == accounts,
            Err(fault) => r matches Err(e) && e@ == fault,
        },
{
    broadcast use vstd::std_specs::hash::group_hash_axioms;

    let text = match loginusers {
        Some(text) => text,
        None => {
            return Err(DiscoveryError::NotFound(PathError { path: loginusers_path(root) }));
        },
    };
    let users = match parse_manifest(text) {
        Ok(users) => users,
        Err(e) => {
            return Err(DiscoveryError::InvalidData(e));
        },
    };
    let declared = read_declared(&users);
    let ghost all = declared_view(declared@);
    let ghost goal = discovered_accounts(
        root@,
        match loginusers {
            Some(text) => Some(text@),
            None => None,
        },
        configs@,
    );
    let mut found: Vec<SteamAccount> = Vec::new();
    assert(accounts_view(found@) =~= Seq::empty());
    let mut i: usize = 0;
    while i < declared.len()
        invariant
            i <= declared.len(),
            all == declared_view(declared@),
            goal == discovered_accounts(
                root@,
                match loginusers {
                    Some(text) => Some(text@),
                    None => None,
                },
                configs@,
            ),
            goal == accounts_from(all, i as int, accounts_view(found@), configs@, root@),
        decreases declared.len() - i,
    {
        assert(all[i as int] == (declared@[i as int].0@, declared@[i as int].1));
        let id = declared[i].1;
        let ghost before = accounts_view(found@);
        let games = match configs.get(&id.id3) {
            None => {
                return Err(
                    DiscoveryError::NotFound(PathError { path: localconfig_path(root, id.id3) }),
                );
            },
            Some(config_text) => match parse_manifest(config_text.as_str()) {
                Ok(config) => read_owned_games(&config),
                Err(e) => {
                    return Err(DiscoveryError::InvalidData(e));
                },
            },
        };
        let account = SteamAccount { name: declared[i].0.clone(), id: Some(id), games };
        found.push(account);
        assert(accounts_view(found@) =~= before.push(
            AccountView { name: declared@[i as int].0@, id: Some(id), games: games@ },
        ));
        i += 1;
    }
    Ok(found)
}

} // verus!
