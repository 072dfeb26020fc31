use std::collections::{HashMap, HashSet};
use wait::accounts::{
    localconfig_path, loginusers_path, read_accounts, read_declared, read_key_ids,
    read_owned_games, text_at,
};
use wait::data::{SteamAccount, SteamID};
use wait::error::{DiscoveryError, PathError};
use wait::manifest::{parse_manifest, ManifestParseError};
use wait::steam::SteamModel;

const ALICE: &str = "\"users\"\n{\n\t\"76561198000000001\"\n\t{\n\t\t\"AccountName\"\t\t\"alice\"\n\t}\n}\n";

const TWO_USERS: &str = "\"users\"\n{\n\t\"76561198000000001\"\n\t{\n\t\t\"AccountName\"\t\t\"alice\"\n\t\t\"PersonaName\"\t\t\"Alice\"\n\t}\n\t\"76561198000000002\"\n\t{\n\t\t\"AccountName\"\t\t\"bob\"\n\t}\n}\n";

fn config(valve: &str, steam: &str, apps: &str) -> String {
    format!(
        "\"UserLocalConfigStore\"\n{{\n\t\"Software\"\n\t{{\n\t\t\"{}\"\n\t\t{{\n\t\t\t\"{}\"\n\t\t\t{{\n\t\t\t\t\"apps\"\n\t\t\t\t{{\n{}\t\t\t\t}}\n\t\t\t}}\n\t\t}}\n\t}}\n}}\n",
        valve, steam, apps
    )
}

fn ids(list: &[i32]) -> HashSet<i32> {
    list.iter().copied().collect()
}

fn account(name: &str, id64: i64, games: &[i32]) -> SteamAccount {
    SteamAccount { name: name.to_string(), id: Some(SteamID::from(id64)), games: ids(games) }
}

#[test]
fn paths_of_the_account_documents() {
    assert_eq!(loginusers_path("C:\\Steam"), "C:\\Steam\\config\\loginusers.vdf");
    assert_eq!(
        localconfig_path("C:\\Steam", 39734273),
        "C:\\Steam\\userdata\\39734273\\config\\localconfig.vdf"
    );
}

#[test]
fn a_missing_local_config_fails_discovery_and_keeps_the_accounts() {
    let mut model = SteamModel::new("C:\\Steam".to_string());
    model.user_cache = vec![account("carol", 76561198000000003, &[10])];
    let before = model.user_cache.clone();
    let result = model.detect_accounts(Some(ALICE), &HashMap::new());
    assert_eq!(
        result,
        Err(DiscoveryError::NotFound(PathError {
            path: "C:\\Steam\\userdata\\39734273\\config\\localconfig.vdf".to_string()
        }))
    );
    assert_eq!(model.user_cache, before);
    assert_eq!(model.install_path, "C:\\Steam");
}

#[test]
fn a_missing_login_users_document_fails_discovery() {
    let mut model = SteamModel::new("C:\\Steam".to_string());
    model.user_cache = vec![account("carol", 76561198000000003, &[10])];
    let result = model.detect_accounts(None, &HashMap::new());
    assert_eq!(
        result,
        Err(DiscoveryError::NotFound(PathError {
            path: "C:\\Steam\\config\\loginusers.vdf".to_string()
        }))
    );
    assert_eq!(model.user_cache, vec![account("carol", 76561198000000003, &[10])]);
}

#[test]
fn documents_without_an_object_fail_discovery() {
    let mut model = SteamModel::new("C:\\Steam".to_string());
    assert_eq!(
        model.detect_accounts(Some("no brace here"), &HashMap::new()),
        Err(DiscoveryError::InvalidData(ManifestParseError))
    );
    let mut configs = HashMap::new();
    configs.insert(39734273i64, "\"UserLocalConfigStore\"\nnothing".to_string());
    assert_eq!(
        model.detect_accounts(Some(ALICE), &configs),
        Err(DiscoveryError::InvalidData(ManifestParseError))
    );
    assert!(model.user_cache.is_empty());
}

#[test]
fn accounts_are_discovered_with_their_titles() {
    let mut model = SteamModel::new("C:\\Steam".to_string());
    model.user_cache = vec![account("old", 1, &[])];
    let mut configs = HashMap::new();
    configs.insert(39734273i64, config("Valve", "Steam", "\"440\" { \"LastPlayed\" \"1\" }\n\"570\" { }\n\"junk\" { }\n"));
    configs.insert(39734274i64, config("valve", "steam", "\"730\" { }\n"));
    assert_eq!(model.detect_accounts(Some(TWO_USERS), &configs), Ok(()));
    assert_eq!(
        model.user_cache,
        vec![
            account("alice", 76561198000000001, &[440, 570]),
            account("bob", 76561198000000002, &[730]),
        ]
    );
    assert_eq!(model.user_cache[0].id.unwrap().id3, 39734273);
}

#[test]
fn entries_without_name_or_number_declare_no_account() {
    let doc = "\"users\"\n{\n\"1\" { \"PersonaName\" \"x\" }\n\"2\" { \"AccountName\" \"\" }\n\"three\" { \"AccountName\" \"c\" }\n\"4\" \"text\"\n\"5\" { \"AccountName\" { } }\n\"6\" { \"AccountName\" \"f\" }\n}";
    let users = parse_manifest(doc).unwrap();
    assert_eq!(read_declared(&users), vec![("f".to_string(), SteamID::from(6))]);
    let model = SteamModel::new("S".to_string());
    assert_eq!(
        model.account_sources(doc),
        vec![(6i64, "S\\userdata\\6\\config\\localconfig.vdf".to_string())]
    );
    assert_eq!(model.account_sources("no object"), vec![]);
}

#[test]
fn exact_case_comes_before_lower_case() {
    let doc = "\"c\"\n{ \"Software\" { \"valve\" { \"Steam\" { \"apps\" { \"1\" { } } } } \"Valve\" { \"steam\" { \"apps\" { \"2\" { } } } \"Steam\" { \"apps\" { \"3\" { } } } } } }";
    let tree = parse_manifest(doc).unwrap();
    assert_eq!(read_owned_games(&tree), ids(&[3]));
    let upper = "\"c\"\n{ \"Software\" { \"VALVE\" { \"Steam\" { \"apps\" { \"1\" { } } } } } }";
    assert_eq!(read_owned_games(&parse_manifest(upper).unwrap()), ids(&[]));
}

#[test]
fn missing_tables_mean_no_titles() {
    let mut model = SteamModel::new("C:\\Steam".to_string());
    let mut configs = HashMap::new();
    configs.insert(39734273i64, "\"UserLocalConfigStore\"\n{\n\t\"friends\" { }\n}\n".to_string());
    configs.insert(
        39734274i64,
        "\"UserLocalConfigStore\"\n{ \"Software\" { \"Valve\" { \"Steam\" { \"other\" \"1\" } } } }".to_string(),
    );
    assert_eq!(model.detect_accounts(Some(TWO_USERS), &configs), Ok(()));
    assert_eq!(
        model.user_cache,
        vec![account("alice", 76561198000000001, &[]), account("bob", 76561198000000002, &[])]
    );
    for text in [
        "\"c\"\n{ \"Software\" \"text\" }",
        "\"c\"\n{ \"Software\" { \"Valve\" \"text\" } }",
        "\"c\"\n{ \"Software\" { \"Valve\" { \"Steam\" { \"apps\" \"text\" } } } }",
    ] {
        assert_eq!(read_owned_games(&parse_manifest(text).unwrap()), ids(&[]));
    }
}

#[test]
fn the_first_failing_account_decides() {
    let mut configs = HashMap::new();
    configs.insert(39734274i64, "broken".to_string());
    assert_eq!(
        read_accounts("R", Some(TWO_USERS), &configs),
        Err(DiscoveryError::NotFound(PathError {
            path: "R\\userdata\\39734273\\config\\localconfig.vdf".to_string()
        }))
    );
    configs.insert(39734273i64, config("Valve", "Steam", ""));
    assert_eq!(
        read_accounts("R", Some(TWO_USERS), &configs),
        Err(DiscoveryError::InvalidData(ManifestParseError))
    );
}

#[test]
fn keys_and_strings_of_a_node() {
    let tree = parse_manifest("\"x\"\n{ \"a\" \"1\" \"12\" { } \"-7\" \"v\" \"b\" { } }").unwrap();
    assert_eq!(read_key_ids(&tree), ids(&[12, -7]));
    assert_eq!(text_at(&tree, "a"), Some("1"));
    assert_eq!(text_at(&tree, "12"), None);
    assert_eq!(text_at(&tree, "zz"), None);
    assert_eq!(read_key_ids(tree.get("a").unwrap()), ids(&[]));
}
