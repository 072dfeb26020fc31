use std::collections::HashSet;
use wait::data::{AppID, LibraryFolder};
use wait::error::{DiscoveryError, PathError};
use wait::installs::{
    enter_folder, enter_game, is_manifest_file, libraryfolders_path, read_app, read_folders,
    read_games, read_installs, steamapps_path, FolderScan,
};
use wait::manifest::{parse_manifest, ManifestParseError, TreeValue};
use wait::steam::SteamModel;

fn ids(list: &[i32]) -> HashSet<i32> {
    list.iter().copied().collect()
}

fn folder(path: &str, apps: &[i32]) -> LibraryFolder {
    LibraryFolder { path: path.to_string(), apps: ids(apps) }
}

fn manifest(id: &str, name: &str, dir: &str) -> String {
    format!(
        "\"AppState\"\n{{\n\t\"appid\"\t\t\"{}\"\n\t\"name\"\t\t\"{}\"\n\t\"installdir\"\t\t\"{}\"\n\t\"LastPlayed\"\t\t\"1700000000\"\n}}\n",
        id, name, dir
    )
}

fn scan(path: &str, manifests: Vec<String>) -> FolderScan {
    FolderScan { path: path.to_string(), manifests }
}

fn full(app: &AppID) -> (i32, String, String, Option<u64>) {
    (app.id, app.name.clone(), app.location.clone(), app.last_played)
}

const LIBRARIES: &str = "\"libraryfolders\"\n{\n\t\"contentstatsid\"\t\t\"123\"\n\t\"0\"\n\t{\n\t\t\"path\"\t\t\"C:\\\\Steam\"\n\t\t\"apps\"\n\t\t{\n\t\t\t\"440\"\t\t\"100\"\n\t\t\t\"570\"\t\t\"200\"\n\t\t}\n\t}\n\t\"1\"\n\t{\n\t\t\"path\"\t\t\"D:\\\\Games\"\n\t\t\"apps\"\n\t\t{\n\t\t\t\"730\"\t\t\"300\"\n\t\t}\n\t}\n}\n";

#[test]
fn paths_of_the_install_documents() {
    assert_eq!(steamapps_path("D:\\Games"), "D:\\Games\\steamapps");
    assert_eq!(libraryfolders_path("C:\\Steam"), "C:\\Steam\\steamapps\\libraryfolders.vdf");
}

#[test]
fn manifest_files_end_in_acf() {
    assert!(is_manifest_file("appmanifest_440.acf"));
    assert!(is_manifest_file("a.acf"));
    assert!(is_manifest_file("..acf"));
    assert!(!is_manifest_file(".acf"));
    assert!(!is_manifest_file("acf"));
    assert!(!is_manifest_file("appmanifest_440.ACF"));
    assert!(!is_manifest_file("appmanifest_440.acf.tmp"));
    assert!(!is_manifest_file("libraryfolders.vdf"));
    assert!(!is_manifest_file(""));
}

#[test]
fn folders_are_read_from_numbered_entries() {
    let tree = parse_manifest(LIBRARIES).unwrap();
    assert_eq!(
        read_folders(&tree),
        vec![folder("C:\\\\Steam", &[440, 570]), folder("D:\\\\Games", &[730])]
    );
    let odd = "\"l\"\n{ \"x\" { \"path\" \"A\" \"apps\" { \"1\" \"1\" } } \"7\" { \"apps\" { \"1\" \"1\" } } \"8\" { \"path\" \"B\" } \"9\" { \"path\" \"C\" \"apps\" \"none\" } \"10\" { \"path\" \"D\" \"apps\" { \"x\" \"1\" } } \"11\" \"E\" \"12\" { \"path\" \"F\" \"apps\" { \"5\" \"1\" } } }";
    assert_eq!(read_folders(&parse_manifest(odd).unwrap()), vec![folder("F", &[5])]);
}

#[test]
fn a_folder_without_titles_is_skipped_and_discovery_succeeds() {
    let doc = "\"libraryfolders\"\n{\n\t\"0\"\n\t{\n\t\t\"path\"\t\t\"C:\\\\Games\"\n\t\t\"apps\"\n\t\t{\n\t\t}\n\t}\n}\n";
    let mut model = SteamModel::new("C:\\Steam".to_string());
    assert_eq!(model.install_sources(doc), vec![]);
    let result = model.detect_installs(Some(doc), &vec![]);
    assert_eq!(result, Ok(vec![]));
    assert!(model.directories.is_empty());
    assert!(model.games.is_empty());
    let tight = "\"libraryfolders\"\n{ \"0\" { \"path\" \"C:\\\\Games\" \"apps\" {} } \"1\" { \"path\" \"D:\\\\Games\" \"apps\" { \"730\" \"1\" } } }";
    assert_eq!(
        model.install_sources(tight),
        vec![("D:\\\\Games".to_string(), "D:\\\\Games\\steamapps".to_string())]
    );
}

#[test]
fn the_second_manifest_of_one_id_wins() {
    let doc = "\"libraryfolders\"\n{ \"0\" { \"path\" \"C:\" \"apps\" { \"440\" \"1\" } } }";
    let mut model = SteamModel::new("C:\\Steam".to_string());
    let scans = vec![scan(
        "C:",
        vec![manifest("440", "First Name", "one"), manifest("440", "Second Name", "two")],
    )];
    let apps = model.detect_installs(Some(doc), &scans).unwrap();
    assert_eq!(apps.len(), 1);
    assert_eq!(
        full(&apps[0]),
        (440, "Second Name".to_string(), "C:\\steamapps\\common\\two".to_string(), Some(1700000000))
    );
    assert_eq!(model.games.len(), 1);
    assert_eq!(full(&model.games[0].0), full(&apps[0]));
    assert_eq!(
        model.games[0].1,
        parse_manifest(&manifest("440", "Second Name", "two")).unwrap()
    );
    let installed = model.get_installed_apps();
    assert_eq!(installed.len(), 1);
    assert_eq!(installed[0].name, "Second Name");
}

#[test]
fn installs_are_discovered_folder_by_folder() {
    let mut model = SteamModel::new("C:\\Steam".to_string());
    model.directories = vec![folder("old", &[1])];
    let scans = vec![
        scan("D:\\\\Games", vec![manifest("730", "CS", "cs")]),
        scan("C:\\\\Steam", vec![manifest("440", "TF2", "tf"), manifest("570", "Dota 2", "dota 2 beta")]),
        scan("E:", vec![manifest("1", "never", "asked")]),
    ];
    assert_eq!(
        model.install_sources(LIBRARIES),
        vec![
            ("C:\\\\Steam".to_string(), "C:\\\\Steam\\steamapps".to_string()),
            ("D:\\\\Games".to_string(), "D:\\\\Games\\steamapps".to_string()),
        ]
    );
    let apps = model.detect_installs(Some(LIBRARIES), &scans).unwrap();
    let found: Vec<_> = apps.iter().map(full).collect();
    assert_eq!(
        found,
        vec![
            (440, "TF2".to_string(), "C:\\\\Steam\\steamapps\\common\\tf".to_string(), Some(1700000000)),
            (570, "Dota 2".to_string(), "C:\\\\Steam\\steamapps\\common\\dota 2 beta".to_string(), Some(1700000000)),
            (730, "CS".to_string(), "D:\\\\Games\\steamapps\\common\\cs".to_string(), Some(1700000000)),
        ]
    );
    assert_eq!(
        model.directories,
        vec![folder("C:\\\\Steam", &[440, 570]), folder("D:\\\\Games", &[730])]
    );
    assert_eq!(model.get_installed_apps_with_manifests().len(), 3);
    let wanted = AppID { id: 570, name: String::new(), location: String::new(), last_played: None };
    assert_eq!(
        model.get_app_manifest(&wanted),
        Some(&parse_manifest(&manifest("570", "Dota 2", "dota 2 beta")).unwrap())
    );
    let unknown = AppID { id: 5, name: String::new(), location: String::new(), last_played: None };
    assert_eq!(model.get_app_manifest(&unknown), None);
}

#[test]
fn a_failed_install_discovery_changes_nothing() {
    let mut model = SteamModel::new("C:\\Steam".to_string());
    let good = vec![
        scan("C:\\\\Steam", vec![manifest("440", "TF2", "tf")]),
        scan("D:\\\\Games", vec![manifest("730", "CS", "cs")]),
    ];
    model.detect_installs(Some(LIBRARIES), &good).unwrap();
    let directories = model.directories.clone();
    let games = model.games.clone();

    assert_eq!(
        model.detect_installs(None, &good),
        Err(DiscoveryError::NotFound(PathError {
            path: "C:\\Steam\\steamapps\\libraryfolders.vdf".to_string()
        }))
    );
    assert_eq!(
        model.detect_installs(Some("\"libraryfolders\"\n"), &good),
        Err(DiscoveryError::InvalidData(ManifestParseError))
    );
    let second_missing = vec![scan("C:\\\\Steam", vec![manifest("1", "One", "one")])];
    assert_eq!(
        model.detect_installs(Some(LIBRARIES), &second_missing),
        Err(DiscoveryError::NotFound(PathError { path: "D:\\\\Games\\steamapps".to_string() }))
    );
    let broken = vec![
        scan("C:\\\\Steam", vec![manifest("1", "One", "one")]),
        scan("D:\\\\Games", vec![manifest("2", "Two", "two"), "no object".to_string()]),
    ];
    assert_eq!(
        model.detect_installs(Some(LIBRARIES), &broken),
        Err(DiscoveryError::InvalidData(ManifestParseError))
    );
    assert_eq!(model.directories, directories);
    assert_eq!(model.games.len(), games.len());
    for (a, b) in model.games.iter().zip(games.iter()) {
        assert_eq!(full(&a.0), full(&b.0));
        assert_eq!(a.1, b.1);
    }
    assert_eq!(
        read_installs("C:\\Steam", Some(LIBRARIES), &broken).err(),
        Some(DiscoveryError::InvalidData(ManifestParseError))
    );
}

#[test]
fn manifests_without_id_name_or_directory_describe_nothing() {
    let read = |text: &str| read_app(&parse_manifest(text).unwrap(), "S").map(|a| full(&a));
    assert_eq!(
        read("\"a\"\n{ \"appid\" \"7\" \"name\" \"N\" \"installdir\" \"d\" }"),
        Some((7, "N".to_string(), "S\\common\\d".to_string(), None))
    );
    assert_eq!(
        read("\"a\"\n{ \"appid\" \"7\" \"name\" \"N\" \"installdir\" \"d\" \"LastPlayed\" \"12\" }"),
        Some((7, "N".to_string(), "S\\common\\d".to_string(), Some(12)))
    );
    assert_eq!(
        read("\"a\"\n{ \"appid\" \"7\" \"name\" \"N\" \"installdir\" \"d\" \"LastPlayed\" \"-1\" }"),
        Some((7, "N".to_string(), "S\\common\\d".to_string(), None))
    );
    assert_eq!(
        read("\"a\"\n{ \"appid\" \"7\" \"name\" \"N\" \"installdir\" \"d\" \"LastPlayed\" { } }"),
        Some((7, "N".to_string(), "S\\common\\d".to_string(), None))
    );
    assert_eq!(read("\"a\"\n{ \"name\" \"N\" \"installdir\" \"d\" }"), None);
    assert_eq!(read("\"a\"\n{ \"appid\" \"7\" \"installdir\" \"d\" }"), None);
    assert_eq!(read("\"a\"\n{ \"appid\" \"7\" \"name\" \"N\" }"), None);
    assert_eq!(read("\"a\"\n{ \"appid\" \"seven\" \"name\" \"N\" \"installdir\" \"d\" }"), None);
    assert_eq!(read("\"a\"\n{ \"appid\" { } \"name\" \"N\" \"installdir\" \"d\" }"), None);
    let mut games = Vec::new();
    let texts = vec![
        "\"a\"\n{ \"name\" \"only\" }".to_string(),
        manifest("3", "Three", "three"),
    ];
    assert_eq!(read_games(&mut games, &texts, "S"), Ok(()));
    assert_eq!(games.len(), 1);
    assert_eq!(games[0].0.id, 3);
}

#[test]
fn entering_keeps_place_and_order() {
    let mut folders = vec![folder("a", &[1]), folder("b", &[2])];
    enter_folder(&mut folders, folder("a", &[3]));
    enter_folder(&mut folders, folder("c", &[4]));
    assert_eq!(folders, vec![folder("a", &[3]), folder("b", &[2]), folder("c", &[4])]);
    let app = |id: i32, name: &str| AppID { id, name: name.to_string(), location: String::new(), last_played: None };
    let mut games = vec![(app(1, "one"), TreeValue::new_object()), (app(2, "two"), TreeValue::new_object())];
    enter_game(&mut games, app(1, "uno"), TreeValue::Text("m".to_string()));
    enter_game(&mut games, app(3, "three"), TreeValue::new_object());
    let seen: Vec<_> = games.iter().map(|g| (g.0.id, g.0.name.clone())).collect();
    assert_eq!(
        seen,
        vec![(1, "uno".to_string()), (2, "two".to_string()), (3, "three".to_string())]
    );
    assert_eq!(games[0].1, TreeValue::Text("m".to_string()));
}
