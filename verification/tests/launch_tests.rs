use std::collections::HashSet;
use wait::data::{SteamAccount, SteamID, Thumbnail};
use wait::error::LoginError;
use wait::launch::{ArtProbe, Launch, LoginUpdate, SHUTDOWN_POLLS};
use wait::restart::{Action, Event, Phase, Restart};
use wait::steam::SteamModel;

fn account(name: &str) -> SteamAccount {
    SteamAccount { name: name.to_string(), id: Some(SteamID::from(76561198000000001)), games: HashSet::new() }
}

fn model() -> SteamModel {
    let mut model = SteamModel::new("C:\\Steam".to_string());
    model.user_cache = vec![account("alice"), account("bob"), account("alice")];
    model.user_cache[2].id = None;
    model
}

fn strings(list: &[&str]) -> Vec<String> {
    list.iter().map(|s| s.to_string()).collect()
}

fn wide(name: &str) -> Vec<u16> {
    name.encode_utf16().collect()
}

fn probe(portrait_jpg: bool, portrait_png: bool, landscape_jpg: bool, landscape_png: bool) -> ArtProbe {
    ArtProbe { portrait_jpg, portrait_png, landscape_jpg, landscape_png }
}

#[test]
fn no_art_file_means_no_art() {
    let art = model().game_thumbnail(&440, &probe(false, false, false, false));
    assert_eq!(art, Thumbnail { portrait: None, landscape: None });
    assert_eq!(art, Thumbnail::default());
}

#[test]
fn the_first_extension_that_is_there_is_taken() {
    let m = model();
    let dir = "C:\\Steam\\appcache\\librarycache\\";
    assert_eq!(
        m.thumbnail_candidates(440),
        [
            format!("{}440_library_600x900.jpg", dir),
            format!("{}440_library_600x900.png", dir),
            format!("{}440_header.jpg", dir),
            format!("{}440_header.png", dir),
        ]
    );
    assert_eq!(
        m.game_thumbnail(&440, &probe(true, true, true, true)),
        Thumbnail {
            portrait: Some(format!("{}440_library_600x900.jpg", dir)),
            landscape: Some(format!("{}440_header.jpg", dir)),
        }
    );
    assert_eq!(
        m.game_thumbnail(&440, &probe(false, true, false, true)),
        Thumbnail {
            portrait: Some(format!("{}440_library_600x900.png", dir)),
            landscape: Some(format!("{}440_header.png", dir)),
        }
    );
    assert_eq!(
        m.game_thumbnail(&440, &probe(true, true, false, false)),
        Thumbnail { portrait: Some(format!("{}440_library_600x900.jpg", dir)), landscape: None }
    );
    assert_eq!(
        m.game_thumbnail(&-5, &probe(false, false, false, true)),
        Thumbnail { portrait: None, landscape: Some(format!("{}-5_header.png", dir)) }
    );
    assert_eq!(m.art_path(7, "_header.jpg"), format!("{}7_header.jpg", dir));
}

#[test]
fn the_current_user_is_the_first_account_of_that_name() {
    let m = model();
    assert_eq!(m.get_current_user("bob"), Ok(account("bob")));
    assert_eq!(m.get_current_user("alice"), Ok(account("alice")));
    assert_eq!(
        m.get_current_user("carol"),
        Err(LoginError::Other("Failed to find user".to_string()))
    );
    assert_eq!(
        m.get_current_user("Alice"),
        Err(LoginError::Other("Failed to find user".to_string()))
    );
    assert_eq!(
        SteamModel::default().get_current_user(""),
        Err(LoginError::Other("Failed to find user".to_string()))
    );
}

#[test]
fn setting_the_login_account_twice_reports_already_logged_in() {
    let m = model();
    let alice = account("alice");
    let mut register = "bob".to_string();
    let first = m.set_login_account(&alice, &register);
    assert_eq!(
        first,
        Ok(LoginUpdate { auto_login_user: wide("alice"), remember_password: 1 })
    );
    register = String::from_utf16(&first.unwrap().auto_login_user).unwrap();
    assert_eq!(register, "alice");
    assert_eq!(m.set_login_account(&alice, &register), Err(LoginError::AlreadyLoggedIn));

    let launch = m.launch_game(&alice, &440, false, &register);
    assert_eq!(
        launch,
        Ok(Launch::Spawn {
            program: "C:\\Steam\\steam.exe".to_string(),
            args: strings(&["-applaunch", "440"]),
            exit_after: false,
        })
    );
}

#[test]
fn a_name_with_a_nul_cannot_be_written() {
    let m = model();
    let odd = account("ali\0ce");
    assert!(matches!(m.set_login_account(&odd, "bob"), Err(LoginError::Other(_))));
    assert!(matches!(m.login(&odd, false, "bob"), Err(LoginError::Other(_))));
    assert!(matches!(m.launch_game(&odd, &1, true, "bob"), Err(LoginError::Other(_))));
    assert_eq!(m.set_login_account(&odd, "ali\0ce"), Err(LoginError::AlreadyLoggedIn));
}

#[test]
fn login_restarts_the_client_unless_logged_in() {
    let m = model();
    let alice = account("alice");
    assert_eq!(m.login(&alice, true, "alice"), Ok(Launch::Nothing));
    assert_eq!(
        m.login(&alice, true, "bob"),
        Ok(Launch::Restart {
            update: LoginUpdate { auto_login_user: wide("alice"), remember_password: 1 },
            restart: Restart {
                program: "C:\\Steam\\steam.exe".to_string(),
                args: vec![],
                exit_after: true,
                polls_left: SHUTDOWN_POLLS,
                phase: Phase::Probing,
            },
        })
    );
    assert_eq!(
        m.login(&account("zoë😀"), false, ""),
        Ok(Launch::Restart {
            update: LoginUpdate { auto_login_user: wide("zoë😀"), remember_password: 1 },
            restart: m.restart(None, false),
        })
    );
}

#[test]
fn launching_under_another_account_restarts_with_the_launch_arguments() {
    let m = model();
    let launch = m.launch_game(&account("alice"), &440, true, "bob").unwrap();
    let mut restart = match launch {
        Launch::Restart { update, restart } => {
            assert_eq!(update, LoginUpdate { auto_login_user: wide("alice"), remember_password: 1 });
            restart
        }
        other => panic!("unexpected {:?}", other),
    };
    assert_eq!(restart, m.restart(Some(strings(&["-applaunch", "440"])), true));
    restart.advance(Event::Running(false));
    assert_eq!(
        restart.next_action(),
        Action::Start {
            program: "C:\\Steam\\steam.exe".to_string(),
            args: strings(&["-applaunch", "440"]),
        }
    );
    restart.advance(Event::Done);
    assert_eq!(restart.next_action(), Action::ExitHost);
    assert_eq!(
        m.launch_game(&account("alice"), &-3, true, "alice"),
        Ok(Launch::Spawn {
            program: "C:\\Steam\\steam.exe".to_string(),
            args: strings(&["-applaunch", "-3"]),
            exit_after: true,
        })
    );
}

#[test]
fn run_is_a_restart_that_keeps_the_host() {
    let m = model();
    assert_eq!(m.client_path(), "C:\\Steam\\steam.exe");
    assert_eq!(m.run(None), m.restart(None, false));
    assert_eq!(m.run(Some(strings(&["-silent"]))), m.restart(Some(strings(&["-silent"])), false));
    assert_eq!(m.run(None).polls_left, 600);
    assert_eq!(m.run(None).next_action(), Action::Probe { process: "steam.exe".to_string() });
}

#[test]
fn the_first_account_stands_in_for_an_unknown_current_user() {
    let m = model();
    assert_eq!(m.initial_account(Some("bob")), Some(account("bob")));
    assert_eq!(m.initial_account(Some("carol")), Some(account("alice")));
    assert_eq!(m.initial_account(None), Some(account("alice")));
    assert_eq!(SteamModel::default().initial_account(Some("alice")), None);
    assert_eq!(SteamModel::default().initial_account(None), None);
}
