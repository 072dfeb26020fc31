use std::collections::HashSet;
use wait::data::SteamAccount;
use wait::error::LoginError;
use wait::steam::SteamModel;
use wait::pattern::is_numeric_key;

#[test]
fn numeric_keys_are_runs_of_ascii_digits() {
    assert!(is_numeric_key("0"));
    assert!(is_numeric_key("1"));
    assert!(is_numeric_key("0123456789"));
    assert!(is_numeric_key("99999999999999999999999999"));
    assert!(!is_numeric_key(""));
    assert!(!is_numeric_key("contentstatsid"));
    assert!(!is_numeric_key("12a"));
    assert!(!is_numeric_key("a12"));
    assert!(!is_numeric_key(" 1"));
    assert!(!is_numeric_key("1 "));
    assert!(!is_numeric_key("1\n"));
    assert!(!is_numeric_key("\n1"));
    assert!(!is_numeric_key("-1"));
    assert!(!is_numeric_key("+1"));
    assert!(!is_numeric_key("１２"));
    assert!(!is_numeric_key("٣"));
    assert!(!is_numeric_key("1.5"));
}

fn written(name: &str) -> Result<Vec<u16>, LoginError> {
    let account = SteamAccount { name: name.to_string(), id: None, games: HashSet::new() };
    SteamModel::default()
        .set_login_account(&account, "someone else")
        .map(|update| update.auto_login_user)
}

#[test]
fn the_login_name_is_written_in_utf16_without_terminator() {
    assert_eq!(written("alice"), Ok(vec![97, 108, 105, 99, 101]));
    assert_eq!(written(""), Ok(vec![]));
    assert_eq!(written("é"), Ok(vec![0xE9]));
    assert_eq!(written("\u{FFFF}"), Ok(vec![0xFFFF]));
    assert_eq!(written("\u{10000}"), Ok(vec![0xD800, 0xDC00]));
    assert_eq!(written("😀"), Ok(vec![0xD83D, 0xDE00]));
    assert_eq!(written("\u{10FFFF}"), Ok(vec![0xDBFF, 0xDFFF]));
    let mixed = "a😀b";
    assert_eq!(written(mixed), Ok(mixed.encode_utf16().collect::<Vec<u16>>()));
}

#[test]
fn a_login_name_with_a_nul_is_refused() {
    let refused = Err(LoginError::Other("Account name holds a nul character".to_string()));
    assert_eq!(written("\0"), refused);
    assert_eq!(written("ali\0ce"), refused);
    assert_eq!(written("alice\0"), refused);
}
