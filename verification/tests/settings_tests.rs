use wait::settings::{
    difference, key_name, position, read_ids, read_listed, SavePlan, WaitSettings,
};

fn names(list: &[&str]) -> Vec<String> {
    list.iter().map(|s| s.to_string()).collect()
}

#[test]
fn new_settings_are_empty() {
    let s = WaitSettings::new();
    assert!(s.favorites.is_empty());
    assert!(s.hidden.is_empty());
    assert!(s.accounts.is_empty());
    let d = WaitSettings::default();
    assert!(d.favorites.is_empty() && d.hidden.is_empty() && d.accounts.is_empty());
}

#[test]
fn favorites_are_kept_once_and_in_order() {
    let mut s = WaitSettings::new();
    s.add_favorite(440);
    s.add_favorite(570);
    s.add_favorite(440);
    assert_eq!(s.favorites, vec![440, 570]);
    s.remove_favorite(440);
    assert_eq!(s.favorites, vec![570]);
    s.remove_favorite(440);
    assert_eq!(s.favorites, vec![570]);
    assert!(s.hidden.is_empty());
}

#[test]
fn hidden_titles_are_kept_once_and_in_order() {
    let mut s = WaitSettings::new();
    s.add_hidden(10);
    s.add_hidden(20);
    s.add_hidden(30);
    s.add_hidden(20);
    assert_eq!(s.hidden, vec![10, 20, 30]);
    s.remove_hidden(20);
    assert_eq!(s.hidden, vec![10, 30]);
    s.remove_hidden(99);
    assert_eq!(s.hidden, vec![10, 30]);
    assert!(s.favorites.is_empty());
}

#[test]
fn removing_takes_the_first_occurrence() {
    let mut s = WaitSettings::new();
    s.favorites = vec![1, 2, 1, 3];
    s.remove_favorite(1);
    assert_eq!(s.favorites, vec![2, 1, 3]);
}

#[test]
fn a_later_account_replaces_an_earlier_one() {
    let mut s = WaitSettings::new();
    s.add_account(440, 76561198000000001);
    s.add_account(570, 76561198000000002);
    s.add_account(440, 76561198000000003);
    assert_eq!(s.accounts.len(), 2);
    assert_eq!(s.accounts.get(&440), Some(&76561198000000003));
    assert_eq!(s.accounts.get(&570), Some(&76561198000000002));
}

#[test]
fn positions_and_differences() {
    assert_eq!(position(&vec![5, 6, 7, 6], 6), 1);
    assert_eq!(position(&vec![5, 6, 7], 9), 3);
    assert_eq!(position(&vec![], 9), 0);
    assert_eq!(difference(&vec![1, 2, 3, 4], &vec![2, 4, 6]), vec![1, 3]);
    assert_eq!(difference(&vec![], &vec![2]), Vec::<i32>::new());
    assert_eq!(read_ids(&names(&["440", "x", "570", "0440", "-3", ""])), vec![440, 570, -3]);
}

#[test]
fn settings_are_loaded_from_stored_names() {
    let mut s = WaitSettings::new();
    s.add_favorite(1);
    s.add_account(1, 1);
    s.load(
        &names(&["440", "not a number", "570"]),
        &names(&["10"]),
        &vec![
            ("440".to_string(), 76561198000000001u64),
            ("bad".to_string(), 5),
            ("570".to_string(), u64::MAX),
            ("440".to_string(), 76561198000000009u64),
        ],
    );
    assert_eq!(s.favorites, vec![440, 570]);
    assert_eq!(s.hidden, vec![10]);
    assert_eq!(s.accounts.len(), 2);
    assert_eq!(s.accounts.get(&440), Some(&76561198000000009));
    assert_eq!(s.accounts.get(&570), Some(&-1));
}

#[test]
fn saving_deletes_what_is_gone_and_creates_what_is_new() {
    let mut s = WaitSettings::new();
    s.add_favorite(440);
    s.add_favorite(570);
    s.add_hidden(10);
    let plan = s.save(&names(&["570", "730", "junk"]), &names(&["10", "20"]));
    assert_eq!(
        plan,
        SavePlan {
            delete_favorites: vec![730],
            create_favorites: vec![440],
            delete_hidden: vec![20],
            create_hidden: vec![],
            accounts: vec![],
        }
    );
    let nothing = s.save(&names(&["440", "570"]), &names(&["10"]));
    assert_eq!(
        nothing,
        SavePlan {
            delete_favorites: vec![],
            create_favorites: vec![],
            delete_hidden: vec![],
            create_hidden: vec![],
            accounts: vec![],
        }
    );
}

#[test]
fn a_title_starts_with_the_selected_account_until_one_is_chosen() {
    let mut s = WaitSettings::new();
    assert_eq!(s.account_for(440, 11), 11);
    assert_eq!(s.accounts.get(&440), Some(&11));
    assert_eq!(s.account_for(440, 22), 11);
    s.add_account(440, 33);
    assert_eq!(s.account_for(440, 22), 33);
    assert_eq!(s.account_for(570, 22), 22);
    assert_eq!(s.accounts.len(), 2);
}

#[test]
fn every_stored_name_that_writes_an_id_is_loaded() {
    let mut s = WaitSettings::new();
    s.add_favorite(9);
    s.add_hidden(9);
    s.load(&names(&["5", "05", "x", "7", "+5"]), &names(&["3", "3"]), &vec![]);
    assert_eq!(s.favorites, vec![5, 5, 7, 5]);
    assert_eq!(s.hidden, vec![3, 3]);
    assert!(s.accounts.is_empty());
    assert_eq!(read_listed(&names(&["5", "05"])), vec![5, 5]);
    assert_eq!(read_ids(&names(&["5", "05"])), vec![5]);
    assert_eq!(read_listed(&names(&[])), Vec::<i32>::new());
}

#[test]
fn chosen_accounts_are_stored_under_the_title_in_decimal() {
    let mut s = WaitSettings::new();
    assert_eq!(s.account_values(), vec![]);
    s.add_account(440, 76561198000000001);
    assert_eq!(s.account_values(), vec![("440".to_string(), 76561198000000001u64)]);
    assert_eq!(s.save(&vec![], &vec![]).accounts, vec![("440".to_string(), 76561198000000001u64)]);
    s.add_account(-7, -1);
    s.add_account(570, i64::MIN);
    let mut values = s.account_values();
    values.sort();
    assert_eq!(
        values,
        vec![
            ("-7".to_string(), u64::MAX),
            ("440".to_string(), 76561198000000001u64),
            ("570".to_string(), 1u64 << 63),
        ]
    );
    let mut planned = s.save(&names(&["1"]), &names(&[])).accounts;
    planned.sort();
    assert_eq!(planned, values);
    assert_eq!(key_name(440), "440");
    assert_eq!(key_name(-2147483648), "-2147483648");
    assert_eq!(key_name(0), "0");
}

#[test]
fn stored_settings_are_loaded_back() {
    let mut s = WaitSettings::new();
    s.add_favorite(440);
    s.add_favorite(-3);
    s.add_hidden(10);
    s.add_account(440, 76561198000000001);
    s.add_account(570, -5);
    let plan = s.save(&names(&["730"]), &names(&[]));
    assert_eq!(plan.delete_favorites, vec![730]);
    let stored_favorites: Vec<String> = plan.create_favorites.iter().map(|id| key_name(*id)).collect();
    let stored_hidden: Vec<String> = plan.create_hidden.iter().map(|id| key_name(*id)).collect();
    let mut loaded = WaitSettings::new();
    loaded.load(&stored_favorites, &stored_hidden, &plan.accounts);
    assert_eq!(loaded.favorites, s.favorites);
    assert_eq!(loaded.hidden, s.hidden);
    assert_eq!(loaded.accounts, s.accounts);
}
