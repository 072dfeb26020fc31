use wait::manifest::{parse_manifest, parse_object, parse_string, skip_whitespace, TreeValue};

fn text(s: &str) -> TreeValue {
    TreeValue::Text(s.to_string())
}

fn object(entries: Vec<(&str, TreeValue)>) -> TreeValue {
    TreeValue::Object(entries.into_iter().map(|(k, v)| (k.to_string(), v)).collect())
}

#[test]
fn header_and_empty_object_give_an_empty_object() {
    assert_eq!(parse_manifest("\"root\"\n{}"), Ok(object(vec![])));
    assert_eq!(parse_manifest("\"root\"\n{\n}\n"), Ok(object(vec![])));
}

#[test]
fn missing_opening_brace_is_refused() {
    assert!(parse_manifest("\"root\"\n\"key\" \"value\"").is_err());
    assert!(parse_manifest("").is_err());
    assert!(parse_manifest("\"root\" {}").is_err());
}

#[test]
fn entries_and_nested_objects_are_read() {
    let doc = "\"AppState\"\n{\n\t\"appid\"\t\t\"440\"\n\t\"name\"\t\t\"Team Fortress 2\"\n\t\"UserConfig\"\n\t{\n\t\t\"language\"\t\t\"english\"\n\t}\n\t\"LastPlayed\"\t\t\"1700000000\"\n}\n";
    let expected = object(vec![
        ("appid", text("440")),
        ("name", text("Team Fortress 2")),
        ("UserConfig", object(vec![("language", text("english"))])),
        ("LastPlayed", text("1700000000")),
    ]);
    assert_eq!(parse_manifest(doc), Ok(expected));
}

#[test]
fn empty_nested_object_does_not_end_its_parent() {
    let doc = "\"x\"\n{ \"a\" {} \"b\" { } \"c\" \"d\" }";
    let expected = object(vec![("a", object(vec![])), ("b", object(vec![])), ("c", text("d"))]);
    assert_eq!(parse_manifest(doc), Ok(expected));
}

#[test]
fn repeated_key_keeps_its_place_and_takes_the_last_value() {
    let doc = "\"x\"\n{ \"a\" \"1\" \"b\" \"2\" \"a\" \"3\" }";
    let expected = object(vec![("a", text("3")), ("b", text("2"))]);
    assert_eq!(parse_manifest(doc), Ok(expected));
}

#[test]
fn keys_are_case_sensitive() {
    let doc = "\"x\"\n{ \"Steam\" \"1\" \"steam\" \"2\" }";
    let tree = parse_manifest(doc).unwrap();
    assert_eq!(tree.get("Steam"), Some(&text("1")));
    assert_eq!(tree.get("steam"), Some(&text("2")));
    assert_eq!(tree.get("STEAM"), None);
}

#[test]
fn unbalanced_input_gives_what_was_read() {
    let doc = "\"x\"\n{ \"a\" \"1\" \"b\" { \"c\" \"2\"";
    let expected = object(vec![("a", text("1")), ("b", object(vec![("c", text("2"))]))]);
    assert_eq!(parse_manifest(doc), Ok(expected));
    let unclosed = "\"x\"\n{ \"a\" \"1\" \"b\" \"never closed";
    let expected = object(vec![("a", text("1")), ("b", text("never closed"))]);
    assert_eq!(parse_manifest(unclosed), Ok(expected));
}

#[test]
fn key_without_value_is_dropped() {
    let doc = "\"x\"\n{ \"a\" \"1\" \"lonely\" }";
    assert_eq!(parse_manifest(doc), Ok(object(vec![("a", text("1"))])));
}

#[test]
fn parsing_twice_gives_equal_trees() {
    let doc = "\"x\"\n{ \"a\" \"1\" \"b\" { \"c\" \"2\" } }";
    assert_eq!(parse_manifest(doc), parse_manifest(doc));
}

#[test]
fn scanning_primitives() {
    let chars: Vec<char> = " \t\n\"key\"  x".chars().collect();
    assert_eq!(skip_whitespace(&chars, 0), 3);
    assert_eq!(skip_whitespace(&chars, 3), 3);
    assert_eq!(skip_whitespace(&chars, 100), 100);
    assert_eq!(parse_string(&chars, 3), ("key".to_string(), 8));
    assert_eq!(parse_string(&chars, 10), ("".to_string(), 11));
    assert_eq!(parse_string(&chars, 11), ("".to_string(), 11));
    let body: Vec<char> = "\"k\" \"v\" } rest".chars().collect();
    assert_eq!(parse_object(&body, 0), (object(vec![("k", text("v"))]), 9));
}

#[test]
fn what_is_written_is_read_back() {
    let tree = object(vec![
        ("a b", text("1 { } 2")),
        ("", object(vec![("x", text("")), ("y", object(vec![]))])),
        ("}", text("{")),
    ]);
    let tight = "header\n{\"a b\"\"1 { } 2\"\"\"{\"x\"\"\"\"y\"{}}\"}\"\"{\"}";
    assert_eq!(parse_manifest(tight), Ok(tree.clone()));
    let spaced = "header\n \t{\n\t\"a b\"\n\t\"1 { } 2\"\n\t\"\"\n\t{\n\t\"x\"\n\t\"\"\n\t\"y\"\n\t{\n\t}\n\t}\n\t\"}\"\n\t\"{\"\n\t}";
    assert_eq!(parse_manifest(spaced), Ok(tree));
}
