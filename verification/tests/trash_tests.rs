use avify::trash::{escape_applescript, trash_script};

#[test]
fn escapes_quotes_and_backslashes() {
    assert_eq!(escape_applescript(r#"/a "b"\c"#), r#"/a \"b\"\\c"#);
    assert_eq!(escape_applescript("plain"), "plain");
}

#[test]
fn escape_round_trip_example() {
    let original = r#"x\"y"#;
    let escaped = escape_applescript(original);
    let mut back = String::new();
    let mut chars = escaped.chars();
    while let Some(c) = chars.next() {
        if c == '\\' {
            back.push(chars.next().unwrap());
        } else {
            assert_ne!(c, '"');
            back.push(c);
        }
    }
    assert_eq!(back, original);
}

#[test]
fn script_text() {
    assert_eq!(
        trash_script("/Users/me/a \"q\".jpg"),
        "tell application \"Finder\" to delete (POSIX file \"/Users/me/a \\\"q\\\".jpg\" as alias)"
    );
}
