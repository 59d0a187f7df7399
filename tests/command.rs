use async_chat::command::{get_next_token, parse_command, trim_start};
use async_chat::protocol::Request;

#[test]
fn next_token_splits_first_word() {
    assert_eq!(get_next_token("  join  g "), Some(("join", "  g ")));
    assert_eq!(get_next_token("post"), Some(("post", "")));
    assert_eq!(get_next_token("a\tb"), Some(("a", "\tb")));
    assert_eq!(get_next_token(""), None);
    assert_eq!(get_next_token(" \t\n "), None);
}

#[test]
fn unicode_white_space_separates_words() {
    assert_eq!(get_next_token("\u{3000}ab\u{2003}cd"), Some(("ab", "\u{2003}cd")));
    assert_eq!(trim_start("\u{a0}\u{85}x y"), "x y");
    assert_eq!(trim_start("xy "), "xy ");
    assert_eq!(trim_start("   "), "");
}

#[test]
fn parses_join() {
    match parse_command("join rust") {
        Some(Request::Join { group }) => assert_eq!(group, "rust"),
        _ => panic!("expected a join"),
    }
    match parse_command("  join   g   ") {
        Some(Request::Join { group }) => assert_eq!(group, "g"),
        _ => panic!("expected a join"),
    }
}

#[test]
fn join_takes_one_group_only() {
    assert!(parse_command("join g h").is_none());
    assert!(parse_command("join").is_none());
    assert!(parse_command("join   ").is_none());
}

#[test]
fn parses_post_with_rest_of_line() {
    match parse_command("post g  hello  world ") {
        Some(Request::Post { group, message }) => {
            assert_eq!(group, "g");
            assert_eq!(message, "hello  world ");
        }
        _ => panic!("expected a post"),
    }
    match parse_command("post g") {
        Some(Request::Post { group, message }) => {
            assert_eq!(group, "g");
            assert_eq!(message, "");
        }
        _ => panic!("expected a post"),
    }
    assert!(parse_command("post").is_none());
}

#[test]
fn rejects_unknown_commands() {
    assert!(parse_command("leave g").is_none());
    assert!(parse_command("Join g").is_none());
    assert!(parse_command("").is_none());
    assert!(parse_command("postg x").is_none());
}
