use event_assembly::error::{EventError, PairKind};
use event_assembly::pair::{read_pair, split_pair};
use event_assembly::text::{chars_of, find_first, same_text, split_once};

fn owned(key: &str, value: &str) -> (String, String) {
    (key.to_string(), value.to_string())
}

#[test]
fn pair_splits_at_the_first_colon_only() {
    assert_eq!(split_pair("id:user:42"), Some(owned("id", "user:42")));
    assert_eq!(split_pair("a:1"), Some(owned("a", "1")));
    assert_eq!(split_pair("url:http://example.com:80/"), Some(owned("url", "http://example.com:80/")));
}

#[test]
fn pair_may_have_an_empty_key_or_value() {
    assert_eq!(split_pair(":value"), Some(owned("", "value")));
    assert_eq!(split_pair("key:"), Some(owned("key", "")));
    assert_eq!(split_pair(":"), Some(owned("", "")));
    assert_eq!(split_pair("::"), Some(owned("", ":")));
}

#[test]
fn pair_without_colon_does_not_split() {
    assert_eq!(split_pair("novalue"), None);
    assert_eq!(split_pair(""), None);
}

#[test]
fn pair_keeps_characters_beyond_ascii() {
    assert_eq!(split_pair("città:Zürich: ja"), Some(owned("città", "Zürich: ja")));
}

#[test]
fn missing_colon_is_reported_with_the_kind() {
    assert_eq!(read_pair(PairKind::Tag, "novalue"), Err(EventError::MissingValue(PairKind::Tag)));
    assert_eq!(read_pair(PairKind::Extra, "novalue"), Err(EventError::MissingValue(PairKind::Extra)));
    assert_eq!(read_pair(PairKind::User, "novalue"), Err(EventError::MissingValue(PairKind::User)));
    assert_eq!(read_pair(PairKind::User, "id:7"), Ok(owned("id", "7")));
}

#[test]
fn error_messages_name_what_is_wrong() {
    assert_eq!(EventError::MissingValue(PairKind::Tag).message(), "missing tag value");
    assert_eq!(EventError::MissingValue(PairKind::Extra).message(), "missing extra value");
    assert_eq!(EventError::MissingValue(PairKind::User).message(), "missing user value");
    assert_eq!(EventError::InvalidTimestamp.message(), "invalid timestamp");
    assert_eq!(EventError::InvalidIpAddress.message(), "invalid IP address");
}

#[test]
fn split_once_cuts_at_the_leftmost_pattern() {
    assert_eq!(split_once("a: b: c", ": "), Some(owned("a", "b: c")));
    assert_eq!(split_once("a:b: c", ": "), Some(owned("a:b", "c")));
    assert_eq!(split_once("abc", ": "), None);
    assert_eq!(split_once("abc:", ": "), None);
    assert_eq!(split_once("", ": "), None);
    assert_eq!(split_once("abc", ""), Some(owned("", "abc")));
    assert_eq!(split_once("aab", "ab"), Some(owned("a", "")));
}

#[test]
fn find_first_gives_the_leftmost_position() {
    let text: Vec<char> = "hello world".chars().collect();
    let world: Vec<char> = "world".chars().collect();
    let o: Vec<char> = "o".chars().collect();
    let none: Vec<char> = "xyz".chars().collect();
    let long: Vec<char> = "hello world, hello".chars().collect();
    assert_eq!(find_first(&text, &world), Some(6));
    assert_eq!(find_first(&text, &o), Some(4));
    assert_eq!(find_first(&text, &none), None);
    assert_eq!(find_first(&text, &long), None);
    assert_eq!(find_first(&text, &Vec::new()), Some(0));
    assert_eq!(find_first(&Vec::new(), &Vec::new()), Some(0));
    assert_eq!(find_first(&Vec::new(), &o), None);
}

#[test]
fn chars_and_sameness() {
    assert_eq!(chars_of("añb"), vec!['a', 'ñ', 'b']);
    assert_eq!(chars_of(""), Vec::<char>::new());
    assert!(same_text("abc", "abc"));
    assert!(!same_text("abc", "abd"));
    assert!(!same_text("abc", "ab"));
}
