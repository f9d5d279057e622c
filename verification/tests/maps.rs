use event_assembly::dict::Dict;
use event_assembly::error::{EventError, PairKind};
use event_assembly::meta::{derive_extra, derive_tags, environ_object, ExtraValue};

fn texts(items: &[&str]) -> Vec<String> {
    items.iter().map(|item| item.to_string()).collect()
}

fn variables(items: &[(&str, &str)]) -> Vec<(String, String)> {
    items.iter().map(|(name, value)| (name.to_string(), value.to_string())).collect()
}

fn text_at(extra: &Dict<ExtraValue>, key: &str) -> Option<String> {
    match extra.get(key) {
        Some(ExtraValue::Text(text)) => Some(text.clone()),
        _ => None,
    }
}

#[test]
fn dict_insert_get_and_replace() {
    let mut dict: Dict<String> = Dict::new();
    assert!(dict.is_empty());
    assert_eq!(dict.len(), 0);
    assert_eq!(dict.get("a"), None);
    dict.insert("a".to_string(), "1".to_string());
    dict.insert("b".to_string(), "2".to_string());
    assert_eq!(dict.len(), 2);
    assert!(dict.contains_key("a"));
    assert!(!dict.contains_key("c"));
    dict.insert("a".to_string(), "3".to_string());
    assert_eq!(dict.len(), 2);
    assert_eq!(dict.get("a"), Some(&"3".to_string()));
    assert_eq!(dict.get("b"), Some(&"2".to_string()));
    assert!(!dict.is_empty());
    assert_eq!(
        dict.into_entries(),
        vec![("a".to_string(), "3".to_string()), ("b".to_string(), "2".to_string())]
    );
}

#[test]
fn dict_keys_are_case_sensitive() {
    let mut dict: Dict<String> = Dict::new();
    dict.insert("Key".to_string(), "1".to_string());
    dict.insert("key".to_string(), "2".to_string());
    dict.insert("".to_string(), "3".to_string());
    assert_eq!(dict.len(), 3);
    assert_eq!(dict.get("Key"), Some(&"1".to_string()));
    assert_eq!(dict.get(""), Some(&"3".to_string()));
}

#[test]
fn last_tag_wins() {
    let tags = derive_tags(&texts(&["a:1", "a:2"])).unwrap();
    assert_eq!(tags.len(), 1);
    assert_eq!(tags.get("a"), Some(&"2".to_string()));
}

#[test]
fn tags_are_merged_in_order() {
    let tags = derive_tags(&texts(&["a:1", "b:x:y", "a:2", "c:", "b:z"])).unwrap();
    assert_eq!(tags.len(), 3);
    assert_eq!(tags.get("a"), Some(&"2".to_string()));
    assert_eq!(tags.get("b"), Some(&"z".to_string()));
    assert_eq!(tags.get("c"), Some(&"".to_string()));
    assert!(derive_tags(&Vec::new()).unwrap().is_empty());
}

#[test]
fn tag_without_colon_is_fatal() {
    assert_eq!(derive_tags(&texts(&["novalue"])).err(), Some(EventError::MissingValue(PairKind::Tag)));
    assert_eq!(
        derive_tags(&texts(&["a:1", "novalue", "b:2"])).err(),
        Some(EventError::MissingValue(PairKind::Tag))
    );
}

#[test]
fn environ_is_injected_unless_suppressed() {
    let environ = variables(&[("HOME", "/root"), ("LANG", "C")]);
    let extra = derive_extra(&texts(&["k:v"]), false, &environ).unwrap();
    assert_eq!(extra.len(), 2);
    assert_eq!(text_at(&extra, "k"), Some("v".to_string()));
    match extra.get("environ") {
        Some(ExtraValue::Object(fields)) => {
            assert_eq!(fields.len(), 2);
            assert_eq!(fields.get("HOME"), Some(&"/root".to_string()));
            assert_eq!(fields.get("LANG"), Some(&"C".to_string()));
        }
        other => panic!("no environment object: {:?}", other),
    }
}

#[test]
fn environ_is_absent_when_suppressed() {
    let environ = variables(&[("HOME", "/root")]);
    let extra = derive_extra(&texts(&["k:v"]), true, &environ).unwrap();
    assert_eq!(extra.len(), 1);
    assert!(!extra.contains_key("environ"));
    assert!(derive_extra(&Vec::new(), true, &environ).unwrap().is_empty());
}

#[test]
fn given_environ_overwrites_the_injected_one() {
    let environ = variables(&[("HOME", "/root")]);
    let extra = derive_extra(&texts(&["environ:mine"]), false, &environ).unwrap();
    assert_eq!(extra.len(), 1);
    assert_eq!(text_at(&extra, "environ"), Some("mine".to_string()));
    let extra = derive_extra(&texts(&["environ:mine"]), true, &environ).unwrap();
    assert_eq!(text_at(&extra, "environ"), Some("mine".to_string()));
}

#[test]
fn empty_environment_is_an_empty_object() {
    let extra = derive_extra(&Vec::new(), false, &Vec::new()).unwrap();
    match extra.get("environ") {
        Some(ExtraValue::Object(fields)) => assert!(fields.is_empty()),
        other => panic!("no environment object: {:?}", other),
    }
}

#[test]
fn later_variable_of_the_same_name_stays() {
    match environ_object(&variables(&[("A", "1"), ("B", "2"), ("A", "3")])) {
        ExtraValue::Object(fields) => {
            assert_eq!(fields.len(), 2);
            assert_eq!(fields.get("A"), Some(&"3".to_string()));
        }
        other => panic!("no object: {:?}", other),
    }
}

#[test]
fn extra_without_colon_is_fatal() {
    assert_eq!(
        derive_extra(&texts(&["a:1", "novalue"]), false, &Vec::new()).err(),
        Some(EventError::MissingValue(PairKind::Extra))
    );
}

#[test]
fn last_extra_wins() {
    let extra = derive_extra(&texts(&["a:1", "a:2:3"]), true, &Vec::new()).unwrap();
    assert_eq!(extra.len(), 1);
    assert_eq!(text_at(&extra, "a"), Some("2:3".to_string()));
}
