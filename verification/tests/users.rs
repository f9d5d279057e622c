use event_assembly::error::{EventError, PairKind};
use event_assembly::user::{apply_user_pair, derive_user, user_from, IpAddress, User};

fn texts(items: &[&str]) -> Vec<String> {
    items.iter().map(|item| item.to_string()).collect()
}

#[test]
fn user_id_keeps_the_colons_of_its_value() {
    let user = derive_user(&texts(&["id:user:42"]), None).unwrap().unwrap();
    assert_eq!(user.id, Some("user:42".to_string()));
}

#[test]
fn default_user_is_the_one_of_the_system() {
    let user = derive_user(&Vec::new(), Some("alice".to_string())).unwrap().unwrap();
    assert_eq!(user.username, Some("alice".to_string()));
    assert_eq!(user.ip_address, Some(IpAddress::Unspecified));
    assert_eq!(user.id, None);
    assert_eq!(user.email, None);
    assert!(user.other.is_empty());
}

#[test]
fn no_user_where_the_system_reports_none() {
    assert!(derive_user(&Vec::new(), None).unwrap().is_none());
}

#[test]
fn given_user_has_a_defaulted_address() {
    let user = derive_user(&texts(&["id:7"]), Some("alice".to_string())).unwrap().unwrap();
    assert_eq!(user.id, Some("7".to_string()));
    assert_eq!(user.ip_address, Some(IpAddress::Unspecified));
    assert_eq!(user.username, None);
}

#[test]
fn user_fields_are_set_by_their_keys() {
    let user = derive_user(
        &texts(&["id:42", "email:a@b.c", "ip_address:127.0.0.1", "username:foo", "team:blue", "plan:free"]),
        None,
    )
    .unwrap()
    .unwrap();
    assert_eq!(user.id, Some("42".to_string()));
    assert_eq!(user.email, Some("a@b.c".to_string()));
    assert_eq!(user.ip_address, Some(IpAddress::Exact("127.0.0.1".to_string())));
    assert_eq!(user.username, Some("foo".to_string()));
    assert_eq!(user.other.len(), 2);
    assert_eq!(user.other.get("team"), Some(&"blue".to_string()));
    assert_eq!(user.other.get("plan"), Some(&"free".to_string()));
    assert_eq!(user.other.get("id"), None);
}

#[test]
fn later_user_pair_overwrites_earlier() {
    let user = derive_user(&texts(&["id:1", "team:a", "id:2", "team:b"]), None).unwrap().unwrap();
    assert_eq!(user.id, Some("2".to_string()));
    assert_eq!(user.other.get("team"), Some(&"b".to_string()));
    assert_eq!(user.other.len(), 1);
}

#[test]
fn address_is_read_by_the_protocol() {
    let v6 = derive_user(&texts(&["ip_address:0:0:0:0:0:0:0:1"]), None).unwrap().unwrap();
    assert_eq!(v6.ip_address, Some(IpAddress::Exact("::1".to_string())));
    let auto = derive_user(&texts(&["ip_address:{{auto}}"]), None).unwrap().unwrap();
    assert_eq!(auto.ip_address, Some(IpAddress::Unspecified));
    let zero = derive_user(&texts(&["ip_address:0.0.0.0"]), None).unwrap().unwrap();
    assert_eq!(zero.ip_address, Some(IpAddress::Exact("0.0.0.0".to_string())));
}

#[test]
fn bad_address_is_fatal() {
    assert_eq!(derive_user(&texts(&["ip_address:nowhere"]), None).err(), Some(EventError::InvalidIpAddress));
    assert_eq!(derive_user(&texts(&["ip_address:"]), None).err(), Some(EventError::InvalidIpAddress));
    assert_eq!(derive_user(&texts(&["ip_address:256.0.0.1"]), None).err(), Some(EventError::InvalidIpAddress));
    assert_eq!(
        derive_user(&texts(&["id:1", "ip_address:999", "nocolon"]), None).err(),
        Some(EventError::InvalidIpAddress)
    );
}

#[test]
fn user_pair_without_colon_is_fatal() {
    assert_eq!(
        derive_user(&texts(&["novalue"]), Some("alice".to_string())).err(),
        Some(EventError::MissingValue(PairKind::User))
    );
    assert_eq!(
        derive_user(&texts(&["id:1", "novalue", "ip_address:bad"]), None).err(),
        Some(EventError::MissingValue(PairKind::User))
    );
    assert_eq!(user_from(&texts(&["novalue"])).err(), Some(EventError::MissingValue(PairKind::User)));
}

#[test]
fn user_from_leaves_the_address_unset() {
    let user = user_from(&texts(&["id:7"])).unwrap();
    assert_eq!(user.ip_address, None);
    let nobody = user_from(&Vec::new()).unwrap();
    assert_eq!(nobody.id, None);
    assert_eq!(nobody.ip_address, None);
}

#[test]
fn one_pair_applied_by_hand() {
    let user = apply_user_pair(User::new(), "ip_address".to_string(), "10.0.0.1".to_string(), None);
    assert_eq!(user.err(), Some(EventError::InvalidIpAddress));
    let user = apply_user_pair(
        User::new(),
        "ip_address".to_string(),
        "10.0.0.1".to_string(),
        Some(IpAddress::Exact("10.0.0.1".to_string())),
    )
    .unwrap();
    assert_eq!(user.ip_address, Some(IpAddress::Exact("10.0.0.1".to_string())));
    let user = apply_user_pair(user, "email".to_string(), "x@y.z".to_string(), None).unwrap();
    assert_eq!(user.email, Some("x@y.z".to_string()));
    assert_eq!(user.ip_address, Some(IpAddress::Exact("10.0.0.1".to_string())));
    let user = apply_user_pair(user, "Id".to_string(), "9".to_string(), None).unwrap();
    assert_eq!(user.id, None);
    assert_eq!(user.other.get("Id"), Some(&"9".to_string()));
}
