use sops_rekey::roster::{collect_public_keys, Roster, RosterInput, User};

fn user(login: &str, keys: &[&str]) -> User {
    User {
        login: login.to_string(),
        gpg_keys_base64: keys.iter().map(|k| k.to_string()).collect(),
    }
}

fn collected(input: &RosterInput, shared: &str) -> Vec<String> {
    match collect_public_keys(input, shared) {
        Ok(keys) => keys,
        Err(e) => panic!("unexpected collection error: {}", e.detail),
    }
}

#[test]
fn keys_come_user_by_user_then_shared() {
    let input = RosterInput::Parsed(Roster {
        users: vec![user("alice", &["a1", "a2"]), user("bob", &[]), user("carol", &["c1"])],
    });
    assert_eq!(collected(&input, "flux"), vec!["a1", "a2", "c1", "flux"]);
}

#[test]
fn count_is_sum_of_keys_without_shared_key() {
    let input = RosterInput::Parsed(Roster {
        users: vec![user("alice", &["a1", "a2", "a3"]), user("bob", &["b1", "b2"])],
    });
    assert_eq!(collected(&input, "").len(), 5);
}

#[test]
fn absent_roster_and_empty_shared_key_give_nothing() {
    assert!(collected(&RosterInput::Absent, "").is_empty());
}

#[test]
fn roster_without_users_and_empty_shared_key_give_nothing() {
    let input = RosterInput::Parsed(Roster { users: vec![] });
    assert!(collected(&input, "").is_empty());
}

#[test]
fn shared_key_alone_is_collected() {
    assert_eq!(collected(&RosterInput::Absent, "flux"), vec!["flux"]);
}

#[test]
fn duplicate_keys_are_kept() {
    let input = RosterInput::Parsed(Roster {
        users: vec![user("alice", &["k"]), user("bob", &["k"])],
    });
    assert_eq!(collected(&input, "k"), vec!["k", "k", "k"]);
}

#[test]
fn malformed_roster_is_a_collection_error() {
    let input = RosterInput::Malformed("expected value at line 1 column 1".to_string());
    match collect_public_keys(&input, "flux") {
        Ok(_) => panic!("a malformed roster must fail"),
        Err(e) => assert_eq!(e.detail, "expected value at line 1 column 1"),
    }
}
