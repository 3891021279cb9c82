use sops_rekey::keyring::{ImportError, KeyDecodeError, KeyImport, TrustStore};
use sops_rekey::roster::{Roster, RosterInput, User};
use sops_rekey::setup::{prepare_run, SetupError};

fn store() -> TrustStore {
    TrustStore { home: "/run/keys".to_string() }
}

#[test]
fn undecodable_primary_fails_before_the_roster_is_read() {
    let roster = RosterInput::Malformed("trailing characters".to_string());
    match prepare_run(&store(), "@@@", &roster, "") {
        Err(SetupError::Import(ImportError::PrimaryEncoding(KeyDecodeError::NotBase64))) => {}
        Err(_) => panic!("the primary credential fails first"),
        Ok(_) => panic!("must fail"),
    }
}

#[test]
fn malformed_roster_fails_after_a_good_primary() {
    let roster = RosterInput::Malformed("trailing characters".to_string());
    match prepare_run(&store(), "cHJpbWFyeQ==", &roster, "") {
        Err(SetupError::Collection(e)) => assert_eq!(e.detail, "trailing characters"),
        _ => panic!("a malformed roster is fatal"),
    }
}

#[test]
fn prepares_primary_and_every_key() {
    let roster = RosterInput::Parsed(Roster {
        users: vec![User {
            login: "alice".to_string(),
            gpg_keys_base64: vec!["YWxpY2U=".to_string(), "???".to_string()],
        }],
    });
    let prep = match prepare_run(&store(), "cHJpbWFyeQ==", &roster, "Zmx1eA==") {
        Ok(p) => p,
        Err(_) => panic!("setup must succeed"),
    };
    assert_eq!(prep.primary.armored, "primary");
    assert_eq!(prep.primary.artifact, "/run/keys/private_key.asc");
    assert_eq!(prep.keys.len(), 3);
    assert!(matches!(&prep.keys[0], KeyImport::Import(j) if j.armored == "alice" && j.artifact == "/run/keys/key_0.asc"));
    assert!(matches!(&prep.keys[1], KeyImport::Skip(KeyDecodeError::NotBase64)));
    assert!(matches!(&prep.keys[2], KeyImport::Import(j) if j.armored == "flux" && j.artifact == "/run/keys/key_2.asc"));
}
