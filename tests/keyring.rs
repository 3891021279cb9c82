use sops_rekey::keyring::{decode_key, key_text, ImportError, KeyDecodeError, KeyImport, TrustStore};

fn store() -> TrustStore {
    TrustStore { home: "/tmp/gnupg".to_string() }
}

#[test]
fn decodes_base64_key_text() {
    assert_eq!(decode_key("aGVsbG8=").unwrap(), "hello");
}

#[test]
fn rejects_text_that_is_not_base64() {
    assert_eq!(decode_key("not base64!").unwrap_err(), KeyDecodeError::NotBase64);
}

#[test]
fn rejects_missing_padding() {
    assert_eq!(decode_key("aGVsbG8").unwrap_err(), KeyDecodeError::NotBase64);
}

#[test]
fn rejects_bytes_that_are_not_utf8() {
    // "//4=" is 0xff 0xfe
    assert_eq!(decode_key("//4=").unwrap_err(), KeyDecodeError::NotUtf8);
}

#[test]
fn key_text_takes_utf8_bytes() {
    assert_eq!(key_text(vec![0x6b, 0xc3, 0xa9]).unwrap(), "k\u{e9}");
    assert_eq!(key_text(vec![0xc3]).unwrap_err(), KeyDecodeError::NotUtf8);
}

#[test]
fn empty_key_decodes_to_empty_text() {
    assert_eq!(decode_key("").unwrap(), "");
}

#[test]
fn artifact_paths_are_numbered() {
    let s = store();
    assert_eq!(s.key_artifact_path(0), "/tmp/gnupg/key_0.asc");
    assert_eq!(s.key_artifact_path(12), "/tmp/gnupg/key_12.asc");
    assert_eq!(s.primary_artifact_path(), "/tmp/gnupg/private_key.asc");
}

#[test]
fn primary_that_does_not_decode_is_fatal() {
    match store().prepare_primary("***") {
        Err(ImportError::PrimaryEncoding(KeyDecodeError::NotBase64)) => {}
        other => panic!("unexpected: {:?}", other.err()),
    }
}

#[test]
fn primary_is_written_to_its_own_file() {
    let job = store().prepare_primary("c2VjcmV0").unwrap();
    assert_eq!(job.armored, "secret");
    assert_eq!(job.artifact, "/tmp/gnupg/private_key.asc");
}

#[test]
fn bad_key_is_skipped_and_later_keys_still_planned() {
    let keys = vec!["b25l".to_string(), "%%%".to_string(), "dGhyZWU=".to_string()];
    let plan = store().prepare_key_imports(&keys);
    assert_eq!(plan.len(), 3);
    match &plan[0] {
        KeyImport::Import(job) => {
            assert_eq!(job.armored, "one");
            assert_eq!(job.artifact, "/tmp/gnupg/key_0.asc");
        }
        KeyImport::Skip(_) => panic!("key 0 decodes"),
    }
    match &plan[1] {
        KeyImport::Skip(e) => assert_eq!(*e, KeyDecodeError::NotBase64),
        KeyImport::Import(_) => panic!("key 1 does not decode"),
    }
    match &plan[2] {
        KeyImport::Import(job) => {
            assert_eq!(job.armored, "three");
            assert_eq!(job.artifact, "/tmp/gnupg/key_2.asc");
        }
        KeyImport::Skip(_) => panic!("key 2 decodes"),
    }
}

#[test]
fn same_key_twice_is_planned_alike() {
    let keys = vec!["a2V5".to_string(), "a2V5".to_string()];
    let plan = store().prepare_key_imports(&keys);
    let jobs: Vec<(String, String)> = plan
        .iter()
        .map(|k| match k {
            KeyImport::Import(job) => (job.artifact.clone(), job.armored.clone()),
            KeyImport::Skip(e) => panic!("unexpected skip: {:?}", e),
        })
        .collect();
    assert_eq!(jobs[0].1, "key");
    assert_eq!(jobs[1].1, "key");
    assert_ne!(jobs[0].0, jobs[1].0);
}

#[test]
fn empty_key_list_plans_nothing() {
    assert!(store().prepare_key_imports(&vec![]).is_empty());
}
