use rooster::cipher::{decrypt, encrypt};
use rooster::container::{parse, serialize};
use rooster::entry::PasswordEntry;
use rooster::error::PasswordError;
use rooster::kdf::{derive_keys, ScryptParams};
use rooster::secure::SecureBuffer;
use rooster::store::{write_legacy, PasswordStore};

fn pw(s: &str) -> SecureBuffer {
    SecureBuffer::from_slice(s.as_bytes())
}

fn fields(e: &PasswordEntry) -> (Vec<u8>, Vec<u8>, Vec<u8>) {
    (e.name.clone(), e.username.clone(), e.password.as_slice().to_vec())
}

fn triple(a: &str, b: &str, c: &str) -> (Vec<u8>, Vec<u8>, Vec<u8>) {
    (a.as_bytes().to_vec(), b.as_bytes().to_vec(), c.as_bytes().to_vec())
}

fn all_fields(store: &PasswordStore) -> Vec<(Vec<u8>, Vec<u8>, Vec<u8>)> {
    store.get_all_passwords().iter().map(fields).collect()
}

fn unlock_err(bytes: &[u8], password: &str) -> PasswordError {
    match PasswordStore::unlock(bytes, pw(password)) {
        Ok(_) => panic!("the container opened"),
        Err(e) => e,
    }
}

fn github_store() -> (PasswordStore, Vec<u8>) {
    let mut store = PasswordStore::new(pw("correct-horse"));
    store
        .add_password(PasswordEntry::new(b"github", b"alice", b"hunter2"))
        .unwrap();
    let bytes = store.sync().unwrap();
    (store, bytes)
}

fn fast_params() -> ScryptParams {
    ScryptParams { log2n: 4, r: 8, p: 1 }
}

#[test]
fn unlock_after_sync_gives_entries() {
    let (_, bytes) = github_store();
    let store = PasswordStore::unlock(&bytes, pw("correct-horse")).ok().unwrap();
    assert_eq!(all_fields(&store), vec![triple("github", "alice", "hunter2")]);
}

#[test]
fn unlock_with_wrong_password_fails() {
    let (_, bytes) = github_store();
    assert_eq!(unlock_err(&bytes, "wrong"), PasswordError::WrongMasterPasswordError);
}

#[test]
fn add_twice_is_duplicate() {
    let mut store = PasswordStore::new(pw("correct-horse"));
    store
        .add_password(PasswordEntry::new(b"github", b"alice", b"hunter2"))
        .unwrap();
    let again = store.add_password(PasswordEntry::new(b"github", b"bob", b"other"));
    assert_eq!(again, Err(PasswordError::DuplicateEntry));
    assert_eq!(store.get_all_passwords().len(), 1);
    assert_eq!(all_fields(&store), vec![triple("github", "alice", "hunter2")]);
}

#[test]
fn delete_twice_is_not_found() {
    let mut store = PasswordStore::new(pw("correct-horse"));
    store
        .add_password(PasswordEntry::new(b"github", b"alice", b"hunter2"))
        .unwrap();
    assert_eq!(store.delete_password(b"github"), Ok(()));
    assert_eq!(store.delete_password(b"github"), Err(PasswordError::NotFound));
    assert!(store.get_all_passwords().is_empty());
}

#[test]
fn legacy_container_upgrades_and_syncs_as_current() {
    let entries = vec![
        PasswordEntry::new(b"github", b"alice", b"hunter2"),
        PasswordEntry::new(b"mail", b"alice@example.com", b"s3cret"),
    ];
    let master = pw("correct-horse");
    let legacy = write_legacy(&entries, &master, &[7u8; 32], &[9u8; 16]);
    assert_eq!(&legacy[0..4], &[0, 0, 0, 1]);
    assert_eq!(
        unlock_err(&legacy, "correct-horse"),
        PasswordError::NeedUpgradeErrorFromV1
    );
    let mut store = PasswordStore::upgrade(&legacy, pw("correct-horse")).ok().unwrap();
    let expected = vec![
        triple("github", "alice", "hunter2"),
        triple("mail", "alice@example.com", "s3cret"),
    ];
    assert_eq!(all_fields(&store), expected);
    assert_eq!(store.scrypt_params(), ScryptParams::default_params());
    let current = store.sync().unwrap();
    assert_eq!(&current[0..4], &[0, 0, 0, 2]);
    let reopened = PasswordStore::unlock(&current, pw("correct-horse")).ok().unwrap();
    assert_eq!(all_fields(&reopened), expected);
}

#[test]
fn truncated_ciphertext_is_corruption() {
    let (_, mut bytes) = github_store();
    bytes.pop();
    assert_eq!(unlock_err(&bytes, "correct-horse"), PasswordError::CorruptionError);
}

#[test]
fn upgrade_with_wrong_password_fails() {
    let entries = vec![PasswordEntry::new(b"github", b"alice", b"hunter2")];
    let legacy = write_legacy(&entries, &pw("right"), &[1u8; 32], &[2u8; 16]);
    match PasswordStore::upgrade(&legacy, pw("wrong")) {
        Ok(_) => panic!("opened with the wrong password"),
        Err(e) => assert_eq!(e, PasswordError::WrongMasterPasswordError),
    }
}

#[test]
fn upgrade_of_current_container_unlocks_it() {
    let (_, bytes) = github_store();
    let store = PasswordStore::upgrade(&bytes, pw("correct-horse")).ok().unwrap();
    assert_eq!(all_fields(&store), vec![triple("github", "alice", "hunter2")]);
}

#[test]
fn encrypt_then_decrypt_round_trips() {
    let keys = derive_keys(&pw("key"), &[3u8; 32], fast_params());
    let entries = vec![
        PasswordEntry::new(b"a", b"", b"x"),
        PasswordEntry::new(b"b", b"user", b""),
    ];
    let blob = encrypt(&entries, &keys, &[5u8; 16]);
    let back = decrypt(&blob, &keys).ok().unwrap();
    let got: Vec<_> = back.iter().map(fields).collect();
    assert_eq!(got, vec![triple("a", "", "x"), triple("b", "user", "")]);
}

#[test]
fn encrypt_hides_plaintext_and_tags() {
    let keys = derive_keys(&pw("key"), &[3u8; 32], fast_params());
    let entries = vec![PasswordEntry::new(b"github", b"alice", b"hunter2")];
    let plain = rooster::codec::encode_entries(&entries);
    let blob = encrypt(&entries, &keys, &[5u8; 16]);
    assert_eq!(blob.ciphertext.len(), plain.len());
    assert_ne!(blob.ciphertext, plain.as_slice().to_vec());
    assert_eq!(blob.tag.len(), 32);
    assert_ne!(blob.tag, blob.ciphertext[..32].to_vec());
}

#[test]
fn decrypt_with_other_key_fails() {
    let keys = derive_keys(&pw("key"), &[3u8; 32], fast_params());
    let other = derive_keys(&pw("other"), &[3u8; 32], fast_params());
    let entries = vec![PasswordEntry::new(b"github", b"alice", b"hunter2")];
    let blob = encrypt(&entries, &keys, &[5u8; 16]);
    match decrypt(&blob, &other) {
        Ok(_) => panic!("opened with another key"),
        Err(e) => assert_eq!(e, PasswordError::WrongMasterPasswordError),
    }
}

#[test]
fn decrypt_of_tampered_blob_is_corruption() {
    let keys = derive_keys(&pw("key"), &[3u8; 32], fast_params());
    let entries = vec![PasswordEntry::new(b"github", b"alice", b"hunter2")];
    let mut blob = encrypt(&entries, &keys, &[5u8; 16]);
    blob.ciphertext[0] ^= 1;
    match decrypt(&blob, &keys) {
        Ok(_) => panic!("opened a tampered blob"),
        Err(e) => assert_eq!(e, PasswordError::CorruptionError),
    }
}

#[test]
fn scrypt_matches_known_vector() {
    let keys = derive_keys(&SecureBuffer::from_slice(b""), b"", ScryptParams { log2n: 4, r: 1, p: 1 });
    let expected: Vec<u8> = vec![
        0x77, 0xd6, 0x57, 0x62, 0x38, 0x65, 0x7b, 0x20, 0x3b, 0x19, 0xca, 0x42, 0xc1, 0x8a, 0x04,
        0x97, 0xf1, 0x6b, 0x48, 0x44, 0xe3, 0x07, 0x4a, 0xe8, 0xdf, 0xdf, 0xfa, 0x3f, 0xed, 0xe2,
        0x14, 0x42, 0xfc, 0xd0, 0x06, 0x9d, 0xed, 0x09, 0x48, 0xf8, 0x32, 0x6a, 0x75, 0x3a, 0x0f,
        0xc8, 0x1f, 0x17, 0xe8, 0xd3, 0xe0, 0xfb, 0x2e, 0x0d, 0x36, 0x28, 0xcf, 0x35, 0xe2, 0x0c,
        0x38, 0xd1, 0x89, 0x06,
    ];
    assert_eq!(keys.enc.as_slice(), &expected[0..32]);
    assert_eq!(keys.mac.as_slice(), &expected[32..64]);
    assert_eq!(keys.check.len(), 32);
}

#[test]
fn derivation_is_deterministic() {
    let a = derive_keys(&pw("pw"), &[1u8; 32], fast_params());
    let b = derive_keys(&pw("pw"), &[1u8; 32], fast_params());
    let c = derive_keys(&pw("pw"), &[2u8; 32], fast_params());
    assert_eq!(a.enc.as_slice(), b.enc.as_slice());
    assert_eq!(a.check, b.check);
    assert_ne!(a.enc.as_slice(), c.enc.as_slice());
}

#[test]
fn add_existing_name_leaves_store_unchanged() {
    let mut store = PasswordStore::new(pw("m"));
    store.add_password(PasswordEntry::new(b"a", b"u1", b"p1")).unwrap();
    store.add_password(PasswordEntry::new(b"b", b"u2", b"p2")).unwrap();
    let before = all_fields(&store);
    assert_eq!(
        store.add_password(PasswordEntry::new(b"b", b"x", b"y")),
        Err(PasswordError::DuplicateEntry)
    );
    assert_eq!(all_fields(&store), before);
}

#[test]
fn names_are_case_sensitive() {
    let mut store = PasswordStore::new(pw("m"));
    store.add_password(PasswordEntry::new(b"GitHub", b"u", b"p")).unwrap();
    assert_eq!(store.add_password(PasswordEntry::new(b"github", b"u", b"p")), Ok(()));
    assert_eq!(store.get_all_passwords().len(), 2);
}

#[test]
fn missing_name_leaves_store_unchanged() {
    let mut store = PasswordStore::new(pw("m"));
    store.add_password(PasswordEntry::new(b"a", b"u1", b"p1")).unwrap();
    let before = all_fields(&store);
    assert_eq!(store.delete_password(b"z"), Err(PasswordError::NotFound));
    assert_eq!(store.transfer(b"z", b"new"), Err(PasswordError::NotFound));
    assert_eq!(store.rename(b"z", b"y"), Err(PasswordError::NotFound));
    assert_eq!(store.change_password(b"z", b"q"), Err(PasswordError::NotFound));
    assert_eq!(all_fields(&store), before);
}

#[test]
fn rename_transfer_and_change() {
    let mut store = PasswordStore::new(pw("m"));
    store.add_password(PasswordEntry::new(b"a", b"u1", b"p1")).unwrap();
    store.add_password(PasswordEntry::new(b"b", b"u2", b"p2")).unwrap();
    assert_eq!(store.rename(b"a", b"b"), Err(PasswordError::DuplicateEntry));
    assert_eq!(store.rename(b"a", b"c"), Ok(()));
    assert_eq!(store.transfer(b"b", b"u3"), Ok(()));
    assert_eq!(store.change_password(b"c", b"p9"), Ok(()));
    assert_eq!(
        all_fields(&store),
        vec![triple("c", "u1", "p9"), triple("b", "u3", "p2")]
    );
    assert!(store.has_password(b"c"));
    assert!(!store.has_password(b"a"));
    let got = store.get_password(b"b").unwrap();
    assert_eq!(fields(&got), triple("b", "u3", "p2"));
    assert!(store.get_password(b"a").is_none());
}

#[test]
fn scrub_overwrites_secret() {
    let mut buf = SecureBuffer::from_slice(b"hunter2");
    buf.scrub();
    assert_eq!(buf.len(), 7);
    assert_eq!(buf.as_slice(), &[0u8; 7]);
    assert_ne!(buf.as_slice(), b"hunter2");
}

#[test]
fn new_params_sync_and_unlock() {
    let (mut store, old_bytes) = github_store();
    let old_params = store.scrypt_params();
    let new_params = ScryptParams { log2n: 10, r: 8, p: 2 };
    assert_eq!(store.set_scrypt_params(new_params, false), Err(PasswordError::InvalidScryptParams));
    assert_eq!(store.set_scrypt_params(new_params, true), Ok(()));
    let bytes = store.sync().unwrap();
    assert_eq!(bytes[4], 10);
    assert_eq!(&bytes[9..13], &[0, 0, 0, 2]);
    let reopened = PasswordStore::unlock(&bytes, pw("correct-horse")).ok().unwrap();
    assert_eq!(reopened.scrypt_params(), new_params);
    assert_eq!(all_fields(&reopened), vec![triple("github", "alice", "hunter2")]);
    // keys derived with the old parameters do not open the new container
    let c = parse(&bytes).ok().unwrap();
    let stale = derive_keys(&pw("correct-horse"), &c.salt, old_params);
    match decrypt(&c.blob, &stale) {
        Ok(_) => panic!("stale parameters opened the container"),
        Err(e) => assert_eq!(e, PasswordError::WrongMasterPasswordError),
    }
    // the old container still opens with its own parameters
    assert!(PasswordStore::unlock(&old_bytes, pw("correct-horse")).is_ok());
}

#[test]
fn sync_reuses_held_keys_and_salt() {
    let (mut store, first) = github_store();
    let second = store.sync().unwrap();
    assert_eq!(&first[13..45], &second[13..45]);
    assert_ne!(&first[45..61], &second[45..61]);
}

#[test]
fn new_master_password_takes_effect_after_sync() {
    let (mut store, _) = github_store();
    store.set_master_password(pw("battery-staple"));
    let bytes = store.sync().unwrap();
    assert_eq!(unlock_err(&bytes, "correct-horse"), PasswordError::WrongMasterPasswordError);
    assert!(PasswordStore::unlock(&bytes, pw("battery-staple")).is_ok());
}

#[test]
fn invalid_scrypt_params_are_refused() {
    let mut store = PasswordStore::new(pw("m"));
    assert_eq!(
        store.set_scrypt_params(ScryptParams { log2n: 12, r: 0, p: 1 }, true),
        Err(PasswordError::InvalidScryptParams)
    );
    assert_eq!(
        store.set_scrypt_params(ScryptParams { log2n: 16, r: 1, p: 1 }, true),
        Err(PasswordError::InvalidScryptParams)
    );
    assert_eq!(
        store.set_scrypt_params(ScryptParams { log2n: 14, r: 8, p: 1 }, false),
        Ok(())
    );
    assert_eq!(store.scrypt_params(), ScryptParams { log2n: 14, r: 8, p: 1 });
}

#[test]
fn parse_reports_version_errors() {
    let err = |b: &[u8]| match parse(b) {
        Ok(_) => panic!("parsed"),
        Err(e) => e,
    };
    assert_eq!(err(&[]), PasswordError::CorruptionError);
    assert_eq!(err(&[0, 0, 0]), PasswordError::CorruptionError);
    assert_eq!(err(&[0, 0, 0, 0]), PasswordError::CorruptionError);
    assert_eq!(err(&[0, 0, 0, 3]), PasswordError::OutdatedRoosterBinaryError);
    assert_eq!(err(&[0, 0, 0, 2, 1, 2, 3]), PasswordError::CorruptionError);
    assert_eq!(err(&[0, 0, 0, 1, 1, 2, 3]), PasswordError::CorruptionError);
    assert_eq!(unlock_err(&[0, 0, 1, 0], "x"), PasswordError::OutdatedRoosterBinaryError);
}

#[test]
fn container_serializes_back_to_same_bytes() {
    let (_, bytes) = github_store();
    let c = parse(&bytes).ok().unwrap();
    assert_eq!(c.version, 2);
    assert_eq!(c.params, ScryptParams::default_params());
    assert_eq!(serialize(&c), bytes);
}

#[test]
fn unusable_header_params_are_corruption() {
    let (_, mut bytes) = github_store();
    bytes[5..9].copy_from_slice(&[0, 0, 0, 0]);
    assert_eq!(unlock_err(&bytes, "correct-horse"), PasswordError::CorruptionError);
}

#[test]
fn empty_store_round_trips() {
    let mut store = PasswordStore::new(pw("m"));
    let bytes = store.sync().unwrap();
    let back = PasswordStore::unlock(&bytes, pw("m")).ok().unwrap();
    assert!(back.get_all_passwords().is_empty());
}

#[test]
fn changes_mark_store_modified_until_sync() {
    let (mut store, bytes) = github_store();
    assert!(!store.is_modified());
    let mut opened = PasswordStore::unlock(&bytes, pw("correct-horse")).ok().unwrap();
    assert!(!opened.is_modified());
    assert_eq!(opened.delete_password(b"missing"), Err(PasswordError::NotFound));
    assert!(!opened.is_modified());
    opened.add_password(PasswordEntry::new(b"mail", b"a", b"b")).unwrap();
    assert!(opened.is_modified());
    opened.sync().unwrap();
    assert!(!opened.is_modified());
    assert!(PasswordStore::new(pw("m")).is_modified());
    store.set_scrypt_params(ScryptParams::default_params(), false).unwrap();
    assert!(store.is_modified());
}

#[test]
fn legacy_container_serializes_back_to_same_bytes() {
    let entries = vec![PasswordEntry::new(b"github", b"alice", b"hunter2")];
    let legacy = write_legacy(&entries, &pw("m"), &[8u8; 32], &[1u8; 16]);
    let c = parse(&legacy).ok().unwrap();
    assert_eq!(c.version, 1);
    assert_eq!(c.params, ScryptParams { log2n: 10, r: 8, p: 1 });
    assert_eq!(c.salt, vec![8u8; 32]);
    assert_eq!(serialize(&c), legacy);
}
