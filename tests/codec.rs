use rooster::cli::{
    example_environment_variable_configuration, get_password_store_from_input, only_digits,
    validate_arg_u32, validate_arg_u8, validate_arg_usize, LoadDecision, LoadState, UpgradeReply,
};
use rooster::codec::{decode_entries, encode_entries};
use rooster::entry::PasswordEntry;
use rooster::error::PasswordError;
use rooster::secure::SecureBuffer;
use rooster::store::{write_legacy, PasswordStore};

#[test]
fn entry_list_layout() {
    let entries = vec![PasswordEntry::new(b"ab", b"c", b"")];
    let bytes = encode_entries(&entries);
    let expected: Vec<u8> = vec![
        0, 0, 0, 0, 0, 0, 0, 1, // count
        0, 0, 0, 0, 0, 0, 0, 2, b'a', b'b', // name
        0, 0, 0, 0, 0, 0, 0, 1, b'c', // username
        0, 0, 0, 0, 0, 0, 0, 0, // password
    ];
    assert_eq!(bytes.as_slice(), &expected[..]);
    let back = decode_entries(bytes.as_slice()).unwrap();
    assert_eq!(back.len(), 1);
    assert_eq!(back[0].name, b"ab".to_vec());
    assert_eq!(back[0].username, b"c".to_vec());
    assert!(back[0].password.as_slice().is_empty());
}

#[test]
fn decode_refuses_malformed_lists() {
    let entries = vec![PasswordEntry::new(b"a", b"u", b"p"), PasswordEntry::new(b"a", b"v", b"q")];
    let dup = encode_entries(&entries);
    assert!(decode_entries(dup.as_slice()).is_none());
    let one = encode_entries(&entries[..1]);
    let mut extra = one.as_slice().to_vec();
    extra.push(0);
    assert!(decode_entries(&extra).is_none());
    let short = &one.as_slice()[..one.len() - 1];
    assert!(decode_entries(short).is_none());
    assert!(decode_entries(&[0, 0, 0]).is_none());
    let empty = encode_entries(&[]);
    assert_eq!(empty.as_slice(), &[0u8; 8]);
    assert!(decode_entries(empty.as_slice()).unwrap().is_empty());
}

#[test]
fn validators_accept_digits_in_range() {
    assert_eq!(validate_arg_u8("12"), Ok(12));
    assert_eq!(validate_arg_u8("255"), Ok(255));
    assert_eq!(validate_arg_u32("4294967295"), Ok(u32::MAX));
    assert_eq!(validate_arg_usize("32"), Ok(32));
    assert_eq!(validate_arg_usize("007"), Ok(7));
}

#[test]
fn validators_refuse_other_values() {
    assert_eq!(validate_arg_u8("1a"), Err(String::from("The value must be made of digits")));
    assert_eq!(validate_arg_u8("-1"), Err(String::from("The value must be made of digits")));
    assert_eq!(validate_arg_u8(""), Err(String::from("The value must not be empty")));
    assert_eq!(validate_arg_u8("256"), Err(String::from("The value is too large")));
    assert_eq!(validate_arg_u32("4294967296"), Err(String::from("The value is too large")));
    assert_eq!(
        validate_arg_usize("99999999999999999999999"),
        Err(String::from("The value is too large"))
    );
}

#[test]
fn only_digits_flags_non_digits() {
    assert!(!only_digits("0123456789"));
    assert!(!only_digits(""));
    assert!(only_digits("12x"));
    assert!(only_digits("é"));
}

#[test]
fn example_configuration_line() {
    assert_eq!(
        example_environment_variable_configuration(),
        "export ROOSTER_FILE=$HOME/path/to/rooster.file"
    );
}

#[test]
fn loading_legacy_needs_permission() {
    let entries = vec![PasswordEntry::new(b"github", b"alice", b"hunter2")];
    let master = SecureBuffer::from_slice(b"pw");
    let legacy = write_legacy(&entries, &master, &[4u8; 32], &[6u8; 16]);
    match get_password_store_from_input(&legacy, &master, false) {
        Ok(_) => panic!("migrated without permission"),
        Err(e) => assert_eq!(e, PasswordError::NeedUpgradeErrorFromV1),
    }
    let store: PasswordStore = get_password_store_from_input(&legacy, &master, true).ok().unwrap();
    assert!(store.has_password(b"github"));
}

#[test]
fn unlock_loop_decisions() {
    let s = LoadState::initial();
    assert_eq!(s, LoadState { retries: 3, force_upgrade: false, retry: false });
    assert_eq!(s.check_attempt(), Ok(()));
    assert_eq!(
        s.decide_after_error(PasswordError::WrongMasterPasswordError),
        LoadDecision::Retry(LoadState { retries: 2, force_upgrade: false, retry: true })
    );
    assert_eq!(
        s.decide_after_error(PasswordError::CorruptionError),
        LoadDecision::Fail(PasswordError::CorruptionError)
    );
    assert_eq!(s.decide_after_error(PasswordError::NeedUpgradeErrorFromV1), LoadDecision::AskUpgrade);
    let spent = LoadState { retries: 0, force_upgrade: false, retry: true };
    assert_eq!(spent.check_attempt(), Err(PasswordError::CorruptionLikelyError));
    assert_eq!(
        s.upgrade_answer("yes"),
        UpgradeReply::Proceed(LoadState { retries: 3, force_upgrade: true, retry: false })
    );
    assert_eq!(s.upgrade_answer("no"), UpgradeReply::Decline(PasswordError::NoUpgradeError));
    assert_eq!(s.upgrade_answer("maybe"), UpgradeReply::AskAgain);
    assert_eq!(s.upgrade_answer(""), UpgradeReply::AskAgain);
}
