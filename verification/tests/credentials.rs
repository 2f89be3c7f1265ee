use codex_rate_proxy::credentials::{
    aad, atomic_write, encrypted_count, is_encrypted, is_key_file, legacy_key, master_key,
    master_need, master_path, opened, private_contents, profile_path, read_or_migrate, read_private, register,
    registered_key, registered_user, registration, registry_lock, seal, temporary_path,
    unregister, unseal,
    valid_user, CredentialError, MasterError, MasterNeed, Notice, PrivateFileError, ProfileError, Removal,
    UnregisterStep, WriteStep,
    MAX_FILE,
};

const NONCE: [u8; 24] = [1; 24];
const OTHER_NONCE: [u8; 24] = [2; 24];

#[test]
fn authenticated_encryption_binds_name_and_rejects_tampering() {
    let master = [7u8; 32];
    let bytes = seal("alice", "fake-api-key", &master, &NONCE);
    assert_eq!(unseal("alice", &bytes, &master).unwrap(), "fake-api-key");
    assert_ne!(bytes, seal("alice", "fake-api-key", &master, &OTHER_NONCE));
    assert!(unseal("bob", &bytes, &master).is_err());
    assert!(unseal("alice", &bytes, &[8u8; 32]).is_err());
    let mut corrupt = bytes.clone();
    *corrupt.last_mut().unwrap() ^= 1;
    assert!(unseal("alice", &corrupt, &master).is_err());
    assert!(unseal("alice", &bytes[..20], &master).is_err());
}

#[test]
fn sealed_files_have_a_head_a_nonce_and_a_tag() {
    let bytes = seal("alice", "key", &[7; 32], &NONCE);
    assert_eq!(&bytes[..8], b"CRPKEY\x00\x01");
    assert_eq!(&bytes[8..32], &NONCE);
    assert_eq!(bytes.len(), 8 + 24 + 3 + 16);
    assert_ne!(&bytes[32..35], b"key");
    assert_eq!(seal("a", &"k".repeat(16384), &[7; 32], &NONCE).len() as u64, MAX_FILE);
    assert_eq!(aad("alice"), "codex-rate-proxy:credentials:v1:alice");
}

#[test]
fn unsealing_tells_what_is_wrong() {
    let master = [7; 32];
    let bytes = seal("alice", "key", &master, &NONCE);
    assert_eq!(unseal("bob", &bytes, &master), Err(CredentialError::Unauthentic));
    assert_eq!(unseal("alice", &bytes[..47], &master), Err(CredentialError::Damaged));
    let mut newer = bytes.clone();
    newer[7] = 2;
    assert_eq!(unseal("alice", &newer, &master), Err(CredentialError::Damaged));
    let blank = seal("alice", "two words", &master, &NONCE);
    assert_eq!(unseal("alice", &blank, &master), Err(CredentialError::InvalidKey));
    assert_eq!(opened(Some(vec![0xff])), Err(CredentialError::NotText));
    assert_eq!(opened(None), Err(CredentialError::Unauthentic));
    assert_eq!(opened(Some(b"key".to_vec())).unwrap(), "key");
    assert_eq!(
        CredentialError::Damaged.message(),
        "unsupported or damaged encrypted credential file"
    );
    assert_eq!(
        CredentialError::Unauthentic.message(),
        "credential authentication failed: file/name/master key changed"
    );
    assert_eq!(CredentialError::NotText.message(), "decrypted credential is invalid");
}

#[test]
fn migration_keeps_the_key() {
    let master = [7; 32];
    let stored = read_or_migrate("alice", b"secret\r\n", &master, &NONCE).unwrap();
    assert_eq!(stored.key, "secret");
    let file = stored.rewrite.unwrap();
    assert!(is_encrypted(&file));
    let again = read_or_migrate("alice", &file, &master, &OTHER_NONCE).unwrap();
    assert_eq!(again.key, "secret");
    assert!(again.rewrite.is_none());
    assert_eq!(legacy_key(b"secret\n").unwrap(), "secret");
    assert_eq!(legacy_key(b"\xff"), Err(CredentialError::LegacyNotText));
    assert_eq!(legacy_key(b"two words"), Err(CredentialError::InvalidKey));
    assert_eq!(CredentialError::LegacyNotText.message(), "invalid legacy credential file");
}

#[test]
fn registered_keys_need_a_proper_name() {
    let stored = registered_key("alice", b"secret", &[7; 32], &NONCE).unwrap();
    assert_eq!(stored.key, "secret");
    let refused = registered_key("../alice", b"secret", &[7; 32], &NONCE);
    assert!(matches!(refused, Err(CredentialError::InvalidUser)));
}

#[test]
fn user_names_are_short_and_plain() {
    assert!(valid_user("Ab_9-z"));
    assert!(valid_user(&"a".repeat(64)));
    assert!(!valid_user(&"a".repeat(65)));
    for name in ["", "a b", "a/b", "a.b", "\u{e9}"] {
        assert!(!valid_user(name));
    }
}

#[test]
fn profiles_lie_in_the_directory_of_the_users() {
    assert_eq!(
        profile_path(Some(b"/home/x"), "alice").unwrap(),
        b"/home/x/.config/codex-rate-proxy/users/alice.key"
    );
    assert_eq!(
        profile_path(Some(b"/"), "alice").unwrap(),
        b"/.config/codex-rate-proxy/users/alice.key"
    );
    assert_ne!(profile_path(Some(b"/h"), "a").unwrap(), profile_path(Some(b"/h"), "A").unwrap());
    assert_eq!(profile_path(None, "alice"), Err(ProfileError::NoHome));
    assert_eq!(profile_path(None, ""), Err(ProfileError::InvalidUser));
    assert_eq!(ProfileError::NoHome.message(), "HOME is not set");
    assert_eq!(
        ProfileError::InvalidUser.message(),
        "user name must be 1-64 ASCII letters, digits, underscores or hyphens"
    );
    assert_eq!(registry_lock(b"/u"), b"/u/register.lock");
    assert_eq!(master_path(b"/s"), b"/s/master.key");
    assert_eq!(temporary_path(b"/u", "0f"), b"/u/.0f.tmp");
}

#[test]
fn users_are_found_by_their_files() {
    assert_eq!(registered_user(b"alice.key"), Ok(Some("alice".to_owned())));
    assert_eq!(registered_user(b"register.lock"), Ok(None));
    assert_eq!(registered_user(b".key"), Ok(None));
    assert_eq!(registered_user(b"a.b.key"), Err(CredentialError::InvalidUser));
    assert_eq!(registered_user(b"\xff.key"), Err(CredentialError::NameNotText));
    assert_eq!(CredentialError::NameNotText.message(), "invalid registered user name");
    assert!(is_key_file(b"x.key"));
    assert!(!is_key_file(b"xkey"));
}

#[test]
fn master_key_is_never_replaced() {
    let fresh = [9; 32];
    let sealed = seal("alice", "key", &[7; 32], &NONCE);
    assert_eq!(master_key(Some(&[7; 32]), true, &[], fresh), Ok(([7; 32], false)));
    assert_eq!(master_key(Some(&[7; 31]), true, &[], fresh), Err(MasterError::InvalidLength));
    assert_eq!(master_key(None, false, &[], fresh), Err(MasterError::Missing));
    assert_eq!(master_key(None, true, &[b"plain".to_vec()], fresh), Ok((fresh, true)));
    assert_eq!(
        master_key(None, true, &[b"plain".to_vec(), sealed], fresh),
        Err(MasterError::Lost)
    );
    assert_eq!(
        MasterError::InvalidLength.message(),
        "invalid master key length; restore the original master.key"
    );
    assert_eq!(
        MasterError::Missing.message(),
        "master.key is missing; restore it to decrypt registered keys"
    );
    assert_eq!(
        MasterError::Lost.message(),
        "master.key is missing but encrypted users remain; restore it or unregister those users before registering again"
    );
}

#[test]
fn files_are_replaced_whole() {
    let mut step = WriteStep::Create;
    let mut steps = Vec::new();
    while step != WriteStep::Written {
        steps.push(step);
        step = atomic_write(step, true);
    }
    assert_eq!(
        steps,
        vec![
            WriteStep::Create,
            WriteStep::Protect,
            WriteStep::Write,
            WriteStep::Sync,
            WriteStep::Replace,
            WriteStep::SyncDirectory,
        ]
    );
    for step in steps {
        assert_eq!(atomic_write(step, false), WriteStep::Discard);
    }
    assert_eq!(atomic_write(WriteStep::Discard, true), WriteStep::Failed);
    assert_eq!(atomic_write(WriteStep::Discard, false), WriteStep::Failed);
}

#[test]
fn secrets_are_read_from_private_files_only() {
    assert_eq!(read_private(true, 0o100600, 32, 32), Ok(33));
    assert_eq!(read_private(true, 0o100644, 32, 32), Err(PrivateFileError::Exposed));
    assert_eq!(read_private(false, 0o600, 1, 32), Err(PrivateFileError::Exposed));
    assert_eq!(read_private(true, 0o100600, 33, 32), Err(PrivateFileError::TooLarge));
    assert_eq!(private_contents(vec![1, 2], 2), Ok(vec![1, 2]));
    assert_eq!(private_contents(vec![1, 2, 3], 2), Err(PrivateFileError::TooLarge));
    assert_eq!(
        PrivateFileError::Exposed.message(),
        "credential/master key must be a regular file with permissions 600"
    );
    assert_eq!(PrivateFileError::TooLarge.message(), "credential/master key file is too large");
}

#[test]
fn registrations_are_told() {
    assert!(register(false, false).is_ok());
    assert!(register(true, true).is_ok());
    assert_eq!(
        register(true, false).unwrap_err().message(),
        "user already registered; use --replace to update its key"
    );
    assert_eq!(
        Notice::Registered.message("alice"),
        "registered alice (encrypted); launch with --user alice"
    );
    assert_eq!(
        Notice::Unregistered.message("alice"),
        "unregistered alice; existing sessions/proxies are unchanged"
    );
    assert_eq!(Notice::NotRegistered.message("alice"), "user alice is not registered");
    assert_eq!(Notice::Migrated.message("alice"), "Encrypted legacy registration: alice");
    assert_eq!(encrypted_count(12), "verified encrypted registrations: 12");
}

#[test]
fn files_tell_which_master_key_they_need() {
    let sealed = seal("alice", "key", &[7; 32], &NONCE);
    assert_eq!(master_need(&sealed), Ok(MasterNeed::Existing));
    assert_eq!(master_need(b"CRPKEY"), Ok(MasterNeed::Existing));
    assert_eq!(master_need(b"secret\n"), Ok(MasterNeed::Any));
    assert_eq!(master_need(b"two words"), Err(CredentialError::InvalidKey));
    assert_eq!(master_need(b"\xff"), Err(CredentialError::LegacyNotText));
}

#[test]
fn registrations_hold_the_key_that_was_given() {
    let file = registration("alice", "secret\r\n", &[7; 32], &NONCE).unwrap();
    assert_eq!(file, seal("alice", "secret", &[7; 32], &NONCE));
    assert_eq!(unseal("alice", &file, &[7; 32]).unwrap(), "secret");
    assert!(registration("alice", "two words\n", &[7; 32], &NONCE).is_err());
}

#[test]
fn removals_are_told_when_they_last() {
    let step = unregister(UnregisterStep::Remove, Removal::Done);
    assert_eq!(step, UnregisterStep::SyncDirectory);
    assert_eq!(unregister(step, Removal::Done), UnregisterStep::Tell(Notice::Unregistered));
    assert_eq!(unregister(step, Removal::Failed), UnregisterStep::Failed);
    assert_eq!(unregister(step, Removal::Missing), UnregisterStep::Failed);
    assert_eq!(
        unregister(UnregisterStep::Remove, Removal::Missing),
        UnregisterStep::Tell(Notice::NotRegistered)
    );
    assert_eq!(unregister(UnregisterStep::Remove, Removal::Failed), UnregisterStep::Failed);
}
