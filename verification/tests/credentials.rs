use codex_router_gui::credentials::{
    char_is_whitespace, credential_blob, credential_scope, credential_state_root,
    decode_credential_blob, delete_first, delete_next, delete_text, environment_override,
    keychain_secret, legacy_wincred_target, read_first, read_next, read_text, scope_from_digest,
    set_scope_from_root, trims_to_empty, wide, wincred_target, write_text, CredentialError,
    CredentialScope, CredentialSource, DeleteNext, ReadNext, StateRoot, TargetDelete, TargetRead,
};
use sha2::{Digest, Sha256};

#[test]
fn only_host_runtime_credentials_have_environment_overrides() {
    assert_eq!(
        environment_override("AdminPassword"),
        Some("CODEX_ROUTER_ADMIN_PASSWORD")
    );
    assert_eq!(
        environment_override("LocalApiKey"),
        Some("CODEX_ROUTER_LOCAL_API_KEY")
    );
    assert_eq!(
        environment_override("CliManagementSecret"),
        Some("CODEX_ROUTER_CLI_MANAGEMENT_SECRET")
    );
    assert_eq!(environment_override("AccountKey-1"), None);
}

#[test]
fn unscope_targets_keep_the_legacy_codex_router_prefix() {
    let scope = CredentialScope::new();
    assert_eq!(wincred_target(&scope, "LocalApiKey"), "CodexRouter/LocalApiKey");
    assert_eq!(
        legacy_wincred_target("LocalApiKey"),
        "CodexRouter/LocalApiKey"
    );
}

fn expected_scope(root: &str) -> String {
    let digest = Sha256::digest(root.as_bytes());
    digest.iter().take(4).map(|byte| format!("{byte:02x}")).collect()
}

#[test]
fn scope_is_the_hex_of_the_first_four_digest_bytes() {
    let root = "/Users/someone/Library/Application Support/Codex-Router/UserData";
    let scope = credential_scope(root);
    assert_eq!(scope, expected_scope(root));
    assert_eq!(scope.len(), 8);
    assert_eq!(credential_scope(""), "e3b0c442");
    assert_eq!(scope_from_digest(&[0x00, 0x0f, 0xa0, 0xff, 0x12]), "000fa0ff");
}

#[test]
fn scoped_targets_carry_the_scope_and_the_first_scope_wins() {
    let mut scope = CredentialScope::new();
    set_scope_from_root(&mut scope, "D:\\CodexRouter\\UserData");
    let first = expected_scope("D:\\CodexRouter\\UserData");
    assert_eq!(scope.get(), Some(first.as_str()));
    assert_eq!(
        wincred_target(&scope, "LocalApiKey"),
        format!("CodexRouter/{first}/LocalApiKey")
    );
    set_scope_from_root(&mut scope, "E:\\Other");
    assert_eq!(scope.get(), Some(first.as_str()));
    assert_eq!(legacy_wincred_target("LocalApiKey"), "CodexRouter/LocalApiKey");
}

#[test]
fn deleting_visits_the_scoped_then_the_legacy_target() {
    let unscoped = CredentialScope::new();
    assert_eq!(delete_text(&unscoped, "AccountKey-1"), vec!["CodexRouter/AccountKey-1"]);
    let mut scope = CredentialScope::new();
    set_scope_from_root(&mut scope, "/root");
    let s = expected_scope("/root");
    assert_eq!(
        delete_text(&scope, "AccountKey-1"),
        vec![format!("CodexRouter/{s}/AccountKey-1"), "CodexRouter/AccountKey-1".to_string()]
    );
}

#[test]
fn reading_prefers_a_non_blank_environment_override() {
    let scope = CredentialScope::new();
    match read_text(&scope, "LocalApiKey", Some("sk-123")) {
        CredentialSource::Environment(value) => assert_eq!(value, "sk-123"),
        CredentialSource::Store(_) => panic!("expected the environment value"),
    }
    match read_text(&scope, "LocalApiKey", Some(" \t\n")) {
        CredentialSource::Store(targets) => assert_eq!(targets, vec!["CodexRouter/LocalApiKey"]),
        CredentialSource::Environment(_) => panic!("a blank value does not override"),
    }
    match read_text(&scope, "AccountKey-1", Some("ignored")) {
        CredentialSource::Store(targets) => assert_eq!(targets, vec!["CodexRouter/AccountKey-1"]),
        CredentialSource::Environment(_) => panic!("the name has no override"),
    }
    match read_text(&scope, "AdminPassword", None) {
        CredentialSource::Store(targets) => assert_eq!(targets, vec!["CodexRouter/AdminPassword"]),
        CredentialSource::Environment(_) => panic!("the variable is unset"),
    }
}

#[test]
fn writing_refuses_overridden_and_invalid_names() {
    let scope = CredentialScope::new();
    assert_eq!(
        write_text(&scope, "AdminPassword", true),
        Err(CredentialError::EnvironmentReadOnly)
    );
    assert_eq!(
        write_text(&scope, "AdminPassword", false),
        Ok("CodexRouter/AdminPassword".to_string())
    );
    assert_eq!(
        write_text(&scope, "AccountKey-1", true),
        Ok("CodexRouter/AccountKey-1".to_string())
    );
    assert_eq!(write_text(&scope, "  ", false), Err(CredentialError::InvalidName));
    assert_eq!(write_text(&scope, "", false), Err(CredentialError::InvalidName));
    assert_eq!(write_text(&scope, "a\0b", false), Err(CredentialError::InvalidName));
}

#[test]
fn wide_strings_end_with_nul() {
    assert_eq!(wide("ab"), vec![0x61, 0x62, 0]);
    assert_eq!(wide(""), vec![0]);
    assert_eq!(wide("😀"), vec![0xD83D, 0xDE00, 0]);
    let expected: Vec<u16> = "Codex Router 黑😀".encode_utf16().chain(Some(0)).collect();
    assert_eq!(wide("Codex Router 黑😀"), expected);
}

#[test]
fn stored_secrets_are_little_endian_utf16_and_read_back() {
    let blob = credential_blob("aé😀").unwrap();
    assert_eq!(blob, vec![0x61, 0x00, 0xE9, 0x00, 0x3D, 0xD8, 0x00, 0xDE]);
    assert_eq!(decode_credential_blob(Some(&blob)).unwrap(), "aé😀");
    assert_eq!(decode_credential_blob(Some(&[])).unwrap(), "");
    let secret = "x".repeat(1280);
    let blob = credential_blob(&secret).unwrap();
    assert_eq!(blob.len(), 2560);
    assert_eq!(decode_credential_blob(Some(&blob)).unwrap(), secret);
}

#[test]
fn secrets_over_2560_bytes_are_refused() {
    assert_eq!(
        credential_blob(&"x".repeat(1281)),
        Err(CredentialError::ExceedsLimit)
    );
    assert_eq!(
        credential_blob(&"😀".repeat(641)),
        Err(CredentialError::ExceedsLimit)
    );
}

#[test]
fn stored_records_stop_at_the_first_nul_and_reject_bad_utf16() {
    assert_eq!(decode_credential_blob(Some(&[0x61, 0x00, 0x00, 0x00, 0x62, 0x00])).unwrap(), "a");
    assert_eq!(decode_credential_blob(Some(&[0x61])), Err(CredentialError::InvalidUtf16Data));
    assert_eq!(decode_credential_blob(None), Err(CredentialError::InvalidUtf16Data));
    assert_eq!(decode_credential_blob(Some(&[0x3D, 0xD8])), Err(CredentialError::InvalidUtf16));
    assert_eq!(decode_credential_blob(Some(&[0x00, 0xDE, 0x61, 0x00])), Err(CredentialError::InvalidUtf16));
}

#[test]
fn keychain_output_loses_its_trailing_newlines() {
    assert_eq!(keychain_secret(b"s3cret\n".to_vec()).unwrap(), "s3cret");
    assert_eq!(keychain_secret(b"a\nb\n\n".to_vec()).unwrap(), "a\nb");
    assert_eq!(keychain_secret(b"\n".to_vec()).unwrap(), "");
    assert_eq!(keychain_secret("黑\r\n".as_bytes().to_vec()).unwrap(), "黑\r");
    assert_eq!(keychain_secret(vec![0xff, 0x0a]), Err(CredentialError::NotUtf8));
}

#[test]
fn the_state_root_follows_the_environment_and_layout() {
    assert_eq!(credential_state_root(true, true, true, true), StateRoot::UserDataOverride);
    assert_eq!(credential_state_root(false, true, true, true), StateRoot::RouterRoot);
    assert_eq!(credential_state_root(false, false, true, true), StateRoot::LocalAppData);
    assert_eq!(credential_state_root(false, false, true, false), StateRoot::RouterRoot);
    assert_eq!(credential_state_root(false, false, false, true), StateRoot::RouterRoot);
}

#[test]
fn white_space_is_the_unicode_property() {
    for c in [' ', '\t', '\n', '\u{0B}', '\u{0C}', '\r', '\u{85}', '\u{A0}', '\u{1680}', '\u{2000}', '\u{200A}', '\u{2028}', '\u{2029}', '\u{202F}', '\u{205F}', '\u{3000}'] {
        assert!(char_is_whitespace(c), "{c:?}");
    }
    for c in ['a', '\0', '\u{200B}', '\u{FEFF}', '\u{180E}', '黑', '\u{1F600}'] {
        assert!(!char_is_whitespace(c), "{c:?}");
    }
    for c in '\0'..='\u{3100}' {
        assert_eq!(char_is_whitespace(c), c.is_whitespace(), "{c:?}");
    }
    assert!(trims_to_empty(" \u{3000}\t"));
    assert!(trims_to_empty(""));
    assert!(!trims_to_empty(" x "));
}

#[test]
fn reading_stops_at_the_first_target_that_holds_the_credential() {
    assert!(matches!(read_first(2), ReadNext::ReadTarget(0)));
    assert!(matches!(read_first(0), ReadNext::Finish(None)));
    assert!(matches!(read_next(2, 0, TargetRead::Missing), ReadNext::ReadTarget(1)));
    match read_next(2, 0, TargetRead::Found("s".to_string())) {
        ReadNext::Finish(Some(value)) => assert_eq!(value, "s"),
        _ => panic!("a found secret ends the read"),
    }
    assert!(matches!(read_next(2, 0, TargetRead::Failed), ReadNext::Fail));
    assert!(matches!(read_next(2, 1, TargetRead::Missing), ReadNext::Finish(None)));
    assert!(matches!(read_next(1, 0, TargetRead::Missing), ReadNext::Finish(None)));
}

#[test]
fn deleting_treats_missing_entries_as_deleted_and_stops_on_errors() {
    assert_eq!(delete_first(2), DeleteNext::DeleteTarget(0));
    assert_eq!(delete_first(0), DeleteNext::Finish);
    assert_eq!(delete_next(2, 0, TargetDelete::Missing), DeleteNext::DeleteTarget(1));
    assert_eq!(delete_next(2, 0, TargetDelete::Deleted), DeleteNext::DeleteTarget(1));
    assert_eq!(delete_next(2, 0, TargetDelete::Failed), DeleteNext::Fail);
    assert_eq!(delete_next(2, 1, TargetDelete::Missing), DeleteNext::Finish);
    assert_eq!(delete_next(1, 0, TargetDelete::Deleted), DeleteNext::Finish);
}

#[test]
fn a_fresh_scope_is_eight_lowercase_hex_digits() {
    let mut scope = CredentialScope::new();
    set_scope_from_root(&mut scope, "C:\\Users\\x\\AppData\\Local\\Codex-Router\\UserData");
    let value = scope.get().unwrap();
    assert_eq!(value.len(), 8);
    assert!(value.chars().all(|c| c.is_ascii_digit() || ('a'..='f').contains(&c)));
}
