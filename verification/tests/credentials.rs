//! Secrets and the vaults that keep them.
use course2md_desktop::bounded_http::{json_call, read_bounded, read_limit, BoundedReadError};
use course2md_desktop::credentials::{
    validate_reference, CredentialError, CredentialVault, FileCredentialVault,
    KeychainCredentialVault, MemoryCredentialVault, Secret,
};

#[test]
fn credential_rotation_keeps_old_task_reference_immutable() {
    let mut vault = MemoryCredentialVault::new();
    let original = vault.insert(Secret::new("test-only-old-key")).ok().unwrap();
    let replacement = vault.insert(Secret::new("test-only-new-key")).ok().unwrap();
    assert_ne!(original, replacement);
    assert_eq!(
        vault.resolve(&original).ok().unwrap().expose(),
        "test-only-old-key"
    );
    assert_eq!(
        vault.resolve(&replacement).ok().unwrap().expose(),
        "test-only-new-key"
    );
    assert!(vault.remove(&replacement).is_ok());
    assert!(vault.resolve(&replacement).is_err());
    assert!(vault.resolve(&original).is_ok());
}

#[test]
fn debug_and_errors_cannot_expose_secret() {
    let secret = Secret::new("test-only-do-not-print");
    assert_eq!(secret.redacted(), "Secret([REDACTED])");
    let mut vault = MemoryCredentialVault::new();
    let error = vault.resolve("test-only-do-not-print").err().unwrap();
    assert!(!error.message().contains("test-only-do-not-print"));
    assert!(vault.insert(Secret::new("   ")).is_err());
}

#[test]
fn file_vault_persists_credentials_across_instances() {
    let path = "desktop-credentials.json";
    let (reference, bytes) = {
        let mut vault = FileCredentialVault::new(path.into(), None);
        let reference = vault
            .insert(Secret::new("test-only-file-key"))
            .ok()
            .unwrap();
        assert_eq!(
            vault.resolve(&reference).ok().unwrap().expose(),
            "test-only-file-key"
        );
        assert_eq!(vault.path(), path);
        (reference, vault.contents())
    };
    // A fresh instance reads the same credential back from what was written.
    let mut reopened = FileCredentialVault::new(path.into(), Some(&bytes));
    assert_eq!(
        reopened.resolve(&reference).ok().unwrap().expose(),
        "test-only-file-key"
    );
    assert!(reopened.remove(&reference).is_ok());
    assert!(reopened.resolve(&reference).is_err());
    // Removal is also persisted.
    let after_remove = FileCredentialVault::new(path.into(), Some(&reopened.contents()));
    assert!(after_remove.resolve(&reference).is_err());
}

#[test]
fn file_vault_starts_empty_when_file_is_missing_or_corrupt() {
    let missing = FileCredentialVault::new("missing.json".into(), None);
    assert!(missing
        .resolve("credential-00000000-0000-0000-0000-000000000000")
        .is_err());
    let vault = FileCredentialVault::new("corrupt.json".into(), Some(b"not json"));
    assert!(vault
        .resolve("credential-00000000-0000-0000-0000-000000000000")
        .is_err());
    let wrong = FileCredentialVault::new(
        "wrong.json".into(),
        Some(b"{\"credential-00000000-0000-0000-0000-000000000000\":1}"),
    );
    assert!(wrong
        .resolve("credential-00000000-0000-0000-0000-000000000000")
        .is_err());
}

#[test]
fn changes_that_cannot_be_written_are_undone() {
    let mut vault = FileCredentialVault::new("vault.json".into(), None);
    let first = vault.insert(Secret::new("one")).ok().unwrap();
    let second = vault.insert(Secret::new("two")).ok().unwrap();
    vault.undo_insert(&second);
    assert!(vault.resolve(&second).is_err());
    assert_eq!(vault.resolve(&first).ok().unwrap().expose(), "one");
    let removed = vault.remove(&first).ok().unwrap();
    assert!(vault.resolve(&first).is_err());
    vault.undo_remove(&first, removed);
    assert_eq!(vault.resolve(&first).ok().unwrap().expose(), "one");
}

#[test]
fn the_file_is_written_as_indented_json() {
    let mut vault = FileCredentialVault::new("vault.json".into(), None);
    let reference = vault.insert(Secret::new("a\"b")).ok().unwrap();
    let expected = format!("{{\n  \"{reference}\": \"a\\\"b\"\n}}");
    assert_eq!(vault.contents(), expected.into_bytes());
}

#[test]
fn references_have_their_form() {
    assert!(validate_reference(
        "credential-550e8400-e29b-41d4-a716-446655440000"
    ));
    assert!(validate_reference(
        "credential-550E8400E29B41D4A716446655440000"
    ));
    assert!(validate_reference(
        "credential-{550e8400-e29b-41d4-a716-446655440000}"
    ));
    assert!(validate_reference(
        "credential-URN:uuid:550e8400-e29b-41d4-a716-446655440000"
    ));
    assert!(!validate_reference("550e8400-e29b-41d4-a716-446655440000"));
    assert!(!validate_reference("credential-"));
    assert!(!validate_reference(
        "credential-550e8400-e29b-41d4-a716-44665544000g"
    ));
    assert!(!validate_reference(
        "credential-{550e8400-e29b-41d4-a716-446655440000)"
    ));
    assert!(!validate_reference(
        "credential-550e8400e29b-41d4-a716-446655440000-"
    ));
}

#[test]
fn errors_are_told_apart() {
    let mut vault = MemoryCredentialVault::new();
    assert_eq!(
        vault.insert(Secret::new(" \n")).err(),
        Some(CredentialError::Empty)
    );
    assert_eq!(
        vault.resolve("x").err(),
        Some(CredentialError::InvalidReference)
    );
    assert_eq!(
        vault
            .resolve("credential-00000000-0000-0000-0000-000000000000")
            .err(),
        Some(CredentialError::NotFound)
    );
    assert_eq!(
        vault.remove("x").err(),
        Some(CredentialError::InvalidReference)
    );
    assert!(vault
        .remove("credential-00000000-0000-0000-0000-000000000000")
        .is_ok());
    assert_eq!(
        CredentialError::KeychainWrite(-50).message(),
        "无法将 API Key 保存到钥匙串（系统代码 -50）"
    );
    assert_eq!(
        CredentialError::KeychainRead(7).message(),
        "暂时无法读取此服务的钥匙串凭据（系统代码 7）"
    );
    assert_eq!(
        CredentialError::Unreadable.message(),
        "此服务的凭据无法读取，请重新保存 API Key"
    );
}

#[test]
fn keychain_codes_have_their_meaning() {
    let vault = KeychainCredentialVault::default();
    assert_eq!(
        vault.service,
        "com.course2md.desktop.service-credentials.v1"
    );
    assert_eq!(vault.read_error(-25300), CredentialError::NotInKeychain);
    assert_eq!(vault.read_error(-1), CredentialError::KeychainRead(-1));
    assert!(vault.removal(None).is_ok());
    assert!(vault.removal(Some(-25300)).is_ok());
    assert_eq!(
        vault.removal(Some(-2)).err(),
        Some(CredentialError::KeychainRemove(-2))
    );
    assert!(vault.reference_for(&Secret::new("")).is_err());
    assert!(validate_reference(
        &vault.reference_for(&Secret::new("k")).ok().unwrap()
    ));
}

#[test]
fn replies_over_the_limit_are_refused() {
    assert_eq!(read_limit(4), 5);
    assert!(matches!(read_bounded(Ok(vec![0; 4]), 4), Ok(body) if body.len() == 4));
    assert!(matches!(
        read_bounded(Ok(vec![0; 5]), 4),
        Err(BoundedReadError::TooLarge)
    ));
    assert!(matches!(
        read_bounded(Err("reset".into()), 4),
        Err(BoundedReadError::Network(error)) if error == "reset"
    ));
    assert_eq!(
        json_call(None),
        vec![("Accept", "application/json".to_owned())]
    );
    assert_eq!(
        json_call(Some(&Secret::new("k")))[1],
        ("Authorization", "Bearer k".to_owned())
    );
}

#[test]
fn a_file_that_is_no_map_of_texts_gives_no_secrets() {
    let reference = "credential-00000000-0000-0000-0000-000000000000";
    for bytes in [
        format!("{{\"{reference}\":1,\"{reference}\":\"x\"}}"),
        format!("[\"{reference}\"]"),
        "null".to_owned(),
    ] {
        let vault = FileCredentialVault::new("v.json".into(), Some(bytes.as_bytes()));
        assert!(vault.resolve(reference).is_err(), "{bytes}");
    }
    let doubled = format!("{{\"{reference}\":\"a\",\"{reference}\":\"b\"}}");
    let vault = FileCredentialVault::new("v.json".into(), Some(doubled.as_bytes()));
    assert_eq!(vault.resolve(reference).ok().unwrap().expose(), "b");
}

#[test]
fn every_insertion_makes_a_new_identity() {
    let mut vault = MemoryCredentialVault::new();
    let mut references = Vec::new();
    for n in 0..50 {
        references.push(vault.insert(Secret::new(&format!("key-{n}"))).ok().unwrap());
    }
    for (n, reference) in references.iter().enumerate() {
        assert_eq!(
            vault.resolve(reference).ok().unwrap().expose(),
            format!("key-{n}")
        );
    }
    let mut file = FileCredentialVault::new("v.json".into(), None);
    let reference = file.insert(Secret::new("k")).ok().unwrap();
    assert_eq!(file.path(), "v.json");
    assert!(file.remove(&reference).is_ok());
    assert_eq!(file.path(), "v.json");
}
