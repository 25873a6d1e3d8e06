use davy_jones_locker::secure_storage::item::Credentials;
use davy_jones_locker::secure_storage::memory::MemoryStorage;
use davy_jones_locker::secure_storage::native_messaging::{
    ExtensionMessage, NativeMessaging, NativeResponse,
};
use davy_jones_locker::secure_storage::SecureStorage;

fn dispatcher() -> NativeMessaging<MemoryStorage> {
    NativeMessaging::new(&[0u8; 32], MemoryStorage::new())
}

fn alice(password: &str) -> Credentials {
    Credentials {
        username: "alice".to_string(),
        password: password.to_string(),
        url: "https://example.com".to_string(),
    }
}

fn get(url: &str) -> ExtensionMessage {
    ExtensionMessage::GetPassword { url: url.to_string() }
}

fn save(credentials: Credentials) -> ExtensionMessage {
    ExtensionMessage::SavePassword { credentials }
}

fn delete(url: &str) -> ExtensionMessage {
    ExtensionMessage::DeletePassword { url: url.to_string() }
}

#[test]
fn save_then_get_returns_the_credentials() {
    let mut locker = dispatcher();
    assert_eq!(locker.handle_message(save(alice("s3cr3t"))), NativeResponse::Success);
    assert_eq!(
        locker.handle_message(get("https://example.com")),
        NativeResponse::Password(alice("s3cr3t"))
    );
}

#[test]
fn delete_then_get_reports_not_found() {
    let mut locker = dispatcher();
    assert_eq!(locker.handle_message(save(alice("s3cr3t"))), NativeResponse::Success);
    assert_eq!(locker.handle_message(delete("https://example.com")), NativeResponse::Success);
    assert_eq!(
        locker.handle_message(get("https://example.com")),
        NativeResponse::Error("Item not found".to_string())
    );
}

#[test]
fn get_of_an_id_never_saved_reports_not_found() {
    let mut locker = dispatcher();
    let response = locker.handle_message(get("https://never-saved.test"));
    assert_eq!(response, NativeResponse::Error("Item not found".to_string()));
    match response {
        NativeResponse::Error(text) => assert!(text.to_lowercase().contains("not found")),
        _ => panic!("a failure was expected"),
    }
}

#[test]
fn second_save_for_a_url_replaces_the_first() {
    let mut locker = dispatcher();
    assert_eq!(locker.handle_message(save(alice("first"))), NativeResponse::Success);
    assert_eq!(locker.handle_message(save(alice("second"))), NativeResponse::Success);
    assert_eq!(
        locker.handle_message(get("https://example.com")),
        NativeResponse::Password(alice("second"))
    );
    assert_eq!(locker.handle_message(delete("https://example.com")), NativeResponse::Success);
    assert_eq!(
        locker.handle_message(get("https://example.com")),
        NativeResponse::Error("Item not found".to_string())
    );
}

#[test]
fn corrupt_ciphertext_reports_an_encryption_failure() {
    let mut locker = dispatcher();
    assert_eq!(locker.handle_message(save(alice("s3cr3t"))), NativeResponse::Success);
    let mut blob = locker.storage().load("https://example.com").unwrap();
    let last = blob.len() - 1;
    blob[last] ^= 0x01;
    locker.storage_mut().save("https://example.com", &blob).unwrap();
    let response = locker.handle_message(get("https://example.com"));
    assert_eq!(response, NativeResponse::Error("Encryption error: aead::Error".to_string()));
    match response {
        NativeResponse::Error(text) => assert!(text.to_lowercase().contains("encryption error")),
        _ => panic!("a failure was expected"),
    }
}

#[test]
fn two_saves_of_one_record_store_different_nonces() {
    let mut locker = dispatcher();
    assert_eq!(locker.handle_message(save(alice("s3cr3t"))), NativeResponse::Success);
    let first = locker.storage().load("https://example.com").unwrap();
    assert_eq!(locker.handle_message(save(alice("s3cr3t"))), NativeResponse::Success);
    let second = locker.storage().load("https://example.com").unwrap();
    assert_eq!(first.len(), second.len());
    assert_ne!(first[..12], second[..12]);
    assert_ne!(first[12..], second[12..]);
}

#[test]
fn a_mutated_byte_of_nonce_or_ciphertext_is_refused() {
    let mut locker = dispatcher();
    assert_eq!(locker.handle_message(save(alice("s3cr3t"))), NativeResponse::Success);
    let blob = locker.storage().load("https://example.com").unwrap();
    for at in 0..blob.len() {
        let mut mutated = blob.clone();
        mutated[at] ^= 0x20;
        locker.storage_mut().save("https://example.com", &mutated).unwrap();
        assert_eq!(
            locker.handle_message(get("https://example.com")),
            NativeResponse::Error("Encryption error: aead::Error".to_string())
        );
    }
    locker.storage_mut().save("https://example.com", &blob).unwrap();
    assert_eq!(
        locker.handle_message(get("https://example.com")),
        NativeResponse::Password(alice("s3cr3t"))
    );
}

#[test]
fn a_record_sealed_under_another_key_is_refused() {
    let mut writer = dispatcher();
    assert_eq!(writer.handle_message(save(alice("s3cr3t"))), NativeResponse::Success);
    let blob = writer.storage().load("https://example.com").unwrap();

    let mut store = MemoryStorage::new();
    store.save("https://example.com", &blob).unwrap();
    let mut reader = NativeMessaging::new(&[1u8; 32], store);
    assert_eq!(
        reader.handle_message(get("https://example.com")),
        NativeResponse::Error("Encryption error: aead::Error".to_string())
    );
}

#[test]
fn a_stored_record_shorter_than_a_nonce_is_refused() {
    let mut locker = dispatcher();
    locker.storage_mut().save("https://example.com", &[1, 2, 3]).unwrap();
    assert_eq!(
        locker.handle_message(get("https://example.com")),
        NativeResponse::Error(
            "Serialization error: stored record is shorter than its nonce".to_string()
        )
    );
}

#[test]
fn a_plaintext_that_is_no_record_is_refused() {
    let mut locker = dispatcher();
    let envelope = davy_jones_locker::secure_storage::envelope::Envelope::new(&[0u8; 32]);
    let nonce = [8u8; 12];
    let mut blob = nonce.to_vec();
    blob.extend(envelope.seal_with_nonce(&nonce, b"{\"username\":\"alice\"}").unwrap());
    locker.storage_mut().save("https://example.com", &blob).unwrap();
    assert_eq!(
        locker.handle_message(get("https://example.com")),
        NativeResponse::Error("Serialization error: missing field `password`".to_string())
    );
}

#[test]
fn a_record_is_stored_as_nonce_then_sealed_plaintext() {
    let locker = dispatcher();
    let nonce = [0u8; 12];
    let blob = locker.seal_record(&alice("s3cr3t"), &nonce).unwrap();
    let plaintext =
        b"{\"password\":\"s3cr3t\",\"url\":\"https://example.com\",\"username\":\"alice\"}";
    let envelope = davy_jones_locker::secure_storage::envelope::Envelope::new(&[0u8; 32]);
    let mut expected = nonce.to_vec();
    expected.extend(envelope.seal_with_nonce(&nonce, plaintext).unwrap());
    assert_eq!(blob, expected);
    assert_eq!(blob.len(), 12 + plaintext.len() + 16);
    assert_eq!(locker.unseal_record("https://example.com", &blob), Ok(alice("s3cr3t")));
}

#[test]
fn sealing_a_record_under_a_nonce_of_another_length_fails() {
    let locker = dispatcher();
    assert_eq!(
        locker.seal_record(&alice("s3cr3t"), &[0u8; 8]),
        Err(davy_jones_locker::secure_storage::StorageError::Encryption(
            "aead::Error".to_string()
        ))
    );
}

#[test]
fn records_of_other_urls_are_left_alone() {
    let mut locker = dispatcher();
    let other = Credentials {
        username: "bob".to_string(),
        password: "hunter2".to_string(),
        url: "https://example.org".to_string(),
    };
    assert_eq!(locker.handle_message(save(alice("s3cr3t"))), NativeResponse::Success);
    assert_eq!(locker.handle_message(save(other.clone())), NativeResponse::Success);
    assert_eq!(locker.handle_message(delete("https://example.com")), NativeResponse::Success);
    assert_eq!(
        locker.handle_message(get("https://example.org")),
        NativeResponse::Password(other)
    );
    assert_eq!(
        locker.handle_message(delete("https://example.com")),
        NativeResponse::Error("Item not found".to_string())
    );
}

#[test]
fn answers_are_made_from_outcomes() {
    assert_eq!(NativeResponse::from_found(Ok(alice("x"))), NativeResponse::Password(alice("x")));
    assert_eq!(
        NativeResponse::from_found(Err(davy_jones_locker::secure_storage::StorageError::NotFound)),
        NativeResponse::Error("Item not found".to_string())
    );
    assert_eq!(NativeResponse::from_done(Ok(())), NativeResponse::Success);
    assert_eq!(
        NativeResponse::from_done(Err(
            davy_jones_locker::secure_storage::StorageError::Serialization("bad".to_string())
        )),
        NativeResponse::Error("Serialization error: bad".to_string())
    );
}
