use davy_jones_locker::secure_storage::linux::{
    ItemAttributes, LinuxStorage, ID_ATTRIBUTE, MAX_ENTRY_LEN, SCHEMA_NAME, SERVICE_ATTRIBUTE,
};
use davy_jones_locker::secure_storage::memory::MemoryStorage;
use davy_jones_locker::secure_storage::native_messaging::{backend_for, BACKEND_SERVICE};
use davy_jones_locker::secure_storage::{SecureStorage, StorageError};

#[test]
fn test_save_load_delete() {
    let layout = LinuxStorage::new("test-service".to_string());
    let mut storage = MemoryStorage::new();
    let id = "test-id".to_string();
    let encrypted_data = vec![1, 2, 3, 4];

    let item = layout.item(&id, &encrypted_data).unwrap();
    storage.save(&id, item.secret.as_bytes()).unwrap();

    let secret = String::from_utf8(storage.load(&id).unwrap()).unwrap();
    let loaded = LinuxStorage::loaded(Ok(Some(secret))).unwrap();
    assert_eq!(item.attributes.id, id);
    assert_eq!(loaded, encrypted_data);

    storage.delete(&id).unwrap();

    assert!(storage.load(&id).is_err());
}

#[test]
fn the_schema_is_the_generic_one_with_two_attributes() {
    assert_eq!(SCHEMA_NAME, "org.freedesktop.Secret.Generic");
    assert_eq!(SERVICE_ATTRIBUTE, "service");
    assert_eq!(ID_ATTRIBUTE, "id");
    assert_eq!(MAX_ENTRY_LEN, (1usize << 30) - 1);
}

#[test]
fn an_item_carries_attributes_label_and_base64_secret() {
    let layout = LinuxStorage::new("test-service".to_string());
    assert_eq!(layout.service_name(), "test-service");
    let item = layout.item("test-id", &[1, 2, 3, 4]).unwrap();
    assert_eq!(
        item.attributes,
        ItemAttributes { service: "test-service".to_string(), id: "test-id".to_string() }
    );
    assert_eq!(item.label, "test-service/test-id");
    assert_eq!(item.secret, "AQIDBA==");
    assert_eq!(layout.attributes("test-id"), item.attributes);
}

#[test]
fn secrets_follow_the_standard_alphabet_with_padding() {
    let layout = LinuxStorage::new("s".to_string());
    assert_eq!(layout.item("i", b"").unwrap().secret, "");
    assert_eq!(layout.item("i", b"f").unwrap().secret, "Zg==");
    assert_eq!(layout.item("i", b"fo").unwrap().secret, "Zm8=");
    assert_eq!(layout.item("i", b"foo").unwrap().secret, "Zm9v");
    assert_eq!(layout.item("i", b"hello world").unwrap().secret, "aGVsbG8gd29ybGQ=");
    assert_eq!(layout.item("i", &[0xfb, 0xff, 0xbe]).unwrap().secret, "+/++");
}

#[test]
fn a_lookup_is_read_as_bytes_absence_or_failure() {
    assert_eq!(LinuxStorage::loaded(Ok(Some("AQIDBA==".to_string()))), Ok(vec![1, 2, 3, 4]));
    assert_eq!(LinuxStorage::loaded(Ok(Some(String::new()))), Ok(vec![]));
    assert_eq!(LinuxStorage::loaded(Ok(None)), Err(StorageError::NotFound));
    assert_eq!(
        LinuxStorage::loaded(Err("no such service".to_string())),
        Err(StorageError::Storage("no such service".to_string()))
    );
}

#[test]
fn a_secret_that_is_no_base64_text_is_refused() {
    for secret in ["AQIDBA= ", "AQ!DBA==", "AQIDB", "-_-_", "AQIDBA==="] {
        match LinuxStorage::loaded(Ok(Some(secret.to_string()))) {
            Err(StorageError::Serialization(_)) => {}
            other => panic!("a serialization failure was expected, not {:?}", other),
        }
    }
}

#[test]
fn every_byte_string_is_read_back_from_its_secret() {
    let layout = LinuxStorage::new("test-service".to_string());
    let all: Vec<u8> = (0u8..=255).collect();
    for len in [0usize, 1, 2, 3, 4, 5, 63, 64, 65, 256] {
        let bytes = &all[..len];
        let item = layout.item("test-id", bytes).unwrap();
        assert_eq!(LinuxStorage::loaded(Ok(Some(item.secret))), Ok(bytes.to_vec()));
    }
}

#[test]
fn the_answer_to_a_request_is_success_or_a_storage_failure() {
    assert_eq!(LinuxStorage::completed(Ok(())), Ok(()));
    assert_eq!(
        LinuxStorage::completed(Err("locked".to_string())),
        Err(StorageError::Storage("locked".to_string()))
    );
}

#[test]
fn an_entry_is_present_where_the_lookup_found_one() {
    assert_eq!(LinuxStorage::present(Ok(Some("AQIDBA==".to_string()))), Ok(()));
    assert_eq!(LinuxStorage::present(Ok(None)), Err(StorageError::NotFound));
    assert_eq!(
        LinuxStorage::present(Err("locked".to_string())),
        Err(StorageError::Storage("locked".to_string()))
    );
}

#[test]
fn linux_has_a_backend() {
    assert_eq!(BACKEND_SERVICE, "password_manager_service");
    let backend = backend_for("linux").unwrap();
    assert_eq!(backend.service_name(), "password_manager_service");
    assert_eq!(backend, LinuxStorage::new("password_manager_service".to_string()));
}

#[test]
fn other_platforms_have_none() {
    let failure = StorageError::Platform("Platform not supported".to_string());
    for platform in ["macos", "windows", "Linux", "linux ", "", "freebsd"] {
        assert_eq!(backend_for(platform), Err(failure.clone()));
    }
    assert_eq!(failure.to_string(), "Platform error: Platform not supported");
}
