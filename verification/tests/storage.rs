use davy_jones_locker::secure_storage::item::Credentials;
use davy_jones_locker::secure_storage::memory::MemoryStorage;
use davy_jones_locker::secure_storage::native_messaging::{
    ExtensionMessage, NativeMessaging, NativeResponse,
};
use davy_jones_locker::secure_storage::{SecureStorage, StorageError};

struct Broken;

impl SecureStorage for Broken {
    fn save(&mut self, _id: &str, _bytes: &[u8]) -> Result<(), StorageError> {
        Err(StorageError::Storage("down".to_string()))
    }

    fn load(&self, _id: &str) -> Result<Vec<u8>, StorageError> {
        Err(StorageError::Storage("down".to_string()))
    }

    fn delete(&mut self, _id: &str) -> Result<(), StorageError> {
        Err(StorageError::Storage("down".to_string()))
    }
}

fn bob() -> Credentials {
    Credentials {
        username: "bob".to_string(),
        password: "hunter2".to_string(),
        url: "https://example.org".to_string(),
    }
}

#[test]
fn an_empty_store_holds_nothing() {
    let mut store = MemoryStorage::new();
    assert_eq!(store.load("a"), Err(StorageError::NotFound));
    assert_eq!(store.delete("a"), Err(StorageError::NotFound));
}

#[test]
fn a_store_returns_the_bytes_last_saved() {
    let mut store = MemoryStorage::new();
    assert_eq!(store.save("a", &[1, 2, 3]), Ok(()));
    assert_eq!(store.save("b", &[]), Ok(()));
    assert_eq!(store.load("a"), Ok(vec![1, 2, 3]));
    assert_eq!(store.load("b"), Ok(vec![]));
    assert_eq!(store.save("a", &[4]), Ok(()));
    assert_eq!(store.load("a"), Ok(vec![4]));
    assert_eq!(store.load("b"), Ok(vec![]));
    assert_eq!(store.load(""), Err(StorageError::NotFound));
}

#[test]
fn a_store_forgets_what_is_deleted_and_nothing_else() {
    let mut store = MemoryStorage::new();
    store.save("a", &[1]).unwrap();
    store.save("b", &[2]).unwrap();
    store.save("c", &[3]).unwrap();
    assert_eq!(store.delete("b"), Ok(()));
    assert_eq!(store.load("a"), Ok(vec![1]));
    assert_eq!(store.load("b"), Err(StorageError::NotFound));
    assert_eq!(store.load("c"), Ok(vec![3]));
    assert_eq!(store.delete("b"), Err(StorageError::NotFound));
    assert_eq!(store.delete("a"), Ok(()));
    assert_eq!(store.delete("c"), Ok(()));
    assert_eq!(store.load("c"), Err(StorageError::NotFound));
}

#[test]
fn a_store_keeps_one_entry_for_an_id_saved_twice() {
    let mut store = MemoryStorage::new();
    store.save("a", &[1]).unwrap();
    store.save("a", &[2]).unwrap();
    assert_eq!(store.delete("a"), Ok(()));
    assert_eq!(store.load("a"), Err(StorageError::NotFound));
}

#[test]
fn the_failure_of_a_backend_becomes_an_answer() {
    let mut locker = NativeMessaging::new(&[0u8; 32], Broken);
    let down = NativeResponse::Error("Storage error: down".to_string());
    assert_eq!(
        locker.handle_message(ExtensionMessage::GetPassword { url: "u".to_string() }),
        down
    );
    assert_eq!(
        locker.handle_message(ExtensionMessage::SavePassword { credentials: bob() }),
        down
    );
    assert_eq!(
        locker.handle_message(ExtensionMessage::DeletePassword { url: "u".to_string() }),
        down
    );
    assert_eq!(locker.get_password("u"), Err(StorageError::Storage("down".to_string())));
    assert_eq!(locker.save_password(&bob()), Err(StorageError::Storage("down".to_string())));
    assert_eq!(locker.delete_password("u"), Err(StorageError::Storage("down".to_string())));
}
