//! A locker for website credentials: every record is sealed with AES-256-GCM
//! under a master key before it is handed to a secret store, and opened again
//! after it is read back.
//!
//! The dispatcher in [`secure_storage::native_messaging`] answers the
//! requests; the envelope in [`secure_storage::envelope`] seals and opens;
//! [`secure_storage::SecureStorage`] is the contract that every store
//! meets. What is proved of them is proved from the contracts of the few
//! functions that call the cipher, the random source and the encoders.

pub mod secure_storage;
