//! The secret-service backend: how an entry of the store is laid out as an
//! item of the freedesktop secret service, and how the answers of that
//! service are read. The calls to the service itself are not made here.

use super::error::{StorageError, StorageErrorView};
use vstd::prelude::*;
use vstd::string::*;

verus! {

/// The schema under which the items are filed.
pub const SCHEMA_NAME: &'static str = "org.freedesktop.Secret.Generic";

/// The name of the attribute that holds the service identifier.
pub const SERVICE_ATTRIBUTE: &'static str = "service";

/// The name of the attribute that holds the id of an entry.
pub const ID_ATTRIBUTE: &'static str = "id";

/// The longest byte string that is accepted for an entry: its text form
/// must still fit in memory.
pub const MAX_ENTRY_LEN: usize = 0x3fff_ffff;

/// The text that base64, with the standard alphabet and padding, gives for
/// a byte string.
pub uninterp spec fn base64_text(data: Seq<u8>) -> Seq<char>;

/// The byte string that a base64 text stands for, or the text of the
/// failure to read it.
pub uninterp spec fn base64_data(text: Seq<char>) -> Result<Seq<u8>, Seq<char>>;

/// Calls `base64::encode`. Trusted: `base64::decode` reads the same bytes
/// back from the text that it returns.
#[verifier::external_body]
fn base64_encode(data: &[u8]) -> (res: String)
    requires
        data@.len() <= MAX_ENTRY_LEN,
    ensures
        res@ == base64_text(data@),
        base64_data(res@) is Ok,
        base64_data(res@)->Ok_0 == data@,
{
    base64::encode(data)
}

/// Calls `base64::decode`. Trusted: the result depends on the text
/// alone. The call would panic only on a text within seven bytes of
/// `usize::MAX`, and no string is that long.
#[verifier::external_body]
fn base64_decode(text: &str) -> (res: Result<Vec<u8>, String>)
    ensures
        res matches Ok(data) ==> (base64_data(text@) matches Ok(read) && read == data@),
        res matches Err(failure) ==> (base64_data(text@) matches Err(reported) && reported
            == failure@),
{
    base64::decode(text).map_err(|e| e.to_string())
}

/// The attributes by which the secret service finds an item.
#[derive(Debug, Clone, PartialEq, Eq)]
pub struct ItemAttributes {
    pub service: String,
    pub id: String,
}

/// An item as it is handed to the secret service.
#[derive(Debug, Clone, PartialEq, Eq)]
pub struct SecretItem {
    pub attributes: ItemAttributes,
    pub label: String,
    pub secret: String,
}

/// The layout of the store's entries in the secret service, under one
/// service identifier.
#[derive(Debug, Clone, PartialEq, Eq)]
pub struct LinuxStorage {
    service_name: String,
}

/// The failure reported for an entry over [`MAX_ENTRY_LEN`].
pub open spec fn entry_too_long() -> StorageErrorView {
    StorageErrorView::Storage("entry is too long"@)
}

/// The bytes of the entry that a secret stands for.
pub open spec fn secret_bytes(secret: Seq<char>) -> Result<Seq<u8>, StorageErrorView> {
    match base64_data(secret) {
        Ok(bytes) => Ok(bytes),
        Err(failure) => Err(StorageErrorView::Serialization(failure)),
    }
}

/// What the store answers to `load`, for what the service's lookup gave:
/// the secret's text, nothing, or the text of a failure.
pub open spec fn read_lookup(outcome: Result<Option<String>, String>) -> Result<
    Seq<u8>,
    StorageErrorView,
> {
    match outcome {
        Err(failure) => Err(StorageErrorView::Storage(failure@)),
        Ok(None) => Err(StorageErrorView::NotFound),
        Ok(Some(secret)) => secret_bytes(secret@),
    }
}

impl LinuxStorage {
    /// The service identifier.
    pub closed spec fn service(&self) -> Seq<char> {
        self.service_name@
    }

    /// The layout under the given service identifier.
    pub fn new(service_name: String) -> (storage: Self)
        ensures
            storage.service() == service_name@,
    {
        LinuxStorage { service_name }
    }

    /// The service identifier.
    pub fn service_name(&self) -> (name: &str)
        ensures
            name@ == self.service(),
    {
        self.service_name.as_str()
    }

    /// The attributes of the item that stands for the entry `id`.
    pub fn attributes(&self, id: &str) -> (found: ItemAttributes)
        ensures
            found.service@ == self.service(),
            found.id@ == id@,
    {
        ItemAttributes { service: self.service_name.clone(), id: String::from_str(id) }
    }

    /// The item that stands for the entry `id` with the given bytes: the
    /// label is the service identifier, a slash and the id, and the secret
    /// is the base64 text of the bytes, from which `loaded` reads the same
    /// bytes back.
    pub fn item(&self, id: &str, bytes: &[u8]) -> (res: Result<SecretItem, StorageError>)
        ensures
            bytes@.len() <= MAX_ENTRY_LEN ==> (res matches Ok(item) && item.attributes.service@
                == self.service() && item.attributes.id@ == id@ && item.label@ == self.service()
                + "/"@ + id@ && item.secret@ == base64_text(bytes@)),
            bytes@.len() > MAX_ENTRY_LEN ==> (res matches Err(failure) && failure@
                == entry_too_long()),
            res matches Ok(item) ==> secret_bytes(item.secret@) == Ok::<Seq<u8>, StorageErrorView>(
                bytes@,
            ),
    {
        if bytes.len() > MAX_ENTRY_LEN {
            return Err(StorageError::Storage(String::from_str("entry is too long")));
        }
        let label = self.service_name.clone().concat("/").concat(id);
        Ok(SecretItem { attributes: self.attributes(id), label, secret: base64_encode(bytes) })
    }

    /// What the store answers to `save` or `delete`, for what the service
    /// answered to the request.
    pub fn completed(outcome: Result<(), String>) -> (res: Result<(), StorageError>)
        ensures
            outcome is Ok ==> res is Ok,
            outcome matches Err(failure) ==> (res matches Err(e) && e@ == StorageErrorView::Storage(
                failure@,
            )),
    {
        match outcome {
            Ok(()) => Ok(()),
            Err(failure) => Err(StorageError::Storage(failure)),
        }
    }

    /// Whether there is an entry to delete, for what the service's lookup
    /// gave: `NotFound` where it gave nothing.
    pub fn present(outcome: Result<Option<String>, String>) -> (res: Result<(), StorageError>)
        ensures
            outcome matches Ok(Some(_)) ==> res is Ok,
            outcome matches Ok(None) ==> (res matches Err(e) && e@ == StorageErrorView::NotFound),
            outcome matches Err(failure) ==> (res matches Err(e) && e@ == StorageErrorView::Storage(
                failure@,
            )),
    {
        match outcome {
            Ok(Some(_)) => Ok(()),
            Ok(None) => Err(StorageError::NotFound),
            Err(failure) => Err(StorageError::Storage(failure)),
        }
    }

    /// What the store answers to `load`, for what the service's lookup
    /// gave.
    pub fn loaded(outcome: Result<Option<String>, String>) -> (res: Result<Vec<u8>, StorageError>)
        ensures
            match read_lookup(outcome) {
                Ok(bytes) => res matches Ok(found) && found@ == bytes,
                Err(failure) => res matches Err(e) && e@ == failure,
            },
    {
        match outcome {
            Err(failure) => Err(StorageError::Storage(failure)),
            Ok(None) => Err(StorageError::NotFound),
            Ok(Some(secret)) => match base64_decode(secret.as_str()) {
                Ok(bytes) => Ok(bytes),
                Err(failure) => Err(StorageError::Serialization(failure)),
            },
        }
    }
}

} // verus!
