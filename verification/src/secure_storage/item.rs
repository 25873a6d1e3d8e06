//! The values that travel through the locker: the plaintext credential record
//! and the sealed record that is stored in its place.

use super::error::{StorageError, StorageErrorView};
use vstd::prelude::*;
use vstd::slice::*;
use vstd::string::*;

verus! {

/// The service identifier under which the locker keeps its entries.
pub const SERVICE_NAME: &'static str = "davy-jones-locker";

/// The length of a nonce in bytes (96 bits).
pub const NONCE_LEN: usize = 12;

/// A sealed record: the ciphertext of one credential record together with
/// the nonce that produced it.
#[derive(Debug, Clone, PartialEq, Eq)]
pub struct EncryptedItem {
    pub id: String,
    pub encrypted_data: Vec<u8>,
    pub nonce: Vec<u8>,
}

/// A credential record in the clear. `url` is its key.
#[derive(Debug, Clone, PartialEq, Eq)]
pub struct Credentials {
    pub username: String,
    pub password: String,
    pub url: String,
}

/// The mathematical value of an [`EncryptedItem`].
pub struct EncryptedItemView {
    pub id: Seq<char>,
    pub encrypted_data: Seq<u8>,
    pub nonce: Seq<u8>,
}

/// The mathematical value of a [`Credentials`] record.
pub struct CredentialsView {
    pub username: Seq<char>,
    pub password: Seq<char>,
    pub url: Seq<char>,
}

impl View for EncryptedItem {
    type V = EncryptedItemView;

    open spec fn view(&self) -> EncryptedItemView {
        EncryptedItemView {
            id: self.id@,
            encrypted_data: self.encrypted_data@,
            nonce: self.nonce@,
        }
    }
}

impl View for Credentials {
    type V = CredentialsView;

    open spec fn view(&self) -> CredentialsView {
        CredentialsView { username: self.username@, password: self.password@, url: self.url@ }
    }
}

impl EncryptedItemView {
    /// A record is well formed when its nonce has the fixed length.
    pub open spec fn wf(self) -> bool {
        self.nonce.len() == NONCE_LEN
    }

    /// The single byte string that stands for the record in a store: the
    /// nonce, then the ciphertext.
    pub open spec fn blob(self) -> Seq<u8> {
        self.nonce + self.encrypted_data
    }
}

/// The record that a stored byte string stands for, if it is long enough to
/// hold a nonce.
pub open spec fn item_of_blob(id: Seq<char>, blob: Seq<u8>) -> Option<EncryptedItemView> {
    if blob.len() < NONCE_LEN {
        None
    } else {
        Some(
            EncryptedItemView {
                id,
                encrypted_data: blob.subrange(NONCE_LEN as int, blob.len() as int),
                nonce: blob.subrange(0, NONCE_LEN as int),
            },
        )
    }
}

/// The failure reported for a record whose nonce has the wrong length.
pub open spec fn bad_nonce_failure() -> StorageErrorView {
    StorageErrorView::Serialization("nonce must be 12 bytes long"@)
}

/// The failure reported for a stored byte string too short to hold a nonce.
pub open spec fn short_blob_failure() -> StorageErrorView {
    StorageErrorView::Serialization("stored record is shorter than its nonce"@)
}

/// Reading back the byte string of a well-formed record gives that record.
pub proof fn lemma_blob_round_trip(item: EncryptedItemView)
    requires
        item.wf(),
    ensures
        item_of_blob(item.id, item.blob()) == Some(item),
{
    let back = item_of_blob(item.id, item.blob())->0;
    assert(back.nonce =~= item.nonce);
    assert(back.encrypted_data =~= item.encrypted_data);
}

impl EncryptedItem {
    /// Serializes nonce and ciphertext together into the one byte string
    /// that a store keeps for the record.
    pub fn to_blob(&self) -> (res: Result<Vec<u8>, StorageError>)
        ensures
            self@.wf() ==> (res matches Ok(blob) && blob@ == self@.blob()),
            !self@.wf() ==> (res matches Err(e) && e@ == bad_nonce_failure()),
    {
        if self.nonce.len() != NONCE_LEN {
            return Err(StorageError::Serialization(String::from_str("nonce must be 12 bytes long")));
        }
        let mut blob: Vec<u8> = Vec::new();
        blob.extend_from_slice(self.nonce.as_slice());
        blob.extend_from_slice(self.encrypted_data.as_slice());
        assert(blob@ =~= self@.blob());
        Ok(blob)
    }

    /// Splits a stored byte string back into the record with the given id.
    pub fn from_blob(id: &str, blob: &[u8]) -> (res: Result<EncryptedItem, StorageError>)
        ensures
            match item_of_blob(id@, blob@) {
                Some(item) => res matches Ok(found) && found@ == item,
                None => res matches Err(e) && e@ == short_blob_failure(),
            },
    {
        if blob.len() < NONCE_LEN {
            return Err(
                StorageError::Serialization(
                    String::from_str("stored record is shorter than its nonce"),
                ),
            );
        }
        let nonce = slice_to_vec(slice_subrange(blob, 0, NONCE_LEN));
        let encrypted_data = slice_to_vec(slice_subrange(blob, NONCE_LEN, blob.len()));
        Ok(EncryptedItem { id: String::from_str(id), encrypted_data, nonce })
    }
}

} // verus!
