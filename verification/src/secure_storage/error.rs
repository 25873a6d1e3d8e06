//! The failure kinds shared by every layer.

use vstd::prelude::*;
use vstd::string::*;

verus! {

/// Why an operation failed.
#[derive(Debug, Clone, PartialEq, Eq)]
pub enum StorageError {
    /// The backend could not carry out the operation.
    Storage(String),
    /// Sealing or opening failed, an authentication mismatch included.
    Encryption(String),
    /// A plaintext or a stored blob could not be encoded or decoded.
    Serialization(String),
    /// Nothing is stored under the requested id.
    NotFound,
    /// No backend exists for the host platform.
    Platform(String),
}

/// The mathematical value of a [`StorageError`]: its kind and its detail text.
pub enum StorageErrorView {
    Storage(Seq<char>),
    Encryption(Seq<char>),
    Serialization(Seq<char>),
    NotFound,
    Platform(Seq<char>),
}

impl StorageErrorView {
    /// The text shown for this failure.
    pub open spec fn message(self) -> Seq<char> {
        match self {
            StorageErrorView::Storage(detail) => "Storage error: "@ + detail,
            StorageErrorView::Encryption(detail) => "Encryption error: "@ + detail,
            StorageErrorView::Serialization(detail) => "Serialization error: "@ + detail,
            StorageErrorView::NotFound => "Item not found"@,
            StorageErrorView::Platform(detail) => "Platform error: "@ + detail,
        }
    }
}

impl View for StorageError {
    type V = StorageErrorView;

    open spec fn view(&self) -> StorageErrorView {
        match self {
            StorageError::Storage(detail) => StorageErrorView::Storage(detail@),
            StorageError::Encryption(detail) => StorageErrorView::Encryption(detail@),
            StorageError::Serialization(detail) => StorageErrorView::Serialization(detail@),
            StorageError::NotFound => StorageErrorView::NotFound,
            StorageError::Platform(detail) => StorageErrorView::Platform(detail@),
        }
    }
}

impl StorageError {
    /// The text shown for this failure: the kind, then the detail.
    pub fn to_string(&self) -> (text: String)
        ensures
            text@ == self@.message(),
    {
        match self {
            StorageError::Storage(detail) => String::from_str("Storage error: ").concat(
                detail.as_str(),
            ),
            StorageError::Encryption(detail) => String::from_str("Encryption error: ").concat(
                detail.as_str(),
            ),
            StorageError::Serialization(detail) => String::from_str(
                "Serialization error: ",
            ).concat(detail.as_str()),
            StorageError::NotFound => String::from_str("Item not found"),
            StorageError::Platform(detail) => String::from_str("Platform error: ").concat(
                detail.as_str(),
            ),
        }
    }
}

} // verus!
