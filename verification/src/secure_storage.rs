//! The contract of a store, the envelope that seals what goes into it, and the
//! dispatcher that answers requests.

pub mod error;
pub mod codec;
pub mod envelope;
pub mod item;
pub mod linux;
pub mod memory;
pub mod native_messaging;

pub use error::StorageError;
pub use item::EncryptedItem;

use error::StorageErrorView;
use vstd::prelude::*;

verus! {

/// What a store may do when asked to keep `bytes` under `id` while it holds
/// `before`: keep them, in place of what was there, or fail as a backend
/// and leave all as it is.
pub open spec fn save_allowed(
    before: Map<Seq<char>, Seq<u8>>,
    id: Seq<char>,
    bytes: Seq<u8>,
    outcome: Result<(), StorageErrorView>,
    after: Map<Seq<char>, Seq<u8>>,
) -> bool {
    match outcome {
        Ok(_) => after == before.insert(id, bytes),
        Err(failure) => failure is Storage && after == before,
    }
}

/// What a store may answer when asked for `id` while it holds `entries`:
/// the bytes kept under `id`, or a failure, which is `NotFound` only if
/// nothing is kept there.
pub open spec fn load_allowed(
    entries: Map<Seq<char>, Seq<u8>>,
    id: Seq<char>,
    outcome: Result<Seq<u8>, StorageErrorView>,
) -> bool {
    match outcome {
        Ok(bytes) => entries.contains_key(id) && entries[id] == bytes,
        Err(failure) => failure is NotFound ==> !entries.contains_key(id),
    }
}

/// What a store may do when asked to remove `id` while it holds `before`:
/// remove the entry, or report that there is none, or fail as a backend;
/// where it does not remove, it leaves all as it is.
pub open spec fn delete_allowed(
    before: Map<Seq<char>, Seq<u8>>,
    id: Seq<char>,
    outcome: Result<(), StorageErrorView>,
    after: Map<Seq<char>, Seq<u8>>,
) -> bool {
    match outcome {
        Ok(_) => before.contains_key(id) && after == before.remove(id),
        Err(failure) => after == before && (failure is Storage || (failure is NotFound
            && !before.contains_key(id))),
    }
}

/// A load was answered by the store itself: with bytes, or with the report
/// that there are none. The backend did not fail.
pub open spec fn store_answered(loaded: Result<Seq<u8>, StorageErrorView>) -> bool {
    loaded matches Err(failure) ==> failure is NotFound
}

/// `held` is what a store holds, as far as the store states it.
pub open spec fn agrees(
    stated: Option<Map<Seq<char>, Seq<u8>>>,
    held: Map<Seq<char>, Seq<u8>>,
) -> bool {
    stated matches Some(entries) ==> entries == held
}

/// The view of what `load` returned.
pub open spec fn loaded_view(outcome: Result<Vec<u8>, StorageError>) -> Result<
    Seq<u8>,
    StorageErrorView,
> {
    match outcome {
        Ok(bytes) => Ok(bytes@),
        Err(failure) => Err(failure@),
    }
}

/// The view of what `save` or `delete` returned.
pub open spec fn done_view(outcome: Result<(), StorageError>) -> Result<(), StorageErrorView> {
    match outcome {
        Ok(_) => Ok(()),
        Err(failure) => Err(failure@),
    }
}

/// A store of byte strings keyed by id. It knows nothing of what the bytes
/// mean. Every backend meets this one contract.
pub trait SecureStorage {
    /// What the store holds, where the backend can say: for each id, the
    /// bytes last saved under it. A backend whose entries live outside the
    /// process states none; the contract then speaks of its answers only.
    open spec fn entries(&self) -> Option<Map<Seq<char>, Seq<u8>>> {
        None
    }

    /// Whether the backend never fails on its own account, so that the only
    /// failure it reports is that an id is absent. No backend is taken to
    /// be so unless it says it.
    open spec fn reliable(&self) -> bool {
        false
    }

    /// Keeps `bytes` under `id`, in place of what was kept there before.
    fn save(&mut self, id: &str, bytes: &[u8]) -> (res: Result<(), StorageError>)
        ensures
            res matches Err(failure) ==> failure is Storage,
            old(self).reliable() ==> res is Ok,
            final(self).reliable() == old(self).reliable(),
            final(self).entries() is Some <==> old(self).entries() is Some,
            old(self).entries() matches Some(before) ==> (final(self).entries() matches Some(after)
                && save_allowed(before, id@, bytes@, done_view(res), after)),
    ;

    /// Returns exactly the bytes last saved under `id`.
    fn load(&self, id: &str) -> (res: Result<Vec<u8>, StorageError>)
        ensures
            self.reliable() ==> store_answered(loaded_view(res)),
            self.entries() matches Some(held) ==> load_allowed(held, id@, loaded_view(res)),
    ;

    /// Removes what is kept under `id`; reports `NotFound` if nothing is.
    fn delete(&mut self, id: &str) -> (res: Result<(), StorageError>)
        ensures
            res matches Err(failure) ==> failure is Storage || failure is NotFound,
            old(self).reliable() ==> (res matches Err(failure) ==> failure is NotFound),
            final(self).reliable() == old(self).reliable(),
            final(self).entries() is Some <==> old(self).entries() is Some,
            old(self).entries() matches Some(before) ==> (final(self).entries() matches Some(after)
                && delete_allowed(before, id@, done_view(res), after)),
    ;
}

} // verus!
