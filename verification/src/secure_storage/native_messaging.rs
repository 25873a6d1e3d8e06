//! The dispatcher: it answers each request of the browser extension by
//! sealing or opening a credential record and by one call to the store.

use super::codec::{decode_credentials, decoded, encode_credentials, encoded};
use super::envelope::{
    aes256_gcm_opened, encryption_failure, opened, sealed, Envelope, KEY_LEN,
};
use super::error::{StorageError, StorageErrorView};
use super::item::{
    item_of_blob, lemma_blob_round_trip, short_blob_failure, Credentials, CredentialsView,
    EncryptedItem, NONCE_LEN,
};
use super::linux::LinuxStorage;
use super::{
    agrees, delete_allowed, done_view, load_allowed, loaded_view, save_allowed, store_answered,
    SecureStorage,
};
use vstd::prelude::*;
use vstd::string::*;

verus! {

/// A request of the browser extension.
#[derive(Debug, Clone, PartialEq, Eq)]
pub enum ExtensionMessage {
    GetPassword { url: String },
    SavePassword { credentials: Credentials },
    DeletePassword { url: String },
}

/// The answer to a request.
#[derive(Debug, Clone, PartialEq, Eq)]
pub enum NativeResponse {
    Password(Credentials),
    Success,
    Error(String),
}

/// The mathematical value of an [`ExtensionMessage`].
pub enum ExtensionMessageView {
    GetPassword { url: Seq<char> },
    SavePassword { credentials: CredentialsView },
    DeletePassword { url: Seq<char> },
}

/// The mathematical value of a [`NativeResponse`].
pub enum NativeResponseView {
    Password(CredentialsView),
    Success,
    Error(Seq<char>),
}

impl View for ExtensionMessage {
    type V = ExtensionMessageView;

    open spec fn view(&self) -> ExtensionMessageView {
        match self {
            ExtensionMessage::GetPassword { url } => ExtensionMessageView::GetPassword { url: url@ },
            ExtensionMessage::SavePassword { credentials } => ExtensionMessageView::SavePassword {
                credentials: credentials@,
            },
            ExtensionMessage::DeletePassword { url } => ExtensionMessageView::DeletePassword {
                url: url@,
            },
        }
    }
}

impl View for NativeResponse {
    type V = NativeResponseView;

    open spec fn view(&self) -> NativeResponseView {
        match self {
            NativeResponse::Password(credentials) => NativeResponseView::Password(credentials@),
            NativeResponse::Success => NativeResponseView::Success,
            NativeResponse::Error(text) => NativeResponseView::Error(text@),
        }
    }
}

/// The view of a credential record or a failure.
pub open spec fn found_view(outcome: Result<Credentials, StorageError>) -> Result<
    CredentialsView,
    StorageErrorView,
> {
    match outcome {
        Ok(credentials) => Ok(credentials@),
        Err(failure) => Err(failure@),
    }
}

/// The answer that carries a credential record, or the text of a failure.
pub open spec fn password_response(
    outcome: Result<CredentialsView, StorageErrorView>,
) -> NativeResponseView {
    match outcome {
        Ok(credentials) => NativeResponseView::Password(credentials),
        Err(failure) => NativeResponseView::Error(failure.message()),
    }
}

/// The answer that reports success, or the text of a failure.
pub open spec fn success_response(outcome: Result<(), StorageErrorView>) -> NativeResponseView {
    match outcome {
        Ok(_) => NativeResponseView::Success,
        Err(failure) => NativeResponseView::Error(failure.message()),
    }
}

/// The stored form of a credential record under a key and a nonce: the
/// nonce, then the ciphertext of the record's plaintext.
pub open spec fn sealed_record(
    key: Seq<u8>,
    nonce: Seq<u8>,
    credentials: CredentialsView,
) -> Result<Seq<u8>, StorageErrorView> {
    match encoded(credentials) {
        Err(failure) => Err(failure),
        Ok(plaintext) => match sealed(key, nonce, plaintext) {
            Err(failure) => Err(failure),
            Ok(ciphertext) => Ok(nonce + ciphertext),
        },
    }
}

/// The credential record that a stored byte string holds under a key.
pub open spec fn unsealed(key: Seq<u8>, id: Seq<char>, blob: Seq<u8>) -> Result<
    CredentialsView,
    StorageErrorView,
> {
    match item_of_blob(id, blob) {
        None => Err(short_blob_failure()),
        Some(item) => match opened(key, item.nonce, item.encrypted_data) {
            Err(failure) => Err(failure),
            Ok(plaintext) => decoded(plaintext),
        },
    }
}

/// What a request for the record of `url` gives, for what the store
/// answered to the load.
pub open spec fn get_outcome(
    key: Seq<u8>,
    url: Seq<char>,
    loaded: Result<Seq<u8>, StorageErrorView>,
) -> Result<CredentialsView, StorageErrorView> {
    match loaded {
        Err(failure) => Err(failure),
        Ok(blob) => unsealed(key, url, blob),
    }
}

/// The answer to a request for the record of `url`, for what the store
/// answered to the load.
pub open spec fn get_answer(
    key: Seq<u8>,
    url: Seq<char>,
    loaded: Result<Seq<u8>, StorageErrorView>,
) -> NativeResponseView {
    password_response(get_outcome(key, url, loaded))
}

/// What is handed to the store for a record, for what the random source
/// gave: a nonce or a failure.
pub open spec fn save_record(
    key: Seq<u8>,
    credentials: CredentialsView,
    drawn: Result<Seq<u8>, StorageErrorView>,
) -> Result<Seq<u8>, StorageErrorView> {
    match encoded(credentials) {
        Err(failure) => Err(failure),
        Ok(plaintext) => match drawn {
            Err(failure) => Err(failure),
            Ok(nonce) => sealed_record(key, nonce, credentials),
        },
    }
}

/// What a request to save a record gives, for what the random source gave
/// and what the store answered: the first failure, or success.
pub open spec fn save_outcome(
    key: Seq<u8>,
    credentials: CredentialsView,
    drawn: Result<Seq<u8>, StorageErrorView>,
    stored: Result<(), StorageErrorView>,
) -> Result<(), StorageErrorView> {
    match save_record(key, credentials, drawn) {
        Err(failure) => Err(failure),
        Ok(_) => stored,
    }
}

/// What a request to save a record does to the store, for what the random
/// source gave and what the store answered: where a record could be
/// sealed, it is handed to the store under its url, in a form that opens
/// to the record again; else nothing changes.
pub open spec fn save_step(
    key: Seq<u8>,
    credentials: CredentialsView,
    drawn: Result<Seq<u8>, StorageErrorView>,
    stored: Result<(), StorageErrorView>,
    before: Map<Seq<char>, Seq<u8>>,
    after: Map<Seq<char>, Seq<u8>>,
) -> bool {
    &&& drawn matches Ok(nonce) ==> nonce.len() == NONCE_LEN
    &&& drawn matches Err(failure) ==> failure is Encryption
    &&& match save_record(key, credentials, drawn) {
        Err(_) => after == before,
        Ok(blob) => save_allowed(before, credentials.url, blob, stored, after) && unsealed(
            key,
            credentials.url,
            blob,
        ) == Ok::<CredentialsView, StorageErrorView>(credentials),
    }
}

/// A request for the record of `url` while the store holds `before`: the
/// store is left as it is, and the answer is the record that the store's
/// answer holds, or the text of the first failure. A reliable store
/// answers the load itself.
pub open spec fn get_handled(
    key: Seq<u8>,
    reliable: bool,
    before: Map<Seq<char>, Seq<u8>>,
    url: Seq<char>,
    after: Map<Seq<char>, Seq<u8>>,
    response: NativeResponseView,
) -> bool {
    &&& after == before
    &&& exists|loaded: Result<Seq<u8>, StorageErrorView>| #[trigger]
        load_allowed(before, url, loaded) && (reliable ==> store_answered(loaded)) && response
            == get_answer(key, url, loaded)
}

/// A request to save a record while the store holds `before`. A reliable
/// store keeps what it is handed.
pub open spec fn save_handled(
    key: Seq<u8>,
    reliable: bool,
    before: Map<Seq<char>, Seq<u8>>,
    credentials: CredentialsView,
    after: Map<Seq<char>, Seq<u8>>,
    response: NativeResponseView,
) -> bool {
    exists|drawn: Result<Seq<u8>, StorageErrorView>, stored: Result<(), StorageErrorView>| #[trigger]
        save_step(key, credentials, drawn, stored, before, after) && (reliable ==> stored is Ok)
            && response == success_response(save_outcome(key, credentials, drawn, stored))
}

/// A request to delete the record of `url` while the store holds `before`.
/// A reliable store removes the entry or reports that there is none.
pub open spec fn delete_handled(
    reliable: bool,
    before: Map<Seq<char>, Seq<u8>>,
    url: Seq<char>,
    after: Map<Seq<char>, Seq<u8>>,
    response: NativeResponseView,
) -> bool {
    exists|deleted: Result<(), StorageErrorView>| #[trigger]
        delete_allowed(before, url, deleted, after) && (reliable ==> (deleted matches Err(failure)
            ==> failure is NotFound)) && response == success_response(deleted)
}

/// What the dispatcher does with one request while the store holds
/// `before`: what the store holds afterwards, and what is answered.
pub open spec fn handled(
    key: Seq<u8>,
    reliable: bool,
    before: Map<Seq<char>, Seq<u8>>,
    message: ExtensionMessageView,
    after: Map<Seq<char>, Seq<u8>>,
    response: NativeResponseView,
) -> bool {
    match message {
        ExtensionMessageView::GetPassword { url } => get_handled(
            key,
            reliable,
            before,
            url,
            after,
            response,
        ),
        ExtensionMessageView::SavePassword { credentials } => save_handled(
            key,
            reliable,
            before,
            credentials,
            after,
            response,
        ),
        ExtensionMessageView::DeletePassword { url } => delete_handled(
            reliable,
            before,
            url,
            after,
            response,
        ),
    }
}

/// The answer that nothing is kept under the requested url.
pub open spec fn not_found_response() -> NativeResponseView {
    NativeResponseView::Error(StorageErrorView::NotFound.message())
}

/// The answer carries the text of a failure of the store's own: any
/// failure but the report that an id is absent.
pub open spec fn store_failed(response: NativeResponseView) -> bool {
    exists|failure: StorageErrorView|
        !(failure is NotFound) && response == NativeResponseView::Error(
            #[trigger] failure.message(),
        )
}

/// What a successful request to save a record leaves in the store: under
/// the record's url, a byte string that opens to the record; elsewhere,
/// what was there.
proof fn lemma_saved(
    key: Seq<u8>,
    reliable: bool,
    before: Map<Seq<char>, Seq<u8>>,
    credentials: CredentialsView,
    after: Map<Seq<char>, Seq<u8>>,
)
    requires
        save_handled(key, reliable, before, credentials, after, NativeResponseView::Success),
    ensures
        after.contains_key(credentials.url),
        after == before.insert(credentials.url, after[credentials.url]),
        unsealed(key, credentials.url, after[credentials.url]) == Ok::<
            CredentialsView,
            StorageErrorView,
        >(credentials),
{
    let (drawn, stored) = choose|
        drawn: Result<Seq<u8>, StorageErrorView>,
        stored: Result<(), StorageErrorView>,
    | #[trigger]
        save_step(key, credentials, drawn, stored, before, after) && (reliable ==> stored is Ok)
            && NativeResponseView::Success == success_response(
            save_outcome(key, credentials, drawn, stored),
        );
    assert(save_step(key, credentials, drawn, stored, before, after));
}

/// The answer to a request for a url under which nothing is kept: "not
/// found", or the text of a failure of the store's own.
proof fn lemma_absent(
    key: Seq<u8>,
    reliable: bool,
    held: Map<Seq<char>, Seq<u8>>,
    url: Seq<char>,
    after: Map<Seq<char>, Seq<u8>>,
    response: NativeResponseView,
)
    requires
        !held.contains_key(url),
        get_handled(key, reliable, held, url, after, response),
    ensures
        after == held,
        response == not_found_response() || (!reliable && store_failed(response)),
{
    let loaded = choose|loaded: Result<Seq<u8>, StorageErrorView>| #[trigger]
        load_allowed(held, url, loaded) && (reliable ==> store_answered(loaded)) && response
            == get_answer(key, url, loaded);
    assert(load_allowed(held, url, loaded));
    let failure = loaded->Err_0;
    if !(failure is NotFound) {
        assert(response == NativeResponseView::Error(failure.message()));
    }
}

/// Round trip: after a request to save a record was answered with success,
/// a request for the record's url is answered with that record. (Or, by a
/// store that is not reliable, with the text of a failure of its own.)
pub proof fn lemma_saved_record_is_returned(
    key: Seq<u8>,
    reliable: bool,
    before: Map<Seq<char>, Seq<u8>>,
    credentials: CredentialsView,
    after: Map<Seq<char>, Seq<u8>>,
    last: Map<Seq<char>, Seq<u8>>,
    response: NativeResponseView,
)
    requires
        handled(
            key,
            reliable,
            before,
            ExtensionMessageView::SavePassword { credentials },
            after,
            NativeResponseView::Success,
        ),
        handled(
            key,
            reliable,
            after,
            ExtensionMessageView::GetPassword { url: credentials.url },
            last,
            response,
        ),
    ensures
        last == after,
        response == NativeResponseView::Password(credentials) || (!reliable && store_failed(
            response,
        )),
{
    lemma_saved(key, reliable, before, credentials, after);
    let url = credentials.url;
    let loaded = choose|loaded: Result<Seq<u8>, StorageErrorView>| #[trigger]
        load_allowed(after, url, loaded) && (reliable ==> store_answered(loaded)) && response
            == get_answer(key, url, loaded);
    assert(load_allowed(after, url, loaded));
    if loaded is Err {
        let failure = loaded->Err_0;
        assert(response == NativeResponseView::Error(failure.message()));
    }
}

/// Deletion: after a request to delete the record of a url was answered
/// with success, nothing is kept under that url, and a request for it is
/// answered with "not found". (Or, by a store that is not reliable, with
/// the text of a failure of its own.)
pub proof fn lemma_deleted_record_is_not_found(
    key: Seq<u8>,
    reliable: bool,
    before: Map<Seq<char>, Seq<u8>>,
    url: Seq<char>,
    after: Map<Seq<char>, Seq<u8>>,
    last: Map<Seq<char>, Seq<u8>>,
    response: NativeResponseView,
)
    requires
        handled(
            key,
            reliable,
            before,
            ExtensionMessageView::DeletePassword { url },
            after,
            NativeResponseView::Success,
        ),
        handled(key, reliable, after, ExtensionMessageView::GetPassword { url }, last, response),
    ensures
        !after.contains_key(url),
        last == after,
        response == not_found_response() || (!reliable && store_failed(response)),
{
    let deleted = choose|deleted: Result<(), StorageErrorView>| #[trigger]
        delete_allowed(before, url, deleted, after) && (reliable ==> (deleted matches Err(failure)
            ==> failure is NotFound)) && NativeResponseView::Success == success_response(deleted);
    assert(delete_allowed(before, url, deleted, after));
    lemma_absent(key, reliable, after, url, last, response);
}

/// Absence: while nothing is kept under a url, a request for it is
/// answered with "not found". (Or, by a store that is not reliable, with
/// the text of a failure of its own.)
pub proof fn lemma_absent_record_is_not_found(
    key: Seq<u8>,
    reliable: bool,
    held: Map<Seq<char>, Seq<u8>>,
    url: Seq<char>,
    after: Map<Seq<char>, Seq<u8>>,
    response: NativeResponseView,
)
    requires
        !held.contains_key(url),
        handled(key, reliable, held, ExtensionMessageView::GetPassword { url }, after, response),
    ensures
        after == held,
        response == not_found_response() || (!reliable && store_failed(response)),
{
    lemma_absent(key, reliable, held, url, after, response);
}

/// Only a request to save a record under a url, answered with success,
/// makes the store keep something under that url: an id that was never
/// saved stays absent.
pub proof fn lemma_absent_until_saved(
    key: Seq<u8>,
    reliable: bool,
    before: Map<Seq<char>, Seq<u8>>,
    message: ExtensionMessageView,
    after: Map<Seq<char>, Seq<u8>>,
    response: NativeResponseView,
    id: Seq<char>,
)
    requires
        handled(key, reliable, before, message, after, response),
        !before.contains_key(id),
        after.contains_key(id),
    ensures
        message matches ExtensionMessageView::SavePassword { credentials } && credentials.url == id
            && response == NativeResponseView::Success,
{
    match message {
        ExtensionMessageView::GetPassword { url } => {},
        ExtensionMessageView::SavePassword { credentials } => {
            let (drawn, stored) = choose|
                drawn: Result<Seq<u8>, StorageErrorView>,
                stored: Result<(), StorageErrorView>,
            | #[trigger]
                save_step(key, credentials, drawn, stored, before, after) && (reliable
                    ==> stored is Ok) && response == success_response(
                    save_outcome(key, credentials, drawn, stored),
                );
            assert(save_step(key, credentials, drawn, stored, before, after));
        },
        ExtensionMessageView::DeletePassword { url } => {
            let deleted = choose|deleted: Result<(), StorageErrorView>| #[trigger]
                delete_allowed(before, url, deleted, after) && (reliable ==> (deleted matches Err(
                    failure,
                ) ==> failure is NotFound)) && response == success_response(deleted);
            assert(delete_allowed(before, url, deleted, after));
        },
    }
}

/// Overwrite: after two requests to save records with the same url, each
/// answered with success, the store keeps one entry under that url and
/// what it kept elsewhere; and a request for the url is answered with the
/// second record. (Or, by a store that is not reliable, with the text of a
/// failure of its own.)
pub proof fn lemma_second_save_replaces_first(
    key: Seq<u8>,
    reliable: bool,
    before: Map<Seq<char>, Seq<u8>>,
    first: CredentialsView,
    between: Map<Seq<char>, Seq<u8>>,
    second: CredentialsView,
    after: Map<Seq<char>, Seq<u8>>,
    last: Map<Seq<char>, Seq<u8>>,
    response: NativeResponseView,
)
    requires
        first.url == second.url,
        handled(
            key,
            reliable,
            before,
            ExtensionMessageView::SavePassword { credentials: first },
            between,
            NativeResponseView::Success,
        ),
        handled(
            key,
            reliable,
            between,
            ExtensionMessageView::SavePassword { credentials: second },
            after,
            NativeResponseView::Success,
        ),
        handled(
            key,
            reliable,
            after,
            ExtensionMessageView::GetPassword { url: second.url },
            last,
            response,
        ),
    ensures
        after.dom() == before.dom().insert(second.url),
        after.remove(second.url) == before.remove(second.url),
        last == after,
        response == NativeResponseView::Password(second) || (!reliable && store_failed(response)),
{
    lemma_saved(key, reliable, before, first, between);
    lemma_saved(key, reliable, between, second, after);
    lemma_saved_record_is_returned(key, reliable, between, second, after, last, response);
    assert(after.dom() =~= before.dom().insert(second.url));
    assert(after.remove(second.url) =~= before.remove(second.url));
}

/// A record is returned only for a byte string that the cipher accepts
/// under the key, and it is the record that the plaintext holds.
pub proof fn lemma_returned_record_was_sealed(
    key: Seq<u8>,
    url: Seq<char>,
    loaded: Result<Seq<u8>, StorageErrorView>,
    credentials: CredentialsView,
)
    requires
        get_answer(key, url, loaded) == NativeResponseView::Password(credentials),
    ensures
        loaded is Ok,
        item_of_blob(url, loaded->Ok_0) is Some,
        ({
            let item = item_of_blob(url, loaded->Ok_0)->0;
            let plaintext = aes256_gcm_opened(key, item.nonce, item.encrypted_data);
            plaintext is Some && decoded(plaintext->0) == Ok::<CredentialsView, StorageErrorView>(
                credentials,
            )
        }),
{
}

/// A stored byte string that the cipher rejects under the key is answered
/// with the one encryption failure, whatever made the cipher reject it.
pub proof fn lemma_rejected_record_is_refused(key: Seq<u8>, url: Seq<char>, blob: Seq<u8>)
    requires
        item_of_blob(url, blob) matches Some(item) && aes256_gcm_opened(
            key,
            item.nonce,
            item.encrypted_data,
        ) is None,
    ensures
        get_answer(key, url, Ok(blob)) == NativeResponseView::Error(
            encryption_failure().message(),
        ),
{
}

/// The service identifier under which the dispatcher's backend files its
/// entries.
pub const BACKEND_SERVICE: &'static str = "password_manager_service";

/// The failure reported where the host platform has no backend.
pub open spec fn unsupported_platform() -> StorageErrorView {
    StorageErrorView::Platform("Platform not supported"@)
}

/// Selects the backend for the host platform, once, at startup: the secret
/// service on `linux`, and none elsewhere.
pub fn backend_for(platform: &str) -> (res: Result<LinuxStorage, StorageError>)
    ensures
        platform@ == "linux"@ ==> (res matches Ok(backend) && backend.service()
            == BACKEND_SERVICE@),
        platform@ != "linux"@ ==> (res matches Err(failure) && failure@ == unsupported_platform()),
{
    if String::from_str(platform) == String::from_str("linux") {
        Ok(LinuxStorage::new(String::from_str(BACKEND_SERVICE)))
    } else {
        Err(StorageError::Platform(String::from_str("Platform not supported")))
    }
}

impl NativeResponse {
    /// The answer to a request for a record.
    pub fn from_found(outcome: Result<Credentials, StorageError>) -> (response: Self)
        ensures
            response@ == password_response(found_view(outcome)),
    {
        match outcome {
            Ok(credentials) => NativeResponse::Password(credentials),
            Err(failure) => NativeResponse::Error(failure.to_string()),
        }
    }

    /// The answer to a request to save or to delete.
    pub fn from_done(outcome: Result<(), StorageError>) -> (response: Self)
        ensures
            response@ == success_response(done_view(outcome)),
    {
        match outcome {
            Ok(()) => NativeResponse::Success,
            Err(failure) => NativeResponse::Error(failure.to_string()),
        }
    }
}

/// The dispatcher. It holds the envelope, bound to the master key, and the
/// store; it keeps nothing else from one request to the next.
pub struct NativeMessaging<S: SecureStorage> {
    storage: S,
    envelope: Envelope,
}

impl<S: SecureStorage> NativeMessaging<S> {
    /// The master key.
    pub closed spec fn key(&self) -> Seq<u8> {
        self.envelope@
    }

    /// What the store holds, where its backend can say.
    pub closed spec fn entries(&self) -> Option<Map<Seq<char>, Seq<u8>>> {
        self.storage.entries()
    }

    /// Whether the store's backend never fails on its own account.
    pub closed spec fn reliable(&self) -> bool {
        self.storage.reliable()
    }

    /// A dispatcher over the given store, with its envelope bound to a
    /// 256-bit master key.
    pub fn new(master_key: &[u8], storage: S) -> (dispatcher: Self)
        requires
            master_key@.len() == KEY_LEN,
        ensures
            dispatcher.key() == master_key@,
            dispatcher.entries() == storage.entries(),
            dispatcher.reliable() == storage.reliable(),
    {
        NativeMessaging { storage, envelope: Envelope::new(master_key) }
    }

    /// The store.
    pub fn storage(&self) -> (storage: &S)
        ensures
            storage.entries() == self.entries(),
            storage.reliable() == self.reliable(),
    {
        &self.storage
    }

    /// The store, to act on it directly.
    pub fn storage_mut(&mut self) -> (storage: &mut S)
        ensures
            storage.entries() == old(self).entries(),
            storage.reliable() == old(self).reliable(),
            final(self).entries() == final(storage).entries(),
            final(self).reliable() == final(storage).reliable(),
            final(self).key() == old(self).key(),
    {
        &mut self.storage
    }

    /// The stored form of a plaintext under the given nonce: the nonce,
    /// then the ciphertext.
    fn seal_plaintext(&self, id: &str, plaintext: &[u8], nonce: &[u8]) -> (res: Result<
        Vec<u8>,
        StorageError,
    >)
        ensures
            match sealed(self.key(), nonce@, plaintext@) {
                Ok(ciphertext) => res matches Ok(found) && found@ == nonce@ + ciphertext,
                Err(failure) => res matches Err(e) && e@ == failure,
            },
            res matches Ok(found) ==> (item_of_blob(id@, found@) matches Some(item) && opened(
                self.key(),
                item.nonce,
                item.encrypted_data,
            ) == Ok::<Seq<u8>, StorageErrorView>(plaintext@)),
    {
        let ciphertext = self.envelope.seal_with_nonce(nonce, plaintext)?;
        let item = EncryptedItem {
            id: String::from_str(id),
            encrypted_data: ciphertext,
            nonce: vstd::slice::slice_to_vec(nonce),
        };
        proof {
            lemma_blob_round_trip(item@);
        }
        item.to_blob()
    }

    /// The stored form of a record under the given nonce.
    pub fn seal_record(&self, credentials: &Credentials, nonce: &[u8]) -> (res: Result<
        Vec<u8>,
        StorageError,
    >)
        ensures
            match sealed_record(self.key(), nonce@, credentials@) {
                Ok(blob) => res matches Ok(found) && found@ == blob,
                Err(failure) => res matches Err(e) && e@ == failure,
            },
            res matches Ok(found) ==> unsealed(self.key(), credentials@.url, found@) == Ok::<
                CredentialsView,
                StorageErrorView,
            >(credentials@),
    {
        let plaintext = encode_credentials(credentials)?;
        self.seal_plaintext(credentials.url.as_str(), plaintext.as_slice(), nonce)
    }

    /// The record that a stored byte string holds.
    pub fn unseal_record(&self, id: &str, blob: &[u8]) -> (res: Result<Credentials, StorageError>)
        ensures
            found_view(res) == unsealed(self.key(), id@, blob@),
    {
        let item = EncryptedItem::from_blob(id, blob)?;
        let plaintext = self.envelope.open(item.nonce.as_slice(), item.encrypted_data.as_slice())?;
        decode_credentials(plaintext.as_slice())
    }

    /// Loads the record kept under `url` and opens it. The result is what
    /// the store's answer gives, for an answer that the store's contract
    /// allows.
    pub fn get_password(&self, url: &str) -> (res: Result<Credentials, StorageError>)
        ensures
            exists|held: Map<Seq<char>, Seq<u8>>, loaded: Result<Seq<u8>, StorageErrorView>|
                agrees(self.entries(), held) && #[trigger] load_allowed(held, url@, loaded) && (
                self.reliable() ==> store_answered(loaded)) && found_view(res) == get_outcome(
                    self.key(),
                    url@,
                    loaded,
                ),
    {
        let loaded = self.storage.load(url);
        let ghost answer = loaded_view(loaded);
        let res = match loaded {
            Ok(blob) => self.unseal_record(url, blob.as_slice()),
            Err(failure) => Err(failure),
        };
        proof {
            let held = match self.entries() {
                Some(held) => held,
                None => match answer {
                    Ok(blob) => Map::empty().insert(url@, blob),
                    Err(_) => Map::empty(),
                },
            };
            assert(agrees(self.entries(), held) && load_allowed(held, url@, answer));
        }
        res
    }

    /// Seals the record under a fresh nonce and saves it under its url.
    /// The first failure ends the request and leaves the store as it is.
    pub fn save_password(&mut self, credentials: &Credentials) -> (res: Result<(), StorageError>)
        ensures
            final(self).key() == old(self).key(),
            final(self).reliable() == old(self).reliable(),
            final(self).entries() is Some <==> old(self).entries() is Some,
            exists|
                drawn: Result<Seq<u8>, StorageErrorView>,
                stored: Result<(), StorageErrorView>,
                before: Map<Seq<char>, Seq<u8>>,
                after: Map<Seq<char>, Seq<u8>>,
            |
                agrees(old(self).entries(), before) && agrees(final(self).entries(), after)
                    && #[trigger] save_step(
                    old(self).key(),
                    credentials@,
                    drawn,
                    stored,
                    before,
                    after,
                ) && (old(self).reliable() ==> stored is Ok) && done_view(res) == save_outcome(
                    old(self).key(),
                    credentials@,
                    drawn,
                    stored,
                ),
    {
        let ghost key = self.key();
        let ghost stated = self.entries();
        let ghost before = match stated {
            Some(held) => held,
            None => Map::empty(),
        };
        let plaintext = match encode_credentials(credentials) {
            Ok(plaintext) => plaintext,
            Err(failure) => {
                proof {
                    let drawn = Err::<Seq<u8>, StorageErrorView>(encryption_failure());
                    let stored = Ok::<(), StorageErrorView>(());
                    assert(save_step(key, credentials@, drawn, stored, before, before));
                }
                return Err(failure);
            },
        };
        let nonce = match Envelope::fresh_nonce() {
            Ok(nonce) => nonce,
            Err(failure) => {
                proof {
                    let drawn = Err::<Seq<u8>, StorageErrorView>(failure@);
                    let stored = Ok::<(), StorageErrorView>(());
                    assert(save_step(key, credentials@, drawn, stored, before, before));
                }
                return Err(failure);
            },
        };
        let ghost drawn = Ok::<Seq<u8>, StorageErrorView>(nonce@);
        let sealing = self.seal_plaintext(
            credentials.url.as_str(),
            plaintext.as_slice(),
            nonce.as_slice(),
        );
        let blob = match sealing {
            Ok(blob) => blob,
            Err(failure) => {
                proof {
                    let stored = Ok::<(), StorageErrorView>(());
                    assert(save_step(key, credentials@, drawn, stored, before, before));
                }
                return Err(failure);
            },
        };
        let res = self.storage.save(credentials.url.as_str(), blob.as_slice());
        proof {
            let stored = done_view(res);
            let after = match self.entries() {
                Some(held) => held,
                None => match stored {
                    Ok(_) => before.insert(credentials@.url, blob@),
                    Err(_) => before,
                },
            };
            assert(save_step(key, credentials@, drawn, stored, before, after));
        }
        res
    }

    /// Removes the record kept under `url`.
    pub fn delete_password(&mut self, url: &str) -> (res: Result<(), StorageError>)
        ensures
            final(self).key() == old(self).key(),
            final(self).reliable() == old(self).reliable(),
            final(self).entries() is Some <==> old(self).entries() is Some,
            old(self).reliable() ==> (res matches Err(failure) ==> failure is NotFound),
            exists|before: Map<Seq<char>, Seq<u8>>, after: Map<Seq<char>, Seq<u8>>|
                agrees(old(self).entries(), before) && agrees(final(self).entries(), after)
                    && #[trigger] delete_allowed(before, url@, done_view(res), after),
    {
        let ghost stated = self.entries();
        let res = self.storage.delete(url);
        proof {
            let deleted = done_view(res);
            let before = match stated {
                Some(held) => held,
                None => match deleted {
                    Ok(_) => Map::empty().insert(url@, Seq::<u8>::empty()),
                    Err(_) => Map::empty(),
                },
            };
            let after = match self.entries() {
                Some(held) => held,
                None => match deleted {
                    Ok(_) => before.remove(url@),
                    Err(_) => before,
                },
            };
            assert(delete_allowed(before, url@, deleted, after));
        }
        res
    }

    /// Answers one request. Every failure becomes an answer that carries
    /// its text. What is answered, and what the store holds afterwards,
    /// is what [`handled`] allows for what the store held before.
    pub fn handle_message(&mut self, message: ExtensionMessage) -> (response: NativeResponse)
        ensures
            final(self).key() == old(self).key(),
            final(self).reliable() == old(self).reliable(),
            final(self).entries() is Some <==> old(self).entries() is Some,
            exists|before: Map<Seq<char>, Seq<u8>>, after: Map<Seq<char>, Seq<u8>>|
                agrees(old(self).entries(), before) && agrees(final(self).entries(), after)
                    && #[trigger] handled(
                    old(self).key(),
                    old(self).reliable(),
                    before,
                    message@,
                    after,
                    response@,
                ),
    {
        let ghost key = self.key();
        let ghost reliable = self.reliable();
        let ghost stated = self.entries();
        match message {
            ExtensionMessage::GetPassword { url } => {
                let found = self.get_password(url.as_str());
                let response = NativeResponse::from_found(found);
                proof {
                    let (held, loaded) = choose|
                        held: Map<Seq<char>, Seq<u8>>,
                        loaded: Result<Seq<u8>, StorageErrorView>,
                    |
                        agrees(stated, held) && #[trigger] load_allowed(held, url@, loaded) && (
                        reliable ==> store_answered(loaded)) && found_view(found) == get_outcome(
                            key,
                            url@,
                            loaded,
                        );
                    assert(load_allowed(held, url@, loaded));
                    assert(get_handled(key, reliable, held, url@, held, response@));
                    assert(handled(key, reliable, held, message@, held, response@));
                }
                response
            },
            ExtensionMessage::SavePassword { credentials } => {
                let done = self.save_password(&credentials);
                let response = NativeResponse::from_done(done);
                proof {
                    let (drawn, stored, before, after) = choose|
                        drawn: Result<Seq<u8>, StorageErrorView>,
                        stored: Result<(), StorageErrorView>,
                        before: Map<Seq<char>, Seq<u8>>,
                        after: Map<Seq<char>, Seq<u8>>,
                    |
                        agrees(stated, before) && agrees(self.entries(), after)
                            && #[trigger] save_step(key, credentials@, drawn, stored, before, after)
                            && (reliable ==> stored is Ok) && done_view(done) == save_outcome(
                            key,
                            credentials@,
                            drawn,
                            stored,
                        );
                    assert(save_step(key, credentials@, drawn, stored, before, after));
                    assert(save_handled(key, reliable, before, credentials@, after, response@));
                    assert(handled(key, reliable, before, message@, after, response@));
                }
                response
            },
            ExtensionMessage::DeletePassword { url } => {
                let done = self.delete_password(url.as_str());
                let response = NativeResponse::from_done(done);
                proof {
                    let (before, after) = choose|
                        before: Map<Seq<char>, Seq<u8>>,
                        after: Map<Seq<char>, Seq<u8>>,
                    |
                        agrees(stated, before) && agrees(self.entries(), after)
                            && #[trigger] delete_allowed(before, url@, done_view(done), after);
                    assert(delete_allowed(before, url@, done_view(done), after));
                    assert(delete_handled(reliable, before, url@, after, response@));
                    assert(handled(key, reliable, before, message@, after, response@));
                }
                response
            },
        }
    }
}

} // verus!
