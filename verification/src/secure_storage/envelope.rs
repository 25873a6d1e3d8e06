//! The encryption envelope: AES-256-GCM under a fixed master key, with a
//! fresh random nonce for every record that is sealed.

use super::error::{StorageError, StorageErrorView};
use super::item::NONCE_LEN;
use aes_gcm::aead::Aead;
use aes_gcm::{Aes256Gcm, Key, KeyInit, Nonce};
use vstd::prelude::*;
use vstd::slice::*;
use vstd::string::*;

verus! {

/// The length of the master key in bytes (256 bits).
pub const KEY_LEN: usize = 32;

/// The length of the authentication tag that ends every ciphertext.
pub const TAG_LEN: usize = 16;

/// The longest plaintext that the envelope seals, in bytes. It is well
/// under the limit of the cipher, and a ciphertext of that length still
/// fits in memory.
pub const MAX_PLAINTEXT_LEN: usize = 0x3fff_ffff;

/// The ciphertext, tag included, that AES-256-GCM gives for a plaintext
/// under a key and a nonce, with no associated data.
pub uninterp spec fn aes256_gcm_sealed(key: Seq<u8>, nonce: Seq<u8>, plaintext: Seq<u8>) -> Seq<u8>;

/// The plaintext that AES-256-GCM gives back for a ciphertext under a key
/// and a nonce, with no associated data; `None` where it rejects the
/// ciphertext.
pub uninterp spec fn aes256_gcm_opened(key: Seq<u8>, nonce: Seq<u8>, ciphertext: Seq<u8>) -> Option<
    Seq<u8>,
>;

/// The one failure that sealing and opening report, whatever went wrong.
pub open spec fn encryption_failure() -> StorageErrorView {
    StorageErrorView::Encryption("aead::Error"@)
}

/// What sealing gives for a plaintext under a key and a nonce.
pub open spec fn sealed(key: Seq<u8>, nonce: Seq<u8>, plaintext: Seq<u8>) -> Result<
    Seq<u8>,
    StorageErrorView,
> {
    if nonce.len() == NONCE_LEN && plaintext.len() <= MAX_PLAINTEXT_LEN {
        Ok(aes256_gcm_sealed(key, nonce, plaintext))
    } else {
        Err(encryption_failure())
    }
}

/// What opening gives for a ciphertext under a key and a nonce.
pub open spec fn opened(key: Seq<u8>, nonce: Seq<u8>, ciphertext: Seq<u8>) -> Result<
    Seq<u8>,
    StorageErrorView,
> {
    if nonce.len() == NONCE_LEN {
        match aes256_gcm_opened(key, nonce, ciphertext) {
            Some(plaintext) => Ok(plaintext),
            None => Err(encryption_failure()),
        }
    } else {
        Err(encryption_failure())
    }
}

/// Makes an `aes_gcm::Aes256Gcm` from the key and calls its `encrypt`
/// (of `aead::Aead`) with no associated data. Trusted: the call fails only
/// on a plaintext of more than 2^36 bytes, so not here; what it returns is
/// as long as the plaintext and one tag; and `decrypt` under the same key
/// and nonce gives the plaintext back for it.
#[verifier::external_body]
fn aes256_gcm_encrypt(key: &[u8], nonce: &[u8], plaintext: &[u8]) -> (res: Result<Vec<u8>, String>)
    requires
        key@.len() == KEY_LEN,
        nonce@.len() == NONCE_LEN,
        plaintext@.len() <= MAX_PLAINTEXT_LEN,
    ensures
        res is Ok,
        res matches Ok(ciphertext) ==> ciphertext@ == aes256_gcm_sealed(key@, nonce@, plaintext@),
        res matches Ok(ciphertext) ==> ciphertext@.len() == plaintext@.len() + TAG_LEN,
        res matches Ok(ciphertext) ==> aes256_gcm_opened(key@, nonce@, ciphertext@) == Some(
            plaintext@,
        ),
{
    let cipher = Aes256Gcm::new(Key::<Aes256Gcm>::from_slice(key));
    cipher.encrypt(Nonce::from_slice(nonce), plaintext).map_err(|e| e.to_string())
}

/// Makes an `aes_gcm::Aes256Gcm` from the key and calls its `decrypt`
/// (of `aead::Aead`) with no associated data. Trusted: the result depends
/// on key, nonce and ciphertext alone, and a failure has the text
/// `aead::Error`.
#[verifier::external_body]
fn aes256_gcm_decrypt(key: &[u8], nonce: &[u8], ciphertext: &[u8]) -> (res: Result<Vec<u8>, String>)
    requires
        key@.len() == KEY_LEN,
        nonce@.len() == NONCE_LEN,
    ensures
        res matches Ok(plaintext) ==> aes256_gcm_opened(key@, nonce@, ciphertext@) == Some(
            plaintext@,
        ),
        res matches Err(text) ==> aes256_gcm_opened(key@, nonce@, ciphertext@) is None,
        res matches Err(text) ==> text@ == "aead::Error"@,
{
    let cipher = Aes256Gcm::new(Key::<Aes256Gcm>::from_slice(key));
    cipher.decrypt(Nonce::from_slice(nonce), ciphertext).map_err(|e| e.to_string())
}

/// Calls `getrandom::getrandom` on the buffer. Trusted: the buffer keeps
/// its length. Nothing is known of the bytes, nor of when the call fails.
#[verifier::external_body]
fn fill_random(buffer: &mut Vec<u8>) -> (res: Result<(), String>)
    ensures
        final(buffer)@.len() == old(buffer)@.len(),
{
    getrandom::getrandom(buffer.as_mut_slice()).map_err(|e| e.to_string())
}

/// The envelope: it seals plaintexts and opens ciphertexts under the master
/// key that it was made with.
pub struct Envelope {
    key: Vec<u8>,
}

impl View for Envelope {
    type V = Seq<u8>;

    /// The master key.
    closed spec fn view(&self) -> Seq<u8> {
        self.key@
    }
}

impl Envelope {
    #[verifier::type_invariant]
    spec fn wf(self) -> bool {
        self.key@.len() == KEY_LEN
    }

    /// Binds the envelope to a 256-bit master key.
    pub fn new(master_key: &[u8]) -> (envelope: Self)
        requires
            master_key@.len() == KEY_LEN,
        ensures
            envelope@ == master_key@,
    {
        Envelope { key: slice_to_vec(master_key) }
    }

    /// Seals `plaintext` under the given nonce. The result is a function of
    /// key, nonce and plaintext, and `open` inverts it.
    pub fn seal_with_nonce(&self, nonce: &[u8], plaintext: &[u8]) -> (res: Result<
        Vec<u8>,
        StorageError,
    >)
        ensures
            match sealed(self@, nonce@, plaintext@) {
                Ok(ciphertext) => res matches Ok(found) && found@ == ciphertext,
                Err(failure) => res matches Err(e) && e@ == failure,
            },
            res matches Ok(found) ==> opened(self@, nonce@, found@) == Ok::<
                Seq<u8>,
                StorageErrorView,
            >(plaintext@),
            res matches Ok(found) ==> found@.len() == plaintext@.len() + TAG_LEN,
    {
        proof {
            use_type_invariant(self);
        }
        if nonce.len() != NONCE_LEN || plaintext.len() > MAX_PLAINTEXT_LEN {
            return Err(StorageError::Encryption(String::from_str("aead::Error")));
        }
        match aes256_gcm_encrypt(self.key.as_slice(), nonce, plaintext) {
            Ok(ciphertext) => Ok(ciphertext),
            Err(text) => Err(StorageError::Encryption(text)),
        }
    }

    /// Draws a nonce from the system's random source.
    pub fn fresh_nonce() -> (res: Result<Vec<u8>, StorageError>)
        ensures
            res matches Ok(nonce) ==> nonce@.len() == NONCE_LEN,
            res matches Err(failure) ==> failure is Encryption,
    {
        let mut nonce: Vec<u8> = Vec::new();
        nonce.resize(NONCE_LEN, 0u8);
        match fill_random(&mut nonce) {
            Ok(()) => Ok(nonce),
            Err(text) => Err(StorageError::Encryption(text)),
        }
    }

    /// Seals `plaintext` under a fresh nonce, and returns the ciphertext
    /// with that nonce.
    pub fn seal(&self, plaintext: &[u8]) -> (res: Result<(Vec<u8>, Vec<u8>), StorageError>)
        ensures
            res matches Ok((ciphertext, nonce)) ==> nonce@.len() == NONCE_LEN && sealed(
                self@,
                nonce@,
                plaintext@,
            ) == Ok::<Seq<u8>, StorageErrorView>(ciphertext@) && opened(self@, nonce@, ciphertext@)
                == Ok::<Seq<u8>, StorageErrorView>(plaintext@),
            res matches Err(failure) ==> failure is Encryption,
            plaintext@.len() > MAX_PLAINTEXT_LEN ==> res is Err,
    {
        let nonce = Self::fresh_nonce()?;
        let ciphertext = self.seal_with_nonce(nonce.as_slice(), plaintext)?;
        Ok((ciphertext, nonce))
    }

    /// Opens a ciphertext that was sealed under `nonce`. Every mismatch, of
    /// key, nonce, ciphertext or length, gives the same failure.
    pub fn open(&self, nonce: &[u8], ciphertext: &[u8]) -> (res: Result<Vec<u8>, StorageError>)
        ensures
            match opened(self@, nonce@, ciphertext@) {
                Ok(plaintext) => res matches Ok(found) && found@ == plaintext,
                Err(failure) => res matches Err(e) && e@ == failure,
            },
    {
        proof {
            use_type_invariant(self);
        }
        if nonce.len() != NONCE_LEN {
            return Err(StorageError::Encryption(String::from_str("aead::Error")));
        }
        match aes256_gcm_decrypt(self.key.as_slice(), nonce, ciphertext) {
            Ok(plaintext) => Ok(plaintext),
            Err(text) => Err(StorageError::Encryption(text)),
        }
    }
}

} // verus!
