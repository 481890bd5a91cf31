//! The boundary to AES-256-GCM.
//!
//! Everything the crate knows about the cipher is written down here, in the
//! contracts of three small functions that call the `aes-gcm` crate. Verus
//! takes these contracts on trust; all other code is verified against them.
//!
//! The cipher's output is far too involved to be described in a contract, but
//! it is a function of its inputs alone. It is therefore given a name,
//! [`sealed`], and so is the answer of the reverse operation, [`opened`].
//! Four facts are assumed to relate the two. Sealing adds a 16-byte tag.
//! What was sealed opens again, to the plaintext it came from. It opens with
//! no other tag. It opens under no other nonce.
//!
//! What is deliberately not assumed is that the cipher refuses an altered
//! ciphertext, another key or other associated data. It does, for every
//! purpose; but it does so because a forgery cannot be found, not because
//! none exists, and a contract has to hold without exception.
//!
//! The cipher compares tags in constant time; no tag is compared anywhere
//! else in this crate.

use aes_gcm::aead::{Aead, KeyInit, OsRng, Payload};
use aes_gcm::Aes256Gcm;
use vstd::prelude::*;

verus! {

/// The longest plaintext, in bytes, that the cipher seals (2^36).
pub const MAX_PLAINTEXT_LEN: u64 = 0x10_0000_0000;

/// The longest associated data, in bytes, that the cipher takes (2^36).
pub const MAX_AAD_LEN: u64 = 0x10_0000_0000;

/// The error of the `aead` traits: an opaque unit value.
#[verifier::external_type_specification]
#[verifier::external_body]
pub struct ExAeadError(aes_gcm::aead::Error);

/// What AES-256-GCM makes of a plaintext under a key, a nonce and associated
/// data: the ciphertext followed by the tag.
pub uninterp spec fn sealed(key: Seq<u8>, nonce: Seq<u8>, aad: Seq<u8>, plaintext: Seq<u8>) -> Seq<
    u8,
>;

/// What AES-256-GCM answers when asked to open a ciphertext followed by a
/// tag: the plaintext, or nothing where it does not accept them.
pub uninterp spec fn opened(key: Seq<u8>, nonce: Seq<u8>, aad: Seq<u8>, body: Seq<u8>) -> Option<
    Seq<u8>,
>;

/// Calls `Aead::encrypt` of `Aes256Gcm`.
///
/// Assumed of it: the call is refused exactly when the plaintext or the
/// associated data is longer than 2^36 bytes. Otherwise it returns `sealed`
/// of its arguments: a ciphertext as long as the plaintext, followed by a
/// tag of 16 bytes. `Aead::decrypt` under the same key, nonce and associated
/// data opens this to the plaintext. It opens nothing that has another tag
/// behind the same ciphertext, because it computes the tag anew from key,
/// nonce, associated data and ciphertext and compares; and it opens nothing
/// under another nonce, because the nonce goes through the block cipher, a
/// permutation, into a mask that is added to the tag.
#[verifier::external_body]
pub(crate) fn seal(key: &[u8; 32], nonce: &[u8; 12], aad: &[u8], plaintext: &[u8]) -> (out: Result<
    Vec<u8>,
    aes_gcm::aead::Error,
>)
    ensures
        (plaintext@.len() <= MAX_PLAINTEXT_LEN && aad@.len() <= MAX_AAD_LEN) <==> out is Ok,
        out matches Ok(body) ==> body@ == sealed(key@, nonce@, aad@, plaintext@),
        out matches Ok(body) ==> body@.len() == plaintext@.len() + 16,
        out matches Ok(body) ==> opened(key@, nonce@, aad@, body@) == Some(plaintext@),
        out matches Ok(body) ==> (forall|tag: Seq<u8>|
            (tag.len() == 16 && tag != body@.skip(plaintext@.len() as int)) ==> (#[trigger] opened(
                key@,
                nonce@,
                aad@,
                body@.take(plaintext@.len() as int) + tag,
            )) is None),
        out matches Ok(body) ==> (forall|other: Seq<u8>|
            (other.len() == 12 && other != nonce@) ==> (#[trigger] opened(
                key@,
                other,
                aad@,
                body@,
            )) is None),
{
    let cipher = Aes256Gcm::new(key.into());
    cipher.encrypt(nonce.into(), Payload { msg: plaintext, aad })
}

/// Calls `Aead::decrypt` of `Aes256Gcm`.
///
/// Assumed of it: it returns `opened` of its arguments, an error standing
/// for nothing; and a plaintext it returns is 16 bytes shorter than what
/// it was given.
#[verifier::external_body]
pub(crate) fn open(key: &[u8; 32], nonce: &[u8; 12], aad: &[u8], body: &[u8]) -> (out: Result<
    Vec<u8>,
    aes_gcm::aead::Error,
>)
    ensures
        match out {
            Ok(plaintext) => opened(key@, nonce@, aad@, body@) == Some(plaintext@),
            Err(_) => opened(key@, nonce@, aad@, body@) is None,
        },
        out matches Ok(plaintext) ==> plaintext@.len() + 16 == body@.len(),
{
    let cipher = Aes256Gcm::new(key.into());
    cipher.decrypt(nonce.into(), Payload { msg: body, aad })
}

/// Calls `KeyInit::generate_key` of `Aes256Gcm` with the operating system's
/// random number generator.
///
/// Nothing is assumed of the bytes it returns.
#[verifier::external_body]
pub(crate) fn fresh_key_bytes() -> (out: [u8; 32]) {
    Aes256Gcm::generate_key(OsRng).into()
}

} // verus!
