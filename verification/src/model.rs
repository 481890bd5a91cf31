//! What encryption and decryption compute, as functions on byte sequences.
//!
//! The contracts of [`crate::envelope`] are stated over these. They are
//! built from the two names that stand for the cipher, `sealed` and `opened`,
//! and from the wire format; nothing here runs.

use crate::codec::{decoded, Parts};
use crate::error::EnvelopeError;
use crate::primitive::{opened, sealed, MAX_AAD_LEN, MAX_PLAINTEXT_LEN};
use vstd::prelude::*;

verus! {

/// Whether the cipher takes a plaintext and associated data: neither may be
/// longer than 2^36 bytes.
pub open spec fn sealable(plaintext: Seq<u8>, aad: Seq<u8>) -> bool {
    plaintext.len() <= MAX_PLAINTEXT_LEN && aad.len() <= MAX_AAD_LEN
}

/// The envelope that sealing a plaintext gives: the nonce that was used,
/// and the cipher's output cut into a ciphertext as long as the plaintext
/// and the tag that follows it.
pub open spec fn sealed_parts(key: Seq<u8>, nonce: Seq<u8>, aad: Seq<u8>, plaintext: Seq<u8>) -> Parts {
    let body = sealed(key, nonce, aad, plaintext);
    Parts {
        nonce,
        ciphertext: body.take(plaintext.len() as int),
        tag: body.skip(plaintext.len() as int),
    }
}

/// What opening an envelope gives: the plaintext where the cipher accepts
/// ciphertext and tag under the envelope's nonce, and otherwise
/// `AuthenticationFailure`, whatever the cipher's reason.
pub open spec fn opened_parts(key: Seq<u8>, parts: Parts, aad: Seq<u8>) -> Result<
    Seq<u8>,
    EnvelopeError,
> {
    match opened(key, parts.nonce, aad, parts.ciphertext + parts.tag) {
        Some(plaintext) => Ok(plaintext),
        None => Err(EnvelopeError::AuthenticationFailure),
    }
}

/// What decrypting encoded bytes gives: `MalformedEnvelope` where they
/// do not decode, and otherwise what opening the decoded envelope gives.
pub open spec fn decrypted(key: Seq<u8>, bytes: Seq<u8>, aad: Seq<u8>) -> Result<
    Seq<u8>,
    EnvelopeError,
> {
    match decoded(bytes) {
        Some(parts) => opened_parts(key, parts, aad),
        None => Err(EnvelopeError::MalformedEnvelope),
    }
}

/// A result with the bytes it may hold seen as a sequence.
pub open spec fn outcome(result: Result<Vec<u8>, EnvelopeError>) -> Result<Seq<u8>, EnvelopeError> {
    match result {
        Ok(bytes) => Ok(bytes@),
        Err(e) => Err(e),
    }
}

/// Opening fails with `AuthenticationFailure`.
pub open spec fn refused(result: Result<Seq<u8>, EnvelopeError>) -> bool {
    result == Err::<Seq<u8>, EnvelopeError>(EnvelopeError::AuthenticationFailure)
}

/// `parts` with another tag.
pub open spec fn with_tag(parts: Parts, tag: Seq<u8>) -> Parts {
    Parts { nonce: parts.nonce, ciphertext: parts.ciphertext, tag }
}

/// `parts` with another nonce.
pub open spec fn with_nonce(parts: Parts, nonce: Seq<u8>) -> Parts {
    Parts { nonce, ciphertext: parts.ciphertext, tag: parts.tag }
}

/// The tag of an envelope is the only one that its nonce and ciphertext
/// open with.
pub open spec fn tag_is_binding(key: Seq<u8>, parts: Parts, aad: Seq<u8>) -> bool {
    forall|tag: Seq<u8>|
        tag.len() == 16 && tag != parts.tag ==> refused(
            #[trigger] opened_parts(key, with_tag(parts, tag), aad),
        )
}

/// The nonce of an envelope is the only one that its ciphertext and tag
/// open under.
pub open spec fn nonce_is_binding(key: Seq<u8>, parts: Parts, aad: Seq<u8>) -> bool {
    forall|nonce: Seq<u8>|
        nonce.len() == 12 && nonce != parts.nonce ==> refused(
            #[trigger] opened_parts(key, with_nonce(parts, nonce), aad),
        )
}

/// `bytes` with one bit inverted: bit `bit` of the byte at `index`.
pub open spec fn flip_bit(bytes: Seq<u8>, index: int, bit: u8) -> Seq<u8>
    recommends
        0 <= index < bytes.len(),
        bit < 8,
{
    bytes.update(index, bytes[index] ^ (1u8 << bit))
}

/// Whichever bit of the last 16 bytes is inverted, what is left does not
/// decrypt.
pub open spec fn detects_tag_flips(key: Seq<u8>, bytes: Seq<u8>, aad: Seq<u8>) -> bool {
    forall|index: int, bit: u8|
        bytes.len() - 16 <= index < bytes.len() && bit < 8 ==> refused(
            #[trigger] decrypted(key, flip_bit(bytes, index, bit), aad),
        )
}

/// Whichever other nonce takes the place of the first 12 bytes, what is
/// left does not decrypt.
pub open spec fn detects_other_nonces(key: Seq<u8>, bytes: Seq<u8>, aad: Seq<u8>) -> bool {
    forall|nonce: Seq<u8>|
        nonce.len() == 12 && nonce != bytes.take(12) ==> refused(
            #[trigger] decrypted(key, nonce + bytes.skip(12), aad),
        )
}

} // verus!
