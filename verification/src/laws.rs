//! What holds of encoded envelopes.
//!
//! The cipher promises two things without reservation: the tag it computed
//! is the only one it accepts for a ciphertext, and the nonce it sealed
//! under is the only one it opens under. From these it is proved here that
//! an envelope with a bit of its tag inverted, or with another nonce, does
//! not decrypt.
//!
//! For an altered ciphertext, another key or other associated data the
//! cipher promises no more than that acceptance is beyond any practical
//! chance. That is not a statement to prove from; what is proved instead is
//! how far this crate is in the way: not at all. An altered envelope
//! reaches the cipher with exactly the altered part changed, and whatever
//! the cipher then refuses comes back as `AuthenticationFailure` and as
//! nothing else.

use crate::codec::{decoded, encoded, lemma_decode_encoded, Parts};
use crate::error::EnvelopeError;
use crate::model::{
    decrypted, detects_other_nonces, detects_tag_flips, flip_bit, nonce_is_binding, opened_parts,
    refused, tag_is_binding, with_nonce, with_tag,
};
use crate::primitive::opened;
use vstd::prelude::*;

verus! {

/// Inverting a bit changes the byte sequence, and not its length.
pub proof fn lemma_flip_bit_differs(bytes: Seq<u8>, index: int, bit: u8)
    requires
        0 <= index < bytes.len(),
        bit < 8,
    ensures
        flip_bit(bytes, index, bit).len() == bytes.len(),
        flip_bit(bytes, index, bit) != bytes,
{
    let byte = bytes[index];
    assert(byte ^ (1u8 << bit) != byte) by (bit_vector)
        requires
            bit < 8,
    ;
}

/// Decrypting the encoding of an envelope is opening the envelope.
pub proof fn lemma_decrypt_encoded(key: Seq<u8>, parts: Parts, aad: Seq<u8>)
    requires
        parts.well_formed(),
    ensures
        decrypted(key, encoded(parts), aad) == opened_parts(key, parts, aad),
{
    lemma_decode_encoded(parts);
}

/// Decryption fails in two ways only, and the length of the input alone
/// tells them apart. Fewer than 28 bytes are malformed, whatever the key
/// and the associated data. 28 bytes or more are never malformed: they fail
/// to decrypt exactly if the cipher does not accept what they hold under
/// the key and the associated data, be it the right key or another, and
/// then with `AuthenticationFailure`.
pub proof fn lemma_failure_kinds(key: Seq<u8>, bytes: Seq<u8>, aad: Seq<u8>)
    ensures
        bytes.len() < 28 ==> decrypted(key, bytes, aad) == Err::<Seq<u8>, EnvelopeError>(
            EnvelopeError::MalformedEnvelope,
        ),
        bytes.len() >= 28 ==> decrypted(key, bytes, aad) == opened_parts(
            key,
            decoded(bytes).unwrap(),
            aad,
        ),
        bytes.len() >= 28 ==> (decrypted(key, bytes, aad) is Err <==> refused(
            decrypted(key, bytes, aad),
        )),
        bytes.len() >= 28 ==> (refused(decrypted(key, bytes, aad)) <==> opened(
            key,
            bytes.subrange(0, 12),
            aad,
            bytes.subrange(12, bytes.len() as int),
        ) is None),
{
    if bytes.len() >= 28 {
        let parts = decoded(bytes).unwrap();
        assert(parts.ciphertext + parts.tag =~= bytes.subrange(12, bytes.len() as int));
    }
}

/// Inverting a bit in the ciphertext region of an encoded envelope hands
/// the cipher a ciphertext that differs in that bit, with nonce and tag as
/// they were. What comes back is the cipher's answer to that: the altered
/// bytes fail to decrypt exactly if the cipher does not accept the altered
/// ciphertext, and then with `AuthenticationFailure`.
pub proof fn lemma_tampered_ciphertext(key: Seq<u8>, bytes: Seq<u8>, aad: Seq<u8>, index: int, bit: u8)
    requires
        bytes.len() >= 28,
        12 <= index < bytes.len() - 16,
        bit < 8,
    ensures
        ({
            let parts = decoded(bytes).unwrap();
            let altered = Parts {
                nonce: parts.nonce,
                ciphertext: flip_bit(parts.ciphertext, index - 12, bit),
                tag: parts.tag,
            };
            &&& altered.ciphertext != parts.ciphertext
            &&& decoded(flip_bit(bytes, index, bit)) == Some(altered)
            &&& decrypted(key, flip_bit(bytes, index, bit), aad) == opened_parts(key, altered, aad)
            &&& refused(decrypted(key, flip_bit(bytes, index, bit), aad)) <==> opened(
                key,
                altered.nonce,
                aad,
                altered.ciphertext + altered.tag,
            ) is None
        }),
{
    let parts = decoded(bytes).unwrap();
    let flipped = flip_bit(bytes, index, bit);
    let got = decoded(flipped).unwrap();
    lemma_flip_bit_differs(parts.ciphertext, index - 12, bit);
    assert(got.nonce =~= parts.nonce);
    assert(got.tag =~= parts.tag);
    assert(got.ciphertext =~= flip_bit(parts.ciphertext, index - 12, bit));
}

/// Inverting a bit in the tag region of an encoded envelope hands the
/// cipher a tag that differs in that bit, with nonce and ciphertext as they
/// were.
pub proof fn lemma_tampered_tag(bytes: Seq<u8>, index: int, bit: u8)
    requires
        bytes.len() >= 28,
        bytes.len() - 16 <= index < bytes.len(),
        bit < 8,
    ensures
        ({
            let parts = decoded(bytes).unwrap();
            let tag = flip_bit(parts.tag, index - (bytes.len() - 16), bit);
            &&& tag.len() == 16
            &&& tag != parts.tag
            &&& decoded(flip_bit(bytes, index, bit)) == Some(with_tag(parts, tag))
        }),
{
    let parts = decoded(bytes).unwrap();
    let flipped = flip_bit(bytes, index, bit);
    let got = decoded(flipped).unwrap();
    lemma_flip_bit_differs(parts.tag, index - (bytes.len() - 16), bit);
    assert(got.nonce =~= parts.nonce);
    assert(got.ciphertext =~= parts.ciphertext);
    assert(got.tag =~= flip_bit(parts.tag, index - (bytes.len() - 16), bit));
}

/// Putting another nonce in front of ciphertext and tag hands the cipher
/// that nonce, with ciphertext and tag as they were.
pub proof fn lemma_altered_nonce(bytes: Seq<u8>, nonce: Seq<u8>)
    requires
        bytes.len() >= 28,
        nonce.len() == 12,
    ensures
        decoded(nonce + bytes.skip(12)) == Some(with_nonce(decoded(bytes).unwrap(), nonce)),
{
    let parts = decoded(bytes).unwrap();
    let got = decoded(nonce + bytes.skip(12)).unwrap();
    assert(got.nonce =~= nonce);
    assert(got.ciphertext =~= parts.ciphertext);
    assert(got.tag =~= parts.tag);
}

/// Where the tag of an envelope is the only one that the cipher accepts,
/// inverting any bit of the tag region of its encoding gives bytes that
/// fail to decrypt, with `AuthenticationFailure`.
pub proof fn lemma_tag_flips_detected(key: Seq<u8>, parts: Parts, aad: Seq<u8>)
    requires
        parts.well_formed(),
        tag_is_binding(key, parts, aad),
    ensures
        detects_tag_flips(key, encoded(parts), aad),
{
    let bytes = encoded(parts);
    lemma_decode_encoded(parts);
    assert forall|index: int, bit: u8|
        bytes.len() - 16 <= index < bytes.len() && bit < 8 implies refused(
        #[trigger] decrypted(key, flip_bit(bytes, index, bit), aad),
    ) by {
        lemma_tampered_tag(bytes, index, bit);
    }
}

/// Where the nonce of an envelope is the only one that the cipher opens it
/// under, putting any other nonce in front of its encoding gives bytes that
/// fail to decrypt, with `AuthenticationFailure`.
pub proof fn lemma_other_nonces_detected(key: Seq<u8>, parts: Parts, aad: Seq<u8>)
    requires
        parts.well_formed(),
        nonce_is_binding(key, parts, aad),
    ensures
        detects_other_nonces(key, encoded(parts), aad),
{
    let bytes = encoded(parts);
    lemma_decode_encoded(parts);
    assert forall|nonce: Seq<u8>| nonce.len() == 12 && nonce != bytes.take(12) implies refused(
        #[trigger] decrypted(key, nonce + bytes.skip(12), aad),
    ) by {
        lemma_altered_nonce(bytes, nonce);
    }
}

} // verus!
