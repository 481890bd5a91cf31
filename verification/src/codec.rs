//! The envelope and its wire format.
//!
//! An encoded envelope is the nonce, the ciphertext and the tag, one after
//! the other and with nothing in between:
//!
//! ```text
//! [0, 12)          nonce
//! [12, 12 + n)     ciphertext, as long as the plaintext
//! [12 + n, 28 + n) tag
//! ```
//!
//! There is no version byte and no length field; the associated data is not
//! part of it. Decoding checks the length and nothing else: whether the
//! parts belong together is for the cipher to decide.

use crate::error::EnvelopeError;
use vstd::prelude::*;
use vstd::slice::{slice_subrange, slice_to_vec};

verus! {

/// The length of the shortest encoded envelope: a nonce and a tag around an
/// empty ciphertext.
pub const MIN_ENVELOPE_LEN: usize = 28;

/// What one encryption produces and one decryption consumes.
#[derive(Debug, PartialEq, Eq)]
pub struct Envelope {
    /// The nonce the message was sealed under.
    pub nonce: [u8; 12],
    /// The encrypted message.
    pub ciphertext: Vec<u8>,
    /// The tag that authenticates nonce, associated data and ciphertext.
    pub tag: [u8; 16],
}

/// The three parts of an envelope as byte sequences.
pub struct Parts {
    pub nonce: Seq<u8>,
    pub ciphertext: Seq<u8>,
    pub tag: Seq<u8>,
}

impl View for Envelope {
    type V = Parts;

    open spec fn view(&self) -> Parts {
        Parts { nonce: self.nonce@, ciphertext: self.ciphertext@, tag: self.tag@ }
    }
}

impl Clone for Envelope {
    fn clone(&self) -> (copy: Envelope)
        ensures
            copy@ == self@,
    {
        let ciphertext = self.ciphertext.clone();
        Envelope { nonce: self.nonce, ciphertext, tag: self.tag }
    }
}

impl Parts {
    /// Whether nonce and tag have the lengths that the format gives them.
    pub open spec fn well_formed(self) -> bool {
        self.nonce.len() == 12 && self.tag.len() == 16
    }
}

/// The encoding of an envelope.
pub open spec fn encoded(parts: Parts) -> Seq<u8> {
    parts.nonce + parts.ciphertext + parts.tag
}

/// The envelope that a byte string encodes, if it is long enough to encode
/// one.
pub open spec fn decoded(bytes: Seq<u8>) -> Option<Parts> {
    if bytes.len() < 28 {
        None
    } else {
        Some(
            Parts {
                nonce: bytes.subrange(0, 12),
                ciphertext: bytes.subrange(12, bytes.len() - 16),
                tag: bytes.subrange(bytes.len() - 16, bytes.len() as int),
            },
        )
    }
}

/// An encoding is 28 bytes longer than the ciphertext, and decodes to the
/// envelope it was made from.
pub proof fn lemma_decode_encoded(parts: Parts)
    requires
        parts.well_formed(),
    ensures
        encoded(parts).len() == 28 + parts.ciphertext.len(),
        decoded(encoded(parts)) == Some(parts),
{
    let bytes = encoded(parts);
    assert(bytes.subrange(0, 12) =~= parts.nonce);
    assert(bytes.subrange(12, bytes.len() - 16) =~= parts.ciphertext);
    assert(bytes.subrange(bytes.len() - 16, bytes.len() as int) =~= parts.tag);
}

/// Whatever decodes at all is the encoding of what it decodes to: no two
/// byte strings stand for the same envelope.
pub proof fn lemma_encode_decoded(bytes: Seq<u8>)
    requires
        bytes.len() >= 28,
    ensures
        decoded(bytes) is Some,
        decoded(bytes).unwrap().well_formed(),
        encoded(decoded(bytes).unwrap()) == bytes,
{
}

/// Lays nonce, ciphertext and tag end to end.
pub fn encode(nonce: &[u8; 12], ciphertext: &[u8], tag: &[u8; 16]) -> (bytes: Vec<u8>)
    ensures
        bytes@ == encoded(Parts { nonce: nonce@, ciphertext: ciphertext@, tag: tag@ }),
        bytes@.len() == 28 + ciphertext@.len(),
{
    let mut bytes: Vec<u8> = Vec::new();
    bytes.extend_from_slice(nonce.as_slice());
    bytes.extend_from_slice(ciphertext);
    bytes.extend_from_slice(tag.as_slice());
    bytes
}

/// Takes an encoding apart. It fails, with `MalformedEnvelope`, exactly on
/// input of fewer than 28 bytes; the first 12 bytes are the nonce, the last
/// 16 the tag, and what lies between them, possibly nothing, is the
/// ciphertext.
pub fn decode(bytes: &[u8]) -> (result: Result<Envelope, EnvelopeError>)
    ensures
        match result {
            Ok(envelope) => decoded(bytes@) == Some(envelope@),
            Err(e) => e == EnvelopeError::MalformedEnvelope && decoded(bytes@) is None,
        },
        result is Err <==> bytes@.len() < 28,
{
    let len = bytes.len();
    if len < MIN_ENVELOPE_LEN {
        return Err(EnvelopeError::MalformedEnvelope);
    }
    let mut nonce = [0u8; 12];
    let mut i: usize = 0;
    while i < 12
        invariant
            i <= 12,
            bytes@.len() >= 28,
            forall|m: int| 0 <= m < i ==> nonce@[m] == bytes@[m],
        decreases 12 - i,
    {
        nonce[i] = bytes[i];
        i = i + 1;
    }
    let result = Envelope::from_sealed(nonce, slice_subrange(bytes, 12, len));
    proof {
        let body = bytes@.subrange(12, len as int);
        assert(nonce@ =~= bytes@.subrange(0, 12));
        assert(body.take(body.len() - 16) =~= bytes@.subrange(12, len - 16));
        assert(body.skip(body.len() - 16) =~= bytes@.subrange(len - 16, len as int));
    }
    result
}

impl Envelope {
    /// Cuts the output of the cipher into ciphertext and tag and puts the
    /// nonce in front. Output too short to end in a tag is refused as
    /// malformed.
    pub fn from_sealed(nonce: [u8; 12], body: &[u8]) -> (result: Result<Envelope, EnvelopeError>)
        ensures
            match result {
                Ok(envelope) => {
                    &&& envelope.nonce == nonce
                    &&& envelope.ciphertext@ == body@.take(body@.len() - 16)
                    &&& envelope.tag@ == body@.skip(body@.len() - 16)
                },
                Err(e) => e == EnvelopeError::MalformedEnvelope,
            },
            result is Ok <==> body@.len() >= 16,
    {
        let len = body.len();
        if len < 16 {
            return Err(EnvelopeError::MalformedEnvelope);
        }
        let cut: usize = len - 16;
        let ciphertext = slice_to_vec(slice_subrange(body, 0, cut));
        let mut tag = [0u8; 16];
        let mut i: usize = 0;
        while i < 16
            invariant
                i <= 16,
                len == body@.len(),
                cut == len - 16,
                forall|m: int| 0 <= m < i ==> tag@[m] == body@[cut + m],
            decreases 16 - i,
        {
            tag[i] = body[cut + i];
            i = i + 1;
        }
        Ok(Envelope { nonce, ciphertext, tag })
    }

    /// Ciphertext and tag as the cipher wants them back: one after the
    /// other.
    pub fn body(&self) -> (body: Vec<u8>)
        ensures
            body@ == self.ciphertext@ + self.tag@,
    {
        let mut body: Vec<u8> = Vec::new();
        body.extend_from_slice(self.ciphertext.as_slice());
        body.extend_from_slice(self.tag.as_slice());
        body
    }
}

} // verus!
