//! The ways in which an envelope operation can fail.

use vstd::prelude::*;

verus! {

/// Every failure the crate reports. A value carries nothing beyond its kind:
/// in particular `AuthenticationFailure` never says which part of an envelope
/// was at fault, so that a caller cannot be used as an oracle.
#[derive(Clone, Copy, Debug, PartialEq, Eq, Structural)]
pub enum EnvelopeError {
    /// Key bytes were supplied whose length is not exactly 32.
    InvalidKeyLength,
    /// The nonce counter has run through all of its 2^96 values; the key
    /// must be replaced before anything more is encrypted.
    NonceExhausted,
    /// Encoded bytes are too short to hold a nonce and a tag.
    MalformedEnvelope,
    /// The cipher did not accept the envelope under the given key and
    /// associated data.
    AuthenticationFailure,
}

} // verus!
