//! Encryption and decryption under one key.

use crate::codec::{decode, encode, encoded, Envelope};
use crate::error::EnvelopeError;
use crate::key::Key;
use crate::laws::{lemma_decrypt_encoded, lemma_other_nonces_detected, lemma_tag_flips_detected};
use crate::model::{
    decrypted, detects_other_nonces, detects_tag_flips, nonce_is_binding, opened_parts, outcome,
    sealable, sealed_parts, tag_is_binding,
};
use crate::nonce::{nonce_bytes, nonce_value, NonceGenerator, NONCE_SPACE};
use crate::primitive::{open, seal, MAX_AAD_LEN, MAX_PLAINTEXT_LEN};
use vstd::pervasive::unreached;
use vstd::prelude::*;

verus! {

/// Whether a plaintext and associated data are within the lengths that the
/// cipher takes, as `encrypt` asks of its caller.
pub fn is_sealable(plaintext: &[u8], aad: &[u8]) -> (fits: bool)
    ensures
        fits == sealable(plaintext@, aad@),
{
    plaintext.len() as u64 <= MAX_PLAINTEXT_LEN && aad.len() as u64 <= MAX_AAD_LEN
}

/// Turns the cipher's answer into the crate's: a plaintext is passed on,
/// and every refusal becomes the one `AuthenticationFailure`.
pub fn authenticated(answer: Result<Vec<u8>, aes_gcm::aead::Error>) -> (result: Result<
    Vec<u8>,
    EnvelopeError,
>)
    ensures
        match answer {
            Ok(plaintext) => result == Ok::<Vec<u8>, EnvelopeError>(plaintext),
            Err(_) => result == Err::<Vec<u8>, EnvelopeError>(EnvelopeError::AuthenticationFailure),
        },
{
    match answer {
        Ok(plaintext) => Ok(plaintext),
        Err(_) => Err(EnvelopeError::AuthenticationFailure),
    }
}

/// A key together with the source of its nonces: all that is needed to
/// encrypt and decrypt. The nonces are kept here, with the key they belong
/// to, and nowhere else; encrypting takes `&mut self`, so that two
/// encryptions under one key can never run on the same counter value.
///
/// Any number of environments around the same key bytes may decrypt, but
/// only one of them may ever encrypt: a second one would count its nonces
/// from the start again.
#[allow(non_camel_case_types)]
pub struct Cryption_Env {
    key: Key,
    nonces: NonceGenerator,
}

impl Cryption_Env {
    /// The bytes of the key.
    pub closed spec fn key_bytes(&self) -> Seq<u8> {
        self.key@
    }

    /// The number of messages encrypted under the key so far.
    pub closed spec fn counter(&self) -> nat {
        self.nonces.counter()
    }

    /// An environment around a freshly generated key.
    pub fn new() -> (env: Cryption_Env)
        ensures
            env.key_bytes().len() == 32,
            env.counter() == 0,
    {
        Cryption_Env::with_key(Key::generate())
    }

    /// An environment around a key that has not encrypted anything yet.
    pub fn with_key(key: Key) -> (env: Cryption_Env)
        ensures
            env.key_bytes() == key@,
            env.counter() == 0,
    {
        Cryption_Env { key, nonces: NonceGenerator::new() }
    }

    /// An environment around a key that has been in use: `position` is the
    /// number of messages encrypted under it so far, as `position` last
    /// returned it.
    pub fn resume(key: Key, position: u128) -> (env: Cryption_Env)
        ensures
            env.key_bytes() == key@,
            env.counter() == position,
    {
        Cryption_Env { key, nonces: NonceGenerator::resume(position) }
    }

    /// The number of messages encrypted under the key so far.
    pub fn position(&self) -> (position: u128)
        ensures
            position == self.counter(),
    {
        self.nonces.position()
    }

    /// Encrypts a message under the next nonce and binds the associated
    /// data to it.
    ///
    /// The one failure is `NonceExhausted`, when 2^96 messages have been
    /// encrypted under the key; nothing changes then. Otherwise the counter
    /// moves on by one, and the envelope is what the cipher makes of the
    /// plaintext under the nonce that spells the old counter value. Its
    /// ciphertext is as long as the plaintext. It opens again, under the
    /// same key and associated data, to the plaintext; with any other tag,
    /// or with any other nonce, it does not open.
    ///
    /// The cipher takes at most 2^36 bytes of plaintext and as many of
    /// associated data, hence the precondition; `is_sealable` tests it.
    pub fn encrypt(&mut self, plaintext: &[u8], aad: &[u8]) -> (result: Result<
        Envelope,
        EnvelopeError,
    >)
        requires
            sealable(plaintext@, aad@),
        ensures
            final(self).key_bytes() == old(self).key_bytes(),
            match result {
                Ok(envelope) => {
                    &&& final(self).counter() == old(self).counter() + 1
                    &&& nonce_value(envelope.nonce@) == old(self).counter()
                    &&& envelope@ == sealed_parts(
                        old(self).key_bytes(),
                        nonce_bytes(old(self).counter()),
                        aad@,
                        plaintext@,
                    )
                    &&& envelope.ciphertext@.len() == plaintext@.len()
                    &&& opened_parts(old(self).key_bytes(), envelope@, aad@) == Ok::<
                        Seq<u8>,
                        EnvelopeError,
                    >(plaintext@)
                    &&& tag_is_binding(old(self).key_bytes(), envelope@, aad@)
                    &&& nonce_is_binding(old(self).key_bytes(), envelope@, aad@)
                },
                Err(e) => {
                    &&& e == EnvelopeError::NonceExhausted
                    &&& final(self).counter() == old(self).counter()
                },
            },
            result is Ok <==> old(self).counter() < NONCE_SPACE,
    {
        let nonce = match self.nonces.next_nonce() {
            Ok(nonce) => nonce,
            Err(e) => {
                return Err(e);
            },
        };
        match seal(self.key.expose(), &nonce, aad, plaintext) {
            Ok(body) => {
                let result = Envelope::from_sealed(nonce, body.as_slice());
                proof {
                    let parts = result.unwrap()@;
                    assert(parts.ciphertext + parts.tag =~= body@);
                }
                result
            },
            Err(_) => unreached(),
        }
    }

    /// Opens an envelope, checking it against the associated data.
    ///
    /// The answer is the cipher's: the plaintext if it accepts nonce,
    /// ciphertext and tag under the key and the associated data, and
    /// `AuthenticationFailure` if it does not. No part of a plaintext is
    /// returned on failure.
    pub fn decrypt(&self, envelope: &Envelope, aad: &[u8]) -> (result: Result<Vec<u8>, EnvelopeError>)
        ensures
            outcome(result) == opened_parts(self.key_bytes(), envelope@, aad@),
            result matches Ok(plaintext) ==> plaintext@.len() == envelope.ciphertext@.len(),
    {
        let body = envelope.body();
        let answer = open(self.key.expose(), &envelope.nonce, aad, body.as_slice());
        authenticated(answer)
    }
}

/// Encrypts a message and encodes the envelope.
///
/// The result is the nonce followed by the cipher's output, 28 bytes more
/// than the plaintext, and `decrypt` turns it back into the plaintext. With
/// any one bit of its tag inverted, or with any other nonce in front, it
/// does not decrypt. The one failure is `NonceExhausted`; see
/// [`Cryption_Env::encrypt`].
pub fn encrypt(env: &mut Cryption_Env, plaintext: &[u8], aad: &[u8]) -> (result: Result<
    Vec<u8>,
    EnvelopeError,
>)
    requires
        sealable(plaintext@, aad@),
    ensures
        final(env).key_bytes() == old(env).key_bytes(),
        match result {
            Ok(bytes) => {
                &&& final(env).counter() == old(env).counter() + 1
                &&& nonce_value(bytes@.take(12)) == old(env).counter()
                &&& bytes@ == encoded(
                    sealed_parts(
                        old(env).key_bytes(),
                        nonce_bytes(old(env).counter()),
                        aad@,
                        plaintext@,
                    ),
                )
                &&& bytes@.len() == 28 + plaintext@.len()
                &&& decrypted(old(env).key_bytes(), bytes@, aad@) == Ok::<Seq<u8>, EnvelopeError>(
                    plaintext@,
                )
                &&& detects_tag_flips(old(env).key_bytes(), bytes@, aad@)
                &&& detects_other_nonces(old(env).key_bytes(), bytes@, aad@)
            },
            Err(e) => {
                &&& e == EnvelopeError::NonceExhausted
                &&& final(env).counter() == old(env).counter()
            },
        },
        result is Ok <==> old(env).counter() < NONCE_SPACE,
{
    match env.encrypt(plaintext, aad) {
        Ok(envelope) => {
            let bytes = encode(&envelope.nonce, envelope.ciphertext.as_slice(), &envelope.tag);
            proof {
                assert(bytes@.take(12) =~= envelope.nonce@);
                lemma_decrypt_encoded(env.key_bytes(), envelope@, aad@);
                lemma_tag_flips_detected(env.key_bytes(), envelope@, aad@);
                lemma_other_nonces_detected(env.key_bytes(), envelope@, aad@);
            }
            Ok(bytes)
        },
        Err(e) => Err(e),
    }
}

/// Decodes an envelope and opens it.
///
/// Fewer than 28 bytes are refused as `MalformedEnvelope`, without the
/// cipher being asked. Anything longer is split into nonce, ciphertext and
/// tag, and is the plaintext if the cipher accepts these under the key and
/// the associated data, and `AuthenticationFailure` if it does not.
pub fn decrypt(env: &Cryption_Env, bytes: &[u8], aad: &[u8]) -> (result: Result<
    Vec<u8>,
    EnvelopeError,
>)
    ensures
        outcome(result) == decrypted(env.key_bytes(), bytes@, aad@),
        result == Err::<Vec<u8>, EnvelopeError>(EnvelopeError::MalformedEnvelope) <==> bytes@.len()
            < 28,
        result matches Ok(plaintext) ==> plaintext@.len() + 28 == bytes@.len(),
{
    match decode(bytes) {
        Ok(envelope) => env.decrypt(&envelope, aad),
        Err(e) => Err(e),
    }
}

} // verus!
