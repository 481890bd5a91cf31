//! The 256-bit secret.

use crate::error::EnvelopeError;
use crate::primitive::fresh_key_bytes;
use vstd::prelude::*;
use zeroize::Zeroize;

verus! {

/// A 256-bit symmetric key.
///
/// The bytes cannot be read back through the public interface and the type
/// has no `Debug`, so a key does not find its way into logs by accident.
/// When a key goes out of scope its bytes are overwritten with zeros.
pub struct Key {
    bytes: [u8; 32],
}

impl View for Key {
    type V = Seq<u8>;

    closed spec fn view(&self) -> Seq<u8> {
        self.bytes@
    }
}

/// Thirty-two zero bytes: what is left of a key once it has been scrubbed.
pub open spec fn scrubbed() -> Seq<u8> {
    Seq::new(32, |i: int| 0u8)
}

/// Calls `Zeroize::zeroize` on the array, whose writes are volatile: the
/// compiler cannot leave them out on the grounds that nobody reads the key
/// again.
///
/// Assumed of it: it sets every byte to zero, and does not unwind.
#[verifier::external_body]
fn wipe(bytes: &mut [u8; 32])
    ensures
        final(bytes)@ == scrubbed(),
    opens_invariants none
    no_unwind
{
    bytes.zeroize();
}

impl Key {
    /// A fresh key from the operating system's random number generator.
    pub fn generate() -> (key: Key)
        ensures
            key@.len() == 32,
    {
        Key::from_array(fresh_key_bytes())
    }

    /// Takes over 32 key bytes that were made elsewhere.
    pub fn from_array(bytes: [u8; 32]) -> (key: Key)
        ensures
            key@ == bytes@,
    {
        Key { bytes }
    }

    /// Takes over key bytes that were made elsewhere. They are accepted if
    /// and only if there are exactly 32 of them.
    pub fn from_bytes(bytes: &[u8]) -> (result: Result<Key, EnvelopeError>)
        ensures
            match result {
                Ok(key) => key@ == bytes@,
                Err(e) => e == EnvelopeError::InvalidKeyLength,
            },
            result is Ok <==> bytes@.len() == 32,
    {
        if bytes.len() != 32 {
            return Err(EnvelopeError::InvalidKeyLength);
        }
        let mut key = Key { bytes: [0u8; 32] };
        let mut i: usize = 0;
        while i < 32
            invariant
                i <= 32,
                bytes@.len() == 32,
                forall|j: int| 0 <= j < i ==> key.bytes@[j] == bytes@[j],
            decreases 32 - i,
        {
            key.bytes[i] = bytes[i];
            i = i + 1;
        }
        Ok(key)
    }

    /// Hands the bytes to the cipher.
    pub(crate) fn expose(&self) -> (bytes: &[u8; 32])
        ensures
            bytes@ == self@,
    {
        &self.bytes
    }

    /// Overwrites the key with zeros ahead of its end of life.
    pub fn scrub(&mut self)
        ensures
            final(self)@ == scrubbed(),
        opens_invariants none
        no_unwind
    {
        wipe(&mut self.bytes);
    }
}

impl Drop for Key {
    /// A key is scrubbed when it goes out of scope, on whatever path.
    fn drop(&mut self)
        ensures
            final(self)@ == scrubbed(),
        opens_invariants none
        no_unwind
    {
        self.scrub();
    }
}

/// A fresh key from the operating system's random number generator.
pub fn generate_key() -> (key: Key)
    ensures
        key@.len() == 32,
{
    Key::generate()
}

/// Takes over key bytes that were made elsewhere: accepted if and only if
/// there are exactly 32 of them, and refused with `InvalidKeyLength`
/// otherwise.
pub fn import_key(bytes: &[u8]) -> (result: Result<Key, EnvelopeError>)
    ensures
        match result {
            Ok(key) => key@ == bytes@,
            Err(e) => e == EnvelopeError::InvalidKeyLength,
        },
        result is Ok <==> bytes@.len() == 32,
{
    Key::from_bytes(bytes)
}

} // verus!
