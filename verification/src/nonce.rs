//! Nonces that never repeat under one key.
//!
//! Of the two usual strategies, random nonces and a counter, this crate uses
//! the counter: the nonce of a message is the number of messages sealed
//! before it, written as a 96-bit big-endian integer. Uniqueness is then a
//! matter of arithmetic and holds for all 2^96 nonces, whereas random
//! nonces would start to collide long before that.
//!
//! A counter is only as good as its bookkeeping. Whoever keeps a key beyond
//! the life of a process must store [`NonceGenerator::position`] durably
//! before a nonce is used and hand it back through
//! [`NonceGenerator::resume`]; the stored value must never be rolled back,
//! nor shared by two generators at once.

use crate::error::EnvelopeError;
use vstd::prelude::*;

verus! {

/// The number of distinct nonces, 2^96. A generator whose counter has come
/// this far is exhausted.
pub const NONCE_SPACE: u128 = 0x1_0000_0000_0000_0000_0000_0000;

/// `counter` without its `digits` lowest base-256 digits.
pub open spec fn shifted(counter: nat, digits: nat) -> nat
    decreases digits,
{
    if digits == 0 {
        counter
    } else {
        shifted(counter, (digits - 1) as nat) / 256
    }
}

/// The nonce that stands for a counter value: its twelve lowest base-256
/// digits, the most significant first.
pub open spec fn nonce_bytes(counter: nat) -> Seq<u8> {
    Seq::new(12, |i: int| (shifted(counter, (11 - i) as nat) % 256) as u8)
}

/// The number that a byte string spells in big-endian notation.
pub open spec fn nonce_value(nonce: Seq<u8>) -> nat
    decreases nonce.len(),
{
    if nonce.len() == 0 {
        0
    } else {
        nonce_value(nonce.drop_last()) * 256 + nonce.last() as nat
    }
}

/// A counter below 2^96 has no digits beyond the twelfth.
proof fn lemma_no_high_digits(counter: nat)
    requires
        counter < NONCE_SPACE,
    ensures
        shifted(counter, 12) == 0,
{
    reveal_with_fuel(shifted, 13);
}

/// The first `len` bytes of a nonce spell the counter without its
/// `12 - len` lowest digits.
proof fn lemma_prefix_value(counter: nat, len: nat)
    requires
        counter < NONCE_SPACE,
        len <= 12,
    ensures
        nonce_value(nonce_bytes(counter).take(len as int)) == shifted(counter, (12 - len) as nat),
    decreases len,
{
    let prefix = nonce_bytes(counter).take(len as int);
    if len == 0 {
        lemma_no_high_digits(counter);
    } else {
        lemma_prefix_value(counter, (len - 1) as nat);
        assert(prefix.drop_last() =~= nonce_bytes(counter).take(len - 1));
    }
}

/// A nonce spells the counter value it was made from.
pub proof fn lemma_nonce_value(counter: nat)
    requires
        counter < NONCE_SPACE,
    ensures
        nonce_bytes(counter).len() == 12,
        nonce_value(nonce_bytes(counter)) == counter,
{
    lemma_prefix_value(counter, 12);
    assert(nonce_bytes(counter).take(12) =~= nonce_bytes(counter));
}

/// A later counter value gives a greater nonce, read as a big-endian
/// number, and so a different one: however many messages are sealed under
/// a key, one after the other, no two of them share a nonce.
pub proof fn lemma_nonces_strictly_increasing(earlier: nat, later: nat)
    requires
        earlier < later < NONCE_SPACE,
    ensures
        nonce_value(nonce_bytes(earlier)) < nonce_value(nonce_bytes(later)),
        nonce_bytes(earlier) != nonce_bytes(later),
{
    lemma_nonce_value(earlier);
    lemma_nonce_value(later);
}

/// Writes a counter as a nonce: twelve bytes that, as long as the counter is
/// below 2^96, spell it in big-endian notation.
pub fn counter_to_nonce(counter: u128) -> (nonce: [u8; 12])
    ensures
        nonce@ == nonce_bytes(counter as nat),
        counter < NONCE_SPACE ==> nonce_value(nonce@) == counter,
{
    let mut nonce = [0u8; 12];
    let mut rest: u128 = counter;
    let mut i: usize = 12;
    while i > 0
        invariant
            i <= 12,
            rest == shifted(counter as nat, (12 - i) as nat),
            forall|j: int|
                i <= j < 12 ==> nonce@[j] == (shifted(counter as nat, (11 - j) as nat) % 256) as u8,
        decreases i,
    {
        i = i - 1;
        nonce[i] = (rest % 256) as u8;
        rest = rest / 256;
    }
    proof {
        if counter < NONCE_SPACE {
            lemma_nonce_value(counter as nat);
        }
    }
    nonce
}

/// The source of nonces for one key: a counter of the messages sealed so
/// far. It is deliberately neither `Clone` nor `Copy`, since two generators
/// in the same state would hand out the same nonces.
#[derive(Debug)]
pub struct NonceGenerator {
    next: u128,
}

impl NonceGenerator {
    /// The counter value that the next nonce will stand for.
    pub closed spec fn counter(&self) -> nat {
        self.next as nat
    }

    /// Whether all 2^96 nonces have been handed out.
    pub open spec fn exhausted(&self) -> bool {
        self.counter() >= NONCE_SPACE
    }

    /// A generator for a key that has not sealed anything yet.
    pub fn new() -> (generator: NonceGenerator)
        ensures
            generator.counter() == 0,
    {
        NonceGenerator { next: 0 }
    }

    /// A generator that carries on from a stored position. A position of
    /// 2^96 or beyond gives an exhausted generator.
    pub fn resume(position: u128) -> (generator: NonceGenerator)
        ensures
            generator.counter() == position,
    {
        NonceGenerator { next: position }
    }

    /// The position to store: the number of nonces handed out so far.
    pub fn position(&self) -> (position: u128)
        ensures
            position == self.counter(),
    {
        self.next
    }

    /// Hands out the next nonce, which spells the number of nonces handed
    /// out before it, and moves the counter on by one. Once the counter has
    /// reached 2^96 it fails, and keeps failing, without changing anything.
    pub fn next_nonce(&mut self) -> (result: Result<[u8; 12], EnvelopeError>)
        ensures
            match result {
                Ok(nonce) => {
                    &&& nonce@ == nonce_bytes(old(self).counter())
                    &&& nonce_value(nonce@) == old(self).counter()
                    &&& final(self).counter() == old(self).counter() + 1
                },
                Err(e) => {
                    &&& e == EnvelopeError::NonceExhausted
                    &&& *final(self) == *old(self)
                },
            },
            result is Ok <==> !old(self).exhausted(),
    {
        if self.next >= NONCE_SPACE {
            return Err(EnvelopeError::NonceExhausted);
        }
        let nonce = counter_to_nonce(self.next);
        self.next = self.next + 1;
        Ok(nonce)
    }
}

} // verus!
