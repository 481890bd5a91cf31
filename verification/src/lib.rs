//! An authenticated-encryption envelope over AES-256-GCM.
//!
//! A message is sealed under a 256-bit key and a 96-bit nonce that is used
//! once; the result, nonce, ciphertext and tag, travels as one byte string.
//! Associated data is bound to the message without being part of it, and
//! must be presented again, unchanged, for the message to open.
//!
//! ```text
//! let mut env = Cryption_Env::with_key(import_key(&key_bytes)?);
//! let bytes = encrypt(&mut env, b"hello", b"header")?;
//! let plaintext = decrypt(&env, &bytes, b"header")?;
//! ```
//!
//! The cipher itself comes from the `aes-gcm` crate and is taken on trust, in
//! the module [`primitive`]. Everything around it is verified: the nonces
//! ([`nonce`]), the wire format ([`codec`]), the handling of keys ([`key`])
//! and the way these are put together ([`envelope`], with its contracts
//! stated over [`model`] and its consequences drawn in [`laws`]).

pub mod codec;
pub mod envelope;
pub mod error;
pub mod key;
pub mod laws;
pub mod model;
pub mod nonce;
pub mod primitive;

pub use codec::{decode, encode, Envelope};
pub use envelope::{decrypt, encrypt, is_sealable, Cryption_Env};
pub use error::EnvelopeError;
pub use key::{generate_key, import_key, Key};
pub use nonce::NonceGenerator;
