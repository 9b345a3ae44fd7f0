//! Password-based encryption of byte payloads.
//!
//! [`encrypt`] turns a payload and a password into one self-contained
//! container: a fresh salt and a fresh nonce are drawn, a 256-bit key is
//! derived from the password with Argon2, the payload is sealed with
//! AES-256-GCM-SIV, and ciphertext, nonce and salt are laid out in a fixed
//! byte format. [`decrypt`] reads such a container back and tells a wrong
//! password ([`CryptographyError::IncorrectPassword`]) apart from bytes that
//! are no container at all ([`CryptographyError::DecodingFailure`]).
//!
//! - [`error`] holds the error type.
//! - [`container`] holds the record of ciphertext, nonce and salt, its byte
//!   layout, and the proofs that reading and writing the layout invert each
//!   other.
//! - [`primitives`] is the trusted interface to Argon2, AES-256-GCM-SIV and
//!   the random source. The primitives are not reimplemented; what is
//!   claimed of them stands there and nowhere else.
//! - [`sealing`] composes the steps, and states what [`encrypt`] and
//!   [`decrypt`] return: in particular that a container opens, under the
//!   password it was sealed with, to the payload that was sealed.

pub mod container;
pub mod error;
pub mod primitives;
pub mod sealing;

pub use crate::container::{pack, unpack, EncryptedFile};
pub use crate::error::CryptographyError;
pub use crate::sealing::{
    decrypt, derive_key, encrypt, encrypt_with, open_with_key, seal_with_key,
};
