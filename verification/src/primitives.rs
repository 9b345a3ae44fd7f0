//! The trusted interface to the primitives that this library builds on.
//!
//! Nothing in this module is proved. Each function below hands its
//! arguments to one operation of an outside crate, and its contract is a
//! claim about that crate: Argon2 from `rust-argon2`, AES-256-GCM-SIV from
//! `aes-gcm-siv`, and the operating system's random source as `aes-gcm-siv`
//! hands it on. What the primitives compute is not written out; it is given
//! a name, and the verified code speaks of those names.

use aes_gcm_siv::aead::generic_array::GenericArray;
use aes_gcm_siv::aead::rand_core::RngCore;
use aes_gcm_siv::aead::{Aead, OsRng};
use aes_gcm_siv::{Aes256GcmSiv, KeyInit, Nonce};
use vstd::endian::endianness;
use vstd::prelude::*;

verus! {

/// Length of a key in bytes.
pub const KEY_LEN: usize = 32;

/// Length of the authentication tag that ends every ciphertext.
pub const TAG_LEN: usize = 16;

/// The longest password, in bytes, that Argon2 accepts.
pub const MAX_PASSWORD_LEN: u64 = 0xFFFF_FFFF;

/// The shortest hash, in bytes, that Argon2 gives.
pub const MIN_HASH_LEN: u32 = 4;

/// The longest plaintext, in bytes, that AES-GCM-SIV accepts.
pub const MAX_PLAINTEXT_LEN: u64 = 0x10_0000_0000;

/// The error of `rust-argon2`, carried through as an opaque value.
#[verifier::external_type_specification]
#[verifier::external_body]
pub struct ExArgon2Error(argon2::Error);

/// The error of the `aead` traits, carried through as an opaque value.
#[verifier::external_type_specification]
#[verifier::external_body]
pub struct ExAeadError(aes_gcm_siv::aead::Error);

/// Whether the machine that runs the program stores the low byte of a number
/// first.
pub open spec fn little_endian() -> bool {
    endianness() is Little
}

/// The raw hash of `hash_len` bytes that `argon2::hash_raw` computes from a
/// password and a salt under the crate's default configuration (Argon2id,
/// version 1.3, one lane, no secret, no associated data).
///
/// `rust-argon2` reads the bytes of its memory blocks as 64-bit words in the
/// byte order of the machine. The hash is therefore a function of that byte
/// order too, and it is the hash that Argon2 defines where the low byte
/// comes first.
pub uninterp spec fn argon2_hash(
    password: Seq<u8>,
    salt: Seq<u8>,
    hash_len: u32,
    little_endian: bool,
) -> Seq<u8>;

/// The ciphertext, tag included, that AES-256-GCM-SIV makes of a plaintext
/// under a key and a nonce, without associated data.
pub uninterp spec fn aes_gcm_siv_sealed(key: Seq<u8>, nonce: Seq<u8>, plaintext: Seq<u8>) -> Seq<u8>;

/// The plaintext that AES-256-GCM-SIV reads from a ciphertext under a key
/// and a nonce, without associated data; `None` where it refuses the
/// ciphertext.
pub uninterp spec fn aes_gcm_siv_opened(key: Seq<u8>, nonce: Seq<u8>, ciphertext: Seq<u8>) -> Option<
    Seq<u8>,
>;

/// Calls `OsRng.fill_bytes` on a buffer of `N` bytes.
///
/// Nothing is claimed of the bytes that come back. The call panics where
/// the operating system's random source fails.
#[verifier::external_body]
pub(crate) fn random_bytes<const N: usize>() -> [u8; N] {
    let mut bytes = [0u8; N];
    OsRng.fill_bytes(&mut bytes);
    bytes
}

/// Calls `argon2::hash_raw` with the crate's default configuration, changed
/// only in the length of the hash.
///
/// Claimed of it: with a salt of 32 bytes it fails exactly where the
/// password is longer than `MAX_PASSWORD_LEN` bytes; the hash has the length
/// asked for; and the hash depends on password, salt, length and the
/// machine's byte order alone.
#[verifier::external_body]
pub(crate) fn argon2_hash_raw(password: &[u8], salt: &[u8; 32], hash_len: u32) -> (r: Result<
    Vec<u8>,
    argon2::Error,
>)
    requires
        hash_len >= MIN_HASH_LEN,
    ensures
        match r {
            Ok(hash) => {
                &&& password@.len() <= MAX_PASSWORD_LEN
                &&& hash@ == argon2_hash(password@, salt@, hash_len, little_endian())
                &&& hash@.len() == hash_len
            },
            Err(_) => password@.len() > MAX_PASSWORD_LEN,
        },
{
    let config = argon2::Config { hash_length: hash_len, ..Default::default() };
    argon2::hash_raw(password, salt, &config)
}

/// Calls `Aead::encrypt` on an `Aes256GcmSiv` made of `key`.
///
/// The call allocates room for plaintext and tag, so the two together must
/// not be longer than a `usize` can say.
///
/// Claimed of it: it fails exactly where the plaintext is longer than
/// `MAX_PLAINTEXT_LEN` bytes; the ciphertext is the plaintext's length and a
/// tag long, and depends on key, nonce and plaintext alone; and decrypting
/// the ciphertext under the same key and nonce gives the plaintext back.
#[verifier::external_body]
pub(crate) fn aes_gcm_siv_encrypt(key: &[u8; 32], nonce: &[u8; 12], plaintext: &[u8]) -> (r: Result<
    Vec<u8>,
    aes_gcm_siv::aead::Error,
>)
    requires
        plaintext@.len() + TAG_LEN <= usize::MAX,
    ensures
        match r {
            Ok(ciphertext) => {
                &&& plaintext@.len() <= MAX_PLAINTEXT_LEN
                &&& ciphertext@ == aes_gcm_siv_sealed(key@, nonce@, plaintext@)
                &&& ciphertext@.len() == plaintext@.len() + TAG_LEN
                &&& aes_gcm_siv_opened(key@, nonce@, ciphertext@) == Some(plaintext@)
            },
            Err(_) => plaintext@.len() > MAX_PLAINTEXT_LEN,
        },
{
    let cipher = Aes256GcmSiv::new(GenericArray::from_slice(key));
    cipher.encrypt(Nonce::from_slice(nonce), plaintext)
}

/// Calls `Aead::decrypt` on an `Aes256GcmSiv` made of `key`.
///
/// Claimed of it: whether it accepts the ciphertext, and the plaintext it
/// then gives, depend on key, nonce and ciphertext alone.
#[verifier::external_body]
pub(crate) fn aes_gcm_siv_decrypt(key: &[u8; 32], nonce: &[u8; 12], ciphertext: &[u8]) -> (r:
    Result<Vec<u8>, aes_gcm_siv::aead::Error>)
    ensures
        match r {
            Ok(plaintext) => aes_gcm_siv_opened(key@, nonce@, ciphertext@) == Some(plaintext@),
            Err(_) => aes_gcm_siv_opened(key@, nonce@, ciphertext@) is None,
        },
{
    let cipher = Aes256GcmSiv::new(GenericArray::from_slice(key));
    cipher.decrypt(Nonce::from_slice(nonce), ciphertext)
}

} // verus!
