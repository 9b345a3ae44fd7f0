//! Sealing a payload under a password, and opening the container again.
//!
//! Sealing draws a salt, derives a key from password and salt, draws a
//! nonce, encrypts the payload under key and nonce, and packs ciphertext,
//! nonce and salt into a container. Opening unpacks the container, derives
//! the key from the password and the stored salt, and decrypts the stored
//! ciphertext under the stored nonce.
//!
//! What the calls return is stated over [`sealed`] and [`opened`], which
//! say in turn what the hash function and the cipher are asked. The
//! functions that take a `Result` of an outside crate are the places where
//! an outcome of a primitive becomes an outcome of this library.

use crate::container::{
    array_at, container_len, le_value, lemma_alteration_seen, lemma_parse_of_bytes,
    lemma_short_input_rejected, lemma_truncation_rejected, pack, parse, unpack, EncryptedFile,
    Record, FRAME_LEN, NONCE_LEN, PREFIX_LEN, SALT_LEN,
};
use crate::error::CryptographyError;
use crate::primitives::{
    aes_gcm_siv_decrypt, aes_gcm_siv_encrypt, aes_gcm_siv_opened, aes_gcm_siv_sealed, argon2_hash,
    argon2_hash_raw, little_endian, random_bytes, KEY_LEN, MAX_PASSWORD_LEN, MAX_PLAINTEXT_LEN,
    TAG_LEN,
};
use vstd::prelude::*;

verus! {

/// What a call returns, with the bytes of a success as a sequence.
pub open spec fn outcome(r: Result<Vec<u8>, CryptographyError>) -> Result<
    Seq<u8>,
    CryptographyError,
> {
    match r {
        Ok(bytes) => Ok(bytes@),
        Err(e) => Err(e),
    }
}

/// The Argon2 hash of a password and a salt, `KEY_LEN` bytes long, as the
/// machine that runs the program computes it.
pub open spec fn key_of(password: Seq<u8>, salt: Seq<u8>) -> Seq<u8> {
    argon2_hash(password, salt, KEY_LEN as u32, little_endian())
}

/// The key that belongs to a password and a salt. There is none for a
/// password that Argon2 does not accept.
pub open spec fn derived_key(password: Seq<u8>, salt: Seq<u8>) -> Result<
    Seq<u8>,
    CryptographyError,
> {
    if password.len() <= MAX_PASSWORD_LEN {
        Ok(key_of(password, salt))
    } else {
        Err(CryptographyError::KeyGenerationFailure)
    }
}

/// The error, if any, with which sealing ends for a payload of `data_len`
/// bytes and a password of `password_len` bytes. The steps are taken in
/// this order: the key is derived, room for the container is reckoned, the
/// payload is encrypted.
pub open spec fn sealing_error(data_len: nat, password_len: nat) -> Option<CryptographyError> {
    if password_len > MAX_PASSWORD_LEN {
        Some(CryptographyError::KeyGenerationFailure)
    } else if data_len + TAG_LEN + FRAME_LEN > usize::MAX {
        Some(CryptographyError::EncodingFailure)
    } else if data_len > MAX_PLAINTEXT_LEN {
        Some(CryptographyError::IncorrectPassword)
    } else {
        None
    }
}

/// The container that sealing `data` under `key` gives with `nonce`, for a
/// key that was derived with `salt`: the layout of the record that holds
/// the ciphertext of `data` under `key` and `nonce`, then `nonce`, then
/// `salt`.
pub open spec fn sealed_with_key(data: Seq<u8>, key: Seq<u8>, nonce: Seq<u8>, salt: Seq<u8>) -> Result<
    Seq<u8>,
    CryptographyError,
> {
    if data.len() + TAG_LEN + FRAME_LEN > usize::MAX {
        Err(CryptographyError::EncodingFailure)
    } else if data.len() > MAX_PLAINTEXT_LEN {
        Err(CryptographyError::IncorrectPassword)
    } else {
        Ok(Record { data: aes_gcm_siv_sealed(key, nonce, data), nonce, salt }.bytes())
    }
}

/// The container that sealing `data` under `password` gives when `salt` and
/// `nonce` are the values drawn.
pub open spec fn sealed(data: Seq<u8>, password: Seq<u8>, salt: Seq<u8>, nonce: Seq<u8>) -> Result<
    Seq<u8>,
    CryptographyError,
> {
    match derived_key(password, salt) {
        Err(e) => Err(e),
        Ok(key) => sealed_with_key(data, key, nonce, salt),
    }
}

/// The payload that opening a record under `key` gives: what the cipher
/// reads from the record's ciphertext under `key` and the record's nonce.
pub open spec fn opened_with_key(record: Record, key: Seq<u8>) -> Result<
    Seq<u8>,
    CryptographyError,
> {
    match aes_gcm_siv_opened(key, record.nonce, record.data) {
        None => Err(CryptographyError::IncorrectPassword),
        Some(payload) => Ok(payload),
    }
}

/// The payload that opening `bytes` under `password` gives.
pub open spec fn opened(bytes: Seq<u8>, password: Seq<u8>) -> Result<Seq<u8>, CryptographyError> {
    match parse(bytes) {
        None => Err(CryptographyError::DecodingFailure),
        Some(record) => match derived_key(password, record.salt) {
            Err(e) => Err(e),
            Ok(key) => opened_with_key(record, key),
        },
    }
}

/// The length of the container that sealing a payload of `payload_len`
/// bytes gives: the payload, the authentication tag and the frame. Where
/// that length is beyond what a `usize` can hold, no such container can be
/// made, which is an `EncodingFailure`.
pub fn sealed_len(payload_len: usize) -> (r: Result<usize, CryptographyError>)
    ensures
        match r {
            Ok(total) => total == payload_len + TAG_LEN + FRAME_LEN,
            Err(e) => {
                &&& e == CryptographyError::EncodingFailure
                &&& payload_len + TAG_LEN + FRAME_LEN > usize::MAX
            },
        },
{
    if payload_len > usize::MAX - TAG_LEN {
        Err(CryptographyError::EncodingFailure)
    } else {
        container_len(payload_len + TAG_LEN)
    }
}

/// Turns what the hash function returned into a key.
///
/// A hash of 32 bytes is the key; a hash of another length, or an error of
/// the hash function, is a `KeyGenerationFailure`.
pub fn key_from_hash(hashed: Result<Vec<u8>, argon2::Error>) -> (r: Result<
    [u8; 32],
    CryptographyError,
>)
    ensures
        match r {
            Ok(key) => hashed matches Ok(hash) && hash@.len() == KEY_LEN && key@ == hash@,
            Err(e) => {
                &&& e == CryptographyError::KeyGenerationFailure
                &&& hashed matches Ok(hash) ==> hash@.len() != KEY_LEN
            },
        },
{
    match hashed {
        Err(_) => Err(CryptographyError::KeyGenerationFailure),
        Ok(hash) => {
            if hash.len() == KEY_LEN {
                let key: [u8; 32] = array_at(hash.as_slice(), 0);
                assert(hash@.subrange(0, 32) =~= hash@);
                Ok(key)
            } else {
                Err(CryptographyError::KeyGenerationFailure)
            }
        },
    }
}

/// Derives the 256-bit key that belongs to a password and a salt.
///
/// The same password and salt always give the same key. The derivation
/// fails, with `KeyGenerationFailure`, exactly where the password is longer
/// than `MAX_PASSWORD_LEN` bytes.
pub fn derive_key(password: &[u8], salt: &[u8; 32]) -> (r: Result<[u8; 32], CryptographyError>)
    ensures
        match r {
            Ok(key) => derived_key(password@, salt@) == Ok::<Seq<u8>, CryptographyError>(key@),
            Err(e) => derived_key(password@, salt@) == Err::<Seq<u8>, CryptographyError>(e),
        },
{
    key_from_hash(argon2_hash_raw(password, salt, KEY_LEN as u32))
}

/// Turns what the cipher returned on encryption into a container.
///
/// A ciphertext is packed with `nonce` and `salt`; that fails, with
/// `EncodingFailure`, only where the container would be longer than a
/// `usize` can say. An error of the cipher is an `IncorrectPassword`.
pub fn container_from_ciphertext(
    encrypted: Result<Vec<u8>, aes_gcm_siv::aead::Error>,
    nonce: &[u8; 12],
    salt: &[u8; 32],
) -> (r: Result<Vec<u8>, CryptographyError>)
    ensures
        outcome(r) == match encrypted {
            Err(_) => Err(CryptographyError::IncorrectPassword),
            Ok(ciphertext) => if ciphertext@.len() + FRAME_LEN > usize::MAX {
                Err(CryptographyError::EncodingFailure)
            } else {
                Ok(Record { data: ciphertext@, nonce: nonce@, salt: salt@ }.bytes())
            },
        },
{
    match encrypted {
        Err(_) => Err(CryptographyError::IncorrectPassword),
        Ok(ciphertext) => {
            let file = EncryptedFile { data: ciphertext, nonce: *nonce, salt: *salt };
            pack(&file)
        },
    }
}

/// Turns what the cipher returned on decryption into the payload.
///
/// An error of the cipher is an `IncorrectPassword`.
pub fn payload_from_plaintext(decrypted: Result<Vec<u8>, aes_gcm_siv::aead::Error>) -> (r: Result<
    Vec<u8>,
    CryptographyError,
>)
    ensures
        match decrypted {
            Ok(plaintext) => r == Ok::<Vec<u8>, CryptographyError>(plaintext),
            Err(_) => r == Err::<Vec<u8>, CryptographyError>(CryptographyError::IncorrectPassword),
        },
{
    match decrypted {
        Ok(plaintext) => Ok(plaintext),
        Err(_) => Err(CryptographyError::IncorrectPassword),
    }
}

/// Seals `data` under `key` with the given nonce, and packs the ciphertext
/// with the nonce and with `salt`, the salt that `key` was derived with.
///
/// Sealing fails with `EncodingFailure` where the container would be longer
/// than a `usize` can say, else with `IncorrectPassword` where `data` is
/// longer than `MAX_PLAINTEXT_LEN` bytes, and else succeeds. What it
/// returns holds a record that [`open_with_key`] opens under `key` to
/// `data`.
pub fn seal_with_key(data: &[u8], key: &[u8; 32], nonce: &[u8; 12], salt: &[u8; 32]) -> (r: Result<
    Vec<u8>,
    CryptographyError,
>)
    ensures
        outcome(r) == sealed_with_key(data@, key@, nonce@, salt@),
        r matches Ok(container) ==> {
            &&& container@.len() == data@.len() + TAG_LEN + FRAME_LEN
            &&& parse(container@) matches Some(record)
            &&& record.nonce == nonce@
            &&& record.salt == salt@
            &&& opened_with_key(record, key@) == Ok::<Seq<u8>, CryptographyError>(data@)
        },
{
    match sealed_len(data.len()) {
        Err(e) => Err(e),
        Ok(_) => {
            let encrypted = aes_gcm_siv_encrypt(key, nonce, data);
            proof {
                if encrypted is Ok {
                    let record = Record {
                        data: encrypted->Ok_0@,
                        nonce: nonce@,
                        salt: salt@,
                    };
                    lemma_parse_of_bytes(record, Seq::empty());
                }
            }
            container_from_ciphertext(encrypted, nonce, salt)
        },
    }
}

/// Opens a record under `key`.
///
/// Opening fails, with `IncorrectPassword`, exactly where the cipher refuses
/// the record's ciphertext under `key` and the record's nonce.
pub fn open_with_key(file: &EncryptedFile, key: &[u8; 32]) -> (r: Result<Vec<u8>, CryptographyError>)
    ensures
        outcome(r) == opened_with_key(file@, key@),
{
    payload_from_plaintext(aes_gcm_siv_decrypt(key, &file.nonce, file.data.as_slice()))
}

/// Seals `data` under `password` with the given salt and nonce.
///
/// The container is a function of the four arguments. A caller who picks
/// `salt` and `nonce` must pick them afresh, at random, for every call:
/// [`encrypt`] does so.
///
/// Whether sealing succeeds, and with which error it fails, depends on the
/// lengths of `data` and `password` alone: see [`sealing_error`]. What it
/// returns, [`decrypt`] opens under the same password to `data`.
pub fn encrypt_with(data: &[u8], password: &[u8], salt: &[u8; 32], nonce: &[u8; 12]) -> (r: Result<
    Vec<u8>,
    CryptographyError,
>)
    ensures
        outcome(r) == sealed(data@, password@, salt@, nonce@),
        match sealing_error(data@.len(), password@.len()) {
            Some(e) => r == Err::<Vec<u8>, CryptographyError>(e),
            None => r is Ok,
        },
        r matches Ok(container) ==> {
            &&& container@.len() == data@.len() + TAG_LEN + FRAME_LEN
            &&& opened(container@, password@) == Ok::<Seq<u8>, CryptographyError>(data@)
        },
{
    match derive_key(password, salt) {
        Err(e) => Err(e),
        Ok(key) => seal_with_key(data, &key, nonce, salt),
    }
}

/// Encrypts `data` under `password` into a self-contained container.
///
/// A salt of 32 bytes is drawn from the operating system's random source
/// and the key derived with it, then a nonce of 12 bytes is drawn and the
/// payload sealed: the container is the one that [`encrypt_with`] makes
/// with that salt and nonce. Whether encryption succeeds, and with which
/// error it fails, depends on the lengths of `data` and `password` alone:
/// see [`sealing_error`]. What it returns, [`decrypt`] opens under the same
/// password to `data`.
pub fn encrypt(data: &[u8], password: &[u8]) -> (r: Result<Vec<u8>, CryptographyError>)
    ensures
        match sealing_error(data@.len(), password@.len()) {
            Some(e) => r == Err::<Vec<u8>, CryptographyError>(e),
            None => r is Ok,
        },
        exists|salt: Seq<u8>, nonce: Seq<u8>|
            salt.len() == SALT_LEN && nonce.len() == NONCE_LEN && outcome(r) == #[trigger] sealed(
                data@,
                password@,
                salt,
                nonce,
            ),
        r matches Ok(container) ==> {
            &&& container@.len() == data@.len() + TAG_LEN + FRAME_LEN
            &&& opened(container@, password@) == Ok::<Seq<u8>, CryptographyError>(data@)
        },
{
    let salt: [u8; 32] = random_bytes();
    match derive_key(password, &salt) {
        Err(e) => {
            proof {
                let unused = Seq::new(NONCE_LEN as nat, |i: int| 0u8);
                assert(sealed(data@, password@, salt@, unused) == Err::<Seq<u8>, CryptographyError>(
                    e,
                ));
            }
            Err(e)
        },
        Ok(key) => {
            let nonce: [u8; 12] = random_bytes();
            let r = seal_with_key(data, &key, &nonce, &salt);
            assert(outcome(r) == sealed(data@, password@, salt@, nonce@));
            r
        },
    }
}

/// Decrypts a container under `password`.
///
/// The outcome is a function of the two arguments:
/// - `DecodingFailure` where `data` does not begin with a container;
/// - else `KeyGenerationFailure` where the password is longer than
///   `MAX_PASSWORD_LEN` bytes;
/// - else `IncorrectPassword` where the cipher, under the key derived from
///   the password and the stored salt, refuses the stored ciphertext;
/// - else the payload that the cipher reads from it.
pub fn decrypt(data: &[u8], password: &[u8]) -> (r: Result<Vec<u8>, CryptographyError>)
    ensures
        outcome(r) == opened(data@, password@),
{
    match unpack(data) {
        Err(e) => Err(e),
        Ok(file) => match derive_key(password, &file.salt) {
            Err(e) => Err(e),
            Ok(key) => open_with_key(&file, &key),
        },
    }
}

/// Input too short to hold the frame of a container is refused as
/// malformed, whatever the password.
pub proof fn lemma_short_input_refused(bytes: Seq<u8>, password: Seq<u8>)
    requires
        bytes.len() < FRAME_LEN,
    ensures
        opened(bytes, password) == Err::<Seq<u8>, CryptographyError>(
            CryptographyError::DecodingFailure,
        ),
{
    lemma_short_input_rejected(bytes);
}

/// A container cut short is refused as malformed, whatever the password.
pub proof fn lemma_truncated_container_refused(record: Record, kept: int, password: Seq<u8>)
    requires
        record.well_formed(),
        0 <= kept < record.bytes().len(),
    ensures
        opened(record.bytes().subrange(0, kept), password) == Err::<Seq<u8>, CryptographyError>(
            CryptographyError::DecodingFailure,
        ),
{
    lemma_truncation_rejected(record, kept);
}

/// Opening a container under a password that the hash function accepts is
/// for the cipher to decide: the container is refused, with
/// `IncorrectPassword`, exactly where the cipher refuses its ciphertext
/// under the key that belongs to that password and the container's salt, and
/// else the payload is what the cipher reads. In particular another password
/// than the one used for sealing is turned away unless the cipher accepts
/// the ciphertext under the other password's key.
pub proof fn lemma_cipher_decides(record: Record, password: Seq<u8>)
    requires
        record.well_formed(),
        password.len() <= MAX_PASSWORD_LEN,
    ensures
        opened(record.bytes(), password) == opened_with_key(record, key_of(password, record.salt)),
        opened(record.bytes(), password) == Err::<Seq<u8>, CryptographyError>(
            CryptographyError::IncorrectPassword,
        ) <==> aes_gcm_siv_opened(key_of(password, record.salt), record.nonce, record.data)
            is None,
{
    lemma_parse_of_bytes(record, Seq::empty());
}

/// An altered container never reaches the cipher as the record that was
/// sealed. Bytes as long as a container that differ from it anywhere are
/// either refused as malformed, which takes a change in the length field, or
/// read as another record, on which the cipher then decides.
pub proof fn lemma_altered_container(record: Record, altered: Seq<u8>, password: Seq<u8>)
    requires
        record.well_formed(),
        altered.len() == record.bytes().len(),
        altered != record.bytes(),
    ensures
        match parse(altered) {
            None => {
                &&& opened(altered, password) == Err::<Seq<u8>, CryptographyError>(
                    CryptographyError::DecodingFailure,
                )
                &&& altered.subrange(0, PREFIX_LEN as int) != record.bytes().subrange(
                    0,
                    PREFIX_LEN as int,
                )
            },
            Some(other) => other != record,
        },
{
    lemma_alteration_seen(record, altered);
    lemma_parse_of_bytes(record, Seq::empty());
    let prefix = altered.subrange(0, PREFIX_LEN as int);
    if prefix == record.bytes().subrange(0, PREFIX_LEN as int) {
        assert(le_value(altered) == le_value(prefix));
        assert(le_value(record.bytes()) == le_value(prefix));
    }
}

} // verus!
