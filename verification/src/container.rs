//! The container: ciphertext, nonce and salt as one record, and the byte
//! layout in which the record travels.
//!
//! A container is laid out as
//!
//! | bytes        | content                                          |
//! |--------------|--------------------------------------------------|
//! | 8            | length `n` of the ciphertext, little-endian      |
//! | `n`          | ciphertext, authentication tag included          |
//! | 12           | nonce                                            |
//! | 32           | salt                                             |
//!
//! Bytes that follow the salt are not part of the container and are ignored
//! by [`unpack`].

use vstd::prelude::*;
use vstd::slice::{slice_subrange, slice_to_vec};
use crate::error::CryptographyError;

verus! {

/// Length of the nonce in bytes.
pub const NONCE_LEN: usize = 12;

/// Length of the salt in bytes.
pub const SALT_LEN: usize = 32;

/// Length of the field that holds the ciphertext's length.
pub const PREFIX_LEN: usize = 8;

/// What a container holds besides its ciphertext: length field, nonce, salt.
pub const FRAME_LEN: usize = 52;

/// The eight bytes that stand for `value`, least significant byte first.
pub open spec fn le_bytes(value: u64) -> Seq<u8> {
    let v0 = value as int;
    let v1 = v0 / 256;
    let v2 = v1 / 256;
    let v3 = v2 / 256;
    let v4 = v3 / 256;
    let v5 = v4 / 256;
    let v6 = v5 / 256;
    let v7 = v6 / 256;
    seq![
        (v0 % 256) as u8,
        (v1 % 256) as u8,
        (v2 % 256) as u8,
        (v3 % 256) as u8,
        (v4 % 256) as u8,
        (v5 % 256) as u8,
        (v6 % 256) as u8,
        (v7 % 256) as u8,
    ]
}

/// The number that the first eight bytes of `bytes` stand for, least
/// significant byte first.
pub open spec fn le_value(bytes: Seq<u8>) -> int
    recommends
        bytes.len() >= 8,
{
    bytes[0] + 256 * (bytes[1] + 256 * (bytes[2] + 256 * (bytes[3] + 256 * (bytes[4] + 256 * (
    bytes[5] + 256 * (bytes[6] + 256 * bytes[7]))))))
}

/// Reading the eight bytes of a number gives the number back.
pub proof fn lemma_le_value_of_bytes(value: u64)
    ensures
        le_bytes(value).len() == 8,
        le_value(le_bytes(value)) == value,
{
}

/// A byte below a multiple of 256 is the remainder, and the multiple's factor
/// is the quotient.
proof fn lemma_low_byte(low: int, high: int)
    requires
        0 <= low < 256,
    ensures
        (low + 256 * high) % 256 == low,
        (low + 256 * high) / 256 == high,
{
}

/// Eight bytes stand for a number that fits in 64 bits, and writing that
/// number gives the eight bytes back.
pub proof fn lemma_le_bytes_of_value(bytes: Seq<u8>)
    requires
        bytes.len() == 8,
    ensures
        0 <= le_value(bytes) <= u64::MAX,
        le_bytes(le_value(bytes) as u64) == bytes,
{
    let v7 = bytes[7] as int;
    let v6 = bytes[6] + 256 * v7;
    let v5 = bytes[5] + 256 * v6;
    let v4 = bytes[4] + 256 * v5;
    let v3 = bytes[3] + 256 * v4;
    let v2 = bytes[2] + 256 * v3;
    let v1 = bytes[1] + 256 * v2;
    let v0 = bytes[0] + 256 * v1;
    lemma_low_byte(bytes[6] as int, v7);
    lemma_low_byte(bytes[5] as int, v6);
    lemma_low_byte(bytes[4] as int, v5);
    lemma_low_byte(bytes[3] as int, v4);
    lemma_low_byte(bytes[2] as int, v3);
    lemma_low_byte(bytes[1] as int, v2);
    lemma_low_byte(bytes[0] as int, v1);
    assert(v0 == le_value(bytes));
    assert(le_bytes(v0 as u64) =~= bytes);
}

/// A container as a mathematical value: the three fields as sequences.
#[verifier::ext_equal]
pub struct Record {
    /// The ciphertext, authentication tag included.
    pub data: Seq<u8>,
    /// The nonce under which the ciphertext was made.
    pub nonce: Seq<u8>,
    /// The salt from which the key was derived.
    pub salt: Seq<u8>,
}

impl Record {
    /// The nonce and the salt have their fixed lengths, and the length of the
    /// ciphertext can be written in eight bytes.
    pub open spec fn well_formed(self) -> bool {
        &&& self.data.len() <= u64::MAX
        &&& self.nonce.len() == NONCE_LEN
        &&& self.salt.len() == SALT_LEN
    }

    /// The byte layout of the record: the length of the ciphertext, the
    /// ciphertext, the nonce, the salt.
    pub open spec fn bytes(self) -> Seq<u8> {
        le_bytes(self.data.len() as u64) + self.data + self.nonce + self.salt
    }
}

/// The record that `bytes` begin with, if they begin with one.
///
/// They do when they hold a length field, and after it at least as many
/// bytes as the field announces, a nonce and a salt.
pub open spec fn parse(bytes: Seq<u8>) -> Option<Record> {
    if bytes.len() < PREFIX_LEN {
        None
    } else {
        let n = le_value(bytes);
        if n + FRAME_LEN > bytes.len() {
            None
        } else {
            Some(
                Record {
                    data: bytes.subrange(PREFIX_LEN as int, PREFIX_LEN + n),
                    nonce: bytes.subrange(PREFIX_LEN + n, PREFIX_LEN + n + NONCE_LEN),
                    salt: bytes.subrange(PREFIX_LEN + n + NONCE_LEN, n + FRAME_LEN),
                },
            )
        }
    }
}

/// An encrypted payload together with what is needed, besides the password,
/// to decrypt it.
#[derive(Debug)]
pub struct EncryptedFile {
    /// The ciphertext, authentication tag included.
    pub data: Vec<u8>,
    /// The nonce under which the ciphertext was made.
    pub nonce: [u8; 12],
    /// The salt from which the key was derived.
    pub salt: [u8; 32],
}

impl View for EncryptedFile {
    type V = Record;

    open spec fn view(&self) -> Record {
        Record { data: self.data@, nonce: self.nonce@, salt: self.salt@ }
    }
}

impl EncryptedFile {
    /// What an `EncryptedFile` holds is a well-formed record.
    pub proof fn lemma_well_formed(&self)
        ensures
            self@.well_formed(),
    {
        assert(self.data@.len() == self.data.len());
        assert(self.nonce@.len() == NONCE_LEN);
        assert(self.salt@.len() == SALT_LEN);
    }
}

/// The length of the container that holds a ciphertext of `data_len` bytes,
/// or `EncodingFailure` where that length is beyond what a `usize` can hold.
pub fn container_len(data_len: usize) -> (r: Result<usize, CryptographyError>)
    ensures
        match r {
            Ok(total) => total == data_len + FRAME_LEN,
            Err(e) => e == CryptographyError::EncodingFailure && data_len + FRAME_LEN > usize::MAX,
        },
{
    if data_len > usize::MAX - FRAME_LEN {
        Err(CryptographyError::EncodingFailure)
    } else {
        Ok(data_len + FRAME_LEN)
    }
}

/// Appends the eight bytes of `value` to `out`, least significant first.
fn push_length(out: &mut Vec<u8>, value: u64)
    ensures
        final(out)@ == old(out)@ + le_bytes(value),
{
    let v1: u64 = value / 256;
    let v2: u64 = v1 / 256;
    let v3: u64 = v2 / 256;
    let v4: u64 = v3 / 256;
    let v5: u64 = v4 / 256;
    let v6: u64 = v5 / 256;
    let v7: u64 = v6 / 256;
    out.push((value % 256) as u8);
    out.push((v1 % 256) as u8);
    out.push((v2 % 256) as u8);
    out.push((v3 % 256) as u8);
    out.push((v4 % 256) as u8);
    out.push((v5 % 256) as u8);
    out.push((v6 % 256) as u8);
    out.push((v7 % 256) as u8);
    assert(out@ =~= old(out)@ + le_bytes(value));
}

/// Appends `bytes` to `out`.
fn push_all(out: &mut Vec<u8>, bytes: &[u8])
    ensures
        final(out)@ == old(out)@ + bytes@,
{
    let mut i: usize = 0;
    while i < bytes.len()
        invariant
            i <= bytes.len(),
            out@ == old(out)@ + bytes@.subrange(0, i as int),
        decreases bytes.len() - i,
    {
        out.push(bytes[i]);
        assert(out@ =~= old(out)@ + bytes@.subrange(0, i + 1));
        i = i + 1;
    }
    assert(bytes@.subrange(0, bytes@.len() as int) =~= bytes@);
}

/// Lays a record out as the bytes of a container.
///
/// This fails, with `EncodingFailure`, only where the container would be
/// longer than a `usize` can say.
pub fn pack(file: &EncryptedFile) -> (r: Result<Vec<u8>, CryptographyError>)
    ensures
        match r {
            Ok(bytes) => {
                &&& file@.data.len() + FRAME_LEN <= usize::MAX
                &&& bytes@ == file@.bytes()
                &&& bytes@.len() == file@.data.len() + FRAME_LEN
            },
            Err(e) => {
                &&& file@.data.len() + FRAME_LEN > usize::MAX
                &&& e == CryptographyError::EncodingFailure
            },
        },
{
    match container_len(file.data.len()) {
        Err(e) => Err(e),
        Ok(total) => {
            let mut out: Vec<u8> = Vec::with_capacity(total);
            push_length(&mut out, file.data.len() as u64);
            push_all(&mut out, file.data.as_slice());
            push_all(&mut out, file.nonce.as_slice());
            push_all(&mut out, file.salt.as_slice());
            Ok(out)
        },
    }
}

/// The number that the first eight bytes of `bytes` stand for.
fn read_length(bytes: &[u8]) -> (value: u64)
    requires
        bytes@.len() >= PREFIX_LEN,
    ensures
        value == le_value(bytes@),
{
    let v7: u64 = bytes[7] as u64;
    let v6: u64 = bytes[6] as u64 + 256 * v7;
    let v5: u64 = bytes[5] as u64 + 256 * v6;
    let v4: u64 = bytes[4] as u64 + 256 * v5;
    let v3: u64 = bytes[3] as u64 + 256 * v4;
    let v2: u64 = bytes[2] as u64 + 256 * v3;
    let v1: u64 = bytes[1] as u64 + 256 * v2;
    bytes[0] as u64 + 256 * v1
}

/// The `N` bytes of `bytes` that begin at `start`.
pub(crate) fn array_at<const N: usize>(bytes: &[u8], start: usize) -> (out: [u8; N])
    requires
        start + N <= bytes@.len(),
    ensures
        out@ == bytes@.subrange(start as int, start + N),
{
    let mut out: [u8; N] = [0u8; N];
    let mut i: usize = 0;
    while i < N
        invariant
            i <= N,
            start + N <= bytes.len(),
            forall|j: int| 0 <= j < i ==> out@[j] == bytes@[start + j],
        decreases N - i,
    {
        out[i] = bytes[start + i];
        i = i + 1;
    }
    assert(out@ =~= bytes@.subrange(start as int, start + N));
    out
}

/// Reads the record that `bytes` begin with.
///
/// This fails, with `DecodingFailure`, exactly where `bytes` do not begin
/// with a container: where they are too short to hold a length field, or
/// too short to hold what the length field announces, a nonce and a salt.
pub fn unpack(bytes: &[u8]) -> (r: Result<EncryptedFile, CryptographyError>)
    ensures
        match r {
            Ok(file) => parse(bytes@) == Some(file@),
            Err(e) => e == CryptographyError::DecodingFailure && parse(bytes@) is None,
        },
{
    if bytes.len() < FRAME_LEN {
        return Err(CryptographyError::DecodingFailure);
    }
    let announced: u64 = read_length(bytes);
    if announced > (bytes.len() - FRAME_LEN) as u64 {
        return Err(CryptographyError::DecodingFailure);
    }
    let n: usize = announced as usize;
    let data = slice_to_vec(slice_subrange(bytes, PREFIX_LEN, PREFIX_LEN + n));
    let nonce: [u8; 12] = array_at(bytes, PREFIX_LEN + n);
    let salt: [u8; 32] = array_at(bytes, PREFIX_LEN + n + NONCE_LEN);
    Ok(EncryptedFile { data, nonce, salt })
}

/// Reading inverts writing: the layout of a record begins with that record
/// and nothing else, whatever bytes follow it.
pub proof fn lemma_parse_of_bytes(record: Record, trailing: Seq<u8>)
    requires
        record.well_formed(),
    ensures
        record.bytes().len() == record.data.len() + FRAME_LEN,
        parse(record.bytes()) == Some(record),
        parse(record.bytes() + trailing) == Some(record),
{
    let n = record.data.len() as u64;
    let whole = record.bytes() + trailing;
    lemma_le_value_of_bytes(n);
    assert(le_value(record.bytes()) == le_value(le_bytes(n)));
    assert(le_value(whole) == le_value(le_bytes(n)));
    assert(parse(record.bytes())->Some_0 =~= record);
    assert(parse(whole)->Some_0 =~= record);
}

/// Writing inverts reading: bytes that begin with a record begin with that
/// record's layout, and the record is well formed.
pub proof fn lemma_bytes_of_parse(bytes: Seq<u8>)
    requires
        parse(bytes) is Some,
    ensures
        parse(bytes)->Some_0.well_formed(),
        parse(bytes)->Some_0.bytes().len() <= bytes.len(),
        bytes.subrange(0, parse(bytes)->Some_0.bytes().len() as int) == parse(bytes)->Some_0.bytes(),
{
    let record = parse(bytes)->Some_0;
    let prefix = bytes.subrange(0, PREFIX_LEN as int);
    lemma_le_bytes_of_value(prefix);
    assert(le_value(prefix) == le_value(bytes));
    assert(bytes.subrange(0, le_value(bytes) + FRAME_LEN) =~= record.bytes());
}

/// Input shorter than the frame of a container holds no record.
pub proof fn lemma_short_input_rejected(bytes: Seq<u8>)
    requires
        bytes.len() < FRAME_LEN,
    ensures
        parse(bytes) is None,
{
}

/// A container cut short holds no record: no proper prefix of a record's
/// layout begins with a record.
pub proof fn lemma_truncation_rejected(record: Record, kept: int)
    requires
        record.well_formed(),
        0 <= kept < record.bytes().len(),
    ensures
        parse(record.bytes().subrange(0, kept)) is None,
{
    if kept >= PREFIX_LEN {
        let n = record.data.len() as u64;
        lemma_le_value_of_bytes(n);
        assert(le_value(record.bytes().subrange(0, kept)) == le_value(le_bytes(n)));
    }
}

/// An altered container is never read as the record it held: bytes of the
/// same length as a record's layout that differ from it anywhere either
/// hold no record or begin with a different one.
pub proof fn lemma_alteration_seen(record: Record, altered: Seq<u8>)
    requires
        record.well_formed(),
        altered.len() == record.bytes().len(),
        altered != record.bytes(),
    ensures
        parse(altered) != Some(record),
{
    if parse(altered) == Some(record) {
        lemma_bytes_of_parse(altered);
        assert(altered.subrange(0, altered.len() as int) =~= altered);
    }
}

} // verus!
