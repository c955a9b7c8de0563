//! SHA-256 fingerprints of files and folders.

use sha2::{Digest, Sha256};
use vstd::prelude::*;

verus! {

/// The streaming hasher of the `sha2` crate.
#[verifier::external_type_specification]
#[verifier::external_body]
pub struct ExSha256(Sha256);

/// The bytes that a hasher holds: all it was fed, in order.
pub uninterp spec fn absorbed(h: Sha256) -> Seq<u8>;

/// The SHA-256 digest of a byte sequence.
pub uninterp spec fn sha256(data: Seq<u8>) -> Seq<u8>;

/// `sha2::Sha256::new` gives a hasher that has been fed nothing.
#[verifier::external_body]
fn hasher_new() -> (h: Sha256)
    ensures
        absorbed(h) == Seq::<u8>::empty(),
{
    Sha256::new()
}

/// `Digest::update` feeds the hasher the given bytes behind all others.
#[verifier::external_body]
fn hasher_update(h: &mut Sha256, data: &[u8])
    ensures
        absorbed(*final(h)) == absorbed(*old(h)) + data@,
{
    h.update(data);
}

/// `Digest::finalize` gives the digest of all that the hasher was fed, which
/// is 32 bytes long.
#[verifier::external_body]
fn hasher_finalize(h: Sha256) -> (d: Vec<u8>)
    ensures
        d@ == sha256(absorbed(h)),
        d@.len() == 32,
{
    h.finalize().to_vec()
}

/// The hexadecimal digit, in lower case, of a value below 16.
pub open spec fn hex_digit(d: int) -> char {
    if d < 10 {
        (48 + d) as char
    } else {
        (87 + d) as char
    }
}

/// Two hexadecimal digits for each byte, in lower case.
pub open spec fn hex_text(data: Seq<u8>) -> Seq<char> {
    Seq::new(
        2 * data.len(),
        |i: int|
            if i % 2 == 0 {
                hex_digit(data[i / 2] as int / 16)
            } else {
                hex_digit(data[i / 2] as int % 16)
            },
    )
}

/// `hex::encode` writes each byte as two hexadecimal digits in lower case,
/// the high half first.
#[verifier::external_body]
fn hex_encode(data: &[u8]) -> (s: String)
    ensures
        s@ == hex_text(data@),
{
    hex::encode(data)
}

/// A SHA-256 checksum over bytes that come in pieces.
pub struct Checksum {
    hasher: Sha256,
}

impl View for Checksum {
    type V = Seq<u8>;

    /// The bytes taken in so far.
    closed spec fn view(&self) -> Seq<u8> {
        absorbed(self.hasher)
    }
}

impl Checksum {
    /// A checksum over nothing yet.
    pub fn new() -> (c: Checksum)
        ensures
            c@ == Seq::<u8>::empty(),
    {
        Checksum { hasher: hasher_new() }
    }

    /// Takes in more bytes.
    pub fn update(&mut self, data: &[u8])
        ensures
            final(self)@ == old(self)@ + data@,
    {
        hasher_update(&mut self.hasher, data);
    }

    /// The checksum of all bytes taken in, in hexadecimal.
    pub fn finish(self) -> (s: String)
        ensures
            s@ == checksum_text(self@),
            s@.len() == 64,
    {
        let digest = hasher_finalize(self.hasher);
        hex_encode(digest.as_slice())
    }
}

/// The checksum of a file: its SHA-256 digest in hexadecimal.
pub open spec fn checksum_text(data: Seq<u8>) -> Seq<char> {
    hex_text(sha256(data))
}

/// The value of a hexadecimal digit in lower case.
pub open spec fn hex_value(c: char) -> int {
    if '0' <= c && c <= '9' {
        c as int - 48
    } else {
        c as int - 87
    }
}

/// Nothing of a digest is lost in its hexadecimal notation: each byte is written
/// as two digits in lower case, and is sixteen times the first and the second.
pub proof fn law_hex_gives_the_bytes_back(data: Seq<u8>, i: int)
    requires
        0 <= i < data.len(),
    ensures
        hex_text(data).len() == 2 * data.len(),
        ({
            let high = hex_text(data)[2 * i];
            let low = hex_text(data)[2 * i + 1];
            &&& ('0' <= high && high <= '9') || ('a' <= high && high <= 'f')
            &&& ('0' <= low && low <= '9') || ('a' <= low && low <= 'f')
            &&& 16 * hex_value(high) + hex_value(low) == data[i]
        }),
{
    assert((2 * i) / 2 == i && (2 * i + 1) / 2 == i);
    assert((2 * i) % 2 == 0 && (2 * i + 1) % 2 == 1);
}

}
