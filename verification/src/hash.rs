//! Content identity: the dual-hash fingerprint of a file's exact bytes.
//!
//! The primary hash (SHA-1) is the fast identity used for matching and
//! caching; the secondary hash (SHA-512) is the collision-resistant identity
//! kept for cross-checking. Both are stored as lowercase hexadecimal strings.

use sha1::Digest;
use vstd::prelude::*;

verus! {

/// The SHA-1 digest of a byte sequence: 20 bytes, a function of the input
/// bytes alone.
pub uninterp spec fn sha1_of(bytes: Seq<u8>) -> Seq<u8>;

/// The SHA-512 digest of a byte sequence: 64 bytes, a function of the input
/// bytes alone.
pub uninterp spec fn sha512_of(bytes: Seq<u8>) -> Seq<u8>;

/// The lowercase hexadecimal digit for a value below sixteen.
pub open spec fn hex_char(n: u8) -> char {
    if n == 0 {
        '0'
    } else if n == 1 {
        '1'
    } else if n == 2 {
        '2'
    } else if n == 3 {
        '3'
    } else if n == 4 {
        '4'
    } else if n == 5 {
        '5'
    } else if n == 6 {
        '6'
    } else if n == 7 {
        '7'
    } else if n == 8 {
        '8'
    } else if n == 9 {
        '9'
    } else if n == 10 {
        'a'
    } else if n == 11 {
        'b'
    } else if n == 12 {
        'c'
    } else if n == 13 {
        'd'
    } else if n == 14 {
        'e'
    } else {
        'f'
    }
}

/// Lowercase hexadecimal encoding: two digits per byte, high nibble first.
pub open spec fn hex_of(bytes: Seq<u8>) -> Seq<char> {
    Seq::new(
        bytes.len() * 2,
        |i: int|
            if i % 2 == 0 {
                hex_char(bytes[i / 2] / 16)
            } else {
                hex_char(bytes[i / 2] % 16)
            },
    )
}

/// The primary fingerprint of a byte sequence, as stored in an entry:
/// the SHA-1 digest in lowercase hexadecimal.
pub open spec fn sha1_hex(bytes: Seq<u8>) -> Seq<char> {
    hex_of(sha1_of(bytes))
}

/// The secondary fingerprint of a byte sequence, as stored in an entry:
/// the SHA-512 digest in lowercase hexadecimal.
pub open spec fn sha512_hex(bytes: Seq<u8>) -> Seq<char> {
    hex_of(sha512_of(bytes))
}

/// Relies on sha1::Sha1::digest: returns the 20-byte SHA-1 digest of the
/// input, a pure function of the bytes alone.
#[verifier::external_body]
fn sha1_digest(bytes: &[u8]) -> (r: Vec<u8>)
    ensures
        r@ == sha1_of(bytes@),
        r@.len() == 20,
{
    sha1::Sha1::digest(bytes).to_vec()
}

/// Relies on sha2::Sha512::digest: returns the 64-byte SHA-512 digest of the
/// input, a pure function of the bytes alone.
#[verifier::external_body]
fn sha512_digest(bytes: &[u8]) -> (r: Vec<u8>)
    ensures
        r@ == sha512_of(bytes@),
        r@.len() == 64,
{
    sha2::Sha512::digest(bytes).to_vec()
}

/// Relies on hex::encode: lowercase hexadecimal, two digits per byte, high
/// nibble first.
#[verifier::external_body]
fn hex_string(bytes: &[u8]) -> (r: String)
    ensures
        r@ == hex_of(bytes@),
{
    hex::encode(bytes)
}

/// The dual-hash fingerprint of one file's bytes.
pub struct Hashes {
    /// Primary hash: SHA-1 of the file bytes, lowercase hexadecimal.
    pub sha1: String,
    /// Secondary hash: SHA-512 of the file bytes, lowercase hexadecimal.
    pub sha512: String,
}

impl Hashes {
    /// Both hashes are the fingerprint of the same byte sequence: forty hex
    /// digits for the 20-byte SHA-1, a hundred and twenty-eight for the
    /// 64-byte SHA-512.
    pub open spec fn is_fingerprint_of(self, bytes: Seq<u8>) -> bool {
        &&& self.sha1@ == sha1_hex(bytes)
        &&& self.sha1@.len() == 40
        &&& self.sha512@ == sha512_hex(bytes)
        &&& self.sha512@.len() == 128
    }

    /// Fingerprints the given bytes.
    pub fn get_hashes_from_bytes(bytes: &Vec<u8>) -> (r: Hashes)
        ensures
            r.is_fingerprint_of(bytes@),
    {
        get_hashes_from_vec(bytes)
    }

    /// A stand-in fingerprint: the fingerprint of the one-byte sequence `[0]`.
    pub fn dummy() -> (r: Hashes)
        ensures
            r.is_fingerprint_of(seq![0u8]),
    {
        let bytes: Vec<u8> = vec![0u8];
        assert(bytes@ =~= seq![0u8]);
        get_hashes_from_vec(&bytes)
    }
}

impl Clone for Hashes {
    fn clone(&self) -> (r: Self)
        ensures
            r == *self,
    {
        Hashes { sha1: self.sha1.clone(), sha512: self.sha512.clone() }
    }
}

/// Fingerprints the given bytes: SHA-1 and SHA-512, each hex-encoded.
pub fn get_hashes_from_vec(bytes: &Vec<u8>) -> (r: Hashes)
    ensures
        r.is_fingerprint_of(bytes@),
{
    let sha1 = hex_string(sha1_digest(bytes.as_slice()).as_slice());
    let sha512 = hex_string(sha512_digest(bytes.as_slice()).as_slice());
    Hashes { sha1, sha512 }
}

} // verus!
