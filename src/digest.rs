//! Digests and encodings computed by outside crates, and what this library
//! relies on about them.
use vstd::prelude::*;

verus! {

/// The SHA-256 digest of a byte sequence.
pub uninterp spec fn sha256_of(data: Seq<u8>) -> Seq<u8>;

/// Relies on sha2's `Sha256::digest`: the 32-byte SHA-256 digest of `data`,
/// a function of the bytes alone.
#[verifier::external_body]
pub fn calculate_chunk_hash(data: &[u8]) -> (r: [u8; 32])
    ensures
        r@ == sha256_of(data@),
{
    <sha2::Sha256 as sha2::Digest>::digest(data).into()
}

/// The BLAKE3 digest of a byte sequence.
pub uninterp spec fn blake3_of(data: Seq<u8>) -> Seq<u8>;

/// Relies on `blake3::hash`: the 32-byte BLAKE3 digest of `data`, a function
/// of the bytes alone.
#[verifier::external_body]
pub(crate) fn blake3_hash(data: &[u8]) -> (r: [u8; 32])
    ensures
        r@ == blake3_of(data@),
{
    *blake3::hash(data).as_bytes()
}

/// The lower-case hexadecimal digit for `n < 16`.
pub open spec fn hex_digit(n: int) -> char {
    seq!['0', '1', '2', '3', '4', '5', '6', '7', '8', '9', 'a', 'b', 'c', 'd', 'e', 'f'][n]
}

/// Two lower-case hexadecimal digits per byte, high nibble first.
pub open spec fn hex_of(b: Seq<u8>) -> Seq<char>
    decreases b.len(),
{
    if b.len() == 0 {
        Seq::empty()
    } else {
        hex_of(b.drop_last()) + seq![hex_digit(b.last() as int / 16), hex_digit(b.last() as int % 16)]
    }
}

/// Relies on `hex::encode`: two lower-case hexadecimal digits per byte,
/// high nibble first.
#[verifier::external_body]
pub(crate) fn to_hex_string(b: &[u8]) -> (r: String)
    ensures
        r@ == hex_of(b@),
{
    hex::encode(b)
}

/// The decimal digits of `n`, most significant first, without leading zeros.
pub open spec fn decimal_of(n: nat) -> Seq<char>
    decreases n,
{
    if n < 10 {
        seq![hex_digit(n as int)]
    } else {
        decimal_of(n / 10).push(hex_digit((n % 10) as int))
    }
}

/// Relies on `u32`'s `to_string`: its decimal digits.
#[verifier::external_body]
pub(crate) fn decimal_string(n: u32) -> (r: String)
    ensures
        r@ == decimal_of(n as nat),
{
    n.to_string()
}

} // verus!
