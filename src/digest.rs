use sha2::{Digest, Sha256};
use vstd::prelude::*;

verus! {

/// The SHA-256 digest of the UTF-8 encoding of a string.
pub uninterp spec fn sha256_of(s: Seq<char>) -> Seq<u8>;

/// The lowercase hexadecimal digit for a value below sixteen.
pub open spec fn hex_digit(n: int) -> char {
    seq!['0', '1', '2', '3', '4', '5', '6', '7', '8', '9', 'a', 'b', 'c', 'd', 'e', 'f'][n]
}

/// Two lowercase hexadecimal digits per byte, high nibble first.
pub open spec fn hex_of(b: Seq<u8>) -> Seq<char>
    decreases b.len(),
{
    if b.len() == 0 {
        Seq::empty()
    } else {
        hex_of(b.drop_last()) + seq![hex_digit(b.last() as int / 16), hex_digit(b.last() as int % 16)]
    }
}

/// The stored form of a password: the hex-encoded SHA-256 digest.
pub open spec fn password_digest(password: Seq<char>) -> Seq<char> {
    hex_of(sha256_of(password))
}

pub proof fn lemma_hex_len(b: Seq<u8>)
    ensures
        hex_of(b).len() == 2 * b.len(),
    decreases b.len(),
{
    if b.len() > 0 {
        lemma_hex_len(b.drop_last());
    }
}

/// Relies on sha2::Sha256 (through digest's `Digest::digest`): the 32-byte
/// SHA-256 digest of the UTF-8 bytes of `s`.
#[verifier::external_body]
fn sha256_digest(s: &str) -> (r: Vec<u8>)
    ensures
        r@ == sha256_of(s@),
        r@.len() == 32,
{
    Sha256::digest(s.as_bytes()).to_vec()
}

/// Relies on hex::encode: each byte becomes two lowercase hex digits, in order.
#[verifier::external_body]
fn hex_encode(b: &[u8]) -> (r: String)
    ensures
        r@ == hex_of(b@),
{
    hex::encode(b)
}

/// Hashes a plaintext password into the 64-character hex digest that the
/// store keeps in its place.
pub fn hash_password(password: &str) -> (r: String)
    ensures
        r@ == password_digest(password@),
        r@.len() == 64,
{
    let bytes = sha256_digest(password);
    let r = hex_encode(bytes.as_slice());
    proof {
        lemma_hex_len(bytes@);
    }
    r
}

} // verus!
