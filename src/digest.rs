use vstd::prelude::*;
use crate::text::hex_padded;

verus! {

/// The SHA-256 digest of a byte string.
pub uninterp spec fn sha256_of(b: Seq<u8>) -> Seq<u8>;

/// Each byte as two lower-case hexadecimal digits, high digit first.
pub open spec fn hex_text(b: Seq<u8>) -> Seq<char>
    decreases b.len(),
{
    if b.len() == 0 {
        Seq::empty()
    } else {
        hex_text(b.drop_last()) + hex_padded(b.last() as nat, 2)
    }
}

/// Relies on `sha2::Sha256::digest` (the `Digest` trait of the `digest`
/// crate): the digest depends on the bytes alone and is 32 bytes long.
#[verifier::external_body]
fn sha256_digest(b: &[u8]) -> (r: Vec<u8>)
    ensures
        r@ == sha256_of(b@),
        r@.len() == 32,
{
    <sha2::Sha256 as sha2::Digest>::digest(b).to_vec()
}

/// Relies on `hex::encode`: two lower-case digits per byte, in order.
#[verifier::external_body]
fn hex_encode(b: &[u8]) -> (r: String)
    ensures
        r@ == hex_text(b@),
{
    hex::encode(b)
}

/// Two hexadecimal digits per byte.
pub proof fn lemma_hex_text_len(b: Seq<u8>)
    ensures
        hex_text(b).len() == 2 * b.len(),
    decreases b.len(),
{
    if b.len() > 0 {
        lemma_hex_text_len(b.drop_last());
        reveal_with_fuel(hex_padded, 3);
    }
}

/// The SHA-256 digest of `content` as 64 lower-case hexadecimal digits.
pub fn sha256_hex(content: &[u8]) -> (r: String)
    ensures
        r@ == hex_text(sha256_of(content@)),
        r@.len() == 64,
{
    let d = sha256_digest(content);
    proof {
        lemma_hex_text_len(d@);
    }
    hex_encode(d.as_slice())
}

/// Hashing the same content twice gives the same digest text.
pub proof fn lemma_hash_stable(a: Seq<u8>, b: Seq<u8>)
    requires
        a == b,
    ensures
        hex_text(sha256_of(a)) == hex_text(sha256_of(b)),
{
}

} // verus!
