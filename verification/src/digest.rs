//! Digests of bytes and texts.

use crate::text::number;
use sha2::Digest;
use std::collections::hash_map::DefaultHasher;
use std::hash::{BuildHasher, BuildHasherDefault};
use vstd::prelude::*;
use vstd::utf8::encode_utf8;

verus! {

/// The SHA-256 digest of `bytes`, as the function `Sha256::digest` of the crate `sha2` computes it.
pub uninterp spec fn sha256(bytes: Seq<u8>) -> Seq<u8>;

/// Calls `Sha256::digest` of the crate `sha2`, which computes the digest of bytes. The digest is a
/// function of the bytes alone, and has 32 bytes.
#[verifier::external_body]
pub(crate) fn sha256_of(bytes: &[u8]) -> (r: Vec<u8>)
    ensures
        r@ == sha256(bytes@),
        r@.len() == 32,
{
    sha2::Sha256::digest(bytes).to_vec()
}

/// Bytes in hexadecimal, with two lower-case digits for each byte, the higher one first.
pub open spec fn hex_text(bytes: Seq<u8>) -> Seq<char>
    decreases bytes.len(),
{
    if bytes.len() == 0 {
        seq![]
    } else {
        hex_text(bytes.drop_last()) + seq![
            number::hex_char((bytes.last() / 16) as nat),
            number::hex_char((bytes.last() % 16) as nat),
        ]
    }
}

/// Calls `encode` of the crate `hex`, which writes bytes in hexadecimal, with two lower-case
/// digits for each byte.
#[verifier::external_body]
pub(crate) fn hex_of(bytes: &[u8]) -> (r: String)
    ensures
        r@ == hex_text(bytes@),
{
    hex::encode(bytes)
}

/// The hash of a text, as a `DefaultHasher` of std that was not given any keys computes it.
pub uninterp spec fn default_hash(text: Seq<char>) -> u64;

/// Calls `hash_one` on a builder of hashers that makes each of them with `DefaultHasher::default`.
/// All hashers made in this way are the same, so the hash is a function of the text alone.
#[verifier::external_body]
pub(crate) fn default_hash_of(text: &str) -> (r: u64)
    ensures
        r == default_hash(text@),
{
    BuildHasherDefault::<DefaultHasher>::default().hash_one(text)
}

/// The length of bytes in hexadecimal.
pub proof fn lemma_hex_len(bytes: Seq<u8>)
    ensures
        hex_text(bytes).len() == 2 * bytes.len(),
    decreases bytes.len(),
{
    if bytes.len() > 0 {
        lemma_hex_len(bytes.drop_last());
    }
}

/// The digest of bytes, in hexadecimal.
pub fn sha256_hex(bytes: &[u8]) -> (r: String)
    ensures
        r@ == hex_text(sha256(bytes@)),
        r@.len() == 64,
{
    let digest = sha256_of(bytes);
    proof {
        lemma_hex_len(digest@);
    }
    hex_of(digest.as_slice())
}

/// The digest of a text, in hexadecimal.
pub fn text_sha256_hex(text: &str) -> (r: String)
    ensures
        r@ == hex_text(sha256(encode_utf8(text@))),
        r@.len() == 64,
{
    sha256_hex(text.as_bytes())
}

/// A hash as the name of a directory: sixteen hexadecimal digits.
pub fn hash_name(hash: u64) -> (r: String)
    ensures
        r@ == number::hex_digits(hash as nat, 16),
{
    number::hex_text(hash, 16)
}

/// The name of the directory that holds what belongs to a text.
pub fn hash_key(value: &str) -> (r: String)
    ensures
        r@ == number::hex_digits(default_hash(value@) as nat, 16),
{
    hash_name(default_hash_of(value))
}

} // verus!
