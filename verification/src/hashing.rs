//! The commitment of a block: SHA-256 over the text of its fields, rendered in
//! lowercase hexadecimal.

use crate::text::{decimal, hex, push_decimal, to_hex};
use sha2::{Digest, Sha256};
use vstd::prelude::*;
use vstd::utf8::encode_utf8;

verus! {

/// Number of characters in a commitment: two per byte of a SHA-256 digest.
pub const HASH_LEN: usize = 64;

/// The SHA-256 digest of `data`.
pub uninterp spec fn sha256(data: Seq<u8>) -> [u8; 32];

/// Calls `sha2::Sha256::digest`. Trusted: the 32 bytes that come back are the
/// SHA-256 digest of `data`, a function of the bytes alone.
#[verifier::external_body]
fn sha256_bytes(data: &[u8]) -> (out: [u8; 32])
    ensures
        out == sha256(data@),
{
    Sha256::digest(data).into()
}

/// The text that is hashed for a block: the decimal index, the decimal
/// timestamp, the payload, the previous commitment and the decimal mining
/// counter, in that order and with nothing between them.
pub open spec fn digest_text(
    index: u64,
    timestamp: u64,
    data: Seq<char>,
    previous_hash: Seq<char>,
    nonce: u64,
) -> Seq<char> {
    decimal(index as nat) + decimal(timestamp as nat) + data + previous_hash + decimal(
        nonce as nat,
    )
}

/// The commitment to the given fields: the hexadecimal SHA-256 digest of the
/// UTF-8 bytes of their `digest_text`.
pub open spec fn digest(
    index: u64,
    timestamp: u64,
    data: Seq<char>,
    previous_hash: Seq<char>,
    nonce: u64,
) -> Seq<char> {
    hex(sha256(encode_utf8(digest_text(index, timestamp, data, previous_hash, nonce)))@)
}

/// Every commitment has `HASH_LEN` characters.
pub proof fn lemma_digest_len(
    index: u64,
    timestamp: u64,
    data: Seq<char>,
    previous_hash: Seq<char>,
    nonce: u64,
)
    ensures
        digest(index, timestamp, data, previous_hash, nonce).len() == HASH_LEN,
{
}

/// Computes the commitment to the given fields.
pub fn digest_string(
    index: u64,
    timestamp: u64,
    data: &str,
    previous_hash: &str,
    nonce: u64,
) -> (out: String)
    ensures
        out@ == digest(index, timestamp, data@, previous_hash@, nonce),
        out@.len() == HASH_LEN,
{
    let mut text = String::new();
    push_decimal(&mut text, index);
    push_decimal(&mut text, timestamp);
    text.append(data);
    text.append(previous_hash);
    push_decimal(&mut text, nonce);
    assert(text@ == digest_text(index, timestamp, data@, previous_hash@, nonce));
    let bytes = sha256_bytes(text.as_str().as_bytes());
    to_hex(bytes.as_slice())
}

} // verus!
