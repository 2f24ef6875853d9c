//! Placement coordinates of keys on the hash ring.
use std::io::Cursor;
use vstd::prelude::*;
use vstd::string::*;
use vstd::utf8::encode_utf8;

verus! {

/// What `murmur3::murmur3_32` returns for the bytes `data` and the seed `seed`.
pub uninterp spec fn murmur3_32_hash(data: Seq<u8>, seed: u32) -> u32;

/// Hashes `data` with the 32-bit MurmurHash3 of the `murmur3` crate
/// (`murmur3::murmur3_32`), reading it from an in-memory cursor.
///
/// Trusted: the result is `murmur3_32_hash(data, seed)`, the value the crate
/// computes for these bytes and this seed. Reading from an in-memory cursor
/// cannot fail, so the error branch is never taken. The crate counts the bytes
/// it has read in a `u32`, which overflows (a panic in debug builds) beyond
/// `u32::MAX` bytes; such inputs are excluded.
#[verifier::external_body]
fn murmur3_32_bytes(data: &[u8], seed: u32) -> (h: u32)
    requires
        data@.len() <= u32::MAX,
    ensures
        h == murmur3_32_hash(data@, seed),
{
    murmur3::murmur3_32(&mut Cursor::new(data), seed).unwrap_or(0)
}

/// The ring coordinate of the text `s`: the MurmurHash3 (seed 0) of its UTF-8
/// bytes, as a non-negative integer.
pub open spec fn coordinate(s: Seq<char>) -> int {
    murmur3_32_hash(encode_utf8(s), 0) as int
}

/// The coordinate of a text is the hash of all of its UTF-8 bytes, seed 0.
pub proof fn lemma_coordinate_hashes_all_bytes(s: Seq<char>)
    ensures
        coordinate(s) == murmur3_32_hash(encode_utf8(s), 0) as int,
{
}

/// Widens a 32-bit hash to the signed 64-bit coordinate stored on the ring.
pub fn coordinate_from_hash(hash: u32) -> (c: i64)
    ensures
        c == hash as int,
        0 <= c <= u32::MAX,
{
    hash as i64
}

/// The coordinate of `input` on the hash ring.
pub fn hash_to_coordinate(input: &str) -> (c: i64)
    requires
        encode_utf8(input@).len() <= u32::MAX,
    ensures
        c == coordinate(input@),
        c == murmur3_32_hash(encode_utf8(input@), 0) as int,
        0 <= c <= u32::MAX,
{
    let bytes = input.as_bytes();
    let hash = murmur3_32_bytes(bytes, 0);
    coordinate_from_hash(hash)
}

} // verus!
