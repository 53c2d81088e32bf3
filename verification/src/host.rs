//! The host adapter: the values a dispatch receives from the surrounding
//! ledger host (domain-separated entropy and the current block number), and
//! the deterministic derivation of token gender and DNA from them.

use crate::kitties::Gender;
use parity_scale_codec::Encode;
use vstd::prelude::*;

verus! {

/// What the host hands one dispatch: the entropy returned for the `"gender"`
/// and `"dna"` domain separators, and the current block number.  The host's
/// entropy type is an opaque 32-byte hash; it is carried here as plain bytes.
pub struct HostCtx {
    pub entropy_gender: [u8; 32],
    pub entropy_dna: [u8; 32],
    pub block_number: u64,
}

/// The little-endian byte encoding of a 64-bit integer.
pub open spec fn u64_le_bytes(n: u64) -> Seq<u8> {
    Seq::new(8, |i: int| ((n >> (8 * i)) & 0xff) as u8)
}

/// The 16-byte Blake2b digest of a byte string; the result depends on the
/// input bytes alone.
pub uninterp spec fn blake2_128_of(input: Seq<u8>) -> Seq<u8>;

/// Relies on parity-scale-codec's `Encode` for `([u8; 32], u64)`: a tuple
/// encodes as its fields in order, a fixed-size byte array as its raw bytes,
/// and a `u64` as its eight little-endian bytes.
#[verifier::external_body]
fn encode_entropy_payload(hash: &[u8; 32], block: u64) -> (r: Vec<u8>)
    ensures
        r@ == hash@ + u64_le_bytes(block),
{
    (*hash, block).encode()
}

/// Relies on sp_io::hashing::blake2_128: the 128-bit Blake2b digest of `data`.
#[verifier::external_body]
fn blake2_128_digest(data: &Vec<u8>) -> (r: [u8; 16])
    ensures
        r@ == blake2_128_of(data@),
{
    sp_io::hashing::blake2_128(data.as_slice())
}

/// The gender a mint derives from the host entropy: byte zero of the hash
/// returned for the `"gender"` domain decides, even for male.
pub open spec fn gender_of(ctx: HostCtx) -> Gender {
    if ctx.entropy_gender@[0] % 2 == 0 {
        Gender::Male
    } else {
        Gender::Female
    }
}

/// The DNA a mint derives from the host entropy: the 128-bit Blake2b digest
/// of the `"dna"`-domain hash followed by the encoded block number.
pub open spec fn dna_of(ctx: HostCtx) -> Seq<u8> {
    blake2_128_of(ctx.entropy_dna@ + u64_le_bytes(ctx.block_number))
}

/// Derive a gender from the host entropy.
pub fn gen_gender(ctx: &HostCtx) -> (g: Gender)
    ensures
        g == gender_of(*ctx),
{
    if ctx.entropy_gender[0] % 2 == 0 {
        Gender::Male
    } else {
        Gender::Female
    }
}

/// Derive a fresh 16-byte DNA from the host entropy and the block number.
pub fn gen_dna(ctx: &HostCtx) -> (dna: [u8; 16])
    ensures
        dna@ == dna_of(*ctx),
{
    let payload = encode_entropy_payload(&ctx.entropy_dna, ctx.block_number);
    blake2_128_digest(&payload)
}

} // verus!
