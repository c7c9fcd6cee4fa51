//! Identifiers of new collectibles, drawn from the chain's randomness.
use vstd::prelude::*;

use frame_support::pallet_prelude::Encode;

use crate::types::{BlockNumber, CollectibleId, RandomSeed};

verus! {

/// What `frame_support::Hashable::blake2_128` returns for a byte vector with
/// the contents `bytes` (the 128-bit Blake2 hash of its SCALE encoding).
pub uninterp spec fn hashable_blake2_128(bytes: Seq<u8>) -> [u8; 16];

/// The SCALE encoding of the tuple `(random, extrinsic_index, block_number)`:
/// the 32 bytes of the seed, then both integers in little-endian order.
pub open spec fn payload_encoding(
    random: RandomSeed,
    extrinsic_index: u32,
    block_number: BlockNumber,
) -> Seq<u8> {
    random@ + vstd::bytes::spec_u32_to_le_bytes(extrinsic_index) + vstd::bytes::spec_u64_to_le_bytes(
        block_number,
    )
}

/// The identifier drawn from `random` by the extrinsic at `extrinsic_index`
/// (0 where there is none) in block `block_number`.
pub open spec fn generated_id(
    random: RandomSeed,
    extrinsic_index: Option<u32>,
    block_number: BlockNumber,
) -> CollectibleId {
    hashable_blake2_128(
        payload_encoding(
            random,
            match extrinsic_index {
                Some(i) => i,
                None => 0,
            },
            block_number,
        ),
    )
}

/// Encodes the tuple with `parity_scale_codec::Encode::encode` (reached through
/// `frame_support`). SCALE writes a fixed-size byte array as its bytes and
/// fixed-width integers in little-endian order, one after the other for a tuple;
/// the contract states that encoding.
#[verifier::external_body]
fn encode_payload(random: RandomSeed, extrinsic_index: u32, block_number: BlockNumber) -> (r: Vec<
    u8,
>)
    ensures
        r@ == payload_encoding(random, extrinsic_index, block_number),
{
    (random, extrinsic_index, block_number).encode()
}

/// Hashes with `frame_support::Hashable::blake2_128`; the contract names the
/// result, which depends on the bytes alone.
#[verifier::external_body]
fn hash_blake2_128(bytes: &Vec<u8>) -> (r: [u8; 16])
    ensures
        r == hashable_blake2_128(bytes@),
{
    frame_support::Hashable::blake2_128(bytes)
}

/// The identifier that a new collectible gets: the hash of the encoded seed,
/// index of the extrinsic in its block (0 where there is none) and block number.
/// Two collectibles minted in one block by different extrinsics get different
/// payloads.
pub fn gen_collectible_id(
    random: RandomSeed,
    extrinsic_index: Option<u32>,
    block_number: BlockNumber,
) -> (id: CollectibleId)
    ensures
        id == generated_id(random, extrinsic_index, block_number),
{
    let index: u32 = match extrinsic_index {
        Some(i) => i,
        None => 0,
    };
    let encoded = encode_payload(random, index, block_number);
    hash_blake2_128(&encoded)
}

} // verus!
