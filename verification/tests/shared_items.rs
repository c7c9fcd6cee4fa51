use frame_support::pallet_prelude::Encode;

use pallet_rent::collectible_id::gen_collectible_id;
use pallet_rent::storage::{bytes16_eq, StorageMap};
use pallet_rent::utils::convert_to_primitive;

#[test]
fn convert_to_primitive_keeps_values_that_fit() {
    assert_eq!(convert_to_primitive::<u64, u32>(7), Ok(7u32));
    assert_eq!(convert_to_primitive::<u64, u32>(u32::MAX as u64), Ok(u32::MAX));
    assert_eq!(convert_to_primitive::<u32, u64>(300), Ok(300u64));
}

#[test]
fn gen_collectible_id_hashes_the_encoded_payload() {
    let random = [9u8; 32];
    let id = gen_collectible_id(random, Some(3), 5);
    let payload = (random, 3u32, 5u64).encode();
    assert_eq!(payload.len(), 44);
    assert_eq!(&payload[32..36], &[3, 0, 0, 0]);
    assert_eq!(&payload[36..44], &[5, 0, 0, 0, 0, 0, 0, 0]);
    assert_eq!(id, frame_support::Hashable::blake2_128(&payload));
    // the identifier is a hash, not a piece of the payload
    assert_ne!(&id[..], &payload[..16]);
    assert_ne!(&id[..], &random[..16]);
}

#[test]
fn gen_collectible_id_without_extrinsic_index_uses_zero() {
    let random = [4u8; 32];
    assert_eq!(gen_collectible_id(random, None, 12), gen_collectible_id(random, Some(0), 12));
}

#[test]
fn gen_collectible_id_differs_between_extrinsics_and_blocks() {
    let random = [4u8; 32];
    let a = gen_collectible_id(random, Some(0), 12);
    let b = gen_collectible_id(random, Some(1), 12);
    let c = gen_collectible_id(random, Some(0), 13);
    assert_ne!(a, b);
    assert_ne!(a, c);
    assert_ne!(b, c);
}

#[test]
fn bytes16_eq_compares_every_byte() {
    let a = [1u8; 16];
    let mut b = [1u8; 16];
    assert!(bytes16_eq(&a, &b));
    b[15] = 2;
    assert!(!bytes16_eq(&a, &b));
    b[15] = 1;
    b[0] = 0;
    assert!(!bytes16_eq(&a, &b));
}

#[test]
fn storage_map_reads_back_writes() {
    let mut m: StorageMap<u64, u32> = StorageMap::new();
    assert!(!m.contains_key(&1));
    m.insert(1, 10);
    m.insert(2, 20);
    m.insert(1, 11);
    assert_eq!(m.get(&1), Some(&11));
    assert_eq!(m.get(&2), Some(&20));
    assert_eq!(m.remove(&1), Some(11));
    assert_eq!(m.get(&1), None);
    assert_eq!(m.remove(&1), None);
    assert!(m.contains_key(&2));
}

#[test]
fn storage_map_with_pair_keys() {
    let mut m: StorageMap<(u64, [u8; 16]), bool> = StorageMap::new();
    m.insert((1, [1; 16]), true);
    m.insert((1, [2; 16]), false);
    m.insert((2, [1; 16]), false);
    assert_eq!(m.get(&(1, [1; 16])), Some(&true));
    assert_eq!(m.get(&(1, [2; 16])), Some(&false));
    assert_eq!(m.get(&(2, [2; 16])), None);
}
