//! The plain values that both pallets are written over.
use vstd::prelude::*;

verus! {

/// An account of the chain.
pub type AccountId = u64;

/// An amount of the chain's currency.
pub type Balance = u64;

/// The number of a block.
pub type BlockNumber = u64;

/// The unique identifier of a collectible: sixteen bytes.
pub type CollectibleId = [u8; 16];

/// The randomness that a new identifier is drawn from: the runtime's hash.
pub type RandomSeed = [u8; 32];

} // verus!
