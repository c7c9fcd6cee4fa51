//! The nft-on-rent pallet: the first form of the rent pallet, without owner
//! lists, burning or a list of rentable collectibles.
pub mod laws;
pub mod model;
pub mod pallet;
pub mod types;
