//! Pallets that make non-fungible collectibles rentable: lessors mint and offer
//! them, lessees rent them for a number of blocks, once or recurring, and the
//! rentals due at each block are paid or ended.
use vstd::prelude::*;

pub mod collectible_id;
pub mod currency;
pub mod filters;
pub mod nft_on_rent;
pub mod rent;
pub mod storage;
pub mod types;
pub mod utils;
