//! The rent pallet: collectibles that their lessor mints, rents out for a
//! number of blocks (once or recurring), equips, and burns.
pub mod laws;
pub mod model;
pub mod pallet;
pub mod types;
