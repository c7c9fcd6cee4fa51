//! The values that the nft-on-rent pallet stores, emits and returns.
use vstd::prelude::*;

use crate::currency::TransferError;
use crate::types::{AccountId, Balance, BlockNumber, CollectibleId};

verus! {

/// The constants that the runtime configures the pallet with.
#[derive(Clone, Copy, PartialEq, Eq, Debug)]
pub struct Config {
    /// How many collectibles an account can have equipped.
    pub maximum_owned: u32,
    /// How many rentals can fall due in one block.
    pub maximum_rentables_per_block: u32,
}

/// A collectible and its rental terms.
#[derive(Clone, Copy, PartialEq, Eq, Debug)]
pub struct Collectible {
    /// Sixteen bytes that identify the collectible.
    pub unique_id: CollectibleId,
    /// `None` while the collectible was never offered for rent.
    pub price_per_block: Option<Balance>,
    pub lessor: AccountId,
    pub lessee: Option<AccountId>,
    pub rentable: bool,
    pub minimum_rental_period: Option<u32>,
    pub maximum_rental_period: Option<u32>,
}

/// The terms of a running rental.
#[derive(Clone, Copy, PartialEq, Eq, Debug)]
pub struct RentalPeriodConfig {
    pub rental_periodic_interval: u32,
    pub next_rent_block: BlockNumber,
    pub recurring: bool,
}

/// What the pallet reports.
#[derive(Clone, Copy, PartialEq, Eq, Debug)]
pub enum Event {
    /// A new collectible was successfully created.
    CollectibleCreated {
        collectible: CollectibleId,
        lessor: AccountId,
        current_lessee: Option<AccountId>,
    },
    /// A collectible was successfully transferred.
    TransferSucceeded { from: AccountId, to: AccountId, collectible: CollectibleId },
    /// The price of a collectible was successfully set.
    RentMadeAvailable { collectible: CollectibleId, price_per_block: Balance },
    /// A collectible was successfully rented.
    RentPayed {
        lessor: AccountId,
        lessee: AccountId,
        collectible: CollectibleId,
        total_rent_price: Balance,
    },
    /// A rental period was successfully added.
    RentalPeriodAdded { collectible_id: CollectibleId, next_rent_block: BlockNumber },
    /// A rental period was successfully ended.
    RentalPeriodEnded { lessor: AccountId, lessee: AccountId, collectible: CollectibleId },
    /// Collectible rent made unavailable.
    RentMadeUnavailable { collectible: CollectibleId },
    /// Collectible rent made recurring.
    RentalMadeRecurring { collectible: CollectibleId },
    /// Cancelled recurring rental since payment was not made.
    ErrorTransferingRent { lessor: AccountId, lessee: AccountId, collectible: CollectibleId },
    /// Collectible equipped by account.
    CollectibleEquipped { account: AccountId, collectible: CollectibleId },
    /// Collectible unequipped by account.
    CollectibleUnequipped { account: AccountId, collectible: CollectibleId },
}

/// Why a call of the pallet was refused.
#[derive(Clone, Copy, PartialEq, Eq, Debug)]
pub enum Error {
    /// Each collectible must have a unique identifier
    DuplicateCollectible,
    /// The collectible doesn't exist
    NoCollectible,
    /// You are not the lessor of this collectible
    NotLessor,
    /// You are already the lessee of this collectible
    AlreadyRented,
    /// The accounts can't exceed the maximum number of collectibles.
    TooManyCollectibles,
    /// The collectible is not available for rent.
    RentNotAvailable,
    /// The lessor of the collectible cannot rent it.
    CannotRentOwnCollectible,
    /// The rental period is too short.
    RentalPeriodTooShort,
    /// The rental period is too long.
    RentalPeriodTooLong,
    /// Lessor cannot perform operation while collectible is rented.
    NotAllowedWhileRented,
    /// Account reached max equipped collectibles.
    TooManyCollectiblesEquiped,
}

/// Why a dispatched call failed: the pallet refused it, or the currency
/// refused its payment.
#[derive(Clone, Copy, PartialEq, Eq, Debug)]
pub enum DispatchError {
    Module(Error),
    Transfer(TransferError),
}

} // verus!
