use std::collections::HashMap;

use pallet_rent::currency::{Currency, TransferError, Treasury};
use pallet_rent::nft_on_rent::pallet::Pallet;
use pallet_rent::nft_on_rent::types::{
    Collectible, Config, DispatchError, Error, Event, RentalPeriodConfig,
};

const COLLECTIBLE_ID: [u8; 16] = [1; 16];
const EXISTENTIAL_DEPOSIT: u64 = 500;

/// Balances of the test runtime: transfers keep the payer alive.
struct Balances {
    free: HashMap<u64, u64>,
}

impl Currency for Balances {
    fn free_balance(&self, who: u64) -> u64 {
        *self.free.get(&who).unwrap_or(&0)
    }

    fn transfer(&mut self, from: u64, to: u64, amount: u64) -> Result<(), TransferError> {
        let from_balance = self.free_balance(from);
        if from_balance < amount || from_balance - amount < EXISTENTIAL_DEPOSIT {
            return Err(TransferError);
        }
        let to_balance = self.free_balance(to);
        if to_balance + amount < EXISTENTIAL_DEPOSIT {
            return Err(TransferError);
        }
        self.free.insert(from, from_balance - amount);
        self.free.insert(to, to_balance + amount);
        Ok(())
    }
}

struct Ext {
    nft_on_rent: Pallet,
    treasury: Treasury<Balances>,
}

fn build() -> Ext {
    build_with(100, 100)
}

fn build_with(maximum_owned: u32, maximum_rentables_per_block: u32) -> Ext {
    let mut nft_on_rent = Pallet::new(Config { maximum_owned, maximum_rentables_per_block });
    nft_on_rent.set_block_number(1);
    let mut free = HashMap::new();
    free.insert(1, 1000000000);
    free.insert(2, 1000000000);
    free.insert(3, 1000000000);
    Ext { nft_on_rent, treasury: Treasury::new(Balances { free }) }
}

impl Ext {
    fn run_to_block(&mut self, n: u64) {
        for b in (self.nft_on_rent.block_number() + 1)..=n {
            self.nft_on_rent.set_block_number(b);
            self.nft_on_rent.on_initialize(&mut self.treasury, b);
        }
    }

    fn insert_collectible(&mut self, lessee: Option<u64>, rentable: bool, terms: bool) {
        self.nft_on_rent.collectible_map_insert(Collectible {
            unique_id: COLLECTIBLE_ID,
            lessor: 1,
            lessee,
            rentable,
            price_per_block: if terms { Some(100) } else { None },
            minimum_rental_period: if terms { Some(10) } else { None },
            maximum_rental_period: if terms { Some(30) } else { None },
        });
    }

    fn add_rental(&mut self, lessee: u64, rental: RentalPeriodConfig) {
        self.nft_on_rent.lessee_collectibles_double_map_insert(lessee, COLLECTIBLE_ID, rental);
        self.nft_on_rent
            .pending_rentals_try_append(rental.next_rent_block, (COLLECTIBLE_ID, lessee))
            .unwrap();
    }

    fn has_event(&self, event: Event) -> bool {
        self.nft_on_rent.events().contains(&event)
    }

    fn snapshot(&self) -> String {
        format!(
            "{:?} {:?} {:?} {:?} {:?} {:?} {:?}",
            self.nft_on_rent.collectible_map_get(COLLECTIBLE_ID),
            self.nft_on_rent.lessee_collectibles_double_map_get(2, COLLECTIBLE_ID),
            self.nft_on_rent.pending_rentals_get(11),
            self.nft_on_rent.account_equips_map_get(1),
            self.nft_on_rent.account_equips_map_get(2),
            self.nft_on_rent.events(),
            (self.treasury.currency().free_balance(1), self.treasury.currency().free_balance(2)),
        )
    }
}

fn assert_noop(ext: &mut Ext, call: impl FnOnce(&mut Ext) -> Result<(), DispatchError>, error: Error) {
    let before = ext.snapshot();
    assert_eq!(call(ext), Err(DispatchError::Module(error)));
    assert_eq!(ext.snapshot(), before);
}

fn offered(lessee: Option<u64>) -> Collectible {
    Collectible {
        unique_id: COLLECTIBLE_ID,
        lessor: 1,
        lessee,
        rentable: true,
        price_per_block: Some(100),
        minimum_rental_period: Some(10),
        maximum_rental_period: Some(30),
    }
}


#[test]
fn nft_mint_refuses_a_duplicate_identifier() {
    let mut ext = build();
    assert_eq!(ext.nft_on_rent.do_mint(1, COLLECTIBLE_ID), Ok(COLLECTIBLE_ID));
    let before = ext.snapshot();
    assert_eq!(
        ext.nft_on_rent.do_mint(2, COLLECTIBLE_ID),
        Err(DispatchError::Module(Error::DuplicateCollectible))
    );
    assert_eq!(ext.snapshot(), before);
}

#[test]
fn nft_set_rentable_keeps_the_lessee() {
    let mut ext = build();
    ext.insert_collectible(Some(2), false, false);
    ext.nft_on_rent.set_rentable(1, COLLECTIBLE_ID, 100, 10, 30).unwrap();
    assert_eq!(ext.nft_on_rent.collectible_map_get(COLLECTIBLE_ID).unwrap(), offered(Some(2)));
    assert!(ext.has_event(Event::RentMadeAvailable { collectible: COLLECTIBLE_ID, price_per_block: 100 }));
}

#[test]
fn nft_set_unrentable_withdraws_the_offer() {
    let mut ext = build();
    ext.insert_collectible(None, true, true);
    assert_noop(&mut ext, |e| e.nft_on_rent.set_unrentable(2, COLLECTIBLE_ID), Error::NotLessor);
    ext.nft_on_rent.set_unrentable(1, COLLECTIBLE_ID).unwrap();
    assert_eq!(ext.nft_on_rent.collectible_map_get(COLLECTIBLE_ID).unwrap().rentable, false);
    assert!(ext.has_event(Event::RentMadeUnavailable { collectible: COLLECTIBLE_ID }));
}

#[test]
fn nft_rent_refuses_the_lessor_and_a_rented_collectible() {
    let mut ext = build();
    ext.insert_collectible(None, true, true);
    assert_noop(
        &mut ext,
        |e| e.nft_on_rent.rent(&mut e.treasury, 1, COLLECTIBLE_ID, 10, false),
        Error::CannotRentOwnCollectible,
    );
    ext.nft_on_rent.rent(&mut ext.treasury, 2, COLLECTIBLE_ID, 10, false).unwrap();
    assert_noop(
        &mut ext,
        |e| e.nft_on_rent.rent(&mut e.treasury, 3, COLLECTIBLE_ID, 10, false),
        Error::RentNotAvailable,
    );
    assert_noop(
        &mut ext,
        |e| e.nft_on_rent.rent(&mut e.treasury, 2, COLLECTIBLE_ID, 10, false),
        Error::AlreadyRented,
    );
}

#[test]
fn nft_rent_refuses_a_collectible_withdrawn_from_rent() {
    let mut ext = build();
    ext.insert_collectible(None, true, true);
    ext.nft_on_rent.set_unrentable(1, COLLECTIBLE_ID).unwrap();
    assert_noop(
        &mut ext,
        |e| e.nft_on_rent.rent(&mut e.treasury, 2, COLLECTIBLE_ID, 10, false),
        Error::RentNotAvailable,
    );
}

#[test]
fn nft_rent_returns_the_refused_transfer() {
    let mut ext = build();
    ext.treasury.currency_mut().free.insert(4, 1200);
    ext.insert_collectible(None, true, true);
    let before = ext.snapshot();
    assert_eq!(
        ext.nft_on_rent.rent(&mut ext.treasury, 4, COLLECTIBLE_ID, 10, false),
        Err(DispatchError::Transfer(TransferError))
    );
    assert_eq!(ext.snapshot(), before);
}

#[test]
fn nft_rent_unequips_the_lessor() {
    let mut ext = build();
    ext.insert_collectible(None, true, true);
    ext.nft_on_rent.equip_collectible(1, COLLECTIBLE_ID).unwrap();
    assert_eq!(ext.nft_on_rent.account_equips_map_get(1).unwrap(), vec![COLLECTIBLE_ID]);
    ext.nft_on_rent.rent(&mut ext.treasury, 2, COLLECTIBLE_ID, 10, false).unwrap();
    assert_eq!(ext.nft_on_rent.account_equips_map_get(1).unwrap(), Vec::<[u8; 16]>::new());
    assert_eq!(ext.treasury.currency().free_balance(1), 1000000000 + 1000);
}

#[test]
fn nft_set_recurring_needs_the_lessee_and_its_terms() {
    let mut ext = build();
    ext.insert_collectible(Some(2), true, true);
    assert_noop(&mut ext, |e| e.nft_on_rent.set_recurring(3, COLLECTIBLE_ID, true), Error::NotLessor);
    assert_noop(
        &mut ext,
        |e| e.nft_on_rent.set_recurring(2, COLLECTIBLE_ID, true),
        Error::NoCollectible,
    );
    ext.add_rental(
        2,
        RentalPeriodConfig { rental_periodic_interval: 10, next_rent_block: 11, recurring: false },
    );
    ext.nft_on_rent.set_recurring(2, COLLECTIBLE_ID, true).unwrap();
    assert!(ext.has_event(Event::RentalMadeRecurring { collectible: COLLECTIBLE_ID }));
}

#[test]
fn nft_extend_rent_moves_the_rental_to_its_new_block() {
    let mut ext = build();
    ext.insert_collectible(Some(2), true, true);
    ext.add_rental(
        2,
        RentalPeriodConfig { rental_periodic_interval: 10, next_rent_block: 11, recurring: false },
    );
    ext.nft_on_rent.pending_rentals_try_append(11, ([6; 16], 3)).unwrap();
    ext.nft_on_rent.pending_rentals_try_append(24, ([5; 16], 3)).unwrap();
    assert_eq!(ext.nft_on_rent.extend_rent(2, COLLECTIBLE_ID, 3), Ok(()));
    // one period after 11 + 3
    assert_eq!(
        ext.nft_on_rent.lessee_collectibles_double_map_get(2, COLLECTIBLE_ID).unwrap(),
        RentalPeriodConfig { rental_periodic_interval: 10, next_rent_block: 24, recurring: false }
    );
    assert!(ext.has_event(Event::RentalPeriodAdded { collectible_id: COLLECTIBLE_ID, next_rent_block: 24 }));
    // the rental left block 11 and joined what was due at block 24
    assert_eq!(ext.nft_on_rent.pending_rentals_get(11), vec![([6; 16], 3)]);
    assert_eq!(
        ext.nft_on_rent.pending_rentals_get(24),
        vec![([5; 16], 3), (COLLECTIBLE_ID, 2)]
    );

}

#[test]
fn nft_extend_rent_needs_the_lessee() {
    let mut ext = build();
    ext.insert_collectible(Some(2), true, true);
    assert_noop(&mut ext, |e| e.nft_on_rent.extend_rent(3, COLLECTIBLE_ID, 1), Error::NotLessor);
    assert_noop(&mut ext, |e| e.nft_on_rent.extend_rent(2, COLLECTIBLE_ID, 1), Error::NoCollectible);
    assert_noop(&mut ext, |e| e.nft_on_rent.extend_rent(2, [3; 16], 1), Error::NoCollectible);
}

#[test]
fn nft_equip_refuses_past_the_maximum() {
    let mut ext = build_with(1, 100);
    ext.insert_collectible(None, false, false);
    ext.nft_on_rent.equip_collectible(1, COLLECTIBLE_ID).unwrap();
    assert_noop(
        &mut ext,
        |e| e.nft_on_rent.equip_collectible(1, COLLECTIBLE_ID),
        Error::TooManyCollectiblesEquiped,
    );
}

#[test]
fn nft_unequip_needs_only_the_collectible() {
    let mut ext = build();
    ext.insert_collectible(Some(2), true, true);
    assert_eq!(ext.nft_on_rent.unequip_collectible(3, COLLECTIBLE_ID), Ok(()));
    assert!(ext.has_event(Event::CollectibleUnequipped { account: 3, collectible: COLLECTIBLE_ID }));
    assert_noop(&mut ext, |e| e.nft_on_rent.unequip_collectible(3, [4; 16]), Error::NoCollectible);
}

#[test]
fn nft_unpaid_recurring_rental_ends_with_an_error_event() {
    let mut ext = build();
    ext.treasury.currency_mut().free.insert(4, 600);
    ext.nft_on_rent.collectible_map_insert(Collectible { lessee: Some(4), ..offered(None) });
    ext.add_rental(
        4,
        RentalPeriodConfig { rental_periodic_interval: 10, next_rent_block: 11, recurring: true },
    );
    ext.run_to_block(11);
    assert!(ext.has_event(Event::ErrorTransferingRent {
        lessor: 1,
        lessee: 4,
        collectible: COLLECTIBLE_ID,
    }));
    assert_eq!(ext.nft_on_rent.collectible_map_get(COLLECTIBLE_ID).unwrap().lessee, None);
    assert_eq!(ext.nft_on_rent.lessee_collectibles_double_map_get(4, COLLECTIBLE_ID), None);
    assert_eq!(ext.nft_on_rent.pending_rentals_get(11), vec![]);
}

#[test]
fn nft_renewal_falls_due_at_the_first_block_with_room() {
    let mut ext = build_with(100, 1);
    ext.insert_collectible(Some(2), true, true);
    ext.add_rental(
        2,
        RentalPeriodConfig { rental_periodic_interval: 10, next_rent_block: 11, recurring: true },
    );
    ext.nft_on_rent.pending_rentals_try_append(21, ([6; 16], 3)).unwrap();
    ext.run_to_block(11);
    assert_eq!(ext.nft_on_rent.pending_rentals_get(22), vec![(COLLECTIBLE_ID, 2)]);
    assert_eq!(ext.nft_on_rent.pending_rentals_get(21), vec![([6; 16], 3)]);
    assert_eq!(
        ext.nft_on_rent.lessee_collectibles_double_map_get(2, COLLECTIBLE_ID).unwrap().next_rent_block,
        22
    );
}

#[test]
fn nft_can_rent_tells_whether_a_rental_can_be_completed() {
    let mut ext = build();
    ext.nft_on_rent.collectible_map_insert(Collectible { price_per_block: None, ..offered(None) });
    assert!(!ext.nft_on_rent.can_rent(2, COLLECTIBLE_ID, 10));
    assert!(ext.nft_on_rent.can_rent(1, COLLECTIBLE_ID, 10));
    ext.nft_on_rent.collectible_map_insert(offered(None));
    assert!(ext.nft_on_rent.can_rent(2, COLLECTIBLE_ID, 10));
}

#[test]
fn nft_can_extend_rent_tells_whether_an_extension_can_be_completed() {
    let mut ext = build();
    ext.insert_collectible(Some(2), true, true);
    ext.add_rental(
        2,
        RentalPeriodConfig { rental_periodic_interval: 10, next_rent_block: 11, recurring: false },
    );
    assert!(ext.nft_on_rent.can_extend_rent(2, COLLECTIBLE_ID, 3));
    assert!(ext.nft_on_rent.can_extend_rent(3, COLLECTIBLE_ID, 3));
    // past the last block
    assert!(!ext.nft_on_rent.can_extend_rent(2, COLLECTIBLE_ID, u64::MAX));
}

#[test]
fn nft_checked_processing_stops_before_a_rental_without_terms() {
    let mut ext = build();
    ext.nft_on_rent.pending_rentals_try_append(11, ([6; 16], 3)).unwrap();
    ext.nft_on_rent.set_block_number(11);
    assert!(!ext.nft_on_rent.can_process_due_rental(([6; 16], 3)));
    assert!(!ext.nft_on_rent.on_initialize_checked(&mut ext.treasury, 11));
    assert_eq!(ext.nft_on_rent.pending_rentals_get(11), vec![([6; 16], 3)]);
}
