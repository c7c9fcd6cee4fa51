use std::collections::HashMap;

use pallet_rent::currency::{Currency, TransferError, Treasury};
use pallet_rent::rent::pallet::Pallet;
use pallet_rent::rent::types::{
    Collectible, Config, DispatchError, Error, Event, RentalPeriodConfig,
};

const COLLECTIBLE_ID: [u8; 16] = [1; 16];
const EXISTENTIAL_DEPOSIT: u64 = 500;

/// Balances of the test runtime: transfers keep the payer alive.
struct Balances {
    free: HashMap<u64, u64>,
}

impl Currency for Balances {
    fn free_balance(&self, who: u64) -> u64 {
        *self.free.get(&who).unwrap_or(&0)
    }

    fn transfer(&mut self, from: u64, to: u64, amount: u64) -> Result<(), TransferError> {
        let from_balance = self.free_balance(from);
        if from_balance < amount || from_balance - amount < EXISTENTIAL_DEPOSIT {
            return Err(TransferError);
        }
        let to_balance = self.free_balance(to);
        if to_balance + amount < EXISTENTIAL_DEPOSIT {
            return Err(TransferError);
        }
        self.free.insert(from, from_balance - amount);
        self.free.insert(to, to_balance + amount);
        Ok(())
    }
}

struct Ext {
    rent: Pallet,
    treasury: Treasury<Balances>,
}

fn build() -> Ext {
    build_with(100, 100)
}

fn build_with(maximum_owned: u32, maximum_rentables_per_block: u32) -> Ext {
    let mut rent = Pallet::new(Config { maximum_owned, maximum_rentables_per_block });
    rent.set_block_number(1);
    let mut free = HashMap::new();
    free.insert(1, 1000000000);
    free.insert(2, 1000000000);
    free.insert(3, 1000000000);
    Ext { rent, treasury: Treasury::new(Balances { free }) }
}

impl Ext {
    fn run_to_block(&mut self, n: u64) {
        for b in (self.rent.block_number() + 1)..=n {
            self.rent.set_block_number(b);
            self.rent.on_initialize(&mut self.treasury, b);
        }
    }

    fn add_collectible(
        &mut self,
        collectible_id: [u8; 16],
        lessor: u64,
        lessee: Option<u64>,
        rentable: bool,
        price_per_block: Option<u64>,
        minimum_rental_period: Option<u32>,
        maximum_rental_period: Option<u32>,
    ) {
        self.rent.collectibles_insert(Collectible {
            collectible_id,
            lessor,
            lessee,
            rentable,
            price_per_block,
            minimum_rental_period,
            maximum_rental_period,
        });
        self.rent.lessor_collectibles_try_push(lessor, collectible_id).unwrap();
    }

    fn add_rental(&mut self, lessee: u64, rental: RentalPeriodConfig) {
        self.rent.lessee_collectibles_insert(lessee, COLLECTIBLE_ID, rental);
        self.rent
            .pending_rentals_try_append(rental.next_rent_block, (COLLECTIBLE_ID, lessee))
            .unwrap();
    }

    fn has_event(&self, event: Event) -> bool {
        self.rent.events().contains(&event)
    }

    fn snapshot(&self) -> String {
        format!(
            "{:?} {:?} {:?} {:?} {:?} {:?} {:?} {:?} {:?} {:?}",
            self.rent.collectibles_get(COLLECTIBLE_ID),
            self.rent.lessor_collectibles_get(1),
            self.rent.lessor_collectibles_get(2),
            self.rent.lessee_collectibles_get(2, COLLECTIBLE_ID),
            self.rent.rentable_collectibles_get(),
            self.rent.pending_rentals_get(11),
            self.rent.account_equips_get(1),
            self.rent.account_equips_get(2),
            self.rent.events(),
            (self.treasury.currency().free_balance(1), self.treasury.currency().free_balance(2)),
        )
    }
}

fn assert_noop(ext: &mut Ext, call: impl FnOnce(&mut Ext) -> Result<(), DispatchError>, error: Error) {
    let before = ext.snapshot();
    assert_eq!(call(ext), Err(DispatchError::Module(error)));
    assert_eq!(ext.snapshot(), before);
}

fn rented_collectible(lessee: Option<u64>) -> Collectible {
    Collectible {
        collectible_id: COLLECTIBLE_ID,
        lessor: 1,
        lessee,
        rentable: true,
        price_per_block: Some(100),
        minimum_rental_period: Some(10),
        maximum_rental_period: Some(30),
    }
}


#[test]
fn burn_right_after_mint_removes_the_collectible() {
    let mut ext = build();
    ext.rent.do_mint(1, [5; 16]).unwrap();
    ext.rent.do_mint(1, COLLECTIBLE_ID).unwrap();
    assert_eq!(ext.rent.lessor_collectibles_get(1).unwrap(), vec![[5; 16], COLLECTIBLE_ID]);
    ext.rent.burn(1, COLLECTIBLE_ID).unwrap();
    assert!(!ext.rent.collectibles_contains_key(COLLECTIBLE_ID));
    assert!(ext.rent.collectibles_contains_key([5; 16]));
    assert_eq!(ext.rent.lessor_collectibles_get(1).unwrap(), vec![[5; 16]]);
}

#[test]
fn mint_refuses_a_duplicate_identifier() {
    let mut ext = build();
    assert_eq!(ext.rent.do_mint(1, COLLECTIBLE_ID), Ok(COLLECTIBLE_ID));
    let before = ext.snapshot();
    assert_eq!(
        ext.rent.do_mint(2, COLLECTIBLE_ID),
        Err(DispatchError::Module(Error::DuplicateCollectible))
    );
    assert_eq!(ext.snapshot(), before);
}

#[test]
fn mint_refuses_past_the_maximum_owned() {
    let mut ext = build_with(2, 100);
    ext.rent.do_mint(1, [1; 16]).unwrap();
    ext.rent.do_mint(1, [2; 16]).unwrap();
    assert_eq!(
        ext.rent.do_mint(1, [3; 16]),
        Err(DispatchError::Module(Error::TooManyCollectiblesOwned))
    );
    assert!(!ext.rent.collectibles_contains_key([3; 16]));
    assert_eq!(ext.rent.lessor_collectibles_get(1).unwrap().len(), 2);
    // another account still can mint
    assert_eq!(ext.rent.do_mint(2, [3; 16]), Ok([3; 16]));
}

#[test]
fn mint_emits_the_created_event_with_the_drawn_identifier() {
    let mut ext = build();
    ext.rent.mint(3, [8; 32], Some(2)).unwrap();
    let id = pallet_rent::collectible_id::gen_collectible_id([8; 32], Some(2), 1);
    assert_eq!(
        ext.rent.events().last(),
        Some(&Event::CollectibleCreated { collectible: id, lessor: 3, current_lessee: None })
    );
    // the same extrinsic cannot mint the same identifier twice in a block
    assert_eq!(
        ext.rent.mint(3, [8; 32], Some(2)),
        Err(DispatchError::Module(Error::DuplicateCollectible))
    );
}

#[test]
fn set_rentable_refuses_inverted_periods() {
    let mut ext = build();
    ext.add_collectible(COLLECTIBLE_ID, 1, None, false, None, None, None);
    assert_noop(
        &mut ext,
        |e| e.rent.set_rentable(1, COLLECTIBLE_ID, 100, 31, 30),
        Error::MinimumMustBeLessThanMaximum,
    );
    // equal bounds are accepted
    assert_eq!(ext.rent.set_rentable(1, COLLECTIBLE_ID, 100, 30, 30), Ok(()));
}

#[test]
fn set_rentable_refuses_while_rented() {
    let mut ext = build();
    ext.add_collectible(COLLECTIBLE_ID, 1, Some(2), false, None, None, None);
    assert_noop(
        &mut ext,
        |e| e.rent.set_rentable(1, COLLECTIBLE_ID, 100, 10, 30),
        Error::NotAllowedWhileRented,
    );
}

#[test]
fn set_rentable_refuses_when_the_rentable_list_is_full() {
    let mut ext = build_with(1, 100);
    ext.add_collectible([2; 16], 1, None, false, None, None, None);
    ext.rent.set_rentable(1, [2; 16], 100, 10, 30).unwrap();
    ext.add_collectible(COLLECTIBLE_ID, 2, None, false, None, None, None);
    assert_noop(
        &mut ext,
        |e| e.rent.set_rentable(2, COLLECTIBLE_ID, 100, 10, 30),
        Error::TooManyCollectibles,
    );
    assert_eq!(ext.rent.collectibles_get(COLLECTIBLE_ID).unwrap().rentable, false);
}

#[test]
fn set_rentable_unequips_the_lessor() {
    let mut ext = build();
    ext.add_collectible(COLLECTIBLE_ID, 1, None, false, None, None, None);
    ext.rent.equip_collectible(1, COLLECTIBLE_ID).unwrap();
    assert_eq!(ext.rent.account_equips_get(1).unwrap(), vec![COLLECTIBLE_ID]);
    ext.rent.set_rentable(1, COLLECTIBLE_ID, 100, 10, 30).unwrap();
    assert_eq!(ext.rent.account_equips_get(1).unwrap(), Vec::<[u8; 16]>::new());
    let n = ext.rent.events().len();
    assert_eq!(
        ext.rent.events()[n - 2],
        Event::CollectibleUnequipped { account: 1, collectible: COLLECTIBLE_ID }
    );
    assert_eq!(
        ext.rent.events()[n - 1],
        Event::RentMadeAvailable { collectible: COLLECTIBLE_ID, price_per_block: 100 }
    );
}

#[test]
fn set_unrentable_withdraws_the_offer() {
    let mut ext = build();
    ext.add_collectible(COLLECTIBLE_ID, 1, None, false, None, None, None);
    ext.rent.set_rentable(1, COLLECTIBLE_ID, 100, 10, 30).unwrap();
    assert_noop(&mut ext, |e| e.rent.set_unrentable(2, COLLECTIBLE_ID), Error::NotLessor);
    ext.rent.set_unrentable(1, COLLECTIBLE_ID).unwrap();
    assert_eq!(ext.rent.collectibles_get(COLLECTIBLE_ID).unwrap().rentable, false);
    assert_eq!(ext.rent.rentable_collectibles_get(), Vec::<[u8; 16]>::new());
    assert!(ext.has_event(Event::RentMadeUnavailable { collectible: COLLECTIBLE_ID }));
}

#[test]
fn rent_refuses_the_lessor_and_a_rented_collectible() {
    let mut ext = build();
    ext.add_collectible(COLLECTIBLE_ID, 1, None, true, Some(100), Some(10), Some(30));
    assert_noop(
        &mut ext,
        |e| e.rent.rent(&mut e.treasury, 1, COLLECTIBLE_ID, 10, false),
        Error::CannotRentOwnCollectible,
    );
    ext.rent.rent(&mut ext.treasury, 2, COLLECTIBLE_ID, 10, false).unwrap();
    assert_noop(
        &mut ext,
        |e| e.rent.rent(&mut e.treasury, 3, COLLECTIBLE_ID, 10, false),
        Error::RentNotAvailable,
    );
    // the lessee is told it already rents it
    assert_noop(
        &mut ext,
        |e| e.rent.rent(&mut e.treasury, 2, COLLECTIBLE_ID, 10, false),
        Error::AlreadyRented,
    );
    // a rented collectible cannot be burned
    assert_noop(&mut ext, |e| e.rent.burn(1, COLLECTIBLE_ID), Error::NotAllowedWhileRented);
}

#[test]
fn rent_pays_the_lessor() {
    let mut ext = build();
    ext.add_collectible(COLLECTIBLE_ID, 1, None, true, Some(100), Some(10), Some(30));
    ext.rent.rent(&mut ext.treasury, 2, COLLECTIBLE_ID, 12, true).unwrap();
    assert_eq!(ext.treasury.currency().free_balance(1), 1000000000 + 1200);
    assert_eq!(ext.treasury.currency().free_balance(2), 1000000000 - 1200);
    assert_eq!(ext.rent.pending_rentals_get(13), vec![(COLLECTIBLE_ID, 2)]);
    assert_eq!(
        ext.rent.lessee_collectibles_get(2, COLLECTIBLE_ID),
        Some(RentalPeriodConfig { rental_periodic_interval: 12, next_rent_block: 13, recurring: true })
    );
}

#[test]
fn rent_refuses_without_enough_balance() {
    let mut ext = build();
    ext.treasury.currency_mut().free.insert(4, 999);
    ext.add_collectible(COLLECTIBLE_ID, 1, None, true, Some(100), Some(10), Some(30));
    assert_noop(
        &mut ext,
        |e| e.rent.rent(&mut e.treasury, 4, COLLECTIBLE_ID, 10, false),
        Error::NotEnoughBalance,
    );
}

#[test]
fn rent_returns_the_refused_transfer() {
    let mut ext = build();
    // enough to pay, but not to stay above the existential deposit
    ext.treasury.currency_mut().free.insert(4, 1200);
    ext.add_collectible(COLLECTIBLE_ID, 1, None, true, Some(100), Some(10), Some(30));
    let before = ext.snapshot();
    assert_eq!(
        ext.rent.rent(&mut ext.treasury, 4, COLLECTIBLE_ID, 10, false),
        Err(DispatchError::Transfer(TransferError))
    );
    assert_eq!(ext.snapshot(), before);
}

#[test]
fn rent_falls_due_at_the_first_block_with_room() {
    let mut ext = build_with(100, 1);
    ext.rent.pending_rentals_try_append(11, ([9; 16], 3)).unwrap();
    assert_eq!(ext.rent.pending_rentals_try_append(11, ([8; 16], 3)), Err(()));
    ext.rent.pending_rentals_try_append(12, ([8; 16], 3)).unwrap();
    ext.add_collectible(COLLECTIBLE_ID, 1, None, true, Some(100), Some(10), Some(30));
    ext.rent.rent(&mut ext.treasury, 2, COLLECTIBLE_ID, 10, false).unwrap();
    // blocks 11 and 12 are full
    assert_eq!(ext.rent.pending_rentals_get(13), vec![(COLLECTIBLE_ID, 2)]);
    assert_eq!(ext.rent.pending_rentals_get(11), vec![([9; 16], 3)]);
    assert_eq!(ext.rent.pending_rentals_get(12), vec![([8; 16], 3)]);
    assert_eq!(ext.rent.pending_rentals_get(2), vec![]);
    assert_eq!(
        ext.rent.lessee_collectibles_get(2, COLLECTIBLE_ID).unwrap().next_rent_block,
        13
    );
    assert!(ext.has_event(Event::RentalPeriodAdded { collectible: COLLECTIBLE_ID, next_rent_block: 13 }));
}

#[test]
fn rent_refuses_a_collectible_withdrawn_from_rent() {
    let mut ext = build();
    ext.add_collectible(COLLECTIBLE_ID, 1, None, true, Some(100), Some(10), Some(30));
    ext.rent.set_unrentable(1, COLLECTIBLE_ID).unwrap();
    assert_noop(
        &mut ext,
        |e| e.rent.rent(&mut e.treasury, 2, COLLECTIBLE_ID, 10, false),
        Error::RentNotAvailable,
    );
    // never offered for rent
    ext.add_collectible([2; 16], 1, None, false, Some(100), None, None);
    assert_noop(
        &mut ext,
        |e| e.rent.rent(&mut e.treasury, 2, [2; 16], 10, false),
        Error::RentNotAvailable,
    );
}

#[test]
fn lessor_cannot_equip_a_rented_collectible_withdrawn_from_rent() {
    let mut ext = build();
    ext.add_collectible(COLLECTIBLE_ID, 1, None, true, Some(100), Some(10), Some(30));
    ext.rent.rent(&mut ext.treasury, 2, COLLECTIBLE_ID, 10, false).unwrap();
    ext.rent.set_unrentable(1, COLLECTIBLE_ID).unwrap();
    assert_noop(
        &mut ext,
        |e| e.rent.equip_collectible(1, COLLECTIBLE_ID),
        Error::NotAllowedWhileRented,
    );
    // the lessee still can
    assert_eq!(ext.rent.equip_collectible(2, COLLECTIBLE_ID), Ok(()));
}

#[test]
fn set_recurring_needs_the_lessee_and_its_terms() {
    let mut ext = build();
    ext.add_collectible(COLLECTIBLE_ID, 1, None, true, Some(100), Some(10), Some(30));
    assert_noop(&mut ext, |e| e.rent.set_recurring(2, COLLECTIBLE_ID, true), Error::NoLessee);
    ext.rent.collectibles_insert(rented_collectible(Some(2)));
    assert_noop(&mut ext, |e| e.rent.set_recurring(3, COLLECTIBLE_ID, true), Error::NotLessee);
    assert_noop(&mut ext, |e| e.rent.set_recurring(2, COLLECTIBLE_ID, true), Error::NoCollectible);
    ext.add_rental(
        2,
        RentalPeriodConfig { rental_periodic_interval: 10, next_rent_block: 11, recurring: false },
    );
    ext.rent.set_recurring(2, COLLECTIBLE_ID, true).unwrap();
    assert!(ext.has_event(Event::RentalSetRecurring { collectible: COLLECTIBLE_ID, recurring: true }));
    assert_eq!(
        ext.rent.lessee_collectibles_get(2, COLLECTIBLE_ID).unwrap(),
        RentalPeriodConfig { rental_periodic_interval: 10, next_rent_block: 11, recurring: true }
    );
}

#[test]
fn extend_rent_charges_the_extension() {
    let mut ext = build();
    ext.add_collectible(COLLECTIBLE_ID, 1, Some(2), true, Some(100), Some(10), Some(30));
    ext.add_rental(
        2,
        RentalPeriodConfig { rental_periodic_interval: 10, next_rent_block: 11, recurring: false },
    );
    ext.rent.extend_rent(&mut ext.treasury, 2, COLLECTIBLE_ID, 4).unwrap();
    assert!(ext.has_event(Event::RentPayed {
        lessee: 2,
        lessor: 1,
        collectible: COLLECTIBLE_ID,
        total_rent_price: 400,
    }));
    assert_eq!(ext.treasury.currency().free_balance(1), 1000000000 + 400);
    assert_eq!(
        ext.rent.lessee_collectibles_get(2, COLLECTIBLE_ID).unwrap(),
        RentalPeriodConfig { rental_periodic_interval: 10, next_rent_block: 15, recurring: false }
    );
    assert_eq!(ext.rent.pending_rentals_get(11), vec![]);
    assert_eq!(ext.rent.pending_rentals_get(15), vec![(COLLECTIBLE_ID, 2)]);
    // the rental now ends at block 15, not 11
    ext.run_to_block(11);
    assert_eq!(ext.rent.collectibles_get(COLLECTIBLE_ID).unwrap().lessee, Some(2));
    ext.run_to_block(15);
    assert_eq!(ext.rent.collectibles_get(COLLECTIBLE_ID).unwrap().lessee, None);
}

#[test]
fn extend_rent_needs_the_lessee() {
    let mut ext = build();
    ext.add_collectible(COLLECTIBLE_ID, 1, Some(2), true, Some(100), Some(10), Some(30));
    assert_noop(
        &mut ext,
        |e| e.rent.extend_rent(&mut e.treasury, 3, COLLECTIBLE_ID, 1),
        Error::NotLessee,
    );
    assert_noop(
        &mut ext,
        |e| e.rent.extend_rent(&mut e.treasury, 2, COLLECTIBLE_ID, 1),
        Error::NoCollectible,
    );
    assert_noop(
        &mut ext,
        |e| e.rent.extend_rent(&mut e.treasury, 2, [3; 16], 1),
        Error::NoCollectible,
    );
}

#[test]
fn equip_refuses_past_the_maximum() {
    let mut ext = build_with(1, 100);
    ext.add_collectible(COLLECTIBLE_ID, 1, None, false, None, None, None);
    ext.rent.equip_collectible(1, COLLECTIBLE_ID).unwrap();
    assert_noop(
        &mut ext,
        |e| e.rent.equip_collectible(1, COLLECTIBLE_ID),
        Error::TooManyCollectiblesEquiped,
    );
}

#[test]
fn equip_as_a_stranger_is_refused() {
    let mut ext = build();
    ext.add_collectible(COLLECTIBLE_ID, 1, Some(2), true, Some(100), Some(10), Some(30));
    assert_noop(&mut ext, |e| e.rent.equip_collectible(3, COLLECTIBLE_ID), Error::NotLessee);
    assert_noop(&mut ext, |e| e.rent.unequip_collectible(3, COLLECTIBLE_ID), Error::NotLessor);
    assert_noop(&mut ext, |e| e.rent.unequip_collectible(3, [4; 16]), Error::NoCollectible);
}

#[test]
fn unequip_right_after_equip_leaves_nothing_equipped() {
    let mut ext = build();
    ext.add_collectible(COLLECTIBLE_ID, 1, None, false, None, None, None);
    ext.rent.equip_collectible(1, COLLECTIBLE_ID).unwrap();
    ext.rent.equip_collectible(1, COLLECTIBLE_ID).unwrap();
    assert_eq!(ext.rent.account_equips_get(1).unwrap(), vec![COLLECTIBLE_ID, COLLECTIBLE_ID]);
    ext.rent.unequip_collectible(1, COLLECTIBLE_ID).unwrap();
    assert_eq!(ext.rent.account_equips_get(1).unwrap(), Vec::<[u8; 16]>::new());
}

#[test]
fn unpaid_recurring_rental_ends_with_an_error_event() {
    let mut ext = build();
    ext.treasury.currency_mut().free.insert(4, 600);
    ext.add_collectible(COLLECTIBLE_ID, 1, Some(4), true, Some(100), Some(10), Some(30));
    ext.add_rental(
        4,
        RentalPeriodConfig { rental_periodic_interval: 10, next_rent_block: 11, recurring: true },
    );
    ext.run_to_block(11);
    assert!(ext.has_event(Event::ErrorTransferingRent {
        lessor: 1,
        lessee: 4,
        collectible: COLLECTIBLE_ID,
    }));
    assert_eq!(ext.rent.collectibles_get(COLLECTIBLE_ID).unwrap().lessee, None);
    assert_eq!(ext.rent.lessee_collectibles_get(4, COLLECTIBLE_ID), None);
    assert_eq!(ext.rent.pending_rentals_get(11), vec![]);
    assert_eq!(ext.rent.pending_rentals_get(21), vec![]);
}

#[test]
fn withdrawn_collectible_rental_ends_at_its_due_block() {
    let mut ext = build();
    ext.add_collectible(COLLECTIBLE_ID, 1, Some(2), true, Some(100), Some(10), Some(30));
    ext.add_rental(
        2,
        RentalPeriodConfig { rental_periodic_interval: 10, next_rent_block: 11, recurring: true },
    );
    ext.rent.set_unrentable(1, COLLECTIBLE_ID).unwrap();
    ext.run_to_block(11);
    assert!(ext.has_event(Event::RentalEnded { lessor: 1, lessee: 2, collectible: COLLECTIBLE_ID }));
    assert_eq!(ext.rent.collectibles_get(COLLECTIBLE_ID).unwrap().lessee, None);
    assert_eq!(ext.treasury.currency().free_balance(1), 1000000000);
}

#[test]
fn can_rent_tells_whether_a_rental_can_be_completed() {
    let mut ext = build();
    // offered for rent without a price: renting it could not be completed
    ext.add_collectible(COLLECTIBLE_ID, 1, None, true, None, None, None);
    assert!(!ext.rent.can_rent(2, COLLECTIBLE_ID, 10));
    // a call that its checks refuse can be made
    assert!(ext.rent.can_rent(1, COLLECTIBLE_ID, 10));
    assert!(ext.rent.can_rent(2, [7; 16], 10));
    ext.add_collectible([2; 16], 1, None, true, Some(100), Some(10), Some(30));
    assert!(ext.rent.can_rent(2, [2; 16], 10));
    // a rent beyond a balance
    ext.add_collectible([3; 16], 1, None, true, Some(u64::MAX), None, None);
    assert!(!ext.rent.can_rent(2, [3; 16], 2));
    assert!(ext.rent.can_rent(2, [3; 16], 1));
}

#[test]
fn can_extend_rent_tells_whether_an_extension_can_be_completed() {
    let mut ext = build();
    ext.add_collectible(COLLECTIBLE_ID, 1, Some(2), true, Some(100), Some(10), Some(30));
    ext.add_rental(
        2,
        RentalPeriodConfig { rental_periodic_interval: 10, next_rent_block: 11, recurring: false },
    );
    assert!(ext.rent.can_extend_rent(2, COLLECTIBLE_ID, 5));
    // refused by its checks: too long, or not the lessee
    assert!(ext.rent.can_extend_rent(2, COLLECTIBLE_ID, 100));
    assert!(ext.rent.can_extend_rent(3, COLLECTIBLE_ID, 5));
    // without a maximum period the extension could not be completed
    ext.rent.collectibles_insert(Collectible { maximum_rental_period: None, ..rented_collectible(Some(2)) });
    assert!(!ext.rent.can_extend_rent(2, COLLECTIBLE_ID, 5));
}

#[test]
fn checked_processing_stops_before_a_rental_without_terms() {
    let mut ext = build();
    ext.rent.pending_rentals_try_append(11, ([6; 16], 3)).unwrap();
    ext.rent.set_block_number(11);
    assert!(!ext.rent.can_process_due_rental(([6; 16], 3)));
    assert!(!ext.rent.on_initialize_checked(&mut ext.treasury, 11));
    // nothing was forgotten
    assert_eq!(ext.rent.pending_rentals_get(11), vec![([6; 16], 3)]);
}

#[test]
fn checked_processing_processes_what_can_run() {
    let mut ext = build();
    ext.rent.collectibles_insert(rented_collectible(Some(2)));
    ext.add_rental(
        2,
        RentalPeriodConfig { rental_periodic_interval: 10, next_rent_block: 11, recurring: true },
    );
    ext.rent.set_block_number(11);
    assert!(ext.rent.can_process_due_rental((COLLECTIBLE_ID, 2)));
    assert!(ext.rent.on_initialize_checked(&mut ext.treasury, 11));
    assert_eq!(ext.rent.pending_rentals_get(11), vec![]);
    assert_eq!(ext.rent.pending_rentals_get(21), vec![(COLLECTIBLE_ID, 2)]);
    assert_eq!(ext.treasury.currency().free_balance(1), 1000000000 + 1000);
    assert_eq!(ext.treasury.currency().free_balance(2), 1000000000 - 1000);
}
