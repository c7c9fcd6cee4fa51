use std::collections::HashMap;

use pallet_rent::currency::{Currency, TransferError, Treasury};
use pallet_rent::nft_on_rent::pallet::Pallet;
use pallet_rent::nft_on_rent::types::{
    Collectible, Config, DispatchError, Error, Event, RentalPeriodConfig,
};

const COLLECTIBLE_ID: [u8; 16] = [1; 16];
const EXISTENTIAL_DEPOSIT: u64 = 500;

/// Balances of the test runtime: transfers keep the payer alive.
struct Balances {
    free: HashMap<u64, u64>,
}

impl Currency for Balances {
    fn free_balance(&self, who: u64) -> u64 {
        *self.free.get(&who).unwrap_or(&0)
    }

    fn transfer(&mut self, from: u64, to: u64, amount: u64) -> Result<(), TransferError> {
        let from_balance = self.free_balance(from);
        if from_balance < amount || from_balance - amount < EXISTENTIAL_DEPOSIT {
            return Err(TransferError);
        }
        let to_balance = self.free_balance(to);
        if to_balance + amount < EXISTENTIAL_DEPOSIT {
            return Err(TransferError);
        }
        self.free.insert(from, from_balance - amount);
        self.free.insert(to, to_balance + amount);
        Ok(())
    }
}

struct Ext {
    nft_on_rent: Pallet,
    treasury: Treasury<Balances>,
}

fn build() -> Ext {
    let mut nft_on_rent =
        Pallet::new(Config { maximum_owned: 100, maximum_rentables_per_block: 100 });
    nft_on_rent.set_block_number(1);
    let mut free = HashMap::new();
    free.insert(1, 1000000000);
    free.insert(2, 1000000000);
    free.insert(3, 1000000000);
    Ext { nft_on_rent, treasury: Treasury::new(Balances { free }) }
}

impl Ext {
    fn run_to_block(&mut self, n: u64) {
        for b in (self.nft_on_rent.block_number() + 1)..=n {
            self.nft_on_rent.set_block_number(b);
            self.nft_on_rent.on_initialize(&mut self.treasury, b);
        }
    }

    fn insert_collectible(&mut self, lessee: Option<u64>, rentable: bool, terms: bool) {
        self.nft_on_rent.collectible_map_insert(Collectible {
            unique_id: COLLECTIBLE_ID,
            lessor: 1,
            lessee,
            rentable,
            price_per_block: if terms { Some(100) } else { None },
            minimum_rental_period: if terms { Some(10) } else { None },
            maximum_rental_period: if terms { Some(30) } else { None },
        });
    }

    fn add_rental(&mut self, lessee: u64, rental: RentalPeriodConfig) {
        self.nft_on_rent.lessee_collectibles_double_map_insert(lessee, COLLECTIBLE_ID, rental);
        self.nft_on_rent
            .pending_rentals_try_append(rental.next_rent_block, (COLLECTIBLE_ID, lessee))
            .unwrap();
    }

    fn has_event(&self, event: Event) -> bool {
        self.nft_on_rent.events().contains(&event)
    }

    fn snapshot(&self) -> String {
        format!(
            "{:?} {:?} {:?} {:?} {:?} {:?} {:?}",
            self.nft_on_rent.collectible_map_get(COLLECTIBLE_ID),
            self.nft_on_rent.lessee_collectibles_double_map_get(2, COLLECTIBLE_ID),
            self.nft_on_rent.pending_rentals_get(11),
            self.nft_on_rent.account_equips_map_get(1),
            self.nft_on_rent.account_equips_map_get(2),
            self.nft_on_rent.events(),
            (self.treasury.currency().free_balance(1), self.treasury.currency().free_balance(2)),
        )
    }
}

fn assert_noop(ext: &mut Ext, call: impl FnOnce(&mut Ext) -> Result<(), DispatchError>, error: Error) {
    let before = ext.snapshot();
    assert_eq!(call(ext), Err(DispatchError::Module(error)));
    assert_eq!(ext.snapshot(), before);
}

fn offered(lessee: Option<u64>) -> Collectible {
    Collectible {
        unique_id: COLLECTIBLE_ID,
        lessor: 1,
        lessee,
        rentable: true,
        price_per_block: Some(100),
        minimum_rental_period: Some(10),
        maximum_rental_period: Some(30),
    }
}

#[test]
fn tests_test_mint() {
    let mut ext = build();
    ext.nft_on_rent.mint(1, [7; 32], None).unwrap();

    let event = *ext.nft_on_rent.events().last().unwrap();

    match event {
        Event::CollectibleCreated { collectible, lessor: _lessor, current_lessee: _current_lessee } => {
            assert!(ext.nft_on_rent.collectible_map_contains_key(collectible));

            let collectible = ext.nft_on_rent.collectible_map_get(collectible).unwrap();

            assert_eq!(collectible.lessor, 1);
            assert_eq!(collectible.lessee, None);
            assert_eq!(collectible.rentable, false);
            assert_eq!(collectible.minimum_rental_period, None);
            assert_eq!(collectible.maximum_rental_period, None);
        },
        _ => panic!("Unexpected event"),
    };
}

#[test]
fn tests_test_set_rentable() {
    let mut ext = build();
    ext.insert_collectible(None, false, false);

    ext.nft_on_rent.set_rentable(1, COLLECTIBLE_ID, 100, 10, 30).unwrap();

    assert_eq!(ext.nft_on_rent.collectible_map_get(COLLECTIBLE_ID).unwrap(), offered(None));
}

#[test]
fn tests_test_set_rentable_should_fail_if_not_lessor() {
    let mut ext = build();
    ext.insert_collectible(None, false, false);

    assert_noop(
        &mut ext,
        |e| e.nft_on_rent.set_rentable(2, COLLECTIBLE_ID, 100, 10, 30),
        Error::NotLessor,
    );
}

#[test]
fn tests_test_set_rentable_should_fail_if_collectible_does_not_exist() {
    let mut ext = build();
    assert_noop(
        &mut ext,
        |e| e.nft_on_rent.set_rentable(1, COLLECTIBLE_ID, 100, 10, 30),
        Error::NoCollectible,
    );
}

#[test]
fn tests_test_rent_should_fail_if_rental_period_is_too_short() {
    let mut ext = build();
    ext.insert_collectible(None, true, true);

    let rent_period: u32 = 5;

    assert_noop(
        &mut ext,
        |e| e.nft_on_rent.rent(&mut e.treasury, 2, COLLECTIBLE_ID, rent_period, false),
        Error::RentalPeriodTooShort,
    );
}

#[test]
fn tests_test_rent_should_fail_if_rental_period_is_too_long() {
    let mut ext = build();
    ext.insert_collectible(None, true, true);

    let rent_period: u32 = 40;

    assert_noop(
        &mut ext,
        |e| e.nft_on_rent.rent(&mut e.treasury, 2, COLLECTIBLE_ID, rent_period, false),
        Error::RentalPeriodTooLong,
    );
}

#[test]
fn tests_test_rent_non_recurring() {
    let mut ext = build();
    let price_per_block: u64 = 100;

    ext.insert_collectible(None, true, true);

    let rent_period: u32 = 10;

    ext.nft_on_rent.rent(&mut ext.treasury, 2, COLLECTIBLE_ID, rent_period, false).unwrap();

    assert!(ext.has_event(Event::RentPayed {
        lessee: 2,
        lessor: 1,
        collectible: COLLECTIBLE_ID,
        total_rent_price: price_per_block * rent_period as u64,
    }));

    assert_eq!(ext.nft_on_rent.collectible_map_get(COLLECTIBLE_ID).unwrap(), offered(Some(2)));

    match ext.nft_on_rent.lessee_collectibles_double_map_get(2, COLLECTIBLE_ID) {
        Some(lessee_collectibles) => assert_eq!(
            lessee_collectibles,
            RentalPeriodConfig { rental_periodic_interval: 10, next_rent_block: 11, recurring: false }
        ),
        None => panic!("No collectible"),
    };
}

#[test]
fn tests_test_pending_rental_process_ending() {
    let mut ext = build();

    ext.insert_collectible(Some(2), true, true);
    ext.add_rental(
        2,
        RentalPeriodConfig { rental_periodic_interval: 10, next_rent_block: 11, recurring: false },
    );

    ext.run_to_block(11);

    assert!(ext.has_event(Event::RentalPeriodEnded {
        lessor: 1,
        lessee: 2,
        collectible: COLLECTIBLE_ID,
    }));

    assert_eq!(ext.nft_on_rent.collectible_map_get(COLLECTIBLE_ID).unwrap(), offered(None));

    assert_eq!(ext.nft_on_rent.lessee_collectibles_double_map_get(2, COLLECTIBLE_ID), None);
}

#[test]
fn tests_test_pending_rental_process_recurring() {
    let mut ext = build();
    let price_per_block: u64 = 100;

    ext.insert_collectible(Some(2), true, true);
    ext.add_rental(
        2,
        RentalPeriodConfig { rental_periodic_interval: 10, next_rent_block: 11, recurring: true },
    );

    ext.run_to_block(11);

    assert!(ext.has_event(Event::RentalPeriodAdded {
        collectible_id: COLLECTIBLE_ID,
        next_rent_block: 21,
    }));

    assert!(ext.has_event(Event::RentPayed {
        lessee: 2,
        lessor: 1,
        collectible: COLLECTIBLE_ID,
        total_rent_price: price_per_block * 10 as u64,
    }));

    assert_eq!(ext.nft_on_rent.collectible_map_get(COLLECTIBLE_ID).unwrap(), offered(Some(2)));

    match ext.nft_on_rent.lessee_collectibles_double_map_get(2, COLLECTIBLE_ID) {
        Some(lessee_collectibles) => assert_eq!(
            lessee_collectibles,
            RentalPeriodConfig { rental_periodic_interval: 10, next_rent_block: 21, recurring: true }
        ),
        None => panic!("No collectible"),
    };
}

#[test]
fn test_pending_rental_process_update_recurring() {
    let mut ext = build();
    let price_per_block: u64 = 100;

    ext.insert_collectible(Some(2), true, true);
    ext.add_rental(
        2,
        RentalPeriodConfig { rental_periodic_interval: 10, next_rent_block: 11, recurring: false },
    );

    ext.run_to_block(5);

    // before reaching block 11, set recurring rental
    assert_eq!(ext.nft_on_rent.set_recurring(2, COLLECTIBLE_ID, true), Ok(()));

    ext.run_to_block(11);

    assert!(ext.has_event(Event::RentalPeriodAdded {
        collectible_id: COLLECTIBLE_ID,
        next_rent_block: 21,
    }));

    assert!(ext.has_event(Event::RentPayed {
        lessee: 2,
        lessor: 1,
        collectible: COLLECTIBLE_ID,
        total_rent_price: price_per_block * 10 as u64,
    }));

    assert_eq!(ext.nft_on_rent.collectible_map_get(COLLECTIBLE_ID).unwrap(), offered(Some(2)));
}

#[test]
fn tests_test_equip_collectible() {
    let mut ext = build();
    ext.insert_collectible(Some(2), true, true);

    ext.nft_on_rent.equip_collectible(2, COLLECTIBLE_ID).unwrap();

    assert!(ext.has_event(Event::CollectibleEquipped { collectible: COLLECTIBLE_ID, account: 2 }));

    assert_eq!(ext.nft_on_rent.account_equips_map_get(2).unwrap_or_default(), vec![COLLECTIBLE_ID]);
}

#[test]
fn tests_test_unequip_collectible() {
    let mut ext = build();
    ext.insert_collectible(Some(2), true, true);

    ext.nft_on_rent.equip_collectible(2, COLLECTIBLE_ID).unwrap();

    assert!(ext.has_event(Event::CollectibleEquipped { collectible: COLLECTIBLE_ID, account: 2 }));

    assert_eq!(ext.nft_on_rent.account_equips_map_get(2).unwrap_or_default(), vec![COLLECTIBLE_ID]);

    ext.nft_on_rent.unequip_collectible(2, COLLECTIBLE_ID).unwrap();

    assert!(ext.has_event(Event::CollectibleUnequipped { collectible: COLLECTIBLE_ID, account: 2 }));

    assert_eq!(
        ext.nft_on_rent.account_equips_map_get(2).unwrap_or_default(),
        Vec::<[u8; 16]>::new()
    );
}

#[test]
fn tests_test_should_not_equip_rented_collectible_as_lessor() {
    let mut ext = build();
    ext.insert_collectible(Some(2), true, true);

    assert_noop(
        &mut ext,
        |e| e.nft_on_rent.equip_collectible(1, COLLECTIBLE_ID),
        Error::NotAllowedWhileRented,
    );
}

#[test]
fn tests_test_should_not_equip_unrented_collectible_as_lessee() {
    let mut ext = build();
    ext.insert_collectible(None, true, true);

    assert_noop(&mut ext, |e| e.nft_on_rent.equip_collectible(2, COLLECTIBLE_ID), Error::NotLessor);
}
