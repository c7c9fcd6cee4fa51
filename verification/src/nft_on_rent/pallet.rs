//! The nft-on-rent pallet's storage and calls.
use vstd::prelude::*;

use crate::collectible_id::{gen_collectible_id, generated_id};
use crate::currency::{Currency, CurrencyCall, Treasury};
use crate::filters::{
    copy_entries, copy_ids, lemma_without_id_len, vec_entries_without_id, vec_without_id,
};
use crate::nft_on_rent::model::{
    clear_pending, entries_can_run, entry_can_run, equip_outcome, extend_can_run, extend_check,
    entry_calls, entry_paid, extend_effect, extend_unscheduled, fetch, mint_outcome, process_entry,
    process_run, rent_can_run, rent_check, rent_effect, rent_price, set_recurring_outcome,
    set_rentable_outcome, transfer_calls, transfer_result,
    set_unrentable_outcome, unequip_outcome, NftState,
};
use crate::nft_on_rent::types::{Collectible, Config, DispatchError, Error, Event, RentalPeriodConfig};
use crate::storage::{lemma_lists_insert, lemma_lists_remove, lemma_remove_insert, lists, StorageMap};
use crate::types::{AccountId, Balance, BlockNumber, CollectibleId, RandomSeed};

verus! {

/// The nft-on-rent pallet: its storage, with the block number and the events
/// of the block that the runtime keeps beside it.
pub struct Pallet {
    config: Config,
    block_number: BlockNumber,
    collectible_map: StorageMap<CollectibleId, Collectible>,
    lessee_collectibles_double_map: StorageMap<(AccountId, CollectibleId), RentalPeriodConfig>,
    pending_rentals: StorageMap<BlockNumber, Vec<(CollectibleId, AccountId)>>,
    account_equips_map: StorageMap<AccountId, Vec<CollectibleId>>,
    events: Vec<Event>,
}

impl View for Pallet {
    type V = NftState;

    closed spec fn view(&self) -> NftState {
        NftState {
            config: self.config,
            block_number: self.block_number,
            collectible_map: self.collectible_map@,
            lessee_collectibles: self.lessee_collectibles_double_map@,
            pending_rentals: lists(self.pending_rentals@),
            account_equips: lists(self.account_equips_map@),
            events: self.events@,
        }
    }
}

impl Pallet {
    /// A pallet with empty storage at block 0.
    pub fn new(config: Config) -> (p: Self)
        ensures
            p@ == (NftState {
                config,
                block_number: 0,
                collectible_map: Map::empty(),
                lessee_collectibles: Map::empty(),
                pending_rentals: Map::empty(),
                account_equips: Map::empty(),
                events: Seq::empty(),
            }),
            p@.wf(),
    {
        let p = Pallet {
            config,
            block_number: 0,
            collectible_map: StorageMap::new(),
            lessee_collectibles_double_map: StorageMap::new(),
            pending_rentals: StorageMap::new(),
            account_equips_map: StorageMap::new(),
            events: Vec::new(),
        };
        assert(lists(p.pending_rentals@) =~= Map::empty());
        assert(lists(p.account_equips_map@) =~= Map::empty());
        p
    }

    fn deposit_event(&mut self, event: Event)
        ensures
            final(self)@ == old(self)@.deposit(event),
    {
        self.events.push(event);
        assert(self@ =~= old(self)@.deposit(event));
    }

    fn fetch_collectible(&self, unique_id: CollectibleId) -> (r: Result<Collectible, Error>)
        ensures
            r == fetch(self@, unique_id),
    {
        match self.collectible_map.get(&unique_id) {
            Some(c) => Ok(*c),
            None => Err(Error::NoCollectible),
        }
    }

    fn equipped_len(&self, account: AccountId) -> (r: usize)
        ensures
            r == self@.equipped_by(account).len(),
    {
        match self.account_equips_map.get(&account) {
            Some(v) => v.len(),
            None => 0,
        }
    }

    fn pending_len(&self, block: BlockNumber) -> (r: usize)
        ensures
            r == self@.pending_at(block).len(),
    {
        match self.pending_rentals.get(&block) {
            Some(v) => v.len(),
            None => 0,
        }
    }

    /// Takes out the list of collectibles that `account` has equipped.
    fn take_equipped(&mut self, account: AccountId) -> (v: Vec<CollectibleId>)
        ensures
            v@ == old(self)@.equipped_by(account),
            final(self)@ == (NftState {
                account_equips: old(self)@.account_equips.remove(account),
                ..old(self)@
            }),
    {
        let v = match self.account_equips_map.remove(&account) {
            Some(v) => v,
            None => Vec::new(),
        };
        proof {
            lemma_lists_remove(old(self).account_equips_map@, account);
            assert(self@ =~= NftState {
                account_equips: old(self)@.account_equips.remove(account),
                ..old(self)@
            });
        }
        v
    }

    /// Stores `v` as the list of collectibles that `account` has equipped.
    fn put_equipped(&mut self, account: AccountId, v: Vec<CollectibleId>)
        ensures
            final(self)@ == (NftState {
                account_equips: old(self)@.account_equips.insert(account, v@),
                ..old(self)@
            }),
    {
        let ghost before = self.account_equips_map@;
        self.account_equips_map.insert(account, v);
        proof {
            lemma_lists_insert(before, account, v);
            assert(self@ =~= NftState {
                account_equips: old(self)@.account_equips.insert(account, v@),
                ..old(self)@
            });
        }
    }

    /// Takes out the list of rentals due at `block`.
    fn take_pending(&mut self, block: BlockNumber) -> (v: Vec<(CollectibleId, AccountId)>)
        ensures
            v@ == old(self)@.pending_at(block),
            final(self)@ == (NftState {
                pending_rentals: old(self)@.pending_rentals.remove(block),
                ..old(self)@
            }),
    {
        let v = match self.pending_rentals.remove(&block) {
            Some(v) => v,
            None => Vec::new(),
        };
        proof {
            lemma_lists_remove(old(self).pending_rentals@, block);
            assert(self@ =~= NftState {
                pending_rentals: old(self)@.pending_rentals.remove(block),
                ..old(self)@
            });
        }
        v
    }

    /// Stores `v` as the list of rentals due at `block`.
    fn put_pending(&mut self, block: BlockNumber, v: Vec<(CollectibleId, AccountId)>)
        ensures
            final(self)@ == (NftState {
                pending_rentals: old(self)@.pending_rentals.insert(block, v@),
                ..old(self)@
            }),
    {
        let ghost before = self.pending_rentals@;
        self.pending_rentals.insert(block, v);
        proof {
            lemma_lists_insert(before, block, v);
            assert(self@ =~= NftState {
                pending_rentals: old(self)@.pending_rentals.insert(block, v@),
                ..old(self)@
            });
        }
    }

    /// Stores `c` under `unique_id`.
    fn put_collectible(&mut self, unique_id: CollectibleId, c: Collectible)
        ensures
            final(self)@ == (NftState {
                collectible_map: old(self)@.collectible_map.insert(unique_id, c),
                ..old(self)@
            }),
    {
        self.collectible_map.insert(unique_id, c);
        assert(self@ =~= NftState {
            collectible_map: old(self)@.collectible_map.insert(unique_id, c),
            ..old(self)@
        });
    }

    /// Stores `rental` as the terms of the rental of `unique_id` by `lessee`.
    fn put_rental(&mut self, lessee: AccountId, unique_id: CollectibleId, rental: RentalPeriodConfig)
        ensures
            final(self)@ == (NftState {
                lessee_collectibles: old(self)@.lessee_collectibles.insert((lessee, unique_id), rental),
                ..old(self)@
            }),
    {
        self.lessee_collectibles_double_map.insert((lessee, unique_id), rental);
        assert(self@ =~= NftState {
            lessee_collectibles: old(self)@.lessee_collectibles.insert((lessee, unique_id), rental),
            ..old(self)@
        });
    }

    fn _unequip_collectible_from_account(&mut self, account: AccountId, collectible_id: CollectibleId)
        ensures
            final(self)@ == old(self)@.unequip(account, collectible_id),
    {
        let ghost s0 = self@;
        let equiped = self.take_equipped(account);
        let kept = vec_without_id(&equiped, &collectible_id);
        self.put_equipped(account, kept);
        proof {
            lemma_remove_insert(s0.account_equips, account, kept@);
        }
    }

    /// Schedules the rental of `collectible_id` by `lessee` to fall due at the
    /// first block that has room, from `rental_periodic_interval` blocks after
    /// `starting_block_number` (the current block where it is `None`) on.
    /// Returns the block.
    fn _append_pending_rental_to_available_block(
        &mut self,
        starting_block_number: Option<BlockNumber>,
        rental_periodic_interval: u32,
        collectible_id: CollectibleId,
        lessee: AccountId,
    ) -> (r: Result<BlockNumber, DispatchError>)
        requires
            old(self)@.can_schedule(
                match starting_block_number {
                    Some(b) => b,
                    None => old(self)@.block_number,
                },
                rental_periodic_interval,
            ),
        ensures
            ({
                let start = match starting_block_number {
                    Some(b) => b,
                    None => old(self)@.block_number,
                };
                &&& r == Ok::<BlockNumber, DispatchError>(
                    old(self)@.due_block(start, rental_periodic_interval),
                )
                &&& final(self)@ == old(self)@.schedule(
                    start,
                    rental_periodic_interval,
                    collectible_id,
                    lessee,
                )
            }),
    {
        let starting_block_number = match starting_block_number {
            Some(block_number) => block_number,
            None => self.block_number,
        };
        let mut block_number = starting_block_number + rental_periodic_interval as u64;
        let ghost target = self@.free_block_from(block_number);
        proof {
            self@.lemma_free_block_from(block_number);
        }
        // while the block is full, try the one after it
        while self.pending_len(block_number) >= self.config.maximum_rentables_per_block as usize
            invariant
                self@ == old(self)@,
                block_number <= target,
                self@.free_block_from(block_number) == target,
                self@.has_room(target),
            decreases target - block_number,
        {
            block_number = block_number + 1;
        }
        let ghost s0 = self@;
        let mut rental_periods = self.take_pending(block_number);
        rental_periods.push((collectible_id, lessee));
        self.put_pending(block_number, rental_periods);
        proof {
            lemma_remove_insert(s0.pending_rentals, block_number, rental_periods@);
        }
        self.deposit_event(
            Event::RentalPeriodAdded { collectible_id, next_rent_block: block_number },
        );
        Ok(block_number)
    }

    /// The rental of `collectible` by `lessee` ends: its terms are dropped, the
    /// collectible has no lessee, and the lessee no longer has it equipped.
    fn _remove_lessee_from_collectible(&mut self, lessee: AccountId, collectible: &mut Collectible) -> (r:
        Result<(), DispatchError>)
        ensures
            r is Ok,
            *final(collectible) == (Collectible { lessee: None, ..*old(collectible) }),
            final(self)@ == old(self)@.remove_lessee(lessee, *old(collectible)),
    {
        let collectible_id = collectible.unique_id;
        self.lessee_collectibles_double_map.remove(&(lessee, collectible_id));
        assert(self@ =~= NftState {
            lessee_collectibles: old(self)@.lessee_collectibles.remove((lessee, collectible_id)),
            ..old(self)@
        });
        collectible.lessee = None;
        self.put_collectible(collectible_id, *collectible);
        self._unequip_collectible_from_account(lessee, collectible_id);
        Ok(())
    }
}

impl Pallet {
    /// Mints the collectible `unique_id` for `lessor`.
    pub fn do_mint(&mut self, lessor: AccountId, unique_id: CollectibleId) -> (r: Result<
        CollectibleId,
        DispatchError,
    >)
        ensures
            match mint_outcome(old(self)@, lessor, unique_id) {
                Ok(s) => r == Ok::<CollectibleId, DispatchError>(unique_id) && final(self)@ == s,
                Err(e) => r == Err::<CollectibleId, DispatchError>(DispatchError::Module(e))
                    && final(self)@ == old(self)@,
            },
            old(self)@.wf() ==> final(self)@.wf(),
    {
        let collectible = Collectible {
            unique_id,
            price_per_block: None,
            lessor,
            lessee: None,
            rentable: false,
            minimum_rental_period: None,
            maximum_rental_period: None,
        };
        if self.collectible_map.contains_key(&collectible.unique_id) {
            return Err(DispatchError::Module(Error::DuplicateCollectible));
        }
        self.put_collectible(collectible.unique_id, collectible);
        self.deposit_event(
            Event::CollectibleCreated { collectible: unique_id, lessor, current_lessee: None },
        );
        Ok(unique_id)
    }

    /// Mints a collectible for `sender`, with the identifier drawn from
    /// `random` (the runtime's randomness) and the index of the extrinsic in
    /// the current block.
    pub fn mint(&mut self, sender: AccountId, random: RandomSeed, extrinsic_index: Option<u32>) -> (r:
        Result<(), DispatchError>)
        ensures
            match mint_outcome(
                old(self)@,
                sender,
                generated_id(random, extrinsic_index, old(self)@.block_number),
            ) {
                Ok(s) => r == Ok::<(), DispatchError>(()) && final(self)@ == s,
                Err(e) => r == Err::<(), DispatchError>(DispatchError::Module(e)) && final(self)@
                    == old(self)@,
            },
            old(self)@.wf() ==> final(self)@.wf(),
    {
        let collectible_gen_unique_id = gen_collectible_id(
            random,
            extrinsic_index,
            self.block_number,
        );
        match self.do_mint(sender, collectible_gen_unique_id) {
            Ok(_) => Ok(()),
            Err(e) => Err(e),
        }
    }

    /// Sets the rental terms of `unique_id` and offers it for rent.
    pub fn set_rentable(
        &mut self,
        sender: AccountId,
        unique_id: CollectibleId,
        price_per_block: u64,
        minimum_rental_period: u32,
        maximum_rental_period: u32,
    ) -> (r: Result<(), DispatchError>)
        ensures
            match set_rentable_outcome(
                old(self)@,
                sender,
                unique_id,
                price_per_block,
                minimum_rental_period,
                maximum_rental_period,
            ) {
                Ok(s) => r == Ok::<(), DispatchError>(()) && final(self)@ == s,
                Err(e) => r == Err::<(), DispatchError>(DispatchError::Module(e)) && final(self)@
                    == old(self)@,
            },
            old(self)@.wf() ==> final(self)@.wf(),
    {
        let mut collectible = match self.fetch_collectible(unique_id) {
            Ok(c) => c,
            Err(e) => return Err(DispatchError::Module(e)),
        };
        if collectible.lessor != sender {
            return Err(DispatchError::Module(Error::NotLessor));
        }
        collectible.price_per_block = Some(price_per_block);
        collectible.rentable = true;
        collectible.minimum_rental_period = Some(minimum_rental_period);
        collectible.maximum_rental_period = Some(maximum_rental_period);
        self.put_collectible(unique_id, collectible);
        self.deposit_event(Event::RentMadeAvailable { collectible: unique_id, price_per_block });
        Ok(())
    }

    /// Rents `unique_id` to `sender` for `blocks` blocks, recurring or not.
    ///
    /// Where the checks pass, the currency is asked to transfer the rent of
    /// `blocks` blocks from `sender` to the lessor, and the rental is recorded
    /// where it made the transfer. Where a check fails, nothing is asked of
    /// the currency.
    pub fn rent<C: Currency>(
        &mut self,
        treasury: &mut Treasury<C>,
        sender: AccountId,
        unique_id: CollectibleId,
        blocks: u32,
        recurring: bool,
    ) -> (r: Result<(), DispatchError>)
        requires
            rent_can_run(old(self)@, sender, unique_id, blocks),
        ensures
            match rent_check(old(self)@, sender, unique_id, blocks) {
                Err(e) => r == Err::<(), DispatchError>(DispatchError::Module(e)) && final(self)@
                    == old(self)@ && final(treasury).calls() == old(treasury).calls(),
                Ok(_) => exists|accepted: bool|
                    final(treasury).calls() == old(treasury).calls() + #[trigger] transfer_calls(
                        sender,
                        old(self)@.collectible_map[unique_id].lessor,
                        rent_price(old(self)@.collectible_map[unique_id], blocks) as Balance,
                        accepted,
                    ) && r == transfer_result(accepted) && final(self)@ == (if accepted {
                        rent_effect(old(self)@, sender, unique_id, blocks, recurring)
                    } else {
                        old(self)@
                    }),
            },
            old(self)@.wf() ==> final(self)@.wf(),
    {
        let collectible = match self.fetch_collectible(unique_id) {
            Ok(c) => c,
            Err(e) => return Err(DispatchError::Module(e)),
        };
        if let Some(minimum_rental_period) = collectible.minimum_rental_period {
            if blocks < minimum_rental_period {
                return Err(DispatchError::Module(Error::RentalPeriodTooShort));
            }
        }
        if let Some(maximum_rental_period) = collectible.maximum_rental_period {
            if blocks > maximum_rental_period {
                return Err(DispatchError::Module(Error::RentalPeriodTooLong));
            }
        }
        if collectible.lessor == sender {
            return Err(DispatchError::Module(Error::CannotRentOwnCollectible));
        }
        if let Some(lessee) = collectible.lessee {
            if lessee == sender {
                return Err(DispatchError::Module(Error::AlreadyRented));
            }
        }
        if collectible.lessee.is_some() || !collectible.rentable {
            return Err(DispatchError::Module(Error::RentNotAvailable));
        }
        self.do_rent_collectible(treasury, unique_id, sender, blocks, recurring)
    }

    fn do_rent_collectible<C: Currency>(
        &mut self,
        treasury: &mut Treasury<C>,
        unique_id: CollectibleId,
        lessee: AccountId,
        rent_periodic_interval: u32,
        recurring: bool,
    ) -> (r: Result<(), DispatchError>)
        requires
            rent_check(old(self)@, lessee, unique_id, rent_periodic_interval) is Ok,
            rent_can_run(old(self)@, lessee, unique_id, rent_periodic_interval),
        ensures
            exists|accepted: bool|
                final(treasury).calls() == old(treasury).calls() + #[trigger] transfer_calls(
                    lessee,
                    old(self)@.collectible_map[unique_id].lessor,
                    rent_price(old(self)@.collectible_map[unique_id], rent_periodic_interval)
                        as Balance,
                    accepted,
                ) && r == transfer_result(accepted) && final(self)@ == (if accepted {
                    rent_effect(old(self)@, lessee, unique_id, rent_periodic_interval, recurring)
                } else {
                    old(self)@
                }),
            old(self)@.wf() ==> final(self)@.wf(),
    {
        let collectible = *self.collectible_map.get(&unique_id).unwrap();
        let total_rent_price = collectible.price_per_block.unwrap() * rent_periodic_interval as u64;
        // the payment moves funds, so nothing may fail after it
        let transferred = treasury.transfer(lessee, collectible.lessor, total_rent_price);
        proof {
            assert(treasury.calls() =~= old(treasury).calls() + transfer_calls(
                lessee,
                collectible.lessor,
                total_rent_price,
                transferred is Ok,
            ));
        }
        let payment = match transferred {
            Ok(()) => Ok(()),
            Err(e) => Err(DispatchError::Transfer(e)),
        };
        self.settle_rent(unique_id, lessee, rent_periodic_interval, recurring, payment)
    }

    /// Completes a rental of `unique_id` by `lessee` once its payment was
    /// attempted: a refused payment is returned and nothing changes; a payment
    /// that went through records the rental.
    pub fn settle_rent(
        &mut self,
        unique_id: CollectibleId,
        lessee: AccountId,
        rent_periodic_interval: u32,
        recurring: bool,
        payment: Result<(), DispatchError>,
    ) -> (r: Result<(), DispatchError>)
        requires
            rent_check(old(self)@, lessee, unique_id, rent_periodic_interval) is Ok,
            rent_can_run(old(self)@, lessee, unique_id, rent_periodic_interval),
        ensures
            match payment {
                Err(e) => r == Err::<(), DispatchError>(e) && final(self)@ == old(self)@,
                Ok(_) => r == Ok::<(), DispatchError>(()) && final(self)@ == rent_effect(
                    old(self)@,
                    lessee,
                    unique_id,
                    rent_periodic_interval,
                    recurring,
                ),
            },
            old(self)@.wf() ==> final(self)@.wf(),
    {
        match payment {
            Err(e) => return Err(e),
            Ok(()) => {},
        }
        let mut collectible = *self.collectible_map.get(&unique_id).unwrap();
        let lessor = collectible.lessor;
        let total_rent_price = collectible.price_per_block.unwrap() * rent_periodic_interval as u64;
        self.deposit_event(
            Event::RentPayed { lessee, lessor, collectible: unique_id, total_rent_price },
        );
        collectible.lessee = Some(lessee);
        let next_rent_block = match self._append_pending_rental_to_available_block(
            None,
            rent_periodic_interval,
            unique_id,
            lessee,
        ) {
            Ok(b) => b,
            Err(e) => return Err(e),
        };
        let rental_config = RentalPeriodConfig {
            rental_periodic_interval: rent_periodic_interval,
            next_rent_block,
            recurring,
        };
        self.put_rental(lessee, unique_id, rental_config);
        self.put_collectible(unique_id, collectible);
        let ghost s0 = self@;
        self._unequip_collectible_from_account(collectible.lessor, unique_id);
        proof {
            lemma_without_id_len(s0.equipped_by(collectible.lessor), unique_id);
        }
        Ok(())
    }

    /// Withdraws `unique_id` from rent; a running rental goes on.
    pub fn set_unrentable(&mut self, sender: AccountId, unique_id: CollectibleId) -> (r: Result<
        (),
        DispatchError,
    >)
        ensures
            match set_unrentable_outcome(old(self)@, sender, unique_id) {
                Ok(s) => r == Ok::<(), DispatchError>(()) && final(self)@ == s,
                Err(e) => r == Err::<(), DispatchError>(DispatchError::Module(e)) && final(self)@
                    == old(self)@,
            },
            old(self)@.wf() ==> final(self)@.wf(),
    {
        let mut collectible = match self.fetch_collectible(unique_id) {
            Ok(c) => c,
            Err(e) => return Err(DispatchError::Module(e)),
        };
        if collectible.lessor != sender {
            return Err(DispatchError::Module(Error::NotLessor));
        }
        collectible.rentable = false;
        self.put_collectible(unique_id, collectible);
        self.deposit_event(Event::RentMadeUnavailable { collectible: unique_id });
        Ok(())
    }

    /// Makes the rental of `unique_id` by `sender` recurring or not.
    pub fn set_recurring(&mut self, sender: AccountId, unique_id: CollectibleId, recurring: bool) -> (r:
        Result<(), DispatchError>)
        ensures
            match set_recurring_outcome(old(self)@, sender, unique_id, recurring) {
                Ok(s) => r == Ok::<(), DispatchError>(()) && final(self)@ == s,
                Err(e) => r == Err::<(), DispatchError>(DispatchError::Module(e)) && final(self)@
                    == old(self)@,
            },
            old(self)@.wf() ==> final(self)@.wf(),
    {
        let collectible = match self.fetch_collectible(unique_id) {
            Ok(c) => c,
            Err(e) => return Err(DispatchError::Module(e)),
        };
        let is_lessee = match collectible.lessee {
            Some(l) => l == sender,
            None => false,
        };
        if !is_lessee {
            return Err(DispatchError::Module(Error::NotLessor));
        }
        let mut lessee_rental = match self.lessee_collectibles_double_map.get(&(sender, unique_id)) {
            Some(r) => *r,
            None => return Err(DispatchError::Module(Error::NoCollectible)),
        };
        lessee_rental.recurring = recurring;
        self.put_rental(sender, unique_id, lessee_rental);
        self.put_collectible(unique_id, collectible);
        self.deposit_event(Event::RentalMadeRecurring { collectible: unique_id });
        Ok(())
    }

    /// Extends the rental of `unique_id` by `sender`: it no longer falls due at
    /// its due block, and falls due one period after `blocks` blocks past it,
    /// beside the rentals already due then.
    pub fn extend_rent(&mut self, sender: AccountId, unique_id: CollectibleId, blocks: BlockNumber) -> (r:
        Result<(), DispatchError>)
        requires
            extend_can_run(old(self)@, sender, unique_id, blocks),
        ensures
            match extend_check(old(self)@, sender, unique_id) {
                Err(e) => r == Err::<(), DispatchError>(DispatchError::Module(e)) && final(self)@
                    == old(self)@,
                Ok(_) => r == Ok::<(), DispatchError>(()) && final(self)@ == extend_effect(
                    old(self)@,
                    sender,
                    unique_id,
                    blocks,
                ),
            },
            old(self)@.wf() ==> final(self)@.wf(),
    {
        let collectible = match self.fetch_collectible(unique_id) {
            Ok(c) => c,
            Err(e) => return Err(DispatchError::Module(e)),
        };
        let is_lessee = match collectible.lessee {
            Some(l) => l == sender,
            None => false,
        };
        if !is_lessee {
            return Err(DispatchError::Module(Error::NotLessor));
        }
        let lessee = collectible.lessee.unwrap();
        let lessee_rental = match self.lessee_collectibles_double_map.get(&(sender, unique_id)) {
            Some(r) => *r,
            None => return Err(DispatchError::Module(Error::NoCollectible)),
        };
        let next_rent_block = lessee_rental.next_rent_block;
        let ghost s0 = self@;
        let pending_rental = self.take_pending(next_rent_block);
        let pending_rental = vec_entries_without_id(&pending_rental, &unique_id);
        let ghost kept = pending_rental@;
        self.put_pending(next_rent_block, pending_rental);
        proof {
            lemma_remove_insert(s0.pending_rentals, next_rent_block, kept);
            crate::filters::lemma_entries_without_id_len(s0.pending_at(next_rent_block), unique_id);
            assert(self@ == extend_unscheduled(s0, unique_id, next_rent_block));
        }
        let next_rent_block = match self._append_pending_rental_to_available_block(
            Some(next_rent_block + blocks),
            lessee_rental.rental_periodic_interval,
            collectible.unique_id,
            lessee,
        ) {
            Ok(b) => b,
            Err(e) => return Err(e),
        };
        let rental_config = RentalPeriodConfig { next_rent_block, ..lessee_rental };
        self.put_rental(lessee, unique_id, rental_config);
        Ok(())
    }

    /// Equips `unique_id` on behalf of its lessee, or of its lessor while it
    /// has no lessee.
    pub fn equip_collectible(&mut self, sender: AccountId, unique_id: CollectibleId) -> (r: Result<
        (),
        DispatchError,
    >)
        ensures
            match equip_outcome(old(self)@, sender, unique_id) {
                Ok(s) => r == Ok::<(), DispatchError>(()) && final(self)@ == s,
                Err(e) => r == Err::<(), DispatchError>(DispatchError::Module(e)) && final(self)@
                    == old(self)@,
            },
            old(self)@.wf() ==> final(self)@.wf(),
    {
        let collectible = match self.fetch_collectible(unique_id) {
            Ok(c) => c,
            Err(e) => return Err(DispatchError::Module(e)),
        };
        let account = match collectible.lessee {
            Some(lessee) => {
                if lessee != sender {
                    return Err(DispatchError::Module(Error::NotAllowedWhileRented));
                }
                lessee
            },
            None => {
                if collectible.lessor != sender {
                    return Err(DispatchError::Module(Error::NotLessor));
                }
                collectible.lessor
            },
        };
        if self.equipped_len(account) >= self.config.maximum_owned as usize {
            return Err(DispatchError::Module(Error::TooManyCollectiblesEquiped));
        }
        let ghost s0 = self@;
        let mut equipped = self.take_equipped(account);
        equipped.push(unique_id);
        self.put_equipped(account, equipped);
        proof {
            lemma_remove_insert(s0.account_equips, account, equipped@);
        }
        self.deposit_event(Event::CollectibleEquipped { account: sender, collectible: unique_id });
        Ok(())
    }

    /// Unequips `unique_id` from `sender`.
    pub fn unequip_collectible(&mut self, sender: AccountId, unique_id: CollectibleId) -> (r: Result<
        (),
        DispatchError,
    >)
        ensures
            match unequip_outcome(old(self)@, sender, unique_id) {
                Ok(s) => r == Ok::<(), DispatchError>(()) && final(self)@ == s,
                Err(e) => r == Err::<(), DispatchError>(DispatchError::Module(e)) && final(self)@
                    == old(self)@,
            },
            old(self)@.wf() ==> final(self)@.wf(),
    {
        let collectible = match self.fetch_collectible(unique_id) {
            Ok(c) => c,
            Err(e) => return Err(DispatchError::Module(e)),
        };
        let ghost s0 = self@;
        self._unequip_collectible_from_account(sender, collectible.unique_id);
        proof {
            lemma_without_id_len(s0.equipped_by(sender), collectible.unique_id);
        }
        self.deposit_event(Event::CollectibleUnequipped { account: sender, collectible: unique_id });
        Ok(())
    }
}

impl Pallet {
    /// Processes the due rental `rental` once its payment was attempted
    /// (`paid` says whether it went through): a rental that does not go on
    /// (withdrawn from rent, without lessee, or not recurring) ends; one whose
    /// payment failed ends with an error event; a paid one is scheduled again.
    pub fn settle_due_rental(&mut self, rental: (CollectibleId, AccountId), paid: bool)
        requires
            entry_can_run(old(self)@, rental, paid),
        ensures
            final(self)@ == process_entry(old(self)@, rental, paid),
            old(self)@.wf() ==> final(self)@.wf(),
    {
        let collectible_id = rental.0;
        let lessee = rental.1;
        let rental_config = *self.lessee_collectibles_double_map.get(&(lessee, collectible_id)).unwrap();
        let mut collectible = *self.collectible_map.get(&collectible_id).unwrap();
        let ghost s0 = self@;
        let ghost c0 = collectible;
        if !collectible.rentable || collectible.lessee.is_none() || !rental_config.recurring {
            let _ = self._remove_lessee_from_collectible(lessee, &mut collectible);
            proof {
                lemma_without_id_len(s0.equipped_by(lessee), c0.unique_id);
            }
            self.deposit_event(
                Event::RentalPeriodEnded {
                    lessee,
                    lessor: collectible.lessor,
                    collectible: collectible_id,
                },
            );
            return ;
        }
        if !paid {
            let _ = self._remove_lessee_from_collectible(lessee, &mut collectible);
            proof {
                lemma_without_id_len(s0.equipped_by(lessee), c0.unique_id);
            }
            self.deposit_event(
                Event::ErrorTransferingRent {
                    lessee,
                    lessor: collectible.lessor,
                    collectible: collectible_id,
                },
            );
            return ;
        }
        let total_rent_price = collectible.price_per_block.unwrap()
            * rental_config.rental_periodic_interval as u64;
        self.deposit_event(
            Event::RentPayed {
                lessee,
                lessor: collectible.lessor,
                collectible: collectible_id,
                total_rent_price,
            },
        );
        let next_rent_block = self._append_pending_rental_to_available_block(
            None,
            rental_config.rental_periodic_interval,
            collectible_id,
            lessee,
        ).unwrap();
        self.put_rental(lessee, collectible_id, RentalPeriodConfig { next_rent_block, ..rental_config });
    }

    /// Processes the due rental `rental`: for a rental that goes on, the
    /// currency is first asked to transfer the price of one more period from
    /// its lessee to its lessor.
    fn process_due_rental<C: Currency>(
        &mut self,
        treasury: &mut Treasury<C>,
        rental: (CollectibleId, AccountId),
    )
        requires
            entry_can_run(old(self)@, rental, true),
            entry_can_run(old(self)@, rental, false),
        ensures
            exists|accepted: bool|
                final(self)@ == process_entry(old(self)@, rental, entry_paid(old(self)@, rental, accepted))
                    && final(treasury).calls() == old(treasury).calls() + #[trigger] entry_calls(
                    old(self)@,
                    rental,
                    accepted,
                ),
            old(self)@.wf() ==> final(self)@.wf(),
    {
        let collectible = *self.collectible_map.get(&rental.0).unwrap();
        let rental_config = *self.lessee_collectibles_double_map.get(&(rental.1, rental.0)).unwrap();
        if collectible.rentable && collectible.lessee.is_some() && rental_config.recurring {
            let total_rent_price = collectible.price_per_block.unwrap()
                * rental_config.rental_periodic_interval as u64;
            let paid = treasury.transfer(rental.1, collectible.lessor, total_rent_price).is_ok();
            proof {
                assert(treasury.calls() =~= old(treasury).calls() + entry_calls(
                    old(self)@,
                    rental,
                    paid,
                ));
            }
            self.settle_due_rental(rental, paid);
        } else {
            self.settle_due_rental(rental, false);
            proof {
                assert(treasury.calls() =~= old(treasury).calls() + entry_calls(
                    old(self)@,
                    rental,
                    false,
                ));
            }
        }
    }

    /// Processes the rentals due at block `n`, in the order they were
    /// scheduled, then forgets them; each rental that goes on is paid through
    /// the currency. Before each rental it tests that the rental can run, and
    /// returns `false` where that test failed, with the rentals before it
    /// processed and nothing forgotten.
    fn process_rental_periods<C: Currency>(&mut self, treasury: &mut Treasury<C>, n: BlockNumber) -> (ok: bool)
        ensures
            entries_can_run(old(self)@, old(self)@.pending_at(n)) ==> ok,
            ok ==> exists|answers: Seq<bool>|
                answers.len() == old(self)@.pending_at(n).len() && final(self)@ == clear_pending(
                    (#[trigger] process_run(old(self)@, old(self)@.pending_at(n), answers)).0,
                    n,
                ) && final(treasury).calls() == old(treasury).calls() + process_run(
                    old(self)@,
                    old(self)@.pending_at(n),
                    answers,
                ).1,
            !ok ==> exists|k: int, answers: Seq<bool>|
                0 <= k < old(self)@.pending_at(n).len() && answers.len() == k && final(self)@ == (
                #[trigger] process_run(old(self)@, old(self)@.pending_at(n).take(k), answers)).0
                    && final(treasury).calls() == old(treasury).calls() + process_run(
                    old(self)@,
                    old(self)@.pending_at(n).take(k),
                    answers,
                ).1 && !entry_can_run(final(self)@, old(self)@.pending_at(n)[k], true),
            old(self)@.wf() ==> final(self)@.wf(),
    {
        let rentals = match self.pending_rentals.get(&n) {
            Some(v) => copy_entries(v),
            None => Vec::new(),
        };
        let ghost mut answers: Seq<bool> = Seq::empty();
        let mut i: usize = 0;
        assert(rentals@.skip(0) =~= rentals@);
        assert(rentals@.take(0) =~= Seq::<(CollectibleId, AccountId)>::empty());
        assert(treasury.calls() =~= old(treasury).calls() + Seq::<CurrencyCall>::empty());
        while i < rentals.len()
            invariant
                i <= rentals@.len(),
                rentals@ == old(self)@.pending_at(n),
                answers.len() == i,
                self@ == process_run(old(self)@, rentals@.take(i as int), answers).0,
                treasury.calls() == old(treasury).calls() + process_run(
                    old(self)@,
                    rentals@.take(i as int),
                    answers,
                ).1,
                entries_can_run(old(self)@, old(self)@.pending_at(n)) ==> entries_can_run(
                    self@,
                    rentals@.skip(i as int),
                ),
                old(self)@.wf() ==> self@.wf(),
            decreases rentals@.len() - i,
        {
            let rental = rentals[i];
            let ghost s0 = self@;
            let ghost calls0 = treasury.calls();
            proof {
                assert(rentals@.skip(i as int)[0] == rental);
                assert(rentals@.skip(i as int).drop_first() =~= rentals@.skip(i + 1));
            }
            if !self.can_process_due_rental(rental) {
                return false;
            }
            self.process_due_rental(treasury, rental);
            proof {
                let accepted = choose|accepted: bool|
                    self@ == process_entry(s0, rental, entry_paid(s0, rental, accepted))
                        && treasury.calls() == calls0 + #[trigger] entry_calls(s0, rental, accepted);
                assert(rentals@.take(i + 1).drop_last() =~= rentals@.take(i as int));
                assert(rentals@.take(i + 1).last() == rental);
                let before = process_run(old(self)@, rentals@.take(i as int), answers);
                let old_answers = answers;
                answers = answers.push(accepted);
                assert(answers.drop_last() =~= old_answers);
                assert(treasury.calls() =~= old(treasury).calls() + (before.1 + entry_calls(
                    s0,
                    rental,
                    accepted,
                )));
                if entries_can_run(old(self)@, old(self)@.pending_at(n)) {
                    if entry_paid(s0, rental, accepted) {
                        assert(entries_can_run(self@, rentals@.skip(i + 1)));
                    } else {
                        assert(entries_can_run(self@, rentals@.skip(i + 1)));
                    }
                }
            }
            i = i + 1;
        }
        assert(rentals@.take(rentals@.len() as int) =~= rentals@);
        let ghost before = self@;
        let _ = self.take_pending(n);
        proof {
            assert(self@ == clear_pending(before, n));
        }
        true
    }

    /// At the start of block `n`, processes the rentals due then; each rental
    /// that goes on is paid through the currency.
    pub fn on_initialize<C: Currency>(&mut self, treasury: &mut Treasury<C>, n: BlockNumber)
        requires
            entries_can_run(old(self)@, old(self)@.pending_at(n)),
        ensures
            exists|answers: Seq<bool>|
                answers.len() == old(self)@.pending_at(n).len() && final(self)@ == clear_pending(
                    (#[trigger] process_run(old(self)@, old(self)@.pending_at(n), answers)).0,
                    n,
                ) && final(treasury).calls() == old(treasury).calls() + process_run(
                    old(self)@,
                    old(self)@.pending_at(n),
                    answers,
                ).1,
            old(self)@.wf() ==> final(self)@.wf(),
    {
        self.process_rental_periods(treasury, n);
    }
}


/// The state that scheduling looks at: the pallet's, or, where `dropped` is
/// `Some((due, id))`, the pallet's once the rentals of `id` due at `due` are
/// dropped, as an extension does before it schedules anew.
spec fn scheduling_state(s: NftState, dropped: Option<(BlockNumber, CollectibleId)>) -> NftState {
    match dropped {
        Some(d) => extend_unscheduled(s, d.1, d.0),
        None => s,
    }
}

/// What a runtime tests before a call whose contract asks something of the
/// state: the calls are made only where the test passes.
impl Pallet {
    /// The number of rentals due at `block` in the scheduling state.
    fn pending_len_without(&self, block: BlockNumber, dropped: Option<(BlockNumber, CollectibleId)>) -> (r:
        usize)
        ensures
            r == scheduling_state(self@, dropped).pending_at(block).len(),
    {
        match dropped {
            Some(d) => {
                if block == d.0 {
                    match self.pending_rentals.get(&block) {
                        Some(v) => vec_entries_without_id(v, &d.1).len(),
                        None => 0,
                    }
                } else {
                    self.pending_len(block)
                }
            },
            None => self.pending_len(block),
        }
    }

    /// Whether some block from `start + additional` on has room in the
    /// scheduling state.
    fn can_schedule_without(
        &self,
        start: BlockNumber,
        additional: u32,
        dropped: Option<(BlockNumber, CollectibleId)>,
    ) -> (b: bool)
        ensures
            b == scheduling_state(self@, dropped).can_schedule(start, additional),
    {
        let max = self.config.maximum_rentables_per_block as usize;
        if start > BlockNumber::MAX - additional as u64 {
            return false;
        }
        let mut block = start + additional as u64;
        let ghost st = scheduling_state(self@, dropped);
        let ghost target = st.free_block_from(block);
        proof {
            st.lemma_free_block_from(block);
        }
        while block < BlockNumber::MAX && self.pending_len_without(block, dropped) >= max
            invariant
                st == scheduling_state(self@, dropped),
                max == st.config.maximum_rentables_per_block,
                block <= target,
                st.free_block_from(block) == target,
            decreases BlockNumber::MAX - block,
        {
            proof {
                st.lemma_free_block_from((block + 1) as BlockNumber);
            }
            block = block + 1;
        }
        self.pending_len_without(block, dropped) < max
    }

    /// Whether `sender` may rent `unique_id` for `blocks` blocks.
    fn check_rent(&self, sender: AccountId, unique_id: CollectibleId, blocks: u32) -> (r: Result<
        (),
        Error,
    >)
        ensures
            r == rent_check(self@, sender, unique_id, blocks),
    {
        let collectible = match self.fetch_collectible(unique_id) {
            Ok(c) => c,
            Err(e) => return Err(e),
        };
        if let Some(minimum_rental_period) = collectible.minimum_rental_period {
            if blocks < minimum_rental_period {
                return Err(Error::RentalPeriodTooShort);
            }
        }
        if let Some(maximum_rental_period) = collectible.maximum_rental_period {
            if blocks > maximum_rental_period {
                return Err(Error::RentalPeriodTooLong);
            }
        }
        if collectible.lessor == sender {
            return Err(Error::CannotRentOwnCollectible);
        }
        if collectible.lessee == Some(sender) {
            return Err(Error::AlreadyRented);
        }
        if collectible.lessee.is_some() || !collectible.rentable {
            return Err(Error::RentNotAvailable);
        }
        Ok(())
    }

    /// Whether renting `unique_id` to `sender` for `blocks` blocks can run:
    /// where the checks pass, the collectible has a price, the rent fits in a
    /// balance, and some block from `blocks` blocks on has room.
    pub fn can_rent(&self, sender: AccountId, unique_id: CollectibleId, blocks: u32) -> (b: bool)
        ensures
            b == rent_can_run(self@, sender, unique_id, blocks),
    {
        if self.check_rent(sender, unique_id, blocks).is_err() {
            return true;
        }
        let collectible = *self.collectible_map.get(&unique_id).unwrap();
        match collectible.price_per_block {
            None => false,
            Some(price) => match price.checked_mul(blocks as u64) {
                None => false,
                Some(_) => self.can_schedule_without(self.block_number, blocks, None),
            },
        }
    }

    /// Whether extending the rental of `unique_id` by `sender` by `blocks`
    /// blocks can run: where the checks pass, the due block plus `blocks` fits
    /// in a block number, and some block from one period after it on has room
    /// once the rental left its due block.
    pub fn can_extend_rent(&self, sender: AccountId, unique_id: CollectibleId, blocks: BlockNumber) -> (b:
        bool)
        ensures
            b == extend_can_run(self@, sender, unique_id, blocks),
    {
        let collectible = match self.collectible_map.get(&unique_id) {
            Some(c) => *c,
            None => return true,
        };
        if collectible.lessee != Some(sender) {
            return true;
        }
        let rental = match self.lessee_collectibles_double_map.get(&(sender, unique_id)) {
            Some(r) => *r,
            None => return true,
        };
        if blocks > BlockNumber::MAX - rental.next_rent_block {
            return false;
        }
        self.can_schedule_without(
            rental.next_rent_block + blocks,
            rental.rental_periodic_interval,
            Some((rental.next_rent_block, unique_id)),
        )
    }

    /// Whether processing the due rental `rental` can run, whatever becomes
    /// of its payment: its terms and collectible are stored, and where it goes
    /// on, the price of a period fits in a balance and some block from one
    /// period on has room.
    pub fn can_process_due_rental(&self, rental: (CollectibleId, AccountId)) -> (b: bool)
        ensures
            b == entry_can_run(self@, rental, true),
            b ==> entry_can_run(self@, rental, false),
    {
        let rental_config = match self.lessee_collectibles_double_map.get(&(rental.1, rental.0)) {
            Some(r) => *r,
            None => return false,
        };
        let collectible = match self.collectible_map.get(&rental.0) {
            Some(c) => *c,
            None => return false,
        };
        if !(collectible.rentable && collectible.lessee.is_some() && rental_config.recurring) {
            return true;
        }
        match collectible.price_per_block {
            None => false,
            Some(price) => match price.checked_mul(rental_config.rental_periodic_interval as u64) {
                None => false,
                Some(_) => self.can_schedule_without(
                    self.block_number,
                    rental_config.rental_periodic_interval,
                    None,
                ),
            },
        }
    }

    /// Processes the rentals due at block `n` as `on_initialize` does, where
    /// each can run; returns `false` where one cannot, as described for the
    /// processing, which never happens where `on_initialize` may be called.
    pub fn on_initialize_checked<C: Currency>(&mut self, treasury: &mut Treasury<C>, n: BlockNumber) -> (ok:
        bool)
        ensures
            entries_can_run(old(self)@, old(self)@.pending_at(n)) ==> ok,
            ok ==> exists|answers: Seq<bool>|
                answers.len() == old(self)@.pending_at(n).len() && final(self)@ == clear_pending(
                    (#[trigger] process_run(old(self)@, old(self)@.pending_at(n), answers)).0,
                    n,
                ) && final(treasury).calls() == old(treasury).calls() + process_run(
                    old(self)@,
                    old(self)@.pending_at(n),
                    answers,
                ).1,
            !ok ==> exists|k: int, answers: Seq<bool>|
                0 <= k < old(self)@.pending_at(n).len() && answers.len() == k && final(self)@ == (
                #[trigger] process_run(old(self)@, old(self)@.pending_at(n).take(k), answers)).0
                    && final(treasury).calls() == old(treasury).calls() + process_run(
                    old(self)@,
                    old(self)@.pending_at(n).take(k),
                    answers,
                ).1 && !entry_can_run(final(self)@, old(self)@.pending_at(n)[k], true),
            old(self)@.wf() ==> final(self)@.wf(),
    {
        self.process_rental_periods(treasury, n)
    }
}


/// Reading and writing the storage directly, as the runtime and its tests do.
impl Pallet {
    /// The constants the pallet was configured with.
    pub fn config(&self) -> (c: Config)
        ensures
            c == self@.config,
    {
        self.config
    }

    /// The current block number.
    pub fn block_number(&self) -> (b: BlockNumber)
        ensures
            b == self@.block_number,
    {
        self.block_number
    }

    /// Moves on to block `n`.
    pub fn set_block_number(&mut self, n: BlockNumber)
        ensures
            final(self)@ == (NftState { block_number: n, ..old(self)@ }),
            old(self)@.wf() ==> final(self)@.wf(),
    {
        self.block_number = n;
        assert(self@ =~= NftState { block_number: n, ..old(self)@ });
    }

    /// The events deposited so far, oldest first.
    pub fn events(&self) -> (e: &Vec<Event>)
        ensures
            e@ == self@.events,
    {
        &self.events
    }

    /// The collectible stored under `unique_id`.
    pub fn collectible_map_get(&self, unique_id: CollectibleId) -> (r: Option<Collectible>)
        ensures
            r == (if self@.collectible_map.contains_key(unique_id) {
                Some(self@.collectible_map[unique_id])
            } else {
                None
            }),
    {
        match self.collectible_map.get(&unique_id) {
            Some(c) => Some(*c),
            None => None,
        }
    }

    /// Whether a collectible is stored under `unique_id`.
    pub fn collectible_map_contains_key(&self, unique_id: CollectibleId) -> (r: bool)
        ensures
            r == self@.collectible_map.contains_key(unique_id),
    {
        self.collectible_map.contains_key(&unique_id)
    }

    /// Stores `collectible` under its identifier.
    pub fn collectible_map_insert(&mut self, collectible: Collectible)
        ensures
            final(self)@ == (NftState {
                collectible_map: old(self)@.collectible_map.insert(collectible.unique_id, collectible),
                ..old(self)@
            }),
            old(self)@.wf() ==> final(self)@.wf(),
    {
        self.put_collectible(collectible.unique_id, collectible);
    }

    /// The terms of the rental of `unique_id` by `lessee`.
    pub fn lessee_collectibles_double_map_get(&self, lessee: AccountId, unique_id: CollectibleId) -> (r:
        Option<RentalPeriodConfig>)
        ensures
            r == (if self@.lessee_collectibles.contains_key((lessee, unique_id)) {
                Some(self@.lessee_collectibles[(lessee, unique_id)])
            } else {
                None
            }),
    {
        match self.lessee_collectibles_double_map.get(&(lessee, unique_id)) {
            Some(r) => Some(*r),
            None => None,
        }
    }

    /// Stores `rental` as the terms of the rental of `unique_id` by `lessee`.
    pub fn lessee_collectibles_double_map_insert(
        &mut self,
        lessee: AccountId,
        unique_id: CollectibleId,
        rental: RentalPeriodConfig,
    )
        ensures
            final(self)@ == (NftState {
                lessee_collectibles: old(self)@.lessee_collectibles.insert((lessee, unique_id), rental),
                ..old(self)@
            }),
            old(self)@.wf() ==> final(self)@.wf(),
    {
        self.put_rental(lessee, unique_id, rental);
    }

    /// The rentals due at `block`.
    pub fn pending_rentals_get(&self, block: BlockNumber) -> (r: Vec<(CollectibleId, AccountId)>)
        ensures
            r@ == self@.pending_at(block),
    {
        match self.pending_rentals.get(&block) {
            Some(v) => copy_entries(v),
            None => Vec::new(),
        }
    }

    /// Appends `rental` to the rentals due at `block`, unless that block is full.
    pub fn pending_rentals_try_append(&mut self, block: BlockNumber, rental: (CollectibleId, AccountId)) -> (r:
        Result<(), ()>)
        ensures
            old(self)@.pending_at(block).len() < old(self)@.config.maximum_rentables_per_block
                ==> r is Ok && final(self)@ == (NftState {
                pending_rentals: old(self)@.pending_rentals.insert(
                    block,
                    old(self)@.pending_at(block).push(rental),
                ),
                ..old(self)@
            }),
            old(self)@.pending_at(block).len() >= old(self)@.config.maximum_rentables_per_block
                ==> r is Err && final(self)@ == old(self)@,
            old(self)@.wf() ==> final(self)@.wf(),
    {
        if self.pending_len(block) >= self.config.maximum_rentables_per_block as usize {
            return Err(());
        }
        let ghost s0 = self@;
        let mut pending = self.take_pending(block);
        pending.push(rental);
        self.put_pending(block, pending);
        proof {
            lemma_remove_insert(s0.pending_rentals, block, pending@);
        }
        Ok(())
    }

    /// The collectibles that `account` has equipped, if it has a list.
    pub fn account_equips_map_get(&self, account: AccountId) -> (r: Option<Vec<CollectibleId>>)
        ensures
            match r {
                Some(v) => self@.account_equips.contains_key(account) && v@
                    == self@.account_equips[account],
                None => !self@.account_equips.contains_key(account),
            },
    {
        match self.account_equips_map.get(&account) {
            Some(v) => Some(copy_ids(v)),
            None => None,
        }
    }
}

} // verus!
