//! The rent pallet's storage and calls.
use vstd::prelude::*;

use crate::collectible_id::{gen_collectible_id, generated_id};
use crate::currency::{payment_calls, payment_made, Currency, CurrencyCall, Treasury};
use crate::filters::{
    copy_entries, copy_ids, lemma_entries_without_id_len, lemma_without_id_len,
    vec_entries_without_id, vec_without_id,
};
use crate::rent::laws::{
    law_burn_keeps_owners_listed, law_mint_keeps_owners_listed, law_other_calls_keep_owners_listed,
    law_processing_keeps_owners_listed, law_rent_keeps_owners_listed,
    law_set_recurring_keeps_owners_listed, law_set_rentable_keeps_owners_listed,
    law_set_unrentable_keeps_owners_listed, lemma_owners_listed_frame,
};
use crate::rent::model::{
    burn_outcome, clear_pending, entries_can_run, entry_can_run, equip_outcome, extend_can_run,
    extend_check, extend_effect, extend_ready, extend_unscheduled, fetch, lessee_check,
    entry_calls, entry_paid, extend_price, mint_outcome,
    payment_result, process_entry, process_run, rent_can_run, rent_check, rent_effect, rent_price,
    set_recurring_outcome, set_rentable_outcome, set_unrentable_outcome, unequip_outcome,
    RentState,
};
use crate::rent::types::{Collectible, Config, DispatchError, Error, Event, RentalPeriodConfig};
use crate::storage::{lemma_lists_insert, lemma_lists_remove, lemma_remove_insert, lists, StorageMap};
use crate::types::{AccountId, Balance, BlockNumber, CollectibleId, RandomSeed};
use crate::utils::convert_to_primitive;

verus! {

/// The rent pallet: its storage, with the block number and the events of the
/// block that the runtime keeps beside it.
pub struct Pallet {
    config: Config,
    block_number: BlockNumber,
    collectibles: StorageMap<CollectibleId, Collectible>,
    lessor_collectibles: StorageMap<AccountId, Vec<CollectibleId>>,
    lessee_collectibles: StorageMap<(AccountId, CollectibleId), RentalPeriodConfig>,
    rentable_collectibles: Vec<CollectibleId>,
    pending_rentals: StorageMap<BlockNumber, Vec<(CollectibleId, AccountId)>>,
    account_equips: StorageMap<AccountId, Vec<CollectibleId>>,
    events: Vec<Event>,
}

impl View for Pallet {
    type V = RentState;

    closed spec fn view(&self) -> RentState {
        RentState {
            config: self.config,
            block_number: self.block_number,
            collectibles: self.collectibles@,
            lessor_collectibles: lists(self.lessor_collectibles@),
            lessee_collectibles: self.lessee_collectibles@,
            rentable_collectibles: self.rentable_collectibles@,
            pending_rentals: lists(self.pending_rentals@),
            account_equips: lists(self.account_equips@),
            events: self.events@,
        }
    }
}

impl Pallet {
    /// A pallet with empty storage at block 0.
    pub fn new(config: Config) -> (p: Self)
        ensures
            p@ == (RentState {
                config,
                block_number: 0,
                collectibles: Map::empty(),
                lessor_collectibles: Map::empty(),
                lessee_collectibles: Map::empty(),
                rentable_collectibles: Seq::empty(),
                pending_rentals: Map::empty(),
                account_equips: Map::empty(),
                events: Seq::empty(),
            }),
            p@.wf(),
            p@.owners_listed(),
    {
        let p = Pallet {
            config,
            block_number: 0,
            collectibles: StorageMap::new(),
            lessor_collectibles: StorageMap::new(),
            lessee_collectibles: StorageMap::new(),
            rentable_collectibles: Vec::new(),
            pending_rentals: StorageMap::new(),
            account_equips: StorageMap::new(),
            events: Vec::new(),
        };
        assert(lists(p.lessor_collectibles@) =~= Map::empty());
        assert(lists(p.pending_rentals@) =~= Map::empty());
        assert(lists(p.account_equips@) =~= Map::empty());
        p
    }

    fn deposit_event(&mut self, event: Event)
        ensures
            final(self)@ == old(self)@.deposit(event),
    {
        self.events.push(event);
        assert(self@ =~= old(self)@.deposit(event));
    }

    fn fetch_collectible(&self, collectible_id: CollectibleId) -> (r: Result<Collectible, Error>)
        ensures
            r == fetch(self@, collectible_id),
    {
        match self.collectibles.get(&collectible_id) {
            Some(c) => Ok(*c),
            None => Err(Error::NoCollectible),
        }
    }

    fn ensure_user_is_lessee(user: AccountId, collectible: &Collectible) -> (r: Result<(), Error>)
        ensures
            r == lessee_check(*collectible, user),
    {
        match collectible.lessee {
            None => Err(Error::NoLessee),
            Some(l) => if l != user {
                Err(Error::NotLessee)
            } else {
                Ok(())
            },
        }
    }

    fn ensure_user_is_lessor(user: AccountId, collectible: &Collectible) -> (r: Result<(), Error>)
        ensures
            r == (if collectible.lessor != user {
                Err(Error::NotLessor)
            } else {
                Ok(())
            }),
    {
        if collectible.lessor != user {
            return Err(Error::NotLessor);
        }
        Ok(())
    }

    fn owned_len(&self, account: AccountId) -> (r: usize)
        ensures
            r == self@.owned_by(account).len(),
    {
        match self.lessor_collectibles.get(&account) {
            Some(v) => v.len(),
            None => 0,
        }
    }

    fn equipped_len(&self, account: AccountId) -> (r: usize)
        ensures
            r == self@.equipped_by(account).len(),
    {
        match self.account_equips.get(&account) {
            Some(v) => v.len(),
            None => 0,
        }
    }

    fn pending_len(&self, block: BlockNumber) -> (r: usize)
        ensures
            r == self@.pending_at(block).len(),
    {
        match self.pending_rentals.get(&block) {
            Some(v) => v.len(),
            None => 0,
        }
    }

    fn unequip_collectible_from_account(&mut self, account: AccountId, collectible_id: CollectibleId)
        ensures
            final(self)@ == old(self)@.unequip(account, collectible_id),
    {
        let equiped = match self.account_equips.remove(&account) {
            Some(v) => v,
            None => Vec::new(),
        };
        proof {
            lemma_lists_remove(old(self).account_equips@, account);
        }
        let initial_size = equiped.len();
        let kept = vec_without_id(&equiped, &collectible_id);
        let kept_size = kept.len();
        let ghost mid = self.account_equips@;
        self.account_equips.insert(account, kept);
        proof {
            lemma_lists_insert(mid, account, kept);
            assert(self@ =~= RentState {
                account_equips: old(self)@.account_equips.insert(account, kept@),
                ..old(self)@
            });
        }
        if initial_size != kept_size {
            self.deposit_event(Event::CollectibleUnequipped { account, collectible: collectible_id });
        }
    }
}


impl Pallet {
    /// Takes out the list of collectibles that `account` owns.
    fn take_owned(&mut self, account: AccountId) -> (v: Vec<CollectibleId>)
        ensures
            v@ == old(self)@.owned_by(account),
            final(self)@ == (RentState {
                lessor_collectibles: old(self)@.lessor_collectibles.remove(account),
                ..old(self)@
            }),
    {
        let v = match self.lessor_collectibles.remove(&account) {
            Some(v) => v,
            None => Vec::new(),
        };
        proof {
            lemma_lists_remove(old(self).lessor_collectibles@, account);
            assert(self@ =~= RentState {
                lessor_collectibles: old(self)@.lessor_collectibles.remove(account),
                ..old(self)@
            });
        }
        v
    }

    /// Stores `v` as the list of collectibles that `account` owns.
    fn put_owned(&mut self, account: AccountId, v: Vec<CollectibleId>)
        ensures
            final(self)@ == (RentState {
                lessor_collectibles: old(self)@.lessor_collectibles.insert(account, v@),
                ..old(self)@
            }),
    {
        let ghost before = self.lessor_collectibles@;
        self.lessor_collectibles.insert(account, v);
        proof {
            lemma_lists_insert(before, account, v);
            assert(self@ =~= RentState {
                lessor_collectibles: old(self)@.lessor_collectibles.insert(account, v@),
                ..old(self)@
            });
        }
    }

    /// Takes out the list of collectibles that `account` has equipped.
    fn take_equipped(&mut self, account: AccountId) -> (v: Vec<CollectibleId>)
        ensures
            v@ == old(self)@.equipped_by(account),
            final(self)@ == (RentState {
                account_equips: old(self)@.account_equips.remove(account),
                ..old(self)@
            }),
    {
        let v = match self.account_equips.remove(&account) {
            Some(v) => v,
            None => Vec::new(),
        };
        proof {
            lemma_lists_remove(old(self).account_equips@, account);
            assert(self@ =~= RentState {
                account_equips: old(self)@.account_equips.remove(account),
                ..old(self)@
            });
        }
        v
    }

    /// Stores `v` as the list of collectibles that `account` has equipped.
    fn put_equipped(&mut self, account: AccountId, v: Vec<CollectibleId>)
        ensures
            final(self)@ == (RentState {
                account_equips: old(self)@.account_equips.insert(account, v@),
                ..old(self)@
            }),
    {
        let ghost before = self.account_equips@;
        self.account_equips.insert(account, v);
        proof {
            lemma_lists_insert(before, account, v);
            assert(self@ =~= RentState {
                account_equips: old(self)@.account_equips.insert(account, v@),
                ..old(self)@
            });
        }
    }

    /// Takes out the list of rentals due at `block`.
    fn take_pending(&mut self, block: BlockNumber) -> (v: Vec<(CollectibleId, AccountId)>)
        ensures
            v@ == old(self)@.pending_at(block),
            final(self)@ == (RentState {
                pending_rentals: old(self)@.pending_rentals.remove(block),
                ..old(self)@
            }),
    {
        let v = match self.pending_rentals.remove(&block) {
            Some(v) => v,
            None => Vec::new(),
        };
        proof {
            lemma_lists_remove(old(self).pending_rentals@, block);
            assert(self@ =~= RentState {
                pending_rentals: old(self)@.pending_rentals.remove(block),
                ..old(self)@
            });
        }
        v
    }

    /// Stores `v` as the list of rentals due at `block`.
    fn put_pending(&mut self, block: BlockNumber, v: Vec<(CollectibleId, AccountId)>)
        ensures
            final(self)@ == (RentState {
                pending_rentals: old(self)@.pending_rentals.insert(block, v@),
                ..old(self)@
            }),
    {
        let ghost before = self.pending_rentals@;
        self.pending_rentals.insert(block, v);
        proof {
            lemma_lists_insert(before, block, v);
            assert(self@ =~= RentState {
                pending_rentals: old(self)@.pending_rentals.insert(block, v@),
                ..old(self)@
            });
        }
    }

    /// Stores `c` under `collectible_id`.
    fn put_collectible(&mut self, collectible_id: CollectibleId, c: Collectible)
        ensures
            final(self)@ == (RentState {
                collectibles: old(self)@.collectibles.insert(collectible_id, c),
                ..old(self)@
            }),
    {
        self.collectibles.insert(collectible_id, c);
        assert(self@ =~= RentState {
            collectibles: old(self)@.collectibles.insert(collectible_id, c),
            ..old(self)@
        });
    }

    /// Stores `rental` as the terms of the rental of `collectible_id` by `lessee`.
    fn put_rental(&mut self, lessee: AccountId, collectible_id: CollectibleId, rental: RentalPeriodConfig)
        ensures
            final(self)@ == (RentState {
                lessee_collectibles: old(self)@.lessee_collectibles.insert(
                    (lessee, collectible_id),
                    rental,
                ),
                ..old(self)@
            }),
    {
        self.lessee_collectibles.insert((lessee, collectible_id), rental);
        assert(self@ =~= RentState {
            lessee_collectibles: old(self)@.lessee_collectibles.insert((lessee, collectible_id), rental),
            ..old(self)@
        });
    }

    /// Schedules the rental of `collectible_id` by `lessee` to fall due at the
    /// first block that has room, from `additional_rental_blocks` blocks after
    /// `starting_block_number` (the current block where it is `None`) on.
    /// Returns the block.
    fn append_pending_rental_to_available_block(
        &mut self,
        starting_block_number: Option<BlockNumber>,
        additional_rental_blocks: u32,
        collectible_id: CollectibleId,
        lessee: AccountId,
    ) -> (r: Result<BlockNumber, DispatchError>)
        requires
            old(self)@.can_schedule(
                match starting_block_number {
                    Some(b) => b,
                    None => old(self)@.block_number,
                },
                additional_rental_blocks,
            ),
        ensures
            ({
                let start = match starting_block_number {
                    Some(b) => b,
                    None => old(self)@.block_number,
                };
                &&& r == Ok::<BlockNumber, DispatchError>(old(self)@.due_block(start, additional_rental_blocks))
                &&& final(self)@ == old(self)@.schedule(start, additional_rental_blocks, collectible_id, lessee)
            }),
    {
        let starting_block_number = match starting_block_number {
            Some(block_number) => block_number,
            None => self.block_number,
        };
        let mut block_number = starting_block_number + additional_rental_blocks as u64;
        let ghost target = self@.free_block_from(block_number);
        proof {
            self@.lemma_free_block_from(block_number);
        }
        // while the block is full, try the one after it
        while self.pending_len(block_number) >= self.config.maximum_rentables_per_block as usize
            invariant
                self@ == old(self)@,
                block_number <= target,
                self@.free_block_from(block_number) == target,
                self@.has_room(target),
            decreases target - block_number,
        {
            block_number = block_number + 1;
        }
        let ghost s0 = self@;
        let mut rental_periods = self.take_pending(block_number);
        rental_periods.push((collectible_id, lessee));
        self.put_pending(block_number, rental_periods);
        proof {
            lemma_remove_insert(s0.pending_rentals, block_number, rental_periods@);
            assert(self@ =~= RentState {
                pending_rentals: s0.pending_rentals.insert(block_number, s0.pending_at(block_number).push((collectible_id, lessee))),
                ..s0
            });
        }
        self.deposit_event(Event::RentalPeriodAdded { collectible: collectible_id, next_rent_block: block_number });
        Ok(block_number)
    }

    /// The rental of `collectible` by `lessee` ends: its terms are dropped, the
    /// collectible has no lessee, and the lessee no longer has it equipped.
    fn remove_lessee_from_collectible(&mut self, lessee: AccountId, collectible: &mut Collectible) -> (r: Result<(), DispatchError>)
        ensures
            r is Ok,
            *final(collectible) == (Collectible { lessee: None, ..*old(collectible) }),
            final(self)@ == old(self)@.remove_lessee(lessee, *old(collectible)),
    {
        let collectible_id = collectible.collectible_id;
        self.lessee_collectibles.remove(&(lessee, collectible_id));
        assert(self@ =~= RentState {
            lessee_collectibles: old(self)@.lessee_collectibles.remove((lessee, collectible_id)),
            ..old(self)@
        });
        collectible.lessee = None;
        self.put_collectible(collectible_id, *collectible);
        self.unequip_collectible_from_account(lessee, collectible_id);
        Ok(())
    }

    /// Whether a free balance of `free_balance` covers a payment of `amount`.
    fn ensure_balance_covers(free_balance: Balance, amount: Balance) -> (r: Result<(), DispatchError>)
        ensures
            r == (if free_balance < amount {
                Err::<(), DispatchError>(DispatchError::Module(Error::NotEnoughBalance))
            } else {
                Ok::<(), DispatchError>(())
            }),
    {
        if free_balance < amount {
            return Err(DispatchError::Module(Error::NotEnoughBalance));
        }
        Ok(())
    }

    /// Pays `amount` from `from` to `to` where the free balance of `from`
    /// covers it: the currency is asked for that balance, then, where it
    /// covers the amount, for the transfer.
    fn transfer_funds<C: Currency>(
        treasury: &mut Treasury<C>,
        from: AccountId,
        to: AccountId,
        amount: Balance,
    ) -> (r: Result<(), DispatchError>)
        ensures
            exists|balance: Balance, accepted: bool|
                final(treasury).calls() == old(treasury).calls() + #[trigger] payment_calls(
                    from,
                    to,
                    amount,
                    balance,
                    accepted,
                ) && r == payment_result(amount, balance, accepted),
    {
        let balance = treasury.free_balance(from);
        match Self::ensure_balance_covers(balance, amount) {
            Ok(()) => {},
            Err(e) => {
                proof {
                    assert(treasury.calls() =~= old(treasury).calls() + payment_calls(
                        from,
                        to,
                        amount,
                        balance,
                        false,
                    ));
                }
                return Err(e);
            },
        }
        let transferred = treasury.transfer(from, to, amount);
        proof {
            assert(treasury.calls() =~= old(treasury).calls() + payment_calls(
                from,
                to,
                amount,
                balance,
                transferred is Ok,
            ));
        }
        match transferred {
            Ok(()) => Ok(()),
            Err(e) => Err(DispatchError::Transfer(e)),
        }
    }
}


impl Pallet {
    /// Mints the collectible `collectible_id` for `lessor`.
    pub fn do_mint(&mut self, lessor: AccountId, collectible_id: CollectibleId) -> (r: Result<
        CollectibleId,
        DispatchError,
    >)
        ensures
            match mint_outcome(old(self)@, lessor, collectible_id) {
                Ok(s) => r == Ok::<CollectibleId, DispatchError>(collectible_id) && final(self)@ == s,
                Err(e) => r == Err::<CollectibleId, DispatchError>(DispatchError::Module(e))
                    && final(self)@ == old(self)@,
            },
            old(self)@.wf() ==> final(self)@.wf(),
            old(self)@.wf() && old(self)@.owners_listed() ==> final(self)@.owners_listed(),
    {
        proof {
            law_mint_keeps_owners_listed(self@, lessor, collectible_id);
        }
        let collectible = Collectible {
            collectible_id,
            price_per_block: None,
            lessor,
            lessee: None,
            rentable: false,
            minimum_rental_period: None,
            maximum_rental_period: None,
        };
        if self.collectibles.contains_key(&collectible_id) {
            return Err(DispatchError::Module(Error::DuplicateCollectible));
        }
        if self.owned_len(lessor) >= self.config.maximum_owned as usize {
            return Err(DispatchError::Module(Error::TooManyCollectiblesOwned));
        }
        self.put_collectible(collectible_id, collectible);
        let ghost s1 = self@;
        let mut lessor_collectibles = self.take_owned(lessor);
        lessor_collectibles.push(collectible_id);
        self.put_owned(lessor, lessor_collectibles);
        proof {
            lemma_remove_insert(s1.lessor_collectibles, lessor, lessor_collectibles@);
        }
        self.deposit_event(
            Event::CollectibleCreated { collectible: collectible_id, lessor, current_lessee: None },
        );
        Ok(collectible_id)
    }

    /// Mints a collectible for `sender`, with the identifier drawn from
    /// `random` (the runtime's randomness) and the index of the extrinsic in
    /// the current block.
    pub fn mint(&mut self, sender: AccountId, random: RandomSeed, extrinsic_index: Option<u32>) -> (r:
        Result<(), DispatchError>)
        ensures
            match mint_outcome(
                old(self)@,
                sender,
                generated_id(random, extrinsic_index, old(self)@.block_number),
            ) {
                Ok(s) => r == Ok::<(), DispatchError>(()) && final(self)@ == s,
                Err(e) => r == Err::<(), DispatchError>(DispatchError::Module(e)) && final(self)@
                    == old(self)@,
            },
            old(self)@.wf() ==> final(self)@.wf(),
            old(self)@.wf() && old(self)@.owners_listed() ==> final(self)@.owners_listed(),
    {
        let collectible_gen_collectible_id = gen_collectible_id(
            random,
            extrinsic_index,
            self.block_number,
        );
        match self.do_mint(sender, collectible_gen_collectible_id) {
            Ok(_) => Ok(()),
            Err(e) => Err(e),
        }
    }

    /// Burns `collectible_id`: only its lessor can, and only while nobody rents it.
    pub fn burn(&mut self, sender: AccountId, collectible_id: CollectibleId) -> (r: Result<
        (),
        DispatchError,
    >)
        ensures
            match burn_outcome(old(self)@, sender, collectible_id) {
                Ok(s) => r == Ok::<(), DispatchError>(()) && final(self)@ == s,
                Err(e) => r == Err::<(), DispatchError>(DispatchError::Module(e)) && final(self)@
                    == old(self)@,
            },
            old(self)@.wf() ==> final(self)@.wf(),
            old(self)@.wf() && old(self)@.owners_listed() ==> final(self)@.owners_listed(),
    {
        proof {
            law_burn_keeps_owners_listed(self@, sender, collectible_id);
        }
        let collectible = match self.fetch_collectible(collectible_id) {
            Ok(c) => c,
            Err(e) => return Err(DispatchError::Module(e)),
        };
        match Self::ensure_user_is_lessor(sender, &collectible) {
            Ok(()) => {},
            Err(e) => return Err(DispatchError::Module(e)),
        }
        if collectible.lessee.is_some() {
            return Err(DispatchError::Module(Error::NotAllowedWhileRented));
        }
        self.collectibles.remove(&collectible_id);
        assert(self@ =~= RentState {
            collectibles: old(self)@.collectibles.remove(collectible_id),
            ..old(self)@
        });
        let ghost s1 = self@;
        let lessor_collectibles = self.take_owned(sender);
        let kept = vec_without_id(&lessor_collectibles, &collectible_id);
        self.put_owned(sender, kept);
        proof {
            lemma_remove_insert(s1.lessor_collectibles, sender, kept@);
            lemma_without_id_len(lessor_collectibles@, collectible_id);
        }
        self.unequip_collectible_from_account(sender, collectible.collectible_id);
        proof {
            lemma_without_id_len(s1.unequip(sender, collectible.collectible_id).equipped_by(sender), collectible.collectible_id);
            lemma_without_id_len(s1.equipped_by(sender), collectible.collectible_id);
        }
        Ok(())
    }

    /// Offers `collectible_id` for rent at `price_per_block`, for periods of
    /// `minimum_rental_period` to `maximum_rental_period` blocks.
    pub fn set_rentable(
        &mut self,
        sender: AccountId,
        collectible_id: CollectibleId,
        price_per_block: Balance,
        minimum_rental_period: u32,
        maximum_rental_period: u32,
    ) -> (r: Result<(), DispatchError>)
        ensures
            match set_rentable_outcome(
                old(self)@,
                sender,
                collectible_id,
                price_per_block,
                minimum_rental_period,
                maximum_rental_period,
            ) {
                Ok(s) => r == Ok::<(), DispatchError>(()) && final(self)@ == s,
                Err(e) => r == Err::<(), DispatchError>(DispatchError::Module(e)) && final(self)@
                    == old(self)@,
            },
            old(self)@.wf() ==> final(self)@.wf(),
            old(self)@.wf() && old(self)@.owners_listed() ==> final(self)@.owners_listed(),
    {
        proof {
            law_set_rentable_keeps_owners_listed(
                self@,
                sender,
                collectible_id,
                price_per_block,
                minimum_rental_period,
                maximum_rental_period,
            );
        }
        let mut collectible = match self.fetch_collectible(collectible_id) {
            Ok(c) => c,
            Err(e) => return Err(DispatchError::Module(e)),
        };
        match Self::ensure_user_is_lessor(sender, &collectible) {
            Ok(()) => {},
            Err(e) => return Err(DispatchError::Module(e)),
        }
        if minimum_rental_period > maximum_rental_period {
            return Err(DispatchError::Module(Error::MinimumMustBeLessThanMaximum));
        }
        if collectible.lessee.is_some() {
            return Err(DispatchError::Module(Error::NotAllowedWhileRented));
        }
        if self.rentable_collectibles.len() >= self.config.maximum_owned as usize {
            return Err(DispatchError::Module(Error::TooManyCollectibles));
        }
        collectible.price_per_block = Some(price_per_block);
        collectible.rentable = true;
        collectible.minimum_rental_period = Some(minimum_rental_period);
        collectible.maximum_rental_period = Some(maximum_rental_period);
        self.put_collectible(collectible_id, collectible);
        self.rentable_collectibles.push(collectible_id);
        let ghost s1 = self@;
        assert(s1 =~= RentState {
            collectibles: old(self)@.collectibles.insert(collectible_id, collectible),
            rentable_collectibles: old(self)@.rentable_collectibles.push(collectible_id),
            ..old(self)@
        });
        self.unequip_collectible_from_account(sender, collectible.collectible_id);
        proof {
            lemma_without_id_len(s1.equipped_by(sender), collectible.collectible_id);
        }
        self.deposit_event(Event::RentMadeAvailable { collectible: collectible_id, price_per_block });
        Ok(())
    }
}


impl Pallet {
    /// Rents `collectible_id` to `sender` for `blocks` blocks, recurring or not.
    ///
    /// Where the checks pass, `sender` pays the rent of `blocks` blocks to the
    /// lessor through the currency, and the rental is recorded where the
    /// payment went through. Where a check fails, nothing is asked of the
    /// currency.
    pub fn rent<C: Currency>(
        &mut self,
        treasury: &mut Treasury<C>,
        sender: AccountId,
        collectible_id: CollectibleId,
        blocks: u32,
        recurring: bool,
    ) -> (r: Result<(), DispatchError>)
        requires
            rent_can_run(old(self)@, sender, collectible_id, blocks),
        ensures
            match rent_check(old(self)@, sender, collectible_id, blocks) {
                Err(e) => r == Err::<(), DispatchError>(DispatchError::Module(e)) && final(self)@
                    == old(self)@ && final(treasury).calls() == old(treasury).calls(),
                Ok(_) => exists|balance: Balance, accepted: bool|
                    final(treasury).calls() == old(treasury).calls() + #[trigger] payment_calls(
                        sender,
                        old(self)@.collectibles[collectible_id].lessor,
                        rent_price(old(self)@.collectibles[collectible_id], blocks) as Balance,
                        balance,
                        accepted,
                    ) && r == payment_result(
                        rent_price(old(self)@.collectibles[collectible_id], blocks) as Balance,
                        balance,
                        accepted,
                    ) && final(self)@ == (if payment_made(
                        rent_price(old(self)@.collectibles[collectible_id], blocks) as Balance,
                        balance,
                        accepted,
                    ) {
                        rent_effect(old(self)@, sender, collectible_id, blocks, recurring)
                    } else {
                        old(self)@
                    }),
            },
            old(self)@.wf() ==> final(self)@.wf(),
            old(self)@.wf() && old(self)@.owners_listed() ==> final(self)@.owners_listed(),
    {
        let collectible = match self.fetch_collectible(collectible_id) {
            Ok(c) => c,
            Err(e) => return Err(DispatchError::Module(e)),
        };
        if let Some(minimum_rental_period) = collectible.minimum_rental_period {
            if blocks < minimum_rental_period {
                return Err(DispatchError::Module(Error::RentalPeriodTooShort));
            }
        }
        if let Some(maximum_rental_period) = collectible.maximum_rental_period {
            if blocks > maximum_rental_period {
                return Err(DispatchError::Module(Error::RentalPeriodTooLong));
            }
        }
        if collectible.lessor == sender {
            return Err(DispatchError::Module(Error::CannotRentOwnCollectible));
        }
        if let Some(lessee) = collectible.lessee {
            if lessee == sender {
                return Err(DispatchError::Module(Error::AlreadyRented));
            }
        }
        if collectible.lessee.is_some() || !collectible.rentable {
            return Err(DispatchError::Module(Error::RentNotAvailable));
        }
        self.do_rent_collectible(treasury, collectible_id, sender, blocks, recurring)
    }

    fn do_rent_collectible<C: Currency>(
        &mut self,
        treasury: &mut Treasury<C>,
        collectible_id: CollectibleId,
        lessee: AccountId,
        rent_periodic_interval: u32,
        recurring: bool,
    ) -> (r: Result<(), DispatchError>)
        requires
            rent_check(old(self)@, lessee, collectible_id, rent_periodic_interval) is Ok,
            rent_can_run(old(self)@, lessee, collectible_id, rent_periodic_interval),
        ensures
            exists|balance: Balance, accepted: bool|
                final(treasury).calls() == old(treasury).calls() + #[trigger] payment_calls(
                    lessee,
                    old(self)@.collectibles[collectible_id].lessor,
                    rent_price(old(self)@.collectibles[collectible_id], rent_periodic_interval)
                        as Balance,
                    balance,
                    accepted,
                ) && r == payment_result(
                    rent_price(old(self)@.collectibles[collectible_id], rent_periodic_interval)
                        as Balance,
                    balance,
                    accepted,
                ) && final(self)@ == (if payment_made(
                    rent_price(old(self)@.collectibles[collectible_id], rent_periodic_interval)
                        as Balance,
                    balance,
                    accepted,
                ) {
                    rent_effect(old(self)@, lessee, collectible_id, rent_periodic_interval, recurring)
                } else {
                    old(self)@
                }),
            old(self)@.wf() ==> final(self)@.wf(),
            old(self)@.wf() && old(self)@.owners_listed() ==> final(self)@.owners_listed(),
    {
        let collectible = *self.collectibles.get(&collectible_id).unwrap();
        let total_rent_price = collectible.price_per_block.unwrap() * rent_periodic_interval as u64;
        let payment = Self::transfer_funds(treasury, lessee, collectible.lessor, total_rent_price);
        self.settle_rent(collectible_id, lessee, rent_periodic_interval, recurring, payment)
    }

    /// Completes a rental of `collectible_id` by `lessee` once its payment
    /// was attempted: a refused payment is returned and nothing changes; a
    /// payment that went through records the rental.
    pub fn settle_rent(
        &mut self,
        collectible_id: CollectibleId,
        lessee: AccountId,
        rent_periodic_interval: u32,
        recurring: bool,
        payment: Result<(), DispatchError>,
    ) -> (r: Result<(), DispatchError>)
        requires
            rent_check(old(self)@, lessee, collectible_id, rent_periodic_interval) is Ok,
            rent_can_run(old(self)@, lessee, collectible_id, rent_periodic_interval),
        ensures
            match payment {
                Err(e) => r == Err::<(), DispatchError>(e) && final(self)@ == old(self)@,
                Ok(_) => r == Ok::<(), DispatchError>(()) && final(self)@ == rent_effect(
                    old(self)@,
                    lessee,
                    collectible_id,
                    rent_periodic_interval,
                    recurring,
                ),
            },
            old(self)@.wf() ==> final(self)@.wf(),
            old(self)@.wf() && old(self)@.owners_listed() ==> final(self)@.owners_listed(),
    {
        proof {
            law_rent_keeps_owners_listed(self@, lessee, collectible_id, rent_periodic_interval, recurring);
        }
        match payment {
            Err(e) => return Err(e),
            Ok(()) => {},
        }
        let mut collectible = *self.collectibles.get(&collectible_id).unwrap();
        let lessor = collectible.lessor;
        let total_rent_price = collectible.price_per_block.unwrap() * rent_periodic_interval as u64;
        self.deposit_event(
            Event::RentPayed { lessee, lessor, collectible: collectible_id, total_rent_price },
        );
        collectible.lessee = Some(lessee);
        let next_rent_block = match self.append_pending_rental_to_available_block(
            None,
            rent_periodic_interval,
            collectible_id,
            lessee,
        ) {
            Ok(b) => b,
            Err(e) => return Err(e),
        };
        let rental_config = RentalPeriodConfig {
            rental_periodic_interval: rent_periodic_interval,
            next_rent_block,
            recurring,
        };
        self.put_rental(lessee, collectible_id, rental_config);
        self.put_collectible(collectible_id, collectible);
        Ok(())
    }

    /// Withdraws `collectible_id` from rent; a running rental goes on.
    pub fn set_unrentable(&mut self, sender: AccountId, collectible_id: CollectibleId) -> (r: Result<
        (),
        DispatchError,
    >)
        ensures
            match set_unrentable_outcome(old(self)@, sender, collectible_id) {
                Ok(s) => r == Ok::<(), DispatchError>(()) && final(self)@ == s,
                Err(e) => r == Err::<(), DispatchError>(DispatchError::Module(e)) && final(self)@
                    == old(self)@,
            },
            old(self)@.wf() ==> final(self)@.wf(),
            old(self)@.wf() && old(self)@.owners_listed() ==> final(self)@.owners_listed(),
    {
        proof {
            law_set_unrentable_keeps_owners_listed(self@, sender, collectible_id);
        }
        let mut collectible = match self.fetch_collectible(collectible_id) {
            Ok(c) => c,
            Err(e) => return Err(DispatchError::Module(e)),
        };
        match Self::ensure_user_is_lessor(sender, &collectible) {
            Ok(()) => {},
            Err(e) => return Err(DispatchError::Module(e)),
        }
        collectible.rentable = false;
        self.put_collectible(collectible_id, collectible);
        let rentable_collectibles = vec_without_id(&self.rentable_collectibles, &collectible_id);
        proof {
            lemma_without_id_len(self.rentable_collectibles@, collectible_id);
        }
        self.rentable_collectibles = rentable_collectibles;
        self.deposit_event(Event::RentMadeUnavailable { collectible: collectible_id });
        Ok(())
    }

    /// Makes the rental of `collectible_id` by `sender` recurring or not.
    pub fn set_recurring(&mut self, sender: AccountId, collectible_id: CollectibleId, recurring: bool) -> (r:
        Result<(), DispatchError>)
        ensures
            match set_recurring_outcome(old(self)@, sender, collectible_id, recurring) {
                Ok(s) => r == Ok::<(), DispatchError>(()) && final(self)@ == s,
                Err(e) => r == Err::<(), DispatchError>(DispatchError::Module(e)) && final(self)@
                    == old(self)@,
            },
            old(self)@.wf() ==> final(self)@.wf(),
            old(self)@.wf() && old(self)@.owners_listed() ==> final(self)@.owners_listed(),
    {
        proof {
            law_set_recurring_keeps_owners_listed(self@, sender, collectible_id, recurring);
        }
        let collectible = match self.fetch_collectible(collectible_id) {
            Ok(c) => c,
            Err(e) => return Err(DispatchError::Module(e)),
        };
        match Self::ensure_user_is_lessee(sender, &collectible) {
            Ok(()) => {},
            Err(e) => return Err(DispatchError::Module(e)),
        }
        let mut lessee_rental = match self.lessee_collectibles.get(&(sender, collectible_id)) {
            Some(r) => *r,
            None => return Err(DispatchError::Module(Error::NoCollectible)),
        };
        lessee_rental.recurring = recurring;
        self.put_rental(sender, collectible_id, lessee_rental);
        self.put_collectible(collectible_id, collectible);
        self.deposit_event(Event::RentalSetRecurring { collectible: collectible_id, recurring });
        Ok(())
    }
}


impl Pallet {
    /// Extends the rental of `collectible_id` by `sender` by `blocks` blocks.
    ///
    /// Where the checks pass, `sender` pays the price of `blocks` blocks to
    /// the lessor through the currency, and the rental is moved where the
    /// payment went through. Where a check fails, nothing is asked of the
    /// currency.
    pub fn extend_rent<C: Currency>(
        &mut self,
        treasury: &mut Treasury<C>,
        sender: AccountId,
        collectible_id: CollectibleId,
        blocks: BlockNumber,
    ) -> (r: Result<(), DispatchError>)
        requires
            extend_can_run(old(self)@, sender, collectible_id, blocks),
        ensures
            match extend_check(old(self)@, sender, collectible_id, blocks) {
                Err(e) => r == Err::<(), DispatchError>(DispatchError::Module(e)) && final(self)@
                    == old(self)@ && final(treasury).calls() == old(treasury).calls(),
                Ok(_) => exists|balance: Balance, accepted: bool|
                    final(treasury).calls() == old(treasury).calls() + #[trigger] payment_calls(
                        sender,
                        old(self)@.collectibles[collectible_id].lessor,
                        extend_price(old(self)@.collectibles[collectible_id], blocks) as Balance,
                        balance,
                        accepted,
                    ) && r == payment_result(
                        extend_price(old(self)@.collectibles[collectible_id], blocks) as Balance,
                        balance,
                        accepted,
                    ) && final(self)@ == (if payment_made(
                        extend_price(old(self)@.collectibles[collectible_id], blocks) as Balance,
                        balance,
                        accepted,
                    ) {
                        extend_effect(
                            old(self)@,
                            sender,
                            old(self)@.collectibles[collectible_id],
                            blocks,
                        )
                    } else {
                        old(self)@
                    }),
            },
            old(self)@.wf() ==> final(self)@.wf(),
            old(self)@.wf() && old(self)@.owners_listed() ==> final(self)@.owners_listed(),
    {
        let collectible = match self.fetch_collectible(collectible_id) {
            Ok(c) => c,
            Err(e) => return Err(DispatchError::Module(e)),
        };
        match Self::ensure_user_is_lessee(sender, &collectible) {
            Ok(()) => {},
            Err(e) => return Err(DispatchError::Module(e)),
        }
        self.do_extend_rent(treasury, collectible, blocks)
    }

    fn do_extend_rent<C: Currency>(
        &mut self,
        treasury: &mut Treasury<C>,
        collectible: Collectible,
        blocks: BlockNumber,
    ) -> (r: Result<(), DispatchError>)
        requires
            collectible.lessee is Some,
            ({
                let lessee = collectible.lessee.unwrap();
                let id = collectible.collectible_id;
                old(self)@.lessee_collectibles.contains_key((lessee, id)) ==> {
                    &&& collectible.maximum_rental_period is Some
                    &&& blocks + old(self)@.lessee_collectibles[(lessee, id)].next_rent_block <= u64::MAX
                    &&& blocks + old(self)@.lessee_collectibles[(lessee, id)].next_rent_block
                        <= collectible.maximum_rental_period.unwrap() ==> extend_ready(
                        old(self)@,
                        lessee,
                        collectible,
                        blocks,
                    )
                }
            }),
        ensures
            ({
                let lessee = collectible.lessee.unwrap();
                let id = collectible.collectible_id;
                if !old(self)@.lessee_collectibles.contains_key((lessee, id)) {
                    r == Err::<(), DispatchError>(DispatchError::Module(Error::NoCollectible))
                        && final(self)@ == old(self)@ && final(treasury).calls() == old(
                        treasury,
                    ).calls()
                } else if blocks + old(self)@.lessee_collectibles[(lessee, id)].next_rent_block
                    > collectible.maximum_rental_period.unwrap() {
                    r == Err::<(), DispatchError>(DispatchError::Module(Error::RentalPeriodTooLong))
                        && final(self)@ == old(self)@ && final(treasury).calls() == old(
                        treasury,
                    ).calls()
                } else {
                    exists|balance: Balance, accepted: bool|
                        final(treasury).calls() == old(treasury).calls() + #[trigger] payment_calls(
                            lessee,
                            collectible.lessor,
                            extend_price(collectible, blocks) as Balance,
                            balance,
                            accepted,
                        ) && r == payment_result(
                            extend_price(collectible, blocks) as Balance,
                            balance,
                            accepted,
                        ) && final(self)@ == (if payment_made(
                            extend_price(collectible, blocks) as Balance,
                            balance,
                            accepted,
                        ) {
                            extend_effect(old(self)@, lessee, collectible, blocks)
                        } else {
                            old(self)@
                        })
                }
            }),
            old(self)@.wf() ==> final(self)@.wf(),
            old(self)@.wf() && old(self)@.owners_listed() ==> final(self)@.owners_listed(),
    {
        let lessee = collectible.lessee.unwrap();
        let lessee_rental = match self.lessee_collectibles.get(&(lessee, collectible.collectible_id)) {
            Some(r) => *r,
            None => return Err(DispatchError::Module(Error::NoCollectible)),
        };
        if blocks + lessee_rental.next_rent_block > collectible.maximum_rental_period.unwrap() as u64 {
            return Err(DispatchError::Module(Error::RentalPeriodTooLong));
        }
        let total_rent_price: u32 = convert_to_primitive::<BlockNumber, u32>(blocks).unwrap()
            * convert_to_primitive::<Balance, u32>(collectible.price_per_block.unwrap()).unwrap();
        let payment = Self::transfer_funds(treasury, lessee, collectible.lessor, total_rent_price as u64);
        self.settle_extend_rent(collectible, blocks, payment)
    }

    /// Completes an extension by `blocks` blocks of the rental of `collectible`
    /// once its payment was attempted: a refused payment is returned and
    /// nothing changes; a payment that went through moves the rental's due
    /// entry `blocks` blocks later.
    pub fn settle_extend_rent(
        &mut self,
        collectible: Collectible,
        blocks: BlockNumber,
        payment: Result<(), DispatchError>,
    ) -> (r: Result<(), DispatchError>)
        requires
            collectible.lessee is Some,
            extend_ready(old(self)@, collectible.lessee.unwrap(), collectible, blocks),
        ensures
            match payment {
                Err(e) => r == Err::<(), DispatchError>(e) && final(self)@ == old(self)@,
                Ok(_) => r == Ok::<(), DispatchError>(()) && final(self)@ == extend_effect(
                    old(self)@,
                    collectible.lessee.unwrap(),
                    collectible,
                    blocks,
                ),
            },
            old(self)@.wf() ==> final(self)@.wf(),
            old(self)@.wf() && old(self)@.owners_listed() ==> final(self)@.owners_listed(),
    {
        proof {
            law_other_calls_keep_owners_listed(self@, collectible.lessee.unwrap(), collectible.collectible_id, collectible, blocks);
        }
        match payment {
            Err(e) => return Err(e),
            Ok(()) => {},
        }
        let lessee = collectible.lessee.unwrap();
        let collectible_id = collectible.collectible_id;
        let lessee_rental = *self.lessee_collectibles.get(&(lessee, collectible_id)).unwrap();
        let blocks_u32: u32 = convert_to_primitive::<BlockNumber, u32>(blocks).unwrap();
        let total_rent_price: u32 = blocks_u32 * convert_to_primitive::<Balance, u32>(
            collectible.price_per_block.unwrap(),
        ).unwrap();
        self.deposit_event(
            Event::RentPayed {
                lessee,
                lessor: collectible.lessor,
                collectible: collectible_id,
                total_rent_price: total_rent_price as u64,
            },
        );
        let next_rent_block = lessee_rental.next_rent_block;
        // the rental no longer falls due at its old block
        let ghost s1 = self@;
        let pending_rental = self.take_pending(next_rent_block);
        let kept = vec_entries_without_id(&pending_rental, &collectible_id);
        self.put_pending(next_rent_block, kept);
        proof {
            lemma_remove_insert(s1.pending_rentals, next_rent_block, kept@);
            lemma_entries_without_id_len(pending_rental@, collectible_id);
            assert(self@ == extend_unscheduled(s1, collectible_id, next_rent_block));
        }
        self.deposit_event(
            Event::RentalPeriodRemoved { collectible: collectible_id, at_block: next_rent_block },
        );
        // it falls due `blocks` blocks later
        let next_rent_block = match self.append_pending_rental_to_available_block(
            Some(next_rent_block),
            blocks_u32,
            collectible_id,
            lessee,
        ) {
            Ok(b) => b,
            Err(e) => return Err(e),
        };
        self.put_rental(
            lessee,
            collectible_id,
            RentalPeriodConfig { next_rent_block, ..lessee_rental },
        );
        self.deposit_event(
            Event::RentalExtended {
                lessor: collectible.lessor,
                lessee,
                collectible: collectible_id,
                next_rent_block,
            },
        );
        self.deposit_event(
            Event::RentalPeriodAdded { collectible: collectible_id, next_rent_block },
        );
        Ok(())
    }

    /// Equips `collectible_id` on behalf of its lessor (while it is neither
    /// rented nor offered for rent) or of its lessee.
    pub fn equip_collectible(&mut self, sender: AccountId, collectible_id: CollectibleId) -> (r: Result<
        (),
        DispatchError,
    >)
        ensures
            match equip_outcome(old(self)@, sender, collectible_id) {
                Ok(s) => r == Ok::<(), DispatchError>(()) && final(self)@ == s,
                Err(e) => r == Err::<(), DispatchError>(DispatchError::Module(e)) && final(self)@
                    == old(self)@,
            },
            old(self)@.wf() ==> final(self)@.wf(),
            old(self)@.wf() && old(self)@.owners_listed() ==> final(self)@.owners_listed(),
    {
        proof {
            law_other_calls_keep_owners_listed(self@, sender, collectible_id, self@.collectibles[collectible_id], 0);
        }
        let collectible = match self.fetch_collectible(collectible_id) {
            Ok(c) => c,
            Err(e) => return Err(DispatchError::Module(e)),
        };
        let account: AccountId;
        if Self::ensure_user_is_lessor(sender, &collectible).is_ok() {
            if collectible.lessee.is_some() || collectible.rentable {
                return Err(DispatchError::Module(Error::NotAllowedWhileRented));
            }
            account = collectible.lessor;
        } else if let Some(lessee) = collectible.lessee {
            match Self::ensure_user_is_lessee(sender, &collectible) {
                Ok(()) => {},
                Err(e) => return Err(DispatchError::Module(e)),
            }
            account = lessee;
        } else {
            return Err(DispatchError::Module(Error::NoAccountFoundForCollectible));
        }
        if self.equipped_len(account) >= self.config.maximum_owned as usize {
            return Err(DispatchError::Module(Error::TooManyCollectiblesEquiped));
        }
        let ghost s0 = self@;
        let mut equipped = self.take_equipped(account);
        equipped.push(collectible_id);
        self.put_equipped(account, equipped);
        proof {
            lemma_remove_insert(s0.account_equips, account, equipped@);
        }
        self.deposit_event(Event::CollectibleEquipped { account: sender, collectible: collectible_id });
        Ok(())
    }

    /// Unequips `collectible_id` from `sender`, its lessee or its lessor.
    pub fn unequip_collectible(&mut self, sender: AccountId, collectible_id: CollectibleId) -> (r:
        Result<(), DispatchError>)
        ensures
            match unequip_outcome(old(self)@, sender, collectible_id) {
                Ok(s) => r == Ok::<(), DispatchError>(()) && final(self)@ == s,
                Err(e) => r == Err::<(), DispatchError>(DispatchError::Module(e)) && final(self)@
                    == old(self)@,
            },
            old(self)@.wf() ==> final(self)@.wf(),
            old(self)@.wf() && old(self)@.owners_listed() ==> final(self)@.owners_listed(),
    {
        proof {
            law_other_calls_keep_owners_listed(self@, sender, collectible_id, self@.collectibles[collectible_id], 0);
        }
        let collectible = match self.fetch_collectible(collectible_id) {
            Ok(c) => c,
            Err(e) => return Err(DispatchError::Module(e)),
        };
        if Self::ensure_user_is_lessee(sender, &collectible).is_err() {
            match Self::ensure_user_is_lessor(sender, &collectible) {
                Ok(()) => {},
                Err(e) => return Err(DispatchError::Module(e)),
            }
        }
        let ghost s0 = self@;
        self.unequip_collectible_from_account(sender, collectible.collectible_id);
        proof {
            lemma_without_id_len(s0.equipped_by(sender), collectible.collectible_id);
        }
        self.deposit_event(Event::CollectibleUnequipped { account: sender, collectible: collectible_id });
        Ok(())
    }
}


impl Pallet {
    /// Processes the due rental `rental` once its payment was attempted
    /// (`paid` says whether it went through): a rental that does not go on
    /// (withdrawn from rent, without lessee, or not recurring) ends; one whose
    /// payment failed ends with an error event; a paid one is scheduled again.
    pub fn settle_due_rental(&mut self, rental: (CollectibleId, AccountId), paid: bool)
        requires
            entry_can_run(old(self)@, rental, paid),
        ensures
            final(self)@ == process_entry(old(self)@, rental, paid),
            old(self)@.wf() ==> final(self)@.wf(),
            old(self)@.wf() && old(self)@.owners_listed() ==> final(self)@.owners_listed(),
    {
        proof {
            law_processing_keeps_owners_listed(self@, rental, paid);
        }
        let collectible_id = rental.0;
        let lessee = rental.1;
        let rental_config = *self.lessee_collectibles.get(&(lessee, collectible_id)).unwrap();
        let mut collectible = *self.collectibles.get(&collectible_id).unwrap();
        let ghost s0 = self@;
        let ghost c0 = collectible;
        if !collectible.rentable || collectible.lessee.is_none() || !rental_config.recurring {
            let _ = self.remove_lessee_from_collectible(lessee, &mut collectible);
            proof {
                lemma_without_id_len(s0.equipped_by(lessee), c0.collectible_id);
            }
            self.deposit_event(
                Event::RentalEnded { lessee, lessor: collectible.lessor, collectible: collectible_id },
            );
            return ;
        }
        if !paid {
            let _ = self.remove_lessee_from_collectible(lessee, &mut collectible);
            proof {
                lemma_without_id_len(s0.equipped_by(lessee), c0.collectible_id);
            }
            self.deposit_event(
                Event::ErrorTransferingRent {
                    lessee,
                    lessor: collectible.lessor,
                    collectible: collectible_id,
                },
            );
            return ;
        }
        let total_rent_price = collectible.price_per_block.unwrap()
            * rental_config.rental_periodic_interval as u64;
        self.deposit_event(
            Event::RentPayed {
                lessee,
                lessor: collectible.lessor,
                collectible: collectible_id,
                total_rent_price,
            },
        );
        let next_rent_block = self.append_pending_rental_to_available_block(
            None,
            rental_config.rental_periodic_interval,
            collectible_id,
            lessee,
        ).unwrap();
        self.put_rental(lessee, collectible_id, RentalPeriodConfig { next_rent_block, ..rental_config });
    }

    /// Processes the due rental `rental`: a rental that goes on is first paid
    /// by its lessee to its lessor through the currency.
    fn process_due_rental<C: Currency>(
        &mut self,
        treasury: &mut Treasury<C>,
        rental: (CollectibleId, AccountId),
    )
        requires
            entry_can_run(old(self)@, rental, true),
            entry_can_run(old(self)@, rental, false),
        ensures
            exists|balance: Balance, accepted: bool|
                final(self)@ == process_entry(
                    old(self)@,
                    rental,
                    entry_paid(old(self)@, rental, balance, accepted),
                ) && final(treasury).calls() == old(treasury).calls() + #[trigger] entry_calls(
                    old(self)@,
                    rental,
                    balance,
                    accepted,
                ),
            old(self)@.wf() ==> final(self)@.wf(),
            old(self)@.wf() && old(self)@.owners_listed() ==> final(self)@.owners_listed(),
    {
        let collectible = *self.collectibles.get(&rental.0).unwrap();
        let rental_config = *self.lessee_collectibles.get(&(rental.1, rental.0)).unwrap();
        if collectible.rentable && collectible.lessee.is_some() && rental_config.recurring {
            let total_rent_price = collectible.price_per_block.unwrap()
                * rental_config.rental_periodic_interval as u64;
            let payment = Self::transfer_funds(treasury, rental.1, collectible.lessor, total_rent_price);
            let paid = payment.is_ok();
            proof {
                let (balance, accepted) = choose|balance: Balance, accepted: bool|
                    treasury.calls() == old(treasury).calls() + #[trigger] payment_calls(
                        rental.1,
                        collectible.lessor,
                        total_rent_price,
                        balance,
                        accepted,
                    ) && payment == payment_result(total_rent_price, balance, accepted);
                assert(entry_calls(old(self)@, rental, balance, accepted) == payment_calls(
                    rental.1,
                    collectible.lessor,
                    total_rent_price,
                    balance,
                    accepted,
                ));
                assert(paid == entry_paid(old(self)@, rental, balance, accepted));
            }
            self.settle_due_rental(rental, paid);
        } else {
            self.settle_due_rental(rental, false);
            proof {
                assert(treasury.calls() =~= old(treasury).calls() + entry_calls(
                    old(self)@,
                    rental,
                    0,
                    false,
                ));
            }
        }
    }

    /// Processes the rentals due at block `n`, in the order they were
    /// scheduled, then forgets them; each rental that goes on is paid through
    /// the currency. Before each rental it tests that the rental can run, and
    /// returns `false` where that test failed, with the rentals before it
    /// processed and nothing forgotten.
    fn do_process_rental_periods<C: Currency>(&mut self, treasury: &mut Treasury<C>, n: BlockNumber) -> (ok: bool)
        ensures
            entries_can_run(old(self)@, old(self)@.pending_at(n)) ==> ok,
            ok ==> exists|answers: Seq<(Balance, bool)>|
                answers.len() == old(self)@.pending_at(n).len() && final(self)@ == clear_pending(
                    (#[trigger] process_run(old(self)@, old(self)@.pending_at(n), answers)).0,
                    n,
                ) && final(treasury).calls() == old(treasury).calls() + process_run(
                    old(self)@,
                    old(self)@.pending_at(n),
                    answers,
                ).1,
            !ok ==> exists|k: int, answers: Seq<(Balance, bool)>|
                0 <= k < old(self)@.pending_at(n).len() && answers.len() == k && final(self)@ == (
                #[trigger] process_run(old(self)@, old(self)@.pending_at(n).take(k), answers)).0
                    && final(treasury).calls() == old(treasury).calls() + process_run(
                    old(self)@,
                    old(self)@.pending_at(n).take(k),
                    answers,
                ).1 && !entry_can_run(final(self)@, old(self)@.pending_at(n)[k], true),
            old(self)@.wf() ==> final(self)@.wf(),
            old(self)@.wf() && old(self)@.owners_listed() ==> final(self)@.owners_listed(),
    {
        let rentals = match self.pending_rentals.get(&n) {
            Some(v) => copy_entries(v),
            None => Vec::new(),
        };
        let ghost mut answers: Seq<(Balance, bool)> = Seq::empty();
        let mut i: usize = 0;
        assert(rentals@.skip(0) =~= rentals@);
        assert(rentals@.take(0) =~= Seq::<(CollectibleId, AccountId)>::empty());
        assert(treasury.calls() =~= old(treasury).calls() + Seq::<CurrencyCall>::empty());
        while i < rentals.len()
            invariant
                i <= rentals@.len(),
                rentals@ == old(self)@.pending_at(n),
                answers.len() == i,
                self@ == process_run(old(self)@, rentals@.take(i as int), answers).0,
                treasury.calls() == old(treasury).calls() + process_run(
                    old(self)@,
                    rentals@.take(i as int),
                    answers,
                ).1,
                entries_can_run(old(self)@, old(self)@.pending_at(n)) ==> entries_can_run(
                    self@,
                    rentals@.skip(i as int),
                ),
                old(self)@.wf() ==> self@.wf(),
                old(self)@.wf() && old(self)@.owners_listed() ==> self@.owners_listed(),
            decreases rentals@.len() - i,
        {
            let rental = rentals[i];
            let ghost s0 = self@;
            let ghost calls0 = treasury.calls();
            proof {
                assert(rentals@.skip(i as int)[0] == rental);
                assert(rentals@.skip(i as int).drop_first() =~= rentals@.skip(i + 1));
            }
            if !self.can_process_due_rental(rental) {
                return false;
            }
            self.process_due_rental(treasury, rental);
            proof {
                let (balance, accepted) = choose|balance: Balance, accepted: bool|
                    self@ == process_entry(s0, rental, entry_paid(s0, rental, balance, accepted))
                        && treasury.calls() == calls0 + #[trigger] entry_calls(
                        s0,
                        rental,
                        balance,
                        accepted,
                    );
                assert(rentals@.take(i + 1).drop_last() =~= rentals@.take(i as int));
                assert(rentals@.take(i + 1).last() == rental);
                let before = process_run(old(self)@, rentals@.take(i as int), answers);
                let old_answers = answers;
                answers = answers.push((balance, accepted));
                assert(answers.drop_last() =~= old_answers);
                assert(treasury.calls() =~= old(treasury).calls() + (before.1 + entry_calls(
                    s0,
                    rental,
                    balance,
                    accepted,
                )));
                if entries_can_run(old(self)@, old(self)@.pending_at(n)) {
                    if entry_paid(s0, rental, balance, accepted) {
                        assert(entries_can_run(self@, rentals@.skip(i + 1)));
                    } else {
                        assert(entries_can_run(self@, rentals@.skip(i + 1)));
                    }
                }
            }
            i = i + 1;
        }
        assert(rentals@.take(rentals@.len() as int) =~= rentals@);
        let ghost before = self@;
        let _ = self.take_pending(n);
        proof {
            assert(self@ == clear_pending(before, n));
            if before.owners_listed() {
                lemma_owners_listed_frame(before, self@);
            }
        }
        true
    }

    /// At the start of block `n`, processes the rentals due then; each rental
    /// that goes on is paid through the currency.
    pub fn on_initialize<C: Currency>(&mut self, treasury: &mut Treasury<C>, n: BlockNumber)
        requires
            entries_can_run(old(self)@, old(self)@.pending_at(n)),
        ensures
            exists|answers: Seq<(Balance, bool)>|
                answers.len() == old(self)@.pending_at(n).len() && final(self)@ == clear_pending(
                    (#[trigger] process_run(old(self)@, old(self)@.pending_at(n), answers)).0,
                    n,
                ) && final(treasury).calls() == old(treasury).calls() + process_run(
                    old(self)@,
                    old(self)@.pending_at(n),
                    answers,
                ).1,
            old(self)@.wf() ==> final(self)@.wf(),
            old(self)@.wf() && old(self)@.owners_listed() ==> final(self)@.owners_listed(),
    {
        self.do_process_rental_periods(treasury, n);
    }
}


/// The state that scheduling looks at: the pallet's, or, where `dropped` is
/// `Some((due, id))`, the pallet's once the rentals of `id` due at `due` are
/// dropped, as an extension does before it schedules anew.
spec fn scheduling_state(s: RentState, dropped: Option<(BlockNumber, CollectibleId)>) -> RentState {
    match dropped {
        Some(d) => extend_unscheduled(s, d.1, d.0),
        None => s,
    }
}

/// What a runtime tests before a call whose contract asks something of the
/// state: the calls are made only where the test passes.
impl Pallet {
    /// The number of rentals due at `block` in the scheduling state.
    fn pending_len_without(&self, block: BlockNumber, dropped: Option<(BlockNumber, CollectibleId)>) -> (r:
        usize)
        ensures
            r == scheduling_state(self@, dropped).pending_at(block).len(),
    {
        match dropped {
            Some(d) => {
                if block == d.0 {
                    match self.pending_rentals.get(&block) {
                        Some(v) => vec_entries_without_id(v, &d.1).len(),
                        None => 0,
                    }
                } else {
                    self.pending_len(block)
                }
            },
            None => self.pending_len(block),
        }
    }

    /// Whether some block from `start + additional` on has room in the
    /// scheduling state.
    fn can_schedule_without(
        &self,
        start: BlockNumber,
        additional: u32,
        dropped: Option<(BlockNumber, CollectibleId)>,
    ) -> (b: bool)
        ensures
            b == scheduling_state(self@, dropped).can_schedule(start, additional),
    {
        let max = self.config.maximum_rentables_per_block as usize;
        if start > BlockNumber::MAX - additional as u64 {
            return false;
        }
        let mut block = start + additional as u64;
        let ghost st = scheduling_state(self@, dropped);
        let ghost target = st.free_block_from(block);
        proof {
            st.lemma_free_block_from(block);
        }
        while block < BlockNumber::MAX && self.pending_len_without(block, dropped) >= max
            invariant
                st == scheduling_state(self@, dropped),
                max == st.config.maximum_rentables_per_block,
                block <= target,
                st.free_block_from(block) == target,
            decreases BlockNumber::MAX - block,
        {
            proof {
                st.lemma_free_block_from((block + 1) as BlockNumber);
            }
            block = block + 1;
        }
        self.pending_len_without(block, dropped) < max
    }

    /// Whether `sender` may rent `collectible_id` for `blocks` blocks.
    fn check_rent(&self, sender: AccountId, collectible_id: CollectibleId, blocks: u32) -> (r: Result<
        (),
        Error,
    >)
        ensures
            r == rent_check(self@, sender, collectible_id, blocks),
    {
        let collectible = match self.fetch_collectible(collectible_id) {
            Ok(c) => c,
            Err(e) => return Err(e),
        };
        if let Some(minimum_rental_period) = collectible.minimum_rental_period {
            if blocks < minimum_rental_period {
                return Err(Error::RentalPeriodTooShort);
            }
        }
        if let Some(maximum_rental_period) = collectible.maximum_rental_period {
            if blocks > maximum_rental_period {
                return Err(Error::RentalPeriodTooLong);
            }
        }
        if collectible.lessor == sender {
            return Err(Error::CannotRentOwnCollectible);
        }
        if collectible.lessee == Some(sender) {
            return Err(Error::AlreadyRented);
        }
        if collectible.lessee.is_some() || !collectible.rentable {
            return Err(Error::RentNotAvailable);
        }
        Ok(())
    }

    /// Whether renting `collectible_id` to `sender` for `blocks` blocks can
    /// run: where the checks pass, the collectible has a price, the rent fits
    /// in a balance, and some block from `blocks` blocks on has room.
    pub fn can_rent(&self, sender: AccountId, collectible_id: CollectibleId, blocks: u32) -> (b: bool)
        ensures
            b == rent_can_run(self@, sender, collectible_id, blocks),
    {
        if self.check_rent(sender, collectible_id, blocks).is_err() {
            return true;
        }
        let collectible = *self.collectibles.get(&collectible_id).unwrap();
        match collectible.price_per_block {
            None => false,
            Some(price) => match price.checked_mul(blocks as u64) {
                None => false,
                Some(_) => self.can_schedule_without(self.block_number, blocks, None),
            },
        }
    }

    /// Whether extending the rental of `collectible_id` by `sender` by
    /// `blocks` blocks can run: the collectible has a maximum period and the
    /// new end fits in a block number; where the checks pass, its price and
    /// the price of the extension fit in 32 bits, and some block from `blocks`
    /// blocks after the due block on has room once the rental left it.
    pub fn can_extend_rent(&self, sender: AccountId, collectible_id: CollectibleId, blocks: BlockNumber) -> (b:
        bool)
        ensures
            b == extend_can_run(self@, sender, collectible_id, blocks),
    {
        let collectible = match self.collectibles.get(&collectible_id) {
            Some(c) => *c,
            None => return true,
        };
        if Self::ensure_user_is_lessee(sender, &collectible).is_err() {
            return true;
        }
        let rental = match self.lessee_collectibles.get(&(sender, collectible.collectible_id)) {
            Some(r) => *r,
            None => return true,
        };
        let maximum_rental_period = match collectible.maximum_rental_period {
            Some(m) => m,
            None => return false,
        };
        if blocks > BlockNumber::MAX - rental.next_rent_block {
            return false;
        }
        if blocks + rental.next_rent_block > maximum_rental_period as u64 {
            return true;
        }
        let price = match collectible.price_per_block {
            Some(p) => p,
            None => return false,
        };
        if price > u32::MAX as u64 {
            return false;
        }
        match blocks.checked_mul(price) {
            None => false,
            Some(total) => {
                if total > u32::MAX as u64 {
                    false
                } else {
                    self.can_schedule_without(
                        rental.next_rent_block,
                        blocks as u32,
                        Some((rental.next_rent_block, collectible.collectible_id)),
                    )
                }
            },
        }
    }

    /// Whether processing the due rental `rental` can run, whatever becomes
    /// of its payment: its terms and collectible are stored, and where it goes
    /// on, the price of a period fits in a balance and some block from one
    /// period on has room.
    pub fn can_process_due_rental(&self, rental: (CollectibleId, AccountId)) -> (b: bool)
        ensures
            b == entry_can_run(self@, rental, true),
            b ==> entry_can_run(self@, rental, false),
    {
        let rental_config = match self.lessee_collectibles.get(&(rental.1, rental.0)) {
            Some(r) => *r,
            None => return false,
        };
        let collectible = match self.collectibles.get(&rental.0) {
            Some(c) => *c,
            None => return false,
        };
        if !(collectible.rentable && collectible.lessee.is_some() && rental_config.recurring) {
            return true;
        }
        match collectible.price_per_block {
            None => false,
            Some(price) => match price.checked_mul(rental_config.rental_periodic_interval as u64) {
                None => false,
                Some(_) => self.can_schedule_without(
                    self.block_number,
                    rental_config.rental_periodic_interval,
                    None,
                ),
            },
        }
    }

    /// Processes the rentals due at block `n` as `on_initialize` does, where
    /// each can run; returns `false` where one cannot, as described for the
    /// processing, which never happens where `on_initialize` may be called.
    pub fn on_initialize_checked<C: Currency>(&mut self, treasury: &mut Treasury<C>, n: BlockNumber) -> (ok:
        bool)
        ensures
            entries_can_run(old(self)@, old(self)@.pending_at(n)) ==> ok,
            ok ==> exists|answers: Seq<(Balance, bool)>|
                answers.len() == old(self)@.pending_at(n).len() && final(self)@ == clear_pending(
                    (#[trigger] process_run(old(self)@, old(self)@.pending_at(n), answers)).0,
                    n,
                ) && final(treasury).calls() == old(treasury).calls() + process_run(
                    old(self)@,
                    old(self)@.pending_at(n),
                    answers,
                ).1,
            !ok ==> exists|k: int, answers: Seq<(Balance, bool)>|
                0 <= k < old(self)@.pending_at(n).len() && answers.len() == k && final(self)@ == (
                #[trigger] process_run(old(self)@, old(self)@.pending_at(n).take(k), answers)).0
                    && final(treasury).calls() == old(treasury).calls() + process_run(
                    old(self)@,
                    old(self)@.pending_at(n).take(k),
                    answers,
                ).1 && !entry_can_run(final(self)@, old(self)@.pending_at(n)[k], true),
            old(self)@.wf() ==> final(self)@.wf(),
            old(self)@.wf() && old(self)@.owners_listed() ==> final(self)@.owners_listed(),
    {
        self.do_process_rental_periods(treasury, n)
    }
}


/// Reading and writing the storage directly, as the runtime and its tests do.
impl Pallet {
    /// The constants the pallet was configured with.
    pub fn config(&self) -> (c: Config)
        ensures
            c == self@.config,
    {
        self.config
    }

    /// The current block number.
    pub fn block_number(&self) -> (b: BlockNumber)
        ensures
            b == self@.block_number,
    {
        self.block_number
    }

    /// Moves on to block `n`.
    pub fn set_block_number(&mut self, n: BlockNumber)
        ensures
            final(self)@ == (RentState { block_number: n, ..old(self)@ }),
            old(self)@.wf() ==> final(self)@.wf(),
    {
        self.block_number = n;
        assert(self@ =~= RentState { block_number: n, ..old(self)@ });
    }

    /// The events deposited so far, oldest first.
    pub fn events(&self) -> (e: &Vec<Event>)
        ensures
            e@ == self@.events,
    {
        &self.events
    }

    /// The collectible stored under `collectible_id`.
    pub fn collectibles_get(&self, collectible_id: CollectibleId) -> (r: Option<Collectible>)
        ensures
            r == (if self@.collectibles.contains_key(collectible_id) {
                Some(self@.collectibles[collectible_id])
            } else {
                None
            }),
    {
        match self.collectibles.get(&collectible_id) {
            Some(c) => Some(*c),
            None => None,
        }
    }

    /// Whether a collectible is stored under `collectible_id`.
    pub fn collectibles_contains_key(&self, collectible_id: CollectibleId) -> (r: bool)
        ensures
            r == self@.collectibles.contains_key(collectible_id),
    {
        self.collectibles.contains_key(&collectible_id)
    }

    /// Stores `collectible` under its identifier.
    pub fn collectibles_insert(&mut self, collectible: Collectible)
        ensures
            final(self)@ == (RentState {
                collectibles: old(self)@.collectibles.insert(collectible.collectible_id, collectible),
                ..old(self)@
            }),
            old(self)@.wf() ==> final(self)@.wf(),
    {
        self.put_collectible(collectible.collectible_id, collectible);
    }

    /// The collectibles that `account` minted, if it has a list.
    pub fn lessor_collectibles_get(&self, account: AccountId) -> (r: Option<Vec<CollectibleId>>)
        ensures
            match r {
                Some(v) => self@.lessor_collectibles.contains_key(account)
                    && v@ == self@.lessor_collectibles[account],
                None => !self@.lessor_collectibles.contains_key(account),
            },
    {
        match self.lessor_collectibles.get(&account) {
            Some(v) => Some(copy_ids(v)),
            None => None,
        }
    }

    /// Appends `collectible_id` to the list of `account`, unless the list is
    /// full.
    pub fn lessor_collectibles_try_push(&mut self, account: AccountId, collectible_id: CollectibleId) -> (r:
        Result<(), ()>)
        ensures
            old(self)@.owned_by(account).len() < old(self)@.config.maximum_owned ==> r is Ok
                && final(self)@ == (RentState {
                lessor_collectibles: old(self)@.lessor_collectibles.insert(
                    account,
                    old(self)@.owned_by(account).push(collectible_id),
                ),
                ..old(self)@
            }),
            old(self)@.owned_by(account).len() >= old(self)@.config.maximum_owned ==> r is Err
                && final(self)@ == old(self)@,
            old(self)@.wf() ==> final(self)@.wf(),
    {
        if self.owned_len(account) >= self.config.maximum_owned as usize {
            return Err(());
        }
        let ghost s0 = self@;
        let mut owned = self.take_owned(account);
        owned.push(collectible_id);
        self.put_owned(account, owned);
        proof {
            lemma_remove_insert(s0.lessor_collectibles, account, owned@);
        }
        Ok(())
    }

    /// The terms of the rental of `collectible_id` by `lessee`.
    pub fn lessee_collectibles_get(&self, lessee: AccountId, collectible_id: CollectibleId) -> (r: Option<
        RentalPeriodConfig,
    >)
        ensures
            r == (if self@.lessee_collectibles.contains_key((lessee, collectible_id)) {
                Some(self@.lessee_collectibles[(lessee, collectible_id)])
            } else {
                None
            }),
    {
        match self.lessee_collectibles.get(&(lessee, collectible_id)) {
            Some(r) => Some(*r),
            None => None,
        }
    }

    /// Stores `rental` as the terms of the rental of `collectible_id` by `lessee`.
    pub fn lessee_collectibles_insert(
        &mut self,
        lessee: AccountId,
        collectible_id: CollectibleId,
        rental: RentalPeriodConfig,
    )
        ensures
            final(self)@ == (RentState {
                lessee_collectibles: old(self)@.lessee_collectibles.insert(
                    (lessee, collectible_id),
                    rental,
                ),
                ..old(self)@
            }),
            old(self)@.wf() ==> final(self)@.wf(),
    {
        self.put_rental(lessee, collectible_id, rental);
    }

    /// The collectibles offered for rent.
    pub fn rentable_collectibles_get(&self) -> (r: Vec<CollectibleId>)
        ensures
            r@ == self@.rentable_collectibles,
    {
        copy_ids(&self.rentable_collectibles)
    }

    /// The rentals due at `block`.
    pub fn pending_rentals_get(&self, block: BlockNumber) -> (r: Vec<(CollectibleId, AccountId)>)
        ensures
            r@ == self@.pending_at(block),
    {
        match self.pending_rentals.get(&block) {
            Some(v) => copy_entries(v),
            None => Vec::new(),
        }
    }

    /// Appends `rental` to the rentals due at `block`, unless that block is full.
    pub fn pending_rentals_try_append(&mut self, block: BlockNumber, rental: (CollectibleId, AccountId)) -> (r:
        Result<(), ()>)
        ensures
            old(self)@.pending_at(block).len() < old(self)@.config.maximum_rentables_per_block
                ==> r is Ok && final(self)@ == (RentState {
                pending_rentals: old(self)@.pending_rentals.insert(
                    block,
                    old(self)@.pending_at(block).push(rental),
                ),
                ..old(self)@
            }),
            old(self)@.pending_at(block).len() >= old(self)@.config.maximum_rentables_per_block
                ==> r is Err && final(self)@ == old(self)@,
            old(self)@.wf() ==> final(self)@.wf(),
    {
        if self.pending_len(block) >= self.config.maximum_rentables_per_block as usize {
            return Err(());
        }
        let ghost s0 = self@;
        let mut pending = self.take_pending(block);
        pending.push(rental);
        self.put_pending(block, pending);
        proof {
            lemma_remove_insert(s0.pending_rentals, block, pending@);
        }
        Ok(())
    }

    /// The collectibles that `account` has equipped, if it has a list.
    pub fn account_equips_get(&self, account: AccountId) -> (r: Option<Vec<CollectibleId>>)
        ensures
            match r {
                Some(v) => self@.account_equips.contains_key(account) && v@
                    == self@.account_equips[account],
                None => !self@.account_equips.contains_key(account),
            },
    {
        match self.account_equips.get(&account) {
            Some(v) => Some(copy_ids(v)),
            None => None,
        }
    }
}

} // verus!
