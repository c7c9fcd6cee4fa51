//! The state of the nft-on-rent pallet as mathematical values, and what each
//! call of the pallet makes of it.
use vstd::prelude::*;

use crate::currency::{CurrencyCall, TransferError};
use crate::filters::{entries_without_id, without_id};
use crate::nft_on_rent::types::{Collectible, Config, DispatchError, Error, Event, RentalPeriodConfig};
use crate::rent::model::{first_free_block, lemma_first_free_block, list_or_empty};
use crate::types::{AccountId, Balance, BlockNumber, CollectibleId};

verus! {

/// The storage of the pallet, the block number and the events of the block.
#[verifier::ext_equal]
pub struct NftState {
    pub config: Config,
    pub block_number: BlockNumber,
    /// Every collectible, by its identifier.
    pub collectible_map: Map<CollectibleId, Collectible>,
    /// The terms of each running rental, by lessee and collectible.
    pub lessee_collectibles: Map<(AccountId, CollectibleId), RentalPeriodConfig>,
    /// The rentals that fall due at each block.
    pub pending_rentals: Map<BlockNumber, Seq<(CollectibleId, AccountId)>>,
    /// The collectibles that each account has equipped.
    pub account_equips: Map<AccountId, Seq<CollectibleId>>,
    pub events: Seq<Event>,
}

impl NftState {
    /// Every bounded list of storage is within its bound.
    pub open spec fn bounded(self) -> bool {
        &&& forall|b: BlockNumber| #[trigger]
            self.pending_rentals.contains_key(b) ==> self.pending_rentals[b].len()
                <= self.config.maximum_rentables_per_block
        &&& forall|a: AccountId| #[trigger]
            self.account_equips.contains_key(a) ==> self.account_equips[a].len()
                <= self.config.maximum_owned
    }

    /// The invariant of the storage: bounded lists stay within their bounds,
    /// and each collectible is stored under its own identifier.
    pub open spec fn wf(self) -> bool {
        &&& self.bounded()
        &&& forall|id: CollectibleId| #[trigger]
            self.collectible_map.contains_key(id) ==> self.collectible_map[id].unique_id == id
    }

    /// The rentals due at block `b`.
    pub open spec fn pending_at(self, b: BlockNumber) -> Seq<(CollectibleId, AccountId)> {
        list_or_empty(self.pending_rentals, b)
    }

    pub open spec fn equipped_by(self, a: AccountId) -> Seq<CollectibleId> {
        list_or_empty(self.account_equips, a)
    }

    pub open spec fn deposit(self, e: Event) -> NftState {
        NftState { events: self.events.push(e), ..self }
    }

    /// Removes `id` from what `account` has equipped.
    pub open spec fn unequip(self, account: AccountId, id: CollectibleId) -> NftState {
        NftState {
            account_equips: self.account_equips.insert(
                account,
                without_id(self.equipped_by(account), id),
            ),
            ..self
        }
    }

    /// The rental of `c` by `lessee` ends.
    pub open spec fn remove_lessee(self, lessee: AccountId, c: Collectible) -> NftState {
        let id = c.unique_id;
        let s = NftState {
            lessee_collectibles: self.lessee_collectibles.remove((lessee, id)),
            collectible_map: self.collectible_map.insert(id, Collectible { lessee: None, ..c }),
            ..self
        };
        s.unequip(lessee, id)
    }

    /// Block `b` can take one more due rental.
    pub open spec fn has_room(self, b: BlockNumber) -> bool {
        self.pending_at(b).len() < self.config.maximum_rentables_per_block
    }

    /// The first block from `b` on that can take one more due rental (the
    /// last block, where none can).
    pub open spec fn free_block_from(self, b: BlockNumber) -> BlockNumber {
        first_free_block(self.pending_rentals, self.config.maximum_rentables_per_block, b)
    }

    /// The block that a rental of `interval` blocks from `start` falls due at:
    /// the first block from `start + interval` on that has room. A full block
    /// sends the rental on to the block after it, and so on; the rental never
    /// falls due before `start + interval`.
    pub open spec fn due_block(self, start: BlockNumber, interval: u32) -> BlockNumber {
        self.free_block_from((start + interval) as BlockNumber)
    }

    /// Scheduling a rental neither overflows nor searches forever: some block
    /// from `start + interval` on has room.
    pub open spec fn can_schedule(self, start: BlockNumber, interval: u32) -> bool {
        &&& start + interval <= BlockNumber::MAX
        &&& self.has_room(self.due_block(start, interval))
    }

    /// No block from `b` up to the first free one has room, and that one is
    /// not before `b`.
    pub proof fn lemma_free_block_from(self, b: BlockNumber)
        ensures
            b <= self.free_block_from(b),
            forall|c: BlockNumber| b <= c < self.free_block_from(b) ==> !#[trigger] self.has_room(c),
    {
        lemma_first_free_block(self.pending_rentals, self.config.maximum_rentables_per_block, b);
        assert forall|c: BlockNumber| b <= c < self.free_block_from(b) implies !#[trigger] self.has_room(c) by {
            assert(list_or_empty(self.pending_rentals, c).len() >= self.config.maximum_rentables_per_block);
        }
    }

    /// The state after the rental of `id` by `lessee` is scheduled.
    pub open spec fn schedule(
        self,
        start: BlockNumber,
        interval: u32,
        id: CollectibleId,
        lessee: AccountId,
    ) -> NftState {
        let b = self.due_block(start, interval);
        let s = NftState {
            pending_rentals: self.pending_rentals.insert(b, self.pending_at(b).push((id, lessee))),
            ..self
        };
        s.deposit(Event::RentalPeriodAdded { collectible_id: id, next_rent_block: b })
    }
}

/// A collectible as it is minted.
pub open spec fn minted(id: CollectibleId, lessor: AccountId) -> Collectible {
    Collectible {
        unique_id: id,
        price_per_block: None,
        lessor,
        lessee: None,
        rentable: false,
        minimum_rental_period: None,
        maximum_rental_period: None,
    }
}

/// What minting `id` for `lessor` makes of `s`.
pub open spec fn mint_outcome(s: NftState, lessor: AccountId, id: CollectibleId) -> Result<
    NftState,
    Error,
> {
    if s.collectible_map.contains_key(id) {
        Err(Error::DuplicateCollectible)
    } else {
        let s1 = NftState { collectible_map: s.collectible_map.insert(id, minted(id, lessor)), ..s };
        Ok(
            s1.deposit(
                Event::CollectibleCreated { collectible: id, lessor, current_lessee: None },
            ),
        )
    }
}

/// The collectible `id`, or `NoCollectible`.
pub open spec fn fetch(s: NftState, id: CollectibleId) -> Result<Collectible, Error> {
    if s.collectible_map.contains_key(id) {
        Ok(s.collectible_map[id])
    } else {
        Err(Error::NoCollectible)
    }
}

/// What offering `id` for rent makes of `s`.
pub open spec fn set_rentable_outcome(
    s: NftState,
    sender: AccountId,
    id: CollectibleId,
    price_per_block: u64,
    minimum_rental_period: u32,
    maximum_rental_period: u32,
) -> Result<NftState, Error> {
    match fetch(s, id) {
        Err(e) => Err(e),
        Ok(c) => if c.lessor != sender {
            Err(Error::NotLessor)
        } else {
            let offered = Collectible {
                price_per_block: Some(price_per_block),
                rentable: true,
                minimum_rental_period: Some(minimum_rental_period),
                maximum_rental_period: Some(maximum_rental_period),
                ..c
            };
            let s1 = NftState { collectible_map: s.collectible_map.insert(id, offered), ..s };
            Ok(s1.deposit(Event::RentMadeAvailable { collectible: id, price_per_block }))
        },
    }
}

/// Whether `sender` may rent `id` for `blocks` blocks.
pub open spec fn rent_check(s: NftState, sender: AccountId, id: CollectibleId, blocks: u32) -> Result<
    (),
    Error,
> {
    match fetch(s, id) {
        Err(e) => Err(e),
        Ok(c) => if c.minimum_rental_period matches Some(m) && blocks < m {
            Err(Error::RentalPeriodTooShort)
        } else if c.maximum_rental_period matches Some(m) && blocks > m {
            Err(Error::RentalPeriodTooLong)
        } else if c.lessor == sender {
            Err(Error::CannotRentOwnCollectible)
        } else if c.lessee == Some(sender) {
            Err(Error::AlreadyRented)
        } else if c.lessee is Some || !c.rentable {
            Err(Error::RentNotAvailable)
        } else {
            Ok(())
        },
    }
}

/// The price of `blocks` blocks of `c`.
pub open spec fn rent_price(c: Collectible, blocks: u32) -> int {
    c.price_per_block.unwrap() * blocks
}

/// What a payment returns where the currency makes the transfer (`accepted`)
/// or refuses it.
pub open spec fn transfer_result(accepted: bool) -> Result<(), DispatchError> {
    if accepted {
        Ok(())
    } else {
        Err(DispatchError::Transfer(TransferError))
    }
}

/// The question that paying `amount` from `from` to `to` puts to the
/// currency, with its answer.
pub open spec fn transfer_calls(from: AccountId, to: AccountId, amount: Balance, accepted: bool) -> Seq<
    CurrencyCall,
> {
    seq![CurrencyCall::Transfer { from, to, amount, accepted }]
}

/// Renting neither panics nor searches forever once the checks passed.
pub open spec fn rent_can_run(s: NftState, sender: AccountId, id: CollectibleId, blocks: u32) -> bool {
    rent_check(s, sender, id, blocks) is Ok ==> {
        let c = s.collectible_map[id];
        &&& c.price_per_block is Some
        &&& rent_price(c, blocks) <= u64::MAX
        &&& s.can_schedule(s.block_number, blocks)
    }
}

/// What a paid rental of `id` by `sender` makes of `s`: the lessor no longer
/// has the collectible equipped.
pub open spec fn rent_effect(
    s: NftState,
    sender: AccountId,
    id: CollectibleId,
    blocks: u32,
    recurring: bool,
) -> NftState {
    let c = s.collectible_map[id];
    let s1 = s.deposit(
        Event::RentPayed {
            lessor: c.lessor,
            lessee: sender,
            collectible: id,
            total_rent_price: rent_price(c, blocks) as u64,
        },
    );
    let next = s1.due_block(s.block_number, blocks);
    let s2 = s1.schedule(s.block_number, blocks, id, sender);
    let s3 = NftState {
        lessee_collectibles: s2.lessee_collectibles.insert(
            (sender, id),
            RentalPeriodConfig { rental_periodic_interval: blocks, next_rent_block: next, recurring },
        ),
        collectible_map: s2.collectible_map.insert(id, Collectible { lessee: Some(sender), ..c }),
        ..s2
    };
    s3.unequip(c.lessor, id)
}

/// What taking `id` off rent makes of `s`.
pub open spec fn set_unrentable_outcome(s: NftState, sender: AccountId, id: CollectibleId) -> Result<
    NftState,
    Error,
> {
    match fetch(s, id) {
        Err(e) => Err(e),
        Ok(c) => if c.lessor != sender {
            Err(Error::NotLessor)
        } else {
            let s1 = NftState {
                collectible_map: s.collectible_map.insert(id, Collectible { rentable: false, ..c }),
                ..s
            };
            Ok(s1.deposit(Event::RentMadeUnavailable { collectible: id }))
        },
    }
}

/// What making the rental of `id` recurring or not makes of `s`.
pub open spec fn set_recurring_outcome(
    s: NftState,
    sender: AccountId,
    id: CollectibleId,
    recurring: bool,
) -> Result<NftState, Error> {
    match fetch(s, id) {
        Err(e) => Err(e),
        Ok(c) => if c.lessee != Some(sender) {
            Err(Error::NotLessor)
        } else if !s.lessee_collectibles.contains_key((sender, id)) {
            Err(Error::NoCollectible)
        } else {
            let rental = s.lessee_collectibles[(sender, id)];
            let s1 = NftState {
                lessee_collectibles: s.lessee_collectibles.insert(
                    (sender, id),
                    RentalPeriodConfig { recurring, ..rental },
                ),
                collectible_map: s.collectible_map.insert(id, c),
                ..s
            };
            Ok(s1.deposit(Event::RentalMadeRecurring { collectible: id }))
        },
    }
}

/// Whether `sender` may extend the rental of `id`.
pub open spec fn extend_check(s: NftState, sender: AccountId, id: CollectibleId) -> Result<(), Error> {
    match fetch(s, id) {
        Err(e) => Err(e),
        Ok(c) => if c.lessee != Some(sender) {
            Err(Error::NotLessor)
        } else if !s.lessee_collectibles.contains_key((sender, id)) {
            Err(Error::NoCollectible)
        } else {
            Ok(())
        },
    }
}

/// The state of an extension after the old due entry was dropped.
pub open spec fn extend_unscheduled(s: NftState, id: CollectibleId, due: BlockNumber) -> NftState {
    NftState {
        pending_rentals: s.pending_rentals.insert(due, entries_without_id(s.pending_at(due), id)),
        ..s
    }
}

/// Extending neither overflows nor searches forever.
pub open spec fn extend_can_run(s: NftState, sender: AccountId, id: CollectibleId, blocks: u64) -> bool {
    extend_check(s, sender, id) is Ok ==> {
        let rental = s.lessee_collectibles[(sender, id)];
        let due = rental.next_rent_block;
        &&& due + blocks <= u64::MAX
        &&& extend_unscheduled(s, id, due).can_schedule(
            (due + blocks) as u64,
            rental.rental_periodic_interval,
        )
    }
}

/// What extending the rental of `id` by `blocks` blocks makes of `s`: the
/// rental no longer falls due at its old block, and falls due one period
/// after `blocks` blocks past it, beside the rentals already due then, which
/// stay due there.
pub open spec fn extend_effect(s: NftState, sender: AccountId, id: CollectibleId, blocks: u64) -> NftState {
    let c = s.collectible_map[id];
    let rental = s.lessee_collectibles[(sender, id)];
    let due = rental.next_rent_block;
    let s1 = extend_unscheduled(s, id, due);
    let start = (due + blocks) as u64;
    let next = s1.due_block(start, rental.rental_periodic_interval);
    let s2 = s1.schedule(start, rental.rental_periodic_interval, c.unique_id, sender);
    NftState {
        lessee_collectibles: s2.lessee_collectibles.insert(
            (sender, id),
            RentalPeriodConfig { next_rent_block: next, ..rental },
        ),
        ..s2
    }
}

/// The account on whose behalf `sender` equips `c`.
pub open spec fn equip_account(c: Collectible, sender: AccountId) -> Result<AccountId, Error> {
    match c.lessee {
        Some(l) => if l != sender {
            Err(Error::NotAllowedWhileRented)
        } else {
            Ok(l)
        },
        None => if c.lessor != sender {
            Err(Error::NotLessor)
        } else {
            Ok(c.lessor)
        },
    }
}

/// What equipping `id` makes of `s`.
pub open spec fn equip_outcome(s: NftState, sender: AccountId, id: CollectibleId) -> Result<
    NftState,
    Error,
> {
    match fetch(s, id) {
        Err(e) => Err(e),
        Ok(c) => match equip_account(c, sender) {
            Err(e) => Err(e),
            Ok(account) => if s.equipped_by(account).len() >= s.config.maximum_owned {
                Err(Error::TooManyCollectiblesEquiped)
            } else {
                let s1 = NftState {
                    account_equips: s.account_equips.insert(
                        account,
                        s.equipped_by(account).push(id),
                    ),
                    ..s
                };
                Ok(s1.deposit(Event::CollectibleEquipped { account: sender, collectible: id }))
            },
        },
    }
}

/// What unequipping `id` makes of `s`.
pub open spec fn unequip_outcome(s: NftState, sender: AccountId, id: CollectibleId) -> Result<
    NftState,
    Error,
> {
    match fetch(s, id) {
        Err(e) => Err(e),
        Ok(c) => Ok(
            s.unequip(sender, c.unique_id).deposit(
                Event::CollectibleUnequipped { account: sender, collectible: id },
            ),
        ),
    }
}

/// The rental `entry` continues into a new period (and is to be paid).
pub open spec fn entry_continues(s: NftState, entry: (CollectibleId, AccountId)) -> bool {
    let c = s.collectible_map[entry.0];
    let rental = s.lessee_collectibles[(entry.1, entry.0)];
    c.rentable && c.lessee is Some && rental.recurring
}

/// The price of one more period of the rental `entry`.
pub open spec fn entry_price(s: NftState, entry: (CollectibleId, AccountId)) -> int {
    let c = s.collectible_map[entry.0];
    let rental = s.lessee_collectibles[(entry.1, entry.0)];
    c.price_per_block.unwrap() * rental.rental_periodic_interval
}

/// Processing the due rental `entry` does not panic nor search forever,
/// whether its payment goes through (`paid`) or not.
pub open spec fn entry_can_run(s: NftState, entry: (CollectibleId, AccountId), paid: bool) -> bool {
    &&& s.lessee_collectibles.contains_key((entry.1, entry.0))
    &&& s.collectible_map.contains_key(entry.0)
    &&& entry_continues(s, entry) ==> {
        &&& s.collectible_map[entry.0].price_per_block is Some
        &&& entry_price(s, entry) <= u64::MAX
        &&& paid ==> s.can_schedule(
            s.block_number,
            s.lessee_collectibles[(entry.1, entry.0)].rental_periodic_interval,
        )
    }
}

/// What processing the due rental `entry` makes of `s`; `paid` says whether
/// its payment went through. A renewed rental is scheduled again and its terms
/// fall due at the new block.
pub open spec fn process_entry(s: NftState, entry: (CollectibleId, AccountId), paid: bool) -> NftState {
    let id = entry.0;
    let lessee = entry.1;
    let rental = s.lessee_collectibles[(lessee, id)];
    let c = s.collectible_map[id];
    if !entry_continues(s, entry) {
        s.remove_lessee(lessee, c).deposit(
            Event::RentalPeriodEnded { lessee, lessor: c.lessor, collectible: id },
        )
    } else if !paid {
        s.remove_lessee(lessee, c).deposit(
            Event::ErrorTransferingRent { lessee, lessor: c.lessor, collectible: id },
        )
    } else {
        let s1 = s.deposit(
            Event::RentPayed {
                lessee,
                lessor: c.lessor,
                collectible: id,
                total_rent_price: entry_price(s, entry) as u64,
            },
        );
        let next = s1.due_block(s.block_number, rental.rental_periodic_interval);
        let s2 = s1.schedule(s.block_number, rental.rental_periodic_interval, id, lessee);
        NftState {
            lessee_collectibles: s2.lessee_collectibles.insert(
                (lessee, id),
                RentalPeriodConfig { next_rent_block: next, ..rental },
            ),
            ..s2
        }
    }
}

/// Processing `entries` in order does not panic nor search forever, whatever
/// becomes of each payment.
pub open spec fn entries_can_run(s: NftState, entries: Seq<(CollectibleId, AccountId)>) -> bool
    decreases entries.len(),
{
    entries.len() > 0 ==> {
        &&& entry_can_run(s, entries[0], true)
        &&& entry_can_run(s, entries[0], false)
        &&& entries_can_run(process_entry(s, entries[0], true), entries.drop_first())
        &&& entries_can_run(process_entry(s, entries[0], false), entries.drop_first())
    }
}

/// The questions that processing the due rental `entry` puts to a currency
/// that answers `accepted` for the transfer: a rental that goes on is paid by
/// its lessee to its lessor.
pub open spec fn entry_calls(s: NftState, entry: (CollectibleId, AccountId), accepted: bool) -> Seq<
    CurrencyCall,
> {
    if entry_continues(s, entry) {
        transfer_calls(
            entry.1,
            s.collectible_map[entry.0].lessor,
            entry_price(s, entry) as Balance,
            accepted,
        )
    } else {
        Seq::empty()
    }
}

/// The due rental `entry` goes on and the currency made its payment.
pub open spec fn entry_paid(s: NftState, entry: (CollectibleId, AccountId), accepted: bool) -> bool {
    entry_continues(s, entry) && accepted
}

/// Processing `entries` in order, where `answers[i]` says whether the currency
/// makes the transfer for `entries[i]`: the state it leaves and the questions
/// put to the currency, oldest first.
pub open spec fn process_run(
    s: NftState,
    entries: Seq<(CollectibleId, AccountId)>,
    answers: Seq<bool>,
) -> (NftState, Seq<CurrencyCall>)
    decreases entries.len(),
{
    if entries.len() == 0 {
        (s, Seq::empty())
    } else {
        let before = process_run(s, entries.drop_last(), answers.drop_last());
        let entry = entries.last();
        let accepted = answers.last();
        (
            process_entry(before.0, entry, entry_paid(before.0, entry, accepted)),
            before.1 + entry_calls(before.0, entry, accepted),
        )
    }
}

/// The rentals due at `n` are forgotten.
pub open spec fn clear_pending(s: NftState, n: BlockNumber) -> NftState {
    NftState { pending_rentals: s.pending_rentals.remove(n), ..s }
}

} // verus!
