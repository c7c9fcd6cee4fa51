//! The state of the rent pallet as mathematical values, and what each call of
//! the pallet makes of it.
use vstd::prelude::*;

use crate::currency::{payment_calls, payment_made, CurrencyCall, TransferError};
use crate::filters::{entries_without_id, without_id};
use crate::rent::types::{Collectible, Config, DispatchError, Error, Event, RentalPeriodConfig};
use crate::types::{AccountId, Balance, BlockNumber, CollectibleId};

verus! {

/// The storage of the pallet, the block number and the events of the block.
#[verifier::ext_equal]
pub struct RentState {
    pub config: Config,
    pub block_number: BlockNumber,
    /// Every collectible, by its identifier.
    pub collectibles: Map<CollectibleId, Collectible>,
    /// The collectibles that each account minted.
    pub lessor_collectibles: Map<AccountId, Seq<CollectibleId>>,
    /// The terms of each running rental, by lessee and collectible.
    pub lessee_collectibles: Map<(AccountId, CollectibleId), RentalPeriodConfig>,
    /// The collectibles offered for rent.
    pub rentable_collectibles: Seq<CollectibleId>,
    /// The rentals that fall due at each block.
    pub pending_rentals: Map<BlockNumber, Seq<(CollectibleId, AccountId)>>,
    /// The collectibles that each account has equipped.
    pub account_equips: Map<AccountId, Seq<CollectibleId>>,
    pub events: Seq<Event>,
}

/// The list that `m` holds for `k`, or the empty list.
pub open spec fn list_or_empty<K, T>(m: Map<K, Seq<T>>, k: K) -> Seq<T> {
    if m.contains_key(k) {
        m[k]
    } else {
        Seq::empty()
    }
}

/// The first block from `b` on at which `pending` holds fewer than `max`
/// rentals (the last block, where none does).
pub open spec fn first_free_block(
    pending: Map<BlockNumber, Seq<(CollectibleId, AccountId)>>,
    max: u32,
    b: BlockNumber,
) -> BlockNumber
    decreases BlockNumber::MAX - b,
{
    if list_or_empty(pending, b).len() < max || b >= BlockNumber::MAX {
        b
    } else {
        first_free_block(pending, max, (b + 1) as BlockNumber)
    }
}

/// The first free block is not before `b`, and every block from `b` up to it
/// holds `max` rentals or more.
pub proof fn lemma_first_free_block(
    pending: Map<BlockNumber, Seq<(CollectibleId, AccountId)>>,
    max: u32,
    b: BlockNumber,
)
    ensures
        b <= first_free_block(pending, max, b),
        forall|c: BlockNumber|
            b <= c < first_free_block(pending, max, b) ==> #[trigger] list_or_empty(
                pending,
                c,
            ).len() >= max,
    decreases BlockNumber::MAX - b,
{
    if !(list_or_empty(pending, b).len() < max || b >= BlockNumber::MAX) {
        lemma_first_free_block(pending, max, (b + 1) as BlockNumber);
    }
}

impl RentState {
    /// Every bounded list of storage is within its bound.
    pub open spec fn bounded(self) -> bool {
        &&& forall|a: AccountId| #[trigger]
            self.lessor_collectibles.contains_key(a) ==> self.lessor_collectibles[a].len()
                <= self.config.maximum_owned
        &&& self.rentable_collectibles.len() <= self.config.maximum_owned
        &&& forall|b: BlockNumber| #[trigger]
            self.pending_rentals.contains_key(b) ==> self.pending_rentals[b].len()
                <= self.config.maximum_rentables_per_block
        &&& forall|a: AccountId| #[trigger]
            self.account_equips.contains_key(a) ==> self.account_equips[a].len()
                <= self.config.maximum_owned
    }

    /// The invariant of the storage: bounded lists stay within their bounds,
    /// and each collectible is stored under its own identifier.
    pub open spec fn wf(self) -> bool {
        &&& self.bounded()
        &&& forall|id: CollectibleId| #[trigger]
            self.collectibles.contains_key(id) ==> self.collectibles[id].collectible_id == id
    }

    /// Each account's list holds exactly the collectibles it is the lessor of.
    pub open spec fn owners_listed(self) -> bool {
        &&& forall|id: CollectibleId| #[trigger]
            self.collectibles.contains_key(id) ==> self.owned_by(
                self.collectibles[id].lessor,
            ).contains(id)
        &&& forall|a: AccountId, id: CollectibleId| #[trigger]
            self.owned_by(a).contains(id) ==> self.collectibles.contains_key(id)
                && self.collectibles[id].lessor == a
    }

    /// The rentals due at block `b`.
    pub open spec fn pending_at(self, b: BlockNumber) -> Seq<(CollectibleId, AccountId)> {
        list_or_empty(self.pending_rentals, b)
    }

    pub open spec fn owned_by(self, a: AccountId) -> Seq<CollectibleId> {
        list_or_empty(self.lessor_collectibles, a)
    }

    pub open spec fn equipped_by(self, a: AccountId) -> Seq<CollectibleId> {
        list_or_empty(self.account_equips, a)
    }

    pub open spec fn deposit(self, e: Event) -> RentState {
        RentState { events: self.events.push(e), ..self }
    }

    /// Removes `id` from what `account` has equipped; reports it if it was there.
    pub open spec fn unequip(self, account: AccountId, id: CollectibleId) -> RentState {
        let equipped = self.equipped_by(account);
        let kept = without_id(equipped, id);
        let s = RentState { account_equips: self.account_equips.insert(account, kept), ..self };
        if kept.len() != equipped.len() {
            s.deposit(Event::CollectibleUnequipped { account, collectible: id })
        } else {
            s
        }
    }

    /// The rental of `c` by `lessee` ends.
    pub open spec fn remove_lessee(self, lessee: AccountId, c: Collectible) -> RentState {
        let id = c.collectible_id;
        let s = RentState {
            lessee_collectibles: self.lessee_collectibles.remove((lessee, id)),
            collectibles: self.collectibles.insert(id, Collectible { lessee: None, ..c }),
            ..self
        };
        s.unequip(lessee, id)
    }

    /// Block `b` can take one more due rental.
    pub open spec fn has_room(self, b: BlockNumber) -> bool {
        self.pending_at(b).len() < self.config.maximum_rentables_per_block
    }

    /// The first block from `b` on that can take one more due rental (the
    /// last block, where none can).
    pub open spec fn free_block_from(self, b: BlockNumber) -> BlockNumber {
        first_free_block(self.pending_rentals, self.config.maximum_rentables_per_block, b)
    }

    /// The block that a rental of `additional` blocks from `start` falls due at:
    /// the first block from `start + additional` on that has room. A full block
    /// sends the rental on to the block after it, and so on; the rental never
    /// falls due before `start + additional`.
    pub open spec fn due_block(self, start: BlockNumber, additional: u32) -> BlockNumber {
        self.free_block_from((start + additional) as BlockNumber)
    }

    /// Scheduling a rental neither overflows nor searches forever: some block
    /// from `start + additional` on has room.
    pub open spec fn can_schedule(self, start: BlockNumber, additional: u32) -> bool {
        &&& start + additional <= BlockNumber::MAX
        &&& self.has_room(self.due_block(start, additional))
    }

    /// No block from `b` up to the first free one has room, and that one is
    /// not before `b`.
    pub proof fn lemma_free_block_from(self, b: BlockNumber)
        ensures
            b <= self.free_block_from(b),
            forall|c: BlockNumber| b <= c < self.free_block_from(b) ==> !#[trigger] self.has_room(c),
    {
        lemma_first_free_block(self.pending_rentals, self.config.maximum_rentables_per_block, b);
        assert forall|c: BlockNumber| b <= c < self.free_block_from(b) implies !#[trigger] self.has_room(c) by {
            assert(list_or_empty(self.pending_rentals, c).len() >= self.config.maximum_rentables_per_block);
        }
    }

    /// The state after the rental of `id` by `lessee` is scheduled.
    pub open spec fn schedule(
        self,
        start: BlockNumber,
        additional: u32,
        id: CollectibleId,
        lessee: AccountId,
    ) -> RentState {
        let b = self.due_block(start, additional);
        let s = RentState {
            pending_rentals: self.pending_rentals.insert(b, self.pending_at(b).push((id, lessee))),
            ..self
        };
        s.deposit(Event::RentalPeriodAdded { collectible: id, next_rent_block: b })
    }
}

/// A collectible as it is minted.
pub open spec fn minted(id: CollectibleId, lessor: AccountId) -> Collectible {
    Collectible {
        collectible_id: id,
        price_per_block: None,
        lessor,
        lessee: None,
        rentable: false,
        minimum_rental_period: None,
        maximum_rental_period: None,
    }
}

/// What minting `id` for `lessor` makes of `s`.
pub open spec fn mint_outcome(s: RentState, lessor: AccountId, id: CollectibleId) -> Result<
    RentState,
    Error,
> {
    if s.collectibles.contains_key(id) {
        Err(Error::DuplicateCollectible)
    } else if s.owned_by(lessor).len() >= s.config.maximum_owned {
        Err(Error::TooManyCollectiblesOwned)
    } else {
        let s1 = RentState {
            collectibles: s.collectibles.insert(id, minted(id, lessor)),
            lessor_collectibles: s.lessor_collectibles.insert(lessor, s.owned_by(lessor).push(id)),
            ..s
        };
        Ok(
            s1.deposit(
                Event::CollectibleCreated { collectible: id, lessor, current_lessee: None },
            ),
        )
    }
}

/// The collectible `id`, or `NoCollectible`.
pub open spec fn fetch(s: RentState, id: CollectibleId) -> Result<Collectible, Error> {
    if s.collectibles.contains_key(id) {
        Ok(s.collectibles[id])
    } else {
        Err(Error::NoCollectible)
    }
}

/// `user` is the lessee of `c`.
pub open spec fn lessee_check(c: Collectible, user: AccountId) -> Result<(), Error> {
    match c.lessee {
        None => Err(Error::NoLessee),
        Some(l) => if l != user {
            Err(Error::NotLessee)
        } else {
            Ok(())
        },
    }
}

/// What burning `id` on behalf of `sender` makes of `s`.
pub open spec fn burn_outcome(s: RentState, sender: AccountId, id: CollectibleId) -> Result<
    RentState,
    Error,
> {
    match fetch(s, id) {
        Err(e) => Err(e),
        Ok(c) => if c.lessor != sender {
            Err(Error::NotLessor)
        } else if c.lessee is Some {
            Err(Error::NotAllowedWhileRented)
        } else {
            let s1 = RentState {
                collectibles: s.collectibles.remove(id),
                lessor_collectibles: s.lessor_collectibles.insert(
                    sender,
                    without_id(s.owned_by(sender), id),
                ),
                ..s
            };
            Ok(s1.unequip(sender, c.collectible_id))
        },
    }
}

/// What offering `id` for rent makes of `s`.
pub open spec fn set_rentable_outcome(
    s: RentState,
    sender: AccountId,
    id: CollectibleId,
    price_per_block: u64,
    minimum_rental_period: u32,
    maximum_rental_period: u32,
) -> Result<RentState, Error> {
    match fetch(s, id) {
        Err(e) => Err(e),
        Ok(c) => if c.lessor != sender {
            Err(Error::NotLessor)
        } else if minimum_rental_period > maximum_rental_period {
            Err(Error::MinimumMustBeLessThanMaximum)
        } else if c.lessee is Some {
            Err(Error::NotAllowedWhileRented)
        } else if s.rentable_collectibles.len() >= s.config.maximum_owned {
            Err(Error::TooManyCollectibles)
        } else {
            let offered = Collectible {
                price_per_block: Some(price_per_block),
                rentable: true,
                minimum_rental_period: Some(minimum_rental_period),
                maximum_rental_period: Some(maximum_rental_period),
                ..c
            };
            let s1 = RentState {
                collectibles: s.collectibles.insert(id, offered),
                rentable_collectibles: s.rentable_collectibles.push(id),
                ..s
            };
            Ok(
                s1.unequip(sender, c.collectible_id).deposit(
                    Event::RentMadeAvailable { collectible: id, price_per_block },
                ),
            )
        },
    }
}

/// Whether `sender` may rent `id` for `blocks` blocks.
pub open spec fn rent_check(s: RentState, sender: AccountId, id: CollectibleId, blocks: u32) -> Result<
    (),
    Error,
> {
    match fetch(s, id) {
        Err(e) => Err(e),
        Ok(c) => if c.minimum_rental_period matches Some(m) && blocks < m {
            Err(Error::RentalPeriodTooShort)
        } else if c.maximum_rental_period matches Some(m) && blocks > m {
            Err(Error::RentalPeriodTooLong)
        } else if c.lessor == sender {
            Err(Error::CannotRentOwnCollectible)
        } else if c.lessee == Some(sender) {
            Err(Error::AlreadyRented)
        } else if c.lessee is Some || !c.rentable {
            Err(Error::RentNotAvailable)
        } else {
            Ok(())
        },
    }
}

/// The price of `blocks` blocks of `c`.
pub open spec fn rent_price(c: Collectible, blocks: u32) -> int {
    c.price_per_block.unwrap() * blocks
}

/// What paying `amount` returns where the currency answers `balance` for the
/// payer's free balance and `accepted` for the transfer.
pub open spec fn payment_result(amount: Balance, balance: Balance, accepted: bool) -> Result<
    (),
    DispatchError,
> {
    if balance < amount {
        Err(DispatchError::Module(Error::NotEnoughBalance))
    } else if accepted {
        Ok(())
    } else {
        Err(DispatchError::Transfer(TransferError))
    }
}

/// Renting neither panics nor searches forever once the checks passed.
pub open spec fn rent_can_run(s: RentState, sender: AccountId, id: CollectibleId, blocks: u32) -> bool {
    rent_check(s, sender, id, blocks) is Ok ==> {
        let c = s.collectibles[id];
        &&& c.price_per_block is Some
        &&& rent_price(c, blocks) <= u64::MAX
        &&& s.can_schedule(s.block_number, blocks)
    }
}

/// What a paid rental of `id` by `sender` makes of `s`.
pub open spec fn rent_effect(
    s: RentState,
    sender: AccountId,
    id: CollectibleId,
    blocks: u32,
    recurring: bool,
) -> RentState {
    let c = s.collectibles[id];
    let s1 = s.deposit(
        Event::RentPayed {
            lessor: c.lessor,
            lessee: sender,
            collectible: id,
            total_rent_price: rent_price(c, blocks) as u64,
        },
    );
    let next = s1.due_block(s.block_number, blocks);
    let s2 = s1.schedule(s.block_number, blocks, id, sender);
    RentState {
        lessee_collectibles: s2.lessee_collectibles.insert(
            (sender, id),
            RentalPeriodConfig { rental_periodic_interval: blocks, next_rent_block: next, recurring },
        ),
        collectibles: s2.collectibles.insert(id, Collectible { lessee: Some(sender), ..c }),
        ..s2
    }
}

/// What taking `id` off rent makes of `s`.
pub open spec fn set_unrentable_outcome(s: RentState, sender: AccountId, id: CollectibleId) -> Result<
    RentState,
    Error,
> {
    match fetch(s, id) {
        Err(e) => Err(e),
        Ok(c) => if c.lessor != sender {
            Err(Error::NotLessor)
        } else {
            let s1 = RentState {
                collectibles: s.collectibles.insert(id, Collectible { rentable: false, ..c }),
                rentable_collectibles: without_id(s.rentable_collectibles, id),
                ..s
            };
            Ok(s1.deposit(Event::RentMadeUnavailable { collectible: id }))
        },
    }
}

/// What making the rental of `id` recurring or not makes of `s`.
pub open spec fn set_recurring_outcome(
    s: RentState,
    sender: AccountId,
    id: CollectibleId,
    recurring: bool,
) -> Result<RentState, Error> {
    match fetch(s, id) {
        Err(e) => Err(e),
        Ok(c) => match lessee_check(c, sender) {
            Err(e) => Err(e),
            Ok(_) => if !s.lessee_collectibles.contains_key((sender, id)) {
                Err(Error::NoCollectible)
            } else {
                let rental = s.lessee_collectibles[(sender, id)];
                let s1 = RentState {
                    lessee_collectibles: s.lessee_collectibles.insert(
                        (sender, id),
                        RentalPeriodConfig { recurring, ..rental },
                    ),
                    collectibles: s.collectibles.insert(id, c),
                    ..s
                };
                Ok(s1.deposit(Event::RentalSetRecurring { collectible: id, recurring }))
            },
        },
    }
}

/// Whether `sender` may extend the rental of `id` by `blocks` blocks. The
/// rental is looked up under the identifier that the stored collectible carries.
pub open spec fn extend_check(s: RentState, sender: AccountId, id: CollectibleId, blocks: u64) -> Result<
    (),
    Error,
> {
    match fetch(s, id) {
        Err(e) => Err(e),
        Ok(c) => match lessee_check(c, sender) {
            Err(e) => Err(e),
            Ok(_) => if !s.lessee_collectibles.contains_key((sender, c.collectible_id)) {
                Err(Error::NoCollectible)
            } else if blocks + s.lessee_collectibles[(sender, c.collectible_id)].next_rent_block
                > c.maximum_rental_period.unwrap() {
                Err(Error::RentalPeriodTooLong)
            } else {
                Ok(())
            },
        },
    }
}

/// The price of extending a rental of `c` by `blocks` blocks.
pub open spec fn extend_price(c: Collectible, blocks: u64) -> int {
    blocks * c.price_per_block.unwrap()
}

/// The state of an extension after the old due entry was dropped.
pub open spec fn extend_unscheduled(s: RentState, id: CollectibleId, due: BlockNumber) -> RentState {
    RentState {
        pending_rentals: s.pending_rentals.insert(due, entries_without_id(s.pending_at(due), id)),
        ..s
    }
}

/// Extending neither panics nor searches forever.
pub open spec fn extend_can_run(s: RentState, sender: AccountId, id: CollectibleId, blocks: u64) -> bool {
    let c = s.collectibles[id];
    &&& (s.collectibles.contains_key(id) && lessee_check(c, sender) is Ok
        && s.lessee_collectibles.contains_key((sender, c.collectible_id))) ==> {
        &&& c.maximum_rental_period is Some
        &&& blocks + s.lessee_collectibles[(sender, c.collectible_id)].next_rent_block <= u64::MAX
    }
    &&& extend_check(s, sender, id, blocks) is Ok ==> {
        let due = s.lessee_collectibles[(sender, c.collectible_id)].next_rent_block;
        &&& c.price_per_block is Some
        &&& c.price_per_block.unwrap() <= u32::MAX
        &&& extend_price(c, blocks) <= u32::MAX
        &&& extend_unscheduled(s, c.collectible_id, due).can_schedule(due, blocks as u32)
    }
}

/// An extension by `blocks` blocks of the rental of `c` by `lessee` that
/// passed its checks can be completed without panicking or searching forever.
pub open spec fn extend_ready(s: RentState, lessee: AccountId, c: Collectible, blocks: u64) -> bool {
    let id = c.collectible_id;
    let due = s.lessee_collectibles[(lessee, id)].next_rent_block;
    &&& s.lessee_collectibles.contains_key((lessee, id))
    &&& blocks <= u32::MAX
    &&& c.price_per_block is Some
    &&& c.price_per_block.unwrap() <= u32::MAX
    &&& extend_price(c, blocks) <= u32::MAX
    &&& extend_unscheduled(s, id, due).can_schedule(due, blocks as u32)
}

/// What a paid extension by `blocks` blocks of the rental of `c` by `lessee`
/// makes of `s`.
pub open spec fn extend_effect(s: RentState, lessee: AccountId, c: Collectible, blocks: u64) -> RentState {
    let id = c.collectible_id;
    let rental = s.lessee_collectibles[(lessee, id)];
    let due = rental.next_rent_block;
    let s1 = s.deposit(
        Event::RentPayed {
            lessee,
            lessor: c.lessor,
            collectible: id,
            total_rent_price: extend_price(c, blocks) as u64,
        },
    );
    let s2 = extend_unscheduled(s1, id, due).deposit(
        Event::RentalPeriodRemoved { collectible: id, at_block: due },
    );
    let next = s2.due_block(due, blocks as u32);
    let s3 = s2.schedule(due, blocks as u32, id, lessee);
    let s4 = RentState {
        lessee_collectibles: s3.lessee_collectibles.insert(
            (lessee, id),
            RentalPeriodConfig { next_rent_block: next, ..rental },
        ),
        ..s3
    };
    s4.deposit(
        Event::RentalExtended { lessor: c.lessor, lessee, collectible: id, next_rent_block: next },
    ).deposit(Event::RentalPeriodAdded { collectible: id, next_rent_block: next })
}

/// The account on whose behalf `sender` equips `c`.
pub open spec fn equip_account(c: Collectible, sender: AccountId) -> Result<AccountId, Error> {
    if c.lessor == sender {
        if c.lessee is Some || c.rentable {
            Err(Error::NotAllowedWhileRented)
        } else {
            Ok(c.lessor)
        }
    } else {
        match c.lessee {
            Some(l) => if l != sender {
                Err(Error::NotLessee)
            } else {
                Ok(l)
            },
            None => Err(Error::NoAccountFoundForCollectible),
        }
    }
}

/// What equipping `id` makes of `s`.
pub open spec fn equip_outcome(s: RentState, sender: AccountId, id: CollectibleId) -> Result<
    RentState,
    Error,
> {
    match fetch(s, id) {
        Err(e) => Err(e),
        Ok(c) => match equip_account(c, sender) {
            Err(e) => Err(e),
            Ok(account) => if s.equipped_by(account).len() >= s.config.maximum_owned {
                Err(Error::TooManyCollectiblesEquiped)
            } else {
                let s1 = RentState {
                    account_equips: s.account_equips.insert(
                        account,
                        s.equipped_by(account).push(id),
                    ),
                    ..s
                };
                Ok(s1.deposit(Event::CollectibleEquipped { account: sender, collectible: id }))
            },
        },
    }
}

/// What unequipping `id` makes of `s`.
pub open spec fn unequip_outcome(s: RentState, sender: AccountId, id: CollectibleId) -> Result<
    RentState,
    Error,
> {
    match fetch(s, id) {
        Err(e) => Err(e),
        Ok(c) => if lessee_check(c, sender) is Err && c.lessor != sender {
            Err(Error::NotLessor)
        } else {
            Ok(
                s.unequip(sender, c.collectible_id).deposit(
                    Event::CollectibleUnequipped { account: sender, collectible: id },
                ),
            )
        },
    }
}

/// The rental `entry` continues into a new period (and is to be paid).
pub open spec fn entry_continues(s: RentState, entry: (CollectibleId, AccountId)) -> bool {
    let c = s.collectibles[entry.0];
    let rental = s.lessee_collectibles[(entry.1, entry.0)];
    c.rentable && c.lessee is Some && rental.recurring
}

/// The price of one more period of the rental `entry`.
pub open spec fn entry_price(s: RentState, entry: (CollectibleId, AccountId)) -> int {
    let c = s.collectibles[entry.0];
    let rental = s.lessee_collectibles[(entry.1, entry.0)];
    c.price_per_block.unwrap() * rental.rental_periodic_interval
}

/// Processing the due rental `entry` does not panic nor search forever,
/// whether its payment goes through (`paid`) or not.
pub open spec fn entry_can_run(s: RentState, entry: (CollectibleId, AccountId), paid: bool) -> bool {
    &&& s.lessee_collectibles.contains_key((entry.1, entry.0))
    &&& s.collectibles.contains_key(entry.0)
    &&& entry_continues(s, entry) ==> {
        &&& s.collectibles[entry.0].price_per_block is Some
        &&& entry_price(s, entry) <= u64::MAX
        &&& paid ==> s.can_schedule(
            s.block_number,
            s.lessee_collectibles[(entry.1, entry.0)].rental_periodic_interval,
        )
    }
}

/// What processing the due rental `entry` makes of `s`; `paid` says whether
/// its payment went through.
pub open spec fn process_entry(s: RentState, entry: (CollectibleId, AccountId), paid: bool) -> RentState {
    let id = entry.0;
    let lessee = entry.1;
    let rental = s.lessee_collectibles[(lessee, id)];
    let c = s.collectibles[id];
    if !entry_continues(s, entry) {
        s.remove_lessee(lessee, c).deposit(
            Event::RentalEnded { lessee, lessor: c.lessor, collectible: id },
        )
    } else if !paid {
        s.remove_lessee(lessee, c).deposit(
            Event::ErrorTransferingRent { lessee, lessor: c.lessor, collectible: id },
        )
    } else {
        let s1 = s.deposit(
            Event::RentPayed {
                lessee,
                lessor: c.lessor,
                collectible: id,
                total_rent_price: entry_price(s, entry) as u64,
            },
        );
        let next = s1.due_block(s.block_number, rental.rental_periodic_interval);
        let s2 = s1.schedule(s.block_number, rental.rental_periodic_interval, id, lessee);
        RentState {
            lessee_collectibles: s2.lessee_collectibles.insert(
                (lessee, id),
                RentalPeriodConfig { next_rent_block: next, ..rental },
            ),
            ..s2
        }
    }
}

/// Processing `entries` in order does not panic nor search forever, whatever
/// becomes of each payment.
pub open spec fn entries_can_run(s: RentState, entries: Seq<(CollectibleId, AccountId)>) -> bool
    decreases entries.len(),
{
    entries.len() > 0 ==> {
        &&& entry_can_run(s, entries[0], true)
        &&& entry_can_run(s, entries[0], false)
        &&& entries_can_run(process_entry(s, entries[0], true), entries.drop_first())
        &&& entries_can_run(process_entry(s, entries[0], false), entries.drop_first())
    }
}

/// The questions that processing the due rental `entry` puts to a currency
/// that answers `balance` for the lessee's free balance and `accepted` for the
/// transfer: a rental that goes on is paid by its lessee to its lessor.
pub open spec fn entry_calls(
    s: RentState,
    entry: (CollectibleId, AccountId),
    balance: Balance,
    accepted: bool,
) -> Seq<CurrencyCall> {
    if entry_continues(s, entry) {
        payment_calls(
            entry.1,
            s.collectibles[entry.0].lessor,
            entry_price(s, entry) as Balance,
            balance,
            accepted,
        )
    } else {
        Seq::empty()
    }
}

/// The due rental `entry` goes on and the currency, answering `balance` and
/// `accepted`, made its payment.
pub open spec fn entry_paid(
    s: RentState,
    entry: (CollectibleId, AccountId),
    balance: Balance,
    accepted: bool,
) -> bool {
    entry_continues(s, entry) && payment_made(entry_price(s, entry) as Balance, balance, accepted)
}

/// Processing `entries` in order, where `answers[i]` is what the currency
/// answers for the payment of `entries[i]` (the free balance, and whether the
/// transfer is made): the state it leaves and the questions put to the
/// currency, oldest first.
pub open spec fn process_run(
    s: RentState,
    entries: Seq<(CollectibleId, AccountId)>,
    answers: Seq<(Balance, bool)>,
) -> (RentState, Seq<CurrencyCall>)
    decreases entries.len(),
{
    if entries.len() == 0 {
        (s, Seq::empty())
    } else {
        let before = process_run(s, entries.drop_last(), answers.drop_last());
        let entry = entries.last();
        let answer = answers.last();
        (
            process_entry(before.0, entry, entry_paid(before.0, entry, answer.0, answer.1)),
            before.1 + entry_calls(before.0, entry, answer.0, answer.1),
        )
    }
}

/// The rentals due at `n` are forgotten.
pub open spec fn clear_pending(s: RentState, n: BlockNumber) -> RentState {
    RentState { pending_rentals: s.pending_rentals.remove(n), ..s }
}

} // verus!
