//! What holds of the nft-on-rent pallet across its calls.
use vstd::prelude::*;

use crate::filters::{
    entry_other_than, has_entry_for, lemma_entries_without_id_drops,
    lemma_entries_without_id_filter, lemma_without_id_filter, lemma_without_id_len, other_than,
};
use crate::currency::CurrencyCall;
use crate::nft_on_rent::model::{
    entry_calls, entry_can_run, entry_continues, entry_paid, entry_price, equip_outcome,
    extend_can_run, extend_check, extend_effect, extend_unscheduled, mint_outcome,
    minted, process_entry, rent_check, rent_effect, set_recurring_outcome, set_rentable_outcome,
    set_unrentable_outcome,
    unequip_outcome, NftState,
};
use crate::nft_on_rent::types::{Collectible, RentalPeriodConfig};
use crate::types::{AccountId, Balance, BlockNumber, CollectibleId};

verus! {

/// A minted collectible reads back as minted: its lessor, no lessee, not
/// rentable, without terms.
pub proof fn law_mint_reads_back(s: NftState, lessor: AccountId, id: CollectibleId)
    requires
        mint_outcome(s, lessor, id) is Ok,
    ensures
        mint_outcome(s, lessor, id)->Ok_0.collectible_map[id] == minted(id, lessor),
{
}

/// A collectible offered for rent reads back with the terms it was offered at,
/// its lessor, lessee and identifier unchanged; no other collectible changes.
pub proof fn law_set_rentable_reads_back(
    s: NftState,
    sender: AccountId,
    id: CollectibleId,
    price_per_block: Balance,
    minimum_rental_period: u32,
    maximum_rental_period: u32,
)
    requires
        set_rentable_outcome(
            s,
            sender,
            id,
            price_per_block,
            minimum_rental_period,
            maximum_rental_period,
        ) is Ok,
    ensures
        set_rentable_outcome(
            s,
            sender,
            id,
            price_per_block,
            minimum_rental_period,
            maximum_rental_period,
        )->Ok_0.collectible_map[id] == (Collectible {
            price_per_block: Some(price_per_block),
            rentable: true,
            minimum_rental_period: Some(minimum_rental_period),
            maximum_rental_period: Some(maximum_rental_period),
            ..s.collectible_map[id]
        }),
        set_rentable_outcome(
            s,
            sender,
            id,
            price_per_block,
            minimum_rental_period,
            maximum_rental_period,
        )->Ok_0.collectible_map.remove(id) == s.collectible_map.remove(id),
{
}

/// A collectible withdrawn from rent is not rentable, and nobody can rent it;
/// only its rentable flag changes, and no other collectible changes.
pub proof fn law_set_unrentable_withdraws(s: NftState, sender: AccountId, id: CollectibleId)
    requires
        set_unrentable_outcome(s, sender, id) is Ok,
    ensures
        set_unrentable_outcome(s, sender, id)->Ok_0.collectible_map[id] == (Collectible {
            rentable: false,
            ..s.collectible_map[id]
        }),
        set_unrentable_outcome(s, sender, id)->Ok_0.collectible_map.remove(id)
            == s.collectible_map.remove(id),
        !set_unrentable_outcome(s, sender, id)->Ok_0.collectible_map[id].rentable,
        forall|renter: AccountId, blocks: u32|
            #[trigger] rent_check(set_unrentable_outcome(s, sender, id)->Ok_0, renter, id, blocks) is Err,
{
}

/// While a collectible has a lessee, nobody can rent it.
pub proof fn law_rented_collectible_is_held(
    s: NftState,
    id: CollectibleId,
    sender: AccountId,
    blocks: u32,
)
    requires
        s.collectible_map.contains_key(id),
        s.collectible_map[id].lessee is Some,
    ensures
        rent_check(s, sender, id, blocks) is Err,
{
}

/// A paid rental gives the collectible its lessee, records the terms of the
/// rental with the block it falls due at, and appends it to the rentals due
/// then: the first block, `blocks` blocks from now or later, that has room.
pub proof fn law_rent_records_rental(
    s: NftState,
    sender: AccountId,
    id: CollectibleId,
    blocks: u32,
    recurring: bool,
)
    requires
        rent_check(s, sender, id, blocks) is Ok,
        s.can_schedule(s.block_number, blocks),
    ensures
        ({
            let s1 = rent_effect(s, sender, id, blocks, recurring);
            let due = s.due_block(s.block_number, blocks);
            &&& s1.collectible_map[id] == (Collectible {
                lessee: Some(sender),
                ..s.collectible_map[id]
            })
            &&& s1.lessee_collectibles[(sender, id)] == (RentalPeriodConfig {
                rental_periodic_interval: blocks,
                next_rent_block: due,
                recurring,
            })
            &&& s1.pending_at(due) == s.pending_at(due).push((id, sender))
            &&& s.block_number + blocks <= due
            &&& s.has_room(due)
            &&& forall|b: BlockNumber| s.block_number + blocks <= b < due ==> !#[trigger] s.has_room(b)
        }),
{
    s.lemma_free_block_from((s.block_number + blocks) as BlockNumber);
}

/// A due rental that does not go on, or whose payment failed, ends: the
/// collectible has no lessee and is otherwise as it was (still offered for
/// rent where it was), the terms are dropped, the lessee no longer has it
/// equipped, no other collectible changes and nothing is scheduled.
pub proof fn law_ended_rental_frees_collectible(
    s: NftState,
    entry: (CollectibleId, AccountId),
    paid: bool,
)
    requires
        s.wf(),
        entry_can_run(s, entry, paid),
        !entry_continues(s, entry) || !paid,
    ensures
        ({
            let s1 = process_entry(s, entry, paid);
            &&& s1.collectible_map[entry.0].lessee is None
            &&& s1.collectible_map[entry.0] == (Collectible {
                lessee: None,
                ..s.collectible_map[entry.0]
            })
            &&& s1.collectible_map.remove(entry.0) == s.collectible_map.remove(entry.0)
            &&& !s1.lessee_collectibles.contains_key((entry.1, entry.0))
            &&& !s1.equipped_by(entry.1).contains(entry.0)
            &&& s1.pending_rentals == s.pending_rentals
        }),
{
    let c = s.collectible_map[entry.0];
    assert(c.unique_id == entry.0);
    lemma_without_id_len(s.equipped_by(entry.1), entry.0);
}

/// A due recurring rental that is paid goes on: the collectible keeps its
/// lessee, the terms fall due one period later, and the rental is appended to
/// the rentals due then.
pub proof fn law_paid_rental_renews(s: NftState, entry: (CollectibleId, AccountId))
    requires
        entry_can_run(s, entry, true),
        entry_continues(s, entry),
    ensures
        ({
            let s1 = process_entry(s, entry, true);
            let rental = s.lessee_collectibles[(entry.1, entry.0)];
            let due = s.due_block(s.block_number, rental.rental_periodic_interval);
            &&& s1.collectible_map == s.collectible_map
            &&& s1.lessee_collectibles[(entry.1, entry.0)] == (RentalPeriodConfig {
                next_rent_block: due,
                ..rental
            })
            &&& s1.pending_at(due) == s.pending_at(due).push(entry)
        }),
{
}

/// Unequipping a collectible right after equipping it, by the same account,
/// succeeds and leaves it out of what that account has equipped.
pub proof fn law_unequip_undoes_equip(s: NftState, sender: AccountId, id: CollectibleId)
    requires
        s.wf(),
        equip_outcome(s, sender, id) is Ok,
    ensures
        ({
            let s1 = equip_outcome(s, sender, id)->Ok_0;
            &&& unequip_outcome(s1, sender, id) is Ok
            &&& !unequip_outcome(s1, sender, id)->Ok_0.equipped_by(sender).contains(id)
        }),
{
    let s1 = equip_outcome(s, sender, id)->Ok_0;
    assert(s.collectible_map[id].unique_id == id);
    assert(s1.collectible_map == s.collectible_map);
    lemma_without_id_len(s1.equipped_by(sender), id);
}

/// An extension moves the rental: its terms fall due at the new block, at
/// least `blocks` blocks and one period past the old one, where the rental is
/// appended to what was due there. At the old block only the entries for the
/// collectible are dropped: every other rental due there stays, in order.
/// Nothing due at any other block changes, nor does any collectible.
pub proof fn law_extend_moves_due_entry(s: NftState, sender: AccountId, id: CollectibleId, blocks: u64)
    requires
        s.wf(),
        extend_check(s, sender, id) is Ok,
        extend_can_run(s, sender, id, blocks),
    ensures
        ({
            let rental = s.lessee_collectibles[(sender, id)];
            let due = rental.next_rent_block;
            let s1 = extend_effect(s, sender, id, blocks);
            let next = s1.lessee_collectibles[(sender, id)].next_rent_block;
            &&& s1.lessee_collectibles[(sender, id)] == (RentalPeriodConfig {
                next_rent_block: next,
                ..rental
            })
            &&& due + blocks + rental.rental_periodic_interval <= next
            &&& s1.pending_at(next) == extend_unscheduled(s, id, due).pending_at(next).push(
                (id, sender),
            )
            &&& next != due ==> s1.pending_at(next) == s.pending_at(next).push((id, sender))
            &&& next != due ==> !has_entry_for(s1.pending_at(due), id)
            &&& next != due ==> s1.pending_at(due) == s.pending_at(due).filter(
                entry_other_than(id),
            )
            &&& next == due ==> s1.pending_at(due) == s.pending_at(due).filter(
                entry_other_than(id),
            ).push((id, sender))
            &&& forall|b: BlockNumber|
                b != due && b != next ==> #[trigger] s1.pending_at(b) == s.pending_at(b)
            &&& s1.collectible_map == s.collectible_map
        }),
{
    let rental = s.lessee_collectibles[(sender, id)];
    let due = rental.next_rent_block;
    let s0 = extend_unscheduled(s, id, due);
    assert(s.collectible_map[id].unique_id == id);
    s0.lemma_free_block_from((due + blocks + rental.rental_periodic_interval) as BlockNumber);
    lemma_entries_without_id_drops(s.pending_at(due), id);
    lemma_entries_without_id_filter(s.pending_at(due), id);
}

/// Making a rental recurring or not sets exactly that term: the rental keeps
/// its period and due block, and nothing else is scheduled or changed.
pub proof fn law_set_recurring_sets_the_term(
    s: NftState,
    sender: AccountId,
    id: CollectibleId,
    recurring: bool,
)
    requires
        set_recurring_outcome(s, sender, id, recurring) is Ok,
    ensures
        ({
            let s1 = set_recurring_outcome(s, sender, id, recurring)->Ok_0;
            &&& s1.lessee_collectibles[(sender, id)].recurring == recurring
            &&& s1.lessee_collectibles[(sender, id)] == (RentalPeriodConfig {
                recurring,
                ..s.lessee_collectibles[(sender, id)]
            })
            &&& s1.lessee_collectibles.remove((sender, id)) == s.lessee_collectibles.remove(
                (sender, id),
            )
            &&& s1.collectible_map == s.collectible_map
            &&& s1.pending_rentals == s.pending_rentals
        }),
{
}

/// Unequipping a collectible takes it, and only it, out of what the sender
/// has equipped, the rest in order.
pub proof fn law_unequip_removes_only_it(s: NftState, sender: AccountId, id: CollectibleId)
    requires
        s.wf(),
        unequip_outcome(s, sender, id) is Ok,
    ensures
        unequip_outcome(s, sender, id)->Ok_0.equipped_by(sender) == s.equipped_by(sender).filter(
            other_than(id),
        ),
        unequip_outcome(s, sender, id)->Ok_0.collectible_map == s.collectible_map,
{
    assert(s.collectible_map[id].unique_id == id);
    lemma_without_id_filter(s.equipped_by(sender), id);
}

/// Each due rental either ends or is renewed. It is renewed exactly when it
/// goes on and the currency made its payment, the one question put to it being
/// the transfer of the price of one more period from the lessee to the lessor:
/// the collectible keeps its lessee, and the terms fall due at a block at least
/// one period ahead, among the rentals due there. Otherwise the collectible has
/// no lessee, the terms are dropped, the lessee no longer has it equipped, and
/// no transfer was made.
pub proof fn law_due_rental_ends_or_renews(
    s: NftState,
    entry: (CollectibleId, AccountId),
    accepted: bool,
)
    requires
        s.wf(),
        entry_can_run(s, entry, entry_paid(s, entry, accepted)),
    ensures
        ({
            let paid = entry_paid(s, entry, accepted);
            let s1 = process_entry(s, entry, paid);
            let calls = entry_calls(s, entry, accepted);
            let rental = s.lessee_collectibles[(entry.1, entry.0)];
            if paid {
                &&& calls == seq![
                    CurrencyCall::Transfer {
                        from: entry.1,
                        to: s.collectible_map[entry.0].lessor,
                        amount: entry_price(s, entry) as Balance,
                        accepted: true,
                    },
                ]
                &&& s1.collectible_map == s.collectible_map
                &&& s1.lessee_collectibles.contains_key((entry.1, entry.0))
                &&& s.block_number + rental.rental_periodic_interval
                    <= s1.lessee_collectibles[(entry.1, entry.0)].next_rent_block
                &&& s1.pending_at(s1.lessee_collectibles[(entry.1, entry.0)].next_rent_block).contains(
                    entry,
                )
            } else {
                &&& s1.collectible_map[entry.0].lessee is None
                &&& !s1.lessee_collectibles.contains_key((entry.1, entry.0))
                &&& !s1.equipped_by(entry.1).contains(entry.0)
                &&& forall|i: int|
                    0 <= i < calls.len() ==> !(#[trigger] calls[i] matches CurrencyCall::Transfer {
                        accepted: true,
                        ..
                    })
            }
        }),
{
    let paid = entry_paid(s, entry, accepted);
    if paid {
        let rental = s.lessee_collectibles[(entry.1, entry.0)];
        s.lemma_free_block_from((s.block_number + rental.rental_periodic_interval) as BlockNumber);
        let due = s.due_block(s.block_number, rental.rental_periodic_interval);
        let s1 = process_entry(s, entry, paid);
        assert(s1.pending_at(due).last() == entry);
    } else {
        law_ended_rental_frees_collectible(s, entry, paid);
    }
}

} // verus!
