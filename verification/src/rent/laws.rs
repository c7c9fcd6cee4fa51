//! What holds of the rent pallet across its calls.
use vstd::prelude::*;

use crate::filters::{
    entry_other_than, has_entry_for, lemma_entries_without_id_drops,
    lemma_entries_without_id_filter, lemma_without_id_filter, lemma_without_id_len,
    lemma_without_id_push_same, other_than, without_id,
};
use crate::currency::CurrencyCall;
use crate::rent::model::{
    burn_outcome, entry_calls, entry_can_run, entry_continues, entry_paid, entry_price, equip_outcome, extend_effect, extend_ready,
    extend_unscheduled, mint_outcome, minted, process_entry, rent_check, rent_effect,
    set_recurring_outcome, set_rentable_outcome, set_unrentable_outcome, unequip_outcome,
    RentState,
};
use crate::rent::types::{Collectible, RentalPeriodConfig};
use crate::types::{AccountId, Balance, BlockNumber, CollectibleId};

verus! {

/// Burning a collectible right after minting it, on behalf of its lessor,
/// succeeds: the collectibles are as before the mint, and the lessor's list is
/// its list before the mint without the collectible.
pub proof fn law_burn_undoes_mint(s: RentState, lessor: AccountId, id: CollectibleId)
    requires
        mint_outcome(s, lessor, id) is Ok,
    ensures
        ({
            let minted_state = mint_outcome(s, lessor, id)->Ok_0;
            &&& burn_outcome(minted_state, lessor, id) is Ok
            &&& burn_outcome(minted_state, lessor, id)->Ok_0.collectibles == s.collectibles
            &&& burn_outcome(minted_state, lessor, id)->Ok_0.owned_by(lessor) == without_id(
                s.owned_by(lessor),
                id,
            )
        }),
{
    let s1 = mint_outcome(s, lessor, id)->Ok_0;
    assert(s1.collectibles[id] == minted(id, lessor));
    let s2 = burn_outcome(s1, lessor, id)->Ok_0;
    assert(s2.collectibles =~= s.collectibles);
    lemma_without_id_push_same(s.owned_by(lessor), id);
}

/// A collectible offered for rent reads back with the terms it was offered
/// at, its lessor and identifier unchanged, and is appended to the list of
/// rentable collectibles, which keeps every collectible listed before; no
/// other collectible changes.
pub proof fn law_set_rentable_reads_back(
    s: RentState,
    sender: AccountId,
    id: CollectibleId,
    price_per_block: Balance,
    minimum_rental_period: u32,
    maximum_rental_period: u32,
)
    requires
        set_rentable_outcome(
            s,
            sender,
            id,
            price_per_block,
            minimum_rental_period,
            maximum_rental_period,
        ) is Ok,
    ensures
        ({
            let s1 = set_rentable_outcome(
                s,
                sender,
                id,
                price_per_block,
                minimum_rental_period,
                maximum_rental_period,
            )->Ok_0;
            &&& s1.collectibles[id] == (Collectible {
                price_per_block: Some(price_per_block),
                rentable: true,
                minimum_rental_period: Some(minimum_rental_period),
                maximum_rental_period: Some(maximum_rental_period),
                ..s.collectibles[id]
            })
            &&& s1.collectibles[id].lessor == sender
            &&& s1.rentable_collectibles.contains(id)
            &&& s1.rentable_collectibles == s.rentable_collectibles.push(id)
            &&& s1.collectibles.remove(id) == s.collectibles.remove(id)
        }),
{
    let s1 = set_rentable_outcome(
        s,
        sender,
        id,
        price_per_block,
        minimum_rental_period,
        maximum_rental_period,
    )->Ok_0;
    assert(s1.rentable_collectibles[s1.rentable_collectibles.len() - 1] == id);
}

/// A collectible withdrawn from rent is neither rentable nor listed as such,
/// and nobody can rent it. Only its rentable flag changes, every other
/// collectible listed as rentable stays listed, in order, and no other
/// collectible changes.
pub proof fn law_set_unrentable_withdraws(s: RentState, sender: AccountId, id: CollectibleId)
    requires
        set_unrentable_outcome(s, sender, id) is Ok,
    ensures
        set_unrentable_outcome(s, sender, id)->Ok_0.collectibles[id] == (Collectible {
            rentable: false,
            ..s.collectibles[id]
        }),
        set_unrentable_outcome(s, sender, id)->Ok_0.collectibles.remove(id) == s.collectibles.remove(
            id,
        ),
        set_unrentable_outcome(s, sender, id)->Ok_0.rentable_collectibles
            == s.rentable_collectibles.filter(other_than(id)),
        !set_unrentable_outcome(s, sender, id)->Ok_0.collectibles[id].rentable,
        !set_unrentable_outcome(s, sender, id)->Ok_0.rentable_collectibles.contains(id),
        forall|renter: AccountId, blocks: u32|
            #[trigger] rent_check(set_unrentable_outcome(s, sender, id)->Ok_0, renter, id, blocks) is Err,
{
    lemma_without_id_len(s.rentable_collectibles, id);
    lemma_without_id_filter(s.rentable_collectibles, id);
}

/// While a collectible has a lessee, nobody can burn it, offer it for rent
/// or rent it.
pub proof fn law_rented_collectible_is_held(
    s: RentState,
    id: CollectibleId,
    sender: AccountId,
    price_per_block: Balance,
    minimum_rental_period: u32,
    maximum_rental_period: u32,
    blocks: u32,
)
    requires
        s.collectibles.contains_key(id),
        s.collectibles[id].lessee is Some,
    ensures
        burn_outcome(s, sender, id) is Err,
        set_rentable_outcome(
            s,
            sender,
            id,
            price_per_block,
            minimum_rental_period,
            maximum_rental_period,
        ) is Err,
        rent_check(s, sender, id, blocks) is Err,
{
}

/// A paid rental gives the collectible its lessee, records the terms of the
/// rental with the block it falls due at, and appends it to the rentals due
/// then: the first block, `blocks` blocks from now or later, that has room.
pub proof fn law_rent_records_rental(
    s: RentState,
    sender: AccountId,
    id: CollectibleId,
    blocks: u32,
    recurring: bool,
)
    requires
        rent_check(s, sender, id, blocks) is Ok,
        s.can_schedule(s.block_number, blocks),
    ensures
        ({
            let s1 = rent_effect(s, sender, id, blocks, recurring);
            let due = s.due_block(s.block_number, blocks);
            &&& s1.collectibles[id] == (Collectible { lessee: Some(sender), ..s.collectibles[id] })
            &&& s1.lessee_collectibles[(sender, id)] == (RentalPeriodConfig {
                rental_periodic_interval: blocks,
                next_rent_block: due,
                recurring,
            })
            &&& s1.pending_at(due) == s.pending_at(due).push((id, sender))
            &&& s.block_number + blocks <= due
            &&& s.has_room(due)
            &&& forall|b: BlockNumber| s.block_number + blocks <= b < due ==> !#[trigger] s.has_room(b)
        }),
{
    s.lemma_free_block_from((s.block_number + blocks) as BlockNumber);
}

/// A due rental that does not go on, or whose payment failed, ends: the
/// collectible has no lessee and is otherwise as it was (still offered for
/// rent where it was), the terms are dropped, the lessee no longer has it
/// equipped, no other collectible changes and nothing is scheduled.
pub proof fn law_ended_rental_frees_collectible(
    s: RentState,
    entry: (CollectibleId, AccountId),
    paid: bool,
)
    requires
        s.wf(),
        entry_can_run(s, entry, paid),
        !entry_continues(s, entry) || !paid,
    ensures
        ({
            let s1 = process_entry(s, entry, paid);
            &&& s1.collectibles[entry.0].lessee is None
            &&& s1.collectibles[entry.0] == (Collectible {
                lessee: None,
                ..s.collectibles[entry.0]
            })
            &&& s1.collectibles.remove(entry.0) == s.collectibles.remove(entry.0)
            &&& !s1.lessee_collectibles.contains_key((entry.1, entry.0))
            &&& !s1.equipped_by(entry.1).contains(entry.0)
            &&& s1.pending_rentals == s.pending_rentals
        }),
{
    let c = s.collectibles[entry.0];
    assert(c.collectible_id == entry.0);
    let s0 = s.remove_lessee(entry.1, c);
    lemma_without_id_len(
        RentState {
            lessee_collectibles: s.lessee_collectibles.remove((entry.1, entry.0)),
            collectibles: s.collectibles.insert(entry.0, Collectible { lessee: None, ..c }),
            ..s
        }.equipped_by(entry.1),
        entry.0,
    );
}

/// A due recurring rental that is paid goes on: the collectible keeps its
/// lessee, the terms fall due one period later, and the rental is appended to
/// the rentals due then.
pub proof fn law_paid_rental_renews(s: RentState, entry: (CollectibleId, AccountId))
    requires
        entry_can_run(s, entry, true),
        entry_continues(s, entry),
    ensures
        ({
            let s1 = process_entry(s, entry, true);
            let rental = s.lessee_collectibles[(entry.1, entry.0)];
            let due = s.due_block(s.block_number, rental.rental_periodic_interval);
            &&& s1.collectibles == s.collectibles
            &&& s1.lessee_collectibles[(entry.1, entry.0)] == (RentalPeriodConfig {
                next_rent_block: due,
                ..rental
            })
            &&& s1.pending_at(due) == s.pending_at(due).push(entry)
        }),
{
}

/// Each due rental either ends or is renewed. It is renewed exactly when it
/// goes on and the currency made the payment, the last question put to it being
/// the transfer of the price of one more period from the lessee to the lessor:
/// the collectible keeps its lessee, and the terms fall due at a block at least
/// one period ahead, among the rentals due there. Otherwise the collectible has
/// no lessee, the terms are dropped, the lessee no longer has it equipped, and
/// no transfer was made.
pub proof fn law_due_rental_ends_or_renews(
    s: RentState,
    entry: (CollectibleId, AccountId),
    balance: Balance,
    accepted: bool,
)
    requires
        s.wf(),
        entry_can_run(s, entry, entry_paid(s, entry, balance, accepted)),
    ensures
        ({
            let paid = entry_paid(s, entry, balance, accepted);
            let s1 = process_entry(s, entry, paid);
            let calls = entry_calls(s, entry, balance, accepted);
            let rental = s.lessee_collectibles[(entry.1, entry.0)];
            if paid {
                &&& calls.last() == CurrencyCall::Transfer {
                    from: entry.1,
                    to: s.collectibles[entry.0].lessor,
                    amount: entry_price(s, entry) as Balance,
                    accepted: true,
                }
                &&& s1.collectibles == s.collectibles
                &&& s1.lessee_collectibles.contains_key((entry.1, entry.0))
                &&& s.block_number + rental.rental_periodic_interval
                    <= s1.lessee_collectibles[(entry.1, entry.0)].next_rent_block
                &&& s1.pending_at(s1.lessee_collectibles[(entry.1, entry.0)].next_rent_block).contains(
                    entry,
                )
            } else {
                &&& s1.collectibles[entry.0].lessee is None
                &&& !s1.lessee_collectibles.contains_key((entry.1, entry.0))
                &&& !s1.equipped_by(entry.1).contains(entry.0)
                &&& forall|i: int|
                    0 <= i < calls.len() ==> !(#[trigger] calls[i] matches CurrencyCall::Transfer {
                        accepted: true,
                        ..
                    })
            }
        }),
{
    let paid = entry_paid(s, entry, balance, accepted);
    if paid {
        let rental = s.lessee_collectibles[(entry.1, entry.0)];
        s.lemma_free_block_from((s.block_number + rental.rental_periodic_interval) as BlockNumber);
        let due = s.due_block(s.block_number, rental.rental_periodic_interval);
        let s1 = process_entry(s, entry, paid);
        assert(s1.pending_at(due).last() == entry);
    } else {
        law_ended_rental_frees_collectible(s, entry, paid);
    }
}

/// Unequipping a collectible right after equipping it, by the same account,
/// succeeds and leaves it out of what that account has equipped.
pub proof fn law_unequip_undoes_equip(s: RentState, sender: AccountId, id: CollectibleId)
    requires
        s.wf(),
        equip_outcome(s, sender, id) is Ok,
    ensures
        ({
            let s1 = equip_outcome(s, sender, id)->Ok_0;
            &&& unequip_outcome(s1, sender, id) is Ok
            &&& !unequip_outcome(s1, sender, id)->Ok_0.equipped_by(sender).contains(id)
        }),
{
    let s1 = equip_outcome(s, sender, id)->Ok_0;
    let c = s.collectibles[id];
    assert(c.collectible_id == id);
    assert(s1.collectibles == s.collectibles);
    lemma_without_id_len(s1.equipped_by(sender), id);
}

/// A paid extension moves the rental: its terms fall due at the new block, at
/// least `blocks` blocks past the old one, where the rental is appended to
/// what was due there. At the old block only the entries for the collectible
/// are dropped: every other rental due there stays, in order. Nothing due at
/// any other block changes, nor does any collectible.
pub proof fn law_extend_moves_due_entry(
    s: RentState,
    lessee: AccountId,
    c: Collectible,
    blocks: u64,
)
    requires
        extend_ready(s, lessee, c, blocks),
    ensures
        ({
            let id = c.collectible_id;
            let rental = s.lessee_collectibles[(lessee, id)];
            let due = rental.next_rent_block;
            let next = extend_unscheduled(s, id, due).due_block(due, blocks as u32);
            let s1 = extend_effect(s, lessee, c, blocks);
            &&& s1.lessee_collectibles[(lessee, id)] == (RentalPeriodConfig {
                next_rent_block: next,
                ..rental
            })
            &&& s1.pending_at(next).last() == (id, lessee)
            &&& next != due ==> !has_entry_for(s1.pending_at(due), id)
            &&& due + blocks <= next
            &&& next != due ==> s1.pending_at(due) == s.pending_at(due).filter(
                entry_other_than(id),
            )
            &&& next != due ==> s1.pending_at(next) == s.pending_at(next).push((id, lessee))
            &&& next == due ==> s1.pending_at(due) == s.pending_at(due).filter(
                entry_other_than(id),
            ).push((id, lessee))
            &&& forall|b: BlockNumber|
                b != due && b != next ==> #[trigger] s1.pending_at(b) == s.pending_at(b)
            &&& s1.collectibles == s.collectibles
        }),
{
    let id = c.collectible_id;
    let due = s.lessee_collectibles[(lessee, id)].next_rent_block;
    lemma_entries_without_id_drops(s.pending_at(due), id);
    lemma_entries_without_id_filter(s.pending_at(due), id);
    extend_unscheduled(s, id, due).lemma_free_block_from((due + blocks) as BlockNumber);
}

/// Making a rental recurring or not sets exactly that term: the rental keeps
/// its period and due block, and nothing else is scheduled or changed.
pub proof fn law_set_recurring_sets_the_term(
    s: RentState,
    sender: AccountId,
    id: CollectibleId,
    recurring: bool,
)
    requires
        set_recurring_outcome(s, sender, id, recurring) is Ok,
    ensures
        ({
            let s1 = set_recurring_outcome(s, sender, id, recurring)->Ok_0;
            &&& s1.lessee_collectibles[(sender, id)].recurring == recurring
            &&& s1.lessee_collectibles[(sender, id)] == (RentalPeriodConfig {
                recurring,
                ..s.lessee_collectibles[(sender, id)]
            })
            &&& s1.lessee_collectibles.remove((sender, id)) == s.lessee_collectibles.remove(
                (sender, id),
            )
            &&& s1.collectibles == s.collectibles
            &&& s1.pending_rentals == s.pending_rentals
        }),
{
}

/// Burning a collectible removes it, and only it, from the collectibles and
/// from its lessor's list, which keeps the rest in order.
pub proof fn law_burn_removes_only_it(s: RentState, sender: AccountId, id: CollectibleId)
    requires
        burn_outcome(s, sender, id) is Ok,
    ensures
        burn_outcome(s, sender, id)->Ok_0.collectibles == s.collectibles.remove(id),
        burn_outcome(s, sender, id)->Ok_0.owned_by(sender) == s.owned_by(sender).filter(
            other_than(id),
        ),
{
    lemma_without_id_filter(s.owned_by(sender), id);
}

/// Unequipping a collectible takes it, and only it, out of what the sender
/// has equipped, the rest in order.
pub proof fn law_unequip_removes_only_it(s: RentState, sender: AccountId, id: CollectibleId)
    requires
        s.wf(),
        unequip_outcome(s, sender, id) is Ok,
    ensures
        unequip_outcome(s, sender, id)->Ok_0.equipped_by(sender) == s.equipped_by(sender).filter(
            other_than(id),
        ),
        unequip_outcome(s, sender, id)->Ok_0.collectibles == s.collectibles,
{
    assert(s.collectibles[id].collectible_id == id);
    lemma_without_id_filter(s.equipped_by(sender), id);
}


pub(crate) proof fn lemma_owners_listed_frame(s: RentState, t: RentState)
    requires
        s.owners_listed(),
        t.collectibles == s.collectibles,
        t.lessor_collectibles == s.lessor_collectibles,
    ensures
        t.owners_listed(),
{
    assert forall|a: AccountId| #[trigger] t.owned_by(a) == s.owned_by(a) by {}
}

proof fn lemma_owners_listed_update(s: RentState, t: RentState, id: CollectibleId)
    requires
        s.owners_listed(),
        s.collectibles.contains_key(id),
        t.lessor_collectibles == s.lessor_collectibles,
        t.collectibles == s.collectibles.insert(id, t.collectibles[id]),
        t.collectibles[id].lessor == s.collectibles[id].lessor,
    ensures
        t.owners_listed(),
{
    assert forall|a: AccountId| #[trigger] t.owned_by(a) == s.owned_by(a) by {}
    assert forall|x: CollectibleId| #[trigger] t.collectibles.contains_key(x) implies t.owned_by(
        t.collectibles[x].lessor,
    ).contains(x) by {
        assert(s.collectibles.contains_key(x));
    }
}

/// Minting keeps each account's list exactly the collectibles it is the
/// lessor of.
pub proof fn law_mint_keeps_owners_listed(s: RentState, lessor: AccountId, id: CollectibleId)
    ensures
        s.owners_listed() && mint_outcome(s, lessor, id) is Ok ==> mint_outcome(
            s,
            lessor,
            id,
        )->Ok_0.owners_listed(),
{
    if s.owners_listed() && mint_outcome(s, lessor, id) is Ok {
        let t = mint_outcome(s, lessor, id)->Ok_0;
        assert forall|x: CollectibleId| #[trigger] t.collectibles.contains_key(x) implies t.owned_by(
            t.collectibles[x].lessor,
        ).contains(x) by {
            if x == id {
                assert(t.owned_by(lessor)[t.owned_by(lessor).len() - 1] == id);
            } else {
                let a = s.collectibles[x].lessor;
                let k = choose|k: int| 0 <= k < s.owned_by(a).len() && s.owned_by(a)[k] == x;
                if a == lessor {
                    assert(t.owned_by(a)[k] == x);
                } else {
                    assert(t.owned_by(a) == s.owned_by(a));
                }
            }
        }
        assert forall|a: AccountId, x: CollectibleId| #[trigger] t.owned_by(a).contains(x) implies t.collectibles.contains_key(
            x,
        ) && t.collectibles[x].lessor == a by {
            if a == lessor {
                let k = choose|k: int| 0 <= k < t.owned_by(a).len() && t.owned_by(a)[k] == x;
                if k < s.owned_by(a).len() {
                    assert(s.owned_by(a)[k] == x);
                    assert(s.owned_by(a).contains(x));
                }
            } else {
                assert(t.owned_by(a) == s.owned_by(a));
            }
        }
    }
}

proof fn lemma_without_id_keeps_others(s: Seq<CollectibleId>, id: CollectibleId, x: CollectibleId)
    ensures
        x != id ==> (without_id(s, id).contains(x) <==> s.contains(x)),
        without_id(s, id).contains(x) ==> s.contains(x),
    decreases s.len(),
{
    if s.len() > 0 {
        lemma_without_id_keeps_others(s.drop_last(), id, x);
        let rest = without_id(s.drop_last(), id);
        let r = without_id(s, id);
        if s.contains(x) && x != id {
            let k = choose|k: int| 0 <= k < s.len() && s[k] == x;
            if k < s.len() - 1 {
                assert(s.drop_last()[k] == x);
                let j = choose|j: int| 0 <= j < rest.len() && rest[j] == x;
                if s.last() != id {
                    assert(r[j] == x);
                }
            } else {
                assert(r[r.len() - 1] == x);
            }
        }
        if r.contains(x) {
            let j = choose|j: int| 0 <= j < r.len() && r[j] == x;
            if s.last() == id || j < rest.len() {
                if s.last() != id {
                    assert(rest[j] == x);
                }
                assert(rest.contains(x));
                let k = choose|k: int| 0 <= k < s.drop_last().len() && s.drop_last()[k] == x;
                assert(s[k] == x);
            } else {
                assert(s[s.len() - 1] == x);
            }
        }
    }
}

/// Burning keeps each account's list exactly the collectibles it is the
/// lessor of.
pub proof fn law_burn_keeps_owners_listed(s: RentState, sender: AccountId, id: CollectibleId)
    ensures
        s.wf() && s.owners_listed() && burn_outcome(s, sender, id) is Ok ==> burn_outcome(
            s,
            sender,
            id,
        )->Ok_0.owners_listed(),
{
    if s.wf() && s.owners_listed() && burn_outcome(s, sender, id) is Ok {
        let c = s.collectibles[id];
        let s1 = RentState {
            collectibles: s.collectibles.remove(id),
            lessor_collectibles: s.lessor_collectibles.insert(sender, without_id(s.owned_by(sender), id)),
            ..s
        };
        assert forall|x: CollectibleId| #[trigger] s1.collectibles.contains_key(x) implies s1.owned_by(
            s1.collectibles[x].lessor,
        ).contains(x) by {
            let a = s.collectibles[x].lessor;
            assert(s.owned_by(a).contains(x));
            if a == sender {
                lemma_without_id_keeps_others(s.owned_by(a), id, x);
            }
        }
        assert forall|a: AccountId, x: CollectibleId| #[trigger] s1.owned_by(a).contains(x) implies s1.collectibles.contains_key(
            x,
        ) && s1.collectibles[x].lessor == a by {
            if a == sender {
                lemma_without_id_keeps_others(s.owned_by(a), id, x);
                lemma_without_id_len(s.owned_by(a), id);
            } else {
                assert(s1.owned_by(a) == s.owned_by(a));
            }
        }
        lemma_owners_listed_frame(s1, burn_outcome(s, sender, id)->Ok_0);
    }
}

/// Offering for rent keeps each account's list exactly the collectibles it is
/// the lessor of.
pub proof fn law_set_rentable_keeps_owners_listed(
    s: RentState,
    sender: AccountId,
    id: CollectibleId,
    price_per_block: Balance,
    minimum_rental_period: u32,
    maximum_rental_period: u32,
)
    ensures
        s.owners_listed() && set_rentable_outcome(
            s,
            sender,
            id,
            price_per_block,
            minimum_rental_period,
            maximum_rental_period,
        ) is Ok ==> set_rentable_outcome(
            s,
            sender,
            id,
            price_per_block,
            minimum_rental_period,
            maximum_rental_period,
        )->Ok_0.owners_listed(),
{
    if s.owners_listed() && set_rentable_outcome(
        s,
        sender,
        id,
        price_per_block,
        minimum_rental_period,
        maximum_rental_period,
    ) is Ok {
        let c = s.collectibles[id];
        let offered = Collectible {
            price_per_block: Some(price_per_block),
            rentable: true,
            minimum_rental_period: Some(minimum_rental_period),
            maximum_rental_period: Some(maximum_rental_period),
            ..c
        };
        let s1 = RentState {
            collectibles: s.collectibles.insert(id, offered),
            rentable_collectibles: s.rentable_collectibles.push(id),
            ..s
        };
        lemma_owners_listed_update(s, s1, id);
        lemma_owners_listed_frame(
            s1,
            set_rentable_outcome(
                s,
                sender,
                id,
                price_per_block,
                minimum_rental_period,
                maximum_rental_period,
            )->Ok_0,
        );
    }
}

/// A paid rental keeps each account's list exactly the collectibles it is the
/// lessor of.
pub proof fn law_rent_keeps_owners_listed(
    s: RentState,
    sender: AccountId,
    id: CollectibleId,
    blocks: u32,
    recurring: bool,
)
    ensures
        s.owners_listed() && rent_check(s, sender, id, blocks) is Ok ==> rent_effect(
            s,
            sender,
            id,
            blocks,
            recurring,
        ).owners_listed(),
{
    if s.owners_listed() && rent_check(s, sender, id, blocks) is Ok {
        let t = rent_effect(s, sender, id, blocks, recurring);
        let mid = RentState { collectibles: t.collectibles, ..s };
        lemma_owners_listed_update(s, mid, id);
        lemma_owners_listed_frame(mid, t);
    }
}

/// Withdrawing from rent keeps each account's list exactly the collectibles
/// it is the lessor of.
pub proof fn law_set_unrentable_keeps_owners_listed(s: RentState, sender: AccountId, id: CollectibleId)
    ensures
        s.owners_listed() && set_unrentable_outcome(s, sender, id) is Ok
            ==> set_unrentable_outcome(s, sender, id)->Ok_0.owners_listed(),
{
    if s.owners_listed() && set_unrentable_outcome(s, sender, id) is Ok {
        let t = set_unrentable_outcome(s, sender, id)->Ok_0;
        let mid = RentState { collectibles: t.collectibles, ..s };
        lemma_owners_listed_update(s, mid, id);
        lemma_owners_listed_frame(mid, t);
    }
}

/// Changing whether a rental recurs keeps each account's list exactly the
/// collectibles it is the lessor of.
pub proof fn law_set_recurring_keeps_owners_listed(
    s: RentState,
    sender: AccountId,
    id: CollectibleId,
    recurring: bool,
)
    ensures
        s.owners_listed() && set_recurring_outcome(s, sender, id, recurring) is Ok
            ==> set_recurring_outcome(s, sender, id, recurring)->Ok_0.owners_listed(),
{
    if s.owners_listed() && set_recurring_outcome(s, sender, id, recurring) is Ok {
        let t = set_recurring_outcome(s, sender, id, recurring)->Ok_0;
        assert(t.collectibles =~= s.collectibles);
        lemma_owners_listed_frame(s, t);
    }
}

/// Calls that leave the collectibles and the lessors' lists alone keep each
/// account's list exactly the collectibles it is the lessor of: extending a
/// rental, equipping and unequipping.
pub proof fn law_other_calls_keep_owners_listed(
    s: RentState,
    sender: AccountId,
    id: CollectibleId,
    c: Collectible,
    blocks: u64,
)
    ensures
        s.owners_listed() ==> extend_effect(s, sender, c, blocks).owners_listed(),
        s.owners_listed() && equip_outcome(s, sender, id) is Ok ==> equip_outcome(
            s,
            sender,
            id,
        )->Ok_0.owners_listed(),
        s.owners_listed() && unequip_outcome(s, sender, id) is Ok ==> unequip_outcome(
            s,
            sender,
            id,
        )->Ok_0.owners_listed(),
{
    if s.owners_listed() {
        lemma_owners_listed_frame(s, extend_effect(s, sender, c, blocks));
        if equip_outcome(s, sender, id) is Ok {
            lemma_owners_listed_frame(s, equip_outcome(s, sender, id)->Ok_0);
        }
        if unequip_outcome(s, sender, id) is Ok {
            lemma_owners_listed_frame(s, unequip_outcome(s, sender, id)->Ok_0);
        }
    }
}

/// Processing a due rental keeps each account's list exactly the collectibles
/// it is the lessor of.
pub proof fn law_processing_keeps_owners_listed(
    s: RentState,
    entry: (CollectibleId, AccountId),
    paid: bool,
)
    ensures
        s.wf() && s.owners_listed() && entry_can_run(s, entry, paid) ==> process_entry(
            s,
            entry,
            paid,
        ).owners_listed(),
{
    if s.wf() && s.owners_listed() && entry_can_run(s, entry, paid) {
        let t = process_entry(s, entry, paid);
        let c = s.collectibles[entry.0];
        assert(c.collectible_id == entry.0);
        if !entry_continues(s, entry) || !paid {
            let mid = RentState { collectibles: t.collectibles, ..s };
            lemma_owners_listed_update(s, mid, entry.0);
            lemma_owners_listed_frame(mid, t);
        } else {
            lemma_owners_listed_frame(s, t);
        }
    }
}

} // verus!
