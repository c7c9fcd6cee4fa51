//! Removing a collectible from the lists that storage keeps of it.
use vstd::prelude::*;

use crate::storage::bytes16_eq;
use crate::types::{AccountId, CollectibleId};

verus! {

/// `s` with every occurrence of `id` left out, the rest in order.
pub open spec fn without_id(s: Seq<CollectibleId>, id: CollectibleId) -> Seq<CollectibleId>
    decreases s.len(),
{
    if s.len() == 0 {
        s
    } else {
        let rest = without_id(s.drop_last(), id);
        if s.last() == id {
            rest
        } else {
            rest.push(s.last())
        }
    }
}

/// `s` with every entry for the collectible `id` left out, the rest in order.
pub open spec fn entries_without_id(
    s: Seq<(CollectibleId, AccountId)>,
    id: CollectibleId,
) -> Seq<(CollectibleId, AccountId)>
    decreases s.len(),
{
    if s.len() == 0 {
        s
    } else {
        let rest = entries_without_id(s.drop_last(), id);
        if s.last().0 == id {
            rest
        } else {
            rest.push(s.last())
        }
    }
}

/// Holds of every identifier other than `id`.
pub open spec fn other_than(id: CollectibleId) -> spec_fn(CollectibleId) -> bool {
    |x: CollectibleId| x != id
}

/// Holds of every entry for a collectible other than `id`.
pub open spec fn entry_other_than(id: CollectibleId) -> spec_fn((CollectibleId, AccountId)) -> bool {
    |e: (CollectibleId, AccountId)| e.0 != id
}

/// Leaving out `id` keeps exactly the identifiers other than `id`, in order.
pub proof fn lemma_without_id_filter(s: Seq<CollectibleId>, id: CollectibleId)
    ensures
        without_id(s, id) == s.filter(other_than(id)),
    decreases s.len(),
{
    reveal(Seq::filter);
    if s.len() > 0 {
        lemma_without_id_filter(s.drop_last(), id);
    }
}

/// Leaving out the entries for `id` keeps exactly the entries for other
/// collectibles, in order.
pub proof fn lemma_entries_without_id_filter(s: Seq<(CollectibleId, AccountId)>, id: CollectibleId)
    ensures
        entries_without_id(s, id) == s.filter(entry_other_than(id)),
    decreases s.len(),
{
    reveal(Seq::filter);
    if s.len() > 0 {
        lemma_entries_without_id_filter(s.drop_last(), id);
    }
}

/// What is left out is never longer than what was there.
pub proof fn lemma_without_id_len(s: Seq<CollectibleId>, id: CollectibleId)
    ensures
        without_id(s, id).len() <= s.len(),
        !s.contains(id) ==> without_id(s, id) == s,
        !without_id(s, id).contains(id),
    decreases s.len(),
{
    if s.len() > 0 {
        lemma_without_id_len(s.drop_last(), id);
        let rest = without_id(s.drop_last(), id);
        if !s.contains(id) {
            assert(!s.drop_last().contains(id)) by {
                if s.drop_last().contains(id) {
                    let k = choose|k: int| 0 <= k < s.drop_last().len() && s.drop_last()[k] == id;
                    assert(s[k] == id);
                }
            }
            assert(s.drop_last().push(s.last()) =~= s);
        }
        if s.last() != id {
            assert forall|k: int| 0 <= k < rest.push(s.last()).len() implies rest.push(s.last())[k]
                != id by {
                if k < rest.len() {
                    assert(rest.push(s.last())[k] == rest[k]);
                }
            }
        }
    }
}

/// What is left out is never longer than what was there.
pub proof fn lemma_entries_without_id_len(s: Seq<(CollectibleId, AccountId)>, id: CollectibleId)
    ensures
        entries_without_id(s, id).len() <= s.len(),
    decreases s.len(),
{
    if s.len() > 0 {
        lemma_entries_without_id_len(s.drop_last(), id);
    }
}

/// `s` holds an entry for the collectible `id`.
pub open spec fn has_entry_for(s: Seq<(CollectibleId, AccountId)>, id: CollectibleId) -> bool {
    exists|k: int| 0 <= k < s.len() && #[trigger] s[k].0 == id
}

/// No entry for `id` is left.
pub proof fn lemma_entries_without_id_drops(s: Seq<(CollectibleId, AccountId)>, id: CollectibleId)
    ensures
        !has_entry_for(entries_without_id(s, id), id),
    decreases s.len(),
{
    if s.len() > 0 {
        lemma_entries_without_id_drops(s.drop_last(), id);
        let rest = entries_without_id(s.drop_last(), id);
        if s.last().0 != id {
            let t = rest.push(s.last());
            assert forall|k: int| 0 <= k < t.len() implies #[trigger] t[k].0 != id by {
                if k < rest.len() {
                    assert(t[k] == rest[k]);
                }
            }
        }
    }
}

/// Leaving out an identifier that was just added gives what leaving it out
/// of the list before gives.
pub proof fn lemma_without_id_push_same(s: Seq<CollectibleId>, id: CollectibleId)
    ensures
        without_id(s.push(id), id) == without_id(s, id),
{
    assert(s.push(id).drop_last() =~= s);
}

/// The identifiers of `v` other than `id`, in order.
pub fn vec_without_id(v: &Vec<CollectibleId>, id: &CollectibleId) -> (r: Vec<CollectibleId>)
    ensures
        r@ == without_id(v@, *id),
{
    let mut r: Vec<CollectibleId> = Vec::new();
    let mut i: usize = 0;
    while i < v.len()
        invariant
            i <= v@.len(),
            r@ == without_id(v@.take(i as int), *id),
        decreases v@.len() - i,
    {
        assert(v@.take(i + 1).drop_last() =~= v@.take(i as int));
        let x: CollectibleId = v[i];
        if !bytes16_eq(&x, id) {
            r.push(x);
        }
        i = i + 1;
    }
    assert(v@.take(v@.len() as int) =~= v@);
    r
}

/// The entries of `v` for collectibles other than `id`, in order.
pub fn vec_entries_without_id(v: &Vec<(CollectibleId, AccountId)>, id: &CollectibleId) -> (r: Vec<
    (CollectibleId, AccountId),
>)
    ensures
        r@ == entries_without_id(v@, *id),
{
    let mut r: Vec<(CollectibleId, AccountId)> = Vec::new();
    let mut i: usize = 0;
    while i < v.len()
        invariant
            i <= v@.len(),
            r@ == entries_without_id(v@.take(i as int), *id),
        decreases v@.len() - i,
    {
        assert(v@.take(i + 1).drop_last() =~= v@.take(i as int));
        let x: (CollectibleId, AccountId) = v[i];
        if !bytes16_eq(&x.0, id) {
            r.push(x);
        }
        i = i + 1;
    }
    assert(v@.take(v@.len() as int) =~= v@);
    r
}

/// A copy of the entries of `v`.
pub fn copy_entries(v: &Vec<(CollectibleId, AccountId)>) -> (r: Vec<(CollectibleId, AccountId)>)
    ensures
        r@ == v@,
{
    let mut r: Vec<(CollectibleId, AccountId)> = Vec::new();
    let mut i: usize = 0;
    while i < v.len()
        invariant
            i <= v@.len(),
            r@ == v@.take(i as int),
        decreases v@.len() - i,
    {
        let x: (CollectibleId, AccountId) = v[i];
        r.push(x);
        i = i + 1;
        assert(r@ =~= v@.take(i as int));
    }
    assert(v@.take(v@.len() as int) =~= v@);
    r
}

/// A copy of the identifiers of `v`.
pub fn copy_ids(v: &Vec<CollectibleId>) -> (r: Vec<CollectibleId>)
    ensures
        r@ == v@,
{
    let mut r: Vec<CollectibleId> = Vec::new();
    let mut i: usize = 0;
    while i < v.len()
        invariant
            i <= v@.len(),
            r@ == v@.take(i as int),
        decreases v@.len() - i,
    {
        let x: CollectibleId = v[i];
        r.push(x);
        i = i + 1;
        assert(r@ =~= v@.take(i as int));
    }
    assert(v@.take(v@.len() as int) =~= v@);
    r
}

} // verus!
