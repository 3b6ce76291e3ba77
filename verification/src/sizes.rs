//! Whether a bundle's counts of what it holds can be relied on.
//!
//! `revm` keeps two counts in a bundle and does arithmetic on them whenever
//! it adds or removes. The operations that undo blocks and append bundles
//! are only called on bundles whose counts cover what they hold; this module
//! decides that by counting.

use vstd::prelude::*;
use revm::db::states::BundleState;
use crate::bundle::{
    account_storage_len, account_view, accounts_weight, bundle_account_list, bundle_accounts, bundle_revert_records,
    bundle_reverts, bundle_sizes, can_extend, can_revert, layer_weight, listed_addresses, lists_records,
    reverts_weight, sizes_cover, weight_step, Accounts, RevertLayer,
};
use crate::primitives::Address;

verus! {

/// What the accounts at `addresses` weigh: one for each of them and one for
/// each of its slots.
pub open spec fn listed_weight(addresses: Seq<Address>, accounts: Accounts) -> nat
    decreases addresses.len(),
{
    if addresses.len() == 0 {
        0
    } else {
        listed_weight(addresses.drop_last(), accounts) + 1 + accounts[addresses.last()].storage.len()
    }
}

/// The weight of a list grows with the list.
proof fn lemma_listed_weight_grows(addresses: Seq<Address>, accounts: Accounts, i: int)
    requires
        0 <= i <= addresses.len(),
    ensures
        listed_weight(addresses.take(i), accounts) <= listed_weight(addresses, accounts),
    decreases addresses.len() - i,
{
    if i < addresses.len() {
        lemma_listed_weight_grows(addresses, accounts, i + 1);
        assert(addresses.take(i + 1).drop_last() =~= addresses.take(i));
    } else {
        assert(addresses.take(i) =~= addresses);
    }
}

/// A list that has each of its addresses once weighs what the set of its
/// addresses weighs.
proof fn lemma_listed_weight(addresses: Seq<Address>, accounts: Accounts)
    requires
        addresses.no_duplicates(),
    ensures
        addresses.to_set().finite(),
        addresses.to_set().fold(0nat, weight_step(accounts)) == listed_weight(addresses, accounts),
    decreases addresses.len(),
{
    if addresses.len() == 0 {
        assert(addresses.to_set() =~= Set::<Address>::empty());
        vstd::set::fold::lemma_fold_empty(0nat, weight_step(accounts));
    } else {
        let earlier = addresses.drop_last();
        let a = addresses.last();
        lemma_listed_weight(earlier, accounts);
        assert(addresses =~= earlier.push(a));
        earlier.lemma_push_to_set_commute(a);
        vstd::set::fold::lemma_fold_insert(earlier.to_set(), 0nat, weight_step(accounts), a);
    }
}

/// What the accounts of the bundle weigh, or `None` where that does not fit
/// the machine.
fn weigh_accounts(b: &BundleState) -> (r: Option<usize>)
    ensures
        match r {
            Some(weight) => weight == accounts_weight(bundle_accounts(*b)),
            None => accounts_weight(bundle_accounts(*b)) > usize::MAX,
        },
{
    let list = bundle_account_list(b);
    let ghost accounts = bundle_accounts(*b);
    let ghost addresses = listed_addresses(list@);
    proof {
        lemma_listed_weight(addresses, accounts);
        assert(addresses.to_set() =~= accounts.dom());
    }
    let mut weight: usize = 0;
    let mut i: usize = 0;
    while i < list.len()
        invariant
            i <= list@.len(),
            accounts == bundle_accounts(*b),
            addresses == listed_addresses(list@),
            forall|k: int| 0 <= k < list@.len() ==> account_view(*(#[trigger] list@[k]).1) == accounts[list@[k].0],
            weight == listed_weight(addresses.take(i as int), accounts),
            listed_weight(addresses, accounts) == accounts_weight(accounts),
        decreases list@.len() - i,
    {
        let slots = account_storage_len(list[i].1);
        proof {
            assert(addresses.take(i + 1).drop_last() =~= addresses.take(i as int));
            lemma_listed_weight_grows(addresses, accounts, i + 1);
        }
        if slots == usize::MAX || weight > usize::MAX - 1 - slots {
            return None;
        }
        weight = weight + 1 + slots;
        i += 1;
    }
    proof {
        assert(addresses.take(i as int) =~= addresses);
    }
    Some(weight)
}

/// One for each record of `layer` and one for each slot that it counts.
pub open spec fn records_weight(layer: Seq<(Address, bool, usize)>) -> nat
    decreases layer.len(),
{
    if layer.len() == 0 {
        0
    } else {
        records_weight(layer.drop_last()) + 1 + layer.last().2 as nat
    }
}

/// The sum of the weights of the lists of `records`.
pub open spec fn layers_weight(records: Seq<Vec<(Address, bool, usize)>>) -> nat
    decreases records.len(),
{
    if records.len() == 0 {
        0
    } else {
        layers_weight(records.drop_last()) + records_weight(records.last()@)
    }
}

/// The weights of lists grow with the lists.
proof fn lemma_records_weight_grows(layer: Seq<(Address, bool, usize)>, i: int)
    requires
        0 <= i <= layer.len(),
    ensures
        records_weight(layer.take(i)) <= records_weight(layer),
    decreases layer.len() - i,
{
    if i < layer.len() {
        lemma_records_weight_grows(layer, i + 1);
        assert(layer.take(i + 1).drop_last() =~= layer.take(i));
    } else {
        assert(layer.take(i) =~= layer);
    }
}

/// The weights of lists of lists grow with the lists.
proof fn lemma_layers_weight_grows(records: Seq<Vec<(Address, bool, usize)>>, i: int)
    requires
        0 <= i <= records.len(),
    ensures
        layers_weight(records.take(i)) <= layers_weight(records),
    decreases records.len() - i,
{
    if i < records.len() {
        lemma_layers_weight_grows(records, i + 1);
        assert(records.take(i + 1).drop_last() =~= records.take(i));
    } else {
        assert(records.take(i) =~= records);
    }
}

/// A list that has the records of a layer with the numbers of their slots
/// weighs what the layer weighs.
proof fn lemma_records_weight(records: Seq<(Address, bool, usize)>, layer: RevertLayer)
    requires
        records.len() == layer.len(),
        forall|j: int| 0 <= j < records.len() ==> (#[trigger] records[j]).2 == layer[j].1.storage.len(),
    ensures
        records_weight(records) == layer_weight(layer),
    decreases records.len(),
{
    if records.len() > 0 {
        lemma_records_weight(records.drop_last(), layer.drop_last());
    }
}

/// Lists that have the records of the layers with the numbers of their slots
/// weigh what the layers weigh.
proof fn lemma_layers_weight(records: Seq<Vec<(Address, bool, usize)>>, reverts: Seq<RevertLayer>)
    requires
        lists_records(records, reverts),
    ensures
        layers_weight(records) == reverts_weight(reverts),
    decreases records.len(),
{
    if records.len() > 0 {
        lemma_layers_weight(records.drop_last(), reverts.drop_last());
        let last = records.len() - 1;
        lemma_records_weight(records[last]@, reverts[last]);
    }
}

/// What the reverts of the bundle weigh, or `None` where that does not fit
/// the machine.
fn weigh_reverts(b: &BundleState) -> (r: Option<usize>)
    ensures
        match r {
            Some(weight) => weight == reverts_weight(bundle_reverts(*b)),
            None => reverts_weight(bundle_reverts(*b)) > usize::MAX,
        },
{
    let records = bundle_revert_records(b);
    proof {
        lemma_layers_weight(records@, bundle_reverts(*b));
    }
    let mut weight: usize = 0;
    let mut i: usize = 0;
    while i < records.len()
        invariant
            i <= records@.len(),
            weight == layers_weight(records@.take(i as int)),
            layers_weight(records@) == reverts_weight(bundle_reverts(*b)),
        decreases records@.len() - i,
    {
        let layer = &records[i];
        proof {
            assert(records@.take(i + 1).drop_last() =~= records@.take(i as int));
            lemma_layers_weight_grows(records@, i + 1);
        }
        let ghost before = weight;
        let mut j: usize = 0;
        while j < layer.len()
            invariant
                j <= layer@.len(),
                weight == before + records_weight(layer@.take(j as int)),
                before + records_weight(layer@) <= layers_weight(records@),
                layers_weight(records@) == reverts_weight(bundle_reverts(*b)),
            decreases layer@.len() - j,
        {
            let slots = layer[j].2;
            proof {
                assert(layer@.take(j + 1).drop_last() =~= layer@.take(j as int));
                lemma_records_weight_grows(layer@, j + 1);
            }
            if slots == usize::MAX || weight > usize::MAX - 1 - slots {
                return None;
            }
            weight = weight + 1 + slots;
            j += 1;
        }
        proof {
            assert(layer@.take(j as int) =~= layer@);
        }
        i += 1;
    }
    proof {
        assert(records@.take(i as int) =~= records@);
    }
    Some(weight)
}

/// Whether the counts of the bundle cover what it holds.
pub fn sizes_hold(b: &BundleState) -> (r: bool)
    ensures
        r == sizes_cover(*b),
{
    let (state_size, reverts_size) = bundle_sizes(b);
    let accounts = weigh_accounts(b);
    let reverts = weigh_reverts(b);
    match (accounts, reverts) {
        (Some(accounts), Some(reverts)) => state_size >= accounts && reverts_size >= reverts,
        _ => false,
    }
}

/// Whether blocks of the bundle can be undone: its counts cover what it
/// holds and leave room.
pub fn revertible(b: &BundleState) -> (r: bool)
    ensures
        r == can_revert(*b),
{
    let (state_size, reverts_size) = bundle_sizes(b);
    sizes_hold(b) && state_size <= usize::MAX - reverts_size
}

/// Whether `other` can be appended to the bundle: the counts of both cover
/// what they hold and leave room.
pub fn extensible(b: &BundleState, other: &BundleState) -> (r: bool)
    ensures
        r == can_extend(*b, *other),
{
    let (state_size, reverts_size) = bundle_sizes(b);
    let (other_state_size, other_reverts_size) = bundle_sizes(other);
    sizes_hold(b) && sizes_hold(other) && state_size <= usize::MAX - other_state_size && reverts_size <= usize::MAX
        - other_reverts_size && reverts_size + other_reverts_size <= usize::MAX - state_size
}

} // verus!
