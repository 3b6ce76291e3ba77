//! Committing a state: what is to be written to storage, in the order in
//! which storage takes it. Reading storage and writing to it is left to the
//! caller; this module decides what is written.

use vstd::prelude::*;
use revm::primitives::Bytecode;
use crate::account::{
    into_reth_acc, optional_stored_form, Account, AccountData, OriginalValuesKnown, RevertToSlot, StorageEntry,
};
use crate::bundle::{bundle_revert_records, bundle_reverts, is_wiped_by, lists_records};
use crate::changes::{flatten, is_flattened, PlainReverts, PlainState, PlainStorageChangeset, PlainStorageRevert};
use crate::primitives::{lemma_lex_total, lemma_lex_transitive, lex_lt, Address, B256, U256};
use crate::receipts::{Receipt, Receipts};
use crate::sorting::{sort_by_key, sorted_by_key, strictly_sorted_by_key, Keyed};
use crate::state::{BlockNumber, BundleStateWithReceipts, StateView};

verus! {

impl Keyed for PlainStorageRevert {
    type Key = Address;

    open spec fn key_of(&self) -> Address {
        self.address
    }

    fn key(&self) -> (k: &Address) {
        &self.address
    }
}

impl Keyed for PlainStorageChangeset {
    type Key = Address;

    open spec fn key_of(&self) -> Address {
        self.address
    }

    fn key(&self) -> (k: &Address) {
        &self.address
    }
}

/// What storage holds for `address` according to `wiped_storage`, which
/// lists accounts with their slots: the slots listed with the first entry for
/// `address`, and none where there is no such entry.
pub open spec fn existing_storage(wiped_storage: Seq<(Address, Vec<StorageEntry>)>, address: Address) -> Seq<
    StorageEntry,
>
    decreases wiped_storage.len(),
{
    if wiped_storage.len() == 0 {
        Seq::empty()
    } else if wiped_storage[0].0 == address {
        wiped_storage[0].1@
    } else {
        existing_storage(wiped_storage.drop_first(), address)
    }
}

/// The earlier values of an account's slots at one block, from the values
/// that the block's revert records name (`reverts`, sorted by slot) and from
/// what storage held for the account where the block wiped it (`wiped`,
/// sorted by slot). The result goes by slot. For a slot in both lists the
/// record's value stands, unless the record only says that the slot was
/// destroyed: then what storage held stands.
pub open spec fn merged_reverts(reverts: Seq<(U256, RevertToSlot)>, wiped: Seq<StorageEntry>) -> Seq<StorageEntry>
    decreases reverts.len() + wiped.len(),
{
    if reverts.len() == 0 && wiped.len() == 0 {
        Seq::empty()
    } else if wiped.len() == 0 || (reverts.len() > 0 && lex_lt(reverts[0].0@, wiped[0].key@)) {
        seq![StorageEntry { key: reverts[0].0, value: reverts[0].1.previous_value() }] + merged_reverts(
            reverts.drop_first(),
            wiped,
        )
    } else if reverts.len() == 0 || lex_lt(wiped[0].key@, reverts[0].0@) {
        seq![wiped[0]] + merged_reverts(reverts, wiped.drop_first())
    } else {
        seq![
            StorageEntry {
                key: reverts[0].0,
                value: match reverts[0].1 {
                    RevertToSlot::Value(value) => value,
                    RevertToSlot::Destroyed => wiped[0].value,
                },
            },
        ] + merged_reverts(reverts.drop_first(), wiped.drop_first())
    }
}

impl Keyed for StorageEntry {
    type Key = B256;

    open spec fn key_of(&self) -> B256 {
        self.key
    }

    fn key(&self) -> (k: &B256) {
        &self.key
    }
}

/// Whether `key` is the slot of one of `reverts` or of one of `wiped`.
pub open spec fn is_slot_of(key: B256, reverts: Seq<(U256, RevertToSlot)>, wiped: Seq<StorageEntry>) -> bool {
    ||| exists|j: int| 0 <= j < reverts.len() && (#[trigger] reverts[j]).0 == key
    ||| exists|j: int| 0 <= j < wiped.len() && (#[trigger] wiped[j]).key == key
}

/// Merging two lists whose slots strictly increase gives a list whose slots
/// strictly increase, and that has no slot that neither list has: each slot
/// of an account has one entry in a block's change set, and the entries go
/// by slot.
pub proof fn lemma_merged_reverts_increase(reverts: Seq<(U256, RevertToSlot)>, wiped: Seq<StorageEntry>)
    requires
        strictly_sorted_by_key(reverts),
        strictly_sorted_by_key(wiped),
    ensures
        strictly_sorted_by_key(merged_reverts(reverts, wiped)),
        forall|i: int|
            0 <= i < merged_reverts(reverts, wiped).len() ==> is_slot_of(
                (#[trigger] merged_reverts(reverts, wiped)[i]).key,
                reverts,
                wiped,
            ),
    decreases reverts.len() + wiped.len(),
{
    let merged = merged_reverts(reverts, wiped);
    if reverts.len() > 0 || wiped.len() > 0 {
        let take_revert = wiped.len() == 0 || (reverts.len() > 0 && lex_lt(reverts[0].0@, wiped[0].key@));
        let take_wiped = !take_revert && (reverts.len() == 0 || lex_lt(wiped[0].key@, reverts[0].0@));
        let rest_r = if take_wiped {
            reverts
        } else {
            reverts.drop_first()
        };
        let rest_w = if take_revert {
            wiped
        } else {
            wiped.drop_first()
        };
        let head = merged[0];
        lemma_merged_reverts_increase(rest_r, rest_w);
        // Every slot that is left comes after the slot that was taken.
        assert forall|k: B256| is_slot_of(k, rest_r, rest_w) implies lex_lt(head.key@, k@) && is_slot_of(
            k,
            reverts,
            wiped,
        ) by {
            if exists|j: int| 0 <= j < rest_r.len() && (#[trigger] rest_r[j]).0 == k {
                let j = choose|j: int| 0 <= j < rest_r.len() && (#[trigger] rest_r[j]).0 == k;
                if take_wiped {
                    if j > 0 {
                        lemma_lex_transitive(wiped[0].key@, reverts[0].0@, k@);
                    }
                }
            } else {
                let j = choose|j: int| 0 <= j < rest_w.len() && (#[trigger] rest_w[j]).key == k;
                if take_revert {
                    if j > 0 {
                        lemma_lex_transitive(reverts[0].0@, wiped[0].key@, k@);
                    }
                } else {
                    if !take_wiped {
                        // The slots of the two heads are the same.
                        lemma_lex_total(reverts[0].0@, wiped[0].key@);
                    }
                }
            }
        }
    }
}

/// Merges the earlier slot values that revert records name with what storage
/// held, both sorted by slot.
pub fn merge_reverts(reverts: &Vec<(U256, RevertToSlot)>, wiped: &Vec<StorageEntry>) -> (out: Vec<StorageEntry>)
    ensures
        out@ == merged_reverts(reverts@, wiped@),
{
    let mut out: Vec<StorageEntry> = Vec::new();
    let mut i: usize = 0;
    let mut j: usize = 0;
    proof {
        assert(reverts@.skip(0) =~= reverts@);
        assert(wiped@.skip(0) =~= wiped@);
    }
    while i < reverts.len() || j < wiped.len()
        invariant
            i <= reverts@.len(),
            j <= wiped@.len(),
            out@ + merged_reverts(reverts@.skip(i as int), wiped@.skip(j as int)) == merged_reverts(reverts@, wiped@),
        decreases reverts@.len() - i + wiped@.len() - j,
    {
        let ghost rest_r = reverts@.skip(i as int);
        let ghost rest_w = wiped@.skip(j as int);
        proof {
            if i < reverts@.len() {
                assert(rest_r.drop_first() =~= reverts@.skip(i + 1));
            }
            if j < wiped@.len() {
                assert(rest_w.drop_first() =~= wiped@.skip(j + 1));
            }
        }
        if j >= wiped.len() || (i < reverts.len() && reverts[i].0.lt(&wiped[j].key)) {
            let entry = StorageEntry { key: reverts[i].0, value: reverts[i].1.to_previous_value() };
            out.push(entry);
            i += 1;
        } else if i >= reverts.len() || wiped[j].key.lt(&reverts[i].0) {
            let entry = wiped[j];
            out.push(entry);
            j += 1;
        } else {
            let value = match reverts[i].1 {
                RevertToSlot::Value(value) => value,
                RevertToSlot::Destroyed => wiped[j].value,
            };
            let entry = StorageEntry { key: reverts[i].0, value };
            out.push(entry);
            i += 1;
            j += 1;
        }
    }
    out
}

/// The slots that `wiped_storage` lists with the first entry for `address`.
fn find_existing<'a>(wiped_storage: &'a Vec<(Address, Vec<StorageEntry>)>, address: &Address) -> (r: Option<
    &'a Vec<StorageEntry>,
>)
    ensures
        match r {
            Some(slots) => slots@ == existing_storage(wiped_storage@, *address),
            None => existing_storage(wiped_storage@, *address) == Seq::<StorageEntry>::empty(),
        },
{
    let mut i: usize = 0;
    proof {
        assert(wiped_storage@.skip(0) =~= wiped_storage@);
    }
    while i < wiped_storage.len()
        invariant
            i <= wiped_storage@.len(),
            existing_storage(wiped_storage@, *address) == existing_storage(wiped_storage@.skip(i as int), *address),
        decreases wiped_storage@.len() - i,
    {
        proof {
            assert(wiped_storage@.skip(i as int).drop_first() =~= wiped_storage@.skip(i + 1));
        }
        if wiped_storage[i].0.same(address) {
            return Some(&wiped_storage[i].1);
        }
        i += 1;
    }
    None
}

/// `out` is what a block gives to the storage change set for one of its
/// records: the record's address, and the earlier values of its slots sorted
/// by slot, merged with what storage held where the record is wiped.
pub open spec fn is_storage_change(
    out: (Address, Vec<StorageEntry>),
    revert: PlainStorageRevert,
    wiped_storage: Seq<(Address, Vec<StorageEntry>)>,
) -> bool {
    &&& out.0 == revert.address
    &&& exists|sorted: Seq<(U256, RevertToSlot)>|
        {
            &&& #[trigger] sorted_by_key(sorted)
            &&& sorted.to_multiset() == revert.storage_revert@.to_multiset()
            &&& out.1@ == merged_reverts(
                sorted,
                if revert.wiped {
                    existing_storage(wiped_storage, revert.address)
                } else {
                    Seq::empty()
                },
            )
        }
}

/// `out` is the storage change set of one block: one entry for each of the
/// block's records, ordered by address.
pub open spec fn is_block_storage_changes(
    out: Seq<(Address, Vec<StorageEntry>)>,
    layer: Seq<PlainStorageRevert>,
    wiped_storage: Seq<(Address, Vec<StorageEntry>)>,
) -> bool {
    &&& out.len() == layer.len()
    &&& exists|sorted: Seq<PlainStorageRevert>|
        {
            &&& #[trigger] sorted_by_key(sorted)
            &&& sorted.to_multiset() == layer.to_multiset()
            &&& sorted.len() == out.len()
            &&& forall|i: int| 0 <= i < out.len() ==> is_storage_change(#[trigger] out[i], sorted[i], wiped_storage)
        }
}

/// The storage change set of one block.
pub fn block_storage_changes(layer: Vec<PlainStorageRevert>, wiped_storage: &Vec<(Address, Vec<StorageEntry>)>) -> (out:
    Vec<(Address, Vec<StorageEntry>)>)
    ensures
        is_block_storage_changes(out@, layer@, wiped_storage@),
{
    let sorted = sort_by_key(layer);
    let ghost sorted_view = sorted@;
    let mut out: Vec<(Address, Vec<StorageEntry>)> = Vec::new();
    for revert in it: sorted
        invariant
            it.seq() == sorted_view,
            out@.len() == it.index(),
            forall|i: int|
                0 <= i < out@.len() ==> is_storage_change(#[trigger] out@[i], sorted_view[i], wiped_storage@),
    {
        let PlainStorageRevert { address, wiped, storage_revert } = revert;
        let slots = sort_by_key(storage_revert);
        let entries = if wiped {
            match find_existing(wiped_storage, &address) {
                Some(existing) => merge_reverts(&slots, existing),
                None => merge_reverts(&slots, &Vec::new()),
            }
        } else {
            merge_reverts(&slots, &Vec::new())
        };
        out.push((address, entries));
    }
    out
}

/// The accounts of `s` in their stored form.
pub open spec fn stored_accounts(s: Seq<(Address, Option<AccountData>)>) -> Seq<(Address, Option<Account>)> {
    Seq::new(s.len(), |i: int| (s[i].0, optional_stored_form(s[i].1)))
}

/// `out` has the accounts of `accounts` in their stored form, ordered by
/// address.
pub open spec fn is_account_changes(
    out: Seq<(Address, Option<Account>)>,
    accounts: Seq<(Address, Option<AccountData>)>,
) -> bool {
    &&& sorted_by_key(out)
    &&& out.to_multiset() == stored_accounts(accounts).to_multiset()
}

/// The accounts of `accounts` in their stored form, ordered by address:
/// what a block gives to the account change set, and what a state gives to
/// the plain accounts.
pub fn account_changes(accounts: Vec<(Address, Option<AccountData>)>) -> (out: Vec<(Address, Option<Account>)>)
    ensures
        is_account_changes(out@, accounts@),
{
    let mut stored: Vec<(Address, Option<Account>)> = Vec::new();
    let ghost all = accounts@;
    for entry in it: accounts
        invariant
            it.seq() == all,
            stored@ == stored_accounts(all.take(it.index() as int)),
    {
        let (address, info) = entry;
        let account = match info {
            Some(info) => Some(into_reth_acc(info)),
            None => None,
        };
        stored.push((address, account));
    }
    proof {
        assert(all.take(all.len() as int) =~= all);
    }
    sort_by_key(stored)
}

/// What is written for one slot: its new value, or `None` where the slot is
/// zero now and is only removed.
pub open spec fn slot_write(slot: (U256, U256)) -> (B256, Option<U256>) {
    (
        slot.0,
        if slot.1 == U256::zero() {
            None
        } else {
            Some(slot.1)
        },
    )
}

/// The writes for the slots of `s`.
pub open spec fn slot_writes(s: Seq<(U256, U256)>) -> Seq<(B256, Option<U256>)> {
    Seq::new(s.len(), |i: int| slot_write(s[i]))
}

/// The slots of one account that are written to plain storage.
#[derive(Clone, Debug, PartialEq, Eq)]
pub struct PlainStorageWrite {
    /// Whether all that storage holds for the account is removed first.
    pub wipe_storage: bool,
    /// The slots, ordered by slot: what storage holds for a slot is removed,
    /// and the new value, if there is one, is put in its place.
    pub slots: Vec<(B256, Option<U256>)>,
}

/// `out` is what `changes` gives to plain storage.
pub open spec fn is_storage_write(out: (Address, PlainStorageWrite), changes: PlainStorageChangeset) -> bool {
    &&& out.0 == changes.address
    &&& out.1.wipe_storage == changes.wipe_storage
    &&& sorted_by_key(out.1.slots@)
    &&& out.1.slots@.to_multiset() == slot_writes(changes.storage@).to_multiset()
}

/// `out` has what each entry of `storage` gives to plain storage, ordered by
/// address.
pub open spec fn is_storage_writes(out: Seq<(Address, PlainStorageWrite)>, storage: Seq<PlainStorageChangeset>) -> bool {
    &&& out.len() == storage.len()
    &&& exists|sorted: Seq<PlainStorageChangeset>|
        {
            &&& #[trigger] sorted_by_key(sorted)
            &&& sorted.to_multiset() == storage.to_multiset()
            &&& sorted.len() == out.len()
            &&& forall|i: int| 0 <= i < out.len() ==> is_storage_write(#[trigger] out[i], sorted[i])
        }
}

/// What `storage` gives to plain storage: account by account in the order of
/// their addresses, each account's slots in the order of the slots.
pub fn storage_writes(storage: Vec<PlainStorageChangeset>) -> (out: Vec<(Address, PlainStorageWrite)>)
    ensures
        is_storage_writes(out@, storage@),
{
    let sorted = sort_by_key(storage);
    let ghost sorted_view = sorted@;
    let mut out: Vec<(Address, PlainStorageWrite)> = Vec::new();
    for changes in it: sorted
        invariant
            it.seq() == sorted_view,
            out@.len() == it.index(),
            forall|i: int| 0 <= i < out@.len() ==> is_storage_write(#[trigger] out@[i], sorted_view[i]),
    {
        let mut writes: Vec<(B256, Option<U256>)> = Vec::new();
        let mut k: usize = 0;
        while k < changes.storage.len()
            invariant
                k <= changes.storage@.len(),
                writes@ == slot_writes(changes.storage@.take(k as int)),
            decreases changes.storage@.len() - k,
        {
            let (key, value) = changes.storage[k];
            let write = if value.is_zero() {
                None
            } else {
                Some(value)
            };
            writes.push((key, write));
            k += 1;
        }
        proof {
            assert(changes.storage@.take(k as int) =~= changes.storage@);
        }
        let slots = sort_by_key(writes);
        out.push((changes.address, PlainStorageWrite { wipe_storage: changes.wipe_storage, slots }));
    }
    out
}

/// The rows that one block gives to the receipts: for each receipt that is
/// not pruned, the number of its transaction, counted from `first_tx` for
/// the block's first slot, and the receipt.
pub open spec fn block_receipt_rows(block: Seq<Option<Receipt>>, first_tx: u64) -> Seq<(u64, Receipt)>
    decreases block.len(),
{
    if block.len() == 0 {
        Seq::empty()
    } else {
        let rest = block_receipt_rows(block.drop_last(), first_tx);
        match block.last() {
            Some(receipt) => rest.push(((first_tx + block.len() - 1) as u64, receipt)),
            None => rest,
        }
    }
}

/// Whether one of the receipts of the block is not pruned.
pub open spec fn has_receipt(block: Seq<Option<Receipt>>) -> bool {
    exists|i: int| 0 <= i < block.len() && (#[trigger] block[i]) is Some
}

/// The transaction numbers of the block's receipts that are not pruned fit
/// the machine.
pub open spec fn block_rows_fit(block: Seq<Option<Receipt>>, first_tx: u64) -> bool {
    forall|i: int| 0 <= i < block.len() && (#[trigger] block[i]) is Some ==> first_tx + i <= u64::MAX
}

/// The position of the last receipt of the block that is not pruned.
pub fn last_receipt(block: &Vec<Option<Receipt>>) -> (r: Option<usize>)
    ensures
        r is Some == has_receipt(block@),
        r is Some ==> r->Some_0 < block@.len() && block@[r->Some_0 as int] is Some,
        r is Some ==> forall|i: int| r->Some_0 < i < block@.len() ==> (#[trigger] block@[i]) is None,
{
    let mut i: usize = block.len();
    while i > 0
        invariant
            i <= block@.len(),
            forall|k: int| i <= k < block@.len() ==> (#[trigger] block@[k]) is None,
        decreases i,
    {
        i -= 1;
        if block[i].is_some() {
            return Some(i);
        }
    }
    None
}

/// The rows that one block gives to the receipts.
pub fn block_receipts(block: Vec<Option<Receipt>>, first_tx: u64) -> (out: Vec<(u64, Receipt)>)
    requires
        block_rows_fit(block@, first_tx),
    ensures
        out@ == block_receipt_rows(block@, first_tx),
{
    let mut out: Vec<(u64, Receipt)> = Vec::new();
    let ghost all = block@;
    let mut tx_idx: u64 = 0;
    proof {
        assert(all.len() == block.len());
    }
    for receipt in it: block
        invariant
            it.seq() == all,
            tx_idx == it.index(),
            all.len() <= usize::MAX,
            block_rows_fit(all, first_tx),
            out@ == block_receipt_rows(all.take(it.index() as int), first_tx),
    {
        proof {
            assert(all.take(it.index() + 1).drop_last() =~= all.take(it.index() as int));
        }
        match receipt {
            Some(receipt) => {
                out.push((first_tx + tx_idx, receipt));
            },
            None => {},
        }
        tx_idx += 1;
    }
    proof {
        assert(all.take(all.len() as int) =~= all);
    }
    out
}

/// The number that `first_tx_nums` has for block `i`, zero where it has none.
pub open spec fn first_tx_of(first_tx_nums: Seq<Option<u64>>, i: int) -> u64 {
    if 0 <= i < first_tx_nums.len() && first_tx_nums[i] is Some {
        first_tx_nums[i]->Some_0
    } else {
        0
    }
}

/// The rows that the blocks of `blocks` give to the receipts, block by
/// block: each block gives its rows, numbered from the number that
/// `first_tx_nums` has for it. A block whose receipts are all pruned gives
/// none.
pub open spec fn receipt_rows(blocks: Seq<Vec<Option<Receipt>>>, first_tx_nums: Seq<Option<u64>>) -> Seq<(u64, Receipt)>
    decreases blocks.len(),
{
    if blocks.len() == 0 {
        Seq::empty()
    } else {
        receipt_rows(blocks.drop_last(), first_tx_nums) + block_receipt_rows(
            blocks.last()@,
            first_tx_of(first_tx_nums, blocks.len() - 1),
        )
    }
}

/// The numbers of `n` blocks from `first_block` on fit the machine.
pub open spec fn range_fits(first_block: BlockNumber, n: nat) -> bool {
    n == 0 || first_block + n - 1 <= u64::MAX
}

/// Block `i` of `blocks` can be written: all its receipts are pruned, or
/// `first_tx_nums` has the number of its first transaction and the numbers
/// of its receipts fit the machine.
pub open spec fn block_can_be_written(blocks: Seq<Vec<Option<Receipt>>>, first_tx_nums: Seq<Option<u64>>, i: int) -> bool {
    !has_receipt(blocks[i]@) || (i < first_tx_nums.len() && first_tx_nums[i] is Some && block_rows_fit(
        blocks[i]@,
        first_tx_nums[i]->Some_0,
    ))
}

/// Every block of `blocks` can be written.
pub open spec fn receipts_can_be_written(blocks: Seq<Vec<Option<Receipt>>>, first_tx_nums: Seq<Option<u64>>) -> bool {
    forall|i: int| 0 <= i < blocks.len() ==> block_can_be_written(blocks, first_tx_nums, i)
}

/// All that committing a state writes, in the order in which it is written.
pub struct WriteBatch {
    /// For each revert layer the number of its block and the block's storage
    /// change set: the earlier values of the slots that the block changed,
    /// account by account in the order of the addresses, slot by slot in the
    /// order of the slots.
    pub storage_changesets: Vec<(BlockNumber, Vec<(Address, Vec<StorageEntry>)>)>,
    /// For each revert layer the number of its block and the block's account
    /// change set: the earlier state of the accounts that the block changed,
    /// in the order of the addresses. `None` says that the account did not
    /// exist.
    pub account_changesets: Vec<(BlockNumber, Vec<(Address, Option<Account>)>)>,
    /// The receipts that are not pruned, by transaction number.
    pub receipts: Vec<(u64, Receipt)>,
    /// The present state of the changed accounts, in the order of the
    /// addresses. `None` says that the account is removed.
    pub accounts: Vec<(Address, Option<Account>)>,
    /// The new contracts, in the order of their code hashes.
    pub bytecodes: Vec<(B256, Bytecode)>,
    /// The changed slots, account by account in the order of the addresses.
    pub storage: Vec<(Address, PlainStorageWrite)>,
}

/// `batch` is what committing writes for the flattened state `plain` and
/// `reverts` with the receipts `receipts`, the first block `first_block`,
/// the slots `wiped_storage` that storage holds for wiped accounts, and the
/// first transaction numbers `first_tx_nums` of the blocks.
pub open spec fn is_batch(
    batch: WriteBatch,
    plain: PlainState,
    reverts: PlainReverts,
    receipts: Seq<Vec<Option<Receipt>>>,
    first_block: BlockNumber,
    wiped_storage: Seq<(Address, Vec<StorageEntry>)>,
    first_tx_nums: Seq<Option<u64>>,
) -> bool {
    &&& batch.storage_changesets@.len() == reverts.storage@.len()
    &&& forall|i: int|
        0 <= i < reverts.storage@.len() ==> {
            &&& (#[trigger] batch.storage_changesets@[i]).0 == first_block + i
            &&& is_block_storage_changes(batch.storage_changesets@[i].1@, reverts.storage@[i]@, wiped_storage)
        }
    &&& batch.account_changesets@.len() == reverts.accounts@.len()
    &&& forall|i: int|
        0 <= i < reverts.accounts@.len() ==> {
            &&& (#[trigger] batch.account_changesets@[i]).0 == first_block + i
            &&& is_account_changes(batch.account_changesets@[i].1@, reverts.accounts@[i]@)
        }
    &&& batch.receipts@ == receipt_rows(receipts, first_tx_nums)
    &&& is_account_changes(batch.accounts@, plain.accounts@)
    &&& sorted_by_key(batch.bytecodes@)
    &&& batch.bytecodes@.to_multiset() == plain.contracts@.to_multiset()
    &&& is_storage_writes(batch.storage@, plain.storage@)
}

/// The storage change sets of the blocks from `first_block` on.
fn storage_changesets(
    layers: Vec<Vec<PlainStorageRevert>>,
    first_block: BlockNumber,
    wiped_storage: &Vec<(Address, Vec<StorageEntry>)>,
) -> (out: Vec<(BlockNumber, Vec<(Address, Vec<StorageEntry>)>)>)
    requires
        range_fits(first_block, layers@.len()),
    ensures
        out@.len() == layers@.len(),
        forall|i: int|
            0 <= i < layers@.len() ==> {
                &&& (#[trigger] out@[i]).0 == first_block + i
                &&& is_block_storage_changes(out@[i].1@, layers@[i]@, wiped_storage@)
            },
{
    let mut out: Vec<(BlockNumber, Vec<(Address, Vec<StorageEntry>)>)> = Vec::new();
    let ghost all = layers@;
    let count = layers.len();
    let mut block_number = first_block;
    for layer in it: layers
        invariant
            it.seq() == all,
            all.len() == count,
            range_fits(first_block, all.len()),
            out@.len() == it.index(),
            it.index() < all.len() ==> block_number == first_block + it.index(),
            forall|i: int|
                0 <= i < out@.len() ==> {
                    &&& (#[trigger] out@[i]).0 == first_block + i
                    &&& is_block_storage_changes(out@[i].1@, all[i]@, wiped_storage@)
                },
    {
        let ghost index = it.index() as int;
        let changes = block_storage_changes(layer, wiped_storage);
        out.push((block_number, changes));
        if block_number < u64::MAX {
            block_number += 1;
        }
    }
    out
}

/// The account change sets of the blocks from `first_block` on.
fn account_changesets(layers: Vec<Vec<(Address, Option<AccountData>)>>, first_block: BlockNumber) -> (out: Vec<
    (BlockNumber, Vec<(Address, Option<Account>)>),
>)
    requires
        range_fits(first_block, layers@.len()),
    ensures
        out@.len() == layers@.len(),
        forall|i: int|
            0 <= i < layers@.len() ==> {
                &&& (#[trigger] out@[i]).0 == first_block + i
                &&& is_account_changes(out@[i].1@, layers@[i]@)
            },
{
    let mut out: Vec<(BlockNumber, Vec<(Address, Option<Account>)>)> = Vec::new();
    let ghost all = layers@;
    let count = layers.len();
    let mut block_number = first_block;
    for layer in it: layers
        invariant
            it.seq() == all,
            all.len() == count,
            range_fits(first_block, all.len()),
            out@.len() == it.index(),
            it.index() < all.len() ==> block_number == first_block + it.index(),
            forall|i: int|
                0 <= i < out@.len() ==> {
                    &&& (#[trigger] out@[i]).0 == first_block + i
                    &&& is_account_changes(out@[i].1@, all[i]@)
                },
    {
        let changes = account_changes(layer);
        out.push((block_number, changes));
        if block_number < u64::MAX {
            block_number += 1;
        }
    }
    out
}

/// The rows that the blocks of `blocks` give to the receipts.
fn receipts_rows(blocks: Vec<Vec<Option<Receipt>>>, first_tx_nums: &Vec<Option<u64>>) -> (out: Vec<(u64, Receipt)>)
    requires
        receipts_can_be_written(blocks@, first_tx_nums@),
    ensures
        out@ == receipt_rows(blocks@, first_tx_nums@),
{
    let mut out: Vec<(u64, Receipt)> = Vec::new();
    let ghost all = blocks@;
    let count = blocks.len();
    let mut idx: usize = 0;
    for block in it: blocks
        invariant
            it.seq() == all,
            all.len() == count,
            idx == it.index(),
            receipts_can_be_written(all, first_tx_nums@),
            out@ == receipt_rows(all.take(it.index() as int), first_tx_nums@),
    {
        proof {
            assert(all.take(idx + 1).drop_last() =~= all.take(idx as int));
            assert(block_can_be_written(all, first_tx_nums@, idx as int));
        }
        let first_tx = if idx < first_tx_nums.len() {
            match first_tx_nums[idx] {
                Some(first_tx) => first_tx,
                None => 0,
            }
        } else {
            0
        };
        let mut rows = block_receipts(block, first_tx);
        out.append(&mut rows);
        idx += 1;
    }
    proof {
        assert(all.take(all.len() as int) =~= all);
    }
    out
}

/// Decides what is written for a flattened state.
pub fn commit_batch(
    plain: PlainState,
    reverts: PlainReverts,
    receipts: Receipts,
    first_block: BlockNumber,
    wiped_storage: &Vec<(Address, Vec<StorageEntry>)>,
    first_tx_nums: &Vec<Option<u64>>,
) -> (batch: WriteBatch)
    requires
        range_fits(first_block, reverts.storage@.len()),
        range_fits(first_block, reverts.accounts@.len()),
        receipts_can_be_written(receipts@, first_tx_nums@),
    ensures
        is_batch(batch, plain, reverts, receipts@, first_block, wiped_storage@, first_tx_nums@),
{
    let PlainState { accounts, storage, contracts } = plain;
    let PlainReverts { accounts: revert_accounts, storage: revert_storage } = reverts;
    WriteBatch {
        storage_changesets: storage_changesets(revert_storage, first_block, wiped_storage),
        account_changesets: account_changesets(revert_accounts, first_block),
        receipts: receipts_rows(receipts.receipt_vec, first_tx_nums),
        accounts: account_changes(accounts),
        bytecodes: sort_by_key(contracts),
        storage: storage_writes(storage),
    }
}

/// Why a state cannot be committed.
#[derive(Clone, Copy, Debug, PartialEq, Eq)]
pub enum WriteError {
    /// The numbers of the covered blocks do not fit the machine.
    BlockNumberOverflow,
    /// One of the block's receipts is not pruned, and the number of the
    /// block's first transaction is not known: storage lacks what preceded
    /// this state.
    MissingBodyIndices(BlockNumber),
    /// The transaction numbers of the block do not fit the machine.
    TransactionNumberOverflow(BlockNumber),
}

impl StateView {
    /// Whether the state can be committed with the first transaction
    /// numbers `first_tx_nums`: the numbers of its blocks and of their
    /// transactions fit the machine, and the first transaction number of
    /// every block with a receipt that is not pruned is known.
    pub open spec fn can_write(self, first_tx_nums: Seq<Option<u64>>) -> bool {
        &&& range_fits(self.first_block, self.bundle.reverts.len())
        &&& range_fits(self.first_block, self.receipts.len())
        &&& receipts_can_be_written(self.receipts, first_tx_nums)
    }

    /// Whether one of the blocks wipes the storage of the account at
    /// `address`.
    pub open spec fn wipes(self, address: Address) -> bool {
        is_wiped_by(self.bundle.reverts, address)
    }
}

impl BundleStateWithReceipts {
    /// The accounts whose storage some block of the state wiped: what storage
    /// holds for them has to be read before the state is committed.
    pub fn wiped_addresses(&self) -> (r: Vec<Address>)
        ensures
            forall|a: Address| r@.contains(a) <==> self@.wipes(a),
    {
        let wipes = bundle_revert_records(&self.bundle);
        let ghost reverts = bundle_reverts(self.bundle);
        let mut out: Vec<Address> = Vec::new();
        let mut i: usize = 0;
        while i < wipes.len()
            invariant
                i <= wipes@.len(),
                reverts == bundle_reverts(self.bundle),
                lists_records(wipes@, reverts),
                forall|a: Address|
                    out@.contains(a) <==> exists|x: int, y: int|
                        0 <= x < i && 0 <= y < reverts[x].len() && (#[trigger] reverts[x][y]).0 == a
                            && reverts[x][y].1.wipe_storage,
            decreases wipes@.len() - i,
        {
            let layer = &wipes[i];
            let mut j: usize = 0;
            while j < layer.len()
                invariant
                    j <= layer@.len(),
                    i < wipes@.len(),
                    layer == wipes@[i as int],
                    lists_records(wipes@, reverts),
                    forall|a: Address|
                        out@.contains(a) <==> exists|x: int, y: int|
                            (0 <= x < i && 0 <= y < reverts[x].len() || x == i && 0 <= y < j) && (
                            #[trigger] reverts[x][y]).0 == a && reverts[x][y].1.wipe_storage,
                decreases layer@.len() - j,
            {
                let ghost before = out@;
                if layer[j].1 {
                    out.push(layer[j].0);
                    proof {
                        assert forall|a: Address| out@.contains(a) <==> exists|x: int, y: int|
                            (0 <= x < i && 0 <= y < reverts[x].len() || x == i && 0 <= y < j + 1) && (
                            #[trigger] reverts[x][y]).0 == a && reverts[x][y].1.wipe_storage by {
                            if out@.contains(a) {
                                let k = choose|k: int| 0 <= k < out@.len() && out@[k] == a;
                                if k < before.len() {
                                    assert(before.contains(a));
                                }
                            }
                            if exists|x: int, y: int|
                                (0 <= x < i && 0 <= y < reverts[x].len() || x == i && 0 <= y < j + 1) && (
                                #[trigger] reverts[x][y]).0 == a && reverts[x][y].1.wipe_storage {
                                let (x, y) = choose|x: int, y: int|
                                    (0 <= x < i && 0 <= y < reverts[x].len() || x == i && 0 <= y < j + 1) && (
                                    #[trigger] reverts[x][y]).0 == a && reverts[x][y].1.wipe_storage;
                                if x == i && y == j {
                                    assert(out@[out@.len() - 1] == a);
                                } else {
                                    assert(before.contains(a));
                                    let k = choose|k: int| 0 <= k < before.len() && before[k] == a;
                                    assert(out@[k] == a);
                                }
                            }
                        }
                    }
                }
                j += 1;
            }
            i += 1;
        }
        out
    }

    /// For each covered block, in order, the number of the block where one
    /// of the block's receipts is not pruned and its number fits the machine,
    /// and `None` otherwise: the blocks whose first transaction number has to
    /// be read before the state is committed.
    pub fn receipt_blocks(&self) -> (r: Vec<Option<BlockNumber>>)
        ensures
            r@.len() == self@.receipts.len(),
            forall|i: int|
                0 <= i < r@.len() ==> #[trigger] r@[i] == if has_receipt(self@.receipts[i]@) && self@.first_block + i
                    <= u64::MAX {
                    Some((self@.first_block + i) as BlockNumber)
                } else {
                    None
                },
    {
        let mut out: Vec<Option<BlockNumber>> = Vec::new();
        let blocks = self.receipts.len();
        let mut i: usize = 0;
        while i < blocks
            invariant
                i <= blocks,
                blocks == self@.receipts.len(),
                out@.len() == i,
                forall|k: int|
                    0 <= k < i ==> #[trigger] out@[k] == if has_receipt(self@.receipts[k]@) && self@.first_block + k
                        <= u64::MAX {
                        Some((self@.first_block + k) as BlockNumber)
                    } else {
                        None
                    },
            decreases blocks - i,
        {
            let fits = i as u64 <= u64::MAX - self.first_block;
            if last_receipt(&self.receipts.receipt_vec[i]).is_some() && fits {
                out.push(Some(self.first_block + i as u64));
            } else {
                out.push(None);
            }
            i += 1;
        }
        out
    }

    /// Whether the state can be committed with the first transaction numbers
    /// `first_tx_nums`, one for each covered block in order, `None` for a
    /// block whose number storage does not have; and if not, why not: the
    /// first block at fault is named.
    pub fn check_write(&self, first_tx_nums: &Vec<Option<u64>>) -> (r: Result<(), WriteError>)
        ensures
            r is Ok <==> self@.can_write(first_tx_nums@),
            r == Err::<(), WriteError>(WriteError::BlockNumberOverflow) <==> !(range_fits(
                self@.first_block,
                self@.bundle.reverts.len(),
            ) && range_fits(self@.first_block, self@.receipts.len())),
            forall|block: BlockNumber|
                r == Err::<(), WriteError>(WriteError::MissingBodyIndices(block)) ==> {
                    let i = block - self@.first_block;
                    &&& self@.addressable(block)
                    &&& has_receipt(self@.receipts[i]@)
                    &&& !(i < first_tx_nums@.len() && first_tx_nums@[i] is Some)
                    &&& forall|k: int| 0 <= k < i ==> block_can_be_written(self@.receipts, first_tx_nums@, k)
                },
            forall|block: BlockNumber|
                r == Err::<(), WriteError>(WriteError::TransactionNumberOverflow(block)) ==> {
                    let i = block - self@.first_block;
                    &&& self@.addressable(block)
                    &&& i < first_tx_nums@.len() && first_tx_nums@[i] is Some
                    &&& !block_rows_fit(self@.receipts[i]@, first_tx_nums@[i]->Some_0)
                    &&& forall|k: int| 0 <= k < i ==> block_can_be_written(self@.receipts, first_tx_nums@, k)
                },
    {
        let layers = bundle_revert_records(&self.bundle).len();
        let blocks = self.receipts.len();
        if layers > 0 && (layers - 1) as u64 > u64::MAX - self.first_block {
            return Err(WriteError::BlockNumberOverflow);
        }
        if blocks > 0 && (blocks - 1) as u64 > u64::MAX - self.first_block {
            return Err(WriteError::BlockNumberOverflow);
        }
        let mut i: usize = 0;
        while i < blocks
            invariant
                i <= blocks,
                blocks == self@.receipts.len(),
                range_fits(self@.first_block, self@.bundle.reverts.len()),
                range_fits(self@.first_block, self@.receipts.len()),
                forall|k: int| 0 <= k < i ==> block_can_be_written(self@.receipts, first_tx_nums@, k),
            decreases blocks - i,
        {
            match last_receipt(&self.receipts.receipt_vec[i]) {
                Some(last) => {
                    let block_number = self.first_block + i as u64;
                    if i >= first_tx_nums.len() {
                        assert(!block_can_be_written(self@.receipts, first_tx_nums@, i as int));
                        return Err(WriteError::MissingBodyIndices(block_number));
                    }
                    match first_tx_nums[i] {
                        None => {
                            assert(!block_can_be_written(self@.receipts, first_tx_nums@, i as int));
                            return Err(WriteError::MissingBodyIndices(block_number));
                        },
                        Some(first_tx) => {
                            if last as u64 > u64::MAX - first_tx {
                                assert(!block_can_be_written(self@.receipts, first_tx_nums@, i as int));
                                return Err(WriteError::TransactionNumberOverflow(block_number));
                            }
                        },
                    }
                },
                None => {},
            }
            i += 1;
        }
        Ok(())
    }

    /// Commits the state: decides all that is to be written, in the order in
    /// which it is written. The state is used up.
    ///
    /// `wiped_storage` has, for the accounts of `wiped_addresses`, the slots
    /// that storage holds for them, ordered by slot; for an account that it
    /// does not list, storage is taken to hold nothing. `first_tx_nums` has,
    /// for each covered block in order, the number of its first transaction.
    /// With `is_value_known` the original values that the bundle records are
    /// relied on, and what did not change is not written.
    pub fn write_to_db(
        self,
        wiped_storage: &Vec<(Address, Vec<StorageEntry>)>,
        first_tx_nums: &Vec<Option<u64>>,
        is_value_known: OriginalValuesKnown,
    ) -> (batch: WriteBatch)
        requires
            self@.can_write(first_tx_nums@),
        ensures
            exists|plain: PlainState, reverts: PlainReverts|
                {
                    &&& is_flattened(
                        plain,
                        reverts,
                        self@.bundle.accounts,
                        self@.bundle.reverts,
                        self@.bundle.contracts,
                        is_value_known,
                    )
                    &&& #[trigger] is_batch(
                        batch,
                        plain,
                        reverts,
                        self@.receipts,
                        self@.first_block,
                        wiped_storage@,
                        first_tx_nums@,
                    )
                },
            batch.storage_changesets@.len() == self@.bundle.reverts.len(),
            batch.account_changesets@.len() == self@.bundle.reverts.len(),
    {
        let BundleStateWithReceipts { bundle, receipts, first_block } = self;
        let (plain, reverts) = flatten(bundle, is_value_known);
        commit_batch(plain, reverts, receipts, first_block, wiped_storage, first_tx_nums)
    }
}

} // verus!
