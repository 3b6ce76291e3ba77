//! The state of a range of blocks after execution: a bundle of changes with
//! their revert layers, the receipts of each block, and the number of the
//! first block.

use vstd::prelude::*;
use revm::db::states::BundleState;
use revm::primitives::Bytecode;
use crate::account::{into_reth_acc, optional_stored_form, Account, AccountData};
use crate::bundle::{
    account_info, account_storage_slot, account_view, bundle_account, bundle_account_list, bundle_accounts,
    bundle_bytecode, bundle_default, bundle_extend, bundle_revert, bundle_reverts_size, bundle_state_size,
    bundle_take_n_reverts, bundle_view, bytecode_bytes, can_extend, can_revert, extended_view, is_extension,
    known_slot, later_layers, listed_addresses, lists_entries, lists_keys, reverted_view, sizes_cover, weight_step,
    Accounts, BundleView,
};
use crate::primitives::{Address, B256, U256};
use crate::receipts::{
    block_logs, collect_logs, complete_receipts, is_complete, logs_bloom, logs_bloom_of, refers_to, Bloom, Log,
    Receipt, Receipts,
};
use crate::sizes::{extensible, revertible};

verus! {

/// The number of a block.
pub type BlockNumber = u64;

/// The state of a range of blocks after execution.
///
/// The blocks that it covers are those from `first_block` on for which it has
/// receipts. Its bundle is meant to have one revert layer for each of them.
#[derive(Clone, Debug, PartialEq, Eq)]
pub struct BundleStateWithReceipts {
    /// The changes of the covered blocks, with what undoes them.
    pub bundle: BundleState,
    /// The receipts of each covered block.
    pub receipts: Receipts,
    /// The number of the first covered block.
    pub first_block: BlockNumber,
}

/// What a state holds.
pub ghost struct StateView {
    pub bundle: BundleView,
    /// The receipts of each covered block, oldest block first.
    pub receipts: Seq<Vec<Option<Receipt>>>,
    pub first_block: BlockNumber,
}

impl StateView {
    /// The number of covered blocks.
    pub open spec fn len(self) -> nat {
        self.receipts.len()
    }

    /// Whether `block_number` is one of the covered blocks.
    pub open spec fn addressable(self, block_number: BlockNumber) -> bool {
        self.first_block <= block_number < self.first_block + self.receipts.len()
    }

    /// The position of a covered block among the covered blocks.
    pub open spec fn index_of(self, block_number: BlockNumber) -> int {
        block_number - self.first_block
    }

    /// Whether the state has one revert layer for each covered block.
    pub open spec fn layered(self) -> bool {
        self.bundle.reverts.len() == self.receipts.len()
    }

    /// The state with every block after `block_number` undone; the state
    /// itself where `block_number` is not covered.
    pub open spec fn revert_to(self, block_number: BlockNumber) -> StateView {
        if self.addressable(block_number) {
            let kept = self.index_of(block_number) + 1;
            StateView {
                bundle: reverted_view(self.bundle, (self.receipts.len() - kept) as nat),
                receipts: self.receipts.take(kept),
                first_block: self.first_block,
            }
        } else {
            self
        }
    }

    /// The blocks before `at`, of a state split at `at`.
    pub open spec fn lower_half(self, at: BlockNumber) -> StateView {
        self.revert_to((at - 1) as BlockNumber)
    }

    /// The blocks from `at` on, of a state split at `at`: the accounts and
    /// contracts of the whole range, with the receipts and revert layers of
    /// the later blocks only.
    pub open spec fn upper_half(self, at: BlockNumber) -> StateView {
        StateView {
            bundle: BundleView {
                accounts: self.bundle.accounts,
                reverts: later_layers(self.bundle.reverts, self.index_of(at) as nat),
                contracts: self.bundle.contracts,
            },
            receipts: self.receipts.skip(self.index_of(at)),
            first_block: at,
        }
    }

    /// The state with `other` appended.
    pub open spec fn extended(self, other: StateView) -> StateView {
        StateView {
            bundle: extended_view(self.bundle, other.bundle),
            receipts: self.receipts + other.receipts,
            first_block: self.first_block,
        }
    }

    /// What holds of `joined`, a state to which `other` was appended and
    /// which was `self` before.
    pub open spec fn is_extended_by(self, other: StateView, joined: StateView) -> bool {
        &&& is_extension(self.bundle, other.bundle, joined.bundle)
        &&& joined.receipts == self.receipts + other.receipts
        &&& joined.first_block == self.first_block
    }
}

/// The present state of every account of `accounts`.
pub open spec fn present_accounts(accounts: Accounts) -> Map<Address, Option<AccountData>> {
    Map::new(|a: Address| accounts.contains_key(a), |a: Address| accounts[a].info)
}

impl View for BundleStateWithReceipts {
    type V = StateView;

    open spec fn view(&self) -> StateView {
        StateView { bundle: bundle_view(self.bundle), receipts: self.receipts@, first_block: self.first_block }
    }
}

impl Default for BundleStateWithReceipts {
    fn default() -> (r: Self)
        ensures
            r@.receipts.len() == 0,
            r@.first_block == 0,
            r@.bundle.accounts == Accounts::empty(),
            r@.bundle.reverts.len() == 0,
            can_revert(r.bundle),
    {
        let bundle = bundle_default();
        proof {
            vstd::set::fold::lemma_fold_empty(0nat, weight_step(bundle_accounts(bundle)));
        }
        BundleStateWithReceipts { bundle, receipts: Receipts::new(), first_block: 0 }
    }
}

impl BundleStateWithReceipts {
    /// A state of the blocks from `first_block` on that `receipts` has, with
    /// the changes of `bundle`.
    pub fn new(bundle: BundleState, receipts: Receipts, first_block: BlockNumber) -> (r: Self)
        ensures
            r.bundle == bundle,
            r@.bundle == bundle_view(bundle),
            r@.receipts == receipts@,
            r@.first_block == first_block,
    {
        BundleStateWithReceipts { bundle, receipts, first_block }
    }

    /// The bundle of changes.
    pub fn state(&self) -> (r: &BundleState)
        ensures
            *r == self.bundle,
            self@.bundle == bundle_view(*r),
    {
        &self.bundle
    }

    /// Sets the number of the first covered block.
    pub fn set_first_block(&mut self, first_block: BlockNumber)
        ensures
            final(self)@.first_block == first_block,
            final(self)@.receipts == old(self)@.receipts,
            final(self).bundle == old(self).bundle,
    {
        self.first_block = first_block;
    }

    /// Every account of the bundle with its present state, `None` for an
    /// account that does not exist; in no particular order.
    pub fn accounts_iter(&self) -> (r: Vec<(Address, Option<AccountData>)>)
        ensures
            lists_entries(r@, present_accounts(self@.bundle.accounts)),
    {
        let list = bundle_account_list(&self.bundle);
        let ghost addresses = listed_addresses(list@);
        let mut out: Vec<(Address, Option<AccountData>)> = Vec::new();
        let mut i: usize = 0;
        while i < list.len()
            invariant
                i <= list@.len(),
                out@.len() == i,
                addresses == listed_addresses(list@),
                lists_keys(addresses, bundle_accounts(self.bundle)),
                forall|k: int|
                    0 <= k < list@.len() ==> account_view(*(#[trigger] list@[k]).1) == bundle_accounts(
                        self.bundle,
                    )[list@[k].0],
                forall|k: int|
                    0 <= k < i ==> (#[trigger] out@[k]).0 == addresses[k] && out@[k].1 == bundle_accounts(
                        self.bundle,
                    )[addresses[k]].info,
            decreases list@.len() - i,
        {
            let (address, account) = list[i];
            out.push((address, account_info(account)));
            i += 1;
        }
        proof {
            let m = present_accounts(self@.bundle.accounts);
            assert forall|k: Address| #[trigger] m.contains_key(k) implies exists|j: int|
                0 <= j < out@.len() && (#[trigger] out@[j]).0 == k by {
                let j = choose|j: int| 0 <= j < addresses.len() && addresses[j] == k;
                assert(out@[j].0 == k);
            }
        }
        out
    }

    /// The present state of the account at `address`: `None` where the bundle
    /// does not have the account, `Some(None)` where it has it as not
    /// existing.
    pub fn account(&self, address: &Address) -> (r: Option<Option<Account>>)
        ensures
            r == if self@.bundle.accounts.contains_key(*address) {
                Some(optional_stored_form(self@.bundle.accounts[*address].info))
            } else {
                None
            },
    {
        match bundle_account(&self.bundle, address) {
            Some(account) => match account_info(account) {
                Some(info) => Some(Some(into_reth_acc(info))),
                None => Some(None),
            },
            None => None,
        }
    }

    /// What is known of slot `storage_key` of the account at `address`. Zero
    /// is a value like any other: `None` says that the value is not known.
    pub fn storage(&self, address: &Address, storage_key: U256) -> (r: Option<U256>)
        ensures
            r == if self@.bundle.accounts.contains_key(*address) {
                known_slot(self@.bundle.accounts[*address], storage_key)
            } else {
                None
            },
    {
        match bundle_account(&self.bundle, address) {
            Some(account) => account_storage_slot(account, &storage_key),
            None => None,
        }
    }

    /// The contract with code hash `code_hash`, if the bundle holds it.
    pub fn bytecode(&self, code_hash: &B256) -> (r: Option<Bytecode>)
        ensures
            r is Some == self@.bundle.contracts.contains_key(*code_hash),
            r is Some ==> bytecode_bytes(r->Some_0) == self@.bundle.contracts[*code_hash],
    {
        bundle_bytecode(&self.bundle, code_hash)
    }

    /// The position of block `block_number` among the covered blocks, or
    /// `None` where it is not covered.
    pub fn block_number_to_index(&self, block_number: BlockNumber) -> (r: Option<usize>)
        ensures
            r is Some == self@.addressable(block_number),
            r is Some ==> r->Some_0 == block_number - self@.first_block,
    {
        if self.first_block > block_number {
            return None;
        }
        let index = block_number - self.first_block;
        if index >= self.receipts.len() as u64 {
            return None;
        }
        Some(index as usize)
    }

    /// The logs of block `block_number`, in order: those of its receipts that
    /// are not pruned. `None` where the block is not covered.
    pub fn logs(&self, block_number: BlockNumber) -> (r: Option<Vec<&Log>>)
        ensures
            r is Some == self@.addressable(block_number),
            r is Some ==> refers_to(r->Some_0@, block_logs(self@.receipts[self@.index_of(block_number)]@)),
    {
        match self.block_number_to_index(block_number) {
            Some(index) => Some(collect_logs(&self.receipts.receipt_vec[index])),
            None => None,
        }
    }

    /// The bloom filter over the logs of block `block_number`, or `None`
    /// where the block is not covered.
    pub fn block_logs_bloom(&self, block_number: BlockNumber) -> (r: Option<Bloom>)
        ensures
            r is Some == self@.addressable(block_number),
            r is Some ==> r->Some_0@ == logs_bloom_of(block_logs(self@.receipts[self@.index_of(block_number)]@)),
    {
        match self.logs(block_number) {
            Some(logs) => Some(logs_bloom(&logs)),
            None => None,
        }
    }

    /// The receipts of block `block_number`, if it is covered and none of
    /// them is pruned: what the block's receipts root is computed from.
    pub fn complete_block_receipts(&self, block_number: BlockNumber) -> (r: Option<Vec<&Receipt>>)
        ensures
            r is Some == (self@.addressable(block_number) && is_complete(
                self@.receipts[self@.index_of(block_number)]@,
            )),
            r is Some ==> r->Some_0@.len() == self@.receipts[self@.index_of(block_number)]@.len(),
            r is Some ==> forall|i: int|
                0 <= i < r->Some_0@.len() ==> Some(*(#[trigger] r->Some_0@[i])) == self@.receipts[self@.index_of(
                    block_number,
                )]@[i],
    {
        match self.block_number_to_index(block_number) {
            Some(index) => complete_receipts(&self.receipts.receipt_vec[index]),
            None => None,
        }
    }

    /// The receipts of every covered block.
    pub fn receipts(&self) -> (r: &Receipts)
        ensures
            r@ == self@.receipts,
    {
        &self.receipts
    }

    /// The receipts of block `block_number`; none where it is not covered.
    pub fn receipts_by_block(&self, block_number: BlockNumber) -> (r: &[Option<Receipt>])
        ensures
            self@.addressable(block_number) ==> r@ == self@.receipts[self@.index_of(block_number)]@,
            !self@.addressable(block_number) ==> r@.len() == 0,
    {
        match self.block_number_to_index(block_number) {
            Some(index) => self.receipts.receipt_vec[index].as_slice(),
            None => &[],
        }
    }

    /// Whether no block is covered.
    pub fn is_empty(&self) -> (r: bool)
        ensures
            r == (self@.len() == 0),
    {
        self.len() == 0
    }

    /// The number of covered blocks.
    pub fn len(&self) -> (n: usize)
        ensures
            n == self@.len(),
    {
        self.receipts.len()
    }

    /// The number of the first covered block.
    pub fn first_block(&self) -> (r: BlockNumber)
        ensures
            r == self@.first_block,
    {
        self.first_block
    }

    /// Undoes every block after `block_number`, which itself stays. Returns
    /// whether `block_number` is covered; where it is not, nothing changes.
    pub fn revert_to(&mut self, block_number: BlockNumber) -> (r: bool)
        requires
            old(self)@.addressable(block_number) ==> can_revert(old(self).bundle),
        ensures
            r == old(self)@.addressable(block_number),
            final(self)@ == old(self)@.revert_to(block_number),
            !r ==> *final(self) == *old(self),
            r ==> can_revert(final(self).bundle),
    {
        let index = match self.block_number_to_index(block_number) {
            Some(index) => index,
            None => {
                return false;
            },
        };
        // The block itself stays: one more than its index.
        let len = self.len();
        let new_len = index + 1;
        let rm_trx: usize = len - new_len;
        self.receipts.receipt_vec.truncate(new_len);
        bundle_revert(&mut self.bundle, rm_trx);
        true
    }

    /// Undoes every block after `block_number` as `revert_to` does, if the
    /// counts of the bundle can be relied on for that; they are checked by
    /// counting what the bundle holds. Returns `None`, and changes nothing,
    /// where the block is covered and the counts cannot be relied on.
    pub fn checked_revert_to(&mut self, block_number: BlockNumber) -> (r: Option<bool>)
        ensures
            r is None <==> old(self)@.addressable(block_number) && !can_revert(old(self).bundle),
            r is None ==> *final(self) == *old(self),
            r is Some ==> r->Some_0 == old(self)@.addressable(block_number),
            r is Some ==> final(self)@ == old(self)@.revert_to(block_number),
    {
        if self.block_number_to_index(block_number).is_some() && !revertible(&self.bundle) {
            return None;
        }
        Some(self.revert_to(block_number))
    }

    /// Splits the state at block `at` as `split_at` does, if `at` is the
    /// first block, a later covered block or the block after the last one,
    /// and the counts of the bundle can be relied on; they are checked by
    /// counting what the bundle holds. Otherwise the state is handed back.
    pub fn checked_split_at(self, at: BlockNumber) -> (r: Result<(Option<Self>, Self), Self>)
        ensures
            r is Ok <==> self@.first_block <= at <= self@.first_block + self@.len() && (at > self@.first_block
                ==> can_revert(self.bundle)),
            r is Err ==> r->Err_0 == self,
            r is Ok && at == self@.first_block ==> r->Ok_0.0 is None && r->Ok_0.1 == self,
            r is Ok && at > self@.first_block ==> r->Ok_0.0 is Some && r->Ok_0.0->Some_0@ == self@.lower_half(at)
                && r->Ok_0.1@ == self@.upper_half(at),
    {
        if at < self.first_block {
            return Err(self);
        }
        if at - self.first_block > self.receipts.len() as u64 {
            return Err(self);
        }
        if at > self.first_block && !revertible(&self.bundle) {
            return Err(self);
        }
        Ok(self.split_at(at))
    }

    /// Appends `other` as `extend` does, if the counts of both bundles can be
    /// relied on for that; they are checked by counting what the bundles
    /// hold. Otherwise nothing changes and `other` is handed back.
    pub fn checked_extend(&mut self, other: Self) -> (r: Result<(), Self>)
        ensures
            r is Ok <==> can_extend(old(self).bundle, other.bundle),
            r is Err ==> r->Err_0 == other && *final(self) == *old(self),
            r is Ok ==> final(self)@ == old(self)@.extended(other@) && old(self)@.is_extended_by(
                other@,
                final(self)@,
            ),
    {
        if !extensible(&self.bundle, &other.bundle) {
            return Err(other);
        }
        self.extend(other);
        Ok(())
    }

    /// Splits the state at block `at` into the blocks before it and the
    /// blocks from it on. With `at` the first block there is no lower half and
    /// the upper half is the state itself. The upper half keeps the accounts
    /// of the whole range: its plain state includes what the lower blocks
    /// changed.
    pub fn split_at(self, at: BlockNumber) -> (r: (Option<Self>, Self))
        requires
            self@.first_block <= at <= self@.first_block + self@.len(),
            at > self@.first_block ==> can_revert(self.bundle),
        ensures
            at == self@.first_block ==> r.0 is None && r.1 == self,
            at > self@.first_block ==> r.0 is Some && r.0->Some_0@ == self@.lower_half(at) && r.1@
                == self@.upper_half(at),
            at > self@.first_block ==> can_revert(r.0->Some_0.bundle) && can_revert(r.1.bundle),
    {
        if at == self.first_block {
            return (None, self);
        }
        let BundleStateWithReceipts { bundle, receipts, first_block } = self;
        let ghost whole = StateView { bundle: bundle_view(bundle), receipts: receipts@, first_block };
        let at_idx = (at - first_block) as usize;
        let rm_trx: usize = receipts.len() - at_idx;

        // The lower half is the whole with the blocks from `at` on undone.
        let mut lower_bundle = bundle.clone();
        bundle_revert(&mut lower_bundle, rm_trx);
        let mut lower_receipts = receipts.receipt_vec;
        let higher_receipts = lower_receipts.split_off(at_idx);

        // The upper half drops the layers that lead into the lower blocks.
        let mut higher_bundle = bundle;
        bundle_take_n_reverts(&mut higher_bundle, at_idx);

        let lower = BundleStateWithReceipts {
            bundle: lower_bundle,
            receipts: Receipts::from_vec(lower_receipts),
            first_block,
        };
        let higher = BundleStateWithReceipts {
            bundle: higher_bundle,
            receipts: Receipts::from_vec(higher_receipts),
            first_block: at,
        };
        (Some(lower), higher)
    }

    /// Appends `other`, which is taken to continue where this state ends:
    /// that is not checked.
    pub fn extend(&mut self, other: Self)
        requires
            can_extend(old(self).bundle, other.bundle),
        ensures
            final(self)@ == old(self)@.extended(other@),
            old(self)@.is_extended_by(other@, final(self)@),
            sizes_cover(final(self).bundle),
            bundle_state_size(final(self).bundle) <= bundle_state_size(old(self).bundle) + bundle_state_size(
                other.bundle,
            ),
            bundle_reverts_size(final(self).bundle) <= bundle_reverts_size(old(self).bundle) + bundle_reverts_size(
                other.bundle,
            ) + bundle_state_size(old(self).bundle),
    {
        let BundleStateWithReceipts { bundle, receipts, first_block: _ } = other;
        let mut other_receipts = receipts.receipt_vec;
        bundle_extend(&mut self.bundle, bundle);
        self.receipts.receipt_vec.append(&mut other_receipts);
    }
}

} // verus!
