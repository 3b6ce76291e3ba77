//! Building a state from lists of accounts and of per-block revert records.

use vstd::prelude::*;
use revm::primitives::{AccountInfo as RevmAccountInfo, Bytecode};
use crate::account::{
    execution_form, into_revm_acc, optional_execution_form, Account, AccountInfoRevert, AccountStatus, StorageEntry,
};
use crate::bundle::{
    bundle_new, bundle_reverts_size, bundle_state_size, init_accounts, init_accounts_weight, init_contracts, init_layer_weight,
    init_revert, init_revert_storage, init_reverts, init_reverts_weight, init_storage, optional_info_of, sizes_cover,
    to_revm_account_info, AccountInit, AccountRevertView, Accounts, BundleAccountView, RevertInit, RevertLayer,
};
use crate::primitives::{Address, B256, U256};
use crate::receipts::Receipts;
use crate::sorting::{sort_by_key, sorted_by_key};
use crate::state::{BlockNumber, BundleStateWithReceipts};

verus! {

/// One account to start a state with: its address, its state before and
/// after the covered blocks, and its touched slots with their values before
/// and after.
pub type AccountStateInit = (Address, (Option<Account>, Option<Account>, Vec<(B256, (U256, U256))>));

/// The accounts to start a state with.
pub type BundleStateInit = Vec<AccountStateInit>;

/// What undoes a block's changes to one account: what the account was before
/// the block (`None`: not recorded; `Some(None)`: it did not exist), and the
/// values that slots had before the block.
pub type AccountRevertInit = (Option<Option<Account>>, Vec<StorageEntry>);

/// The records that undo one block, with the block's number.
pub type BlockRevertInit = (BlockNumber, Vec<(Address, AccountRevertInit)>);

/// The records that undo the covered blocks, in any order of the blocks.
pub type RevertsInit = Vec<BlockRevertInit>;

/// The accounts that `s` makes: of two entries for one address the later one
/// stays, and of two entries for one slot of an account likewise. Every
/// account has the status `Changed`.
pub open spec fn accounts_of_init(s: Seq<AccountStateInit>) -> Accounts
    decreases s.len(),
{
    if s.len() == 0 {
        Map::empty()
    } else {
        accounts_of_init(s.drop_last()).insert(
            s.last().0,
            BundleAccountView {
                info: optional_execution_form(s.last().1.1),
                original_info: optional_execution_form(s.last().1.0),
                storage: init_storage(s.last().1.2@),
                status: AccountStatus::Changed,
            },
        )
    }
}

/// The slots and earlier values of a list of stored slots.
pub open spec fn slot_pairs(entries: Seq<StorageEntry>) -> Seq<(U256, U256)> {
    Seq::new(entries.len(), |i: int| (entries[i].key, entries[i].value))
}

/// The record that one entry of a block's list makes: its earlier status is
/// `Changed` and it does not wipe storage.
pub open spec fn revert_of_init(e: (Address, AccountRevertInit)) -> (Address, AccountRevertView) {
    (
        e.0,
        AccountRevertView {
            account: match e.1.0 {
                Some(Some(account)) => AccountInfoRevert::RevertTo(execution_form(account)),
                Some(None) => AccountInfoRevert::DeleteIt,
                None => AccountInfoRevert::DoNothing,
            },
            storage: init_revert_storage(slot_pairs(e.1.1@)),
            previous_status: AccountStatus::Changed,
            wipe_storage: false,
        },
    )
}

/// The revert layers that `blocks` make, one for each entry and in the order
/// of the entries.
pub open spec fn reverts_of_init(blocks: Seq<BlockRevertInit>) -> Seq<RevertLayer> {
    Seq::new(blocks.len(), |i: int| Seq::new(blocks[i].1@.len(), |j: int| revert_of_init(blocks[i].1@[j])))
}

/// One for each account of `s` and one for each slot listed with it.
pub open spec fn state_init_weight(s: Seq<AccountStateInit>) -> nat
    decreases s.len(),
{
    if s.len() == 0 {
        0
    } else {
        state_init_weight(s.drop_last()) + 1 + s.last().1.2@.len()
    }
}

/// One for each record of `s` and one for each slot listed with it.
pub open spec fn block_init_weight(s: Seq<(Address, AccountRevertInit)>) -> nat
    decreases s.len(),
{
    if s.len() == 0 {
        0
    } else {
        block_init_weight(s.drop_last()) + 1 + s.last().1.1@.len()
    }
}

/// The sum of the weights of the blocks of `s`.
pub open spec fn reverts_init_weight(s: Seq<BlockRevertInit>) -> nat
    decreases s.len(),
{
    if s.len() == 0 {
        0
    } else {
        reverts_init_weight(s.drop_last()) + block_init_weight(s.last().1@)
    }
}

/// The weight of a list of blocks is the weight of the list without one
/// block, and that block's weight.
proof fn lemma_weight_remove(s: Seq<BlockRevertInit>, i: int)
    requires
        0 <= i < s.len(),
    ensures
        reverts_init_weight(s) == reverts_init_weight(s.remove(i)) + block_init_weight(s[i].1@),
    decreases s.len(),
{
    if i < s.len() - 1 {
        lemma_weight_remove(s.drop_last(), i);
        assert(s.remove(i).drop_last() =~= s.drop_last().remove(i));
    }
}

/// The weight of a list of blocks does not depend on their order.
proof fn lemma_weight_permutation(a: Seq<BlockRevertInit>, b: Seq<BlockRevertInit>)
    requires
        a.to_multiset() == b.to_multiset(),
    ensures
        reverts_init_weight(a) == reverts_init_weight(b),
    decreases a.len(),
{
    a.to_multiset_ensures();
    b.to_multiset_ensures();
    if a.len() > 0 {
        let x = a.last();
        assert(b.to_multiset().count(x) > 0);
        let j = choose|j: int| 0 <= j < b.len() && b[j] == x;
        lemma_weight_remove(b, j);
        vstd::seq_lib::to_multiset_remove(a, a.len() - 1);
        lemma_weight_permutation(a.drop_last(), b.remove(j));
    }
}

/// `revm`'s form of an optional stored account.
fn optional_revm_info(account: &Option<Account>) -> (r: Option<RevmAccountInfo>)
    ensures
        optional_info_of(r) == optional_execution_form(*account),
{
    match account {
        Some(account) => Some(to_revm_account_info(into_revm_acc(*account))),
        None => None,
    }
}

/// The accounts of `state_init` as `revm` takes them.
fn convert_accounts(state_init: Vec<AccountStateInit>) -> (out: Vec<AccountInit>)
    ensures
        init_accounts(out@) == accounts_of_init(state_init@),
        init_accounts_weight(out@) == state_init_weight(state_init@),
{
    let mut out: Vec<AccountInit> = Vec::new();
    let ghost all = state_init@;
    for entry in it: state_init
        invariant
            it.seq() == all,
            init_accounts(out@) == accounts_of_init(all.take(it.index() as int)),
            init_accounts_weight(out@) == state_init_weight(all.take(it.index() as int)),
    {
        let ghost before = out@;
        let ghost i = it.index() as int;
        proof {
            assert(all.take(i + 1).drop_last() =~= all.take(i));
        }
        let (address, (original, present, storage)) = entry;
        let original = optional_revm_info(&original);
        let present = optional_revm_info(&present);
        out.push((address, original, present, storage));
        proof {
            assert(out@.drop_last() =~= before);
        }
    }
    proof {
        assert(all.take(all.len() as int) =~= all);
    }
    out
}

/// The records of one block as `revm` takes them.
fn convert_block(block: Vec<(Address, AccountRevertInit)>) -> (out: Vec<RevertInit>)
    ensures
        out@.len() == block@.len(),
        forall|j: int| 0 <= j < out@.len() ==> init_revert(#[trigger] out@[j]) == revert_of_init(block@[j]),
        init_layer_weight(out@) == block_init_weight(block@),
{
    let mut out: Vec<RevertInit> = Vec::new();
    let ghost all = block@;
    for entry in it: block
        invariant
            it.seq() == all,
            out@.len() == it.index(),
            forall|j: int| 0 <= j < out@.len() ==> init_revert(#[trigger] out@[j]) == revert_of_init(all[j]),
            init_layer_weight(out@) == block_init_weight(all.take(it.index() as int)),
    {
        let ghost before = out@;
        let ghost i = it.index() as int;
        proof {
            assert(all.take(i + 1).drop_last() =~= all.take(i));
        }
        let (address, (original, entries)) = entry;
        let account = match original {
            Some(account) => Some(optional_revm_info(&account)),
            None => None,
        };
        let mut storage: Vec<(U256, U256)> = Vec::new();
        let mut k: usize = 0;
        while k < entries.len()
            invariant
                k <= entries@.len(),
                storage@ == slot_pairs(entries@.take(k as int)),
            decreases entries@.len() - k,
        {
            storage.push((entries[k].key, entries[k].value));
            k += 1;
        }
        proof {
            assert(entries@.take(k as int) =~= entries@);
        }
        out.push((address, account, storage));
        proof {
            assert(out@.drop_last() =~= before);
        }
    }
    proof {
        assert(all.take(all.len() as int) =~= all);
    }
    out
}

/// The records of `blocks`, block by block, as `revm` takes them.
fn convert_reverts(blocks: Vec<BlockRevertInit>) -> (out: Vec<Vec<RevertInit>>)
    ensures
        init_reverts(out@) == reverts_of_init(blocks@),
        init_reverts_weight(out@) == reverts_init_weight(blocks@),
{
    let mut out: Vec<Vec<RevertInit>> = Vec::new();
    let ghost all = blocks@;
    for block in it: blocks
        invariant
            it.seq() == all,
            out@.len() == it.index(),
            forall|i: int|
                0 <= i < out@.len() ==> {
                    &&& (#[trigger] out@[i])@.len() == all[i].1@.len()
                    &&& forall|j: int|
                        0 <= j < out@[i]@.len() ==> init_revert(#[trigger] out@[i]@[j]) == revert_of_init(
                            all[i].1@[j],
                        )
                },
            init_reverts_weight(out@) == reverts_init_weight(all.take(it.index() as int)),
    {
        let ghost before = out@;
        let ghost i = it.index() as int;
        proof {
            assert(all.take(i + 1).drop_last() =~= all.take(i));
        }
        let (_, records) = block;
        let layer = convert_block(records);
        out.push(layer);
        proof {
            assert(out@.drop_last() =~= before);
        }
    }
    proof {
        assert(all.take(all.len() as int) =~= all);
        assert(init_reverts(out@) =~~= reverts_of_init(all));
    }
    out
}

impl BundleStateWithReceipts {
    /// A state of the blocks from `first_block` on that `receipts` has, whose
    /// bundle has the accounts of `state_init`, one revert layer for each
    /// entry of `revert_init`, ordered by block number, and the contracts of
    /// `contracts_init`.
    ///
    /// The entries are counted in machine words: their number, slots
    /// included, has to fit.
    pub fn new_init(
        state_init: BundleStateInit,
        revert_init: RevertsInit,
        contracts_init: Vec<(B256, Bytecode)>,
        receipts: Receipts,
        first_block: BlockNumber,
    ) -> (r: Self)
        requires
            state_init_weight(state_init@) <= usize::MAX,
            reverts_init_weight(revert_init@) <= usize::MAX,
        ensures
            r@.first_block == first_block,
            r@.receipts == receipts@,
            r@.bundle.accounts == accounts_of_init(state_init@),
            r@.bundle.contracts == init_contracts(contracts_init@),
            exists|sorted: Seq<BlockRevertInit>|
                {
                    &&& #[trigger] sorted_by_key(sorted)
                    &&& sorted.to_multiset() == revert_init@.to_multiset()
                    &&& r@.bundle.reverts == reverts_of_init(sorted)
                },
            r@.bundle.reverts.len() == revert_init@.len(),
            sizes_cover(r.bundle),
            bundle_state_size(r.bundle) <= state_init_weight(state_init@),
            bundle_reverts_size(r.bundle) <= reverts_init_weight(revert_init@),
    {
        // The layers go by block number.
        let reverts = sort_by_key(revert_init);
        proof {
            lemma_weight_permutation(reverts@, revert_init@);
        }
        let ghost sorted = reverts@;
        let state = convert_accounts(state_init);
        let layers = convert_reverts(reverts);
        let bundle = bundle_new(state, layers, contracts_init);
        BundleStateWithReceipts { bundle, receipts, first_block }
    }
}

} // verus!
