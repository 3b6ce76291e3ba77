//! The aggregated changes of a range of blocks, as `revm` keeps them, and what
//! this library relies on of `revm`'s operations on them.
//!
//! A bundle is opaque to the verifier. What it holds is named by
//! [`bundle_accounts`], [`bundle_reverts`] and [`bundle_contracts`]; the
//! functions of this module say, over those names, what each operation of
//! `revm` gives. None of that is proved here: it is read off `revm`'s source.

use vstd::prelude::*;
use revm::db::states::{AccountStatus as RevmAccountStatus, BundleAccount, BundleState};
use revm::primitives::{
    AccountInfo as RevmAccountInfo, Address as RevmAddress, Bytecode, B256 as RevmB256, U256 as RevmU256,
};
use crate::account::{AccountData, AccountInfoRevert, AccountStatus, RevertToSlot, StorageSlot};
use crate::primitives::{Address, B256, FixedBytes, U256};

verus! {

#[verifier::external_type_specification]
#[verifier::external_body]
pub struct ExBundleState(revm::db::states::BundleState);

#[verifier::external_type_specification]
#[verifier::external_body]
pub struct ExBundleAccount(revm::db::states::BundleAccount);

#[verifier::external_type_specification]
#[verifier::external_body]
pub struct ExBytecode(revm::primitives::Bytecode);

#[verifier::external_type_specification]
#[verifier::external_body]
pub struct ExAccountInfo(revm::primitives::AccountInfo);

/// What a bundle holds of one account.
pub ghost struct BundleAccountView {
    /// The account after the covered blocks; `None` where it does not exist.
    pub info: Option<AccountData>,
    /// The account before the covered blocks.
    pub original_info: Option<AccountData>,
    /// The slots that the covered blocks touched.
    pub storage: Map<U256, StorageSlot>,
    pub status: AccountStatus,
}

/// What a bundle holds to undo the changes of one block to one account.
pub ghost struct AccountRevertView {
    pub account: AccountInfoRevert,
    pub storage: Map<U256, RevertToSlot>,
    pub previous_status: AccountStatus,
    /// Whether the block destroyed the account, so that undoing it restores
    /// the whole of its storage.
    pub wipe_storage: bool,
}

/// The records that undo one block, in the order in which they are applied.
pub type RevertLayer = Seq<(Address, AccountRevertView)>;

/// Accounts by address.
pub type Accounts = Map<Address, BundleAccountView>;

/// The bytes of contracts by code hash.
pub type Contracts = Map<B256, Seq<u8>>;

/// The accounts of a bundle, by address.
pub uninterp spec fn bundle_accounts(b: BundleState) -> Accounts;

/// What one account of a bundle holds.
pub uninterp spec fn account_view(account: BundleAccount) -> BundleAccountView;

/// The revert layers of a bundle, oldest block first.
pub uninterp spec fn bundle_reverts(b: BundleState) -> Seq<RevertLayer>;

/// The bytes of the contracts a bundle holds, by code hash.
pub uninterp spec fn bundle_contracts(b: BundleState) -> Contracts;

/// The bundle's own count of what its accounts hold (its field `state_size`).
pub uninterp spec fn bundle_state_size(b: BundleState) -> nat;

/// The bundle's own count of what its reverts hold (its field `reverts_size`).
pub uninterp spec fn bundle_reverts_size(b: BundleState) -> nat;

/// The bytes that a bytecode was made from.
pub uninterp spec fn bytecode_bytes(code: Bytecode) -> Seq<u8>;

/// The balance, nonce and code hash that one of `revm`'s accounts holds.
pub uninterp spec fn account_info_of(info: RevmAccountInfo) -> AccountData;

/// Adds what `revm` counts for the account at an address: one for the account
/// and one for each of its slots.
pub open spec fn weight_step(accounts: Accounts) -> spec_fn(nat, Address) -> nat {
    |n: nat, a: Address| n + 1 + accounts[a].storage.len()
}

/// What `revm` counts for a set of accounts: one for each account and one for
/// each of its slots.
pub open spec fn accounts_weight(accounts: Accounts) -> nat {
    accounts.dom().fold(0nat, weight_step(accounts))
}

/// What `revm` counts for one revert layer: one for each record and one for
/// each of its slots.
pub open spec fn layer_weight(layer: RevertLayer) -> nat
    decreases layer.len(),
{
    if layer.len() == 0 {
        0
    } else {
        layer_weight(layer.drop_last()) + 1 + layer.last().1.storage.len()
    }
}

/// What `revm` counts for a sequence of revert layers.
pub open spec fn reverts_weight(reverts: Seq<RevertLayer>) -> nat
    decreases reverts.len(),
{
    if reverts.len() == 0 {
        0
    } else {
        reverts_weight(reverts.drop_last()) + layer_weight(reverts.last())
    }
}

/// The bundle's two counts are no less than what it holds. `revm` subtracts
/// from them as it removes: with a count that is too small that subtraction
/// fails. Every bundle that `revm`'s own operations built has this.
pub open spec fn sizes_cover(b: BundleState) -> bool {
    &&& bundle_state_size(b) >= accounts_weight(bundle_accounts(b))
    &&& bundle_reverts_size(b) >= reverts_weight(bundle_reverts(b))
}

/// The bundle's counts cover what it holds and leave room for undoing blocks,
/// which moves weight from the reverts to the accounts.
pub open spec fn can_revert(b: BundleState) -> bool {
    &&& sizes_cover(b)
    &&& bundle_state_size(b) + bundle_reverts_size(b) <= usize::MAX
}

/// The counts of `b` and `other` cover what they hold and leave room for
/// appending `other` to `b`.
pub open spec fn can_extend(b: BundleState, other: BundleState) -> bool {
    &&& sizes_cover(b)
    &&& sizes_cover(other)
    &&& bundle_state_size(b) + bundle_state_size(other) <= usize::MAX
    &&& bundle_reverts_size(b) + bundle_reverts_size(other) + bundle_state_size(b) <= usize::MAX
}

/// What a bundle holds, as one value.
pub ghost struct BundleView {
    pub accounts: Accounts,
    pub reverts: Seq<RevertLayer>,
    pub contracts: Contracts,
}

/// What `b` holds.
pub open spec fn bundle_view(b: BundleState) -> BundleView {
    BundleView { accounts: bundle_accounts(b), reverts: bundle_reverts(b), contracts: bundle_contracts(b) }
}

/// `keys` lists the keys of `m`, each once, in some order.
pub open spec fn lists_keys<K, V>(keys: Seq<K>, m: Map<K, V>) -> bool {
    &&& keys.no_duplicates()
    &&& forall|i: int| 0 <= i < keys.len() ==> m.contains_key(#[trigger] keys[i])
    &&& forall|k: K| #[trigger] m.contains_key(k) ==> keys.contains(k)
}

/// `entries` lists the pairs of `m`, each key once, in some order.
pub open spec fn lists_entries<K, V>(entries: Seq<(K, V)>, m: Map<K, V>) -> bool {
    &&& forall|i: int, j: int| 0 <= i < j < entries.len() ==> (#[trigger] entries[i]).0 != (#[trigger] entries[j]).0
    &&& forall|i: int| 0 <= i < entries.len() ==> m.contains_pair((#[trigger] entries[i]).0, entries[i].1)
    &&& forall|k: K| #[trigger] m.contains_key(k) ==> exists|i: int| 0 <= i < entries.len() && (#[trigger] entries[i]).0 == k
}

/// What is known of slot `key` of `account`: its present value where the
/// bundle holds the slot, zero where all of the account's storage is known,
/// and nothing otherwise.
pub open spec fn known_slot(account: BundleAccountView, key: U256) -> Option<U256> {
    if account.storage.contains_key(key) {
        Some(account.storage[key].present_value)
    } else if account.status.is_storage_known() {
        Some(U256::zero())
    } else {
        None
    }
}

/// An empty bundle.
///
/// Calls `BundleState::default`: no accounts, no reverts, no contracts, both
/// counts zero.
#[verifier::external_body]
pub(crate) fn bundle_default() -> (b: BundleState)
    ensures
        bundle_accounts(b) == Accounts::empty(),
        bundle_reverts(b) == Seq::<RevertLayer>::empty(),
        bundle_contracts(b) == Contracts::empty(),
        bundle_state_size(b) == 0,
        bundle_reverts_size(b) == 0,
{
    BundleState::default()
}

/// `BundleState::clone` is derived: the copy holds what the bundle holds and
/// has its counts.
pub assume_specification[ <revm::db::states::BundleState as Clone>::clone ](
    b: &revm::db::states::BundleState,
) -> (c: revm::db::states::BundleState)
    ensures
        c == *b,
;

/// The addresses of a list of accounts.
pub open spec fn listed_addresses(list: Seq<(Address, &BundleAccount)>) -> Seq<Address> {
    Seq::new(list.len(), |i: int| list[i].0)
}

/// The account at `address`, if the bundle has it.
///
/// Calls `BundleState::account`, which looks the address up in the bundle's
/// hash map of accounts.
#[verifier::external_body]
pub(crate) fn bundle_account<'a>(b: &'a BundleState, address: &Address) -> (r: Option<&'a BundleAccount>)
    ensures
        r is Some == bundle_accounts(*b).contains_key(*address),
        r is Some ==> account_view(*r->Some_0) == bundle_accounts(*b)[*address],
{
    b.account(&RevmAddress::new(address.0))
}

/// The accounts of the bundle with their addresses, each once, in no
/// particular order.
///
/// Calls `BundleState::state` and walks the hash map it gives.
#[verifier::external_body]
pub(crate) fn bundle_account_list<'a>(b: &'a BundleState) -> (r: Vec<(Address, &'a BundleAccount)>)
    ensures
        lists_keys(listed_addresses(r@), bundle_accounts(*b)),
        forall|i: int| 0 <= i < r@.len() ==> account_view(*(#[trigger] r@[i]).1) == bundle_accounts(*b)[r@[i].0],
{
    b.state().iter().map(|(a, account)| (FixedBytes(a.0 .0), account)).collect()
}

/// The present state of the account, `None` where it does not exist. The
/// account's code is left out.
///
/// Reads the field `info` of `revm`'s `BundleAccount`.
#[verifier::external_body]
pub(crate) fn account_info(account: &BundleAccount) -> (r: Option<AccountData>)
    ensures
        r == account_view(*account).info,
{
    account.info.as_ref().map(|i| AccountData {
        balance: FixedBytes(i.balance.to_be_bytes()),
        nonce: i.nonce,
        code_hash: FixedBytes(i.code_hash.0),
    })
}

/// The status of the account.
///
/// Reads the field `status` of `revm`'s `BundleAccount`.
#[verifier::external_body]
pub(crate) fn account_status(account: &BundleAccount) -> (r: AccountStatus)
    ensures
        r == account_view(*account).status,
{
    match account.status {
        RevmAccountStatus::LoadedNotExisting => AccountStatus::LoadedNotExisting,
        RevmAccountStatus::Loaded => AccountStatus::Loaded,
        RevmAccountStatus::LoadedEmptyEIP161 => AccountStatus::LoadedEmptyEIP161,
        RevmAccountStatus::InMemoryChange => AccountStatus::InMemoryChange,
        RevmAccountStatus::Changed => AccountStatus::Changed,
        RevmAccountStatus::Destroyed => AccountStatus::Destroyed,
        RevmAccountStatus::DestroyedChanged => AccountStatus::DestroyedChanged,
        RevmAccountStatus::DestroyedAgain => AccountStatus::DestroyedAgain,
    }
}

/// The slots that the bundle holds for the account, each once, in no
/// particular order.
///
/// Walks the field `storage` of `revm`'s `BundleAccount`, a hash map.
#[verifier::external_body]
pub(crate) fn account_storage(account: &BundleAccount) -> (r: Vec<(U256, StorageSlot)>)
    ensures
        lists_entries(r@, account_view(*account).storage),
{
    let word = |w: &RevmU256| FixedBytes(w.to_be_bytes());
    let slot = |s: &revm::db::states::StorageSlot| StorageSlot {
        previous_or_original_value: word(&s.previous_or_original_value),
        present_value: word(&s.present_value),
    };
    account.storage.iter().map(|(k, s)| (word(k), slot(s))).collect()
}

/// The number of slots that the bundle holds for the account.
///
/// Reads the length of the field `storage` of `revm`'s `BundleAccount`, a
/// hash map.
#[verifier::external_body]
pub(crate) fn account_storage_len(account: &BundleAccount) -> (n: usize)
    ensures
        n == account_view(*account).storage.len(),
{
    account.storage.len()
}

/// What is known of slot `key` of the account.
///
/// Calls `BundleAccount::storage_slot`, which gives the slot's present value
/// where the bundle holds it, zero where the account's status says that its
/// storage is known, and `None` otherwise.
#[verifier::external_body]
pub(crate) fn account_storage_slot(account: &BundleAccount, key: &U256) -> (r: Option<U256>)
    ensures
        r == known_slot(account_view(*account), *key),
{
    account.storage_slot(RevmU256::from_be_bytes(key.0)).map(|v| FixedBytes(v.to_be_bytes()))
}

/// The contract with code hash `hash`, if the bundle holds it.
///
/// Calls `BundleState::bytecode`, which clones what the bundle's map of
/// contracts holds under `hash`.
#[verifier::external_body]
pub(crate) fn bundle_bytecode(b: &BundleState, hash: &B256) -> (r: Option<Bytecode>)
    ensures
        r is Some == bundle_contracts(*b).contains_key(*hash),
        r is Some ==> bytecode_bytes(r->Some_0) == bundle_contracts(*b)[*hash],
{
    b.bytecode(&RevmB256::new(hash.0))
}

/// The accounts of a bundle after the last `n` of its revert layers were
/// applied to them, the newest layer first and each layer's records in their
/// order; with fewer than `n` layers, after all of them.
pub uninterp spec fn accounts_after_revert(accounts: Accounts, reverts: Seq<RevertLayer>, n: nat) -> Accounts;

/// The accounts after `n` blocks were undone: as they were where there was
/// nothing to undo.
pub open spec fn reverted_accounts(accounts: Accounts, reverts: Seq<RevertLayer>, n: nat) -> Accounts {
    if n == 0 || reverts.len() == 0 {
        accounts
    } else {
        accounts_after_revert(accounts, reverts, n)
    }
}

/// The revert layers that are left after `n` blocks were undone.
pub open spec fn remaining_layers(reverts: Seq<RevertLayer>, n: nat) -> Seq<RevertLayer> {
    if n >= reverts.len() {
        Seq::empty()
    } else {
        reverts.take(reverts.len() - n)
    }
}

/// What a bundle holds after `n` blocks were undone.
pub open spec fn reverted_view(v: BundleView, n: nat) -> BundleView {
    BundleView {
        accounts: reverted_accounts(v.accounts, v.reverts, n),
        reverts: remaining_layers(v.reverts, n),
        contracts: v.contracts,
    }
}

/// Undoes the last `n` blocks of the bundle, or all of them where it has
/// fewer.
///
/// Calls `BundleState::revert`. It returns at once for `n == 0`; else it pops
/// revert layers from the end, applying each to the accounts, until `n` were
/// popped or none is left. It does not touch the contracts. For each record
/// it subtracts the record's weight from the count of the reverts, and
/// replaces the account's weight in the count of the accounts by its new
/// one, which is larger by no more than the record's weight.
#[verifier::external_body]
pub(crate) fn bundle_revert(b: &mut BundleState, n: usize)
    requires
        can_revert(*old(b)),
    ensures
        n == 0 || bundle_reverts(*old(b)).len() == 0 ==> *final(b) == *old(b),
        n > 0 && bundle_reverts(*old(b)).len() > 0 ==> bundle_accounts(*final(b)) == accounts_after_revert(
            bundle_accounts(*old(b)),
            bundle_reverts(*old(b)),
            n as nat,
        ),
        bundle_reverts(*final(b)) == remaining_layers(bundle_reverts(*old(b)), n as nat),
        bundle_contracts(*final(b)) == bundle_contracts(*old(b)),
        can_revert(*final(b)),
{
    b.revert(n)
}

/// The revert layers that are left when the first `n` are dropped.
pub open spec fn later_layers(reverts: Seq<RevertLayer>, n: nat) -> Seq<RevertLayer> {
    if n > reverts.len() {
        Seq::empty()
    } else {
        reverts.skip(n as int)
    }
}

/// Drops the first `n` revert layers of the bundle, or all of them where it
/// has fewer.
///
/// Calls `BundleState::take_n_reverts` and drops what it returns. The
/// accounts and contracts stay; the count of the reverts is summed anew over
/// the layers that are left.
#[verifier::external_body]
pub(crate) fn bundle_take_n_reverts(b: &mut BundleState, n: usize)
    requires
        sizes_cover(*old(b)),
    ensures
        bundle_reverts(*final(b)) == later_layers(bundle_reverts(*old(b)), n as nat),
        bundle_accounts(*final(b)) == bundle_accounts(*old(b)),
        bundle_contracts(*final(b)) == bundle_contracts(*old(b)),
        bundle_state_size(*final(b)) == bundle_state_size(*old(b)),
        bundle_reverts_size(*final(b)) == reverts_weight(bundle_reverts(*final(b))),
        bundle_reverts_size(*final(b)) <= bundle_reverts_size(*old(b)),
{
    b.take_n_reverts(n);
}

/// The accounts of a bundle with accounts `own` after a bundle with accounts
/// `other` and revert layers `other_reverts` was appended to it, and those
/// layers as they were appended.
pub uninterp spec fn extend_outcome(own: Accounts, other: Accounts, other_reverts: Seq<RevertLayer>) -> (
    Accounts,
    Seq<RevertLayer>,
);

/// Whether one of the records of `reverts` for `address` wipes storage.
pub open spec fn is_wiped_by(reverts: Seq<RevertLayer>, address: Address) -> bool {
    exists|i: int, j: int|
        0 <= i < reverts.len() && 0 <= j < reverts[i].len() && (#[trigger] reverts[i][j]).0 == address
            && reverts[i][j].1.wipe_storage
}

/// What holds of `joined`, a bundle to which `other` was appended and which
/// held `own` before: its layers are those of `own` and then as many as
/// `other` has, for the same addresses, and the same records but where they
/// wipe storage; its contracts are those of both; it has the accounts of
/// both: for each account of `other` the present state and the present value
/// of every slot that `other` holds, and as it was each account that `other`
/// neither holds nor wipes.
pub open spec fn is_extension(own: BundleView, other: BundleView, joined: BundleView) -> bool {
    &&& joined.reverts.len() == own.reverts.len() + other.reverts.len()
    &&& joined.reverts.take(own.reverts.len() as int) == own.reverts
    &&& {
        let appended = joined.reverts.skip(own.reverts.len() as int);
        &&& forall|i: int| 0 <= i < other.reverts.len() ==> (#[trigger] appended[i]).len() == other.reverts[i].len()
        &&& forall|i: int, j: int|
            0 <= i < other.reverts.len() && 0 <= j < other.reverts[i].len() ==> {
                &&& (#[trigger] appended[i][j]).0 == other.reverts[i][j].0
                &&& appended[i][j].1.account == other.reverts[i][j].1.account
                &&& !other.reverts[i][j].1.wipe_storage ==> appended[i][j] == other.reverts[i][j]
            }
    }
    &&& joined.contracts == own.contracts.union_prefer_right(other.contracts)
    &&& forall|a: Address| #[trigger]
        joined.accounts.contains_key(a) <==> own.accounts.contains_key(a) || other.accounts.contains_key(a)
    &&& forall|a: Address| #[trigger]
        other.accounts.contains_key(a) ==> joined.accounts[a].info == other.accounts[a].info
    &&& forall|a: Address| #[trigger]
        own.accounts.contains_key(a) && !other.accounts.contains_key(a) && !is_wiped_by(other.reverts, a)
            ==> joined.accounts[a] == own.accounts[a]
    &&& forall|a: Address, k: U256|
        other.accounts.contains_key(a) && #[trigger] other.accounts[a].storage.contains_key(k) ==> {
            &&& joined.accounts[a].storage.contains_key(k)
            &&& joined.accounts[a].storage[k].present_value == other.accounts[a].storage[k].present_value
        }
}

/// What a bundle that held `own` holds after `other` was appended to it.
pub open spec fn extended_view(own: BundleView, other: BundleView) -> BundleView {
    BundleView {
        accounts: extend_outcome(own.accounts, other.accounts, other.reverts).0,
        reverts: own.reverts + extend_outcome(own.accounts, other.accounts, other.reverts).1,
        contracts: own.contracts.union_prefer_right(other.contracts),
    }
}

/// Appends `other` to the bundle.
///
/// Calls `BundleState::extend`. It first moves, for each record of `other`
/// that wipes storage, the slots that the bundle holds for that account into
/// the record, and touches no other record and no other account; then
/// merges the accounts of `other` into its own, where the
/// present state and the present slot values of `other` win; then adds the
/// contracts and appends the layers of `other`. It adds the weights of the
/// appended records, which grew by no more than the slots that were moved, to
/// the count of the reverts, and replaces weights in the count of the
/// accounts.
#[verifier::external_body]
pub(crate) fn bundle_extend(b: &mut BundleState, other: BundleState)
    requires
        can_extend(*old(b), other),
    ensures
        bundle_view(*final(b)) == extended_view(bundle_view(*old(b)), bundle_view(other)),
        bundle_accounts(*final(b)) == extend_outcome(
            bundle_accounts(*old(b)),
            bundle_accounts(other),
            bundle_reverts(other),
        ).0,
        is_extension(bundle_view(*old(b)), bundle_view(other), bundle_view(*final(b))),
        sizes_cover(*final(b)),
        bundle_state_size(*final(b)) <= bundle_state_size(*old(b)) + bundle_state_size(other),
        bundle_reverts_size(*final(b)) <= bundle_reverts_size(*old(b)) + bundle_reverts_size(other)
            + bundle_state_size(*old(b)),
{
    b.extend(other)
}

/// One account to start a bundle with: its address, its state before and
/// after the covered blocks, and its touched slots with their values before
/// and after.
pub type AccountInit = (Address, Option<RevmAccountInfo>, Option<RevmAccountInfo>, Vec<(U256, (U256, U256))>);

/// One record to start a revert layer with: the address, what the account
/// was before the block (`None`: not recorded; `Some(None)`: it did not
/// exist), and the values that slots had before the block.
pub type RevertInit = (Address, Option<Option<RevmAccountInfo>>, Vec<(U256, U256)>);

/// One of `revm`'s accounts that holds `info` and no code.
///
/// Builds `revm`'s `AccountInfo` field by field.
#[verifier::external_body]
pub(crate) fn to_revm_account_info(info: AccountData) -> (r: RevmAccountInfo)
    ensures
        account_info_of(r) == info,
{
    RevmAccountInfo {
        balance: RevmU256::from_be_bytes(info.balance.0),
        nonce: info.nonce,
        code_hash: RevmB256::new(info.code_hash.0),
        code: None,
    }
}

/// What an optional account of `revm` holds.
pub open spec fn optional_info_of(info: Option<RevmAccountInfo>) -> Option<AccountData> {
    match info {
        Some(info) => Some(account_info_of(info)),
        None => None,
    }
}

/// The slots that a list of slots with their values before and after makes:
/// of two entries for one slot the later one stays.
pub open spec fn init_storage(s: Seq<(U256, (U256, U256))>) -> Map<U256, StorageSlot>
    decreases s.len(),
{
    if s.len() == 0 {
        Map::empty()
    } else {
        init_storage(s.drop_last()).insert(
            s.last().0,
            StorageSlot { previous_or_original_value: s.last().1.0, present_value: s.last().1.1 },
        )
    }
}

/// The accounts that a list of accounts makes: of two entries for one address
/// the later one stays.
pub open spec fn init_accounts(s: Seq<AccountInit>) -> Accounts
    decreases s.len(),
{
    if s.len() == 0 {
        Map::empty()
    } else {
        init_accounts(s.drop_last()).insert(
            s.last().0,
            BundleAccountView {
                info: optional_info_of(s.last().2),
                original_info: optional_info_of(s.last().1),
                storage: init_storage(s.last().3@),
                status: AccountStatus::Changed,
            },
        )
    }
}

/// The slot records that a list of slots with their earlier values makes.
pub open spec fn init_revert_storage(s: Seq<(U256, U256)>) -> Map<U256, RevertToSlot>
    decreases s.len(),
{
    if s.len() == 0 {
        Map::empty()
    } else {
        init_revert_storage(s.drop_last()).insert(s.last().0, RevertToSlot::Value(s.last().1))
    }
}

/// The record that one entry of a revert layer makes.
pub open spec fn init_revert(r: RevertInit) -> (Address, AccountRevertView) {
    (
        r.0,
        AccountRevertView {
            account: match r.1 {
                Some(Some(info)) => AccountInfoRevert::RevertTo(account_info_of(info)),
                Some(None) => AccountInfoRevert::DeleteIt,
                None => AccountInfoRevert::DoNothing,
            },
            storage: init_revert_storage(r.2@),
            previous_status: AccountStatus::Changed,
            wipe_storage: false,
        },
    )
}

/// The revert layers that lists of entries make, one layer for each list.
pub open spec fn init_reverts(s: Seq<Vec<RevertInit>>) -> Seq<RevertLayer> {
    Seq::new(s.len(), |i: int| Seq::new(s[i]@.len(), |j: int| init_revert(s[i]@[j])))
}

/// The contracts that a list of contracts makes.
pub open spec fn init_contracts(s: Seq<(B256, Bytecode)>) -> Contracts
    decreases s.len(),
{
    if s.len() == 0 {
        Map::empty()
    } else {
        init_contracts(s.drop_last()).insert(s.last().0, bytecode_bytes(s.last().1))
    }
}

/// One for each account of `s` and one for each slot listed with it.
pub open spec fn init_accounts_weight(s: Seq<AccountInit>) -> nat
    decreases s.len(),
{
    if s.len() == 0 {
        0
    } else {
        init_accounts_weight(s.drop_last()) + 1 + s.last().3@.len()
    }
}

/// One for each entry of `s` and one for each slot listed with it.
pub open spec fn init_layer_weight(s: Seq<RevertInit>) -> nat
    decreases s.len(),
{
    if s.len() == 0 {
        0
    } else {
        init_layer_weight(s.drop_last()) + 1 + s.last().2@.len()
    }
}

/// The sum of the weights of the lists of `s`.
pub open spec fn init_reverts_weight(s: Seq<Vec<RevertInit>>) -> nat
    decreases s.len(),
{
    if s.len() == 0 {
        0
    } else {
        init_reverts_weight(s.drop_last()) + init_layer_weight(s.last()@)
    }
}

/// A bundle with the given accounts, revert layers and contracts.
///
/// Calls `BundleState::new`. It collects the accounts, each account's slots,
/// each record's slots and the contracts into hash maps, where a later entry
/// replaces an earlier one with the same key; every account gets the status
/// `Changed`, and every record that as its earlier status and no wipe. While
/// it collects, it sums the weight of every account and record it is given
/// into the two counts.
#[verifier::external_body]
pub(crate) fn bundle_new(state: Vec<AccountInit>, reverts: Vec<Vec<RevertInit>>, contracts: Vec<(B256, Bytecode)>) -> (b:
    BundleState)
    requires
        init_accounts_weight(state@) <= usize::MAX,
        init_reverts_weight(reverts@) <= usize::MAX,
    ensures
        bundle_accounts(b) == init_accounts(state@),
        bundle_reverts(b) == init_reverts(reverts@),
        bundle_contracts(b) == init_contracts(contracts@),
        sizes_cover(b),
        bundle_state_size(b) <= init_accounts_weight(state@),
        bundle_reverts_size(b) <= init_reverts_weight(reverts@),
{
    let w = |x: U256| RevmU256::from_be_bytes(x.0);
    let q = |(k, v): (U256, U256)| (w(k), w(v));
    BundleState::new(
        state.into_iter().map(|(a, o, p, s)| (a.0.into(), o, p, s.into_iter().map(|(k, v)| (w(k), q(v))).collect())),
        reverts.into_iter().map(|l| l.into_iter().map(|(a, i, s)| (a.0.into(), i, s.into_iter().map(q)))),
        contracts.into_iter().map(|(h, c)| (h.0.into(), c)),
    )
}

/// `records` has, for each record of each layer of `reverts`, the record's
/// address, whether the record wipes storage, and the number of slots that
/// the record names.
pub open spec fn lists_records(records: Seq<Vec<(Address, bool, usize)>>, reverts: Seq<RevertLayer>) -> bool {
    &&& records.len() == reverts.len()
    &&& forall|i: int| 0 <= i < records.len() ==> (#[trigger] records[i])@.len() == reverts[i].len()
    &&& forall|i: int, j: int|
        0 <= i < records.len() && 0 <= j < records[i]@.len() ==> {
            &&& (#[trigger] records[i]@[j]).0 == reverts[i][j].0
            &&& records[i]@[j].1 == reverts[i][j].1.wipe_storage
            &&& records[i]@[j].2 == reverts[i][j].1.storage.len()
        }
}

/// For each record of each revert layer, the record's address, whether it
/// wipes storage, and the number of slots that it names.
///
/// Reads the field `reverts` of the bundle, and of each record the field
/// `wipe_storage` and the length of the field `storage`, a hash map.
#[verifier::external_body]
pub(crate) fn bundle_revert_records(b: &BundleState) -> (r: Vec<Vec<(Address, bool, usize)>>)
    ensures
        lists_records(r@, bundle_reverts(*b)),
{
    let record = |e: &(RevmAddress, revm::db::states::AccountRevert)| (FixedBytes(e.0.0 .0), e.1.wipe_storage, e.1.storage.len());
    b.reverts.iter().map(|l| l.iter().map(record).collect()).collect()
}

/// The bundle's own counts of what its accounts and its reverts hold.
///
/// Reads the fields `state_size` and `reverts_size` of the bundle.
#[verifier::external_body]
pub(crate) fn bundle_sizes(b: &BundleState) -> (r: (usize, usize))
    ensures
        r.0 == bundle_state_size(*b),
        r.1 == bundle_reverts_size(*b),
{
    (b.state_size, b.reverts_size)
}

} // verus!
