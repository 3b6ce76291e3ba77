//! A bundle flattened for storage: the present state of what changed, and for
//! each block the earlier state of what it changed.

use vstd::prelude::*;
use revm::db::states::{
    BundleState, OriginalValuesKnown as RevmOriginalValuesKnown, PlainStorageRevert as RevmPlainStorageRevert,
    RevertToSlot as RevmRevertToSlot,
};
use revm::primitives::{AccountInfo as RevmAccountInfo, Address as RevmAddress, Bytecode, U256 as RevmU256};
use crate::account::{keccak_empty, AccountData, AccountInfoRevert, OriginalValuesKnown, RevertToSlot, StorageSlot};
use crate::bundle::{
    bundle_accounts, bundle_contracts, bundle_reverts, bytecode_bytes, lists_entries, AccountRevertView, Accounts,
    BundleAccountView, Contracts, RevertLayer,
};
use crate::primitives::{Address, B256, FixedBytes, U256};

verus! {

#[verifier::external_type_specification]
#[verifier::external_body]
pub struct ExStateChangeset(revm::db::states::StateChangeset);

#[verifier::external_type_specification]
#[verifier::external_body]
pub struct ExPlainStateReverts(revm::db::states::PlainStateReverts);

/// The slots of one account that are to be written, and whether what storage
/// holds for the account is to be removed first.
#[derive(Clone, Debug, PartialEq, Eq)]
pub struct PlainStorageChangeset {
    pub address: Address,
    pub wipe_storage: bool,
    /// Slots with their present values, in no particular order.
    pub storage: Vec<(U256, U256)>,
}

/// The earlier values of the slots of one account that a block changed.
#[derive(Clone, Debug, PartialEq, Eq)]
pub struct PlainStorageRevert {
    pub address: Address,
    /// Whether the block destroyed the account: what storage held for it
    /// before belongs to the earlier values too.
    pub wiped: bool,
    /// Slots with what they go back to, in no particular order.
    pub storage_revert: Vec<(U256, RevertToSlot)>,
}

/// The present state of what a bundle changed.
pub struct PlainState {
    /// Accounts with their present state, `None` for one that no longer
    /// exists; in no particular order.
    pub accounts: Vec<(Address, Option<AccountData>)>,
    /// For each account with storage to write, its slots; in no particular
    /// order.
    pub storage: Vec<PlainStorageChangeset>,
    /// Contracts by code hash; in no particular order.
    pub contracts: Vec<(B256, Bytecode)>,
}

/// For each block of a bundle, oldest first, the earlier state of what the
/// block changed.
pub struct PlainReverts {
    /// For each block the accounts it changed, with what they were before it.
    pub accounts: Vec<Vec<(Address, Option<AccountData>)>>,
    /// For each block the accounts whose storage it changed, with the
    /// earlier values.
    pub storage: Vec<Vec<PlainStorageRevert>>,
}

/// The accounts that `revm` hands out for writing.
pub uninterp spec fn changeset_accounts(c: revm::db::states::StateChangeset) -> Seq<(Address, Option<AccountData>)>;

/// The storage that `revm` hands out for writing.
pub uninterp spec fn changeset_storage(c: revm::db::states::StateChangeset) -> Seq<PlainStorageChangeset>;

/// The contracts that `revm` hands out for writing, as their bytes.
pub uninterp spec fn changeset_contracts(c: revm::db::states::StateChangeset) -> Seq<(B256, Seq<u8>)>;

/// The earlier account states that `revm` hands out, block by block.
pub uninterp spec fn plain_reverts_accounts(r: revm::db::states::PlainStateReverts) -> Seq<
    Seq<(Address, Option<AccountData>)>,
>;

/// The earlier slot values that `revm` hands out, block by block.
pub uninterp spec fn plain_reverts_storage(r: revm::db::states::PlainStateReverts) -> Seq<Seq<PlainStorageRevert>>;

/// Whether the present state of `account` is written: always where the
/// original values are not relied on, else where it differs from the original.
pub open spec fn account_is_written(account: BundleAccountView, known: OriginalValuesKnown) -> bool {
    known == OriginalValuesKnown::No || account.info != account.original_info
}

/// The accounts whose present state is written, with that state.
pub open spec fn written_accounts(accounts: Accounts, known: OriginalValuesKnown) -> Map<Address, Option<AccountData>> {
    Map::new(
        |a: Address| accounts.contains_key(a) && account_is_written(accounts[a], known),
        |a: Address| accounts[a].info,
    )
}

/// Whether `slot` of `account` is written: always where the original values
/// are not relied on; of a destroyed account, whose storage is removed first,
/// where it is not zero; of another account where it changed.
pub open spec fn slot_is_written(account: BundleAccountView, slot: StorageSlot, known: OriginalValuesKnown) -> bool {
    ||| known == OriginalValuesKnown::No
    ||| account.status.was_destroyed() && slot.present_value != U256::zero()
    ||| !account.status.was_destroyed() && slot.previous_or_original_value != slot.present_value
}

/// The slots of `account` that are written, with their present values.
pub open spec fn written_slots(account: BundleAccountView, known: OriginalValuesKnown) -> Map<U256, U256> {
    Map::new(
        |k: U256| account.storage.contains_key(k) && slot_is_written(account, account.storage[k], known),
        |k: U256| account.storage[k].present_value,
    )
}

/// Whether `account` has an entry among the storage to write: it was
/// destroyed, or one of its slots is written.
pub open spec fn storage_is_written(account: BundleAccountView, known: OriginalValuesKnown) -> bool {
    account.status.was_destroyed() || exists|k: U256| #[trigger] written_slots(account, known).contains_key(k)
}

/// `out` lists, in some order and each once, the accounts of `accounts` with
/// storage to write, each with its written slots in some order and with the
/// wipe flag of a destroyed account.
pub open spec fn is_plain_storage(out: Seq<PlainStorageChangeset>, accounts: Accounts, known: OriginalValuesKnown) -> bool {
    &&& forall|i: int, j: int| 0 <= i < j < out.len() ==> (#[trigger] out[i]).address != (#[trigger] out[j]).address
    &&& forall|i: int|
        0 <= i < out.len() ==> {
            let a = (#[trigger] out[i]).address;
            &&& accounts.contains_key(a)
            &&& storage_is_written(accounts[a], known)
            &&& out[i].wipe_storage == accounts[a].status.was_destroyed()
            &&& lists_entries(out[i].storage@, written_slots(accounts[a], known))
        }
    &&& forall|a: Address| #[trigger]
        accounts.contains_key(a) && storage_is_written(accounts[a], known) ==> exists|i: int|
            0 <= i < out.len() && (#[trigger] out[i]).address == a
}

/// Whether a record names what the account was before the block.
pub open spec fn names_account(r: (Address, AccountRevertView)) -> bool {
    r.1.account != AccountInfoRevert::DoNothing
}

/// The earlier state that a record names.
pub open spec fn earlier_account(r: (Address, AccountRevertView)) -> (Address, Option<AccountData>) {
    (
        r.0,
        match r.1.account {
            AccountInfoRevert::RevertTo(info) => Some(info),
            _ => None,
        },
    )
}

/// The earlier account states of one layer: those that its records name, in
/// the records' order.
pub open spec fn layer_accounts(layer: RevertLayer) -> Seq<(Address, Option<AccountData>)> {
    layer.filter(|r: (Address, AccountRevertView)| names_account(r)).map_values(
        |r: (Address, AccountRevertView)| earlier_account(r),
    )
}

/// The earlier account states of all layers.
pub open spec fn reverts_accounts(reverts: Seq<RevertLayer>) -> Seq<Seq<(Address, Option<AccountData>)>> {
    reverts.map_values(|layer: RevertLayer| layer_accounts(layer))
}

/// Whether a record has earlier slot values to hand out: it wipes storage or
/// names a slot.
pub open spec fn names_storage(r: (Address, AccountRevertView)) -> bool {
    r.1.wipe_storage || exists|k: U256| #[trigger] r.1.storage.contains_key(k)
}

/// `out` has, for each record of `layer` with slot values to hand out and in
/// the records' order, the record's address, its wipe flag and its slots in
/// some order.
pub open spec fn is_layer_storage(out: Seq<PlainStorageRevert>, layer: RevertLayer) -> bool {
    let kept = layer.filter(|r: (Address, AccountRevertView)| names_storage(r));
    &&& out.len() == kept.len()
    &&& forall|i: int|
        0 <= i < out.len() ==> {
            &&& (#[trigger] out[i]).address == kept[i].0
            &&& out[i].wiped == kept[i].1.wipe_storage
            &&& lists_entries(out[i].storage_revert@, kept[i].1.storage)
        }
}

/// `out` has the earlier slot values of every layer of `reverts`.
pub open spec fn is_reverts_storage(out: Seq<Seq<PlainStorageRevert>>, reverts: Seq<RevertLayer>) -> bool {
    &&& out.len() == reverts.len()
    &&& forall|i: int| 0 <= i < out.len() ==> is_layer_storage(#[trigger] out[i], reverts[i])
}

/// The code hashes and bytes of a list of contracts.
pub open spec fn contract_bytes(s: Seq<(B256, Bytecode)>) -> Seq<(B256, Seq<u8>)> {
    s.map_values(|c: (B256, Bytecode)| (c.0, bytecode_bytes(c.1)))
}

/// Flattens the bundle.
///
/// Calls `BundleState::into_plain_state_and_reverts`. The plain state has the
/// present state of each account that is written, the written slots of each
/// account with storage to write, and the contracts but the one under the
/// hash of the empty string; all three are walked out of hash maps. The
/// reverts have one list of accounts and one of storage for each layer, made
/// of the layer's records in their order; a record's slots are walked out of
/// a hash map.
#[verifier::external_body]
pub(crate) fn bundle_into_plain_state_and_reverts(b: BundleState, known: OriginalValuesKnown) -> (r: (
    revm::db::states::StateChangeset,
    revm::db::states::PlainStateReverts,
))
    ensures
        lists_entries(changeset_accounts(r.0), written_accounts(bundle_accounts(b), known)),
        is_plain_storage(changeset_storage(r.0), bundle_accounts(b), known),
        lists_entries(changeset_contracts(r.0), bundle_contracts(b).remove(keccak_empty())),
        plain_reverts_accounts(r.1) == reverts_accounts(bundle_reverts(b)),
        is_reverts_storage(plain_reverts_storage(r.1), bundle_reverts(b)),
{
    b.into_plain_state_and_reverts(match known {
        OriginalValuesKnown::Yes => RevmOriginalValuesKnown::Yes,
        OriginalValuesKnown::No => RevmOriginalValuesKnown::No,
    })
}

/// The accounts of a plain state.
///
/// Reads the field `accounts` of `revm`'s `StateChangeset`; of each account
/// the balance, nonce and code hash.
#[verifier::external_body]
pub(crate) fn plain_state_accounts(c: &revm::db::states::StateChangeset) -> (r: Vec<(Address, Option<AccountData>)>)
    ensures
        r@ == changeset_accounts(*c),
{
    let info = |i: &RevmAccountInfo| AccountData {
        balance: FixedBytes(i.balance.to_be_bytes()),
        nonce: i.nonce,
        code_hash: FixedBytes(i.code_hash.0),
    };
    let entry = |e: &(RevmAddress, Option<RevmAccountInfo>)| (FixedBytes(e.0.0 .0), e.1.as_ref().map(info));
    c.accounts.iter().map(entry).collect()
}

/// The storage of a plain state.
///
/// Reads the field `storage` of `revm`'s `StateChangeset`.
#[verifier::external_body]
pub(crate) fn plain_state_storage(c: &revm::db::states::StateChangeset) -> (r: Vec<PlainStorageChangeset>)
    ensures
        r@ == changeset_storage(*c),
{
    let word = |w: &RevmU256| FixedBytes(w.to_be_bytes());
    c.storage.iter().map(|s| PlainStorageChangeset {
        address: FixedBytes(s.address.0 .0),
        wipe_storage: s.wipe_storage,
        storage: s.storage.iter().map(|(k, v)| (word(k), word(v))).collect(),
    }).collect()
}

/// The contracts of a plain state.
///
/// Reads the field `contracts` of `revm`'s `StateChangeset`.
#[verifier::external_body]
pub(crate) fn plain_state_contracts(c: &revm::db::states::StateChangeset) -> (r: Vec<(B256, Bytecode)>)
    ensures
        contract_bytes(r@) == changeset_contracts(*c),
{
    c.contracts.iter().map(|(h, c)| (FixedBytes(h.0), c.clone())).collect()
}

/// The earlier account states of plain reverts, block by block.
///
/// Reads the field `accounts` of `revm`'s `PlainStateReverts`; of each
/// account the balance, nonce and code hash.
#[verifier::external_body]
pub(crate) fn plain_reverts_accounts_of(p: &revm::db::states::PlainStateReverts) -> (r: Vec<
    Vec<(Address, Option<AccountData>)>,
>)
    ensures
        r@.len() == plain_reverts_accounts(*p).len(),
        forall|i: int| 0 <= i < r@.len() ==> (#[trigger] r@[i])@ == plain_reverts_accounts(*p)[i],
{
    let info = |i: &RevmAccountInfo| AccountData {
        balance: FixedBytes(i.balance.to_be_bytes()),
        nonce: i.nonce,
        code_hash: FixedBytes(i.code_hash.0),
    };
    let entry = |e: &(RevmAddress, Option<RevmAccountInfo>)| (FixedBytes(e.0.0 .0), e.1.as_ref().map(info));
    p.accounts.iter().map(|l| l.iter().map(entry).collect()).collect()
}

/// The earlier slot values of plain reverts, block by block.
///
/// Reads the field `storage` of `revm`'s `PlainStateReverts`.
#[verifier::external_body]
pub(crate) fn plain_reverts_storage_of(p: &revm::db::states::PlainStateReverts) -> (r: Vec<Vec<PlainStorageRevert>>)
    ensures
        r@.len() == plain_reverts_storage(*p).len(),
        forall|i: int| 0 <= i < r@.len() ==> (#[trigger] r@[i])@ == plain_reverts_storage(*p)[i],
{
    let word = |w: &RevmU256| FixedBytes(w.to_be_bytes());
    let slot = |v: &RevmRevertToSlot| match v {
        RevmRevertToSlot::Some(x) => RevertToSlot::Value(word(x)),
        RevmRevertToSlot::Destroyed => RevertToSlot::Destroyed,
    };
    let revert = |s: &RevmPlainStorageRevert| PlainStorageRevert {
        address: FixedBytes(s.address.0 .0),
        wiped: s.wiped,
        storage_revert: s.storage_revert.iter().map(|(k, v)| (word(k), slot(v))).collect(),
    };
    p.storage.iter().map(|l| l.iter().map(revert).collect()).collect()
}

/// What flattening a bundle that holds `accounts`, `reverts` and `contracts`
/// may give: `revm` walks hash maps, so the order of much of it is open.
pub open spec fn is_flattened(
    plain: PlainState,
    reverts_out: PlainReverts,
    accounts: Accounts,
    reverts: Seq<RevertLayer>,
    contracts: Contracts,
    known: OriginalValuesKnown,
) -> bool {
    &&& lists_entries(plain.accounts@, written_accounts(accounts, known))
    &&& is_plain_storage(plain.storage@, accounts, known)
    &&& lists_entries(contract_bytes(plain.contracts@), contracts.remove(keccak_empty()))
    &&& reverts_out.accounts@.len() == reverts.len()
    &&& forall|i: int| 0 <= i < reverts.len() ==> (#[trigger] reverts_out.accounts@[i])@ == layer_accounts(reverts[i])
    &&& reverts_out.storage@.len() == reverts.len()
    &&& forall|i: int| 0 <= i < reverts.len() ==> is_layer_storage((#[trigger] reverts_out.storage@[i])@, reverts[i])
}

/// Flattens `bundle` into the present state of what it changed and, block by
/// block, the earlier state of what each block changed.
pub fn flatten(bundle: BundleState, known: OriginalValuesKnown) -> (r: (PlainState, PlainReverts))
    ensures
        is_flattened(r.0, r.1, bundle_accounts(bundle), bundle_reverts(bundle), bundle_contracts(bundle), known),
{
    let (plain, reverts) = bundle_into_plain_state_and_reverts(bundle, known);
    let accounts = plain_state_accounts(&plain);
    let storage = plain_state_storage(&plain);
    let contracts = plain_state_contracts(&plain);
    let revert_accounts = plain_reverts_accounts_of(&reverts);
    let revert_storage = plain_reverts_storage_of(&reverts);
    (PlainState { accounts, storage, contracts }, PlainReverts { accounts: revert_accounts, storage: revert_storage })
}

} // verus!
