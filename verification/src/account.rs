//! Accounts, storage slots and the markers that say how to undo a change.

use vstd::prelude::*;
use crate::primitives::{B256, FixedBytes, U256};

verus! {

/// The hash of the empty byte string, which stands for "no code".
pub open spec fn keccak_empty() -> B256 {
    FixedBytes(
        [
            0xc5u8, 0xd2u8, 0x46u8, 0x01u8, 0x86u8, 0xf7u8, 0x23u8, 0x3cu8,
            0x92u8, 0x7eu8, 0x7du8, 0xb2u8, 0xdcu8, 0xc7u8, 0x03u8, 0xc0u8,
            0xe5u8, 0x00u8, 0xb6u8, 0x53u8, 0xcau8, 0x82u8, 0x27u8, 0x3bu8,
            0x7bu8, 0xfau8, 0xd8u8, 0x04u8, 0x5du8, 0x85u8, 0xa4u8, 0x70u8,
        ],
    )
}

/// The hash of the empty byte string.
#[verifier::when_used_as_spec(keccak_empty)]
pub fn empty_code_hash() -> (r: B256)
    ensures
        r == keccak_empty(),
{
    FixedBytes(
        [
            0xc5u8, 0xd2u8, 0x46u8, 0x01u8, 0x86u8, 0xf7u8, 0x23u8, 0x3cu8,
            0x92u8, 0x7eu8, 0x7du8, 0xb2u8, 0xdcu8, 0xc7u8, 0x03u8, 0xc0u8,
            0xe5u8, 0x00u8, 0xb6u8, 0x53u8, 0xcau8, 0x82u8, 0x27u8, 0x3bu8,
            0x7bu8, 0xfau8, 0xd8u8, 0x04u8, 0x5du8, 0x85u8, 0xa4u8, 0x70u8,
        ],
    )
}

/// An account as the execution engine sees it: the code is named by its hash
/// and an account without code carries the hash of the empty string.
#[derive(Clone, Copy, Debug, PartialEq, Eq)]
pub struct AccountData {
    pub balance: U256,
    pub nonce: u64,
    pub code_hash: B256,
}

/// An account as it is stored: absent code is `None`.
#[derive(Clone, Copy, Debug, PartialEq, Eq)]
pub struct Account {
    pub nonce: u64,
    pub balance: U256,
    pub bytecode_hash: Option<B256>,
}

/// The stored form of `info`.
pub open spec fn stored_form(info: AccountData) -> Account {
    Account {
        nonce: info.nonce,
        balance: info.balance,
        bytecode_hash: if info.code_hash == keccak_empty() {
            None
        } else {
            Some(info.code_hash)
        },
    }
}

/// The execution form of `account`.
pub open spec fn execution_form(account: Account) -> AccountData {
    AccountData {
        balance: account.balance,
        nonce: account.nonce,
        code_hash: match account.bytecode_hash {
            Some(hash) => hash,
            None => keccak_empty(),
        },
    }
}

/// The stored form of an optional account.
pub open spec fn optional_stored_form(info: Option<AccountData>) -> Option<Account> {
    match info {
        Some(info) => Some(stored_form(info)),
        None => None,
    }
}

/// The execution form of an optional account.
pub open spec fn optional_execution_form(account: Option<Account>) -> Option<AccountData> {
    match account {
        Some(account) => Some(execution_form(account)),
        None => None,
    }
}

/// Converts an execution account into its stored form.
pub fn into_reth_acc(info: AccountData) -> (r: Account)
    ensures
        r == stored_form(info),
{
    let empty = empty_code_hash();
    let bytecode_hash = if info.code_hash.same(&empty) {
        None
    } else {
        Some(info.code_hash)
    };
    Account { nonce: info.nonce, balance: info.balance, bytecode_hash }
}

/// Converts a stored account into its execution form.
pub fn into_revm_acc(account: Account) -> (r: AccountData)
    ensures
        r == execution_form(account),
{
    let code_hash = match account.bytecode_hash {
        Some(hash) => hash,
        None => empty_code_hash(),
    };
    AccountData { balance: account.balance, nonce: account.nonce, code_hash }
}

/// Converting an account to its execution form and back gives the account,
/// unless it names the hash of the empty string as its code.
pub proof fn lemma_account_round_trip(account: Account)
    requires
        account.bytecode_hash != Some(keccak_empty()),
    ensures
        stored_form(execution_form(account)) == account,
{
}

/// One storage slot of a changed account: its value before the covered
/// blocks, and its value after them.
#[derive(Clone, Copy, Debug, PartialEq, Eq)]
pub struct StorageSlot {
    pub previous_or_original_value: U256,
    pub present_value: U256,
}

/// A storage slot as it is stored: keyed by the slot's 32 bytes.
#[derive(Clone, Copy, Debug, PartialEq, Eq)]
pub struct StorageEntry {
    pub key: B256,
    pub value: U256,
}

/// How an account stands after the changes of the covered blocks.
#[derive(Clone, Copy, Debug, PartialEq, Eq)]
pub enum AccountStatus {
    LoadedNotExisting,
    Loaded,
    LoadedEmptyEIP161,
    InMemoryChange,
    Changed,
    Destroyed,
    DestroyedChanged,
    DestroyedAgain,
}

impl AccountStatus {
    /// Whether the account was destroyed at some point, so that all of its
    /// storage is in memory.
    pub open spec fn was_destroyed(&self) -> bool {
        matches!(self, AccountStatus::Destroyed | AccountStatus::DestroyedChanged | AccountStatus::DestroyedAgain)
    }

    /// Whether every slot of the account is known: it was created or destroyed
    /// within the covered blocks.
    pub open spec fn is_storage_known(&self) -> bool {
        matches!(
            self,
            AccountStatus::LoadedNotExisting | AccountStatus::InMemoryChange | AccountStatus::Destroyed
                | AccountStatus::DestroyedChanged | AccountStatus::DestroyedAgain
        )
    }

    /// Decides `was_destroyed`.
    pub fn is_destroyed(&self) -> (r: bool)
        ensures
            r == self.was_destroyed(),
    {
        match self {
            AccountStatus::Destroyed => true,
            AccountStatus::DestroyedChanged => true,
            AccountStatus::DestroyedAgain => true,
            _ => false,
        }
    }
}

/// What a storage slot goes back to when a block is undone.
#[derive(Clone, Copy, Debug, PartialEq, Eq)]
pub enum RevertToSlot {
    /// The slot held this value.
    Value(U256),
    /// The slot was created after a destruction: it held whatever storage
    /// holds for it, or zero.
    Destroyed,
}

impl RevertToSlot {
    /// The value the slot held, zero where only a destruction is known.
    pub open spec fn previous_value(&self) -> U256 {
        match self {
            RevertToSlot::Value(value) => *value,
            RevertToSlot::Destroyed => U256::zero(),
        }
    }

    /// The value the slot held, zero where only a destruction is known.
    pub fn to_previous_value(&self) -> (r: U256)
        ensures
            r == self.previous_value(),
    {
        match self {
            RevertToSlot::Value(value) => *value,
            RevertToSlot::Destroyed => FixedBytes([0u8; 32]),
        }
    }
}

/// What an account goes back to when a block is undone.
#[derive(Clone, Copy, Debug, PartialEq, Eq)]
pub enum AccountInfoRevert {
    /// The block did not change the account: its earlier state is not
    /// recorded here.
    DoNothing,
    /// The account did not exist before the block.
    DeleteIt,
    /// The account was this before the block.
    RevertTo(AccountData),
}

/// Whether the original values that a bundle records can be relied on when it
/// is flattened.
#[derive(Clone, Copy, Debug, PartialEq, Eq)]
pub enum OriginalValuesKnown {
    /// They are what storage holds: what did not change is left out.
    Yes,
    /// They may be stale: everything is written.
    No,
}

} // verus!
