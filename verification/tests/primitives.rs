use bundle_state::account::{
    empty_code_hash, into_reth_acc, into_revm_acc, Account, AccountData, AccountStatus, RevertToSlot, StorageEntry,
};
use bundle_state::commit::{account_changes, block_receipts, block_storage_changes, merge_reverts, storage_writes, PlainStorageWrite};
use bundle_state::changes::{PlainStorageChangeset, PlainStorageRevert};
use bundle_state::hashed_state::sorted_set;
use bundle_state::primitives::{bytes_eq, bytes_lt, Address, FixedBytes, B256, U256};
use bundle_state::receipts::Receipt;
use bundle_state::sorting::sort_by_key;

fn word(n: u64) -> U256 {
    let mut bytes = [0u8; 32];
    bytes[24..].copy_from_slice(&n.to_be_bytes());
    FixedBytes(bytes)
}

#[test]
fn bytes_are_ordered_from_the_first_byte() {
    assert!(bytes_lt(&[0, 9], &[1, 0]));
    assert!(!bytes_lt(&[1, 0], &[0, 9]));
    assert!(bytes_lt(&[1, 0], &[1, 1]));
    assert!(!bytes_lt(&[1, 1], &[1, 1]));
    assert!(bytes_lt(&[], &[0]));
    assert!(bytes_lt(&[1], &[1, 0]));
    assert!(!bytes_lt(&[1, 0], &[1]));
    assert!(!bytes_lt(&[], &[]));
    assert!(bytes_lt(&[0x7f], &[0x80]));
    assert!(bytes_eq(&[1, 2], &[1, 2]));
    assert!(!bytes_eq(&[1, 2], &[1, 3]));
    assert!(!bytes_eq(&[1, 2], &[1, 2, 0]));
    assert!(bytes_eq(&[], &[]));
}

#[test]
fn words_are_ordered_as_numbers() {
    assert!(word(1).lt(&word(2)));
    assert!(word(255).lt(&word(256)));
    assert!(!word(256).lt(&word(255)));
    assert!(!word(7).lt(&word(7)));
    assert!(word(u64::MAX).lt(&FixedBytes([0xff; 32])));
    assert!(word(7).same(&word(7)));
    assert!(!word(7).same(&word(8)));
    assert!(word(0).is_zero());
    assert!(!word(1).is_zero());
    let mut high = [0u8; 32];
    high[0] = 1;
    assert!(!FixedBytes(high).is_zero());
    assert_eq!(FixedBytes::new([3u8; 20]), FixedBytes([3u8; 20]));
    // The derived order is the same one.
    assert!(word(255) < word(256));
}

#[test]
fn empty_code_hash_is_the_hash_of_nothing() {
    assert_eq!(empty_code_hash().0, revm::primitives::KECCAK_EMPTY.0);
    assert_eq!(empty_code_hash().0, revm::primitives::keccak256([]).0);
}

#[test]
fn accounts_convert_both_ways() {
    let code: B256 = FixedBytes([9; 32]);
    let with_code = AccountData { balance: word(5), nonce: 2, code_hash: code };
    let without = AccountData { balance: word(5), nonce: 2, code_hash: empty_code_hash() };
    assert_eq!(into_reth_acc(with_code), Account { nonce: 2, balance: word(5), bytecode_hash: Some(code) });
    assert_eq!(into_reth_acc(without), Account { nonce: 2, balance: word(5), bytecode_hash: None });
    assert_eq!(into_revm_acc(into_reth_acc(with_code)), with_code);
    assert_eq!(into_revm_acc(into_reth_acc(without)), without);
    assert_eq!(into_revm_acc(Account { nonce: 0, balance: word(0), bytecode_hash: None }).code_hash, empty_code_hash());
}

#[test]
fn status_says_whether_the_account_was_destroyed() {
    let destroyed = [AccountStatus::Destroyed, AccountStatus::DestroyedChanged, AccountStatus::DestroyedAgain];
    let others = [
        AccountStatus::LoadedNotExisting,
        AccountStatus::Loaded,
        AccountStatus::LoadedEmptyEIP161,
        AccountStatus::InMemoryChange,
        AccountStatus::Changed,
    ];
    assert!(destroyed.iter().all(|status| status.is_destroyed()));
    assert!(others.iter().all(|status| !status.is_destroyed()));
}

#[test]
fn revert_slot_gives_its_earlier_value() {
    assert_eq!(RevertToSlot::Value(word(4)).to_previous_value(), word(4));
    assert_eq!(RevertToSlot::Destroyed.to_previous_value(), word(0));
}

#[test]
fn sort_is_stable_and_keeps_every_value() {
    let input: Vec<(u64, &str)> = vec![(3, "a"), (1, "b"), (3, "c"), (2, "d"), (1, "e"), (0, "f")];
    let sorted = sort_by_key(input);
    assert_eq!(sorted, vec![(0, "f"), (1, "b"), (1, "e"), (2, "d"), (3, "a"), (3, "c")]);
    assert_eq!(sort_by_key(Vec::<(u64, u8)>::new()), vec![]);
    assert_eq!(sort_by_key(vec![(5u64, 1u8)]), vec![(5, 1)]);
    let by_word = sort_by_key(vec![(word(300), 1), (word(2), 2), (word(256), 3)]);
    assert_eq!(by_word, vec![(word(2), 2), (word(256), 3), (word(300), 1)]);
}

#[test]
fn sorted_set_has_each_value_once() {
    assert_eq!(sorted_set(vec![word(3), word(1), word(3), word(2), word(1)]), vec![word(1), word(2), word(3)]);
    assert_eq!(sorted_set(Vec::<U256>::new()), vec![]);
    assert_eq!(sorted_set(vec![word(1), word(1)]), vec![word(1)]);
}

fn entry(key: u64, value: u64) -> StorageEntry {
    StorageEntry { key: word(key), value: word(value) }
}

#[test]
fn merge_prefers_the_recorded_value() {
    let reverts = vec![
        (word(1), RevertToSlot::Value(word(10))),
        (word(3), RevertToSlot::Destroyed),
        (word(4), RevertToSlot::Destroyed),
        (word(6), RevertToSlot::Value(word(60))),
    ];
    let wiped = vec![entry(2, 200), entry(3, 300), entry(6, 600), entry(7, 700)];
    assert_eq!(
        merge_reverts(&reverts, &wiped),
        vec![entry(1, 10), entry(2, 200), entry(3, 300), entry(4, 0), entry(6, 60), entry(7, 700)]
    );
    assert_eq!(merge_reverts(&reverts, &vec![]), vec![entry(1, 10), entry(3, 0), entry(4, 0), entry(6, 60)]);
    assert_eq!(merge_reverts(&vec![], &wiped), wiped);
    assert_eq!(merge_reverts(&vec![], &vec![]), vec![]);
}

#[test]
fn block_storage_changes_go_by_address_and_slot() {
    let a: Address = FixedBytes([1; 20]);
    let b: Address = FixedBytes([2; 20]);
    let layer = vec![
        PlainStorageRevert {
            address: b,
            wiped: true,
            storage_revert: vec![(word(9), RevertToSlot::Value(word(90))), (word(1), RevertToSlot::Destroyed)],
        },
        PlainStorageRevert { address: a, wiped: false, storage_revert: vec![(word(5), RevertToSlot::Value(word(50)))] },
    ];
    // Storage holds slots for both; only the wiped account takes them.
    let existing = vec![(a, vec![entry(4, 40)]), (b, vec![entry(1, 11), entry(2, 22)]), (b, vec![entry(3, 33)])];
    assert_eq!(
        block_storage_changes(layer, &existing),
        vec![(a, vec![entry(5, 50)]), (b, vec![entry(1, 11), entry(2, 22), entry(9, 90)])]
    );
}

#[test]
fn account_changes_go_by_address() {
    let data = AccountData { balance: word(1), nonce: 1, code_hash: empty_code_hash() };
    let a: Address = FixedBytes([1; 20]);
    let b: Address = FixedBytes([2; 20]);
    assert_eq!(
        account_changes(vec![(b, None), (a, Some(data))]),
        vec![(a, Some(Account { nonce: 1, balance: word(1), bytecode_hash: None })), (b, None)]
    );
}

#[test]
fn storage_writes_remove_zeroed_slots() {
    let a: Address = FixedBytes([1; 20]);
    let b: Address = FixedBytes([2; 20]);
    let storage = vec![
        PlainStorageChangeset { address: b, wipe_storage: true, storage: vec![] },
        PlainStorageChangeset { address: a, wipe_storage: false, storage: vec![(word(2), word(0)), (word(1), word(7))] },
    ];
    assert_eq!(
        storage_writes(storage),
        vec![
            (a, PlainStorageWrite { wipe_storage: false, slots: vec![(word(1), Some(word(7))), (word(2), None)] }),
            (b, PlainStorageWrite { wipe_storage: true, slots: vec![] }),
        ]
    );
}

#[test]
fn block_receipts_count_pruned_slots() {
    let receipt = |gas: u64| Receipt { cumulative_gas_used: gas, ..Receipt::default() };
    assert_eq!(
        block_receipts(vec![None, Some(receipt(1)), None, Some(receipt(2))], 10),
        vec![(11, receipt(1)), (13, receipt(2))]
    );
    assert_eq!(block_receipts(vec![Some(receipt(1))], u64::MAX), vec![(u64::MAX, receipt(1))]);
    assert_eq!(block_receipts(vec![], u64::MAX), vec![]);
}
