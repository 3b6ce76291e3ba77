use bundle_state::account::{Account, AccountData, StorageEntry};
use bundle_state::init::{BundleStateInit, RevertsInit};
use bundle_state::primitives::{Address, FixedBytes, B256, U256};
use bundle_state::receipts::{Receipt, Receipts};
use bundle_state::state::BundleStateWithReceipts;
use revm::primitives::{keccak256, Bytecode, Bytes};

fn word(n: u64) -> U256 {
    let mut bytes = [0u8; 32];
    bytes[24..].copy_from_slice(&n.to_be_bytes());
    FixedBytes(bytes)
}

fn account(nonce: u64, balance: u64) -> Account {
    Account { nonce, balance: word(balance), bytecode_hash: None }
}

fn who(n: u8) -> Address {
    FixedBytes([n; 20])
}

#[test]
fn new_init_of_one_account() {
    let bundle = BundleStateWithReceipts::new_init(
        vec![(who(0x11), (None, Some(account(1, 10)), vec![]))],
        vec![],
        vec![],
        Receipts::new(),
        0,
    );
    assert_eq!(bundle.account(&who(0x11)), Some(Some(account(1, 10))));
    assert_eq!(bundle.account(&who(0x12)), None);
    assert_eq!(bundle.first_block(), 0);
    assert!(bundle.is_empty());
    assert_eq!(bundle.state().reverts.len(), 0);
    assert_eq!(bundle.accounts_iter(), vec![(who(0x11), Some(AccountData { balance: word(10), nonce: 1, code_hash: FixedBytes(revm::primitives::KECCAK_EMPTY.0) }))]);
}

#[test]
fn new_init_keeps_accounts_slots_and_contracts() {
    let code = Bytecode::new_raw(Bytes::from(vec![0x60, 0x00, 0x56]));
    let hash: B256 = FixedBytes(keccak256([0x60, 0x00, 0x56]).0);
    let with_code = Account { nonce: 3, balance: word(7), bytecode_hash: Some(hash) };
    let state_init: BundleStateInit = vec![
        (who(1), (Some(account(1, 5)), Some(account(2, 6)), vec![(word(1), (word(10), word(11))), (word(2), (word(0), word(0)))])),
        (who(2), (Some(account(9, 9)), None, vec![])),
        (who(3), (None, Some(with_code), vec![])),
    ];
    let bundle = BundleStateWithReceipts::new_init(state_init, vec![], vec![(hash, code.clone())], Receipts::new(), 4);

    assert_eq!(bundle.account(&who(1)), Some(Some(account(2, 6))));
    // The account is known not to exist.
    assert_eq!(bundle.account(&who(2)), Some(None));
    assert_eq!(bundle.account(&who(3)), Some(Some(with_code)));
    // Nothing is known of this one.
    assert_eq!(bundle.account(&who(4)), None);

    assert_eq!(bundle.storage(&who(1), word(1)), Some(word(11)));
    // Zero is a value like any other.
    assert_eq!(bundle.storage(&who(1), word(2)), Some(word(0)));
    // The slot was not touched and the account's storage is not all known.
    assert_eq!(bundle.storage(&who(1), word(3)), None);
    assert_eq!(bundle.storage(&who(4), word(1)), None);

    assert_eq!(bundle.bytecode(&hash), Some(code));
    assert_eq!(bundle.bytecode(&FixedBytes([0; 32])), None);

    let mut accounts = bundle.accounts_iter();
    accounts.sort_by_key(|entry| entry.0);
    assert_eq!(accounts.iter().map(|entry| entry.0).collect::<Vec<_>>(), vec![who(1), who(2), who(3)]);
    assert_eq!(accounts[1].1, None);
    assert_eq!(accounts[2].1.map(|info| info.code_hash), Some(hash));
}

#[test]
fn new_init_lets_the_later_entry_stand() {
    let state_init: BundleStateInit = vec![
        (who(1), (None, Some(account(1, 5)), vec![(word(1), (word(0), word(1))), (word(1), (word(0), word(2)))])),
        (who(1), (None, Some(account(1, 6)), vec![(word(1), (word(0), word(3))), (word(1), (word(0), word(4)))])),
    ];
    let bundle = BundleStateWithReceipts::new_init(state_init, vec![], vec![], Receipts::new(), 0);
    assert_eq!(bundle.accounts_iter().len(), 1);
    assert_eq!(bundle.account(&who(1)), Some(Some(account(1, 6))));
    assert_eq!(bundle.storage(&who(1), word(1)), Some(word(4)));
}

fn blocks(n: usize) -> Receipts {
    Receipts::from_vec(vec![vec![Some(Receipt::default())]; n])
}

#[test]
fn new_init_orders_reverts_by_block() {
    // The balance was 10 before block 10, 11 before block 11 and 12 before
    // block 12, and is 13 now. The blocks are given out of order.
    let revert = |block: u64, balance: u64, slot: u64| {
        (block, vec![(who(1), (Some(Some(account(1, balance))), vec![StorageEntry { key: word(1), value: word(slot) }]))])
    };
    let revert_init: RevertsInit = vec![revert(12, 12, 120), revert(10, 10, 100), revert(11, 11, 110)];
    let state_init: BundleStateInit =
        vec![(who(1), (Some(account(1, 10)), Some(account(1, 13)), vec![(word(1), (word(100), word(130)))]))];
    let base = BundleStateWithReceipts::new_init(state_init, revert_init, vec![], blocks(3), 10);
    assert_eq!(base.state().reverts.len(), 3);
    assert_eq!(base.account(&who(1)), Some(Some(account(1, 13))));

    let mut state = base.clone();
    assert!(state.revert_to(11));
    assert_eq!(state.account(&who(1)), Some(Some(account(1, 12))));
    assert_eq!(state.storage(&who(1), word(1)), Some(word(120)));

    let mut state = base.clone();
    assert!(state.revert_to(10));
    assert_eq!(state.account(&who(1)), Some(Some(account(1, 11))));
    assert_eq!(state.storage(&who(1), word(1)), Some(word(110)));
    assert_eq!(state.len(), 1);
    assert_eq!(state.state().reverts.len(), 1);
}

#[test]
fn new_init_records_absent_and_unrecorded_accounts() {
    let revert_init: RevertsInit = vec![(
        7,
        vec![
            // Account 1 did not exist before the block.
            (who(1), (Some(None), vec![])),
            // What account 2 was before the block is not recorded.
            (who(2), (None, vec![StorageEntry { key: word(5), value: word(50) }])),
        ],
    )];
    let state_init: BundleStateInit = vec![
        (who(1), (None, Some(account(1, 1)), vec![])),
        (who(2), (Some(account(2, 2)), Some(account(2, 2)), vec![(word(5), (word(50), word(51)))])),
    ];
    let mut state = BundleStateWithReceipts::new_init(state_init, revert_init, vec![], blocks(2), 6);
    assert_eq!(state.wiped_addresses(), vec![]);
    // Block 7 is undone: its layer is the last one.
    assert!(state.revert_to(6));
    assert_eq!(state.account(&who(1)), None);
    assert_eq!(state.account(&who(2)), Some(Some(account(2, 2))));
    assert_eq!(state.storage(&who(2), word(5)), Some(word(50)));
}
