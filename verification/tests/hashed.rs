use bundle_state::account::Account;
use bundle_state::hashed_state::{HashedPostState, HashedStorage, PrefixSets};
use bundle_state::primitives::{FixedBytes, B256, U256};
use bundle_state::receipts::Receipts;
use bundle_state::state::BundleStateWithReceipts;
use revm::db::states::bundle_state::BundleRetention;
use revm::db::{EmptyDB, State};
use revm::primitives::{
    keccak256, Account as RevmAccount, AccountInfo as RevmAccountInfo, AccountStatus, Address as RevmAddress,
    EvmStorageSlot, HashMap, U256 as RevmU256,
};
use revm::DatabaseCommit;
use std::collections::BTreeMap;

fn word(n: u64) -> U256 {
    let mut bytes = [0u8; 32];
    bytes[24..].copy_from_slice(&n.to_be_bytes());
    FixedBytes(bytes)
}

fn hashed_address(a: RevmAddress) -> B256 {
    FixedBytes(keccak256(a).0)
}

fn hashed_slot(n: u64) -> B256 {
    FixedBytes(keccak256(RevmU256::from(n).to_be_bytes::<32>()).0)
}

fn slots(entries: &[(u64, (u64, u64))]) -> HashMap<RevmU256, EvmStorageSlot> {
    entries
        .iter()
        .map(|(key, (original, present))| {
            (RevmU256::from(*key), EvmStorageSlot::new_changed(RevmU256::from(*original), RevmU256::from(*present)))
        })
        .collect()
}

fn info(balance: u64) -> RevmAccountInfo {
    RevmAccountInfo { balance: RevmU256::from(balance), nonce: 1, ..Default::default() }
}

/// Ten accounts with the slots 1 to 10 set to 1 to 10; then the accounts are
/// changed in the order of `order`: account 1 is destroyed, slot 2 of
/// account 2 becomes 100 and slot 3 becomes zero, account 3 gets the balance
/// 24.
fn changed(order: &[u8]) -> BundleStateWithReceipts {
    let mut state: State<EmptyDB> = State::builder().with_bundle_update().build();
    for key in order {
        let who = RevmAddress::with_last_byte(*key);
        let storage = (1..11u64).map(|slot| (RevmU256::from(slot), RevmU256::from(slot))).collect();
        state.insert_account_with_storage(who, info(*key as u64), storage);
    }
    for key in order {
        let who = RevmAddress::with_last_byte(*key);
        let account = match key {
            1 => RevmAccount {
                status: AccountStatus::Touched | AccountStatus::SelfDestructed,
                info: RevmAccountInfo::default(),
                storage: HashMap::default(),
            },
            2 => RevmAccount {
                status: AccountStatus::Touched,
                info: info(2),
                storage: slots(&[(2, (2, 100)), (3, (3, 0))]),
            },
            _ => RevmAccount { status: AccountStatus::Touched, info: info(24), storage: HashMap::default() },
        };
        state.commit(HashMap::from_iter([(who, account)]));
    }
    state.merge_transitions(BundleRetention::PlainState);
    BundleStateWithReceipts::new(state.bundle_state.clone(), Receipts::default(), 0)
}

fn expected() -> HashedPostState {
    let a1 = hashed_address(RevmAddress::with_last_byte(1));
    let a2 = hashed_address(RevmAddress::with_last_byte(2));
    let a3 = hashed_address(RevmAddress::with_last_byte(3));
    let mut accounts = vec![
        (a2, Account { nonce: 1, balance: word(2), bytecode_hash: None }),
        (a3, Account { nonce: 1, balance: word(24), bytecode_hash: None }),
    ];
    accounts.sort_by_key(|entry| entry.0);
    let mut storages = vec![
        (a1, HashedStorage { non_zero_valued_storage: vec![], zero_valued_slots: vec![], wiped: true }),
        (
            a2,
            HashedStorage {
                non_zero_valued_storage: vec![(hashed_slot(2), word(100))],
                zero_valued_slots: vec![hashed_slot(3)],
                wiped: false,
            },
        ),
        (a3, HashedStorage { non_zero_valued_storage: vec![], zero_valued_slots: vec![], wiped: false }),
    ];
    storages.sort_by_key(|entry| entry.0);
    HashedPostState { accounts, destroyed_accounts: vec![a1], storages }
}

#[test]
fn hashed_state_of_changes() {
    assert_eq!(changed(&[1, 2, 3]).hash_state_slow(), expected());
}

#[test]
fn hashed_state_does_not_depend_on_insertion_order() {
    let first = changed(&[1, 2, 3]).hash_state_slow();
    for order in [[1u8, 3, 2], [2, 1, 3], [2, 3, 1], [3, 1, 2], [3, 2, 1]] {
        assert_eq!(changed(&order).hash_state_slow(), first);
    }
}

#[test]
fn hashed_state_is_sorted_by_hashed_key() {
    let order: Vec<u8> = (1..40).collect();
    let state = changed(&order).hash_state_slow();
    // Account 24 had the balance 24 before: it did not change and is not there.
    assert_eq!(state.accounts.len(), 37);
    assert_eq!(state.storages.len(), 38);
    assert!(state.accounts.windows(2).all(|pair| pair[0].0 < pair[1].0));
    assert!(state.storages.windows(2).all(|pair| pair[0].0 < pair[1].0));
    // The hash of an address, not the address, decides.
    assert_eq!(state.destroyed_accounts, vec![hashed_address(RevmAddress::with_last_byte(1))]);
    assert!(state.accounts.iter().any(|entry| entry.0 == hashed_address(RevmAddress::with_last_byte(39))));
}

#[test]
fn hashed_state_of_nothing_is_empty() {
    let state = BundleStateWithReceipts::default().hash_state_slow();
    assert_eq!(state, HashedPostState::new());
    assert_eq!(state.construct_prefix_sets(), PrefixSets { accounts: vec![], storages: vec![] });
}

#[test]
fn hash_of_the_zero_address() {
    let mut state: State<EmptyDB> = State::builder().with_bundle_update().build();
    state.insert_not_existing(RevmAddress::ZERO);
    state.commit(HashMap::from_iter([(
        RevmAddress::ZERO,
        RevmAccount {
            status: AccountStatus::Touched | AccountStatus::Created,
            info: info(1),
            storage: HashMap::default(),
        },
    )]));
    state.merge_transitions(BundleRetention::PlainState);
    let hashed = BundleStateWithReceipts::new(state.take_bundle(), Receipts::new(), 0).hash_state_slow();
    let expected: [u8; 32] = [
        0x53, 0x80, 0xc7, 0xb7, 0xae, 0x81, 0xa5, 0x8e, 0xb9, 0x8d, 0x9c, 0x78, 0xde, 0x4a, 0x1f, 0xd7, 0xfd, 0x95,
        0x35, 0xfc, 0x95, 0x3e, 0xd2, 0xbe, 0x60, 0x2d, 0xaa, 0xa4, 0x17, 0x67, 0x31, 0x2a,
    ];
    assert_eq!(hashed.accounts, vec![(FixedBytes(expected), Account { nonce: 1, balance: word(1), bytecode_hash: None })]);
}

#[test]
fn destroyed_and_recreated_account_is_wiped_and_has_its_new_slots() {
    let who = RevmAddress::with_last_byte(7);
    let mut state: State<EmptyDB> = State::builder().with_bundle_update().build();
    state.insert_account_with_storage(who, info(7), HashMap::from_iter([(RevmU256::from(1), RevmU256::from(1))]));
    state.commit(HashMap::from_iter([(
        who,
        RevmAccount {
            status: AccountStatus::Touched | AccountStatus::SelfDestructed,
            info: RevmAccountInfo::default(),
            storage: HashMap::default(),
        },
    )]));
    state.commit(HashMap::from_iter([(
        who,
        RevmAccount {
            status: AccountStatus::Touched | AccountStatus::Created,
            info: info(9),
            storage: slots(&[(20, (0, 12345))]),
        },
    )]));
    state.merge_transitions(BundleRetention::PlainState);
    let hashed = BundleStateWithReceipts::new(state.take_bundle(), Receipts::new(), 0).hash_state_slow();
    assert_eq!(hashed.accounts, vec![(hashed_address(who), Account { nonce: 1, balance: word(9), bytecode_hash: None })]);
    assert!(hashed.destroyed_accounts.is_empty());
    assert_eq!(
        hashed.storages,
        vec![(
            hashed_address(who),
            HashedStorage {
                non_zero_valued_storage: vec![(hashed_slot(20), word(12345))],
                zero_valued_slots: vec![],
                wiped: true,
            }
        )]
    );
}

#[test]
fn prefix_sets_have_every_changed_key_once() {
    let hashed = changed(&[1, 2, 3]).hash_state_slow();
    let sets = hashed.construct_prefix_sets();
    let mut accounts: Vec<B256> = [1u8, 2, 3].iter().map(|key| hashed_address(RevmAddress::with_last_byte(*key))).collect();
    accounts.sort_by_key(|entry| entry.0);
    assert_eq!(sets.accounts, accounts);
    assert_eq!(sets.storages.len(), 3);
    for (entry, storage) in sets.storages.iter().zip(hashed.storages.iter()) {
        assert_eq!(entry.0, storage.0);
    }
    let mut slots_of_two = vec![hashed_slot(2), hashed_slot(3)];
    slots_of_two.sort();
    let two = hashed_address(RevmAddress::with_last_byte(2));
    assert_eq!(sets.storages.iter().find(|entry| entry.0 == two).map(|entry| entry.1.clone()), Some(slots_of_two));
}

#[test]
fn prefix_sets_drop_repeated_keys() {
    let key = |n: u8| -> B256 { FixedBytes([n; 32]) };
    let account = Account { nonce: 0, balance: word(0), bytecode_hash: None };
    let state = HashedPostState {
        accounts: vec![(key(3), account), (key(1), account)],
        destroyed_accounts: vec![key(2), key(1)],
        storages: vec![(
            key(3),
            HashedStorage {
                non_zero_valued_storage: vec![(key(9), word(1)), (key(8), word(2))],
                zero_valued_slots: vec![key(8), key(7)],
                wiped: false,
            },
        )],
    };
    assert_eq!(
        state.construct_prefix_sets(),
        PrefixSets { accounts: vec![key(1), key(2), key(3)], storages: vec![(key(3), vec![key(7), key(8), key(9)])] }
    );
    let sorted = state.sorted();
    assert_eq!(sorted.accounts, vec![(key(1), account), (key(3), account)]);
    assert_eq!(sorted.destroyed_accounts, vec![key(1), key(2)]);
}

type Hashed = BTreeMap<B256, (Account, BTreeMap<B256, U256>)>;

/// The hashed form of a state of accounts with their slots.
fn hashed(state: &BTreeMap<u8, (RevmAccountInfo, BTreeMap<u64, u64>)>) -> Hashed {
    state
        .iter()
        .map(|(key, (info, storage))| {
            let account = Account {
                nonce: info.nonce,
                balance: FixedBytes(info.balance.to_be_bytes()),
                bytecode_hash: if info.code_hash == revm::primitives::KECCAK_EMPTY {
                    None
                } else {
                    Some(FixedBytes(info.code_hash.0))
                },
            };
            let slots = storage.iter().map(|(slot, value)| (hashed_slot(*slot), word(*value))).collect();
            (hashed_address(RevmAddress::with_last_byte(*key)), (account, slots))
        })
        .collect()
}

/// Applies hashed changes to a hashed state, as the trie does.
fn apply(state: &mut Hashed, changes: &HashedPostState) {
    for destroyed in &changes.destroyed_accounts {
        state.remove(destroyed);
    }
    for (key, account) in &changes.accounts {
        state.entry(*key).or_insert((*account, BTreeMap::new())).0 = *account;
    }
    for (key, storage) in &changes.storages {
        if let Some(held) = state.get_mut(key) {
            if storage.wiped {
                held.1.clear();
            }
            for slot in &storage.zero_valued_slots {
                held.1.remove(slot);
            }
            for (slot, value) in &storage.non_zero_valued_storage {
                held.1.insert(*slot, *value);
            }
        }
    }
}

#[test]
fn hashed_changes_lead_to_the_expected_state() {
    let mut prestate: BTreeMap<u8, (RevmAccountInfo, BTreeMap<u64, u64>)> = (0..10u8)
        .map(|key| {
            let account = RevmAccountInfo { nonce: 1, balance: RevmU256::from(key), ..Default::default() };
            let storage = (1..11u64).map(|key| (key, key)).collect();
            (key, (account, storage))
        })
        .collect();
    let database = hashed(&prestate);

    let mut state: State<EmptyDB> = State::builder().with_bundle_update().build();
    let assert_state = |state: &State<EmptyDB>, expected: &BTreeMap<u8, (RevmAccountInfo, BTreeMap<u64, u64>)>, msg: &str| {
        let changes =
            BundleStateWithReceipts::new(state.bundle_state.clone(), Receipts::default(), 0).hash_state_slow();
        let mut after = database.clone();
        apply(&mut after, &changes);
        assert_eq!(after, hashed(expected), "{msg}");
    };

    // the database alone
    assert_state(&state, &prestate, "empty");

    // destroy account 1
    let address1 = RevmAddress::with_last_byte(1);
    let account1_old = prestate.remove(&1).unwrap();
    state.insert_account(address1, account1_old.0);
    state.commit(HashMap::from_iter([(
        address1,
        RevmAccount {
            status: AccountStatus::Touched | AccountStatus::SelfDestructed,
            info: RevmAccountInfo::default(),
            storage: HashMap::default(),
        },
    )]));
    state.merge_transitions(BundleRetention::PlainState);
    assert_state(&state, &prestate, "destroyed account");

    // change slot 2 in account 2
    let address2 = RevmAddress::with_last_byte(2);
    let account2 = prestate.get_mut(&2).unwrap();
    let account2_slot2_old_value = *account2.1.get(&2).unwrap();
    state.insert_account_with_storage(
        address2,
        account2.0.clone(),
        HashMap::from_iter([(RevmU256::from(2), RevmU256::from(account2_slot2_old_value))]),
    );
    let account2_slot2_new_value = 100;
    account2.1.insert(2, account2_slot2_new_value);
    state.commit(HashMap::from_iter([(
        address2,
        RevmAccount {
            status: AccountStatus::Touched,
            info: account2.0.clone(),
            storage: slots(&[(2, (account2_slot2_old_value, account2_slot2_new_value))]),
        },
    )]));
    state.merge_transitions(BundleRetention::PlainState);
    assert_state(&state, &prestate, "changed storage");

    // change balance of account 3
    let address3 = RevmAddress::with_last_byte(3);
    let account3 = prestate.get_mut(&3).unwrap();
    state.insert_account(address3, account3.0.clone());
    account3.0.balance = RevmU256::from(24);
    state.commit(HashMap::from_iter([(
        address3,
        RevmAccount { status: AccountStatus::Touched, info: account3.0.clone(), storage: HashMap::default() },
    )]));
    state.merge_transitions(BundleRetention::PlainState);
    assert_state(&state, &prestate, "changed balance");

    // change nonce of account 4
    let address4 = RevmAddress::with_last_byte(4);
    let account4 = prestate.get_mut(&4).unwrap();
    state.insert_account(address4, account4.0.clone());
    account4.0.nonce = 128;
    state.commit(HashMap::from_iter([(
        address4,
        RevmAccount { status: AccountStatus::Touched, info: account4.0.clone(), storage: HashMap::default() },
    )]));
    state.merge_transitions(BundleRetention::PlainState);
    assert_state(&state, &prestate, "changed nonce");

    // recreate account 1
    let account1_new = RevmAccountInfo {
        nonce: 56,
        balance: RevmU256::from(123),
        code_hash: revm::primitives::B256::repeat_byte(0xc0),
        code: None,
    };
    prestate.insert(1, (account1_new.clone(), BTreeMap::default()));
    state.commit(HashMap::from_iter([(
        address1,
        RevmAccount {
            status: AccountStatus::Touched | AccountStatus::Created,
            info: account1_new.clone(),
            storage: HashMap::default(),
        },
    )]));
    state.merge_transitions(BundleRetention::PlainState);
    assert_state(&state, &prestate, "recreated");

    // update storage for account 1
    let account1_slot20_value = 12345;
    prestate.get_mut(&1).unwrap().1.insert(20, account1_slot20_value);
    state.commit(HashMap::from_iter([(
        address1,
        RevmAccount {
            status: AccountStatus::Touched | AccountStatus::Created,
            info: account1_new,
            storage: slots(&[(20, (0, account1_slot20_value))]),
        },
    )]));
    state.merge_transitions(BundleRetention::PlainState);
    assert_state(&state, &prestate, "recreated changed storage");
}
