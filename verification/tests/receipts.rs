use bundle_state::primitives::{Address, FixedBytes, B256};
use bundle_state::receipts::{collect_logs, logs_bloom, Bloom, Log, Receipt, Receipts, TxType};
use bundle_state::state::BundleStateWithReceipts;
use revm::primitives::alloy_primitives::{Bloom as AlloyBloom, BloomInput};

fn log(who: u8, topics: &[u8], data: &[u8]) -> Log {
    Log {
        address: FixedBytes([who; 20]),
        topics: topics.iter().map(|topic| FixedBytes([*topic; 32])).collect(),
        data: data.to_vec(),
    }
}

fn receipt(gas: u64, logs: Vec<Log>) -> Receipt {
    Receipt { tx_type: TxType::EIP1559, success: true, cumulative_gas_used: gas, logs }
}

fn state() -> BundleStateWithReceipts {
    let receipts = Receipts::from_vec(vec![
        vec![
            Some(receipt(21000, vec![log(1, &[10, 11], b"a"), log(2, &[], b"b")])),
            None,
            Some(receipt(42000, vec![])),
            Some(receipt(63000, vec![log(3, &[12], b"c")])),
        ],
        vec![None, None],
        vec![],
    ]);
    BundleStateWithReceipts::new(Default::default(), receipts, 5)
}

#[test]
fn default_receipt_is_a_failed_legacy_transaction() {
    let receipt = Receipt::default();
    assert_eq!(receipt.tx_type, TxType::Legacy);
    assert!(!receipt.success);
    assert_eq!(receipt.cumulative_gas_used, 0);
    assert!(receipt.logs.is_empty());
}

#[test]
fn receipts_count_blocks() {
    let mut receipts = Receipts::new();
    assert!(receipts.is_empty());
    assert_eq!(receipts.len(), 0);
    receipts.push(vec![None]);
    receipts.push(vec![]);
    assert!(!receipts.is_empty());
    assert_eq!(receipts.len(), 2);
    assert_eq!(receipts, Receipts::from_vec(vec![vec![None], vec![]]));
    assert_eq!(Receipts::default(), Receipts::new());
}

#[test]
fn logs_go_by_receipt_and_skip_pruned_slots() {
    let state = state();
    let logs = state.logs(5).expect("block 5 is covered");
    let expected = vec![log(1, &[10, 11], b"a"), log(2, &[], b"b"), log(3, &[12], b"c")];
    assert_eq!(logs, expected.iter().collect::<Vec<_>>());
    // Asking again gives the same logs.
    assert_eq!(state.logs(5).expect("block 5 is covered"), logs);
    assert_eq!(state.logs(6).expect("block 6 is covered"), Vec::<&Log>::new());
    assert_eq!(state.logs(7).expect("block 7 is covered"), Vec::<&Log>::new());
    assert!(state.logs(4).is_none());
    assert!(state.logs(8).is_none());
}

#[test]
fn receipts_by_block_gives_the_slots() {
    let state = state();
    assert_eq!(state.receipts_by_block(5).len(), 4);
    assert_eq!(state.receipts_by_block(5)[1], None);
    assert_eq!(state.receipts_by_block(5)[2], Some(receipt(42000, vec![])));
    assert_eq!(state.receipts_by_block(6), &[None, None]);
    assert_eq!(state.receipts_by_block(7), &[]);
    assert_eq!(state.receipts_by_block(4), &[]);
    assert_eq!(state.receipts_by_block(8), &[]);
}

#[test]
fn complete_receipts_need_every_slot() {
    let state = state();
    assert_eq!(state.complete_block_receipts(5), None);
    assert_eq!(state.complete_block_receipts(6), None);
    assert_eq!(state.complete_block_receipts(7), Some(vec![]));
    assert_eq!(state.complete_block_receipts(8), None);
    let mut state = state;
    state.receipts.receipt_vec[1] = vec![Some(receipt(1, vec![])), Some(receipt(2, vec![]))];
    let first = receipt(1, vec![]);
    let second = receipt(2, vec![]);
    assert_eq!(state.complete_block_receipts(6), Some(vec![&first, &second]));
}

fn bloom_of(inputs: &[&[u8]]) -> Bloom {
    let mut bloom = AlloyBloom::ZERO;
    for input in inputs {
        bloom.accrue(BloomInput::Raw(input));
    }
    FixedBytes(bloom.0 .0)
}

#[test]
fn bloom_has_addresses_and_topics() {
    let state = state();
    let bloom = state.block_logs_bloom(5).expect("block 5 is covered");
    let expected = bloom_of(&[&[1; 20], &[10; 32], &[11; 32], &[2; 20], &[3; 20], &[12; 32]]);
    assert_eq!(bloom, expected);
    assert_ne!(bloom, FixedBytes([0u8; 256]));
    // Three bits for each of six inputs, at most.
    let bits: u32 = bloom.0.iter().map(|byte| byte.count_ones()).sum();
    assert!(bits >= 3 && bits <= 18);
}

#[test]
fn bloom_of_no_logs_is_empty() {
    let state = state();
    assert_eq!(state.block_logs_bloom(6), Some(FixedBytes([0u8; 256])));
    assert_eq!(state.block_logs_bloom(7), Some(FixedBytes([0u8; 256])));
    assert_eq!(state.block_logs_bloom(4), None);
    assert_eq!(state.block_logs_bloom(8), None);
}

#[test]
fn bloom_of_one_address() {
    // The filter of the zero address alone: three bits, at known places.
    let only = log(0, &[], b"");
    let bloom = logs_bloom(&vec![&only]);
    let mut expected = AlloyBloom::ZERO;
    expected.m3_2048(&[0u8; 20]);
    assert_eq!(bloom.0, expected.0 .0);
    let set: Vec<usize> = bloom.0.iter().enumerate().filter(|(_, byte)| **byte != 0).map(|(at, _)| at).collect();
    assert!(!set.is_empty() && set.len() <= 3);
    let address: Address = FixedBytes([0u8; 20]);
    let topic: B256 = FixedBytes([0u8; 32]);
    assert_ne!(address.0.len(), topic.0.len());
}

#[test]
fn collected_logs_keep_their_order() {
    let block = vec![Some(receipt(1, vec![log(9, &[], b"x"), log(8, &[], b"y")])), Some(receipt(2, vec![log(7, &[], b"z")]))];
    let logs = collect_logs(&block);
    assert_eq!(logs.iter().map(|log| log.address.0[0]).collect::<Vec<_>>(), vec![9, 8, 7]);
}
