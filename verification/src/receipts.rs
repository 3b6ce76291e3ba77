//! Receipts, their logs, and the bloom filter over logs.

use vstd::prelude::*;
use crate::primitives::{Address, B256, FixedBytes};

verus! {

/// A 2048-bit filter over the addresses and topics of logs.
pub type Bloom = FixedBytes<256>;

/// What a contract logged: who logged, the indexed topics, and the data.
#[derive(Clone, Debug, PartialEq, Eq)]
pub struct Log {
    pub address: Address,
    pub topics: Vec<B256>,
    pub data: Vec<u8>,
}

/// The kind of transaction a receipt is for.
#[derive(Clone, Copy, Debug, PartialEq, Eq)]
pub enum TxType {
    Legacy,
    EIP2930,
    EIP1559,
    EIP4844,
}

/// The outcome of one transaction.
#[derive(Clone, Debug, PartialEq, Eq)]
pub struct Receipt {
    pub tx_type: TxType,
    /// Whether the transaction succeeded.
    pub success: bool,
    /// The gas used in the block up to and including this transaction.
    pub cumulative_gas_used: u64,
    pub logs: Vec<Log>,
}

impl Default for Receipt {
    fn default() -> (r: Receipt)
        ensures
            r.tx_type == TxType::Legacy,
            !r.success,
            r.cumulative_gas_used == 0,
            r.logs@.len() == 0,
    {
        Receipt { tx_type: TxType::Legacy, success: false, cumulative_gas_used: 0, logs: Vec::new() }
    }
}

/// The receipts of a range of blocks: for each block, in order, one slot for
/// each of its transactions, in order. An empty slot is a receipt that was
/// pruned.
#[derive(Clone, Debug, PartialEq, Eq)]
pub struct Receipts {
    pub receipt_vec: Vec<Vec<Option<Receipt>>>,
}

impl View for Receipts {
    type V = Seq<Vec<Option<Receipt>>>;

    open spec fn view(&self) -> Seq<Vec<Option<Receipt>>> {
        self.receipt_vec@
    }
}

impl Receipts {
    /// No blocks.
    pub fn new() -> (r: Receipts)
        ensures
            r@.len() == 0,
    {
        Receipts { receipt_vec: Vec::new() }
    }

    /// The receipts of the blocks of `vec`.
    pub fn from_vec(vec: Vec<Vec<Option<Receipt>>>) -> (r: Receipts)
        ensures
            r.receipt_vec == vec,
    {
        Receipts { receipt_vec: vec }
    }

    /// The number of blocks.
    pub fn len(&self) -> (n: usize)
        ensures
            n == self@.len(),
    {
        self.receipt_vec.len()
    }

    /// Whether there is no block.
    pub fn is_empty(&self) -> (r: bool)
        ensures
            r == (self@.len() == 0),
    {
        self.receipt_vec.len() == 0
    }

    /// Appends the receipts of one more block.
    pub fn push(&mut self, receipts: Vec<Option<Receipt>>)
        ensures
            final(self)@ == old(self)@.push(receipts),
    {
        self.receipt_vec.push(receipts);
    }
}

impl Default for Receipts {
    fn default() -> (r: Receipts)
        ensures
            r@.len() == 0,
    {
        Receipts { receipt_vec: Vec::new() }
    }
}

/// The logs of a block: those of its receipts that are not pruned, receipt by
/// receipt, each receipt's logs in their order.
pub open spec fn block_logs(block: Seq<Option<Receipt>>) -> Seq<Log>
    decreases block.len(),
{
    if block.len() == 0 {
        Seq::empty()
    } else {
        block_logs(block.drop_last()) + match block.last() {
            Some(receipt) => receipt.logs@,
            None => Seq::empty(),
        }
    }
}

/// Whether no receipt of the block is pruned.
pub open spec fn is_complete(block: Seq<Option<Receipt>>) -> bool {
    forall|i: int| 0 <= i < block.len() ==> (#[trigger] block[i]) is Some
}

/// `refs` refers to the values of `values`, one by one.
pub open spec fn refers_to<T>(refs: Seq<&T>, values: Seq<T>) -> bool {
    &&& refs.len() == values.len()
    &&& forall|i: int| 0 <= i < refs.len() ==> *(#[trigger] refs[i]) == values[i]
}

/// The logs of a block, in order.
pub fn collect_logs(block: &Vec<Option<Receipt>>) -> (r: Vec<&Log>)
    ensures
        refers_to(r@, block_logs(block@)),
{
    let mut out: Vec<&Log> = Vec::new();
    let mut i: usize = 0;
    while i < block.len()
        invariant
            i <= block@.len(),
            refers_to(out@, block_logs(block@.take(i as int))),
        decreases block@.len() - i,
    {
        let ghost before = block_logs(block@.take(i as int));
        proof {
            assert(block@.take(i + 1).drop_last() =~= block@.take(i as int));
        }
        match &block[i] {
            Some(receipt) => {
                let mut j: usize = 0;
                while j < receipt.logs.len()
                    invariant
                        j <= receipt.logs@.len(),
                        refers_to(out@, before + receipt.logs@.take(j as int)),
                    decreases receipt.logs@.len() - j,
                {
                    out.push(&receipt.logs[j]);
                    j += 1;
                }
            },
            None => {
            },
        }
        i += 1;
    }
    proof {
        assert(block@.take(i as int) =~= block@);
    }
    out
}

/// The receipts of a block, if none of them is pruned.
pub fn complete_receipts(block: &Vec<Option<Receipt>>) -> (r: Option<Vec<&Receipt>>)
    ensures
        r is Some == is_complete(block@),
        r is Some ==> r->Some_0@.len() == block@.len(),
        r is Some ==> forall|i: int| 0 <= i < block@.len() ==> Some(*(#[trigger] r->Some_0@[i])) == block@[i],
{
    let mut out: Vec<&Receipt> = Vec::new();
    let mut i: usize = 0;
    while i < block.len()
        invariant
            i <= block@.len(),
            out@.len() == i,
            forall|k: int| 0 <= k < i ==> (#[trigger] block@[k]) is Some,
            forall|k: int| 0 <= k < i ==> Some(*(#[trigger] out@[k])) == block@[k],
        decreases block@.len() - i,
    {
        match &block[i] {
            Some(receipt) => {
                out.push(receipt);
            },
            None => {
                return None;
            },
        }
        i += 1;
    }
    Some(out)
}

/// The filter `bloom` with `input` added to it.
pub uninterp spec fn bloom_with(bloom: Seq<u8>, input: Seq<u8>) -> Seq<u8>;

/// Adds `input` to the filter.
///
/// Calls `Bloom::m3_2048` of `alloy_primitives`, which hashes the input and
/// sets the three bits that the hash selects: the filter afterwards is a
/// function of the filter before and of the input.
#[verifier::external_body]
fn bloom_accrue(bloom: &mut Bloom, input: &[u8])
    ensures
        final(bloom)@ == bloom_with(old(bloom)@, input@),
{
    let mut b = revm::primitives::alloy_primitives::Bloom::new(bloom.0);
    b.m3_2048(input);
    bloom.0 = b.0 .0;
}

/// The filter `bloom` with each of `topics` added to it, in order.
pub open spec fn bloom_with_topics(bloom: Seq<u8>, topics: Seq<B256>) -> Seq<u8>
    decreases topics.len(),
{
    if topics.len() == 0 {
        bloom
    } else {
        bloom_with(bloom_with_topics(bloom, topics.drop_last()), topics.last()@)
    }
}

/// The filter `bloom` with the address and then the topics of each of `logs`
/// added to it, in order.
pub open spec fn bloom_with_logs(bloom: Seq<u8>, logs: Seq<Log>) -> Seq<u8>
    decreases logs.len(),
{
    if logs.len() == 0 {
        bloom
    } else {
        bloom_with_topics(
            bloom_with(bloom_with_logs(bloom, logs.drop_last()), logs.last().address@),
            logs.last().topics@,
        )
    }
}

/// The filter over `logs`: the empty filter with the logs added.
pub open spec fn logs_bloom_of(logs: Seq<Log>) -> Seq<u8> {
    bloom_with_logs(Bloom::zero()@, logs)
}

/// The bloom filter over `logs`.
pub fn logs_bloom(logs: &Vec<&Log>) -> (bloom: Bloom)
    ensures
        forall|values: Seq<Log>| refers_to(logs@, values) ==> bloom@ == logs_bloom_of(values),
{
    let mut bloom: Bloom = FixedBytes([0u8; 256]);
    let ghost values = Seq::new(logs@.len(), |i: int| *logs@[i]);
    let mut i: usize = 0;
    while i < logs.len()
        invariant
            i <= logs@.len(),
            refers_to(logs@, values),
            bloom@ == bloom_with_logs(Bloom::zero()@, values.take(i as int)),
        decreases logs@.len() - i,
    {
        let log = logs[i];
        proof {
            assert(values.take(i + 1).drop_last() =~= values.take(i as int));
        }
        bloom_accrue(&mut bloom, log.address.0.as_slice());
        let ghost start = bloom@;
        let mut j: usize = 0;
        while j < log.topics.len()
            invariant
                j <= log.topics@.len(),
                bloom@ == bloom_with_topics(start, log.topics@.take(j as int)),
            decreases log.topics@.len() - j,
        {
            proof {
                assert(log.topics@.take(j + 1).drop_last() =~= log.topics@.take(j as int));
            }
            bloom_accrue(&mut bloom, log.topics[j].0.as_slice());
            j += 1;
        }
        proof {
            assert(log.topics@.take(j as int) =~= log.topics@);
        }
        i += 1;
    }
    proof {
        assert(values.take(i as int) =~= values);
        assert forall|other: Seq<Log>| refers_to(logs@, other) implies bloom@ == logs_bloom_of(other) by {
            assert(other =~= values);
        }
    }
    bloom
}

} // verus!
