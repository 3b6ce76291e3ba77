//! What holds of reverting, splitting and extending a state, whatever the
//! state.

use vstd::prelude::*;
use crate::primitives::{Address, U256};
use crate::state::{BlockNumber, StateView};

verus! {

/// Reverting to a block that is not covered changes nothing.
pub proof fn lemma_revert_outside_range(s: StateView, block_number: BlockNumber)
    requires
        !s.addressable(block_number),
    ensures
        s.revert_to(block_number) == s,
{
}

/// After reverting to a covered block, that block is the last one covered.
pub proof fn lemma_revert_to_range(s: StateView, block_number: BlockNumber)
    requires
        s.addressable(block_number),
    ensures
        s.revert_to(block_number).first_block == s.first_block,
        s.revert_to(block_number).len() == block_number - s.first_block + 1,
        forall|n: BlockNumber| s.revert_to(block_number).addressable(n) <==> s.first_block <= n <= block_number,
{
}

/// Reverting is idempotent: after reverting to `block_number`, reverting to
/// the same or to a later block changes nothing further. (For a
/// `block_number` before the first block the first call changes nothing, and
/// a later block may well be covered: that case is left out.)
pub proof fn lemma_revert_to_idempotent(s: StateView, block_number: BlockNumber, again: BlockNumber)
    requires
        s.first_block <= block_number <= again,
    ensures
        s.revert_to(block_number).revert_to(again) == s.revert_to(block_number),
{
    let once = s.revert_to(block_number);
    if s.addressable(block_number) {
        if again == block_number {
            assert(once.receipts.take(once.receipts.len() as int) =~= once.receipts);
            assert(once.bundle.reverts.take(once.bundle.reverts.len() as int) =~= once.bundle.reverts);
        }
    }
}

/// A state that has one revert layer for each block has so after reverting.
pub proof fn lemma_revert_to_keeps_layers(s: StateView, block_number: BlockNumber)
    requires
        s.layered(),
    ensures
        s.revert_to(block_number).layered(),
{
}

/// The halves of a split cover, one after the other, the blocks of the whole:
/// the lower half those before `at`, the upper half those from `at` on; and
/// each has one revert layer for each block where the whole has.
pub proof fn lemma_split_at_halves(s: StateView, at: BlockNumber)
    requires
        s.first_block < at <= s.first_block + s.len(),
    ensures
        s.lower_half(at).first_block == s.first_block,
        s.lower_half(at).len() == at - s.first_block,
        s.upper_half(at).first_block == at,
        s.upper_half(at).len() == s.len() - (at - s.first_block),
        s.lower_half(at).receipts + s.upper_half(at).receipts == s.receipts,
        s.upper_half(at).bundle.accounts == s.bundle.accounts,
        s.layered() ==> s.lower_half(at).layered() && s.upper_half(at).layered(),
{
}

/// Splitting a state and appending the upper half to the lower one gives
/// back the blocks, the receipts and the number of revert layers of the
/// whole, every account of the whole with its present state, and every slot
/// that the whole holds with its present value.
pub proof fn lemma_split_then_extend(s: StateView, at: BlockNumber, joined: StateView)
    requires
        s.first_block < at < s.first_block + s.len(),
        s.lower_half(at).is_extended_by(s.upper_half(at), joined),
    ensures
        joined.first_block == s.first_block,
        joined.receipts == s.receipts,
        s.layered() ==> joined.layered(),
        forall|a: Address| #[trigger]
            s.bundle.accounts.contains_key(a) ==> joined.bundle.accounts.contains_key(a)
                && joined.bundle.accounts[a].info == s.bundle.accounts[a].info,
        forall|a: Address, k: U256|
            s.bundle.accounts.contains_key(a) && #[trigger] s.bundle.accounts[a].storage.contains_key(k) ==> {
                &&& joined.bundle.accounts[a].storage.contains_key(k)
                &&& joined.bundle.accounts[a].storage[k].present_value
                    == s.bundle.accounts[a].storage[k].present_value
            },
{
}

/// Appending a state with one revert layer for each block to another such
/// state gives such a state.
pub proof fn lemma_extend_keeps_layers(s: StateView, other: StateView, joined: StateView)
    requires
        s.layered(),
        other.layered(),
        s.is_extended_by(other, joined),
    ensures
        joined.layered(),
        joined.len() == s.len() + other.len(),
{
}

} // verus!
