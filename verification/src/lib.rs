//! Post-execution state of a range of blocks: the account and storage changes
//! that execution produced, the per-block records needed to undo them, and the
//! receipts of every transaction, kept together and anchored at a first block.
//!
//! The changes themselves are kept by `revm`, in its `BundleState`. What this
//! library relies on of `revm` is stated in [`bundle`] and [`changes`]; the
//! rest is proved from that:
//!
//! - [`state`]: the state, its accessors, and reverting, splitting and
//!   extending it; [`laws`] says what holds of those three whatever the state.
//! - [`init`]: building a state from lists of accounts and revert records.
//! - [`hashed_state`]: the changes by hashed keys, sorted, as the state trie
//!   takes them.
//! - [`commit`]: all that committing a state writes, in the order in which
//!   storage takes it.
//! - [`sizes`]: whether the counts that `revm` keeps in a bundle can be
//!   relied on.
//! - [`account`], [`primitives`], [`receipts`], [`sorting`]: the plain values
//!   and the order they go by.

pub mod account;
pub mod bundle;
pub mod changes;
pub mod commit;
pub mod hashed_state;
pub mod init;
pub mod laws;
pub mod primitives;
pub mod receipts;
pub mod sizes;
pub mod sorting;
pub mod state;
