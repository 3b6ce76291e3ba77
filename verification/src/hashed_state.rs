//! The changes of a bundle in the key space of the state trie: accounts by
//! the hash of their address, slots by the hash of their key, sorted by hash.

use vstd::prelude::*;
use crate::account::{into_reth_acc, stored_form, Account, StorageSlot};
use crate::bundle::{
    account_info, account_status, account_storage, account_view, bundle_account_list, bundle_accounts,
    listed_addresses, lists_entries, lists_keys, Accounts, BundleAccountView,
};
use crate::primitives::{lemma_lex_total, Address, FixedBytes, B256, U256};
use crate::sorting::{
    flat_map, lemma_flat_map_permutation, lemma_same_values_once, lemma_sorted_set_unique, lemma_sorted_unique,
    sort_by_key, sorted_by_key, strictly_sorted_by_key, Keyed, SortKey,
};
use crate::state::BundleStateWithReceipts;

verus! {

/// The Keccak-256 hash of `input`.
pub uninterp spec fn keccak256_of(input: Seq<u8>) -> B256;

/// The Keccak-256 hash of `input`.
///
/// Calls `keccak256` of `alloy_primitives`, which `revm` hands on.
#[verifier::external_body]
pub(crate) fn keccak256(input: &[u8]) -> (hash: B256)
    ensures
        hash == keccak256_of(input@),
{
    FixedBytes(revm::primitives::keccak256(input).0)
}

/// The changed slots of one account, by the hash of their keys.
#[derive(Clone, Debug, PartialEq, Eq)]
pub struct HashedStorage {
    /// The slots whose present value is not zero, with that value.
    pub non_zero_valued_storage: Vec<(B256, U256)>,
    /// The slots whose present value is zero: they are to be deleted.
    pub zero_valued_slots: Vec<B256>,
    /// Whether the account was destroyed: all that the trie holds for it is
    /// to be deleted before the slots above are applied.
    pub wiped: bool,
}

/// The changes of a bundle, by hashed keys.
#[derive(Clone, Debug, PartialEq, Eq)]
pub struct HashedPostState {
    /// The accounts that exist, with their present state.
    pub accounts: Vec<(B256, Account)>,
    /// The accounts that do not exist: they are to be deleted.
    pub destroyed_accounts: Vec<B256>,
    /// The changed slots of each account.
    pub storages: Vec<(B256, HashedStorage)>,
}

impl HashedStorage {
    /// No slots.
    pub fn new(wiped: bool) -> (r: HashedStorage)
        ensures
            r.wiped == wiped,
            r.non_zero_valued_storage@.len() == 0,
            r.zero_valued_slots@.len() == 0,
    {
        HashedStorage { non_zero_valued_storage: Vec::new(), zero_valued_slots: Vec::new(), wiped }
    }

    /// Records that the slot is zero now.
    pub fn insert_zero_valued_slot(&mut self, slot: B256)
        ensures
            final(self).zero_valued_slots@ == old(self).zero_valued_slots@.push(slot),
            final(self).non_zero_valued_storage == old(self).non_zero_valued_storage,
            final(self).wiped == old(self).wiped,
    {
        self.zero_valued_slots.push(slot);
    }

    /// Records the value that the slot has now.
    pub fn insert_non_zero_valued_storage(&mut self, slot: B256, value: U256)
        ensures
            final(self).non_zero_valued_storage@ == old(self).non_zero_valued_storage@.push((slot, value)),
            final(self).zero_valued_slots == old(self).zero_valued_slots,
            final(self).wiped == old(self).wiped,
    {
        self.non_zero_valued_storage.push((slot, value));
    }

    /// Sorts the slots by hashed key, and drops repeated zero slots.
    pub fn sorted(self) -> (r: HashedStorage)
        ensures
            r.wiped == self.wiped,
            sorted_by_key(r.non_zero_valued_storage@),
            r.non_zero_valued_storage@.to_multiset() == self.non_zero_valued_storage@.to_multiset(),
            strictly_sorted_by_key(r.zero_valued_slots@),
            r.zero_valued_slots@.to_set() == self.zero_valued_slots@.to_set(),
    {
        let HashedStorage { non_zero_valued_storage, zero_valued_slots, wiped } = self;
        HashedStorage {
            non_zero_valued_storage: sort_by_key(non_zero_valued_storage),
            zero_valued_slots: sorted_set(zero_valued_slots),
            wiped,
        }
    }
}

impl HashedPostState {
    /// Nothing changed.
    pub fn new() -> (r: HashedPostState)
        ensures
            r.accounts@.len() == 0,
            r.destroyed_accounts@.len() == 0,
            r.storages@.len() == 0,
    {
        HashedPostState { accounts: Vec::new(), destroyed_accounts: Vec::new(), storages: Vec::new() }
    }

    /// Records the present state of an account.
    pub fn insert_account(&mut self, hashed_address: B256, account: Account)
        ensures
            final(self).accounts@ == old(self).accounts@.push((hashed_address, account)),
            final(self).destroyed_accounts == old(self).destroyed_accounts,
            final(self).storages == old(self).storages,
    {
        self.accounts.push((hashed_address, account));
    }

    /// Records that an account does not exist.
    pub fn insert_destroyed_account(&mut self, hashed_address: B256)
        ensures
            final(self).destroyed_accounts@ == old(self).destroyed_accounts@.push(hashed_address),
            final(self).accounts == old(self).accounts,
            final(self).storages == old(self).storages,
    {
        self.destroyed_accounts.push(hashed_address);
    }

    /// Records the changed slots of an account.
    pub fn insert_hashed_storage(&mut self, hashed_address: B256, hashed_storage: HashedStorage)
        ensures
            final(self).storages@ == old(self).storages@.push((hashed_address, hashed_storage)),
            final(self).accounts == old(self).accounts,
            final(self).destroyed_accounts == old(self).destroyed_accounts,
    {
        self.storages.push((hashed_address, hashed_storage));
    }

    /// Sorts accounts and storages by hashed address, and drops repeated
    /// destroyed accounts.
    pub fn sorted(self) -> (r: HashedPostState)
        ensures
            sorted_by_key(r.accounts@),
            r.accounts@.to_multiset() == self.accounts@.to_multiset(),
            strictly_sorted_by_key(r.destroyed_accounts@),
            r.destroyed_accounts@.to_set() == self.destroyed_accounts@.to_set(),
            sorted_by_key(r.storages@),
            r.storages@.to_multiset() == self.storages@.to_multiset(),
    {
        let HashedPostState { accounts, destroyed_accounts, storages } = self;
        HashedPostState {
            accounts: sort_by_key(accounts),
            destroyed_accounts: sorted_set(destroyed_accounts),
            storages: sort_by_key(storages),
        }
    }
}

/// The values of `keys`, each once, in increasing order.
pub fn sorted_set<const N: usize>(keys: Vec<FixedBytes<N>>) -> (out: Vec<FixedBytes<N>>)
    ensures
        strictly_sorted_by_key(out@),
        out@.to_set() == keys@.to_set(),
{
    let sorted = sort_by_key(keys);
    proof {
        keys@.to_multiset_ensures();
        sorted@.to_multiset_ensures();
        assert forall|a: FixedBytes<N>| sorted@.contains(a) == keys@.contains(a) by {
            assert(sorted@.contains(a) == (sorted@.to_multiset().count(a) > 0));
        }
    }
    let mut out: Vec<FixedBytes<N>> = Vec::new();
    let mut i: usize = 0;
    while i < sorted.len()
        invariant
            i <= sorted@.len(),
            sorted_by_key(sorted@),
            strictly_sorted_by_key(out@),
            out@.to_set() == sorted@.take(i as int).to_set(),
            out@.len() <= i,
            i > 0 ==> out@.len() > 0 && out@.last() == sorted@[i - 1],
        decreases sorted@.len() - i,
    {
        let x = sorted[i];
        let ghost before = out@;
        let fresh = out.len() == 0 || !out[out.len() - 1].same(&x);
        proof {
            assert(sorted@.take(i + 1) =~= sorted@.take(i as int).push(x));
            sorted@.take(i as int).lemma_push_to_set_commute(x);
        }
        if fresh {
            out.push(x);
            proof {
                before.lemma_push_to_set_commute(x);
                assert forall|a: int, b: int| 0 <= a < b < out@.len() implies (#[trigger] out@[a]).key_of().before(
                    &(#[trigger] out@[b]).key_of(),
                ) by {
                    if b == before.len() {
                        let last = before.last();
                        // `sorted` is ordered and its previous value differs from `x`.
                        lemma_lex_total(last@, x@);
                        if last@ == x@ {
                            FixedBytes::<N>::lemma_view_injective(last, x);
                        }
                        if a < before.len() - 1 {
                            FixedBytes::<N>::lemma_order(&before[a], &last, &x);
                        }
                    }
                }
            }
        }
        i += 1;
    }
    proof {
        assert(sorted@.take(i as int) =~= sorted@);
    }
    out
}

/// The key that the trie has for the account at `address`.
pub open spec fn hashed_address(address: Address) -> B256 {
    keccak256_of(address@)
}

/// The key that an account's trie has for slot `key`.
pub open spec fn hashed_slot(key: U256) -> B256 {
    keccak256_of(key@)
}

/// What an account comes to among the hashed accounts: its hashed address
/// and present state where it exists, nothing where it does not.
pub open spec fn account_image(accounts: Accounts) -> spec_fn(Address) -> Seq<(B256, Account)> {
    |a: Address|
        match accounts[a].info {
            Some(info) => seq![(hashed_address(a), stored_form(info))],
            None => Seq::empty(),
        }
}

/// What an account comes to among the destroyed accounts: its hashed address
/// where it does not exist, nothing where it does.
pub open spec fn destroyed_image(accounts: Accounts) -> spec_fn(Address) -> Seq<B256> {
    |a: Address|
        match accounts[a].info {
            Some(_) => Seq::empty(),
            None => seq![hashed_address(a)],
        }
}

/// Of the accounts at `order`, those that exist, with their hashed address
/// and present state.
pub open spec fn hashed_accounts_of(order: Seq<Address>, accounts: Accounts) -> Seq<(B256, Account)> {
    flat_map(order, account_image(accounts))
}

/// Of the accounts at `order`, the hashed addresses of those that do not
/// exist.
pub open spec fn destroyed_accounts_of(order: Seq<Address>, accounts: Accounts) -> Seq<B256> {
    flat_map(order, destroyed_image(accounts))
}

/// Of `slots`, those whose present value is not zero, with their hashed key
/// and that value.
pub open spec fn non_zero_slots_of(slots: Seq<(U256, StorageSlot)>) -> Seq<(B256, U256)>
    decreases slots.len(),
{
    if slots.len() == 0 {
        Seq::empty()
    } else {
        let rest = non_zero_slots_of(slots.drop_last());
        if slots.last().1.present_value == U256::zero() {
            rest
        } else {
            rest.push((hashed_slot(slots.last().0), slots.last().1.present_value))
        }
    }
}

/// Of `slots`, the hashed keys of those whose present value is zero.
pub open spec fn zero_slots_of(slots: Seq<(U256, StorageSlot)>) -> Seq<B256>
    decreases slots.len(),
{
    if slots.len() == 0 {
        Seq::empty()
    } else {
        let rest = zero_slots_of(slots.drop_last());
        if slots.last().1.present_value == U256::zero() {
            rest.push(hashed_slot(slots.last().0))
        } else {
            rest
        }
    }
}

/// `hashed` is what `slots` come to: sorted by hashed key, the slots that are
/// not zero with their values, and the set of those that are zero.
pub open spec fn hashes_slots(hashed: HashedStorage, slots: Seq<(U256, StorageSlot)>) -> bool {
    &&& sorted_by_key(hashed.non_zero_valued_storage@)
    &&& hashed.non_zero_valued_storage@.to_multiset() == non_zero_slots_of(slots).to_multiset()
    &&& strictly_sorted_by_key(hashed.zero_valued_slots@)
    &&& hashed.zero_valued_slots@.to_set() == zero_slots_of(slots).to_set()
}

/// `hashed` is what the storage of `account` comes to: it is wiped where the
/// account was destroyed, and has the slots of the account, listed in some
/// order, hashed and sorted.
pub open spec fn is_hashed_storage(hashed: HashedStorage, account: BundleAccountView) -> bool {
    &&& hashed.wiped == account.status.was_destroyed()
    &&& exists|slots: Seq<(U256, StorageSlot)>| #[trigger]
        lists_entries(slots, account.storage) && hashes_slots(hashed, slots)
}

/// `storages` has, for each of the accounts at `order` and in that order, the
/// hashed address and the hashed storage of the account.
pub open spec fn storages_match(storages: Seq<(B256, HashedStorage)>, order: Seq<Address>, accounts: Accounts) -> bool {
    &&& storages.len() == order.len()
    &&& forall|k: int|
        0 <= k < storages.len() ==> {
            &&& (#[trigger] storages[k]).0 == hashed_address(order[k])
            &&& is_hashed_storage(storages[k].1, accounts[order[k]])
        }
}

/// `state` is what `accounts` come to. With the accounts listed in some
/// order: the existing ones are there with their present state, sorted by
/// hashed address; the hashed addresses of the others are there as a sorted
/// set; and every account has its hashed storage there, sorted by hashed
/// address.
pub open spec fn is_hashed_state(state: HashedPostState, accounts: Accounts) -> bool {
    &&& sorted_by_key(state.accounts@)
    &&& strictly_sorted_by_key(state.destroyed_accounts@)
    &&& sorted_by_key(state.storages@)
    &&& exists|order: Seq<Address>, storages: Seq<(B256, HashedStorage)>|
        {
            &&& lists_keys(order, accounts)
            &&& state.accounts@.to_multiset() == hashed_accounts_of(order, accounts).to_multiset()
            &&& state.destroyed_accounts@.to_set() == destroyed_accounts_of(order, accounts).to_set()
            &&& #[trigger] storages_match(storages, order, accounts)
            &&& state.storages@.to_multiset() == storages.to_multiset()
        }
}

/// The hashed form of `slots`, the slots of an account that is wiped or not.
pub fn hash_storage(slots: &Vec<(U256, StorageSlot)>, wiped: bool) -> (r: HashedStorage)
    ensures
        r.wiped == wiped,
        hashes_slots(r, slots@),
{
    let mut hashed_storage = HashedStorage::new(wiped);
    let mut i: usize = 0;
    while i < slots.len()
        invariant
            i <= slots@.len(),
            hashed_storage.wiped == wiped,
            hashed_storage.non_zero_valued_storage@ == non_zero_slots_of(slots@.take(i as int)),
            hashed_storage.zero_valued_slots@ == zero_slots_of(slots@.take(i as int)),
        decreases slots@.len() - i,
    {
        let key = slots[i].0;
        let value = slots[i].1.present_value;
        proof {
            assert(slots@.take(i + 1).drop_last() =~= slots@.take(i as int));
        }
        let hashed_key = keccak256(key.0.as_slice());
        if value.is_zero() {
            hashed_storage.insert_zero_valued_slot(hashed_key);
        } else {
            hashed_storage.insert_non_zero_valued_storage(hashed_key, value);
        }
        i += 1;
    }
    proof {
        assert(slots@.take(i as int) =~= slots@);
    }
    hashed_storage.sorted()
}

impl BundleStateWithReceipts {
    /// Hashes every changed account and slot of the bundle: the changes as
    /// the state trie takes them, sorted by hashed key.
    pub fn hash_state_slow(&self) -> (r: HashedPostState)
        ensures
            is_hashed_state(r, self@.bundle.accounts),
    {
        let mut hashed_state = HashedPostState::new();
        let list = bundle_account_list(&self.bundle);
        let ghost addresses = listed_addresses(list@);
        let ghost accounts = bundle_accounts(self.bundle);
        let mut i: usize = 0;
        while i < list.len()
            invariant
                i <= list@.len(),
                accounts == bundle_accounts(self.bundle),
                addresses == listed_addresses(list@),
                lists_keys(addresses, accounts),
                forall|k: int| 0 <= k < list@.len() ==> account_view(*(#[trigger] list@[k]).1) == accounts[list@[k].0],
                hashed_state.accounts@ == hashed_accounts_of(addresses.take(i as int), accounts),
                hashed_state.destroyed_accounts@ == destroyed_accounts_of(addresses.take(i as int), accounts),
                storages_match(hashed_state.storages@, addresses.take(i as int), accounts),
            decreases list@.len() - i,
        {
            let (address, account) = list[i];
            proof {
                assert(addresses.take(i + 1).drop_last() =~= addresses.take(i as int));
            }
            let hashed = keccak256(address.0.as_slice());
            match account_info(account) {
                Some(info) => {
                    hashed_state.insert_account(hashed, into_reth_acc(info));
                },
                None => {
                    hashed_state.insert_destroyed_account(hashed);
                },
            }
            let wiped = account_status(account).is_destroyed();
            let slots = account_storage(account);
            let hashed_storage = hash_storage(&slots, wiped);
            hashed_state.insert_hashed_storage(hashed, hashed_storage);
            i += 1;
        }
        let sorted = hashed_state.sorted();
        proof {
            assert(addresses.take(i as int) =~= addresses);
        }
        sorted
    }
}

/// The hashed form of a set of accounts does not depend on the order in
/// which the accounts were taken: of two hashed forms of the same accounts,
/// one of them without two accounts under one hashed address, the lists of
/// accounts are the same, and so are the lists of destroyed accounts.
pub proof fn lemma_hashed_state_is_determined(a: HashedPostState, b: HashedPostState, accounts: Accounts)
    requires
        is_hashed_state(a, accounts),
        is_hashed_state(b, accounts),
        strictly_sorted_by_key(a.accounts@),
    ensures
        a.accounts@ == b.accounts@,
        a.destroyed_accounts@ == b.destroyed_accounts@,
{
    let (order_a, storages_a) = choose|order: Seq<Address>, storages: Seq<(B256, HashedStorage)>|
        {
            &&& lists_keys(order, accounts)
            &&& a.accounts@.to_multiset() == hashed_accounts_of(order, accounts).to_multiset()
            &&& a.destroyed_accounts@.to_set() == destroyed_accounts_of(order, accounts).to_set()
            &&& #[trigger] storages_match(storages, order, accounts)
            &&& a.storages@.to_multiset() == storages.to_multiset()
        };
    let (order_b, storages_b) = choose|order: Seq<Address>, storages: Seq<(B256, HashedStorage)>|
        {
            &&& lists_keys(order, accounts)
            &&& b.accounts@.to_multiset() == hashed_accounts_of(order, accounts).to_multiset()
            &&& b.destroyed_accounts@.to_set() == destroyed_accounts_of(order, accounts).to_set()
            &&& #[trigger] storages_match(storages, order, accounts)
            &&& b.storages@.to_multiset() == storages.to_multiset()
        };
    lemma_same_values_once(order_a, order_b);
    lemma_flat_map_permutation(order_a, order_b, account_image(accounts));
    lemma_sorted_unique(a.accounts@, b.accounts@);
    lemma_flat_map_permutation(order_a, order_b, destroyed_image(accounts));
    let da = destroyed_accounts_of(order_a, accounts);
    let db = destroyed_accounts_of(order_b, accounts);
    da.to_multiset_ensures();
    db.to_multiset_ensures();
    assert forall|x: B256| da.contains(x) <==> db.contains(x) by {
        assert(da.contains(x) == (da.to_multiset().count(x) > 0));
    }
    assert(da.to_set() =~= db.to_set());
    lemma_sorted_set_unique(a.destroyed_accounts@, b.destroyed_accounts@);
}

/// The keys of a list of keyed entries.
pub open spec fn keys_of<V>(s: Seq<(B256, V)>) -> Seq<B256> {
    Seq::new(s.len(), |i: int| s[i].0)
}

/// What an entry comes to among the keys: its key.
pub open spec fn key_image<V>() -> spec_fn((B256, V)) -> Seq<B256> {
    |e: (B256, V)| seq![e.0]
}

/// What an address comes to among the hashed addresses: its hash.
pub open spec fn address_image() -> spec_fn(Address) -> Seq<B256> {
    |a: Address| seq![hashed_address(a)]
}

/// The keys of a list are what its entries come to, one after the other.
proof fn lemma_keys_are_images<V>(s: Seq<(B256, V)>)
    ensures
        keys_of(s) == flat_map(s, key_image::<V>()),
    decreases s.len(),
{
    if s.len() > 0 {
        lemma_keys_are_images(s.drop_last());
    }
}

/// The keys of storages that match the accounts at `order` are the hashes of
/// those addresses.
proof fn lemma_matching_keys(storages: Seq<(B256, HashedStorage)>, order: Seq<Address>, accounts: Accounts)
    requires
        storages_match(storages, order, accounts),
    ensures
        keys_of(storages) == flat_map(order, address_image()),
    decreases order.len(),
{
    if order.len() > 0 {
        lemma_matching_keys(storages.drop_last(), order.drop_last(), accounts);
    }
}

/// The hashed storages of a set of accounts come in an order that does not
/// depend on the order in which the accounts were taken: of two hashed forms
/// of the same accounts, one of them without two storages under one hashed
/// address, the storages are for the same hashed addresses in the same order.
pub proof fn lemma_hashed_storages_are_ordered(a: HashedPostState, b: HashedPostState, accounts: Accounts)
    requires
        is_hashed_state(a, accounts),
        is_hashed_state(b, accounts),
        strictly_sorted_by_key(a.storages@),
    ensures
        keys_of(a.storages@) == keys_of(b.storages@),
{
    let (order_a, storages_a) = choose|order: Seq<Address>, storages: Seq<(B256, HashedStorage)>|
        {
            &&& lists_keys(order, accounts)
            &&& a.accounts@.to_multiset() == hashed_accounts_of(order, accounts).to_multiset()
            &&& a.destroyed_accounts@.to_set() == destroyed_accounts_of(order, accounts).to_set()
            &&& #[trigger] storages_match(storages, order, accounts)
            &&& a.storages@.to_multiset() == storages.to_multiset()
        };
    let (order_b, storages_b) = choose|order: Seq<Address>, storages: Seq<(B256, HashedStorage)>|
        {
            &&& lists_keys(order, accounts)
            &&& b.accounts@.to_multiset() == hashed_accounts_of(order, accounts).to_multiset()
            &&& b.destroyed_accounts@.to_set() == destroyed_accounts_of(order, accounts).to_set()
            &&& #[trigger] storages_match(storages, order, accounts)
            &&& b.storages@.to_multiset() == storages.to_multiset()
        };
    lemma_same_values_once(order_a, order_b);
    lemma_flat_map_permutation(order_a, order_b, address_image());
    lemma_matching_keys(storages_a, order_a, accounts);
    lemma_matching_keys(storages_b, order_b, accounts);
    lemma_flat_map_permutation(a.storages@, storages_a, key_image::<HashedStorage>());
    lemma_flat_map_permutation(b.storages@, storages_b, key_image::<HashedStorage>());
    lemma_keys_are_images(a.storages@);
    lemma_keys_are_images(b.storages@);
    lemma_keys_are_images(storages_a);
    lemma_keys_are_images(storages_b);
    let ka = keys_of(a.storages@);
    let kb = keys_of(b.storages@);
    lemma_sorted_unique(ka, kb);
}

/// The hashed keys that changed: what the trie has to walk again to compute
/// its root.
#[derive(Clone, Debug, PartialEq, Eq)]
pub struct PrefixSets {
    /// The hashed addresses of the accounts that changed, were destroyed or
    /// have changed storage; each once, in increasing order.
    pub accounts: Vec<B256>,
    /// For each entry of the hashed storages, in their order, the hashed
    /// address and the hashed keys of the slots that changed; each once, in
    /// increasing order.
    pub storages: Vec<(B256, Vec<B256>)>,
}

impl HashedPostState {
    /// The hashed keys that changed.
    pub fn construct_prefix_sets(&self) -> (r: PrefixSets)
        ensures
            strictly_sorted_by_key(r.accounts@),
            r.accounts@.to_set() == (keys_of(self.accounts@) + self.destroyed_accounts@ + keys_of(
                self.storages@,
            )).to_set(),
            r.storages@.len() == self.storages@.len(),
            forall|i: int|
                0 <= i < r.storages@.len() ==> {
                    &&& (#[trigger] r.storages@[i]).0 == self.storages@[i].0
                    &&& strictly_sorted_by_key(r.storages@[i].1@)
                    &&& r.storages@[i].1@.to_set() == (keys_of(self.storages@[i].1.non_zero_valued_storage@)
                        + self.storages@[i].1.zero_valued_slots@).to_set()
                },
    {
        let mut keys: Vec<B256> = Vec::new();
        let mut i: usize = 0;
        while i < self.accounts.len()
            invariant
                i <= self.accounts@.len(),
                keys@ == keys_of(self.accounts@.take(i as int)),
            decreases self.accounts@.len() - i,
        {
            keys.push(self.accounts[i].0);
            i += 1;
        }
        let mut i: usize = 0;
        while i < self.destroyed_accounts.len()
            invariant
                i <= self.destroyed_accounts@.len(),
                keys@ == keys_of(self.accounts@) + self.destroyed_accounts@.take(i as int),
            decreases self.destroyed_accounts@.len() - i,
        {
            keys.push(self.destroyed_accounts[i]);
            i += 1;
        }
        let mut storages: Vec<(B256, Vec<B256>)> = Vec::new();
        let mut i: usize = 0;
        while i < self.storages.len()
            invariant
                i <= self.storages@.len(),
                keys@ == keys_of(self.accounts@) + self.destroyed_accounts@ + keys_of(
                    self.storages@.take(i as int),
                ),
                storages@.len() == i,
                forall|k: int|
                    0 <= k < i ==> {
                        &&& (#[trigger] storages@[k]).0 == self.storages@[k].0
                        &&& strictly_sorted_by_key(storages@[k].1@)
                        &&& storages@[k].1@.to_set() == (keys_of(self.storages@[k].1.non_zero_valued_storage@)
                            + self.storages@[k].1.zero_valued_slots@).to_set()
                    },
            decreases self.storages@.len() - i,
        {
            let hashed_address = self.storages[i].0;
            let storage = &self.storages[i].1;
            keys.push(hashed_address);
            let mut slots: Vec<B256> = Vec::new();
            let mut j: usize = 0;
            while j < storage.non_zero_valued_storage.len()
                invariant
                    j <= storage.non_zero_valued_storage@.len(),
                    slots@ == keys_of(storage.non_zero_valued_storage@.take(j as int)),
                decreases storage.non_zero_valued_storage@.len() - j,
            {
                slots.push(storage.non_zero_valued_storage[j].0);
                j += 1;
            }
            let mut j: usize = 0;
            while j < storage.zero_valued_slots.len()
                invariant
                    j <= storage.zero_valued_slots@.len(),
                    slots@ == keys_of(storage.non_zero_valued_storage@) + storage.zero_valued_slots@.take(j as int),
                decreases storage.zero_valued_slots@.len() - j,
            {
                slots.push(storage.zero_valued_slots[j]);
                j += 1;
            }
            proof {
                assert(storage.zero_valued_slots@.take(j as int) =~= storage.zero_valued_slots@);
            }
            storages.push((hashed_address, sorted_set(slots)));
            i += 1;
        }
        proof {
            assert(self.storages@.take(i as int) =~= self.storages@);
        }
        PrefixSets { accounts: sorted_set(keys), storages }
    }
}

} // verus!
