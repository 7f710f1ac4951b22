//! The trusted boundary of the crate: the `ink_storage` collections and the
//! `ink_env` account identifier the ledgers are built from.
//!
//! Nothing in this file is proved. Each collection is held in a struct that
//! is opaque to Verus (the collections' own types are bounded by traits of
//! `ink_storage` and `ink_env` that Verus does not know), and its contents are
//! named by an uninterpreted function; every wrapper states, over those names,
//! what the wrapped method does to the contents and what it returns. All
//! collections here are created empty or collected from a vector, never
//! pulled from contract storage, so every operation on them stays in memory.

use ink_env::AccountId;
use vstd::prelude::*;

verus! {

/// `ink_env::AccountId`: 32 opaque bytes. In ghost code two identifiers are
/// equal exactly when their bytes are equal.
#[verifier::external_type_specification]
#[verifier::external_body]
pub struct ExAccountId(ink_env::AccountId);

/// A counter per account, kept in an `ink_storage::collections::HashMap`:
/// the vote tallies and the ticket balances.
#[verifier::external_body]
pub struct CountMap {
    inner: ink_storage::collections::HashMap<AccountId, u32>,
}

/// A counter per (voter, candidate) pair, kept in an
/// `ink_storage::collections::HashMap`.
#[verifier::external_body]
pub struct PairMap {
    inner: ink_storage::collections::HashMap<(AccountId, AccountId), u32>,
}

/// The membership index of the candidates, an
/// `ink_storage::collections::HashMap` from account to `()`.
#[verifier::external_body]
pub struct MemberMap {
    inner: ink_storage::collections::HashMap<AccountId, ()>,
}

/// The candidates in registration order, kept in an
/// `ink_storage::collections::Vec`.
#[verifier::external_body]
pub struct CandidateList {
    inner: ink_storage::collections::Vec<AccountId>,
}

/// The entries of a counter map.
pub uninterp spec fn counts(m: CountMap) -> Map<AccountId, u32>;

/// The entries of a pair-counter map.
pub uninterp spec fn pair_counts(m: PairMap) -> Map<(AccountId, AccountId), u32>;

/// The keys of a membership index.
pub uninterp spec fn members(m: MemberMap) -> Set<AccountId>;

/// The elements of a candidate list, in order.
pub uninterp spec fn listed(v: CandidateList) -> Seq<AccountId>;

/// `<AccountId as PartialEq>::eq`, derived in `ink_env` over the 32 bytes:
/// true exactly for equal identifiers.
#[verifier::external_body]
pub(crate) fn same_account(a: &AccountId, b: &AccountId) -> (same: bool)
    ensures
        same == (*a == *b),
{
    a == b
}

/// `HashMap::default`, which is `HashMap::new`: a map without entries.
#[verifier::external_body]
pub(crate) fn count_map_new() -> (m: CountMap)
    ensures
        counts(m) == (Map::<AccountId, u32>::empty()),
{
    CountMap { inner: ink_storage::collections::HashMap::default() }
}

/// `HashMap::get`: the value stored under `key`, if there is one.
#[verifier::external_body]
pub(crate) fn count_map_get(m: &CountMap, key: &AccountId) -> (found: Option<u32>)
    ensures
        found == (if counts(*m).contains_key(*key) {
            Some(counts(*m)[*key])
        } else {
            None
        }),
{
    m.inner.get(key).copied()
}

/// `HashMap::len`: the number of entries.
#[verifier::external_body]
pub(crate) fn count_map_len(m: &CountMap) -> (n: u32)
    ensures
        n == counts(*m).dom().len(),
{
    m.inner.len()
}

/// `HashMap::insert`: afterwards `key` maps to `value` and every other entry
/// is as before. A new key takes a fresh slot of the key stash, whose length
/// is a `u32`; the precondition keeps that counter from overflowing.
#[verifier::external_body]
pub(crate) fn count_map_insert(m: &mut CountMap, key: AccountId, value: u32)
    requires
        counts(*old(m)).contains_key(key) || counts(*old(m)).dom().len() < u32::MAX,
    ensures
        counts(*final(m)) == counts(*old(m)).insert(key, value),
{
    m.inner.insert(key, value);
}

/// `HashMap::default` for the pair-counter map: a map without entries.
#[verifier::external_body]
pub(crate) fn pair_map_new() -> (m: PairMap)
    ensures
        pair_counts(m) == (Map::<(AccountId, AccountId), u32>::empty()),
{
    PairMap { inner: ink_storage::collections::HashMap::default() }
}

/// `HashMap::get` for the pair-counter map.
#[verifier::external_body]
pub(crate) fn pair_map_get(m: &PairMap, key: &(AccountId, AccountId)) -> (found: Option<u32>)
    ensures
        found == (if pair_counts(*m).contains_key(*key) {
            Some(pair_counts(*m)[*key])
        } else {
            None
        }),
{
    m.inner.get(key).copied()
}

/// `HashMap::len` for the pair-counter map.
#[verifier::external_body]
pub(crate) fn pair_map_len(m: &PairMap) -> (n: u32)
    ensures
        n == pair_counts(*m).dom().len(),
{
    m.inner.len()
}

/// `HashMap::insert` for the pair-counter map, with the same bound on new keys.
#[verifier::external_body]
pub(crate) fn pair_map_insert(m: &mut PairMap, key: (AccountId, AccountId), value: u32)
    requires
        pair_counts(*old(m)).contains_key(key) || pair_counts(*old(m)).dom().len() < u32::MAX,
    ensures
        pair_counts(*final(m)) == pair_counts(*old(m)).insert(key, value),
{
    m.inner.insert(key, value);
}

/// `HashMap::from_iter` over the accounts paired with `()`: it inserts them
/// one by one into an empty map, so the keys are the accounts that occur in
/// `accounts`, each once.
#[verifier::external_body]
pub(crate) fn member_map_collect(accounts: &Vec<AccountId>) -> (m: MemberMap)
    requires
        accounts.len() <= u32::MAX,
    ensures
        members(m) == accounts@.to_set(),
{
    MemberMap { inner: accounts.iter().copied().map(|x| (x, ())).collect() }
}

/// `HashMap::len`: the number of keys.
#[verifier::external_body]
pub(crate) fn member_map_len(m: &MemberMap) -> (n: u32)
    ensures
        n == members(*m).len(),
{
    m.inner.len()
}

/// `HashMap::contains_key` for the membership index.
#[verifier::external_body]
pub(crate) fn member_map_contains(m: &MemberMap, key: &AccountId) -> (present: bool)
    ensures
        present == members(*m).contains(*key),
{
    m.inner.contains_key(key)
}

/// `Vec::from_iter`: pushes the accounts in order onto an empty storage
/// vector, which holds at most `u32::MAX` elements.
#[verifier::external_body]
pub(crate) fn candidate_list_collect(accounts: &Vec<AccountId>) -> (v: CandidateList)
    requires
        accounts.len() <= u32::MAX,
    ensures
        listed(v) == accounts@,
{
    CandidateList { inner: accounts.iter().copied().collect() }
}

/// `Vec::len`: the number of elements.
#[verifier::external_body]
pub(crate) fn candidate_list_len(v: &CandidateList) -> (n: u32)
    ensures
        n == listed(*v).len(),
{
    v.inner.len()
}

/// `Vec::iter`: yields the elements from the first to the last; they are
/// copied into a vector of the standard library.
#[verifier::external_body]
pub(crate) fn candidate_list_to_vec(v: &CandidateList) -> (out: Vec<AccountId>)
    ensures
        out@ == listed(*v),
{
    v.inner.iter().copied().collect()
}

} // verus!
