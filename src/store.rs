use vstd::prelude::*;
use ink_storage::collections::HashMap as StorageHashMap;
use crate::types::{AccountId, Balance};

verus! {

/// Key of an account in a storage map: its two halves.
pub type AccountKey = (u128, u128);

/// Key of an owner and spender pair in a storage map.
pub type AllowanceKey = (AccountKey, AccountKey);

/// The key under which an account is stored: its two halves.
pub open spec fn key_of(a: AccountId) -> AccountKey {
    (a.hi, a.lo)
}

/// Balances in contract storage, keyed by account.
#[verifier::external_body]
pub struct BalanceMap {
    inner: StorageHashMap<AccountKey, Balance>,
}

/// What a balance map holds.
pub uninterp spec fn balance_map_contents(m: BalanceMap) -> Map<AccountKey, Balance>;

/// How many keys a balance map holds.
pub uninterp spec fn balance_map_len(m: BalanceMap) -> nat;

/// Relies on ink_storage's `HashMap::new`: a map with no entries.
#[verifier::external_body]
fn balance_map_new() -> (r: BalanceMap)
    ensures
        balance_map_contents(r).dom() == Set::<AccountKey>::empty(),
        balance_map_len(r) == 0,
{
    BalanceMap { inner: StorageHashMap::new() }
}

/// Relies on ink_storage's `HashMap::get`: the value stored under the key, if any.
#[verifier::external_body]
fn balance_map_get(m: &BalanceMap, a: AccountId) -> (r: Option<Balance>)
    ensures
        r == if balance_map_contents(*m).contains_key(key_of(a)) {
            Some(balance_map_contents(*m)[key_of(a)])
        } else {
            None
        },
{
    m.inner.get(&(a.hi, a.lo)).copied()
}

/// Relies on ink_storage's `HashMap::insert`: the key now maps to the value,
/// and a key not held before is added to the key stash, whose `u32` length
/// must not overflow.
#[verifier::external_body]
fn balance_map_insert(m: &mut BalanceMap, a: AccountId, v: Balance)
    requires
        balance_map_contents(*old(m)).contains_key(key_of(a)) || balance_map_len(*old(m))
            < u32::MAX,
    ensures
        balance_map_contents(*final(m)) == balance_map_contents(*old(m)).insert(key_of(a), v),
        balance_map_len(*final(m)) == balance_map_len(*old(m)) + if balance_map_contents(
            *old(m),
        ).contains_key(key_of(a)) {
            0nat
        } else {
            1nat
        },
{
    m.inner.insert((a.hi, a.lo), v);
}

/// Allowances in contract storage, keyed by owner and spender.
#[verifier::external_body]
pub struct AllowanceMap {
    inner: StorageHashMap<AllowanceKey, Balance>,
}

/// What an allowance map holds.
pub uninterp spec fn allowance_map_contents(m: AllowanceMap) -> Map<AllowanceKey, Balance>;

/// How many keys an allowance map holds.
pub uninterp spec fn allowance_map_len(m: AllowanceMap) -> nat;

/// Relies on ink_storage's `HashMap::new`: a map with no entries.
#[verifier::external_body]
fn allowance_map_new() -> (r: AllowanceMap)
    ensures
        allowance_map_contents(r).dom() == Set::<AllowanceKey>::empty(),
        allowance_map_len(r) == 0,
{
    AllowanceMap { inner: StorageHashMap::new() }
}

/// Relies on ink_storage's `HashMap::get`: the value stored under the key, if any.
#[verifier::external_body]
fn allowance_map_get(m: &AllowanceMap, o: AccountId, s: AccountId) -> (r: Option<Balance>)
    ensures
        r == if allowance_map_contents(*m).contains_key((key_of(o), key_of(s))) {
            Some(allowance_map_contents(*m)[(key_of(o), key_of(s))])
        } else {
            None
        },
{
    m.inner.get(&((o.hi, o.lo), (s.hi, s.lo))).copied()
}

/// Relies on ink_storage's `HashMap::insert`: the key now maps to the value,
/// and a key not held before is added to the key stash, whose `u32` length
/// must not overflow.
#[verifier::external_body]
fn allowance_map_insert(m: &mut AllowanceMap, o: AccountId, s: AccountId, v: Balance)
    requires
        allowance_map_contents(*old(m)).contains_key((key_of(o), key_of(s)))
            || allowance_map_len(*old(m)) < u32::MAX,
    ensures
        allowance_map_contents(*final(m)) == allowance_map_contents(*old(m)).insert(
            (key_of(o), key_of(s)),
            v,
        ),
        allowance_map_len(*final(m)) == allowance_map_len(*old(m)) + if allowance_map_contents(
            *old(m),
        ).contains_key((key_of(o), key_of(s))) {
            0nat
        } else {
            1nat
        },
{
    m.inner.insert(((o.hi, o.lo), (s.hi, s.lo)), v);
}

/// The value under `k`, or 0 where there is none.
pub open spec fn value_or_zero<K>(m: Map<K, Balance>, k: K) -> int {
    if m.contains_key(k) {
        m[k] as int
    } else {
        0
    }
}

/// Sum of the balances of the accounts in `ks`.
pub open spec fn total(ks: Seq<AccountId>, m: Map<AccountKey, Balance>) -> int
    decreases ks.len(),
{
    if ks.len() == 0 {
        0
    } else {
        total(ks.drop_last(), m) + value_or_zero(m, key_of(ks.last()))
    }
}

/// No account occurs twice in `ks`.
pub open spec fn distinct(ks: Seq<AccountId>) -> bool {
    forall|i: int, j: int| 0 <= i < ks.len() && 0 <= j < ks.len() && i != j ==> ks[i] != ks[j]
}

proof fn lemma_total_nonneg(ks: Seq<AccountId>, m: Map<AccountKey, Balance>)
    ensures
        total(ks, m) >= 0,
    decreases ks.len(),
{
    if ks.len() > 0 {
        lemma_total_nonneg(ks.drop_last(), m);
    }
}

proof fn lemma_value_le_total(ks: Seq<AccountId>, m: Map<AccountKey, Balance>, i: int)
    requires
        0 <= i < ks.len(),
    ensures
        value_or_zero(m, key_of(ks[i])) <= total(ks, m),
    decreases ks.len(),
{
    lemma_total_nonneg(ks.drop_last(), m);
    if i < ks.len() - 1 {
        assert(ks.drop_last()[i] == ks[i]);
        lemma_value_le_total(ks.drop_last(), m, i);
    }
}

proof fn lemma_total_insert(
    ks: Seq<AccountId>,
    m: Map<AccountKey, Balance>,
    a: AccountId,
    v: Balance,
)
    requires
        distinct(ks),
    ensures
        total(ks, m.insert(key_of(a), v)) == total(ks, m) + if ks.contains(a) {
            v - value_or_zero(m, key_of(a))
        } else {
            0
        },
    decreases ks.len(),
{
    if ks.len() > 0 {
        let d = ks.drop_last();
        assert(distinct(d)) by {
            assert forall|p: int, q: int|
                0 <= p < d.len() && 0 <= q < d.len() && p != q implies d[p] != d[q] by {
                assert(d[p] == ks[p] && d[q] == ks[q]);
            }
        }
        lemma_total_insert(d, m, a, v);
        if ks.last() == a {
            assert(!d.contains(a)) by {
                if d.contains(a) {
                    let p = choose|p: int| 0 <= p < d.len() && d[p] == a;
                    assert(ks[p] == a && ks[ks.len() - 1] == a);
                }
            }
            assert(ks.contains(a)) by {
                assert(ks[ks.len() - 1] == a);
            }
        } else {
            assert(key_of(ks.last()) != key_of(a));
            assert(ks.contains(a) == d.contains(a)) by {
                if ks.contains(a) {
                    let p = choose|p: int| 0 <= p < ks.len() && ks[p] == a;
                    assert(p < ks.len() - 1);
                    assert(d[p] == a);
                }
                if d.contains(a) {
                    let p = choose|p: int| 0 <= p < d.len() && d[p] == a;
                    assert(ks[p] == a);
                }
            }
        }
    }
}

/// Balances of all accounts; an account without an entry holds 0.
pub struct BalanceStore {
    map: BalanceMap,
    accounts: Ghost<Seq<AccountId>>,
}

impl BalanceStore {
    pub closed spec fn contents(&self) -> Map<AccountKey, Balance> {
        balance_map_contents(self.map)
    }

    /// Accounts that have an entry.
    pub closed spec fn accounts(&self) -> Seq<AccountId> {
        self.accounts@
    }

    /// Balance of `a`.
    pub open spec fn spec_get(&self, a: AccountId) -> int {
        value_or_zero(self.contents(), key_of(a))
    }

    /// Sum of the balances of all accounts.
    pub open spec fn spec_sum(&self) -> int {
        total(self.accounts(), self.contents())
    }

    /// Number of accounts that have an entry.
    pub open spec fn spec_len(&self) -> nat {
        self.accounts().len()
    }

    pub closed spec fn wf(&self) -> bool {
        &&& distinct(self.accounts@)
        &&& forall|i: int|
            0 <= i < self.accounts@.len() ==> self.contents().contains_key(
                #[trigger] key_of(self.accounts@[i]),
            )
        &&& forall|a: AccountId|
            self.contents().contains_key(#[trigger] key_of(a)) ==> self.accounts@.contains(a)
        &&& balance_map_len(self.map) == self.accounts@.len()
    }

    /// Every balance is at most the sum of all balances, and that sum is not negative.
    pub proof fn lemma_get_le_sum(&self, a: AccountId)
        requires
            self.wf(),
        ensures
            0 <= self.spec_get(a) <= self.spec_sum(),
    {
        lemma_total_nonneg(self.accounts@, self.contents());
        if self.contents().contains_key(key_of(a)) {
            let i = choose|i: int| 0 <= i < self.accounts@.len() && self.accounts@[i] == a;
            lemma_value_le_total(self.accounts@, self.contents(), i);
        }
    }

    pub fn new() -> (r: Self)
        ensures
            r.wf(),
            r.spec_sum() == 0,
            r.spec_len() == 0,
            forall|a: AccountId| r.spec_get(a) == 0,
    {
        BalanceStore { map: balance_map_new(), accounts: Ghost(Seq::empty()) }
    }

    /// The stored balance of `a`, or 0 where it has none.
    pub fn get(&self, a: AccountId) -> (r: Balance)
        ensures
            r == self.spec_get(a),
    {
        match balance_map_get(&self.map, a) {
            Some(v) => v,
            None => 0,
        }
    }

    /// Sets the balance of `a` to `v`, leaving every other balance as it was.
    pub fn set(&mut self, a: AccountId, v: Balance)
        requires
            old(self).wf(),
            old(self).spec_len() < u32::MAX,
        ensures
            final(self).wf(),
            final(self).spec_sum() == old(self).spec_sum() - old(self).spec_get(a) + v,
            final(self).spec_len() <= old(self).spec_len() + 1,
            forall|b: AccountId|
                final(self).spec_get(b) == if b == a {
                    v as int
                } else {
                    old(self).spec_get(b)
                },
    {
        let ghost pre = self.contents();
        let ghost ks = self.accounts@;
        balance_map_insert(&mut self.map, a, v);
        proof {
            lemma_total_insert(ks, pre, a, v);
            if !pre.contains_key(key_of(a)) {
                assert(!ks.contains(a));
                self.accounts = Ghost(ks.push(a));
                assert(ks.push(a).drop_last() =~= ks);
                assert(distinct(ks.push(a))) by {
                    assert forall|p: int, q: int|
                        0 <= p < ks.push(a).len() && 0 <= q < ks.push(a).len() && p != q implies
                        ks.push(a)[p] != ks.push(a)[q] by {
                        if p < ks.len() && q < ks.len() {
                            assert(ks.push(a)[p] == ks[p] && ks.push(a)[q] == ks[q]);
                        } else if p < ks.len() {
                            assert(ks.push(a)[p] == ks[p]);
                        } else if q < ks.len() {
                            assert(ks.push(a)[q] == ks[q]);
                        }
                    }
                }
                assert forall|b: AccountId|
                    self.contents().contains_key(#[trigger] key_of(b)) implies self.accounts@.contains(
                    b,
                ) by {
                    if b == a {
                        assert(self.accounts@[ks.len() as int] == a);
                    } else {
                        assert(key_of(b) != key_of(a));
                        let i = choose|i: int| 0 <= i < ks.len() && ks[i] == b;
                        assert(self.accounts@[i] == b);
                    }
                }
                assert forall|i: int| 0 <= i < self.accounts@.len() implies self.contents().contains_key(
                    #[trigger] key_of(self.accounts@[i]),
                ) by {
                    if i < ks.len() {
                        assert(self.accounts@[i] == ks[i]);
                    }
                }
            } else {
                assert(ks.contains(a));
            }
        }
    }
}

/// Allowances granted by owners to spenders; a pair without an entry has 0.
pub struct AllowanceStore {
    map: AllowanceMap,
}

impl AllowanceStore {
    pub closed spec fn contents(&self) -> Map<AllowanceKey, Balance> {
        allowance_map_contents(self.map)
    }

    /// Amount that `owner` allows `spender` to move.
    pub open spec fn spec_get(&self, owner: AccountId, spender: AccountId) -> int {
        value_or_zero(self.contents(), (key_of(owner), key_of(spender)))
    }

    /// Number of owner and spender pairs that have an entry.
    pub closed spec fn spec_len(&self) -> nat {
        allowance_map_len(self.map)
    }

    pub fn new() -> (r: Self)
        ensures
            r.spec_len() == 0,
            forall|o: AccountId, p: AccountId| r.spec_get(o, p) == 0,
    {
        AllowanceStore { map: allowance_map_new() }
    }

    /// The stored allowance of `spender` over `owner`'s balance, or 0.
    pub fn get(&self, owner: AccountId, spender: AccountId) -> (r: Balance)
        ensures
            r == self.spec_get(owner, spender),
    {
        match allowance_map_get(&self.map, owner, spender) {
            Some(v) => v,
            None => 0,
        }
    }

    /// Replaces the allowance of `spender` over `owner`'s balance with `v`.
    pub fn set(&mut self, owner: AccountId, spender: AccountId, v: Balance)
        requires
            old(self).spec_len() < u32::MAX,
        ensures
            final(self).spec_len() <= old(self).spec_len() + 1,
            forall|o: AccountId, p: AccountId|
                final(self).spec_get(o, p) == if o == owner && p == spender {
                    v as int
                } else {
                    old(self).spec_get(o, p)
                },
    {
        allowance_map_insert(&mut self.map, owner, spender, v);
    }
}

} // verus!
