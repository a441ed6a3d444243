use vstd::prelude::*;

verus! {

broadcast use vstd::std_specs::hash::group_hash_axioms;

/// An account identifier: opaque, comparable, unique per account.
pub type AccountId = u64;

/// The supply that a fresh ledger issues on its first initialization.
pub const TOTAL_SUPPLY_DEFAULT: u64 = 21_000_000;

/// The balance that the stored entries give an account: its entry, or zero when it has none.
pub open spec fn balance_in(m: Map<AccountId, u64>, account: AccountId) -> u64 {
    if m.contains_key(account) {
        m[account]
    } else {
        0
    }
}

/// The sum of all stored balances.
pub open spec fn total_of(m: Map<AccountId, u64>) -> int
    decreases m.dom().len(),
{
    if m.dom().finite() && m.dom().len() > 0 {
        let k = m.dom().choose();
        m[k] + total_of(m.remove(k))
    } else {
        0
    }
}

/// The sum does not depend on which entry is taken out first.
pub proof fn lemma_total_remove(m: Map<AccountId, u64>, k: AccountId)
    requires
        m.dom().finite(),
        m.contains_key(k),
    ensures
        total_of(m) == m[k] + total_of(m.remove(k)),
    decreases m.dom().len(),
{
    let j = m.dom().choose();
    if j != k {
        lemma_total_remove(m.remove(j), k);
        lemma_total_remove(m.remove(k), j);
        assert(m.remove(j).remove(k) =~= m.remove(k).remove(j));
    }
}

/// A sum of balances is never negative.
pub proof fn lemma_total_nonnegative(m: Map<AccountId, u64>)
    requires
        m.dom().finite(),
    ensures
        total_of(m) >= 0,
    decreases m.dom().len(),
{
    if m.dom().len() > 0 {
        let k = m.dom().choose();
        lemma_total_nonnegative(m.remove(k));
    }
}

/// Writing one balance changes the sum by the difference between the new and the old balance.
pub proof fn lemma_total_insert(m: Map<AccountId, u64>, k: AccountId, v: u64)
    requires
        m.dom().finite(),
    ensures
        total_of(m.insert(k, v)) == total_of(m) - balance_in(m, k) + v,
{
    let n = m.insert(k, v);
    lemma_total_remove(n, k);
    if m.contains_key(k) {
        lemma_total_remove(m, k);
        assert(n.remove(k) =~= m.remove(k));
    } else {
        assert(n.remove(k) =~= m);
    }
}

/// No account holds more than the sum of all balances.
pub proof fn lemma_balance_bounded(m: Map<AccountId, u64>, a: AccountId)
    requires
        m.dom().finite(),
    ensures
        balance_in(m, a) <= total_of(m),
{
    if m.contains_key(a) {
        lemma_total_remove(m, a);
        lemma_total_nonnegative(m.remove(a));
    } else {
        lemma_total_nonnegative(m);
    }
}

/// Two distinct accounts together hold no more than the sum of all balances.
pub proof fn lemma_two_balances_bounded(m: Map<AccountId, u64>, a: AccountId, b: AccountId)
    requires
        m.dom().finite(),
        a != b,
    ensures
        balance_in(m, a) + balance_in(m, b) <= total_of(m),
{
    if m.contains_key(a) {
        lemma_total_remove(m, a);
        let rest = m.remove(a);
        if rest.contains_key(b) {
            lemma_total_remove(rest, b);
            lemma_total_nonnegative(rest.remove(b));
        } else {
            lemma_total_nonnegative(rest);
        }
    } else if m.contains_key(b) {
        lemma_total_remove(m, b);
        lemma_total_nonnegative(m.remove(b));
    } else {
        lemma_total_nonnegative(m);
    }
}

/// Keyed balances, with the total supply and the one-shot initialization flag.
pub struct LedgerStore {
    balances: std::collections::HashMap<AccountId, u64>,
    total_supply: u64,
    initialized: bool,
}

impl LedgerStore {
    /// The stored entries. An account without one has balance zero.
    pub closed spec fn balances(&self) -> Map<AccountId, u64> {
        self.balances@
    }

    pub closed spec fn total_supply(&self) -> u64 {
        self.total_supply
    }

    pub closed spec fn initialized(&self) -> bool {
        self.initialized
    }

    pub open spec fn balance_of(&self, account: AccountId) -> u64 {
        balance_in(self.balances(), account)
    }

    pub open spec fn total_balance(&self) -> int {
        total_of(self.balances())
    }

    /// The stored entries are finitely many.
    pub proof fn lemma_balances_finite(&self)
        ensures
            self.balances().dom().finite(),
    {
    }

    /// A store as at genesis: no balances, the default total supply, not initialized.
    pub fn new() -> (r: Self)
        ensures
            r.balances() == Map::<AccountId, u64>::empty(),
            r.total_supply() == TOTAL_SUPPLY_DEFAULT,
            !r.initialized(),
    {
        LedgerStore {
            balances: std::collections::HashMap::new(),
            total_supply: TOTAL_SUPPLY_DEFAULT,
            initialized: false,
        }
    }

    /// The balance of `account`, zero when it has no entry.
    pub fn get_balance(&self, account: AccountId) -> (r: u64)
        ensures
            r == self.balance_of(account),
    {
        match self.balances.get(&account) {
            Some(v) => *v,
            None => 0,
        }
    }

    /// Overwrites or inserts the entry of `account`.
    pub fn set_balance(&mut self, account: AccountId, value: u64)
        ensures
            final(self).balances() == old(self).balances().insert(account, value),
            final(self).total_supply() == old(self).total_supply(),
            final(self).initialized() == old(self).initialized(),
    {
        self.balances.insert(account, value);
    }

    pub fn get_total_supply(&self) -> (r: u64)
        ensures
            r == self.total_supply(),
    {
        self.total_supply
    }

    pub fn get_initialized(&self) -> (r: bool)
        ensures
            r == self.initialized(),
    {
        self.initialized
    }

    pub fn set_initialized(&mut self, value: bool)
        ensures
            final(self).initialized() == value,
            final(self).balances() == old(self).balances(),
            final(self).total_supply() == old(self).total_supply(),
    {
        self.initialized = value;
    }
}

} // verus!
