//! The balance store: a mapping from account identifier to a non-negative
//! amount, with a verified running total.
//!
//! Accounts are created implicitly on first credit and never deleted; a
//! balance may return to zero. An account with no history has balance zero.

use vstd::prelude::*;
use crate::AccountId;

verus! {

/// The balance a sequence of entries assigns to `key`: the value at the
/// first entry with that key, or zero when no entry has it.
pub open spec fn spec_balance_in(entries: Seq<(AccountId, i128)>, key: AccountId) -> int
    decreases entries.len(),
{
    if entries.len() == 0 {
        0
    } else if entries.first().0 == key {
        entries.first().1 as int
    } else {
        spec_balance_in(entries.drop_first(), key)
    }
}

/// Whether some entry of the sequence has the given key.
pub open spec fn spec_has_key(entries: Seq<(AccountId, i128)>, key: AccountId) -> bool
    decreases entries.len(),
{
    if entries.len() == 0 {
        false
    } else {
        entries.first().0 == key || spec_has_key(entries.drop_first(), key)
    }
}

/// The sum of all entry values.
pub open spec fn spec_total_of(entries: Seq<(AccountId, i128)>) -> int
    decreases entries.len(),
{
    if entries.len() == 0 {
        0
    } else {
        entries.first().1 + spec_total_of(entries.drop_first())
    }
}

/// No two entries share a key.
pub open spec fn spec_keys_unique(entries: Seq<(AccountId, i128)>) -> bool {
    forall|i: int, j: int|
        0 <= i < j < entries.len() ==> (#[trigger] entries[i]).0 != (#[trigger] entries[j]).0
}

/// All entry values are non-negative.
pub open spec fn spec_all_nonneg(entries: Seq<(AccountId, i128)>) -> bool {
    forall|i: int| 0 <= i < entries.len() ==> (#[trigger] entries[i]).1 >= 0
}

pub proof fn lemma_has_key_iff(entries: Seq<(AccountId, i128)>, key: AccountId)
    ensures
        spec_has_key(entries, key) <==> exists|i: int|
            0 <= i < entries.len() && (#[trigger] entries[i]).0 == key,
    decreases entries.len(),
{
    if entries.len() > 0 {
        lemma_has_key_iff(entries.drop_first(), key);
        if entries.first().0 == key {
            assert(entries[0].0 == key);
        } else if spec_has_key(entries.drop_first(), key) {
            let i = choose|i: int|
                0 <= i < entries.drop_first().len() && (#[trigger] entries.drop_first()[i]).0
                    == key;
            assert(entries[i + 1].0 == key);
        } else {
            assert forall|i: int|
                0 <= i < entries.len() implies (#[trigger] entries[i]).0 != key by {
                if i > 0 {
                    assert(entries.drop_first()[i - 1] == entries[i]);
                }
            }
        }
    }
}

/// A key with no entry has balance zero.
pub proof fn lemma_no_key_balance_zero(entries: Seq<(AccountId, i128)>, key: AccountId)
    requires
        !spec_has_key(entries, key),
    ensures
        spec_balance_in(entries, key) == 0,
    decreases entries.len(),
{
    if entries.len() > 0 {
        lemma_no_key_balance_zero(entries.drop_first(), key);
    }
}

/// The balance assigned to a key whose first occurrence is at index `i`
/// is the value stored there.
pub proof fn lemma_balance_at_first_match(
    entries: Seq<(AccountId, i128)>,
    i: int,
    key: AccountId,
)
    requires
        0 <= i < entries.len(),
        entries[i].0 == key,
        forall|j: int| 0 <= j < i ==> (#[trigger] entries[j]).0 != key,
    ensures
        spec_balance_in(entries, key) == entries[i].1,
    decreases i,
{
    if i > 0 {
        assert(entries.first().0 != key);
        assert(entries.drop_first()[i - 1] == entries[i]);
        assert forall|j: int|
            0 <= j < i - 1 implies (#[trigger] entries.drop_first()[j]).0 != key by {
            assert(entries.drop_first()[j] == entries[j + 1]);
        }
        lemma_balance_at_first_match(entries.drop_first(), i - 1, key);
    }
}

/// Updating the value at an entry (keeping its key) moves the total by the
/// difference, keeps every other key's balance, and preserves key
/// uniqueness and non-negativity (for a non-negative new value).
pub proof fn lemma_update_value(entries: Seq<(AccountId, i128)>, i: int, value: i128)
    requires
        0 <= i < entries.len(),
    ensures
        spec_total_of(entries.update(i, (entries[i].0, value))) == spec_total_of(entries)
            - entries[i].1 + value,
        forall|k: AccountId|
            k != entries[i].0 ==> #[trigger] spec_balance_in(
                entries.update(i, (entries[i].0, value)),
                k,
            ) == spec_balance_in(entries, k),
        spec_keys_unique(entries) ==> spec_keys_unique(entries.update(i, (entries[i].0, value))),
        spec_all_nonneg(entries) && value >= 0 ==> spec_all_nonneg(
            entries.update(i, (entries[i].0, value)),
        ),
    decreases i,
{
    let updated = entries.update(i, (entries[i].0, value));
    if spec_keys_unique(entries) {
        assert forall|a: int, b: int|
            0 <= a < b < updated.len() implies (#[trigger] updated[a]).0 != (
        #[trigger] updated[b]).0 by {
            assert(entries[a].0 != entries[b].0);
            assert(updated[a].0 == entries[a].0);
            assert(updated[b].0 == entries[b].0);
        }
    }
    if spec_all_nonneg(entries) && value >= 0 {
        assert forall|j: int| 0 <= j < updated.len() implies (#[trigger] updated[j]).1 >= 0 by {
            if j != i {
                assert(updated[j] == entries[j]);
                assert(entries[j].1 >= 0);
            }
        }
    }
    if i == 0 {
        assert(updated.drop_first() =~= entries.drop_first());
        assert(updated.first() == (entries[0].0, value));
        assert(spec_total_of(updated) == value + spec_total_of(entries.drop_first()));
        assert(spec_total_of(entries) == entries[0].1 + spec_total_of(entries.drop_first()));
        assert forall|k: AccountId|
            k != entries[i].0 implies #[trigger] spec_balance_in(updated, k) == spec_balance_in(
            entries,
            k,
        ) by {
            assert(spec_balance_in(updated, k) == spec_balance_in(updated.drop_first(), k));
            assert(spec_balance_in(entries, k) == spec_balance_in(entries.drop_first(), k));
        }
    } else {
        let d = entries.drop_first();
        let du = updated.drop_first();
        assert(updated.first() == entries.first());
        assert(d[i - 1] == entries[i]);
        assert(du =~= d.update(i - 1, (entries[i].0, value)));
        lemma_update_value(d, i - 1, value);
        assert(spec_total_of(updated) == updated.first().1 + spec_total_of(du));
        assert(spec_total_of(entries) == entries.first().1 + spec_total_of(d));
        assert forall|k: AccountId|
            k != entries[i].0 implies #[trigger] spec_balance_in(updated, k) == spec_balance_in(
            entries,
            k,
        ) by {
            if entries.first().0 == k {
                assert(spec_balance_in(updated, k) == updated.first().1);
                assert(spec_balance_in(entries, k) == entries.first().1);
            } else {
                assert(spec_balance_in(updated, k) == spec_balance_in(du, k));
                assert(spec_balance_in(entries, k) == spec_balance_in(d, k));
                assert(spec_balance_in(d.update(i - 1, (d[i - 1].0, value)), k)
                    == spec_balance_in(d, k));
            }
        }
    }
}

/// Appending a fresh entry adds its value to the total, gives its key that
/// value as balance, leaves every other key's balance unchanged, and
/// preserves the store invariants when the key is new and the value
/// non-negative.
pub proof fn lemma_push_entry(entries: Seq<(AccountId, i128)>, entry: (AccountId, i128))
    ensures
        spec_total_of(entries.push(entry)) == spec_total_of(entries) + entry.1,
        !spec_has_key(entries, entry.0) ==> spec_balance_in(entries.push(entry), entry.0)
            == entry.1,
        forall|k: AccountId|
            k != entry.0 ==> #[trigger] spec_balance_in(entries.push(entry), k)
                == spec_balance_in(entries, k),
        spec_keys_unique(entries) && (forall|j: int|
            0 <= j < entries.len() ==> (#[trigger] entries[j]).0 != entry.0)
            ==> spec_keys_unique(entries.push(entry)),
        spec_all_nonneg(entries) && entry.1 >= 0 ==> spec_all_nonneg(entries.push(entry)),
    decreases entries.len(),
{
    let p = entries.push(entry);
    assert(p[entries.len() as int] == entry);
    if spec_keys_unique(entries) && (forall|j: int|
        0 <= j < entries.len() ==> (#[trigger] entries[j]).0 != entry.0) {
        assert forall|a: int, b: int|
            0 <= a < b < p.len() implies (#[trigger] p[a]).0 != (#[trigger] p[b]).0 by {
            if b < entries.len() {
                assert(p[a] == entries[a]);
                assert(p[b] == entries[b]);
            } else {
                assert(p[a] == entries[a]);
                assert(p[b] == entry);
            }
        }
    }
    if spec_all_nonneg(entries) && entry.1 >= 0 {
        assert forall|j: int| 0 <= j < p.len() implies (#[trigger] p[j]).1 >= 0 by {
            if j < entries.len() {
                assert(p[j] == entries[j]);
            }
        }
    }
    if entries.len() == 0 {
        assert(p.drop_first() =~= Seq::<(AccountId, i128)>::empty());
        assert(p.first() == entry);
        assert(spec_total_of(p) == entry.1 + spec_total_of(p.drop_first()));
        assert forall|k: AccountId|
            k != entry.0 implies #[trigger] spec_balance_in(p, k) == spec_balance_in(
            entries,
            k,
        ) by {
            assert(spec_balance_in(p, k) == spec_balance_in(p.drop_first(), k));
        }
    } else {
        assert(p.first() == entries.first());
        assert(p.drop_first() =~= entries.drop_first().push(entry));
        lemma_push_entry(entries.drop_first(), entry);
        assert(spec_total_of(p) == p.first().1 + spec_total_of(p.drop_first()));
        assert(spec_total_of(entries) == entries.first().1 + spec_total_of(entries.drop_first()));
        if !spec_has_key(entries, entry.0) {
            assert(entries.first().0 != entry.0);
            assert(spec_balance_in(p, entry.0) == spec_balance_in(p.drop_first(), entry.0));
        }
        assert forall|k: AccountId|
            k != entry.0 implies #[trigger] spec_balance_in(p, k) == spec_balance_in(
            entries,
            k,
        ) by {
            if entries.first().0 == k {
                assert(spec_balance_in(p, k) == p.first().1);
                assert(spec_balance_in(entries, k) == entries.first().1);
            } else {
                assert(spec_balance_in(p, k) == spec_balance_in(p.drop_first(), k));
                assert(spec_balance_in(entries, k) == spec_balance_in(entries.drop_first(), k));
                assert(spec_balance_in(entries.drop_first().push(entry), k) == spec_balance_in(
                    entries.drop_first(),
                    k,
                ));
            }
        }
    }
}

/// With non-negative values, every balance lies between zero and the total.
pub proof fn lemma_balance_bounds_in(entries: Seq<(AccountId, i128)>, key: AccountId)
    requires
        spec_all_nonneg(entries),
    ensures
        0 <= spec_balance_in(entries, key),
        spec_balance_in(entries, key) <= spec_total_of(entries),
        spec_total_of(entries) >= 0,
    decreases entries.len(),
{
    if entries.len() > 0 {
        assert(entries[0].1 >= 0);
        assert forall|i: int|
            0 <= i < entries.drop_first().len() implies (#[trigger] entries.drop_first()[i]).1
            >= 0 by {
            assert(entries.drop_first()[i] == entries[i + 1]);
        }
        lemma_balance_bounds_in(entries.drop_first(), key);
    }
}

/// The balance store. Its well-formedness invariant keeps keys unique and
/// every balance non-negative.
pub struct BalanceMap {
    entries: Vec<(AccountId, i128)>,
}

impl BalanceMap {
    /// The balance of an account; zero when the account has no history.
    pub closed spec fn balance(&self, key: AccountId) -> int {
        spec_balance_in(self.entries@, key)
    }

    /// Whether the account has an entry (it has been credited before).
    pub closed spec fn has_account(&self, key: AccountId) -> bool {
        spec_has_key(self.entries@, key)
    }

    /// The sum of all balances.
    pub closed spec fn total(&self) -> int {
        spec_total_of(self.entries@)
    }

    /// Keys are unique and every balance is non-negative.
    pub closed spec fn wf(&self) -> bool {
        spec_keys_unique(self.entries@) && spec_all_nonneg(self.entries@)
    }

    /// Law: in a well-formed store no balance is negative, and none
    /// exceeds the sum of all balances.
    pub proof fn lemma_balance_bounds(&self, key: AccountId)
        requires
            self.wf(),
        ensures
            0 <= self.balance(key),
            self.balance(key) <= self.total(),
            self.total() >= 0,
    {
        lemma_balance_bounds_in(self.entries@, key);
    }

    /// An empty store: every account balance is zero.
    pub fn new() -> (store: Self)
        ensures
            store.wf(),
            store.total() == 0,
            forall|k: AccountId| store.balance(k) == 0,
            forall|k: AccountId| !store.has_account(k),
    {
        BalanceMap { entries: Vec::new() }
    }

    /// Reads the balance of an account, zero when it has no history.
    #[verifier::loop_isolation(false)]
    pub fn get(&self, key: AccountId) -> (balance: i128)
        ensures
            balance == self.balance(key),
    {
        let n = self.entries.len();
        let mut i: usize = 0;
        while i < n
            invariant
                n == self.entries.len(),
                i <= n,
                forall|j: int| 0 <= j < i ==> (#[trigger] self.entries@[j]).0 != key,
            decreases n - i,
        {
            if self.entries[i].0 == key {
                proof {
                    lemma_balance_at_first_match(self.entries@, i as int, key);
                }
                return self.entries[i].1;
            }
            i += 1;
        }
        proof {
            lemma_has_key_iff(self.entries@, key);
            lemma_no_key_balance_zero(self.entries@, key);
        }
        0
    }

    /// Adds `amount` to the balance of `key`, creating the account when it
    /// has no history.
    #[verifier::loop_isolation(false)]
    pub fn add_to(&mut self, key: AccountId, amount: i128)
        requires
            old(self).wf(),
            amount > 0,
            old(self).balance(key) + amount <= i128::MAX,
        ensures
            final(self).wf(),
            final(self).balance(key) == old(self).balance(key) + amount,
            forall|k: AccountId|
                k != key ==> #[trigger] final(self).balance(k) == old(self).balance(k),
            final(self).total() == old(self).total() + amount,
    {
        let n = self.entries.len();
        let mut i: usize = 0;
        while i < n
            invariant
                n == self.entries.len(),
                i <= n,
                forall|j: int| 0 <= j < i ==> (#[trigger] self.entries@[j]).0 != key,
                self.entries@ == old(self).entries@,
            decreases n - i,
        {
            if self.entries[i].0 == key {
                let ghost before = self.entries@;
                proof {
                    lemma_balance_at_first_match(before, i as int, key);
                    assert(before[i as int].1 >= 0);
                }
                let updated: i128 = self.entries[i].1 + amount;
                proof {
                    lemma_update_value(before, i as int, updated);
                }
                self.entries.set(i, (key, updated));
                proof {
                    assert(self.entries@ == before.update(i as int, (key, updated)));
                    assert forall|j: int|
                        0 <= j < i implies (#[trigger] self.entries@[j]).0 != key by {
                        assert(self.entries@[j] == before[j]);
                    }
                    lemma_balance_at_first_match(self.entries@, i as int, key);
                }
                return ;
            }
            i += 1;
        }
        proof {
            lemma_has_key_iff(self.entries@, key);
            lemma_no_key_balance_zero(self.entries@, key);
            lemma_push_entry(self.entries@, (key, amount));
        }
        self.entries.push((key, amount));
    }

    /// Subtracts `amount` from the balance of `key`. The caller must have
    /// established that the balance covers the amount, so the result stays
    /// non-negative.
    #[verifier::loop_isolation(false)]
    pub fn sub_from(&mut self, key: AccountId, amount: i128)
        requires
            old(self).wf(),
            amount > 0,
            amount <= old(self).balance(key),
        ensures
            final(self).wf(),
            final(self).balance(key) == old(self).balance(key) - amount,
            forall|k: AccountId|
                k != key ==> #[trigger] final(self).balance(k) == old(self).balance(k),
            final(self).total() == old(self).total() - amount,
    {
        let n = self.entries.len();
        let mut i: usize = 0;
        while i < n
            invariant
                n == self.entries.len(),
                i <= n,
                forall|j: int| 0 <= j < i ==> (#[trigger] self.entries@[j]).0 != key,
                self.entries@ == old(self).entries@,
            decreases n - i,
        {
            if self.entries[i].0 == key {
                let ghost before = self.entries@;
                proof {
                    lemma_balance_at_first_match(before, i as int, key);
                    assert(before[i as int].1 >= 0);
                }
                let updated: i128 = self.entries[i].1 - amount;
                proof {
                    lemma_update_value(before, i as int, updated);
                }
                self.entries.set(i, (key, updated));
                proof {
                    assert(self.entries@ == before.update(i as int, (key, updated)));
                    assert forall|j: int|
                        0 <= j < i implies (#[trigger] self.entries@[j]).0 != key by {
                        assert(self.entries@[j] == before[j]);
                    }
                    lemma_balance_at_first_match(self.entries@, i as int, key);
                }
                return ;
            }
            i += 1;
        }
        // Unreachable: an account with no entry has balance zero, which
        // cannot cover a positive amount.
        proof {
            lemma_has_key_iff(self.entries@, key);
            lemma_no_key_balance_zero(self.entries@, key);
            assert(false);
        }
    }
}

} // verus!
