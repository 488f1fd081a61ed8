//! Verified sparse key-value stores backing the ledger's mappings: balances
//! (account to amount, with a running-sum theory used for the supply
//! invariant), allowances (owner-spender pair to amount), and the blacklist
//! (a duplicate-free set of accounts). Absent keys read as zero or false.

use vstd::prelude::*;

use crate::types::{AccountId, Balance};

verus! {

// ------------------------------------------------------------------
// Balance entries: a sequence of (account, amount) pairs, unique keys.
// ------------------------------------------------------------------

/// No account appears twice among the entries.
pub open spec fn keys_unique(s: Seq<(AccountId, Balance)>) -> bool {
    forall|i: int, j: int| 0 <= i < j < s.len() ==> s[i].0 != s[j].0
}

/// The amount stored for `a`, or zero when `a` has no entry.
pub open spec fn value_of(s: Seq<(AccountId, Balance)>, a: AccountId) -> Balance
    decreases s.len(),
{
    if s.len() == 0 {
        0
    } else if s[0].0 == a {
        s[0].1
    } else {
        value_of(s.drop_first(), a)
    }
}

/// The sum of all stored amounts.
pub open spec fn sum_of(s: Seq<(AccountId, Balance)>) -> int
    decreases s.len(),
{
    if s.len() == 0 {
        0
    } else {
        s[0].1 + sum_of(s.drop_first())
    }
}

/// Reads the amount stored for `a`; absent keys read as zero.
pub fn map_get(entries: &Vec<(AccountId, Balance)>, a: AccountId) -> (r: Balance)
    ensures
        r == value_of(entries@, a),
{
    let n = entries.len();
    let mut i: usize = 0;
    proof {
        assert(entries@.skip(0) =~= entries@);
    }
    while i < n
        invariant
            i <= n,
            n == entries@.len(),
            value_of(entries@, a) == value_of(entries@.skip(i as int), a),
        decreases n - i,
    {
        let e = entries[i];
        proof {
            assert(entries@.skip(i as int)[0] == entries@[i as int]);
        }
        if e.0 == a {
            return e.1;
        }
        proof {
            assert(entries@.skip(i as int).drop_first() =~= entries@.skip(i as int + 1));
        }
        i = i + 1;
    }
    0
}

/// Every stored amount is non-negative, so each single amount is bounded by
/// the sum of all of them.
pub proof fn lemma_value_le_sum(s: Seq<(AccountId, Balance)>, a: AccountId)
    ensures
        sum_of(s) >= 0,
        value_of(s, a) <= sum_of(s),
    decreases s.len(),
{
    if s.len() > 0 {
        lemma_value_le_sum(s.drop_first(), a);
    }
}

/// A key that appears in no entry reads as zero.
proof fn lemma_value_absent(s: Seq<(AccountId, Balance)>, a: AccountId)
    requires
        forall|k: int| 0 <= k < s.len() ==> s[k].0 != a,
    ensures
        value_of(s, a) == 0,
    decreases s.len(),
{
    if s.len() > 0 {
        assert forall|k: int| 0 <= k < s.drop_first().len() implies s.drop_first()[k].0 != a by {
            assert(s.drop_first()[k] == s[k + 1]);
        }
        lemma_value_absent(s.drop_first(), a);
    }
}

/// Uniqueness of keys restricts to any suffix of the entries.
proof fn lemma_unique_drop_first(s: Seq<(AccountId, Balance)>)
    requires
        keys_unique(s),
        s.len() > 0,
    ensures
        keys_unique(s.drop_first()),
{
    assert forall|i: int, j: int|
        0 <= i < j < s.drop_first().len() implies s.drop_first()[i].0 != s.drop_first()[j].0 by {
        assert(s.drop_first()[i] == s[i + 1]);
        assert(s.drop_first()[j] == s[j + 1]);
    }
}

/// Overwriting the amount at index `i` changes exactly that key's value and
/// shifts the sum by the difference.
proof fn lemma_update_at(s: Seq<(AccountId, Balance)>, i: int, v: Balance)
    requires
        keys_unique(s),
        0 <= i < s.len(),
    ensures
        keys_unique(s.update(i, (s[i].0, v))),
        value_of(s.update(i, (s[i].0, v)), s[i].0) == v,
        forall|b: AccountId|
            b != s[i].0 ==> value_of(s.update(i, (s[i].0, v)), b) == value_of(s, b),
        sum_of(s.update(i, (s[i].0, v))) == sum_of(s) - s[i].1 + v,
        value_of(s, s[i].0) == s[i].1,
    decreases s.len(),
{
    let a = s[i].0;
    let t = s.update(i, (a, v));
    assert forall|p: int, q: int| 0 <= p < q < t.len() implies t[p].0 != t[q].0 by {
        assert(t[p].0 == s[p].0);
        assert(t[q].0 == s[q].0);
    }
    lemma_unique_drop_first(s);
    if i == 0 {
        assert(t.drop_first() =~= s.drop_first());
    } else {
        assert(t.drop_first() =~= s.drop_first().update(i - 1, (a, v)));
        assert(s.drop_first()[i - 1] == s[i]);
        lemma_update_at(s.drop_first(), i - 1, v);
        assert(s[0].0 != a);
        assert forall|b: AccountId| b != a implies value_of(t, b) == value_of(s, b) by {
            assert(t[0] == s[0]);
            if s[0].0 != b {
                assert(value_of(t.drop_first(), b) == value_of(s.drop_first(), b));
            }
        }
    }
}

/// Appending an absent key leaves the old values in place, gives the new key
/// its amount, and adds that amount to the sum.
proof fn lemma_push(s: Seq<(AccountId, Balance)>, a: AccountId, v: Balance)
    requires
        keys_unique(s),
        forall|k: int| 0 <= k < s.len() ==> s[k].0 != a,
    ensures
        keys_unique(s.push((a, v))),
        value_of(s.push((a, v)), a) == v,
        forall|b: AccountId| b != a ==> value_of(s.push((a, v)), b) == value_of(s, b),
        sum_of(s.push((a, v))) == sum_of(s) + v,
    decreases s.len(),
{
    let t = s.push((a, v));
    assert forall|p: int, q: int| 0 <= p < q < t.len() implies t[p].0 != t[q].0 by {
        if q < s.len() {
            assert(t[p] == s[p] && t[q] == s[q]);
        } else {
            assert(t[p] == s[p] && t[q] == (a, v));
        }
    }
    if s.len() == 0 {
        assert(t.drop_first() =~= Seq::<(AccountId, Balance)>::empty());
        assert(t[0] == (a, v));
        assert(sum_of(t) == v + sum_of(t.drop_first()));
        assert forall|b: AccountId| b != a implies value_of(t, b) == value_of(s, b) by {
            assert(value_of(t.drop_first(), b) == 0);
        }
    } else {
        assert(t.drop_first() =~= s.drop_first().push((a, v)));
        lemma_unique_drop_first(s);
        assert forall|k: int| 0 <= k < s.drop_first().len() implies s.drop_first()[k].0 != a by {
            assert(s.drop_first()[k] == s[k + 1]);
        }
        lemma_push(s.drop_first(), a, v);
        assert(t[0] == s[0]);
        assert(s[0].0 != a);
        assert(sum_of(t) == s[0].1 + sum_of(t.drop_first()));
        assert forall|b: AccountId| b != a implies value_of(t, b) == value_of(s, b) by {
            if s[0].0 != b {
                assert(value_of(t.drop_first(), b) == value_of(s.drop_first(), b));
            }
        }
    }
}

/// Stores amount `v` for key `a`, overwriting any existing entry. The
/// contract gives the pointwise effect on every key and the exact shift of
/// the stored sum.
pub fn map_set(entries: &mut Vec<(AccountId, Balance)>, a: AccountId, v: Balance)
    requires
        keys_unique(old(entries)@),
    ensures
        keys_unique(final(entries)@),
        value_of(final(entries)@, a) == v,
        forall|b: AccountId| b != a ==> value_of(final(entries)@, b) == value_of(old(entries)@, b),
        sum_of(final(entries)@) == sum_of(old(entries)@) - value_of(old(entries)@, a) + v,
{
    let n = entries.len();
    let mut i: usize = 0;
    while i < n
        invariant
            i <= n,
            n == entries@.len(),
            *entries == *old(entries),
            keys_unique(entries@),
            forall|k: int| 0 <= k < i ==> entries@[k].0 != a,
        decreases n - i,
    {
        if entries[i].0 == a {
            proof {
                lemma_update_at(entries@, i as int, v);
            }
            entries[i] = (a, v);
            return;
        }
        i = i + 1;
    }
    proof {
        lemma_value_absent(entries@, a);
        lemma_push(entries@, a, v);
    }
    entries.push((a, v));
}

// ------------------------------------------------------------------
// Allowance entries: (owner, spender, amount) triples, unique key pairs.
// ------------------------------------------------------------------

/// No (owner, spender) pair appears twice among the entries.
pub open spec fn allow_keys_unique(s: Seq<(AccountId, AccountId, Balance)>) -> bool {
    forall|i: int, j: int|
        0 <= i < j < s.len() ==> !(s[i].0 == s[j].0 && s[i].1 == s[j].1)
}

/// The amount stored for the pair (`o`, `sp`), or zero when absent.
pub open spec fn allow_value_of(s: Seq<(AccountId, AccountId, Balance)>, o: AccountId, sp: AccountId) -> Balance
    decreases s.len(),
{
    if s.len() == 0 {
        0
    } else if s[0].0 == o && s[0].1 == sp {
        s[0].2
    } else {
        allow_value_of(s.drop_first(), o, sp)
    }
}

/// Uniqueness of key pairs restricts to any suffix of the entries.
proof fn lemma_allow_unique_drop_first(s: Seq<(AccountId, AccountId, Balance)>)
    requires
        allow_keys_unique(s),
        s.len() > 0,
    ensures
        allow_keys_unique(s.drop_first()),
{
    assert forall|i: int, j: int|
        0 <= i < j < s.drop_first().len() implies !(s.drop_first()[i].0 == s.drop_first()[j].0
        && s.drop_first()[i].1 == s.drop_first()[j].1) by {
        assert(s.drop_first()[i] == s[i + 1]);
        assert(s.drop_first()[j] == s[j + 1]);
    }
}

/// Overwriting the amount at index `i` changes exactly that pair's value.
proof fn lemma_allow_update_at(s: Seq<(AccountId, AccountId, Balance)>, i: int, v: Balance)
    requires
        allow_keys_unique(s),
        0 <= i < s.len(),
    ensures
        allow_keys_unique(s.update(i, (s[i].0, s[i].1, v))),
        allow_value_of(s.update(i, (s[i].0, s[i].1, v)), s[i].0, s[i].1) == v,
        forall|o: AccountId, sp: AccountId|
            !(o == s[i].0 && sp == s[i].1) ==> allow_value_of(
                s.update(i, (s[i].0, s[i].1, v)),
                o,
                sp,
            ) == allow_value_of(s, o, sp),
    decreases s.len(),
{
    let t = s.update(i, (s[i].0, s[i].1, v));
    assert forall|p: int, q: int| 0 <= p < q < t.len() implies !(t[p].0 == t[q].0 && t[p].1
        == t[q].1) by {
        assert(t[p].0 == s[p].0 && t[p].1 == s[p].1);
        assert(t[q].0 == s[q].0 && t[q].1 == s[q].1);
    }
    lemma_allow_unique_drop_first(s);
    if i == 0 {
        assert(t.drop_first() =~= s.drop_first());
    } else {
        assert(t.drop_first() =~= s.drop_first().update(i - 1, (s[i].0, s[i].1, v)));
        assert(s.drop_first()[i - 1] == s[i]);
        lemma_allow_update_at(s.drop_first(), i - 1, v);
        assert(t[0] == s[0]);
        assert(!(s[0].0 == s[i].0 && s[0].1 == s[i].1));
        assert forall|o: AccountId, sp: AccountId|
            !(o == s[i].0 && sp == s[i].1) implies allow_value_of(t, o, sp) == allow_value_of(
            s,
            o,
            sp,
        ) by {
            if !(s[0].0 == o && s[0].1 == sp) {
                assert(allow_value_of(t.drop_first(), o, sp) == allow_value_of(
                    s.drop_first(),
                    o,
                    sp,
                ));
            }
        }
    }
}

/// Appending an absent key pair leaves the old values in place and gives the
/// new pair its amount.
proof fn lemma_allow_push(s: Seq<(AccountId, AccountId, Balance)>, o: AccountId, sp: AccountId, v: Balance)
    requires
        allow_keys_unique(s),
        forall|k: int| 0 <= k < s.len() ==> !(s[k].0 == o && s[k].1 == sp),
    ensures
        allow_keys_unique(s.push((o, sp, v))),
        allow_value_of(s.push((o, sp, v)), o, sp) == v,
        forall|p: AccountId, q: AccountId|
            !(p == o && q == sp) ==> allow_value_of(s.push((o, sp, v)), p, q)
                == allow_value_of(s, p, q),
    decreases s.len(),
{
    let t = s.push((o, sp, v));
    assert forall|i: int, j: int| 0 <= i < j < t.len() implies !(t[i].0 == t[j].0 && t[i].1
        == t[j].1) by {
        if j < s.len() {
            assert(t[i] == s[i] && t[j] == s[j]);
        } else {
            assert(t[i] == s[i] && t[j] == (o, sp, v));
        }
    }
    if s.len() == 0 {
        assert(t.drop_first() =~= Seq::<(AccountId, AccountId, Balance)>::empty());
        assert(t[0] == (o, sp, v));
        assert forall|p: AccountId, q: AccountId|
            !(p == o && q == sp) implies allow_value_of(t, p, q) == allow_value_of(s, p, q) by {
            assert(allow_value_of(t.drop_first(), p, q) == 0);
        }
    } else {
        assert(t.drop_first() =~= s.drop_first().push((o, sp, v)));
        lemma_allow_unique_drop_first(s);
        assert forall|k: int|
            0 <= k < s.drop_first().len() implies !(s.drop_first()[k].0 == o
            && s.drop_first()[k].1 == sp) by {
            assert(s.drop_first()[k] == s[k + 1]);
        }
        lemma_allow_push(s.drop_first(), o, sp, v);
        assert(t[0] == s[0]);
        assert(!(s[0].0 == o && s[0].1 == sp));
        assert forall|p: AccountId, q: AccountId|
            !(p == o && q == sp) implies allow_value_of(t, p, q) == allow_value_of(s, p, q) by {
            if !(s[0].0 == p && s[0].1 == q) {
                assert(allow_value_of(t.drop_first(), p, q) == allow_value_of(
                    s.drop_first(),
                    p,
                    q,
                ));
            }
        }
    }
}

/// A key pair that appears in no entry reads as zero.
proof fn lemma_allow_value_absent(s: Seq<(AccountId, AccountId, Balance)>, o: AccountId, sp: AccountId)
    requires
        forall|k: int| 0 <= k < s.len() ==> !(s[k].0 == o && s[k].1 == sp),
    ensures
        allow_value_of(s, o, sp) == 0,
    decreases s.len(),
{
    if s.len() > 0 {
        assert forall|k: int|
            0 <= k < s.drop_first().len() implies !(s.drop_first()[k].0 == o
            && s.drop_first()[k].1 == sp) by {
            assert(s.drop_first()[k] == s[k + 1]);
        }
        lemma_allow_value_absent(s.drop_first(), o, sp);
    }
}

/// Reads the amount stored for the pair (`o`, `sp`); absent pairs read as zero.
pub fn allow_get(entries: &Vec<(AccountId, AccountId, Balance)>, o: AccountId, sp: AccountId) -> (r: Balance)
    ensures
        r == allow_value_of(entries@, o, sp),
{
    let n = entries.len();
    let mut i: usize = 0;
    proof {
        assert(entries@.skip(0) =~= entries@);
    }
    while i < n
        invariant
            i <= n,
            n == entries@.len(),
            allow_value_of(entries@, o, sp) == allow_value_of(entries@.skip(i as int), o, sp),
        decreases n - i,
    {
        let e = entries[i];
        proof {
            assert(entries@.skip(i as int)[0] == entries@[i as int]);
        }
        if e.0 == o && e.1 == sp {
            return e.2;
        }
        proof {
            assert(entries@.skip(i as int).drop_first() =~= entries@.skip(i as int + 1));
        }
        i = i + 1;
    }
    0
}

/// Stores amount `v` for the pair (`o`, `sp`), overwriting any existing entry.
pub fn allow_set(entries: &mut Vec<(AccountId, AccountId, Balance)>, o: AccountId, sp: AccountId, v: Balance)
    requires
        allow_keys_unique(old(entries)@),
    ensures
        allow_keys_unique(final(entries)@),
        allow_value_of(final(entries)@, o, sp) == v,
        forall|p: AccountId, q: AccountId|
            !(p == o && q == sp) ==> allow_value_of(final(entries)@, p, q) == allow_value_of(
                old(entries)@,
                p,
                q,
            ),
{
    let n = entries.len();
    let mut i: usize = 0;
    while i < n
        invariant
            i <= n,
            n == entries@.len(),
            *entries == *old(entries),
            allow_keys_unique(entries@),
            forall|k: int| 0 <= k < i ==> !(entries@[k].0 == o && entries@[k].1 == sp),
        decreases n - i,
    {
        let e = entries[i];
        if e.0 == o && e.1 == sp {
            proof {
                lemma_allow_update_at(entries@, i as int, v);
            }
            entries[i] = (o, sp, v);
            return;
        }
        i = i + 1;
    }
    proof {
        lemma_allow_push(entries@, o, sp, v);
    }
    entries.push((o, sp, v));
}

// ------------------------------------------------------------------
// Blacklist: a duplicate-free sequence of accounts, read as a set.
// ------------------------------------------------------------------

/// No account appears twice.
pub open spec fn nodup(s: Seq<AccountId>) -> bool {
    forall|i: int, j: int| 0 <= i < j < s.len() ==> s[i] != s[j]
}

/// Whether `a` is a member.
pub fn set_contains(s: &Vec<AccountId>, a: AccountId) -> (r: bool)
    ensures
        r == s@.contains(a),
{
    let n = s.len();
    let mut i: usize = 0;
    while i < n
        invariant
            i <= n,
            n == s@.len(),
            forall|k: int| 0 <= k < i ==> s@[k] != a,
        decreases n - i,
    {
        if s[i] == a {
            assert(s@.contains(a)) by {
                assert(s@[i as int] == a);
            }
            return true;
        }
        i = i + 1;
    }
    false
}

/// Inserts `a`; inserting a present member changes nothing.
pub fn set_insert(s: &mut Vec<AccountId>, a: AccountId)
    requires
        nodup(old(s)@),
    ensures
        nodup(final(s)@),
        final(s)@.contains(a),
        forall|b: AccountId| b != a ==> final(s)@.contains(b) == old(s)@.contains(b),
{
    if !set_contains(s, a) {
        let ghost s0 = s@;
        s.push(a);
        proof {
            assert forall|i: int, j: int| 0 <= i < j < s@.len() implies s@[i] != s@[j] by {
                if j < s0.len() {
                    assert(s@[i] == s0[i] && s@[j] == s0[j]);
                } else {
                    assert(s@[j] == a);
                    assert(s@[i] == s0[i]);
                    assert(!s0.contains(a));
                }
            }
            assert(s@[s0.len() as int] == a);
            assert forall|b: AccountId| b != a implies s@.contains(b) == s0.contains(b) by {
                if s@.contains(b) {
                    let k = choose|k: int| 0 <= k < s@.len() && s@[k] == b;
                    assert(k < s0.len());
                    assert(s0[k] == b);
                }
                if s0.contains(b) {
                    let k = choose|k: int| 0 <= k < s0.len() && s0[k] == b;
                    assert(s@[k] == b);
                }
            }
        }
    }
}

/// Removes `a`; removing an absent member changes nothing.
pub fn set_remove(s: &mut Vec<AccountId>, a: AccountId)
    requires
        nodup(old(s)@),
    ensures
        nodup(final(s)@),
        !final(s)@.contains(a),
        forall|b: AccountId| b != a ==> final(s)@.contains(b) == old(s)@.contains(b),
{
    let n = s.len();
    let mut i: usize = 0;
    while i < n
        invariant
            i <= n,
            n == s@.len(),
            *s == *old(s),
            nodup(s@),
            forall|k: int| 0 <= k < i ==> s@[k] != a,
        decreases n - i,
    {
        if s[i] == a {
            let ghost s0 = s@;
            let ghost ii = i as int;
            s.remove(i);
            proof {
                assert(s@ =~= s0.subrange(0, ii) + s0.subrange(ii + 1, s0.len() as int));
                assert forall|k: int| 0 <= k < s@.len() implies (if k < ii {
                    s@[k] == s0[k]
                } else {
                    s@[k] == s0[k + 1]
                }) by {}
                assert forall|k: int| 0 <= k < s@.len() implies s@[k] != a by {
                    if k >= ii {
                        assert(s0[k + 1] != s0[ii]);
                    }
                }
                assert(!s@.contains(a));
                assert forall|p: int, q: int| 0 <= p < q < s@.len() implies s@[p] != s@[q] by {}
                assert forall|b: AccountId| b != a implies s@.contains(b) == s0.contains(b) by {
                    if s@.contains(b) {
                        let k = choose|k: int| 0 <= k < s@.len() && s@[k] == b;
                        if k < ii {
                            assert(s0[k] == b);
                        } else {
                            assert(s0[k + 1] == b);
                        }
                    }
                    if s0.contains(b) {
                        let k = choose|k: int| 0 <= k < s0.len() && s0[k] == b;
                        if k < ii {
                            assert(s@[k] == b);
                        } else {
                            assert(k != ii);
                            assert(s@[k - 1] == b);
                        }
                    }
                }
            }
            return;
        }
        i = i + 1;
    }
}

} // verus!
