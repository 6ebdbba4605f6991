use vstd::prelude::*;

use crate::model::Modeled;
use crate::vec_map::VecMap;

verus! {

/// The amount a sparse map holds for `k`: absent keys hold zero.
pub open spec fn amount_of<K>(m: Map<K, u128>, k: K) -> u128 {
    if m.contains_key(k) {
        m[k]
    } else {
        0
    }
}

/// `m` with `k` set to `v`, where zero is stored as absence.
pub open spec fn with_amount<K>(m: Map<K, u128>, k: K, v: u128) -> Map<K, u128> {
    if v == 0 {
        m.remove(k)
    } else {
        m.insert(k, v)
    }
}

/// A sparse map holds no explicit zero.
pub open spec fn no_zero_entries<K>(m: Map<K, u128>) -> bool {
    forall|k: K| #[trigger] m.contains_key(k) ==> m[k] > 0
}

/// The sum of all amounts in a finite map.
pub open spec fn sum_of<K>(m: Map<K, u128>) -> int
    decreases m.dom().len(),
    when m.dom().finite()
{
    if m.dom().len() == 0 {
        0
    } else {
        let k = m.dom().choose();
        m[k] + sum_of(m.remove(k))
    }
}

/// `a + b`, or the largest `u128` where that does not fit.
pub open spec fn saturating_sum(a: u128, b: u128) -> u128 {
    if a + b > u128::MAX {
        u128::MAX
    } else {
        (a + b) as u128
    }
}

/// Taking one key out of a finite map takes its amount out of the sum.
pub proof fn lemma_sum_remove<K>(m: Map<K, u128>, k: K)
    requires
        m.dom().finite(),
        m.contains_key(k),
    ensures
        sum_of(m) == m[k] + sum_of(m.remove(k)),
    decreases m.dom().len(),
{
    assert(m.dom().len() != 0);
    let c = m.dom().choose();
    if c != k {
        lemma_sum_remove(m.remove(c), k);
        lemma_sum_remove(m.remove(k), c);
        assert(m.remove(c).remove(k) =~= m.remove(k).remove(c));
    }
}

/// A sum of amounts is never negative.
pub proof fn lemma_sum_nonneg<K>(m: Map<K, u128>)
    requires
        m.dom().finite(),
    ensures
        sum_of(m) >= 0,
    decreases m.dom().len(),
{
    if m.dom().len() != 0 {
        let c = m.dom().choose();
        lemma_sum_nonneg(m.remove(c));
    }
}

/// Setting one key moves the sum by the difference of its amounts.
pub proof fn lemma_sum_with_amount<K>(m: Map<K, u128>, k: K, v: u128)
    requires
        m.dom().finite(),
    ensures
        with_amount(m, k, v).dom().finite(),
        sum_of(with_amount(m, k, v)) == sum_of(m) - amount_of(m, k) + v,
{
    if m.contains_key(k) {
        lemma_sum_remove(m, k);
        if v != 0 {
            lemma_sum_remove(m.insert(k, v), k);
            assert(m.insert(k, v).remove(k) =~= m.remove(k));
        }
    } else {
        if v == 0 {
            assert(m.remove(k) =~= m);
        } else {
            lemma_sum_remove(m.insert(k, v), k);
            assert(m.insert(k, v).remove(k) =~= m);
        }
    }
}

/// One key holds no more than the whole sum.
pub proof fn lemma_sum_bounds_one<K>(m: Map<K, u128>, a: K)
    requires
        m.dom().finite(),
    ensures
        amount_of(m, a) <= sum_of(m),
{
    lemma_sum_with_amount(m, a, 0);
    lemma_sum_nonneg(with_amount(m, a, 0));
}

/// Two distinct keys together hold no more than the whole sum.
pub proof fn lemma_sum_bounds_pair<K>(m: Map<K, u128>, a: K, b: K)
    requires
        m.dom().finite(),
        a != b,
    ensures
        amount_of(m, a) + amount_of(m, b) <= sum_of(m),
{
    lemma_sum_with_amount(m, a, 0);
    let m1 = with_amount(m, a, 0);
    lemma_sum_bounds_one(m1, b);
    assert(amount_of(m1, b) == amount_of(m, b));
}

/// The amount stored for `k`, zero where none is.
pub fn read_amount<K: Modeled>(m: &VecMap<K, u128>, k: &K) -> (r: u128)
    requires
        m.wf(),
    ensures
        r == amount_of(m@, k.model()),
{
    match m.get(k) {
        Some(v) => *v,
        None => 0,
    }
}

/// Stores `v` for `k`, removing the entry where `v` is zero.
pub fn write_amount<K: Modeled>(m: &mut VecMap<K, u128>, k: K, v: u128)
    requires
        old(m).wf(),
    ensures
        final(m).wf(),
        final(m)@ == with_amount(old(m)@, k.model(), v),
{
    if v == 0 {
        let _ = m.remove(&k);
    } else {
        m.insert(k, v);
    }
}

} // verus!
