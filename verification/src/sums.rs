use vstd::prelude::*;
use vstd::set::fold::*;

verus! {

/// Adds the value that a map gives a key.
pub open spec fn adder<K>(m: Map<K, nat>) -> spec_fn(nat, K) -> nat {
    |acc: nat, k: K| acc + m[k]
}

/// The sum of the values of a finite map.
pub open spec fn total<K>(m: Map<K, nat>) -> nat {
    m.dom().fold(0nat, adder(m))
}

proof fn lemma_adder_commutative<K>(m: Map<K, nat>)
    ensures
        is_fun_commutative(adder(m)),
{
    assert forall|a1: K, a2: K, b: nat| #[trigger]
        adder(m)(adder(m)(b, a2), a1) == adder(m)(adder(m)(b, a1), a2) by {}
}

proof fn lemma_fold_agree<K>(s: Set<K>, m1: Map<K, nat>, m2: Map<K, nat>)
    requires
        s.finite(),
        forall|k: K| s.contains(k) ==> m1[k] == m2[k],
    ensures
        s.fold(0nat, adder(m1)) == s.fold(0nat, adder(m2)),
    decreases s.len(),
{
    lemma_adder_commutative(m1);
    lemma_adder_commutative(m2);
    if s.len() == 0 {
        assert(s =~= Set::<K>::empty());
        lemma_fold_empty::<K, nat>(0nat, adder(m1));
        lemma_fold_empty::<K, nat>(0nat, adder(m2));
    } else {
        let a = s.choose();
        let rest = s.remove(a);
        assert(rest.insert(a) =~= s);
        lemma_fold_agree(rest, m1, m2);
        lemma_fold_insert(rest, 0nat, adder(m1), a);
        lemma_fold_insert(rest, 0nat, adder(m2), a);
    }
}

/// A map without entries sums to nothing.
pub proof fn lemma_total_empty<K>()
    ensures
        total(Map::<K, nat>::empty()) == 0,
{
    lemma_fold_empty::<K, nat>(0nat, adder(Map::<K, nat>::empty()));
}

/// A new entry adds its value to the sum.
pub proof fn lemma_total_insert_fresh<K>(m: Map<K, nat>, k: K, v: nat)
    requires
        m.dom().finite(),
        !m.dom().contains(k),
    ensures
        total(m.insert(k, v)) == total(m) + v,
{
    let n = m.insert(k, v);
    lemma_adder_commutative(n);
    assert(n.dom() =~= m.dom().insert(k));
    lemma_fold_insert(m.dom(), 0nat, adder(n), k);
    lemma_fold_agree(m.dom(), n, m);
}

/// An entry that leaves takes its value from the sum.
pub proof fn lemma_total_remove<K>(m: Map<K, nat>, k: K)
    requires
        m.dom().finite(),
        m.dom().contains(k),
    ensures
        total(m) == total(m.remove(k)) + m[k],
{
    let r = m.remove(k);
    lemma_total_insert_fresh(r, k, m[k]);
    assert(r.insert(k, m[k]) =~= m);
}

/// The value that a map gives a key: nothing where it has no entry.
pub open spec fn value_at<K>(m: Map<K, nat>, k: K) -> nat {
    if m.dom().contains(k) {
        m[k]
    } else {
        0
    }
}

/// Writing an entry changes the sum by the change of its value.
pub proof fn lemma_total_put<K>(m: Map<K, nat>, k: K, v: nat)
    requires
        m.dom().finite(),
    ensures
        total(m.insert(k, v)) + value_at(m, k) == total(m) + v,
{
    if m.dom().contains(k) {
        lemma_total_remove(m, k);
        lemma_total_insert_fresh(m.remove(k), k, v);
        assert(m.remove(k).insert(k, v) =~= m.insert(k, v));
    } else {
        lemma_total_insert_fresh(m, k, v);
    }
}

/// Taking an entry out changes the sum by its value.
pub proof fn lemma_total_take<K>(m: Map<K, nat>, k: K)
    requires
        m.dom().finite(),
    ensures
        total(m.remove(k)) + value_at(m, k) == total(m),
{
    if m.dom().contains(k) {
        lemma_total_remove(m, k);
    } else {
        assert(m.remove(k) =~= m);
    }
}

/// No value exceeds the sum.
pub proof fn lemma_total_bounds<K>(m: Map<K, nat>, k: K)
    requires
        m.dom().finite(),
    ensures
        value_at(m, k) <= total(m),
{
    lemma_total_take(m, k);
}

} // verus!
