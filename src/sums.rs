use vstd::prelude::*;
use vstd::seq_lib::group_to_multiset_ensures;

verus! {

broadcast use vstd::multiset::group_multiset_axioms;

/// The sum of `f` over the items of `s`.
pub open spec fn sum_of<A>(s: Seq<A>, f: spec_fn(A) -> nat) -> nat
    decreases s.len(),
{
    if s.len() == 0 {
        0
    } else {
        sum_of(s.drop_last(), f) + f(s.last())
    }
}

/// Inserting an item anywhere adds its value to the sum.
pub proof fn lemma_sum_of_insert<A>(s: Seq<A>, i: int, x: A, f: spec_fn(A) -> nat)
    requires
        0 <= i <= s.len(),
    ensures
        sum_of(s.insert(i, x), f) == sum_of(s, f) + f(x),
    decreases s.len(),
{
    if i == s.len() {
        assert(s.insert(i, x).drop_last() =~= s);
    } else {
        lemma_sum_of_insert(s.drop_last(), i, x, f);
        assert(s.insert(i, x).drop_last() =~= s.drop_last().insert(i, x));
    }
}

/// Replacing one item changes the sum by the difference of the two values.
pub proof fn lemma_sum_of_update<A>(s: Seq<A>, i: int, x: A, f: spec_fn(A) -> nat)
    requires
        0 <= i < s.len(),
    ensures
        sum_of(s.update(i, x), f) + f(s[i]) == sum_of(s, f) + f(x),
        f(s[i]) <= sum_of(s, f),
{
    lemma_sum_of_insert(s.remove(i), i, x, f);
    lemma_sum_of_insert(s.remove(i), i, s[i], f);
    assert(s.remove(i).insert(i, x) =~= s.update(i, x));
    assert(s.remove(i).insert(i, s[i]) =~= s);
}

/// A prefix never sums to more than the whole sequence.
pub proof fn lemma_sum_of_prefix<A>(s: Seq<A>, n: int, f: spec_fn(A) -> nat)
    requires
        0 <= n <= s.len(),
    ensures
        sum_of(s.take(n), f) <= sum_of(s, f),
        n < s.len() ==> sum_of(s.take(n + 1), f) == sum_of(s.take(n), f) + f(s[n]),
    decreases s.len(),
{
    if n < s.len() {
        assert(s.take(n + 1).drop_last() =~= s.take(n));
        lemma_sum_of_prefix(s.drop_last(), n, f);
        assert(s.drop_last().take(n) =~= s.take(n));
    } else {
        assert(s.take(n) =~= s);
    }
}

/// Two sequences that hold the same items, in any order, have the same sum.
pub proof fn lemma_sum_of_permutation<A>(s1: Seq<A>, s2: Seq<A>, f: spec_fn(A) -> nat)
    requires
        s1.to_multiset() == s2.to_multiset(),
    ensures
        sum_of(s1, f) == sum_of(s2, f),
    decreases s1.len(),
{
    broadcast use group_to_multiset_ensures;

    if s1.len() == 0 {
        assert(s2.to_multiset().len() == 0);
    } else {
        let x = s1.last();
        let rest = s1.drop_last();
        assert(s1 =~= rest.push(x));
        assert(s2.to_multiset().count(x) > 0);
        assert(s2.contains(x));
        let i = choose|i: int| 0 <= i < s2.len() && s2[i] == x;
        let s2r = s2.remove(i);
        assert(s2r.to_multiset() == s2.to_multiset().remove(x));
        assert(rest.to_multiset() =~= rest.to_multiset().insert(x).remove(x));
        lemma_sum_of_permutation(rest, s2r, f);
        assert(s2r.insert(i, x) =~= s2);
        lemma_sum_of_insert(s2r, i, x, f);
    }
}

} // verus!
