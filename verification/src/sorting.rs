//! Sorting identifiers, and reading the keys of a hash map in a fixed
//! order.

use std::collections::HashMap;
use vstd::prelude::*;

verus! {

/// The sequence rises, with equal neighbours allowed.
pub open spec fn rising(s: Seq<u64>) -> bool {
    forall|i: int, j: int| 0 <= i < j < s.len() ==> s[i] <= s[j]
}

/// The sequence rises strictly.
pub open spec fn strictly_rising(s: Seq<u64>) -> bool {
    forall|i: int, j: int| 0 <= i < j < s.len() ==> s[i] < s[j]
}

/// Sequences with the same elements, each as often, have the same set of
/// elements, and both or neither are free of duplicates.
pub proof fn same_elements(a: Seq<u64>, b: Seq<u64>)
    requires
        a.to_multiset() == b.to_multiset(),
    ensures
        a.len() == b.len(),
        a.to_set() == b.to_set(),
        a.no_duplicates() == b.no_duplicates(),
        forall|x: u64| a.contains(x) == b.contains(x),
{
    broadcast use vstd::seq_lib::group_to_multiset_ensures;

    a.to_multiset_ensures();
    b.to_multiset_ensures();
    assert(a.len() == b.len()) by {
        assert(a.to_multiset().len() == b.to_multiset().len());
    }
    assert forall|x: u64| a.contains(x) == b.contains(x) by {
        vstd::seq_lib::to_multiset_contains(a, x);
        vstd::seq_lib::to_multiset_contains(b, x);
    }
    assert(a.to_set() =~= b.to_set());
    if a.no_duplicates() {
        a.lemma_multiset_has_no_duplicates();
        b.lemma_multiset_has_no_duplicates_conv();
    }
    if b.no_duplicates() {
        b.lemma_multiset_has_no_duplicates();
        a.lemma_multiset_has_no_duplicates_conv();
    }
}

/// A rising sequence without duplicates rises strictly.
pub proof fn rising_without_duplicates(s: Seq<u64>)
    requires
        rising(s),
        s.no_duplicates(),
    ensures
        strictly_rising(s),
{
}

/// Two strictly rising sequences with the same elements are the same.
pub proof fn strictly_rising_unique(a: Seq<u64>, b: Seq<u64>)
    requires
        strictly_rising(a),
        strictly_rising(b),
        forall|x: u64| a.contains(x) == b.contains(x),
    ensures
        a == b,
    decreases a.len(),
{
    if a.len() == 0 {
        if b.len() > 0 {
            assert(b.contains(b[0]));
        }
        assert(a =~= b);
    } else if b.len() == 0 {
        assert(a.contains(a[0]));
    } else {
        // The greatest elements agree, then the rest by induction.
        let x = a.last();
        let y = b.last();
        assert(a.contains(x));
        assert(b.contains(y));
        let i = choose|i: int| 0 <= i < b.len() && b[i] == x;
        let j = choose|j: int| 0 <= j < a.len() && a[j] == y;
        assert(x == y);
        let a2 = a.drop_last();
        let b2 = b.drop_last();
        assert forall|z: u64| a2.contains(z) == b2.contains(z) by {
            if a2.contains(z) {
                let k = choose|k: int| 0 <= k < a2.len() && a2[k] == z;
                assert(a[k] == z);
                assert(a.contains(z));
                let l = choose|l: int| 0 <= l < b.len() && b[l] == z;
                assert(z < x);
                assert(l < b.len() - 1);
                assert(b2[l] == z);
            }
            if b2.contains(z) {
                let k = choose|k: int| 0 <= k < b2.len() && b2[k] == z;
                assert(b[k] == z);
                assert(b.contains(z));
                let l = choose|l: int| 0 <= l < a.len() && a[l] == z;
                assert(z < y);
                assert(l < a.len() - 1);
                assert(a2[l] == z);
            }
        }
        strictly_rising_unique(a2, b2);
        assert(a =~= a2.push(x));
        assert(b =~= b2.push(y));
    }
}

/// Sorts identifiers into rising order.
pub fn sort_ids(ids: Vec<u64>) -> (sorted: Vec<u64>)
    ensures
        rising(sorted@),
        sorted@.to_multiset() == ids@.to_multiset(),
        sorted@.len() == ids@.len(),
        sorted@.to_set() == ids@.to_set(),
        ids@.no_duplicates() ==> strictly_rising(sorted@) && sorted@.no_duplicates(),
{
    broadcast use vstd::seq_lib::group_to_multiset_ensures;

    let mut rest = ids;
    let mut sorted: Vec<u64> = Vec::new();
    assert(sorted@.to_multiset().add(rest@.to_multiset()) =~= ids@.to_multiset());
    while rest.len() > 0
        invariant
            rising(sorted@),
            forall|i: int, j: int|
                0 <= i < sorted@.len() && 0 <= j < rest@.len() ==> sorted@[i] <= rest@[j],
            sorted@.to_multiset().add(rest@.to_multiset()) == ids@.to_multiset(),
        decreases rest@.len(),
    {
        let mut at: usize = 0;
        let mut k: usize = 1;
        while k < rest.len()
            invariant
                at < rest@.len(),
                1 <= k <= rest@.len(),
                forall|j: int| 0 <= j < k ==> rest@[at as int] <= rest@[j],
            decreases rest@.len() - k,
        {
            if rest[k] < rest[at] {
                at = k;
            }
            k += 1;
        }
        let ghost before = rest@;
        let ghost done = sorted@;
        let least = rest.remove(at);
        sorted.push(least);
        proof {
            assert(rest@ == before.remove(at as int));
            before.to_multiset_ensures();
            done.to_multiset_ensures();
            vstd::seq_lib::to_multiset_remove(before, at as int);
            vstd::seq_lib::to_multiset_build(done, least);
            assert(rest@.to_multiset() =~= before.to_multiset().remove(least));
            assert(sorted@.to_multiset() =~= done.to_multiset().insert(least));
            assert(before.to_multiset().count(least) > 0) by {
                assert(before[at as int] == least);
                assert(before.contains(least));
                vstd::seq_lib::to_multiset_contains(before, least);
            }
            assert(sorted@.to_multiset().add(rest@.to_multiset()) =~= done.to_multiset().add(
                before.to_multiset(),
            ));
            assert forall|i: int, j: int|
                0 <= i < sorted@.len() && 0 <= j < rest@.len() implies sorted@[i] <= rest@[j] by {
                if j < at {
                    assert(rest@[j] == before[j]);
                } else {
                    assert(rest@[j] == before[j + 1]);
                }
            }
        }
    }
    proof {
        rest@.to_multiset_ensures();
        assert(rest@ =~= Seq::<u64>::empty());
        assert(rest@.to_multiset() =~= vstd::multiset::Multiset::<u64>::empty());
        assert(sorted@.to_multiset() =~= ids@.to_multiset());
        same_elements(sorted@, ids@);
        if ids@.no_duplicates() {
            rising_without_duplicates(sorted@);
        }
    }
    sorted
}

/// A sequence of identifiers sorted into rising order.
pub open spec fn sort_seq(s: Seq<u64>) -> Seq<u64> {
    s.sort_by(|a: u64, b: u64| a <= b)
}

/// A sorted sequence rises and holds the same elements.
pub proof fn sort_seq_facts(s: Seq<u64>)
    ensures
        rising(sort_seq(s)),
        sort_seq(s).to_multiset() == s.to_multiset(),
        sort_seq(s).to_set() == s.to_set(),
        s.no_duplicates() ==> strictly_rising(sort_seq(s)),
{
    let leq = |a: u64, b: u64| a <= b;
    assert(vstd::relations::total_ordering(leq));
    s.lemma_sort_by_ensures(leq);
    let sorted = sort_seq(s);
    assert(vstd::relations::sorted_by(sorted, leq));
    assert forall|i: int, j: int| 0 <= i < j < sorted.len() implies sorted[i] <= sorted[j] by {
        assert(leq(sorted[i], sorted[j]));
    }
    same_elements(sorted, s);
    if s.no_duplicates() {
        rising_without_duplicates(sorted);
    }
}

/// The listing of a finite set names no element twice.
pub proof fn to_seq_no_duplicates(s: Set<u64>)
    requires
        s.finite(),
    ensures
        s.to_seq().no_duplicates(),
        s.to_seq().to_set() == s,
    decreases s.len(),
{
    s.lemma_to_seq_to_set_id();
    if s.len() > 0 {
        let x = choose|x: u64| s.contains(x);
        let rest = s.remove(x);
        to_seq_no_duplicates(rest);
        let listed = rest.to_seq();
        assert(s.to_seq() == Seq::<u64>::empty().push(x) + listed);
        assert forall|i: int, j: int| 0 <= i < j < s.to_seq().len() implies s.to_seq()[i]
            != s.to_seq()[j] by {
            if i == 0 {
                assert(s.to_seq()[j] == listed[j - 1]);
                assert(listed.to_set().contains(listed[j - 1]));
            } else {
                assert(s.to_seq()[i] == listed[i - 1]);
                assert(s.to_seq()[j] == listed[j - 1]);
            }
        }
    }
}

/// The elements of a set in rising order.
pub open spec fn rising_of(set: Set<u64>) -> Seq<u64> {
    choose|s: Seq<u64>| strictly_rising(s) && s.to_set() == set
}

/// A strictly rising sequence is the rising order of its elements.
pub proof fn rising_of_is(set: Set<u64>, s: Seq<u64>)
    requires
        strictly_rising(s),
        s.to_set() == set,
    ensures
        rising_of(set) == s,
        s.no_duplicates(),
        forall|k: u64| s.contains(k) == set.contains(k),
        set.finite(),
        s.len() == set.len(),
{
    let r = rising_of(set);
    assert(strictly_rising(r) && r.to_set() == set);
    assert forall|x: u64| r.contains(x) == s.contains(x) by {
        assert(r.to_set().contains(x) == s.to_set().contains(x));
    }
    strictly_rising_unique(r, s);
    assert forall|k: u64| s.contains(k) == set.contains(k) by {
        assert(s.to_set().contains(k) == set.contains(k));
    }
    s.unique_seq_to_set();
    vstd::seq_lib::seq_to_set_is_finite(s);
}

/// Every finite set has a rising order.
pub proof fn rising_of_facts(set: Set<u64>)
    requires
        set.finite(),
    ensures
        strictly_rising(rising_of(set)),
        rising_of(set).to_set() == set,
        rising_of(set).no_duplicates(),
        rising_of(set).len() == set.len(),
        forall|k: u64| rising_of(set).contains(k) == set.contains(k),
{
    to_seq_no_duplicates(set);
    let listed = sort_seq(set.to_seq());
    sort_seq_facts(set.to_seq());
    rising_of_is(set, listed);
}

/// The keys of a map in rising order.
pub open spec fn rising_keys<V>(m: Map<u64, V>) -> Seq<u64> {
    rising_of(m.dom())
}

/// The rising keys of a map are exactly its keys, each once.
pub proof fn rising_keys_are<V>(m: Map<u64, V>, s: Seq<u64>)
    requires
        strictly_rising(s),
        s.to_set() == m.dom(),
    ensures
        rising_keys(m) == s,
        s.no_duplicates(),
        forall|k: u64| s.contains(k) == m.contains_key(k),
        s.len() == m.dom().len(),
{
    rising_of_is(m.dom(), s);
}

/// Drops repeated neighbours from a rising list.
pub fn dedup_sorted(ids: Vec<u64>) -> (distinct: Vec<u64>)
    requires
        rising(ids@),
    ensures
        distinct@ == rising_of(ids@.to_set()),
        strictly_rising(distinct@),
        distinct@.to_set() == ids@.to_set(),
        distinct@.len() <= ids@.len(),
        ids@.no_duplicates() ==> distinct@ == ids@,
{
    let mut distinct: Vec<u64> = Vec::new();
    let mut i: usize = 0;
    while i < ids.len()
        invariant
            i <= ids@.len(),
            rising(ids@),
            strictly_rising(distinct@),
            distinct@.len() <= i,
            distinct@.to_set() == ids@.take(i as int).to_set(),
            i > 0 ==> distinct@.len() > 0 && distinct@.last() == ids@[i - 1],
            ids@.no_duplicates() ==> distinct@ == ids@.take(i as int),
        decreases ids@.len() - i,
    {
        let x = ids[i];
        let ghost before = distinct@;
        let ghost seen = ids@.take(i as int);
        let fresh = distinct.len() == 0 || distinct[distinct.len() - 1] != x;
        if fresh {
            distinct.push(x);
        }
        proof {
            let now = ids@.take(i + 1);
            assert(now =~= seen.push(x));
            assert forall|y: u64| distinct@.to_set().contains(y) == now.to_set().contains(y) by {
                assert(before.to_set().contains(y) == seen.to_set().contains(y));
                if now.contains(y) {
                    let k = choose|k: int| 0 <= k < now.len() && now[k] == y;
                    if k < i {
                        assert(seen[k] == y);
                        assert(seen.contains(y));
                        assert(before.contains(y));
                        let l = choose|l: int| 0 <= l < before.len() && before[l] == y;
                        assert(distinct@[l] == y);
                    } else {
                        if fresh {
                            assert(distinct@[distinct@.len() - 1] == y);
                        } else {
                            assert(before[before.len() - 1] == y);
                            assert(distinct@[before.len() - 1] == y);
                        }
                    }
                }
                if distinct@.contains(y) {
                    let l = choose|l: int| 0 <= l < distinct@.len() && distinct@[l] == y;
                    if l < before.len() {
                        assert(before[l] == y);
                        assert(before.contains(y));
                        assert(seen.contains(y));
                        let k = choose|k: int| 0 <= k < seen.len() && seen[k] == y;
                        assert(now[k] == y);
                    } else {
                        assert(now[i as int] == y);
                    }
                }
            }
            assert(distinct@.to_set() =~= now.to_set());
            if fresh && before.len() > 0 {
                assert(before.last() == ids@[i - 1]);
                assert(ids@[i - 1] <= x);
            }
            if ids@.no_duplicates() {
                if i > 0 {
                    assert(ids@[i - 1] != ids@[i as int]);
                }
                assert(distinct@ =~= now);
            }
        }
        i += 1;
    }
    proof {
        assert(ids@.take(ids@.len() as int) =~= ids@);
        rising_of_is(ids@.to_set(), distinct@);
    }
    distinct
}

/// The keys of a hash map, sorted into rising order.
pub fn sorted_keys<V>(m: &HashMap<u64, V>) -> (keys: Vec<u64>)
    ensures
        keys@ == rising_keys(m@),
        strictly_rising(keys@),
        keys@.no_duplicates(),
        keys@.len() == m@.dom().len(),
        forall|k: u64| keys@.contains(k) == m@.contains_key(k),
{
    broadcast use vstd::std_specs::hash::group_hash_axioms;
    broadcast use vstd::std_specs::hash::axiom_spec_keys_iter;

    let mut keys: Vec<u64> = Vec::new();
    for k in it: m.keys()
        invariant
            keys@.len() == it.index(),
            it.seq().unref().to_set() == m@.dom(),
            it.seq().no_duplicates(),
            keys@.no_duplicates(),
            keys@ =~= it.seq().unref().take(it.index()),
            it.index() == it.seq().len() ==> keys@.to_set() == m@.dom(),
    {
        keys.push(*k);
        proof {
            let s = it.seq().unref();
            assert(s.take(it.index() + 1) =~= s.take(it.index()).push(s[it.index()]));
            assert(s.take(s.len() as int) =~= s);
        }
    }
    let sorted = sort_ids(keys);
    proof {
        rising_keys_are(m@, sorted@);
    }
    sorted
}

} // verus!
