//! Facts about sequences that the proofs of the library share.

use vstd::prelude::*;

verus! {

/// Filtering one element more: the element is appended where it passes.
pub proof fn filter_step<A>(s: Seq<A>, pred: spec_fn(A) -> bool, i: int)
    requires
        0 <= i < s.len(),
    ensures
        s.take(i + 1).filter(pred) == if pred(s[i]) {
            s.take(i).filter(pred).push(s[i])
        } else {
            s.take(i).filter(pred)
        },
        s.take(i).filter(pred).len() <= i,
{
    let longer = s.take(i + 1);
    assert(longer.drop_last() =~= s.take(i));
    assert(longer.last() == s[i]);
    reveal_with_fuel(Seq::filter, 2);
    s.take(i).lemma_filter_len(pred);
}

/// A sequence taken to its full length is the sequence.
pub proof fn take_all<A>(s: Seq<A>)
    ensures
        s.take(s.len() as int) == s,
{
    assert(s.take(s.len() as int) =~= s);
}

/// Every element of a filtered sequence passes the test and comes from the
/// sequence; every element of the sequence that passes is kept; the filtered
/// sequence is no longer than the sequence.
pub proof fn filter_facts<A>(s: Seq<A>, pred: spec_fn(A) -> bool)
    ensures
        s.filter(pred).len() <= s.len(),
        forall|i: int|
            0 <= i < s.filter(pred).len() ==> pred(#[trigger] s.filter(pred)[i]) && s.contains(
                s.filter(pred)[i],
            ),
        forall|i: int| 0 <= i < s.len() && pred(s[i]) ==> #[trigger] s.filter(pred).contains(s[i]),
    decreases s.len(),
{
    broadcast use vstd::seq_lib::group_filter_ensures;

    reveal(Seq::filter);
    if s.len() > 0 {
        let shorter = s.drop_last();
        filter_facts(shorter, pred);
        let sub = shorter.filter(pred);
        assert forall|i: int| 0 <= i < s.filter(pred).len() implies s.contains(
            #[trigger] s.filter(pred)[i],
        ) by {
            if i < sub.len() {
                assert(s.filter(pred)[i] == sub[i]);
                assert(shorter.contains(sub[i]));
                let j = choose|j: int| 0 <= j < shorter.len() && shorter[j] == sub[i];
                assert(s[j] == sub[i]);
            } else {
                assert(s.filter(pred)[i] == s.last());
                assert(s[s.len() - 1] == s.last());
            }
        }
    }
}

/// Filtering keeps a sequence free of duplicates.
pub proof fn filter_no_duplicates<A>(s: Seq<A>, pred: spec_fn(A) -> bool)
    requires
        s.no_duplicates(),
    ensures
        s.filter(pred).no_duplicates(),
    decreases s.len(),
{
    reveal(Seq::filter);
    if s.len() > 0 {
        let shorter = s.drop_last();
        assert(shorter.no_duplicates());
        filter_no_duplicates(shorter, pred);
        filter_facts(shorter, pred);
        let sub = shorter.filter(pred);
        if pred(s.last()) {
            assert forall|i: int, j: int|
                0 <= i < sub.len() + 1 && 0 <= j < sub.len() + 1 && i != j implies sub.push(
                s.last(),
            )[i] != sub.push(s.last())[j] by {
                if i < sub.len() && j < sub.len() {
                } else if i < sub.len() {
                    assert(shorter.contains(sub[i]));
                    let k = choose|k: int| 0 <= k < shorter.len() && shorter[k] == sub[i];
                    assert(s[k] == sub[i]);
                } else {
                    assert(shorter.contains(sub[j]));
                    let k = choose|k: int| 0 <= k < shorter.len() && shorter[k] == sub[j];
                    assert(s[k] == sub[j]);
                }
            }
        }
    }
}

/// Filtering keeps a strictly rising sequence strictly rising.
pub proof fn filter_rising(s: Seq<u64>, pred: spec_fn(u64) -> bool)
    requires
        crate::sorting::strictly_rising(s),
    ensures
        crate::sorting::strictly_rising(s.filter(pred)),
    decreases s.len(),
{
    reveal(Seq::filter);
    if s.len() > 0 {
        let shorter = s.drop_last();
        filter_rising(shorter, pred);
        filter_facts(shorter, pred);
        let sub = shorter.filter(pred);
        if pred(s.last()) {
            assert forall|i: int, j: int| 0 <= i < j < sub.len() + 1 implies sub.push(s.last())[i]
                < sub.push(s.last())[j] by {
                if j == sub.len() {
                    assert(shorter.contains(sub[i]));
                    let k = choose|k: int| 0 <= k < shorter.len() && shorter[k] == sub[i];
                    assert(s[k] == sub[i]);
                }
            }
        }
    }
}

/// Tests that agree on every element of a sequence keep the same
/// elements.
pub proof fn filter_agrees<A>(s: Seq<A>, p: spec_fn(A) -> bool, q: spec_fn(A) -> bool)
    requires
        forall|i: int| 0 <= i < s.len() ==> p(#[trigger] s[i]) == q(s[i]),
    ensures
        s.filter(p) == s.filter(q),
    decreases s.len(),
{
    reveal(Seq::filter);
    if s.len() > 0 {
        let shorter = s.drop_last();
        assert forall|i: int| 0 <= i < shorter.len() implies p(#[trigger] shorter[i]) == q(
            shorter[i],
        ) by {
            assert(shorter[i] == s[i]);
        }
        filter_agrees(shorter, p, q);
        assert(p(s[s.len() - 1]) == q(s[s.len() - 1]));
    }
}

} // verus!
