//! Facts about filtered sequences that the board's proofs rest on.

use vstd::prelude::*;

verus! {

/// The opposite test: true exactly where `pred` is false.
pub open spec fn negated<A>(pred: spec_fn(A) -> bool) -> spec_fn(A) -> bool {
    |x: A| !pred(x)
}

/// A filtered sequence holds exactly the items of the sequence that pass the test.
pub proof fn lemma_filter_members<A>(s: Seq<A>, pred: spec_fn(A) -> bool)
    ensures
        forall|x: A| #[trigger] s.filter(pred).contains(x) <==> s.contains(x) && pred(x),
    decreases s.len(),
{
    reveal(Seq::filter);
    if s.len() > 0 {
        let head = s.drop_last();
        let last = s.last();
        lemma_filter_members(head, pred);
        assert forall|x: A| #[trigger] s.filter(pred).contains(x) <==> s.contains(x) && pred(
            x,
        ) by {
            if s.filter(pred).contains(x) {
                let i = choose|i: int| 0 <= i < s.filter(pred).len() && s.filter(pred)[i] == x;
                if pred(last) && i == head.filter(pred).len() {
                    assert(s[s.len() - 1] == x);
                } else {
                    assert(head.filter(pred)[i] == x);
                    assert(head.filter(pred).contains(x));
                    let j = choose|j: int| 0 <= j < head.len() && head[j] == x;
                    assert(s[j] == x);
                }
            }
            if s.contains(x) && pred(x) {
                let j = choose|j: int| 0 <= j < s.len() && s[j] == x;
                if j == s.len() - 1 {
                    assert(s.filter(pred)[head.filter(pred).len() as int] == x);
                } else {
                    assert(head[j] == x);
                    assert(head.filter(pred).contains(x));
                    let i = choose|i: int|
                        0 <= i < head.filter(pred).len() && head.filter(pred)[i] == x;
                    assert(s.filter(pred)[i] == x);
                }
            }
        }
    }
}

/// Filtering a sequence without repeats leaves a sequence without repeats.
pub proof fn lemma_filter_no_duplicates<A>(s: Seq<A>, pred: spec_fn(A) -> bool)
    requires
        s.no_duplicates(),
    ensures
        s.filter(pred).no_duplicates(),
    decreases s.len(),
{
    reveal(Seq::filter);
    if s.len() > 0 {
        let head = s.drop_last();
        lemma_filter_no_duplicates(head, pred);
        lemma_filter_members(head, pred);
        if pred(s.last()) {
            let kept = head.filter(pred);
            assert forall|i: int| 0 <= i < kept.len() implies kept[i] != s.last() by {
                assert(kept.contains(kept[i]));
                let j = choose|j: int| 0 <= j < head.len() && head[j] == kept[i];
                assert(s[j] == kept[i]);
            }
        }
    }
}

/// A test and its opposite split a sequence: the two filtered lengths add up
/// to the length of the whole.
pub proof fn lemma_filter_split<A>(s: Seq<A>, pred: spec_fn(A) -> bool)
    ensures
        s.filter(pred).len() + s.filter(negated(pred)).len() == s.len(),
    decreases s.len(),
{
    reveal(Seq::filter);
    if s.len() > 0 {
        lemma_filter_split(s.drop_last(), pred);
    }
}

} // verus!
