//! Stable ordering of a sequence by a score, highest first.
use vstd::prelude::*;
use vstd::multiset::Multiset;

verus! {

broadcast use vstd::seq_lib::group_to_multiset_ensures;

/// `x` inserted into `sorted` after every element whose score is at least
/// the score of `x`, and before the others.
pub open spec fn insert_by_score<T>(sorted: Seq<T>, x: T, score: spec_fn(T) -> int) -> Seq<T>
    decreases sorted.len(),
{
    if sorted.len() == 0 {
        seq![x]
    } else if score(sorted.last()) >= score(x) {
        sorted.push(x)
    } else {
        insert_by_score(sorted.drop_last(), x, score).push(sorted.last())
    }
}

/// `s` ordered by descending score; elements of equal score keep their
/// relative order (a stable sort).
pub open spec fn stable_rank<T>(s: Seq<T>, score: spec_fn(T) -> int) -> Seq<T>
    decreases s.len(),
{
    if s.len() == 0 {
        s
    } else {
        insert_by_score(stable_rank(s.drop_last(), score), s.last(), score)
    }
}

/// Scores never increase along `s`.
pub open spec fn is_score_sorted<T>(s: Seq<T>, score: spec_fn(T) -> int) -> bool {
    forall|i: int, j: int| 0 <= i < j < s.len() ==> score(s[i]) >= score(s[j])
}

/// Inserting where the scan from the end stops is `insert_by_score`.
pub proof fn lemma_insert_at<T>(sorted: Seq<T>, x: T, score: spec_fn(T) -> int, j: int)
    requires
        0 <= j <= sorted.len(),
        forall|k: int| j <= k < sorted.len() ==> score(sorted[k]) < score(x),
        j == 0 || score(sorted[j - 1]) >= score(x),
    ensures
        insert_by_score(sorted, x, score) == sorted.insert(j, x),
    decreases sorted.len(),
{
    if sorted.len() == 0 {
        assert(sorted.insert(j, x) =~= seq![x]);
    } else if j == sorted.len() {
        assert(sorted.insert(j, x) =~= sorted.push(x));
    } else {
        assert(score(sorted[sorted.len() - 1]) < score(x));
        lemma_insert_at(sorted.drop_last(), x, score, j);
        assert(sorted.drop_last().insert(j, x).push(sorted.last()) =~= sorted.insert(j, x));
    }
}

pub proof fn lemma_insert_sorted<T>(sorted: Seq<T>, x: T, score: spec_fn(T) -> int)
    requires
        is_score_sorted(sorted, score),
    ensures
        is_score_sorted(insert_by_score(sorted, x, score), score),
        insert_by_score(sorted, x, score).len() == sorted.len() + 1,
        insert_by_score(sorted, x, score).to_multiset() == sorted.to_multiset().insert(x),
    decreases sorted.len(),
{
    if sorted.len() == 0 {
        assert(seq![x].to_multiset() =~= Multiset::<T>::empty().insert(x)) by {
            assert(seq![x] =~= Seq::<T>::empty().push(x));
        }
    } else if score(sorted.last()) >= score(x) {
        let r = sorted.push(x);
        assert forall|i: int, j: int| 0 <= i < j < r.len() implies score(r[i]) >= score(r[j]) by {
            if j == sorted.len() {
                assert(score(sorted[i]) >= score(sorted[sorted.len() - 1]));
            }
        }
    } else {
        let d = sorted.drop_last();
        assert(is_score_sorted(d, score));
        lemma_insert_sorted(d, x, score);
        let t = insert_by_score(d, x, score);
        let r = t.push(sorted.last());
        assert forall|i: int, j: int| 0 <= i < j < r.len() implies score(r[i]) >= score(r[j]) by {
            if j == t.len() {
                // every element of t is x or an element of d, all scoring at least sorted.last()
                assert(t.to_multiset().count(t[i]) > 0);
                assert(t.to_multiset() == d.to_multiset().insert(x));
                if t[i] != x {
                    assert(d.to_multiset().count(t[i]) > 0);
                    assert(d.contains(t[i]));
                    let k = choose|k: int| 0 <= k < d.len() && d[k] == t[i];
                    assert(score(sorted[k]) >= score(sorted[sorted.len() - 1]));
                }
            }
        }
        assert(sorted =~= d.push(sorted.last()));
        assert(d.push(sorted.last()).to_multiset() == d.to_multiset().insert(sorted.last()));
    }
}

/// The ranked sequence is sorted by score and is a permutation of the input.
pub proof fn lemma_stable_rank_sorted<T>(s: Seq<T>, score: spec_fn(T) -> int)
    ensures
        is_score_sorted(stable_rank(s, score), score),
        stable_rank(s, score).len() == s.len(),
        stable_rank(s, score).to_multiset() == s.to_multiset(),
    decreases s.len(),
{
    if s.len() > 0 {
        lemma_stable_rank_sorted(s.drop_last(), score);
        lemma_insert_sorted(stable_rank(s.drop_last(), score), s.last(), score);
        assert(s =~= s.drop_last().push(s.last()));
        assert(s.drop_last().push(s.last()).to_multiset() == s.drop_last().to_multiset().insert(
            s.last(),
        ));
    }
}

/// When every element has the same score the order is kept.
pub proof fn lemma_stable_rank_equal_scores<T>(s: Seq<T>, score: spec_fn(T) -> int)
    requires
        forall|i: int, j: int| 0 <= i < s.len() && 0 <= j < s.len() ==> score(s[i]) == score(s[j]),
    ensures
        stable_rank(s, score) == s,
    decreases s.len(),
{
    if s.len() > 0 {
        lemma_stable_rank_equal_scores(s.drop_last(), score);
        if s.len() > 1 {
            assert(score(s.drop_last().last()) == score(s.last()));
        }
        assert(s.drop_last().push(s.last()) =~= s);
    }
}

} // verus!
