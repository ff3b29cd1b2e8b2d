//! Candidate ordering by observed selection counts.
use vstd::prelude::*;
use crate::frequency::{get_score, score_in, table_wf, ScoreTable};
use crate::ranking::{lemma_insert_at, stable_rank};
use crate::strmap::StrMap;
use crate::text::{string_views, to_owned_string};

verus! {

/// Counts how often each candidate was chosen for a midashi.
pub struct BayesianPredictor {
    /// midashi → (candidate → count)
    pub frequencies: ScoreTable,
    /// Where the counts are kept.
    pub storage_path: Option<std::path::PathBuf>,
}

/// The count of `cand` for `midashi`, zero when unknown.
pub open spec fn count_of(t: Map<Seq<char>, Map<Seq<char>, u64>>, midashi: Seq<char>, cand: Seq<char>) -> nat {
    if t.contains_key(midashi) {
        score_in(t[midashi], cand)
    } else {
        0
    }
}

impl BayesianPredictor {
    /// Keys are distinct at both levels.
    pub open spec fn wf(&self) -> bool {
        table_wf(self.frequencies)
    }

    /// No observations yet; counts are kept at `storage_path`.
    pub fn new(storage_path: Option<std::path::PathBuf>) -> (p: Self)
        ensures
            p.wf(),
            p.frequencies@ == Map::<Seq<char>, Map<Seq<char>, u64>>::empty(),
            p.storage_path == storage_path,
    {
        BayesianPredictor { frequencies: StrMap::new(), storage_path }
    }

    /// Records that `candidate` was chosen for `midashi`.
    pub fn observe(&mut self, midashi: &str, candidate: &str)
        requires
            old(self).wf(),
            count_of(old(self).frequencies@, midashi@, candidate@) < u64::MAX,
        ensures
            final(self).wf(),
            final(self).storage_path == old(self).storage_path,
            final(self).frequencies@ == old(self).frequencies@.insert(
                midashi@,
                (if old(self).frequencies@.contains_key(midashi@) {
                    old(self).frequencies@[midashi@]
                } else {
                    Map::empty()
                }).insert(candidate@, (count_of(old(self).frequencies@, midashi@, candidate@) + 1) as u64),
            ),
    {
        let mut entry = match self.frequencies.remove(midashi) {
            Some(e) => e,
            None => StrMap::new(),
        };
        let cur = get_score(&entry, candidate);
        entry.insert(to_owned_string(candidate), cur + 1);
        self.frequencies.insert(to_owned_string(midashi), entry);
        proof {
            assert forall|x: StrMap<u64>| #[trigger] self.frequencies.raw_vals().contains(x) implies x.wf() by {}
        }
    }

    /// The ranking score function: the candidate's count for `midashi`.
    pub open spec fn count_score(&self, midashi: Seq<char>) -> spec_fn(Seq<char>) -> int {
        |c: Seq<char>| count_of(self.frequencies@, midashi, c) as int
    }

    /// Orders `candidates` by descending count; equal counts keep their order.
    pub fn rank_candidates(&self, midashi: &str, candidates: &[String]) -> (r: Vec<String>)
        requires
            self.wf(),
        ensures
            string_views(r@) == stable_rank(string_views(candidates@), self.count_score(midashi@)),
    {
        let ghost f = self.count_score(midashi@);
        let ghost views = string_views(candidates@);
        let freq_map = self.frequencies.get(midashi);
        let mut ranked: Vec<String> = Vec::new();
        let mut counts: Vec<u64> = Vec::new();
        let mut i: usize = 0;
        while i < candidates.len()
            invariant
                self.wf(),
                0 <= i <= candidates.len(),
                views == string_views(candidates@),
                f == self.count_score(midashi@),
                freq_map is Some <==> self.frequencies@.contains_key(midashi@),
                freq_map matches Some(m) ==> m@ == self.frequencies@[midashi@] && m.wf(),
                string_views(ranked@) == stable_rank(views.take(i as int), f),
                counts@.len() == ranked@.len(),
                forall|j: int| 0 <= j < counts@.len() ==> counts@[j] as int == f(#[trigger] ranked@[j]@),
            decreases candidates.len() - i,
        {
            let cand = &candidates[i];
            assert(views[i as int] == cand@);
            let c: u64 = match freq_map {
                Some(m) => get_score(m, cand.as_str()),
                None => 0,
            };
            let mut j: usize = ranked.len();
            while j > 0 && counts[j - 1] < c
                invariant
                    0 <= j <= ranked@.len(),
                    counts@.len() == ranked@.len(),
                    forall|k: int| j <= k < counts@.len() ==> counts@[k] < c,
                decreases j,
            {
                j = j - 1;
            }
            let ghost before = string_views(ranked@);
            proof {
                assert forall|k: int| j <= k < before.len() implies f(before[k]) < f(cand@) by {
                    assert(before[k] == ranked@[k]@);
                    assert(counts@[k] as int == f(ranked@[k]@));
                }
                if j > 0 {
                    assert(before[j - 1] == ranked@[j - 1]@);
                    assert(counts@[j - 1] as int == f(ranked@[j - 1]@));
                }
                lemma_insert_at(before, cand@, f, j as int);
                assert(views.take(i + 1).drop_last() =~= views.take(i as int));
            }
            let ghost old_counts = counts@;
            let ghost old_ranked = ranked@;
            ranked.insert(j, to_owned_string(cand.as_str()));
            counts.insert(j, c);
            proof {
                assert(string_views(ranked@) =~= before.insert(j as int, cand@));
                assert forall|k: int| 0 <= k < counts@.len() implies counts@[k] as int == f(
                    #[trigger] ranked@[k]@,
                ) by {
                    if k < j {
                        assert(counts@[k] == old_counts[k] && ranked@[k] == old_ranked[k]);
                    } else if k > j {
                        assert(counts@[k] == old_counts[k - 1] && ranked@[k] == old_ranked[k - 1]);
                    }
                }
            }
            i = i + 1;
        }
        assert(views.take(candidates.len() as int) =~= views);
        ranked
    }
}

} // verus!
