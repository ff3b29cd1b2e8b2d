//! Prefix aliases of seed keys. A candidate `切る` is also found as `切`,
//! with the highest score of the keys that the prefix abbreviates, so that
//! lookups need a single map access at ranking time.
use vstd::prelude::*;
use crate::frequency::{CandidateScores, ScoreTable, TableView, table_wf};
use crate::strmap::StrMap;
use crate::text::{chars_eq, chars_of, lemma_take_contains, starts_with_chars, to_owned_string};

verus! {

/// `p` is a non-empty prefix of `k`, shorter than `k`.
pub open spec fn proper_prefix(p: Seq<char>, k: Seq<char>) -> bool {
    0 < p.len() < k.len() && k.subrange(0, p.len() as int) == p
}

/// `p` is `k` itself or a proper prefix of it.
pub open spec fn alias_of(p: Seq<char>, k: Seq<char>) -> bool {
    p == k || proper_prefix(p, k)
}

/// `v` is the highest score among the keys of `m` that `p` is an alias of.
pub open spec fn is_max_alias(m: Map<Seq<char>, u64>, p: Seq<char>, v: u64) -> bool {
    &&& forall|k: Seq<char>| #![trigger alias_of(p, k)] m.contains_key(k) && alias_of(p, k) ==> v >= m[k]
    &&& exists|k: Seq<char>| #![trigger alias_of(p, k)] m.contains_key(k) && alias_of(p, k) && v == m[k]
}

/// `r` holds every alias of a key of `m`, each with the highest score of
/// the keys it is an alias of.
pub open spec fn is_alias_expansion(m: Map<Seq<char>, u64>, r: Map<Seq<char>, u64>) -> bool {
    &&& forall|p: Seq<char>| #[trigger] r.contains_key(p) <==> exists|k: Seq<char>| #![trigger alias_of(p, k)]
        m.contains_key(k) && alias_of(p, k)
    &&& forall|p: Seq<char>| #[trigger] r.contains_key(p) ==> is_max_alias(m, p, r[p])
}

/// Every value of `r` is the alias expansion of the value of `t` under the same key.
pub open spec fn is_table_expansion(t: TableView, r: TableView) -> bool {
    &&& forall|k: Seq<char>| #[trigger] r.contains_key(k) <==> t.contains_key(k)
    &&& forall|k: Seq<char>| #[trigger] t.contains_key(k) ==> is_alias_expansion(t[k], r[k])
}

/// `k` is a key of `t` that `p` is a proper prefix of.
pub open spec fn prefix_source(t: TableView, p: Seq<char>, k: Seq<char>) -> bool {
    t.contains_key(k) && proper_prefix(p, k)
}

/// `v` is the candidate-wise highest score over the values in `r` of the
/// keys of `t` that `p` is a proper prefix of.
pub open spec fn is_merged_prefix(t: TableView, r: TableView, p: Seq<char>, v: Map<Seq<char>, u64>) -> bool {
    &&& forall|c: Seq<char>| #[trigger] v.contains_key(c) <==> exists|k: Seq<char>| #![trigger prefix_source(t, p, k)]
        prefix_source(t, p, k) && r[k].contains_key(c)
    &&& forall|c: Seq<char>, k: Seq<char>| #![trigger v[c], prefix_source(t, p, k)]
        v.contains_key(c) && prefix_source(t, p, k) && r[k].contains_key(c) ==> v[c] >= r[k][c]
    &&& forall|c: Seq<char>| #[trigger] v.contains_key(c) ==> exists|k: Seq<char>| #![trigger prefix_source(t, p, k)]
        prefix_source(t, p, k) && r[k].contains_key(c) && v[c] == r[k][c]
}

/// `r` is the context table `t` with its values alias-expanded and with
/// every proper prefix of a key that is not itself a key added, holding the
/// merge of the expanded values of the keys it abbreviates.
pub open spec fn is_context_expansion(t: TableView, r: TableView) -> bool {
    &&& forall|p: Seq<char>| #[trigger] r.contains_key(p) <==> (t.contains_key(p) || exists|k: Seq<char>|
        #![trigger prefix_source(t, p, k)] prefix_source(t, p, k))
    &&& forall|p: Seq<char>| #[trigger] t.contains_key(p) ==> is_alias_expansion(t[p], r[p])
    &&& forall|p: Seq<char>| #[trigger] r.contains_key(p) && !t.contains_key(p) ==> is_merged_prefix(t, r, p, r[p])
}

// ---------------------------------------------------------------------------

/// Whether `p` is a proper prefix of `k`.
pub fn is_proper_prefix(p: &[char], k: &[char]) -> (r: bool)
    ensures
        r == proper_prefix(p@, k@),
{
    0 < p.len() && p.len() < k.len() && starts_with_chars(k, p)
}

/// Whether `p` is `k` or a proper prefix of it.
pub fn is_alias(p: &[char], k: &[char]) -> (r: bool)
    ensures
        r == alias_of(p@, k@),
{
    chars_eq(p, k) || is_proper_prefix(p, k)
}

/// Sets `m[k]` to the larger of its value (zero when absent) and `s`.
pub fn upsert_max(m: &mut CandidateScores, k: String, s: u64)
    requires
        old(m).wf(),
    ensures
        final(m).wf(),
        final(m)@ == old(m)@.insert(
            k@,
            if old(m)@.contains_key(k@) && old(m)@[k@] > s {
                old(m)@[k@]
            } else {
                s
            },
        ),
{
    let cur: u64 = match m.get(k.as_str()) {
        Some(v) => *v,
        None => 0,
    };
    let v = if cur > s {
        cur
    } else {
        s
    };
    m.insert(k, v);
}

/// The highest score among the keys of `m` that `p` is an alias of.
pub fn max_alias_score(m: &CandidateScores, p: &[char]) -> (r: Option<u64>)
    requires
        m.wf(),
    ensures
        r is Some <==> exists|k: Seq<char>| #![trigger alias_of(p@, k)] m@.contains_key(k) && alias_of(p@, k),
        r matches Some(v) ==> is_max_alias(m@, p@, v),
{
    proof {
        m.lemma_view();
    }
    let mut best: Option<u64> = None;
    let mut i: usize = 0;
    while i < m.len()
        invariant
            m.wf(),
            0 <= i <= m.keys().len(),
            forall|k: Seq<char>| #[trigger] m@.contains_key(k) <==> m.keys().contains(k),
            forall|j: int| 0 <= j < m.keys().len() ==> #[trigger] m@[m.keys()[j]] == m.vals()[j],
            best is None ==> forall|j: int| 0 <= j < i ==> !alias_of(p@, #[trigger] m.keys()[j]),
            best matches Some(v) ==> {
                &&& forall|j: int| 0 <= j < i && alias_of(p@, #[trigger] m.keys()[j]) ==> v >= m.vals()[j]
                &&& exists|j: int| 0 <= j < i && alias_of(p@, #[trigger] m.keys()[j]) && v == m.vals()[j]
            },
        decreases m.keys().len() - i,
    {
        let key = chars_of(m.key_at(i));
        let val = *m.value_at(i);
        if is_alias(p, key.as_slice()) {
            best = match best {
                Some(b) => if val > b {
                    Some(val)
                } else {
                    Some(b)
                },
                None => Some(val),
            };
        }
        i = i + 1;
    }
    proof {
        match best {
            Some(v) => {
                assert forall|k: Seq<char>| #![trigger alias_of(p@, k)] m@.contains_key(k) && alias_of(p@, k) implies v >= m@[k] by {
                    let j = choose|j: int| 0 <= j < m.keys().len() && m.keys()[j] == k;
                    assert(m@[m.keys()[j]] == m.vals()[j]);
                }
                let j = choose|j: int| 0 <= j < i && alias_of(p@, #[trigger] m.keys()[j]) && v == m.vals()[j];
                assert(m@.contains_key(m.keys()[j]));
                assert(m@[m.keys()[j]] == m.vals()[j]);
                assert(alias_of(p@, m.keys()[j]));
            },
            None => {
                assert forall|k: Seq<char>| #![trigger alias_of(p@, k)] m@.contains_key(k) implies !alias_of(p@, k) by {
                    let j = choose|j: int| 0 <= j < m.keys().len() && m.keys()[j] == k;
                }
            },
        }
    }
    best
}

/// `m` with every alias of its keys added (`{"切る": 3}` becomes
/// `{"切る": 3, "切": 3}`); a key that is a prefix of others keeps the
/// highest score among them.
pub fn expand_inner_aliases(m: &CandidateScores) -> (r: CandidateScores)
    requires
        m.wf(),
    ensures
        r.wf(),
        is_alias_expansion(m@, r@),
{
    proof {
        m.lemma_view();
    }
    let mut r: CandidateScores = StrMap::new();
    let mut e: usize = 0;
    while e < m.len()
        invariant
            m.wf(),
            r.wf(),
            0 <= e <= m.keys().len(),
            forall|k: Seq<char>| #[trigger] m@.contains_key(k) <==> m.keys().contains(k),
            forall|p: Seq<char>| #[trigger] r@.contains_key(p) ==> is_max_alias(m@, p, r@[p]),
            forall|p: Seq<char>| #[trigger] r@.contains_key(p) ==> exists|k: Seq<char>|
                #![trigger alias_of(p, k)] m@.contains_key(k) && alias_of(p, k),
            forall|j: int, p: Seq<char>| #![trigger alias_of(p, m.keys()[j])] 0 <= j < e && alias_of(p, m.keys()[j]) ==> r@.contains_key(p),
        decreases m.keys().len() - e,
    {
        let key_str = m.key_at(e);
        let key = chars_of(key_str);
        let ghost kv = m.keys()[e as int];
        assert(m@.contains_key(kv)) by {
            assert(m.keys().contains(kv));
        }
        // the key itself, then its proper prefixes
        let own = to_owned_string(key_str);
        if !r.contains_key(own.as_str()) {
            assert(alias_of(kv, kv));
            let v = match max_alias_score(m, key.as_slice()) {
                Some(v) => v,
                None => {
                    assert(false);
                    0
                },
            };
            r.insert(own, v);
        }
        let mut l: usize = 1;
        while l < key.len()
            invariant
                m.wf(),
                r.wf(),
                0 <= e < m.keys().len(),
                kv == m.keys()[e as int],
                key@ == kv,
                m@.contains_key(kv),
                1 <= l,
                forall|k: Seq<char>| #[trigger] m@.contains_key(k) <==> m.keys().contains(k),
                forall|p: Seq<char>| #[trigger] r@.contains_key(p) ==> is_max_alias(m@, p, r@[p]),
                forall|p: Seq<char>| #[trigger] r@.contains_key(p) ==> exists|k: Seq<char>|
                    #![trigger alias_of(p, k)] m@.contains_key(k) && alias_of(p, k),
                forall|j: int, p: Seq<char>| #![trigger alias_of(p, m.keys()[j])] 0 <= j < e && alias_of(p, m.keys()[j]) ==> r@.contains_key(p),
                r@.contains_key(kv),
                forall|p: Seq<char>| #![trigger proper_prefix(p, kv)] proper_prefix(p, kv) && p.len() < l ==> r@.contains_key(p),
            decreases key.len() - l,
        {
            let mut q: Vec<char> = Vec::new();
            let mut t: usize = 0;
            while t < l
                invariant
                    0 <= t <= l,
                    l < key.len(),
                    q@ == key@.subrange(0, t as int),
                decreases l - t,
            {
                q.push(key[t]);
                assert(key@.subrange(0, t + 1) =~= key@.subrange(0, t as int).push(key@[t as int]));
                t = t + 1;
            }
            assert(proper_prefix(q@, kv));
            let ps = crate::text::string_from_chars(q.as_slice());
            if !r.contains_key(ps.as_str()) {
                assert(alias_of(q@, kv));
                let v = match max_alias_score(m, q.as_slice()) {
                    Some(v) => v,
                    None => {
                        assert(false);
                        0
                    },
                };
                r.insert(ps, v);
            }
            proof {
                assert forall|p: Seq<char>| #![trigger proper_prefix(p, kv)] proper_prefix(p, kv) && p.len() < l + 1 implies r@.contains_key(p) by {
                    if p.len() == l {
                        assert(p =~= q@);
                    }
                }
            }
            l = l + 1;
        }
        proof {
            assert forall|j: int, p: Seq<char>| #![trigger alias_of(p, m.keys()[j])] 0 <= j < e + 1 && alias_of(p, m.keys()[j]) implies r@.contains_key(p) by {
                if j == e {
                    if p != kv {
                        assert(proper_prefix(p, kv));
                    }
                }
            }
        }
        e = e + 1;
    }
    proof {
        assert forall|p: Seq<char>| #[trigger] r@.contains_key(p) <==> exists|k: Seq<char>| #![trigger alias_of(p, k)]
            m@.contains_key(k) && alias_of(p, k) by {
            if exists|k: Seq<char>| #![trigger alias_of(p, k)] m@.contains_key(k) && alias_of(p, k) {
                let k = choose|k: Seq<char>| #![trigger alias_of(p, k)] m@.contains_key(k) && alias_of(p, k);
                let j = choose|j: int| 0 <= j < m.keys().len() && m.keys()[j] == k;
                assert(alias_of(p, m.keys()[j]));
            }
        }
    }
    r
}


/// The candidate-wise maximum of two score maps.
pub open spec fn max_merge(a: Map<Seq<char>, u64>, b: Map<Seq<char>, u64>) -> Map<Seq<char>, u64> {
    Map::new(
        |c: Seq<char>| a.contains_key(c) || b.contains_key(c),
        |c: Seq<char>|
            if a.contains_key(c) && b.contains_key(c) {
                if a[c] > b[c] {
                    a[c]
                } else {
                    b[c]
                }
            } else if a.contains_key(c) {
                a[c]
            } else {
                b[c]
            },
    )
}

/// Merges `src` into `acc`, keeping the larger score of each candidate.
pub fn merge_max_into(acc: &mut CandidateScores, src: &CandidateScores)
    requires
        old(acc).wf(),
        src.wf(),
    ensures
        final(acc).wf(),
        final(acc)@ == max_merge(old(acc)@, src@),
{
    proof {
        src.lemma_view();
    }
    let mut i: usize = 0;
    while i < src.len()
        invariant
            acc.wf(),
            src.wf(),
            0 <= i <= src.keys().len(),
            forall|k: Seq<char>| #[trigger] src@.contains_key(k) <==> src.keys().contains(k),
            src.vals().len() == src.keys().len(),
            forall|j: int| 0 <= j < src.keys().len() ==> #[trigger] src@[src.keys()[j]] == src.vals()[j],
            forall|a: int, b: int| 0 <= a < b < src.keys().len() ==> src.keys()[a] != src.keys()[b],
            acc@ == max_merge(old(acc)@, src@.restrict(src.keys().take(i as int).to_set())),
        decreases src.keys().len() - i,
    {
        let ghost before = acc@;
        let k = to_owned_string(src.key_at(i));
        let v = *src.value_at(i);
        upsert_max(acc, k, v);
        proof {
            let kv = src.keys()[i as int];
            lemma_take_contains(src.keys(), i as int);
            assert(src.keys().take(i + 1).to_set() =~= src.keys().take(i as int).to_set().insert(kv));
            let old_part = src@.restrict(src.keys().take(i as int).to_set());
            let new_part = src@.restrict(src.keys().take(i + 1).to_set());
            assert(!src.keys().take(i as int).to_set().contains(kv)) by {
                if src.keys().take(i as int).to_set().contains(kv) {
                    let j = choose|j: int| 0 <= j < i && #[trigger] src.keys().take(i as int)[j] == kv;
                    assert(src.keys()[j] == src.keys()[i as int]);
                }
            }
            assert(src.keys().contains(kv));
            assert(acc@ =~= max_merge(old(acc)@, new_part));
        }
        i = i + 1;
    }
    proof {
        assert(src.keys().take(src.keys().len() as int) =~= src.keys());
        assert(src@.restrict(src.keys().to_set()) =~= src@) by {
            assert forall|k: Seq<char>| src@.contains_key(k) implies src.keys().to_set().contains(k) by {}
        }
    }
}

/// Each value of `t` alias-expanded: every candidate map gains its prefix
/// aliases (see `expand_inner_aliases`).
pub fn expand_map_aliases(t: &ScoreTable) -> (r: ScoreTable)
    requires
        table_wf(*t),
    ensures
        table_wf(r),
        is_table_expansion(t@, r@),
{
    proof {
        t.lemma_view();
    }
    let mut r: ScoreTable = StrMap::new();
    let mut i: usize = 0;
    while i < t.len()
        invariant
            table_wf(*t),
            table_wf(r),
            0 <= i <= t.keys().len(),
            forall|k: Seq<char>| #[trigger] t@.contains_key(k) <==> t.keys().contains(k),
            t.vals().len() == t.keys().len(),
            forall|j: int| 0 <= j < t.keys().len() ==> #[trigger] t@[t.keys()[j]] == t.vals()[j],
            forall|j: int| 0 <= j < t.keys().len() ==> #[trigger] t.raw_vals()[j]@ == t.vals()[j],
            t.raw_vals().len() == t.keys().len(),
            forall|k: Seq<char>| #[trigger] r@.contains_key(k) <==> t.keys().take(i as int).contains(k),
            forall|k: Seq<char>| #[trigger] r@.contains_key(k) ==> is_alias_expansion(t@[k], r@[k]),
        decreases t.keys().len() - i,
    {
        let k = to_owned_string(t.key_at(i));
        let v = t.value_at(i);
        assert(t.raw_vals().contains(*v));
        let ev = expand_inner_aliases(v);
        proof {
            assert(t@[t.keys()[i as int]] == v@);
        }
        r.insert(k, ev);
        proof {
            lemma_take_contains(t.keys(), i as int);
        }
        i = i + 1;
    }
    proof {
        assert(t.keys().take(t.keys().len() as int) =~= t.keys());
        assert forall|k: Seq<char>| #[trigger] r@.contains_key(k) <==> t@.contains_key(k) by {}
        assert forall|k: Seq<char>| #[trigger] t@.contains_key(k) implies is_alias_expansion(t@[k], r@[k]) by {
            assert(r@.contains_key(k));
        }
    }
    r
}

/// The candidate-wise highest score over the values of the keys of `e`
/// that `p` is a proper prefix of.
pub fn merge_prefix_sources(e: &ScoreTable, p: &[char]) -> (v: CandidateScores)
    requires
        table_wf(*e),
    ensures
        v.wf(),
        is_merged_prefix(e@, e@, p@, v@),
{
    proof {
        e.lemma_view();
    }
    let mut acc: CandidateScores = StrMap::new();
    let mut j: usize = 0;
    while j < e.len()
        invariant
            table_wf(*e),
            acc.wf(),
            0 <= j <= e.keys().len(),
            forall|k: Seq<char>| #[trigger] e@.contains_key(k) <==> e.keys().contains(k),
            e.vals().len() == e.keys().len(),
            forall|i: int| 0 <= i < e.keys().len() ==> #[trigger] e@[e.keys()[i]] == e.vals()[i],
            forall|i: int| 0 <= i < e.keys().len() ==> #[trigger] e.raw_vals()[i]@ == e.vals()[i],
            e.raw_vals().len() == e.keys().len(),
            forall|c: Seq<char>| #[trigger] acc@.contains_key(c) <==> exists|i: int| 0 <= i < j && proper_prefix(p@, e.keys()[i]) && (#[trigger] e.vals()[i]).contains_key(c),
            forall|c: Seq<char>, i: int| #![trigger acc@[c], e.vals()[i]] 0 <= i < j && proper_prefix(p@, e.keys()[i]) && e.vals()[i].contains_key(c) ==> acc@.contains_key(c) && acc@[c] >= e.vals()[i][c],
            forall|c: Seq<char>| #[trigger] acc@.contains_key(c) ==> exists|i: int| 0 <= i < j && proper_prefix(p@, e.keys()[i]) && (#[trigger] e.vals()[i]).contains_key(c) && acc@[c] == e.vals()[i][c],
        decreases e.keys().len() - j,
    {
        let key = chars_of(e.key_at(j));
        if is_proper_prefix(p, key.as_slice()) {
            let src = e.value_at(j);
            assert(e.raw_vals().contains(*src));
            let ghost before = acc@;
            merge_max_into(&mut acc, src);
            proof {
                let sv = e.vals()[j as int];
                assert(src@ == sv);
                assert forall|c: Seq<char>| #[trigger] acc@.contains_key(c) <==> exists|i: int| 0 <= i < j + 1 && proper_prefix(p@, e.keys()[i]) && (#[trigger] e.vals()[i]).contains_key(c) by {
                    if sv.contains_key(c) {
                        assert(0 <= j < j + 1 && proper_prefix(p@, e.keys()[j as int]) && e.vals()[j as int].contains_key(c));
                    }
                }
                assert forall|c: Seq<char>| #[trigger] acc@.contains_key(c) implies exists|i: int| 0 <= i < j + 1 && proper_prefix(p@, e.keys()[i]) && (#[trigger] e.vals()[i]).contains_key(c) && acc@[c] == e.vals()[i][c] by {
                    if before.contains_key(c) && (!sv.contains_key(c) || before[c] > sv[c]) {
                        let i = choose|i: int| 0 <= i < j && proper_prefix(p@, e.keys()[i]) && (#[trigger] e.vals()[i]).contains_key(c) && before[c] == e.vals()[i][c];
                        assert(0 <= i < j + 1 && proper_prefix(p@, e.keys()[i]) && e.vals()[i].contains_key(c) && acc@[c] == e.vals()[i][c]);
                    } else {
                        assert(0 <= j < j + 1 && proper_prefix(p@, e.keys()[j as int]) && e.vals()[j as int].contains_key(c) && acc@[c] == e.vals()[j as int][c]);
                    }
                }
            }
        } else {
            proof {
                assert forall|c: Seq<char>| #[trigger] acc@.contains_key(c) <==> exists|i: int| 0 <= i < j + 1 && proper_prefix(p@, e.keys()[i]) && (#[trigger] e.vals()[i]).contains_key(c) by {
                    if exists|i: int| 0 <= i < j + 1 && proper_prefix(p@, e.keys()[i]) && (#[trigger] e.vals()[i]).contains_key(c) {
                        let i = choose|i: int| 0 <= i < j + 1 && proper_prefix(p@, e.keys()[i]) && (#[trigger] e.vals()[i]).contains_key(c);
                        assert(i != j);
                    }
                }
                assert forall|c: Seq<char>| #[trigger] acc@.contains_key(c) implies exists|i: int| 0 <= i < j + 1 && proper_prefix(p@, e.keys()[i]) && (#[trigger] e.vals()[i]).contains_key(c) && acc@[c] == e.vals()[i][c] by {
                    let i = choose|i: int| 0 <= i < j && proper_prefix(p@, e.keys()[i]) && (#[trigger] e.vals()[i]).contains_key(c) && acc@[c] == e.vals()[i][c];
                    assert(0 <= i < j + 1);
                }
            }
        }
        j = j + 1;
    }
    proof {
        let ev = e@;
        assert forall|c: Seq<char>| #[trigger] acc@.contains_key(c) <==> exists|k: Seq<char>| #![trigger prefix_source(ev, p@, k)] prefix_source(ev, p@, k) && ev[k].contains_key(c) by {
            if acc@.contains_key(c) {
                let i = choose|i: int| 0 <= i < j && proper_prefix(p@, e.keys()[i]) && (#[trigger] e.vals()[i]).contains_key(c);
                let k = e.keys()[i];
                assert(e.keys().contains(k));
                assert(prefix_source(ev, p@, k) && ev[k].contains_key(c));
            }
            if exists|k: Seq<char>| #![trigger prefix_source(ev, p@, k)] prefix_source(ev, p@, k) && ev[k].contains_key(c) {
                let k = choose|k: Seq<char>| #![trigger prefix_source(ev, p@, k)] prefix_source(ev, p@, k) && ev[k].contains_key(c);
                let i = choose|i: int| 0 <= i < e.keys().len() && e.keys()[i] == k;
                assert(e.vals()[i].contains_key(c));
            }
        }
        assert forall|c: Seq<char>, k: Seq<char>| #![trigger acc@[c], prefix_source(ev, p@, k)] acc@.contains_key(c) && prefix_source(ev, p@, k) && ev[k].contains_key(c) implies acc@[c] >= ev[k][c] by {
            let i = choose|i: int| 0 <= i < e.keys().len() && e.keys()[i] == k;
            assert(e.vals()[i].contains_key(c));
            assert(acc@[c] >= e.vals()[i][c]);
        }
        assert forall|c: Seq<char>| #[trigger] acc@.contains_key(c) implies exists|k: Seq<char>| #![trigger prefix_source(ev, p@, k)] prefix_source(ev, p@, k) && ev[k].contains_key(c) && acc@[c] == ev[k][c] by {
            let i = choose|i: int| 0 <= i < j && proper_prefix(p@, e.keys()[i]) && (#[trigger] e.vals()[i]).contains_key(c) && acc@[c] == e.vals()[i][c];
            let k = e.keys()[i];
            assert(e.keys().contains(k));
            assert(prefix_source(ev, p@, k) && ev[k].contains_key(c) && acc@[c] == ev[k][c]);
        }
    }
    acc
}


pub proof fn lemma_merged_prefix_transfer(
    t: TableView,
    e: TableView,
    r: TableView,
    p: Seq<char>,
    v: Map<Seq<char>, u64>,
)
    requires
        forall|k: Seq<char>| #[trigger] t.contains_key(k) <==> e.contains_key(k),
        forall|k: Seq<char>| #[trigger] t.contains_key(k) ==> r[k] == e[k],
        is_merged_prefix(e, e, p, v),
    ensures
        is_merged_prefix(t, r, p, v),
{
    assert forall|c: Seq<char>| #[trigger] v.contains_key(c) <==> exists|k: Seq<char>| #![trigger prefix_source(t, p, k)]
        prefix_source(t, p, k) && r[k].contains_key(c) by {
        if v.contains_key(c) {
            let k = choose|k: Seq<char>| #![trigger prefix_source(e, p, k)] prefix_source(e, p, k) && e[k].contains_key(c);
            assert(e.contains_key(k));
            assert(t.contains_key(k));
            assert(prefix_source(t, p, k) && r[k].contains_key(c));
        }
        if exists|k: Seq<char>| #![trigger prefix_source(t, p, k)] prefix_source(t, p, k) && r[k].contains_key(c) {
            let k = choose|k: Seq<char>| #![trigger prefix_source(t, p, k)] prefix_source(t, p, k) && r[k].contains_key(c);
            assert(prefix_source(e, p, k) && e[k].contains_key(c));
        }
    }
    assert forall|c: Seq<char>, k: Seq<char>| #![trigger v[c], prefix_source(t, p, k)]
        v.contains_key(c) && prefix_source(t, p, k) && r[k].contains_key(c) implies v[c] >= r[k][c] by {
        assert(prefix_source(e, p, k));
    }
    assert forall|c: Seq<char>| #[trigger] v.contains_key(c) implies exists|k: Seq<char>| #![trigger prefix_source(t, p, k)]
        prefix_source(t, p, k) && r[k].contains_key(c) && v[c] == r[k][c] by {
        let k = choose|k: Seq<char>| #![trigger prefix_source(e, p, k)] prefix_source(e, p, k) && e[k].contains_key(c) && v[c] == e[k][c];
        assert(prefix_source(t, p, k));
    }
}

/// The context table with values alias-expanded and with every proper
/// prefix of a key that is not a key itself added, holding the merge of
/// the keys it abbreviates (`"切る"` is also found as `"切"`).
pub fn expand_context_map_aliases(t: &ScoreTable) -> (r: ScoreTable)
    requires
        table_wf(*t),
    ensures
        table_wf(r),
        is_context_expansion(t@, r@),
{
    let mut e = expand_map_aliases(t);
    proof {
        e.lemma_view();
    }
    let mut aliases: ScoreTable = StrMap::new();
    let mut i: usize = 0;
    while i < e.len()
        invariant
            table_wf(e),
            table_wf(aliases),
            is_table_expansion(t@, e@),
            0 <= i <= e.keys().len(),
            forall|k: Seq<char>| #[trigger] e@.contains_key(k) <==> e.keys().contains(k),
            forall|p: Seq<char>| #[trigger] aliases@.contains_key(p) ==> !e@.contains_key(p) && (exists|k: Seq<char>|
                #![trigger prefix_source(e@, p, k)] prefix_source(e@, p, k)) && is_merged_prefix(e@, e@, p, aliases@[p]),
            forall|j: int, p: Seq<char>| #![trigger proper_prefix(p, e.keys()[j])] 0 <= j < i && proper_prefix(p, e.keys()[j]) && !e@.contains_key(p) ==> aliases@.contains_key(p),
        decreases e.keys().len() - i,
    {
        let key = chars_of(e.key_at(i));
        let ghost kv = e.keys()[i as int];
        assert(e@.contains_key(kv)) by {
            assert(e.keys().contains(kv));
        }
        let mut l: usize = 1;
        while l < key.len()
            invariant
                table_wf(e),
                table_wf(aliases),
                0 <= i < e.keys().len(),
                kv == e.keys()[i as int],
                key@ == kv,
                e@.contains_key(kv),
                1 <= l,
                forall|p: Seq<char>| #[trigger] aliases@.contains_key(p) ==> !e@.contains_key(p) && (exists|k: Seq<char>|
                    #![trigger prefix_source(e@, p, k)] prefix_source(e@, p, k)) && is_merged_prefix(e@, e@, p, aliases@[p]),
                forall|j: int, p: Seq<char>| #![trigger proper_prefix(p, e.keys()[j])] 0 <= j < i && proper_prefix(p, e.keys()[j]) && !e@.contains_key(p) ==> aliases@.contains_key(p),
                forall|p: Seq<char>| #![trigger proper_prefix(p, kv)] proper_prefix(p, kv) && p.len() < l && !e@.contains_key(p) ==> aliases@.contains_key(p),
            decreases key.len() - l,
        {
            let mut q: Vec<char> = Vec::new();
            let mut s: usize = 0;
            while s < l
                invariant
                    0 <= s <= l,
                    l < key.len(),
                    q@ == key@.subrange(0, s as int),
                decreases l - s,
            {
                q.push(key[s]);
                assert(key@.subrange(0, s + 1) =~= key@.subrange(0, s as int).push(key@[s as int]));
                s = s + 1;
            }
            assert(proper_prefix(q@, kv));
            let qs = crate::text::string_from_chars(q.as_slice());
            if !e.contains_key(qs.as_str()) && !aliases.contains_key(qs.as_str()) {
                let merged = merge_prefix_sources(&e, q.as_slice());
                assert(prefix_source(e@, q@, kv));
                aliases.insert(qs, merged);
            }
            proof {
                assert forall|p: Seq<char>| #![trigger proper_prefix(p, kv)] proper_prefix(p, kv) && p.len() < l + 1 && !e@.contains_key(p) implies aliases@.contains_key(p) by {
                    if p.len() == l {
                        assert(p =~= q@);
                    }
                }
            }
            l = l + 1;
        }
        i = i + 1;
    }
    let ghost e0 = e@;
    let ghost a0 = aliases@;
    proof {
        assert forall|p: Seq<char>, k: Seq<char>| #![trigger prefix_source(e0, p, k)] prefix_source(e0, p, k) && !e0.contains_key(p) implies a0.contains_key(p) by {
            let j = choose|j: int| 0 <= j < e.keys().len() && e.keys()[j] == k;
            assert(proper_prefix(p, e.keys()[j]));
        }
    }
    proof {
        assert(is_table_expansion(t@, e0));
        assert forall|p: Seq<char>| #[trigger] a0.contains_key(p) implies !e0.contains_key(p) && (exists|k: Seq<char>|
            #![trigger prefix_source(e0, p, k)] prefix_source(e0, p, k)) && is_merged_prefix(e0, e0, p, a0[p]) by {}
    }
    while aliases.len() > 0
        invariant
            table_wf(e),
            table_wf(aliases),
            forall|p: Seq<char>| #[trigger] e@.contains_key(p) <==> e0.contains_key(p) || (a0.contains_key(p) && !aliases@.contains_key(p)),
            forall|p: Seq<char>| #[trigger] e0.contains_key(p) ==> e@[p] == e0[p],
            forall|p: Seq<char>| #[trigger] a0.contains_key(p) && !aliases@.contains_key(p) ==> e@[p] == a0[p],
            forall|p: Seq<char>| #[trigger] aliases@.contains_key(p) ==> a0.contains_key(p) && aliases@[p] == a0[p],
            forall|p: Seq<char>| #[trigger] a0.contains_key(p) ==> !e0.contains_key(p),
        decreases aliases.keys().len(),
    {
        proof {
            aliases.lemma_view();
        }
        let ghost before_rv = aliases.raw_vals();
        let ghost before = aliases@;
        match aliases.pop() {
            Some(kv) => {
                let (k, v) = kv;
                proof {
                    assert(before_rv[before_rv.len() - 1] == v);
                    assert(before_rv.contains(v));
                    assert forall|x: CandidateScores| #[trigger] aliases.raw_vals().contains(x) implies x.wf() by {
                        let j = choose|j: int| 0 <= j < aliases.raw_vals().len() && aliases.raw_vals()[j] == x;
                        assert(before_rv[j] == x);
                        assert(before_rv.contains(x));
                    }
                    assert(before.contains_key(k@));
                }
                e.insert(k, v);
            },
            None => {},
        }
    }
    proof {
        aliases.lemma_view();
        assert forall|p: Seq<char>| !(#[trigger] aliases@.contains_key(p)) by {
            if aliases@.contains_key(p) {
                assert(aliases.keys().contains(p));
            }
        }
        assert forall|p: Seq<char>| #[trigger] e@.contains_key(p) <==> (t@.contains_key(p) || exists|k: Seq<char>|
            #![trigger prefix_source(t@, p, k)] prefix_source(t@, p, k)) by {
            if a0.contains_key(p) {
                let k = choose|k: Seq<char>| #![trigger prefix_source(e0, p, k)] prefix_source(e0, p, k);
                assert(prefix_source(t@, p, k));
            }
            if !t@.contains_key(p) && exists|k: Seq<char>| #![trigger prefix_source(t@, p, k)] prefix_source(t@, p, k) {
                let k = choose|k: Seq<char>| #![trigger prefix_source(t@, p, k)] prefix_source(t@, p, k);
                assert(prefix_source(e0, p, k));
            }
        }
        assert forall|p: Seq<char>| #[trigger] t@.contains_key(p) implies is_alias_expansion(t@[p], e@[p]) by {
            assert(e0.contains_key(p));
        }
        assert forall|k: Seq<char>| #[trigger] t@.contains_key(k) implies e@[k] == e0[k] by {
            assert(e0.contains_key(k));
        }
        assert forall|k: Seq<char>| #[trigger] t@.contains_key(k) <==> e0.contains_key(k) by {}
        assert forall|p: Seq<char>| #[trigger] e@.contains_key(p) && !t@.contains_key(p) implies is_merged_prefix(t@, e@, p, e@[p]) by {
            assert(a0.contains_key(p));
            lemma_merged_prefix_transfer(t@, e0, e@, p, a0[p]);
        }
    }
    e
}

// ---------------------------------------------------------------------------
// Expanding twice
// ---------------------------------------------------------------------------

proof fn lemma_alias_transitive(p: Seq<char>, k: Seq<char>, k2: Seq<char>)
    requires
        alias_of(p, k),
        alias_of(k, k2),
    ensures
        alias_of(p, k2),
{
    if p != k && k != k2 {
        assert(k2.subrange(0, p.len() as int) =~= k2.subrange(0, k.len() as int).subrange(0, p.len() as int));
    }
}

/// The alias expansion of a map is unique.
proof fn lemma_alias_unique(m: Map<Seq<char>, u64>, a: Map<Seq<char>, u64>, b: Map<Seq<char>, u64>)
    requires
        is_alias_expansion(m, a),
        is_alias_expansion(m, b),
    ensures
        a == b,
{
    assert forall|p: Seq<char>| a.contains_key(p) <==> b.contains_key(p) by {
        if a.contains_key(p) {
            let k = choose|k: Seq<char>| #![trigger alias_of(p, k)] m.contains_key(k) && alias_of(p, k);
            assert(b.contains_key(p));
        }
        if b.contains_key(p) {
            let k = choose|k: Seq<char>| #![trigger alias_of(p, k)] m.contains_key(k) && alias_of(p, k);
            assert(a.contains_key(p));
        }
    }
    assert forall|p: Seq<char>| #[trigger] a.contains_key(p) implies a[p] == b[p] by {
        let ka = choose|k: Seq<char>| #![trigger alias_of(p, k)] m.contains_key(k) && alias_of(p, k) && a[p] == m[k];
        let kb = choose|k: Seq<char>| #![trigger alias_of(p, k)] m.contains_key(k) && alias_of(p, k) && b[p] == m[k];
        assert(a[p] >= m[kb]);
        assert(b[p] >= m[ka]);
    }
    assert(a =~= b);
}

/// Every alias of a key of `m` is a key too, scored at least as high.
pub open spec fn alias_closed(m: Map<Seq<char>, u64>) -> bool {
    forall|q: Seq<char>, c: Seq<char>| #![trigger alias_of(q, c), m.contains_key(c)]
        m.contains_key(c) && alias_of(q, c) ==> m.contains_key(q) && m[q] >= m[c]
}

/// An alias expansion is closed.
proof fn lemma_expansion_closed(m: Map<Seq<char>, u64>, r: Map<Seq<char>, u64>)
    requires
        is_alias_expansion(m, r),
    ensures
        alias_closed(r),
{
    assert forall|q: Seq<char>, c: Seq<char>| #![trigger alias_of(q, c), r.contains_key(c)]
        r.contains_key(c) && alias_of(q, c) implies r.contains_key(q) && r[q] >= r[c] by {
        assert(is_max_alias(m, c, r[c]));
        let k = choose|k: Seq<char>| #![trigger alias_of(c, k)] m.contains_key(k) && alias_of(c, k) && r[c] == m[k];
        lemma_alias_transitive(q, c, k);
        assert(r.contains_key(q));
        assert(is_max_alias(m, q, r[q]));
    }
}

/// A closed map is its own alias expansion.
proof fn lemma_closed_self(m: Map<Seq<char>, u64>)
    requires
        alias_closed(m),
    ensures
        is_alias_expansion(m, m),
{
    assert forall|p: Seq<char>| #[trigger] m.contains_key(p) <==> exists|k: Seq<char>| #![trigger alias_of(p, k)]
        m.contains_key(k) && alias_of(p, k) by {
        if m.contains_key(p) {
            assert(alias_of(p, p));
        }
    }
    assert forall|p: Seq<char>| #[trigger] m.contains_key(p) implies is_max_alias(m, p, m[p]) by {
        assert(alias_of(p, p));
    }
}

#[verifier::spinoff_prover]
proof fn lemma_merged_point(t: TableView, r: TableView, p: Seq<char>, v: Map<Seq<char>, u64>, q: Seq<char>, c: Seq<char>)
    requires
        is_merged_prefix(t, r, p, v),
        forall|k: Seq<char>| #[trigger] prefix_source(t, p, k) ==> alias_closed(r[k]),
        v.contains_key(c),
        alias_of(q, c),
    ensures
        v.contains_key(q),
        v[q] >= v[c],
{
    let k = choose|k: Seq<char>| #![trigger prefix_source(t, p, k)] prefix_source(t, p, k) && r[k].contains_key(c) && v[c] == r[k][c];
    assert(alias_closed(r[k]));
    assert(r[k].contains_key(q) && r[k][q] >= r[k][c]);
    assert(v.contains_key(q));
    assert(v[q] >= r[k][q]);
}

/// The candidate-wise merge of closed maps (a merged context prefix) is
/// closed.
proof fn lemma_merged_closed(t: TableView, r: TableView, p: Seq<char>, v: Map<Seq<char>, u64>)
    requires
        is_merged_prefix(t, r, p, v),
        forall|k: Seq<char>| #[trigger] prefix_source(t, p, k) ==> alias_closed(r[k]),
    ensures
        alias_closed(v),
{
    assert forall|q: Seq<char>, c: Seq<char>| #![trigger alias_of(q, c), v.contains_key(c)]
        v.contains_key(c) && alias_of(q, c) implies v.contains_key(q) && v[q] >= v[c] by {
        lemma_merged_point(t, r, p, v, q, c);
    }
}

/// Expanding the aliases of an already expanded frequency table changes
/// nothing: loading, merging or importing again never inflates a score.
pub proof fn law_table_expansion_idempotent(t: TableView, r: TableView, r2: TableView)
    requires
        is_table_expansion(t, r),
        is_table_expansion(r, r2),
    ensures
        r2 == r,
{
    assert forall|k: Seq<char>| #[trigger] r.contains_key(k) implies r2[k] == r[k] by {
        lemma_expansion_closed(t[k], r[k]);
        lemma_closed_self(r[k]);
        lemma_alias_unique(r[k], r[k], r2[k]);
    }
    assert(r2 =~= r);
}

/// Expanding the aliases of an already expanded context table changes
/// nothing.
pub proof fn law_context_expansion_idempotent(t: TableView, r: TableView, r2: TableView)
    requires
        is_context_expansion(t, r),
        is_context_expansion(r, r2),
    ensures
        r2 == r,
{
    assert forall|p: Seq<char>| #[trigger] r.contains_key(p) implies alias_closed(r[p]) by {
        if t.contains_key(p) {
            lemma_expansion_closed(t[p], r[p]);
        } else {
            assert forall|k: Seq<char>| #[trigger] prefix_source(t, p, k) implies alias_closed(r[k]) by {
                lemma_expansion_closed(t[k], r[k]);
            }
            lemma_merged_closed(t, r, p, r[p]);
        }
    }
    assert forall|p: Seq<char>| r2.contains_key(p) <==> r.contains_key(p) by {
        if r2.contains_key(p) && !r.contains_key(p) {
            let k = choose|k: Seq<char>| #![trigger prefix_source(r, p, k)] prefix_source(r, p, k);
            if t.contains_key(k) {
                assert(prefix_source(t, p, k));
            } else {
                let k0 = choose|k0: Seq<char>| #![trigger prefix_source(t, k, k0)] prefix_source(t, k, k0);
                lemma_alias_transitive(p, k, k0);
                assert(prefix_source(t, p, k0));
            }
        }
    }
    assert forall|p: Seq<char>| #[trigger] r.contains_key(p) implies r2[p] == r[p] by {
        lemma_closed_self(r[p]);
        lemma_alias_unique(r[p], r[p], r2[p]);
    }
    assert(r2 =~= r);
}

} // verus!
