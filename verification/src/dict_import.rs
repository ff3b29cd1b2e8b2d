//! Importing a user dictionary in SKK-JISYO form (`見出し /候補1/候補2/`)
//! into the frequency table: the candidates of an entry score by their
//! position, the first the highest, and the scores add up over entries.
use vstd::prelude::*;
use crate::alias::{is_context_expansion, is_table_expansion};
use crate::frequency::{
    data_context, data_wf, dict_candidates_spec, dict_fold, get_score, parse_dict_line_candidates, score_in,
    table_max_merge, table_wf, CandidateScores, FrequencyPredictor, FrequencyPredictorData,
    ScoreTable, TableView,
};
use crate::strmap::StrMap;
use crate::text::{
    chars_of, split_by, split_once_char, split_str, str_views, string_views, take_until,
    to_owned_string, trim, trim_str,
};

verus! {

/// Why an import was refused.
#[derive(Debug, Clone, Copy, PartialEq, Eq, Structural)]
pub enum ImportError {
    /// A candidate's accumulated score would not fit in a `u64`.
    ScoreOverflow,
}

impl ImportError {
    /// The message this error is reported with.
    pub fn message(&self) -> (r: String)
        ensures
            r@ == "candidate score overflow"@,
    {
        match self {
            ImportError::ScoreOverflow => "candidate score overflow".to_string(),
        }
    }
}

// ---------------------------------------------------------------------------
// Specifications
// ---------------------------------------------------------------------------

/// The entry a dictionary line holds, if any: the line trimmed, not empty
/// and no comment (`;`), split at its first space into a midashi and a
/// candidate part that starts and ends with `/` and yields a candidate.
pub open spec fn dict_entry_spec(line: Seq<char>) -> Option<(Seq<char>, Seq<Seq<char>>)> {
    let t = trim(line);
    let m = take_until(t, ' ');
    if t.len() == 0 || t[0] == ';' || m.len() == 0 || m.len() == t.len() {
        None
    } else {
        let rest = t.subrange(m.len() + 1int, t.len() as int);
        if rest.len() == 0 || rest[0] != '/' || rest.last() != '/' {
            None
        } else {
            let cands = dict_candidates_spec(rest);
            if cands.len() == 0 {
                None
            } else {
                Some((m, cands))
            }
        }
    }
}

/// `m` after the first `n` of `cands` each gained their positional score
/// (`cands.len()` for the first, one less for each next); `None` when a sum
/// leaves the `u64` range.
pub open spec fn ranked_add(m: Map<Seq<char>, u64>, cands: Seq<Seq<char>>, n: nat) -> Option<
    Map<Seq<char>, u64>,
>
    decreases n,
{
    if n == 0 {
        Some(m)
    } else {
        match ranked_add(m, cands, (n - 1) as nat) {
            None => None,
            Some(p) => {
                let c = cands[n - 1];
                let s = score_in(p, c) + (cands.len() - (n - 1));
                if s > u64::MAX {
                    None
                } else {
                    Some(p.insert(c, s as u64))
                }
            },
        }
    }
}

/// The table after one more dictionary line.
pub open spec fn import_step(t: Option<TableView>, line: Seq<char>) -> Option<TableView> {
    match t {
        None => None,
        Some(t) => match dict_entry_spec(line) {
            None => Some(t),
            Some((m, cands)) => {
                let before = if t.contains_key(m) {
                    t[m]
                } else {
                    Map::empty()
                };
                match ranked_add(before, cands, cands.len()) {
                    None => None,
                    Some(inner) => Some(t.insert(m, inner)),
                }
            },
        },
    }
}

/// The table after the given dictionary lines, in order.
pub open spec fn import_fold(t: TableView, lines: Seq<Seq<char>>) -> Option<TableView>
    decreases lines.len(),
{
    if lines.len() == 0 {
        Some(t)
    } else {
        import_step(import_fold(t, lines.drop_last()), lines.last())
    }
}

/// The frequency table after importing the dictionary text `content`
/// (`None` when a score would overflow).
pub open spec fn imported_table(t: TableView, content: Seq<char>) -> Option<TableView> {
    import_fold(t, split_by(content, '\n'))
}

// ---------------------------------------------------------------------------
// Lemmas
// ---------------------------------------------------------------------------

proof fn lemma_ranked_add_none(m: Map<Seq<char>, u64>, cands: Seq<Seq<char>>, a: nat, b: nat)
    requires
        a <= b,
        ranked_add(m, cands, a) is None,
    ensures
        ranked_add(m, cands, b) is None,
    decreases b,
{
    if b > a {
        lemma_ranked_add_none(m, cands, a, (b - 1) as nat);
    }
}

proof fn lemma_import_none(t: TableView, lines: Seq<Seq<char>>, i: int)
    requires
        0 <= i <= lines.len(),
        import_fold(t, lines.take(i)) is None,
    ensures
        import_fold(t, lines) is None,
    decreases lines.len(),
{
    if i == lines.len() {
        assert(lines.take(i) =~= lines);
    } else {
        assert(lines.drop_last().take(i) =~= lines.take(i));
        lemma_import_none(t, lines.drop_last(), i);
    }
}

proof fn lemma_ranked_add_fresh(cands: Seq<Seq<char>>, n: nat)
    requires
        n <= cands.len(),
        cands.no_duplicates(),
        cands.len() <= u64::MAX,
    ensures
        ranked_add(Map::empty(), cands, n) matches Some(m) && m.dom() == cands.take(n as int).to_set()
            && forall|i: int| 0 <= i < n ==> m[#[trigger] cands[i]] == cands.len() - i,
    decreases n,
{
    if n > 0 {
        lemma_ranked_add_fresh(cands, (n - 1) as nat);
        let p = ranked_add(Map::empty(), cands, (n - 1) as nat).unwrap();
        let c = cands[n - 1];
        crate::text::lemma_take_contains(cands, n - 1);
        assert(!p.contains_key(c)) by {
            if cands.take(n - 1).contains(c) {
                let j = choose|j: int| 0 <= j < n - 1 && #[trigger] cands.take(n - 1)[j] == c;
                assert(cands[j] == cands[n - 1]);
            }
        }
        assert(score_in(p, c) == 0);
        let m = ranked_add(Map::empty(), cands, n).unwrap();
        assert(m == p.insert(c, (cands.len() - (n - 1)) as u64));
        assert(m.dom() =~= cands.take(n as int).to_set()) by {
            assert forall|x: Seq<char>| #[trigger] m.dom().contains(x) <==> cands.take(n as int).to_set().contains(x) by {
                let k: int = n - 1;
                assert(cands.take(k + 1) == cands.take(n as int));
                assert(cands.take(k + 1).contains(x) <==> cands.take(k).contains(x) || x == cands[k]);
                assert(p.dom().contains(x) <==> cands.take(k).to_set().contains(x));
                assert(cands.take(n as int).to_set().contains(x) <==> cands.take(n as int).contains(x));
                assert(cands.take(k).to_set().contains(x) <==> cands.take(k).contains(x));
                assert(m.dom().contains(x) <==> p.dom().contains(x) || x == c);
            }
        }
        assert forall|i: int| 0 <= i < n implies m[#[trigger] cands[i]] == cands.len() - i by {
            if i < n - 1 {
                assert(cands[i] != c);
            }
        }
    }
}

proof fn lemma_dict_fold_distinct(parts: Seq<Seq<char>>)
    ensures
        dict_fold(parts).2.no_duplicates(),
    decreases parts.len(),
{
    if parts.len() > 0 {
        lemma_dict_fold_distinct(parts.drop_last());
    }
}

/// The candidates of a dictionary line are distinct.
pub proof fn lemma_dict_candidates_distinct(cands_part: Seq<char>)
    ensures
        dict_candidates_spec(cands_part).no_duplicates(),
{
    let t = crate::text::trim_char(cands_part, '/');
    if t.len() > 0 {
        lemma_dict_fold_distinct(split_by(t, '/'));
    }
}

/// Importing an entry whose midashi is new scores its candidates by
/// position: the first of `n` gets `n`, each next one less, and the rest of
/// the table stays as it was.
pub proof fn law_import_new_entry_positional(t: TableView, line: Seq<char>)
    requires
        dict_entry_spec(line) matches Some((m, cands)) && !t.contains_key(m) && cands.len()
            <= u64::MAX,
    ensures
        ({
            let (m, cands) = dict_entry_spec(line).unwrap();
            import_step(Some(t), line) matches Some(r) && r.dom() == t.dom().insert(m) && (forall|
                k: Seq<char>,
            | #[trigger] t.contains_key(k) ==> r[k] == t[k]) && r[m].dom() == cands.to_set() && (
            forall|i: int| 0 <= i < cands.len() ==> r[m][#[trigger] cands[i]] == cands.len() - i)
        }),
{
    let (m, cands) = dict_entry_spec(line).unwrap();
    let t2 = trim(line);
    let mm = take_until(t2, ' ');
    lemma_dict_candidates_distinct(t2.subrange(mm.len() + 1int, t2.len() as int));
    lemma_ranked_add_fresh(cands, cands.len());
    assert(cands.take(cands.len() as int) =~= cands);
    let r = import_step(Some(t), line).unwrap();
    assert(r.dom() =~= t.dom().insert(m));
}

// ---------------------------------------------------------------------------
// Executable code
// ---------------------------------------------------------------------------

/// The entry of one dictionary line (see `dict_entry_spec`).
pub fn dict_line_entry<'a>(line: &'a str) -> (r: Option<(&'a str, Vec<String>)>)
    ensures
        r is None <==> dict_entry_spec(line@) is None,
        r matches Some((m, c)) ==> dict_entry_spec(line@) == Some((m@, string_views(c@))),
{
    let t = trim_str(line);
    let tc = chars_of(t);
    if tc.len() == 0 || tc[0] == ';' {
        return None;
    }
    match split_once_char(t, ' ') {
        None => {
            proof {
                assert forall|j: int| 0 <= j < t@.len() implies t@[j] != ' ' by {
                    if t@[j] == ' ' {
                        assert(t@.contains(' '));
                    }
                }
                crate::text::lemma_take_until_prefix(t@, ' ', t@.len() as int);
                assert(t@.subrange(0, t@.len() as int) =~= t@);
            }
            None
        },
        Some((m, rest)) => {
            let mc = chars_of(m);
            if mc.len() == 0 {
                return None;
            }
            let rc = chars_of(rest);
            if rc.len() == 0 || rc[0] != '/' || rc[rc.len() - 1] != '/' {
                return None;
            }
            let cands = parse_dict_line_candidates(rest);
            if cands.len() == 0 {
                return None;
            }
            Some((m, cands))
        },
    }
}

/// Adds to `entry` the positional scores of `cands`: `cands.len()` for the
/// first, one less for each next. Returns `false`, leaving `entry` partly
/// updated, when a sum would overflow.
fn add_ranked_scores(entry: &mut CandidateScores, cands: &Vec<String>) -> (ok: bool)
    requires
        old(entry).wf(),
    ensures
        final(entry).wf(),
        ok == ranked_add(old(entry)@, string_views(cands@), cands@.len()) is Some,
        ok ==> Some(final(entry)@) == ranked_add(old(entry)@, string_views(cands@), cands@.len()),
{
    let total: usize = cands.len();
    let ghost cv = string_views(cands@);
    let mut i: usize = 0;
    while i < total
        invariant
            0 <= i <= total,
            total == cands@.len(),
            cv == string_views(cands@),
            entry.wf(),
            ranked_add(old(entry)@, cv, i as nat) == Some(entry@),
        decreases total - i,
    {
        let cand = cands[i].as_str();
        let current = get_score(entry, cand);
        let bonus: u64 = (total - i) as u64;
        match current.checked_add(bonus) {
            Some(s) => {
                entry.insert(to_owned_string(cand), s);
            },
            None => {
                proof {
                    lemma_ranked_add_none(old(entry)@, cv, (i + 1) as nat, total as nat);
                }
                return false;
            },
        }
        i = i + 1;
    }
    true
}

/// A copy of a candidate map.
fn clone_scores(m: &CandidateScores) -> (r: CandidateScores)
    requires
        m.wf(),
    ensures
        r.wf(),
        r@ == m@,
{
    proof {
        m.lemma_view();
    }
    let mut r: CandidateScores = StrMap::new();
    let mut i: usize = 0;
    while i < m.len()
        invariant
            m.wf(),
            r.wf(),
            0 <= i <= m.keys().len(),
            m.vals().len() == m.keys().len(),
            forall|k: Seq<char>| #[trigger] m@.contains_key(k) <==> m.keys().contains(k),
            forall|j: int| 0 <= j < m.keys().len() ==> #[trigger] m@[m.keys()[j]] == m.vals()[j],
            forall|x: int, y: int| 0 <= x < y < m.keys().len() ==> m.keys()[x] != m.keys()[y],
            r@ == m@.restrict(m.keys().take(i as int).to_set()),
        decreases m.keys().len() - i,
    {
        let k = m.key_at(i);
        let v = *m.value_at(i);
        r.insert(to_owned_string(k), v);
        proof {
            let kv = m.keys()[i as int];
            crate::text::lemma_take_contains(m.keys(), i as int);
            assert(m.keys().take(i + 1).to_set() =~= m.keys().take(i as int).to_set().insert(kv));
            assert(m.keys().contains(kv));
            assert(r@ =~= m@.restrict(m.keys().take(i + 1).to_set()));
        }
        i = i + 1;
    }
    proof {
        assert(m.keys().take(m.keys().len() as int) =~= m.keys());
        assert(m@.restrict(m.keys().to_set()) =~= m@) by {
            assert forall|k: Seq<char>| m@.contains_key(k) implies m.keys().to_set().contains(k) by {}
        }
    }
    r
}

/// A copy of a score table.
fn clone_table(t: &ScoreTable) -> (r: ScoreTable)
    requires
        table_wf(*t),
    ensures
        table_wf(r),
        r@ == t@,
{
    proof {
        t.lemma_view();
    }
    let mut r: ScoreTable = StrMap::new();
    let mut i: usize = 0;
    while i < t.len()
        invariant
            table_wf(*t),
            table_wf(r),
            0 <= i <= t.keys().len(),
            t.vals().len() == t.keys().len(),
            t.raw_vals().len() == t.keys().len(),
            forall|k: Seq<char>| #[trigger] t@.contains_key(k) <==> t.keys().contains(k),
            forall|j: int| 0 <= j < t.keys().len() ==> #[trigger] t@[t.keys()[j]] == t.vals()[j],
            forall|j: int| 0 <= j < t.keys().len() ==> #[trigger] t.raw_vals()[j]@ == t.vals()[j],
            forall|x: int, y: int| 0 <= x < y < t.keys().len() ==> t.keys()[x] != t.keys()[y],
            r@ == t@.restrict(t.keys().take(i as int).to_set()),
        decreases t.keys().len() - i,
    {
        let k = t.key_at(i);
        let v = t.value_at(i);
        assert(t.raw_vals().contains(*v));
        let c = clone_scores(v);
        r.insert(to_owned_string(k), c);
        proof {
            let kv = t.keys()[i as int];
            crate::text::lemma_take_contains(t.keys(), i as int);
            assert(t.keys().take(i + 1).to_set() =~= t.keys().take(i as int).to_set().insert(kv));
            assert(t.keys().contains(kv));
            assert(r@ =~= t@.restrict(t.keys().take(i + 1).to_set()));
            assert forall|x: CandidateScores| #[trigger] r.raw_vals().contains(x) implies x.wf() by {}
        }
        i = i + 1;
    }
    proof {
        assert(t.keys().take(t.keys().len() as int) =~= t.keys());
        assert(t@.restrict(t.keys().to_set()) =~= t@) by {
            assert forall|k: Seq<char>| t@.contains_key(k) implies t.keys().to_set().contains(k) by {}
        }
    }
    r
}

/// The frequency table after importing `content` (see `imported_table`);
/// `None`, with nothing imported, when a score would overflow.
fn import_into_table(freq0: &ScoreTable, content: &str) -> (r: Option<ScoreTable>)
    requires
        table_wf(*freq0),
    ensures
        r is Some <==> imported_table(freq0@, content@) is Some,
        r matches Some(t) ==> table_wf(t) && Some(t@) == imported_table(freq0@, content@),
{
    let mut freq = clone_table(freq0);
    let lines = split_str(content, '\n');
    let ghost lv = str_views(lines@);
    let mut i: usize = 0;
    while i < lines.len()
        invariant
            0 <= i <= lines.len(),
            lv == str_views(lines@),
            lv == split_by(content@, '\n'),
            table_wf(freq),
            Some(freq@) == import_fold(freq0@, lv.take(i as int)),
        decreases lines.len() - i,
    {
        let line = lines[i];
        proof {
            assert(lv.take(i + 1).drop_last() =~= lv.take(i as int));
            assert(lv.take(i + 1).last() == line@);
        }
        match dict_line_entry(line) {
            None => {},
            Some((m, cands)) => {
                let ghost before = freq@;
                let removed = freq.remove(m);
                let mut inner = match removed {
                    Some(v) => v,
                    None => StrMap::new(),
                };
                assert(inner@ == (if before.contains_key(m@) {
                    before[m@]
                } else {
                    Map::empty()
                }));
                if !add_ranked_scores(&mut inner, &cands) {
                    proof {
                        lemma_import_none(freq0@, lv, i + 1);
                    }
                    return None;
                }
                freq.insert(to_owned_string(m), inner);
                proof {
                    assert(freq@ =~= before.insert(m@, inner@));
                    assert forall|x: CandidateScores| #[trigger] freq.raw_vals().contains(x) implies x.wf() by {}
                }
            },
        }
        i = i + 1;
    }
    assert(lv.take(lines.len() as int) =~= lv);
    Some(freq)
}

impl FrequencyPredictor {
    /// Imports a user dictionary (the text of an SKK-JISYO file): each
    /// entry's candidates gain a positional score in the entry's midashi,
    /// `n` for the first of `n`, one less for each next, added to what was
    /// there; okuri blocks (`/[る/着/切/]/`) yield their candidates only.
    /// When the context table is empty the `preset` context data is then
    /// merged in; aliases are expanded either way. Refused, with nothing
    /// changed, when a score would overflow.
    pub fn import_from_skk_dict(&mut self, content: &str, preset: FrequencyPredictorData) -> (r:
        Result<(), ImportError>)
        requires
            old(self).wf(),
            data_wf(preset),
        ensures
            final(self).wf(),
            final(self).storage_path == old(self).storage_path,
            r is Ok <==> imported_table(old(self).frequencies@, content@) is Some,
            r is Err ==> final(self).frequencies@ == old(self).frequencies@
                && final(self).context_frequencies@ == old(self).context_frequencies@,
            r is Ok ==> is_table_expansion(
                imported_table(old(self).frequencies@, content@).unwrap(),
                final(self).frequencies@,
            ),
            r is Ok && old(self).context_frequencies@.dom().len() == 0 ==> is_context_expansion(
                table_max_merge(old(self).context_frequencies@, data_context(preset)),
                final(self).context_frequencies@,
            ),
            r is Ok && old(self).context_frequencies@.dom().len() != 0 ==> is_context_expansion(
                old(self).context_frequencies@,
                final(self).context_frequencies@,
            ),
    {
        match import_into_table(&self.frequencies, content) {
            None => Err(ImportError::ScoreOverflow),
            Some(freq) => {
                self.frequencies = freq;
                if self.context_frequencies.is_empty() {
                    self.merge_default_presets(preset);
                } else {
                    self.expand_aliases();
                }
                Ok(())
            },
        }
    }
}

} // verus!
