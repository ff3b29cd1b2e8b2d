//! Read-only frequency and context data, and the candidate ordering it
//! induces. Nothing is learnt automatically: the tables come from a seed
//! file that the user edits by hand.
use vstd::prelude::*;
use crate::ranking::{
    is_score_sorted, lemma_insert_at, lemma_stable_rank_equal_scores, lemma_stable_rank_sorted,
    stable_rank,
};
use crate::strmap::StrMap;
use crate::alias::{
    expand_context_map_aliases, expand_map_aliases, is_context_expansion, is_table_expansion,
    max_merge, merge_max_into,
};
use crate::text::{
    ascii_lower, ascii_lower_seq, before_char, chars_of, is_ascii_upper, lower_char, str_views,
    string_from_chars, string_views, take_until, to_owned_string, trim, trim_str, trim_char,
    trim_matches_char, split_by, split_str, contains_string,
};

verus! {

broadcast use vstd::seq_lib::group_to_multiset_ensures;

/// Candidate → score.
pub type CandidateScores = StrMap<u64>;

/// Key (a midashi or a context word) → candidate scores.
pub type ScoreTable = StrMap<CandidateScores>;

/// The abstract content of a score table.
pub type TableView = Map<Seq<char>, Map<Seq<char>, u64>>;

/// `std::path::PathBuf`, carried through as the place where the seed lives.
#[verifier::external_type_specification]
#[verifier::external_body]
pub struct ExPathBuf(std::path::PathBuf);

/// Every key is distinct, in the table and in each of its candidate maps.
pub open spec fn table_wf(t: ScoreTable) -> bool {
    &&& t.wf()
    &&& forall|v: CandidateScores| #[trigger] t.raw_vals().contains(v) ==> v.wf()
}

/// Orders candidates by the user's seed data.
pub struct FrequencyPredictor {
    /// midashi → (candidate → count)
    pub frequencies: ScoreTable,
    /// context word → (candidate → co-occurrence count)
    pub context_frequencies: ScoreTable,
    /// Where the seed data is kept.
    pub storage_path: Option<std::path::PathBuf>,
}

/// The content of a seed file.
pub struct FrequencyPredictorData {
    pub frequencies: ScoreTable,
    pub context_frequencies: Option<ScoreTable>,
}

/// The candidate without its annotation (`;` and what follows), trimmed.
pub open spec fn clean_spec(c: Seq<char>) -> Seq<char> {
    trim(take_until(c, ';'))
}

/// Some character is an ASCII upper-case letter.
pub open spec fn has_ascii_upper(s: Seq<char>) -> bool {
    exists|i: int| 0 <= i < s.len() && is_ascii_upper(#[trigger] s[i])
}

/// The candidate map for `midashi`: looked up as given, then, when it holds
/// ASCII capitals, in lower case.
pub open spec fn freq_map_of(freq: TableView, midashi: Seq<char>) -> Option<Map<Seq<char>, u64>> {
    if freq.contains_key(midashi) {
        Some(freq[midashi])
    } else if has_ascii_upper(midashi) && freq.contains_key(ascii_lower_seq(midashi)) {
        Some(freq[ascii_lower_seq(midashi)])
    } else {
        None
    }
}

/// The score of `c` in `m`, zero when absent.
pub open spec fn score_in(m: Map<Seq<char>, u64>, c: Seq<char>) -> nat {
    if m.contains_key(c) {
        m[c] as nat
    } else {
        0
    }
}

/// The score of `c` under one context word.
pub open spec fn context_score(ctx: TableView, word: Seq<char>, c: Seq<char>) -> nat {
    if ctx.contains_key(word) {
        score_in(ctx[word], c)
    } else {
        0
    }
}

/// The score of `c` summed over the context words.
pub open spec fn context_sum(ctx: TableView, context: Seq<Seq<char>>, c: Seq<char>) -> nat
    decreases context.len(),
{
    if context.len() == 0 {
        0
    } else {
        context_sum(ctx, context.drop_last(), c) + context_score(ctx, context.last(), c)
    }
}

/// The frequency part of the score of a (cleaned) candidate.
pub open spec fn freq_score(freq: TableView, midashi: Seq<char>, c: Seq<char>) -> nat {
    match freq_map_of(freq, midashi) {
        Some(m) => score_in(m, c),
        None => 0,
    }
}

/// The score a candidate is ranked by: its frequency plus ten times its
/// context co-occurrence, both looked up by the cleaned candidate.
pub open spec fn total_score(
    freq: TableView,
    ctx: TableView,
    context: Seq<Seq<char>>,
    midashi: Seq<char>,
    cand: Seq<char>,
) -> nat {
    freq_score(freq, midashi, clean_spec(cand)) + 10 * context_sum(ctx, context, clean_spec(cand))
}

/// Some context word has co-occurrence data.
pub open spec fn has_context_rule(ctx: TableView, context: Seq<Seq<char>>) -> bool {
    &&& context.len() > 0
    &&& ctx != TableView::empty()
    &&& exists|i: int| 0 <= i < context.len() && ctx.contains_key(#[trigger] context[i])
}

/// A ranking rule applies: a non-empty frequency map for `midashi`, or
/// co-occurrence data for a context word.
pub open spec fn rules_apply(freq: TableView, ctx: TableView, context: Seq<Seq<char>>, midashi: Seq<char>) -> bool {
    ||| (freq_map_of(freq, midashi) matches Some(m) && m != Map::<Seq<char>, u64>::empty())
    ||| has_context_rule(ctx, context)
}

pub proof fn lemma_context_sum_zero(ctx: TableView, context: Seq<Seq<char>>, c: Seq<char>)
    requires
        forall|i: int| 0 <= i < context.len() ==> !ctx.contains_key(#[trigger] context[i]),
    ensures
        context_sum(ctx, context, c) == 0,
    decreases context.len(),
{
    if context.len() > 0 {
        assert(!ctx.contains_key(context[context.len() - 1]));
        lemma_context_sum_zero(ctx, context.drop_last(), c);
    }
}

/// Without an applicable rule every candidate scores zero.
pub proof fn lemma_no_rule_zero(
    freq: TableView,
    ctx: TableView,
    context: Seq<Seq<char>>,
    midashi: Seq<char>,
    cand: Seq<char>,
)
    requires
        !rules_apply(freq, ctx, context, midashi),
    ensures
        total_score(freq, ctx, context, midashi, cand) == 0,
{
    if ctx == TableView::empty() {
        assert forall|i: int| 0 <= i < context.len() implies !ctx.contains_key(#[trigger] context[i]) by {}
    }
    lemma_context_sum_zero(ctx, context, clean_spec(cand));
    match freq_map_of(freq, midashi) {
        Some(m) => {
            if m.contains_key(clean_spec(cand)) {
                assert(m != Map::<Seq<char>, u64>::empty());
            }
        },
        None => {},
    }
}

pub proof fn lemma_context_sum_prefix(ctx: TableView, context: Seq<Seq<char>>, c: Seq<char>, n: int)
    requires
        0 <= n <= context.len(),
    ensures
        context_sum(ctx, context.take(n), c) <= context_sum(ctx, context, c),
    decreases context.len() - n,
{
    if n < context.len() {
        lemma_context_sum_prefix(ctx, context, c, n + 1);
        assert(context.take(n + 1).drop_last() =~= context.take(n));
    } else {
        assert(context.take(n) =~= context);
    }
}

/// The tables `a` and `b` merged key by key, each candidate keeping its
/// larger score.
pub open spec fn table_max_merge(a: TableView, b: TableView) -> TableView {
    Map::new(
        |k: Seq<char>| a.contains_key(k) || b.contains_key(k),
        |k: Seq<char>|
            if b.contains_key(k) {
                max_merge(
                    if a.contains_key(k) {
                        a[k]
                    } else {
                        Map::empty()
                    },
                    b[k],
                )
            } else {
                a[k]
            },
    )
}

/// Both tables of the seed data have distinct keys at every level.
pub open spec fn data_wf(d: FrequencyPredictorData) -> bool {
    &&& table_wf(d.frequencies)
    &&& d.context_frequencies matches Some(c) ==> table_wf(c)
}

/// The context table of the seed data (empty when absent).
pub open spec fn data_context(d: FrequencyPredictorData) -> TableView {
    match d.context_frequencies {
        Some(c) => c@,
        None => TableView::empty(),
    }
}

/// The scan state over the parts of a dictionary line: inside an okuri
/// block, at the block's first element (the okuri-gana), candidates so far.
pub open spec fn dict_step(st: (bool, bool, Seq<Seq<char>>), part: Seq<char>) -> (bool, bool, Seq<Seq<char>>) {
    let opens = part.len() > 0 && part[0] == '[';
    let p1 = if opens {
        part.drop_first()
    } else {
        part
    };
    let in_bracket = st.0 || opens;
    let first = if opens {
        true
    } else {
        st.1
    };
    let ends = p1.len() > 0 && p1.last() == ']';
    let p = if ends {
        p1.drop_last()
    } else {
        p1
    };
    let cands = st.2;
    let next = if in_bracket && first {
        (false, cands)
    } else if p.len() > 0 && clean_spec(p).len() > 0 && !cands.contains(clean_spec(p)) {
        (first, cands.push(clean_spec(p)))
    } else {
        (first, cands)
    };
    (if ends {
        false
    } else {
        in_bracket
    }, next.0, next.1)
}

/// The scan over the parts of a dictionary line.
pub open spec fn dict_fold(parts: Seq<Seq<char>>) -> (bool, bool, Seq<Seq<char>>)
    decreases parts.len(),
{
    if parts.len() == 0 {
        (false, false, Seq::empty())
    } else {
        dict_step(dict_fold(parts.drop_last()), parts.last())
    }
}

/// The candidates of a dictionary entry's candidate part
/// (`/[る/着/切/]/[り/切/]/` or `/変換/返還/`): okuri-gana headers of
/// bracket blocks skipped, annotations removed, repeats dropped.
pub open spec fn dict_candidates_spec(cands_part: Seq<char>) -> Seq<Seq<char>> {
    let t = trim_char(cands_part, '/');
    if t.len() == 0 {
        Seq::empty()
    } else {
        dict_fold(split_by(t, '/')).2
    }
}

// ---------------------------------------------------------------------------
// Executable code
// ---------------------------------------------------------------------------

/// The candidate without its annotation (`;` and what follows), trimmed.
pub fn clean_candidate(cand: &str) -> (r: &str)
    ensures
        r@ == clean_spec(cand@),
{
    trim_str(before_char(cand, ';'))
}

/// The candidates of a dictionary entry's candidate part (see
/// `dict_candidates_spec`): `/[る/着/切;注釈/伐/]/[り/切/]/` gives 着, 切, 伐.
pub fn parse_dict_line_candidates(cands_part: &str) -> (r: Vec<String>)
    ensures
        string_views(r@) == dict_candidates_spec(cands_part@),
{
    let mut candidates: Vec<String> = Vec::new();
    let trimmed = trim_matches_char(cands_part, '/');
    if chars_of(trimmed).len() == 0 {
        return candidates;
    }
    let parts = split_str(trimmed, '/');
    let ghost pv = crate::text::str_views(parts@);
    let mut in_bracket = false;
    let mut is_first_in_bracket = false;
    let mut i: usize = 0;
    while i < parts.len()
        invariant
            0 <= i <= parts.len(),
            pv == crate::text::str_views(parts@),
            (in_bracket, is_first_in_bracket, string_views(candidates@)) == dict_fold(pv.take(i as int)),
        decreases parts.len() - i,
    {
        let part = parts[i];
        proof {
            assert(pv.take(i + 1).drop_last() =~= pv.take(i as int));
            assert(pv.take(i + 1).last() == part@);
        }
        let pc = chars_of(part);
        let mut p: &str = part;
        let mut plen: usize = pc.len();
        if pc.len() > 0 && pc[0] == '[' {
            in_bracket = true;
            is_first_in_bracket = true;
            p = part.substring_char(1, pc.len());
            plen = pc.len() - 1;
            assert(p@ == part@.drop_first());
        }
        let pchars = chars_of(p);
        let ends_bracket = plen > 0 && pchars[plen - 1] == ']';
        if ends_bracket {
            p = p.substring_char(0, plen - 1);
            plen = plen - 1;
        }
        if in_bracket && is_first_in_bracket {
            is_first_in_bracket = false;
        } else if plen > 0 {
            let cand_text = clean_candidate(p);
            if chars_of(cand_text).len() > 0 && !contains_string(candidates.as_slice(), cand_text) {
                let ghost before = candidates@;
                candidates.push(to_owned_string(cand_text));
                assert(string_views(candidates@) =~= string_views(before).push(cand_text@));
            }
        }
        if ends_bracket {
            in_bracket = false;
        }
        i = i + 1;
    }
    assert(pv.take(parts.len() as int) =~= pv);
    candidates
}

/// `str::to_ascii_lowercase`.
pub fn ascii_lowercase(s: &str) -> (r: String)
    ensures
        r@ == ascii_lower_seq(s@),
{
    let cs = chars_of(s);
    let mut out: Vec<char> = Vec::new();
    let mut i: usize = 0;
    while i < cs.len()
        invariant
            0 <= i <= cs.len(),
            cs@ == s@,
            out@ == ascii_lower_seq(s@.take(i as int)),
        decreases cs.len() - i,
    {
        out.push(lower_char(cs[i]));
        assert(ascii_lower_seq(s@.take(i + 1)) =~= ascii_lower_seq(s@.take(i as int)).push(
            ascii_lower(cs@[i as int]),
        ));
        i = i + 1;
    }
    assert(s@.take(cs.len() as int) =~= s@);
    string_from_chars(out.as_slice())
}

/// Whether `s` holds an ASCII capital.
pub fn contains_ascii_upper(s: &str) -> (r: bool)
    ensures
        r == has_ascii_upper(s@),
{
    let cs = chars_of(s);
    let mut i: usize = 0;
    while i < cs.len()
        invariant
            0 <= i <= cs.len(),
            cs@ == s@,
            forall|j: int| 0 <= j < i ==> !is_ascii_upper(#[trigger] s@[j]),
        decreases cs.len() - i,
    {
        if 'A' <= cs[i] && cs[i] <= 'Z' {
            assert(is_ascii_upper(s@[i as int]));
            return true;
        }
        i = i + 1;
    }
    false
}

/// The score of `target` in `m`, zero when absent.
pub fn get_score(m: &CandidateScores, target: &str) -> (r: u64)
    requires
        m.wf(),
    ensures
        r == score_in(m@, target@),
{
    match m.get(target) {
        Some(v) => *v,
        None => 0,
    }
}

impl FrequencyPredictor {
    /// Both tables have distinct keys at every level.
    pub open spec fn wf(&self) -> bool {
        table_wf(self.frequencies) && table_wf(self.context_frequencies)
    }

    /// An empty predictor that keeps `storage_path` as the seed's location.
    pub fn new(storage_path: Option<std::path::PathBuf>) -> (p: Self)
        ensures
            p.wf(),
            p.frequencies@ == TableView::empty(),
            p.context_frequencies@ == TableView::empty(),
            p.storage_path == storage_path,
    {
        FrequencyPredictor {
            frequencies: StrMap::new(),
            context_frequencies: StrMap::new(),
            storage_path,
        }
    }

    /// Adds the prefix aliases of every key (`切る` is also found as `切`),
    /// so that scores are matched with a single lookup.
    pub fn expand_aliases(&mut self)
        requires
            old(self).wf(),
        ensures
            final(self).wf(),
            is_table_expansion(old(self).frequencies@, final(self).frequencies@),
            is_context_expansion(old(self).context_frequencies@, final(self).context_frequencies@),
            final(self).storage_path == old(self).storage_path,
    {
        self.frequencies = expand_map_aliases(&self.frequencies);
        self.context_frequencies = expand_context_map_aliases(&self.context_frequencies);
    }

    /// Merges the context co-occurrence data of `preset` into this
    /// predictor, each pair keeping its larger score, then expands aliases.
    /// The frequency table is kept as it is (apart from its aliases).
    pub fn merge_default_presets(&mut self, preset: FrequencyPredictorData)
        requires
            old(self).wf(),
            data_wf(preset),
        ensures
            final(self).wf(),
            is_table_expansion(old(self).frequencies@, final(self).frequencies@),
            is_context_expansion(
                table_max_merge(old(self).context_frequencies@, data_context(preset)),
                final(self).context_frequencies@,
            ),
            final(self).storage_path == old(self).storage_path,
    {
        let ghost a = self.context_frequencies@;
        let ghost b = data_context(preset);
        match preset.context_frequencies {
            Some(ctx_map) => {
                proof {
                    ctx_map.lemma_view();
                }
                let mut i: usize = 0;
                while i < ctx_map.len()
                    invariant
                        self.wf(),
                        table_wf(ctx_map),
                        b == ctx_map@,
                        self.frequencies@ == old(self).frequencies@,
                        self.storage_path == old(self).storage_path,
                        0 <= i <= ctx_map.keys().len(),
                        ctx_map.vals().len() == ctx_map.keys().len(),
                        forall|k: Seq<char>| #[trigger] ctx_map@.contains_key(k) <==> ctx_map.keys().contains(k),
                        forall|j: int| 0 <= j < ctx_map.keys().len() ==> #[trigger] ctx_map@[ctx_map.keys()[j]] == ctx_map.vals()[j],
                        forall|j: int| 0 <= j < ctx_map.keys().len() ==> #[trigger] ctx_map.raw_vals()[j]@ == ctx_map.vals()[j],
                        forall|x: int, y: int| 0 <= x < y < ctx_map.keys().len() ==> ctx_map.keys()[x] != ctx_map.keys()[y],
                        ctx_map.raw_vals().len() == ctx_map.keys().len(),
                        self.context_frequencies@ == table_max_merge(a, b.restrict(ctx_map.keys().take(i as int).to_set())),
                    decreases ctx_map.keys().len() - i,
                {
                    let key = ctx_map.key_at(i);
                    let cands = ctx_map.value_at(i);
                    assert(ctx_map.raw_vals().contains(*cands));
                    let ghost before = self.context_frequencies@;
                    let mut entry = match self.context_frequencies.remove(key) {
                        Some(v) => v,
                        None => StrMap::new(),
                    };
                    merge_max_into(&mut entry, cands);
                    self.context_frequencies.insert(to_owned_string(key), entry);
                    proof {
                        let kv = ctx_map.keys()[i as int];
                        crate::text::lemma_take_contains(ctx_map.keys(), i as int);
                        assert(ctx_map.keys().take(i + 1).to_set() =~= ctx_map.keys().take(i as int).to_set().insert(kv));
                        assert(!ctx_map.keys().take(i as int).to_set().contains(kv)) by {
                            if ctx_map.keys().take(i as int).contains(kv) {
                                let j = choose|j: int| 0 <= j < i && #[trigger] ctx_map.keys().take(i as int)[j] == kv;
                                assert(ctx_map.keys()[j] == ctx_map.keys()[i as int]);
                            }
                        }
                        assert(ctx_map.keys().contains(kv));
                        assert(self.context_frequencies@ =~= table_max_merge(
                            a,
                            b.restrict(ctx_map.keys().take(i + 1).to_set()),
                        ));
                        assert forall|x: CandidateScores| #[trigger] self.context_frequencies.raw_vals().contains(x) implies x.wf() by {}
                    }
                    i = i + 1;
                }
                proof {
                    assert(ctx_map.keys().take(ctx_map.keys().len() as int) =~= ctx_map.keys());
                    assert(b.restrict(ctx_map.keys().to_set()) =~= b) by {
                        assert forall|k: Seq<char>| b.contains_key(k) implies ctx_map.keys().to_set().contains(k) by {}
                    }
                }
            },
            None => {
                assert(self.context_frequencies@ =~= table_max_merge(a, b));
            },
        }
        self.expand_aliases();
    }

    /// Replaces the seed data with `preset` when `force` holds; otherwise
    /// merges the preset's context data into the current data.
    pub fn init_seed(&mut self, force: bool, preset: FrequencyPredictorData)
        requires
            old(self).wf(),
            data_wf(preset),
        ensures
            final(self).wf(),
            final(self).storage_path == old(self).storage_path,
            force ==> is_table_expansion(preset.frequencies@, final(self).frequencies@),
            force ==> is_context_expansion(data_context(preset), final(self).context_frequencies@),
            !force ==> is_table_expansion(old(self).frequencies@, final(self).frequencies@),
            !force ==> is_context_expansion(
                table_max_merge(old(self).context_frequencies@, data_context(preset)),
                final(self).context_frequencies@,
            ),
    {
        if force {
            self.frequencies = preset.frequencies;
            self.context_frequencies = match preset.context_frequencies {
                Some(c) => c,
                None => StrMap::new(),
            };
            self.expand_aliases();
        } else {
            self.merge_default_presets(preset);
        }
    }

    /// The co-occurrence map of a context word.
    fn get_context_map(&self, ctx: &str) -> (r: Option<&CandidateScores>)
        requires
            self.wf(),
        ensures
            r is Some <==> self.context_frequencies@.contains_key(ctx@),
            r matches Some(m) ==> m@ == self.context_frequencies@[ctx@] && m.wf(),
    {
        self.context_frequencies.get(ctx)
    }

    /// The frequency map of `midashi`, retried in lower case when it holds
    /// ASCII capitals (`てだR` finds the data of `てだr`).
    fn get_freq_map(&self, midashi: &str) -> (r: Option<&CandidateScores>)
        requires
            self.wf(),
        ensures
            r is Some <==> freq_map_of(self.frequencies@, midashi@) is Some,
            r matches Some(m) ==> m@ == freq_map_of(self.frequencies@, midashi@).unwrap() && m.wf(),
    {
        if let Some(m) = self.frequencies.get(midashi) {
            return Some(m);
        }
        if contains_ascii_upper(midashi) {
            let lower = ascii_lowercase(midashi);
            return self.frequencies.get(lower.as_str());
        }
        None
    }

    /// Whether a ranking rule exists for `midashi` or the current context;
    /// when it does not, the upstream order can be passed on untouched.
    pub fn should_rank(&self, context: &[String], midashi: &str) -> (r: bool)
        requires
            self.wf(),
        ensures
            r == rules_apply(
                self.frequencies@,
                self.context_frequencies@,
                string_views(context@),
                midashi@,
            ),
    {
        let ghost cv = string_views(context@);
        if let Some(m) = self.get_freq_map(midashi) {
            if !m.is_empty() {
                return true;
            }
        }
        if context.len() > 0 && !self.context_frequencies.is_empty() {
            let mut i: usize = 0;
            while i < context.len()
                invariant
                    self.wf(),
                    0 <= i <= context.len(),
                    cv == string_views(context@),
                    forall|j: int| 0 <= j < i ==> !self.context_frequencies@.contains_key(#[trigger] cv[j]),
                decreases context.len() - i,
            {
                if self.get_context_map(context[i].as_str()).is_some() {
                    assert(cv[i as int] == context@[i as int]@);
                    return true;
                }
                i = i + 1;
            }
        }
        false
    }

    /// Whether every candidate's score fits in a `u64`.
    pub open spec fn scores_fit_spec(&self, context: Seq<Seq<char>>, midashi: Seq<char>, cands: Seq<Seq<char>>) -> bool {
        forall|i: int| 0 <= i < cands.len() ==> #[trigger] total_score(
            self.frequencies@,
            self.context_frequencies@,
            context,
            midashi,
            cands[i],
        ) <= u64::MAX
    }

    /// The ranking score of a candidate, `None` when it does not fit in a `u64`.
    fn score_of(&self, context: &[String], midashi: &str, cand: &str) -> (r: Option<u64>)
        requires
            self.wf(),
        ensures
            r is Some <==> total_score(
                self.frequencies@,
                self.context_frequencies@,
                string_views(context@),
                midashi@,
                cand@,
            ) <= u64::MAX,
            r matches Some(v) ==> v == total_score(
                self.frequencies@,
                self.context_frequencies@,
                string_views(context@),
                midashi@,
                cand@,
            ),
    {
        let ghost cv = string_views(context@);
        let ghost total = total_score(
            self.frequencies@,
            self.context_frequencies@,
            cv,
            midashi@,
            cand@,
        );
        let clean = clean_candidate(cand);
        let global: u64 = match self.get_freq_map(midashi) {
            Some(m) => get_score(m, clean),
            None => 0,
        };
        let mut ctx_sum: u64 = 0;
        let mut i: usize = 0;
        while i < context.len()
            invariant
                self.wf(),
                0 <= i <= context.len(),
                cv == string_views(context@),
                clean@ == clean_spec(cand@),
                ctx_sum == context_sum(self.context_frequencies@, cv.take(i as int), clean@),
                total == total_score(self.frequencies@, self.context_frequencies@, cv, midashi@, cand@),
            decreases context.len() - i,
        {
            let add: u64 = match self.get_context_map(context[i].as_str()) {
                Some(m) => get_score(m, clean),
                None => 0,
            };
            proof {
                assert(cv.take(i + 1).drop_last() =~= cv.take(i as int));
                assert(cv.take(i + 1).last() == context@[i as int]@);
                lemma_context_sum_prefix(self.context_frequencies@, cv, clean@, i + 1);
            }
            ctx_sum = match ctx_sum.checked_add(add) {
                Some(v) => v,
                None => {
                    return None;
                },
            };
            i = i + 1;
        }
        assert(cv.take(context.len() as int) =~= cv);
        let scaled = match ctx_sum.checked_mul(10) {
            Some(v) => v,
            None => {
                return None;
            },
        };
        global.checked_add(scaled)
    }

    /// Whether every candidate's score fits in a `u64` (ranking computes the
    /// scores in `u64`).
    pub fn scores_fit(&self, context: &[String], midashi: &str, candidates: &[&str]) -> (r: bool)
        requires
            self.wf(),
        ensures
            r == self.scores_fit_spec(string_views(context@), midashi@, str_views(candidates@)),
    {
        let mut i: usize = 0;
        while i < candidates.len()
            invariant
                self.wf(),
                0 <= i <= candidates.len(),
                forall|j: int| 0 <= j < i ==> #[trigger] total_score(
                    self.frequencies@,
                    self.context_frequencies@,
                    string_views(context@),
                    midashi@,
                    str_views(candidates@)[j],
                ) <= u64::MAX,
            decreases candidates.len() - i,
        {
            assert(str_views(candidates@)[i as int] == candidates@[i as int]@);
            if self.score_of(context, midashi, candidates[i]).is_none() {
                return false;
            }
            i = i + 1;
        }
        true
    }

    /// The ranking score function over candidate views.
    pub open spec fn rank_score(&self, context: Seq<Seq<char>>, midashi: Seq<char>) -> spec_fn(Seq<char>) -> int {
        |c: Seq<char>| total_score(self.frequencies@, self.context_frequencies@, context, midashi, c) as int
    }

    /// Orders `candidates` by descending score (frequency of the cleaned
    /// candidate for `midashi`, plus ten times its co-occurrence with the
    /// context words); candidates of equal score keep their order.
    pub fn rank_candidates_borrowed<'a>(
        &self,
        context: &[String],
        midashi: &str,
        candidates: &[&'a str],
    ) -> (r: Vec<&'a str>)
        requires
            self.wf(),
            candidates.len() <= 1 || !rules_apply(
                self.frequencies@,
                self.context_frequencies@,
                string_views(context@),
                midashi@,
            ) || self.scores_fit_spec(string_views(context@), midashi@, str_views(candidates@)),
        ensures
            str_views(r@) == stable_rank(
                str_views(candidates@),
                self.rank_score(string_views(context@), midashi@),
            ),
    {
        let ghost cv = string_views(context@);
        let ghost f = self.rank_score(cv, midashi@);
        let ghost views = str_views(candidates@);
        let mut copy: Vec<&'a str> = Vec::new();
        let mut k: usize = 0;
        while k < candidates.len()
            invariant
                0 <= k <= candidates.len(),
                copy@ == candidates@.take(k as int),
            decreases candidates.len() - k,
        {
            copy.push(candidates[k]);
            assert(candidates@.take(k + 1) =~= candidates@.take(k as int).push(candidates@[k as int]));
            k = k + 1;
        }
        assert(candidates@.take(candidates.len() as int) =~= candidates@);
        if candidates.len() <= 1 || !self.should_rank(context, midashi) {
            proof {
                if candidates.len() > 1 {
                    assert forall|i: int, j: int| 0 <= i < views.len() && 0 <= j < views.len() implies f(
                        views[i],
                    ) == f(views[j]) by {
                        lemma_no_rule_zero(self.frequencies@, self.context_frequencies@, cv, midashi@, views[i]);
                        lemma_no_rule_zero(self.frequencies@, self.context_frequencies@, cv, midashi@, views[j]);
                    }
                }
                lemma_stable_rank_equal_scores(views, f);
            }
            return copy;
        }
        let mut ranked: Vec<&'a str> = Vec::new();
        let mut scores: Vec<u64> = Vec::new();
        let mut i: usize = 0;
        while i < candidates.len()
            invariant
                self.wf(),
                0 <= i <= candidates.len(),
                cv == string_views(context@),
                views == str_views(candidates@),
                f == self.rank_score(cv, midashi@),
                self.scores_fit_spec(cv, midashi@, views),
                str_views(ranked@) == stable_rank(views.take(i as int), f),
                scores@.len() == ranked@.len(),
                forall|j: int| 0 <= j < scores@.len() ==> scores@[j] as int == f(#[trigger] ranked@[j]@),
            decreases candidates.len() - i,
        {
            let cand = candidates[i];
            assert(views[i as int] == cand@);
            let s = match self.score_of(context, midashi, cand) {
                Some(s) => s,
                None => {
                    assert(false);
                    0
                },
            };
            let mut j: usize = ranked.len();
            while j > 0 && scores[j - 1] < s
                invariant
                    0 <= j <= ranked@.len(),
                    scores@.len() == ranked@.len(),
                    forall|k: int| j <= k < scores@.len() ==> scores@[k] < s,
                decreases j,
            {
                j = j - 1;
            }
            let ghost before = str_views(ranked@);
            proof {
                assert forall|k: int| j <= k < before.len() implies f(before[k]) < f(cand@) by {
                    assert(before[k] == ranked@[k]@);
                    assert(scores@[k] as int == f(ranked@[k]@));
                }
                if j > 0 {
                    assert(before[j - 1] == ranked@[j - 1]@);
                    assert(scores@[j - 1] as int == f(ranked@[j - 1]@));
                }
                lemma_insert_at(before, cand@, f, j as int);
                assert(views.take(i + 1).drop_last() =~= views.take(i as int));
            }
            let ghost old_scores = scores@;
            let ghost old_ranked = ranked@;
            ranked.insert(j, cand);
            scores.insert(j, s);
            proof {
                assert(str_views(ranked@) =~= before.insert(j as int, cand@));
                assert forall|k: int| 0 <= k < scores@.len() implies scores@[k] as int == f(
                    #[trigger] ranked@[k]@,
                ) by {
                    if k < j {
                        assert(scores@[k] == old_scores[k] && ranked@[k] == old_ranked[k]);
                    } else if k > j {
                        assert(scores@[k] == old_scores[k - 1] && ranked@[k] == old_ranked[k - 1]);
                    }
                }
            }
            i = i + 1;
        }
        assert(views.take(candidates.len() as int) =~= views);
        ranked
    }

    /// Owned variant of [`Self::rank_candidates_borrowed`].
    pub fn rank_candidates(&self, context: &[String], midashi: &str, candidates: &[String]) -> (r: Vec<String>)
        requires
            self.wf(),
            candidates.len() <= 1 || !rules_apply(
                self.frequencies@,
                self.context_frequencies@,
                string_views(context@),
                midashi@,
            ) || self.scores_fit_spec(string_views(context@), midashi@, string_views(candidates@)),
        ensures
            string_views(r@) == stable_rank(
                string_views(candidates@),
                self.rank_score(string_views(context@), midashi@),
            ),
    {
        let mut borrowed: Vec<&str> = Vec::new();
        let mut i: usize = 0;
        while i < candidates.len()
            invariant
                0 <= i <= candidates.len(),
                borrowed@.len() == i,
                str_views(borrowed@) == string_views(candidates@).take(i as int),
            decreases candidates.len() - i,
        {
            let ghost before = borrowed@;
            borrowed.push(candidates[i].as_str());
            assert(borrowed@[i as int]@ == candidates@[i as int]@);
            assert(str_views(borrowed@) =~= str_views(before).push(candidates@[i as int]@));
            assert(string_views(candidates@).take(i + 1) =~= string_views(candidates@).take(i as int).push(candidates@[i as int]@));
            i = i + 1;
        }
        assert(string_views(candidates@).take(candidates.len() as int) =~= string_views(candidates@));
        let ranked = self.rank_candidates_borrowed(context, midashi, borrowed.as_slice());
        let mut out: Vec<String> = Vec::new();
        let mut k: usize = 0;
        while k < ranked.len()
            invariant
                0 <= k <= ranked.len(),
                out@.len() == k,
                string_views(out@) == str_views(ranked@).take(k as int),
            decreases ranked.len() - k,
        {
            let ghost before = out@;
            out.push(to_owned_string(ranked[k]));
            assert(string_views(out@) =~= string_views(before).push(ranked@[k as int]@));
            assert(str_views(ranked@).take(k + 1) =~= str_views(ranked@).take(k as int).push(ranked@[k as int]@));
            k = k + 1;
        }
        assert(str_views(ranked@).take(ranked.len() as int) =~= str_views(ranked@));
        out
    }
}

/// Skipping ranking when no rule applies leaves the upstream order as it is.
pub proof fn law_no_rule_keeps_order(
    p: FrequencyPredictor,
    context: Seq<Seq<char>>,
    midashi: Seq<char>,
    cands: Seq<Seq<char>>,
)
    requires
        !rules_apply(p.frequencies@, p.context_frequencies@, context, midashi),
    ensures
        stable_rank(cands, p.rank_score(context, midashi)) == cands,
{
    let f = p.rank_score(context, midashi);
    assert forall|i: int, j: int| 0 <= i < cands.len() && 0 <= j < cands.len() implies f(cands[i]) == f(
        cands[j],
    ) by {
        lemma_no_rule_zero(p.frequencies@, p.context_frequencies@, context, midashi, cands[i]);
        lemma_no_rule_zero(p.frequencies@, p.context_frequencies@, context, midashi, cands[j]);
    }
    lemma_stable_rank_equal_scores(cands, f);
}

/// Ranking returns the candidates it was given, highest score first.
pub proof fn law_rank_is_sorted_permutation(
    p: FrequencyPredictor,
    context: Seq<Seq<char>>,
    midashi: Seq<char>,
    cands: Seq<Seq<char>>,
)
    ensures
        is_score_sorted(stable_rank(cands, p.rank_score(context, midashi)), p.rank_score(context, midashi)),
        stable_rank(cands, p.rank_score(context, midashi)).to_multiset() == cands.to_multiset(),
{
    lemma_stable_rank_sorted(cands, p.rank_score(context, midashi));
}

/// `expand_aliases` is idempotent: when `once` is what one call made of
/// `before` and `twice` what a second call made of `once` (their
/// `ensures`), both tables of `twice` equal those of `once`.
pub proof fn law_expand_aliases_idempotent(before: FrequencyPredictor, once: FrequencyPredictor, twice: FrequencyPredictor)
    requires
        is_table_expansion(before.frequencies@, once.frequencies@),
        is_context_expansion(before.context_frequencies@, once.context_frequencies@),
        is_table_expansion(once.frequencies@, twice.frequencies@),
        is_context_expansion(once.context_frequencies@, twice.context_frequencies@),
    ensures
        twice.frequencies@ == once.frequencies@,
        twice.context_frequencies@ == once.context_frequencies@,
{
    crate::alias::law_table_expansion_idempotent(before.frequencies@, once.frequencies@, twice.frequencies@);
    crate::alias::law_context_expansion_idempotent(
        before.context_frequencies@,
        once.context_frequencies@,
        twice.context_frequencies@,
    );
}

/// The ranking score is the sum of its two parts: the score under the
/// frequency table alone plus the score under the context table alone. So
/// raising a candidate's co-occurrence never lowers it below a candidate
/// it beat on frequency, and the parts never replace one another.
pub proof fn law_score_adds_frequency_and_context(
    freq: TableView,
    ctx: TableView,
    context: Seq<Seq<char>>,
    midashi: Seq<char>,
    cand: Seq<char>,
)
    ensures
        total_score(freq, ctx, context, midashi, cand) == total_score(freq, TableView::empty(), context, midashi, cand)
            + total_score(TableView::empty(), ctx, context, midashi, cand),
{
    lemma_context_sum_zero(TableView::empty(), context, clean_spec(cand));
    assert(freq_map_of(TableView::empty(), midashi) is None);
}

/// With only a frequency entry `v` for the candidate's cleaned form under
/// its midashi, the score is `v`.
pub proof fn law_score_of_frequency(midashi: Seq<char>, cand: Seq<char>, v: u64, context: Seq<Seq<char>>)
    ensures
        total_score(
            map![midashi => map![clean_spec(cand) => v]],
            TableView::empty(),
            context,
            midashi,
            cand,
        ) == v,
{
    lemma_context_sum_zero(TableView::empty(), context, clean_spec(cand));
}

/// With only one context word holding co-occurrence `x` for the
/// candidate's cleaned form, and that word as the context, the score is
/// ten times `x`.
pub proof fn law_score_of_context(word: Seq<char>, midashi: Seq<char>, cand: Seq<char>, x: u64)
    ensures
        total_score(
            TableView::empty(),
            map![word => map![clean_spec(cand) => x]],
            seq![word],
            midashi,
            cand,
        ) == 10 * x,
{
    let ctx = map![word => map![clean_spec(cand) => x]];
    let c = clean_spec(cand);
    assert(seq![word].drop_last() =~= Seq::<Seq<char>>::empty());
    assert(context_sum(ctx, seq![word].drop_last(), c) == 0);
    assert(seq![word].last() == word);
    assert(context_score(ctx, word, c) == x);
    assert(context_sum(ctx, seq![word], c) == x);
    assert(freq_map_of(TableView::empty(), midashi) is None);
}

} // verus!
