//! Okuri-ari midashi: recognising them (`かk`, `交ぜGak`, `ねあ*げ`),
//! expanding them into the conjugated readings that are looked up, and
//! recovering stems from the candidates that come back.
use vstd::prelude::*;
use std::borrow::Cow;
use crate::frequency::{ascii_lowercase, clean_candidate, clean_spec};
use crate::text::{
    all_ascii, ascii_lower, ascii_lower_seq, char_count, chars_of, concat_str, contains_str,
    has_suffix, is_ascii_alpha, is_ascii_upper, lemma_take_until_prefix, lower_char, push_char,
    str_eq, str_views, strip_suffix_str, take_until, to_owned_string,
};

verus! {

// ---------------------------------------------------------------------------
// Recognition
// ---------------------------------------------------------------------------

/// The abstract form of a parsed okuri-ari midashi.
pub enum OkuriForm {
    Simple { stem: Seq<char>, key: char },
    Compound { prefix: Seq<char>, romaji: Seq<char>, okuri_key: char },
    Explicit { prefix: Seq<char>, suffix: Seq<char> },
}

/// The kind of a parsed okuri-ari midashi.
#[derive(Debug, PartialEq, Eq, Clone)]
pub enum OkuriMidashi<'a> {
    /// An ordinary okuri-ari midashi (`かk`, `きr`, `まぜがk`).
    Simple { stem: &'a str, key: char },
    /// A compound with an upper-case romaji chunk (`交ぜGak`, `交ぜGk`).
    Compound { prefix: &'a str, romaji: &'a str, okuri_key: char },
    /// An explicit okuri-gana after `*` (`ねあ*げ`).
    Explicit { prefix: &'a str, suffix: &'a str },
}

impl<'a> View for OkuriMidashi<'a> {
    type V = OkuriForm;

    open spec fn view(&self) -> OkuriForm {
        match self {
            OkuriMidashi::Simple { stem, key } => OkuriForm::Simple { stem: stem@, key: *key },
            OkuriMidashi::Compound { prefix, romaji, okuri_key } => OkuriForm::Compound {
                prefix: prefix@,
                romaji: romaji@,
                okuri_key: *okuri_key,
            },
            OkuriMidashi::Explicit { prefix, suffix } => OkuriForm::Explicit {
                prefix: prefix@,
                suffix: suffix@,
            },
        }
    }
}

/// The number of ASCII letters at the end of `s`.
pub open spec fn trailing_alpha_len(s: Seq<char>) -> nat
    decreases s.len(),
{
    if s.len() > 0 && is_ascii_alpha(s.last()) {
        trailing_alpha_len(s.drop_last()) + 1
    } else {
        0
    }
}

/// A midashi ending in ASCII letters: a compound (`交ぜGak`) when the
/// letters start with a capital that begins a known romaji chunk, a simple
/// okuri-ari midashi when there is one letter, after a non-ASCII prefix.
pub open spec fn parse_tail_spec(m: Seq<char>) -> Option<OkuriForm> {
    let a = trailing_alpha_len(m);
    let prefix = m.subrange(0, m.len() - a);
    let alpha = m.subrange(m.len() - a, m.len() as int);
    if a == 0 || prefix.len() == 0 || all_ascii(prefix) {
        None
    } else if is_ascii_upper(alpha[0]) && a >= 2 && romaji_table(ascii_lower_seq(alpha.drop_last())) is Some {
        Some(OkuriForm::Compound {
            prefix,
            romaji: alpha.drop_last(),
            okuri_key: ascii_lower(alpha.last()),
        })
    } else if a == 1 {
        Some(OkuriForm::Simple { stem: prefix, key: alpha[0] })
    } else {
        None
    }
}

/// How a midashi reads as okuri-ari: an explicit `*` split with text on both
/// sides first (a single ASCII letter after it is a key), then the forms of
/// `parse_tail_spec`.
pub open spec fn parse_okuri_spec(m: Seq<char>) -> Option<OkuriForm> {
    let prefix = take_until(m, '*');
    if prefix.len() < m.len() && prefix.len() > 0 && prefix.len() + 1 < m.len() {
        let suffix = m.subrange(prefix.len() + 1int, m.len() as int);
        if suffix.len() == 1 && is_ascii_alpha(suffix[0]) {
            Some(OkuriForm::Simple { stem: prefix, key: ascii_lower(suffix[0]) })
        } else {
            Some(OkuriForm::Explicit { prefix, suffix })
        }
    } else {
        parse_tail_spec(m)
    }
}

/// The `(stem, key)` pair of an okuri-ari midashi.
pub open spec fn okuri_pair_spec(m: Seq<char>) -> Option<(Seq<char>, char)> {
    match parse_okuri_spec(m) {
        None => None,
        Some(OkuriForm::Simple { stem, key }) => Some((stem, key)),
        Some(OkuriForm::Compound { prefix, romaji, okuri_key }) => Some((prefix, okuri_key)),
        Some(OkuriForm::Explicit { prefix, suffix }) => Some((prefix, ascii_lower(suffix[0]))),
    }
}

/// The romaji letter an okuri-gana starts with, as SKK keys okuri-ari
/// midashi by it (`れ` → `r`, `っ` → `t`, `じ` → `j`); an ASCII letter is
/// lower-cased; any other character is kept.
pub open spec fn romaji_key(c: char) -> char {
    if is_ascii_alpha(c) {
        ascii_lower(c)
    } else if c == 'あ' || c == 'ぁ' {
        'a'
    } else if c == 'い' || c == 'ぃ' {
        'i'
    } else if c == 'う' || c == 'ぅ' {
        'u'
    } else if c == 'え' || c == 'ぇ' {
        'e'
    } else if c == 'お' || c == 'ぉ' {
        'o'
    } else if c == 'か' || c == 'き' || c == 'く' || c == 'け' || c == 'こ' {
        'k'
    } else if c == 'が' || c == 'ぎ' || c == 'ぐ' || c == 'げ' || c == 'ご' {
        'g'
    } else if c == 'さ' || c == 'し' || c == 'す' || c == 'せ' || c == 'そ' {
        's'
    } else if c == 'じ' {
        'j'
    } else if c == 'ざ' || c == 'ず' || c == 'ぜ' || c == 'ぞ' {
        'z'
    } else if c == 'た' || c == 'ち' || c == 'つ' || c == 'て' || c == 'と' || c == 'っ' {
        't'
    } else if c == 'だ' || c == 'ぢ' || c == 'づ' || c == 'で' || c == 'ど' {
        'd'
    } else if c == 'な' || c == 'に' || c == 'ぬ' || c == 'ね' || c == 'の' || c == 'ん' {
        'n'
    } else if c == 'は' || c == 'ひ' || c == 'ふ' || c == 'へ' || c == 'ほ' {
        'h'
    } else if c == 'ば' || c == 'び' || c == 'ぶ' || c == 'べ' || c == 'ぼ' {
        'b'
    } else if c == 'ぱ' || c == 'ぴ' || c == 'ぷ' || c == 'ぺ' || c == 'ぽ' {
        'p'
    } else if c == 'ま' || c == 'み' || c == 'む' || c == 'め' || c == 'も' {
        'm'
    } else if c == 'や' || c == 'ゆ' || c == 'よ' || c == 'ゃ' || c == 'ゅ' || c == 'ょ' {
        'y'
    } else if c == 'ら' || c == 'り' || c == 'る' || c == 'れ' || c == 'ろ' {
        'r'
    } else if c == 'わ' || c == 'を' {
        'w'
    } else {
        c
    }
}

/// The normalised key of a midashi: stem plus the romaji letter of its key
/// when it is okuri-ari (`てだR`, `てだ*れ` → `てだr`), the midashi itself
/// otherwise.
pub open spec fn normalized_key_spec(m: Seq<char>) -> Seq<char> {
    match okuri_pair_spec(m) {
        Some((stem, key)) => stem.push(romaji_key(key)),
        None => m,
    }
}

pub proof fn lemma_trailing_alpha_at(s: Seq<char>, e: int)
    requires
        0 <= e <= s.len(),
        forall|j: int| e <= j < s.len() ==> is_ascii_alpha(s[j]),
        e == 0 || !is_ascii_alpha(s[e - 1]),
    ensures
        trailing_alpha_len(s) == s.len() - e,
    decreases s.len(),
{
    if s.len() > e {
        assert forall|j: int| e <= j < s.drop_last().len() implies is_ascii_alpha(s.drop_last()[j]) by {
            assert(s.drop_last()[j] == s[j]);
        }
        lemma_trailing_alpha_at(s.drop_last(), e);
    }
}

/// Parses an okuri-ari midashi in any of its three forms.
pub fn parse_okuri_midashi_extended(midashi: &str) -> (r: Option<OkuriMidashi<'_>>)
    ensures
        r is None <==> parse_okuri_spec(midashi@) is None,
        r matches Some(x) ==> parse_okuri_spec(midashi@) == Some(x@),
{
    let cs = chars_of(midashi);
    let n = cs.len();
    let mut i: usize = 0;
    while i < n && cs[i] != '*'
        invariant
            0 <= i <= n,
            n == cs@.len(),
            cs@ == midashi@,
            forall|j: int| 0 <= j < i ==> cs@[j] != '*',
        decreases n - i,
    {
        i = i + 1;
    }
    proof {
        lemma_take_until_prefix(midashi@, '*', i as int);
    }
    if i < n && i > 0 && i + 1 < n {
        let prefix = midashi.substring_char(0, i);
        let suffix = midashi.substring_char(i + 1, n);
        let c = cs[i + 1];
        if n - (i + 1) == 1 && (('a' <= c && c <= 'z') || ('A' <= c && c <= 'Z')) {
            return Some(OkuriMidashi::Simple { stem: prefix, key: lower_char(c) });
        }
        return Some(OkuriMidashi::Explicit { prefix, suffix });
    }
    let mut e: usize = n;
    while e > 0 && (('a' <= cs[e - 1] && cs[e - 1] <= 'z') || ('A' <= cs[e - 1] && cs[e - 1] <= 'Z'))
        invariant
            0 <= e <= n,
            n == cs@.len(),
            cs@ == midashi@,
            forall|j: int| e <= j < n ==> is_ascii_alpha(cs@[j]),
        decreases e,
    {
        e = e - 1;
    }
    proof {
        lemma_trailing_alpha_at(midashi@, e as int);
    }
    if e == n || e == 0 {
        return None;
    }
    let mut k: usize = 0;
    while k < e && (cs[k] as u32) < 128
        invariant
            0 <= k <= e < n,
            n == cs@.len(),
            cs@ == midashi@,
            forall|j: int| 0 <= j < k ==> (cs@[j] as u32) < 128,
        decreases e - k,
    {
        k = k + 1;
    }
    if k == e {
        assert(all_ascii(midashi@.subrange(0, e as int)));
        return None;
    }
    assert(!all_ascii(midashi@.subrange(0, e as int))) by {
        assert(midashi@.subrange(0, e as int)[k as int] == cs@[k as int]);
    }
    let prefix = midashi.substring_char(0, e);
    let first = cs[e];
    let last = cs[n - 1];
    let ghost alpha = midashi@.subrange(e as int, n as int);
    assert(alpha[0] == first);
    assert(alpha.last() == last);
    if 'A' <= first && first <= 'Z' && n - e >= 2 {
        let romaji = midashi.substring_char(e, n - 1);
        assert(romaji@ == alpha.drop_last());
        if romaji_to_hiragana(romaji).is_some() {
            return Some(OkuriMidashi::Compound { prefix, romaji, okuri_key: lower_char(last) });
        }
    }
    if n - e == 1 {
        return Some(OkuriMidashi::Simple { stem: prefix, key: last });
    }
    None
}

/// The `(stem, key)` pair of an okuri-ari midashi (`かk` → `(か, k)`,
/// `交ぜGak` → `(交ぜ, k)`, `ねあ*げ` → `(ねあ, げ)`).
pub fn parse_okuri_midashi(midashi: &str) -> (r: Option<(&str, char)>)
    ensures
        r is None <==> okuri_pair_spec(midashi@) is None,
        r matches Some(p) ==> okuri_pair_spec(midashi@) == Some((p.0@, p.1)),
{
    match parse_okuri_midashi_extended(midashi) {
        None => None,
        Some(OkuriMidashi::Simple { stem, key }) => Some((stem, key)),
        Some(OkuriMidashi::Compound { prefix, okuri_key, .. }) => Some((prefix, okuri_key)),
        Some(OkuriMidashi::Explicit { prefix, suffix }) => {
            let sc = chars_of(suffix);
            assert(sc@.len() > 0);
            Some((prefix, lower_char(sc[0])))
        },
    }
}

/// The key letter of an okuri-gana character (see `romaji_key`).
pub fn romaji_key_of(c: char) -> (r: char)
    ensures
        r == romaji_key(c),
{
    if ('a' <= c && c <= 'z') || ('A' <= c && c <= 'Z') {
        lower_char(c)
    } else if c == 'あ' || c == 'ぁ' {
        'a'
    } else if c == 'い' || c == 'ぃ' {
        'i'
    } else if c == 'う' || c == 'ぅ' {
        'u'
    } else if c == 'え' || c == 'ぇ' {
        'e'
    } else if c == 'お' || c == 'ぉ' {
        'o'
    } else if c == 'か' || c == 'き' || c == 'く' || c == 'け' || c == 'こ' {
        'k'
    } else if c == 'が' || c == 'ぎ' || c == 'ぐ' || c == 'げ' || c == 'ご' {
        'g'
    } else if c == 'さ' || c == 'し' || c == 'す' || c == 'せ' || c == 'そ' {
        's'
    } else if c == 'じ' {
        'j'
    } else if c == 'ざ' || c == 'ず' || c == 'ぜ' || c == 'ぞ' {
        'z'
    } else if c == 'た' || c == 'ち' || c == 'つ' || c == 'て' || c == 'と' || c == 'っ' {
        't'
    } else if c == 'だ' || c == 'ぢ' || c == 'づ' || c == 'で' || c == 'ど' {
        'd'
    } else if c == 'な' || c == 'に' || c == 'ぬ' || c == 'ね' || c == 'の' || c == 'ん' {
        'n'
    } else if c == 'は' || c == 'ひ' || c == 'ふ' || c == 'へ' || c == 'ほ' {
        'h'
    } else if c == 'ば' || c == 'び' || c == 'ぶ' || c == 'べ' || c == 'ぼ' {
        'b'
    } else if c == 'ぱ' || c == 'ぴ' || c == 'ぷ' || c == 'ぺ' || c == 'ぽ' {
        'p'
    } else if c == 'ま' || c == 'み' || c == 'む' || c == 'め' || c == 'も' {
        'm'
    } else if c == 'や' || c == 'ゆ' || c == 'よ' || c == 'ゃ' || c == 'ゅ' || c == 'ょ' {
        'y'
    } else if c == 'ら' || c == 'り' || c == 'る' || c == 'れ' || c == 'ろ' {
        'r'
    } else if c == 'わ' || c == 'を' {
        'w'
    } else {
        c
    }
}

/// The midashi in the form the seed data is keyed by: `てだR` and `てだ*れ`
/// become `てだr`; other midashi are returned as they are.
pub fn normalize_okuri_midashi_key(midashi: &str) -> (r: Cow<'_, str>)
    ensures
        r@ == normalized_key_spec(midashi@),
        okuri_pair_spec(midashi@) is None ==> (r matches Cow::Borrowed(b) && b == midashi),
        okuri_pair_spec(midashi@) is Some ==> (r matches Cow::Owned(_)),
{
    match parse_okuri_midashi(midashi) {
        Some((stem, key)) => {
            let mut s = to_owned_string(stem);
            push_char(&mut s, romaji_key_of(key));
            Cow::Owned(s)
        },
        None => Cow::Borrowed(midashi),
    }
}

// ---------------------------------------------------------------------------
// Expansion
// ---------------------------------------------------------------------------

/// A reading to look up and the okuri-gana to strip from what comes back.
#[derive(Debug, Clone, PartialEq, Eq)]
pub struct OkuriVariation {
    /// The reading sent upstream (`交ぜがき`, `かく`).
    pub query_midashi: String,
    /// The okuri-gana it ends in (`き`, `く`).
    pub okuri_suffix: String,
}

impl View for OkuriVariation {
    type V = (Seq<char>, Seq<char>);

    open spec fn view(&self) -> (Seq<char>, Seq<char>) {
        (self.query_midashi@, self.okuri_suffix@)
    }
}

/// `(stem + suffix, suffix)` for each suffix, in order.
pub open spec fn readings(stem: Seq<char>, suffixes: Seq<Seq<char>>) -> Seq<(Seq<char>, Seq<char>)> {
    suffixes.map_values(|suf: Seq<char>| (stem + suf, suf))
}

/// The readings an okuri-ari midashi expands to.
pub open spec fn variations_spec(m: Seq<char>) -> Seq<(Seq<char>, Seq<char>)> {
    match parse_okuri_spec(m) {
        None => Seq::empty(),
        Some(OkuriForm::Explicit { prefix, suffix }) => seq![(prefix + suffix, suffix)],
        Some(OkuriForm::Compound { prefix, romaji, okuri_key }) => match romaji_table(ascii_lower_seq(romaji)) {
            Some(kana) => readings(prefix + kana, ordered_suffixes(prefix + kana, okuri_key)),
            None => Seq::empty(),
        },
        Some(OkuriForm::Simple { stem, key }) => readings(stem, ordered_suffixes(stem, key)),
    }
}

/// The views of a sequence of variations.
pub open spec fn variation_views(v: Seq<OkuriVariation>) -> Seq<(Seq<char>, Seq<char>)> {
    v.map_values(|x: OkuriVariation| x@)
}

/// `(stem + s, s)` for each suffix `s`.
fn variations_for(stem: &str, suffixes: &[&str]) -> (r: Vec<OkuriVariation>)
    ensures
        variation_views(r@) == readings(stem@, str_views(suffixes@)),
{
    let mut out: Vec<OkuriVariation> = Vec::new();
    let mut i: usize = 0;
    while i < suffixes.len()
        invariant
            0 <= i <= suffixes.len(),
            variation_views(out@) == readings(stem@, str_views(suffixes@).take(i as int)),
        decreases suffixes.len() - i,
    {
        let suffix = suffixes[i];
        let ghost before = out@;
        out.push(OkuriVariation {
            query_midashi: concat_str(stem, suffix),
            okuri_suffix: to_owned_string(suffix),
        });
        assert(variation_views(out@) =~= variation_views(before).push((stem@ + suffix@, suffix@)));
        assert(str_views(suffixes@).take(i + 1) =~= str_views(suffixes@).take(i as int).push(suffix@));
        assert(readings(stem@, str_views(suffixes@).take(i + 1)) =~= readings(
            stem@,
            str_views(suffixes@).take(i as int),
        ).push((stem@ + suffix@, suffix@)));
        i = i + 1;
    }
    assert(str_views(suffixes@).take(suffixes.len() as int) =~= str_views(suffixes@));
    out
}

/// The readings to look up for an okuri-ari midashi: `かk` → `かく`, `かき`,
/// …; `交ぜGak` → `交ぜがき`, `交ぜがく`, …; `ねあ*げ` → `ねあげ`. Empty when
/// the midashi is not okuri-ari.
pub fn expand_okuri_variations(midashi: &str) -> (r: Vec<OkuriVariation>)
    ensures
        variation_views(r@) == variations_spec(midashi@),
{
    match parse_okuri_midashi_extended(midashi) {
        None => Vec::new(),
        Some(OkuriMidashi::Explicit { prefix, suffix }) => {
            let mut v: Vec<OkuriVariation> = Vec::new();
            v.push(OkuriVariation {
                query_midashi: concat_str(prefix, suffix),
                okuri_suffix: to_owned_string(suffix),
            });
            assert(variation_views(v@) =~= seq![(prefix@ + suffix@, suffix@)]);
            v
        },
        Some(OkuriMidashi::Compound { prefix, romaji, okuri_key }) => {
            match romaji_to_hiragana(romaji) {
                Some(kana) => {
                    let suffixes = okuri_key_to_suffixes(okuri_key);
                    let full_stem = concat_str(prefix, kana);
                    let ordered = order_suffixes_for_stem(full_stem.as_str(), okuri_key, suffixes);
                    variations_for(full_stem.as_str(), ordered)
                },
                None => Vec::new(),
            }
        },
        Some(OkuriMidashi::Simple { stem, key }) => {
            let suffixes = okuri_key_to_suffixes(key);
            let ordered = order_suffixes_for_stem(stem, key, suffixes);
            variations_for(stem, ordered)
        },
    }
}

// ---------------------------------------------------------------------------
// Stem extraction
// ---------------------------------------------------------------------------

/// A CJK ideograph (unified, extension A, compatibility).
pub open spec fn is_kanji_spec(c: char) -> bool {
    ('\u{4E00}' <= c && c <= '\u{9FFF}') || ('\u{3400}' <= c && c <= '\u{4DBF}') || ('\u{F900}' <= c
        && c <= '\u{FAFF}')
}

/// The number of kanji in `s`.
pub open spec fn kanji_count(s: Seq<char>) -> nat
    decreases s.len(),
{
    if s.len() == 0 {
        0
    } else {
        kanji_count(s.drop_last()) + if is_kanji_spec(s.last()) {
            1nat
        } else {
            0nat
        }
    }
}

/// An i-row or e-row kana: the stem endings of ichidan verbs and adjectives.
pub open spec fn is_ie_row(c: char) -> bool {
    c == 'い' || c == 'き' || c == 'し' || c == 'ち' || c == 'に' || c == 'ひ' || c == 'み' || c == 'り'
        || c == 'ぎ' || c == 'じ' || c == 'び' || c == 'ぴ' || c == 'え' || c == 'け' || c == 'せ'
        || c == 'て' || c == 'ね' || c == 'へ' || c == 'め' || c == 'れ' || c == 'げ' || c == 'ぜ'
        || c == 'で' || c == 'べ' || c == 'ぺ'
}

/// Whether an extracted stem is plausible: for a one-kana reading it holds
/// a kanji; for longer readings it ends in a kanji, or holds two kanji, or
/// holds one and ends in an i-row or e-row kana.
pub open spec fn valid_stem_spec(stem: Seq<char>, n: int) -> bool {
    if stem.len() == 0 {
        false
    } else if n < 2 {
        kanji_count(stem) >= 1
    } else if is_kanji_spec(stem.last()) {
        true
    } else if kanji_count(stem) >= 2 {
        true
    } else if kanji_count(stem) >= 1 {
        is_ie_row(stem.last())
    } else {
        false
    }
}

/// A one-kana okuri-gana of the i row or the e row (noun forms).
pub open spec fn is_noun_suffix(s: Seq<char>) -> bool {
    s.len() == 1 && (s[0] == 'き' || s[0] == 'し' || s[0] == 'ち' || s[0] == 'に' || s[0] == 'ひ'
        || s[0] == 'み' || s[0] == 'り' || s[0] == 'ぎ' || s[0] == 'じ' || s[0] == 'び' || s[0] == 'い'
        || s[0] == 'け' || s[0] == 'せ' || s[0] == 'て' || s[0] == 'ね' || s[0] == 'へ' || s[0] == 'め'
        || s[0] == 'れ' || s[0] == 'げ' || s[0] == 'ぜ' || s[0] == 'で' || s[0] == 'べ' || s[0] == 'え')
}

/// The stems after considering one more candidate.
pub open spec fn stem_step(stems: Seq<Seq<char>>, cand: Seq<char>, suffix: Seq<char>, n: int) -> Seq<Seq<char>> {
    let clean = clean_spec(cand);
    if clean.len() == 0 {
        stems
    } else if has_suffix(clean, suffix) {
        let st = clean.subrange(0, clean.len() - suffix.len());
        if valid_stem_spec(st, n) && !stems.contains(st) {
            stems.push(st)
        } else {
            stems
        }
    } else if is_noun_suffix(suffix) && n >= 2 && clean.len() >= 2 && clean.len() <= n && valid_stem_spec(
        clean,
        n,
    ) && !stems.contains(clean) {
        stems.push(clean)
    } else {
        stems
    }
}

/// The stems recovered from `cands`, in order, without repeats.
pub open spec fn extract_spec(cands: Seq<Seq<char>>, suffix: Seq<char>, n: int) -> Seq<Seq<char>>
    decreases cands.len(),
{
    if cands.len() == 0 {
        Seq::empty()
    } else {
        stem_step(extract_spec(cands.drop_last(), suffix, n), cands.last(), suffix, n)
    }
}

/// The stem length in characters for a reading and its okuri-gana.
pub open spec fn stem_len(query: Seq<char>, suffix: Seq<char>) -> int {
    if query.len() >= suffix.len() {
        query.len() - suffix.len()
    } else {
        0
    }
}

/// Whether `c` is a CJK ideograph.
pub fn is_kanji(c: char) -> (r: bool)
    ensures
        r == is_kanji_spec(c),
{
    ('\u{4E00}' <= c && c <= '\u{9FFF}') || ('\u{3400}' <= c && c <= '\u{4DBF}') || ('\u{F900}' <= c
        && c <= '\u{FAFF}')
}

fn count_kanji(cs: &[char]) -> (n: usize)
    ensures
        n == kanji_count(cs@),
{
    let mut n: usize = 0;
    let mut i: usize = 0;
    while i < cs.len()
        invariant
            0 <= i <= cs.len(),
            n == kanji_count(cs@.take(i as int)),
            n <= i,
        decreases cs.len() - i,
    {
        assert(cs@.take(i + 1).drop_last() =~= cs@.take(i as int));
        if is_kanji(cs[i]) {
            n = n + 1;
        }
        i = i + 1;
    }
    assert(cs@.take(cs.len() as int) =~= cs@);
    n
}

/// Whether a stem extracted from a candidate is plausible (see
/// `valid_stem_spec`); `stem_char_count` is the length of the reading's stem.
pub fn is_valid_stem(stem: &str, stem_char_count: usize) -> (r: bool)
    ensures
        r == valid_stem_spec(stem@, stem_char_count as int),
{
    let cs = chars_of(stem);
    if cs.len() == 0 {
        return false;
    }
    let kc = count_kanji(cs.as_slice());
    if stem_char_count < 2 {
        return kc >= 1;
    }
    let last = cs[cs.len() - 1];
    if is_kanji(last) {
        return true;
    }
    if kc >= 2 {
        return true;
    }
    if kc >= 1 {
        return last == 'い' || last == 'き' || last == 'し' || last == 'ち' || last == 'に' || last
            == 'ひ' || last == 'み' || last == 'り' || last == 'ぎ' || last == 'じ' || last == 'び'
            || last == 'ぴ' || last == 'え' || last == 'け' || last == 'せ' || last == 'て' || last
            == 'ね' || last == 'へ' || last == 'め' || last == 'れ' || last == 'げ' || last == 'ぜ'
            || last == 'で' || last == 'べ' || last == 'ぺ';
    }
    false
}

fn is_noun_suffix_str(s: &str) -> (r: bool)
    ensures
        r == is_noun_suffix(s@),
{
    let cs = chars_of(s);
    if cs.len() != 1 {
        return false;
    }
    let c = cs[0];
    c == 'き' || c == 'し' || c == 'ち' || c == 'に' || c == 'ひ' || c == 'み' || c == 'り' || c == 'ぎ'
        || c == 'じ' || c == 'び' || c == 'い' || c == 'け' || c == 'せ' || c == 'て' || c == 'ね'
        || c == 'へ' || c == 'め' || c == 'れ' || c == 'げ' || c == 'ぜ' || c == 'で' || c == 'べ'
        || c == 'え'
}

/// The stems in `candidates` (returned for `query_midashi`): a candidate
/// ending in `okuri_suffix` gives the part before it (`書く` → `書`); for a
/// reading with a multi-kana stem and an i-row or e-row okuri-gana, a
/// candidate that is already a stem is kept (`問合`). Implausible stems and
/// repeats are dropped; the order of `candidates` is kept.
pub fn extract_stem_candidates_borrowed<'a>(
    candidates: &[&'a str],
    okuri_suffix: &str,
    query_midashi: &str,
) -> (r: Vec<&'a str>)
    ensures
        str_views(r@) == extract_spec(
            str_views(candidates@),
            okuri_suffix@,
            stem_len(query_midashi@, okuri_suffix@),
        ),
{
    let query_count = char_count(query_midashi);
    let suffix_count = char_count(okuri_suffix);
    let stem_count: usize = if query_count >= suffix_count {
        query_count - suffix_count
    } else {
        0
    };
    let ghost n = stem_len(query_midashi@, okuri_suffix@);
    let ghost views = str_views(candidates@);
    let noun = is_noun_suffix_str(okuri_suffix);
    let mut stems: Vec<&'a str> = Vec::new();
    let mut i: usize = 0;
    while i < candidates.len()
        invariant
            0 <= i <= candidates.len(),
            stem_count == n,
            views == str_views(candidates@),
            noun == is_noun_suffix(okuri_suffix@),
            str_views(stems@) == extract_spec(views.take(i as int), okuri_suffix@, n),
        decreases candidates.len() - i,
    {
        let cand = candidates[i];
        proof {
            assert(views.take(i + 1).drop_last() =~= views.take(i as int));
            assert(views.take(i + 1).last() == cand@);
        }
        let clean = clean_candidate(cand);
        let clean_count = char_count(clean);
        if clean_count > 0 {
            match strip_suffix_str(clean, okuri_suffix) {
                Some(stem) => {
                    if is_valid_stem(stem, stem_count) && !contains_str(stems.as_slice(), stem) {
                        let ghost before = stems@;
                        stems.push(stem);
                        assert(str_views(stems@) =~= str_views(before).push(stem@));
                    }
                },
                None => {
                    if noun && stem_count >= 2 && clean_count >= 2 && clean_count <= stem_count
                        && is_valid_stem(clean, stem_count) && !contains_str(stems.as_slice(), clean) {
                        let ghost before = stems@;
                        stems.push(clean);
                        assert(str_views(stems@) =~= str_views(before).push(clean@));
                    }
                },
            }
        }
        i = i + 1;
    }
    assert(views.take(candidates.len() as int) =~= views);
    stems
}

// ---------------------------------------------------------------------------
// Tables
// ---------------------------------------------------------------------------

/// The hiragana that an upper-case romaji chunk of a compound midashi
/// stands for (matched on the lower-cased chunk).
pub open spec fn romaji_table(s: Seq<char>) -> Option<Seq<char>> {
    if s == "a"@ {
        Some("あ"@)
    } else if s == "i"@ {
        Some("い"@)
    } else if s == "u"@ {
        Some("う"@)
    } else if s == "e"@ {
        Some("え"@)
    } else if s == "o"@ {
        Some("お"@)
    } else if s == "ka"@ {
        Some("か"@)
    } else if s == "ki"@ {
        Some("き"@)
    } else if s == "ku"@ {
        Some("く"@)
    } else if s == "ke"@ {
        Some("け"@)
    } else if s == "ko"@ {
        Some("こ"@)
    } else if s == "ga"@ {
        Some("が"@)
    } else if s == "gi"@ {
        Some("ぎ"@)
    } else if s == "gu"@ {
        Some("ぐ"@)
    } else if s == "ge"@ {
        Some("げ"@)
    } else if s == "go"@ {
        Some("ご"@)
    } else if s == "sa"@ {
        Some("さ"@)
    } else if s == "si"@ || s == "shi"@ {
        Some("し"@)
    } else if s == "su"@ {
        Some("す"@)
    } else if s == "se"@ {
        Some("せ"@)
    } else if s == "so"@ {
        Some("そ"@)
    } else if s == "za"@ {
        Some("ざ"@)
    } else if s == "zi"@ || s == "ji"@ {
        Some("じ"@)
    } else if s == "zu"@ {
        Some("ず"@)
    } else if s == "ze"@ {
        Some("ぜ"@)
    } else if s == "zo"@ {
        Some("ぞ"@)
    } else if s == "ta"@ {
        Some("た"@)
    } else if s == "ti"@ || s == "chi"@ {
        Some("ち"@)
    } else if s == "tu"@ || s == "tsu"@ {
        Some("つ"@)
    } else if s == "te"@ {
        Some("て"@)
    } else if s == "to"@ {
        Some("と"@)
    } else if s == "da"@ {
        Some("だ"@)
    } else if s == "di"@ {
        Some("ぢ"@)
    } else if s == "du"@ {
        Some("づ"@)
    } else if s == "de"@ {
        Some("で"@)
    } else if s == "do"@ {
        Some("ど"@)
    } else if s == "na"@ {
        Some("な"@)
    } else if s == "ni"@ {
        Some("に"@)
    } else if s == "nu"@ {
        Some("ぬ"@)
    } else if s == "ne"@ {
        Some("ね"@)
    } else if s == "no"@ {
        Some("の"@)
    } else if s == "ha"@ {
        Some("は"@)
    } else if s == "hi"@ {
        Some("ひ"@)
    } else if s == "hu"@ || s == "fu"@ {
        Some("ふ"@)
    } else if s == "he"@ {
        Some("へ"@)
    } else if s == "ho"@ {
        Some("ほ"@)
    } else if s == "ba"@ {
        Some("ば"@)
    } else if s == "bi"@ {
        Some("び"@)
    } else if s == "bu"@ {
        Some("ぶ"@)
    } else if s == "be"@ {
        Some("べ"@)
    } else if s == "bo"@ {
        Some("ぼ"@)
    } else if s == "pa"@ {
        Some("ぱ"@)
    } else if s == "pi"@ {
        Some("ぴ"@)
    } else if s == "pu"@ {
        Some("ぷ"@)
    } else if s == "pe"@ {
        Some("ぺ"@)
    } else if s == "po"@ {
        Some("ぽ"@)
    } else if s == "ma"@ {
        Some("ま"@)
    } else if s == "mi"@ {
        Some("み"@)
    } else if s == "mu"@ {
        Some("む"@)
    } else if s == "me"@ {
        Some("め"@)
    } else if s == "mo"@ {
        Some("も"@)
    } else if s == "ya"@ {
        Some("や"@)
    } else if s == "yu"@ {
        Some("ゆ"@)
    } else if s == "yo"@ {
        Some("よ"@)
    } else if s == "ra"@ {
        Some("ら"@)
    } else if s == "ri"@ {
        Some("り"@)
    } else if s == "ru"@ {
        Some("る"@)
    } else if s == "re"@ {
        Some("れ"@)
    } else if s == "ro"@ {
        Some("ろ"@)
    } else if s == "wa"@ {
        Some("わ"@)
    } else if s == "wo"@ {
        Some("を"@)
    } else if s == "nn"@ {
        Some("ん"@)
    } else if s == "kya"@ {
        Some("きゃ"@)
    } else if s == "kyu"@ {
        Some("きゅ"@)
    } else if s == "kyo"@ {
        Some("きょ"@)
    } else if s == "gya"@ {
        Some("ぎゃ"@)
    } else if s == "gyu"@ {
        Some("ぎゅ"@)
    } else if s == "gyo"@ {
        Some("ぎょ"@)
    } else if s == "sya"@ || s == "sha"@ {
        Some("しゃ"@)
    } else if s == "syu"@ || s == "shu"@ {
        Some("しゅ"@)
    } else if s == "syo"@ || s == "sho"@ {
        Some("しょ"@)
    } else if s == "zya"@ || s == "ja"@ || s == "jya"@ {
        Some("じゃ"@)
    } else if s == "zyu"@ || s == "ju"@ || s == "jyu"@ {
        Some("じゅ"@)
    } else if s == "zyo"@ || s == "jo"@ || s == "jyo"@ {
        Some("じょ"@)
    } else if s == "tya"@ || s == "cha"@ {
        Some("ちゃ"@)
    } else if s == "tyu"@ || s == "chu"@ {
        Some("ちゅ"@)
    } else if s == "tyo"@ || s == "cho"@ {
        Some("ちょ"@)
    } else if s == "nya"@ {
        Some("にゃ"@)
    } else if s == "nyu"@ {
        Some("にゅ"@)
    } else if s == "nyo"@ {
        Some("にょ"@)
    } else if s == "hya"@ {
        Some("ひゃ"@)
    } else if s == "hyu"@ {
        Some("ひゅ"@)
    } else if s == "hyo"@ {
        Some("ひょ"@)
    } else if s == "bya"@ {
        Some("びゃ"@)
    } else if s == "byu"@ {
        Some("びゅ"@)
    } else if s == "byo"@ {
        Some("びょ"@)
    } else if s == "pya"@ {
        Some("ぴゃ"@)
    } else if s == "pyu"@ {
        Some("ぴゅ"@)
    } else if s == "pyo"@ {
        Some("ぴょ"@)
    } else if s == "mya"@ {
        Some("みゃ"@)
    } else if s == "myu"@ {
        Some("みゅ"@)
    } else if s == "myo"@ {
        Some("みょ"@)
    } else if s == "rya"@ {
        Some("りゃ"@)
    } else if s == "ryu"@ {
        Some("りゅ"@)
    } else if s == "ryo"@ {
        Some("りょ"@)
    } else if s == "gaki"@ {
        Some("がき"@)
    } else if s == "kaki"@ {
        Some("かき"@)
    } else if s == "g"@ {
        Some("が"@)
    } else if s == "k"@ {
        Some("か"@)
    } else if s == "s"@ {
        Some("さ"@)
    } else if s == "t"@ {
        Some("た"@)
    } else if s == "d"@ {
        Some("だ"@)
    } else if s == "n"@ {
        Some("な"@)
    } else if s == "h"@ {
        Some("は"@)
    } else if s == "b"@ {
        Some("ば"@)
    } else if s == "p"@ {
        Some("ぱ"@)
    } else if s == "m"@ {
        Some("ま"@)
    } else if s == "r"@ {
        Some("ら"@)
    } else if s == "w"@ {
        Some("わ"@)
    } else if s == "y"@ {
        Some("や"@)
    } else if s == "z"@ {
        Some("ざ"@)
    } else if s == "j"@ {
        Some("じゃ"@)
    } else {
        None
    }
}

/// Converts a romaji chunk (any case) such as `Ga`, `G` or `Shi` to hiragana,
/// for compound okuri-ari midashi like `交ぜGak`.
pub fn romaji_to_hiragana(romaji: &str) -> (r: Option<&'static str>)
    ensures
        r is Some <==> romaji_table(ascii_lower_seq(romaji@)) is Some,
        r matches Some(k) ==> romaji_table(ascii_lower_seq(romaji@)) == Some(k@),
{
    let lower = ascii_lowercase(romaji);
    let s = lower.as_str();
    if str_eq(s, "a") {
        Some("あ")
    } else if str_eq(s, "i") {
        Some("い")
    } else if str_eq(s, "u") {
        Some("う")
    } else if str_eq(s, "e") {
        Some("え")
    } else if str_eq(s, "o") {
        Some("お")
    } else if str_eq(s, "ka") {
        Some("か")
    } else if str_eq(s, "ki") {
        Some("き")
    } else if str_eq(s, "ku") {
        Some("く")
    } else if str_eq(s, "ke") {
        Some("け")
    } else if str_eq(s, "ko") {
        Some("こ")
    } else if str_eq(s, "ga") {
        Some("が")
    } else if str_eq(s, "gi") {
        Some("ぎ")
    } else if str_eq(s, "gu") {
        Some("ぐ")
    } else if str_eq(s, "ge") {
        Some("げ")
    } else if str_eq(s, "go") {
        Some("ご")
    } else if str_eq(s, "sa") {
        Some("さ")
    } else if str_eq(s, "si") || str_eq(s, "shi") {
        Some("し")
    } else if str_eq(s, "su") {
        Some("す")
    } else if str_eq(s, "se") {
        Some("せ")
    } else if str_eq(s, "so") {
        Some("そ")
    } else if str_eq(s, "za") {
        Some("ざ")
    } else if str_eq(s, "zi") || str_eq(s, "ji") {
        Some("じ")
    } else if str_eq(s, "zu") {
        Some("ず")
    } else if str_eq(s, "ze") {
        Some("ぜ")
    } else if str_eq(s, "zo") {
        Some("ぞ")
    } else if str_eq(s, "ta") {
        Some("た")
    } else if str_eq(s, "ti") || str_eq(s, "chi") {
        Some("ち")
    } else if str_eq(s, "tu") || str_eq(s, "tsu") {
        Some("つ")
    } else if str_eq(s, "te") {
        Some("て")
    } else if str_eq(s, "to") {
        Some("と")
    } else if str_eq(s, "da") {
        Some("だ")
    } else if str_eq(s, "di") {
        Some("ぢ")
    } else if str_eq(s, "du") {
        Some("づ")
    } else if str_eq(s, "de") {
        Some("で")
    } else if str_eq(s, "do") {
        Some("ど")
    } else if str_eq(s, "na") {
        Some("な")
    } else if str_eq(s, "ni") {
        Some("に")
    } else if str_eq(s, "nu") {
        Some("ぬ")
    } else if str_eq(s, "ne") {
        Some("ね")
    } else if str_eq(s, "no") {
        Some("の")
    } else if str_eq(s, "ha") {
        Some("は")
    } else if str_eq(s, "hi") {
        Some("ひ")
    } else if str_eq(s, "hu") || str_eq(s, "fu") {
        Some("ふ")
    } else if str_eq(s, "he") {
        Some("へ")
    } else if str_eq(s, "ho") {
        Some("ほ")
    } else if str_eq(s, "ba") {
        Some("ば")
    } else if str_eq(s, "bi") {
        Some("び")
    } else if str_eq(s, "bu") {
        Some("ぶ")
    } else if str_eq(s, "be") {
        Some("べ")
    } else if str_eq(s, "bo") {
        Some("ぼ")
    } else if str_eq(s, "pa") {
        Some("ぱ")
    } else if str_eq(s, "pi") {
        Some("ぴ")
    } else if str_eq(s, "pu") {
        Some("ぷ")
    } else if str_eq(s, "pe") {
        Some("ぺ")
    } else if str_eq(s, "po") {
        Some("ぽ")
    } else if str_eq(s, "ma") {
        Some("ま")
    } else if str_eq(s, "mi") {
        Some("み")
    } else if str_eq(s, "mu") {
        Some("む")
    } else if str_eq(s, "me") {
        Some("め")
    } else if str_eq(s, "mo") {
        Some("も")
    } else if str_eq(s, "ya") {
        Some("や")
    } else if str_eq(s, "yu") {
        Some("ゆ")
    } else if str_eq(s, "yo") {
        Some("よ")
    } else if str_eq(s, "ra") {
        Some("ら")
    } else if str_eq(s, "ri") {
        Some("り")
    } else if str_eq(s, "ru") {
        Some("る")
    } else if str_eq(s, "re") {
        Some("れ")
    } else if str_eq(s, "ro") {
        Some("ろ")
    } else if str_eq(s, "wa") {
        Some("わ")
    } else if str_eq(s, "wo") {
        Some("を")
    } else if str_eq(s, "nn") {
        Some("ん")
    } else if str_eq(s, "kya") {
        Some("きゃ")
    } else if str_eq(s, "kyu") {
        Some("きゅ")
    } else if str_eq(s, "kyo") {
        Some("きょ")
    } else if str_eq(s, "gya") {
        Some("ぎゃ")
    } else if str_eq(s, "gyu") {
        Some("ぎゅ")
    } else if str_eq(s, "gyo") {
        Some("ぎょ")
    } else if str_eq(s, "sya") || str_eq(s, "sha") {
        Some("しゃ")
    } else if str_eq(s, "syu") || str_eq(s, "shu") {
        Some("しゅ")
    } else if str_eq(s, "syo") || str_eq(s, "sho") {
        Some("しょ")
    } else if str_eq(s, "zya") || str_eq(s, "ja") || str_eq(s, "jya") {
        Some("じゃ")
    } else if str_eq(s, "zyu") || str_eq(s, "ju") || str_eq(s, "jyu") {
        Some("じゅ")
    } else if str_eq(s, "zyo") || str_eq(s, "jo") || str_eq(s, "jyo") {
        Some("じょ")
    } else if str_eq(s, "tya") || str_eq(s, "cha") {
        Some("ちゃ")
    } else if str_eq(s, "tyu") || str_eq(s, "chu") {
        Some("ちゅ")
    } else if str_eq(s, "tyo") || str_eq(s, "cho") {
        Some("ちょ")
    } else if str_eq(s, "nya") {
        Some("にゃ")
    } else if str_eq(s, "nyu") {
        Some("にゅ")
    } else if str_eq(s, "nyo") {
        Some("にょ")
    } else if str_eq(s, "hya") {
        Some("ひゃ")
    } else if str_eq(s, "hyu") {
        Some("ひゅ")
    } else if str_eq(s, "hyo") {
        Some("ひょ")
    } else if str_eq(s, "bya") {
        Some("びゃ")
    } else if str_eq(s, "byu") {
        Some("びゅ")
    } else if str_eq(s, "byo") {
        Some("びょ")
    } else if str_eq(s, "pya") {
        Some("ぴゃ")
    } else if str_eq(s, "pyu") {
        Some("ぴゅ")
    } else if str_eq(s, "pyo") {
        Some("ぴょ")
    } else if str_eq(s, "mya") {
        Some("みゃ")
    } else if str_eq(s, "myu") {
        Some("みゅ")
    } else if str_eq(s, "myo") {
        Some("みょ")
    } else if str_eq(s, "rya") {
        Some("りゃ")
    } else if str_eq(s, "ryu") {
        Some("りゅ")
    } else if str_eq(s, "ryo") {
        Some("りょ")
    } else if str_eq(s, "gaki") {
        Some("がき")
    } else if str_eq(s, "kaki") {
        Some("かき")
    } else if str_eq(s, "g") {
        Some("が")
    } else if str_eq(s, "k") {
        Some("か")
    } else if str_eq(s, "s") {
        Some("さ")
    } else if str_eq(s, "t") {
        Some("た")
    } else if str_eq(s, "d") {
        Some("だ")
    } else if str_eq(s, "n") {
        Some("な")
    } else if str_eq(s, "h") {
        Some("は")
    } else if str_eq(s, "b") {
        Some("ば")
    } else if str_eq(s, "p") {
        Some("ぱ")
    } else if str_eq(s, "m") {
        Some("ま")
    } else if str_eq(s, "r") {
        Some("ら")
    } else if str_eq(s, "w") {
        Some("わ")
    } else if str_eq(s, "y") {
        Some("や")
    } else if str_eq(s, "z") {
        Some("ざ")
    } else if str_eq(s, "j") {
        Some("じゃ")
    } else {
        None
    }
}

/// The okuri-gana a key letter can stand for: dictionary, continuative
/// and ichidan forms, past and te forms, contractions.
pub open spec fn default_suffixes(key: char) -> Seq<Seq<char>> {
    let k = ascii_lower(key);
    if k == 'k' {
        seq!["く"@, "き"@, "け"@, "かった"@, "くて"@, "きゃ"@]
    } else if k == 's' {
        seq!["す"@, "し"@, "せ"@, "した"@, "して"@, "しゃ"@]
    } else if k == 't' {
        seq!["った"@, "って"@, "て"@, "つ"@, "ち"@]
    } else if k == 'n' {
        seq!["ない"@, "なきゃ"@, "なくちゃ"@, "ぬ"@, "ね"@, "に"@, "にゃ"@, "んだ"@, "んで"@]
    } else if k == 'm' {
        seq!["む"@, "み"@, "め"@, "んだ"@, "んで"@, "みゃ"@, "もう"@]
    } else if k == 'r' {
        seq!["る"@, "り"@, "れ"@, "りゃ"@, "ろう"@]
    } else if k == 'g' {
        seq!["ぐ"@, "ぎ"@, "げ"@, "いだ"@, "いで"@, "ぎゃ"@, "ごう"@]
    } else if k == 'b' {
        seq!["ぶ"@, "び"@, "べ"@, "んだ"@, "んで"@, "びゃ"@, "ぼう"@]
    } else if k == 'u' || k == 'w' {
        seq!["う"@, "い"@, "え"@, "った"@, "って"@, "おう"@]
    } else if k == 'e' {
        seq!["え"@, "える"@, "う"@, "えた"@, "えて"@, "えば"@, "えれば"@]
    } else if k == 'o' {
        seq!["おう"@, "お"@, "う"@, "よう"@]
    } else if k == 'a' {
        seq!["わない"@, "わ"@, "う"@, "ない"@, "わせる"@, "われる"@, "わず"@]
    } else if k == 'i' {
        seq!["い"@, "う"@, "く"@, "け"@, "かった"@, "くて"@, "ければ"@, "った"@, "って"@]
    } else if k == 'd' {
        seq!["だ"@, "で"@, "んだ"@, "んで"@]
    } else if k == 'c' {
        seq!["っちゃう"@, "っちゃった"@, "ちゃう"@, "ちゃった"@, "ちまう"@, "ちまった"@, "ち"@]
    } else if k == 'y' {
        seq!["よう"@, "や"@, "ゆ"@]
    } else if k == 'j' {
        seq!["じる"@, "じ"@, "じゃう"@, "じゃった"@, "じゃ"@]
    } else if k == 'p' {
        seq!["っぽい"@, "ぽい"@]
    } else {
        seq![]
    }
}

proof fn lemma_table_k()
    ensures
        default_suffixes('k').len() > 0,
        default_suffixes('k').no_duplicates(),
        forall|i: int| 0 <= i < default_suffixes('k').len() ==> #[trigger] default_suffixes('k')[i].len() > 0,
{
    reveal_strlit("かった");
    reveal_strlit("き");
    reveal_strlit("きゃ");
    reveal_strlit("く");
    reveal_strlit("くて");
    reveal_strlit("け");
    let s = default_suffixes('k');
    assert(s =~= seq!["く"@, "き"@, "け"@, "かった"@, "くて"@, "きゃ"@]);
    assert forall|i: int, j: int| 0 <= i < j < s.len() implies s[i] != s[j] by {
        if s[i].len() == s[j].len() {
            assert(s[i][0] != s[j][0] || s[i][1] != s[j][1] || s[i][s[i].len() - 1] != s[j][s[j].len() - 1]);
        }
    }
}

proof fn lemma_table_s()
    ensures
        default_suffixes('s').len() > 0,
        default_suffixes('s').no_duplicates(),
        forall|i: int| 0 <= i < default_suffixes('s').len() ==> #[trigger] default_suffixes('s')[i].len() > 0,
{
    reveal_strlit("し");
    reveal_strlit("した");
    reveal_strlit("して");
    reveal_strlit("しゃ");
    reveal_strlit("す");
    reveal_strlit("せ");
    let s = default_suffixes('s');
    assert(s =~= seq!["す"@, "し"@, "せ"@, "した"@, "して"@, "しゃ"@]);
    assert forall|i: int, j: int| 0 <= i < j < s.len() implies s[i] != s[j] by {
        if s[i].len() == s[j].len() {
            assert(s[i][0] != s[j][0] || s[i][1] != s[j][1] || s[i][s[i].len() - 1] != s[j][s[j].len() - 1]);
        }
    }
}

proof fn lemma_table_t()
    ensures
        default_suffixes('t').len() > 0,
        default_suffixes('t').no_duplicates(),
        forall|i: int| 0 <= i < default_suffixes('t').len() ==> #[trigger] default_suffixes('t')[i].len() > 0,
{
    reveal_strlit("ち");
    reveal_strlit("った");
    reveal_strlit("って");
    reveal_strlit("つ");
    reveal_strlit("て");
    let s = default_suffixes('t');
    assert(s =~= seq!["った"@, "って"@, "て"@, "つ"@, "ち"@]);
    assert forall|i: int, j: int| 0 <= i < j < s.len() implies s[i] != s[j] by {
        if s[i].len() == s[j].len() {
            assert(s[i][0] != s[j][0] || s[i][1] != s[j][1] || s[i][s[i].len() - 1] != s[j][s[j].len() - 1]);
        }
    }
}

proof fn lemma_table_n()
    ensures
        default_suffixes('n').len() > 0,
        default_suffixes('n').no_duplicates(),
        forall|i: int| 0 <= i < default_suffixes('n').len() ==> #[trigger] default_suffixes('n')[i].len() > 0,
{
    reveal_strlit("ない");
    reveal_strlit("なきゃ");
    reveal_strlit("なくちゃ");
    reveal_strlit("に");
    reveal_strlit("にゃ");
    reveal_strlit("ぬ");
    reveal_strlit("ね");
    reveal_strlit("んだ");
    reveal_strlit("んで");
    let s = default_suffixes('n');
    assert(s =~= seq!["ない"@, "なきゃ"@, "なくちゃ"@, "ぬ"@, "ね"@, "に"@, "にゃ"@, "んだ"@, "んで"@]);
    assert forall|i: int, j: int| 0 <= i < j < s.len() implies s[i] != s[j] by {
        if s[i].len() == s[j].len() {
            assert(s[i][0] != s[j][0] || s[i][1] != s[j][1] || s[i][s[i].len() - 1] != s[j][s[j].len() - 1]);
        }
    }
}

proof fn lemma_table_m()
    ensures
        default_suffixes('m').len() > 0,
        default_suffixes('m').no_duplicates(),
        forall|i: int| 0 <= i < default_suffixes('m').len() ==> #[trigger] default_suffixes('m')[i].len() > 0,
{
    reveal_strlit("み");
    reveal_strlit("みゃ");
    reveal_strlit("む");
    reveal_strlit("め");
    reveal_strlit("もう");
    reveal_strlit("んだ");
    reveal_strlit("んで");
    let s = default_suffixes('m');
    assert(s =~= seq!["む"@, "み"@, "め"@, "んだ"@, "んで"@, "みゃ"@, "もう"@]);
    assert forall|i: int, j: int| 0 <= i < j < s.len() implies s[i] != s[j] by {
        if s[i].len() == s[j].len() {
            assert(s[i][0] != s[j][0] || s[i][1] != s[j][1] || s[i][s[i].len() - 1] != s[j][s[j].len() - 1]);
        }
    }
}

proof fn lemma_table_r()
    ensures
        default_suffixes('r').len() > 0,
        default_suffixes('r').no_duplicates(),
        forall|i: int| 0 <= i < default_suffixes('r').len() ==> #[trigger] default_suffixes('r')[i].len() > 0,
{
    reveal_strlit("り");
    reveal_strlit("りゃ");
    reveal_strlit("る");
    reveal_strlit("れ");
    reveal_strlit("ろう");
    let s = default_suffixes('r');
    assert(s =~= seq!["る"@, "り"@, "れ"@, "りゃ"@, "ろう"@]);
    assert forall|i: int, j: int| 0 <= i < j < s.len() implies s[i] != s[j] by {
        if s[i].len() == s[j].len() {
            assert(s[i][0] != s[j][0] || s[i][1] != s[j][1] || s[i][s[i].len() - 1] != s[j][s[j].len() - 1]);
        }
    }
}

proof fn lemma_table_g()
    ensures
        default_suffixes('g').len() > 0,
        default_suffixes('g').no_duplicates(),
        forall|i: int| 0 <= i < default_suffixes('g').len() ==> #[trigger] default_suffixes('g')[i].len() > 0,
{
    reveal_strlit("いだ");
    reveal_strlit("いで");
    reveal_strlit("ぎ");
    reveal_strlit("ぎゃ");
    reveal_strlit("ぐ");
    reveal_strlit("げ");
    reveal_strlit("ごう");
    let s = default_suffixes('g');
    assert(s =~= seq!["ぐ"@, "ぎ"@, "げ"@, "いだ"@, "いで"@, "ぎゃ"@, "ごう"@]);
    assert forall|i: int, j: int| 0 <= i < j < s.len() implies s[i] != s[j] by {
        if s[i].len() == s[j].len() {
            assert(s[i][0] != s[j][0] || s[i][1] != s[j][1] || s[i][s[i].len() - 1] != s[j][s[j].len() - 1]);
        }
    }
}

proof fn lemma_table_b()
    ensures
        default_suffixes('b').len() > 0,
        default_suffixes('b').no_duplicates(),
        forall|i: int| 0 <= i < default_suffixes('b').len() ==> #[trigger] default_suffixes('b')[i].len() > 0,
{
    reveal_strlit("び");
    reveal_strlit("びゃ");
    reveal_strlit("ぶ");
    reveal_strlit("べ");
    reveal_strlit("ぼう");
    reveal_strlit("んだ");
    reveal_strlit("んで");
    let s = default_suffixes('b');
    assert(s =~= seq!["ぶ"@, "び"@, "べ"@, "んだ"@, "んで"@, "びゃ"@, "ぼう"@]);
    assert forall|i: int, j: int| 0 <= i < j < s.len() implies s[i] != s[j] by {
        if s[i].len() == s[j].len() {
            assert(s[i][0] != s[j][0] || s[i][1] != s[j][1] || s[i][s[i].len() - 1] != s[j][s[j].len() - 1]);
        }
    }
}

proof fn lemma_table_u()
    ensures
        default_suffixes('u').len() > 0,
        default_suffixes('u').no_duplicates(),
        forall|i: int| 0 <= i < default_suffixes('u').len() ==> #[trigger] default_suffixes('u')[i].len() > 0,
{
    reveal_strlit("い");
    reveal_strlit("う");
    reveal_strlit("え");
    reveal_strlit("おう");
    reveal_strlit("った");
    reveal_strlit("って");
    let s = default_suffixes('u');
    assert(s =~= seq!["う"@, "い"@, "え"@, "った"@, "って"@, "おう"@]);
    assert forall|i: int, j: int| 0 <= i < j < s.len() implies s[i] != s[j] by {
        if s[i].len() == s[j].len() {
            assert(s[i][0] != s[j][0] || s[i][1] != s[j][1] || s[i][s[i].len() - 1] != s[j][s[j].len() - 1]);
        }
    }
}

proof fn lemma_table_w()
    ensures
        default_suffixes('w').len() > 0,
        default_suffixes('w').no_duplicates(),
        forall|i: int| 0 <= i < default_suffixes('w').len() ==> #[trigger] default_suffixes('w')[i].len() > 0,
{
    reveal_strlit("い");
    reveal_strlit("う");
    reveal_strlit("え");
    reveal_strlit("おう");
    reveal_strlit("った");
    reveal_strlit("って");
    let s = default_suffixes('w');
    assert(s =~= seq!["う"@, "い"@, "え"@, "った"@, "って"@, "おう"@]);
    assert forall|i: int, j: int| 0 <= i < j < s.len() implies s[i] != s[j] by {
        if s[i].len() == s[j].len() {
            assert(s[i][0] != s[j][0] || s[i][1] != s[j][1] || s[i][s[i].len() - 1] != s[j][s[j].len() - 1]);
        }
    }
}

proof fn lemma_table_e()
    ensures
        default_suffixes('e').len() > 0,
        default_suffixes('e').no_duplicates(),
        forall|i: int| 0 <= i < default_suffixes('e').len() ==> #[trigger] default_suffixes('e')[i].len() > 0,
{
    reveal_strlit("う");
    reveal_strlit("え");
    reveal_strlit("えた");
    reveal_strlit("えて");
    reveal_strlit("えば");
    reveal_strlit("える");
    reveal_strlit("えれば");
    let s = default_suffixes('e');
    assert(s =~= seq!["え"@, "える"@, "う"@, "えた"@, "えて"@, "えば"@, "えれば"@]);
    assert forall|i: int, j: int| 0 <= i < j < s.len() implies s[i] != s[j] by {
        if s[i].len() == s[j].len() {
            assert(s[i][0] != s[j][0] || s[i][1] != s[j][1] || s[i][s[i].len() - 1] != s[j][s[j].len() - 1]);
        }
    }
}

proof fn lemma_table_o()
    ensures
        default_suffixes('o').len() > 0,
        default_suffixes('o').no_duplicates(),
        forall|i: int| 0 <= i < default_suffixes('o').len() ==> #[trigger] default_suffixes('o')[i].len() > 0,
{
    reveal_strlit("う");
    reveal_strlit("お");
    reveal_strlit("おう");
    reveal_strlit("よう");
    let s = default_suffixes('o');
    assert(s =~= seq!["おう"@, "お"@, "う"@, "よう"@]);
    assert forall|i: int, j: int| 0 <= i < j < s.len() implies s[i] != s[j] by {
        if s[i].len() == s[j].len() {
            assert(s[i][0] != s[j][0] || s[i][1] != s[j][1] || s[i][s[i].len() - 1] != s[j][s[j].len() - 1]);
        }
    }
}

proof fn lemma_table_a()
    ensures
        default_suffixes('a').len() > 0,
        default_suffixes('a').no_duplicates(),
        forall|i: int| 0 <= i < default_suffixes('a').len() ==> #[trigger] default_suffixes('a')[i].len() > 0,
{
    reveal_strlit("う");
    reveal_strlit("ない");
    reveal_strlit("わ");
    reveal_strlit("わず");
    reveal_strlit("わせる");
    reveal_strlit("わない");
    reveal_strlit("われる");
    let s = default_suffixes('a');
    assert(s =~= seq!["わない"@, "わ"@, "う"@, "ない"@, "わせる"@, "われる"@, "わず"@]);
    assert forall|i: int, j: int| 0 <= i < j < s.len() implies s[i] != s[j] by {
        if s[i].len() == s[j].len() {
            assert(s[i][0] != s[j][0] || s[i][1] != s[j][1] || s[i][s[i].len() - 1] != s[j][s[j].len() - 1]);
        }
    }
}

proof fn lemma_table_i()
    ensures
        default_suffixes('i').len() > 0,
        default_suffixes('i').no_duplicates(),
        forall|i: int| 0 <= i < default_suffixes('i').len() ==> #[trigger] default_suffixes('i')[i].len() > 0,
{
    reveal_strlit("い");
    reveal_strlit("う");
    reveal_strlit("かった");
    reveal_strlit("く");
    reveal_strlit("くて");
    reveal_strlit("け");
    reveal_strlit("ければ");
    reveal_strlit("った");
    reveal_strlit("って");
    let s = default_suffixes('i');
    assert(s =~= seq!["い"@, "う"@, "く"@, "け"@, "かった"@, "くて"@, "ければ"@, "った"@, "って"@]);
    assert forall|i: int, j: int| 0 <= i < j < s.len() implies s[i] != s[j] by {
        if s[i].len() == s[j].len() {
            assert(s[i][0] != s[j][0] || s[i][1] != s[j][1] || s[i][s[i].len() - 1] != s[j][s[j].len() - 1]);
        }
    }
}

proof fn lemma_table_d()
    ensures
        default_suffixes('d').len() > 0,
        default_suffixes('d').no_duplicates(),
        forall|i: int| 0 <= i < default_suffixes('d').len() ==> #[trigger] default_suffixes('d')[i].len() > 0,
{
    reveal_strlit("だ");
    reveal_strlit("で");
    reveal_strlit("んだ");
    reveal_strlit("んで");
    let s = default_suffixes('d');
    assert(s =~= seq!["だ"@, "で"@, "んだ"@, "んで"@]);
    assert forall|i: int, j: int| 0 <= i < j < s.len() implies s[i] != s[j] by {
        if s[i].len() == s[j].len() {
            assert(s[i][0] != s[j][0] || s[i][1] != s[j][1] || s[i][s[i].len() - 1] != s[j][s[j].len() - 1]);
        }
    }
}

proof fn lemma_table_c()
    ensures
        default_suffixes('c').len() > 0,
        default_suffixes('c').no_duplicates(),
        forall|i: int| 0 <= i < default_suffixes('c').len() ==> #[trigger] default_suffixes('c')[i].len() > 0,
{
    reveal_strlit("ち");
    reveal_strlit("ちまう");
    reveal_strlit("ちまった");
    reveal_strlit("ちゃう");
    reveal_strlit("ちゃった");
    reveal_strlit("っちゃう");
    reveal_strlit("っちゃった");
    let s = default_suffixes('c');
    assert(s =~= seq!["っちゃう"@, "っちゃった"@, "ちゃう"@, "ちゃった"@, "ちまう"@, "ちまった"@, "ち"@]);
    assert forall|i: int, j: int| 0 <= i < j < s.len() implies s[i] != s[j] by {
        if s[i].len() == s[j].len() {
            assert(s[i][0] != s[j][0] || s[i][1] != s[j][1] || s[i][s[i].len() - 1] != s[j][s[j].len() - 1]);
        }
    }
}

proof fn lemma_table_y()
    ensures
        default_suffixes('y').len() > 0,
        default_suffixes('y').no_duplicates(),
        forall|i: int| 0 <= i < default_suffixes('y').len() ==> #[trigger] default_suffixes('y')[i].len() > 0,
{
    reveal_strlit("や");
    reveal_strlit("ゆ");
    reveal_strlit("よう");
    let s = default_suffixes('y');
    assert(s =~= seq!["よう"@, "や"@, "ゆ"@]);
    assert forall|i: int, j: int| 0 <= i < j < s.len() implies s[i] != s[j] by {
        if s[i].len() == s[j].len() {
            assert(s[i][0] != s[j][0] || s[i][1] != s[j][1] || s[i][s[i].len() - 1] != s[j][s[j].len() - 1]);
        }
    }
}

proof fn lemma_table_j()
    ensures
        default_suffixes('j').len() > 0,
        default_suffixes('j').no_duplicates(),
        forall|i: int| 0 <= i < default_suffixes('j').len() ==> #[trigger] default_suffixes('j')[i].len() > 0,
{
    reveal_strlit("じ");
    reveal_strlit("じゃ");
    reveal_strlit("じゃう");
    reveal_strlit("じゃった");
    reveal_strlit("じる");
    let s = default_suffixes('j');
    assert(s =~= seq!["じる"@, "じ"@, "じゃう"@, "じゃった"@, "じゃ"@]);
    assert forall|i: int, j: int| 0 <= i < j < s.len() implies s[i] != s[j] by {
        if s[i].len() == s[j].len() {
            assert(s[i][0] != s[j][0] || s[i][1] != s[j][1] || s[i][s[i].len() - 1] != s[j][s[j].len() - 1]);
        }
    }
}

proof fn lemma_table_p()
    ensures
        default_suffixes('p').len() > 0,
        default_suffixes('p').no_duplicates(),
        forall|i: int| 0 <= i < default_suffixes('p').len() ==> #[trigger] default_suffixes('p')[i].len() > 0,
{
    reveal_strlit("っぽい");
    reveal_strlit("ぽい");
    let s = default_suffixes('p');
    assert(s =~= seq!["っぽい"@, "ぽい"@]);
    assert forall|i: int, j: int| 0 <= i < j < s.len() implies s[i] != s[j] by {
        if s[i].len() == s[j].len() {
            assert(s[i][0] != s[j][0] || s[i][1] != s[j][1] || s[i][s[i].len() - 1] != s[j][s[j].len() - 1]);
        }
    }
}

/// The letters that key a table of okuri-gana.
pub open spec fn is_okuri_key(k: char) -> bool {
    k == 'a' || k == 'b' || k == 'c' || k == 'd' || k == 'e' || k == 'g' || k == 'i' || k == 'j' || k == 'k' || k == 'm' || k == 'n' || k == 'o' || k == 'p' || k == 'r' || k == 's' || k == 't' || k == 'u' || k == 'w' || k == 'y'
}

/// The okuri-gana table of a key letter does not depend on its case; it is
/// empty exactly for letters outside the table; its entries are non-empty
/// and distinct.
pub proof fn law_okuri_key_table(key: char)
    ensures
        default_suffixes(key) == default_suffixes(ascii_lower(key)),
        default_suffixes(key).len() == 0 <==> !is_okuri_key(ascii_lower(key)),
        default_suffixes(key).no_duplicates(),
        forall|i: int| 0 <= i < default_suffixes(key).len() ==> #[trigger] default_suffixes(key)[i].len() > 0,
{
    let k = ascii_lower(key);
    assert(ascii_lower(k) == k);
    if k == 'a' {
        lemma_table_a();
    } else if k == 'b' {
        lemma_table_b();
    } else if k == 'c' {
        lemma_table_c();
    } else if k == 'd' {
        lemma_table_d();
    } else if k == 'e' {
        lemma_table_e();
    } else if k == 'g' {
        lemma_table_g();
    } else if k == 'i' {
        lemma_table_i();
    } else if k == 'j' {
        lemma_table_j();
    } else if k == 'k' {
        lemma_table_k();
    } else if k == 'm' {
        lemma_table_m();
    } else if k == 'n' {
        lemma_table_n();
    } else if k == 'o' {
        lemma_table_o();
    } else if k == 'p' {
        lemma_table_p();
    } else if k == 'r' {
        lemma_table_r();
    } else if k == 's' {
        lemma_table_s();
    } else if k == 't' {
        lemma_table_t();
    } else if k == 'u' {
        lemma_table_u();
    } else if k == 'w' {
        lemma_table_w();
    } else if k == 'y' {
        lemma_table_y();
    }
}

/// The okuri-gana a key letter can stand for.
pub fn okuri_key_to_suffixes(key: char) -> (r: &'static [&'static str])
    ensures
        str_views(r@) == default_suffixes(key),
{
    let k = lower_char(key);
    let r: &'static [&'static str] = 
    if k == 'k' {
        &["く", "き", "け", "かった", "くて", "きゃ"]
    } else if k == 's' {
        &["す", "し", "せ", "した", "して", "しゃ"]
    } else if k == 't' {
        &["った", "って", "て", "つ", "ち"]
    } else if k == 'n' {
        &["ない", "なきゃ", "なくちゃ", "ぬ", "ね", "に", "にゃ", "んだ", "んで"]
    } else if k == 'm' {
        &["む", "み", "め", "んだ", "んで", "みゃ", "もう"]
    } else if k == 'r' {
        &["る", "り", "れ", "りゃ", "ろう"]
    } else if k == 'g' {
        &["ぐ", "ぎ", "げ", "いだ", "いで", "ぎゃ", "ごう"]
    } else if k == 'b' {
        &["ぶ", "び", "べ", "んだ", "んで", "びゃ", "ぼう"]
    } else if k == 'u' || k == 'w' {
        &["う", "い", "え", "った", "って", "おう"]
    } else if k == 'e' {
        &["え", "える", "う", "えた", "えて", "えば", "えれば"]
    } else if k == 'o' {
        &["おう", "お", "う", "よう"]
    } else if k == 'a' {
        &["わない", "わ", "う", "ない", "わせる", "われる", "わず"]
    } else if k == 'i' {
        &["い", "う", "く", "け", "かった", "くて", "ければ", "った", "って"]
    } else if k == 'd' {
        &["だ", "で", "んだ", "んで"]
    } else if k == 'c' {
        &["っちゃう", "っちゃった", "ちゃう", "ちゃった", "ちまう", "ちまった", "ち"]
    } else if k == 'y' {
        &["よう", "や", "ゆ"]
    } else if k == 'j' {
        &["じる", "じ", "じゃう", "じゃった", "じゃ"]
    } else if k == 'p' {
        &["っぽい", "ぽい"]
    } else {
        &[]
    };
    assert(str_views(r@) =~= default_suffixes(key));
    r
}

/// The order in which the okuri-gana of a multi-character stem are tried:
/// continuative and ichidan (noun) forms come first, so that compounds such
/// as 問合せ, 割当て or 値上げ are found. `None` for a single-character stem
/// or a key without a table: those keep the order they are given in.
pub open spec fn compound_order(stem: Seq<char>, key: char) -> Option<Seq<Seq<char>>> {
    let k = ascii_lower(key);
    if stem.len() < 2 {
        None
    } else if k == 'k' {
        Some(seq!["き"@, "く"@, "け"@, "かった"@, "くて"@])
    } else if k == 's' {
        Some(seq!["す"@, "し"@, "せ"@, "した"@, "して"@])
    } else if k == 't' {
        if stem.len() >= 3 {
            Some(seq!["て"@, "つ"@, "ち"@, "った"@, "って"@])
        } else {
            Some(seq!["った"@, "って"@, "て"@, "つ"@, "ち"@])
        }
    } else if k == 'n' {
        Some(seq!["ね"@, "に"@, "ぬ"@, "ない"@, "んだ"@, "んで"@])
    } else if k == 'm' {
        Some(seq!["み"@, "む"@, "め"@, "んだ"@, "んで"@])
    } else if k == 'r' {
        Some(seq!["り"@, "る"@, "れ"@, "った"@, "って"@])
    } else if k == 'g' {
        Some(seq!["げ"@, "ぎ"@, "ぐ"@, "いだ"@, "いで"@])
    } else if k == 'b' {
        Some(seq!["び"@, "ぶ"@, "べ"@, "んだ"@, "んで"@])
    } else if k == 'u' || k == 'w' {
        Some(seq!["い"@, "う"@, "え"@, "った"@, "って"@])
    } else if k == 'e' {
        Some(seq!["え"@, "える"@, "う"@, "えた"@, "えて"@, "えれば"@])
    } else if k == 'o' {
        Some(seq!["おう"@, "お"@, "う"@, "よう"@])
    } else if k == 'a' {
        Some(seq!["わない"@, "わ"@, "う"@, "ない"@, "わせる"@, "われる"@, "わず"@])
    } else if k == 'i' {
        Some(seq!["い"@, "う"@, "く"@, "け"@, "かった"@, "くて"@, "ければ"@])
    } else if k == 'd' {
        Some(seq!["で"@, "だ"@, "んだ"@, "んで"@])
    } else if k == 'c' {
        Some(seq!["っちゃう"@, "ちゃう"@, "ちまう"@, "ち"@])
    } else if k == 'y' {
        Some(seq!["よう"@, "や"@, "ゆ"@])
    } else if k == 'j' {
        Some(seq!["じ"@, "じる"@, "じゃう"@])
    } else if k == 'p' {
        Some(seq!["っぽい"@, "ぽい"@])
    } else {
        None
    }
}

/// The okuri-gana tried for `stem` and `key`: the compound order, else the
/// key's default table.
pub open spec fn ordered_suffixes(stem: Seq<char>, key: char) -> Seq<Seq<char>> {
    match compound_order(stem, key) {
        Some(o) => o,
        None => default_suffixes(key),
    }
}

/// The okuri-gana to try for `stem`, most likely first: the compound order
/// for a stem of two characters or more and a known key, otherwise
/// `default_suffixes` as given.
pub fn order_suffixes_for_stem(stem: &str, key: char, default_suffixes: &'static [&'static str]) -> (r: &'static [&'static str])
    ensures
        compound_order(stem@, key) matches Some(o) ==> str_views(r@) == o,
        compound_order(stem@, key) is None ==> r == default_suffixes,
{
    let n = char_count(stem);
    if n < 2 {
        return default_suffixes;
    }
    let k = lower_char(key);
    let r: &'static [&'static str] = 
    if k == 'k' {
        &["き", "く", "け", "かった", "くて"]
    } else if k == 's' {
        &["す", "し", "せ", "した", "して"]
    } else if k == 't' {
        if n >= 3 {
            &["て", "つ", "ち", "った", "って"]
        } else {
            &["った", "って", "て", "つ", "ち"]
        }
    } else if k == 'n' {
        &["ね", "に", "ぬ", "ない", "んだ", "んで"]
    } else if k == 'm' {
        &["み", "む", "め", "んだ", "んで"]
    } else if k == 'r' {
        &["り", "る", "れ", "った", "って"]
    } else if k == 'g' {
        &["げ", "ぎ", "ぐ", "いだ", "いで"]
    } else if k == 'b' {
        &["び", "ぶ", "べ", "んだ", "んで"]
    } else if k == 'u' || k == 'w' {
        &["い", "う", "え", "った", "って"]
    } else if k == 'e' {
        &["え", "える", "う", "えた", "えて", "えれば"]
    } else if k == 'o' {
        &["おう", "お", "う", "よう"]
    } else if k == 'a' {
        &["わない", "わ", "う", "ない", "わせる", "われる", "わず"]
    } else if k == 'i' {
        &["い", "う", "く", "け", "かった", "くて", "ければ"]
    } else if k == 'd' {
        &["で", "だ", "んだ", "んで"]
    } else if k == 'c' {
        &["っちゃう", "ちゃう", "ちまう", "ち"]
    } else if k == 'y' {
        &["よう", "や", "ゆ"]
    } else if k == 'j' {
        &["じ", "じる", "じゃう"]
    } else if k == 'p' {
        &["っぽい", "ぽい"]
    } else {
        default_suffixes
    };
    proof {
        if compound_order(stem@, key) is Some {
            assert(str_views(r@) =~= compound_order(stem@, key).unwrap());
        }
    }
    r
}
// ---------------------------------------------------------------------------
// Laws of stem recovery
// ---------------------------------------------------------------------------

/// The kana an ichidan or adjective stem (or a continuative / ichidan noun)
/// can end in: the i column and the e column of the kana table.
pub open spec fn i_or_e_column_kana() -> Seq<char> {
    seq!['い', 'き', 'し', 'ち', 'に', 'ひ', 'み', 'り', 'ぎ', 'じ', 'び', 'ぴ', 'え', 'け', 'せ', 'て', 'ね', 'へ', 'め', 'れ', 'げ', 'ぜ', 'で', 'べ', 'ぺ']
}

/// For a reading whose stem has two kana or more, a stem made of kanji
/// followed by one i-column or e-column kana is plausible (`起き`, `食べ`,
/// `受付け`); so is any stem of kanji alone (`書`, `問合`).
pub proof fn law_kanji_stems_are_valid(kanji: Seq<char>, kana: char, n: int)
    requires
        kanji.len() > 0,
        forall|i: int| 0 <= i < kanji.len() ==> is_kanji_spec(#[trigger] kanji[i]),
        n >= 2,
    ensures
        i_or_e_column_kana().contains(kana) ==> valid_stem_spec(kanji.push(kana), n),
        valid_stem_spec(kanji, n),
{
    lemma_kanji_count_all(kanji);
    let st = kanji.push(kana);
    assert(st.drop_last() =~= kanji);
    if i_or_e_column_kana().contains(kana) {
        let j = choose|j: int| 0 <= j < i_or_e_column_kana().len() && i_or_e_column_kana()[j] == kana;
        assert(is_ie_row(kana));
        if !is_kanji_spec(kana) {
            assert(kanji_count(st) == kanji_count(kanji));
        }
    }
}

/// For a one-kana reading stem, a stem is plausible exactly when it holds a
/// kanji.
pub proof fn law_short_stems_need_kanji(stem: Seq<char>, n: int)
    requires
        n < 2,
    ensures
        valid_stem_spec(stem, n) <==> exists|i: int| 0 <= i < stem.len() && is_kanji_spec(#[trigger] stem[i]),
{
    lemma_kanji_count_pos(stem);
}

proof fn lemma_kanji_count_all(s: Seq<char>)
    requires
        forall|i: int| 0 <= i < s.len() ==> is_kanji_spec(#[trigger] s[i]),
    ensures
        kanji_count(s) == s.len(),
    decreases s.len(),
{
    if s.len() > 0 {
        assert(is_kanji_spec(s[s.len() - 1]));
        assert forall|i: int| 0 <= i < s.drop_last().len() implies is_kanji_spec(#[trigger] s.drop_last()[i]) by {
            assert(s.drop_last()[i] == s[i]);
        }
        lemma_kanji_count_all(s.drop_last());
    }
}

proof fn lemma_kanji_count_pos(s: Seq<char>)
    ensures
        kanji_count(s) >= 1 <==> exists|i: int| 0 <= i < s.len() && is_kanji_spec(#[trigger] s[i]),
    decreases s.len(),
{
    if s.len() > 0 {
        lemma_kanji_count_pos(s.drop_last());
        if exists|i: int| 0 <= i < s.len() && is_kanji_spec(#[trigger] s[i]) {
            let i = choose|i: int| 0 <= i < s.len() && is_kanji_spec(#[trigger] s[i]);
            if i < s.len() - 1 {
                assert(s.drop_last()[i] == s[i]);
            }
        }
        if exists|i: int| 0 <= i < s.drop_last().len() && is_kanji_spec(#[trigger] s.drop_last()[i]) {
            let i = choose|i: int| 0 <= i < s.drop_last().len() && is_kanji_spec(#[trigger] s.drop_last()[i]);
            assert(s[i] == s.drop_last()[i]);
        }
    }
}

/// Implausible stems are dropped: a stem without a kanji, and, for a
/// reading stem of two kana or more, one kanji followed by a kana outside
/// the i and e columns (`手だ`, a left-over of a partial conversion).
pub proof fn law_implausible_stems_rejected(stem: Seq<char>, k: char, kana: char, n: int)
    ensures
        (forall|i: int| 0 <= i < stem.len() ==> !is_kanji_spec(#[trigger] stem[i])) ==> !valid_stem_spec(stem, n),
        n >= 2 && is_kanji_spec(k) && !is_kanji_spec(kana) && !i_or_e_column_kana().contains(kana)
            ==> !valid_stem_spec(seq![k, kana], n),
{
    lemma_kanji_count_pos(stem);
    let st = seq![k, kana];
    assert(st.drop_last() =~= seq![k]);
    assert(seq![k].drop_last() =~= Seq::<char>::empty());
    assert(kanji_count(Seq::<char>::empty()) == 0);
    if is_kanji_spec(k) && !is_kanji_spec(kana) {
        assert(kanji_count(seq![k]) == 1);
        assert(kanji_count(st) == 1);
    }
    if !i_or_e_column_kana().contains(kana) && is_ie_row(kana) {
        assert(i_or_e_column_kana().contains(kana)) by {
            let l = i_or_e_column_kana();
            if kana == 'い' {
                assert(l[0] == kana);
            } else if kana == 'き' {
                assert(l[1] == kana);
            } else if kana == 'し' {
                assert(l[2] == kana);
            } else if kana == 'ち' {
                assert(l[3] == kana);
            } else if kana == 'に' {
                assert(l[4] == kana);
            } else if kana == 'ひ' {
                assert(l[5] == kana);
            } else if kana == 'み' {
                assert(l[6] == kana);
            } else if kana == 'り' {
                assert(l[7] == kana);
            } else if kana == 'ぎ' {
                assert(l[8] == kana);
            } else if kana == 'じ' {
                assert(l[9] == kana);
            } else if kana == 'び' {
                assert(l[10] == kana);
            } else if kana == 'ぴ' {
                assert(l[11] == kana);
            } else if kana == 'え' {
                assert(l[12] == kana);
            } else if kana == 'け' {
                assert(l[13] == kana);
            } else if kana == 'せ' {
                assert(l[14] == kana);
            } else if kana == 'て' {
                assert(l[15] == kana);
            } else if kana == 'ね' {
                assert(l[16] == kana);
            } else if kana == 'へ' {
                assert(l[17] == kana);
            } else if kana == 'め' {
                assert(l[18] == kana);
            } else if kana == 'れ' {
                assert(l[19] == kana);
            } else if kana == 'げ' {
                assert(l[20] == kana);
            } else if kana == 'ぜ' {
                assert(l[21] == kana);
            } else if kana == 'で' {
                assert(l[22] == kana);
            } else if kana == 'べ' {
                assert(l[23] == kana);
            } else if kana == 'ぺ' {
                assert(l[24] == kana);
            }
        }
    }
}

/// A candidate that is a plausible stem followed by the okuri-gana yields
/// that stem (`起きる` with `る` for `おきる` gives `起き`).
pub proof fn law_stem_of_inflected_candidate(stem: Seq<char>, suffix: Seq<char>, n: int)
    requires
        valid_stem_spec(stem, n),
        clean_spec(stem + suffix) == stem + suffix,
    ensures
        extract_spec(seq![stem + suffix], suffix, n) == seq![stem],
{
    let c = stem + suffix;
    assert(seq![c].drop_last() =~= Seq::<Seq<char>>::empty());
    assert(c.subrange(c.len() - suffix.len(), c.len() as int) =~= suffix);
    assert(c.subrange(0, c.len() - suffix.len()) =~= stem);
    assert(Seq::<Seq<char>>::empty().push(stem) =~= seq![stem]);
    assert(extract_spec(seq![c].drop_last(), suffix, n) == Seq::<Seq<char>>::empty());
    assert(seq![c].last() == c);
    assert(has_suffix(c, suffix));
    assert(!Seq::<Seq<char>>::empty().contains(stem));
    assert(stem_step(Seq::<Seq<char>>::empty(), c, suffix, n) == seq![stem]);
}

// ---------------------------------------------------------------------------
// Laws of reading expansion
// ---------------------------------------------------------------------------

/// The row of the kana table a consonant letter stands for, in column
/// order a, i, u, e, o.
pub open spec fn gojuon_row(c: char) -> Option<Seq<char>> {
    if c == 'k' {
        Some(seq!['か', 'き', 'く', 'け', 'こ'])
    } else if c == 'g' {
        Some(seq!['が', 'ぎ', 'ぐ', 'げ', 'ご'])
    } else if c == 's' {
        Some(seq!['さ', 'し', 'す', 'せ', 'そ'])
    } else if c == 'z' {
        Some(seq!['ざ', 'じ', 'ず', 'ぜ', 'ぞ'])
    } else if c == 't' {
        Some(seq!['た', 'ち', 'つ', 'て', 'と'])
    } else if c == 'd' {
        Some(seq!['だ', 'ぢ', 'づ', 'で', 'ど'])
    } else if c == 'n' {
        Some(seq!['な', 'に', 'ぬ', 'ね', 'の'])
    } else if c == 'h' {
        Some(seq!['は', 'ひ', 'ふ', 'へ', 'ほ'])
    } else if c == 'b' {
        Some(seq!['ば', 'び', 'ぶ', 'べ', 'ぼ'])
    } else if c == 'p' {
        Some(seq!['ぱ', 'ぴ', 'ぷ', 'ぺ', 'ぽ'])
    } else if c == 'm' {
        Some(seq!['ま', 'み', 'む', 'め', 'も'])
    } else if c == 'r' {
        Some(seq!['ら', 'り', 'る', 'れ', 'ろ'])
    } else {
        None
    }
}

/// The vowels as kana, in column order a, i, u, e, o.
pub open spec fn vowel_row() -> Seq<char> {
    seq!['あ', 'い', 'う', 'え', 'お']
}

/// The row an okuri key letter conjugates in: its consonant row, or the
/// vowel row for the wa-row keys `u` and `w`.
pub open spec fn okuri_key_row(k: char) -> Option<Seq<char>> {
    if k == 'u' || k == 'w' {
        Some(vowel_row())
    } else if k == 'k' || k == 'g' || k == 's' || k == 't' || k == 'n' || k == 'm' || k == 'r' || k == 'b' {
        gojuon_row(k)
    } else {
        None
    }
}

proof fn lemma_columns_k(stem: Seq<char>)
    requires
        stem.len() >= 2,
    ensures
        ({
            let row = okuri_key_row('k').unwrap();
            let o = ordered_suffixes(stem, 'k');
            &&& o.contains(seq![row[1]]) && o.contains(seq![row[2]]) && o.contains(seq![row[3]])
            &&& stem.len() >= 3 ==> (o[0] == seq![row[1]] || o[0] == seq![row[2]] || o[0] == seq![row[3]])
        }),
{
    reveal_strlit("い");
    reveal_strlit("いだ");
    reveal_strlit("いで");
    reveal_strlit("う");
    reveal_strlit("え");
    reveal_strlit("えた");
    reveal_strlit("えて");
    reveal_strlit("える");
    reveal_strlit("えれば");
    reveal_strlit("お");
    reveal_strlit("おう");
    reveal_strlit("かった");
    reveal_strlit("き");
    reveal_strlit("ぎ");
    reveal_strlit("く");
    reveal_strlit("くて");
    reveal_strlit("ぐ");
    reveal_strlit("け");
    reveal_strlit("ければ");
    reveal_strlit("げ");
    reveal_strlit("し");
    reveal_strlit("した");
    reveal_strlit("して");
    reveal_strlit("じ");
    reveal_strlit("じゃう");
    reveal_strlit("じる");
    reveal_strlit("す");
    reveal_strlit("せ");
    reveal_strlit("だ");
    reveal_strlit("ち");
    reveal_strlit("ちまう");
    reveal_strlit("ちゃう");
    reveal_strlit("った");
    reveal_strlit("っちゃう");
    reveal_strlit("って");
    reveal_strlit("っぽい");
    reveal_strlit("つ");
    reveal_strlit("て");
    reveal_strlit("で");
    reveal_strlit("ない");
    reveal_strlit("に");
    reveal_strlit("ぬ");
    reveal_strlit("ね");
    reveal_strlit("び");
    reveal_strlit("ぶ");
    reveal_strlit("べ");
    reveal_strlit("ぽい");
    reveal_strlit("み");
    reveal_strlit("む");
    reveal_strlit("め");
    reveal_strlit("や");
    reveal_strlit("ゆ");
    reveal_strlit("よう");
    reveal_strlit("り");
    reveal_strlit("る");
    reveal_strlit("れ");
    reveal_strlit("わ");
    reveal_strlit("わず");
    reveal_strlit("わせる");
    reveal_strlit("わない");
    reveal_strlit("われる");
    reveal_strlit("んだ");
    reveal_strlit("んで");
    let row = okuri_key_row('k').unwrap();
    let o = ordered_suffixes(stem, 'k');
    assert(o.contains(seq![row[1]]) && o.contains(seq![row[2]]) && o.contains(seq![row[3]])) by {
        assert(exists|j: int| 0 <= j < o.len() && o[j] =~= seq![row[1]]);
        assert(exists|j: int| 0 <= j < o.len() && o[j] =~= seq![row[2]]);
        assert(exists|j: int| 0 <= j < o.len() && o[j] =~= seq![row[3]]);
    }
    if stem.len() >= 3 {
        assert(o[0] =~= seq![row[1]] || o[0] =~= seq![row[2]] || o[0] =~= seq![row[3]]);
    }
}

proof fn lemma_columns_g(stem: Seq<char>)
    requires
        stem.len() >= 2,
    ensures
        ({
            let row = okuri_key_row('g').unwrap();
            let o = ordered_suffixes(stem, 'g');
            &&& o.contains(seq![row[1]]) && o.contains(seq![row[2]]) && o.contains(seq![row[3]])
            &&& stem.len() >= 3 ==> (o[0] == seq![row[1]] || o[0] == seq![row[2]] || o[0] == seq![row[3]])
        }),
{
    reveal_strlit("い");
    reveal_strlit("いだ");
    reveal_strlit("いで");
    reveal_strlit("う");
    reveal_strlit("え");
    reveal_strlit("えた");
    reveal_strlit("えて");
    reveal_strlit("える");
    reveal_strlit("えれば");
    reveal_strlit("お");
    reveal_strlit("おう");
    reveal_strlit("かった");
    reveal_strlit("き");
    reveal_strlit("ぎ");
    reveal_strlit("く");
    reveal_strlit("くて");
    reveal_strlit("ぐ");
    reveal_strlit("け");
    reveal_strlit("ければ");
    reveal_strlit("げ");
    reveal_strlit("し");
    reveal_strlit("した");
    reveal_strlit("して");
    reveal_strlit("じ");
    reveal_strlit("じゃう");
    reveal_strlit("じる");
    reveal_strlit("す");
    reveal_strlit("せ");
    reveal_strlit("だ");
    reveal_strlit("ち");
    reveal_strlit("ちまう");
    reveal_strlit("ちゃう");
    reveal_strlit("った");
    reveal_strlit("っちゃう");
    reveal_strlit("って");
    reveal_strlit("っぽい");
    reveal_strlit("つ");
    reveal_strlit("て");
    reveal_strlit("で");
    reveal_strlit("ない");
    reveal_strlit("に");
    reveal_strlit("ぬ");
    reveal_strlit("ね");
    reveal_strlit("び");
    reveal_strlit("ぶ");
    reveal_strlit("べ");
    reveal_strlit("ぽい");
    reveal_strlit("み");
    reveal_strlit("む");
    reveal_strlit("め");
    reveal_strlit("や");
    reveal_strlit("ゆ");
    reveal_strlit("よう");
    reveal_strlit("り");
    reveal_strlit("る");
    reveal_strlit("れ");
    reveal_strlit("わ");
    reveal_strlit("わず");
    reveal_strlit("わせる");
    reveal_strlit("わない");
    reveal_strlit("われる");
    reveal_strlit("んだ");
    reveal_strlit("んで");
    let row = okuri_key_row('g').unwrap();
    let o = ordered_suffixes(stem, 'g');
    assert(o.contains(seq![row[1]]) && o.contains(seq![row[2]]) && o.contains(seq![row[3]])) by {
        assert(exists|j: int| 0 <= j < o.len() && o[j] =~= seq![row[1]]);
        assert(exists|j: int| 0 <= j < o.len() && o[j] =~= seq![row[2]]);
        assert(exists|j: int| 0 <= j < o.len() && o[j] =~= seq![row[3]]);
    }
    if stem.len() >= 3 {
        assert(o[0] =~= seq![row[1]] || o[0] =~= seq![row[2]] || o[0] =~= seq![row[3]]);
    }
}

proof fn lemma_columns_s(stem: Seq<char>)
    requires
        stem.len() >= 2,
    ensures
        ({
            let row = okuri_key_row('s').unwrap();
            let o = ordered_suffixes(stem, 's');
            &&& o.contains(seq![row[1]]) && o.contains(seq![row[2]]) && o.contains(seq![row[3]])
            &&& stem.len() >= 3 ==> (o[0] == seq![row[1]] || o[0] == seq![row[2]] || o[0] == seq![row[3]])
        }),
{
    reveal_strlit("い");
    reveal_strlit("いだ");
    reveal_strlit("いで");
    reveal_strlit("う");
    reveal_strlit("え");
    reveal_strlit("えた");
    reveal_strlit("えて");
    reveal_strlit("える");
    reveal_strlit("えれば");
    reveal_strlit("お");
    reveal_strlit("おう");
    reveal_strlit("かった");
    reveal_strlit("き");
    reveal_strlit("ぎ");
    reveal_strlit("く");
    reveal_strlit("くて");
    reveal_strlit("ぐ");
    reveal_strlit("け");
    reveal_strlit("ければ");
    reveal_strlit("げ");
    reveal_strlit("し");
    reveal_strlit("した");
    reveal_strlit("して");
    reveal_strlit("じ");
    reveal_strlit("じゃう");
    reveal_strlit("じる");
    reveal_strlit("す");
    reveal_strlit("せ");
    reveal_strlit("だ");
    reveal_strlit("ち");
    reveal_strlit("ちまう");
    reveal_strlit("ちゃう");
    reveal_strlit("った");
    reveal_strlit("っちゃう");
    reveal_strlit("って");
    reveal_strlit("っぽい");
    reveal_strlit("つ");
    reveal_strlit("て");
    reveal_strlit("で");
    reveal_strlit("ない");
    reveal_strlit("に");
    reveal_strlit("ぬ");
    reveal_strlit("ね");
    reveal_strlit("び");
    reveal_strlit("ぶ");
    reveal_strlit("べ");
    reveal_strlit("ぽい");
    reveal_strlit("み");
    reveal_strlit("む");
    reveal_strlit("め");
    reveal_strlit("や");
    reveal_strlit("ゆ");
    reveal_strlit("よう");
    reveal_strlit("り");
    reveal_strlit("る");
    reveal_strlit("れ");
    reveal_strlit("わ");
    reveal_strlit("わず");
    reveal_strlit("わせる");
    reveal_strlit("わない");
    reveal_strlit("われる");
    reveal_strlit("んだ");
    reveal_strlit("んで");
    let row = okuri_key_row('s').unwrap();
    let o = ordered_suffixes(stem, 's');
    assert(o.contains(seq![row[1]]) && o.contains(seq![row[2]]) && o.contains(seq![row[3]])) by {
        assert(exists|j: int| 0 <= j < o.len() && o[j] =~= seq![row[1]]);
        assert(exists|j: int| 0 <= j < o.len() && o[j] =~= seq![row[2]]);
        assert(exists|j: int| 0 <= j < o.len() && o[j] =~= seq![row[3]]);
    }
    if stem.len() >= 3 {
        assert(o[0] =~= seq![row[1]] || o[0] =~= seq![row[2]] || o[0] =~= seq![row[3]]);
    }
}

proof fn lemma_columns_t(stem: Seq<char>)
    requires
        stem.len() >= 2,
    ensures
        ({
            let row = okuri_key_row('t').unwrap();
            let o = ordered_suffixes(stem, 't');
            &&& o.contains(seq![row[1]]) && o.contains(seq![row[2]]) && o.contains(seq![row[3]])
            &&& stem.len() >= 3 ==> (o[0] == seq![row[1]] || o[0] == seq![row[2]] || o[0] == seq![row[3]])
        }),
{
    reveal_strlit("い");
    reveal_strlit("いだ");
    reveal_strlit("いで");
    reveal_strlit("う");
    reveal_strlit("え");
    reveal_strlit("えた");
    reveal_strlit("えて");
    reveal_strlit("える");
    reveal_strlit("えれば");
    reveal_strlit("お");
    reveal_strlit("おう");
    reveal_strlit("かった");
    reveal_strlit("き");
    reveal_strlit("ぎ");
    reveal_strlit("く");
    reveal_strlit("くて");
    reveal_strlit("ぐ");
    reveal_strlit("け");
    reveal_strlit("ければ");
    reveal_strlit("げ");
    reveal_strlit("し");
    reveal_strlit("した");
    reveal_strlit("して");
    reveal_strlit("じ");
    reveal_strlit("じゃう");
    reveal_strlit("じる");
    reveal_strlit("す");
    reveal_strlit("せ");
    reveal_strlit("だ");
    reveal_strlit("ち");
    reveal_strlit("ちまう");
    reveal_strlit("ちゃう");
    reveal_strlit("った");
    reveal_strlit("っちゃう");
    reveal_strlit("って");
    reveal_strlit("っぽい");
    reveal_strlit("つ");
    reveal_strlit("て");
    reveal_strlit("で");
    reveal_strlit("ない");
    reveal_strlit("に");
    reveal_strlit("ぬ");
    reveal_strlit("ね");
    reveal_strlit("び");
    reveal_strlit("ぶ");
    reveal_strlit("べ");
    reveal_strlit("ぽい");
    reveal_strlit("み");
    reveal_strlit("む");
    reveal_strlit("め");
    reveal_strlit("や");
    reveal_strlit("ゆ");
    reveal_strlit("よう");
    reveal_strlit("り");
    reveal_strlit("る");
    reveal_strlit("れ");
    reveal_strlit("わ");
    reveal_strlit("わず");
    reveal_strlit("わせる");
    reveal_strlit("わない");
    reveal_strlit("われる");
    reveal_strlit("んだ");
    reveal_strlit("んで");
    let row = okuri_key_row('t').unwrap();
    let o = ordered_suffixes(stem, 't');
    assert(o.contains(seq![row[1]]) && o.contains(seq![row[2]]) && o.contains(seq![row[3]])) by {
        assert(exists|j: int| 0 <= j < o.len() && o[j] =~= seq![row[1]]);
        assert(exists|j: int| 0 <= j < o.len() && o[j] =~= seq![row[2]]);
        assert(exists|j: int| 0 <= j < o.len() && o[j] =~= seq![row[3]]);
    }
    if stem.len() >= 3 {
        assert(o[0] =~= seq![row[1]] || o[0] =~= seq![row[2]] || o[0] =~= seq![row[3]]);
    }
}

proof fn lemma_columns_n(stem: Seq<char>)
    requires
        stem.len() >= 2,
    ensures
        ({
            let row = okuri_key_row('n').unwrap();
            let o = ordered_suffixes(stem, 'n');
            &&& o.contains(seq![row[1]]) && o.contains(seq![row[2]]) && o.contains(seq![row[3]])
            &&& stem.len() >= 3 ==> (o[0] == seq![row[1]] || o[0] == seq![row[2]] || o[0] == seq![row[3]])
        }),
{
    reveal_strlit("い");
    reveal_strlit("いだ");
    reveal_strlit("いで");
    reveal_strlit("う");
    reveal_strlit("え");
    reveal_strlit("えた");
    reveal_strlit("えて");
    reveal_strlit("える");
    reveal_strlit("えれば");
    reveal_strlit("お");
    reveal_strlit("おう");
    reveal_strlit("かった");
    reveal_strlit("き");
    reveal_strlit("ぎ");
    reveal_strlit("く");
    reveal_strlit("くて");
    reveal_strlit("ぐ");
    reveal_strlit("け");
    reveal_strlit("ければ");
    reveal_strlit("げ");
    reveal_strlit("し");
    reveal_strlit("した");
    reveal_strlit("して");
    reveal_strlit("じ");
    reveal_strlit("じゃう");
    reveal_strlit("じる");
    reveal_strlit("す");
    reveal_strlit("せ");
    reveal_strlit("だ");
    reveal_strlit("ち");
    reveal_strlit("ちまう");
    reveal_strlit("ちゃう");
    reveal_strlit("った");
    reveal_strlit("っちゃう");
    reveal_strlit("って");
    reveal_strlit("っぽい");
    reveal_strlit("つ");
    reveal_strlit("て");
    reveal_strlit("で");
    reveal_strlit("ない");
    reveal_strlit("に");
    reveal_strlit("ぬ");
    reveal_strlit("ね");
    reveal_strlit("び");
    reveal_strlit("ぶ");
    reveal_strlit("べ");
    reveal_strlit("ぽい");
    reveal_strlit("み");
    reveal_strlit("む");
    reveal_strlit("め");
    reveal_strlit("や");
    reveal_strlit("ゆ");
    reveal_strlit("よう");
    reveal_strlit("り");
    reveal_strlit("る");
    reveal_strlit("れ");
    reveal_strlit("わ");
    reveal_strlit("わず");
    reveal_strlit("わせる");
    reveal_strlit("わない");
    reveal_strlit("われる");
    reveal_strlit("んだ");
    reveal_strlit("んで");
    let row = okuri_key_row('n').unwrap();
    let o = ordered_suffixes(stem, 'n');
    assert(o.contains(seq![row[1]]) && o.contains(seq![row[2]]) && o.contains(seq![row[3]])) by {
        assert(exists|j: int| 0 <= j < o.len() && o[j] =~= seq![row[1]]);
        assert(exists|j: int| 0 <= j < o.len() && o[j] =~= seq![row[2]]);
        assert(exists|j: int| 0 <= j < o.len() && o[j] =~= seq![row[3]]);
    }
    if stem.len() >= 3 {
        assert(o[0] =~= seq![row[1]] || o[0] =~= seq![row[2]] || o[0] =~= seq![row[3]]);
    }
}

proof fn lemma_columns_m(stem: Seq<char>)
    requires
        stem.len() >= 2,
    ensures
        ({
            let row = okuri_key_row('m').unwrap();
            let o = ordered_suffixes(stem, 'm');
            &&& o.contains(seq![row[1]]) && o.contains(seq![row[2]]) && o.contains(seq![row[3]])
            &&& stem.len() >= 3 ==> (o[0] == seq![row[1]] || o[0] == seq![row[2]] || o[0] == seq![row[3]])
        }),
{
    reveal_strlit("い");
    reveal_strlit("いだ");
    reveal_strlit("いで");
    reveal_strlit("う");
    reveal_strlit("え");
    reveal_strlit("えた");
    reveal_strlit("えて");
    reveal_strlit("える");
    reveal_strlit("えれば");
    reveal_strlit("お");
    reveal_strlit("おう");
    reveal_strlit("かった");
    reveal_strlit("き");
    reveal_strlit("ぎ");
    reveal_strlit("く");
    reveal_strlit("くて");
    reveal_strlit("ぐ");
    reveal_strlit("け");
    reveal_strlit("ければ");
    reveal_strlit("げ");
    reveal_strlit("し");
    reveal_strlit("した");
    reveal_strlit("して");
    reveal_strlit("じ");
    reveal_strlit("じゃう");
    reveal_strlit("じる");
    reveal_strlit("す");
    reveal_strlit("せ");
    reveal_strlit("だ");
    reveal_strlit("ち");
    reveal_strlit("ちまう");
    reveal_strlit("ちゃう");
    reveal_strlit("った");
    reveal_strlit("っちゃう");
    reveal_strlit("って");
    reveal_strlit("っぽい");
    reveal_strlit("つ");
    reveal_strlit("て");
    reveal_strlit("で");
    reveal_strlit("ない");
    reveal_strlit("に");
    reveal_strlit("ぬ");
    reveal_strlit("ね");
    reveal_strlit("び");
    reveal_strlit("ぶ");
    reveal_strlit("べ");
    reveal_strlit("ぽい");
    reveal_strlit("み");
    reveal_strlit("む");
    reveal_strlit("め");
    reveal_strlit("や");
    reveal_strlit("ゆ");
    reveal_strlit("よう");
    reveal_strlit("り");
    reveal_strlit("る");
    reveal_strlit("れ");
    reveal_strlit("わ");
    reveal_strlit("わず");
    reveal_strlit("わせる");
    reveal_strlit("わない");
    reveal_strlit("われる");
    reveal_strlit("んだ");
    reveal_strlit("んで");
    let row = okuri_key_row('m').unwrap();
    let o = ordered_suffixes(stem, 'm');
    assert(o.contains(seq![row[1]]) && o.contains(seq![row[2]]) && o.contains(seq![row[3]])) by {
        assert(exists|j: int| 0 <= j < o.len() && o[j] =~= seq![row[1]]);
        assert(exists|j: int| 0 <= j < o.len() && o[j] =~= seq![row[2]]);
        assert(exists|j: int| 0 <= j < o.len() && o[j] =~= seq![row[3]]);
    }
    if stem.len() >= 3 {
        assert(o[0] =~= seq![row[1]] || o[0] =~= seq![row[2]] || o[0] =~= seq![row[3]]);
    }
}

proof fn lemma_columns_r(stem: Seq<char>)
    requires
        stem.len() >= 2,
    ensures
        ({
            let row = okuri_key_row('r').unwrap();
            let o = ordered_suffixes(stem, 'r');
            &&& o.contains(seq![row[1]]) && o.contains(seq![row[2]]) && o.contains(seq![row[3]])
            &&& stem.len() >= 3 ==> (o[0] == seq![row[1]] || o[0] == seq![row[2]] || o[0] == seq![row[3]])
        }),
{
    reveal_strlit("い");
    reveal_strlit("いだ");
    reveal_strlit("いで");
    reveal_strlit("う");
    reveal_strlit("え");
    reveal_strlit("えた");
    reveal_strlit("えて");
    reveal_strlit("える");
    reveal_strlit("えれば");
    reveal_strlit("お");
    reveal_strlit("おう");
    reveal_strlit("かった");
    reveal_strlit("き");
    reveal_strlit("ぎ");
    reveal_strlit("く");
    reveal_strlit("くて");
    reveal_strlit("ぐ");
    reveal_strlit("け");
    reveal_strlit("ければ");
    reveal_strlit("げ");
    reveal_strlit("し");
    reveal_strlit("した");
    reveal_strlit("して");
    reveal_strlit("じ");
    reveal_strlit("じゃう");
    reveal_strlit("じる");
    reveal_strlit("す");
    reveal_strlit("せ");
    reveal_strlit("だ");
    reveal_strlit("ち");
    reveal_strlit("ちまう");
    reveal_strlit("ちゃう");
    reveal_strlit("った");
    reveal_strlit("っちゃう");
    reveal_strlit("って");
    reveal_strlit("っぽい");
    reveal_strlit("つ");
    reveal_strlit("て");
    reveal_strlit("で");
    reveal_strlit("ない");
    reveal_strlit("に");
    reveal_strlit("ぬ");
    reveal_strlit("ね");
    reveal_strlit("び");
    reveal_strlit("ぶ");
    reveal_strlit("べ");
    reveal_strlit("ぽい");
    reveal_strlit("み");
    reveal_strlit("む");
    reveal_strlit("め");
    reveal_strlit("や");
    reveal_strlit("ゆ");
    reveal_strlit("よう");
    reveal_strlit("り");
    reveal_strlit("る");
    reveal_strlit("れ");
    reveal_strlit("わ");
    reveal_strlit("わず");
    reveal_strlit("わせる");
    reveal_strlit("わない");
    reveal_strlit("われる");
    reveal_strlit("んだ");
    reveal_strlit("んで");
    let row = okuri_key_row('r').unwrap();
    let o = ordered_suffixes(stem, 'r');
    assert(o.contains(seq![row[1]]) && o.contains(seq![row[2]]) && o.contains(seq![row[3]])) by {
        assert(exists|j: int| 0 <= j < o.len() && o[j] =~= seq![row[1]]);
        assert(exists|j: int| 0 <= j < o.len() && o[j] =~= seq![row[2]]);
        assert(exists|j: int| 0 <= j < o.len() && o[j] =~= seq![row[3]]);
    }
    if stem.len() >= 3 {
        assert(o[0] =~= seq![row[1]] || o[0] =~= seq![row[2]] || o[0] =~= seq![row[3]]);
    }
}

proof fn lemma_columns_b(stem: Seq<char>)
    requires
        stem.len() >= 2,
    ensures
        ({
            let row = okuri_key_row('b').unwrap();
            let o = ordered_suffixes(stem, 'b');
            &&& o.contains(seq![row[1]]) && o.contains(seq![row[2]]) && o.contains(seq![row[3]])
            &&& stem.len() >= 3 ==> (o[0] == seq![row[1]] || o[0] == seq![row[2]] || o[0] == seq![row[3]])
        }),
{
    reveal_strlit("い");
    reveal_strlit("いだ");
    reveal_strlit("いで");
    reveal_strlit("う");
    reveal_strlit("え");
    reveal_strlit("えた");
    reveal_strlit("えて");
    reveal_strlit("える");
    reveal_strlit("えれば");
    reveal_strlit("お");
    reveal_strlit("おう");
    reveal_strlit("かった");
    reveal_strlit("き");
    reveal_strlit("ぎ");
    reveal_strlit("く");
    reveal_strlit("くて");
    reveal_strlit("ぐ");
    reveal_strlit("け");
    reveal_strlit("ければ");
    reveal_strlit("げ");
    reveal_strlit("し");
    reveal_strlit("した");
    reveal_strlit("して");
    reveal_strlit("じ");
    reveal_strlit("じゃう");
    reveal_strlit("じる");
    reveal_strlit("す");
    reveal_strlit("せ");
    reveal_strlit("だ");
    reveal_strlit("ち");
    reveal_strlit("ちまう");
    reveal_strlit("ちゃう");
    reveal_strlit("った");
    reveal_strlit("っちゃう");
    reveal_strlit("って");
    reveal_strlit("っぽい");
    reveal_strlit("つ");
    reveal_strlit("て");
    reveal_strlit("で");
    reveal_strlit("ない");
    reveal_strlit("に");
    reveal_strlit("ぬ");
    reveal_strlit("ね");
    reveal_strlit("び");
    reveal_strlit("ぶ");
    reveal_strlit("べ");
    reveal_strlit("ぽい");
    reveal_strlit("み");
    reveal_strlit("む");
    reveal_strlit("め");
    reveal_strlit("や");
    reveal_strlit("ゆ");
    reveal_strlit("よう");
    reveal_strlit("り");
    reveal_strlit("る");
    reveal_strlit("れ");
    reveal_strlit("わ");
    reveal_strlit("わず");
    reveal_strlit("わせる");
    reveal_strlit("わない");
    reveal_strlit("われる");
    reveal_strlit("んだ");
    reveal_strlit("んで");
    let row = okuri_key_row('b').unwrap();
    let o = ordered_suffixes(stem, 'b');
    assert(o.contains(seq![row[1]]) && o.contains(seq![row[2]]) && o.contains(seq![row[3]])) by {
        assert(exists|j: int| 0 <= j < o.len() && o[j] =~= seq![row[1]]);
        assert(exists|j: int| 0 <= j < o.len() && o[j] =~= seq![row[2]]);
        assert(exists|j: int| 0 <= j < o.len() && o[j] =~= seq![row[3]]);
    }
    if stem.len() >= 3 {
        assert(o[0] =~= seq![row[1]] || o[0] =~= seq![row[2]] || o[0] =~= seq![row[3]]);
    }
}

proof fn lemma_columns_u(stem: Seq<char>)
    requires
        stem.len() >= 2,
    ensures
        ({
            let row = okuri_key_row('u').unwrap();
            let o = ordered_suffixes(stem, 'u');
            &&& o.contains(seq![row[1]]) && o.contains(seq![row[2]]) && o.contains(seq![row[3]])
            &&& stem.len() >= 3 ==> (o[0] == seq![row[1]] || o[0] == seq![row[2]] || o[0] == seq![row[3]])
        }),
{
    reveal_strlit("い");
    reveal_strlit("いだ");
    reveal_strlit("いで");
    reveal_strlit("う");
    reveal_strlit("え");
    reveal_strlit("えた");
    reveal_strlit("えて");
    reveal_strlit("える");
    reveal_strlit("えれば");
    reveal_strlit("お");
    reveal_strlit("おう");
    reveal_strlit("かった");
    reveal_strlit("き");
    reveal_strlit("ぎ");
    reveal_strlit("く");
    reveal_strlit("くて");
    reveal_strlit("ぐ");
    reveal_strlit("け");
    reveal_strlit("ければ");
    reveal_strlit("げ");
    reveal_strlit("し");
    reveal_strlit("した");
    reveal_strlit("して");
    reveal_strlit("じ");
    reveal_strlit("じゃう");
    reveal_strlit("じる");
    reveal_strlit("す");
    reveal_strlit("せ");
    reveal_strlit("だ");
    reveal_strlit("ち");
    reveal_strlit("ちまう");
    reveal_strlit("ちゃう");
    reveal_strlit("った");
    reveal_strlit("っちゃう");
    reveal_strlit("って");
    reveal_strlit("っぽい");
    reveal_strlit("つ");
    reveal_strlit("て");
    reveal_strlit("で");
    reveal_strlit("ない");
    reveal_strlit("に");
    reveal_strlit("ぬ");
    reveal_strlit("ね");
    reveal_strlit("び");
    reveal_strlit("ぶ");
    reveal_strlit("べ");
    reveal_strlit("ぽい");
    reveal_strlit("み");
    reveal_strlit("む");
    reveal_strlit("め");
    reveal_strlit("や");
    reveal_strlit("ゆ");
    reveal_strlit("よう");
    reveal_strlit("り");
    reveal_strlit("る");
    reveal_strlit("れ");
    reveal_strlit("わ");
    reveal_strlit("わず");
    reveal_strlit("わせる");
    reveal_strlit("わない");
    reveal_strlit("われる");
    reveal_strlit("んだ");
    reveal_strlit("んで");
    let row = okuri_key_row('u').unwrap();
    let o = ordered_suffixes(stem, 'u');
    assert(o.contains(seq![row[1]]) && o.contains(seq![row[2]]) && o.contains(seq![row[3]])) by {
        assert(exists|j: int| 0 <= j < o.len() && o[j] =~= seq![row[1]]);
        assert(exists|j: int| 0 <= j < o.len() && o[j] =~= seq![row[2]]);
        assert(exists|j: int| 0 <= j < o.len() && o[j] =~= seq![row[3]]);
    }
    if stem.len() >= 3 {
        assert(o[0] =~= seq![row[1]] || o[0] =~= seq![row[2]] || o[0] =~= seq![row[3]]);
    }
}

proof fn lemma_columns_w(stem: Seq<char>)
    requires
        stem.len() >= 2,
    ensures
        ({
            let row = okuri_key_row('w').unwrap();
            let o = ordered_suffixes(stem, 'w');
            &&& o.contains(seq![row[1]]) && o.contains(seq![row[2]]) && o.contains(seq![row[3]])
            &&& stem.len() >= 3 ==> (o[0] == seq![row[1]] || o[0] == seq![row[2]] || o[0] == seq![row[3]])
        }),
{
    reveal_strlit("い");
    reveal_strlit("いだ");
    reveal_strlit("いで");
    reveal_strlit("う");
    reveal_strlit("え");
    reveal_strlit("えた");
    reveal_strlit("えて");
    reveal_strlit("える");
    reveal_strlit("えれば");
    reveal_strlit("お");
    reveal_strlit("おう");
    reveal_strlit("かった");
    reveal_strlit("き");
    reveal_strlit("ぎ");
    reveal_strlit("く");
    reveal_strlit("くて");
    reveal_strlit("ぐ");
    reveal_strlit("け");
    reveal_strlit("ければ");
    reveal_strlit("げ");
    reveal_strlit("し");
    reveal_strlit("した");
    reveal_strlit("して");
    reveal_strlit("じ");
    reveal_strlit("じゃう");
    reveal_strlit("じる");
    reveal_strlit("す");
    reveal_strlit("せ");
    reveal_strlit("だ");
    reveal_strlit("ち");
    reveal_strlit("ちまう");
    reveal_strlit("ちゃう");
    reveal_strlit("った");
    reveal_strlit("っちゃう");
    reveal_strlit("って");
    reveal_strlit("っぽい");
    reveal_strlit("つ");
    reveal_strlit("て");
    reveal_strlit("で");
    reveal_strlit("ない");
    reveal_strlit("に");
    reveal_strlit("ぬ");
    reveal_strlit("ね");
    reveal_strlit("び");
    reveal_strlit("ぶ");
    reveal_strlit("べ");
    reveal_strlit("ぽい");
    reveal_strlit("み");
    reveal_strlit("む");
    reveal_strlit("め");
    reveal_strlit("や");
    reveal_strlit("ゆ");
    reveal_strlit("よう");
    reveal_strlit("り");
    reveal_strlit("る");
    reveal_strlit("れ");
    reveal_strlit("わ");
    reveal_strlit("わず");
    reveal_strlit("わせる");
    reveal_strlit("わない");
    reveal_strlit("われる");
    reveal_strlit("んだ");
    reveal_strlit("んで");
    let row = okuri_key_row('w').unwrap();
    let o = ordered_suffixes(stem, 'w');
    assert(o.contains(seq![row[1]]) && o.contains(seq![row[2]]) && o.contains(seq![row[3]])) by {
        assert(exists|j: int| 0 <= j < o.len() && o[j] =~= seq![row[1]]);
        assert(exists|j: int| 0 <= j < o.len() && o[j] =~= seq![row[2]]);
        assert(exists|j: int| 0 <= j < o.len() && o[j] =~= seq![row[3]]);
    }
    if stem.len() >= 3 {
        assert(o[0] =~= seq![row[1]] || o[0] =~= seq![row[2]] || o[0] =~= seq![row[3]]);
    }
}

/// For a stem of two kana or more (a compound or multi-syllable word), the
/// readings tried for a key letter include the i-column (continuative
/// noun), u-column (dictionary form) and e-column (ichidan / noun) kana of
/// the key's row (`たばn` tries たばに, たばぬ and たばね), and for a stem of
/// three kana or more one of those comes first.
pub proof fn law_compound_order_covers_columns(stem: Seq<char>, key: char)
    requires
        stem.len() >= 2,
        okuri_key_row(ascii_lower(key)) is Some,
    ensures
        ({
            let row = okuri_key_row(ascii_lower(key)).unwrap();
            let o = ordered_suffixes(stem, key);
            &&& o.contains(seq![row[1]]) && o.contains(seq![row[2]]) && o.contains(seq![row[3]])
            &&& stem.len() >= 3 ==> (o[0] == seq![row[1]] || o[0] == seq![row[2]] || o[0] == seq![row[3]])
        }),
{
    let k = ascii_lower(key);
    assert(ascii_lower(k) == k);
    assert(ordered_suffixes(stem, key) == ordered_suffixes(stem, k));
    if k == 'k' {
        lemma_columns_k(stem);
    } else if k == 'g' {
        lemma_columns_g(stem);
    } else if k == 's' {
        lemma_columns_s(stem);
    } else if k == 't' {
        lemma_columns_t(stem);
    } else if k == 'n' {
        lemma_columns_n(stem);
    } else if k == 'm' {
        lemma_columns_m(stem);
    } else if k == 'r' {
        lemma_columns_r(stem);
    } else if k == 'b' {
        lemma_columns_b(stem);
    } else if k == 'u' {
        lemma_columns_u(stem);
    } else if k == 'w' {
        lemma_columns_w(stem);
    }
}

/// An okuri-ari midashi with a stem of two kana or more is looked up in its
/// e-column form among others (`たばn` → `たばね`, so 束ね is found).
pub proof fn law_readings_include_e_column(m: Seq<char>, stem: Seq<char>, key: char)
    requires
        parse_okuri_spec(m) == Some(OkuriForm::Simple { stem, key }),
        stem.len() >= 2,
        okuri_key_row(ascii_lower(key)) is Some,
    ensures
        variations_spec(m).contains((stem + seq![okuri_key_row(ascii_lower(key)).unwrap()[3]], seq![okuri_key_row(ascii_lower(key)).unwrap()[3]])),
{
    law_compound_order_covers_columns(stem, key);
    let e = seq![okuri_key_row(ascii_lower(key)).unwrap()[3]];
    let o = ordered_suffixes(stem, key);
    let j = choose|j: int| 0 <= j < o.len() && o[j] == e;
    assert(readings(stem, o)[j] == (stem + e, e));
}

/// The column of a vowel letter (a, i, u, e, o), -1 for any other letter.
pub open spec fn vowel_col(v: char) -> int {
    if v == 'a' {
        0
    } else if v == 'i' {
        1
    } else if v == 'u' {
        2
    } else if v == 'e' {
        3
    } else if v == 'o' {
        4
    } else {
        -1
    }
}

/// The small kana of the y row that follows an i-column kana in a
/// contracted syllable (kya, sho, …).
pub open spec fn small_y(v: char) -> Option<char> {
    if v == 'a' {
        Some('ゃ')
    } else if v == 'u' {
        Some('ゅ')
    } else if v == 'o' {
        Some('ょ')
    } else {
        None
    }
}

/// The kana one romaji syllable spells, by the kana table: a vowel; a
/// consonant letter and a vowel (kunrei spellings such as si, ti, tu, hu,
/// zi, and the Hepburn shi, chi, tsu, fu, ji); ya, yu, yo, wa, wo and nn;
/// an i-column kana with a small ya, yu or yo (kya, sya/sha, tya/cha,
/// zya/ja/jya, …).
pub open spec fn syllable_kana(s: Seq<char>) -> Option<Seq<char>> {
    if s.len() == 1 && vowel_col(s[0]) >= 0 {
        Some(seq![vowel_row()[vowel_col(s[0])]])
    } else if s.len() == 2 && s[0] == 'n' && s[1] == 'n' {
        Some(seq!['ん'])
    } else if s.len() == 2 && s[0] == 'j' && s[1] == 'i' {
        Some(seq!['じ'])
    } else if s.len() == 2 && s[0] == 'j' && small_y(s[1]) is Some {
        Some(seq!['じ', small_y(s[1]).unwrap()])
    } else if s.len() == 2 && s[0] == 'f' && s[1] == 'u' {
        Some(seq!['ふ'])
    } else if s.len() == 2 && s[0] == 'y' && small_y(s[1]) is Some {
        Some(seq![if s[1] == 'a' { 'や' } else if s[1] == 'u' { 'ゆ' } else { 'よ' }])
    } else if s.len() == 2 && s[0] == 'w' && s[1] == 'a' {
        Some(seq!['わ'])
    } else if s.len() == 2 && s[0] == 'w' && s[1] == 'o' {
        Some(seq!['を'])
    } else if s.len() == 2 && gojuon_row(s[0]) is Some && vowel_col(s[1]) >= 0 {
        Some(seq![gojuon_row(s[0]).unwrap()[vowel_col(s[1])]])
    } else if s.len() == 3 && s[0] == 's' && s[1] == 'h' && s[2] == 'i' {
        Some(seq![gojuon_row('s').unwrap()[1]])
    } else if s.len() == 3 && s[0] == 'c' && s[1] == 'h' && s[2] == 'i' {
        Some(seq![gojuon_row('t').unwrap()[1]])
    } else if s.len() == 3 && s[0] == 't' && s[1] == 's' && s[2] == 'u' {
        Some(seq![gojuon_row('t').unwrap()[2]])
    } else if s.len() == 3 && s[1] == 'h' && (s[0] == 's' || s[0] == 'c') && small_y(s[2]) is Some {
        Some(seq![gojuon_row(if s[0] == 's' { 's' } else { 't' }).unwrap()[1], small_y(s[2]).unwrap()])
    } else if s.len() == 3 && s[0] == 'j' && s[1] == 'y' && small_y(s[2]) is Some {
        Some(seq!['じ', small_y(s[2]).unwrap()])
    } else if s.len() == 3 && s[1] == 'y' && gojuon_row(s[0]) is Some && small_y(s[2]) is Some {
        Some(seq![gojuon_row(s[0]).unwrap()[1], small_y(s[2]).unwrap()])
    } else {
        None
    }
}

/// The kana a romaji chunk of a compound midashi spells: one syllable; a
/// lone consonant letter standing for its a-column kana (`j` for jya); or
/// two two-letter syllables.
pub open spec fn chunk_kana(s: Seq<char>) -> Option<Seq<char>> {
    if s.len() == 1 && vowel_col(s[0]) < 0 {
        syllable_kana(if s[0] == 'j' { seq!['j', 'y', 'a'] } else { seq![s[0], 'a'] })
    } else if s.len() == 4 {
        match (syllable_kana(s.subrange(0, 2)), syllable_kana(s.subrange(2, 4))) {
            (Some(a), Some(b)) => Some(a + b),
            _ => None,
        }
    } else {
        syllable_kana(s)
    }
}

proof fn lemma_chunk_0(s: Seq<char>)
    requires
        s == "a"@,
    ensures
        chunk_kana(s) == Some("あ"@),
{
    reveal_strlit("a");
    reveal_strlit("あ");
    assert(s =~= seq!['a']);
    assert("あ"@ =~= seq!['あ']);
}

proof fn lemma_chunk_1(s: Seq<char>)
    requires
        s == "i"@,
    ensures
        chunk_kana(s) == Some("い"@),
{
    reveal_strlit("i");
    reveal_strlit("い");
    assert(s =~= seq!['i']);
    assert("い"@ =~= seq!['い']);
}

proof fn lemma_chunk_2(s: Seq<char>)
    requires
        s == "u"@,
    ensures
        chunk_kana(s) == Some("う"@),
{
    reveal_strlit("u");
    reveal_strlit("う");
    assert(s =~= seq!['u']);
    assert("う"@ =~= seq!['う']);
}

proof fn lemma_chunk_3(s: Seq<char>)
    requires
        s == "e"@,
    ensures
        chunk_kana(s) == Some("え"@),
{
    reveal_strlit("e");
    reveal_strlit("え");
    assert(s =~= seq!['e']);
    assert("え"@ =~= seq!['え']);
}

proof fn lemma_chunk_4(s: Seq<char>)
    requires
        s == "o"@,
    ensures
        chunk_kana(s) == Some("お"@),
{
    reveal_strlit("o");
    reveal_strlit("お");
    assert(s =~= seq!['o']);
    assert("お"@ =~= seq!['お']);
}

proof fn lemma_chunk_5(s: Seq<char>)
    requires
        s == "ka"@,
    ensures
        chunk_kana(s) == Some("か"@),
{
    reveal_strlit("ka");
    reveal_strlit("か");
    assert(s =~= seq!['k', 'a']);
    assert("か"@ =~= seq!['か']);
}

proof fn lemma_chunk_6(s: Seq<char>)
    requires
        s == "ki"@,
    ensures
        chunk_kana(s) == Some("き"@),
{
    reveal_strlit("ki");
    reveal_strlit("き");
    assert(s =~= seq!['k', 'i']);
    assert("き"@ =~= seq!['き']);
}

proof fn lemma_chunk_7(s: Seq<char>)
    requires
        s == "ku"@,
    ensures
        chunk_kana(s) == Some("く"@),
{
    reveal_strlit("ku");
    reveal_strlit("く");
    assert(s =~= seq!['k', 'u']);
    assert("く"@ =~= seq!['く']);
}

proof fn lemma_chunk_8(s: Seq<char>)
    requires
        s == "ke"@,
    ensures
        chunk_kana(s) == Some("け"@),
{
    reveal_strlit("ke");
    reveal_strlit("け");
    assert(s =~= seq!['k', 'e']);
    assert("け"@ =~= seq!['け']);
}

proof fn lemma_chunk_9(s: Seq<char>)
    requires
        s == "ko"@,
    ensures
        chunk_kana(s) == Some("こ"@),
{
    reveal_strlit("ko");
    reveal_strlit("こ");
    assert(s =~= seq!['k', 'o']);
    assert("こ"@ =~= seq!['こ']);
}

proof fn lemma_chunk_10(s: Seq<char>)
    requires
        s == "ga"@,
    ensures
        chunk_kana(s) == Some("が"@),
{
    reveal_strlit("ga");
    reveal_strlit("が");
    assert(s =~= seq!['g', 'a']);
    assert("が"@ =~= seq!['が']);
}

proof fn lemma_chunk_11(s: Seq<char>)
    requires
        s == "gi"@,
    ensures
        chunk_kana(s) == Some("ぎ"@),
{
    reveal_strlit("gi");
    reveal_strlit("ぎ");
    assert(s =~= seq!['g', 'i']);
    assert("ぎ"@ =~= seq!['ぎ']);
}

proof fn lemma_chunk_12(s: Seq<char>)
    requires
        s == "gu"@,
    ensures
        chunk_kana(s) == Some("ぐ"@),
{
    reveal_strlit("gu");
    reveal_strlit("ぐ");
    assert(s =~= seq!['g', 'u']);
    assert("ぐ"@ =~= seq!['ぐ']);
}

proof fn lemma_chunk_13(s: Seq<char>)
    requires
        s == "ge"@,
    ensures
        chunk_kana(s) == Some("げ"@),
{
    reveal_strlit("ge");
    reveal_strlit("げ");
    assert(s =~= seq!['g', 'e']);
    assert("げ"@ =~= seq!['げ']);
}

proof fn lemma_chunk_14(s: Seq<char>)
    requires
        s == "go"@,
    ensures
        chunk_kana(s) == Some("ご"@),
{
    reveal_strlit("go");
    reveal_strlit("ご");
    assert(s =~= seq!['g', 'o']);
    assert("ご"@ =~= seq!['ご']);
}

proof fn lemma_chunk_15(s: Seq<char>)
    requires
        s == "sa"@,
    ensures
        chunk_kana(s) == Some("さ"@),
{
    reveal_strlit("sa");
    reveal_strlit("さ");
    assert(s =~= seq!['s', 'a']);
    assert("さ"@ =~= seq!['さ']);
}

proof fn lemma_chunk_16(s: Seq<char>)
    requires
        s == "si"@,
    ensures
        chunk_kana(s) == Some("し"@),
{
    reveal_strlit("si");
    reveal_strlit("し");
    assert(s =~= seq!['s', 'i']);
    assert("し"@ =~= seq!['し']);
}

proof fn lemma_chunk_17(s: Seq<char>)
    requires
        s == "shi"@,
    ensures
        chunk_kana(s) == Some("し"@),
{
    reveal_strlit("shi");
    reveal_strlit("し");
    assert(s =~= seq!['s', 'h', 'i']);
    assert("し"@ =~= seq!['し']);
}

proof fn lemma_chunk_18(s: Seq<char>)
    requires
        s == "su"@,
    ensures
        chunk_kana(s) == Some("す"@),
{
    reveal_strlit("su");
    reveal_strlit("す");
    assert(s =~= seq!['s', 'u']);
    assert("す"@ =~= seq!['す']);
}

proof fn lemma_chunk_19(s: Seq<char>)
    requires
        s == "se"@,
    ensures
        chunk_kana(s) == Some("せ"@),
{
    reveal_strlit("se");
    reveal_strlit("せ");
    assert(s =~= seq!['s', 'e']);
    assert("せ"@ =~= seq!['せ']);
}

proof fn lemma_chunk_20(s: Seq<char>)
    requires
        s == "so"@,
    ensures
        chunk_kana(s) == Some("そ"@),
{
    reveal_strlit("so");
    reveal_strlit("そ");
    assert(s =~= seq!['s', 'o']);
    assert("そ"@ =~= seq!['そ']);
}

proof fn lemma_chunk_21(s: Seq<char>)
    requires
        s == "za"@,
    ensures
        chunk_kana(s) == Some("ざ"@),
{
    reveal_strlit("za");
    reveal_strlit("ざ");
    assert(s =~= seq!['z', 'a']);
    assert("ざ"@ =~= seq!['ざ']);
}

proof fn lemma_chunk_22(s: Seq<char>)
    requires
        s == "zi"@,
    ensures
        chunk_kana(s) == Some("じ"@),
{
    reveal_strlit("zi");
    reveal_strlit("じ");
    assert(s =~= seq!['z', 'i']);
    assert("じ"@ =~= seq!['じ']);
}

proof fn lemma_chunk_23(s: Seq<char>)
    requires
        s == "ji"@,
    ensures
        chunk_kana(s) == Some("じ"@),
{
    reveal_strlit("ji");
    reveal_strlit("じ");
    assert(s =~= seq!['j', 'i']);
    assert("じ"@ =~= seq!['じ']);
}

proof fn lemma_chunk_24(s: Seq<char>)
    requires
        s == "zu"@,
    ensures
        chunk_kana(s) == Some("ず"@),
{
    reveal_strlit("zu");
    reveal_strlit("ず");
    assert(s =~= seq!['z', 'u']);
    assert("ず"@ =~= seq!['ず']);
}

proof fn lemma_chunk_25(s: Seq<char>)
    requires
        s == "ze"@,
    ensures
        chunk_kana(s) == Some("ぜ"@),
{
    reveal_strlit("ze");
    reveal_strlit("ぜ");
    assert(s =~= seq!['z', 'e']);
    assert("ぜ"@ =~= seq!['ぜ']);
}

proof fn lemma_chunk_26(s: Seq<char>)
    requires
        s == "zo"@,
    ensures
        chunk_kana(s) == Some("ぞ"@),
{
    reveal_strlit("zo");
    reveal_strlit("ぞ");
    assert(s =~= seq!['z', 'o']);
    assert("ぞ"@ =~= seq!['ぞ']);
}

proof fn lemma_chunk_27(s: Seq<char>)
    requires
        s == "ta"@,
    ensures
        chunk_kana(s) == Some("た"@),
{
    reveal_strlit("ta");
    reveal_strlit("た");
    assert(s =~= seq!['t', 'a']);
    assert("た"@ =~= seq!['た']);
}

proof fn lemma_chunk_28(s: Seq<char>)
    requires
        s == "ti"@,
    ensures
        chunk_kana(s) == Some("ち"@),
{
    reveal_strlit("ti");
    reveal_strlit("ち");
    assert(s =~= seq!['t', 'i']);
    assert("ち"@ =~= seq!['ち']);
}

proof fn lemma_chunk_29(s: Seq<char>)
    requires
        s == "chi"@,
    ensures
        chunk_kana(s) == Some("ち"@),
{
    reveal_strlit("chi");
    reveal_strlit("ち");
    assert(s =~= seq!['c', 'h', 'i']);
    assert("ち"@ =~= seq!['ち']);
}

proof fn lemma_chunk_30(s: Seq<char>)
    requires
        s == "tu"@,
    ensures
        chunk_kana(s) == Some("つ"@),
{
    reveal_strlit("tu");
    reveal_strlit("つ");
    assert(s =~= seq!['t', 'u']);
    assert("つ"@ =~= seq!['つ']);
}

proof fn lemma_chunk_31(s: Seq<char>)
    requires
        s == "tsu"@,
    ensures
        chunk_kana(s) == Some("つ"@),
{
    reveal_strlit("tsu");
    reveal_strlit("つ");
    assert(s =~= seq!['t', 's', 'u']);
    assert("つ"@ =~= seq!['つ']);
}

proof fn lemma_chunk_32(s: Seq<char>)
    requires
        s == "te"@,
    ensures
        chunk_kana(s) == Some("て"@),
{
    reveal_strlit("te");
    reveal_strlit("て");
    assert(s =~= seq!['t', 'e']);
    assert("て"@ =~= seq!['て']);
}

proof fn lemma_chunk_33(s: Seq<char>)
    requires
        s == "to"@,
    ensures
        chunk_kana(s) == Some("と"@),
{
    reveal_strlit("to");
    reveal_strlit("と");
    assert(s =~= seq!['t', 'o']);
    assert("と"@ =~= seq!['と']);
}

proof fn lemma_chunk_34(s: Seq<char>)
    requires
        s == "da"@,
    ensures
        chunk_kana(s) == Some("だ"@),
{
    reveal_strlit("da");
    reveal_strlit("だ");
    assert(s =~= seq!['d', 'a']);
    assert("だ"@ =~= seq!['だ']);
}

proof fn lemma_chunk_35(s: Seq<char>)
    requires
        s == "di"@,
    ensures
        chunk_kana(s) == Some("ぢ"@),
{
    reveal_strlit("di");
    reveal_strlit("ぢ");
    assert(s =~= seq!['d', 'i']);
    assert("ぢ"@ =~= seq!['ぢ']);
}

proof fn lemma_chunk_36(s: Seq<char>)
    requires
        s == "du"@,
    ensures
        chunk_kana(s) == Some("づ"@),
{
    reveal_strlit("du");
    reveal_strlit("づ");
    assert(s =~= seq!['d', 'u']);
    assert("づ"@ =~= seq!['づ']);
}

proof fn lemma_chunk_37(s: Seq<char>)
    requires
        s == "de"@,
    ensures
        chunk_kana(s) == Some("で"@),
{
    reveal_strlit("de");
    reveal_strlit("で");
    assert(s =~= seq!['d', 'e']);
    assert("で"@ =~= seq!['で']);
}

proof fn lemma_chunk_38(s: Seq<char>)
    requires
        s == "do"@,
    ensures
        chunk_kana(s) == Some("ど"@),
{
    reveal_strlit("do");
    reveal_strlit("ど");
    assert(s =~= seq!['d', 'o']);
    assert("ど"@ =~= seq!['ど']);
}

proof fn lemma_chunk_39(s: Seq<char>)
    requires
        s == "na"@,
    ensures
        chunk_kana(s) == Some("な"@),
{
    reveal_strlit("na");
    reveal_strlit("な");
    assert(s =~= seq!['n', 'a']);
    assert("な"@ =~= seq!['な']);
}

proof fn lemma_chunk_40(s: Seq<char>)
    requires
        s == "ni"@,
    ensures
        chunk_kana(s) == Some("に"@),
{
    reveal_strlit("ni");
    reveal_strlit("に");
    assert(s =~= seq!['n', 'i']);
    assert("に"@ =~= seq!['に']);
}

proof fn lemma_chunk_41(s: Seq<char>)
    requires
        s == "nu"@,
    ensures
        chunk_kana(s) == Some("ぬ"@),
{
    reveal_strlit("nu");
    reveal_strlit("ぬ");
    assert(s =~= seq!['n', 'u']);
    assert("ぬ"@ =~= seq!['ぬ']);
}

proof fn lemma_chunk_42(s: Seq<char>)
    requires
        s == "ne"@,
    ensures
        chunk_kana(s) == Some("ね"@),
{
    reveal_strlit("ne");
    reveal_strlit("ね");
    assert(s =~= seq!['n', 'e']);
    assert("ね"@ =~= seq!['ね']);
}

proof fn lemma_chunk_43(s: Seq<char>)
    requires
        s == "no"@,
    ensures
        chunk_kana(s) == Some("の"@),
{
    reveal_strlit("no");
    reveal_strlit("の");
    assert(s =~= seq!['n', 'o']);
    assert("の"@ =~= seq!['の']);
}

proof fn lemma_chunk_44(s: Seq<char>)
    requires
        s == "ha"@,
    ensures
        chunk_kana(s) == Some("は"@),
{
    reveal_strlit("ha");
    reveal_strlit("は");
    assert(s =~= seq!['h', 'a']);
    assert("は"@ =~= seq!['は']);
}

proof fn lemma_chunk_45(s: Seq<char>)
    requires
        s == "hi"@,
    ensures
        chunk_kana(s) == Some("ひ"@),
{
    reveal_strlit("hi");
    reveal_strlit("ひ");
    assert(s =~= seq!['h', 'i']);
    assert("ひ"@ =~= seq!['ひ']);
}

proof fn lemma_chunk_46(s: Seq<char>)
    requires
        s == "hu"@,
    ensures
        chunk_kana(s) == Some("ふ"@),
{
    reveal_strlit("hu");
    reveal_strlit("ふ");
    assert(s =~= seq!['h', 'u']);
    assert("ふ"@ =~= seq!['ふ']);
}

proof fn lemma_chunk_47(s: Seq<char>)
    requires
        s == "fu"@,
    ensures
        chunk_kana(s) == Some("ふ"@),
{
    reveal_strlit("fu");
    reveal_strlit("ふ");
    assert(s =~= seq!['f', 'u']);
    assert("ふ"@ =~= seq!['ふ']);
}

proof fn lemma_chunk_48(s: Seq<char>)
    requires
        s == "he"@,
    ensures
        chunk_kana(s) == Some("へ"@),
{
    reveal_strlit("he");
    reveal_strlit("へ");
    assert(s =~= seq!['h', 'e']);
    assert("へ"@ =~= seq!['へ']);
}

proof fn lemma_chunk_49(s: Seq<char>)
    requires
        s == "ho"@,
    ensures
        chunk_kana(s) == Some("ほ"@),
{
    reveal_strlit("ho");
    reveal_strlit("ほ");
    assert(s =~= seq!['h', 'o']);
    assert("ほ"@ =~= seq!['ほ']);
}

proof fn lemma_chunk_50(s: Seq<char>)
    requires
        s == "ba"@,
    ensures
        chunk_kana(s) == Some("ば"@),
{
    reveal_strlit("ba");
    reveal_strlit("ば");
    assert(s =~= seq!['b', 'a']);
    assert("ば"@ =~= seq!['ば']);
}

proof fn lemma_chunk_51(s: Seq<char>)
    requires
        s == "bi"@,
    ensures
        chunk_kana(s) == Some("び"@),
{
    reveal_strlit("bi");
    reveal_strlit("び");
    assert(s =~= seq!['b', 'i']);
    assert("び"@ =~= seq!['び']);
}

proof fn lemma_chunk_52(s: Seq<char>)
    requires
        s == "bu"@,
    ensures
        chunk_kana(s) == Some("ぶ"@),
{
    reveal_strlit("bu");
    reveal_strlit("ぶ");
    assert(s =~= seq!['b', 'u']);
    assert("ぶ"@ =~= seq!['ぶ']);
}

proof fn lemma_chunk_53(s: Seq<char>)
    requires
        s == "be"@,
    ensures
        chunk_kana(s) == Some("べ"@),
{
    reveal_strlit("be");
    reveal_strlit("べ");
    assert(s =~= seq!['b', 'e']);
    assert("べ"@ =~= seq!['べ']);
}

proof fn lemma_chunk_54(s: Seq<char>)
    requires
        s == "bo"@,
    ensures
        chunk_kana(s) == Some("ぼ"@),
{
    reveal_strlit("bo");
    reveal_strlit("ぼ");
    assert(s =~= seq!['b', 'o']);
    assert("ぼ"@ =~= seq!['ぼ']);
}

proof fn lemma_chunk_55(s: Seq<char>)
    requires
        s == "pa"@,
    ensures
        chunk_kana(s) == Some("ぱ"@),
{
    reveal_strlit("pa");
    reveal_strlit("ぱ");
    assert(s =~= seq!['p', 'a']);
    assert("ぱ"@ =~= seq!['ぱ']);
}

proof fn lemma_chunk_56(s: Seq<char>)
    requires
        s == "pi"@,
    ensures
        chunk_kana(s) == Some("ぴ"@),
{
    reveal_strlit("pi");
    reveal_strlit("ぴ");
    assert(s =~= seq!['p', 'i']);
    assert("ぴ"@ =~= seq!['ぴ']);
}

proof fn lemma_chunk_57(s: Seq<char>)
    requires
        s == "pu"@,
    ensures
        chunk_kana(s) == Some("ぷ"@),
{
    reveal_strlit("pu");
    reveal_strlit("ぷ");
    assert(s =~= seq!['p', 'u']);
    assert("ぷ"@ =~= seq!['ぷ']);
}

proof fn lemma_chunk_58(s: Seq<char>)
    requires
        s == "pe"@,
    ensures
        chunk_kana(s) == Some("ぺ"@),
{
    reveal_strlit("pe");
    reveal_strlit("ぺ");
    assert(s =~= seq!['p', 'e']);
    assert("ぺ"@ =~= seq!['ぺ']);
}

proof fn lemma_chunk_59(s: Seq<char>)
    requires
        s == "po"@,
    ensures
        chunk_kana(s) == Some("ぽ"@),
{
    reveal_strlit("po");
    reveal_strlit("ぽ");
    assert(s =~= seq!['p', 'o']);
    assert("ぽ"@ =~= seq!['ぽ']);
}

proof fn lemma_chunk_60(s: Seq<char>)
    requires
        s == "ma"@,
    ensures
        chunk_kana(s) == Some("ま"@),
{
    reveal_strlit("ma");
    reveal_strlit("ま");
    assert(s =~= seq!['m', 'a']);
    assert("ま"@ =~= seq!['ま']);
}

proof fn lemma_chunk_61(s: Seq<char>)
    requires
        s == "mi"@,
    ensures
        chunk_kana(s) == Some("み"@),
{
    reveal_strlit("mi");
    reveal_strlit("み");
    assert(s =~= seq!['m', 'i']);
    assert("み"@ =~= seq!['み']);
}

proof fn lemma_chunk_62(s: Seq<char>)
    requires
        s == "mu"@,
    ensures
        chunk_kana(s) == Some("む"@),
{
    reveal_strlit("mu");
    reveal_strlit("む");
    assert(s =~= seq!['m', 'u']);
    assert("む"@ =~= seq!['む']);
}

proof fn lemma_chunk_63(s: Seq<char>)
    requires
        s == "me"@,
    ensures
        chunk_kana(s) == Some("め"@),
{
    reveal_strlit("me");
    reveal_strlit("め");
    assert(s =~= seq!['m', 'e']);
    assert("め"@ =~= seq!['め']);
}

proof fn lemma_chunk_64(s: Seq<char>)
    requires
        s == "mo"@,
    ensures
        chunk_kana(s) == Some("も"@),
{
    reveal_strlit("mo");
    reveal_strlit("も");
    assert(s =~= seq!['m', 'o']);
    assert("も"@ =~= seq!['も']);
}

proof fn lemma_chunk_65(s: Seq<char>)
    requires
        s == "ya"@,
    ensures
        chunk_kana(s) == Some("や"@),
{
    reveal_strlit("ya");
    reveal_strlit("や");
    assert(s =~= seq!['y', 'a']);
    assert("や"@ =~= seq!['や']);
}

proof fn lemma_chunk_66(s: Seq<char>)
    requires
        s == "yu"@,
    ensures
        chunk_kana(s) == Some("ゆ"@),
{
    reveal_strlit("yu");
    reveal_strlit("ゆ");
    assert(s =~= seq!['y', 'u']);
    assert("ゆ"@ =~= seq!['ゆ']);
}

proof fn lemma_chunk_67(s: Seq<char>)
    requires
        s == "yo"@,
    ensures
        chunk_kana(s) == Some("よ"@),
{
    reveal_strlit("yo");
    reveal_strlit("よ");
    assert(s =~= seq!['y', 'o']);
    assert("よ"@ =~= seq!['よ']);
}

proof fn lemma_chunk_68(s: Seq<char>)
    requires
        s == "ra"@,
    ensures
        chunk_kana(s) == Some("ら"@),
{
    reveal_strlit("ra");
    reveal_strlit("ら");
    assert(s =~= seq!['r', 'a']);
    assert("ら"@ =~= seq!['ら']);
}

proof fn lemma_chunk_69(s: Seq<char>)
    requires
        s == "ri"@,
    ensures
        chunk_kana(s) == Some("り"@),
{
    reveal_strlit("ri");
    reveal_strlit("り");
    assert(s =~= seq!['r', 'i']);
    assert("り"@ =~= seq!['り']);
}

proof fn lemma_chunk_70(s: Seq<char>)
    requires
        s == "ru"@,
    ensures
        chunk_kana(s) == Some("る"@),
{
    reveal_strlit("ru");
    reveal_strlit("る");
    assert(s =~= seq!['r', 'u']);
    assert("る"@ =~= seq!['る']);
}

proof fn lemma_chunk_71(s: Seq<char>)
    requires
        s == "re"@,
    ensures
        chunk_kana(s) == Some("れ"@),
{
    reveal_strlit("re");
    reveal_strlit("れ");
    assert(s =~= seq!['r', 'e']);
    assert("れ"@ =~= seq!['れ']);
}

proof fn lemma_chunk_72(s: Seq<char>)
    requires
        s == "ro"@,
    ensures
        chunk_kana(s) == Some("ろ"@),
{
    reveal_strlit("ro");
    reveal_strlit("ろ");
    assert(s =~= seq!['r', 'o']);
    assert("ろ"@ =~= seq!['ろ']);
}

proof fn lemma_chunk_73(s: Seq<char>)
    requires
        s == "wa"@,
    ensures
        chunk_kana(s) == Some("わ"@),
{
    reveal_strlit("wa");
    reveal_strlit("わ");
    assert(s =~= seq!['w', 'a']);
    assert("わ"@ =~= seq!['わ']);
}

proof fn lemma_chunk_74(s: Seq<char>)
    requires
        s == "wo"@,
    ensures
        chunk_kana(s) == Some("を"@),
{
    reveal_strlit("wo");
    reveal_strlit("を");
    assert(s =~= seq!['w', 'o']);
    assert("を"@ =~= seq!['を']);
}

proof fn lemma_chunk_75(s: Seq<char>)
    requires
        s == "nn"@,
    ensures
        chunk_kana(s) == Some("ん"@),
{
    reveal_strlit("nn");
    reveal_strlit("ん");
    assert(s =~= seq!['n', 'n']);
    assert("ん"@ =~= seq!['ん']);
}

proof fn lemma_chunk_76(s: Seq<char>)
    requires
        s == "kya"@,
    ensures
        chunk_kana(s) == Some("きゃ"@),
{
    reveal_strlit("kya");
    reveal_strlit("きゃ");
    assert(s =~= seq!['k', 'y', 'a']);
    assert("きゃ"@ =~= seq!['き', 'ゃ']);
}

proof fn lemma_chunk_77(s: Seq<char>)
    requires
        s == "kyu"@,
    ensures
        chunk_kana(s) == Some("きゅ"@),
{
    reveal_strlit("kyu");
    reveal_strlit("きゅ");
    assert(s =~= seq!['k', 'y', 'u']);
    assert("きゅ"@ =~= seq!['き', 'ゅ']);
}

proof fn lemma_chunk_78(s: Seq<char>)
    requires
        s == "kyo"@,
    ensures
        chunk_kana(s) == Some("きょ"@),
{
    reveal_strlit("kyo");
    reveal_strlit("きょ");
    assert(s =~= seq!['k', 'y', 'o']);
    assert("きょ"@ =~= seq!['き', 'ょ']);
}

proof fn lemma_chunk_79(s: Seq<char>)
    requires
        s == "gya"@,
    ensures
        chunk_kana(s) == Some("ぎゃ"@),
{
    reveal_strlit("gya");
    reveal_strlit("ぎゃ");
    assert(s =~= seq!['g', 'y', 'a']);
    assert("ぎゃ"@ =~= seq!['ぎ', 'ゃ']);
}

proof fn lemma_chunk_80(s: Seq<char>)
    requires
        s == "gyu"@,
    ensures
        chunk_kana(s) == Some("ぎゅ"@),
{
    reveal_strlit("gyu");
    reveal_strlit("ぎゅ");
    assert(s =~= seq!['g', 'y', 'u']);
    assert("ぎゅ"@ =~= seq!['ぎ', 'ゅ']);
}

proof fn lemma_chunk_81(s: Seq<char>)
    requires
        s == "gyo"@,
    ensures
        chunk_kana(s) == Some("ぎょ"@),
{
    reveal_strlit("gyo");
    reveal_strlit("ぎょ");
    assert(s =~= seq!['g', 'y', 'o']);
    assert("ぎょ"@ =~= seq!['ぎ', 'ょ']);
}

proof fn lemma_chunk_82(s: Seq<char>)
    requires
        s == "sya"@,
    ensures
        chunk_kana(s) == Some("しゃ"@),
{
    reveal_strlit("sya");
    reveal_strlit("しゃ");
    assert(s =~= seq!['s', 'y', 'a']);
    assert("しゃ"@ =~= seq!['し', 'ゃ']);
}

proof fn lemma_chunk_83(s: Seq<char>)
    requires
        s == "sha"@,
    ensures
        chunk_kana(s) == Some("しゃ"@),
{
    reveal_strlit("sha");
    reveal_strlit("しゃ");
    assert(s =~= seq!['s', 'h', 'a']);
    assert("しゃ"@ =~= seq!['し', 'ゃ']);
}

proof fn lemma_chunk_84(s: Seq<char>)
    requires
        s == "syu"@,
    ensures
        chunk_kana(s) == Some("しゅ"@),
{
    reveal_strlit("syu");
    reveal_strlit("しゅ");
    assert(s =~= seq!['s', 'y', 'u']);
    assert("しゅ"@ =~= seq!['し', 'ゅ']);
}

proof fn lemma_chunk_85(s: Seq<char>)
    requires
        s == "shu"@,
    ensures
        chunk_kana(s) == Some("しゅ"@),
{
    reveal_strlit("shu");
    reveal_strlit("しゅ");
    assert(s =~= seq!['s', 'h', 'u']);
    assert("しゅ"@ =~= seq!['し', 'ゅ']);
}

proof fn lemma_chunk_86(s: Seq<char>)
    requires
        s == "syo"@,
    ensures
        chunk_kana(s) == Some("しょ"@),
{
    reveal_strlit("syo");
    reveal_strlit("しょ");
    assert(s =~= seq!['s', 'y', 'o']);
    assert("しょ"@ =~= seq!['し', 'ょ']);
}

proof fn lemma_chunk_87(s: Seq<char>)
    requires
        s == "sho"@,
    ensures
        chunk_kana(s) == Some("しょ"@),
{
    reveal_strlit("sho");
    reveal_strlit("しょ");
    assert(s =~= seq!['s', 'h', 'o']);
    assert("しょ"@ =~= seq!['し', 'ょ']);
}

proof fn lemma_chunk_88(s: Seq<char>)
    requires
        s == "zya"@,
    ensures
        chunk_kana(s) == Some("じゃ"@),
{
    reveal_strlit("zya");
    reveal_strlit("じゃ");
    assert(s =~= seq!['z', 'y', 'a']);
    assert("じゃ"@ =~= seq!['じ', 'ゃ']);
}

proof fn lemma_chunk_89(s: Seq<char>)
    requires
        s == "ja"@,
    ensures
        chunk_kana(s) == Some("じゃ"@),
{
    reveal_strlit("ja");
    reveal_strlit("じゃ");
    assert(s =~= seq!['j', 'a']);
    assert("じゃ"@ =~= seq!['じ', 'ゃ']);
}

proof fn lemma_chunk_90(s: Seq<char>)
    requires
        s == "jya"@,
    ensures
        chunk_kana(s) == Some("じゃ"@),
{
    reveal_strlit("jya");
    reveal_strlit("じゃ");
    assert(s =~= seq!['j', 'y', 'a']);
    assert("じゃ"@ =~= seq!['じ', 'ゃ']);
}

proof fn lemma_chunk_91(s: Seq<char>)
    requires
        s == "zyu"@,
    ensures
        chunk_kana(s) == Some("じゅ"@),
{
    reveal_strlit("zyu");
    reveal_strlit("じゅ");
    assert(s =~= seq!['z', 'y', 'u']);
    assert("じゅ"@ =~= seq!['じ', 'ゅ']);
}

proof fn lemma_chunk_92(s: Seq<char>)
    requires
        s == "ju"@,
    ensures
        chunk_kana(s) == Some("じゅ"@),
{
    reveal_strlit("ju");
    reveal_strlit("じゅ");
    assert(s =~= seq!['j', 'u']);
    assert("じゅ"@ =~= seq!['じ', 'ゅ']);
}

proof fn lemma_chunk_93(s: Seq<char>)
    requires
        s == "jyu"@,
    ensures
        chunk_kana(s) == Some("じゅ"@),
{
    reveal_strlit("jyu");
    reveal_strlit("じゅ");
    assert(s =~= seq!['j', 'y', 'u']);
    assert("じゅ"@ =~= seq!['じ', 'ゅ']);
}

proof fn lemma_chunk_94(s: Seq<char>)
    requires
        s == "zyo"@,
    ensures
        chunk_kana(s) == Some("じょ"@),
{
    reveal_strlit("zyo");
    reveal_strlit("じょ");
    assert(s =~= seq!['z', 'y', 'o']);
    assert("じょ"@ =~= seq!['じ', 'ょ']);
}

proof fn lemma_chunk_95(s: Seq<char>)
    requires
        s == "jo"@,
    ensures
        chunk_kana(s) == Some("じょ"@),
{
    reveal_strlit("jo");
    reveal_strlit("じょ");
    assert(s =~= seq!['j', 'o']);
    assert("じょ"@ =~= seq!['じ', 'ょ']);
}

proof fn lemma_chunk_96(s: Seq<char>)
    requires
        s == "jyo"@,
    ensures
        chunk_kana(s) == Some("じょ"@),
{
    reveal_strlit("jyo");
    reveal_strlit("じょ");
    assert(s =~= seq!['j', 'y', 'o']);
    assert("じょ"@ =~= seq!['じ', 'ょ']);
}

proof fn lemma_chunk_97(s: Seq<char>)
    requires
        s == "tya"@,
    ensures
        chunk_kana(s) == Some("ちゃ"@),
{
    reveal_strlit("tya");
    reveal_strlit("ちゃ");
    assert(s =~= seq!['t', 'y', 'a']);
    assert("ちゃ"@ =~= seq!['ち', 'ゃ']);
}

proof fn lemma_chunk_98(s: Seq<char>)
    requires
        s == "cha"@,
    ensures
        chunk_kana(s) == Some("ちゃ"@),
{
    reveal_strlit("cha");
    reveal_strlit("ちゃ");
    assert(s =~= seq!['c', 'h', 'a']);
    assert("ちゃ"@ =~= seq!['ち', 'ゃ']);
}

proof fn lemma_chunk_99(s: Seq<char>)
    requires
        s == "tyu"@,
    ensures
        chunk_kana(s) == Some("ちゅ"@),
{
    reveal_strlit("tyu");
    reveal_strlit("ちゅ");
    assert(s =~= seq!['t', 'y', 'u']);
    assert("ちゅ"@ =~= seq!['ち', 'ゅ']);
}

proof fn lemma_chunk_100(s: Seq<char>)
    requires
        s == "chu"@,
    ensures
        chunk_kana(s) == Some("ちゅ"@),
{
    reveal_strlit("chu");
    reveal_strlit("ちゅ");
    assert(s =~= seq!['c', 'h', 'u']);
    assert("ちゅ"@ =~= seq!['ち', 'ゅ']);
}

proof fn lemma_chunk_101(s: Seq<char>)
    requires
        s == "tyo"@,
    ensures
        chunk_kana(s) == Some("ちょ"@),
{
    reveal_strlit("tyo");
    reveal_strlit("ちょ");
    assert(s =~= seq!['t', 'y', 'o']);
    assert("ちょ"@ =~= seq!['ち', 'ょ']);
}

proof fn lemma_chunk_102(s: Seq<char>)
    requires
        s == "cho"@,
    ensures
        chunk_kana(s) == Some("ちょ"@),
{
    reveal_strlit("cho");
    reveal_strlit("ちょ");
    assert(s =~= seq!['c', 'h', 'o']);
    assert("ちょ"@ =~= seq!['ち', 'ょ']);
}

proof fn lemma_chunk_103(s: Seq<char>)
    requires
        s == "nya"@,
    ensures
        chunk_kana(s) == Some("にゃ"@),
{
    reveal_strlit("nya");
    reveal_strlit("にゃ");
    assert(s =~= seq!['n', 'y', 'a']);
    assert("にゃ"@ =~= seq!['に', 'ゃ']);
}

proof fn lemma_chunk_104(s: Seq<char>)
    requires
        s == "nyu"@,
    ensures
        chunk_kana(s) == Some("にゅ"@),
{
    reveal_strlit("nyu");
    reveal_strlit("にゅ");
    assert(s =~= seq!['n', 'y', 'u']);
    assert("にゅ"@ =~= seq!['に', 'ゅ']);
}

proof fn lemma_chunk_105(s: Seq<char>)
    requires
        s == "nyo"@,
    ensures
        chunk_kana(s) == Some("にょ"@),
{
    reveal_strlit("nyo");
    reveal_strlit("にょ");
    assert(s =~= seq!['n', 'y', 'o']);
    assert("にょ"@ =~= seq!['に', 'ょ']);
}

proof fn lemma_chunk_106(s: Seq<char>)
    requires
        s == "hya"@,
    ensures
        chunk_kana(s) == Some("ひゃ"@),
{
    reveal_strlit("hya");
    reveal_strlit("ひゃ");
    assert(s =~= seq!['h', 'y', 'a']);
    assert("ひゃ"@ =~= seq!['ひ', 'ゃ']);
}

proof fn lemma_chunk_107(s: Seq<char>)
    requires
        s == "hyu"@,
    ensures
        chunk_kana(s) == Some("ひゅ"@),
{
    reveal_strlit("hyu");
    reveal_strlit("ひゅ");
    assert(s =~= seq!['h', 'y', 'u']);
    assert("ひゅ"@ =~= seq!['ひ', 'ゅ']);
}

proof fn lemma_chunk_108(s: Seq<char>)
    requires
        s == "hyo"@,
    ensures
        chunk_kana(s) == Some("ひょ"@),
{
    reveal_strlit("hyo");
    reveal_strlit("ひょ");
    assert(s =~= seq!['h', 'y', 'o']);
    assert("ひょ"@ =~= seq!['ひ', 'ょ']);
}

proof fn lemma_chunk_109(s: Seq<char>)
    requires
        s == "bya"@,
    ensures
        chunk_kana(s) == Some("びゃ"@),
{
    reveal_strlit("bya");
    reveal_strlit("びゃ");
    assert(s =~= seq!['b', 'y', 'a']);
    assert("びゃ"@ =~= seq!['び', 'ゃ']);
}

proof fn lemma_chunk_110(s: Seq<char>)
    requires
        s == "byu"@,
    ensures
        chunk_kana(s) == Some("びゅ"@),
{
    reveal_strlit("byu");
    reveal_strlit("びゅ");
    assert(s =~= seq!['b', 'y', 'u']);
    assert("びゅ"@ =~= seq!['び', 'ゅ']);
}

proof fn lemma_chunk_111(s: Seq<char>)
    requires
        s == "byo"@,
    ensures
        chunk_kana(s) == Some("びょ"@),
{
    reveal_strlit("byo");
    reveal_strlit("びょ");
    assert(s =~= seq!['b', 'y', 'o']);
    assert("びょ"@ =~= seq!['び', 'ょ']);
}

proof fn lemma_chunk_112(s: Seq<char>)
    requires
        s == "pya"@,
    ensures
        chunk_kana(s) == Some("ぴゃ"@),
{
    reveal_strlit("pya");
    reveal_strlit("ぴゃ");
    assert(s =~= seq!['p', 'y', 'a']);
    assert("ぴゃ"@ =~= seq!['ぴ', 'ゃ']);
}

proof fn lemma_chunk_113(s: Seq<char>)
    requires
        s == "pyu"@,
    ensures
        chunk_kana(s) == Some("ぴゅ"@),
{
    reveal_strlit("pyu");
    reveal_strlit("ぴゅ");
    assert(s =~= seq!['p', 'y', 'u']);
    assert("ぴゅ"@ =~= seq!['ぴ', 'ゅ']);
}

proof fn lemma_chunk_114(s: Seq<char>)
    requires
        s == "pyo"@,
    ensures
        chunk_kana(s) == Some("ぴょ"@),
{
    reveal_strlit("pyo");
    reveal_strlit("ぴょ");
    assert(s =~= seq!['p', 'y', 'o']);
    assert("ぴょ"@ =~= seq!['ぴ', 'ょ']);
}

proof fn lemma_chunk_115(s: Seq<char>)
    requires
        s == "mya"@,
    ensures
        chunk_kana(s) == Some("みゃ"@),
{
    reveal_strlit("mya");
    reveal_strlit("みゃ");
    assert(s =~= seq!['m', 'y', 'a']);
    assert("みゃ"@ =~= seq!['み', 'ゃ']);
}

proof fn lemma_chunk_116(s: Seq<char>)
    requires
        s == "myu"@,
    ensures
        chunk_kana(s) == Some("みゅ"@),
{
    reveal_strlit("myu");
    reveal_strlit("みゅ");
    assert(s =~= seq!['m', 'y', 'u']);
    assert("みゅ"@ =~= seq!['み', 'ゅ']);
}

proof fn lemma_chunk_117(s: Seq<char>)
    requires
        s == "myo"@,
    ensures
        chunk_kana(s) == Some("みょ"@),
{
    reveal_strlit("myo");
    reveal_strlit("みょ");
    assert(s =~= seq!['m', 'y', 'o']);
    assert("みょ"@ =~= seq!['み', 'ょ']);
}

proof fn lemma_chunk_118(s: Seq<char>)
    requires
        s == "rya"@,
    ensures
        chunk_kana(s) == Some("りゃ"@),
{
    reveal_strlit("rya");
    reveal_strlit("りゃ");
    assert(s =~= seq!['r', 'y', 'a']);
    assert("りゃ"@ =~= seq!['り', 'ゃ']);
}

proof fn lemma_chunk_119(s: Seq<char>)
    requires
        s == "ryu"@,
    ensures
        chunk_kana(s) == Some("りゅ"@),
{
    reveal_strlit("ryu");
    reveal_strlit("りゅ");
    assert(s =~= seq!['r', 'y', 'u']);
    assert("りゅ"@ =~= seq!['り', 'ゅ']);
}

proof fn lemma_chunk_120(s: Seq<char>)
    requires
        s == "ryo"@,
    ensures
        chunk_kana(s) == Some("りょ"@),
{
    reveal_strlit("ryo");
    reveal_strlit("りょ");
    assert(s =~= seq!['r', 'y', 'o']);
    assert("りょ"@ =~= seq!['り', 'ょ']);
}

proof fn lemma_chunk_121(s: Seq<char>)
    requires
        s == "gaki"@,
    ensures
        chunk_kana(s) == Some("がき"@),
{
    reveal_strlit("gaki");
    reveal_strlit("がき");
    assert(s =~= seq!['g', 'a', 'k', 'i']);
    assert("がき"@ =~= seq!['が', 'き']);
    assert(s.subrange(0, 2) =~= seq!['g', 'a']);
    assert(s.subrange(2, 4) =~= seq!['k', 'i']);
    assert(seq!['が', 'き'] =~= seq!['が'] + seq!['き']);
}

proof fn lemma_chunk_122(s: Seq<char>)
    requires
        s == "kaki"@,
    ensures
        chunk_kana(s) == Some("かき"@),
{
    reveal_strlit("kaki");
    reveal_strlit("かき");
    assert(s =~= seq!['k', 'a', 'k', 'i']);
    assert("かき"@ =~= seq!['か', 'き']);
    assert(s.subrange(0, 2) =~= seq!['k', 'a']);
    assert(s.subrange(2, 4) =~= seq!['k', 'i']);
    assert(seq!['か', 'き'] =~= seq!['か'] + seq!['き']);
}

proof fn lemma_chunk_123(s: Seq<char>)
    requires
        s == "g"@,
    ensures
        chunk_kana(s) == Some("が"@),
{
    reveal_strlit("g");
    reveal_strlit("が");
    assert(s =~= seq!['g']);
    assert("が"@ =~= seq!['が']);
}

proof fn lemma_chunk_124(s: Seq<char>)
    requires
        s == "k"@,
    ensures
        chunk_kana(s) == Some("か"@),
{
    reveal_strlit("k");
    reveal_strlit("か");
    assert(s =~= seq!['k']);
    assert("か"@ =~= seq!['か']);
}

proof fn lemma_chunk_125(s: Seq<char>)
    requires
        s == "s"@,
    ensures
        chunk_kana(s) == Some("さ"@),
{
    reveal_strlit("s");
    reveal_strlit("さ");
    assert(s =~= seq!['s']);
    assert("さ"@ =~= seq!['さ']);
}

proof fn lemma_chunk_126(s: Seq<char>)
    requires
        s == "t"@,
    ensures
        chunk_kana(s) == Some("た"@),
{
    reveal_strlit("t");
    reveal_strlit("た");
    assert(s =~= seq!['t']);
    assert("た"@ =~= seq!['た']);
}

proof fn lemma_chunk_127(s: Seq<char>)
    requires
        s == "d"@,
    ensures
        chunk_kana(s) == Some("だ"@),
{
    reveal_strlit("d");
    reveal_strlit("だ");
    assert(s =~= seq!['d']);
    assert("だ"@ =~= seq!['だ']);
}

proof fn lemma_chunk_128(s: Seq<char>)
    requires
        s == "n"@,
    ensures
        chunk_kana(s) == Some("な"@),
{
    reveal_strlit("n");
    reveal_strlit("な");
    assert(s =~= seq!['n']);
    assert("な"@ =~= seq!['な']);
}

proof fn lemma_chunk_129(s: Seq<char>)
    requires
        s == "h"@,
    ensures
        chunk_kana(s) == Some("は"@),
{
    reveal_strlit("h");
    reveal_strlit("は");
    assert(s =~= seq!['h']);
    assert("は"@ =~= seq!['は']);
}

proof fn lemma_chunk_130(s: Seq<char>)
    requires
        s == "b"@,
    ensures
        chunk_kana(s) == Some("ば"@),
{
    reveal_strlit("b");
    reveal_strlit("ば");
    assert(s =~= seq!['b']);
    assert("ば"@ =~= seq!['ば']);
}

proof fn lemma_chunk_131(s: Seq<char>)
    requires
        s == "p"@,
    ensures
        chunk_kana(s) == Some("ぱ"@),
{
    reveal_strlit("p");
    reveal_strlit("ぱ");
    assert(s =~= seq!['p']);
    assert("ぱ"@ =~= seq!['ぱ']);
}

proof fn lemma_chunk_132(s: Seq<char>)
    requires
        s == "m"@,
    ensures
        chunk_kana(s) == Some("ま"@),
{
    reveal_strlit("m");
    reveal_strlit("ま");
    assert(s =~= seq!['m']);
    assert("ま"@ =~= seq!['ま']);
}

proof fn lemma_chunk_133(s: Seq<char>)
    requires
        s == "r"@,
    ensures
        chunk_kana(s) == Some("ら"@),
{
    reveal_strlit("r");
    reveal_strlit("ら");
    assert(s =~= seq!['r']);
    assert("ら"@ =~= seq!['ら']);
}

proof fn lemma_chunk_134(s: Seq<char>)
    requires
        s == "w"@,
    ensures
        chunk_kana(s) == Some("わ"@),
{
    reveal_strlit("w");
    reveal_strlit("わ");
    assert(s =~= seq!['w']);
    assert("わ"@ =~= seq!['わ']);
}

proof fn lemma_chunk_135(s: Seq<char>)
    requires
        s == "y"@,
    ensures
        chunk_kana(s) == Some("や"@),
{
    reveal_strlit("y");
    reveal_strlit("や");
    assert(s =~= seq!['y']);
    assert("や"@ =~= seq!['や']);
}

proof fn lemma_chunk_136(s: Seq<char>)
    requires
        s == "z"@,
    ensures
        chunk_kana(s) == Some("ざ"@),
{
    reveal_strlit("z");
    reveal_strlit("ざ");
    assert(s =~= seq!['z']);
    assert("ざ"@ =~= seq!['ざ']);
}

proof fn lemma_chunk_137(s: Seq<char>)
    requires
        s == "j"@,
    ensures
        chunk_kana(s) == Some("じゃ"@),
{
    reveal_strlit("j");
    reveal_strlit("じゃ");
    assert(s =~= seq!['j']);
    assert("じゃ"@ =~= seq!['じ', 'ゃ']);
}

/// Every answer of the romaji table is the kana its chunk spells by the
/// kana table (`ka` → か, `shi` → し, `kya` → きゃ, `gaki` → がき): no chunk
/// is read as another syllable.
#[verifier::rlimit(60)]
pub proof fn law_romaji_table_spells_kana(s: Seq<char>)
    requires
        romaji_table(s) is Some,
    ensures
        romaji_table(s) == chunk_kana(s),
{
    if s == "a"@ {
        lemma_chunk_0(s);
        assert(romaji_table(s) == Some("あ"@));
    } else if s == "i"@ {
        lemma_chunk_1(s);
        assert(romaji_table(s) == Some("い"@));
    } else if s == "u"@ {
        lemma_chunk_2(s);
        assert(romaji_table(s) == Some("う"@));
    } else if s == "e"@ {
        lemma_chunk_3(s);
        assert(romaji_table(s) == Some("え"@));
    } else if s == "o"@ {
        lemma_chunk_4(s);
        assert(romaji_table(s) == Some("お"@));
    } else if s == "ka"@ {
        lemma_chunk_5(s);
        assert(romaji_table(s) == Some("か"@));
    } else if s == "ki"@ {
        lemma_chunk_6(s);
        assert(romaji_table(s) == Some("き"@));
    } else if s == "ku"@ {
        lemma_chunk_7(s);
        assert(romaji_table(s) == Some("く"@));
    } else if s == "ke"@ {
        lemma_chunk_8(s);
        assert(romaji_table(s) == Some("け"@));
    } else if s == "ko"@ {
        lemma_chunk_9(s);
        assert(romaji_table(s) == Some("こ"@));
    } else if s == "ga"@ {
        lemma_chunk_10(s);
        assert(romaji_table(s) == Some("が"@));
    } else if s == "gi"@ {
        lemma_chunk_11(s);
        assert(romaji_table(s) == Some("ぎ"@));
    } else if s == "gu"@ {
        lemma_chunk_12(s);
        assert(romaji_table(s) == Some("ぐ"@));
    } else if s == "ge"@ {
        lemma_chunk_13(s);
        assert(romaji_table(s) == Some("げ"@));
    } else if s == "go"@ {
        lemma_chunk_14(s);
        assert(romaji_table(s) == Some("ご"@));
    } else if s == "sa"@ {
        lemma_chunk_15(s);
        assert(romaji_table(s) == Some("さ"@));
    } else if s == "si"@ || s == "shi"@ {
        if s == "si"@ {
            lemma_chunk_16(s);
        } else {
            lemma_chunk_17(s);
        }
        assert(romaji_table(s) == Some("し"@));
    } else if s == "su"@ {
        lemma_chunk_18(s);
        assert(romaji_table(s) == Some("す"@));
    } else if s == "se"@ {
        lemma_chunk_19(s);
        assert(romaji_table(s) == Some("せ"@));
    } else if s == "so"@ {
        lemma_chunk_20(s);
        assert(romaji_table(s) == Some("そ"@));
    } else if s == "za"@ {
        lemma_chunk_21(s);
        assert(romaji_table(s) == Some("ざ"@));
    } else if s == "zi"@ || s == "ji"@ {
        if s == "zi"@ {
            lemma_chunk_22(s);
        } else {
            lemma_chunk_23(s);
        }
        assert(romaji_table(s) == Some("じ"@));
    } else if s == "zu"@ {
        lemma_chunk_24(s);
        assert(romaji_table(s) == Some("ず"@));
    } else if s == "ze"@ {
        lemma_chunk_25(s);
        assert(romaji_table(s) == Some("ぜ"@));
    } else if s == "zo"@ {
        lemma_chunk_26(s);
        assert(romaji_table(s) == Some("ぞ"@));
    } else if s == "ta"@ {
        lemma_chunk_27(s);
        assert(romaji_table(s) == Some("た"@));
    } else if s == "ti"@ || s == "chi"@ {
        if s == "ti"@ {
            lemma_chunk_28(s);
        } else {
            lemma_chunk_29(s);
        }
        assert(romaji_table(s) == Some("ち"@));
    } else if s == "tu"@ || s == "tsu"@ {
        if s == "tu"@ {
            lemma_chunk_30(s);
        } else {
            lemma_chunk_31(s);
        }
        assert(romaji_table(s) == Some("つ"@));
    } else if s == "te"@ {
        lemma_chunk_32(s);
        assert(romaji_table(s) == Some("て"@));
    } else if s == "to"@ {
        lemma_chunk_33(s);
        assert(romaji_table(s) == Some("と"@));
    } else if s == "da"@ {
        lemma_chunk_34(s);
        assert(romaji_table(s) == Some("だ"@));
    } else if s == "di"@ {
        lemma_chunk_35(s);
        assert(romaji_table(s) == Some("ぢ"@));
    } else if s == "du"@ {
        lemma_chunk_36(s);
        assert(romaji_table(s) == Some("づ"@));
    } else if s == "de"@ {
        lemma_chunk_37(s);
        assert(romaji_table(s) == Some("で"@));
    } else if s == "do"@ {
        lemma_chunk_38(s);
        assert(romaji_table(s) == Some("ど"@));
    } else if s == "na"@ {
        lemma_chunk_39(s);
        assert(romaji_table(s) == Some("な"@));
    } else if s == "ni"@ {
        lemma_chunk_40(s);
        assert(romaji_table(s) == Some("に"@));
    } else if s == "nu"@ {
        lemma_chunk_41(s);
        assert(romaji_table(s) == Some("ぬ"@));
    } else if s == "ne"@ {
        lemma_chunk_42(s);
        assert(romaji_table(s) == Some("ね"@));
    } else if s == "no"@ {
        lemma_chunk_43(s);
        assert(romaji_table(s) == Some("の"@));
    } else if s == "ha"@ {
        lemma_chunk_44(s);
        assert(romaji_table(s) == Some("は"@));
    } else if s == "hi"@ {
        lemma_chunk_45(s);
        assert(romaji_table(s) == Some("ひ"@));
    } else if s == "hu"@ || s == "fu"@ {
        if s == "hu"@ {
            lemma_chunk_46(s);
        } else {
            lemma_chunk_47(s);
        }
        assert(romaji_table(s) == Some("ふ"@));
    } else if s == "he"@ {
        lemma_chunk_48(s);
        assert(romaji_table(s) == Some("へ"@));
    } else if s == "ho"@ {
        lemma_chunk_49(s);
        assert(romaji_table(s) == Some("ほ"@));
    } else if s == "ba"@ {
        lemma_chunk_50(s);
        assert(romaji_table(s) == Some("ば"@));
    } else if s == "bi"@ {
        lemma_chunk_51(s);
        assert(romaji_table(s) == Some("び"@));
    } else if s == "bu"@ {
        lemma_chunk_52(s);
        assert(romaji_table(s) == Some("ぶ"@));
    } else if s == "be"@ {
        lemma_chunk_53(s);
        assert(romaji_table(s) == Some("べ"@));
    } else if s == "bo"@ {
        lemma_chunk_54(s);
        assert(romaji_table(s) == Some("ぼ"@));
    } else if s == "pa"@ {
        lemma_chunk_55(s);
        assert(romaji_table(s) == Some("ぱ"@));
    } else if s == "pi"@ {
        lemma_chunk_56(s);
        assert(romaji_table(s) == Some("ぴ"@));
    } else if s == "pu"@ {
        lemma_chunk_57(s);
        assert(romaji_table(s) == Some("ぷ"@));
    } else if s == "pe"@ {
        lemma_chunk_58(s);
        assert(romaji_table(s) == Some("ぺ"@));
    } else if s == "po"@ {
        lemma_chunk_59(s);
        assert(romaji_table(s) == Some("ぽ"@));
    } else if s == "ma"@ {
        lemma_chunk_60(s);
        assert(romaji_table(s) == Some("ま"@));
    } else if s == "mi"@ {
        lemma_chunk_61(s);
        assert(romaji_table(s) == Some("み"@));
    } else if s == "mu"@ {
        lemma_chunk_62(s);
        assert(romaji_table(s) == Some("む"@));
    } else if s == "me"@ {
        lemma_chunk_63(s);
        assert(romaji_table(s) == Some("め"@));
    } else if s == "mo"@ {
        lemma_chunk_64(s);
        assert(romaji_table(s) == Some("も"@));
    } else if s == "ya"@ {
        lemma_chunk_65(s);
        assert(romaji_table(s) == Some("や"@));
    } else if s == "yu"@ {
        lemma_chunk_66(s);
        assert(romaji_table(s) == Some("ゆ"@));
    } else if s == "yo"@ {
        lemma_chunk_67(s);
        assert(romaji_table(s) == Some("よ"@));
    } else if s == "ra"@ {
        lemma_chunk_68(s);
        assert(romaji_table(s) == Some("ら"@));
    } else if s == "ri"@ {
        lemma_chunk_69(s);
        assert(romaji_table(s) == Some("り"@));
    } else if s == "ru"@ {
        lemma_chunk_70(s);
        assert(romaji_table(s) == Some("る"@));
    } else if s == "re"@ {
        lemma_chunk_71(s);
        assert(romaji_table(s) == Some("れ"@));
    } else if s == "ro"@ {
        lemma_chunk_72(s);
        assert(romaji_table(s) == Some("ろ"@));
    } else if s == "wa"@ {
        lemma_chunk_73(s);
        assert(romaji_table(s) == Some("わ"@));
    } else if s == "wo"@ {
        lemma_chunk_74(s);
        assert(romaji_table(s) == Some("を"@));
    } else if s == "nn"@ {
        lemma_chunk_75(s);
        assert(romaji_table(s) == Some("ん"@));
    } else if s == "kya"@ {
        lemma_chunk_76(s);
        assert(romaji_table(s) == Some("きゃ"@));
    } else if s == "kyu"@ {
        lemma_chunk_77(s);
        assert(romaji_table(s) == Some("きゅ"@));
    } else if s == "kyo"@ {
        lemma_chunk_78(s);
        assert(romaji_table(s) == Some("きょ"@));
    } else if s == "gya"@ {
        lemma_chunk_79(s);
        assert(romaji_table(s) == Some("ぎゃ"@));
    } else if s == "gyu"@ {
        lemma_chunk_80(s);
        assert(romaji_table(s) == Some("ぎゅ"@));
    } else if s == "gyo"@ {
        lemma_chunk_81(s);
        assert(romaji_table(s) == Some("ぎょ"@));
    } else if s == "sya"@ || s == "sha"@ {
        if s == "sya"@ {
            lemma_chunk_82(s);
        } else {
            lemma_chunk_83(s);
        }
        assert(romaji_table(s) == Some("しゃ"@));
    } else if s == "syu"@ || s == "shu"@ {
        if s == "syu"@ {
            lemma_chunk_84(s);
        } else {
            lemma_chunk_85(s);
        }
        assert(romaji_table(s) == Some("しゅ"@));
    } else if s == "syo"@ || s == "sho"@ {
        if s == "syo"@ {
            lemma_chunk_86(s);
        } else {
            lemma_chunk_87(s);
        }
        assert(romaji_table(s) == Some("しょ"@));
    } else if s == "zya"@ || s == "ja"@ || s == "jya"@ {
        if s == "zya"@ {
            lemma_chunk_88(s);
        } else if s == "ja"@ {
            lemma_chunk_89(s);
        } else {
            lemma_chunk_90(s);
        }
        assert(romaji_table(s) == Some("じゃ"@));
    } else if s == "zyu"@ || s == "ju"@ || s == "jyu"@ {
        if s == "zyu"@ {
            lemma_chunk_91(s);
        } else if s == "ju"@ {
            lemma_chunk_92(s);
        } else {
            lemma_chunk_93(s);
        }
        assert(romaji_table(s) == Some("じゅ"@));
    } else if s == "zyo"@ || s == "jo"@ || s == "jyo"@ {
        if s == "zyo"@ {
            lemma_chunk_94(s);
        } else if s == "jo"@ {
            lemma_chunk_95(s);
        } else {
            lemma_chunk_96(s);
        }
        assert(romaji_table(s) == Some("じょ"@));
    } else if s == "tya"@ || s == "cha"@ {
        if s == "tya"@ {
            lemma_chunk_97(s);
        } else {
            lemma_chunk_98(s);
        }
        assert(romaji_table(s) == Some("ちゃ"@));
    } else if s == "tyu"@ || s == "chu"@ {
        if s == "tyu"@ {
            lemma_chunk_99(s);
        } else {
            lemma_chunk_100(s);
        }
        assert(romaji_table(s) == Some("ちゅ"@));
    } else if s == "tyo"@ || s == "cho"@ {
        if s == "tyo"@ {
            lemma_chunk_101(s);
        } else {
            lemma_chunk_102(s);
        }
        assert(romaji_table(s) == Some("ちょ"@));
    } else if s == "nya"@ {
        lemma_chunk_103(s);
        assert(romaji_table(s) == Some("にゃ"@));
    } else if s == "nyu"@ {
        lemma_chunk_104(s);
        assert(romaji_table(s) == Some("にゅ"@));
    } else if s == "nyo"@ {
        lemma_chunk_105(s);
        assert(romaji_table(s) == Some("にょ"@));
    } else if s == "hya"@ {
        lemma_chunk_106(s);
        assert(romaji_table(s) == Some("ひゃ"@));
    } else if s == "hyu"@ {
        lemma_chunk_107(s);
        assert(romaji_table(s) == Some("ひゅ"@));
    } else if s == "hyo"@ {
        lemma_chunk_108(s);
        assert(romaji_table(s) == Some("ひょ"@));
    } else if s == "bya"@ {
        lemma_chunk_109(s);
        assert(romaji_table(s) == Some("びゃ"@));
    } else if s == "byu"@ {
        lemma_chunk_110(s);
        assert(romaji_table(s) == Some("びゅ"@));
    } else if s == "byo"@ {
        lemma_chunk_111(s);
        assert(romaji_table(s) == Some("びょ"@));
    } else if s == "pya"@ {
        lemma_chunk_112(s);
        assert(romaji_table(s) == Some("ぴゃ"@));
    } else if s == "pyu"@ {
        lemma_chunk_113(s);
        assert(romaji_table(s) == Some("ぴゅ"@));
    } else if s == "pyo"@ {
        lemma_chunk_114(s);
        assert(romaji_table(s) == Some("ぴょ"@));
    } else if s == "mya"@ {
        lemma_chunk_115(s);
        assert(romaji_table(s) == Some("みゃ"@));
    } else if s == "myu"@ {
        lemma_chunk_116(s);
        assert(romaji_table(s) == Some("みゅ"@));
    } else if s == "myo"@ {
        lemma_chunk_117(s);
        assert(romaji_table(s) == Some("みょ"@));
    } else if s == "rya"@ {
        lemma_chunk_118(s);
        assert(romaji_table(s) == Some("りゃ"@));
    } else if s == "ryu"@ {
        lemma_chunk_119(s);
        assert(romaji_table(s) == Some("りゅ"@));
    } else if s == "ryo"@ {
        lemma_chunk_120(s);
        assert(romaji_table(s) == Some("りょ"@));
    } else if s == "gaki"@ {
        lemma_chunk_121(s);
        assert(romaji_table(s) == Some("がき"@));
    } else if s == "kaki"@ {
        lemma_chunk_122(s);
        assert(romaji_table(s) == Some("かき"@));
    } else if s == "g"@ {
        lemma_chunk_123(s);
        assert(romaji_table(s) == Some("が"@));
    } else if s == "k"@ {
        lemma_chunk_124(s);
        assert(romaji_table(s) == Some("か"@));
    } else if s == "s"@ {
        lemma_chunk_125(s);
        assert(romaji_table(s) == Some("さ"@));
    } else if s == "t"@ {
        lemma_chunk_126(s);
        assert(romaji_table(s) == Some("た"@));
    } else if s == "d"@ {
        lemma_chunk_127(s);
        assert(romaji_table(s) == Some("だ"@));
    } else if s == "n"@ {
        lemma_chunk_128(s);
        assert(romaji_table(s) == Some("な"@));
    } else if s == "h"@ {
        lemma_chunk_129(s);
        assert(romaji_table(s) == Some("は"@));
    } else if s == "b"@ {
        lemma_chunk_130(s);
        assert(romaji_table(s) == Some("ば"@));
    } else if s == "p"@ {
        lemma_chunk_131(s);
        assert(romaji_table(s) == Some("ぱ"@));
    } else if s == "m"@ {
        lemma_chunk_132(s);
        assert(romaji_table(s) == Some("ま"@));
    } else if s == "r"@ {
        lemma_chunk_133(s);
        assert(romaji_table(s) == Some("ら"@));
    } else if s == "w"@ {
        lemma_chunk_134(s);
        assert(romaji_table(s) == Some("わ"@));
    } else if s == "y"@ {
        lemma_chunk_135(s);
        assert(romaji_table(s) == Some("や"@));
    } else if s == "z"@ {
        lemma_chunk_136(s);
        assert(romaji_table(s) == Some("ざ"@));
    } else if s == "j"@ {
        lemma_chunk_137(s);
        assert(romaji_table(s) == Some("じゃ"@));
    } else {
        assert(romaji_table(s) is None);
    }
}

/// Every consonant-and-vowel chunk of the kana table (ka … ro, with the
/// kunrei spellings si, ti, tu, hu, zi) and every vowel is in the romaji
/// table: no syllable of the table is missing.
pub proof fn law_romaji_table_complete(c: char, v: char)
    requires
        vowel_col(v) >= 0,
    ensures
        gojuon_row(c) is Some ==> romaji_table(seq![c, v]) is Some,
        romaji_table(seq![v]) is Some,
{
    if c == 'k' && v == 'a' {
        reveal_strlit("ka");
        assert(seq![c, v] =~= "ka"@);
    } else if c == 'k' && v == 'i' {
        reveal_strlit("ki");
        assert(seq![c, v] =~= "ki"@);
    } else if c == 'k' && v == 'u' {
        reveal_strlit("ku");
        assert(seq![c, v] =~= "ku"@);
    } else if c == 'k' && v == 'e' {
        reveal_strlit("ke");
        assert(seq![c, v] =~= "ke"@);
    } else if c == 'k' && v == 'o' {
        reveal_strlit("ko");
        assert(seq![c, v] =~= "ko"@);
    } else if c == 'g' && v == 'a' {
        reveal_strlit("ga");
        assert(seq![c, v] =~= "ga"@);
    } else if c == 'g' && v == 'i' {
        reveal_strlit("gi");
        assert(seq![c, v] =~= "gi"@);
    } else if c == 'g' && v == 'u' {
        reveal_strlit("gu");
        assert(seq![c, v] =~= "gu"@);
    } else if c == 'g' && v == 'e' {
        reveal_strlit("ge");
        assert(seq![c, v] =~= "ge"@);
    } else if c == 'g' && v == 'o' {
        reveal_strlit("go");
        assert(seq![c, v] =~= "go"@);
    } else if c == 's' && v == 'a' {
        reveal_strlit("sa");
        assert(seq![c, v] =~= "sa"@);
    } else if c == 's' && v == 'i' {
        reveal_strlit("si");
        assert(seq![c, v] =~= "si"@);
    } else if c == 's' && v == 'u' {
        reveal_strlit("su");
        assert(seq![c, v] =~= "su"@);
    } else if c == 's' && v == 'e' {
        reveal_strlit("se");
        assert(seq![c, v] =~= "se"@);
    } else if c == 's' && v == 'o' {
        reveal_strlit("so");
        assert(seq![c, v] =~= "so"@);
    } else if c == 'z' && v == 'a' {
        reveal_strlit("za");
        assert(seq![c, v] =~= "za"@);
    } else if c == 'z' && v == 'i' {
        reveal_strlit("zi");
        assert(seq![c, v] =~= "zi"@);
    } else if c == 'z' && v == 'u' {
        reveal_strlit("zu");
        assert(seq![c, v] =~= "zu"@);
    } else if c == 'z' && v == 'e' {
        reveal_strlit("ze");
        assert(seq![c, v] =~= "ze"@);
    } else if c == 'z' && v == 'o' {
        reveal_strlit("zo");
        assert(seq![c, v] =~= "zo"@);
    } else if c == 't' && v == 'a' {
        reveal_strlit("ta");
        assert(seq![c, v] =~= "ta"@);
    } else if c == 't' && v == 'i' {
        reveal_strlit("ti");
        assert(seq![c, v] =~= "ti"@);
    } else if c == 't' && v == 'u' {
        reveal_strlit("tu");
        assert(seq![c, v] =~= "tu"@);
    } else if c == 't' && v == 'e' {
        reveal_strlit("te");
        assert(seq![c, v] =~= "te"@);
    } else if c == 't' && v == 'o' {
        reveal_strlit("to");
        assert(seq![c, v] =~= "to"@);
    } else if c == 'd' && v == 'a' {
        reveal_strlit("da");
        assert(seq![c, v] =~= "da"@);
    } else if c == 'd' && v == 'i' {
        reveal_strlit("di");
        assert(seq![c, v] =~= "di"@);
    } else if c == 'd' && v == 'u' {
        reveal_strlit("du");
        assert(seq![c, v] =~= "du"@);
    } else if c == 'd' && v == 'e' {
        reveal_strlit("de");
        assert(seq![c, v] =~= "de"@);
    } else if c == 'd' && v == 'o' {
        reveal_strlit("do");
        assert(seq![c, v] =~= "do"@);
    } else if c == 'n' && v == 'a' {
        reveal_strlit("na");
        assert(seq![c, v] =~= "na"@);
    } else if c == 'n' && v == 'i' {
        reveal_strlit("ni");
        assert(seq![c, v] =~= "ni"@);
    } else if c == 'n' && v == 'u' {
        reveal_strlit("nu");
        assert(seq![c, v] =~= "nu"@);
    } else if c == 'n' && v == 'e' {
        reveal_strlit("ne");
        assert(seq![c, v] =~= "ne"@);
    } else if c == 'n' && v == 'o' {
        reveal_strlit("no");
        assert(seq![c, v] =~= "no"@);
    } else if c == 'h' && v == 'a' {
        reveal_strlit("ha");
        assert(seq![c, v] =~= "ha"@);
    } else if c == 'h' && v == 'i' {
        reveal_strlit("hi");
        assert(seq![c, v] =~= "hi"@);
    } else if c == 'h' && v == 'u' {
        reveal_strlit("hu");
        assert(seq![c, v] =~= "hu"@);
    } else if c == 'h' && v == 'e' {
        reveal_strlit("he");
        assert(seq![c, v] =~= "he"@);
    } else if c == 'h' && v == 'o' {
        reveal_strlit("ho");
        assert(seq![c, v] =~= "ho"@);
    } else if c == 'b' && v == 'a' {
        reveal_strlit("ba");
        assert(seq![c, v] =~= "ba"@);
    } else if c == 'b' && v == 'i' {
        reveal_strlit("bi");
        assert(seq![c, v] =~= "bi"@);
    } else if c == 'b' && v == 'u' {
        reveal_strlit("bu");
        assert(seq![c, v] =~= "bu"@);
    } else if c == 'b' && v == 'e' {
        reveal_strlit("be");
        assert(seq![c, v] =~= "be"@);
    } else if c == 'b' && v == 'o' {
        reveal_strlit("bo");
        assert(seq![c, v] =~= "bo"@);
    } else if c == 'p' && v == 'a' {
        reveal_strlit("pa");
        assert(seq![c, v] =~= "pa"@);
    } else if c == 'p' && v == 'i' {
        reveal_strlit("pi");
        assert(seq![c, v] =~= "pi"@);
    } else if c == 'p' && v == 'u' {
        reveal_strlit("pu");
        assert(seq![c, v] =~= "pu"@);
    } else if c == 'p' && v == 'e' {
        reveal_strlit("pe");
        assert(seq![c, v] =~= "pe"@);
    } else if c == 'p' && v == 'o' {
        reveal_strlit("po");
        assert(seq![c, v] =~= "po"@);
    } else if c == 'm' && v == 'a' {
        reveal_strlit("ma");
        assert(seq![c, v] =~= "ma"@);
    } else if c == 'm' && v == 'i' {
        reveal_strlit("mi");
        assert(seq![c, v] =~= "mi"@);
    } else if c == 'm' && v == 'u' {
        reveal_strlit("mu");
        assert(seq![c, v] =~= "mu"@);
    } else if c == 'm' && v == 'e' {
        reveal_strlit("me");
        assert(seq![c, v] =~= "me"@);
    } else if c == 'm' && v == 'o' {
        reveal_strlit("mo");
        assert(seq![c, v] =~= "mo"@);
    } else if c == 'r' && v == 'a' {
        reveal_strlit("ra");
        assert(seq![c, v] =~= "ra"@);
    } else if c == 'r' && v == 'i' {
        reveal_strlit("ri");
        assert(seq![c, v] =~= "ri"@);
    } else if c == 'r' && v == 'u' {
        reveal_strlit("ru");
        assert(seq![c, v] =~= "ru"@);
    } else if c == 'r' && v == 'e' {
        reveal_strlit("re");
        assert(seq![c, v] =~= "re"@);
    } else if c == 'r' && v == 'o' {
        reveal_strlit("ro");
        assert(seq![c, v] =~= "ro"@);
    }
    if v == 'a' {
        reveal_strlit("a");
        assert(seq![v] =~= "a"@);
    } else if v == 'i' {
        reveal_strlit("i");
        assert(seq![v] =~= "i"@);
    } else if v == 'u' {
        reveal_strlit("u");
        assert(seq![v] =~= "u"@);
    } else if v == 'e' {
        reveal_strlit("e");
        assert(seq![v] =~= "e"@);
    } else {
        reveal_strlit("o");
        assert(seq![v] =~= "o"@);
    }
}

} // verus!
