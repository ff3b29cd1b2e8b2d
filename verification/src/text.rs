//! Character- and byte-sequence helpers shared by the parsers: Unicode
//! whitespace trimming, splitting on a separator, prefix and suffix tests.
//! Strings are modelled by their `Seq<char>` view, byte buffers by `Seq<u8>`.
use vstd::prelude::*;

verus! {

broadcast use vstd::string::group_string_axioms;

// ---------------------------------------------------------------------------
// Specifications
// ---------------------------------------------------------------------------

/// Rust's `char::is_whitespace`: the Unicode `White_Space` property.
pub open spec fn is_white(c: char) -> bool {
    ||| ('\u{9}' <= c && c <= '\u{d}')
    ||| c == ' '
    ||| c == '\u{85}'
    ||| c == '\u{a0}'
    ||| c == '\u{1680}'
    ||| ('\u{2000}' <= c && c <= '\u{200a}')
    ||| c == '\u{2028}'
    ||| c == '\u{2029}'
    ||| c == '\u{202f}'
    ||| c == '\u{205f}'
    ||| c == '\u{3000}'
}

/// `s` without its trailing whitespace.
pub open spec fn trim_end(s: Seq<char>) -> Seq<char>
    decreases s.len(),
{
    if s.len() > 0 && is_white(s.last()) {
        trim_end(s.drop_last())
    } else {
        s
    }
}

/// `s` without its leading whitespace.
pub open spec fn trim_start(s: Seq<char>) -> Seq<char>
    decreases s.len(),
{
    if s.len() > 0 && is_white(s[0]) {
        trim_start(s.drop_first())
    } else {
        s
    }
}

/// `s` without the copies of `c` at its start.
pub open spec fn strip_start_char(s: Seq<char>, c: char) -> Seq<char>
    decreases s.len(),
{
    if s.len() > 0 && s[0] == c {
        strip_start_char(s.drop_first(), c)
    } else {
        s
    }
}

/// `s` without the copies of `c` at its end.
pub open spec fn strip_end_char(s: Seq<char>, c: char) -> Seq<char>
    decreases s.len(),
{
    if s.len() > 0 && s.last() == c {
        strip_end_char(s.drop_last(), c)
    } else {
        s
    }
}

/// `str::trim_matches(c)`.
pub open spec fn trim_char(s: Seq<char>, c: char) -> Seq<char> {
    strip_start_char(strip_end_char(s, c), c)
}

/// `str::trim`: leading and trailing whitespace removed.
pub open spec fn trim(s: Seq<char>) -> Seq<char> {
    trim_start(trim_end(s))
}

/// The part of `s` before the first occurrence of `c` (all of `s` when `c`
/// does not occur).
pub open spec fn take_until<T>(s: Seq<T>, c: T) -> Seq<T>
    decreases s.len(),
{
    if s.len() == 0 {
        s
    } else if s[0] == c {
        Seq::empty()
    } else {
        seq![s[0]] + take_until(s.drop_first(), c)
    }
}

/// The pieces of `s` between occurrences of `sep`, as `split(sep)` yields
/// them: always at least one piece, empty pieces included.
pub open spec fn split_by<T>(s: Seq<T>, sep: T) -> Seq<Seq<T>>
    decreases s.len(),
{
    if s.len() == 0 {
        seq![Seq::empty()]
    } else {
        let r = split_by(s.drop_last(), sep);
        if s.last() == sep {
            r.push(Seq::empty())
        } else {
            r.update(r.len() - 1, r[r.len() - 1].push(s.last()))
        }
    }
}

/// The decimal digit `d` (below ten) as a character.
pub open spec fn digit_char(d: nat) -> char {
    seq!['0', '1', '2', '3', '4', '5', '6', '7', '8', '9'][d as int]
}

/// The decimal notation of `n`, without leading zeros.
pub open spec fn decimal(n: nat) -> Seq<char>
    decreases n,
{
    if n < 10 {
        seq![digit_char(n)]
    } else {
        decimal(n / 10).push(digit_char(n % 10))
    }
}

/// `p` is a prefix of `s`.
pub open spec fn has_prefix<T>(s: Seq<T>, p: Seq<T>) -> bool {
    p.len() <= s.len() && s.subrange(0, p.len() as int) == p
}

/// `p` is a suffix of `s`.
pub open spec fn has_suffix<T>(s: Seq<T>, p: Seq<T>) -> bool {
    p.len() <= s.len() && s.subrange(s.len() - p.len(), s.len() as int) == p
}

/// The views of a sequence of string slices.
pub open spec fn str_views(v: Seq<&str>) -> Seq<Seq<char>> {
    v.map_values(|s: &str| s@)
}

/// The views of a sequence of owned strings.
pub open spec fn string_views(v: Seq<String>) -> Seq<Seq<char>> {
    v.map_values(|s: String| s@)
}

/// The views of a sequence of byte slices.
pub open spec fn byte_views(v: Seq<&[u8]>) -> Seq<Seq<u8>> {
    v.map_values(|s: &[u8]| s@)
}

/// ASCII letter test.
pub open spec fn is_ascii_alpha(c: char) -> bool {
    ('a' <= c && c <= 'z') || ('A' <= c && c <= 'Z')
}

/// ASCII upper-case letter test.
pub open spec fn is_ascii_upper(c: char) -> bool {
    'A' <= c && c <= 'Z'
}

/// `char::to_ascii_lowercase`.
pub open spec fn ascii_lower(c: char) -> char {
    if is_ascii_upper(c) {
        ((c as u32) + 32) as char
    } else {
        c
    }
}

/// `str::to_ascii_lowercase`.
pub open spec fn ascii_lower_seq(s: Seq<char>) -> Seq<char> {
    s.map_values(|c: char| ascii_lower(c))
}

/// Every character is below U+0080.
pub open spec fn all_ascii(s: Seq<char>) -> bool {
    forall|i: int| 0 <= i < s.len() ==> (s[i] as u32) < 128
}

/// `u8::is_ascii_whitespace`.
pub open spec fn is_ascii_white_byte(b: u8) -> bool {
    b == 0x20 || b == 0x09 || b == 0x0a || b == 0x0c || b == 0x0d
}

/// `s` without its trailing ASCII whitespace bytes.
pub open spec fn trim_ascii_end(s: Seq<u8>) -> Seq<u8>
    decreases s.len(),
{
    if s.len() > 0 && is_ascii_white_byte(s.last()) {
        trim_ascii_end(s.drop_last())
    } else {
        s
    }
}

/// `v` with `x` appended unless an equal element is already present.
pub open spec fn push_unique<T>(v: Seq<T>, x: T) -> Seq<T> {
    if v.contains(x) {
        v
    } else {
        v.push(x)
    }
}

// ---------------------------------------------------------------------------
// Lemmas
// ---------------------------------------------------------------------------

pub proof fn lemma_split_by_nonempty<T>(s: Seq<T>, sep: T)
    ensures
        split_by(s, sep).len() >= 1,
    decreases s.len(),
{
    if s.len() > 0 {
        lemma_split_by_nonempty(s.drop_last(), sep);
    }
}

/// Splitting a sequence that does not contain the separator gives the sequence itself.
pub proof fn lemma_split_by_no_sep<T>(s: Seq<T>, sep: T)
    requires
        !s.contains(sep),
    ensures
        split_by(s, sep) == seq![s],
    decreases s.len(),
{
    if s.len() > 0 {
        assert(!s.drop_last().contains(sep)) by {
            if s.drop_last().contains(sep) {
                let i = choose|i: int| 0 <= i < s.drop_last().len() && s.drop_last()[i] == sep;
                assert(s[i] == sep);
            }
        }
        lemma_split_by_no_sep(s.drop_last(), sep);
        assert(s[s.len() - 1] != sep);
        assert(s.drop_last().push(s.last()) =~= s);
        let r = split_by(s.drop_last(), sep);
        assert(r.update(r.len() - 1, r[r.len() - 1].push(s.last())) =~= seq![s]);
    } else {
        assert(s =~= Seq::<T>::empty());
    }
}

/// Splitting `a + [sep] + b` splits `a` and `b` separately.
pub proof fn lemma_split_by_concat<T>(a: Seq<T>, b: Seq<T>, sep: T)
    ensures
        split_by(a + seq![sep] + b, sep) == split_by(a, sep) + split_by(b, sep),
    decreases b.len(),
{
    lemma_split_by_nonempty(a, sep);
    lemma_split_by_nonempty(b, sep);
    if b.len() == 0 {
        assert((a + seq![sep] + b).drop_last() =~= a);
        assert(split_by(b, sep) =~= seq![Seq::<T>::empty()]);
        assert(split_by(a, sep).push(Seq::empty()) =~= split_by(a, sep) + seq![Seq::<T>::empty()]);
    } else {
        let s = a + seq![sep] + b;
        assert(s.drop_last() =~= a + seq![sep] + b.drop_last());
        lemma_split_by_concat(a, b.drop_last(), sep);
        lemma_split_by_nonempty(b.drop_last(), sep);
        let ra = split_by(a, sep);
        let rb = split_by(b.drop_last(), sep);
        assert(s.last() == b.last());
        if b.last() == sep {
            assert((ra + rb).push(Seq::empty()) =~= ra + rb.push(Seq::empty()));
        } else {
            let r = ra + rb;
            assert(r.update(r.len() - 1, r[r.len() - 1].push(b.last())) =~= ra + rb.update(
                rb.len() - 1,
                rb[rb.len() - 1].push(b.last()),
            ));
        }
    }
}

/// What the first `i + 1` elements contain.
pub proof fn lemma_take_contains<T>(s: Seq<T>, i: int)
    requires
        0 <= i < s.len(),
    ensures
        forall|x: T| #[trigger] s.take(i + 1).contains(x) <==> s.take(i).contains(x) || x == s[i],
{
    assert forall|x: T| #[trigger] s.take(i + 1).contains(x) <==> s.take(i).contains(x) || x == s[i] by {
        if s.take(i + 1).contains(x) && x != s[i] {
            let j = choose|j: int| 0 <= j < i + 1 && #[trigger] s.take(i + 1)[j] == x;
            assert(s.take(i)[j] == x);
        }
        if s.take(i).contains(x) {
            let j = choose|j: int| 0 <= j < i && #[trigger] s.take(i)[j] == x;
            assert(s.take(i + 1)[j] == x);
        }
        if x == s[i] {
            assert(s.take(i + 1)[i] == x);
        }
    }
}

pub proof fn lemma_take_until_prefix<T>(s: Seq<T>, c: T, i: int)
    requires
        0 <= i <= s.len(),
        forall|j: int| 0 <= j < i ==> s[j] != c,
        i == s.len() || s[i] == c,
    ensures
        take_until(s, c) == s.subrange(0, i),
    decreases s.len(),
{
    if s.len() > 0 {
        if i > 0 {
            lemma_take_until_prefix(s.drop_first(), c, i - 1);
            assert(seq![s[0]] + s.drop_first().subrange(0, i - 1) =~= s.subrange(0, i));
        } else {
            assert(s.subrange(0, 0) =~= Seq::<T>::empty());
        }
    }
}

pub proof fn lemma_trim_end_at(s: Seq<char>, e: int)
    requires
        0 <= e <= s.len(),
        forall|j: int| e <= j < s.len() ==> is_white(s[j]),
        e == 0 || !is_white(s[e - 1]),
    ensures
        trim_end(s) == s.subrange(0, e),
    decreases s.len(),
{
    if s.len() > e {
        assert(s.drop_last().len() == s.len() - 1);
        assert forall|j: int| e <= j < s.drop_last().len() implies is_white(s.drop_last()[j]) by {
            assert(s.drop_last()[j] == s[j]);
        }
        lemma_trim_end_at(s.drop_last(), e);
        assert(s.drop_last().subrange(0, e) =~= s.subrange(0, e));
    } else {
        assert(s.subrange(0, e) =~= s);
    }
}

pub proof fn lemma_trim_start_at(s: Seq<char>, b: int)
    requires
        0 <= b <= s.len(),
        forall|j: int| 0 <= j < b ==> is_white(s[j]),
        b == s.len() || !is_white(s[b]),
    ensures
        trim_start(s) == s.subrange(b, s.len() as int),
    decreases s.len(),
{
    if b > 0 {
        assert forall|j: int| 0 <= j < b - 1 implies is_white(s.drop_first()[j]) by {
            assert(s.drop_first()[j] == s[j + 1]);
        }
        lemma_trim_start_at(s.drop_first(), b - 1);
        assert(s.drop_first().subrange(b - 1, s.len() - 1) =~= s.subrange(b, s.len() as int));
    } else {
        assert(s.subrange(0, s.len() as int) =~= s);
    }
}

pub proof fn lemma_strip_end_at(s: Seq<char>, c: char, e: int)
    requires
        0 <= e <= s.len(),
        forall|j: int| e <= j < s.len() ==> s[j] == c,
        e == 0 || s[e - 1] != c,
    ensures
        strip_end_char(s, c) == s.subrange(0, e),
    decreases s.len(),
{
    if s.len() > e {
        assert forall|j: int| e <= j < s.drop_last().len() implies s.drop_last()[j] == c by {
            assert(s.drop_last()[j] == s[j]);
        }
        lemma_strip_end_at(s.drop_last(), c, e);
        assert(s.drop_last().subrange(0, e) =~= s.subrange(0, e));
    } else {
        assert(s.subrange(0, e) =~= s);
    }
}

pub proof fn lemma_strip_start_at(s: Seq<char>, c: char, b: int)
    requires
        0 <= b <= s.len(),
        forall|j: int| 0 <= j < b ==> s[j] == c,
        b == s.len() || s[b] != c,
    ensures
        strip_start_char(s, c) == s.subrange(b, s.len() as int),
    decreases s.len(),
{
    if b > 0 {
        assert forall|j: int| 0 <= j < b - 1 implies s.drop_first()[j] == c by {
            assert(s.drop_first()[j] == s[j + 1]);
        }
        lemma_strip_start_at(s.drop_first(), c, b - 1);
        assert(s.drop_first().subrange(b - 1, s.len() - 1) =~= s.subrange(b, s.len() as int));
    } else {
        assert(s.subrange(0, s.len() as int) =~= s);
    }
}

pub proof fn lemma_trim_ascii_end_at(s: Seq<u8>, e: int)
    requires
        0 <= e <= s.len(),
        forall|j: int| e <= j < s.len() ==> is_ascii_white_byte(s[j]),
        e == 0 || !is_ascii_white_byte(s[e - 1]),
    ensures
        trim_ascii_end(s) == s.subrange(0, e),
    decreases s.len(),
{
    if s.len() > e {
        assert forall|j: int| e <= j < s.drop_last().len() implies is_ascii_white_byte(
            s.drop_last()[j],
        ) by {
            assert(s.drop_last()[j] == s[j]);
        }
        lemma_trim_ascii_end_at(s.drop_last(), e);
        assert(s.drop_last().subrange(0, e) =~= s.subrange(0, e));
    } else {
        assert(s.subrange(0, e) =~= s);
    }
}

// ---------------------------------------------------------------------------
// Executable helpers
// ---------------------------------------------------------------------------

/// Appends one character to a `String` (`String::push`).
#[verifier::external_body]
pub(crate) fn push_char(s: &mut String, c: char)
    ensures
        final(s)@ == old(s)@.push(c),
{
    s.push(c);
}

/// The character of the digit `d`.
fn digit_of(d: u8) -> (r: char)
    requires
        d < 10,
    ensures
        r == digit_char(d as nat),
{
    if d == 0 { '0' } else if d == 1 { '1' } else if d == 2 { '2' } else if d == 3 { '3' }
    else if d == 4 { '4' } else if d == 5 { '5' } else if d == 6 { '6' } else if d == 7 { '7' }
    else if d == 8 { '8' } else { '9' }
}

/// `n.to_string()` for a byte.
pub fn u8_decimal(n: u8) -> (r: String)
    ensures
        r@ == decimal(n as nat),
{
    let mut s = String::new();
    if n >= 100 {
        push_char(&mut s, digit_of(n / 100));
        push_char(&mut s, digit_of((n / 10) % 10));
        push_char(&mut s, digit_of(n % 10));
        proof {
            assert(decimal((n / 100) as nat) == seq![digit_char((n / 100) as nat)]);
            assert(decimal((n / 10) as nat) =~= seq![digit_char((n / 100) as nat), digit_char(((n / 10) % 10) as nat)]);
        }
    } else if n >= 10 {
        push_char(&mut s, digit_of(n / 10));
        push_char(&mut s, digit_of(n % 10));
        proof {
            assert(decimal((n / 10) as nat) == seq![digit_char((n / 10) as nat)]);
        }
    } else {
        push_char(&mut s, digit_of(n));
    }
    assert(s@ =~= decimal(n as nat));
    s
}

/// `char::is_whitespace`.
pub fn is_white_char(c: char) -> (r: bool)
    ensures
        r == is_white(c),
{
    ('\u{9}' <= c && c <= '\u{d}') || c == ' ' || c == '\u{85}' || c == '\u{a0}' || c
        == '\u{1680}' || ('\u{2000}' <= c && c <= '\u{200a}') || c == '\u{2028}' || c
        == '\u{2029}' || c == '\u{202f}' || c == '\u{205f}' || c == '\u{3000}'
}

/// `char::to_ascii_lowercase`.
pub fn lower_char(c: char) -> (r: char)
    ensures
        r == ascii_lower(c),
{
    if 'A' <= c && c <= 'Z' {
        let b: u8 = c as u8;
        assert(b as u32 == c as u32);
        ((b + 32) as u8) as char
    } else {
        c
    }
}

/// The characters of `s`.
pub fn chars_of(s: &str) -> (v: Vec<char>)
    ensures
        v@ == s@,
{
    let mut v: Vec<char> = Vec::new();
    for c in it: s.chars()
        invariant
            v@ == it.seq().take(it.index() as int),
    {
        v.push(c);
    }
    v
}

/// A `String` holding the characters of `v`.
pub fn string_from_chars(v: &[char]) -> (s: String)
    ensures
        s@ == v@,
{
    let mut s = String::new();
    let mut i: usize = 0;
    while i < v.len()
        invariant
            0 <= i <= v.len(),
            s@ == v@.subrange(0, i as int),
        decreases v.len() - i,
    {
        push_char(&mut s, v[i]);
        assert(v@.subrange(0, i as int).push(v@[i as int]) =~= v@.subrange(0, i + 1));
        i = i + 1;
    }
    assert(v@.subrange(0, v.len() as int) =~= v@);
    s
}

/// An owned copy of `s`.
pub fn to_owned_string(s: &str) -> (r: String)
    ensures
        r@ == s@,
{
    s.to_string()
}

/// Character-wise equality of two slices.
pub fn chars_eq(a: &[char], b: &[char]) -> (r: bool)
    ensures
        r == (a@ == b@),
{
    if a.len() != b.len() {
        return false;
    }
    let mut i: usize = 0;
    while i < a.len()
        invariant
            a.len() == b.len(),
            0 <= i <= a.len(),
            forall|j: int| 0 <= j < i ==> a@[j] == b@[j],
        decreases a.len() - i,
    {
        if a[i] != b[i] {
            return false;
        }
        i = i + 1;
    }
    assert(a@ =~= b@);
    true
}

/// `a == b` on string slices.
pub fn str_eq(a: &str, b: &str) -> (r: bool)
    ensures
        r == (a@ == b@),
{
    let ca = chars_of(a);
    let cb = chars_of(b);
    chars_eq(ca.as_slice(), cb.as_slice())
}

/// Whether `v` holds a string equal to `s`.
pub fn contains_str(v: &[&str], s: &str) -> (r: bool)
    ensures
        r == str_views(v@).contains(s@),
{
    let mut i: usize = 0;
    while i < v.len()
        invariant
            0 <= i <= v.len(),
            forall|j: int| 0 <= j < i ==> v@[j]@ != s@,
        decreases v.len() - i,
    {
        if str_eq(v[i], s) {
            assert(str_views(v@)[i as int] == s@);
            return true;
        }
        i = i + 1;
    }
    assert(!str_views(v@).contains(s@)) by {
        if str_views(v@).contains(s@) {
            let k = choose|k: int| 0 <= k < str_views(v@).len() && str_views(v@)[k] == s@;
            assert(v@[k]@ == s@);
        }
    }
    false
}

/// Whether `v` holds a string equal to `s`.
pub fn contains_string(v: &[String], s: &str) -> (r: bool)
    ensures
        r == string_views(v@).contains(s@),
{
    let mut i: usize = 0;
    while i < v.len()
        invariant
            0 <= i <= v.len(),
            forall|j: int| 0 <= j < i ==> v@[j]@ != s@,
        decreases v.len() - i,
    {
        if str_eq(v[i].as_str(), s) {
            assert(string_views(v@)[i as int] == s@);
            return true;
        }
        i = i + 1;
    }
    assert(!string_views(v@).contains(s@)) by {
        if string_views(v@).contains(s@) {
            let k = choose|k: int| 0 <= k < string_views(v@).len() && string_views(v@)[k] == s@;
            assert(v@[k]@ == s@);
        }
    }
    false
}

/// `str::trim`.
pub fn trim_str<'a>(s: &'a str) -> (r: &'a str)
    ensures
        r@ == trim(s@),
{
    let cs = chars_of(s);
    let mut e: usize = cs.len();
    while e > 0 && is_white_char(cs[e - 1])
        invariant
            0 <= e <= cs.len(),
            cs@ == s@,
            forall|j: int| e <= j < cs.len() ==> is_white(cs@[j]),
        decreases e,
    {
        e = e - 1;
    }
    proof {
        lemma_trim_end_at(s@, e as int);
    }
    let mut b: usize = 0;
    while b < e && is_white_char(cs[b])
        invariant
            0 <= b <= e <= cs.len(),
            cs@ == s@,
            forall|j: int| 0 <= j < b ==> is_white(cs@[j]),
        decreases e - b,
    {
        b = b + 1;
    }
    proof {
        let t = s@.subrange(0, e as int);
        assert forall|j: int| 0 <= j < b implies is_white(t[j]) by {}
        lemma_trim_start_at(t, b as int);
        assert(t.subrange(b as int, t.len() as int) =~= s@.subrange(b as int, e as int));
    }
    s.substring_char(b, e)
}

/// `s.trim_matches(c)`.
pub fn trim_matches_char<'a>(s: &'a str, c: char) -> (r: &'a str)
    ensures
        r@ == trim_char(s@, c),
{
    let cs = chars_of(s);
    let mut e: usize = cs.len();
    while e > 0 && cs[e - 1] == c
        invariant
            0 <= e <= cs.len(),
            cs@ == s@,
            forall|j: int| e <= j < cs.len() ==> cs@[j] == c,
        decreases e,
    {
        e = e - 1;
    }
    proof {
        lemma_strip_end_at(s@, c, e as int);
    }
    let mut b: usize = 0;
    while b < e && cs[b] == c
        invariant
            0 <= b <= e <= cs.len(),
            cs@ == s@,
            forall|j: int| 0 <= j < b ==> cs@[j] == c,
        decreases e - b,
    {
        b = b + 1;
    }
    proof {
        let t = s@.subrange(0, e as int);
        lemma_strip_start_at(t, c, b as int);
        assert(t.subrange(b as int, t.len() as int) =~= s@.subrange(b as int, e as int));
    }
    s.substring_char(b, e)
}

/// The part of `s` before the first `c`.
pub fn before_char<'a>(s: &'a str, c: char) -> (r: &'a str)
    ensures
        r@ == take_until(s@, c),
{
    let cs = chars_of(s);
    let mut i: usize = 0;
    while i < cs.len() && cs[i] != c
        invariant
            0 <= i <= cs.len(),
            cs@ == s@,
            forall|j: int| 0 <= j < i ==> cs@[j] != c,
        decreases cs.len() - i,
    {
        i = i + 1;
    }
    proof {
        lemma_take_until_prefix(s@, c, i as int);
    }
    s.substring_char(0, i)
}

/// `s.split_once(c)`: the parts before and after the first `c`.
pub fn split_once_char<'a>(s: &'a str, c: char) -> (r: Option<(&'a str, &'a str)>)
    ensures
        r is None <==> !s@.contains(c),
        r matches Some((a, b)) ==> {
            &&& a@ == take_until(s@, c)
            &&& a@.len() < s@.len()
            &&& s@[a@.len() as int] == c
            &&& b@ == s@.subrange(a@.len() + 1int, s@.len() as int)
        },
{
    let cs = chars_of(s);
    let mut i: usize = 0;
    while i < cs.len() && cs[i] != c
        invariant
            0 <= i <= cs.len(),
            cs@ == s@,
            forall|j: int| 0 <= j < i ==> cs@[j] != c,
        decreases cs.len() - i,
    {
        i = i + 1;
    }
    proof {
        lemma_take_until_prefix(s@, c, i as int);
    }
    if i == cs.len() {
        assert(!s@.contains(c)) by {
            if s@.contains(c) {
                let j = choose|j: int| 0 <= j < s@.len() && s@[j] == c;
                assert(cs@[j] != c);
            }
        }
        None
    } else {
        assert(s@[i as int] == c);
        Some((s.substring_char(0, i), s.substring_char(i + 1, cs.len())))
    }
}

/// `s.split(sep)`.
pub fn split_str<'a>(s: &'a str, sep: char) -> (r: Vec<&'a str>)
    ensures
        str_views(r@) == split_by(s@, sep),
{
    let cs = chars_of(s);
    let mut pieces: Vec<&'a str> = Vec::new();
    let mut start: usize = 0;
    let mut i: usize = 0;
    proof {
        assert(s@.take(0) =~= Seq::<char>::empty());
        assert(s@.subrange(0, 0) =~= Seq::<char>::empty());
        assert(str_views(pieces@).push(s@.subrange(0, 0)) =~= seq![Seq::<char>::empty()]);
    }
    while i < cs.len()
        invariant
            0 <= start <= i <= cs.len(),
            cs@ == s@,
            str_views(pieces@).push(s@.subrange(start as int, i as int)) == split_by(
                s@.take(i as int),
                sep,
            ),
        decreases cs.len() - i,
    {
        let ghost old_pieces = pieces@;
        proof {
            lemma_split_by_nonempty(s@.take(i as int), sep);
            assert(s@.take(i + 1).drop_last() =~= s@.take(i as int));
            assert(s@.take(i + 1).last() == cs@[i as int]);
        }
        if cs[i] == sep {
            pieces.push(s.substring_char(start, i));
            proof {
                assert(str_views(pieces@) =~= str_views(old_pieces).push(
                    s@.subrange(start as int, i as int),
                ));
                assert(s@.subrange(i + 1, i + 1) =~= Seq::<char>::empty());
            }
            start = i + 1;
        } else {
            proof {
                assert(s@.subrange(start as int, i as int).push(cs@[i as int]) =~= s@.subrange(
                    start as int,
                    i + 1,
                ));
                let r = str_views(pieces@).push(s@.subrange(start as int, i as int));
                assert(r.update(r.len() - 1, r[r.len() - 1].push(cs@[i as int])) =~= str_views(
                    pieces@,
                ).push(s@.subrange(start as int, i + 1)));
            }
        }
        i = i + 1;
    }
    let ghost before = pieces@;
    pieces.push(s.substring_char(start, cs.len()));
    proof {
        assert(s@.take(cs.len() as int) =~= s@);
        assert(str_views(pieces@) =~= str_views(before).push(
            s@.subrange(start as int, cs.len() as int),
        ));
    }
    pieces
}

/// `s.split(|b| b == sep)` on bytes.
pub fn split_bytes<'a>(s: &'a [u8], sep: u8) -> (r: Vec<&'a [u8]>)
    ensures
        byte_views(r@) == split_by(s@, sep),
{
    let mut pieces: Vec<&'a [u8]> = Vec::new();
    let mut start: usize = 0;
    let mut i: usize = 0;
    proof {
        assert(s@.take(0) =~= Seq::<u8>::empty());
        assert(s@.subrange(0, 0) =~= Seq::<u8>::empty());
        assert(byte_views(pieces@).push(s@.subrange(0, 0)) =~= seq![Seq::<u8>::empty()]);
    }
    while i < s.len()
        invariant
            0 <= start <= i <= s.len(),
            byte_views(pieces@).push(s@.subrange(start as int, i as int)) == split_by(
                s@.take(i as int),
                sep,
            ),
        decreases s.len() - i,
    {
        let ghost old_pieces = pieces@;
        proof {
            lemma_split_by_nonempty(s@.take(i as int), sep);
            assert(s@.take(i + 1).drop_last() =~= s@.take(i as int));
            assert(s@.take(i + 1).last() == s@[i as int]);
        }
        if s[i] == sep {
            let piece = &s[start..i];
            pieces.push(piece);
            proof {
                assert(byte_views(pieces@) =~= byte_views(old_pieces).push(
                    s@.subrange(start as int, i as int),
                ));
                assert(s@.subrange(i + 1, i + 1) =~= Seq::<u8>::empty());
            }
            start = i + 1;
        } else {
            proof {
                assert(s@.subrange(start as int, i as int).push(s@[i as int]) =~= s@.subrange(
                    start as int,
                    i + 1,
                ));
                let r = byte_views(pieces@).push(s@.subrange(start as int, i as int));
                assert(r.update(r.len() - 1, r[r.len() - 1].push(s@[i as int])) =~= byte_views(
                    pieces@,
                ).push(s@.subrange(start as int, i + 1)));
            }
        }
        i = i + 1;
    }
    let ghost before = pieces@;
    let last = &s[start..s.len()];
    pieces.push(last);
    proof {
        assert(s@.take(s.len() as int) =~= s@);
        assert(byte_views(pieces@) =~= byte_views(before).push(
            s@.subrange(start as int, s.len() as int),
        ));
    }
    pieces
}

/// Whether `s` begins with `p`.
pub fn starts_with_chars(s: &[char], p: &[char]) -> (r: bool)
    ensures
        r == has_prefix(s@, p@),
{
    if p.len() > s.len() {
        return false;
    }
    let mut i: usize = 0;
    while i < p.len()
        invariant
            p.len() <= s.len(),
            0 <= i <= p.len(),
            forall|j: int| 0 <= j < i ==> s@[j] == p@[j],
        decreases p.len() - i,
    {
        if s[i] != p[i] {
            assert(s@.subrange(0, p.len() as int)[i as int] != p@[i as int]);
            return false;
        }
        i = i + 1;
    }
    assert(s@.subrange(0, p.len() as int) =~= p@);
    true
}

/// Whether `s` ends with `p`.
pub fn ends_with_chars(s: &[char], p: &[char]) -> (r: bool)
    ensures
        r == has_suffix(s@, p@),
{
    if p.len() > s.len() {
        return false;
    }
    let off = s.len() - p.len();
    let mut i: usize = 0;
    while i < p.len()
        invariant
            p.len() <= s.len(),
            off == s.len() - p.len(),
            0 <= i <= p.len(),
            forall|j: int| 0 <= j < i ==> s@[off + j] == p@[j],
        decreases p.len() - i,
    {
        if s[off + i] != p[i] {
            assert(s@.subrange(off as int, s.len() as int)[i as int] != p@[i as int]);
            return false;
        }
        i = i + 1;
    }
    assert(s@.subrange(off as int, s.len() as int) =~= p@);
    true
}

/// `s.strip_suffix(suffix)`.
pub fn strip_suffix_str<'a>(s: &'a str, suffix: &str) -> (r: Option<&'a str>)
    ensures
        r is Some <==> has_suffix(s@, suffix@),
        r matches Some(t) ==> t@ == s@.subrange(0, s@.len() - suffix@.len()),
{
    let cs = chars_of(s);
    let ps = chars_of(suffix);
    if ends_with_chars(cs.as_slice(), ps.as_slice()) {
        Some(s.substring_char(0, cs.len() - ps.len()))
    } else {
        None
    }
}

/// A `String` holding `a` followed by `b`.
pub fn concat_str(a: &str, b: &str) -> (r: String)
    ensures
        r@ == a@ + b@,
{
    let mut v = chars_of(a);
    let cb = chars_of(b);
    let mut i: usize = 0;
    while i < cb.len()
        invariant
            0 <= i <= cb.len(),
            cb@ == b@,
            v@ == a@ + b@.take(i as int),
        decreases cb.len() - i,
    {
        v.push(cb[i]);
        assert(a@ + b@.take(i + 1) =~= (a@ + b@.take(i as int)).push(b@[i as int]));
        i = i + 1;
    }
    assert(b@.take(cb.len() as int) =~= b@);
    string_from_chars(v.as_slice())
}

/// The number of characters of `s`.
pub fn char_count(s: &str) -> (n: usize)
    ensures
        n == s@.len(),
{
    s.unicode_len()
}

} // verus!
