//! Text encodings and the candidate lists of skkserv responses
//! (`1/候補1/候補2/\n`, `4\n` when nothing is found).
use vstd::prelude::*;
use vstd::utf8::{decode_utf8, encode_scalar, encode_utf8, valid_utf8};
use std::borrow::Cow;
use crate::text::{
    byte_views, contains_string, has_prefix, lemma_split_by_concat, lemma_split_by_no_sep,
    split_by, split_bytes, split_str, str_views, string_views, to_owned_string, trim, trim_str,
};

verus! {

broadcast use vstd::utf8::group_utf8_lib;

/// `1`: the response reports a hit.
pub const FOUND: u8 = 0x31;
/// `4`: the response reports no hit.
pub const NOT_FOUND: u8 = 0x34;
/// `/`: separates candidates.
pub const SLASH: u8 = 0x2f;
/// `\n`: ends a response.
pub const NEWLINE: u8 = 0x0a;

// ---------------------------------------------------------------------------
// Trusted items
// ---------------------------------------------------------------------------

/// What `encoding_rs::EUC_JP.decode` makes of a byte string: BOM sniffing,
/// malformed sequences replaced by U+FFFD.
pub uninterp spec fn euc_jp_decoded(bytes: Seq<u8>) -> Seq<char>;

/// What `encoding_rs::EUC_JP.encode` makes of a string: EUC-JP bytes,
/// unmappable characters written as numeric character references.
pub uninterp spec fn euc_jp_encoded(text: Seq<char>) -> Seq<u8>;

/// The largest input handed to the codec: its buffer size computations
/// overflow (and panic) only far above this.
pub open spec fn codec_limit() -> int {
    (usize::MAX / 8) as int
}

/// `encoding_rs::Encoding::decode` on `EUC_JP`. The result is named by
/// `euc_jp_decoded`; nothing more is claimed of it.
#[verifier::external_body]
fn euc_jp_decode(bytes: &[u8]) -> (r: String)
    requires
        bytes@.len() <= codec_limit(),
    ensures
        r@ == euc_jp_decoded(bytes@),
{
    let (cow, _, _) = encoding_rs::EUC_JP.decode(bytes);
    cow.into_owned()
}

/// `encoding_rs::Encoding::encode` on `EUC_JP`. The result is named by
/// `euc_jp_encoded`; the one further claim is what the source shows at its
/// start: ASCII-only input is returned byte for byte.
#[verifier::external_body]
fn euc_jp_encode(text: &str) -> (r: Vec<u8>)
    requires
        encode_utf8(text@).len() <= codec_limit(),
    ensures
        r@ == euc_jp_encoded(text@),
        vstd::utf8::is_ascii_chars(text@) ==> r@ == encode_utf8(text@),
{
    let (cow, _, _) = encoding_rs::EUC_JP.encode(text);
    cow.into_owned()
}

/// `std::str::from_utf8`: the string the bytes encode, when they are valid
/// UTF-8.
#[verifier::external_body]
pub(crate) fn utf8_str<'a>(v: &'a [u8]) -> (r: Option<&'a str>)
    ensures
        r is Some <==> valid_utf8(v@),
        r matches Some(s) ==> s@ == decode_utf8(v@),
{
    std::str::from_utf8(v).ok()
}

// ---------------------------------------------------------------------------
// Specifications
// ---------------------------------------------------------------------------

/// Bytes read as UTF-8 when they are valid UTF-8, as EUC-JP otherwise.
pub open spec fn decode_spec(bytes: Seq<u8>) -> Seq<char> {
    if valid_utf8(bytes) {
        decode_utf8(bytes)
    } else {
        euc_jp_decoded(bytes)
    }
}

/// A response converted from EUC-JP to UTF-8 (kept when already UTF-8).
pub open spec fn response_to_utf8_spec(r: Seq<u8>) -> Seq<u8> {
    if r.len() == 0 {
        Seq::empty()
    } else if valid_utf8(r) {
        r
    } else {
        encode_utf8(euc_jp_decoded(r))
    }
}

/// The body of a hit: the bytes after the leading `1`, without one
/// trailing newline.
pub open spec fn response_body(r: Seq<u8>) -> Seq<u8> {
    let b = r.subrange(1, r.len() as int);
    if b.len() > 0 && b.last() == NEWLINE {
        b.drop_last()
    } else {
        b
    }
}

/// The pieces between slashes that decode as UTF-8, skipping empty ones.
pub open spec fn decode_pieces(ps: Seq<Seq<u8>>) -> Seq<Seq<char>>
    decreases ps.len(),
{
    if ps.len() == 0 {
        Seq::empty()
    } else {
        let r = decode_pieces(ps.drop_last());
        let p = ps.last();
        if p.len() > 0 && valid_utf8(p) {
            r.push(decode_utf8(p))
        } else {
            r
        }
    }
}

/// The candidates of a response: for a hit, the non-empty UTF-8 pieces of
/// the body after its first slash; nothing otherwise.
pub open spec fn candidates_spec(r: Seq<u8>) -> Seq<Seq<char>> {
    if r.len() > 0 && r[0] == FOUND {
        decode_pieces(split_by(response_body(r), SLASH).drop_first())
    } else {
        Seq::empty()
    }
}

/// `s` up to its first slash or newline.
pub open spec fn take_field(s: Seq<u8>) -> Seq<u8>
    decreases s.len(),
{
    if s.len() == 0 || s[0] == SLASH || s[0] == NEWLINE {
        Seq::empty()
    } else {
        seq![s[0]] + take_field(s.drop_first())
    }
}

/// `s` holds a slash or a newline.
pub open spec fn has_field_end(s: Seq<u8>) -> bool {
    exists|i: int| 0 <= i < s.len() && (s[i] == SLASH || s[i] == NEWLINE)
}

/// The first candidate of a `1/…` response: the text up to the next slash
/// or newline, when it is non-empty, terminated and valid UTF-8.
pub open spec fn first_candidate_spec(r: Seq<u8>) -> Option<Seq<char>> {
    if r.len() >= 2 && r[0] == FOUND && r[1] == SLASH {
        let rest = r.subrange(2, r.len() as int);
        let f = take_field(rest);
        if has_field_end(rest) && f.len() > 0 && valid_utf8(f) {
            Some(decode_utf8(f))
        } else {
            None
        }
    } else {
        None
    }
}

/// The slash-joined part of a response: `/c1/c2/…/cn`.
pub open spec fn joined(cands: Seq<Seq<char>>) -> Seq<u8>
    decreases cands.len(),
{
    if cands.len() == 0 {
        Seq::empty()
    } else {
        joined(cands.drop_last()) + seq![SLASH] + encode_utf8(cands.last())
    }
}

/// The response listing `cands`: `1/c1/…/cn/\n`, or `4\n` when empty.
pub open spec fn format_spec(cands: Seq<Seq<char>>) -> Seq<u8> {
    if cands.len() == 0 {
        seq![NOT_FOUND, NEWLINE]
    } else {
        seq![FOUND] + joined(cands) + seq![SLASH, NEWLINE]
    }
}

/// State of the bracket-aware candidate scan: inside an okuri block, and
/// the candidates so far.
pub open spec fn unpack_step(st: (bool, Seq<Seq<char>>), raw: Seq<char>) -> (bool, Seq<Seq<char>>) {
    let part = trim(raw);
    let in_block = st.0;
    let cands = st.1;
    if part.len() == 0 {
        st
    } else if part[0] == '[' {
        (true, cands)
    } else if in_block {
        if part.last() == ']' {
            let c = trim(part.drop_last());
            if c.len() > 0 && !cands.contains(c) {
                (false, cands.push(c))
            } else {
                (false, cands)
            }
        } else if !cands.contains(part) {
            (true, cands.push(part))
        } else {
            (true, cands)
        }
    } else if !cands.contains(part) {
        (false, cands.push(part))
    } else {
        (false, cands)
    }
}

/// The scan over the slash-separated parts.
pub open spec fn unpack_fold(parts: Seq<Seq<char>>) -> (bool, Seq<Seq<char>>)
    decreases parts.len(),
{
    if parts.len() == 0 {
        (false, Seq::empty())
    } else {
        unpack_step(unpack_fold(parts.drop_last()), parts.last())
    }
}

/// The candidates of a response body with okuri blocks (`[っ/思/]`) opened
/// up: block headers dropped, `]` removed, repeats dropped.
pub open spec fn unpacked_from_str_spec(body: Seq<char>) -> Seq<Seq<char>> {
    unpack_fold(split_by(body, '/')).1
}

/// The candidates of a response, bracket blocks opened up.
pub open spec fn unpacked_spec(r: Seq<u8>) -> Seq<Seq<char>> {
    if r.len() > 0 && r[0] == FOUND {
        unpacked_from_str_spec(decode_spec(response_body(r)))
    } else {
        Seq::empty()
    }
}

// ---------------------------------------------------------------------------
// Lemmas
// ---------------------------------------------------------------------------

pub proof fn lemma_take_field_at(s: Seq<u8>, i: int)
    requires
        0 <= i <= s.len(),
        forall|j: int| 0 <= j < i ==> s[j] != SLASH && s[j] != NEWLINE,
        i == s.len() || s[i] == SLASH || s[i] == NEWLINE,
    ensures
        take_field(s) == s.subrange(0, i),
    decreases s.len(),
{
    if s.len() > 0 && i > 0 {
        lemma_take_field_at(s.drop_first(), i - 1);
        assert(seq![s[0]] + s.drop_first().subrange(0, i - 1) =~= s.subrange(0, i));
    } else {
        assert(s.subrange(0, 0) =~= Seq::<u8>::empty());
    }
}

/// The UTF-8 encoding of a character other than the ASCII byte `b` does
/// not contain `b`.
pub proof fn lemma_encode_scalar_avoids(c: char, b: u8)
    requires
        b < 0x80,
        (c as u32) != (b as u32),
    ensures
        !encode_scalar(c as u32).contains(b),
{
    let s = c as u32;
    vstd::utf8::char_is_scalar(c);
    let e = encode_scalar(s);
    assert forall|i: int| 0 <= i < e.len() implies e[i] != b by {
        if vstd::utf8::has_width_1_encoding(s) {
            assert(((s & 0x7F) as u8) != b) by (bit_vector)
                requires
                    s <= 0x7f,
                    s != b as u32,
            ;
        } else {
            assert((0xC0 | ((s >> 6) & 0x1F) as u8) >= 0x80) by (bit_vector);
            assert((0xE0 | ((s >> 12) & 0x0F) as u8) >= 0x80) by (bit_vector);
            assert((0xF0 | ((s >> 18) & 0x7) as u8) >= 0x80) by (bit_vector);
            assert((0x80 | (s & 0x3F) as u8) >= 0x80) by (bit_vector);
            assert((0x80 | ((s >> 6) & 0x3F) as u8) >= 0x80) by (bit_vector);
            assert((0x80 | ((s >> 12) & 0x3F) as u8) >= 0x80) by (bit_vector);
        }
    }
}

/// The UTF-8 encoding of a string without the ASCII character `b` does not
/// contain the byte `b`; a non-empty string encodes to non-empty bytes.
pub proof fn lemma_encode_avoids(s: Seq<char>, b: u8)
    requires
        b < 0x80,
        forall|i: int| 0 <= i < s.len() ==> (s[i] as u32) != (b as u32),
    ensures
        !encode_utf8(s).contains(b),
        s.len() > 0 ==> encode_utf8(s).len() > 0,
    decreases s.len(),
{
    if s.len() > 0 {
        lemma_encode_scalar_avoids(s[0], b);
        assert forall|i: int| 0 <= i < s.drop_first().len() implies (s.drop_first()[i] as u32) != (b as u32) by {
            assert(s.drop_first()[i] == s[i + 1]);
        }
        lemma_encode_avoids(s.drop_first(), b);
        let e1 = encode_scalar(s[0] as u32);
        let e2 = encode_utf8(s.drop_first());
        assert(encode_utf8(s) == e1 + e2);
        assert(!(e1 + e2).contains(b)) by {
            if (e1 + e2).contains(b) {
                let i = choose|i: int| 0 <= i < (e1 + e2).len() && (e1 + e2)[i] == b;
                if i < e1.len() {
                    assert(e1[i] == b);
                } else {
                    assert(e2[i - e1.len()] == b);
                }
            }
        }
        vstd::utf8::char_is_scalar(s[0]);
    }
}

// ---------------------------------------------------------------------------
// Executable code
// ---------------------------------------------------------------------------

/// A copy of `s`.
pub fn bytes_to_vec(s: &[u8]) -> (v: Vec<u8>)
    ensures
        v@ == s@,
{
    let mut v: Vec<u8> = Vec::new();
    let mut i: usize = 0;
    while i < s.len()
        invariant
            0 <= i <= s.len(),
            v@ == s@.take(i as int),
        decreases s.len() - i,
    {
        v.push(s[i]);
        assert(s@.take(i + 1) =~= s@.take(i as int).push(s@[i as int]));
        i = i + 1;
    }
    assert(s@.take(s.len() as int) =~= s@);
    v
}

/// Appends `s` to `v`.
pub fn append_bytes(v: &mut Vec<u8>, s: &[u8])
    ensures
        final(v)@ == old(v)@ + s@,
{
    let mut i: usize = 0;
    while i < s.len()
        invariant
            0 <= i <= s.len(),
            v@ == old(v)@ + s@.take(i as int),
        decreases s.len() - i,
    {
        v.push(s[i]);
        assert(old(v)@ + s@.take(i + 1) =~= (old(v)@ + s@.take(i as int)).push(s@[i as int]));
        i = i + 1;
    }
    assert(s@.take(s.len() as int) =~= s@);
}

/// Decodes bytes that are UTF-8 (borrowed as they are) or else EUC-JP.
pub fn decode_euc_or_utf8(bytes: &[u8]) -> (r: Cow<'_, str>)
    requires
        bytes@.len() <= codec_limit(),
    ensures
        r@ == decode_spec(bytes@),
{
    if let Some(s) = utf8_str(bytes) {
        return Cow::Borrowed(s);
    }
    Cow::Owned(euc_jp_decode(bytes))
}

/// Encodes a string to EUC-JP; unmappable characters are replaced.
pub fn encode_euc_jp(text: &str) -> (r: Vec<u8>)
    requires
        encode_utf8(text@).len() <= codec_limit(),
    ensures
        r@ == euc_jp_encoded(text@),
        vstd::utf8::is_ascii_chars(text@) ==> r@ == encode_utf8(text@),
{
    euc_jp_encode(text)
}

/// Converts an skkserv response from EUC-JP to UTF-8; a response that is
/// already UTF-8 is copied as it is. The ASCII framing (`1`, `4`, `/`,
/// newline) cannot collide with EUC-JP's multi-byte codes.
pub fn response_euc_to_utf8(response: &[u8]) -> (r: Vec<u8>)
    requires
        response@.len() <= codec_limit(),
    ensures
        r@ == response_to_utf8_spec(response@),
{
    if response.len() == 0 {
        return Vec::new();
    }
    if utf8_str(response).is_some() {
        return bytes_to_vec(response);
    }
    let s = euc_jp_decode(response);
    bytes_to_vec(s.as_str().as_bytes())
}

/// The first candidate of a `1/…` response, borrowed from it.
pub fn extract_first_candidate(response: &[u8]) -> (r: Option<&str>)
    ensures
        r is None <==> first_candidate_spec(response@) is None,
        r matches Some(s) ==> first_candidate_spec(response@) == Some(s@),
{
    if !(response.len() >= 2 && response[0] == FOUND && response[1] == SLASH) {
        return None;
    }
    let rest = &response[2..response.len()];
    let mut end: usize = 0;
    while end < rest.len() && rest[end] != SLASH && rest[end] != NEWLINE
        invariant
            0 <= end <= rest.len(),
            forall|j: int| 0 <= j < end ==> rest@[j] != SLASH && rest@[j] != NEWLINE,
        decreases rest.len() - end,
    {
        end = end + 1;
    }
    proof {
        lemma_take_field_at(rest@, end as int);
    }
    if end == rest.len() {
        assert(!has_field_end(rest@));
        return None;
    }
    assert(has_field_end(rest@));
    let first = &rest[0..end];
    if first.len() == 0 {
        return None;
    }
    utf8_str(first)
}

/// The candidates of a hit response, borrowed from it; empty pieces and
/// pieces that are not UTF-8 are skipped.
pub fn parse_candidates_borrowed(response: &[u8]) -> (r: Vec<&str>)
    ensures
        str_views(r@) == candidates_spec(response@),
{
    if !(response.len() > 0 && response[0] == FOUND) {
        return Vec::new();
    }
    let after = &response[1..response.len()];
    let body = if after.len() > 0 && after[after.len() - 1] == NEWLINE {
        &after[0..after.len() - 1]
    } else {
        after
    };
    assert(body@ == response_body(response@)) by {
        if after@.len() > 0 && after@.last() == NEWLINE {
            assert(body@ =~= after@.drop_last());
        }
    }
    let pieces = split_bytes(body, SLASH);
    let ghost ps = byte_views(pieces@).drop_first();
    let mut out: Vec<&str> = Vec::new();
    let mut i: usize = 1;
    proof {
        crate::text::lemma_split_by_nonempty(body@, SLASH);
        assert(ps.take(0) =~= Seq::<Seq<u8>>::empty());
        assert(str_views(out@) =~= Seq::<Seq<char>>::empty());
    }
    while i < pieces.len()
        invariant
            1 <= i <= pieces.len(),
            ps == byte_views(pieces@).drop_first(),
            str_views(out@) == decode_pieces(ps.take(i - 1)),
        decreases pieces.len() - i,
    {
        let p = pieces[i];
        proof {
            assert(ps.take(i as int).drop_last() =~= ps.take(i - 1));
            assert(ps.take(i as int).last() == p@);
        }
        if p.len() > 0 {
            if let Some(s) = utf8_str(p) {
                let ghost before = out@;
                out.push(s);
                assert(str_views(out@) =~= str_views(before).push(s@));
            }
        }
        i = i + 1;
    }
    assert(ps.take(pieces.len() - 1) =~= ps);
    out
}

/// The candidates of a response body, okuri blocks opened up
/// (`[っ/思/]/重/` gives `思`, `重`).
pub fn parse_candidates_from_str(body_str: &str) -> (r: Vec<String>)
    ensures
        string_views(r@) == unpacked_from_str_spec(body_str@),
{
    let parts = split_str(body_str, '/');
    let ghost pv = str_views(parts@);
    let mut cands: Vec<String> = Vec::new();
    let mut in_block = false;
    let mut i: usize = 0;
    while i < parts.len()
        invariant
            0 <= i <= parts.len(),
            pv == str_views(parts@),
            (in_block, string_views(cands@)) == unpack_fold(pv.take(i as int)),
        decreases parts.len() - i,
    {
        let raw = parts[i];
        proof {
            assert(pv.take(i + 1).drop_last() =~= pv.take(i as int));
            assert(pv.take(i + 1).last() == raw@);
        }
        let part = trim_str(raw);
        let pc = crate::text::chars_of(part);
        if pc.len() == 0 {
        } else if pc[0] == '[' {
            in_block = true;
        } else if in_block {
            if pc[pc.len() - 1] == ']' {
                let inner = part.substring_char(0, pc.len() - 1);
                assert(inner@ == part@.drop_last());
                let c = trim_str(inner);
                if crate::text::char_count(c) > 0 && !contains_string(cands.as_slice(), c) {
                    let ghost before = cands@;
                    cands.push(to_owned_string(c));
                    assert(string_views(cands@) =~= string_views(before).push(c@));
                }
                in_block = false;
            } else if !contains_string(cands.as_slice(), part) {
                let ghost before = cands@;
                cands.push(to_owned_string(part));
                assert(string_views(cands@) =~= string_views(before).push(part@));
            }
        } else if !contains_string(cands.as_slice(), part) {
            let ghost before = cands@;
            cands.push(to_owned_string(part));
            assert(string_views(cands@) =~= string_views(before).push(part@));
        }
        i = i + 1;
    }
    assert(pv.take(parts.len() as int) =~= pv);
    cands
}

/// The candidates of a hit response with okuri blocks opened up; the body
/// is read as UTF-8, or as EUC-JP when it is not UTF-8.
pub fn parse_candidates_unpacked(response: &[u8]) -> (r: Vec<String>)
    requires
        response@.len() <= codec_limit(),
    ensures
        string_views(r@) == unpacked_spec(response@),
{
    if !(response.len() > 0 && response[0] == FOUND) {
        return Vec::new();
    }
    let after = &response[1..response.len()];
    let body = if after.len() > 0 && after[after.len() - 1] == NEWLINE {
        &after[0..after.len() - 1]
    } else {
        after
    };
    assert(body@ == response_body(response@)) by {
        if after@.len() > 0 && after@.last() == NEWLINE {
            assert(body@ =~= after@.drop_last());
        }
    }
    let decoded = decode_euc_or_utf8(body);
    match decoded {
        Cow::Borrowed(s) => parse_candidates_from_str(s),
        Cow::Owned(s) => parse_candidates_from_str(s.as_str()),
    }
}

/// The response listing `candidates`: `1/c1/…/cn/\n`, or `4\n` when there
/// are none.
pub fn format_candidates_response_str(candidates: &[&str]) -> (r: Vec<u8>)
    ensures
        r@ == format_spec(str_views(candidates@)),
{
    let mut out: Vec<u8> = Vec::new();
    if candidates.len() == 0 {
        out.push(NOT_FOUND);
        out.push(NEWLINE);
        assert(out@ =~= seq![NOT_FOUND, NEWLINE]);
        return out;
    }
    let ghost views = str_views(candidates@);
    out.push(FOUND);
    let mut i: usize = 0;
    while i < candidates.len()
        invariant
            0 <= i <= candidates.len(),
            views == str_views(candidates@),
            out@ == seq![FOUND] + joined(views.take(i as int)),
        decreases candidates.len() - i,
    {
        let c = candidates[i];
        out.push(SLASH);
        append_bytes(&mut out, c.as_bytes());
        proof {
            assert(views.take(i + 1).drop_last() =~= views.take(i as int));
            assert(views.take(i + 1).last() == c@);
            assert(out@ =~= seq![FOUND] + joined(views.take(i + 1)));
        }
        i = i + 1;
    }
    out.push(SLASH);
    out.push(NEWLINE);
    assert(views.take(candidates.len() as int) =~= views);
    assert(out@ =~= format_spec(views));
    out
}


// ---------------------------------------------------------------------------
// Laws
// ---------------------------------------------------------------------------

/// Candidates that can be listed in a response: non-empty, without `/`.
pub open spec fn listable(cands: Seq<Seq<char>>) -> bool {
    forall|i: int| 0 <= i < cands.len() ==> (#[trigger] cands[i]).len() > 0 && !cands[i].contains('/')
}

/// The UTF-8 encodings of `cands`.
pub open spec fn encodings(cands: Seq<Seq<char>>) -> Seq<Seq<u8>> {
    cands.map_values(|c: Seq<char>| encode_utf8(c))
}

proof fn lemma_no_slash_bytes(c: Seq<char>)
    requires
        c.len() > 0,
        !c.contains('/'),
    ensures
        !encode_utf8(c).contains(SLASH),
        encode_utf8(c).len() > 0,
{
    assert forall|i: int| 0 <= i < c.len() implies (c[i] as u32) != (SLASH as u32) by {
        assert(c[i] != '/');
        if (c[i] as u32) == 47u32 {
            vstd::utf8::char_u32_cast(c[i], 47u32);
            vstd::utf8::char_u32_cast('/', 47u32);
        }
    }
    lemma_encode_avoids(c, SLASH);
}

proof fn lemma_split_joined(cands: Seq<Seq<char>>)
    requires
        listable(cands),
    ensures
        split_by(joined(cands), SLASH) == seq![Seq::<u8>::empty()] + encodings(cands),
    decreases cands.len(),
{
    if cands.len() == 0 {
        assert(joined(cands) =~= Seq::<u8>::empty());
        assert(encodings(cands) =~= Seq::<Seq<u8>>::empty());
        assert(seq![Seq::<u8>::empty()] + encodings(cands) =~= seq![Seq::<u8>::empty()]);
    } else {
        let d = cands.drop_last();
        assert(listable(d)) by {
            assert forall|i: int| 0 <= i < d.len() implies (#[trigger] d[i]).len() > 0 && !d[i].contains('/') by {
                assert(d[i] == cands[i]);
            }
        }
        lemma_split_joined(d);
        let l = cands.last();
        assert(cands[cands.len() - 1] == l);
        lemma_no_slash_bytes(l);
        lemma_split_by_concat(joined(d), encode_utf8(l), SLASH);
        lemma_split_by_no_sep(encode_utf8(l), SLASH);
        assert(encodings(cands) =~= encodings(d).push(encode_utf8(l)));
        assert(seq![Seq::<u8>::empty()] + encodings(d) + seq![encode_utf8(l)] =~= seq![Seq::<u8>::empty()] + encodings(cands));
    }
}

proof fn lemma_decode_encodings(cands: Seq<Seq<char>>)
    requires
        listable(cands),
    ensures
        decode_pieces(encodings(cands)) == cands,
    decreases cands.len(),
{
    if cands.len() > 0 {
        let d = cands.drop_last();
        assert(listable(d)) by {
            assert forall|i: int| 0 <= i < d.len() implies (#[trigger] d[i]).len() > 0 && !d[i].contains('/') by {
                assert(d[i] == cands[i]);
            }
        }
        lemma_decode_encodings(d);
        assert(encodings(cands).drop_last() =~= encodings(d));
        let l = cands.last();
        assert(cands[cands.len() - 1] == l);
        lemma_no_slash_bytes(l);
        assert(d.push(l) =~= cands);
    }
}

/// Parsing a formatted response gives back the candidates that were
/// formatted, for candidates that are non-empty and hold no slash.
pub proof fn law_format_then_parse(cands: Seq<Seq<char>>)
    requires
        listable(cands),
    ensures
        candidates_spec(format_spec(cands)) == cands,
{
    if cands.len() == 0 {
        assert(format_spec(cands)[0] == NOT_FOUND);
        assert(cands =~= Seq::<Seq<char>>::empty());
    } else {
        let r = format_spec(cands);
        let j = joined(cands);
        assert(r[0] == FOUND);
        assert(r.subrange(1, r.len() as int) =~= j + seq![SLASH, NEWLINE]);
        assert(response_body(r) =~= j + seq![SLASH] + Seq::<u8>::empty());
        lemma_split_by_concat(j, Seq::<u8>::empty(), SLASH);
        lemma_split_joined(cands);
        assert(split_by(Seq::<u8>::empty(), SLASH) =~= seq![Seq::<u8>::empty()]);
        let pieces = seq![Seq::<u8>::empty()] + encodings(cands) + seq![Seq::<u8>::empty()];
        assert(split_by(response_body(r), SLASH) =~= pieces);
        assert(pieces.drop_first() =~= encodings(cands).push(Seq::<u8>::empty()));
        assert(encodings(cands).push(Seq::<u8>::empty()).drop_last() =~= encodings(cands));
        lemma_decode_encodings(cands);
    }
}

/// EUC-JP leaves ASCII text as it is, so decoding what `encode_euc_jp`
/// returns for ASCII text gives the text back.
pub proof fn law_ascii_roundtrip(s: Seq<char>)
    requires
        vstd::utf8::is_ascii_chars(s),
    ensures
        decode_spec(encode_utf8(s)) == s,
{
    vstd::utf8::encode_utf8_valid_utf8(s);
    vstd::utf8::encode_utf8_decode_utf8(s);
}

} // verus!
