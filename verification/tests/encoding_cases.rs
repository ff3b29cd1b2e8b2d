use ruskkserv::encoding::{
    decode_euc_or_utf8, encode_euc_jp, extract_first_candidate, format_candidates_response_str,
    parse_candidates_borrowed, parse_candidates_unpacked, response_euc_to_utf8,
};

#[test]
fn euc_roundtrip_ascii() {
    let s = "hello";
    assert_eq!(decode_euc_or_utf8(&encode_euc_jp(s)), s);
}

#[test]
fn response_candidates_euc_to_utf8() {
    // "あ" in EUC-JP is A4 A2
    let mut resp = vec![b'1', b'/'];
    resp.extend_from_slice(&[0xA4, 0xA2]);
    resp.extend_from_slice(b"/\n");
    let utf8 = response_euc_to_utf8(&resp);
    assert_eq!(utf8, b"1/\xe3\x81\x82/\n");
}

#[test]
fn response_not_found_plain() {
    assert_eq!(response_euc_to_utf8(b"4\n"), b"4\n");
}

#[test]
fn decode_midashi_euc_jp() {
    // "あい" in EUC-JP
    let midashi = [0xA4, 0xA2, 0xA4, 0xA4];
    assert_eq!(decode_euc_or_utf8(&midashi), "あい");
}

#[test]
fn test_merge_candidates_borrowed() {
    let primary = vec!["あい", "愛"];
    let fallback = vec!["愛", "相", "藍"];
    let mut merged = primary;
    for cand in fallback {
        if !merged.contains(&cand) {
            merged.push(cand);
        }
    }
    assert_eq!(merged, vec!["あい", "愛", "相", "藍"]);

    let formatted = format_candidates_response_str(&merged);
    assert_eq!(formatted, "1/あい/愛/相/藍/\n".as_bytes());

    let parsed = parse_candidates_borrowed(&formatted);
    assert_eq!(parsed, merged);
}

#[test]
fn test_extract_first_candidate() {
    assert_eq!(
        extract_first_candidate("1/東京/Tokyo/tokyo/\n".as_bytes()),
        Some("東京")
    );
    assert_eq!(extract_first_candidate("1/服/\n".as_bytes()), Some("服"));
    assert_eq!(extract_first_candidate(b"4\n"), None);
    assert_eq!(extract_first_candidate(b"1/\n"), None);
}

#[test]
fn test_parse_candidates_borrowed() {
    let resp = "1/着/切/伐/\n".as_bytes();
    let borrowed = parse_candidates_borrowed(resp);
    assert_eq!(borrowed, vec!["着", "切", "伐"]);
    let formatted = format_candidates_response_str(&borrowed);
    assert_eq!(formatted, resp);
}

#[test]
fn test_parse_candidates_unpacked() {
    let resp = "1/[っ/思/]/重/御持/お持/想;注釈/\n".as_bytes();
    let unpacked = parse_candidates_unpacked(resp);
    assert_eq!(unpacked, vec!["思", "重", "御持", "お持", "想;注釈"]);

    let resp2 = "1/[ち/待/]/[っ/[つ/[て/舞/俟/\n".as_bytes();
    let unpacked2 = parse_candidates_unpacked(resp2);
    assert_eq!(unpacked2, vec!["待", "舞", "俟"]);

    let resp3 = "1/来/切/着/\n".as_bytes();
    let unpacked3 = parse_candidates_unpacked(resp3);
    assert_eq!(unpacked3, vec!["来", "切", "着"]);
}

#[test]
fn test_completion_merge_logic() {
    let primary_resp = b"1/\xe3\x81\x82/\xe3\x81\x84/\n"; // 1/あ/い/
    let fallback_resp = vec![b'1', b'/', 0xA4, 0xA4, b'/', 0xA4, 0xA6, b'/', b'\n']; // 1/い/う/ in EUC-JP

    let primary_utf8 = response_euc_to_utf8(primary_resp);
    let fallback_utf8 = response_euc_to_utf8(&fallback_resp);

    let primary_cands = parse_candidates_borrowed(&primary_utf8);
    let fallback_cands = parse_candidates_borrowed(&fallback_utf8);

    let mut merged = primary_cands.clone();
    for cand in fallback_cands {
        if !merged.contains(&cand) {
            merged.push(cand);
        }
    }
    assert_eq!(merged, vec!["あ", "い", "う"]);

    let formatted = format_candidates_response_str(&merged);
    assert_eq!(formatted, "1/あ/い/う/\n".as_bytes());
}
