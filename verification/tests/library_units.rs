use ruskkserv::backend::{
    after_exchange, ensure_trailing_newline, upstream_response, wire_request, ExchangeOutcome,
    ExchangeStep, UpstreamEncoding,
};
use ruskkserv::config::parse_bool_flag;
use ruskkserv::encoding::{decode_euc_or_utf8, encode_euc_jp, parse_candidates_from_str};
use ruskkserv::okuri::{
    is_kanji, is_valid_stem, normalize_okuri_midashi_key, okuri_key_to_suffixes, order_suffixes_for_stem,
    romaji_to_hiragana,
};
use ruskkserv::protocol::{
    encode_request_for_encoding, is_found, normalize_midashi, parse_request,
    trim_ascii_whitespace_end, ProtocolError, Request,
};
use ruskkserv::session::{
    contains_kanji, frame_request_line, host_response, is_completion_burst, not_found_response,
    okuri_fallback_timeout_ms, okuri_query_timeout_ms, primary_timeout_ms, version_response,
};

#[test]
fn euc_encoding_of_kana() {
    assert_eq!(encode_euc_jp("あい"), vec![0xA4, 0xA2, 0xA4, 0xA4]);
    assert_eq!(encode_euc_jp("abc"), b"abc".to_vec());
    assert_eq!(decode_euc_or_utf8("かな".as_bytes()), "かな");
}

#[test]
fn euc_request_for_upstream() {
    let wire = encode_request_for_encoding(&Request::Lookup("かく".as_bytes()));
    assert_eq!(wire, vec![0x31, 0xA4, 0xAB, 0xA4, 0xAF, 0x20, 0x0A]);
    // An EUC-JP midashi from the client is decoded first, then re-encoded.
    let wire = encode_request_for_encoding(&Request::Completion(&[0xA4, 0xA2]));
    assert_eq!(wire, vec![0x34, 0xA4, 0xA2, 0x20, 0x0A]);
    assert_eq!(encode_request_for_encoding(&Request::End), b"0 \n".to_vec());
}

#[test]
fn wire_request_by_encoding() {
    let req = Request::Lookup("あ".as_bytes());
    assert_eq!(
        wire_request(&req, UpstreamEncoding::Utf8).unwrap(),
        "1あ \n".as_bytes().to_vec()
    );
    assert_eq!(
        wire_request(&req, UpstreamEncoding::EucJp).unwrap(),
        vec![0x31, 0xA4, 0xA2, 0x20, 0x0A]
    );
    assert_eq!(
        wire_request(&req, UpstreamEncoding::EucJpRequestUtf8Response).unwrap(),
        vec![0x31, 0xA4, 0xA2, 0x20, 0x0A]
    );
}

#[test]
fn upstream_response_conversion() {
    let euc = vec![0x31, 0x2F, 0xA4, 0xA2, 0x2F];
    assert_eq!(
        upstream_response(euc.clone(), UpstreamEncoding::EucJp),
        "1/あ/\n".as_bytes().to_vec()
    );
    assert_eq!(
        upstream_response("1/あ/\n".as_bytes().to_vec(), UpstreamEncoding::EucJpRequestUtf8Response),
        "1/あ/\n".as_bytes().to_vec()
    );
    assert_eq!(upstream_response(b"4".to_vec(), UpstreamEncoding::Utf8), b"4\n".to_vec());
    assert_eq!(ensure_trailing_newline(b"4\n".to_vec()), b"4\n".to_vec());
    assert_eq!(ensure_trailing_newline(Vec::new()), b"\n".to_vec());
}

#[test]
fn exchange_decisions() {
    match after_exchange(0, ExchangeOutcome::Received(b"1/a/\n".to_vec())) {
        ExchangeStep::Accept(b) => assert_eq!(b, b"1/a/\n".to_vec()),
        _ => panic!("expected the reply to be accepted"),
    }
    assert!(matches!(after_exchange(0, ExchangeOutcome::Received(b"1/a/".to_vec())), ExchangeStep::Reject));
    assert!(matches!(
        after_exchange(0, ExchangeOutcome::Received(vec![b'x'; 65537])),
        ExchangeStep::Reject
    ));
    let mut exact = vec![b'x'; 65535];
    exact.push(b'\n');
    assert!(matches!(after_exchange(1, ExchangeOutcome::Received(exact)), ExchangeStep::Accept(_)));
    assert!(matches!(after_exchange(0, ExchangeOutcome::SendFailed), ExchangeStep::Retry));
    assert!(matches!(after_exchange(0, ExchangeOutcome::Closed), ExchangeStep::Retry));
    assert!(matches!(after_exchange(1, ExchangeOutcome::ReceiveFailed), ExchangeStep::GiveUp));
    assert!(matches!(after_exchange(1, ExchangeOutcome::Received(Vec::new())), ExchangeStep::GiveUp));
}

#[test]
fn bool_flags() {
    assert!(!parse_bool_flag(Some(" OFF "), true));
    assert!(!parse_bool_flag(Some("0"), true));
    assert!(!parse_bool_flag(Some("No"), true));
    assert!(parse_bool_flag(Some("yes"), false));
    assert!(parse_bool_flag(Some("TRUE"), false));
    assert!(parse_bool_flag(Some("on"), false));
    assert!(parse_bool_flag(Some("maybe"), true));
    assert!(!parse_bool_flag(Some(""), false));
    assert!(parse_bool_flag(None, true));
}

#[test]
fn protocol_errors_and_normalization() {
    assert_eq!(parse_request(b"   "), Err(ProtocolError::Empty));
    assert_eq!(parse_request(b"9abc"), Err(ProtocolError::UnknownOpcode(b'9')));
    assert_eq!(ProtocolError::Empty.message(), "empty request");
    assert_eq!(ProtocolError::UnknownOpcode(b'9').message(), "unknown opcode: 57");
    assert_eq!(ProtocolError::UnknownOpcode(7).message(), "unknown opcode: 7");
    assert_eq!(ProtocolError::UnknownOpcode(255).message(), "unknown opcode: 255");
    assert_eq!(parse_request(b"1\xa4\xa2 \t").unwrap(), Request::Lookup(b"\xa4\xa2"));
    assert_eq!(trim_ascii_whitespace_end(b"ab \r\n"), b"ab");
    assert_eq!(normalize_midashi(b"kan  "), b"kan");
    assert!(is_found(b"1/a/\n"));
    assert!(!is_found(b"4\n"));
    assert!(!is_found(b""));
}

#[test]
fn request_framing() {
    assert_eq!(frame_request_line(b"1abc \n"), Some(&b"1abc "[..]));
    assert_eq!(frame_request_line(b"1abc \r\n"), Some(&b"1abc "[..]));
    assert_eq!(frame_request_line(b"1abc"), None);
    assert_eq!(frame_request_line(b""), None);
    let long = vec![b'a'; 8193];
    assert_eq!(frame_request_line(&long), None);
    let mut max = vec![b'a'; 8191];
    max.push(b'\n');
    assert!(frame_request_line(&max).is_some());
}

#[test]
fn server_replies() {
    assert_eq!(version_response("0.1.0"), b"ruskkserv/0.1.0 ".to_vec());
    assert_eq!(host_response("127.0.0.1:1178"), b"ruskkserv/127.0.0.1:1178: ".to_vec());
    assert_eq!(not_found_response(), b"4\n".to_vec());
}

#[test]
fn timing_decisions() {
    assert!(!is_completion_burst(None, 10));
    assert!(is_completion_burst(Some(100), 149));
    assert!(!is_completion_burst(Some(100), 150));
    assert!(is_completion_burst(Some(200), 100));
    assert_eq!(primary_timeout_ms(1500), 600);
    assert_eq!(primary_timeout_ms(400), 400);
    assert_eq!(okuri_query_timeout_ms(1500, 0), Some(300));
    assert_eq!(okuri_query_timeout_ms(1500, 450), Some(150));
    assert_eq!(okuri_query_timeout_ms(100, 0), Some(100));
    assert_eq!(okuri_query_timeout_ms(1500, 600), None);
    assert_eq!(okuri_fallback_timeout_ms(700), 200);
    assert_eq!(okuri_fallback_timeout_ms(50), 50);
}

#[test]
fn okuri_helpers() {
    assert_eq!(romaji_to_hiragana("Ga"), Some("が"));
    assert_eq!(romaji_to_hiragana("G"), Some("が"));
    assert_eq!(romaji_to_hiragana("shi"), Some("し"));
    assert_eq!(romaji_to_hiragana("xyz"), None);
    assert_eq!(romaji_to_hiragana(""), None);
    assert_eq!(okuri_key_to_suffixes('K'), &["く", "き", "け", "かった", "くて", "きゃ"]);
    assert!(okuri_key_to_suffixes('q').is_empty());
    assert_eq!(normalize_okuri_midashi_key("てだR"), "てだr");
    assert_eq!(normalize_okuri_midashi_key("ねあ*げ"), "ねあg");
    assert_eq!(normalize_okuri_midashi_key("てだ*れ"), "てだr");
    assert_eq!(normalize_okuri_midashi_key("おも*った"), "おもt");
    assert_eq!(normalize_okuri_midashi_key("かk"), "かk");
    assert!(matches!(normalize_okuri_midashi_key("てだR"), std::borrow::Cow::Owned(_)));
    assert!(matches!(normalize_okuri_midashi_key("とうきょう"), std::borrow::Cow::Borrowed("とうきょう")));
    assert_eq!(order_suffixes_for_stem("まぜが", 't', &["x"]), &["て", "つ", "ち", "った", "って"]);
    assert_eq!(order_suffixes_for_stem("おも", 't', &["x"]), &["った", "って", "て", "つ", "ち"]);
    assert_eq!(order_suffixes_for_stem("か", 'k', &["x"]), &["x"]);
    assert_eq!(order_suffixes_for_stem("まぜが", 'q', &["x", "y"]), &["x", "y"]);
    assert_eq!(order_suffixes_for_stem("まぜが", 'K', &[]), &["き", "く", "け", "かった", "くて"]);
    assert_eq!(normalize_okuri_midashi_key("とうきょう"), "とうきょう");
    assert!(is_kanji('漢'));
    assert!(!is_kanji('か'));
    assert!(is_valid_stem("書", 1));
    assert!(!is_valid_stem("か", 1));
    assert!(is_valid_stem("食べ", 2));
    assert!(!is_valid_stem("手だ", 2));
    assert!(is_valid_stem("問い合わ", 4));
    assert!(!is_valid_stem("", 3));
    assert!(contains_kanji("切る"));
    assert!(!contains_kanji("きる"));
}

#[test]
fn candidates_from_text() {
    assert_eq!(
        parse_candidates_from_str("/[っ/思/]/重/;x/"),
        vec!["思".to_string(), "重".to_string(), ";x".to_string()]
    );
}

#[test]
fn every_request_round_trips() {
    for r in [
        Request::End,
        Request::Version,
        Request::Host,
        Request::Lookup("かんじ".as_bytes()),
        Request::Completion(b"kan"),
    ] {
        let w = ruskkserv::protocol::encode_request(&r);
        assert!(w.ends_with(b" \n"));
        assert_eq!(parse_request(&w[..w.len() - 1]).unwrap(), r);
    }
}

#[test]
fn okuri_key_tables_ignore_case() {
    for c in 'a'..='z' {
        let upper = c.to_ascii_uppercase();
        assert_eq!(okuri_key_to_suffixes(c), okuri_key_to_suffixes(upper));
        let t = okuri_key_to_suffixes(c);
        assert_eq!(t.is_empty(), !"abcdegijkmnoprstuwy".contains(c));
        for (i, a) in t.iter().enumerate() {
            assert!(!a.is_empty());
            assert!(!t[i + 1..].contains(a));
        }
    }
}
