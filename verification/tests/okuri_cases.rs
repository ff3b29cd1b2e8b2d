use ruskkserv::okuri::{
    expand_okuri_variations, extract_stem_candidates_borrowed, parse_okuri_midashi,
    parse_okuri_midashi_extended, OkuriMidashi,
};

#[test]
fn test_parse_okuri_midashi() {
    assert_eq!(parse_okuri_midashi("かk"), Some(("か", 'k')));
    assert_eq!(parse_okuri_midashi("きr"), Some(("き", 'r')));
    assert_eq!(parse_okuri_midashi("おもu"), Some(("おも", 'u')));
    assert_eq!(parse_okuri_midashi("おもU"), Some(("おも", 'U')));
    assert_eq!(parse_okuri_midashi("うつくしi"), Some(("うつくし", 'i')));
    assert_eq!(parse_okuri_midashi("まぜがk"), Some(("まぜが", 'k')));
    assert_eq!(parse_okuri_midashi("交ぜGk"), Some(("交ぜ", 'k')));

    // 拡張パース
    assert_eq!(
        parse_okuri_midashi_extended("交ぜGk"),
        Some(OkuriMidashi::Compound {
            prefix: "交ぜ",
            romaji: "G",
            okuri_key: 'k',
        })
    );
    assert_eq!(
        parse_okuri_midashi_extended("交ぜGak"),
        Some(OkuriMidashi::Compound {
            prefix: "交ぜ",
            romaji: "Ga",
            okuri_key: 'k',
        })
    );
    assert_eq!(parse_okuri_midashi("交ぜGak"), Some(("交ぜ", 'k')));

    // アスタリスク明示送り仮名（画面表示マーカー対応）
    assert_eq!(
        parse_okuri_midashi_extended("ねあ*げ"),
        Some(OkuriMidashi::Explicit {
            prefix: "ねあ",
            suffix: "げ",
        })
    );
    assert_eq!(
        parse_okuri_midashi_extended("ねあ*g"),
        Some(OkuriMidashi::Simple {
            stem: "ねあ",
            key: 'g',
        })
    );
    assert_eq!(parse_okuri_midashi("ねあ*げ"), Some(("ねあ", 'げ')));
    assert_eq!(parse_okuri_midashi("ねあG"), Some(("ねあ", 'G')));

    // 送りなし見出し
    assert_eq!(parse_okuri_midashi("とうきょう"), None);
    assert_eq!(parse_okuri_midashi("へんかん"), None);
    assert_eq!(parse_okuri_midashi("SKK"), None);
    assert_eq!(parse_okuri_midashi("k"), None);
    assert_eq!(parse_okuri_midashi("Gak"), None);
}

#[test]
fn test_expand_okuri_variations() {
    // 通常の動詞
    let vars_kak = expand_okuri_variations("かk");
    assert_eq!(vars_kak[0].query_midashi, "かく");
    assert_eq!(vars_kak[0].okuri_suffix, "く");

    // 複合語 "まぜがk" -> 連用形 "まぜがき" が最優先
    let vars_mazegak = expand_okuri_variations("まぜがk");
    assert_eq!(vars_mazegak[0].query_midashi, "まぜがき");
    assert_eq!(vars_mazegak[0].okuri_suffix, "き");

    // 複合語大文字 "交ぜGk" -> "交ぜがき" が最優先
    let vars_mazegk = expand_okuri_variations("交ぜGk");
    assert_eq!(vars_mazegk[0].query_midashi, "交ぜがき");
    assert_eq!(vars_mazegk[0].okuri_suffix, "き");

    // 複合語ローマ字 "交ぜGak" -> "交ぜがき" が最優先
    let vars_mazegak_romaji = expand_okuri_variations("交ぜGak");
    assert_eq!(vars_mazegak_romaji[0].query_midashi, "交ぜがき");
    assert_eq!(vars_mazegak_romaji[0].okuri_suffix, "き");

    // 複合語 "かきおこs" (KakiokoS ->i/u) -> 終止形・連用形・下一段を全網羅
    let vars_kakiokos = expand_okuri_variations("かきおこs");
    assert_eq!(vars_kakiokos[0].query_midashi, "かきおこす");
    assert_eq!(vars_kakiokos[0].okuri_suffix, "す");
    assert_eq!(vars_kakiokos[1].query_midashi, "かきおこし");
    assert_eq!(vars_kakiokos[1].okuri_suffix, "し");
    assert_eq!(vars_kakiokos[2].query_midashi, "かきおこせ");
    assert_eq!(vars_kakiokos[2].okuri_suffix, "せ");

    // 複合語 "といあわs" (ToiawaS ->e) -> 終止形・連用形・下一段を全網羅
    let vars_toiawas = expand_okuri_variations("といあわs");
    assert_eq!(vars_toiawas[0].query_midashi, "といあわす");
    assert_eq!(vars_toiawas[0].okuri_suffix, "す");
    assert_eq!(vars_toiawas[1].query_midashi, "といあわし");
    assert_eq!(vars_toiawas[1].okuri_suffix, "し");
    assert_eq!(vars_toiawas[2].query_midashi, "といあわせ");
    assert_eq!(vars_toiawas[2].okuri_suffix, "せ");

    // 複合語 "わりあt" (WariaT ->e) -> 下一段・名詞形 "わりあて" が最優先
    let vars_wariat = expand_okuri_variations("わりあt");
    assert_eq!(vars_wariat[0].query_midashi, "わりあて");
    assert_eq!(vars_wariat[0].okuri_suffix, "て");

    // 短語五段動詞促音便 "おもt" (OmoT ->ta/te) -> 促音便 "おもった", "おもって" が最優先
    let vars_omot = expand_okuri_variations("おもt");
    assert_eq!(vars_omot[0].query_midashi, "おもった");
    assert_eq!(vars_omot[0].okuri_suffix, "った");
    assert_eq!(vars_omot[1].query_midashi, "おもって");
    assert_eq!(vars_omot[1].okuri_suffix, "って");

    // 拗音・縮約 "わらc" (WaraChau) -> "わらっちゃう", "わらっちゃった" が最優先
    let vars_warac = expand_okuri_variations("わらc");
    assert_eq!(vars_warac[0].query_midashi, "わらっちゃう");
    assert_eq!(vars_warac[0].okuri_suffix, "っちゃう");

    // 拗音・意志 "たべy" (TabeYou) -> "たべよう" が最優先
    let vars_tabey = expand_okuri_variations("たべy");
    assert_eq!(vars_tabey[0].query_midashi, "たべよう");
    assert_eq!(vars_tabey[0].okuri_suffix, "よう");

    // 形容詞過去 "たかk" (TakaK ->atta) -> 終止形 "たかく" に加え "たかかった" も展開
    let vars_takak = expand_okuri_variations("たかk");
    assert!(vars_takak.iter().any(|v| v.query_midashi == "たかく"));
    assert!(vars_takak.iter().any(|v| v.query_midashi == "たかかった" && v.okuri_suffix == "かった"));

    // 複合語 "ねあg" (NeaG ->e) -> 下一段 "ねあげ" ("げ") が最優先
    let vars_neag = expand_okuri_variations("ねあg");
    assert_eq!(vars_neag[0].query_midashi, "ねあげ");
    assert_eq!(vars_neag[0].okuri_suffix, "げ");

    // 全子音の複合語テスト（k, s, t, n, m, r, g, b, w/u）
    // k: "みおk" (見送り/見送る)
    let vars_miok = expand_okuri_variations("みおk");
    assert!(vars_miok.iter().any(|v| v.query_midashi == "みおき"));
    assert!(vars_miok.iter().any(|v| v.query_midashi == "みおく"));

    // s: "いいだs" (言い出し/言い出す)
    let vars_iidas = expand_okuri_variations("いいだs");
    assert!(vars_iidas.iter().any(|v| v.query_midashi == "いいだし"));
    assert!(vars_iidas.iter().any(|v| v.query_midashi == "いいだす"));

    // t: "ひきあt" (引き当て/引き当てる)
    let vars_hikiat = expand_okuri_variations("ひきあt");
    assert!(vars_hikiat.iter().any(|v| v.query_midashi == "ひきあて"));

    // r: "うけいr" (受け入れ/受け入れる)
    let vars_ukeir = expand_okuri_variations("うけいr");
    assert!(vars_ukeir.iter().any(|v| v.query_midashi == "うけいれ"));
    assert!(vars_ukeir.iter().any(|v| v.query_midashi == "うけいる"));

    // m: "もうしこm" (申込み/申し込む)
    let vars_moushikom = expand_okuri_variations("もうしこm");
    assert!(vars_moushikom.iter().any(|v| v.query_midashi == "もうしこみ"));
    assert!(vars_moushikom.iter().any(|v| v.query_midashi == "もうしこむ"));

    // b: "しらb" (調べ/調べる)
    let vars_shirab = expand_okuri_variations("しらb");
    assert!(vars_shirab.iter().any(|v| v.query_midashi == "しらべ"));

    // w: "とりあつかw" (取扱い/取り扱う)
    let vars_toriatsukaw = expand_okuri_variations("とりあつかw");
    assert!(vars_toriatsukaw.iter().any(|v| v.query_midashi == "とりあつかい"));
    assert!(vars_toriatsukaw.iter().any(|v| v.query_midashi == "とりあつかう"));

    // e: "つかe" (使え/使える/使う)
    let vars_tsukae = expand_okuri_variations("つかe");
    assert_eq!(vars_tsukae[0].query_midashi, "つかえ");
    assert_eq!(vars_tsukae[0].okuri_suffix, "え");
    assert!(vars_tsukae.iter().any(|v| v.query_midashi == "つかえる"));
    assert!(vars_tsukae.iter().any(|v| v.query_midashi == "つかう"));
}

#[test]
fn test_extract_stem_candidates_borrowed() {
    // "かく" に対する azooKey 候補: "書く", "各", "描く", "辛く", "書く;注釈"
    let candidates = ["書く", "各", "描く", "辛く", "書く;注釈あり"];
    let stems = extract_stem_candidates_borrowed(&candidates, "く", "かく");
    assert_eq!(stems, vec!["書", "描", "辛"]);

    // "交ぜがき" に対する azooKey 候補パターン A: "交ぜ書き", "混ぜ書き", "交ぜ餓鬼"
    let comp_cands = ["交ぜ書き", "混ぜ書き", "交ぜ餓鬼"];
    let comp_stems = extract_stem_candidates_borrowed(&comp_cands, "き", "交ぜがき");
    assert_eq!(comp_stems, vec!["交ぜ書", "混ぜ書"]);

    // "交ぜがき" に対する azooKey 候補パターン B: すでに語幹化された "交ぜ書", "交ぜ餓鬼", "交ゼが来"
    let pre_stemmed = ["交ぜ書", "交ぜ餓鬼", "交ゼが来"];
    let pre_stems = extract_stem_candidates_borrowed(&pre_stemmed, "き", "交ぜがき");
    assert_eq!(pre_stems, vec!["交ぜ書"]);

    // "交ぜがく" に対する候補: 終止形動詞 "交ぜ書く" から語幹 "交ぜ書" が抽出され、名詞 "交ぜ学", "交是学" は除外される
    let shuushi_cands = ["交ぜ書く", "交ぜ学", "交是学"];
    let shuushi_stems = extract_stem_candidates_borrowed(&shuushi_cands, "く", "交ぜがく");
    assert_eq!(shuushi_stems, vec!["交ぜ書"]);

    // "といあわせ" に対する候補: "問い合わせ", "問合せ", "問い合せ", "問合わせ", "問合"
    // サフィックス "せ" で送り仮名を剥がし、語幹 "問い合わ", "問合", "問い合", "問合わ" が抽出される
    let toiawase_cands = ["問い合わせ", "問合せ", "問い合せ", "問合わせ", "問合"];
    let toiawase_stems = extract_stem_candidates_borrowed(&toiawase_cands, "せ", "といあわせ");
    assert_eq!(toiawase_stems, vec!["問い合わ", "問合", "問い合", "問合わ"]);

    // "わりあて" に対する候補: "割り当て", "割当", "割当て"
    // サフィックス "て" で語幹 "割り当", "割当" が抽出される
    let wariate_cands = ["割り当て", "割当", "割当て"];
    let wariate_stems = extract_stem_candidates_borrowed(&wariate_cands, "て", "わりあて");
    assert_eq!(wariate_stems, vec!["割り当", "割当"]);

    // "うけいれ" に対する候補: "受け入れ", "受入れ", "受入"
    let ukeire_cands = ["受け入れ", "受入れ", "受入"];
    let ukeire_stems = extract_stem_candidates_borrowed(&ukeire_cands, "れ", "うけいれ");
    assert_eq!(ukeire_stems, vec!["受け入", "受入"]);

    // "もうしこみ" に対する候補: "申込み", "申込", "申し込み"
    let moushikomi_cands = ["申込み", "申込", "申し込み"];
    let moushikomi_stems = extract_stem_candidates_borrowed(&moushikomi_cands, "み", "もうしこみ");
    assert_eq!(moushikomi_stems, vec!["申込", "申し込"]);

    // "とりあつかい" に対する候補: "取扱い", "取扱", "取り扱い"
    let toriatsukai_cands = ["取扱い", "取扱", "取り扱い"];
    let toriatsukai_stems = extract_stem_candidates_borrowed(&toriatsukai_cands, "い", "とりあつかい");
    assert_eq!(toriatsukai_stems, vec!["取扱", "取り扱"]);

    // 促音便動詞 "おもった" / "おもって" からの語幹抽出
    let omotta_cands = ["思った", "重った"];
    let omotta_stems = extract_stem_candidates_borrowed(&omotta_cands, "った", "おもった");
    assert_eq!(omotta_stems, vec!["思", "重"]);

    let omotte_cands = ["思って", "想って"];
    let omotte_stems = extract_stem_candidates_borrowed(&omotte_cands, "って", "おもって");
    assert_eq!(omotte_stems, vec!["思", "想"]);

    // "きった" からサフィックス "った" で語幹 "切" が抽出され、同音名詞 "橘田" は自然に除外される
    let kitta_cands = ["切った", "橘田"];
    let kitta_stems = extract_stem_candidates_borrowed(&kitta_cands, "った", "きった");
    assert_eq!(kitta_stems, vec!["切"]);

    // 拗音動詞 "わらっちゃう" からの語幹抽出
    let warac_cands = ["笑っちゃう", "嗤っちゃう"];
    let warac_stems = extract_stem_candidates_borrowed(&warac_cands, "っちゃう", "わらっちゃう");
    assert_eq!(warac_stems, vec!["笑", "嗤"]);

    // 意志形 "たべよう" からの語幹抽出
    let tabey_cands = ["食べよう"];
    let tabey_stems = extract_stem_candidates_borrowed(&tabey_cands, "よう", "たべよう");
    assert_eq!(tabey_stems, vec!["食べ"]);

    // 形容詞過去 "たかかった" からの語幹抽出
    let takak_cands = ["高かった"];
    let takak_stems = extract_stem_candidates_borrowed(&takak_cands, "かった", "たかかった");
    assert_eq!(takak_stems, vec!["高"]);

    // "つかえ" に対する azooKey 候補 "使え", "仕え", "遣え", "支え" から語幹抽出
    let tsukae_cands = ["使え", "仕え", "遣え", "支え", "事え", "痞", "痞え"];
    let tsukae_stems = extract_stem_candidates_borrowed(&tsukae_cands, "え", "つかえ");
    assert_eq!(tsukae_stems, vec!["使", "仕", "遣", "支", "事", "痞"]);
}
