use kanjiapi::parse_response;
use kanjiapi::KanjiError;
use kanjiapi::KanjiResponse;
use kanjiapi::KanjiResult;

const KANJI_BODY: &str = r#"{
    "freq_mainichi_shinbun": 2,
    "grade": 1,
    "heisig_en": "one",
    "jlpt": 4,
    "kanji": "一",
    "kun_readings": ["ひと-", "ひと.つ"],
    "meanings": ["one", "one radical (no.1)"],
    "name_readings": ["かず", "い"],
    "notes": [],
    "on_readings": ["イチ", "イツ"],
    "stroke_count": 1,
    "unicode": "4e00"
}"#;

#[test]
fn three_character_round_trip() {
    let r = parse_response(&KanjiResponse::All, "[\"一\",\"二\",\"三\"]").unwrap();
    let chars = r.into_kanji_chars().unwrap();
    assert_eq!(chars, vec!["一", "二", "三"]);
}

#[test]
fn grade_one_scenario() {
    assert_eq!(kanjiapi::endpoint(&KanjiResponse::Grade(1)), "kanji/grade-1");
    let body = "[\"一\",\"右\",\"雨\"]";
    let r = parse_response(&KanjiResponse::Grade(1), body).unwrap();
    let chars = r.into_kanji_chars().unwrap();
    assert_eq!(chars, vec!["一", "右", "雨"]);
    let r2 = parse_response(&KanjiResponse::Grade(1), body).unwrap();
    match r2.into_kanji_detail() {
        Err(KanjiError::TypeMismatch(tag)) => assert!(tag.contains("KanjiChars")),
        _ => panic!("narrowing a character list to a detail must fail"),
    }
}

#[test]
fn list_variants_all_narrow_to_chars() {
    let body = "[\"水\"]";
    for request in [
        KanjiResponse::All,
        KanjiResponse::Jouyou,
        KanjiResponse::Jinmeiyo,
        KanjiResponse::Grade(3),
        KanjiResponse::Jlpt(2),
    ] {
        let r = parse_response(&request, body).unwrap();
        assert!(matches!(r, KanjiResult::KanjiChars(_)));
        let r = parse_response(&request, body).unwrap();
        match r.into_words() {
            Err(KanjiError::TypeMismatch(tag)) => assert_eq!(tag, "KanjiChars"),
            _ => panic!("narrowing a character list to words must fail"),
        }
        let r = parse_response(&request, body).unwrap();
        assert!(r.into_kanji_chars().is_ok());
    }
}

#[test]
fn single_kanji_detail_fields() {
    let r = parse_response(&KanjiResponse::SingleKanji('一'), KANJI_BODY).unwrap();
    let d = r.into_kanji_detail().unwrap();
    assert_eq!(d.kanji, "一");
    assert_eq!(d.unicode, "4e00");
    assert!(!d.kanji.is_empty());
    assert!(!d.unicode.is_empty());
    assert_eq!(d.jlpt, 4);
    assert_eq!(d.grade, Some(1));
    assert_eq!(d.frequency, Some(2));
    assert_eq!(d.heisig_en.as_deref(), Some("one"));
    assert_eq!(d.kunyomi, vec!["ひと-", "ひと.つ"]);
    assert_eq!(d.meaning, vec!["one", "one radical (no.1)"]);
    assert_eq!(d.name_readings, vec!["かず", "い"]);
    assert!(d.notes.is_empty());
    assert_eq!(d.onyomi, vec!["イチ", "イツ"]);
    assert_eq!(d.strokecount, Some(1));
}

#[test]
fn detail_optional_fields_may_be_null_or_absent() {
    let body = r#"{"grade": null, "jlpt": 1, "kanji": "水", "unicode": "6c34"}"#;
    let r = parse_response(&KanjiResponse::SingleKanji('水'), body).unwrap();
    let d = r.into_kanji_detail().unwrap();
    assert_eq!(d.grade, None);
    assert_eq!(d.frequency, None);
    assert_eq!(d.heisig_en, None);
    assert_eq!(d.strokecount, None);
    assert!(d.kunyomi.is_empty());
    assert!(d.onyomi.is_empty());
    assert!(d.meaning.is_empty());
    assert!(d.name_readings.is_empty());
    assert!(d.notes.is_empty());
}

#[test]
fn detail_unknown_fields_are_skipped() {
    let body = r#"{"jlpt": 1, "kanji": "水", "unicode": "6c34", "something_else": [1, {"deep": true}]}"#;
    let r = parse_response(&KanjiResponse::SingleKanji('水'), body).unwrap();
    assert!(r.into_kanji_detail().is_ok());
}

#[test]
fn detail_missing_required_field_fails() {
    let body = r#"{"jlpt": 1, "kanji": "水"}"#;
    let r = parse_response(&KanjiResponse::SingleKanji('水'), body);
    assert!(matches!(r, Err(KanjiError::Deserialization(_))));
}

#[test]
fn detail_out_of_range_level_fails() {
    let body = r#"{"jlpt": 300, "kanji": "水", "unicode": "6c34"}"#;
    let r = parse_response(&KanjiResponse::SingleKanji('水'), body);
    assert!(matches!(r, Err(KanjiError::Deserialization(_))));
    let body = r#"{"jlpt": 1.5, "kanji": "水", "unicode": "6c34"}"#;
    let r = parse_response(&KanjiResponse::SingleKanji('水'), body);
    assert!(matches!(r, Err(KanjiError::Deserialization(_))));
    let body = r#"{"jlpt": -1, "kanji": "水", "unicode": "6c34"}"#;
    let r = parse_response(&KanjiResponse::SingleKanji('水'), body);
    assert!(matches!(r, Err(KanjiError::Deserialization(_))));
}

#[test]
fn detail_duplicate_field_fails() {
    let body = r#"{"jlpt": 1, "kanji": "水", "kanji": "火", "unicode": "6c34"}"#;
    let r = parse_response(&KanjiResponse::SingleKanji('水'), body);
    assert!(matches!(r, Err(KanjiError::Deserialization(_))));
}

#[test]
fn word_list_fields() {
    let body = r#"[{"meanings": [{"glosses": ["dog", "hound"]}],
                    "variants": [{"priorities": ["news1"], "pronounced": "いぬ", "written": "犬"}]}]"#;
    let r = parse_response(&KanjiResponse::Words('犬'), body).unwrap();
    let words = r.into_words().unwrap();
    assert_eq!(words.len(), 1);
    assert_eq!(words[0].meanings.len(), 1);
    assert_eq!(words[0].meanings[0].glosses, vec!["dog", "hound"]);
    assert_eq!(words[0].variants.len(), 1);
    assert_eq!(words[0].variants[0].priorities, vec!["news1"]);
    assert_eq!(words[0].variants[0].pronounced, "いぬ");
    assert_eq!(words[0].variants[0].written, "犬");
}

#[test]
fn word_missing_variants_fails() {
    let body = r#"[{"meanings": [{"glosses": ["dog"]}]}]"#;
    let r = parse_response(&KanjiResponse::Words('犬'), body);
    assert!(matches!(r, Err(KanjiError::Deserialization(_))));
}

#[test]
fn words_narrowing_mismatch_names_tag() {
    let body = r#"[]"#;
    let r = parse_response(&KanjiResponse::Words('犬'), body).unwrap();
    match r.into_kanji_chars() {
        Err(KanjiError::TypeMismatch(tag)) => assert_eq!(tag, "Words"),
        _ => panic!("narrowing a word list to characters must fail"),
    }
}

#[test]
fn detail_narrowing_mismatch_names_tag() {
    let r = parse_response(&KanjiResponse::SingleKanji('一'), KANJI_BODY).unwrap();
    match r.into_words() {
        Err(KanjiError::TypeMismatch(tag)) => assert_eq!(tag, "KanjiDetail"),
        _ => panic!("narrowing a detail to words must fail"),
    }
}

#[test]
fn malformed_bodies_yield_deserialization_errors() {
    let truncated = r#"{"kanji": "水""#;
    for request in [
        KanjiResponse::SingleKanji('水'),
        KanjiResponse::All,
        KanjiResponse::Words('水'),
        KanjiResponse::Grade(1),
    ] {
        let r = parse_response(&request, truncated);
        assert!(matches!(r, Err(KanjiError::Deserialization(_))));
        let r = parse_response(&request, "");
        assert!(matches!(r, Err(KanjiError::Deserialization(_))));
        let r = parse_response(&request, "[\"a\",]");
        assert!(matches!(r, Err(KanjiError::Deserialization(_))));
        let r = parse_response(&request, "[] trailing");
        assert!(matches!(r, Err(KanjiError::Deserialization(_))));
    }
}

#[test]
fn shape_mismatch_yields_deserialization_error() {
    let r = parse_response(&KanjiResponse::All, "[1, 2]");
    assert!(matches!(r, Err(KanjiError::Deserialization(_))));
    let r = parse_response(&KanjiResponse::All, "{\"a\": 1}");
    assert!(matches!(r, Err(KanjiError::Deserialization(_))));
    let r = parse_response(&KanjiResponse::SingleKanji('水'), "[\"水\"]");
    assert!(matches!(r, Err(KanjiError::Deserialization(_))));
    let r = parse_response(&KanjiResponse::Words('水'), "[\"水\"]");
    assert!(matches!(r, Err(KanjiError::Deserialization(_))));
}

#[test]
fn whitespace_around_tokens_is_accepted() {
    let r = parse_response(&KanjiResponse::All, "  [ \"一\" ,\t\"二\" ]\n").unwrap();
    let chars = r.into_kanji_chars().unwrap();
    assert_eq!(chars, vec!["一", "二"]);
}

#[test]
fn string_escapes_are_decoded() {
    let r = parse_response(&KanjiResponse::All, r#"["a\nb", "q\"\\", "一", "\t/"]"#).unwrap();
    let chars = r.into_kanji_chars().unwrap();
    assert_eq!(chars, vec!["a\nb", "q\"\\", "一", "\t/"]);
}

#[test]
fn unicode_escapes_are_decoded() {
    let r = parse_response(&KanjiResponse::All, r#"["\u4e00", "\u0041"]"#).unwrap();
    let chars = r.into_kanji_chars().unwrap();
    assert_eq!(chars, vec!["一", "A"]);
}

#[test]
fn surrogate_pair_escape_is_decoded() {
    let r = parse_response(&KanjiResponse::All, r#"["\ud83d\ude00"]"#).unwrap();
    let chars = r.into_kanji_chars().unwrap();
    assert_eq!(chars, vec!["\u{1F600}"]);
}

#[test]
fn lone_surrogate_escape_is_rejected() {
    let r = parse_response(&KanjiResponse::All, r#"["\ud800"]"#);
    assert!(matches!(r, Err(KanjiError::Deserialization(_))));
    let r = parse_response(&KanjiResponse::All, r#"["\udc00"]"#);
    assert!(matches!(r, Err(KanjiError::Deserialization(_))));
    let r = parse_response(&KanjiResponse::All, r#"["\ud83dxx"]"#);
    assert!(matches!(r, Err(KanjiError::Deserialization(_))));
}

#[test]
fn control_character_in_string_is_rejected() {
    let r = parse_response(&KanjiResponse::All, "[\"a\nb\"]");
    assert!(matches!(r, Err(KanjiError::Deserialization(_))));
}

#[test]
fn number_bounds_are_respected() {
    let body = r#"{"freq_mainichi_shinbun": 18446744073709551615, "jlpt": 1, "kanji": "水", "unicode": "6c34"}"#;
    let r = parse_response(&KanjiResponse::SingleKanji('水'), body).unwrap();
    let d = r.into_kanji_detail().unwrap();
    assert_eq!(d.frequency, Some(u64::MAX));
    let body = r#"{"freq_mainichi_shinbun": 18446744073709551616, "jlpt": 1, "kanji": "水", "unicode": "6c34"}"#;
    let r = parse_response(&KanjiResponse::SingleKanji('水'), body);
    assert!(matches!(r, Err(KanjiError::Deserialization(_))));
}

#[test]
fn empty_list_bodies_parse() {
    let r = parse_response(&KanjiResponse::Jouyou, "[]").unwrap();
    assert!(r.into_kanji_chars().unwrap().is_empty());
    let r = parse_response(&KanjiResponse::Words('水'), "[]").unwrap();
    assert!(r.into_words().unwrap().is_empty());
}
