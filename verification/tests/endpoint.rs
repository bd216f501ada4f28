use kanjiapi::endpoint;
use kanjiapi::url_for;
use kanjiapi::KanjiResponse;

#[test]
fn single_kanji_path() {
    assert_eq!(endpoint(&KanjiResponse::SingleKanji('蛍')), "kanji/蛍");
    assert_eq!(endpoint(&KanjiResponse::SingleKanji('一')), "kanji/一");
}

#[test]
fn jouyou_path() {
    assert_eq!(endpoint(&KanjiResponse::Jouyou), "kanji/jouyou");
}

#[test]
fn jinmeiyo_path_uses_service_spelling() {
    assert_eq!(endpoint(&KanjiResponse::Jinmeiyo), "kanji/jinmeiyou");
}

#[test]
fn all_path() {
    assert_eq!(endpoint(&KanjiResponse::All), "kanji/all");
}

#[test]
fn grade_path() {
    assert_eq!(endpoint(&KanjiResponse::Grade(1)), "kanji/grade-1");
    assert_eq!(endpoint(&KanjiResponse::Grade(6)), "kanji/grade-6");
    assert_eq!(endpoint(&KanjiResponse::Grade(255)), "kanji/grade-255");
    assert_eq!(endpoint(&KanjiResponse::Grade(0)), "kanji/grade-0");
    assert_eq!(endpoint(&KanjiResponse::Grade(10)), "kanji/grade-10");
}

#[test]
fn jlpt_path() {
    assert_eq!(endpoint(&KanjiResponse::Jlpt(5)), "kanji/jlpt-5");
    assert_eq!(endpoint(&KanjiResponse::Jlpt(1)), "kanji/jlpt-1");
}

#[test]
fn words_path() {
    assert_eq!(endpoint(&KanjiResponse::Words('犬')), "words/犬");
}

#[test]
fn full_url_prepends_base_address() {
    assert_eq!(
        url_for(&KanjiResponse::Grade(2)),
        "https://kanjiapi.dev/v1/kanji/grade-2"
    );
    assert_eq!(
        url_for(&KanjiResponse::SingleKanji('水')),
        "https://kanjiapi.dev/v1/kanji/水"
    );
}
