//! The library's cross-cutting guarantees, stated once and proved from the
//! contracts of the parsing and narrowing functions.

use crate::dispatch::{detail_matches, result_matches, word_matches, words_match};
use crate::extract::{arr_field_of, field_of, req_str_of};
use crate::json::JsonV;
use crate::model::{KanjiDetail, KanjiResult, Word};
use crate::KanjiResponse;
use vstd::prelude::*;

verus! {

/// Law: the tag of a result is fully determined by the request variant that
/// produced it — a single-kanji request yields a kanji detail, a word
/// request a word list, and every other variant a character list.
pub proof fn lemma_tag_determined(request: KanjiResponse, v: JsonV, res: KanjiResult)
    requires
        result_matches(request, v, res),
    ensures
        request is SingleKanji <==> res is KanjiDetail,
        request is Words <==> res is Words,
        (!(request is SingleKanji) && !(request is Words)) <==> res is KanjiChars,
{
}

/// Law: a result produced for a character-list request carries the
/// `KanjiChars` tag, so narrowing it to a character list succeeds while
/// narrowing it to a kanji detail or word list reports that tag back.
pub proof fn lemma_list_request_tag(request: KanjiResponse, v: JsonV, res: KanjiResult)
    requires
        !(request is SingleKanji),
        !(request is Words),
        result_matches(request, v, res),
    ensures
        res is KanjiChars,
        res.tag_str() == "KanjiChars"@,
{
}

/// Law: a single-kanji result carries through exactly the `kanji` and
/// `unicode` strings the response body supplied; in particular each is
/// non-empty whenever the body supplies it non-empty.
pub proof fn lemma_detail_fields_carried(d: KanjiDetail, v: JsonV)
    requires
        detail_matches(d, v),
    ensures
        req_str_of(v->Obj_0, "kanji"@) == Some(d.kanji@),
        req_str_of(v->Obj_0, "unicode"@) == Some(d.unicode@),
        (field_of(v->Obj_0, "kanji"@) matches Some(JsonV::Str(t)) && t.len() > 0) ==> d.kanji@.len()
            > 0,
        (field_of(v->Obj_0, "unicode"@) matches Some(JsonV::Str(t)) && t.len() > 0)
            ==> d.unicode@.len() > 0,
{
}

/// Law: a word-list result mirrors the response body entry for entry: each
/// word's meanings and variants lists hold exactly as many elements as the
/// body's arrays, so they are non-empty whenever the body's are.
pub proof fn lemma_words_mirror(ws: Seq<Word>, v: JsonV)
    requires
        words_match(ws, v),
    ensures
        ws.len() == v->Arr_0.len(),
        forall|i: int|
            0 <= i < ws.len() ==> {
                let wv = #[trigger] v->Arr_0[i];
                &&& word_matches(ws[i], wv)
                &&& ws[i].meanings@.len() == arr_field_of(wv->Obj_0, "meanings"@)->Some_0.len()
                &&& ws[i].variants@.len() == arr_field_of(wv->Obj_0, "variants"@)->Some_0.len()
            },
{
}

} // verus!
