//! One request/response cycle, minus the wire: given the request variant and
//! the response body text, parse and type the body as the variant dictates.

use crate::extract::{
    all_strs, arr_field_of, find_field, get_list_str, get_opt_str, get_opt_u64, get_opt_u8,
    get_req_list, get_req_str, get_req_u8, list_str_of, opt_str_of, opt_u64_of, opt_u8_of,
    req_list_of, req_str_of, req_u8_of, strings_of_list, strs_vals,
};
use crate::json::{jv_members, jv_seq, lemma_jv_seq, parse_json, spec_json, Json, JsonV};
use crate::model::{KanjiDetail, KanjiError, KanjiResult, Meaning, Variant, Word};
use crate::text::chars_of;
use crate::KanjiResponse;
use vstd::prelude::*;

verus! {

/// Whether an object value has the single-kanji shape.
pub open spec fn detail_ok(v: JsonV) -> bool {
    &&& v is Obj
    &&& ({
        let ms = v->Obj_0;
        &&& opt_u64_of(ms, "freq_mainichi_shinbun"@) is Some
        &&& opt_u8_of(ms, "grade"@) is Some
        &&& opt_str_of(ms, "heisig_en"@) is Some
        &&& req_u8_of(ms, "jlpt"@) is Some
        &&& req_str_of(ms, "kanji"@) is Some
        &&& list_str_of(ms, "kun_readings"@) is Some
        &&& list_str_of(ms, "meanings"@) is Some
        &&& list_str_of(ms, "name_readings"@) is Some
        &&& list_str_of(ms, "notes"@) is Some
        &&& list_str_of(ms, "on_readings"@) is Some
        &&& opt_u8_of(ms, "stroke_count"@) is Some
        &&& req_str_of(ms, "unicode"@) is Some
    })
}

/// Whether `d` reads exactly the fields of the object value `v`.
pub open spec fn detail_matches(d: KanjiDetail, v: JsonV) -> bool {
    &&& detail_ok(v)
    &&& ({
        let ms = v->Obj_0;
        &&& d.frequency == opt_u64_of(ms, "freq_mainichi_shinbun"@)->Some_0
        &&& d.grade == opt_u8_of(ms, "grade"@)->Some_0
        &&& (match (d.heisig_en, opt_str_of(ms, "heisig_en"@)->Some_0) {
            (Some(s), Some(t)) => s@ == t,
            (None, None) => true,
            _ => false,
        })
        &&& d.jlpt == req_u8_of(ms, "jlpt"@)->Some_0
        &&& d.kanji@ == req_str_of(ms, "kanji"@)->Some_0
        &&& d.kunyomi.deep_view() == list_str_of(ms, "kun_readings"@)->Some_0
        &&& d.meaning.deep_view() == list_str_of(ms, "meanings"@)->Some_0
        &&& d.name_readings.deep_view() == list_str_of(ms, "name_readings"@)->Some_0
        &&& d.notes.deep_view() == list_str_of(ms, "notes"@)->Some_0
        &&& d.onyomi.deep_view() == list_str_of(ms, "on_readings"@)->Some_0
        &&& d.strokecount == opt_u8_of(ms, "stroke_count"@)->Some_0
        &&& d.unicode@ == req_str_of(ms, "unicode"@)->Some_0
    })
}

/// Reads a parsed body as a single-kanji object.
pub fn detail_from_json(j: &Json) -> (r: Option<KanjiDetail>)
    ensures
        match r {
            Some(d) => detail_matches(d, j.jv()),
            None => !detail_ok(j.jv()),
        },
{
    match j {
        Json::Obj(m) => {
            let frequency = match get_opt_u64(m, "freq_mainichi_shinbun") {
                Some(v) => v,
                None => {
                    return None;
                },
            };
            let grade = match get_opt_u8(m, "grade") {
                Some(v) => v,
                None => {
                    return None;
                },
            };
            let heisig_en = match get_opt_str(m, "heisig_en") {
                Some(v) => v,
                None => {
                    return None;
                },
            };
            let jlpt = match get_req_u8(m, "jlpt") {
                Some(v) => v,
                None => {
                    return None;
                },
            };
            let kanji = match get_req_str(m, "kanji") {
                Some(v) => v,
                None => {
                    return None;
                },
            };
            let kunyomi = match get_list_str(m, "kun_readings") {
                Some(v) => v,
                None => {
                    return None;
                },
            };
            let meaning = match get_list_str(m, "meanings") {
                Some(v) => v,
                None => {
                    return None;
                },
            };
            let name_readings = match get_list_str(m, "name_readings") {
                Some(v) => v,
                None => {
                    return None;
                },
            };
            let notes = match get_list_str(m, "notes") {
                Some(v) => v,
                None => {
                    return None;
                },
            };
            let onyomi = match get_list_str(m, "on_readings") {
                Some(v) => v,
                None => {
                    return None;
                },
            };
            let strokecount = match get_opt_u8(m, "stroke_count") {
                Some(v) => v,
                None => {
                    return None;
                },
            };
            let unicode = match get_req_str(m, "unicode") {
                Some(v) => v,
                None => {
                    return None;
                },
            };
            Some(
                KanjiDetail {
                    frequency,
                    grade,
                    heisig_en,
                    jlpt,
                    kanji,
                    kunyomi,
                    meaning,
                    name_readings,
                    notes,
                    onyomi,
                    strokecount,
                    unicode,
                },
            )
        },
        _ => None,
    }
}

/// Whether a value has the word-sense shape.
pub open spec fn meaning_ok(v: JsonV) -> bool {
    v is Obj && req_list_of(v->Obj_0, "glosses"@) is Some
}

/// Whether `m` reads exactly the glosses of `v`.
pub open spec fn meaning_matches(m: Meaning, v: JsonV) -> bool {
    meaning_ok(v) && m.glosses.deep_view() == req_list_of(v->Obj_0, "glosses"@)->Some_0
}

fn meaning_from(j: &Json) -> (r: Option<Meaning>)
    ensures
        match r {
            Some(m) => meaning_matches(m, j.jv()),
            None => !meaning_ok(j.jv()),
        },
{
    match j {
        Json::Obj(mm) => match get_req_list(mm, "glosses") {
            Some(g) => Some(Meaning { glosses: g }),
            None => None,
        },
        _ => None,
    }
}

/// Whether a value has the word-variant shape.
pub open spec fn variant_ok(v: JsonV) -> bool {
    &&& v is Obj
    &&& req_list_of(v->Obj_0, "priorities"@) is Some
    &&& req_str_of(v->Obj_0, "pronounced"@) is Some
    &&& req_str_of(v->Obj_0, "written"@) is Some
}

/// Whether `w` reads exactly the fields of `v`.
pub open spec fn variant_matches(w: Variant, v: JsonV) -> bool {
    &&& variant_ok(v)
    &&& w.priorities.deep_view() == req_list_of(v->Obj_0, "priorities"@)->Some_0
    &&& w.pronounced@ == req_str_of(v->Obj_0, "pronounced"@)->Some_0
    &&& w.written@ == req_str_of(v->Obj_0, "written"@)->Some_0
}

fn variant_from(j: &Json) -> (r: Option<Variant>)
    ensures
        match r {
            Some(w) => variant_matches(w, j.jv()),
            None => !variant_ok(j.jv()),
        },
{
    match j {
        Json::Obj(mm) => {
            let priorities = match get_req_list(mm, "priorities") {
                Some(v) => v,
                None => {
                    return None;
                },
            };
            let pronounced = match get_req_str(mm, "pronounced") {
                Some(v) => v,
                None => {
                    return None;
                },
            };
            let written = match get_req_str(mm, "written") {
                Some(v) => v,
                None => {
                    return None;
                },
            };
            Some(Variant { priorities, pronounced, written })
        },
        _ => None,
    }
}

/// Whether a value has the word shape.
pub open spec fn word_ok(v: JsonV) -> bool {
    &&& v is Obj
    &&& (match arr_field_of(v->Obj_0, "meanings"@) {
        Some(vs) => forall|i: int| 0 <= i < vs.len() ==> meaning_ok(#[trigger] vs[i]),
        None => false,
    })
    &&& (match arr_field_of(v->Obj_0, "variants"@) {
        Some(vs) => forall|i: int| 0 <= i < vs.len() ==> variant_ok(#[trigger] vs[i]),
        None => false,
    })
}

/// Whether `w` reads exactly the senses and variants of `v`.
pub open spec fn word_matches(w: Word, v: JsonV) -> bool {
    &&& word_ok(v)
    &&& ({
        let ms = arr_field_of(v->Obj_0, "meanings"@)->Some_0;
        w.meanings@.len() == ms.len() && forall|i: int|
            0 <= i < ms.len() ==> meaning_matches(#[trigger] w.meanings@[i], ms[i])
    })
    &&& ({
        let vs = arr_field_of(v->Obj_0, "variants"@)->Some_0;
        w.variants@.len() == vs.len() && forall|i: int|
            0 <= i < vs.len() ==> variant_matches(#[trigger] w.variants@[i], vs[i])
    })
}

#[verifier::loop_isolation(false)]
fn word_from(j: &Json) -> (r: Option<Word>)
    ensures
        match r {
            Some(w) => word_matches(w, j.jv()),
            None => !word_ok(j.jv()),
        },
{
    match j {
        Json::Obj(m) => {
            let (midx, mcnt) = find_field(m, "meanings");
            if mcnt != 1 {
                return None;
            }
            let mx = match midx {
                Some(x) => x,
                None => {
                    return None;
                },
            };
            let melems = match &m[mx].1 {
                Json::Arr(e) => e,
                _ => {
                    return None;
                },
            };
            let (vidx, vcnt) = find_field(m, "variants");
            if vcnt != 1 {
                return None;
            }
            let vx = match vidx {
                Some(x) => x,
                None => {
                    return None;
                },
            };
            let velems = match &m[vx].1 {
                Json::Arr(e) => e,
                _ => {
                    return None;
                },
            };
            proof {
                lemma_jv_seq(melems@);
                lemma_jv_seq(velems@);
                assert(m@[mx as int].1.jv() == JsonV::Arr(jv_seq(melems@)));
                assert(m@[vx as int].1.jv() == JsonV::Arr(jv_seq(velems@)));
                assert(arr_field_of(jv_members(m@), "meanings"@) == Some(jv_seq(melems@)));
                assert(arr_field_of(jv_members(m@), "variants"@) == Some(jv_seq(velems@)));
            }
            let ghost mvs = jv_seq(melems@);
            let ghost vvs = jv_seq(velems@);
            let mut meanings: Vec<Meaning> = Vec::new();
            let mut i: usize = 0;
            while i < melems.len()
                invariant
                    mvs == jv_seq(melems@),
                    mvs.len() == melems@.len(),
                    forall|k: int|
                        0 <= k < melems@.len() ==> mvs[k] == #[trigger] melems@[k].jv(),
                    i <= melems@.len(),
                    meanings@.len() == i,
                    forall|k: int|
                        0 <= k < i ==> meaning_matches(#[trigger] meanings@[k], mvs[k]),
                decreases melems@.len() - i,
            {
                match meaning_from(&melems[i]) {
                    Some(mg) => meanings.push(mg),
                    None => {
                        proof {
                            assert(!meaning_ok(mvs[i as int]));
                            if word_ok(j.jv()) {
                                assert(arr_field_of(j.jv()->Obj_0, "meanings"@)->Some_0 == mvs);
                                assert(meaning_ok(mvs[i as int]));
                            }
                        }
                        return None;
                    },
                }
                i = i + 1;
            }
            let mut variants: Vec<Variant> = Vec::new();
            let mut k: usize = 0;
            while k < velems.len()
                invariant
                    vvs == jv_seq(velems@),
                    vvs.len() == velems@.len(),
                    forall|n: int|
                        0 <= n < velems@.len() ==> vvs[n] == #[trigger] velems@[n].jv(),
                    k <= velems@.len(),
                    variants@.len() == k,
                    forall|n: int|
                        0 <= n < k ==> variant_matches(#[trigger] variants@[n], vvs[n]),
                decreases velems@.len() - k,
            {
                match variant_from(&velems[k]) {
                    Some(vr) => variants.push(vr),
                    None => {
                        proof {
                            assert(!variant_ok(vvs[k as int]));
                            if word_ok(j.jv()) {
                                assert(arr_field_of(j.jv()->Obj_0, "variants"@)->Some_0 == vvs);
                                assert(variant_ok(vvs[k as int]));
                            }
                        }
                        return None;
                    },
                }
                k = k + 1;
            }
            proof {
                assert forall|t: int| 0 <= t < mvs.len() implies meaning_ok(
                    #[trigger] mvs[t],
                ) by {
                    assert(meaning_matches(meanings@[t], mvs[t]));
                }
                assert forall|t: int| 0 <= t < vvs.len() implies variant_ok(
                    #[trigger] vvs[t],
                ) by {
                    assert(variant_matches(variants@[t], vvs[t]));
                }
                assert(word_ok(j.jv()));
            }
            Some(Word { meanings, variants })
        },
        _ => None,
    }
}

/// Whether a value has the word-list shape.
pub open spec fn words_ok(v: JsonV) -> bool {
    v is Arr && forall|i: int| 0 <= i < v->Arr_0.len() ==> word_ok(#[trigger] v->Arr_0[i])
}

/// Whether the word list `ws` reads exactly the entries of `v`.
pub open spec fn words_match(ws: Seq<Word>, v: JsonV) -> bool {
    &&& words_ok(v)
    &&& ws.len() == v->Arr_0.len()
    &&& forall|i: int| 0 <= i < ws.len() ==> word_matches(#[trigger] ws[i], v->Arr_0[i])
}

/// Reads a parsed body as a list of words.
#[verifier::loop_isolation(false)]
pub fn words_from_json(j: &Json) -> (r: Option<Vec<Word>>)
    ensures
        match r {
            Some(ws) => words_match(ws@, j.jv()),
            None => !words_ok(j.jv()),
        },
{
    match j {
        Json::Arr(elems) => {
            proof {
                lemma_jv_seq(elems@);
                assert(j.jv() == JsonV::Arr(jv_seq(elems@)));
            }
            let ghost vs = jv_seq(elems@);
            let mut out: Vec<Word> = Vec::new();
            let mut i: usize = 0;
            while i < elems.len()
                invariant
                    vs == jv_seq(elems@),
                    vs.len() == elems@.len(),
                    forall|k: int| 0 <= k < elems@.len() ==> vs[k] == #[trigger] elems@[k].jv(),
                    i <= elems@.len(),
                    out@.len() == i,
                    forall|k: int| 0 <= k < i ==> word_matches(#[trigger] out@[k], vs[k]),
                decreases elems@.len() - i,
            {
                match word_from(&elems[i]) {
                    Some(w) => out.push(w),
                    None => {
                        proof {
                            assert(!word_ok(vs[i as int]));
                            if words_ok(j.jv()) {
                                assert(j.jv()->Arr_0 == vs);
                                assert(word_ok(vs[i as int]));
                            }
                        }
                        return None;
                    },
                }
                i = i + 1;
            }
            proof {
                assert forall|t: int| 0 <= t < vs.len() implies word_ok(#[trigger] vs[t]) by {
                    assert(word_matches(out@[t], vs[t]));
                }
                assert(words_ok(j.jv()));
            }
            Some(out)
        },
        _ => None,
    }
}

/// Whether a value has the character-list shape.
pub open spec fn chars_ok(v: JsonV) -> bool {
    v is Arr && all_strs(v->Arr_0)
}

/// Reads a parsed body as a list of strings.
pub fn chars_from_json(j: &Json) -> (r: Option<Vec<String>>)
    ensures
        match r {
            Some(cs) => chars_ok(j.jv()) && cs.deep_view() == strs_vals(j.jv()->Arr_0),
            None => !chars_ok(j.jv()),
        },
{
    match j {
        Json::Arr(elems) => strings_of_list(elems),
        _ => None,
    }
}

/// The shape a request variant demands of a successfully parsed body.
pub open spec fn expected_ok(request: KanjiResponse, v: JsonV) -> bool {
    match request {
        KanjiResponse::SingleKanji(_) => detail_ok(v),
        KanjiResponse::Words(_) => words_ok(v),
        _ => chars_ok(v),
    }
}

/// The tagged result a request variant and a parsed body determine.
pub open spec fn result_matches(request: KanjiResponse, v: JsonV, res: KanjiResult) -> bool {
    match request {
        KanjiResponse::SingleKanji(_) => res matches KanjiResult::KanjiDetail(d)
            && detail_matches(d, v),
        KanjiResponse::Words(_) => res matches KanjiResult::Words(ws) && words_match(ws@, v),
        _ => res matches KanjiResult::KanjiChars(cs) && chars_ok(v) && cs.deep_view()
            == strs_vals(v->Arr_0),
    }
}

/// Types a response body according to the request variant that produced it.
///
/// The body either parses as JSON and matches the variant's shape, in which
/// case the correspondingly tagged result is returned, or the call fails
/// with a `Deserialization` error; no other outcome exists.
pub fn parse_response(request: &KanjiResponse, body: &str) -> (r: Result<
    KanjiResult,
    KanjiError,
>)
    ensures
        match spec_json(body@) {
            None => r matches Err(KanjiError::Deserialization(m)) && m@
                == "malformed json body"@,
            Some(v) => if expected_ok(*request, v) {
                r matches Ok(res) && result_matches(*request, v, res)
            } else {
                r matches Err(KanjiError::Deserialization(m)) && m@
                    == "response body does not match the expected shape"@
            },
        },
{
    let cs = chars_of(body);
    match parse_json(&cs) {
        None => Err(KanjiError::Deserialization("malformed json body".to_owned())),
        Some(j) => {
            let shape_err = "response body does not match the expected shape";
            match request {
                KanjiResponse::SingleKanji(_) => match detail_from_json(&j) {
                    Some(d) => Ok(KanjiResult::KanjiDetail(d)),
                    None => Err(KanjiError::Deserialization(shape_err.to_owned())),
                },
                KanjiResponse::Words(_) => match words_from_json(&j) {
                    Some(ws) => Ok(KanjiResult::Words(ws)),
                    None => Err(KanjiError::Deserialization(shape_err.to_owned())),
                },
                _ => match chars_from_json(&j) {
                    Some(chars) => Ok(KanjiResult::KanjiChars(chars)),
                    None => Err(KanjiError::Deserialization(shape_err.to_owned())),
                },
            }
        },
    }
}

} // verus!
