//! Reading typed fields out of a parsed JSON value: object field lookup with
//! duplicate detection, integer literals, and lists of strings.

use crate::json::{is_digit, jv_members, lemma_jv_members, lemma_jv_seq, jv_seq, Json, JsonV};
use crate::text::string_of;
use vstd::prelude::*;
use vstd::string::StrSliceExecFns;

verus! {

/// How often `k` occurs as a key among `ms`.
pub open spec fn key_count(ms: Seq<(Seq<char>, JsonV)>, k: Seq<char>) -> nat
    decreases ms,
{
    if ms.len() == 0 {
        0
    } else {
        key_count(ms.drop_last(), k) + if ms.last().0 == k {
            1nat
        } else {
            0nat
        }
    }
}

/// The value under the first occurrence of key `k`, if any.
pub open spec fn field_of(ms: Seq<(Seq<char>, JsonV)>, k: Seq<char>) -> Option<JsonV>
    decreases ms,
{
    if ms.len() == 0 {
        None
    } else {
        match field_of(ms.drop_last(), k) {
            Some(v) => Some(v),
            None => if ms.last().0 == k {
                Some(ms.last().1)
            } else {
                None
            },
        }
    }
}

/// Whether `cs` spells exactly the characters of `name`.
fn key_is(cs: &Vec<char>, name: &str) -> (r: bool)
    ensures
        r == (cs@ == name@),
{
    let n = name.unicode_len();
    if cs.len() != n {
        return false;
    }
    let mut i: usize = 0;
    while i < n
        invariant
            n == name@.len(),
            cs@.len() == n,
            i <= n,
            forall|j: int| 0 <= j < i ==> cs@[j] == name@[j],
        decreases n - i,
    {
        if cs[i] != name.get_char(i) {
            return false;
        }
        i = i + 1;
    }
    proof {
        assert(cs@ =~= name@);
    }
    true
}

/// Finds the first member with key `name` and counts how often the key
/// occurs.
pub(crate) fn find_field(m: &Vec<(Vec<char>, Json)>, name: &str) -> (r: (Option<usize>, usize))
    ensures
        ({
            let ms = jv_members(m@);
            let k = name@;
            r.1 as nat == key_count(ms, k) && match r.0 {
                Some(x) => x < m@.len() && field_of(ms, k) == Some(m@[x as int].1.jv()),
                None => field_of(ms, k) is None,
            }
        }),
{
    proof {
        lemma_jv_members(m@);
    }
    let ghost ms = jv_members(m@);
    let ghost k = name@;
    let mut idx: Option<usize> = None;
    let mut cnt: usize = 0;
    let mut j: usize = 0;
    while j < m.len()
        invariant
            ms == jv_members(m@),
            k == name@,
            ms.len() == m@.len(),
            forall|i: int|
                0 <= i < m@.len() ==> ms[i] == ((#[trigger] m@[i]).0@, m@[i].1.jv()),
            j <= m@.len(),
            cnt as nat == key_count(ms.take(j as int), k),
            cnt <= j,
            match idx {
                Some(x) => x < j && field_of(ms.take(j as int), k) == Some(m@[x as int].1.jv()),
                None => field_of(ms.take(j as int), k) is None,
            },
        decreases m@.len() - j,
    {
        let hit = key_is(&m[j].0, name);
        proof {
            assert(ms.take(j + 1).drop_last() =~= ms.take(j as int));
            assert(ms.take(j + 1).last() == ms[j as int]);
        }
        if hit {
            cnt = cnt + 1;
            if idx.is_none() {
                idx = Some(j);
            }
        }
        j = j + 1;
    }
    proof {
        assert(ms.take(m@.len() as int) =~= ms);
    }
    (idx, cnt)
}

/// Whether every character of `s` is a decimal digit.
pub open spec fn all_digits(s: Seq<char>) -> bool {
    forall|i: int| 0 <= i < s.len() ==> is_digit(#[trigger] s[i])
}

/// The value of a digit string, most significant digit first.
pub open spec fn dec_val(s: Seq<char>) -> nat
    decreases s,
{
    if s.len() == 0 {
        0
    } else {
        dec_val(s.drop_last()) * 10 + (s.last() as u32 - 48) as nat
    }
}

/// The `u64` a number literal denotes: defined exactly for an unsigned
/// integer literal whose value fits.
pub open spec fn dec_u64_of(lit: Seq<char>) -> Option<u64> {
    if lit.len() > 0 && all_digits(lit) && dec_val(lit) <= u64::MAX {
        Some(dec_val(lit) as u64)
    } else {
        None
    }
}

proof fn lemma_dec_val_grows(s: Seq<char>, j: int)
    requires
        all_digits(s),
        0 <= j <= s.len(),
    ensures
        dec_val(s) >= dec_val(s.take(j)),
    decreases s.len() - j,
{
    if j == s.len() {
        assert(s.take(j) =~= s);
    } else {
        lemma_dec_val_grows(s, j + 1);
        assert(s.take(j + 1).drop_last() =~= s.take(j));
        assert(dec_val(s.take(j + 1)) >= dec_val(s.take(j)));
    }
}

/// Reads a number literal as a `u64`, refusing signs, fractions, exponents
/// and values that do not fit.
pub fn to_u64(lit: &Vec<char>) -> (r: Option<u64>)
    ensures
        r == dec_u64_of(lit@),
{
    if lit.len() == 0 {
        return None;
    }
    let mut acc: u64 = 0;
    let mut i: usize = 0;
    while i < lit.len()
        invariant
            i <= lit@.len(),
            all_digits(lit@.take(i as int)),
            acc as nat == dec_val(lit@.take(i as int)),
        decreases lit@.len() - i,
    {
        let c = lit[i];
        let u = c as u32;
        if !(48 <= u && u <= 57) {
            return None;
        }
        let d = (u - 48) as u64;
        proof {
            assert(lit@.take(i + 1).drop_last() =~= lit@.take(i as int));
            assert(lit@.take(i + 1).last() == lit@[i as int]);
        }
        if acc > (u64::MAX - d) / 10 {
            proof {
                assert(acc * 10 + d > u64::MAX) by (nonlinear_arith)
                    requires
                        acc > (u64::MAX - d) / 10,
                        d <= 9,
                ;
                if all_digits(lit@) {
                    lemma_dec_val_grows(lit@, i + 1);
                }
            }
            return None;
        }
        acc = acc * 10 + d;
        i = i + 1;
    }
    proof {
        assert(lit@.take(lit@.len() as int) =~= lit@);
    }
    Some(acc)
}

/// The `u8` a number literal denotes.
pub open spec fn dec_u8_of(lit: Seq<char>) -> Option<u8> {
    match dec_u64_of(lit) {
        Some(n) => if n <= 255 {
            Some(n as u8)
        } else {
            None
        },
        None => None,
    }
}

/// Reads a number literal as a `u8`.
pub fn to_u8(lit: &Vec<char>) -> (r: Option<u8>)
    ensures
        r == dec_u8_of(lit@),
{
    match to_u64(lit) {
        Some(n) => if n <= 255 {
            Some(n as u8)
        } else {
            None
        },
        None => None,
    }
}

/// Whether every element is a string value.
pub open spec fn all_strs(vs: Seq<JsonV>) -> bool {
    forall|i: int| 0 <= i < vs.len() ==> (#[trigger] vs[i]) is Str
}

/// The strings of a sequence of string values.
pub open spec fn strs_vals(vs: Seq<JsonV>) -> Seq<Seq<char>> {
    Seq::new(vs.len(), |i: int| vs[i]->Str_0)
}

/// Reads an array of string values into owned strings; `None` when some
/// element is not a string.
pub fn strings_of_list(elems: &Vec<Json>) -> (r: Option<Vec<String>>)
    ensures
        ({
            let vs = jv_seq(elems@);
            match r {
                Some(out) => all_strs(vs) && out.deep_view() == strs_vals(vs),
                None => !all_strs(vs),
            }
        }),
{
    proof {
        lemma_jv_seq(elems@);
    }
    let ghost vs = jv_seq(elems@);
    let mut out: Vec<String> = Vec::new();
    let mut i: usize = 0;
    while i < elems.len()
        invariant
            vs == jv_seq(elems@),
            vs.len() == elems@.len(),
            forall|j: int| 0 <= j < elems@.len() ==> vs[j] == #[trigger] elems@[j].jv(),
            i <= elems@.len(),
            out@.len() == i,
            forall|j: int| 0 <= j < i ==> (#[trigger] vs[j]) is Str,
            forall|j: int| 0 <= j < i ==> (#[trigger] out@[j])@ == vs[j]->Str_0,
        decreases elems@.len() - i,
    {
        match &elems[i] {
            Json::Str(cs) => {
                proof {
                    assert(vs[i as int] == elems@[i as int].jv());
                    assert(vs[i as int] is Str && vs[i as int]->Str_0 == cs@);
                }
                out.push(string_of(cs));
            },
            _ => {
                proof {
                    assert(vs[i as int] == elems@[i as int].jv());
                    assert(!(vs[i as int] is Str));
                }
                return None;
            },
        }
        i = i + 1;
    }
    proof {
        assert(out.deep_view() =~= strs_vals(vs));
    }
    Some(out)
}

/// A mandatory string field: present exactly once and a string.
pub open spec fn req_str_of(ms: Seq<(Seq<char>, JsonV)>, k: Seq<char>) -> Option<Seq<char>> {
    if key_count(ms, k) != 1 {
        None
    } else {
        match field_of(ms, k) {
            Some(JsonV::Str(t)) => Some(t),
            _ => None,
        }
    }
}

/// A nullable string field: absent or `null` reads as `None`.
pub open spec fn opt_str_of(ms: Seq<(Seq<char>, JsonV)>, k: Seq<char>) -> Option<
    Option<Seq<char>>,
> {
    if key_count(ms, k) > 1 {
        None
    } else {
        match field_of(ms, k) {
            None => Some(None),
            Some(JsonV::Null) => Some(None),
            Some(JsonV::Str(t)) => Some(Some(t)),
            _ => None,
        }
    }
}

/// A nullable unsigned integer field.
pub open spec fn opt_u64_of(ms: Seq<(Seq<char>, JsonV)>, k: Seq<char>) -> Option<Option<u64>> {
    if key_count(ms, k) > 1 {
        None
    } else {
        match field_of(ms, k) {
            None => Some(None),
            Some(JsonV::Null) => Some(None),
            Some(JsonV::Num(l)) => match dec_u64_of(l) {
                Some(n) => Some(Some(n)),
                None => None,
            },
            _ => None,
        }
    }
}

/// A nullable unsigned byte-sized integer field.
pub open spec fn opt_u8_of(ms: Seq<(Seq<char>, JsonV)>, k: Seq<char>) -> Option<Option<u8>> {
    if key_count(ms, k) > 1 {
        None
    } else {
        match field_of(ms, k) {
            None => Some(None),
            Some(JsonV::Null) => Some(None),
            Some(JsonV::Num(l)) => match dec_u8_of(l) {
                Some(n) => Some(Some(n)),
                None => None,
            },
            _ => None,
        }
    }
}

/// A mandatory byte-sized integer field.
pub open spec fn req_u8_of(ms: Seq<(Seq<char>, JsonV)>, k: Seq<char>) -> Option<u8> {
    if key_count(ms, k) != 1 {
        None
    } else {
        match field_of(ms, k) {
            Some(JsonV::Num(l)) => dec_u8_of(l),
            _ => None,
        }
    }
}

/// A list-of-strings field that defaults to the empty list when absent.
pub open spec fn list_str_of(ms: Seq<(Seq<char>, JsonV)>, k: Seq<char>) -> Option<
    Seq<Seq<char>>,
> {
    if key_count(ms, k) > 1 {
        None
    } else {
        match field_of(ms, k) {
            None => Some(Seq::empty()),
            Some(JsonV::Arr(vs)) => if all_strs(vs) {
                Some(strs_vals(vs))
            } else {
                None
            },
            _ => None,
        }
    }
}

/// A mandatory list-of-strings field.
pub open spec fn req_list_of(ms: Seq<(Seq<char>, JsonV)>, k: Seq<char>) -> Option<
    Seq<Seq<char>>,
> {
    if key_count(ms, k) != 1 {
        None
    } else {
        match field_of(ms, k) {
            Some(JsonV::Arr(vs)) => if all_strs(vs) {
                Some(strs_vals(vs))
            } else {
                None
            },
            _ => None,
        }
    }
}

/// A mandatory array field, handed back as the member's elements.
pub open spec fn arr_field_of(ms: Seq<(Seq<char>, JsonV)>, k: Seq<char>) -> Option<Seq<JsonV>> {
    if key_count(ms, k) != 1 {
        None
    } else {
        match field_of(ms, k) {
            Some(JsonV::Arr(vs)) => Some(vs),
            _ => None,
        }
    }
}

pub fn get_req_str(m: &Vec<(Vec<char>, Json)>, name: &str) -> (r: Option<String>)
    ensures
        match (r, req_str_of(jv_members(m@), name@)) {
            (None, None) => true,
            (Some(s), Some(t)) => s@ == t,
            _ => false,
        },
{
    let (idx, cnt) = find_field(m, name);
    if cnt != 1 {
        return None;
    }
    match idx {
        Some(x) => match &m[x].1 {
            Json::Str(cs) => Some(string_of(cs)),
            _ => None,
        },
        None => None,
    }
}

pub fn get_opt_str(m: &Vec<(Vec<char>, Json)>, name: &str) -> (r: Option<Option<String>>)
    ensures
        match (r, opt_str_of(jv_members(m@), name@)) {
            (None, None) => true,
            (Some(None), Some(None)) => true,
            (Some(Some(s)), Some(Some(t))) => s@ == t,
            _ => false,
        },
{
    let (idx, cnt) = find_field(m, name);
    if cnt > 1 {
        return None;
    }
    match idx {
        None => Some(None),
        Some(x) => match &m[x].1 {
            Json::Null => Some(None),
            Json::Str(cs) => Some(Some(string_of(cs))),
            _ => None,
        },
    }
}

pub fn get_opt_u64(m: &Vec<(Vec<char>, Json)>, name: &str) -> (r: Option<Option<u64>>)
    ensures
        r == opt_u64_of(jv_members(m@), name@),
{
    let (idx, cnt) = find_field(m, name);
    if cnt > 1 {
        return None;
    }
    match idx {
        None => Some(None),
        Some(x) => match &m[x].1 {
            Json::Null => Some(None),
            Json::Num(l) => match to_u64(l) {
                Some(n) => Some(Some(n)),
                None => None,
            },
            _ => None,
        },
    }
}

pub fn get_opt_u8(m: &Vec<(Vec<char>, Json)>, name: &str) -> (r: Option<Option<u8>>)
    ensures
        r == opt_u8_of(jv_members(m@), name@),
{
    let (idx, cnt) = find_field(m, name);
    if cnt > 1 {
        return None;
    }
    match idx {
        None => Some(None),
        Some(x) => match &m[x].1 {
            Json::Null => Some(None),
            Json::Num(l) => match to_u8(l) {
                Some(n) => Some(Some(n)),
                None => None,
            },
            _ => None,
        },
    }
}

pub fn get_req_u8(m: &Vec<(Vec<char>, Json)>, name: &str) -> (r: Option<u8>)
    ensures
        r == req_u8_of(jv_members(m@), name@),
{
    let (idx, cnt) = find_field(m, name);
    if cnt != 1 {
        return None;
    }
    match idx {
        Some(x) => match &m[x].1 {
            Json::Num(l) => to_u8(l),
            _ => None,
        },
        None => None,
    }
}

pub fn get_list_str(m: &Vec<(Vec<char>, Json)>, name: &str) -> (r: Option<Vec<String>>)
    ensures
        match (r, list_str_of(jv_members(m@), name@)) {
            (None, None) => true,
            (Some(out), Some(t)) => out.deep_view() == t,
            _ => false,
        },
{
    let (idx, cnt) = find_field(m, name);
    if cnt > 1 {
        return None;
    }
    match idx {
        None => {
            let out: Vec<String> = Vec::new();
            proof {
                assert(out.deep_view() =~= Seq::<Seq<char>>::empty());
            }
            Some(out)
        },
        Some(x) => match &m[x].1 {
            Json::Arr(elems) => strings_of_list(elems),
            _ => None,
        },
    }
}

pub fn get_req_list(m: &Vec<(Vec<char>, Json)>, name: &str) -> (r: Option<Vec<String>>)
    ensures
        match (r, req_list_of(jv_members(m@), name@)) {
            (None, None) => true,
            (Some(out), Some(t)) => out.deep_view() == t,
            _ => false,
        },
{
    let (idx, cnt) = find_field(m, name);
    if cnt != 1 {
        return None;
    }
    match idx {
        Some(x) => match &m[x].1 {
            Json::Arr(elems) => strings_of_list(elems),
            _ => None,
        },
        None => None,
    }
}

} // verus!
