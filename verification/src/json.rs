//! The JSON wire format the service answers with, as the library's own model:
//! a parsed value tree, a functional specification of the grammar, and an
//! executable parser proved equal to it.
//!
//! The grammar is standard JSON: a `\u` escape denotes a Unicode scalar
//! value or opens a surrogate pair, and an unpaired surrogate is rejected.
//! Number literals are kept as their source text; nothing is computed from
//! them until a caller asks for an integer.

use crate::text::is_unicode_scalar;
use vstd::prelude::*;

verus! {

/// A parsed JSON value.
pub enum Json {
    Null,
    Bool(bool),
    /// A number, kept as the literal characters it was written with.
    Num(Vec<char>),
    Str(Vec<char>),
    Arr(Vec<Json>),
    /// Members in source order; duplicate keys are kept as written.
    Obj(Vec<(Vec<char>, Json)>),
}

/// The mathematical shape of a parsed JSON value.
pub enum JsonV {
    Null,
    Bool(bool),
    Num(Seq<char>),
    Str(Seq<char>),
    Arr(Seq<JsonV>),
    Obj(Seq<(Seq<char>, JsonV)>),
}

impl Json {
    /// The abstract value a `Json` stands for.
    pub open spec fn jv(self) -> JsonV
        decreases self,
    {
        match self {
            Json::Null => JsonV::Null,
            Json::Bool(b) => JsonV::Bool(b),
            Json::Num(l) => JsonV::Num(l@),
            Json::Str(t) => JsonV::Str(t@),
            Json::Arr(v) => JsonV::Arr(jv_seq(v@)),
            Json::Obj(m) => JsonV::Obj(jv_members(m@)),
        }
    }
}

/// The abstract values of a sequence of parsed JSON values.
pub open spec fn jv_seq(s: Seq<Json>) -> Seq<JsonV>
    decreases s,
{
    if s.len() == 0 {
        Seq::empty()
    } else {
        seq![s[0].jv()] + jv_seq(s.drop_first())
    }
}

/// The abstract values of a sequence of parsed object members.
pub open spec fn jv_members(s: Seq<(Vec<char>, Json)>) -> Seq<(Seq<char>, JsonV)>
    decreases s,
{
    if s.len() == 0 {
        Seq::empty()
    } else {
        seq![(s[0].0@, s[0].1.jv())] + jv_members(s.drop_first())
    }
}

pub proof fn lemma_jv_seq(s: Seq<Json>)
    ensures
        jv_seq(s).len() == s.len(),
        forall|i: int| 0 <= i < s.len() ==> jv_seq(s)[i] == #[trigger] s[i].jv(),
    decreases s,
{
    if s.len() > 0 {
        lemma_jv_seq(s.drop_first());
        assert forall|i: int| 0 <= i < s.len() implies jv_seq(s)[i] == #[trigger] s[i].jv() by {
            if i > 0 {
                assert(jv_seq(s)[i] == jv_seq(s.drop_first())[i - 1]);
                assert(s.drop_first()[i - 1] == s[i]);
            }
        }
    }
}

pub proof fn lemma_jv_members(s: Seq<(Vec<char>, Json)>)
    ensures
        jv_members(s).len() == s.len(),
        forall|i: int|
            0 <= i < s.len() ==> jv_members(s)[i] == ((#[trigger] s[i]).0@, s[i].1.jv()),
    decreases s,
{
    if s.len() > 0 {
        lemma_jv_members(s.drop_first());
        assert forall|i: int|
            0 <= i < s.len() implies jv_members(s)[i] == ((#[trigger] s[i]).0@, s[i].1.jv()) by {
            if i > 0 {
                assert(jv_members(s)[i] == jv_members(s.drop_first())[i - 1]);
                assert(s.drop_first()[i - 1] == s[i]);
            }
        }
    }
}

/// JSON insignificant whitespace.
pub open spec fn is_ws(c: char) -> bool {
    c == ' ' || c == '\t' || c == '\n' || c == '\r'
}

/// A decimal digit.
pub open spec fn is_digit(c: char) -> bool {
    48 <= c as u32 && c as u32 <= 57
}

/// The end of the whitespace run starting at `i`.
pub open spec fn ws_end(s: Seq<char>, i: int) -> int
    decreases s.len() - i,
{
    if 0 <= i && i < s.len() && is_ws(s[i]) {
        ws_end(s, i + 1)
    } else {
        i
    }
}

/// The end of the digit run starting at `i`.
pub open spec fn digits_end(s: Seq<char>, i: int) -> int
    decreases s.len() - i,
{
    if 0 <= i && i < s.len() && is_digit(s[i]) {
        digits_end(s, i + 1)
    } else {
        i
    }
}

/// The value of a hexadecimal digit.
pub open spec fn hex_val(c: char) -> Option<u32> {
    let u = c as u32;
    if 48 <= u && u <= 57 {
        Some((u - 48) as u32)
    } else if 97 <= u && u <= 102 {
        Some((u - 87) as u32)
    } else if 65 <= u && u <= 70 {
        Some((u - 55) as u32)
    } else {
        None
    }
}

/// The character a single-character escape stands for.
pub open spec fn esc_char(c: char) -> Option<char> {
    if c == '"' {
        Some('"')
    } else if c == '\\' {
        Some('\\')
    } else if c == '/' {
        Some('/')
    } else if c == 'b' {
        Some('\u{8}')
    } else if c == 'f' {
        Some('\u{c}')
    } else if c == 'n' {
        Some('\n')
    } else if c == 'r' {
        Some('\r')
    } else if c == 't' {
        Some('\t')
    } else {
        None
    }
}

/// Whether the four characters at `i` are hexadecimal digits.
pub open spec fn hex4_ok(s: Seq<char>, i: int) -> bool {
    hex_val(s[i]) is Some && hex_val(s[i + 1]) is Some && hex_val(s[i + 2]) is Some && hex_val(
        s[i + 3],
    ) is Some
}

/// The value of the four hexadecimal digits at `i`.
pub open spec fn hex4_val(s: Seq<char>, i: int) -> u32 {
    (hex_val(s[i])->Some_0 * 4096 + hex_val(s[i + 1])->Some_0 * 256 + hex_val(s[i + 2])->Some_0
        * 16 + hex_val(s[i + 3])->Some_0) as u32
}

/// The character a surrogate pair of `\u` escapes denotes.
pub open spec fn pair_char(hi: u32, lo: u32) -> char {
    ((0x10000 + (hi - 0xD800) * 0x400 + (lo - 0xDC00)) as u32) as char
}

/// Parses the body of a string literal starting at `i`, just past the opening
/// quote, up to and including the closing quote.  Returns the denoted
/// characters and the position after the closing quote.  A `\u` escape must
/// denote a Unicode scalar value or open a surrogate pair whose second half
/// follows at once.
pub open spec fn spec_string(s: Seq<char>, i: int) -> Option<(Seq<char>, int)>
    decreases s.len() - i,
{
    if !(0 <= i && i < s.len()) {
        None
    } else if s[i] == '"' {
        Some((Seq::empty(), i + 1))
    } else if s[i] == '\\' {
        if i + 1 < s.len() && s[i + 1] == 'u' {
            if i + 5 < s.len() && hex4_ok(s, i + 2) && is_unicode_scalar(hex4_val(s, i + 2)) {
                match spec_string(s, i + 6) {
                    Some(p) => Some((seq![hex4_val(s, i + 2) as char] + p.0, p.1)),
                    None => None,
                }
            } else if i + 5 < s.len() && hex4_ok(s, i + 2) && hex4_val(s, i + 2) < 0xDC00 && i + 11
                < s.len() && s[i + 6] == '\\' && s[i + 7] == 'u' && hex4_ok(s, i + 8) && 0xDC00
                <= hex4_val(s, i + 8) && hex4_val(s, i + 8) < 0xE000 {
                match spec_string(s, i + 12) {
                    Some(p) => Some(
                        (seq![pair_char(hex4_val(s, i + 2), hex4_val(s, i + 8))] + p.0, p.1),
                    ),
                    None => None,
                }
            } else {
                None
            }
        } else if i + 1 < s.len() && esc_char(s[i + 1]) is Some {
            match spec_string(s, i + 2) {
                Some(p) => Some((seq![esc_char(s[i + 1])->Some_0] + p.0, p.1)),
                None => None,
            }
        } else {
            None
        }
    } else if (s[i] as u32) < 32 {
        None
    } else {
        match spec_string(s, i + 1) {
            Some(p) => Some((seq![s[i]] + p.0, p.1)),
            None => None,
        }
    }
}

/// Parses a number literal starting at `i`.  Returns the literal characters
/// and the position after them.
pub open spec fn spec_number(s: Seq<char>, i: int) -> Option<(Seq<char>, int)> {
    let j0: int = if 0 <= i && i < s.len() && s[i] == '-' {
        i + 1
    } else {
        i
    };
    if !(0 <= j0 && j0 < s.len() && is_digit(s[j0])) {
        None
    } else {
        let ie: int = if s[j0] == '0' {
            j0 + 1
        } else {
            digits_end(s, j0)
        };
        let fe: int = if ie < s.len() && s[ie] == '.' {
            if digits_end(s, ie + 1) > ie + 1 {
                digits_end(s, ie + 1)
            } else {
                -1
            }
        } else {
            ie
        };
        if fe < 0 {
            None
        } else {
            let ee: int = if fe < s.len() && (s[fe] == 'e' || s[fe] == 'E') {
                let es: int = if fe + 1 < s.len() && (s[fe + 1] == '+' || s[fe + 1] == '-') {
                    fe + 2
                } else {
                    fe + 1
                };
                if digits_end(s, es) > es {
                    digits_end(s, es)
                } else {
                    -1
                }
            } else {
                fe
            };
            if ee < 0 {
                None
            } else {
                Some((s.subrange(i, ee), ee))
            }
        }
    }
}

/// Clamps a position computed by a sub-parse into `(i, s.len()]`, so that
/// every recursive call stands at a strictly later position and the parse
/// functions terminate.  A successful sub-parse always returns a position in
/// that range (`lemma_value_progress` and its companions), so the guard
/// branches are identities on every reachable input.
pub open spec fn clamp_pos(s: Seq<char>, i: int, j: int) -> int {
    if i < j && j <= s.len() {
        j
    } else if i + 1 <= s.len() {
        i + 1
    } else {
        s.len() as int
    }
}

/// Parses a JSON value starting exactly at `i`.
pub open spec fn spec_value(s: Seq<char>, i: int) -> Option<(JsonV, int)>
    decreases s.len() - i, 1int,
{
    if !(0 <= i && i < s.len()) {
        None
    } else {
        let c = s[i];
        if c == '"' {
            match spec_string(s, i + 1) {
                Some(p) => Some((JsonV::Str(p.0), p.1)),
                None => None,
            }
        } else if c == '[' {
            let j: int = clamp_pos(s, i, ws_end(s, i + 1));
            if j < s.len() && s[j] == ']' {
                Some((JsonV::Arr(Seq::empty()), j + 1))
            } else {
                match spec_items(s, j) {
                    Some(p) => Some((JsonV::Arr(p.0), p.1)),
                    None => None,
                }
            }
        } else if c == '{' {
            let j: int = clamp_pos(s, i, ws_end(s, i + 1));
            if j < s.len() && s[j] == '}' {
                Some((JsonV::Obj(Seq::empty()), j + 1))
            } else {
                match spec_members(s, j) {
                    Some(p) => Some((JsonV::Obj(p.0), p.1)),
                    None => None,
                }
            }
        } else if c == 't' {
            if i + 3 < s.len() && s[i + 1] == 'r' && s[i + 2] == 'u' && s[i + 3] == 'e' {
                Some((JsonV::Bool(true), i + 4))
            } else {
                None
            }
        } else if c == 'f' {
            if i + 4 < s.len() && s[i + 1] == 'a' && s[i + 2] == 'l' && s[i + 3] == 's' && s[i + 4]
                == 'e' {
                Some((JsonV::Bool(false), i + 5))
            } else {
                None
            }
        } else if c == 'n' {
            if i + 3 < s.len() && s[i + 1] == 'u' && s[i + 2] == 'l' && s[i + 3] == 'l' {
                Some((JsonV::Null, i + 4))
            } else {
                None
            }
        } else if c == '-' || is_digit(c) {
            match spec_number(s, i) {
                Some(p) => Some((JsonV::Num(p.0), p.1)),
                None => None,
            }
        } else {
            None
        }
    }
}

/// Parses the elements of a non-empty array starting at the first element,
/// up to and including the closing bracket.
pub open spec fn spec_items(s: Seq<char>, i: int) -> Option<(Seq<JsonV>, int)>
    decreases s.len() - i, 2int,
{
    if !(0 <= i && i < s.len()) {
        None
    } else {
        match spec_value(s, i) {
            None => None,
            Some(p) => {
                let j: int = clamp_pos(s, i, ws_end(s, p.1));
                if j < s.len() && s[j] == ',' {
                    match spec_items(s, clamp_pos(s, i, ws_end(s, j + 1))) {
                        Some(q) => Some((seq![p.0] + q.0, q.1)),
                        None => None,
                    }
                } else if j < s.len() && s[j] == ']' {
                    Some((seq![p.0], j + 1))
                } else {
                    None
                }
            },
        }
    }
}

/// Parses the members of a non-empty object starting at the first key,
/// up to and including the closing brace.
pub open spec fn spec_members(s: Seq<char>, i: int) -> Option<(Seq<(Seq<char>, JsonV)>, int)>
    decreases s.len() - i, 2int,
{
    if !(0 <= i && i < s.len() && s[i] == '"') {
        None
    } else {
        match spec_string(s, i + 1) {
            None => None,
            Some(k) => {
                let j: int = clamp_pos(s, i, ws_end(s, k.1));
                if j < s.len() && s[j] == ':' {
                    let v0: int = clamp_pos(s, i, ws_end(s, j + 1));
                    match spec_value(s, v0) {
                        None => None,
                        Some(p) => {
                            let l: int = clamp_pos(s, i, ws_end(s, p.1));
                            if l < s.len() && s[l] == ',' {
                                match spec_members(s, clamp_pos(s, i, ws_end(s, l + 1))) {
                                    Some(q) => Some((seq![(k.0, p.0)] + q.0, q.1)),
                                    None => None,
                                }
                            } else if l < s.len() && s[l] == '}' {
                                Some((seq![(k.0, p.0)], l + 1))
                            } else {
                                None
                            }
                        },
                    }
                } else {
                    None
                }
            },
        }
    }
}

/// Parses a complete body: one JSON value, possibly surrounded by
/// whitespace, with nothing after it.
pub open spec fn spec_json(s: Seq<char>) -> Option<JsonV> {
    match spec_value(s, ws_end(s, 0)) {
        None => None,
        Some(p) => {
            if ws_end(s, p.1) == s.len() {
                Some(p.0)
            } else {
                None
            }
        },
    }
}

/// Whitespace skipping never moves backwards and never past the end.
pub proof fn lemma_ws_end(s: Seq<char>, i: int)
    ensures
        i <= ws_end(s, i),
        i <= s.len() ==> ws_end(s, i) <= s.len(),
    decreases s.len() - i,
{
    if 0 <= i && i < s.len() && is_ws(s[i]) {
        lemma_ws_end(s, i + 1);
    }
}

/// Digit scanning never moves backwards and never past the end.
pub proof fn lemma_digits_end(s: Seq<char>, i: int)
    ensures
        i <= digits_end(s, i),
        i <= s.len() ==> digits_end(s, i) <= s.len(),
    decreases s.len() - i,
{
    if 0 <= i && i < s.len() && is_digit(s[i]) {
        lemma_digits_end(s, i + 1);
    }
}

/// A successful string parse consumes at least one character and stops
/// within the input.
pub proof fn lemma_string_progress(s: Seq<char>, i: int)
    ensures
        spec_string(s, i) matches Some(p) ==> i < p.1 <= s.len(),
    decreases s.len() - i,
{
    if 0 <= i && i < s.len() {
        if s[i] == '"' {
        } else if s[i] == '\\' {
            if i + 1 < s.len() && s[i + 1] == 'u' {
                if i + 5 < s.len() && hex4_ok(s, i + 2) && is_unicode_scalar(hex4_val(s, i + 2)) {
                    lemma_string_progress(s, i + 6);
                } else if i + 11 < s.len() {
                    lemma_string_progress(s, i + 12);
                }
            } else if i + 1 < s.len() && esc_char(s[i + 1]) is Some {
                lemma_string_progress(s, i + 2);
            }
        } else if (s[i] as u32) < 32 {
        } else {
            lemma_string_progress(s, i + 1);
        }
    }
}

/// A successful number parse consumes at least one character and stops
/// within the input.
pub proof fn lemma_number_progress(s: Seq<char>, i: int)
    ensures
        spec_number(s, i) matches Some(p) ==> i < p.1 <= s.len(),
{
    let j0: int = if 0 <= i && i < s.len() && s[i] == '-' {
        i + 1
    } else {
        i
    };
    if 0 <= j0 && j0 < s.len() && is_digit(s[j0]) {
        lemma_digits_end(s, j0);
        lemma_digits_end(s, j0 + 1);
        let ie: int = if s[j0] == '0' {
            j0 + 1
        } else {
            digits_end(s, j0)
        };
        lemma_digits_end(s, ie + 1);
        let fe: int = if ie < s.len() && s[ie] == '.' {
            if digits_end(s, ie + 1) > ie + 1 {
                digits_end(s, ie + 1)
            } else {
                -1
            }
        } else {
            ie
        };
        if fe >= 0 {
            lemma_digits_end(s, fe + 1);
            lemma_digits_end(s, fe + 2);
        }
    }
}

/// A successful value parse consumes at least one character and stops
/// within the input, so the `clamp_pos` guards never alter a position.
pub proof fn lemma_value_progress(s: Seq<char>, i: int)
    ensures
        spec_value(s, i) matches Some(p) ==> i < p.1 <= s.len(),
    decreases s.len() - i, 1int,
{
    if 0 <= i && i < s.len() {
        let c = s[i];
        if c == '"' {
            lemma_string_progress(s, i + 1);
        } else if c == '[' {
            lemma_ws_end(s, i + 1);
            let j: int = clamp_pos(s, i, ws_end(s, i + 1));
            if !(j < s.len() && s[j] == ']') {
                lemma_items_progress(s, j);
            }
        } else if c == '{' {
            lemma_ws_end(s, i + 1);
            let j: int = clamp_pos(s, i, ws_end(s, i + 1));
            if !(j < s.len() && s[j] == '}') {
                lemma_members_progress(s, j);
            }
        } else if c == '-' || is_digit(c) {
            lemma_number_progress(s, i);
        }
    }
}

/// A successful element-list parse consumes at least one character and stops
/// within the input.
pub proof fn lemma_items_progress(s: Seq<char>, i: int)
    ensures
        spec_items(s, i) matches Some(p) ==> i < p.1 <= s.len(),
    decreases s.len() - i, 2int,
{
    if 0 <= i && i < s.len() {
        lemma_value_progress(s, i);
        match spec_value(s, i) {
            None => {},
            Some(p) => {
                lemma_ws_end(s, p.1);
                let j: int = clamp_pos(s, i, ws_end(s, p.1));
                if j < s.len() && s[j] == ',' {
                    lemma_ws_end(s, j + 1);
                    lemma_items_progress(s, clamp_pos(s, i, ws_end(s, j + 1)));
                }
            },
        }
    }
}

/// A successful member-list parse consumes at least one character and stops
/// within the input.
pub proof fn lemma_members_progress(s: Seq<char>, i: int)
    ensures
        spec_members(s, i) matches Some(p) ==> i < p.1 <= s.len(),
    decreases s.len() - i, 2int,
{
    if 0 <= i && i < s.len() && s[i] == '"' {
        lemma_string_progress(s, i + 1);
        match spec_string(s, i + 1) {
            None => {},
            Some(k) => {
                lemma_ws_end(s, k.1);
                let j: int = clamp_pos(s, i, ws_end(s, k.1));
                if j < s.len() && s[j] == ':' {
                    lemma_ws_end(s, j + 1);
                    let v0: int = clamp_pos(s, i, ws_end(s, j + 1));
                    lemma_value_progress(s, v0);
                    match spec_value(s, v0) {
                        None => {},
                        Some(p) => {
                            lemma_ws_end(s, p.1);
                            let l: int = clamp_pos(s, i, ws_end(s, p.1));
                            if l < s.len() && s[l] == ',' {
                                lemma_ws_end(s, l + 1);
                                lemma_members_progress(s, clamp_pos(s, i, ws_end(s, l + 1)));
                            }
                        },
                    }
                }
            },
        }
    }
}

/// Correspondence between an executable character-list parse and its
/// specification.
pub open spec fn chars_match(r: Option<(Vec<char>, usize)>, o: Option<(Seq<char>, int)>) -> bool {
    match (r, o) {
        (None, None) => true,
        (Some(p), Some(q)) => p.0@ == q.0 && p.1 as int == q.1,
        _ => false,
    }
}

/// Correspondence between an executable value parse and its specification.
pub open spec fn value_match(r: Option<(Json, usize)>, o: Option<(JsonV, int)>) -> bool {
    match (r, o) {
        (None, None) => true,
        (Some(p), Some(q)) => p.0.jv() == q.0 && p.1 as int == q.1,
        _ => false,
    }
}

/// Correspondence between an executable element-list parse and its
/// specification.
pub open spec fn items_match(r: Option<(Vec<Json>, usize)>, o: Option<(Seq<JsonV>, int)>) -> bool {
    match (r, o) {
        (None, None) => true,
        (Some(p), Some(q)) => jv_seq(p.0@) == q.0 && p.1 as int == q.1,
        _ => false,
    }
}

/// Correspondence between an executable member-list parse and its
/// specification.
pub open spec fn members_match(
    r: Option<(Vec<(Vec<char>, Json)>, usize)>,
    o: Option<(Seq<(Seq<char>, JsonV)>, int)>,
) -> bool {
    match (r, o) {
        (None, None) => true,
        (Some(p), Some(q)) => jv_members(p.0@) == q.0 && p.1 as int == q.1,
        _ => false,
    }
}

fn is_digit_x(c: char) -> (r: bool)
    ensures
        r == is_digit(c),
{
    let u = c as u32;
    48 <= u && u <= 57
}

fn ws_end_x(s: &Vec<char>, i: usize) -> (r: usize)
    ensures
        r as int == ws_end(s@, i as int),
        i <= r,
        i <= s@.len() ==> r <= s@.len(),
    decreases s@.len() - i,
{
    if i < s.len() && (s[i] == ' ' || s[i] == '\t' || s[i] == '\n' || s[i] == '\r') {
        ws_end_x(s, i + 1)
    } else {
        i
    }
}

fn digits_end_x(s: &Vec<char>, i: usize) -> (r: usize)
    ensures
        r as int == digits_end(s@, i as int),
        i <= r,
        i <= s@.len() ==> r <= s@.len(),
    decreases s@.len() - i,
{
    if i < s.len() && is_digit_x(s[i]) {
        digits_end_x(s, i + 1)
    } else {
        i
    }
}

fn hex_val_x(c: char) -> (r: Option<u32>)
    ensures
        r == hex_val(c),
{
    let u = c as u32;
    if 48 <= u && u <= 57 {
        Some(u - 48)
    } else if 97 <= u && u <= 102 {
        Some(u - 87)
    } else if 65 <= u && u <= 70 {
        Some(u - 55)
    } else {
        None
    }
}

fn hex4_x(s: &Vec<char>, i: usize) -> (r: Option<u32>)
    requires
        i + 4 <= s@.len(),
    ensures
        r is Some <==> hex4_ok(s@, i as int),
        r matches Some(u) ==> u == hex4_val(s@, i as int),
{
    // The length call bounds the indices below for the verifier.
    let _n = s.len();
    match (hex_val_x(s[i]), hex_val_x(s[i + 1]), hex_val_x(s[i + 2]), hex_val_x(s[i + 3])) {
        (Some(a), Some(b), Some(c), Some(d)) => Some(a * 4096 + b * 256 + c * 16 + d),
        _ => None,
    }
}

fn esc_char_x(c: char) -> (r: Option<char>)
    ensures
        r == esc_char(c),
{
    if c == '"' {
        Some('"')
    } else if c == '\\' {
        Some('\\')
    } else if c == '/' {
        Some('/')
    } else if c == 'b' {
        Some('\u{8}')
    } else if c == 'f' {
        Some('\u{c}')
    } else if c == 'n' {
        Some('\n')
    } else if c == 'r' {
        Some('\r')
    } else if c == 't' {
        Some('\t')
    } else {
        None
    }
}

fn copy_range(s: &Vec<char>, a: usize, b: usize) -> (r: Vec<char>)
    requires
        a <= b <= s@.len(),
    ensures
        r@ == s@.subrange(a as int, b as int),
{
    let mut r: Vec<char> = Vec::new();
    let mut i: usize = a;
    while i < b
        invariant
            a <= i <= b <= s@.len(),
            r@ == s@.subrange(a as int, i as int),
        decreases b - i,
    {
        r.push(s[i]);
        i = i + 1;
        proof {
            assert(r@ =~= s@.subrange(a as int, i as int));
        }
    }
    r
}

fn parse_string_x(s: &Vec<char>, i: usize) -> (r: Option<(Vec<char>, usize)>)
    ensures
        chars_match(r, spec_string(s@, i as int)),
    decreases s@.len() - i,
{
    if i >= s.len() {
        return None;
    }
    let c = s[i];
    if c == '"' {
        Some((Vec::new(), i + 1))
    } else if c == '\\' {
        if s.len() - i > 1 && s[i + 1] == 'u' {
            if s.len() - i > 5 {
                match hex4_x(s, i + 2) {
                    Some(u) => {
                        if u < 0xD800 || (0xE000 <= u && u <= 0x10FFFF) {
                            match char::from_u32(u) {
                                Some(ch) => {
                                    proof {
                                        vstd::utf8::char_u32_cast(ch, u);
                                    }
                                    match parse_string_x(s, i + 6) {
                                        Some(p) => {
                                            let mut v = p.0;
                                            let ghost rest = v@;
                                            v.insert(0, ch);
                                            proof {
                                                assert(v@ =~= seq![ch] + rest);
                                            }
                                            Some((v, p.1))
                                        },
                                        None => None,
                                    }
                                },
                                None => None,
                            }
                        } else if u < 0xDC00 && s.len() - i > 11 && s[i + 6] == '\\' && s[i + 7]
                            == 'u' {
                            match hex4_x(s, i + 8) {
                                Some(u2) => {
                                    if 0xDC00 <= u2 && u2 < 0xE000 {
                                        let code: u32 = 0x10000 + (u - 0xD800) * 0x400 + (u2
                                            - 0xDC00);
                                        match char::from_u32(code) {
                                            Some(ch) => {
                                                proof {
                                                    vstd::utf8::char_u32_cast(ch, code);
                                                }
                                                match parse_string_x(s, i + 12) {
                                                    Some(p) => {
                                                        let mut v = p.0;
                                                        let ghost rest = v@;
                                                        v.insert(0, ch);
                                                        proof {
                                                            assert(v@ =~= seq![ch] + rest);
                                                        }
                                                        Some((v, p.1))
                                                    },
                                                    None => None,
                                                }
                                            },
                                            None => None,
                                        }
                                    } else {
                                        None
                                    }
                                },
                                None => None,
                            }
                        } else {
                            None
                        }
                    },
                    None => None,
                }
            } else {
                None
            }
        } else if s.len() - i > 1 {
            match esc_char_x(s[i + 1]) {
                Some(ch) => match parse_string_x(s, i + 2) {
                    Some(p) => {
                        let mut v = p.0;
                        let ghost rest = v@;
                        v.insert(0, ch);
                        proof {
                            assert(v@ =~= seq![ch] + rest);
                        }
                        Some((v, p.1))
                    },
                    None => None,
                },
                None => None,
            }
        } else {
            None
        }
    } else if (c as u32) < 32 {
        None
    } else {
        match parse_string_x(s, i + 1) {
            Some(p) => {
                let mut v = p.0;
                let ghost rest = v@;
                v.insert(0, c);
                proof {
                    assert(v@ =~= seq![c] + rest);
                }
                Some((v, p.1))
            },
            None => None,
        }
    }
}

fn parse_number_x(s: &Vec<char>, i: usize) -> (r: Option<(Vec<char>, usize)>)
    ensures
        chars_match(r, spec_number(s@, i as int)),
{
    let j0: usize = if i < s.len() && s[i] == '-' {
        i + 1
    } else {
        i
    };
    if !(j0 < s.len() && is_digit_x(s[j0])) {
        return None;
    }
    let ie: usize = if s[j0] == '0' {
        j0 + 1
    } else {
        digits_end_x(s, j0)
    };
    let fe: usize = if ie < s.len() && s[ie] == '.' {
        let de = digits_end_x(s, ie + 1);
        if de > ie + 1 {
            de
        } else {
            return None;
        }
    } else {
        ie
    };
    let ee: usize = if fe < s.len() && (s[fe] == 'e' || s[fe] == 'E') {
        let es: usize = if fe + 1 < s.len() && (s[fe + 1] == '+' || s[fe + 1] == '-') {
            fe + 2
        } else {
            fe + 1
        };
        let de = digits_end_x(s, es);
        if de > es {
            de
        } else {
            return None;
        }
    } else {
        fe
    };
    Some((copy_range(s, i, ee), ee))
}

fn clamp_x(s: &Vec<char>, i: usize, j: usize) -> (r: usize)
    ensures
        r as int == clamp_pos(s@, i as int, j as int),
        r <= s@.len(),
{
    if i < j && j <= s.len() {
        j
    } else if i < s.len() {
        i + 1
    } else {
        s.len()
    }
}

fn parse_value_x(s: &Vec<char>, i: usize) -> (r: Option<(Json, usize)>)
    ensures
        value_match(r, spec_value(s@, i as int)),
    decreases s@.len() - i, 1int,
{
    if i >= s.len() {
        return None;
    }
    let c = s[i];
    if c == '"' {
        match parse_string_x(s, i + 1) {
            Some(p) => Some((Json::Str(p.0), p.1)),
            None => None,
        }
    } else if c == '[' {
        let j = clamp_x(s, i, ws_end_x(s, i + 1));
        if j < s.len() && s[j] == ']' {
            let v: Vec<Json> = Vec::new();
            proof {
                assert(jv_seq(v@) =~= Seq::<JsonV>::empty());
            }
            Some((Json::Arr(v), j + 1))
        } else {
            match parse_items_x(s, j) {
                Some(p) => Some((Json::Arr(p.0), p.1)),
                None => None,
            }
        }
    } else if c == '{' {
        let j = clamp_x(s, i, ws_end_x(s, i + 1));
        if j < s.len() && s[j] == '}' {
            let m: Vec<(Vec<char>, Json)> = Vec::new();
            proof {
                assert(jv_members(m@) =~= Seq::<(Seq<char>, JsonV)>::empty());
            }
            Some((Json::Obj(m), j + 1))
        } else {
            match parse_members_x(s, j) {
                Some(p) => Some((Json::Obj(p.0), p.1)),
                None => None,
            }
        }
    } else if c == 't' {
        if s.len() - i > 3 && s[i + 1] == 'r' && s[i + 2] == 'u' && s[i + 3] == 'e' {
            Some((Json::Bool(true), i + 4))
        } else {
            None
        }
    } else if c == 'f' {
        if s.len() - i > 4 && s[i + 1] == 'a' && s[i + 2] == 'l' && s[i + 3] == 's' && s[i + 4]
            == 'e' {
            Some((Json::Bool(false), i + 5))
        } else {
            None
        }
    } else if c == 'n' {
        if s.len() - i > 3 && s[i + 1] == 'u' && s[i + 2] == 'l' && s[i + 3] == 'l' {
            Some((Json::Null, i + 4))
        } else {
            None
        }
    } else if c == '-' || is_digit_x(c) {
        match parse_number_x(s, i) {
            Some(p) => Some((Json::Num(p.0), p.1)),
            None => None,
        }
    } else {
        None
    }
}

fn parse_items_x(s: &Vec<char>, i: usize) -> (r: Option<(Vec<Json>, usize)>)
    ensures
        items_match(r, spec_items(s@, i as int)),
    decreases s@.len() - i, 2int,
{
    if i >= s.len() {
        return None;
    }
    match parse_value_x(s, i) {
        None => None,
        Some(p) => {
            let j = clamp_x(s, i, ws_end_x(s, p.1));
            if j < s.len() && s[j] == ',' {
                let n = clamp_x(s, i, ws_end_x(s, j + 1));
                match parse_items_x(s, n) {
                    Some(q) => {
                        let mut v = q.0;
                        let ghost rest = v@;
                        let ghost head = p.0;
                        v.insert(0, p.0);
                        proof {
                            assert(v@ =~= seq![head] + rest);
                            assert(v@.drop_first() =~= rest);
                            assert(jv_seq(v@) =~= seq![head.jv()] + jv_seq(rest));
                        }
                        Some((v, q.1))
                    },
                    None => None,
                }
            } else if j < s.len() && s[j] == ']' {
                let mut v: Vec<Json> = Vec::new();
                let ghost head = p.0;
                v.push(p.0);
                proof {
                    assert(v@ =~= seq![head]);
                    assert(v@.drop_first() =~= Seq::<Json>::empty());
                    assert(jv_seq(Seq::<Json>::empty()) == Seq::<JsonV>::empty());
                    assert(jv_seq(v@) =~= seq![head.jv()]);
                }
                Some((v, j + 1))
            } else {
                None
            }
        },
    }
}

fn parse_members_x(s: &Vec<char>, i: usize) -> (r: Option<(Vec<(Vec<char>, Json)>, usize)>)
    ensures
        members_match(r, spec_members(s@, i as int)),
    decreases s@.len() - i, 2int,
{
    if i >= s.len() || s[i] != '"' {
        return None;
    }
    match parse_string_x(s, i + 1) {
        None => None,
        Some(k) => {
            let j = clamp_x(s, i, ws_end_x(s, k.1));
            if j < s.len() && s[j] == ':' {
                let v0 = clamp_x(s, i, ws_end_x(s, j + 1));
                match parse_value_x(s, v0) {
                    None => None,
                    Some(p) => {
                        let l = clamp_x(s, i, ws_end_x(s, p.1));
                        if l < s.len() && s[l] == ',' {
                            let n = clamp_x(s, i, ws_end_x(s, l + 1));
                            match parse_members_x(s, n) {
                                Some(q) => {
                                    let mut m = q.0;
                                    let ghost rest = m@;
                                    let ghost key = k.0;
                                    let ghost val = p.0;
                                    m.insert(0, (k.0, p.0));
                                    proof {
                                        assert(m@ =~= seq![(key, val)] + rest);
                                        assert(m@.drop_first() =~= rest);
                                        assert(jv_members(m@) =~= seq![(key@, val.jv())]
                                            + jv_members(rest));
                                    }
                                    Some((m, q.1))
                                },
                                None => None,
                            }
                        } else if l < s.len() && s[l] == '}' {
                            let mut m: Vec<(Vec<char>, Json)> = Vec::new();
                            let ghost key = k.0;
                            let ghost val = p.0;
                            m.push((k.0, p.0));
                            proof {
                                assert(m@ =~= seq![(key, val)]);
                                assert(m@.drop_first() =~= Seq::<(Vec<char>, Json)>::empty());
                                assert(jv_members(Seq::<(Vec<char>, Json)>::empty())
                                    == Seq::<(Seq<char>, JsonV)>::empty());
                                assert(jv_members(m@) =~= seq![(key@, val.jv())]);
                            }
                            Some((m, l + 1))
                        } else {
                            None
                        }
                    },
                }
            } else {
                None
            }
        },
    }
}

/// Parses a complete response body into a JSON value, `None` when the body
/// is not well-formed JSON.
pub fn parse_json(s: &Vec<char>) -> (r: Option<Json>)
    ensures
        match (r, spec_json(s@)) {
            (None, None) => true,
            (Some(j), Some(v)) => j.jv() == v,
            _ => false,
        },
{
    let start = ws_end_x(s, 0);
    match parse_value_x(s, start) {
        None => None,
        Some(p) => {
            if ws_end_x(s, p.1) == s.len() {
                Some(p.0)
            } else {
                None
            }
        },
    }
}

} // verus!
