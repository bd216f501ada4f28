//! Small text utilities: character-level access to `str` and `String`
//! building, shared by the endpoint resolver and the wire parser.

use vstd::prelude::*;
use vstd::string::StrSliceExecFns;

verus! {

/// Relies on std's `String::push`: appends the given character to the end of
/// the string.
pub assume_specification[ String::push ](s: &mut String, c: char)
    ensures
        final(s)@ == old(s)@.push(c),
;

/// Whether `u` is a Unicode scalar value, i.e. a codepoint that is not a
/// surrogate: exactly the values a `char` can hold.
pub open spec fn is_unicode_scalar(u: u32) -> bool {
    u < 0xD800 || (0xE000 <= u && u <= 0x10FFFF)
}

/// Relies on std's `char::from_u32`: returns the character with code `u`
/// when `u` is a Unicode scalar value, and `None` otherwise.
pub assume_specification[ char::from_u32 ](u: u32) -> (r: Option<char>)
    ensures
        r is Some <==> is_unicode_scalar(u),
        r matches Some(c) ==> c as u32 == u,
;

/// Copies the characters of `s` into a vector.
pub fn chars_of(s: &str) -> (r: Vec<char>)
    ensures
        r@ == s@,
{
    let n = s.unicode_len();
    let mut r: Vec<char> = Vec::new();
    let mut i: usize = 0;
    while i < n
        invariant
            n == s@.len(),
            i <= n,
            r@ == s@.take(i as int),
        decreases n - i,
    {
        r.push(s.get_char(i));
        i = i + 1;
        proof {
            assert(r@ =~= s@.take(i as int));
        }
    }
    proof {
        assert(s@.take(n as int) =~= s@);
    }
    r
}

/// Builds a `String` out of a vector of characters.
pub fn string_of(cs: &Vec<char>) -> (r: String)
    ensures
        r@ == cs@,
{
    let mut r = String::new();
    let mut i: usize = 0;
    while i < cs.len()
        invariant
            i <= cs@.len(),
            r@ == cs@.take(i as int),
        decreases cs@.len() - i,
    {
        r.push(cs[i]);
        i = i + 1;
        proof {
            assert(r@ =~= cs@.take(i as int));
        }
    }
    proof {
        assert(cs@.take(cs@.len() as int) =~= cs@);
    }
    r
}

} // verus!
