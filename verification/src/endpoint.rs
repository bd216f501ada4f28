//! Endpoint resolution: the request variant decides the path fragment that is
//! appended to the fixed service base address.

use crate::KanjiResponse;
use vstd::prelude::*;
use vstd::string::StringExecFns;

verus! {

/// The character printing the decimal digit `d`.
pub open spec fn digit_char(d: nat) -> char {
    ((48 + d) as u8) as char
}

/// Decimal rendering of `n`, most significant digit first, no leading zeros.
pub open spec fn dec_str(n: nat) -> Seq<char>
    decreases n,
{
    if n < 10 {
        seq![digit_char(n)]
    } else {
        dec_str(n / 10).push(digit_char(n % 10))
    }
}

/// The path fragment each request variant resolves to.
pub open spec fn spec_endpoint(request: KanjiResponse) -> Seq<char> {
    match request {
        KanjiResponse::SingleKanji(c) => "kanji/"@.push(c),
        KanjiResponse::Jouyou => "kanji/jouyou"@,
        KanjiResponse::Jinmeiyo => "kanji/jinmeiyou"@,
        KanjiResponse::All => "kanji/all"@,
        KanjiResponse::Grade(g) => "kanji/grade-"@ + dec_str(g as nat),
        KanjiResponse::Jlpt(l) => "kanji/jlpt-"@ + dec_str(l as nat),
        KanjiResponse::Words(c) => "words/"@.push(c),
    }
}

/// The full address a request is sent to.
pub open spec fn spec_url(request: KanjiResponse) -> Seq<char> {
    "https://kanjiapi.dev/v1/"@ + spec_endpoint(request)
}

/// Appends the decimal rendering of `n` to `s`.
fn push_dec(s: &mut String, n: u8)
    ensures
        final(s)@ == old(s)@ + dec_str(n as nat),
    decreases n,
{
    if n >= 10 {
        push_dec(s, n / 10);
    }
    let ghost before = s@;
    s.push((48 + n % 10) as char);
    proof {
        if n < 10 {
            assert(old(s)@ + dec_str(n as nat) =~= old(s)@.push(digit_char(n as nat)));
        } else {
            assert(old(s)@ + dec_str(n as nat) =~= before.push(digit_char((n % 10) as nat)));
        }
    }
}

/// Resolves a request variant to its path fragment.  No validation is
/// performed on the carried character or level: out-of-range values are
/// passed through for the remote service to reject.
pub fn endpoint(request: &KanjiResponse) -> (r: String)
    ensures
        r@ == spec_endpoint(*request),
{
    match request {
        KanjiResponse::SingleKanji(c) => {
            let mut s = String::from_str("kanji/");
            s.push(*c);
            s
        },
        KanjiResponse::Jouyou => String::from_str("kanji/jouyou"),
        KanjiResponse::Jinmeiyo => String::from_str("kanji/jinmeiyou"),
        KanjiResponse::All => String::from_str("kanji/all"),
        KanjiResponse::Grade(g) => {
            let mut s = String::from_str("kanji/grade-");
            push_dec(&mut s, *g);
            s
        },
        KanjiResponse::Jlpt(l) => {
            let mut s = String::from_str("kanji/jlpt-");
            push_dec(&mut s, *l);
            s
        },
        KanjiResponse::Words(c) => {
            let mut s = String::from_str("words/");
            s.push(*c);
            s
        },
    }
}

/// Concatenates the fixed base address with the resolved path fragment.
pub fn url_for(request: &KanjiResponse) -> (r: String)
    ensures
        r@ == spec_url(*request),
{
    let mut s = String::from_str("https://kanjiapi.dev/v1/");
    let path = endpoint(request);
    s.append(path.as_str());
    s
}

} // verus!
