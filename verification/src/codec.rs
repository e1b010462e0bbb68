//! Decoding of raw data sent as text: standard base64, and hexadecimal with
//! white space allowed between digits.

use vstd::prelude::*;
use base64::Engine;
use crate::text::{chars_of, is_white_space, radix16_error_text, radix16_u8, string_of, u8_from_str_radix16, white_space};

verus! {

/// What the standard base64 engine of the `base64` crate decodes a byte
/// string to, or the text of its error.
pub uninterp spec fn base64_standard_decode(input: Seq<u8>) -> Result<Seq<u8>, Seq<char>>;

/// `base64::engine::general_purpose::STANDARD.decode(input)`, with the error
/// written as text (`DecodeError`'s `Display`). The decoded bytes and the
/// error text are named as the crate's result on the input; the alphabet and
/// padding rules are not restated here.
#[verifier::external_body]
pub(crate) fn base64_decode(input: &[u8]) -> (r: Result<Vec<u8>, String>)
    ensures
        match r {
            Ok(v) => base64_standard_decode(input@) == Ok::<Seq<u8>, Seq<char>>(v@),
            Err(e) => base64_standard_decode(input@) == Err::<Seq<u8>, Seq<char>>(e@),
        },
{
    match base64::engine::general_purpose::STANDARD.decode(input) {
        Ok(v) => Ok(v),
        Err(e) => Err(e.to_string()),
    }
}

/// `s` without its white space.
pub open spec fn strip_white(s: Seq<char>) -> Seq<char> {
    s.filter(|c: char| !is_white_space(c))
}

/// Reads consecutive digit pairs as bytes; a lone last digit is ignored.
/// The first pair that does not read gives its error text.
pub open spec fn hex_pairs(s: Seq<char>) -> Result<Seq<u8>, Seq<char>>
    decreases s.len(),
{
    if s.len() < 2 {
        Ok(Seq::empty())
    } else {
        match radix16_u8(s.take(2)) {
            Some(v) => match hex_pairs(s.skip(2)) {
                Ok(rest) => Ok(seq![v] + rest),
                Err(e) => Err(e),
            },
            None => Err(radix16_error_text(s.take(2))),
        }
    }
}

/// The bytes a hexadecimal text stands for: white space is dropped, then
/// digits are read in pairs.
pub open spec fn hex_bytes(s: Seq<char>) -> Result<Seq<u8>, Seq<char>> {
    hex_pairs(strip_white(s))
}

/// The characters of `v` without white space.
fn strip_white_chars(v: &Vec<char>) -> (r: Vec<char>)
    ensures
        r@ == strip_white(v@),
{
    let mut r: Vec<char> = Vec::new();
    for i in 0..v.len()
        invariant
            r@ == strip_white(v@.take(i as int)),
    {
        let c = v[i];
        assert(v@.take(i + 1).drop_last() =~= v@.take(i as int));
        assert(v@.take(i + 1).last() == c);
        reveal(Seq::filter);
        if !white_space(c) {
            r.push(c);
        }
    }
    assert(v@.take(v.len() as int) =~= v@);
    r
}

proof fn lemma_hex_pairs_from(s: Seq<char>, i: int, acc: Seq<u8>)
    requires
        0 <= i <= s.len(),
        i % 2 == 0,
        hex_pairs(s) == match hex_pairs(s.skip(i)) {
            Ok(rest) => Ok(acc + rest),
            Err(e) => Err(e),
        },
    ensures
        i + 2 <= s.len() ==> match radix16_u8(s.subrange(i, i + 2)) {
            Some(v) => hex_pairs(s) == match hex_pairs(s.skip(i + 2)) {
                Ok(rest) => Ok(acc.push(v) + rest),
                Err(e) => Err::<Seq<u8>, Seq<char>>(e),
            },
            None => hex_pairs(s) == Err::<Seq<u8>, Seq<char>>(radix16_error_text(s.subrange(i, i + 2))),
        },
{
    if i + 2 <= s.len() {
        let t = s.skip(i);
        assert(t.take(2) =~= s.subrange(i, i + 2));
        assert(t.skip(2) =~= s.skip(i + 2));
        match radix16_u8(s.subrange(i, i + 2)) {
            Some(v) => {
                match hex_pairs(s.skip(i + 2)) {
                    Ok(rest) => {
                        assert(acc + (seq![v] + rest) =~= acc.push(v) + rest);
                    },
                    Err(e) => {},
                }
            },
            None => {},
        }
    }
}

/// Decodes hexadecimal text to bytes, or gives the error text of the first
/// pair that does not read.
pub fn decode_hex(data: &str) -> (r: Result<Vec<u8>, String>)
    ensures
        match r {
            Ok(v) => hex_bytes(data@) == Ok::<Seq<u8>, Seq<char>>(v@),
            Err(e) => hex_bytes(data@) == Err::<Seq<u8>, Seq<char>>(e@),
        },
{
    let s = strip_white_chars(&chars_of(data));
    let mut out: Vec<u8> = Vec::new();
    let mut i: usize = 0;
    assert(s@.skip(0) =~= s@);
    assert(out@ + Seq::<u8>::empty() =~= out@);
    while s.len() - i >= 2
        invariant
            s@ == strip_white(data@),
            i <= s.len(),
            i % 2 == 0,
            hex_pairs(s@) == match hex_pairs(s@.skip(i as int)) {
                Ok(rest) => Ok(out@ + rest),
                Err(e) => Err::<Seq<u8>, Seq<char>>(e),
            },
        decreases s.len() - i,
    {
        proof {
            lemma_hex_pairs_from(s@, i as int, out@);
        }
        let mut pair: Vec<char> = Vec::new();
        pair.push(s[i]);
        pair.push(s[i + 1]);
        assert(pair@ =~= s@.subrange(i as int, i + 2));
        let text = string_of(&pair);
        match u8_from_str_radix16(text.as_str()) {
            Ok(v) => {
                out.push(v);
            },
            Err(e) => {
                return Err(e);
            },
        }
        i = i + 2;
    }
    assert(s@.skip(i as int).len() < 2);
    assert(out@ + Seq::<u8>::empty() =~= out@);
    Ok(out)
}

} // verus!
