//! Percent-encoding of URI components and `application/x-www-form-urlencoded`
//! bodies.

use vstd::prelude::*;
use vstd::utf8::encode_utf8;
use vstd::string::StringExecFns;
use crate::text::{hex_digit_upper, hex_digit_upper_char, push_char};

verus! {

broadcast use vstd::string::group_string_axioms;

/// The bytes that `encodeURIComponent` leaves as they are: ASCII letters and
/// digits and `- _ . ! ~ * ' ( )`.
pub open spec fn is_unreserved(b: u8) -> bool {
    ||| 0x41 <= b <= 0x5A
    ||| 0x61 <= b <= 0x7A
    ||| 0x30 <= b <= 0x39
    ||| b == 0x2D
    ||| b == 0x5F
    ||| b == 0x2E
    ||| b == 0x21
    ||| b == 0x7E
    ||| b == 0x2A
    ||| b == 0x27
    ||| b == 0x28
    ||| b == 0x29
}

/// One byte of UTF-8 as it appears in an encoded component.
pub open spec fn escape_byte(b: u8) -> Seq<char> {
    if is_unreserved(b) {
        seq![b as char]
    } else {
        seq!['%', hex_digit_upper(b as int / 16), hex_digit_upper(b as int % 16)]
    }
}

/// Each byte escaped in turn.
pub open spec fn escape_bytes(bytes: Seq<u8>) -> Seq<char>
    decreases bytes.len(),
{
    if bytes.len() == 0 {
        seq![]
    } else {
        escape_bytes(bytes.drop_last()) + escape_byte(bytes.last())
    }
}

/// What JavaScript's `encodeURIComponent` makes of `s`: its UTF-8 bytes,
/// unreserved ASCII kept and every other byte written `%XX` in uppercase hex.
pub open spec fn uri_component(s: Seq<char>) -> Seq<char> {
    escape_bytes(encode_utf8(s))
}

fn is_unreserved_byte(b: u8) -> (r: bool)
    ensures
        r == is_unreserved(b),
{
    (0x41 <= b && b <= 0x5A) || (0x61 <= b && b <= 0x7A) || (0x30 <= b && b <= 0x39) || b == 0x2D
        || b == 0x5F || b == 0x2E || b == 0x21 || b == 0x7E || b == 0x2A || b == 0x27 || b == 0x28
        || b == 0x29
}

/// Appends the encoding of `s` as a URI component.
pub fn push_uri_component(out: &mut String, s: &str)
    ensures
        final(out)@ == old(out)@ + uri_component(s@),
{
    let bytes = s.as_bytes();
    let ghost start = out@;
    let mut i: usize = 0;
    while i < bytes.len()
        invariant
            i <= bytes.len(),
            bytes@ == encode_utf8(s@),
            out@ == start + escape_bytes(bytes@.take(i as int)),
        decreases bytes.len() - i,
    {
        let b: u8 = bytes[i];
        if is_unreserved_byte(b) {
            push_char(out, b as char);
        } else {
            push_char(out, '%');
            push_char(out, hex_digit_upper_char(b / 16));
            push_char(out, hex_digit_upper_char(b % 16));
        }
        assert(bytes@.take(i + 1).drop_last() =~= bytes@.take(i as int));
        assert(out@ =~= start + escape_bytes(bytes@.take(i + 1)));
        i = i + 1;
    }
    assert(bytes@.take(bytes.len() as int) =~= bytes@);
}

/// `s` encoded as a URI component (`encodeURIComponent`).
pub fn encode_uri_component(s: &str) -> (r: String)
    ensures
        r@ == uri_component(s@),
{
    let mut r = String::new();
    push_uri_component(&mut r, s);
    r
}

/// One `key=value` pair of a form body, both sides encoded.
pub open spec fn form_pair(key: Seq<char>, value: Seq<char>) -> Seq<char> {
    uri_component(key) + seq!['='] + uri_component(value)
}

/// The views of a list of string pairs.
pub open spec fn pair_views(params: Seq<(String, String)>) -> Seq<(Seq<char>, Seq<char>)> {
    params.map_values(|p: (String, String)| (p.0@, p.1@))
}

/// A form body: the encoded pairs joined by `&`.
pub open spec fn form_body(params: Seq<(Seq<char>, Seq<char>)>) -> Seq<char>
    decreases params.len(),
{
    if params.len() == 0 {
        seq![]
    } else if params.len() == 1 {
        form_pair(params[0].0, params[0].1)
    } else {
        form_body(params.drop_last()) + seq!['&'] + form_pair(params.last().0, params.last().1)
    }
}

/// The `application/x-www-form-urlencoded` body for `params`, in order.
pub fn form(params: &Vec<(String, String)>) -> (r: String)
    ensures
        r@ == form_body(pair_views(params@)),
{
    let mut r = String::new();
    let mut i: usize = 0;
    while i < params.len()
        invariant
            i <= params.len(),
            r@ == form_body(pair_views(params@).take(i as int)),
        decreases params.len() - i,
    {
        let ghost before = r@;
        if i > 0 {
            push_char(&mut r, '&');
        }
        push_uri_component(&mut r, params[i].0.as_str());
        push_char(&mut r, '=');
        push_uri_component(&mut r, params[i].1.as_str());
        proof {
            let pv = pair_views(params@);
            assert(pv.take(i + 1).drop_last() =~= pv.take(i as int));
            assert(pv[i as int] == (params@[i as int].0@, params@[i as int].1@));
            if i == 0 {
                assert(r@ =~= form_body(pv.take(1)));
            } else {
                assert(r@ =~= form_body(pv.take(i + 1)));
            }
        }
        i = i + 1;
    }
    assert(pair_views(params@).take(params.len() as int) =~= pair_views(params@));
    r
}

} // verus!
