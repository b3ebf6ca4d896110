//! Bridging between wire bytes and `String`s.
//!
//! Reply text arrives as UTF-8 bytes; the decoder turns content bytes into
//! a `String` through one checked conversion whose meaning is pinned to
//! the UTF-8 specification functions of `vstd`. The text this client
//! produces itself — decimal numbers, property names — is ASCII, where
//! the characters of a `String` are exactly its bytes.

use vstd::prelude::*;

verus! {

/// True when every byte of `s` is ASCII.
pub open spec fn ascii_bytes(s: Seq<u8>) -> bool {
    forall|i: int| 0 <= i < s.len() ==> s[i] < 0x80
}

/// The character sequence read off a sequence of ASCII bytes, one character
/// per byte.
pub open spec fn chars_of_bytes(s: Seq<u8>) -> Seq<char> {
    Seq::new(s.len(), |i: int| s[i] as char)
}

/// Relies on `String::from_utf8`: it succeeds exactly on valid UTF-8, and
/// the characters of the result are the decoding of the bytes, as
/// `vstd`'s UTF-8 specification defines both.
#[verifier::external_body]
fn string_from_utf8(v: &Vec<u8>) -> (r: Option<String>)
    ensures
        r is Some <==> vstd::utf8::valid_utf8(v@),
        r matches Some(s) ==> s@ == vstd::utf8::decode_utf8(v@),
{
    match String::from_utf8(v.clone()) {
        Ok(s) => Some(s),
        Err(_) => None,
    }
}

/// ASCII bytes are valid UTF-8 and decode to one character per byte.
pub proof fn lemma_ascii_bytes_utf8(s: Seq<u8>)
    requires
        ascii_bytes(s),
    ensures
        vstd::utf8::valid_utf8(s),
        vstd::utf8::decode_utf8(s) == chars_of_bytes(s),
    decreases s.len(),
{
    if s.len() == 0 {
        assert(vstd::utf8::decode_utf8(s) =~= chars_of_bytes(s));
    } else {
        let b = s[0];
        assert(b < 0x80);
        assert(vstd::utf8::is_leading_byte_width_1(b));
        assert(b & 0x7f == b) by (bit_vector)
            requires
                b < 0x80,
        ;
        assert(vstd::utf8::decode_first_codepoint(s) == b as u32);
        assert(vstd::utf8::valid_first_scalar(s));
        assert(vstd::utf8::length_of_first_scalar(s) == 1);
        assert(vstd::utf8::pop_first_scalar(s) =~= s.drop_first());
        assert(ascii_bytes(s.drop_first()));
        lemma_ascii_bytes_utf8(s.drop_first());
        assert((vstd::utf8::decode_first_scalar(s) as char) == (b as char));
        assert(vstd::utf8::decode_utf8(s) =~= chars_of_bytes(s));
    }
}

/// Decodes wire bytes into text: the result is the UTF-8 decoding of the
/// bytes, or nothing when they are not valid UTF-8.
pub(crate) fn string_from_bytes(v: &Vec<u8>) -> (r: Option<String>)
    ensures
        r is Some <==> vstd::utf8::valid_utf8(v@),
        r matches Some(s) ==> s@ == vstd::utf8::decode_utf8(v@),
{
    string_from_utf8(v)
}

/// Builds the text whose characters are the given ASCII bytes, one per
/// byte.
pub(crate) fn string_from_ascii(v: &Vec<u8>) -> (r: String)
    requires
        ascii_bytes(v@),
    ensures
        r@ == chars_of_bytes(v@),
{
    proof {
        lemma_ascii_bytes_utf8(v@);
    }
    match string_from_utf8(v) {
        Some(s) => s,
        None => vstd::pervasive::unreached(),
    }
}

/// Relies on `String::push`: appends exactly the given character.
#[verifier::external_body]
pub(crate) fn push_char(s: &mut String, c: char)
    ensures
        final(s)@ == old(s)@.push(c),
{
    s.push(c)
}

} // verus!
