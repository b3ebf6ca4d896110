//! The reply grammar, as mathematics.
//!
//! A reply from the player is one JSON object whose members are scalars:
//! strings, numbers, `true`, `false` or `null`. The spec functions here
//! define, byte by byte, which inputs are accepted and what they mean; the
//! executable decoder in `codec` is proved to return exactly what these
//! functions say.
//!
//! The profile is deliberately narrow, and narrower than full JSON where
//! the player's replies never need the generality: member values are
//! scalars (not nested objects or arrays), string content is UTF-8 with
//! the single-character escapes (no `\u`), and numbers are plain decimals
//! without an exponent. Anything outside the profile is a malformed reply,
//! which the status logic degrades to a per-field default.

use vstd::prelude::*;
use crate::fixed::pow10;
use crate::value::SpecValue;

verus! {

/// JSON insignificant whitespace.
pub open spec fn is_ws(b: u8) -> bool {
    b == 0x20 || b == 0x09 || b == 0x0a || b == 0x0d
}

/// An ASCII decimal digit.
pub open spec fn is_digit(b: u8) -> bool {
    0x30 <= b <= 0x39
}

/// The first index at or after `i` that does not hold whitespace.
pub open spec fn spec_skip_ws(s: Seq<u8>, i: int) -> int
    decreases s.len() - i,
{
    if 0 <= i < s.len() && is_ws(s[i]) {
        spec_skip_ws(s, i + 1)
    } else {
        i
    }
}

/// The first index at or after `i` that does not hold a digit.
pub open spec fn spec_digits_end(s: Seq<u8>, i: int) -> int
    decreases s.len() - i,
{
    if 0 <= i < s.len() && is_digit(s[i]) {
        spec_digits_end(s, i + 1)
    } else {
        i
    }
}

/// The numeric value of a run of ASCII digits.
pub open spec fn spec_digits_value(s: Seq<u8>) -> nat
    decreases s.len(),
{
    if s.len() == 0 {
        0
    } else {
        (spec_digits_value(s.drop_last()) * 10 + if s.last() >= 0x30 {
            s.last() - 0x30
        } else {
            0
        }) as nat
    }
}

/// The content byte that a backslash escape stands for, if the escape is
/// one this profile accepts.
pub open spec fn spec_escape(b: u8) -> Option<u8> {
    if b == 0x22 {
        Some(0x22u8)
    } else if b == 0x5c {
        Some(0x5cu8)
    } else if b == 0x2f {
        Some(0x2fu8)
    } else if b == 0x62 {
        Some(0x08u8)
    } else if b == 0x66 {
        Some(0x0cu8)
    } else if b == 0x6e {
        Some(0x0au8)
    } else if b == 0x72 {
        Some(0x0du8)
    } else if b == 0x74 {
        Some(0x09u8)
    } else {
        None
    }
}

/// True for a byte that may stand unescaped inside a string: anything but
/// a control byte, the quote and the backslash.
pub open spec fn is_plain_string_byte(b: u8) -> bool {
    0x20 <= b && b != 0x22 && b != 0x5c
}

/// The content bytes and end position of a string whose opening quote
/// stands just before `i`. `None` when the string never closes or holds a
/// control byte or an escape outside the profile.
pub open spec fn spec_string_body(s: Seq<u8>, i: int) -> Option<(Seq<u8>, int)>
    decreases s.len() - i,
{
    if i < 0 || i >= s.len() {
        None
    } else if s[i] == 0x22 {
        Some((Seq::empty(), i + 1))
    } else if s[i] == 0x5c {
        if i + 2 <= s.len() {
            match spec_escape(s[i + 1]) {
                Some(c) => match spec_string_body(s, i + 2) {
                    Some((t, e)) => Some((seq![c] + t, e)),
                    None => None,
                },
                None => None,
            }
        } else {
            None
        }
    } else if is_plain_string_byte(s[i]) {
        match spec_string_body(s, i + 1) {
            Some((t, e)) => Some((seq![s[i]] + t, e)),
            None => None,
        }
    } else {
        None
    }
}

/// The scaled value, in millionths, of the fractional digits `fd`; digits
/// past the sixth are dropped.
pub open spec fn spec_frac_value(fd: Seq<u8>) -> nat {
    if fd.len() >= 6 {
        spec_digits_value(fd.take(6))
    } else {
        spec_digits_value(fd) * pow10((6 - fd.len()) as nat)
    }
}

/// The value and end position of a number starting at `i`: an optional
/// minus sign, digits, and an optional fraction. A whole number is an
/// `Int`; a number with a fraction is a `Num` in millionths. `None` when
/// no digits follow the sign, a fraction has no digits, or the value does
/// not fit the 64-bit representation.
pub open spec fn spec_parse_number(s: Seq<u8>, i: int) -> Option<(SpecValue, int)> {
    let neg = 0 <= i < s.len() && s[i] == 0x2d;
    let j = if neg {
        i + 1
    } else {
        i
    };
    let e = spec_digits_end(s, j);
    if e == j {
        None
    } else {
        let units = spec_digits_value(s.subrange(j, e));
        if e < s.len() && s[e] == 0x2e {
            let fe = spec_digits_end(s, e + 1);
            if fe == e + 1 {
                None
            } else {
                let mag = units * 1_000_000 + spec_frac_value(s.subrange(e + 1, fe));
                let m: int = if neg {
                    -mag
                } else {
                    mag as int
                };
                if i64::MIN <= m <= i64::MAX {
                    Some((SpecValue::Num(m), fe))
                } else {
                    None
                }
            }
        } else {
            let v: int = if neg {
                -units
            } else {
                units as int
            };
            if i64::MIN <= v <= i64::MAX {
                Some((SpecValue::Int(v), e))
            } else {
                None
            }
        }
    }
}

/// The value and end position of a scalar starting exactly at `i`.
pub open spec fn spec_parse_scalar(s: Seq<u8>, i: int) -> Option<(SpecValue, int)> {
    if i < 0 || i >= s.len() {
        None
    } else if s[i] == 0x22 {
        match spec_string_body(s, i + 1) {
            Some((t, e)) => if vstd::utf8::valid_utf8(t) {
                Some((SpecValue::Str(vstd::utf8::decode_utf8(t)), e))
            } else {
                None
            },
            None => None,
        }
    } else if s[i] == 0x74 {
        if i + 4 <= s.len() && s[i + 1] == 0x72 && s[i + 2] == 0x75 && s[i + 3] == 0x65 {
            Some((SpecValue::Bool(true), i + 4))
        } else {
            None
        }
    } else if s[i] == 0x66 {
        if i + 5 <= s.len() && s[i + 1] == 0x61 && s[i + 2] == 0x6c && s[i + 3] == 0x73 && s[i + 4]
            == 0x65 {
            Some((SpecValue::Bool(false), i + 5))
        } else {
            None
        }
    } else if s[i] == 0x6e {
        if i + 4 <= s.len() && s[i + 1] == 0x75 && s[i + 2] == 0x6c && s[i + 3] == 0x6c {
            Some((SpecValue::Null, i + 4))
        } else {
            None
        }
    } else if s[i] == 0x2d || is_digit(s[i]) {
        spec_parse_number(s, i)
    } else {
        None
    }
}

/// The members of an object, read from `i` (just inside the brace or just
/// after a comma): key, colon, scalar, then either a comma and more
/// members or the position of the closing brace. Keys are kept as their
/// content bytes, in order.
pub open spec fn spec_parse_members(s: Seq<u8>, i: int) -> Option<(Seq<(Seq<u8>, SpecValue)>, int)>
    decreases s.len() - i,
{
    let k = spec_skip_ws(s, i);
    if k < s.len() && s[k] == 0x22 {
        match spec_string_body(s, k + 1) {
            Some((key, j)) => {
                let c = spec_skip_ws(s, j);
                if c < s.len() && s[c] == 0x3a {
                    match spec_parse_scalar(s, spec_skip_ws(s, c + 1)) {
                        Some((v, e)) => {
                            let t = spec_skip_ws(s, e);
                            if t < s.len() && s[t] == 0x2c {
                                if i < t + 1 <= s.len() {
                                    match spec_parse_members(s, t + 1) {
                                        Some((rest, rend)) => Some(
                                            (seq![(key, v)] + rest, rend),
                                        ),
                                        None => None,
                                    }
                                } else {
                                    None
                                }
                            } else {
                                Some((seq![(key, v)], t))
                            }
                        },
                        None => None,
                    }
                } else {
                    None
                }
            },
            None => None,
        }
    } else {
        None
    }
}

/// The first value bound to `key` among `ms`, if any.
pub open spec fn spec_lookup(ms: Seq<(Seq<u8>, SpecValue)>, key: Seq<u8>) -> Option<SpecValue>
    decreases ms.len(),
{
    if ms.len() == 0 {
        None
    } else if ms[0].0 == key {
        Some(ms[0].1)
    } else {
        spec_lookup(ms.drop_first(), key)
    }
}

/// The members of a whole reply: one object, possibly empty, with nothing
/// but whitespace around it.
pub open spec fn spec_parse_reply(s: Seq<u8>) -> Option<Seq<(Seq<u8>, SpecValue)>> {
    let i = spec_skip_ws(s, 0);
    if i < s.len() && s[i] == 0x7b {
        let j = spec_skip_ws(s, i + 1);
        if j < s.len() && s[j] == 0x7d {
            if spec_skip_ws(s, j + 1) == s.len() {
                Some(Seq::empty())
            } else {
                None
            }
        } else {
            match spec_parse_members(s, i + 1) {
                Some((ms, t)) => {
                    if t < s.len() && s[t] == 0x7d && spec_skip_ws(s, t + 1) == s.len() {
                        Some(ms)
                    } else {
                        None
                    }
                },
                None => None,
            }
        }
    } else {
        None
    }
}

/// The key of the payload member.
pub open spec fn data_key() -> Seq<u8> {
    seq![0x64u8, 0x61u8, 0x74u8, 0x61u8]
}

/// What a raw reply means: the value of its `data` member, or nothing when
/// the reply is outside the profile or has no `data` member.
pub open spec fn spec_reply_data(s: Seq<u8>) -> Option<SpecValue> {
    match spec_parse_reply(s) {
        Some(ms) => spec_lookup(ms, data_key()),
        None => None,
    }
}

} // verus!
