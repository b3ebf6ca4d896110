//! Encoding commands and decoding replies.
//!
//! A command is one JSON object on one line. A reply is decoded exactly as
//! the grammar in `json` says: the decoder here is proved to accept an
//! input if and only if the grammar accepts it, and to return the value of
//! its `data` member.

use vstd::prelude::*;
use crate::ascii::string_from_bytes;
use crate::error::ProtocolError;
use crate::json::{is_ws, is_digit, spec_skip_ws, spec_digits_end, spec_digits_value, spec_escape,
    spec_string_body, spec_frac_value, spec_parse_number, spec_parse_scalar, spec_parse_members,
    spec_lookup, spec_reply_data, data_key};
use crate::value::PropertyValue;

verus! {

/// The one-line command asking for the value of property `name`.
pub open spec fn spec_encode_get(name: Seq<char>) -> Seq<char> {
    "{\"command\":[\"get_property\",\""@ + name + "\"]}\n"@
}

/// The one-line command setting boolean property `name` to `value`.
pub open spec fn spec_encode_set_bool(name: Seq<char>, value: bool) -> Seq<char> {
    "{\"command\":[\"set_property\",\""@ + name + (if value {
        "\",true]}\n"@
    } else {
        "\",false]}\n"@
    })
}

/// The one-line command setting property `name` to the string `value`.
pub open spec fn spec_encode_set_string(name: Seq<char>, value: Seq<char>) -> Seq<char> {
    "{\"command\":[\"set_property_string\",\""@ + name + "\",\""@ + value + "\"]}\n"@
}

/// Builds the `get_property` command line for `name`. The name must be one
/// of the player's property names: plain text that needs no JSON escaping.
pub fn encode_get_property(name: &str) -> (r: String)
    ensures
        r@ == spec_encode_get(name@),
{
    let mut out = String::from_str("{\"command\":[\"get_property\",\"");
    out.append(name);
    out.append("\"]}\n");
    out
}

/// Builds the `set_property` command line for a boolean property.
pub fn encode_set_property_bool(name: &str, value: bool) -> (r: String)
    ensures
        r@ == spec_encode_set_bool(name@, value),
{
    let mut out = String::from_str("{\"command\":[\"set_property\",\"");
    out.append(name);
    if value {
        out.append("\",true]}\n");
    } else {
        out.append("\",false]}\n");
    }
    out
}

/// Builds the `set_property_string` command line. Name and value must be
/// plain text that needs no JSON escaping; every value this library sends
/// is a decimal number rendering.
pub fn encode_set_property_string(name: &str, value: &str) -> (r: String)
    ensures
        r@ == spec_encode_set_string(name@, value@),
{
    let mut out = String::from_str("{\"command\":[\"set_property_string\",\"");
    out.append(name);
    out.append("\",\"");
    out.append(value);
    out.append("\"]}\n");
    out
}

/// The first index at or after `i` that holds a newline byte, or the end.
pub open spec fn spec_line_end(s: Seq<u8>, i: int) -> int
    decreases s.len() - i,
{
    if 0 <= i < s.len() && s[i] != 0x0a {
        spec_line_end(s, i + 1)
    } else {
        i
    }
}

/// Finds the end of the first complete line in an accumulating read
/// buffer: the index of the first newline byte. A reply is decoded only
/// from a complete line, however many reads it took to arrive.
pub fn find_line_end(buf: &[u8]) -> (r: Option<usize>)
    ensures
        r is Some <==> spec_line_end(buf@, 0) < buf@.len(),
        r matches Some(n) ==> n == spec_line_end(buf@, 0) && n < buf@.len() && buf@[n as int]
            == 0x0a,
        r is None ==> forall|k: int| 0 <= k < buf@.len() ==> buf@[k] != 0x0a,
{
    let mut cur: usize = 0;
    while cur < buf.len() && buf[cur] != 0x0a
        invariant
            cur <= buf@.len(),
            spec_line_end(buf@, 0) == spec_line_end(buf@, cur as int),
        decreases buf@.len() - cur,
    {
        cur += 1;
    }
    proof {
        lemma_line_end_all_before(buf@, 0);
    }
    if cur < buf.len() {
        Some(cur)
    } else {
        None
    }
}

/// Every byte before the end of the scanned line is not a newline.
proof fn lemma_line_end_all_before(s: Seq<u8>, i: int)
    requires
        0 <= i <= s.len(),
    ensures
        forall|k: int| i <= k < spec_line_end(s, i) ==> s[k] != 0x0a,
        i <= spec_line_end(s, i) <= s.len(),
    decreases s.len() - i,
{
    if i < s.len() && s[i] != 0x0a {
        lemma_line_end_all_before(s, i + 1);
    }
}

/// Every byte strictly between `i` and the end of the digit run is a digit.
proof fn lemma_digits_end_all_digits(s: Seq<u8>, i: int)
    requires
        0 <= i <= s.len(),
    ensures
        forall|k: int| i <= k < spec_digits_end(s, i) ==> is_digit(s[k]),
    decreases s.len() - i,
{
    if i < s.len() && is_digit(s[i]) {
        lemma_digits_end_all_digits(s, i + 1);
    }
}

fn skip_ws(s: &[u8], i: usize) -> (r: usize)
    requires
        i <= s@.len(),
    ensures
        r == spec_skip_ws(s@, i as int),
        i <= r <= s@.len(),
{
    let mut cur: usize = i;
    while cur < s.len() && is_ws_exec(s[cur])
        invariant
            i <= cur <= s@.len(),
            spec_skip_ws(s@, i as int) == spec_skip_ws(s@, cur as int),
        decreases s@.len() - cur,
    {
        cur += 1;
    }
    cur
}

fn is_ws_exec(b: u8) -> (r: bool)
    ensures
        r == is_ws(b),
{
    b == 0x20 || b == 0x09 || b == 0x0a || b == 0x0d
}

fn is_digit_exec(b: u8) -> (r: bool)
    ensures
        r == is_digit(b),
{
    0x30 <= b && b <= 0x39
}

fn digits_end(s: &[u8], i: usize) -> (r: usize)
    requires
        i <= s@.len(),
    ensures
        r == spec_digits_end(s@, i as int),
        i <= r <= s@.len(),
{
    let mut cur: usize = i;
    while cur < s.len() && is_digit_exec(s[cur])
        invariant
            i <= cur <= s@.len(),
            spec_digits_end(s@, i as int) == spec_digits_end(s@, cur as int),
        decreases s@.len() - cur,
    {
        cur += 1;
    }
    cur
}

/// Reads the body of a string whose opening quote stands just before `i`,
/// returning its unescaped content and the index after the closing quote.
fn string_body(s: &[u8], i: usize) -> (r: Option<(Vec<u8>, usize)>)
    requires
        i <= s@.len(),
    ensures
        r is None ==> spec_string_body(s@, i as int) is None,
        r matches Some((v, e)) ==> spec_string_body(s@, i as int) == Some((v@, e as int)),
        r matches Some((v, e)) ==> i < e <= s@.len(),
    decreases s@.len() - i,
{
    if i >= s.len() {
        return None;
    }
    let b = s[i];
    if b == 0x22 {
        Some((Vec::new(), i + 1))
    } else if b == 0x5c {
        if i < s.len() - 1 {
            let esc = escape_exec(s[i + 1]);
            match esc {
                Some(c) => match string_body(s, i + 2) {
                    Some((mut v, e)) => {
                        v.insert(0, c);
                        proof {
                            assert(v@ =~= seq![c] + v@.drop_first());
                        }
                        Some((v, e))
                    },
                    None => None,
                },
                None => None,
            }
        } else {
            None
        }
    } else if 0x20 <= b && b != 0x22 && b != 0x5c {
        match string_body(s, i + 1) {
            Some((mut v, e)) => {
                v.insert(0, b);
                proof {
                    assert(v@ =~= seq![b] + v@.drop_first());
                }
                Some((v, e))
            },
            None => None,
        }
    } else {
        None
    }
}

/// A run of digits is worth less than ten to the power of its length.
proof fn lemma_digits_value_bound(s: Seq<u8>)
    requires
        forall|k: int| 0 <= k < s.len() ==> is_digit(s[k]),
    ensures
        spec_digits_value(s) < crate::fixed::pow10(s.len() as nat),
    decreases s.len(),
{
    if s.len() > 0 {
        lemma_digits_value_bound(s.drop_last());
        let p = crate::fixed::pow10((s.len() - 1) as nat);
        let v = spec_digits_value(s.drop_last());
        assert(v * 10 <= (p - 1) * 10) by (nonlinear_arith)
            requires
                v <= p - 1,
        ;
    }
}

/// Appending one digit multiplies the value by ten and adds the digit.
proof fn lemma_digits_value_step(s: Seq<u8>, j: int, cur: int)
    requires
        0 <= j <= cur < s.len(),
    ensures
        spec_digits_value(s.subrange(j, cur + 1)) == spec_digits_value(s.subrange(j, cur)) * 10 + (
        if s[cur] >= 0x30 {
            s[cur] - 0x30
        } else {
            0
        }),
{
    let whole = s.subrange(j, cur + 1);
    assert(whole.drop_last() =~= s.subrange(j, cur));
    assert(whole.last() == s[cur]);
}

/// The numeric value of a run of digits, with a flag that is set instead
/// when the value does not even fit below `2^63`.
fn digits_value_exec(s: &[u8], j: usize, e: usize) -> (r: (u64, bool))
    requires
        j <= e <= s@.len(),
        forall|k: int| j <= k < e ==> is_digit(s@[k]),
    ensures
        !r.1 ==> r.0 == spec_digits_value(s@.subrange(j as int, e as int)),
        r.1 ==> spec_digits_value(s@.subrange(j as int, e as int)) > 9_223_372_036_854_775_808,
{
    let mut acc: u64 = 0;
    let mut big: bool = false;
    let mut cur: usize = j;
    proof {
        assert(s@.subrange(j as int, j as int) =~= Seq::<u8>::empty());
    }
    while cur < e
        invariant
            j <= cur <= e <= s@.len(),
            forall|k: int| j <= k < e ==> is_digit(s@[k]),
            !big ==> acc == spec_digits_value(s@.subrange(j as int, cur as int)),
            big ==> spec_digits_value(s@.subrange(j as int, cur as int))
                > 9_223_372_036_854_775_808,
        decreases e - cur,
    {
        let d: u8 = s[cur] - 0x30;
        proof {
            lemma_digits_value_step(s@, j as int, cur as int);
        }
        if !big {
            if acc <= 1_844_674_407_370_955_160 {
                acc = acc * 10 + (d as u64);
            } else {
                big = true;
            }
        }
        cur += 1;
    }
    (acc, big)
}

/// Reads a number starting at `i`, exactly as the grammar defines it.
fn parse_number(s: &[u8], i: usize) -> (r: Option<(PropertyValue, usize)>)
    requires
        i <= s@.len(),
    ensures
        r is None ==> spec_parse_number(s@, i as int) is None,
        r matches Some((v, e)) ==> spec_parse_number(s@, i as int) == Some((v@, e as int)),
        r matches Some((v, e)) ==> i < e <= s@.len(),
{
    let neg = i < s.len() && s[i] == 0x2d;
    let j = if neg {
        i + 1
    } else {
        i
    };
    let e = digits_end(s, j);
    if e == j {
        return None;
    }
    proof {
        lemma_digits_end_all_digits(s@, j as int);
    }
    let (units, big) = digits_value_exec(s, j, e);
    let ghost units_val = spec_digits_value(s@.subrange(j as int, e as int));
    if e < s.len() && s[e] == 0x2e {
        let fe = digits_end(s, e + 1);
        if fe == e + 1 {
            return None;
        }
        proof {
            lemma_digits_end_all_digits(s@, (e + 1) as int);
        }
        let flen = fe - (e + 1);
        let take: usize = if flen >= 6 {
            6
        } else {
            flen
        };
        let mut facc: u64 = 0;
        let mut cur: usize = e + 1;
        proof {
            assert(s@.subrange((e + 1) as int, (e + 1) as int) =~= Seq::<u8>::empty());
            crate::fixed::lemma_pow10_small();
        }
        while cur < e + 1 + take
            invariant
                e + 1 <= cur <= e + 1 + take,
                take <= 6,
                e + 1 + take <= fe <= s@.len(),
                forall|k: int| e + 1 <= k < fe ==> is_digit(s@[k]),
                facc == spec_digits_value(s@.subrange((e + 1) as int, cur as int)),
                facc < crate::fixed::pow10((cur - (e + 1)) as nat),
                crate::fixed::pow10(6) == 1_000_000,
            decreases e + 1 + take - cur,
        {
            let d: u8 = s[cur] - 0x30;
            proof {
                lemma_digits_value_step(s@, (e + 1) as int, cur as int);
                crate::fixed::lemma_pow10_small();
                assert(facc * 10 + d < crate::fixed::pow10((cur + 1 - (e + 1)) as nat)) by {
                    assert(facc * 10 <= (crate::fixed::pow10((cur - (e + 1)) as nat) - 1) * 10)
                        by (nonlinear_arith)
                        requires
                            facc <= crate::fixed::pow10((cur - (e + 1)) as nat) - 1,
                    ;
                }
            }
            facc = facc * 10 + (d as u64);
            cur += 1;
        }
        let fd = Ghost(s@.subrange((e + 1) as int, fe as int));
        if flen >= 6 {
            proof {
                assert(fd@.take(6) =~= s@.subrange((e + 1) as int, (e + 7) as int));
                assert(spec_frac_value(fd@) == facc);
            }
        } else {
            proof {
                assert(fd@ =~= s@.subrange((e + 1) as int, cur as int));
                lemma_digits_value_bound(fd@);
            }
            let scale = crate::fixed::pow10_exec(6 - flen);
            proof {
                crate::fixed::lemma_pow10_add(flen as nat, (6 - flen) as nat);
                crate::fixed::lemma_pow10_small();
                assert(facc * scale < 1_000_000) by (nonlinear_arith)
                    requires
                        facc < crate::fixed::pow10(flen as nat),
                        scale == crate::fixed::pow10((6 - flen) as nat),
                        crate::fixed::pow10(flen as nat) * crate::fixed::pow10(
                            (6 - flen) as nat,
                        ) == 1_000_000,
                ;
            }
            facc = facc * scale;
            proof {
                assert(spec_frac_value(fd@) == facc);
            }
        }
        // `facc` now holds the fraction scaled to millionths.
        if big {
            proof {
                assert(units_val * 1_000_000 >= units_val * 1) by (nonlinear_arith)
                    requires
                        units_val >= 0,
                ;
            }
            return None;
        }
        if units > 9_223_372_036_854 {
            proof {
                assert(units_val * 1_000_000 >= 9_223_372_036_855u64 * 1_000_000)
                    by (nonlinear_arith)
                    requires
                        units_val >= 9_223_372_036_855,
                ;
            }
            return None;
        }
        let mag: u64 = units * 1_000_000 + facc;
        if neg {
            if mag <= 9_223_372_036_854_775_808 {
                let micros: i64 = if mag == 9_223_372_036_854_775_808 {
                    i64::MIN
                } else {
                    -(mag as i64)
                };
                Some((PropertyValue::Num(crate::fixed::Fixed { micros }), fe))
            } else {
                None
            }
        } else {
            if mag <= 9_223_372_036_854_775_807 {
                Some(
                    (PropertyValue::Num(crate::fixed::Fixed { micros: mag as i64 }), fe),
                )
            } else {
                None
            }
        }
    } else {
        if big {
            return None;
        }
        if neg {
            if units <= 9_223_372_036_854_775_808 {
                let v: i64 = if units == 9_223_372_036_854_775_808 {
                    i64::MIN
                } else {
                    -(units as i64)
                };
                Some((PropertyValue::Int(v), e))
            } else {
                None
            }
        } else {
            if units <= 9_223_372_036_854_775_807 {
                Some((PropertyValue::Int(units as i64), e))
            } else {
                None
            }
        }
    }
}

/// Reads one scalar starting exactly at `i`.
fn parse_scalar(s: &[u8], i: usize) -> (r: Option<(PropertyValue, usize)>)
    requires
        i <= s@.len(),
    ensures
        r is None ==> spec_parse_scalar(s@, i as int) is None,
        r matches Some((v, e)) ==> spec_parse_scalar(s@, i as int) == Some((v@, e as int)),
        r matches Some((v, e)) ==> i < e <= s@.len(),
{
    if i >= s.len() {
        return None;
    }
    let b = s[i];
    if b == 0x22 {
        match string_body(s, i + 1) {
            Some((content, e)) => match string_from_bytes(&content) {
                Some(st) => Some((PropertyValue::Str(st), e)),
                None => None,
            },
            None => None,
        }
    } else if b == 0x74 {
        if s.len() - i >= 4 && s[i + 1] == 0x72 && s[i + 2] == 0x75 && s[i + 3] == 0x65 {
            Some((PropertyValue::Bool(true), i + 4))
        } else {
            None
        }
    } else if b == 0x66 {
        if s.len() - i >= 5 && s[i + 1] == 0x61 && s[i + 2] == 0x6c && s[i + 3] == 0x73 && s[i + 4]
            == 0x65 {
            Some((PropertyValue::Bool(false), i + 5))
        } else {
            None
        }
    } else if b == 0x6e {
        if s.len() - i >= 4 && s[i + 1] == 0x75 && s[i + 2] == 0x6c && s[i + 3] == 0x6c {
            Some((PropertyValue::Null, i + 4))
        } else {
            None
        }
    } else if b == 0x2d || is_digit_exec(b) {
        parse_number(s, i)
    } else {
        None
    }
}

/// Reads the members of an object from `i`, keeping only the value of the
/// first `data` member, and returns the position of the closing brace.
fn parse_members(s: &[u8], i: usize) -> (r: Option<(Option<PropertyValue>, usize)>)
    requires
        i <= s@.len(),
    ensures
        r is Some <==> spec_parse_members(s@, i as int) is Some,
        r matches Some((found, t)) ==> {
            let (ms, st) = spec_parse_members(s@, i as int)->Some_0;
            &&& st == t as int
            &&& t <= s@.len()
            &&& (found is Some <==> spec_lookup(ms, data_key()) is Some)
            &&& (found matches Some(v) ==> spec_lookup(ms, data_key()) == Some(v@))
        },
    decreases s@.len() - i,
{
    let k = skip_ws(s, i);
    if k < s.len() && s[k] == 0x22 {
        match string_body(s, k + 1) {
            Some((key, j)) => {
                let c = skip_ws(s, j);
                if c < s.len() && s[c] == 0x3a {
                    let vs = skip_ws(s, c + 1);
                    match parse_scalar(s, vs) {
                        Some((v, e)) => {
                            let t = skip_ws(s, e);
                            let is_data = key.len() == 4 && key[0] == 0x64 && key[1] == 0x61
                                && key[2] == 0x74 && key[3] == 0x61;
                            proof {
                                if is_data {
                                    assert(key@ =~= data_key());
                                } else {
                                    if key@ == data_key() {
                                        assert(key@.len() == 4);
                                        assert(key@[0] == 0x64 && key@[1] == 0x61 && key@[2]
                                            == 0x74 && key@[3] == 0x61);
                                    }
                                }
                            }
                            if t < s.len() && s[t] == 0x2c {
                                match parse_members(s, t + 1) {
                                    Some((rf, rend)) => {
                                        let found: Option<PropertyValue> = if is_data {
                                            Some(v)
                                        } else {
                                            rf
                                        };
                                        proof {
                                            let (rest_ms, _) = spec_parse_members(
                                                s@,
                                                (t + 1) as int,
                                            )->Some_0;
                                            let ms = seq![(key@, v@)] + rest_ms;
                                            assert(ms[0] == (key@, v@));
                                            assert(ms.drop_first() =~= rest_ms);
                                            assert(spec_lookup(ms, data_key()) == (if key@
                                                == data_key() {
                                                Some(v@)
                                            } else {
                                                spec_lookup(rest_ms, data_key())
                                            }));
                                        }
                                        Some((found, rend))
                                    },
                                    None => None,
                                }
                            } else {
                                let found: Option<PropertyValue> = if is_data {
                                    Some(v)
                                } else {
                                    None
                                };
                                proof {
                                    let ms = seq![(key@, v@)];
                                    assert(ms[0] == (key@, v@));
                                    assert(ms.drop_first() =~= Seq::<(Seq<u8>, crate::value::SpecValue)>::empty());
                                    assert(spec_lookup(
                                        Seq::<(Seq<u8>, crate::value::SpecValue)>::empty(),
                                        data_key(),
                                    ) is None);
                                    assert(spec_lookup(ms, data_key()) == (if key@ == data_key() {
                                        Some(v@)
                                    } else {
                                        Option::<crate::value::SpecValue>::None
                                    }));
                                }
                                Some((found, t))
                            }
                        },
                        None => None,
                    }
                } else {
                    None
                }
            },
            None => None,
        }
    } else {
        None
    }
}

/// Decodes one raw reply: parses it as one JSON object of scalars and
/// returns the value of its `data` member. Any input the grammar does not
/// accept, and any reply without a `data` member, is a malformed reply —
/// an error value, never a crash.
pub fn decode_reply(raw: &[u8]) -> (r: Result<PropertyValue, ProtocolError>)
    ensures
        r is Ok <==> spec_reply_data(raw@) is Some,
        r matches Ok(v) ==> spec_reply_data(raw@) == Some(v@),
        r matches Err(e) ==> e == ProtocolError::Malformed,
{
    let s = raw;
    let i = skip_ws(s, 0);
    if i < s.len() && s[i] == 0x7b {
        let j = skip_ws(s, i + 1);
        if j < s.len() && s[j] == 0x7d {
            // An empty object has no `data` member.
            Err(ProtocolError::Malformed)
        } else {
            match parse_members(s, i + 1) {
                Some((found, t)) => {
                    if t < s.len() && s[t] == 0x7d {
                        let end = skip_ws(s, t + 1);
                        if end == s.len() {
                            match found {
                                Some(v) => Ok(v),
                                None => Err(ProtocolError::Malformed),
                            }
                        } else {
                            Err(ProtocolError::Malformed)
                        }
                    } else {
                        Err(ProtocolError::Malformed)
                    }
                },
                None => Err(ProtocolError::Malformed),
            }
        }
    } else {
        Err(ProtocolError::Malformed)
    }
}

fn escape_exec(b: u8) -> (r: Option<u8>)
    ensures
        r == spec_escape(b),
        r matches Some(c) ==> c < 0x80,
{
    if b == 0x22 {
        Some(0x22)
    } else if b == 0x5c {
        Some(0x5c)
    } else if b == 0x2f {
        Some(0x2f)
    } else if b == 0x62 {
        Some(0x08)
    } else if b == 0x66 {
        Some(0x0c)
    } else if b == 0x6e {
        Some(0x0a)
    } else if b == 0x72 {
        Some(0x0d)
    } else if b == 0x74 {
        Some(0x09)
    } else {
        None
    }
}

} // verus!
