//! Laws relating the encoder and the decoder.
//!
//! A control operation that writes a number sends its decimal rendering;
//! the player stores what that text parses to. The lemmas here close that
//! loop: the rendering of any representable value parses back to exactly
//! that value, so a write followed by a read is lossless, and one step up
//! followed by one step down restores the starting value exactly. They
//! also pin the framing down: every command the encoder produces is
//! exactly one newline-terminated line, so the line-framed wire carries
//! each command as a single message.

use vstd::prelude::*;
use crate::codec::spec_encode_get;
use crate::control::spec_num_of;
use crate::fixed::{pow10, spec_digits, spec_frac_digits, spec_render_micros, MICROS_PER_UNIT,
    lemma_digits_are_digits, lemma_frac_digits_are_digits, lemma_pow10_small, lemma_pow10_add,
    lemma_pow10_positive};
use crate::json::{is_digit, spec_digits_end, spec_digits_value, spec_frac_value,
    spec_parse_number};

verus! {

/// The digits of `n` are worth `n`.
proof fn lemma_digits_value_of_digits(n: nat)
    ensures
        spec_digits_value(spec_digits(n)) == n,
    decreases n,
{
    assert(spec_digits_value(Seq::<u8>::empty()) == 0);
    if n < 10 {
        let s = spec_digits(n);
        assert(s.drop_last() =~= Seq::<u8>::empty());
    } else {
        lemma_digits_value_of_digits(n / 10);
        let s = spec_digits(n);
        assert(s.drop_last() =~= spec_digits(n / 10));
    }
}

/// A digit run bounded on the right scans to exactly its end.
proof fn lemma_digits_end_of_run(s: Seq<u8>, i: int, k: int)
    requires
        0 <= i <= k <= s.len(),
        forall|j: int| i <= j < k ==> is_digit(s[j]),
        k == s.len() || !is_digit(s[k]),
    ensures
        spec_digits_end(s, i) == k,
    decreases k - i,
{
    if i < k {
        lemma_digits_end_of_run(s, i + 1, k);
    }
}

/// The value of two digit runs laid end to end.
proof fn lemma_digits_value_concat(a: Seq<u8>, b: Seq<u8>)
    ensures
        spec_digits_value(a + b) == spec_digits_value(a) * pow10(b.len()) + spec_digits_value(b),
    decreases b.len(),
{
    assert(spec_digits_value(Seq::<u8>::empty()) == 0);
    if b.len() == 0 {
        assert(a + b =~= a);
        assert(b =~= Seq::<u8>::empty());
        assert(spec_digits_value(a) * pow10(0) == spec_digits_value(a)) by (nonlinear_arith)
            requires
                pow10(0) == 1,
        ;
    } else {
        lemma_digits_value_concat(a, b.drop_last());
        let va = spec_digits_value(a);
        let vd = spec_digits_value(b.drop_last());
        let p = pow10((b.len() - 1) as nat);
        assert((a + b).drop_last() =~= a + b.drop_last());
        assert((a + b).last() == b.last());
        assert((va * p + vd) * 10 == va * (p * 10) + vd * 10) by (nonlinear_arith);
    }
}

/// The digits kept for a fraction, scaled back out to its full width,
/// are worth the fraction.
#[verifier::rlimit(50)]
proof fn lemma_frac_digits_value(f: nat, w: nat)
    requires
        f < pow10(w),
    ensures
        spec_digits_value(spec_frac_digits(f, w)) * pow10(
            (w - spec_frac_digits(f, w).len()) as nat,
        ) == f,
        spec_frac_digits(f, w).len() <= w,
    decreases w,
{
    lemma_frac_digits_are_digits(f, w);
    assert(spec_digits_value(Seq::<u8>::empty()) == 0);
    if w == 0 || f == 0 {
        if w == 0 {
            assert(pow10(0) == 1);
        }
        assert(f == 0);
        assert(spec_frac_digits(f, w) =~= Seq::<u8>::empty());
        assert(spec_digits_value(spec_frac_digits(f, w)) == 0);
        let width = (w - spec_frac_digits(f, w).len()) as nat;
        assert(0 * pow10(width) == 0) by (nonlinear_arith);
        assert(spec_digits_value(spec_frac_digits(f, w)) * pow10(
            (w - spec_frac_digits(f, w).len()) as nat,
        ) == f);
    } else {
        let p = pow10((w - 1) as nat);
        lemma_pow10_positive((w - 1) as nat);
        let q = f / p;
        let r0 = f % p;
        assert(q <= 9) by (nonlinear_arith)
            requires
                f < 10 * p,
                p > 0,
                q == f / p,
        ;
        assert(r0 < p) by (nonlinear_arith)
            requires
                p > 0,
                r0 == f % p,
        ;
        lemma_frac_digits_value(r0 as nat, (w - 1) as nat);
        let head = seq![(0x30 + q) as u8];
        let rest = spec_frac_digits(r0 as nat, (w - 1) as nat);
        let rlen = rest.len();
        assert(spec_frac_digits(f, w) == head + rest);
        lemma_digits_value_concat(head, rest);
        assert(spec_digits_value(head) == q) by {
            assert(head.drop_last() =~= Seq::<u8>::empty());
        }
        let vr = spec_digits_value(rest);
        let p_low = pow10((w - 1 - rlen) as nat);
        assert((((w - 1) as nat) - rlen) as nat == (w - 1 - rlen) as nat);
        assert(vr * p_low == r0);
        // vr * p_low == r0  (from the recursive call)
        lemma_pow10_add(rlen, (w - 1 - rlen) as nat);
        assert(pow10(rlen) * p_low == p);
        vstd::arithmetic::div_mod::lemma_fundamental_div_mod(f as int, p as int);
        assert((q * pow10(rlen) + vr) * p_low == q * (pow10(rlen) * p_low) + vr * p_low)
            by (nonlinear_arith);
        assert(q * p + r0 == f) by (nonlinear_arith)
            requires
                f == p * q + r0,
        ;
        assert(spec_digits_value(spec_frac_digits(f, w)) == q * pow10(rlen) + vr);
        assert((w - spec_frac_digits(f, w).len()) as nat == (w - 1 - rlen) as nat);
        assert(spec_digits_value(spec_frac_digits(f, w)) * pow10((w - 1 - rlen) as nat) == (q
            * pow10(rlen) + vr) * p_low);
        assert(spec_digits_value(spec_frac_digits(f, w)) * pow10(
            (w - spec_frac_digits(f, w).len()) as nat,
        ) == f);
    }
}

/// The decimal rendering of any representable micro count parses back to
/// a value that coerces, as a number, to exactly that micro count: a
/// written number is read back unchanged, for every value this client can
/// hold (every value with at most six fractional decimal digits).
pub proof fn lemma_number_round_trip(m: int)
    requires
        i64::MIN <= m <= i64::MAX,
    ensures
        spec_parse_number(spec_render_micros(m), 0) matches Some((v, e)) && e
            == spec_render_micros(m).len() && spec_num_of(v) == Some(m),
{
    lemma_pow10_small();
    let s = spec_render_micros(m);
    let a = if m < 0 {
        -m
    } else {
        m
    };
    let units = a / (MICROS_PER_UNIT as int);
    let frac = a % (MICROS_PER_UNIT as int);
    vstd::arithmetic::div_mod::lemma_fundamental_div_mod(a, MICROS_PER_UNIT as int);
    assert(0 <= frac < 1_000_000) by (nonlinear_arith)
        requires
            a >= 0,
            frac == a % 1_000_000,
    ;
    assert(0 <= units <= 9_223_372_036_854) by (nonlinear_arith)
        requires
            0 <= a <= 0x8000_0000_0000_0000,
            units == a / 1_000_000,
    ;
    let ds = spec_digits(units as nat);
    lemma_digits_are_digits(units as nat);
    lemma_digits_value_of_digits(units as nat);
    let sign: Seq<u8> = if m < 0 {
        seq![0x2du8]
    } else {
        Seq::empty()
    };
    let j: int = if m < 0 {
        1
    } else {
        0
    };
    let e = j + ds.len();
    if frac == 0 {
        assert(s =~= sign + ds);
        assert(forall|k: int| j <= k < e ==> is_digit(s[k]));
        lemma_digits_end_of_run(s, j, e);
        assert(s.subrange(j, e) =~= ds);
        // the whole rendering is consumed, so the parser takes the
        // whole-number path
        assert(e == s.len());
        if m < 0 {
            assert(s[0] == 0x2d);
            assert(m == -units * 1_000_000) by (nonlinear_arith)
                requires
                    a == 1_000_000 * units + frac,
                    frac == 0,
                    a == -m,
            ;
        } else {
            assert(!(s[0] == 0x2d));
            assert(m == units * 1_000_000) by (nonlinear_arith)
                requires
                    a == 1_000_000 * units + frac,
                    frac == 0,
                    a == m,
            ;
        }
    } else {
        let fds = spec_frac_digits(frac as nat, 6);
        lemma_frac_digits_are_digits(frac as nat, 6);
        lemma_frac_digits_value(frac as nat, 6);
        let flen = fds.len();
        assert(flen >= 1);
        assert(s =~= sign + ds + seq![0x2eu8] + fds);
        assert(forall|k: int| j <= k < e ==> is_digit(s[k]));
        assert(s[e] == 0x2e && !is_digit(s[e]));
        lemma_digits_end_of_run(s, j, e);
        assert(s.subrange(j, e) =~= ds);
        let fe = e + 1 + flen;
        assert(forall|k: int| e + 1 <= k < fe ==> is_digit(s[k]));
        assert(fe == s.len());
        lemma_digits_end_of_run(s, e + 1, fe);
        let fd = s.subrange(e + 1, fe);
        assert(fd =~= fds);
        // the fraction digits, scaled to millionths, are worth the
        // fraction
        let fv = spec_frac_value(fd);
        if flen >= 6 {
            assert(fd.take(6) =~= fd);
            assert(fv == spec_digits_value(fd) * pow10((6 - flen) as nat)) by {
                assert(pow10(0) == 1);
                assert(spec_digits_value(fd) * 1 == spec_digits_value(fd)) by (nonlinear_arith);
            }
        }
        assert(fv == frac);
        let mag = (units as nat) * 1_000_000 + fv;
        assert(mag == a) by (nonlinear_arith)
            requires
                a == 1_000_000 * units + frac,
                fv == frac,
                mag == units * 1_000_000 + fv,
        ;
        if m < 0 {
            assert(s[0] == 0x2d);
        } else {
            assert(!(s[0] == 0x2d));
        }
    }
}

/// Two distinct representable values never render to the same text: what
/// a write puts on the wire determines the value, so a read after a write
/// sees exactly the written value and nothing else.
pub proof fn lemma_render_injective(m1: int, m2: int)
    requires
        i64::MIN <= m1 <= i64::MAX,
        i64::MIN <= m2 <= i64::MAX,
        spec_render_micros(m1) == spec_render_micros(m2),
    ensures
        m1 == m2,
{
    lemma_number_round_trip(m1);
    lemma_number_round_trip(m2);
}

/// The command that sets a boolean property to `true` differs from the
/// one that sets it to `false`: the line a pause toggle writes determines
/// the new pause state, so toggling from state `b` leaves the player in
/// state `!b` and an immediate read yields the negation.
pub proof fn lemma_set_bool_commands_distinct(name: Seq<char>)
    ensures
        crate::codec::spec_encode_set_bool(name, true) != crate::codec::spec_encode_set_bool(
            name,
            false,
        ),
{
    reveal_strlit("\",true]}\n");
    reveal_strlit("\",false]}\n");
    assert(crate::codec::spec_encode_set_bool(name, true).len() != crate::codec::spec_encode_set_bool(
        name,
        false,
    ).len());
}

/// True when no character of `s` is a newline.
pub open spec fn newline_free(s: Seq<char>) -> bool {
    forall|i: int| 0 <= i < s.len() ==> s[i] != '\n'
}

/// Every `get_property` command is exactly one line: it ends with the one
/// newline it contains, so the line-framed wire protocol carries it as a
/// single message.
pub proof fn lemma_get_command_is_one_line(name: Seq<char>)
    requires
        newline_free(name),
    ensures
        spec_encode_get(name).last() == '\n',
        newline_free(spec_encode_get(name).drop_last()),
{
    reveal_strlit("{\"command\":[\"get_property\",\"");
    reveal_strlit("\"]}\n");
    let s = crate::codec::spec_encode_get(name);
    assert forall|i: int| 0 <= i < s.len() - 1 implies s[i] != '\n' by {
        assert(newline_free("{\"command\":[\"get_property\",\""@));
        assert(forall|j: int| 0 <= j < "\"]}\n"@.len() - 1 ==> "\"]}\n"@[j] != '\n');
    }
    assert(s.drop_last() =~= s.take(s.len() - 1));
}

/// Every `set_property` command is exactly one line, whichever boolean it
/// carries.
pub proof fn lemma_set_bool_command_is_one_line(name: Seq<char>, value: bool)
    requires
        newline_free(name),
    ensures
        crate::codec::spec_encode_set_bool(name, value).last() == '\n',
        newline_free(crate::codec::spec_encode_set_bool(name, value).drop_last()),
{
    reveal_strlit("{\"command\":[\"set_property\",\"");
    reveal_strlit("\",true]}\n");
    reveal_strlit("\",false]}\n");
    let s = crate::codec::spec_encode_set_bool(name, value);
    assert forall|i: int| 0 <= i < s.len() - 1 implies s[i] != '\n' by {
        assert(newline_free("{\"command\":[\"set_property\",\""@));
        assert(forall|j: int| 0 <= j < "\",true]}\n"@.len() - 1 ==> "\",true]}\n"@[j] != '\n');
        assert(forall|j: int| 0 <= j < "\",false]}\n"@.len() - 1 ==> "\",false]}\n"@[j] != '\n');
    }
    assert(s.drop_last() =~= s.take(s.len() - 1));
}

/// Every `set_property_string` command is exactly one line, for every
/// newline-free name and value.
pub proof fn lemma_set_string_command_is_one_line(name: Seq<char>, value: Seq<char>)
    requires
        newline_free(name),
        newline_free(value),
    ensures
        crate::codec::spec_encode_set_string(name, value).last() == '\n',
        newline_free(crate::codec::spec_encode_set_string(name, value).drop_last()),
{
    reveal_strlit("{\"command\":[\"set_property_string\",\"");
    reveal_strlit("\",\"");
    reveal_strlit("\"]}\n");
    let s = crate::codec::spec_encode_set_string(name, value);
    assert forall|i: int| 0 <= i < s.len() - 1 implies s[i] != '\n' by {
        assert(newline_free("{\"command\":[\"set_property_string\",\""@));
        assert(newline_free("\",\""@));
        assert(forall|j: int| 0 <= j < "\"]}\n"@.len() - 1 ==> "\"]}\n"@[j] != '\n');
    }
    assert(s.drop_last() =~= s.take(s.len() - 1));
}

/// Stepping a number up by `delta` and then down by `delta` restores it
/// exactly: the text written by the first step parses back to the moved
/// value, and moving that value back lands on the starting value. With
/// `delta` the volume step this is one `volume_up` then one
/// `volume_down`; with the seek step it is one `skip_forward` then one
/// `skip_backward`; read with a negative `delta` it covers the reverse
/// orders.
pub proof fn lemma_adjust_round_trip(m: int, delta: int)
    requires
        i64::MIN <= m <= i64::MAX,
        i64::MIN <= m + delta <= i64::MAX,
    ensures
        spec_num_of(spec_parse_number(spec_render_micros(m + delta), 0)->Some_0.0) == Some(
            m + delta,
        ),
        (m + delta) - delta == m,
{
    lemma_number_round_trip(m + delta);
}

} // verus!
