//! Fixed-point decimal numbers.
//!
//! The player reports and accepts numeric property values (volume, playback
//! position, duration) as decimal text. This client represents such a value
//! exactly as a count of millionths of a unit, which covers every value with
//! at most six fractional decimal digits and makes the arithmetic of the
//! control operations exact.

use vstd::prelude::*;
use crate::ascii::{ascii_bytes, chars_of_bytes, string_from_ascii};

verus! {

/// Millionths of a unit in one unit.
pub const MICROS_PER_UNIT: i64 = 1_000_000;

/// Largest whole-unit magnitude whose micro count still fits in an `i64`.
pub const MAX_UNITS: i64 = 9_223_372_036_854;

/// A decimal number held exactly as a count of millionths of a unit.
#[derive(Clone, Copy, PartialEq, Eq, Structural, Debug)]
pub struct Fixed {
    pub micros: i64,
}

/// 10 raised to `k`.
pub open spec fn pow10(k: nat) -> nat
    decreases k,
{
    if k == 0 {
        1
    } else {
        10 * pow10((k - 1) as nat)
    }
}

/// The ASCII decimal digits of `n`, most significant first, no leading
/// zeros (a lone `0` for zero).
pub open spec fn spec_digits(n: nat) -> Seq<u8>
    decreases n,
{
    if n < 10 {
        seq![(0x30 + n) as u8]
    } else {
        spec_digits(n / 10).push((0x30 + n % 10) as u8)
    }
}

/// The ASCII digits of the fraction `f / 10^w`, most significant first,
/// with trailing zero digits omitted (empty when the fraction is zero).
pub open spec fn spec_frac_digits(f: nat, w: nat) -> Seq<u8>
    decreases w,
{
    if w == 0 || f == 0 {
        Seq::empty()
    } else {
        seq![(0x30 + f / pow10((w - 1) as nat)) as u8] + spec_frac_digits(
            f % pow10((w - 1) as nat),
            (w - 1) as nat,
        )
    }
}

/// The decimal rendering of `m` micro-units: optional minus sign, whole
/// units, and a fractional part only when it is non-zero, with trailing
/// zeros stripped. This is the exact text sent to the player when a number
/// is written.
pub open spec fn spec_render_micros(m: int) -> Seq<u8> {
    let a = if m < 0 { -m } else { m };
    let sign: Seq<u8> = if m < 0 { seq![0x2du8] } else { Seq::empty() };
    let units = a / (MICROS_PER_UNIT as int);
    let frac = a % (MICROS_PER_UNIT as int);
    sign + spec_digits(units as nat) + if frac == 0 {
        Seq::<u8>::empty()
    } else {
        seq![0x2eu8] + spec_frac_digits(frac as nat, 6)
    }
}

/// The decimal rendering of the integer `n`: optional minus sign, then its
/// digits. This is the text form used for whole-valued properties such as
/// track identifiers.
pub open spec fn spec_render_int(n: int) -> Seq<u8> {
    let a = if n < 0 { -n } else { n };
    let sign: Seq<u8> = if n < 0 { seq![0x2du8] } else { Seq::empty() };
    sign + spec_digits(a as nat)
}

/// The decimal rendering of `n` as wire bytes.
pub fn render_i64(n: i64) -> (r: Vec<u8>)
    ensures
        r@ == spec_render_int(n as int),
        ascii_bytes(r@),
{
    let mut out: Vec<u8> = Vec::new();
    let a: u64 = if n < 0 {
        out.push(0x2d);
        ((-(n + 1)) as u64) + 1
    } else {
        n as u64
    };
    push_digits(&mut out, a);
    proof {
        lemma_digits_are_digits(a as nat);
        assert(out@ =~= spec_render_int(n as int));
    }
    out
}

/// Every digit produced for `n` is an ASCII digit.
pub proof fn lemma_digits_are_digits(n: nat)
    ensures
        forall|i: int| 0 <= i < spec_digits(n).len() ==> 0x30 <= #[trigger] spec_digits(n)[i]
            <= 0x39,
        spec_digits(n).len() >= 1,
    decreases n,
{
    if n >= 10 {
        lemma_digits_are_digits(n / 10);
    }
}

/// Every digit produced for a fraction is an ASCII digit.
pub proof fn lemma_frac_digits_are_digits(f: nat, w: nat)
    requires
        f < pow10(w),
    ensures
        forall|i: int| 0 <= i < spec_frac_digits(f, w).len() ==> 0x30
            <= #[trigger] spec_frac_digits(f, w)[i] <= 0x39,
        spec_frac_digits(f, w).len() <= w,
    decreases w,
{
    if w != 0 && f != 0 {
        let p = pow10((w - 1) as nat);
        assert(p > 0) by {
            lemma_pow10_positive((w - 1) as nat);
        }
        assert(f / p <= 9) by (nonlinear_arith)
            requires
                f < 10 * p,
                p > 0,
        ;
        assert(f % p < p) by (nonlinear_arith)
            requires
                p > 0,
        ;
        lemma_frac_digits_are_digits((f % p) as nat, (w - 1) as nat);
    }
}

/// The powers of ten up to the fraction width used here, spelled out.
pub proof fn lemma_pow10_small()
    ensures
        pow10(0) == 1,
        pow10(1) == 10,
        pow10(2) == 100,
        pow10(3) == 1000,
        pow10(4) == 10000,
        pow10(5) == 100000,
        pow10(6) == 1000000,
{
    assert(pow10(0) == 1);
    assert(pow10(1) == 10);
    assert(pow10(2) == 100);
    assert(pow10(3) == 1000);
    assert(pow10(4) == 10000);
    assert(pow10(5) == 100000);
    assert(pow10(6) == 1000000);
}

/// Powers of ten multiply by adding exponents.
pub proof fn lemma_pow10_add(a: nat, b: nat)
    ensures
        pow10(a) * pow10(b) == pow10(a + b),
    decreases a,
{
    if a == 0 {
        assert(pow10(0) * pow10(b) == pow10(b)) by (nonlinear_arith)
            requires
                pow10(0) == 1,
        ;
    } else {
        lemma_pow10_add((a - 1) as nat, b);
        assert(10 * pow10((a - 1) as nat) * pow10(b) == 10 * (pow10((a - 1) as nat) * pow10(b)))
            by (nonlinear_arith);
    }
}

pub proof fn lemma_pow10_positive(k: nat)
    ensures
        pow10(k) >= 1,
    decreases k,
{
    if k > 0 {
        lemma_pow10_positive((k - 1) as nat);
    }
}

/// The rendering of any micro count is ASCII text.
pub proof fn lemma_render_ascii(m: int)
    requires
        -0x8000_0000_0000_0000 <= m < 0x8000_0000_0000_0000,
    ensures
        ascii_bytes(spec_render_micros(m)),
{
    let a = if m < 0 { -m } else { m };
    let units = a / (MICROS_PER_UNIT as int);
    let frac = a % (MICROS_PER_UNIT as int);
    lemma_digits_are_digits(units as nat);
    assert(0 <= frac < 1_000_000) by (nonlinear_arith)
        requires
            a >= 0,
            frac == a % 1_000_000,
    ;
    lemma_pow10_small();
    lemma_frac_digits_are_digits(frac as nat, 6);
}

impl Fixed {
    /// The number of whole units, `u`, as exactly `u` units.
    /// `None` when `u * 1_000_000` does not fit in an `i64`.
    pub fn from_units(u: i64) -> (r: Option<Fixed>)
        ensures
            r is Some <==> -MAX_UNITS <= u <= MAX_UNITS,
            r is Some ==> r->Some_0.micros == u * (MICROS_PER_UNIT as int),
    {
        if -MAX_UNITS <= u && u <= MAX_UNITS {
            Some(Fixed { micros: u * MICROS_PER_UNIT })
        } else {
            None
        }
    }

    /// The sum, when it fits in an `i64`.
    pub fn checked_add(self, other: Fixed) -> (r: Option<Fixed>)
        ensures
            r is Some <==> i64::MIN <= self.micros + other.micros <= i64::MAX,
            r is Some ==> r->Some_0.micros == self.micros + other.micros,
    {
        if other.micros >= 0 {
            if self.micros <= i64::MAX - other.micros {
                Some(Fixed { micros: self.micros + other.micros })
            } else {
                None
            }
        } else {
            if self.micros >= i64::MIN - other.micros {
                Some(Fixed { micros: self.micros + other.micros })
            } else {
                None
            }
        }
    }

    /// The difference, when it fits in an `i64`.
    pub fn checked_sub(self, other: Fixed) -> (r: Option<Fixed>)
        ensures
            r is Some <==> i64::MIN <= self.micros - other.micros <= i64::MAX,
            r is Some ==> r->Some_0.micros == self.micros - other.micros,
    {
        if other.micros >= 0 {
            if self.micros >= i64::MIN + other.micros {
                Some(Fixed { micros: self.micros - other.micros })
            } else {
                None
            }
        } else {
            if self.micros <= i64::MAX + other.micros {
                Some(Fixed { micros: self.micros - other.micros })
            } else {
                None
            }
        }
    }

    /// The decimal rendering of this value as wire bytes.
    pub fn to_ascii(self) -> (r: Vec<u8>)
        ensures
            r@ == spec_render_micros(self.micros as int),
            ascii_bytes(r@),
    {
        let mut out: Vec<u8> = Vec::new();
        let a: u64 = if self.micros < 0 {
            out.push(0x2d);
            ((-(self.micros + 1)) as u64) + 1
        } else {
            self.micros as u64
        };
        let units: u64 = a / 1_000_000;
        let frac: u64 = a % 1_000_000;
        push_digits(&mut out, units);
        if frac != 0 {
            out.push(0x2e);
            proof {
                lemma_pow10_small();
            }
            push_frac_digits(&mut out, frac, 6);
        }
        proof {
            lemma_render_ascii(self.micros as int);
            assert(out@ =~= spec_render_micros(self.micros as int));
        }
        out
    }

    /// The decimal rendering of this value as text.
    pub fn to_decimal_string(self) -> (r: String)
        ensures
            r@ == chars_of_bytes(spec_render_micros(self.micros as int)),
    {
        let bytes = self.to_ascii();
        string_from_ascii(&bytes)
    }
}

/// Appends the decimal digits of `n`.
fn push_digits(out: &mut Vec<u8>, n: u64)
    ensures
        final(out)@ == old(out)@ + spec_digits(n as nat),
    decreases n,
{
    if n < 10 {
        out.push(0x30 + n as u8);
        proof {
            assert(out@ =~= old(out)@ + spec_digits(n as nat));
        }
    } else {
        push_digits(out, n / 10);
        out.push(0x30 + (n % 10) as u8);
        proof {
            assert(out@ =~= old(out)@ + spec_digits(n as nat));
        }
    }
}

/// Appends the digits of the fraction `f / 10^w`, trailing zeros stripped.
fn push_frac_digits(out: &mut Vec<u8>, f: u64, w: usize)
    requires
        w <= 6,
        f < pow10(w as nat),
    ensures
        final(out)@ == old(out)@ + spec_frac_digits(f as nat, w as nat),
    decreases w,
{
    if w == 0 || f == 0 {
        proof {
            assert(out@ =~= old(out)@ + spec_frac_digits(f as nat, w as nat));
        }
    } else {
        let p: u64 = pow10_exec(w - 1);
        proof {
            lemma_pow10_positive((w - 1) as nat);
            assert(f / p <= 9) by (nonlinear_arith)
                requires
                    f < 10 * p,
                    p > 0,
            ;
            assert(f % p < p) by (nonlinear_arith)
                requires
                    p > 0,
            ;
        }
        out.push(0x30 + (f / p) as u8);
        push_frac_digits(out, f % p, w - 1);
        proof {
            assert(out@ =~= old(out)@ + spec_frac_digits(f as nat, w as nat));
        }
    }
}

/// 10 raised to `k`, executable, for the fraction widths used here.
pub fn pow10_exec(k: usize) -> (r: u64)
    requires
        k <= 6,
    ensures
        r == pow10(k as nat),
        r >= 1,
{
    proof {
        lemma_pow10_small();
    }
    if k == 0 {
        1
    } else if k == 1 {
        10
    } else if k == 2 {
        100
    } else if k == 3 {
        1_000
    } else if k == 4 {
        10_000
    } else if k == 5 {
        100_000
    } else {
        1_000_000
    }
}

} // verus!
