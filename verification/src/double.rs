//! Fixed-point real values.
//!
//! A DXF value line for a real quantity is written with exactly twelve
//! fractional digits, so every value the codec can emit is a whole number of
//! 1e-12 units.  `Double` holds such a quantity exactly: a sign, whole units,
//! and a numerator of 1e-12 units below one.  Reading truncates fractional
//! digits past the twelfth.
use vstd::prelude::*;

use crate::num::{
    all_digits, dec_digits, digits_val, fmt_u64, is_digit, lemma_dec_digits_len,
    lemma_dec_digits_val, lemma_digits_val_bound, lemma_pow10_add, lemma_pow10_pos, parse_u64,
    pow10,
};

verus! {

/// How many 1e-12 units make one whole unit.
pub const FRAC_ONE: u64 = 1_000_000_000_000;

/// A real quantity as a sign and a fixed-point magnitude:
/// `units + frac / 1e12`, negated when `neg` is set.
#[derive(Clone, Copy, Debug, PartialEq, Eq, Structural)]
pub struct Double {
    /// The value is negative.
    pub neg: bool,
    /// Whole units of the magnitude.
    pub units: u64,
    /// 1e-12 units of the magnitude below one; always below 1e12.
    pub frac: u64,
}

impl Double {
    /// The representation invariant: the fractional part is a proper
    /// fraction, and zero is never marked negative.
    pub open spec fn wf(self) -> bool {
        self.frac < FRAC_ONE && !(self.neg && self.units == 0 && self.frac == 0)
    }

    /// The value in whole 1e-12 units.
    pub open spec fn scaled(self) -> int {
        if self.neg {
            -(self.units * FRAC_ONE + self.frac)
        } else {
            self.units * FRAC_ONE + self.frac
        }
    }

    /// The zero value.
    pub fn zero() -> (r: Double)
        ensures
            r == (Double { neg: false, units: 0, frac: 0 }),
            r.wf(),
    {
        Double { neg: false, units: 0, frac: 0 }
    }

    /// The value `units`, a whole non-negative quantity.
    pub fn from_units(units: u64) -> (r: Double)
        ensures
            r == (Double { neg: false, units, frac: 0 }),
            r.wf(),
    {
        Double { neg: false, units, frac: 0 }
    }

    /// Builds a value out of its sign and magnitude parts; a zero magnitude
    /// loses its sign so that equal values are equal records.
    pub fn new(neg: bool, units: u64, frac: u64) -> (r: Double)
        requires
            frac < FRAC_ONE,
        ensures
            r == spec_new_double(neg, units, frac),
            r.wf(),
    {
        if units == 0 && frac == 0 {
            Double { neg: false, units, frac }
        } else {
            Double { neg, units, frac }
        }
    }

    /// The value is exactly zero.
    pub fn is_zero(&self) -> (r: bool)
        ensures
            r == (self.units == 0 && self.frac == 0),
    {
        self.units == 0 && self.frac == 0
    }

    /// The whole value `v`.
    pub fn from_i64(v: i64) -> (r: Double)
        ensures
            r == spec_double_from_int(v as int),
            r.wf(),
    {
        if v >= 0 {
            Double { neg: false, units: v as u64, frac: 0 }
        } else {
            let mag: u64 = ((-(v + 1)) as u64) + 1;
            proof {
                assert(mag == -(v as int));
            }
            Double { neg: true, units: mag, frac: 0 }
        }
    }

    /// The value cut toward zero and clamped to the `i32` range.
    pub fn to_i32_saturating(&self) -> (r: i32)
        ensures
            r as int == spec_double_to_i32(*self),
    {
        if self.neg {
            if self.units > 2147483648u64 {
                i32::MIN
            } else if self.units == 2147483648u64 {
                i32::MIN
            } else {
                -(self.units as i32)
            }
        } else {
            if self.units > 2147483647u64 {
                i32::MAX
            } else {
                self.units as i32
            }
        }
    }
}

/// The fixed-point record of a whole number.
pub open spec fn spec_double_from_int(v: int) -> Double {
    if v < 0 {
        Double { neg: true, units: (-v) as u64, frac: 0 }
    } else {
        Double { neg: false, units: v as u64, frac: 0 }
    }
}

/// A fixed-point value cut toward zero and clamped to the `i32` range.
pub open spec fn spec_double_to_i32(d: Double) -> int {
    let t = if d.neg {
        -(d.units as int)
    } else {
        d.units as int
    };
    if t > i32::MAX {
        i32::MAX as int
    } else if t < i32::MIN {
        i32::MIN as int
    } else {
        t
    }
}

/// The record `new` builds: the given sign and magnitude, except that a zero
/// magnitude is never negative.
pub open spec fn spec_new_double(neg: bool, units: u64, frac: u64) -> Double {
    if units == 0 && frac == 0 {
        Double { neg: false, units, frac }
    } else {
        Double { neg, units, frac }
    }
}

/// The value of a run of fractional digits: the first twelve digits scaled
/// so that twelve digits fill the fractional field; later digits are cut.
pub open spec fn frac_val(s: Seq<u8>) -> nat {
    let t = if s.len() <= 12 {
        s
    } else {
        s.take(12)
    };
    digits_val(t) * pow10((12 - t.len()) as nat)
}

/// The index of the first `b` in `s`, or `s.len()` if there is none.
pub open spec fn find_byte(s: Seq<u8>, b: u8) -> int
    decreases s.len(),
{
    if s.len() == 0 {
        0
    } else if s[0] == b {
        0
    } else {
        1 + find_byte(s.skip(1), b)
    }
}

pub proof fn lemma_find_byte(s: Seq<u8>, b: u8)
    ensures
        0 <= find_byte(s, b) <= s.len(),
        forall|i: int| 0 <= i < find_byte(s, b) ==> s[i] != b,
        find_byte(s, b) < s.len() ==> s[find_byte(s, b)] == b,
    decreases s.len(),
{
    if s.len() == 0 {
    } else if s[0] == b {
    } else {
        lemma_find_byte(s.skip(1), b);
        assert forall|i: int| 0 <= i < find_byte(s, b) implies s[i] != b by {
            if i > 0 {
                assert(s.skip(1)[i - 1] == s[i]);
            }
        }
        if find_byte(s, b) < s.len() {
            assert(s.skip(1)[find_byte(s.skip(1), b)] == s[find_byte(s, b)]);
        }
    }
}

/// What an unsigned fixed-point value line names: a run of digits, with at
/// most one point, and at least one digit on one side of it; the whole part
/// must fit in a `u64`.
pub open spec fn dbl_parse_unsigned(s: Seq<u8>) -> Option<Double> {
    let dp = find_byte(s, 46);
    let ip = s.take(dp);
    let fp = if dp < s.len() {
        s.skip(dp + 1)
    } else {
        Seq::<u8>::empty()
    };
    if !all_digits(ip) || !all_digits(fp) || (ip.len() == 0 && fp.len() == 0) || digits_val(ip)
        > u64::MAX {
        None
    } else {
        Some(spec_new_double(false, digits_val(ip) as u64, frac_val(fp) as u64))
    }
}

/// What a fixed-point value line names: an optional sign, then an unsigned
/// fixed-point number.
pub open spec fn dbl_parse(s: Seq<u8>) -> Option<Double> {
    if s.len() >= 1 && (s[0] == 45 || s[0] == 43) {
        match dbl_parse_unsigned(s.skip(1)) {
            Some(d) => Some(spec_new_double(s[0] == 45, d.units, d.frac)),
            None => None,
        }
    } else {
        dbl_parse_unsigned(s)
    }
}

pub proof fn lemma_pow10_12()
    ensures
        pow10(12) == FRAC_ONE,
{
    reveal_with_fuel(pow10, 13);
}

/// The fractional value of a digit run always fits the fractional field.
pub proof fn lemma_frac_val_bound(s: Seq<u8>)
    requires
        all_digits(s),
    ensures
        frac_val(s) < FRAC_ONE,
{
    let t = if s.len() <= 12 {
        s
    } else {
        s.take(12)
    };
    assert(all_digits(t)) by {
        assert(forall|i: int| 0 <= i < t.len() ==> t[i] == s[i]);
    }
    lemma_digits_val_bound(t);
    lemma_pow10_add(t.len(), (12 - t.len()) as nat);
    lemma_pow10_pos((12 - t.len()) as nat);
    lemma_pow10_12();
    assert(digits_val(t) * pow10((12 - t.len()) as nat) < pow10(t.len()) * pow10(
        (12 - t.len()) as nat,
    )) by (nonlinear_arith)
        requires
            digits_val(t) < pow10(t.len()),
            pow10((12 - t.len()) as nat) >= 1,
    ;
}

/// Looks for the first `b` in `s`.
pub fn find_byte_at(s: &[u8], b: u8) -> (r: usize)
    ensures
        r == find_byte(s@, b),
{
    let mut i: usize = 0;
    while i < s.len()
        invariant
            0 <= i <= s@.len(),
            forall|j: int| 0 <= j < i ==> s@[j] != b,
        decreases s@.len() - i,
    {
        if s[i] == b {
            proof {
                lemma_find_byte(s@, b);
            }
            return i;
        }
        i = i + 1;
    }
    proof {
        lemma_find_byte(s@, b);
    }
    i
}

/// Reads an unsigned fixed-point value line.
fn parse_double_unsigned(s: &[u8]) -> (r: Option<Double>)
    ensures
        r == dbl_parse_unsigned(s@),
        r is Some ==> r.unwrap().wf(),
{
    proof {
        lemma_find_byte(s@, 46);
    }
    let dp: usize = find_byte_at(s, 46);
    let ip: &[u8] = crate::num::slice_part(s, 0, dp);
    let fp: &[u8] = if dp < s.len() {
        crate::num::slice_part(s, dp + 1, s.len())
    } else {
        crate::num::slice_part(s, s.len(), s.len())
    };
    proof {
        assert(ip@ =~= s@.take(dp as int));
        if dp < s@.len() {
            assert(fp@ =~= s@.skip(dp + 1));
        } else {
            assert(fp@ =~= Seq::<u8>::empty());
        }
    }
    let units: u64;
    if ip.len() == 0 {
        units = 0;
        if fp.len() == 0 {
            return None;
        }
    } else {
        match parse_u64(ip) {
            Some(u) => {
                units = u;
            },
            None => {
                return None;
            },
        }
    }
    match parse_frac(fp) {
        Some(frac) => {
            proof {
                lemma_frac_val_bound(fp@);
            }
            Some(Double::new(false, units, frac))
        },
        None => None,
    }
}

/// Reads the digits after the point: the first twelve weigh in, later ones
/// are checked and cut.
fn parse_frac(s: &[u8]) -> (r: Option<u64>)
    ensures
        match r {
            Some(v) => all_digits(s@) && frac_val(s@) == v,
            None => !all_digits(s@),
        },
{
    let ghost t = if s@.len() <= 12 {
        s@
    } else {
        s@.take(12)
    };
    proof {
        lemma_pow10_12();
    }
    let mut acc: u64 = 0;
    let mut i: usize = 0;
    while i < s.len()
        invariant
            0 <= i <= s@.len(),
            all_digits(s@.take(i as int)),
            t == (if s@.len() <= 12 {
                s@
            } else {
                s@.take(12)
            }),
            acc == digits_val(t.take(if i < 12 {
                i as int
            } else {
                12
            })),
            acc < pow10(12),
        decreases s@.len() - i,
    {
        let b: u8 = s[i];
        if b < 48 || b > 57 {
            return None;
        }
        if i < 12 {
            let d: u64 = (b - 48) as u64;
            proof {
                let k = i as int;
                assert(t.take(k + 1).drop_last() =~= t.take(k));
                assert(t.take(k + 1).last() == s@[k]);
                assert(all_digits(t.take(k + 1))) by {
                    assert(forall|j: int| 0 <= j < k + 1 ==> t.take(k + 1)[j] == s@[j]);
                }
                lemma_digits_val_bound(t.take(k + 1));
                assert(t.take(k + 1).len() <= 12);
                lemma_pow10_monotone(t.take(k + 1).len(), 12);
                lemma_pow10_12();
            }
            acc = acc * 10 + d;
        }
        i = i + 1;
        proof {
            if i as int <= 12 {
            } else {
                assert(t.take(if i < 12 {
                    i as int
                } else {
                    12
                }) =~= t.take(12));
            }
        }
    }
    let k: usize = if s.len() < 12 {
        s.len()
    } else {
        12
    };
    proof {
        assert(s@.take(i as int) =~= s@);
        assert(t.take(k as int) =~= t);
    }
    let mult: u64 = pow10_u64((12 - k) as u64);
    proof {
        lemma_digits_val_bound(t);
        assert(all_digits(t)) by {
            assert(forall|j: int| 0 <= j < t.len() ==> t[j] == s@[j]);
        }
        lemma_pow10_add(t.len(), (12 - t.len()) as nat);
        lemma_pow10_pos((12 - t.len()) as nat);
        lemma_pow10_12();
        assert(digits_val(t) * pow10((12 - t.len()) as nat) < pow10(t.len()) * pow10(
            (12 - t.len()) as nat,
        )) by (nonlinear_arith)
            requires
                digits_val(t) < pow10(t.len()),
                pow10((12 - t.len()) as nat) >= 1,
        ;
    }
    Some(acc * mult)
}

pub proof fn lemma_pow10_monotone(a: nat, b: nat)
    requires
        a <= b,
    ensures
        pow10(a) <= pow10(b),
    decreases b - a,
{
    if a < b {
        lemma_pow10_monotone(a, (b - 1) as nat);
        lemma_pow10_pos((b - 1) as nat);
    }
}

/// Ten to the power `e` as a machine word; `e` is at most twelve.
fn pow10_u64(e: u64) -> (r: u64)
    requires
        e <= 12,
    ensures
        r == pow10(e as nat),
{
    proof {
        reveal_with_fuel(pow10, 13);
    }
    let mut r: u64 = 1;
    let mut i: u64 = 0;
    while i < e
        invariant
            0 <= i <= e <= 12,
            r == pow10(i as nat),
            r <= 1_000_000_000_000,
        decreases e - i,
    {
        proof {
            lemma_pow10_monotone((i + 1) as nat, 12);
            lemma_pow10_12();
        }
        r = r * 10;
        i = i + 1;
    }
    r
}

/// Reads a fixed-point value line.
pub fn parse_double(s: &[u8]) -> (r: Option<Double>)
    ensures
        r == dbl_parse(s@),
        r is Some ==> r.unwrap().wf(),
{
    if s.len() >= 1 && (s[0] == 45 || s[0] == 43) {
        let neg: bool = s[0] == 45;
        let rest: &[u8] = crate::num::slice_part(s, 1, s.len());
        proof {
            assert(rest@ =~= s@.skip(1));
        }
        match parse_double_unsigned(rest) {
            Some(d) => Some(Double::new(neg, d.units, d.frac)),
            None => None,
        }
    } else {
        parse_double_unsigned(s)
    }
}

/// A run of `n` ASCII zeros.
pub open spec fn zero_bytes(n: nat) -> Seq<u8> {
    Seq::new(n, |i: int| 48u8)
}

/// The twelve fractional digits of `f`, zero-padded on the left.
pub open spec fn frac12_digits(f: nat) -> Seq<u8> {
    zero_bytes((12 - dec_digits(f).len()) as nat) + dec_digits(f)
}

/// The text of a fixed-point value: optional minus, whole digits, a point,
/// then exactly twelve fractional digits.
pub open spec fn dbl_fmt(d: Double) -> Seq<u8> {
    (if d.neg {
        seq![45u8]
    } else {
        Seq::<u8>::empty()
    }) + dec_digits(d.units as nat) + seq![46u8] + frac12_digits(d.frac as nat)
}

/// Writes a fixed-point value line.
pub fn fmt_double(d: &Double) -> (r: Vec<u8>)
    requires
        d.wf(),
    ensures
        r@ == dbl_fmt(*d),
{
    let mut out: Vec<u8> = Vec::new();
    if d.neg {
        out.push(45);
    }
    let units_digits: Vec<u8> = fmt_u64(d.units);
    out.extend_from_slice(units_digits.as_slice());
    out.push(46);
    let frac_digits: Vec<u8> = fmt_u64(d.frac);
    proof {
        lemma_pow10_12();
        lemma_dec_digits_len(d.frac as nat, 12);
    }
    let pad: usize = 12 - frac_digits.len();
    let mut j: usize = 0;
    while j < pad
        invariant
            0 <= j <= pad,
            out@ == (if d.neg {
                seq![45u8]
            } else {
                Seq::<u8>::empty()
            }) + dec_digits(d.units as nat) + seq![46u8] + zero_bytes(j as nat),
        decreases pad - j,
    {
        out.push(48);
        proof {
            assert(zero_bytes((j + 1) as nat) =~= zero_bytes(j as nat).push(48u8));
        }
        j = j + 1;
    }
    out.extend_from_slice(frac_digits.as_slice());
    proof {
        assert(zero_bytes(pad as nat) == zero_bytes((12 - dec_digits(d.frac as nat).len()) as nat));
        assert(out@ =~= dbl_fmt(*d));
    }
    out
}

} // verus!
