//! Decimal and hexadecimal parsing and formatting over ASCII bytes.
//!
//! Every DXF code line and numeric value line is a run of ASCII bytes; the
//! functions here turn such runs into integers and back, and their contracts
//! pin the exact digit strings involved.
use vstd::prelude::*;

verus! {

/// The byte is an ASCII decimal digit.
pub open spec fn is_digit(b: u8) -> bool {
    48 <= b <= 57
}

/// Every byte of `s` is an ASCII decimal digit.
pub open spec fn all_digits(s: Seq<u8>) -> bool {
    forall|i: int| 0 <= i < s.len() ==> is_digit(#[trigger] s[i])
}

/// The value of a run of decimal digits, most significant first.
pub open spec fn digits_val(s: Seq<u8>) -> nat
    decreases s.len(),
{
    if s.len() == 0 {
        0
    } else {
        digits_val(s.drop_last()) * 10 + (s.last() - 48) as nat
    }
}

/// Ten to the power `e`.
pub open spec fn pow10(e: nat) -> nat
    decreases e,
{
    if e == 0 {
        1
    } else {
        10 * pow10((e - 1) as nat)
    }
}

pub proof fn lemma_pow10_pos(e: nat)
    ensures
        pow10(e) >= 1,
    decreases e,
{
    if e > 0 {
        lemma_pow10_pos((e - 1) as nat);
    }
}

pub proof fn lemma_pow10_add(a: nat, b: nat)
    ensures
        pow10(a + b) == pow10(a) * pow10(b),
    decreases a,
{
    if a == 0 {
        assert(a + b == b);
        assert(pow10(a) == 1);
        assert(pow10(a + b) == pow10(b));
        assert(pow10(a + b) == pow10(a) * pow10(b));
    } else {
        lemma_pow10_add((a - 1) as nat, b);
        assert(pow10(a + b) == 10 * pow10((a - 1) as nat + b)) by {
            assert(a + b >= 1);
            assert(((a + b) - 1) as nat == (a - 1) as nat + b);
        }
        assert(pow10(a) == 10 * pow10((a - 1) as nat));
        assert(pow10(a + b) == pow10(a) * pow10(b)) by (nonlinear_arith)
            requires
                pow10(a + b) == 10 * pow10((a - 1) as nat + b),
                pow10((a - 1) as nat + b) == pow10((a - 1) as nat) * pow10(b),
                pow10(a) == 10 * pow10((a - 1) as nat),
        ;
    }
}

/// A digit run's value is below ten to its length.
pub proof fn lemma_digits_val_bound(s: Seq<u8>)
    requires
        all_digits(s),
    ensures
        digits_val(s) < pow10(s.len()),
    decreases s.len(),
{
    if s.len() == 0 {
    } else {
        assert(all_digits(s.drop_last())) by {
            assert(forall|i: int| 0 <= i < s.len() - 1 ==> is_digit(#[trigger] s[i]));
        }
        lemma_digits_val_bound(s.drop_last());
        assert(is_digit(s.last()));
        assert(digits_val(s.drop_last()) * 10 + 9 < pow10(s.len())) by {
            assert(pow10(s.len()) == 10 * pow10((s.len() - 1) as nat));
            assert(digits_val(s.drop_last()) + 1 <= pow10((s.len() - 1) as nat));
            assert((digits_val(s.drop_last()) + 1) * 10 <= pow10((s.len() - 1) as nat) * 10)
                by (nonlinear_arith)
                requires digits_val(s.drop_last()) + 1 <= pow10((s.len() - 1) as nat);
        }
    }
}

/// Extending a digit run on the right never lowers its value.
pub proof fn lemma_digits_val_prefix(s: Seq<u8>, i: int, j: int)
    requires
        0 <= i <= j <= s.len(),
    ensures
        digits_val(s.take(i)) <= digits_val(s.take(j)),
    decreases j - i,
{
    if i < j {
        lemma_digits_val_prefix(s, i, j - 1);
        assert(s.take(j).drop_last() =~= s.take(j - 1));
        assert(digits_val(s.take(j)) >= digits_val(s.take(j - 1)) * 10);
        assert(digits_val(s.take(j - 1)) * 10 >= digits_val(s.take(j - 1))) by (nonlinear_arith);
    }
}

/// The decimal digit string of `n`, most significant first, no sign,
/// no leading zero except for `n == 0` itself.
pub open spec fn dec_digits(n: nat) -> Seq<u8>
    decreases n,
{
    if n < 10 {
        seq![(48 + n) as u8]
    } else {
        dec_digits(n / 10).push((48 + n % 10) as u8)
    }
}

pub proof fn lemma_dec_digits_are_digits(n: nat)
    ensures
        dec_digits(n).len() >= 1,
        all_digits(dec_digits(n)),
    decreases n,
{
    if n >= 10 {
        lemma_dec_digits_are_digits(n / 10);
        assert forall|i: int| 0 <= i < dec_digits(n).len() implies is_digit(
            #[trigger] dec_digits(n)[i],
        ) by {
            if i < dec_digits(n / 10).len() {
                assert(dec_digits(n)[i] == dec_digits(n / 10)[i]);
            }
        }
    }
}

/// Formatting then reading a number yields the number back.
pub proof fn lemma_dec_digits_val(n: nat)
    ensures
        digits_val(dec_digits(n)) == n,
    decreases n,
{
    reveal_with_fuel(digits_val, 2);
    if n < 10 {
        assert(dec_digits(n).drop_last() =~= Seq::<u8>::empty());
        assert(digits_val(dec_digits(n).drop_last()) == 0);
    } else {
        lemma_dec_digits_val(n / 10);
        assert(dec_digits(n).drop_last() =~= dec_digits(n / 10));
        assert(digits_val(dec_digits(n).drop_last()) == n / 10);
    }
}

/// A number below `pow10(k)` has at most `k` digits.
pub proof fn lemma_dec_digits_len(n: nat, k: nat)
    requires
        n < pow10(k),
        k >= 1,
    ensures
        dec_digits(n).len() <= k,
    decreases n,
{
    if n < 10 {
    } else {
        assert(pow10(k) == 10 * pow10((k - 1) as nat));
        assert(n / 10 < pow10((k - 1) as nat));
        assert(k - 1 >= 1) by {
            lemma_pow10_pos((k - 1) as nat);
            if k == 1 {
                assert(pow10(k) == 10);
            }
        }
        lemma_dec_digits_len(n / 10, (k - 1) as nat);
    }
}

/// Reads an unsigned decimal number: all bytes must be digits and the value
/// must fit in a `u64`.
pub fn parse_u64(s: &[u8]) -> (r: Option<u64>)
    ensures
        match r {
            Some(v) => s@.len() > 0 && all_digits(s@) && digits_val(s@) == v,
            None => s@.len() == 0 || !all_digits(s@) || digits_val(s@) > u64::MAX,
        },
{
    if s.len() == 0 {
        return None;
    }
    let mut acc: u64 = 0;
    let mut i: usize = 0;
    while i < s.len()
        invariant
            0 <= i <= s@.len(),
            all_digits(s@.take(i as int)),
            digits_val(s@.take(i as int)) == acc,
        decreases s@.len() - i,
    {
        let b: u8 = s[i];
        if b < 48 || b > 57 {
            return None;
        }
        let d: u64 = (b - 48) as u64;
        proof {
            assert(s@.take(i + 1).drop_last() =~= s@.take(i as int));
        }
        if acc > (u64::MAX - d) / 10 {
            proof {
                lemma_digits_val_prefix(s@, i + 1, s@.len() as int);
                assert(s@.take(s@.len() as int) =~= s@);
                assert(acc * 10 + d > u64::MAX) by (nonlinear_arith)
                    requires
                        acc > (u64::MAX - d) / 10,
                        d <= 9,
                ;
            }
            return None;
        }
        proof {
            assert(acc * 10 + d <= u64::MAX) by (nonlinear_arith)
                requires
                    acc <= (u64::MAX - d) / 10,
                    d <= 9,
            ;
        }
        acc = acc * 10 + d;
        i = i + 1;
    }
    proof {
        assert(s@.take(i as int) =~= s@);
    }
    Some(acc)
}

/// The mathematical value named by an optionally signed decimal byte run,
/// ignoring any fixed-width bound.
pub open spec fn int_parse_val(s: Seq<u8>) -> int {
    if s.len() >= 1 && s[0] == 45 {
        -(digits_val(s.skip(1)) as int)
    } else if s.len() >= 1 && s[0] == 43 {
        digits_val(s.skip(1)) as int
    } else {
        digits_val(s) as int
    }
}

/// The byte run is a well-formed optionally signed decimal number.
pub open spec fn int_parse_ok(s: Seq<u8>) -> bool {
    if s.len() >= 1 && (s[0] == 45 || s[0] == 43) {
        s.len() >= 2 && all_digits(s.skip(1))
    } else {
        s.len() >= 1 && all_digits(s)
    }
}

/// Reads an optionally signed decimal number that must lie in
/// `[i64::MIN, i64::MAX]`.
pub fn parse_i64(s: &[u8]) -> (r: Option<i64>)
    ensures
        match r {
            Some(v) => int_parse_ok(s@) && int_parse_val(s@) == v,
            None => !int_parse_ok(s@) || int_parse_val(s@) < i64::MIN || int_parse_val(s@)
                > i64::MAX,
        },
{
    if s.len() == 0 {
        return None;
    }
    let first: u8 = s[0];
    if first == 45 {
        let mag: Option<u64> = parse_u64(slice_skip_one(s));
        match mag {
            Some(m) => {
                if m > 9223372036854775808u64 {
                    None
                } else if m == 9223372036854775808u64 {
                    Some(i64::MIN)
                } else {
                    Some(-(m as i64))
                }
            },
            None => {
                proof {
                    if int_parse_ok(s@) {
                        // the magnitude overflowed u64, so it is far below i64::MIN
                        assert(digits_val(s@.skip(1)) > u64::MAX);
                    }
                }
                None
            },
        }
    } else if first == 43 {
        let mag: Option<u64> = parse_u64(slice_skip_one(s));
        match mag {
            Some(m) => if m <= i64::MAX as u64 {
                Some(m as i64)
            } else {
                None
            },
            None => None,
        }
    } else {
        let mag: Option<u64> = parse_u64(s);
        match mag {
            Some(m) => if m <= i64::MAX as u64 {
                Some(m as i64)
            } else {
                None
            },
            None => None,
        }
    }
}

/// Hands back the slice without its first byte.
fn slice_skip_one(s: &[u8]) -> (r: &[u8])
    requires
        s@.len() >= 1,
    ensures
        r@ == s@.skip(1),
{
    let r: &[u8] = slice_part(s, 1, s.len());
    r
}

/// Hands back the bytes of `s` from `from` up to `to`.
pub fn slice_part(s: &[u8], from: usize, to: usize) -> (r: &[u8])
    requires
        0 <= from <= to <= s@.len(),
    ensures
        r@ == s@.subrange(from as int, to as int),
{
    vstd::slice::slice_subrange(s, from, to)
}

/// Reads a signed decimal number that must fit in an `i32`.
pub fn parse_i32(s: &[u8]) -> (r: Option<i32>)
    ensures
        match r {
            Some(v) => int_parse_ok(s@) && int_parse_val(s@) == v,
            None => !int_parse_ok(s@) || int_parse_val(s@) < i32::MIN || int_parse_val(s@)
                > i32::MAX,
        },
{
    match parse_i64(s) {
        Some(v) => if i32::MIN as i64 <= v && v <= i32::MAX as i64 {
            Some(v as i32)
        } else {
            None
        },
        None => None,
    }
}

/// Reads a signed decimal number that must fit in an `i16`.
pub fn parse_i16(s: &[u8]) -> (r: Option<i16>)
    ensures
        match r {
            Some(v) => int_parse_ok(s@) && int_parse_val(s@) == v,
            None => !int_parse_ok(s@) || int_parse_val(s@) < i16::MIN || int_parse_val(s@)
                > i16::MAX,
        },
{
    match parse_i64(s) {
        Some(v) => if i16::MIN as i64 <= v && v <= i16::MAX as i64 {
            Some(v as i16)
        } else {
            None
        },
        None => None,
    }
}

/// Writes `n` as decimal digits.
pub fn fmt_u64(n: u64) -> (r: Vec<u8>)
    ensures
        r@ == dec_digits(n as nat),
    decreases n,
{
    if n < 10 {
        let mut v: Vec<u8> = Vec::new();
        v.push(48 + n as u8);
        v
    } else {
        let mut v: Vec<u8> = fmt_u64(n / 10);
        v.push(48 + (n % 10) as u8);
        v
    }
}

/// The decimal text of a signed number: a `-` for a negative value, then its
/// magnitude's digits.
pub open spec fn int_dec(v: int) -> Seq<u8> {
    if v < 0 {
        seq![45u8] + dec_digits((-v) as nat)
    } else {
        dec_digits(v as nat)
    }
}

/// Writes `n` as an optionally signed run of decimal digits.
pub fn fmt_i64(n: i64) -> (r: Vec<u8>)
    ensures
        r@ == int_dec(n as int),
{
    if n >= 0 {
        fmt_u64(n as u64)
    } else {
        let mag: u64 = ((-(n + 1)) as u64) + 1;
        assert(mag == -(n as int));
        let digits: Vec<u8> = fmt_u64(mag);
        let mut v: Vec<u8> = Vec::new();
        v.push(45);
        let mut j: usize = 0;
        while j < digits.len()
            invariant
                0 <= j <= digits@.len(),
                v@ == seq![45u8] + digits@.take(j as int),
            decreases digits@.len() - j,
        {
            v.push(digits[j]);
            proof {
                assert(digits@.take(j + 1) =~= digits@.take(j as int).push(digits@[j as int]));
            }
            j = j + 1;
        }
        proof {
            assert(digits@.take(digits@.len() as int) =~= digits@);
        }
        v
    }
}

/// The byte is an upper-case ASCII hexadecimal digit.
pub open spec fn is_hex_digit(b: u8) -> bool {
    (48 <= b <= 57) || (65 <= b <= 70) || (97 <= b <= 102)
}

/// The value of one hexadecimal digit.
pub open spec fn hex_digit_val(b: u8) -> nat {
    if 48 <= b <= 57 {
        (b - 48) as nat
    } else if 65 <= b <= 70 {
        (b - 55) as nat
    } else {
        (b - 87) as nat
    }
}

pub open spec fn all_hex_digits(s: Seq<u8>) -> bool {
    forall|i: int| 0 <= i < s.len() ==> is_hex_digit(#[trigger] s[i])
}

/// The value of a run of hexadecimal digits, most significant first.
pub open spec fn hex_val(s: Seq<u8>) -> nat
    decreases s.len(),
{
    if s.len() == 0 {
        0
    } else {
        hex_val(s.drop_last()) * 16 + hex_digit_val(s.last()) as nat
    }
}

/// Reads an unsigned hexadecimal number, as a DXF handle is written; the
/// value must fit in a `u32`.
pub fn parse_hex_u32(s: &[u8]) -> (r: Option<u32>)
    ensures
        match r {
            Some(v) => s@.len() > 0 && all_hex_digits(s@) && hex_val(s@) == v,
            None => s@.len() == 0 || !all_hex_digits(s@) || hex_val(s@) > u32::MAX,
        },
{
    if s.len() == 0 {
        return None;
    }
    let mut acc: u32 = 0;
    let mut i: usize = 0;
    while i < s.len()
        invariant
            0 <= i <= s@.len(),
            all_hex_digits(s@.take(i as int)),
            hex_val(s@.take(i as int)) == acc,
        decreases s@.len() - i,
    {
        let b: u8 = s[i];
        let d: u32;
        if 48 <= b && b <= 57 {
            d = (b - 48) as u32;
        } else if 65 <= b && b <= 70 {
            d = (b - 55) as u32;
        } else if 97 <= b && b <= 102 {
            d = (b - 87) as u32;
        } else {
            return None;
        }
        proof {
            assert(s@.take(i + 1).drop_last() =~= s@.take(i as int));
        }
        if acc > (u32::MAX - d) / 16 {
            proof {
                lemma_hex_val_prefix(s@, i + 1, s@.len() as int);
                assert(s@.take(s@.len() as int) =~= s@);
                assert(acc * 16 + d > u32::MAX) by (nonlinear_arith)
                    requires
                        acc > (u32::MAX - d) / 16,
                        d <= 15,
                ;
            }
            return None;
        }
        proof {
            assert(acc * 16 + d <= u32::MAX) by (nonlinear_arith)
                requires
                    acc <= (u32::MAX - d) / 16,
                    d <= 15,
            ;
        }
        acc = acc * 16 + d;
        i = i + 1;
    }
    proof {
        assert(s@.take(i as int) =~= s@);
    }
    Some(acc)
}

/// Extending a hexadecimal run on the right never lowers its value.
pub proof fn lemma_hex_val_prefix(s: Seq<u8>, i: int, j: int)
    requires
        0 <= i <= j <= s.len(),
    ensures
        hex_val(s.take(i)) <= hex_val(s.take(j)),
    decreases j - i,
{
    if i < j {
        lemma_hex_val_prefix(s, i, j - 1);
        assert(s.take(j).drop_last() =~= s.take(j - 1));
        assert(hex_val(s.take(j - 1)) * 16 >= hex_val(s.take(j - 1))) by (nonlinear_arith);
    }
}

/// The upper-case hexadecimal digit string of `n`, most significant first.
pub open spec fn hex_digits(n: nat) -> Seq<u8>
    decreases n,
{
    if n < 16 {
        seq![hex_digit_byte(n)]
    } else {
        hex_digits(n / 16).push(hex_digit_byte(n % 16))
    }
}

/// The upper-case ASCII byte of one hexadecimal digit value.
pub open spec fn hex_digit_byte(d: nat) -> u8 {
    if d < 10 {
        (48 + d) as u8
    } else {
        (55 + d) as u8
    }
}

/// Writes `n` as upper-case hexadecimal digits, as a DXF handle is written.
pub fn fmt_hex_u32(n: u32) -> (r: Vec<u8>)
    ensures
        r@ == hex_digits(n as nat),
    decreases n,
{
    if n < 16 {
        let mut v: Vec<u8> = Vec::new();
        let d: u8 = n as u8;
        if d < 10 {
            v.push(48 + d);
        } else {
            v.push(55 + d);
        }
        v
    } else {
        let mut v: Vec<u8> = fmt_hex_u32(n / 16);
        let d: u8 = (n % 16) as u8;
        if d < 10 {
            v.push(48 + d);
        } else {
            v.push(55 + d);
        }
        v
    }
}

/// Reading back the digit string of a number yields the number: the decimal
/// formatter and parser are inverse.
pub proof fn lemma_dec_round_trip(n: nat)
    ensures
        digits_val(dec_digits(n)) == n,
        all_digits(dec_digits(n)),
        dec_digits(n).len() >= 1,
{
    lemma_dec_digits_val(n);
    lemma_dec_digits_are_digits(n);
}

/// Reading back the hexadecimal digit string of a number yields the number.
pub proof fn lemma_hex_round_trip(n: nat)
    ensures
        hex_val(hex_digits(n)) == n,
        all_hex_digits(hex_digits(n)),
        hex_digits(n).len() >= 1,
    decreases n,
{
    reveal_with_fuel(hex_val, 2);
    if n < 16 {
        assert(hex_digits(n).drop_last() =~= Seq::<u8>::empty());
        assert(hex_val(hex_digits(n).drop_last()) == 0);
    } else {
        lemma_hex_round_trip(n / 16);
        assert(hex_digits(n).drop_last() =~= hex_digits(n / 16));
        assert(hex_val(hex_digits(n).drop_last()) == n / 16);
        assert forall|i: int| 0 <= i < hex_digits(n).len() implies is_hex_digit(
            #[trigger] hex_digits(n)[i],
        ) by {
            if i < hex_digits(n / 16).len() {
                assert(hex_digits(n)[i] == hex_digits(n / 16)[i]);
            }
        }
    }
}

} // verus!
