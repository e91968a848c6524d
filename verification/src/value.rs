//! Code pairs: the atomic unit of a DXF file.
//!
//! A pair is a numeric code and a typed value; the code decides which of the
//! six value kinds the value line holds, through the expected-type table.
use vstd::prelude::*;

use crate::double::{dbl_fmt, dbl_parse, Double};
use crate::error::DxfError;
use crate::num::{dec_digits, int_dec, int_parse_ok, int_parse_val, parse_i16, parse_i32, parse_i64};

verus! {

broadcast use vstd::utf8::is_ascii_chars_encode_utf8;

/// The kind of value a code calls for.
#[derive(Clone, Copy, Debug, PartialEq, Eq, Structural)]
pub enum ExpectedType {
    Boolean,
    Integer,
    Long,
    Short,
    Double,
    Str,
}

/// The expected-type table: which kind of value each code carries, `None`
/// for a code the dialect does not know.
pub open spec fn spec_expected_type(code: int) -> Option<ExpectedType> {
    if 0 <= code <= 9 {
        Some(ExpectedType::Str)
    } else if 10 <= code <= 59 {
        Some(ExpectedType::Double)
    } else if 60 <= code <= 79 {
        Some(ExpectedType::Short)
    } else if 90 <= code <= 99 {
        Some(ExpectedType::Integer)
    } else if code == 100 || code == 102 || code == 105 {
        Some(ExpectedType::Str)
    } else if 110 <= code <= 149 {
        Some(ExpectedType::Double)
    } else if 160 <= code <= 169 {
        Some(ExpectedType::Long)
    } else if 170 <= code <= 179 {
        Some(ExpectedType::Short)
    } else if 210 <= code <= 239 {
        Some(ExpectedType::Double)
    } else if 270 <= code <= 289 {
        Some(ExpectedType::Short)
    } else if 290 <= code <= 299 {
        Some(ExpectedType::Boolean)
    } else if 300 <= code <= 369 {
        Some(ExpectedType::Str)
    } else if 370 <= code <= 389 {
        Some(ExpectedType::Short)
    } else if 390 <= code <= 399 {
        Some(ExpectedType::Str)
    } else if 400 <= code <= 409 {
        Some(ExpectedType::Short)
    } else if 410 <= code <= 419 {
        Some(ExpectedType::Str)
    } else if 420 <= code <= 429 {
        Some(ExpectedType::Integer)
    } else if 430 <= code <= 439 {
        Some(ExpectedType::Str)
    } else if 440 <= code <= 449 {
        Some(ExpectedType::Integer)
    } else if 450 <= code <= 459 {
        Some(ExpectedType::Long)
    } else if 460 <= code <= 469 {
        Some(ExpectedType::Double)
    } else if 470 <= code <= 481 {
        Some(ExpectedType::Str)
    } else if code == 999 {
        Some(ExpectedType::Str)
    } else if 1000 <= code <= 1009 {
        Some(ExpectedType::Str)
    } else if 1010 <= code <= 1059 {
        Some(ExpectedType::Double)
    } else if 1060 <= code <= 1070 {
        Some(ExpectedType::Short)
    } else if code == 1071 {
        Some(ExpectedType::Integer)
    } else {
        None
    }
}

/// Looks a code up in the expected-type table.
pub fn get_expected_type(code: i32) -> (r: Option<ExpectedType>)
    ensures
        r == spec_expected_type(code as int),
{
    if 0 <= code && code <= 9 {
        Some(ExpectedType::Str)
    } else if 10 <= code && code <= 59 {
        Some(ExpectedType::Double)
    } else if 60 <= code && code <= 79 {
        Some(ExpectedType::Short)
    } else if 90 <= code && code <= 99 {
        Some(ExpectedType::Integer)
    } else if code == 100 || code == 102 || code == 105 {
        Some(ExpectedType::Str)
    } else if 110 <= code && code <= 149 {
        Some(ExpectedType::Double)
    } else if 160 <= code && code <= 169 {
        Some(ExpectedType::Long)
    } else if 170 <= code && code <= 179 {
        Some(ExpectedType::Short)
    } else if 210 <= code && code <= 239 {
        Some(ExpectedType::Double)
    } else if 270 <= code && code <= 289 {
        Some(ExpectedType::Short)
    } else if 290 <= code && code <= 299 {
        Some(ExpectedType::Boolean)
    } else if 300 <= code && code <= 369 {
        Some(ExpectedType::Str)
    } else if 370 <= code && code <= 389 {
        Some(ExpectedType::Short)
    } else if 390 <= code && code <= 399 {
        Some(ExpectedType::Str)
    } else if 400 <= code && code <= 409 {
        Some(ExpectedType::Short)
    } else if 410 <= code && code <= 419 {
        Some(ExpectedType::Str)
    } else if 420 <= code && code <= 429 {
        Some(ExpectedType::Integer)
    } else if 430 <= code && code <= 439 {
        Some(ExpectedType::Str)
    } else if 440 <= code && code <= 449 {
        Some(ExpectedType::Integer)
    } else if 450 <= code && code <= 459 {
        Some(ExpectedType::Long)
    } else if 460 <= code && code <= 469 {
        Some(ExpectedType::Double)
    } else if 470 <= code && code <= 481 {
        Some(ExpectedType::Str)
    } else if code == 999 {
        Some(ExpectedType::Str)
    } else if 1000 <= code && code <= 1009 {
        Some(ExpectedType::Str)
    } else if 1010 <= code && code <= 1059 {
        Some(ExpectedType::Double)
    } else if 1060 <= code && code <= 1070 {
        Some(ExpectedType::Short)
    } else if code == 1071 {
        Some(ExpectedType::Integer)
    } else {
        None
    }
}

/// A single value in a code pair.
#[derive(Debug, Clone)]
pub enum CodePairValue {
    Boolean(bool),
    Integer(i32),
    Long(i64),
    Short(i16),
    Double(Double),
    Str(String),
}

/// The mathematical shape of a value: strings become character sequences.
pub enum ValueV {
    Boolean(bool),
    Integer(int),
    Long(int),
    Short(int),
    Double(Double),
    Str(Seq<char>),
}

impl View for CodePairValue {
    type V = ValueV;

    open spec fn view(&self) -> ValueV {
        match self {
            CodePairValue::Boolean(b) => ValueV::Boolean(*b),
            CodePairValue::Integer(i) => ValueV::Integer(*i as int),
            CodePairValue::Long(l) => ValueV::Long(*l as int),
            CodePairValue::Short(s) => ValueV::Short(*s as int),
            CodePairValue::Double(d) => ValueV::Double(*d),
            CodePairValue::Str(s) => ValueV::Str(s@),
        }
    }
}

impl CodePairValue {
    /// The value is storable and writable: its number fits its kind's width,
    /// its real part is well formed, and its text is ASCII.
    pub open spec fn wf(self) -> bool {
        match self {
            CodePairValue::Double(d) => d.wf(),
            CodePairValue::Str(s) => vstd::utf8::is_ascii_chars(s@),
            _ => true,
        }
    }

    /// The kind of this value.
    pub open spec fn spec_kind(self) -> ExpectedType {
        match self {
            CodePairValue::Boolean(_) => ExpectedType::Boolean,
            CodePairValue::Integer(_) => ExpectedType::Integer,
            CodePairValue::Long(_) => ExpectedType::Long,
            CodePairValue::Short(_) => ExpectedType::Short,
            CodePairValue::Double(_) => ExpectedType::Double,
            CodePairValue::Str(_) => ExpectedType::Str,
        }
    }

    /// Hands back an equal value.
    pub fn clone_value(&self) -> (r: CodePairValue)
        ensures
            r@ == self@,
            r.wf() == self.wf(),
    {
        match self {
            CodePairValue::Boolean(b) => CodePairValue::Boolean(*b),
            CodePairValue::Integer(i) => CodePairValue::Integer(*i),
            CodePairValue::Long(l) => CodePairValue::Long(*l),
            CodePairValue::Short(s) => CodePairValue::Short(*s),
            CodePairValue::Double(d) => CodePairValue::Double(*d),
            CodePairValue::Str(s) => CodePairValue::Str(s.clone()),
        }
    }
}

/// The kind of a value at the view level.
pub open spec fn kind_of(v: ValueV) -> ExpectedType {
    match v {
        ValueV::Boolean(_) => ExpectedType::Boolean,
        ValueV::Integer(_) => ExpectedType::Integer,
        ValueV::Long(_) => ExpectedType::Long,
        ValueV::Short(_) => ExpectedType::Short,
        ValueV::Double(_) => ExpectedType::Double,
        ValueV::Str(_) => ExpectedType::Str,
    }
}

/// A numeric code and its typed value.
#[derive(Debug, Clone)]
pub struct CodePair {
    /// The numeric code of the pair.
    pub code: i32,
    /// The value of the pair.
    pub value: CodePairValue,
}

/// The mathematical shape of a pair.
pub struct PairV {
    pub code: int,
    pub value: ValueV,
}

impl View for CodePair {
    type V = PairV;

    open spec fn view(&self) -> PairV {
        PairV { code: self.code as int, value: self.value@ }
    }
}

impl CodePair {
    /// The pair can be written: its value is well formed.
    pub open spec fn wf(self) -> bool {
        self.value.wf()
    }

    /// Creates a new pair with the specified code and value.
    pub fn new(code: i32, val: CodePairValue) -> (r: CodePair)
        ensures
            r@ == (PairV { code: code as int, value: val@ }),
            r.wf() == val.wf(),
    {
        CodePair { code, value: val }
    }

    /// Creates a new pair from a code and a borrowed string; the text must
    /// be ASCII, as the dialect is.
    pub fn new_str(code: i32, val: &str) -> (r: CodePair)
        requires
            vstd::utf8::is_ascii_chars(val@),
        ensures
            r@ == (PairV { code: code as int, value: ValueV::Str(val@) }),
            r.wf(),
    {
        CodePair::new(code, CodePairValue::Str(val.to_owned()))
    }

    /// Creates a new pair from a code and an owned string; the text must be
    /// ASCII, as the dialect is.
    pub fn new_string(code: i32, val: &String) -> (r: CodePair)
        requires
            vstd::utf8::is_ascii_chars(val@),
        ensures
            r@ == (PairV { code: code as int, value: ValueV::Str(val@) }),
            r.wf(),
    {
        CodePair::new(code, CodePairValue::Str(val.clone()))
    }

    /// Creates a new pair from a code and an `i16`.
    pub fn new_short(code: i32, val: i16) -> (r: CodePair)
        ensures
            r@ == (PairV { code: code as int, value: ValueV::Short(val as int) }),
            r.wf(),
    {
        CodePair::new(code, CodePairValue::Short(val))
    }

    /// Creates a new pair from a code and a fixed-point real value.
    pub fn new_double(code: i32, val: Double) -> (r: CodePair)
        requires
            val.wf(),
        ensures
            r@ == (PairV { code: code as int, value: ValueV::Double(val) }),
            r.wf(),
    {
        CodePair::new(code, CodePairValue::Double(val))
    }

    /// Creates a new pair from a code and an `i64`.
    pub fn new_long(code: i32, val: i64) -> (r: CodePair)
        ensures
            r@ == (PairV { code: code as int, value: ValueV::Long(val as int) }),
            r.wf(),
    {
        CodePair::new(code, CodePairValue::Long(val))
    }

    /// Creates a new pair from a code and an `i32`.
    pub fn new_int(code: i32, val: i32) -> (r: CodePair)
        ensures
            r@ == (PairV { code: code as int, value: ValueV::Integer(val as int) }),
            r.wf(),
    {
        CodePair::new(code, CodePairValue::Integer(val))
    }

    /// Creates a new pair from a code and a `bool`.
    pub fn new_bool(code: i32, val: bool) -> (r: CodePair)
        ensures
            r@ == (PairV { code: code as int, value: ValueV::Boolean(val) }),
            r.wf(),
    {
        CodePair::new(code, CodePairValue::Boolean(val))
    }

    /// Hands back an equal pair.
    pub fn clone_pair(&self) -> (r: CodePair)
        ensures
            r@ == self@,
            r.wf() == self.wf(),
    {
        CodePair { code: self.code, value: self.value.clone_value() }
    }
}

/// The characters named by a run of ASCII bytes.
pub open spec fn bytes_as_chars(s: Seq<u8>) -> Seq<char> {
    Seq::new(s.len(), |i: int| s[i] as char)
}

/// The bytes of a run of ASCII characters.
pub open spec fn chars_as_bytes(s: Seq<char>) -> Seq<u8> {
    Seq::new(s.len(), |i: int| s[i] as u8)
}

/// Every byte of `s` is ASCII.
pub open spec fn all_ascii(s: Seq<u8>) -> bool {
    forall|i: int| 0 <= i < s.len() ==> #[trigger] s[i] < 128
}

/// Relies on `String::from_utf8`: a run of bytes below 128 is valid UTF-8
/// and decodes to exactly those bytes as characters.
#[verifier::external_body]
pub(crate) fn string_from_ascii(v: Vec<u8>) -> (r: String)
    requires
        all_ascii(v@),
    ensures
        r@ == bytes_as_chars(v@),
        vstd::utf8::is_ascii_chars(r@),
{
    match String::from_utf8(v) {
        Ok(s) => s,
        Err(_) => String::new(),
    }
}

/// What a value line names under a given code, by the expected-type table.
pub open spec fn spec_parse_value(code: int, line: Seq<u8>) -> Result<ValueV, DxfError> {
    match spec_expected_type(code) {
        None => Err(DxfError::UnknownCode(code as i32)),
        Some(ExpectedType::Boolean) => if line =~= seq![48u8] {
            Ok(ValueV::Boolean(false))
        } else if line =~= seq![49u8] {
            Ok(ValueV::Boolean(true))
        } else {
            Err(DxfError::InvalidValue(code as i32))
        },
        Some(ExpectedType::Short) => if int_parse_ok(line) && i16::MIN <= int_parse_val(line)
            <= i16::MAX {
            Ok(ValueV::Short(int_parse_val(line)))
        } else {
            Err(DxfError::InvalidValue(code as i32))
        },
        Some(ExpectedType::Integer) => if int_parse_ok(line) && i32::MIN <= int_parse_val(line)
            <= i32::MAX {
            Ok(ValueV::Integer(int_parse_val(line)))
        } else {
            Err(DxfError::InvalidValue(code as i32))
        },
        Some(ExpectedType::Long) => if int_parse_ok(line) && i64::MIN <= int_parse_val(line)
            <= i64::MAX {
            Ok(ValueV::Long(int_parse_val(line)))
        } else {
            Err(DxfError::InvalidValue(code as i32))
        },
        Some(ExpectedType::Double) => match dbl_parse(line) {
            Some(d) => Ok(ValueV::Double(d)),
            None => Err(DxfError::InvalidValue(code as i32)),
        },
        Some(ExpectedType::Str) => if all_ascii(line) {
            Ok(ValueV::Str(bytes_as_chars(line)))
        } else {
            Err(DxfError::InvalidValue(code as i32))
        },
    }
}

/// Reads the value line of a pair whose code is `code`.
pub fn parse_value(code: i32, line: &[u8]) -> (r: Result<CodePairValue, DxfError>)
    ensures
        match r {
            Ok(v) => spec_parse_value(code as int, line@) == Ok::<ValueV, DxfError>(v@) && v.wf(),
            Err(e) => spec_parse_value(code as int, line@) == Err::<ValueV, DxfError>(e),
        },
{
    match get_expected_type(code) {
        None => Err(DxfError::UnknownCode(code)),
        Some(ExpectedType::Boolean) => {
            if line.len() == 1 && line[0] == 48 {
                proof {
                    assert(line@ =~= seq![48u8]);
                }
                Ok(CodePairValue::Boolean(false))
            } else if line.len() == 1 && line[0] == 49 {
                proof {
                    assert(line@ =~= seq![49u8]);
                    assert(!(line@ =~= seq![48u8]));
                }
                Ok(CodePairValue::Boolean(true))
            } else {
                proof {
                    assert(!(line@ =~= seq![48u8]));
                    assert(!(line@ =~= seq![49u8]));
                }
                Err(DxfError::InvalidValue(code))
            }
        },
        Some(ExpectedType::Short) => match parse_i16(line) {
            Some(v) => Ok(CodePairValue::Short(v)),
            None => Err(DxfError::InvalidValue(code)),
        },
        Some(ExpectedType::Integer) => match parse_i32(line) {
            Some(v) => Ok(CodePairValue::Integer(v)),
            None => Err(DxfError::InvalidValue(code)),
        },
        Some(ExpectedType::Long) => match parse_i64(line) {
            Some(v) => Ok(CodePairValue::Long(v)),
            None => Err(DxfError::InvalidValue(code)),
        },
        Some(ExpectedType::Double) => match crate::double::parse_double(line) {
            Some(d) => Ok(CodePairValue::Double(d)),
            None => Err(DxfError::InvalidValue(code)),
        },
        Some(ExpectedType::Str) => {
            let mut i: usize = 0;
            while i < line.len()
                invariant
                    0 <= i <= line@.len(),
                    spec_expected_type(code as int) == Some(ExpectedType::Str),
                    forall|j: int| 0 <= j < i ==> #[trigger] line@[j] < 128,
                decreases line@.len() - i,
            {
                if line[i] >= 128 {
                    proof {
                        assert(!all_ascii(line@)) by {
                            assert(line@[i as int] >= 128);
                        }
                    }
                    return Err(DxfError::InvalidValue(code));
                }
                i = i + 1;
            }
            let owned: Vec<u8> = vstd::slice::slice_to_vec(line);
            let s: String = string_from_ascii(owned);
            Ok(CodePairValue::Str(s))
        },
    }
}

/// The bytes of one value line on write.
pub open spec fn emit_value(v: ValueV) -> Seq<u8> {
    match v {
        ValueV::Boolean(b) => if b {
            seq![49u8]
        } else {
            seq![48u8]
        },
        ValueV::Integer(i) => int_dec(i),
        ValueV::Long(l) => int_dec(l),
        ValueV::Short(s) => int_dec(s),
        ValueV::Double(d) => dbl_fmt(d),
        ValueV::Str(s) => chars_as_bytes(s),
    }
}

/// The bytes of a code on write: decimal digits right-aligned to width
/// three with spaces.
pub open spec fn emit_code(code: int) -> Seq<u8> {
    let d = int_dec(code);
    if d.len() >= 3 {
        d
    } else if d.len() == 2 {
        seq![32u8] + d
    } else {
        seq![32u8, 32u8] + d
    }
}

/// The bytes of one whole pair on write: the aligned code line and the
/// value line, each ended by a carriage return and a line feed.
pub open spec fn emit_pair(p: PairV) -> Seq<u8> {
    emit_code(p.code) + seq![13u8, 10u8] + emit_value(p.value) + seq![13u8, 10u8]
}

/// Appends the bytes of the aligned code line, without its line ending.
fn write_code_bytes(out: &mut Vec<u8>, code: i32)
    ensures
        final(out)@ == old(out)@ + emit_code(code as int),
{
    let digits: Vec<u8> = crate::num::fmt_i64(code as i64);
    if digits.len() == 1 {
        out.push(32);
        out.push(32);
    } else if digits.len() == 2 {
        out.push(32);
    }
    out.extend_from_slice(digits.as_slice());
    proof {
        assert(out@ =~= old(out)@ + emit_code(code as int));
    }
}

/// Appends the bytes of one whole pair.
pub fn write_pair_bytes(out: &mut Vec<u8>, pair: &CodePair)
    requires
        pair.wf(),
    ensures
        final(out)@ == old(out)@ + emit_pair(pair@),
{
    write_code_bytes(out, pair.code);
    out.push(13);
    out.push(10);
    match &pair.value {
        CodePairValue::Boolean(b) => {
            if *b {
                out.push(49);
            } else {
                out.push(48);
            }
        },
        CodePairValue::Integer(i) => {
            let digits: Vec<u8> = crate::num::fmt_i64(*i as i64);
            out.extend_from_slice(digits.as_slice());
        },
        CodePairValue::Long(l) => {
            let digits: Vec<u8> = crate::num::fmt_i64(*l);
            out.extend_from_slice(digits.as_slice());
        },
        CodePairValue::Short(s) => {
            let digits: Vec<u8> = crate::num::fmt_i64(*s as i64);
            out.extend_from_slice(digits.as_slice());
        },
        CodePairValue::Double(d) => {
            let digits: Vec<u8> = crate::double::fmt_double(d);
            out.extend_from_slice(digits.as_slice());
        },
        CodePairValue::Str(s) => {
            let bytes: &[u8] = s.as_str().as_bytes();
            proof {
                assert(bytes@ =~= chars_as_bytes(s@));
            }
            out.extend_from_slice(bytes);
        },
    }
    out.push(13);
    out.push(10);
    proof {
        assert(out@ =~= old(out)@ + emit_pair(pair@));
    }
}

/// All the bytes of a run of pairs on write.
pub open spec fn emit_pairs(ps: Seq<PairV>) -> Seq<u8>
    decreases ps.len(),
{
    if ps.len() == 0 {
        Seq::<u8>::empty()
    } else {
        emit_pair(ps[0]) + emit_pairs(ps.skip(1))
    }
}

/// Emission distributes over splitting a run of pairs.
pub proof fn lemma_emit_pairs_add(a: Seq<PairV>, b: Seq<PairV>)
    ensures
        emit_pairs(a + b) == emit_pairs(a) + emit_pairs(b),
    decreases a.len(),
{
    if a.len() == 0 {
        assert(a + b =~= b);
        assert(emit_pairs(a) + emit_pairs(b) =~= emit_pairs(b));
    } else {
        lemma_emit_pairs_add(a.skip(1), b);
        assert((a + b).skip(1) =~= a.skip(1) + b);
        assert(emit_pairs(a + b) =~= emit_pairs(a) + emit_pairs(b)) by {
            assert(emit_pairs(a + b) == emit_pair(a[0]) + emit_pairs(a.skip(1) + b));
        }
    }
}

/// Emission of one more pair appends that pair's bytes.
pub proof fn lemma_emit_pairs_push(ps: Seq<PairV>, p: PairV)
    ensures
        emit_pairs(ps.push(p)) == emit_pairs(ps) + emit_pair(p),
{
    assert(ps.push(p) =~= ps + seq![p]);
    lemma_emit_pairs_add(ps, seq![p]);
    assert(emit_pairs(seq![p]) =~= emit_pair(p)) by {
        reveal_with_fuel(emit_pairs, 2);
        assert(seq![p][0] == p);
        assert(seq![p].skip(1) =~= Seq::<PairV>::empty());
        assert(emit_pairs(seq![p].skip(1)) == Seq::<u8>::empty());
    }
}

} // verus!
