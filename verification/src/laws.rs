//! The laws the codec keeps, stated over the same specification functions
//! its contracts use and proved once and for all.
use vstd::prelude::*;

use crate::double::Double;
use crate::entities::{spec_default_line, CommonV, Line};
use crate::entity::{spec_mtext_step, spec_read_entity};
use crate::entity_codec::{
    d_of, done, dzero, pd, psh, pt, spec_common_pairs, spec_line_pairs, t_of,
};
use crate::enums::AcadVersion;
use crate::error::DxfError;
use crate::value::{kind_of, spec_expected_type, spec_parse_value, ExpectedType, PairV, ValueV};

verus! {

/// Whether a run of pairs holds a pair with the given code.
pub open spec fn has_code(ps: Seq<PairV>, code: int) -> bool {
    exists|i: int| 0 <= i < ps.len() && (#[trigger] ps[i]).code == code
}

/// How many pairs of a run carry the given code.
pub open spec fn count_code(ps: Seq<PairV>, code: int) -> nat
    decreases ps.len(),
{
    if ps.len() == 0 {
        0
    } else {
        (if ps[0].code == code {
            1nat
        } else {
            0nat
        }) + count_code(ps.skip(1), code)
    }
}

/// Counting a code distributes over splitting a run.
pub proof fn lemma_count_code_concat(a: Seq<PairV>, b: Seq<PairV>, code: int)
    ensures
        count_code(a + b, code) == count_code(a, code) + count_code(b, code),
    decreases a.len(),
{
    if a.len() == 0 {
        assert(a + b =~= b);
    } else {
        lemma_count_code_concat(a.skip(1), b, code);
        assert((a + b).skip(1) =~= a.skip(1) + b);
        assert((a + b)[0] == a[0]);
    }
}

/// The count of a code in a one-pair run.
pub proof fn lemma_count_code_single(p: PairV, code: int)
    ensures
        count_code(seq![p], code) == (if p.code == code {
            1nat
        } else {
            0nat
        }),
{
    reveal_with_fuel(count_code, 2);
    assert(seq![p].skip(1) =~= Seq::<PairV>::empty());
}

/// The count of a code in an empty run.
pub proof fn lemma_count_code_empty(code: int)
    ensures
        count_code(Seq::<PairV>::empty(), code) == 0,
{
}

/// A lexed value always has the kind the expected-type table declares for
/// its code: whenever a value line parses under a code, the kind of what
/// it parses to is exactly the declared kind.
pub proof fn lemma_expected_type_coverage(code: int, line: Seq<u8>)
    ensures
        spec_parse_value(code, line) matches Ok(v) ==> spec_expected_type(code) == Some(
            kind_of(v),
        ),
{
}

/// The count of each code among the shared-field pairs, by code; a
/// helper for the gating and elision laws.
proof fn lemma_common_pairs_counts(c: CommonV, version: AcadVersion, write_handles: bool)
    ensures
        count_code(spec_common_pairs(c, version, write_handles), 38) == (
        if AcadVersion::R11.ord() <= version.ord() <= AcadVersion::R12.ord() {
            1nat
        } else {
            0nat
        }),
        count_code(spec_common_pairs(c, version, write_handles), 67) == (
        if version.ord() >= AcadVersion::R14.ord() && c.is_in_paper_space {
            1nat
        } else {
            0nat
        }),
        count_code(spec_common_pairs(c, version, write_handles), 48) == (
        if version.ord() >= AcadVersion::R13.ord() && c.line_type_scale != done() {
            1nat
        } else {
            0nat
        }),
        count_code(spec_common_pairs(c, version, write_handles), 6) == (
        if c.line_type_name != "BYLAYER"@ {
            1nat
        } else {
            0nat
        }),
{
    let s1 = if write_handles {
        seq![pt(5, crate::entity_codec::handle_chars(c.handle))]
    } else {
        Seq::<PairV>::empty()
    };
    let s2 = seq![pt(8, c.layer)];
    let s3 = if c.line_type_name != "BYLAYER"@ {
        seq![pt(6, c.line_type_name)]
    } else {
        Seq::<PairV>::empty()
    };
    let s4 = if AcadVersion::R11.ord() <= version.ord() <= AcadVersion::R12.ord() {
        seq![pd(38, c.elevation)]
    } else {
        Seq::<PairV>::empty()
    };
    let s5 = if c.color.raw_value != 256 {
        seq![psh(62, c.color.raw_value as int)]
    } else {
        Seq::<PairV>::empty()
    };
    let s6 = if version.ord() >= AcadVersion::R13.ord() && c.line_type_scale != done() {
        seq![pd(48, c.line_type_scale)]
    } else {
        Seq::<PairV>::empty()
    };
    let s7 = if version.ord() >= AcadVersion::R14.ord() && c.is_in_paper_space {
        seq![psh(67, 1)]
    } else {
        Seq::<PairV>::empty()
    };
    assert(spec_common_pairs(c, version, write_handles) == s1 + s2 + s3 + s4 + s5 + s6 + s7);
    assert forall|code: int| true implies count_code(s1 + s2 + s3 + s4 + s5 + s6 + s7, code)
        == count_code(s1, code) + count_code(s2, code) + count_code(s3, code) + count_code(
        s4,
        code,
    ) + count_code(s5, code) + count_code(s6, code) + count_code(s7, code) by {
        lemma_count_code_concat(s1, s2, code);
        lemma_count_code_concat(s1 + s2, s3, code);
        lemma_count_code_concat(s1 + s2 + s3, s4, code);
        lemma_count_code_concat(s1 + s2 + s3 + s4, s5, code);
        lemma_count_code_concat(s1 + s2 + s3 + s4 + s5, s6, code);
        lemma_count_code_concat(s1 + s2 + s3 + s4 + s5 + s6, s7, code);
    }
    assert forall|code: int, p: PairV| true implies count_code(seq![p], code) == (
    if p.code == code {
        1nat
    } else {
        0nat
    }) by {
        lemma_count_code_single(p, code);
    }
}

/// Version gating on write: the elevation field is declared for the
/// revisions R11 through R12, and its code appears in the shared-field
/// pairs exactly when the active revision lies in that range — once
/// there, never elsewhere.
pub proof fn lemma_version_gating(c: CommonV, version: AcadVersion, write_handles: bool)
    ensures
        count_code(spec_common_pairs(c, version, write_handles), 38) == (
        if AcadVersion::R11.ord() <= version.ord() <= AcadVersion::R12.ord() {
            1nat
        } else {
            0nat
        }),
        count_code(spec_common_pairs(c, version, write_handles), 67) == (
        if version.ord() >= AcadVersion::R14.ord() && c.is_in_paper_space {
            1nat
        } else {
            0nat
        }),
{
    lemma_common_pairs_counts(c, version, write_handles);
}

/// Default elision on write: a line's thickness code is emitted exactly
/// once when the value differs from its declared default, and not at all
/// when it equals it.
pub proof fn lemma_default_elision(e: Line, version: AcadVersion)
    ensures
        count_code(spec_line_pairs(e, version), 39) == (if e.thickness != dzero() {
            1nat
        } else {
            0nat
        }),
{
    let s1 = crate::entity_codec::marker_pairs(version, "AcDbLine"@);
    let s2 = crate::entity_codec::point_pairs(10, e.p1);
    let s3 = crate::entity_codec::point_pairs(11, e.p2);
    let s4 = if e.thickness != dzero() {
        seq![pd(39, e.thickness)]
    } else {
        Seq::<PairV>::empty()
    };
    let s5 = if e.extrusion_direction != crate::point::spec_z_axis() {
        crate::entity_codec::vector_pairs(210, e.extrusion_direction)
    } else {
        Seq::<PairV>::empty()
    };
    assert(spec_line_pairs(e, version) == s1 + s2 + s3 + s4 + s5);
    lemma_count_code_concat(s1, s2, 39);
    lemma_count_code_concat(s1 + s2, s3, 39);
    lemma_count_code_concat(s1 + s2 + s3, s4, 39);
    lemma_count_code_concat(s1 + s2 + s3 + s4, s5, 39);
    reveal_with_fuel(count_code, 5);
    assert(count_code(s2, 39) == 0) by {
        assert(s2.skip(1) =~= seq![pd(20, e.p1.y), pd(30, e.p1.z)]);
        assert(s2.skip(1).skip(1) =~= seq![pd(30, e.p1.z)]);
        assert(s2.skip(1).skip(1).skip(1) =~= Seq::<PairV>::empty());
    }
    assert(count_code(s3, 39) == 0) by {
        assert(s3.skip(1) =~= seq![pd(21, e.p2.y), pd(31, e.p2.z)]);
        assert(s3.skip(1).skip(1) =~= seq![pd(31, e.p2.z)]);
        assert(s3.skip(1).skip(1).skip(1) =~= Seq::<PairV>::empty());
    }
    assert(count_code(s1, 39) == 0) by {
        if version.ord() >= AcadVersion::R13.ord() {
            assert(s1.skip(1) =~= Seq::<PairV>::empty());
        }
    }
    assert(count_code(s4, 39) == (if e.thickness != dzero() {
        1nat
    } else {
        0nat
    })) by {
        if e.thickness != dzero() {
            assert(s4.skip(1) =~= Seq::<PairV>::empty());
        }
    }
    assert(count_code(s5, 39) == 0) by {
        if e.extrusion_direction != crate::point::spec_z_axis() {
            assert(s5.skip(1) =~= seq![
                pd(220, e.extrusion_direction.y),
                pd(230, e.extrusion_direction.z),
            ]);
            assert(s5.skip(1).skip(1) =~= seq![pd(230, e.extrusion_direction.z)]);
            assert(s5.skip(1).skip(1).skip(1) =~= Seq::<PairV>::empty());
        }
    }
}

/// Flag accessors: setting a flag bit makes the masked value non-zero,
/// clearing it makes the masked value zero, and a flag touched and then
/// restored leaves the field exactly as it was; flags at disjoint masks
/// never disturb each other.
pub proof fn lemma_flag_accessors(f: i16, m: i16, n: i16)
    requires
        m != 0,
        m & n == 0,
    ensures
        ((f | m) & m) != 0,
        ((f & !m) & m) == 0,
        f & m == 0 ==> ((f | m) & !m) == f,
        ((f | m) & n) == (f & n),
        ((f & !m) & n) == (f & n),
{
    assert(((f | m) & m) != 0) by (bit_vector)
        requires
            m != 0,
    ;
    assert(((f & !m) & m) == 0) by (bit_vector);
    assert(f & m == 0 ==> ((f | m) & !m) == f) by (bit_vector);
    assert(((f | m) & n) == (f & n)) by (bit_vector)
        requires
            m & n == 0,
    ;
    assert(((f & !m) & n) == (f & n)) by (bit_vector)
        requires
            m & n == 0,
    ;
}

/// The shared code of multi-line text: before the column marker a pair
/// on that code sets the rotation angle; right after the marker the
/// first such pair sets the column count; every later one appends a
/// column height.
pub proof fn lemma_mtext_shared_code(m: crate::entities::MTextV, d: Double)
    ensures
        spec_mtext_step(m, pd(50, d), false, false) == Ok::<
            (crate::entities::MTextV, bool, bool, bool),
            DxfError,
        >((crate::entities::MTextV { rotation_angle: d, ..m }, false, false, true)),
        spec_mtext_step(m, pd(50, d), true, false) == Ok::<
            (crate::entities::MTextV, bool, bool, bool),
            DxfError,
        >(
            (
                crate::entities::MTextV {
                    column_count: crate::double::spec_double_to_i32(d) as i32,
                    ..m
                },
                true,
                true,
                true,
            ),
        ),
        spec_mtext_step(m, pd(50, d), true, true) == Ok::<
            (crate::entities::MTextV, bool, bool, bool),
            DxfError,
        >(
            (
                crate::entities::MTextV { column_heights: m.column_heights.push(d), ..m },
                true,
                true,
                true,
            ),
        ),
        forall|v: int|
            #[trigger] spec_mtext_step(m, psh(75, v), false, false) matches Ok(
                (m2, col2, cnt2, handled),
            ) ==> col2 == true,
{
}

/// Reading back the decimal text of a signed number yields the number:
/// the integer formatter and parser are inverse over the whole range the
/// value kinds use.
pub proof fn lemma_int_text_round_trip(v: int)
    requires
        i64::MIN <= v <= i64::MAX,
    ensures
        crate::num::int_parse_ok(crate::num::int_dec(v)),
        crate::num::int_parse_val(crate::num::int_dec(v)) == v,
{
    if v >= 0 {
        crate::num::lemma_dec_round_trip(v as nat);
        let s = crate::num::dec_digits(v as nat);
        assert(crate::num::is_digit(s[0]));
    } else {
        crate::num::lemma_dec_round_trip((-v) as nat);
        let s = seq![45u8] + crate::num::dec_digits((-v) as nat);
        assert(s[0] == 45);
        assert(s.skip(1) =~= crate::num::dec_digits((-v) as nat));
    }
}

/// Round trip of the integer and boolean value kinds at the value-line
/// level: emitting a short, integer, long or boolean value and reading
/// the line back under a code of that kind yields the value unchanged.
pub proof fn lemma_value_round_trip(code: int, v: ValueV)
    requires
        spec_expected_type(code) == Some(kind_of(v)),
        v matches ValueV::Short(s) ==> i16::MIN <= s <= i16::MAX,
        v matches ValueV::Integer(s) ==> i32::MIN <= s <= i32::MAX,
        v matches ValueV::Long(s) ==> i64::MIN <= s <= i64::MAX,
        v is Short || v is Integer || v is Long || v is Boolean,
    ensures
        spec_parse_value(code, crate::value::emit_value(v)) == Ok::<ValueV, DxfError>(v),
{
    match v {
        ValueV::Short(s) => {
            lemma_int_text_round_trip(s);
        },
        ValueV::Integer(s) => {
            lemma_int_text_round_trip(s);
        },
        ValueV::Long(s) => {
            lemma_int_text_round_trip(s);
        },
        ValueV::Boolean(b) => {
            if b {
                assert(!(seq![49u8] =~= seq![48u8]));
            }
        },
        _ => {},
    }
}

} // verus!
