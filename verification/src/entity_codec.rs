//! The entity codec: how each declared field moves between a typed entity
//! and its code pairs.
//!
//! Reading assigns one pair at a time; a pair whose code no field claims
//! is handed back for the shared fields, and one those do not claim either
//! is dropped.  Writing lays the fields out in declared order, skipping a
//! field outside its revision gate or, where the schema says so, at its
//! default value.
use vstd::prelude::*;

use crate::color::Color;
use crate::double::Double;
use crate::entities::{
    common_wf, mtext_wf, spec_default_common, Circle, CommonV, EntityCommon, EntityType,
    EntityTypeV, Leader, LeaderV, Line, MText, MTextV, ModelPoint, Polyline, PolylineV, Seqend,
    TypeTag, Vertex,
};
use crate::enums::{
    spec_attachment_point, spec_background_fill_setting, spec_drawing_direction,
    spec_line_spacing_style, AcadVersion, AttachmentPoint, BackgroundFillSetting,
    DrawingDirection, MTextLineSpacingStyle,
};
use crate::error::DxfError;
use crate::num::{all_hex_digits, hex_digits, hex_val, lemma_hex_round_trip, parse_hex_u32};
use crate::point::{spec_point_set, spec_vector_set, Point, Vector};
use crate::value::{bytes_as_chars, chars_as_bytes, CodePair, CodePairValue, PairV, ValueV};

verus! {

broadcast use vstd::utf8::is_ascii_chars_encode_utf8;

/// The characters of a handle: upper-case hexadecimal digits.
pub open spec fn handle_chars(h: u32) -> Seq<char> {
    bytes_as_chars(hex_digits(h as nat))
}

/// What a handle string names: its value as an unsigned hexadecimal
/// number, if it is one and fits.
pub open spec fn spec_parse_handle(s: Seq<char>) -> Option<u32> {
    if vstd::utf8::is_ascii_chars(s) && s.len() > 0 && all_hex_digits(chars_as_bytes(s)) && hex_val(
        chars_as_bytes(s),
    ) <= u32::MAX {
        Some(hex_val(chars_as_bytes(s)) as u32)
    } else {
        None
    }
}

/// Reads a handle from its hexadecimal string.
pub fn as_u32(s: &String) -> (r: Option<u32>)
    ensures
        r == spec_parse_handle(s@),
{
    if !s.as_str().is_ascii() {
        return None;
    }
    let b: &[u8] = s.as_str().as_bytes();
    proof {
        assert(b@ =~= chars_as_bytes(s@));
    }
    parse_hex_u32(b)
}

/// Writes a handle as its hexadecimal string.
pub fn as_handle(h: u32) -> (r: String)
    ensures
        r@ == handle_chars(h),
        vstd::utf8::is_ascii_chars(r@),
{
    let digits: Vec<u8> = crate::num::fmt_hex_u32(h);
    proof {
        lemma_hex_round_trip(h as nat);
        assert forall|i: int| 0 <= i < digits@.len() implies #[trigger] digits@[i] < 128 by {
            assert(crate::num::is_hex_digit(digits@[i]));
        }
    }
    crate::value::string_from_ascii(digits)
}

/// The real value a pair carries, if its kind is real.
pub open spec fn d_of(v: ValueV) -> Option<Double> {
    match v {
        ValueV::Double(d) => Some(d),
        _ => None,
    }
}

/// The short value a pair carries, if its kind is short.
pub open spec fn s_of(v: ValueV) -> Option<int> {
    match v {
        ValueV::Short(s) => Some(s),
        _ => None,
    }
}

/// The integer value a pair carries, if its kind is integer.
pub open spec fn i_of(v: ValueV) -> Option<int> {
    match v {
        ValueV::Integer(i) => Some(i),
        _ => None,
    }
}

/// The text a pair carries, if its kind is text.
pub open spec fn t_of(v: ValueV) -> Option<Seq<char>> {
    match v {
        ValueV::Str(s) => Some(s),
        _ => None,
    }
}

/// Hands out the real value of a pair, or the invalid-value error.
pub(crate) fn expect_double(pair: &CodePair) -> (r: Result<Double, DxfError>)
    ensures
        match r {
            Ok(d) => d_of(pair@.value) == Some(d) && (pair.wf() ==> d.wf()),
            Err(e) => d_of(pair@.value) is None && e == DxfError::InvalidValue(pair.code),
        },
{
    match &pair.value {
        CodePairValue::Double(d) => Ok(*d),
        _ => Err(DxfError::InvalidValue(pair.code)),
    }
}

/// Hands out the short value of a pair, or the invalid-value error.
pub(crate) fn expect_short(pair: &CodePair) -> (r: Result<i16, DxfError>)
    ensures
        match r {
            Ok(v) => s_of(pair@.value) == Some(v as int),
            Err(e) => s_of(pair@.value) is None && e == DxfError::InvalidValue(pair.code),
        },
{
    match &pair.value {
        CodePairValue::Short(v) => Ok(*v),
        _ => Err(DxfError::InvalidValue(pair.code)),
    }
}

/// Hands out the integer value of a pair, or the invalid-value error.
pub(crate) fn expect_int(pair: &CodePair) -> (r: Result<i32, DxfError>)
    ensures
        match r {
            Ok(v) => i_of(pair@.value) == Some(v as int),
            Err(e) => i_of(pair@.value) is None && e == DxfError::InvalidValue(pair.code),
        },
{
    match &pair.value {
        CodePairValue::Integer(v) => Ok(*v),
        _ => Err(DxfError::InvalidValue(pair.code)),
    }
}

/// Hands out an owned copy of the text of a pair, or the invalid-value
/// error.
pub(crate) fn expect_string(pair: &CodePair) -> (r: Result<String, DxfError>)
    ensures
        match r {
            Ok(s) => t_of(pair@.value) == Some(s@) && (pair.wf() ==> vstd::utf8::is_ascii_chars(
                s@,
            )),
            Err(e) => t_of(pair@.value) is None && e == DxfError::InvalidValue(pair.code),
        },
{
    match &pair.value {
        CodePairValue::Str(s) => Ok(s.clone()),
        _ => Err(DxfError::InvalidValue(pair.code)),
    }
}

/// How one pair lands on the shared entity fields: the handle, layer,
/// line type, elevation, color, line type scale and paper-space codes are
/// claimed; every other code is dropped unchanged.
pub open spec fn spec_apply_common(c: CommonV, p: PairV) -> Result<CommonV, DxfError> {
    if p.code == 5 {
        match t_of(p.value) {
            Some(s) => match spec_parse_handle(s) {
                Some(h) => Ok(CommonV { handle: h, ..c }),
                None => Err(DxfError::InvalidValue(5)),
            },
            None => Err(DxfError::InvalidValue(5)),
        }
    } else if p.code == 8 {
        match t_of(p.value) {
            Some(s) => Ok(CommonV { layer: s, ..c }),
            None => Err(DxfError::InvalidValue(8)),
        }
    } else if p.code == 6 {
        match t_of(p.value) {
            Some(s) => Ok(CommonV { line_type_name: s, ..c }),
            None => Err(DxfError::InvalidValue(6)),
        }
    } else if p.code == 38 {
        match d_of(p.value) {
            Some(d) => Ok(CommonV { elevation: d, ..c }),
            None => Err(DxfError::InvalidValue(38)),
        }
    } else if p.code == 62 {
        match s_of(p.value) {
            Some(v) => Ok(CommonV { color: Color { raw_value: v as i16 }, ..c }),
            None => Err(DxfError::InvalidValue(62)),
        }
    } else if p.code == 48 {
        match d_of(p.value) {
            Some(d) => Ok(CommonV { line_type_scale: d, ..c }),
            None => Err(DxfError::InvalidValue(48)),
        }
    } else if p.code == 67 {
        match s_of(p.value) {
            Some(v) => Ok(CommonV { is_in_paper_space: v != 0, ..c }),
            None => Err(DxfError::InvalidValue(67)),
        }
    } else {
        Ok(c)
    }
}

impl EntityCommon {
    /// Applies one pair to the shared fields, dropping a code they do not
    /// claim.
    pub fn apply_individual_pair(&mut self, pair: &CodePair) -> (r: Result<(), DxfError>)
        ensures
            match r {
                Ok(()) => spec_apply_common(old(self)@, pair@) == Ok::<CommonV, DxfError>(
                    final(self)@,
                ),
                Err(e) => spec_apply_common(old(self)@, pair@) == Err::<CommonV, DxfError>(e)
                    && final(self)@ == old(self)@,
            },
            common_wf(old(self)@) && pair.wf() ==> common_wf(final(self)@),
    {
        if pair.code == 5 {
            let s: String = match expect_string(pair) {
                Ok(s) => s,
                Err(e) => {
                    return Err(e);
                },
            };
            match as_u32(&s) {
                Some(h) => {
                    self.handle = h;
                    Ok(())
                },
                None => Err(DxfError::InvalidValue(5)),
            }
        } else if pair.code == 8 {
            match expect_string(pair) {
                Ok(s) => {
                    self.layer = s;
                    Ok(())
                },
                Err(e) => Err(e),
            }
        } else if pair.code == 6 {
            match expect_string(pair) {
                Ok(s) => {
                    self.line_type_name = s;
                    Ok(())
                },
                Err(e) => Err(e),
            }
        } else if pair.code == 38 {
            match expect_double(pair) {
                Ok(d) => {
                    self.elevation = d;
                    Ok(())
                },
                Err(e) => Err(e),
            }
        } else if pair.code == 62 {
            match expect_short(pair) {
                Ok(v) => {
                    self.color = Color::from_raw_value(v);
                    Ok(())
                },
                Err(e) => Err(e),
            }
        } else if pair.code == 48 {
            match expect_double(pair) {
                Ok(d) => {
                    self.line_type_scale = d;
                    Ok(())
                },
                Err(e) => Err(e),
            }
        } else if pair.code == 67 {
            match expect_short(pair) {
                Ok(v) => {
                    self.is_in_paper_space = v != 0;
                    Ok(())
                },
                Err(e) => Err(e),
            }
        } else {
            Ok(())
        }
    }
}

/// One short-valued pair.
pub open spec fn psh(code: int, v: int) -> PairV {
    PairV { code, value: ValueV::Short(v) }
}

/// One integer-valued pair.
pub open spec fn pin(code: int, v: int) -> PairV {
    PairV { code, value: ValueV::Integer(v) }
}

/// One real-valued pair.
pub open spec fn pd(code: int, d: Double) -> PairV {
    PairV { code, value: ValueV::Double(d) }
}

/// One text-valued pair.
pub open spec fn pt(code: int, s: Seq<char>) -> PairV {
    PairV { code, value: ValueV::Str(s) }
}

/// The three pairs of a point: its coordinates on `code`, `code + 10`
/// and `code + 20`, in ascending code order.
pub open spec fn point_pairs(code: int, p: Point) -> Seq<PairV> {
    seq![pd(code, p.x), pd(code + 10, p.y), pd(code + 20, p.z)]
}

/// The three pairs of a vector, like a point's.
pub open spec fn vector_pairs(code: int, v: Vector) -> Seq<PairV> {
    seq![pd(code, v.x), pd(code + 10, v.y), pd(code + 20, v.z)]
}

/// The zero real value.
pub open spec fn dzero() -> Double {
    Double { neg: false, units: 0, frac: 0 }
}

/// The unit real value.
pub open spec fn done() -> Double {
    Double { neg: false, units: 1, frac: 0 }
}

/// The pairs of the shared entity fields on write, in declared order,
/// honoring each field's revision gate and default-elision rule.
pub open spec fn spec_common_pairs(
    c: CommonV,
    version: AcadVersion,
    write_handles: bool,
) -> Seq<PairV> {
    (if write_handles {
        seq![pt(5, handle_chars(c.handle))]
    } else {
        Seq::<PairV>::empty()
    }) + seq![pt(8, c.layer)] + (if c.line_type_name != "BYLAYER"@ {
        seq![pt(6, c.line_type_name)]
    } else {
        Seq::<PairV>::empty()
    }) + (if AcadVersion::R11.ord() <= version.ord() <= AcadVersion::R12.ord() {
        seq![pd(38, c.elevation)]
    } else {
        Seq::<PairV>::empty()
    }) + (if c.color.raw_value != 256 {
        seq![psh(62, c.color.raw_value as int)]
    } else {
        Seq::<PairV>::empty()
    }) + (if version.ord() >= AcadVersion::R13.ord() && c.line_type_scale != done() {
        seq![pd(48, c.line_type_scale)]
    } else {
        Seq::<PairV>::empty()
    }) + (if version.ord() >= AcadVersion::R14.ord() && c.is_in_paper_space {
        seq![psh(67, 1)]
    } else {
        Seq::<PairV>::empty()
    })
}

impl EntityCommon {
    /// Writes the shared fields.
    #[verifier::rlimit(100)]
    pub fn write(
        &self,
        version: AcadVersion,
        write_handles: bool,
        writer: &mut crate::writer::CodePairAsciiWriter,
    )
        requires
            common_wf(self@),
            old(writer).wf(),
        ensures
            final(writer).wf(),
            final(writer)@ == old(writer)@ + spec_common_pairs(self@, version, write_handles),
    {
        let ghost w0 = old(writer)@;
        let ghost s1 = if write_handles {
            seq![pt(5, handle_chars(self@.handle))]
        } else {
            Seq::<PairV>::empty()
        };
        let ghost s2 = seq![pt(8, self@.layer)];
        let ghost s3 = if self@.line_type_name != "BYLAYER"@ {
            seq![pt(6, self@.line_type_name)]
        } else {
            Seq::<PairV>::empty()
        };
        let ghost s4 = if AcadVersion::R11.ord() <= version.ord() <= AcadVersion::R12.ord() {
            seq![pd(38, self@.elevation)]
        } else {
            Seq::<PairV>::empty()
        };
        let ghost s5 = if self@.color.raw_value != 256 {
            seq![psh(62, self@.color.raw_value as int)]
        } else {
            Seq::<PairV>::empty()
        };
        let ghost s6 = if version.ord() >= AcadVersion::R13.ord() && self@.line_type_scale
            != done() {
            seq![pd(48, self@.line_type_scale)]
        } else {
            Seq::<PairV>::empty()
        };
        let ghost s7 = if version.ord() >= AcadVersion::R14.ord() && self@.is_in_paper_space {
            seq![psh(67, 1)]
        } else {
            Seq::<PairV>::empty()
        };
        if write_handles {
            let h: String = as_handle(self.handle);
            writer.write_code_pair(&CodePair::new_string(5, &h));
        }
        proof {
            assert(writer@ =~= w0 + s1);
        }
        writer.write_code_pair(&CodePair::new_string(8, &self.layer));
        proof {
            assert(writer@ =~= w0 + s1 + s2);
        }
        if !crate::enums::str_eq(self.line_type_name.as_str(), "BYLAYER") {
            writer.write_code_pair(&CodePair::new_string(6, &self.line_type_name));
        }
        proof {
            assert(writer@ =~= w0 + s1 + s2 + s3);
        }
        if version.at_least(AcadVersion::R11) && version.at_most(AcadVersion::R12) {
            writer.write_code_pair(&CodePair::new_double(38, self.elevation));
        }
        proof {
            assert(writer@ =~= w0 + s1 + s2 + s3 + s4);
        }
        if self.color.get_raw_value() != 256 {
            writer.write_code_pair(&CodePair::new_short(62, self.color.get_raw_value()));
        }
        proof {
            assert(writer@ =~= w0 + s1 + s2 + s3 + s4 + s5);
        }
        let one: Double = Double::from_units(1);
        if version.at_least(AcadVersion::R13) && !(self.line_type_scale == one) {
            writer.write_code_pair(&CodePair::new_double(48, self.line_type_scale));
        }
        proof {
            assert(writer@ =~= w0 + s1 + s2 + s3 + s4 + s5 + s6);
        }
        if version.at_least(AcadVersion::R14) && self.is_in_paper_space {
            writer.write_code_pair(&CodePair::new_short(67, 1));
        }
        proof {
            assert(writer@ =~= w0 + s1 + s2 + s3 + s4 + s5 + s6 + s7);
            assert(spec_common_pairs(self@, version, write_handles) == s1 + s2 + s3 + s4 + s5 + s6
                + s7);
            assert(w0 + s1 + s2 + s3 + s4 + s5 + s6 + s7 =~= w0 + (s1 + s2 + s3 + s4 + s5 + s6
                + s7));
        }
    }
}

/// How one pair lands on a line.
pub open spec fn spec_apply_line(e: Line, p: PairV) -> Result<(Line, bool), DxfError> {
    if p.code == 10 || p.code == 20 || p.code == 30 {
        match d_of(p.value) {
            Some(d) => Ok((Line { p1: spec_point_set(e.p1, p.code, d), ..e }, true)),
            None => Err(DxfError::InvalidValue(p.code as i32)),
        }
    } else if p.code == 11 || p.code == 21 || p.code == 31 {
        match d_of(p.value) {
            Some(d) => Ok((Line { p2: spec_point_set(e.p2, p.code - 1, d), ..e }, true)),
            None => Err(DxfError::InvalidValue(p.code as i32)),
        }
    } else if p.code == 39 {
        match d_of(p.value) {
            Some(d) => Ok((Line { thickness: d, ..e }, true)),
            None => Err(DxfError::InvalidValue(p.code as i32)),
        }
    } else if p.code == 210 || p.code == 220 || p.code == 230 {
        match d_of(p.value) {
            Some(d) => Ok(
                (Line { extrusion_direction: spec_vector_set(e.extrusion_direction, p.code - 200, d), ..e }, true),
            ),
            None => Err(DxfError::InvalidValue(p.code as i32)),
        }
    } else {
        Ok((e, false))
    }
}

/// How one pair lands on a circle.
pub open spec fn spec_apply_circle(e: Circle, p: PairV) -> Result<(Circle, bool), DxfError> {
    if p.code == 10 || p.code == 20 || p.code == 30 {
        match d_of(p.value) {
            Some(d) => Ok((Circle { center: spec_point_set(e.center, p.code, d), ..e }, true)),
            None => Err(DxfError::InvalidValue(p.code as i32)),
        }
    } else if p.code == 40 {
        match d_of(p.value) {
            Some(d) => Ok((Circle { radius: d, ..e }, true)),
            None => Err(DxfError::InvalidValue(p.code as i32)),
        }
    } else if p.code == 39 {
        match d_of(p.value) {
            Some(d) => Ok((Circle { thickness: d, ..e }, true)),
            None => Err(DxfError::InvalidValue(p.code as i32)),
        }
    } else {
        Ok((e, false))
    }
}

/// How one pair lands on a point entity.
pub open spec fn spec_apply_model_point(e: ModelPoint, p: PairV) -> Result<
    (ModelPoint, bool),
    DxfError,
> {
    if p.code == 10 || p.code == 20 || p.code == 30 {
        match d_of(p.value) {
            Some(d) => Ok(
                (ModelPoint { location: spec_point_set(e.location, p.code, d), ..e }, true),
            ),
            None => Err(DxfError::InvalidValue(p.code as i32)),
        }
    } else if p.code == 39 {
        match d_of(p.value) {
            Some(d) => Ok((ModelPoint { thickness: d, ..e }, true)),
            None => Err(DxfError::InvalidValue(p.code as i32)),
        }
    } else {
        Ok((e, false))
    }
}

/// How one pair lands on a polyline.
pub open spec fn spec_apply_polyline(e: PolylineV, p: PairV) -> Result<
    (PolylineV, bool),
    DxfError,
> {
    if p.code == 10 || p.code == 20 || p.code == 30 {
        match d_of(p.value) {
            Some(d) => Ok(
                (PolylineV { location: spec_point_set(e.location, p.code, d), ..e }, true),
            ),
            None => Err(DxfError::InvalidValue(p.code as i32)),
        }
    } else if p.code == 70 {
        match s_of(p.value) {
            Some(v) => Ok((PolylineV { flags: v as i16, ..e }, true)),
            None => Err(DxfError::InvalidValue(p.code as i32)),
        }
    } else {
        Ok((e, false))
    }
}

/// How one pair lands on a vertex.
pub open spec fn spec_apply_vertex(e: Vertex, p: PairV) -> Result<(Vertex, bool), DxfError> {
    if p.code == 10 || p.code == 20 || p.code == 30 {
        match d_of(p.value) {
            Some(d) => Ok((Vertex { location: spec_point_set(e.location, p.code, d), ..e }, true)),
            None => Err(DxfError::InvalidValue(p.code as i32)),
        }
    } else if p.code == 42 {
        match d_of(p.value) {
            Some(d) => Ok((Vertex { bulge: d, ..e }, true)),
            None => Err(DxfError::InvalidValue(p.code as i32)),
        }
    } else if p.code == 70 {
        match s_of(p.value) {
            Some(v) => Ok((Vertex { flags: v as i16, ..e }, true)),
            None => Err(DxfError::InvalidValue(p.code as i32)),
        }
    } else {
        Ok((e, false))
    }
}

/// How one pair lands on a leader: each coordinate code appends to its
/// parallel run.
pub open spec fn spec_apply_leader(e: LeaderV, p: PairV) -> Result<(LeaderV, bool), DxfError> {
    if p.code == 10 {
        match d_of(p.value) {
            Some(d) => Ok((LeaderV { vertices_x: e.vertices_x.push(d), ..e }, true)),
            None => Err(DxfError::InvalidValue(p.code as i32)),
        }
    } else if p.code == 20 {
        match d_of(p.value) {
            Some(d) => Ok((LeaderV { vertices_y: e.vertices_y.push(d), ..e }, true)),
            None => Err(DxfError::InvalidValue(p.code as i32)),
        }
    } else if p.code == 30 {
        match d_of(p.value) {
            Some(d) => Ok((LeaderV { vertices_z: e.vertices_z.push(d), ..e }, true)),
            None => Err(DxfError::InvalidValue(p.code as i32)),
        }
    } else {
        Ok((e, false))
    }
}

/// How one pair lands on an entity of any kind, except through the
/// stateful multi-line text reader, which owns its own rule.
pub open spec fn spec_try_apply(ev: EntityTypeV, p: PairV) -> Result<(EntityTypeV, bool), DxfError> {
    match ev {
        EntityTypeV::Line(e) => match spec_apply_line(e, p) {
            Ok((e2, h)) => Ok((EntityTypeV::Line(e2), h)),
            Err(err) => Err(err),
        },
        EntityTypeV::Circle(e) => match spec_apply_circle(e, p) {
            Ok((e2, h)) => Ok((EntityTypeV::Circle(e2), h)),
            Err(err) => Err(err),
        },
        EntityTypeV::ModelPoint(e) => match spec_apply_model_point(e, p) {
            Ok((e2, h)) => Ok((EntityTypeV::ModelPoint(e2), h)),
            Err(err) => Err(err),
        },
        EntityTypeV::Polyline(e) => match spec_apply_polyline(e, p) {
            Ok((e2, h)) => Ok((EntityTypeV::Polyline(e2), h)),
            Err(err) => Err(err),
        },
        EntityTypeV::Vertex(e) => match spec_apply_vertex(e, p) {
            Ok((e2, h)) => Ok((EntityTypeV::Vertex(e2), h)),
            Err(err) => Err(err),
        },
        EntityTypeV::Seqend(e) => Ok((EntityTypeV::Seqend(e), false)),
        EntityTypeV::Leader(e) => match spec_apply_leader(e, p) {
            Ok((e2, h)) => Ok((EntityTypeV::Leader(e2), h)),
            Err(err) => Err(err),
        },
        EntityTypeV::MText(e) => Ok((EntityTypeV::MText(e), false)),
    }
}

impl EntityType {
    /// Applies one pair to the active entity's own fields, saying whether
    /// the pair's code was claimed; an unclaimed pair leaves the entity
    /// untouched so the caller can fall back to the shared fields.  The
    /// multi-line text entity is decoded only by its stateful reader, so
    /// it is not accepted here.
    pub fn try_apply_code_pair(&mut self, pair: &CodePair) -> (r: Result<bool, DxfError>)
        requires
            !(old(self)@ is MText),
        ensures
            match r {
                Ok(handled) => spec_try_apply(old(self)@, pair@) == Ok::<
                    (EntityTypeV, bool),
                    DxfError,
                >((final(self)@, handled)),
                Err(e) => spec_try_apply(old(self)@, pair@) == Err::<
                    (EntityTypeV, bool),
                    DxfError,
                >(e) && final(self)@ == old(self)@,
            },
            old(self).wf() && pair.wf() ==> final(self).wf(),
    {
        match self {
            EntityType::Line(e) => {
                if pair.code == 10 || pair.code == 20 || pair.code == 30 {
                    match expect_double(pair) {
                        Ok(d) => {
                            if pair.code == 10 {
                                e.p1.x = d;
                            } else if pair.code == 20 {
                                e.p1.y = d;
                            } else {
                                e.p1.z = d;
                            }
                            Ok(true)
                        },
                        Err(err) => Err(err),
                    }
                } else if pair.code == 11 || pair.code == 21 || pair.code == 31 {
                    match expect_double(pair) {
                        Ok(d) => {
                            if pair.code == 11 {
                                e.p2.x = d;
                            } else if pair.code == 21 {
                                e.p2.y = d;
                            } else {
                                e.p2.z = d;
                            }
                            Ok(true)
                        },
                        Err(err) => Err(err),
                    }
                } else if pair.code == 39 {
                    match expect_double(pair) {
                        Ok(d) => {
                            e.thickness = d;
                            Ok(true)
                        },
                        Err(err) => Err(err),
                    }
                } else if pair.code == 210 || pair.code == 220 || pair.code == 230 {
                    match expect_double(pair) {
                        Ok(d) => {
                            if pair.code == 210 {
                                e.extrusion_direction.x = d;
                            } else if pair.code == 220 {
                                e.extrusion_direction.y = d;
                            } else {
                                e.extrusion_direction.z = d;
                            }
                            Ok(true)
                        },
                        Err(err) => Err(err),
                    }
                } else {
                    Ok(false)
                }
            },
            EntityType::Circle(e) => {
                if pair.code == 10 || pair.code == 20 || pair.code == 30 {
                    match expect_double(pair) {
                        Ok(d) => {
                            if pair.code == 10 {
                                e.center.x = d;
                            } else if pair.code == 20 {
                                e.center.y = d;
                            } else {
                                e.center.z = d;
                            }
                            Ok(true)
                        },
                        Err(err) => Err(err),
                    }
                } else if pair.code == 40 {
                    match expect_double(pair) {
                        Ok(d) => {
                            e.radius = d;
                            Ok(true)
                        },
                        Err(err) => Err(err),
                    }
                } else if pair.code == 39 {
                    match expect_double(pair) {
                        Ok(d) => {
                            e.thickness = d;
                            Ok(true)
                        },
                        Err(err) => Err(err),
                    }
                } else {
                    Ok(false)
                }
            },
            EntityType::ModelPoint(e) => {
                if pair.code == 10 || pair.code == 20 || pair.code == 30 {
                    match expect_double(pair) {
                        Ok(d) => {
                            if pair.code == 10 {
                                e.location.x = d;
                            } else if pair.code == 20 {
                                e.location.y = d;
                            } else {
                                e.location.z = d;
                            }
                            Ok(true)
                        },
                        Err(err) => Err(err),
                    }
                } else if pair.code == 39 {
                    match expect_double(pair) {
                        Ok(d) => {
                            e.thickness = d;
                            Ok(true)
                        },
                        Err(err) => Err(err),
                    }
                } else {
                    Ok(false)
                }
            },
            EntityType::Polyline(e) => {
                if pair.code == 10 || pair.code == 20 || pair.code == 30 {
                    match expect_double(pair) {
                        Ok(d) => {
                            if pair.code == 10 {
                                e.location.x = d;
                            } else if pair.code == 20 {
                                e.location.y = d;
                            } else {
                                e.location.z = d;
                            }
                            Ok(true)
                        },
                        Err(err) => Err(err),
                    }
                } else if pair.code == 70 {
                    match expect_short(pair) {
                        Ok(v) => {
                            e.flags = v;
                            Ok(true)
                        },
                        Err(err) => Err(err),
                    }
                } else {
                    Ok(false)
                }
            },
            EntityType::Vertex(e) => {
                if pair.code == 10 || pair.code == 20 || pair.code == 30 {
                    match expect_double(pair) {
                        Ok(d) => {
                            if pair.code == 10 {
                                e.location.x = d;
                            } else if pair.code == 20 {
                                e.location.y = d;
                            } else {
                                e.location.z = d;
                            }
                            Ok(true)
                        },
                        Err(err) => Err(err),
                    }
                } else if pair.code == 42 {
                    match expect_double(pair) {
                        Ok(d) => {
                            e.bulge = d;
                            Ok(true)
                        },
                        Err(err) => Err(err),
                    }
                } else if pair.code == 70 {
                    match expect_short(pair) {
                        Ok(v) => {
                            e.flags = v;
                            Ok(true)
                        },
                        Err(err) => Err(err),
                    }
                } else {
                    Ok(false)
                }
            },
            EntityType::Seqend(_) => Ok(false),
            EntityType::Leader(e) => {
                if pair.code == 10 {
                    match expect_double(pair) {
                        Ok(d) => {
                            e.vertices_x.push(d);
                            Ok(true)
                        },
                        Err(err) => Err(err),
                    }
                } else if pair.code == 20 {
                    match expect_double(pair) {
                        Ok(d) => {
                            e.vertices_y.push(d);
                            Ok(true)
                        },
                        Err(err) => Err(err),
                    }
                } else if pair.code == 30 {
                    match expect_double(pair) {
                        Ok(d) => {
                            e.vertices_z.push(d);
                            Ok(true)
                        },
                        Err(err) => Err(err),
                    }
                } else {
                    Ok(false)
                }
            },
            EntityType::MText(_) => Ok(false),
        }
    }
}

/// The subclass marker pair, written from R13 on.
pub open spec fn marker_pairs(version: AcadVersion, m: Seq<char>) -> Seq<PairV> {
    if version.ord() >= AcadVersion::R13.ord() {
        seq![pt(100, m)]
    } else {
        Seq::<PairV>::empty()
    }
}

/// Writes the subclass marker pair where the revision asks for one.
fn write_marker(writer: &mut crate::writer::CodePairAsciiWriter, version: AcadVersion, m: &str)
    requires
        old(writer).wf(),
        vstd::utf8::is_ascii_chars(m@),
    ensures
        final(writer).wf(),
        final(writer)@ == old(writer)@ + marker_pairs(version, m@),
{
    let ghost w0 = old(writer)@;
    if version.at_least(AcadVersion::R13) {
        writer.write_code_pair(&CodePair::new_str(100, m));
    }
    proof {
        assert(writer@ =~= w0 + marker_pairs(version, m@));
    }
}

/// Writes the three coordinate pairs of a point.
fn write_point(writer: &mut crate::writer::CodePairAsciiWriter, code: i32, p: &Point)
    requires
        old(writer).wf(),
        p.wf(),
        0 <= code <= 1000,
    ensures
        final(writer).wf(),
        final(writer)@ == old(writer)@ + point_pairs(code as int, *p),
{
    let ghost w0 = old(writer)@;
    writer.write_code_pair(&CodePair::new_double(code, p.x));
    writer.write_code_pair(&CodePair::new_double(code + 10, p.y));
    writer.write_code_pair(&CodePair::new_double(code + 20, p.z));
    proof {
        assert(writer@ =~= w0 + point_pairs(code as int, *p));
    }
}

/// Writes the three component pairs of a vector.
fn write_vector(writer: &mut crate::writer::CodePairAsciiWriter, code: i32, v: &Vector)
    requires
        old(writer).wf(),
        v.wf(),
        0 <= code <= 1000,
    ensures
        final(writer).wf(),
        final(writer)@ == old(writer)@ + vector_pairs(code as int, *v),
{
    let ghost w0 = old(writer)@;
    writer.write_code_pair(&CodePair::new_double(code, v.x));
    writer.write_code_pair(&CodePair::new_double(code + 10, v.y));
    writer.write_code_pair(&CodePair::new_double(code + 20, v.z));
    proof {
        assert(writer@ =~= w0 + vector_pairs(code as int, *v));
    }
}

/// The pairs of a line on write.
pub open spec fn spec_line_pairs(e: Line, version: AcadVersion) -> Seq<PairV> {
    marker_pairs(version, "AcDbLine"@) + point_pairs(10, e.p1) + point_pairs(11, e.p2) + (
    if e.thickness != dzero() {
        seq![pd(39, e.thickness)]
    } else {
        Seq::<PairV>::empty()
    }) + (if e.extrusion_direction != crate::point::spec_z_axis() {
        vector_pairs(210, e.extrusion_direction)
    } else {
        Seq::<PairV>::empty()
    })
}

/// Writes a line's own fields.
fn write_line(e: &Line, version: AcadVersion, writer: &mut crate::writer::CodePairAsciiWriter)
    requires
        e.wf(),
        old(writer).wf(),
    ensures
        final(writer).wf(),
        final(writer)@ == old(writer)@ + spec_line_pairs(*e, version),
{
    let ghost w0 = old(writer)@;
    let ghost s1 = marker_pairs(version, "AcDbLine"@);
    let ghost s2 = point_pairs(10, e.p1);
    let ghost s3 = point_pairs(11, e.p2);
    let ghost s4 = if e.thickness != dzero() {
        seq![pd(39, e.thickness)]
    } else {
        Seq::<PairV>::empty()
    };
    let ghost s5 = if e.extrusion_direction != crate::point::spec_z_axis() {
        vector_pairs(210, e.extrusion_direction)
    } else {
        Seq::<PairV>::empty()
    };
    proof {
        reveal_strlit("AcDbLine");
    }
    write_marker(writer, version, "AcDbLine");
    write_point(writer, 10, &e.p1);
    proof {
        assert(writer@ =~= w0 + s1 + s2);
    }
    write_point(writer, 11, &e.p2);
    proof {
        assert(writer@ =~= w0 + s1 + s2 + s3);
    }
    let zero: Double = Double::zero();
    if !(e.thickness == zero) {
        writer.write_code_pair(&CodePair::new_double(39, e.thickness));
    }
    proof {
        assert(writer@ =~= w0 + s1 + s2 + s3 + s4);
    }
    let z: Vector = Vector::z_axis();
    if !(e.extrusion_direction == z) {
        write_vector(writer, 210, &e.extrusion_direction);
    }
    proof {
        assert(writer@ =~= w0 + s1 + s2 + s3 + s4 + s5);
        assert(w0 + s1 + s2 + s3 + s4 + s5 =~= w0 + (s1 + s2 + s3 + s4 + s5));
    }
}

/// The pairs of a circle on write.
pub open spec fn spec_circle_pairs(e: Circle, version: AcadVersion) -> Seq<PairV> {
    marker_pairs(version, "AcDbCircle"@) + point_pairs(10, e.center) + seq![pd(40, e.radius)] + (
    if e.thickness != dzero() {
        seq![pd(39, e.thickness)]
    } else {
        Seq::<PairV>::empty()
    })
}

/// Writes a circle's own fields.
fn write_circle(e: &Circle, version: AcadVersion, writer: &mut crate::writer::CodePairAsciiWriter)
    requires
        e.wf(),
        old(writer).wf(),
    ensures
        final(writer).wf(),
        final(writer)@ == old(writer)@ + spec_circle_pairs(*e, version),
{
    let ghost w0 = old(writer)@;
    let ghost s1 = marker_pairs(version, "AcDbCircle"@);
    let ghost s2 = point_pairs(10, e.center);
    let ghost s3 = seq![pd(40, e.radius)];
    let ghost s4 = if e.thickness != dzero() {
        seq![pd(39, e.thickness)]
    } else {
        Seq::<PairV>::empty()
    };
    proof {
        reveal_strlit("AcDbCircle");
    }
    write_marker(writer, version, "AcDbCircle");
    write_point(writer, 10, &e.center);
    proof {
        assert(writer@ =~= w0 + s1 + s2);
    }
    writer.write_code_pair(&CodePair::new_double(40, e.radius));
    proof {
        assert(writer@ =~= w0 + s1 + s2 + s3);
    }
    let zero: Double = Double::zero();
    if !(e.thickness == zero) {
        writer.write_code_pair(&CodePair::new_double(39, e.thickness));
    }
    proof {
        assert(writer@ =~= w0 + s1 + s2 + s3 + s4);
        assert(w0 + s1 + s2 + s3 + s4 =~= w0 + (s1 + s2 + s3 + s4));
    }
}

/// The pairs of a point entity on write.
pub open spec fn spec_model_point_pairs(e: ModelPoint, version: AcadVersion) -> Seq<PairV> {
    marker_pairs(version, "AcDbPoint"@) + point_pairs(10, e.location) + (if e.thickness != dzero() {
        seq![pd(39, e.thickness)]
    } else {
        Seq::<PairV>::empty()
    })
}

/// Writes a point entity's own fields.
fn write_model_point(
    e: &ModelPoint,
    version: AcadVersion,
    writer: &mut crate::writer::CodePairAsciiWriter,
)
    requires
        e.wf(),
        old(writer).wf(),
    ensures
        final(writer).wf(),
        final(writer)@ == old(writer)@ + spec_model_point_pairs(*e, version),
{
    let ghost w0 = old(writer)@;
    let ghost s1 = marker_pairs(version, "AcDbPoint"@);
    let ghost s2 = point_pairs(10, e.location);
    let ghost s3 = if e.thickness != dzero() {
        seq![pd(39, e.thickness)]
    } else {
        Seq::<PairV>::empty()
    };
    proof {
        reveal_strlit("AcDbPoint");
    }
    write_marker(writer, version, "AcDbPoint");
    write_point(writer, 10, &e.location);
    proof {
        assert(writer@ =~= w0 + s1 + s2);
    }
    let zero: Double = Double::zero();
    if !(e.thickness == zero) {
        writer.write_code_pair(&CodePair::new_double(39, e.thickness));
    }
    proof {
        assert(writer@ =~= w0 + s1 + s2 + s3);
        assert(w0 + s1 + s2 + s3 =~= w0 + (s1 + s2 + s3));
    }
}

/// The pairs of a polyline's own fields on write: the marker, the fixed
/// vertices-follow pair, the location and the flags; the vertices follow
/// as entities of their own.
pub open spec fn spec_polyline_pairs(e: PolylineV, version: AcadVersion) -> Seq<PairV> {
    marker_pairs(version, "AcDb2dPolyline"@) + seq![psh(66, 1)] + point_pairs(10, e.location) + (
    if e.flags != 0 {
        seq![psh(70, e.flags as int)]
    } else {
        Seq::<PairV>::empty()
    })
}

/// Writes a polyline's own fields.
fn write_polyline(
    e: &Polyline,
    version: AcadVersion,
    writer: &mut crate::writer::CodePairAsciiWriter,
)
    requires
        e.wf(),
        old(writer).wf(),
    ensures
        final(writer).wf(),
        final(writer)@ == old(writer)@ + spec_polyline_pairs(e@, version),
{
    let ghost w0 = old(writer)@;
    let ghost s1 = marker_pairs(version, "AcDb2dPolyline"@);
    let ghost s2 = seq![psh(66, 1)];
    let ghost s3 = point_pairs(10, e.location);
    let ghost s4 = if e@.flags != 0 {
        seq![psh(70, e@.flags as int)]
    } else {
        Seq::<PairV>::empty()
    };
    proof {
        reveal_strlit("AcDb2dPolyline");
    }
    write_marker(writer, version, "AcDb2dPolyline");
    writer.write_code_pair(&CodePair::new_short(66, 1));
    proof {
        assert(writer@ =~= w0 + s1 + s2);
    }
    write_point(writer, 10, &e.location);
    proof {
        assert(writer@ =~= w0 + s1 + s2 + s3);
    }
    if e.flags != 0 {
        writer.write_code_pair(&CodePair::new_short(70, e.flags));
    }
    proof {
        assert(writer@ =~= w0 + s1 + s2 + s3 + s4);
        assert(w0 + s1 + s2 + s3 + s4 =~= w0 + (s1 + s2 + s3 + s4));
    }
}

/// The pairs of a vertex on write.
pub open spec fn spec_vertex_pairs(e: Vertex, version: AcadVersion) -> Seq<PairV> {
    marker_pairs(version, "AcDbVertex"@) + point_pairs(10, e.location) + (if e.bulge != dzero() {
        seq![pd(42, e.bulge)]
    } else {
        Seq::<PairV>::empty()
    }) + (if e.flags != 0 {
        seq![psh(70, e.flags as int)]
    } else {
        Seq::<PairV>::empty()
    })
}

/// Writes a vertex's own fields.
pub(crate) fn write_vertex(e: &Vertex, version: AcadVersion, writer: &mut crate::writer::CodePairAsciiWriter)
    requires
        e.wf(),
        old(writer).wf(),
    ensures
        final(writer).wf(),
        final(writer)@ == old(writer)@ + spec_vertex_pairs(*e, version),
{
    let ghost w0 = old(writer)@;
    let ghost s1 = marker_pairs(version, "AcDbVertex"@);
    let ghost s2 = point_pairs(10, e.location);
    let ghost s3 = if e.bulge != dzero() {
        seq![pd(42, e.bulge)]
    } else {
        Seq::<PairV>::empty()
    };
    let ghost s4 = if e.flags != 0 {
        seq![psh(70, e.flags as int)]
    } else {
        Seq::<PairV>::empty()
    };
    proof {
        reveal_strlit("AcDbVertex");
    }
    write_marker(writer, version, "AcDbVertex");
    write_point(writer, 10, &e.location);
    proof {
        assert(writer@ =~= w0 + s1 + s2);
    }
    let zero: Double = Double::zero();
    if !(e.bulge == zero) {
        writer.write_code_pair(&CodePair::new_double(42, e.bulge));
    }
    proof {
        assert(writer@ =~= w0 + s1 + s2 + s3);
    }
    if e.flags != 0 {
        writer.write_code_pair(&CodePair::new_short(70, e.flags));
    }
    proof {
        assert(writer@ =~= w0 + s1 + s2 + s3 + s4);
        assert(w0 + s1 + s2 + s3 + s4 =~= w0 + (s1 + s2 + s3 + s4));
    }
}

/// The coordinate pairs of a leader's vertices: three pairs per vertex,
/// in vertex order.
pub open spec fn leader_vertex_pairs(vs: Seq<Point>) -> Seq<PairV>
    decreases vs.len(),
{
    if vs.len() == 0 {
        Seq::<PairV>::empty()
    } else {
        point_pairs(10, vs[0]) + leader_vertex_pairs(vs.skip(1))
    }
}

/// One more leader vertex appends its three pairs.
proof fn lemma_leader_vertex_pairs_push(vs: Seq<Point>, p: Point)
    ensures
        leader_vertex_pairs(vs.push(p)) == leader_vertex_pairs(vs) + point_pairs(10, p),
    decreases vs.len(),
{
    reveal_with_fuel(leader_vertex_pairs, 2);
    if vs.len() == 0 {
        assert(vs.push(p)[0] == p);
        assert(vs.push(p).skip(1) =~= Seq::<Point>::empty());
        assert(leader_vertex_pairs(vs.push(p)) =~= leader_vertex_pairs(vs) + point_pairs(10, p));
    } else {
        lemma_leader_vertex_pairs_push(vs.skip(1), p);
        assert(vs.push(p).skip(1) =~= vs.skip(1).push(p));
        assert(vs.push(p)[0] == vs[0]);
        assert(leader_vertex_pairs(vs.push(p)) == point_pairs(10, vs[0]) + (leader_vertex_pairs(
            vs.skip(1),
        ) + point_pairs(10, p)));
        assert(point_pairs(10, vs[0]) + (leader_vertex_pairs(vs.skip(1)) + point_pairs(10, p))
            =~= (point_pairs(10, vs[0]) + leader_vertex_pairs(vs.skip(1))) + point_pairs(10, p));
    }
}

/// The pairs of a leader on write: the marker, then its vertices.
pub open spec fn spec_leader_pairs(e: LeaderV, version: AcadVersion) -> Seq<PairV> {
    marker_pairs(version, "AcDbLeader"@) + leader_vertex_pairs(e.vertices)
}

/// Writes a leader's own fields.
fn write_leader(e: &Leader, version: AcadVersion, writer: &mut crate::writer::CodePairAsciiWriter)
    requires
        e.wf(),
        old(writer).wf(),
    ensures
        final(writer).wf(),
        final(writer)@ == old(writer)@ + spec_leader_pairs(e@, version),
{
    let ghost w0 = old(writer)@;
    let ghost s1 = marker_pairs(version, "AcDbLeader"@);
    proof {
        reveal_strlit("AcDbLeader");
    }
    write_marker(writer, version, "AcDbLeader");
    let mut i: usize = 0;
    proof {
        assert(e@.vertices.take(0) =~= Seq::<Point>::empty());
        assert(w0 + s1 + leader_vertex_pairs(e@.vertices.take(0)) =~= w0 + s1);
    }
    while i < e.vertices.len()
        invariant
            0 <= i <= e.vertices@.len(),
            e.wf(),
            writer.wf(),
            writer@ == w0 + s1 + leader_vertex_pairs(e@.vertices.take(i as int)),
        decreases e.vertices@.len() - i,
    {
        write_point(writer, 10, &e.vertices[i]);
        proof {
            assert(e@.vertices.take(i + 1) =~= e@.vertices.take(i as int).push(
                e@.vertices[i as int],
            ));
            lemma_leader_vertex_pairs_push(e@.vertices.take(i as int), e@.vertices[i as int]);
            assert(w0 + s1 + leader_vertex_pairs(e@.vertices.take(i as int)) + point_pairs(
                10,
                e@.vertices[i as int],
            ) =~= w0 + s1 + leader_vertex_pairs(e@.vertices.take(i + 1)));
        }
        i = i + 1;
    }
    proof {
        assert(e@.vertices.take(i as int) =~= e@.vertices);
        assert(w0 + s1 + leader_vertex_pairs(e@.vertices) =~= w0 + (s1 + leader_vertex_pairs(
            e@.vertices,
        )));
    }
}


/// Reassociates a ten-part concatenation onto its base.
proof fn lemma_reassoc_10<A>(
    w: Seq<A>,
    s1: Seq<A>,
    s2: Seq<A>,
    s3: Seq<A>,
    s4: Seq<A>,
    s5: Seq<A>,
    s6: Seq<A>,
    s7: Seq<A>,
    s8: Seq<A>,
    s9: Seq<A>,
    s10: Seq<A>,
)
    ensures
        w + s1 + s2 + s3 + s4 + s5 + s6 + s7 + s8 + s9 + s10 == w + (s1 + s2 + s3 + s4 + s5 + s6
            + s7 + s8 + s9 + s10),
{
    vstd::seq_lib::lemma_concat_associative(w, s1, s2);
    vstd::seq_lib::lemma_concat_associative(w, s1 + s2, s3);
    vstd::seq_lib::lemma_concat_associative(w, s1 + s2 + s3, s4);
    vstd::seq_lib::lemma_concat_associative(w, s1 + s2 + s3 + s4, s5);
    vstd::seq_lib::lemma_concat_associative(w, s1 + s2 + s3 + s4 + s5, s6);
    vstd::seq_lib::lemma_concat_associative(w, s1 + s2 + s3 + s4 + s5 + s6, s7);
    vstd::seq_lib::lemma_concat_associative(w, s1 + s2 + s3 + s4 + s5 + s6 + s7, s8);
    vstd::seq_lib::lemma_concat_associative(w, s1 + s2 + s3 + s4 + s5 + s6 + s7 + s8, s9);
    vstd::seq_lib::lemma_concat_associative(w, s1 + s2 + s3 + s4 + s5 + s6 + s7 + s8 + s9, s10);
}

/// Reassociates a seven-part concatenation onto its base.
proof fn lemma_reassoc_7<A>(
    w: Seq<A>,
    s1: Seq<A>,
    s2: Seq<A>,
    s3: Seq<A>,
    s4: Seq<A>,
    s5: Seq<A>,
    s6: Seq<A>,
    s7: Seq<A>,
)
    ensures
        w + s1 + s2 + s3 + s4 + s5 + s6 + s7 == w + (s1 + s2 + s3 + s4 + s5 + s6 + s7),
{
    vstd::seq_lib::lemma_concat_associative(w, s1, s2);
    vstd::seq_lib::lemma_concat_associative(w, s1 + s2, s3);
    vstd::seq_lib::lemma_concat_associative(w, s1 + s2 + s3, s4);
    vstd::seq_lib::lemma_concat_associative(w, s1 + s2 + s3 + s4, s5);
    vstd::seq_lib::lemma_concat_associative(w, s1 + s2 + s3 + s4 + s5, s6);
    vstd::seq_lib::lemma_concat_associative(w, s1 + s2 + s3 + s4 + s5 + s6, s7);
}

/// The pairs of the multi-line text column block on write: the column
/// marker and sizes, then the count and each height, all on the shared
/// code the stateful reader tells apart.
pub open spec fn mtext_column_pairs(m: MTextV) -> Seq<PairV> {
    seq![
        psh(75, m.column_type as int),
        psh(76, (m.column_count as i16) as int),
        psh(78, if m.is_column_flow_reversed { 1int } else { 0int }),
        psh(79, if m.is_column_auto_height { 1int } else { 0int }),
        pd(48, m.column_width),
        pd(49, m.column_gutter),
        pd(50, crate::double::spec_double_from_int(m.column_count as int)),
    ] + m.column_heights.map_values(|h: Double| pd(50, h))
}

/// The pairs of multi-line text on write.
pub open spec fn spec_mtext_pairs(m: MTextV, version: AcadVersion) -> Seq<PairV> {
    marker_pairs(version, "AcDbMText"@) + point_pairs(10, m.insertion_point) + seq![
        pd(40, m.initial_text_height),
        pd(41, m.reference_rectangle_width),
        psh(71, crate::enums::spec_attachment_code(m.attachment_point)),
        psh(72, crate::enums::spec_drawing_direction_code(m.drawing_direction)),
        pt(1, m.text),
    ] + m.extended_text.map_values(|s: Seq<char>| pt(3, s)) + (if m.text_style_name
        != "STANDARD"@ {
        seq![pt(7, m.text_style_name)]
    } else {
        Seq::<PairV>::empty()
    }) + vector_pairs(11, m.x_axis_direction) + (if m.extrusion_direction
        != crate::point::spec_z_axis() {
        vector_pairs(210, m.extrusion_direction)
    } else {
        Seq::<PairV>::empty()
    }) + seq![pd(42, m.horizontal_width), pd(43, m.vertical_height), pd(50, m.rotation_angle)] + (
    if m.line_spacing_style != MTextLineSpacingStyle::AtLeast {
        seq![psh(73, crate::enums::spec_line_spacing_code(m.line_spacing_style))]
    } else {
        Seq::<PairV>::empty()
    }) + (if m.line_spacing_factor != done() {
        seq![pd(44, m.line_spacing_factor)]
    } else {
        Seq::<PairV>::empty()
    }) + (if version.ord() >= AcadVersion::R2007.ord() && m.background_fill_setting
        != BackgroundFillSetting::Off {
        seq![pin(90, crate::enums::spec_background_fill_code(m.background_fill_setting))]
    } else {
        Seq::<PairV>::empty()
    }) + (if version.ord() >= AcadVersion::R2007.ord() && m.background_color_rgb != 0 {
        seq![pin(420, m.background_color_rgb as int)]
    } else {
        Seq::<PairV>::empty()
    }) + (if version.ord() >= AcadVersion::R2007.ord() && m.background_color_name.len() != 0 {
        seq![pt(430, m.background_color_name)]
    } else {
        Seq::<PairV>::empty()
    }) + (if version.ord() >= AcadVersion::R2007.ord() && m.fill_box_scale != done() {
        seq![pd(45, m.fill_box_scale)]
    } else {
        Seq::<PairV>::empty()
    }) + (if version.ord() >= AcadVersion::R2007.ord() && m.background_fill_color.raw_value
        != 256 {
        seq![psh(63, m.background_fill_color.raw_value as int)]
    } else {
        Seq::<PairV>::empty()
    }) + (if version.ord() >= AcadVersion::R2007.ord() && m.background_fill_color_transparency
        != 0 {
        seq![pin(441, m.background_fill_color_transparency as int)]
    } else {
        Seq::<PairV>::empty()
    }) + (if version.ord() >= AcadVersion::R2010.ord() && m.column_type != 0 {
        mtext_column_pairs(m)
    } else {
        Seq::<PairV>::empty()
    })
}

/// Writes the fields of multi-line text up through the line spacing
/// fields.
#[verifier::rlimit(100)]
fn write_mtext_head(
    e: &MText,
    version: AcadVersion,
    writer: &mut crate::writer::CodePairAsciiWriter,
)
    requires
        mtext_wf(e@),
        old(writer).wf(),
    ensures
        final(writer).wf(),
        final(writer)@ == old(writer)@ + spec_mtext_head_pairs(e@, version),
{
    let ghost m = e@;
    let ghost w0 = old(writer)@;
    let ghost s1 = marker_pairs(version, "AcDbMText"@);
    let ghost s2 = point_pairs(10, m.insertion_point);
    let ghost s3 = seq![
        pd(40, m.initial_text_height),
        pd(41, m.reference_rectangle_width),
        psh(71, crate::enums::spec_attachment_code(m.attachment_point)),
        psh(72, crate::enums::spec_drawing_direction_code(m.drawing_direction)),
        pt(1, m.text),
    ];
    let ghost s4 = m.extended_text.map_values(|s: Seq<char>| pt(3, s));
    let ghost s5 = if m.text_style_name != "STANDARD"@ {
        seq![pt(7, m.text_style_name)]
    } else {
        Seq::<PairV>::empty()
    };
    let ghost s6 = vector_pairs(11, m.x_axis_direction);
    let ghost s7 = if m.extrusion_direction != crate::point::spec_z_axis() {
        vector_pairs(210, m.extrusion_direction)
    } else {
        Seq::<PairV>::empty()
    };
    let ghost s8 = seq![pd(42, m.horizontal_width), pd(43, m.vertical_height), pd(50, m.rotation_angle)];
    let ghost s9 = if m.line_spacing_style != MTextLineSpacingStyle::AtLeast {
        seq![psh(73, crate::enums::spec_line_spacing_code(m.line_spacing_style))]
    } else {
        Seq::<PairV>::empty()
    };
    let ghost s10 = if m.line_spacing_factor != done() {
        seq![pd(44, m.line_spacing_factor)]
    } else {
        Seq::<PairV>::empty()
    };
    proof {
        reveal_strlit("AcDbMText");
        reveal_strlit("STANDARD");
    }
    write_marker(writer, version, "AcDbMText");
    write_point(writer, 10, &e.insertion_point);
    proof {
        assert(writer@ =~= w0 + s1 + s2);
    }
    writer.write_code_pair(&CodePair::new_double(40, e.initial_text_height));
    writer.write_code_pair(&CodePair::new_double(41, e.reference_rectangle_width));
    writer.write_code_pair(&CodePair::new_short(71, e.attachment_point.as_i16()));
    writer.write_code_pair(&CodePair::new_short(72, e.drawing_direction.as_i16()));
    writer.write_code_pair(&CodePair::new_string(1, &e.text));
    proof {
        assert(writer@ =~= w0 + s1 + s2 + s3);
    }
    let mut i: usize = 0;
    proof {
        assert(m.extended_text.take(0).map_values(|s: Seq<char>| pt(3, s)) =~= Seq::<
            PairV,
        >::empty());
        assert(writer@ =~= w0 + s1 + s2 + s3 + m.extended_text.take(0).map_values(
            |s: Seq<char>| pt(3, s),
        ));
    }
    while i < e.extended_text.len()
        invariant
            0 <= i <= e.extended_text@.len(),
            mtext_wf(e@),
            m == e@,
            writer.wf(),
            writer@ == w0 + s1 + s2 + s3 + m.extended_text.take(i as int).map_values(
                |s: Seq<char>| pt(3, s),
            ),
        decreases e.extended_text@.len() - i,
    {
        proof {
            assert(vstd::utf8::is_ascii_chars(m.extended_text[i as int]));
            assert(e.extended_text@[i as int]@ == m.extended_text[i as int]);
        }
        writer.write_code_pair(&CodePair::new_string(3, &e.extended_text[i]));
        proof {
            assert(m.extended_text.take(i + 1).map_values(|s: Seq<char>| pt(3, s))
                =~= m.extended_text.take(i as int).map_values(|s: Seq<char>| pt(3, s)).push(
                pt(3, m.extended_text[i as int]),
            ));
        }
        i = i + 1;
    }
    proof {
        assert(m.extended_text.take(i as int) =~= m.extended_text);
        assert(writer@ =~= w0 + s1 + s2 + s3 + s4);
    }
    if !crate::enums::str_eq(e.text_style_name.as_str(), "STANDARD") {
        writer.write_code_pair(&CodePair::new_string(7, &e.text_style_name));
    }
    proof {
        assert(writer@ =~= w0 + s1 + s2 + s3 + s4 + s5);
    }
    write_vector(writer, 11, &e.x_axis_direction);
    proof {
        assert(writer@ =~= w0 + s1 + s2 + s3 + s4 + s5 + s6);
    }
    let z: Vector = Vector::z_axis();
    if !(e.extrusion_direction == z) {
        write_vector(writer, 210, &e.extrusion_direction);
    }
    proof {
        assert(writer@ =~= w0 + s1 + s2 + s3 + s4 + s5 + s6 + s7);
    }
    writer.write_code_pair(&CodePair::new_double(42, e.horizontal_width));
    writer.write_code_pair(&CodePair::new_double(43, e.vertical_height));
    writer.write_code_pair(&CodePair::new_double(50, e.rotation_angle));
    proof {
        assert(writer@ =~= w0 + s1 + s2 + s3 + s4 + s5 + s6 + s7 + s8);
    }
    if !(e.line_spacing_style == MTextLineSpacingStyle::AtLeast) {
        writer.write_code_pair(&CodePair::new_short(73, e.line_spacing_style.as_i16()));
    }
    proof {
        assert(writer@ =~= w0 + s1 + s2 + s3 + s4 + s5 + s6 + s7 + s8 + s9);
    }
    let one: Double = Double::from_units(1);
    if !(e.line_spacing_factor == one) {
        writer.write_code_pair(&CodePair::new_double(44, e.line_spacing_factor));
    }
    proof {
        assert(writer@ =~= w0 + s1 + s2 + s3 + s4 + s5 + s6 + s7 + s8 + s9 + s10);
    }
    proof {
        assert(writer@ =~= w0 + s1 + s2 + s3 + s4 + s5 + s6 + s7 + s8 + s9 + s10);
        lemma_reassoc_10(w0, s1, s2, s3, s4, s5, s6, s7, s8, s9, s10);
    }
}

/// The pairs of multi-line text up through the line spacing fields.
pub open spec fn spec_mtext_head_pairs(m: MTextV, version: AcadVersion) -> Seq<PairV> {
    marker_pairs(version, "AcDbMText"@) + point_pairs(10, m.insertion_point) + seq![
        pd(40, m.initial_text_height),
        pd(41, m.reference_rectangle_width),
        psh(71, crate::enums::spec_attachment_code(m.attachment_point)),
        psh(72, crate::enums::spec_drawing_direction_code(m.drawing_direction)),
        pt(1, m.text),
    ] + m.extended_text.map_values(|s: Seq<char>| pt(3, s)) + (if m.text_style_name
        != "STANDARD"@ {
        seq![pt(7, m.text_style_name)]
    } else {
        Seq::<PairV>::empty()
    }) + vector_pairs(11, m.x_axis_direction) + (if m.extrusion_direction
        != crate::point::spec_z_axis() {
        vector_pairs(210, m.extrusion_direction)
    } else {
        Seq::<PairV>::empty()
    }) + seq![pd(42, m.horizontal_width), pd(43, m.vertical_height), pd(50, m.rotation_angle)] + (
    if m.line_spacing_style != MTextLineSpacingStyle::AtLeast {
        seq![psh(73, crate::enums::spec_line_spacing_code(m.line_spacing_style))]
    } else {
        Seq::<PairV>::empty()
    }) + (if m.line_spacing_factor != done() {
        seq![pd(44, m.line_spacing_factor)]
    } else {
        Seq::<PairV>::empty()
    })
}

/// The pairs of the revision-gated tail of multi-line text: the
/// background fill fields and the column block.
pub open spec fn spec_mtext_tail_pairs(m: MTextV, version: AcadVersion) -> Seq<PairV> {
    (if version.ord() >= AcadVersion::R2007.ord() && m.background_fill_setting
        != BackgroundFillSetting::Off {
        seq![pin(90, crate::enums::spec_background_fill_code(m.background_fill_setting))]
    } else {
        Seq::<PairV>::empty()
    }) + (if version.ord() >= AcadVersion::R2007.ord() && m.background_color_rgb != 0 {
        seq![pin(420, m.background_color_rgb as int)]
    } else {
        Seq::<PairV>::empty()
    }) + (if version.ord() >= AcadVersion::R2007.ord() && m.background_color_name.len() != 0 {
        seq![pt(430, m.background_color_name)]
    } else {
        Seq::<PairV>::empty()
    }) + (if version.ord() >= AcadVersion::R2007.ord() && m.fill_box_scale != done() {
        seq![pd(45, m.fill_box_scale)]
    } else {
        Seq::<PairV>::empty()
    }) + (if version.ord() >= AcadVersion::R2007.ord() && m.background_fill_color.raw_value
        != 256 {
        seq![psh(63, m.background_fill_color.raw_value as int)]
    } else {
        Seq::<PairV>::empty()
    }) + (if version.ord() >= AcadVersion::R2007.ord() && m.background_fill_color_transparency
        != 0 {
        seq![pin(441, m.background_fill_color_transparency as int)]
    } else {
        Seq::<PairV>::empty()
    }) + (if version.ord() >= AcadVersion::R2010.ord() && m.column_type != 0 {
        mtext_column_pairs(m)
    } else {
        Seq::<PairV>::empty()
    })
}

/// Writes the column block of multi-line text.
fn write_mtext_columns(e: &MText, writer: &mut crate::writer::CodePairAsciiWriter)
    requires
        mtext_wf(e@),
        old(writer).wf(),
    ensures
        final(writer).wf(),
        final(writer)@ == old(writer)@ + mtext_column_pairs(e@),
{
    let ghost m = e@;
    let ghost w0 = old(writer)@;
    let ghost head = seq![
        psh(75, m.column_type as int),
        psh(76, (m.column_count as i16) as int),
        psh(78, if m.is_column_flow_reversed { 1int } else { 0int }),
        psh(79, if m.is_column_auto_height { 1int } else { 0int }),
        pd(48, m.column_width),
        pd(49, m.column_gutter),
        pd(50, crate::double::spec_double_from_int(m.column_count as int)),
    ];
    writer.write_code_pair(&CodePair::new_short(75, e.column_type));
    writer.write_code_pair(
        &CodePair::new_short(76, #[verifier::truncate] (e.column_count as i16)),
    );
    writer.write_code_pair(
        &CodePair::new_short(78, if e.is_column_flow_reversed {
            1
        } else {
            0
        }),
    );
    writer.write_code_pair(
        &CodePair::new_short(79, if e.is_column_auto_height {
            1
        } else {
            0
        }),
    );
    writer.write_code_pair(&CodePair::new_double(48, e.column_width));
    writer.write_code_pair(&CodePair::new_double(49, e.column_gutter));
    writer.write_code_pair(&CodePair::new_double(50, Double::from_i64(e.column_count as i64)));
    proof {
        assert(writer@ =~= w0 + head);
    }
    let ghost base = writer@;
    let mut j: usize = 0;
    proof {
        assert(m.column_heights.take(0).map_values(|h: Double| pd(50, h)) =~= Seq::<
            PairV,
        >::empty());
        assert(writer@ =~= base + m.column_heights.take(0).map_values(|h: Double| pd(50, h)));
    }
    while j < e.column_heights.len()
        invariant
            0 <= j <= e.column_heights@.len(),
            mtext_wf(e@),
            m == e@,
            writer.wf(),
            base == w0 + head,
            writer@ == base + m.column_heights.take(j as int).map_values(|h: Double| pd(50, h)),
        decreases e.column_heights@.len() - j,
    {
        proof {
            assert((#[trigger] m.column_heights[j as int]).wf());
        }
        writer.write_code_pair(&CodePair::new_double(50, e.column_heights[j]));
        proof {
            assert(m.column_heights.take(j + 1).map_values(|h: Double| pd(50, h))
                =~= m.column_heights.take(j as int).map_values(|h: Double| pd(50, h)).push(
                pd(50, m.column_heights[j as int]),
            ));
        }
        j = j + 1;
    }
    proof {
        assert(m.column_heights.take(j as int) =~= m.column_heights);
        vstd::seq_lib::lemma_concat_associative(
            w0,
            head,
            m.column_heights.map_values(|h: Double| pd(50, h)),
        );
    }
}

/// Writes the revision-gated tail fields of multi-line text.
#[verifier::rlimit(100)]
fn write_mtext_tail(
    e: &MText,
    version: AcadVersion,
    writer: &mut crate::writer::CodePairAsciiWriter,
)
    requires
        mtext_wf(e@),
        old(writer).wf(),
    ensures
        final(writer).wf(),
        final(writer)@ == old(writer)@ + spec_mtext_tail_pairs(e@, version),
{
    let ghost m = e@;
    let ghost w0 = old(writer)@;
    let ghost s11 = if version.ord() >= AcadVersion::R2007.ord() && m.background_fill_setting
        != BackgroundFillSetting::Off {
        seq![pin(90, crate::enums::spec_background_fill_code(m.background_fill_setting))]
    } else {
        Seq::<PairV>::empty()
    };
    let ghost s12 = if version.ord() >= AcadVersion::R2007.ord() && m.background_color_rgb != 0 {
        seq![pin(420, m.background_color_rgb as int)]
    } else {
        Seq::<PairV>::empty()
    };
    let ghost s13 = if version.ord() >= AcadVersion::R2007.ord() && m.background_color_name.len()
        != 0 {
        seq![pt(430, m.background_color_name)]
    } else {
        Seq::<PairV>::empty()
    };
    let ghost s14 = if version.ord() >= AcadVersion::R2007.ord() && m.fill_box_scale != done() {
        seq![pd(45, m.fill_box_scale)]
    } else {
        Seq::<PairV>::empty()
    };
    let ghost s15 = if version.ord() >= AcadVersion::R2007.ord()
        && m.background_fill_color.raw_value != 256 {
        seq![psh(63, m.background_fill_color.raw_value as int)]
    } else {
        Seq::<PairV>::empty()
    };
    let ghost s16 = if version.ord() >= AcadVersion::R2007.ord()
        && m.background_fill_color_transparency != 0 {
        seq![pin(441, m.background_fill_color_transparency as int)]
    } else {
        Seq::<PairV>::empty()
    };
    let ghost s17 = if version.ord() >= AcadVersion::R2010.ord() && m.column_type != 0 {
        mtext_column_pairs(m)
    } else {
        Seq::<PairV>::empty()
    };
    if version.at_least(AcadVersion::R2007) && !(e.background_fill_setting
        == BackgroundFillSetting::Off) {
        writer.write_code_pair(&CodePair::new_int(90, e.background_fill_setting.as_i32()));
    }
    proof {
        assert(writer@ =~= w0 + s11);
    }
    if version.at_least(AcadVersion::R2007) && e.background_color_rgb != 0 {
        writer.write_code_pair(&CodePair::new_int(420, e.background_color_rgb));
    }
    proof {
        assert(writer@ =~= w0 + s11 + s12);
    }
    if version.at_least(AcadVersion::R2007) && !e.background_color_name.as_str().is_empty() {
        writer.write_code_pair(&CodePair::new_string(430, &e.background_color_name));
    }
    proof {
        assert(writer@ =~= w0 + s11 + s12 + s13);
    }
    let one: Double = Double::from_units(1);
    if version.at_least(AcadVersion::R2007) && !(e.fill_box_scale == one) {
        writer.write_code_pair(&CodePair::new_double(45, e.fill_box_scale));
    }
    proof {
        assert(writer@ =~= w0 + s11 + s12 + s13 + s14);
    }
    if version.at_least(AcadVersion::R2007) && e.background_fill_color.get_raw_value() != 256 {
        writer.write_code_pair(
            &CodePair::new_short(63, e.background_fill_color.get_raw_value()),
        );
    }
    proof {
        assert(writer@ =~= w0 + s11 + s12 + s13 + s14 + s15);
    }
    if version.at_least(AcadVersion::R2007) && e.background_fill_color_transparency != 0 {
        writer.write_code_pair(&CodePair::new_int(441, e.background_fill_color_transparency));
    }
    proof {
        assert(writer@ =~= w0 + s11 + s12 + s13 + s14 + s15 + s16);
    }
    if version.at_least(AcadVersion::R2010) && e.column_type != 0 {
        write_mtext_columns(e, writer);
    }
    proof {
        assert(writer@ =~= w0 + s11 + s12 + s13 + s14 + s15 + s16 + s17);
        lemma_reassoc_7(w0, s11, s12, s13, s14, s15, s16, s17);
    }
}

/// Writes the fields of multi-line text.
fn write_mtext(e: &MText, version: AcadVersion, writer: &mut crate::writer::CodePairAsciiWriter)
    requires
        mtext_wf(e@),
        old(writer).wf(),
    ensures
        final(writer).wf(),
        final(writer)@ == old(writer)@ + spec_mtext_pairs(e@, version),
{
    let ghost w0 = old(writer)@;
    write_mtext_head(e, version, writer);
    write_mtext_tail(e, version, writer);
    proof {
        assert(spec_mtext_pairs(e@, version) == spec_mtext_head_pairs(e@, version)
            + spec_mtext_tail_pairs(e@, version)) by {
            lemma_mtext_pairs_split(e@, version);
        }
        vstd::seq_lib::lemma_concat_associative(
            w0,
            spec_mtext_head_pairs(e@, version),
            spec_mtext_tail_pairs(e@, version),
        );
    }
}

/// The pairs of multi-line text are its head pairs then its tail pairs.
proof fn lemma_mtext_pairs_split(m: MTextV, version: AcadVersion)
    ensures
        spec_mtext_pairs(m, version) == spec_mtext_head_pairs(m, version) + spec_mtext_tail_pairs(
            m,
            version,
        ),
{
    let h = spec_mtext_head_pairs(m, version);
    let a = if version.ord() >= AcadVersion::R2007.ord() && m.background_fill_setting
        != BackgroundFillSetting::Off {
        seq![pin(90, crate::enums::spec_background_fill_code(m.background_fill_setting))]
    } else {
        Seq::<PairV>::empty()
    };
    let b = if version.ord() >= AcadVersion::R2007.ord() && m.background_color_rgb != 0 {
        seq![pin(420, m.background_color_rgb as int)]
    } else {
        Seq::<PairV>::empty()
    };
    let c = if version.ord() >= AcadVersion::R2007.ord() && m.background_color_name.len() != 0 {
        seq![pt(430, m.background_color_name)]
    } else {
        Seq::<PairV>::empty()
    };
    let d = if version.ord() >= AcadVersion::R2007.ord() && m.fill_box_scale != done() {
        seq![pd(45, m.fill_box_scale)]
    } else {
        Seq::<PairV>::empty()
    };
    let e = if version.ord() >= AcadVersion::R2007.ord() && m.background_fill_color.raw_value
        != 256 {
        seq![psh(63, m.background_fill_color.raw_value as int)]
    } else {
        Seq::<PairV>::empty()
    };
    let f = if version.ord() >= AcadVersion::R2007.ord() && m.background_fill_color_transparency
        != 0 {
        seq![pin(441, m.background_fill_color_transparency as int)]
    } else {
        Seq::<PairV>::empty()
    };
    let g = if version.ord() >= AcadVersion::R2010.ord() && m.column_type != 0 {
        mtext_column_pairs(m)
    } else {
        Seq::<PairV>::empty()
    };
    assert(spec_mtext_pairs(m, version) == h + a + b + c + d + e + f + g);
    assert(spec_mtext_tail_pairs(m, version) == a + b + c + d + e + f + g);
    lemma_reassoc_7(h, a, b, c, d, e, f, g);
}

/// The pairs of an entity's own fields on write.
pub open spec fn spec_specific_pairs(ev: EntityTypeV, version: AcadVersion) -> Seq<PairV> {
    match ev {
        EntityTypeV::Line(e) => spec_line_pairs(e, version),
        EntityTypeV::Circle(e) => spec_circle_pairs(e, version),
        EntityTypeV::ModelPoint(e) => spec_model_point_pairs(e, version),
        EntityTypeV::Polyline(e) => spec_polyline_pairs(e, version),
        EntityTypeV::Vertex(e) => spec_vertex_pairs(e, version),
        EntityTypeV::Seqend(_) => Seq::<PairV>::empty(),
        EntityTypeV::Leader(e) => spec_leader_pairs(e, version),
        EntityTypeV::MText(e) => spec_mtext_pairs(e, version),
    }
}

impl EntityType {
    /// Writes this entity's own fields.
    pub fn write(&self, version: AcadVersion, writer: &mut crate::writer::CodePairAsciiWriter)
        requires
            self.wf(),
            old(writer).wf(),
        ensures
            final(writer).wf(),
            final(writer)@ == old(writer)@ + spec_specific_pairs(self@, version),
    {
        match self {
            EntityType::Line(e) => write_line(e, version, writer),
            EntityType::Circle(e) => write_circle(e, version, writer),
            EntityType::ModelPoint(e) => write_model_point(e, version, writer),
            EntityType::Polyline(e) => write_polyline(e, version, writer),
            EntityType::Vertex(e) => write_vertex(e, version, writer),
            EntityType::Seqend(_) => {
                proof {
                    assert(old(writer)@ + Seq::<PairV>::empty() =~= old(writer)@);
                }
            },
            EntityType::Leader(e) => write_leader(e, version, writer),
            EntityType::MText(e) => write_mtext(e, version, writer),
        }
    }
}

} // verus!
