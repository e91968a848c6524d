//! Whole entities: the shared fields beside the typed variant, and how an
//! entity is read from and written to a run of code pairs.
use vstd::prelude::*;

use crate::double::Double;
use crate::entities::{
    common_wf, mtext_wf, spec_default_common, spec_default_specific, spec_from_type_string,
    spec_supported_on_version, spec_type_string, tag_of, CommonV, EntityCommon, EntityType,
    EntityTypeV, LeaderV, MTextV, TypeTag, Vertex,
};
use crate::entity_codec::{
    d_of, i_of, pd, psh, pt, s_of, spec_apply_common, spec_common_pairs, spec_specific_pairs,
    spec_try_apply, t_of,
};
use crate::enums::{
    spec_attachment_point, spec_background_fill_setting, spec_drawing_direction,
    spec_line_spacing_style, AcadVersion, AttachmentPoint, BackgroundFillSetting,
    DrawingDirection, MTextLineSpacingStyle,
};
use crate::error::DxfError;
use crate::point::{spec_point_set, spec_vector_set, Point};
use crate::value::{CodePair, CodePairValue, PairV, ValueV};
use crate::writer::CodePairAsciiWriter;

verus! {

/// A drawable object: the fields every entity has, and the typed variant.
#[derive(Debug)]
pub struct Entity {
    /// The fields all entities share.
    pub common: EntityCommon,
    /// The variant-specific fields.
    pub specific: EntityType,
}

/// The mathematical shape of an entity.
pub struct EntityV {
    pub common: CommonV,
    pub specific: EntityTypeV,
}

impl View for Entity {
    type V = EntityV;

    open spec fn view(&self) -> EntityV {
        EntityV { common: self.common@, specific: self.specific@ }
    }
}

impl Entity {
    /// The entity is storable.
    pub open spec fn wf(self) -> bool {
        common_wf(self.common@) && self.specific.wf()
    }

    /// Creates a new entity with the default shared fields.
    pub fn new(specific: EntityType) -> (r: Entity)
        ensures
            r@.common == spec_default_common(),
            r@.specific == specific@,
            specific.wf() ==> r.wf(),
    {
        Entity { common: EntityCommon::new(), specific }
    }
}

/// Every pair of the run is storable.
pub open spec fn pairs_wf(pairs: Seq<CodePair>) -> bool {
    forall|i: int| 0 <= i < pairs.len() ==> (#[trigger] pairs[i]).wf()
}

/// The views of a run of pairs.
pub open spec fn pair_views(pairs: Seq<CodePair>) -> Seq<PairV> {
    pairs.map_values(|p: CodePair| p@)
}

/// The index of the first pair with code 0 at or past `i`, or the end of
/// the run.
pub open spec fn spec_skip_to_zero(ps: Seq<PairV>, i: int) -> int
    decreases ps.len() - i,
{
    if i < 0 || i >= ps.len() {
        ps.len() as int
    } else if ps[i].code == 0 {
        i
    } else {
        spec_skip_to_zero(ps, i + 1)
    }
}

pub proof fn lemma_skip_to_zero(ps: Seq<PairV>, i: int)
    requires
        0 <= i <= ps.len(),
    ensures
        i <= spec_skip_to_zero(ps, i) <= ps.len(),
        spec_skip_to_zero(ps, i) < ps.len() ==> ps[spec_skip_to_zero(ps, i)].code == 0,
        forall|k: int| i <= k < spec_skip_to_zero(ps, i) ==> ps[k].code != 0,
    decreases ps.len() - i,
{
    if i < ps.len() && ps[i].code != 0 {
        lemma_skip_to_zero(ps, i + 1);
    }
}

/// Feeds pairs to an entity until the next zero-code pair or the end of
/// the run: each pair lands first on the variant's own fields, then on
/// the shared fields.  The end of the run inside an entity is an error.
pub open spec fn spec_apply_until_zero(
    ps: Seq<PairV>,
    i: int,
    c: CommonV,
    s: EntityTypeV,
) -> Result<(CommonV, EntityTypeV, int), DxfError>
    decreases ps.len() - i,
{
    if i < 0 || i >= ps.len() {
        Err(DxfError::UnexpectedEndOfInput)
    } else if ps[i].code == 0 {
        Ok((c, s, i))
    } else {
        match spec_try_apply(s, ps[i]) {
            Err(e) => Err(e),
            Ok((s2, handled)) => if handled {
                spec_apply_until_zero(ps, i + 1, c, s2)
            } else {
                match spec_apply_common(c, ps[i]) {
                    Err(e) => Err(e),
                    Ok(c2) => spec_apply_until_zero(ps, i + 1, c2, s),
                }
            },
        }
    }
}

/// One step of the stateful multi-line text reader: where each code
/// lands, given whether the column marker has been seen and whether the
/// column count has been read.  The result is the new fields, the new
/// reader state, and whether the pair was claimed; an unclaimed pair
/// falls back to the shared fields.
pub open spec fn spec_mtext_step(m: MTextV, p: PairV, col: bool, cnt: bool) -> Result<
    (MTextV, bool, bool, bool),
    DxfError,
> {
    let code = p.code;
    if code == 10 || code == 20 || code == 30 {
        match d_of(p.value) {
            Some(d) => Ok(
                (
                    MTextV { insertion_point: spec_point_set(m.insertion_point, code, d), ..m },
                    col,
                    cnt,
                    true,
                ),
            ),
            None => Err(DxfError::InvalidValue(code as i32)),
        }
    } else if code == 11 || code == 21 || code == 31 {
        match d_of(p.value) {
            Some(d) => Ok(
                (
                    MTextV {
                        x_axis_direction: spec_vector_set(m.x_axis_direction, code - 1, d),
                        ..m
                    },
                    col,
                    cnt,
                    true,
                ),
            ),
            None => Err(DxfError::InvalidValue(code as i32)),
        }
    } else if code == 210 || code == 220 || code == 230 {
        match d_of(p.value) {
            Some(d) => Ok(
                (
                    MTextV {
                        extrusion_direction: spec_vector_set(m.extrusion_direction, code - 200, d),
                        ..m
                    },
                    col,
                    cnt,
                    true,
                ),
            ),
            None => Err(DxfError::InvalidValue(code as i32)),
        }
    } else if code == 40 {
        match d_of(p.value) {
            Some(d) => Ok((MTextV { initial_text_height: d, ..m }, col, cnt, true)),
            None => Err(DxfError::InvalidValue(code as i32)),
        }
    } else if code == 41 {
        match d_of(p.value) {
            Some(d) => Ok((MTextV { reference_rectangle_width: d, ..m }, col, cnt, true)),
            None => Err(DxfError::InvalidValue(code as i32)),
        }
    } else if code == 42 {
        match d_of(p.value) {
            Some(d) => Ok((MTextV { horizontal_width: d, ..m }, col, cnt, true)),
            None => Err(DxfError::InvalidValue(code as i32)),
        }
    } else if code == 43 {
        match d_of(p.value) {
            Some(d) => Ok((MTextV { vertical_height: d, ..m }, col, cnt, true)),
            None => Err(DxfError::InvalidValue(code as i32)),
        }
    } else if code == 44 {
        match d_of(p.value) {
            Some(d) => Ok((MTextV { line_spacing_factor: d, ..m }, col, cnt, true)),
            None => Err(DxfError::InvalidValue(code as i32)),
        }
    } else if code == 45 {
        match d_of(p.value) {
            Some(d) => Ok((MTextV { fill_box_scale: d, ..m }, col, cnt, true)),
            None => Err(DxfError::InvalidValue(code as i32)),
        }
    } else if code == 48 {
        match d_of(p.value) {
            Some(d) => Ok((MTextV { column_width: d, ..m }, col, cnt, true)),
            None => Err(DxfError::InvalidValue(code as i32)),
        }
    } else if code == 49 {
        match d_of(p.value) {
            Some(d) => Ok((MTextV { column_gutter: d, ..m }, col, cnt, true)),
            None => Err(DxfError::InvalidValue(code as i32)),
        }
    } else if code == 50 {
        match d_of(p.value) {
            Some(d) => if col {
                if cnt {
                    Ok((MTextV { column_heights: m.column_heights.push(d), ..m }, col, cnt, true))
                } else {
                    Ok(
                        (
                            MTextV {
                                column_count: crate::double::spec_double_to_i32(d) as i32,
                                ..m
                            },
                            col,
                            true,
                            true,
                        ),
                    )
                }
            } else {
                Ok((MTextV { rotation_angle: d, ..m }, col, cnt, true))
            },
            None => Err(DxfError::InvalidValue(code as i32)),
        }
    } else if code == 1 {
        match t_of(p.value) {
            Some(s) => Ok((MTextV { text: s, ..m }, col, cnt, true)),
            None => Err(DxfError::InvalidValue(code as i32)),
        }
    } else if code == 3 {
        match t_of(p.value) {
            Some(s) => Ok((MTextV { extended_text: m.extended_text.push(s), ..m }, col, cnt, true)),
            None => Err(DxfError::InvalidValue(code as i32)),
        }
    } else if code == 7 {
        match t_of(p.value) {
            Some(s) => Ok((MTextV { text_style_name: s, ..m }, col, cnt, true)),
            None => Err(DxfError::InvalidValue(code as i32)),
        }
    } else if code == 430 {
        match t_of(p.value) {
            Some(s) => Ok((MTextV { background_color_name: s, ..m }, col, cnt, true)),
            None => Err(DxfError::InvalidValue(code as i32)),
        }
    } else if code == 71 {
        match s_of(p.value) {
            Some(v) => match spec_attachment_point(v) {
                Some(ap) => Ok((MTextV { attachment_point: ap, ..m }, col, cnt, true)),
                None => Err(DxfError::UnexpectedEnumValue(71)),
            },
            None => Err(DxfError::InvalidValue(code as i32)),
        }
    } else if code == 72 {
        match s_of(p.value) {
            Some(v) => match spec_drawing_direction(v) {
                Some(dd) => Ok((MTextV { drawing_direction: dd, ..m }, col, cnt, true)),
                None => Err(DxfError::UnexpectedEnumValue(72)),
            },
            None => Err(DxfError::InvalidValue(code as i32)),
        }
    } else if code == 73 {
        match s_of(p.value) {
            Some(v) => match spec_line_spacing_style(v) {
                Some(ls) => Ok((MTextV { line_spacing_style: ls, ..m }, col, cnt, true)),
                None => Err(DxfError::UnexpectedEnumValue(73)),
            },
            None => Err(DxfError::InvalidValue(code as i32)),
        }
    } else if code == 90 {
        match i_of(p.value) {
            Some(v) => match spec_background_fill_setting(v) {
                Some(bf) => Ok((MTextV { background_fill_setting: bf, ..m }, col, cnt, true)),
                None => Err(DxfError::UnexpectedEnumValue(90)),
            },
            None => Err(DxfError::InvalidValue(code as i32)),
        }
    } else if code == 420 {
        match i_of(p.value) {
            Some(v) => Ok((MTextV { background_color_rgb: v as i32, ..m }, col, cnt, true)),
            None => Err(DxfError::InvalidValue(code as i32)),
        }
    } else if code == 441 {
        match i_of(p.value) {
            Some(v) => Ok(
                (MTextV { background_fill_color_transparency: v as i32, ..m }, col, cnt, true),
            ),
            None => Err(DxfError::InvalidValue(code as i32)),
        }
    } else if code == 63 {
        match s_of(p.value) {
            Some(v) => Ok(
                (
                    MTextV {
                        background_fill_color: crate::color::Color { raw_value: v as i16 },
                        ..m
                    },
                    col,
                    cnt,
                    true,
                ),
            ),
            None => Err(DxfError::InvalidValue(code as i32)),
        }
    } else if code == 75 {
        match s_of(p.value) {
            Some(v) => Ok((MTextV { column_type: v as i16, ..m }, true, cnt, true)),
            None => Err(DxfError::InvalidValue(code as i32)),
        }
    } else if code == 76 {
        match s_of(p.value) {
            Some(v) => Ok((MTextV { column_count: v as i32, ..m }, col, cnt, true)),
            None => Err(DxfError::InvalidValue(code as i32)),
        }
    } else if code == 78 {
        match s_of(p.value) {
            Some(v) => Ok((MTextV { is_column_flow_reversed: v != 0, ..m }, col, cnt, true)),
            None => Err(DxfError::InvalidValue(code as i32)),
        }
    } else if code == 79 {
        match s_of(p.value) {
            Some(v) => Ok((MTextV { is_column_auto_height: v != 0, ..m }, col, cnt, true)),
            None => Err(DxfError::InvalidValue(code as i32)),
        }
    } else {
        Ok((m, col, cnt, false))
    }
}

/// The stateful multi-line text reader over a run of pairs: steps until
/// the next zero-code pair, which stays put for the caller; the end of
/// the run ends the entity cleanly.
pub open spec fn spec_mtext_read(
    ps: Seq<PairV>,
    i: int,
    m: MTextV,
    c: CommonV,
    col: bool,
    cnt: bool,
) -> Result<(MTextV, CommonV, int), DxfError>
    decreases ps.len() - i,
{
    if i < 0 || i >= ps.len() {
        Ok((m, c, ps.len() as int))
    } else if ps[i].code == 0 {
        Ok((m, c, i))
    } else {
        match spec_mtext_step(m, ps[i], col, cnt) {
            Err(e) => Err(e),
            Ok((m2, col2, cnt2, handled)) => if handled {
                spec_mtext_read(ps, i + 1, m2, c, col2, cnt2)
            } else {
                match spec_apply_common(c, ps[i]) {
                    Err(e) => Err(e),
                    Ok(c2) => spec_mtext_read(ps, i + 1, m, c2, col, cnt),
                }
            },
        }
    }
}

/// The length of the shortest of three runs.
pub open spec fn min3(a: nat, b: nat, c: nat) -> nat {
    if a <= b && a <= c {
        a
    } else if b <= a && b <= c {
        b
    } else {
        c
    }
}

/// What coalescing after a read does to an entity: a leader's three
/// parallel coordinate runs are zipped, shortest run first, into its
/// vertices, and the runs are cleared; every other entity stands as it
/// is.
pub open spec fn spec_post_parse(ev: EntityTypeV) -> EntityTypeV {
    match ev {
        EntityTypeV::Leader(e) => {
            let n = min3(e.vertices_x.len(), e.vertices_y.len(), e.vertices_z.len());
            EntityTypeV::Leader(
                LeaderV {
                    vertices: e.vertices + Seq::new(
                        n,
                        |k: int|
                            Point { x: e.vertices_x[k], y: e.vertices_y[k], z: e.vertices_z[k] },
                    ),
                    vertices_x: Seq::<Double>::empty(),
                    vertices_y: Seq::<Double>::empty(),
                    vertices_z: Seq::<Double>::empty(),
                },
            )
        },
        _ => ev,
    }
}

/// What reading one entity from a run of pairs yields: nothing at a
/// section end, the next supported entity otherwise; an unsupported
/// entity is consumed and reading goes on behind it.
pub open spec fn spec_read_entity(ps: Seq<PairV>, i: int) -> Result<
    (Option<EntityV>, int),
    DxfError,
>
    decreases ps.len() - i,
    via spec_read_entity_decreases
{
    if i < 0 || i >= ps.len() {
        Err(DxfError::UnexpectedEndOfInput)
    } else if ps[i].code != 0 {
        Err(DxfError::UnexpectedCodePair)
    } else {
        match t_of(ps[i].value) {
            None => Err(DxfError::UnexpectedCodePair),
            Some(name) => if name == "ENDSEC"@ {
                Ok((None, i))
            } else {
                match spec_from_type_string(name) {
                    None => {
                        let j = spec_skip_to_zero(ps, i + 1);
                        if j >= ps.len() {
                            Err(DxfError::UnexpectedEndOfInput)
                        } else {
                            spec_read_entity(ps, j)
                        }
                    },
                    Some(tag) => if tag == TypeTag::MText {
                        match spec_default_specific(tag) {
                            EntityTypeV::MText(m0) => match spec_mtext_read(
                                ps,
                                i + 1,
                                m0,
                                spec_default_common(),
                                false,
                                false,
                            ) {
                                Err(e) => Err(e),
                                Ok((m, c, j)) => Ok(
                                    (
                                        Some(
                                            EntityV { common: c, specific: EntityTypeV::MText(m) },
                                        ),
                                        j,
                                    ),
                                ),
                            },
                            _ => Err(DxfError::UnexpectedCodePair),
                        }
                    } else {
                        match spec_apply_until_zero(
                            ps,
                            i + 1,
                            spec_default_common(),
                            spec_default_specific(tag),
                        ) {
                            Err(e) => Err(e),
                            Ok((c, s, j)) => Ok(
                                (Some(EntityV { common: c, specific: spec_post_parse(s) }), j),
                            ),
                        }
                    },
                }
            },
        }
    }
}

#[via_fn]
proof fn spec_read_entity_decreases(ps: Seq<PairV>, i: int) {
    if 0 <= i < ps.len() {
        lemma_skip_to_zero(ps, i + 1);
    }
}

/// Walks forward to the next zero-code pair.
pub(crate) fn skip_to_zero_at(pairs: &Vec<CodePair>, start: usize) -> (j: usize)
    requires
        start <= pairs@.len(),
    ensures
        j == spec_skip_to_zero(pair_views(pairs@), start as int),
        start <= j <= pairs@.len(),
{
    let ghost ps = pair_views(pairs@);
    let mut j: usize = start;
    while j < pairs.len()
        invariant
            start <= j <= pairs@.len(),
            ps == pair_views(pairs@),
            spec_skip_to_zero(ps, start as int) == spec_skip_to_zero(ps, j as int),
        decreases pairs@.len() - j,
    {
        if pairs[j].code == 0 {
            proof {
                assert(ps[j as int].code == 0);
            }
            return j;
        }
        proof {
            assert(ps[j as int].code != 0);
        }
        j = j + 1;
    }
    j
}

/// One step of the stateful multi-line text reader on the real-valued
/// codes.
#[verifier::rlimit(100)]
fn mtext_step_real(m: &mut crate::entities::MText, pair: &CodePair, col: bool, cnt: bool) -> (r:
    Result<(bool, bool, bool), DxfError>)
    requires
        pair@.code == 10 || pair@.code == 20 || pair@.code == 30 || pair@.code == 11 || pair@.code
            == 21 || pair@.code == 31 || pair@.code == 210 || pair@.code == 220 || pair@.code
            == 230 || pair@.code == 40 || pair@.code == 41 || pair@.code == 42 || pair@.code == 43
            || pair@.code == 44 || pair@.code == 45 || pair@.code == 48 || pair@.code == 49
            || pair@.code == 50,
    ensures
        match r {
            Ok((col2, cnt2, handled)) => spec_mtext_step(old(m)@, pair@, col, cnt) == Ok::<
                (MTextV, bool, bool, bool),
                DxfError,
            >((final(m)@, col2, cnt2, handled)),
            Err(e) => spec_mtext_step(old(m)@, pair@, col, cnt) == Err::<
                (MTextV, bool, bool, bool),
                DxfError,
            >(e) && final(m)@ == old(m)@,
        },
        mtext_wf(old(m)@) && pair.wf() ==> mtext_wf(final(m)@),
{
    let code: i32 = pair.code;
    let d: Double = match crate::entity_codec::expect_double(pair) {
        Ok(d) => d,
        Err(e) => {
            return Err(e);
        },
    };
    if code == 10 {
        m.insertion_point.x = d;
        Ok((col, cnt, true))
    } else if code == 20 {
        m.insertion_point.y = d;
        Ok((col, cnt, true))
    } else if code == 30 {
        m.insertion_point.z = d;
        Ok((col, cnt, true))
    } else if code == 11 {
        m.x_axis_direction.x = d;
        Ok((col, cnt, true))
    } else if code == 21 {
        m.x_axis_direction.y = d;
        Ok((col, cnt, true))
    } else if code == 31 {
        m.x_axis_direction.z = d;
        Ok((col, cnt, true))
    } else if code == 210 {
        m.extrusion_direction.x = d;
        Ok((col, cnt, true))
    } else if code == 220 {
        m.extrusion_direction.y = d;
        Ok((col, cnt, true))
    } else if code == 230 {
        m.extrusion_direction.z = d;
        Ok((col, cnt, true))
    } else if code == 40 {
        m.initial_text_height = d;
        Ok((col, cnt, true))
    } else if code == 41 {
        m.reference_rectangle_width = d;
        Ok((col, cnt, true))
    } else if code == 42 {
        m.horizontal_width = d;
        Ok((col, cnt, true))
    } else if code == 43 {
        m.vertical_height = d;
        Ok((col, cnt, true))
    } else if code == 44 {
        m.line_spacing_factor = d;
        Ok((col, cnt, true))
    } else if code == 45 {
        m.fill_box_scale = d;
        Ok((col, cnt, true))
    } else if code == 48 {
        m.column_width = d;
        Ok((col, cnt, true))
    } else if code == 49 {
        m.column_gutter = d;
        Ok((col, cnt, true))
    } else {
        if col {
            if cnt {
                m.column_heights.push(d);
                proof {
                    assert(m@.column_heights =~= old(m)@.column_heights.push(d));
                }
                Ok((col, cnt, true))
            } else {
                m.column_count = d.to_i32_saturating();
                Ok((col, true, true))
            }
        } else {
            m.rotation_angle = d;
            Ok((col, cnt, true))
        }
    }
}

/// One step of the stateful multi-line text reader on the text-valued
/// codes.
fn mtext_step_text(m: &mut crate::entities::MText, pair: &CodePair, col: bool, cnt: bool) -> (r:
    Result<(bool, bool, bool), DxfError>)
    requires
        pair@.code == 1 || pair@.code == 3 || pair@.code == 7 || pair@.code == 430,
    ensures
        match r {
            Ok((col2, cnt2, handled)) => spec_mtext_step(old(m)@, pair@, col, cnt) == Ok::<
                (MTextV, bool, bool, bool),
                DxfError,
            >((final(m)@, col2, cnt2, handled)),
            Err(e) => spec_mtext_step(old(m)@, pair@, col, cnt) == Err::<
                (MTextV, bool, bool, bool),
                DxfError,
            >(e) && final(m)@ == old(m)@,
        },
        mtext_wf(old(m)@) && pair.wf() ==> mtext_wf(final(m)@),
{
    let code: i32 = pair.code;
    let sv: String = match crate::entity_codec::expect_string(pair) {
        Ok(s) => s,
        Err(e) => {
            return Err(e);
        },
    };
    if code == 1 {
        m.text = sv;
        Ok((col, cnt, true))
    } else if code == 3 {
        m.extended_text.push(sv);
        proof {
            assert(m@.extended_text =~= old(m)@.extended_text.push(
                t_of(pair@.value).unwrap(),
            ));
        }
        Ok((col, cnt, true))
    } else if code == 7 {
        m.text_style_name = sv;
        Ok((col, cnt, true))
    } else {
        m.background_color_name = sv;
        Ok((col, cnt, true))
    }
}

/// One step of the stateful multi-line text reader on the short-valued
/// codes.
fn mtext_step_short(m: &mut crate::entities::MText, pair: &CodePair, col: bool, cnt: bool) -> (r:
    Result<(bool, bool, bool), DxfError>)
    requires
        pair@.code == 71 || pair@.code == 72 || pair@.code == 73 || pair@.code == 63 || pair@.code
            == 75 || pair@.code == 76 || pair@.code == 78 || pair@.code == 79,
    ensures
        match r {
            Ok((col2, cnt2, handled)) => spec_mtext_step(old(m)@, pair@, col, cnt) == Ok::<
                (MTextV, bool, bool, bool),
                DxfError,
            >((final(m)@, col2, cnt2, handled)),
            Err(e) => spec_mtext_step(old(m)@, pair@, col, cnt) == Err::<
                (MTextV, bool, bool, bool),
                DxfError,
            >(e) && final(m)@ == old(m)@,
        },
        mtext_wf(old(m)@) && pair.wf() ==> mtext_wf(final(m)@),
{
    let code: i32 = pair.code;
    let v: i16 = match crate::entity_codec::expect_short(pair) {
        Ok(v) => v,
        Err(e) => {
            return Err(e);
        },
    };
    if code == 71 {
        match AttachmentPoint::from_i16(v) {
            Some(ap) => {
                m.attachment_point = ap;
                Ok((col, cnt, true))
            },
            None => Err(DxfError::UnexpectedEnumValue(71)),
        }
    } else if code == 72 {
        match DrawingDirection::from_i16(v) {
            Some(dd) => {
                m.drawing_direction = dd;
                Ok((col, cnt, true))
            },
            None => Err(DxfError::UnexpectedEnumValue(72)),
        }
    } else if code == 73 {
        match MTextLineSpacingStyle::from_i16(v) {
            Some(ls) => {
                m.line_spacing_style = ls;
                Ok((col, cnt, true))
            },
            None => Err(DxfError::UnexpectedEnumValue(73)),
        }
    } else if code == 63 {
        m.background_fill_color = crate::color::Color::from_raw_value(v);
        Ok((col, cnt, true))
    } else if code == 75 {
        m.column_type = v;
        Ok((true, cnt, true))
    } else if code == 76 {
        m.column_count = v as i32;
        Ok((col, cnt, true))
    } else if code == 78 {
        m.is_column_flow_reversed = v != 0;
        Ok((col, cnt, true))
    } else {
        m.is_column_auto_height = v != 0;
        Ok((col, cnt, true))
    }
}

/// One step of the stateful multi-line text reader on the integer-valued
/// codes.
fn mtext_step_int(m: &mut crate::entities::MText, pair: &CodePair, col: bool, cnt: bool) -> (r:
    Result<(bool, bool, bool), DxfError>)
    requires
        pair@.code == 90 || pair@.code == 420 || pair@.code == 441,
    ensures
        match r {
            Ok((col2, cnt2, handled)) => spec_mtext_step(old(m)@, pair@, col, cnt) == Ok::<
                (MTextV, bool, bool, bool),
                DxfError,
            >((final(m)@, col2, cnt2, handled)),
            Err(e) => spec_mtext_step(old(m)@, pair@, col, cnt) == Err::<
                (MTextV, bool, bool, bool),
                DxfError,
            >(e) && final(m)@ == old(m)@,
        },
        mtext_wf(old(m)@) && pair.wf() ==> mtext_wf(final(m)@),
{
    let code: i32 = pair.code;
    let v: i32 = match crate::entity_codec::expect_int(pair) {
        Ok(v) => v,
        Err(e) => {
            return Err(e);
        },
    };
    if code == 90 {
        match BackgroundFillSetting::from_i32(v) {
            Some(bf) => {
                m.background_fill_setting = bf;
                Ok((col, cnt, true))
            },
            None => Err(DxfError::UnexpectedEnumValue(90)),
        }
    } else if code == 420 {
        m.background_color_rgb = v;
        Ok((col, cnt, true))
    } else {
        m.background_fill_color_transparency = v;
        Ok((col, cnt, true))
    }
}

/// One step of the stateful multi-line text reader, on the typed fields.
fn mtext_step(m: &mut crate::entities::MText, pair: &CodePair, col: bool, cnt: bool) -> (r:
    Result<(bool, bool, bool), DxfError>)
    ensures
        match r {
            Ok((col2, cnt2, handled)) => spec_mtext_step(old(m)@, pair@, col, cnt) == Ok::<
                (MTextV, bool, bool, bool),
                DxfError,
            >((final(m)@, col2, cnt2, handled)) && (!handled ==> final(m)@ == old(m)@),
            Err(e) => spec_mtext_step(old(m)@, pair@, col, cnt) == Err::<
                (MTextV, bool, bool, bool),
                DxfError,
            >(e) && final(m)@ == old(m)@,
        },
        mtext_wf(old(m)@) && pair.wf() ==> mtext_wf(final(m)@),
{
    let code: i32 = pair.code;
    if code == 10 || code == 20 || code == 30 || code == 11 || code == 21 || code == 31 || code
        == 210 || code == 220 || code == 230 || code == 40 || code == 41 || code == 42 || code
        == 43 || code == 44 || code == 45 || code == 48 || code == 49 || code == 50 {
        mtext_step_real(m, pair, col, cnt)
    } else if code == 1 || code == 3 || code == 7 || code == 430 {
        mtext_step_text(m, pair, col, cnt)
    } else if code == 71 || code == 72 || code == 73 || code == 63 || code == 75 || code == 76
        || code == 78 || code == 79 {
        mtext_step_short(m, pair, col, cnt)
    } else if code == 90 || code == 420 || code == 441 {
        mtext_step_int(m, pair, col, cnt)
    } else {
        Ok((col, cnt, false))
    }
}

impl Entity {
    /// Reads the fields of a multi-line text entity: the one decoder that
    /// has to keep state, because two fields share a code.
    fn read_mtext_fields(
        m: &mut crate::entities::MText,
        common: &mut EntityCommon,
        pairs: &Vec<CodePair>,
        i: &mut usize,
    ) -> (r: Result<(), DxfError>)
        requires
            pairs_wf(pairs@),
            *old(i) <= pairs@.len(),
        ensures
            match r {
                Ok(()) => spec_mtext_read(
                    pair_views(pairs@),
                    *old(i) as int,
                    old(m)@,
                    old(common)@,
                    false,
                    false,
                ) == Ok::<(MTextV, CommonV, int), DxfError>(
                    (final(m)@, final(common)@, *final(i) as int),
                ) && *final(i) <= pairs@.len(),
                Err(e) => spec_mtext_read(
                    pair_views(pairs@),
                    *old(i) as int,
                    old(m)@,
                    old(common)@,
                    false,
                    false,
                ) == Err::<(MTextV, CommonV, int), DxfError>(e),
            },
            mtext_wf(old(m)@) && common_wf(old(common)@) ==> mtext_wf(final(m)@) && common_wf(
                final(common)@,
            ),
    {
        let ghost ps = pair_views(pairs@);
        let mut col: bool = false;
        let mut cnt: bool = false;
        loop
            invariant
                pairs_wf(pairs@),
                ps == pair_views(pairs@),
                *i <= pairs@.len(),
                spec_mtext_read(ps, *old(i) as int, old(m)@, old(common)@, false, false)
                    == spec_mtext_read(ps, *i as int, m@, common@, col, cnt),
                mtext_wf(old(m)@) && common_wf(old(common)@) ==> mtext_wf(m@) && common_wf(
                    common@,
                ),
            decreases pairs@.len() - *i,
        {
            if *i >= pairs.len() {
                return Ok(());
            }
            let idx: usize = *i;
            proof {
                assert(ps[idx as int] == pairs@[idx as int]@);
                assert(pairs@[idx as int].wf());
            }
            if pairs[idx].code == 0 {
                return Ok(());
            }
            match mtext_step(m, &pairs[idx], col, cnt) {
                Ok((col2, cnt2, handled)) => {
                    if handled {
                        col = col2;
                        cnt = cnt2;
                    } else {
                        match common.apply_individual_pair(&pairs[idx]) {
                            Ok(()) => {},
                            Err(e) => {
                                return Err(e);
                            },
                        }
                    }
                },
                Err(e) => {
                    return Err(e);
                },
            }
            *i = idx + 1;
        }
    }

    /// Reads the next entity from the run of pairs, leaving the cursor on
    /// the pair after it.  A section-end pair yields nothing and stays
    /// put; an entity the model does not know is consumed and the next
    /// one is read.
    pub fn read(pairs: &Vec<CodePair>, i: &mut usize) -> (r: Result<Option<Entity>, DxfError>)
        requires
            pairs_wf(pairs@),
            *old(i) <= pairs@.len(),
        ensures
            match r {
                Ok(None) => spec_read_entity(pair_views(pairs@), *old(i) as int) == Ok::<
                    (Option<EntityV>, int),
                    DxfError,
                >((None, *final(i) as int)) && *final(i) <= pairs@.len(),
                Ok(Some(e)) => spec_read_entity(pair_views(pairs@), *old(i) as int) == Ok::<
                    (Option<EntityV>, int),
                    DxfError,
                >((Some(e@), *final(i) as int)) && *final(i) <= pairs@.len() && e.wf(),
                Err(e) => spec_read_entity(pair_views(pairs@), *old(i) as int) == Err::<
                    (Option<EntityV>, int),
                    DxfError,
                >(e),
            },
    {
        let ghost ps = pair_views(pairs@);
        loop
            invariant
                pairs_wf(pairs@),
                ps == pair_views(pairs@),
                *i <= pairs@.len(),
                spec_read_entity(ps, *old(i) as int) == spec_read_entity(ps, *i as int),
            decreases pairs@.len() - *i,
        {
            if *i >= pairs.len() {
                return Err(DxfError::UnexpectedEndOfInput);
            }
            let idx: usize = *i;
            proof {
                assert(ps[idx as int] == pairs@[idx as int]@);
                assert(pairs@[idx as int].wf());
            }
            if pairs[idx].code != 0 {
                return Err(DxfError::UnexpectedCodePair);
            }
            let name: String = match &pairs[idx].value {
                CodePairValue::Str(s) => s.clone(),
                _ => {
                    return Err(DxfError::UnexpectedCodePair);
                },
            };
            proof {
                reveal_strlit("ENDSEC");
            }
            if crate::enums::str_eq(name.as_str(), "ENDSEC") {
                return Ok(None);
            }
            match EntityType::from_type_string(name.as_str()) {
                None => {
                    let j: usize = skip_to_zero_at(pairs, idx + 1);
                    if j >= pairs.len() {
                        return Err(DxfError::UnexpectedEndOfInput);
                    }
                    *i = j;
                },
                Some(specific) => {
                    let mut entity: Entity = Entity::new(specific);
                    let mut j: usize = idx + 1;
                    match &mut entity.specific {
                        EntityType::MText(m) => {
                            match Entity::read_mtext_fields(m, &mut entity.common, pairs, &mut j) {
                                Ok(()) => {},
                                Err(e) => {
                                    return Err(e);
                                },
                            }
                        },
                        _ => {
                            match Entity::read_plain_fields(
                                &mut entity.common,
                                &mut entity.specific,
                                pairs,
                                &mut j,
                            ) {
                                Ok(()) => {},
                                Err(e) => {
                                    return Err(e);
                                },
                            }
                            entity.post_parse();
                        },
                    }
                    *i = j;
                    return Ok(Some(entity));
                },
            }
        }
    }

    /// Feeds pairs to an entity without a stateful reader until the next
    /// zero-code pair.
    fn read_plain_fields(
        common: &mut EntityCommon,
        specific: &mut EntityType,
        pairs: &Vec<CodePair>,
        i: &mut usize,
    ) -> (r: Result<(), DxfError>)
        requires
            pairs_wf(pairs@),
            *old(i) <= pairs@.len(),
            !(old(specific)@ is MText),
        ensures
            match r {
                Ok(()) => spec_apply_until_zero(
                    pair_views(pairs@),
                    *old(i) as int,
                    old(common)@,
                    old(specific)@,
                ) == Ok::<(CommonV, EntityTypeV, int), DxfError>(
                    (final(common)@, final(specific)@, *final(i) as int),
                ) && *final(i) <= pairs@.len(),
                Err(e) => spec_apply_until_zero(
                    pair_views(pairs@),
                    *old(i) as int,
                    old(common)@,
                    old(specific)@,
                ) == Err::<(CommonV, EntityTypeV, int), DxfError>(e),
            },
            common_wf(old(common)@) && old(specific).wf() ==> common_wf(final(common)@)
                && final(specific).wf(),
    {
        let ghost ps = pair_views(pairs@);
        loop
            invariant
                pairs_wf(pairs@),
                ps == pair_views(pairs@),
                *i <= pairs@.len(),
                !(specific@ is MText),
                spec_apply_until_zero(ps, *old(i) as int, old(common)@, old(specific)@)
                    == spec_apply_until_zero(ps, *i as int, common@, specific@),
                common_wf(old(common)@) && old(specific).wf() ==> common_wf(common@)
                    && specific.wf(),
            decreases pairs@.len() - *i,
        {
            if *i >= pairs.len() {
                return Err(DxfError::UnexpectedEndOfInput);
            }
            let idx: usize = *i;
            proof {
                assert(ps[idx as int] == pairs@[idx as int]@);
                assert(pairs@[idx as int].wf());
            }
            if pairs[idx].code == 0 {
                return Ok(());
            }
            match specific.try_apply_code_pair(&pairs[idx]) {
                Ok(handled) => {
                    if !handled {
                        match common.apply_individual_pair(&pairs[idx]) {
                            Ok(()) => {},
                            Err(e) => {
                                return Err(e);
                            },
                        }
                    }
                },
                Err(e) => {
                    return Err(e);
                },
            }
            *i = idx + 1;
        }
    }

    /// Coalesces what a read leaves in intermediate parallel runs: a
    /// leader's coordinate runs become its vertices.
    pub fn post_parse(&mut self)
        ensures
            final(self)@.common == old(self)@.common,
            final(self)@.specific == spec_post_parse(old(self)@.specific),
            old(self).wf() ==> final(self).wf(),
    {
        match &mut self.specific {
            EntityType::Leader(leader) => {
                let n: usize = {
                    let a: usize = leader.vertices_x.len();
                    let b: usize = leader.vertices_y.len();
                    let c: usize = leader.vertices_z.len();
                    if a <= b && a <= c {
                        a
                    } else if b <= a && b <= c {
                        b
                    } else {
                        c
                    }
                };
                let ghost vs0 = leader@.vertices;
                let ghost xs = leader@.vertices_x;
                let ghost ys = leader@.vertices_y;
                let ghost zs = leader@.vertices_z;
                let mut k: usize = 0;
                proof {
                    assert(leader@.vertices =~= vs0 + Seq::new(
                        0,
                        |t: int| Point { x: xs[t], y: ys[t], z: zs[t] },
                    ));
                }
                while k < n
                    invariant
                        0 <= k <= n,
                        n == min3(xs.len(), ys.len(), zs.len()),
                        leader@.vertices_x == xs,
                        leader@.vertices_y == ys,
                        leader@.vertices_z == zs,
                        leader@.vertices == vs0 + Seq::new(
                            k as nat,
                            |t: int| Point { x: xs[t], y: ys[t], z: zs[t] },
                        ),
                    decreases n - k,
                {
                    let p: Point = Point {
                        x: leader.vertices_x[k],
                        y: leader.vertices_y[k],
                        z: leader.vertices_z[k],
                    };
                    leader.vertices.push(p);
                    proof {
                        assert(leader@.vertices =~= vs0 + Seq::new(
                            (k + 1) as nat,
                            |t: int| Point { x: xs[t], y: ys[t], z: zs[t] },
                        ));
                    }
                    k = k + 1;
                }
                leader.vertices_x.clear();
                leader.vertices_y.clear();
                leader.vertices_z.clear();
                proof {
                    assert(leader@.vertices_x =~= Seq::<Double>::empty());
                    assert(leader@.vertices_y =~= Seq::<Double>::empty());
                    assert(leader@.vertices_z =~= Seq::<Double>::empty());
                }
            },
            _ => {},
        }
    }
}

/// The pairs of one gathered vertex written back out as an entity of its
/// own, with default shared fields.
pub open spec fn spec_vertex_entity_pairs(
    v: Vertex,
    version: AcadVersion,
    write_handles: bool,
) -> Seq<PairV> {
    seq![pt(0, "VERTEX"@)] + spec_common_pairs(spec_default_common(), version, write_handles)
        + crate::entity_codec::spec_vertex_pairs(v, version)
}

/// The pairs of a polyline's gathered vertices on write, in order.
pub open spec fn spec_vertices_pairs(
    vs: Seq<Vertex>,
    version: AcadVersion,
    write_handles: bool,
) -> Seq<PairV>
    decreases vs.len(),
{
    if vs.len() == 0 {
        Seq::<PairV>::empty()
    } else {
        spec_vertex_entity_pairs(vs[0], version, write_handles) + spec_vertices_pairs(
            vs.skip(1),
            version,
            write_handles,
        )
    }
}

/// One more vertex appends its own pairs.
pub proof fn lemma_vertices_pairs_push(
    vs: Seq<Vertex>,
    v: Vertex,
    version: AcadVersion,
    write_handles: bool,
)
    ensures
        spec_vertices_pairs(vs.push(v), version, write_handles) == spec_vertices_pairs(
            vs,
            version,
            write_handles,
        ) + spec_vertex_entity_pairs(v, version, write_handles),
    decreases vs.len(),
{
    reveal_with_fuel(spec_vertices_pairs, 2);
    if vs.len() == 0 {
        assert(vs.push(v)[0] == v);
        assert(vs.push(v).skip(1) =~= Seq::<Vertex>::empty());
        assert(spec_vertices_pairs(vs.push(v), version, write_handles) =~= spec_vertices_pairs(
            vs,
            version,
            write_handles,
        ) + spec_vertex_entity_pairs(v, version, write_handles));
    } else {
        lemma_vertices_pairs_push(vs.skip(1), v, version, write_handles);
        assert(vs.push(v).skip(1) =~= vs.skip(1).push(v));
        assert(vs.push(v)[0] == vs[0]);
        assert(spec_vertices_pairs(vs.push(v), version, write_handles)
            == spec_vertex_entity_pairs(vs[0], version, write_handles) + (spec_vertices_pairs(
            vs.skip(1),
            version,
            write_handles,
        ) + spec_vertex_entity_pairs(v, version, write_handles)));
        vstd::seq_lib::lemma_concat_associative(
            spec_vertex_entity_pairs(vs[0], version, write_handles),
            spec_vertices_pairs(vs.skip(1), version, write_handles),
            spec_vertex_entity_pairs(v, version, write_handles),
        );
    }
}

/// The pairs of the vertex-run terminator written after a polyline, with
/// default shared fields.
pub open spec fn spec_seqend_pairs(version: AcadVersion, write_handles: bool) -> Seq<PairV> {
    seq![pt(0, "SEQEND"@)] + spec_common_pairs(spec_default_common(), version, write_handles)
}

/// The trailing pairs an entity owns beyond its own fields: a polyline is
/// followed by its vertices, each as an entity of its own, and one
/// terminator.
pub open spec fn spec_post_pairs(
    ev: EntityTypeV,
    version: AcadVersion,
    write_handles: bool,
) -> Seq<PairV> {
    match ev {
        EntityTypeV::Polyline(p) => spec_vertices_pairs(p.vertices, version, write_handles)
            + spec_seqend_pairs(version, write_handles),
        _ => Seq::<PairV>::empty(),
    }
}

/// Everything an entity writes: nothing at all when the revision does not
/// support it; otherwise its type pair, its shared fields, its own
/// fields, and its trailing entities.
pub open spec fn spec_entity_pairs(
    e: EntityV,
    version: AcadVersion,
    write_handles: bool,
) -> Seq<PairV> {
    if spec_supported_on_version(tag_of(e.specific), version) {
        seq![pt(0, spec_type_string(tag_of(e.specific)))] + spec_common_pairs(
            e.common,
            version,
            write_handles,
        ) + spec_specific_pairs(e.specific, version) + spec_post_pairs(
            e.specific,
            version,
            write_handles,
        )
    } else {
        Seq::<PairV>::empty()
    }
}

impl Entity {
    /// Writes the entity, or nothing when the revision does not support
    /// its kind.
    pub fn write(
        &self,
        version: AcadVersion,
        write_handles: bool,
        writer: &mut CodePairAsciiWriter,
    )
        requires
            self.wf(),
            old(writer).wf(),
        ensures
            final(writer).wf(),
            final(writer)@ == old(writer)@ + spec_entity_pairs(self@, version, write_handles),
    {
        let ghost w0 = old(writer)@;
        if !self.specific.is_supported_on_version(version) {
            proof {
                assert(w0 + Seq::<PairV>::empty() =~= w0);
            }
            return ;
        }
        let ghost s1 = seq![pt(0, spec_type_string(tag_of(self@.specific)))];
        let ghost s2 = spec_common_pairs(self@.common, version, write_handles);
        let ghost s3 = spec_specific_pairs(self@.specific, version);
        let ghost s4 = spec_post_pairs(self@.specific, version, write_handles);
        writer.write_code_pair(&CodePair::new_str(0, self.specific.to_type_string()));
        self.common.write(version, write_handles, writer);
        proof {
            assert(writer@ =~= w0 + s1 + s2);
        }
        self.specific.write(version, writer);
        proof {
            assert(writer@ =~= w0 + s1 + s2 + s3);
        }
        self.post_write(version, write_handles, writer);
        proof {
            assert(writer@ =~= w0 + s1 + s2 + s3 + s4);
            assert(w0 + s1 + s2 + s3 + s4 =~= w0 + (s1 + s2 + s3 + s4)) by {
                vstd::seq_lib::lemma_concat_associative(w0, s1, s2);
                vstd::seq_lib::lemma_concat_associative(w0, s1 + s2, s3);
                vstd::seq_lib::lemma_concat_associative(w0, s1 + s2 + s3, s4);
            }
        }
    }

    /// Writes what follows an entity's own fields: a polyline's gathered
    /// vertices and their terminator.
    fn post_write(
        &self,
        version: AcadVersion,
        write_handles: bool,
        writer: &mut CodePairAsciiWriter,
    )
        requires
            self.wf(),
            old(writer).wf(),
        ensures
            final(writer).wf(),
            final(writer)@ == old(writer)@ + spec_post_pairs(self@.specific, version, write_handles),
    {
        let ghost w0 = old(writer)@;
        match &self.specific {
            EntityType::Polyline(poly) => {
                proof {
                    reveal_strlit("VERTEX");
                    reveal_strlit("SEQEND");
                    assert(poly@.vertices.take(0) =~= Seq::<Vertex>::empty());
                    assert(w0 + spec_vertices_pairs(
                        poly@.vertices.take(0),
                        version,
                        write_handles,
                    ) =~= w0);
                }
                let mut k: usize = 0;
                while k < poly.vertices.len()
                    invariant
                        0 <= k <= poly.vertices@.len(),
                        poly.wf(),
                        writer.wf(),
                        writer@ == w0 + spec_vertices_pairs(
                            poly@.vertices.take(k as int),
                            version,
                            write_handles,
                        ),
                        vstd::utf8::is_ascii_chars("VERTEX"@),
                    decreases poly.vertices@.len() - k,
                {
                    let ghost wk = writer@;
                    writer.write_code_pair(&CodePair::new_str(0, "VERTEX"));
                    let dc: EntityCommon = EntityCommon::new();
                    dc.write(version, write_handles, writer);
                    proof {
                        assert((#[trigger] poly@.vertices[k as int]).wf());
                    }
                    crate::entity_codec::write_vertex(&poly.vertices[k], version, writer);
                    proof {
                        assert(writer@ =~= wk + spec_vertex_entity_pairs(
                            poly@.vertices[k as int],
                            version,
                            write_handles,
                        ));
                        assert(poly@.vertices.take(k + 1) =~= poly@.vertices.take(k as int).push(
                            poly@.vertices[k as int],
                        ));
                        lemma_vertices_pairs_push(
                            poly@.vertices.take(k as int),
                            poly@.vertices[k as int],
                            version,
                            write_handles,
                        );
                        assert(writer@ =~= w0 + spec_vertices_pairs(
                            poly@.vertices.take(k + 1),
                            version,
                            write_handles,
                        ));
                    }
                    k = k + 1;
                }
                proof {
                    assert(poly@.vertices.take(k as int) =~= poly@.vertices);
                }
                let ghost wv = writer@;
                writer.write_code_pair(&CodePair::new_str(0, "SEQEND"));
                let dc: EntityCommon = EntityCommon::new();
                dc.write(version, write_handles, writer);
                proof {
                    assert(writer@ =~= wv + spec_seqend_pairs(version, write_handles));
                    assert(writer@ =~= w0 + spec_post_pairs(self@.specific, version, write_handles));
                }
            },
            _ => {
                proof {
                    assert(w0 + spec_post_pairs(self@.specific, version, write_handles) =~= w0);
                }
            },
        }
    }
}

/// Feeding pairs to an entity stops at a zero-code pair inside the run.
pub proof fn lemma_apply_until_zero_bounds(ps: Seq<PairV>, i: int, c: CommonV, s: EntityTypeV)
    requires
        0 <= i <= ps.len(),
    ensures
        spec_apply_until_zero(ps, i, c, s) matches Ok((c2, s2, j)) ==> i <= j < ps.len()
            && ps[j].code == 0,
    decreases ps.len() - i,
{
    if i < ps.len() && ps[i].code != 0 {
        match spec_try_apply(s, ps[i]) {
            Err(_) => {},
            Ok((s2, handled)) => {
                if handled {
                    lemma_apply_until_zero_bounds(ps, i + 1, c, s2);
                } else {
                    match spec_apply_common(c, ps[i]) {
                        Err(_) => {},
                        Ok(c2) => {
                            lemma_apply_until_zero_bounds(ps, i + 1, c2, s);
                        },
                    }
                }
            },
        }
    }
}

/// The stateful multi-line text reader never walks past the run.
pub proof fn lemma_mtext_read_bounds(
    ps: Seq<PairV>,
    i: int,
    m: MTextV,
    c: CommonV,
    col: bool,
    cnt: bool,
)
    requires
        0 <= i <= ps.len(),
    ensures
        spec_mtext_read(ps, i, m, c, col, cnt) matches Ok((m2, c2, j)) ==> i <= j <= ps.len(),
    decreases ps.len() - i,
{
    if i < ps.len() && ps[i].code != 0 {
        match spec_mtext_step(m, ps[i], col, cnt) {
            Err(_) => {},
            Ok((m2, col2, cnt2, handled)) => {
                if handled {
                    lemma_mtext_read_bounds(ps, i + 1, m2, c, col2, cnt2);
                } else {
                    match spec_apply_common(c, ps[i]) {
                        Err(_) => {},
                        Ok(c2) => {
                            lemma_mtext_read_bounds(ps, i + 1, m, c2, col, cnt);
                        },
                    }
                }
            },
        }
    }
}

/// Reading one entity lands inside the run on a section end and strictly
/// past its opening pair otherwise.
pub proof fn lemma_read_entity_bounds(ps: Seq<PairV>, i: int)
    requires
        0 <= i <= ps.len(),
    ensures
        spec_read_entity(ps, i) matches Ok((oe, j)) ==> (oe is None ==> i <= j < ps.len()) && (
        oe is Some ==> i < j <= ps.len()),
    decreases ps.len() - i,
{
    if 0 <= i < ps.len() && ps[i].code == 0 {
        match t_of(ps[i].value) {
            None => {},
            Some(name) => {
                if name == "ENDSEC"@ {
                } else {
                    match spec_from_type_string(name) {
                        None => {
                            lemma_skip_to_zero(ps, i + 1);
                            let j = spec_skip_to_zero(ps, i + 1);
                            if j < ps.len() {
                                lemma_read_entity_bounds(ps, j);
                            }
                        },
                        Some(tag) => {
                            if tag == TypeTag::MText {
                                match spec_default_specific(tag) {
                                    EntityTypeV::MText(m0) => {
                                        lemma_mtext_read_bounds(
                                            ps,
                                            i + 1,
                                            m0,
                                            spec_default_common(),
                                            false,
                                            false,
                                        );
                                    },
                                    _ => {},
                                }
                            } else {
                                lemma_apply_until_zero_bounds(
                                    ps,
                                    i + 1,
                                    spec_default_common(),
                                    spec_default_specific(tag),
                                );
                            }
                        },
                    }
                }
            },
        }
    }
}

} // verus!
