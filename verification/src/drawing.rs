//! The drawing and its sectioned file form: reading dispatches on
//! `SECTION` names and writing lays the sections out in a fixed order,
//! ended by the end-of-file pair.
use vstd::prelude::*;

use crate::double::Double;
use crate::entity::{
    pair_views, pairs_wf, spec_read_entity, Entity, EntityV, spec_entity_pairs,
};
use crate::entities::{EntityType, EntityTypeV, PolylineV, Vertex};
use crate::entity_codec::{psh, pt, t_of};
use crate::enums::AcadVersion;
use crate::error::DxfError;
use crate::header::{spec_default_header, spec_header_pairs, spec_header_vars, Header, HeaderV, header_wf};
use crate::lexer::spec_lex;
use crate::tables::{
    layer_wf, spec_read_layers, spec_read_named, spec_swallow_table, AppId, BlockRecord, DimStyle,
    Layer, LayerV, LineType, Style, Ucs, ViewPort, ViewRecord,
};
use crate::value::{CodePair, CodePairValue, PairV, ValueV};
use crate::writer::CodePairAsciiWriter;

verus! {

/// A drawing: its header, its entities, and its symbol tables.
#[derive(Debug)]
pub struct Drawing {
    /// The drawing's header: drawing-wide values and settings.
    pub header: Header,
    /// The entities contained by the drawing.
    pub entities: Vec<Entity>,
    /// The application ids contained by the drawing.
    pub app_ids: Vec<AppId>,
    /// The block records contained by the drawing.
    pub block_records: Vec<BlockRecord>,
    /// The dimension styles contained by the drawing.
    pub dim_styles: Vec<DimStyle>,
    /// The layers contained by the drawing.
    pub layers: Vec<Layer>,
    /// The line types contained by the drawing.
    pub line_types: Vec<LineType>,
    /// The text styles contained by the drawing.
    pub styles: Vec<Style>,
    /// The user coordinate systems contained by the drawing.
    pub ucs: Vec<Ucs>,
    /// The views contained by the drawing.
    pub views: Vec<ViewRecord>,
    /// The view ports contained by the drawing.
    pub view_ports: Vec<ViewPort>,
}

/// The mathematical shape of a drawing.
pub struct DrawingV {
    pub header: HeaderV,
    pub entities: Seq<EntityV>,
    pub app_ids: Seq<Seq<char>>,
    pub block_records: Seq<Seq<char>>,
    pub dim_styles: Seq<Seq<char>>,
    pub layers: Seq<LayerV>,
    pub line_types: Seq<Seq<char>>,
    pub styles: Seq<Seq<char>>,
    pub ucs: Seq<Seq<char>>,
    pub views: Seq<Seq<char>>,
    pub view_ports: Seq<Seq<char>>,
}

impl View for Drawing {
    type V = DrawingV;

    open spec fn view(&self) -> DrawingV {
        DrawingV {
            header: self.header@,
            entities: self.entities@.map_values(|e: Entity| e@),
            app_ids: self.app_ids@.map_values(|t: AppId| t@),
            block_records: self.block_records@.map_values(|t: BlockRecord| t@),
            dim_styles: self.dim_styles@.map_values(|t: DimStyle| t@),
            layers: self.layers@.map_values(|t: Layer| t@),
            line_types: self.line_types@.map_values(|t: LineType| t@),
            styles: self.styles@.map_values(|t: Style| t@),
            ucs: self.ucs@.map_values(|t: Ucs| t@),
            views: self.views@.map_values(|t: ViewRecord| t@),
            view_ports: self.view_ports@.map_values(|t: ViewPort| t@),
        }
    }
}

/// The empty drawing.
pub open spec fn spec_default_drawing() -> DrawingV {
    DrawingV {
        header: spec_default_header(),
        entities: Seq::<EntityV>::empty(),
        app_ids: Seq::<Seq<char>>::empty(),
        block_records: Seq::<Seq<char>>::empty(),
        dim_styles: Seq::<Seq<char>>::empty(),
        layers: Seq::<LayerV>::empty(),
        line_types: Seq::<Seq<char>>::empty(),
        styles: Seq::<Seq<char>>::empty(),
        ucs: Seq::<Seq<char>>::empty(),
        views: Seq::<Seq<char>>::empty(),
        view_ports: Seq::<Seq<char>>::empty(),
    }
}

/// The drawing is storable.
pub open spec fn drawing_wf(d: Drawing) -> bool {
    &&& header_wf(d.header@)
    &&& (forall|i: int| 0 <= i < d.entities@.len() ==> (#[trigger] d.entities@[i]).wf())
    &&& (forall|i: int| 0 <= i < d.layers@.len() ==> layer_wf(#[trigger] d.layers@[i]@))
    &&& (forall|i: int|
        0 <= i < d.app_ids@.len() ==> vstd::utf8::is_ascii_chars(#[trigger] d.app_ids@[i]@))
    &&& (forall|i: int|
        0 <= i < d.block_records@.len() ==> vstd::utf8::is_ascii_chars(
            #[trigger] d.block_records@[i]@,
        ))
    &&& (forall|i: int|
        0 <= i < d.dim_styles@.len() ==> vstd::utf8::is_ascii_chars(#[trigger] d.dim_styles@[i]@))
    &&& (forall|i: int|
        0 <= i < d.line_types@.len() ==> vstd::utf8::is_ascii_chars(#[trigger] d.line_types@[i]@))
    &&& (forall|i: int|
        0 <= i < d.styles@.len() ==> vstd::utf8::is_ascii_chars(#[trigger] d.styles@[i]@))
    &&& (forall|i: int|
        0 <= i < d.ucs@.len() ==> vstd::utf8::is_ascii_chars(#[trigger] d.ucs@[i]@))
    &&& (forall|i: int|
        0 <= i < d.views@.len() ==> vstd::utf8::is_ascii_chars(#[trigger] d.views@[i]@))
    &&& (forall|i: int|
        0 <= i < d.view_ports@.len() ==> vstd::utf8::is_ascii_chars(#[trigger] d.view_ports@[i]@))
}

/// Gathers the vertex entities that follow a polyline into it; one
/// terminator right after them is absorbed, anything else stays for the
/// caller.
pub open spec fn spec_gather_vertices(ps: Seq<PairV>, i: int, poly: PolylineV) -> Result<
    (PolylineV, int),
    DxfError,
>
    decreases ps.len() - i,
    via spec_gather_vertices_decreases
{
    if i < 0 || i > ps.len() {
        Err(DxfError::UnexpectedEndOfInput)
    } else {
        match spec_read_entity(ps, i) {
            Err(e) => Err(e),
            Ok((None, j)) => Ok((poly, j)),
            Ok((Some(e2), j)) => match e2.specific {
                EntityTypeV::Vertex(v) => spec_gather_vertices(
                    ps,
                    j,
                    PolylineV { vertices: poly.vertices.push(v), ..poly },
                ),
                EntityTypeV::Seqend(_) => Ok((poly, j)),
                _ => Ok((poly, i)),
            },
        }
    }
}

#[via_fn]
proof fn spec_gather_vertices_decreases(ps: Seq<PairV>, i: int, poly: PolylineV) {
    if 0 <= i <= ps.len() {
        crate::entity::lemma_read_entity_bounds(ps, i);
    }
}

pub proof fn lemma_gather_vertices_bounds(ps: Seq<PairV>, i: int, poly: PolylineV)
    requires
        0 <= i <= ps.len(),
    ensures
        spec_gather_vertices(ps, i, poly) matches Ok((p2, j)) ==> i <= j <= ps.len(),
    decreases ps.len() - i,
{
    crate::entity::lemma_read_entity_bounds(ps, i);
    match spec_read_entity(ps, i) {
        Err(_) => {},
        Ok((None, j)) => {},
        Ok((Some(e2), j)) => {
            match e2.specific {
                EntityTypeV::Vertex(v) => {
                    lemma_gather_vertices_bounds(
                        ps,
                        j,
                        PolylineV { vertices: poly.vertices.push(v), ..poly },
                    );
                },
                _ => {},
            }
        },
    }
}

/// Reads the body of the entities section: entities in file order, each
/// polyline gathering the vertex entities after it; a section-end pair
/// ends the body and stays put.
pub open spec fn spec_read_entities(ps: Seq<PairV>, i: int) -> Result<(Seq<EntityV>, int), DxfError>
    decreases ps.len() - i,
    via spec_read_entities_decreases
{
    if i < 0 || i > ps.len() {
        Err(DxfError::UnexpectedEndOfInput)
    } else {
        match spec_read_entity(ps, i) {
            Err(e) => Err(e),
            Ok((None, j)) => Ok((Seq::<EntityV>::empty(), j)),
            Ok((Some(e), j)) => match e.specific {
                EntityTypeV::Polyline(p) => match spec_gather_vertices(ps, j, p) {
                    Err(e2) => Err(e2),
                    Ok((p2, j2)) => match spec_read_entities(ps, j2) {
                        Err(e3) => Err(e3),
                        Ok((rest, k)) => Ok(
                            (
                                seq![
                                    EntityV {
                                        common: e.common,
                                        specific: EntityTypeV::Polyline(p2),
                                    },
                                ] + rest,
                                k,
                            ),
                        ),
                    },
                },
                _ => match spec_read_entities(ps, j) {
                    Err(e3) => Err(e3),
                    Ok((rest, k)) => Ok((seq![e] + rest, k)),
                },
            },
        }
    }
}

#[via_fn]
proof fn spec_read_entities_decreases(ps: Seq<PairV>, i: int) {
    if 0 <= i <= ps.len() {
        crate::entity::lemma_read_entity_bounds(ps, i);
        match spec_read_entity(ps, i) {
            Err(_) => {},
            Ok((None, j)) => {},
            Ok((Some(e), j)) => {
                match e.specific {
                    EntityTypeV::Polyline(p) => {
                        lemma_gather_vertices_bounds(ps, j, p);
                    },
                    _ => {},
                }
            },
        }
    }
}

/// The index of the pair that ends the current section, or the end of the
/// run when no section-end pair follows.
pub open spec fn spec_skip_section(ps: Seq<PairV>, i: int) -> int
    decreases ps.len() - i,
{
    if i < 0 || i >= ps.len() {
        ps.len() as int
    } else if ps[i].code == 0 && t_of(ps[i].value) == Some("ENDSEC"@) {
        i
    } else {
        spec_skip_section(ps, i + 1)
    }
}

pub proof fn lemma_skip_section_bounds(ps: Seq<PairV>, i: int)
    requires
        0 <= i <= ps.len(),
    ensures
        i <= spec_skip_section(ps, i) <= ps.len(),
        spec_skip_section(ps, i) < ps.len() ==> ps[spec_skip_section(ps, i)].code == 0 && t_of(
            ps[spec_skip_section(ps, i)].value,
        ) == Some("ENDSEC"@),
    decreases ps.len() - i,
{
    if i < ps.len() && !(ps[i].code == 0 && t_of(ps[i].value) == Some("ENDSEC"@)) {
        lemma_skip_section_bounds(ps, i + 1);
    }
}

/// Reads the body of the tables section: `TABLE` blocks until the
/// section-end pair, which stays put.  A recognized table name fills its
/// records; an unknown one is consumed through its table-end pair.
pub open spec fn spec_read_tables(ps: Seq<PairV>, i: int, d: DrawingV) -> Result<
    (DrawingV, int),
    DxfError,
>
    decreases ps.len() - i,
    via spec_read_tables_decreases
{
    if i < 0 || i >= ps.len() {
        Err(DxfError::UnexpectedEndOfInput)
    } else if ps[i].code != 0 {
        Err(DxfError::UnexpectedCodePair)
    } else {
        match t_of(ps[i].value) {
            None => Err(DxfError::UnexpectedCodePair),
            Some(n) => if n == "ENDSEC"@ {
                Ok((d, i))
            } else if n == "TABLE"@ {
                if i + 1 >= ps.len() || ps[i + 1].code != 2 {
                    Err(DxfError::UnexpectedCodePair)
                } else {
                    match t_of(ps[i + 1].value) {
                        None => Err(DxfError::UnexpectedCodePair),
                        Some(tn) => if tn == "LAYER"@ {
                            match spec_read_layers(ps, i + 2) {
                                Err(e) => Err(e),
                                Ok((ls, j)) => spec_read_tables(
                                    ps,
                                    j,
                                    DrawingV { layers: ls, ..d },
                                ),
                            }
                        } else if tn == "APPID"@ {
                            match spec_read_named(ps, i + 2, "APPID"@) {
                                Err(e) => Err(e),
                                Ok((ns, j)) => spec_read_tables(
                                    ps,
                                    j,
                                    DrawingV { app_ids: ns, ..d },
                                ),
                            }
                        } else if tn == "BLOCK_RECORD"@ {
                            match spec_read_named(ps, i + 2, "BLOCK_RECORD"@) {
                                Err(e) => Err(e),
                                Ok((ns, j)) => spec_read_tables(
                                    ps,
                                    j,
                                    DrawingV { block_records: ns, ..d },
                                ),
                            }
                        } else if tn == "DIMSTYLE"@ {
                            match spec_read_named(ps, i + 2, "DIMSTYLE"@) {
                                Err(e) => Err(e),
                                Ok((ns, j)) => spec_read_tables(
                                    ps,
                                    j,
                                    DrawingV { dim_styles: ns, ..d },
                                ),
                            }
                        } else if tn == "LTYPE"@ {
                            match spec_read_named(ps, i + 2, "LTYPE"@) {
                                Err(e) => Err(e),
                                Ok((ns, j)) => spec_read_tables(
                                    ps,
                                    j,
                                    DrawingV { line_types: ns, ..d },
                                ),
                            }
                        } else if tn == "STYLE"@ {
                            match spec_read_named(ps, i + 2, "STYLE"@) {
                                Err(e) => Err(e),
                                Ok((ns, j)) => spec_read_tables(ps, j, DrawingV { styles: ns, ..d }),
                            }
                        } else if tn == "UCS"@ {
                            match spec_read_named(ps, i + 2, "UCS"@) {
                                Err(e) => Err(e),
                                Ok((ns, j)) => spec_read_tables(ps, j, DrawingV { ucs: ns, ..d }),
                            }
                        } else if tn == "VIEW"@ {
                            match spec_read_named(ps, i + 2, "VIEW"@) {
                                Err(e) => Err(e),
                                Ok((ns, j)) => spec_read_tables(ps, j, DrawingV { views: ns, ..d }),
                            }
                        } else if tn == "VPORT"@ {
                            match spec_read_named(ps, i + 2, "VPORT"@) {
                                Err(e) => Err(e),
                                Ok((ns, j)) => spec_read_tables(
                                    ps,
                                    j,
                                    DrawingV { view_ports: ns, ..d },
                                ),
                            }
                        } else {
                            match spec_swallow_table(ps, i + 2) {
                                Err(e) => Err(e),
                                Ok(j) => if j < ps.len() && t_of(ps[j].value) == Some("ENDTAB"@) {
                                    spec_read_tables(ps, j + 1, d)
                                } else {
                                    spec_read_tables(ps, j, d)
                                },
                            }
                        },
                    }
                }
            } else {
                Err(DxfError::UnexpectedCodePair)
            },
        }
    }
}

#[via_fn]
proof fn spec_read_tables_decreases(ps: Seq<PairV>, i: int, d: DrawingV) {
    if 0 <= i < ps.len() && ps[i].code == 0 {
        match t_of(ps[i].value) {
            None => {},
            Some(n) => {
                if n == "TABLE"@ && i + 1 < ps.len() && ps[i + 1].code == 2 {
                    match t_of(ps[i + 1].value) {
                        None => {},
                        Some(tn) => {
                            crate::tables::lemma_read_layers_bounds(ps, i + 2);
                            lemma_read_named_all_bounds(ps, i + 2);
                            crate::tables::lemma_swallow_table_bounds(ps, i + 2);
                        },
                    }
                }
            },
        }
    }
}

/// Bounds for reading every named table this codec knows.
pub proof fn lemma_read_named_all_bounds(ps: Seq<PairV>, i: int)
    requires
        0 <= i <= ps.len(),
    ensures
        spec_read_named(ps, i, "APPID"@) matches Ok((ns, j)) ==> i < j <= ps.len(),
        spec_read_named(ps, i, "BLOCK_RECORD"@) matches Ok((ns, j)) ==> i < j <= ps.len(),
        spec_read_named(ps, i, "DIMSTYLE"@) matches Ok((ns, j)) ==> i < j <= ps.len(),
        spec_read_named(ps, i, "LTYPE"@) matches Ok((ns, j)) ==> i < j <= ps.len(),
        spec_read_named(ps, i, "STYLE"@) matches Ok((ns, j)) ==> i < j <= ps.len(),
        spec_read_named(ps, i, "UCS"@) matches Ok((ns, j)) ==> i < j <= ps.len(),
        spec_read_named(ps, i, "VIEW"@) matches Ok((ns, j)) ==> i < j <= ps.len(),
        spec_read_named(ps, i, "VPORT"@) matches Ok((ns, j)) ==> i < j <= ps.len(),
{
    lemma_read_named_bounds(ps, i, "APPID"@);
    lemma_read_named_bounds(ps, i, "BLOCK_RECORD"@);
    lemma_read_named_bounds(ps, i, "DIMSTYLE"@);
    lemma_read_named_bounds(ps, i, "LTYPE"@);
    lemma_read_named_bounds(ps, i, "STYLE"@);
    lemma_read_named_bounds(ps, i, "UCS"@);
    lemma_read_named_bounds(ps, i, "VIEW"@);
    lemma_read_named_bounds(ps, i, "VPORT"@);
}

pub proof fn lemma_read_named_bounds(ps: Seq<PairV>, i: int, ts: Seq<char>)
    requires
        0 <= i <= ps.len(),
    ensures
        spec_read_named(ps, i, ts) matches Ok((ns, j)) ==> i < j <= ps.len(),
    decreases ps.len() - i,
{
    if 0 <= i < ps.len() {
        if ps[i].code == 0 {
            match t_of(ps[i].value) {
                None => {},
                Some(n) => {
                    if n == "ENDTAB"@ {
                    } else if n == ts {
                        crate::tables::lemma_named_fields_bounds(ps, i + 1, "0"@);
                        match crate::tables::spec_named_fields(ps, i + 1, "0"@) {
                            Err(_) => {},
                            Ok((nm, j)) => {
                                lemma_read_named_bounds(ps, j, ts);
                            },
                        }
                    } else {
                        crate::entity::lemma_skip_to_zero(ps, i + 1);
                        lemma_read_named_bounds(ps, crate::entity::spec_skip_to_zero(ps, i + 1), ts);
                    }
                },
            }
        } else {
            lemma_read_named_bounds(ps, i + 1, ts);
        }
    }
}

/// Reads sections until the end-of-file pair or the end of the run: each
/// recognized section fills its part of the drawing, an unknown one is
/// consumed, and every section must close with its section-end pair.
pub open spec fn spec_read_sections(ps: Seq<PairV>, i: int, d: DrawingV) -> Result<
    (DrawingV, int),
    DxfError,
>
    decreases ps.len() - i,
    via spec_read_sections_decreases
{
    if i < 0 || i > ps.len() {
        Err(DxfError::UnexpectedEndOfInput)
    } else if i == ps.len() {
        Ok((d, i))
    } else if ps[i].code != 0 {
        Err(DxfError::UnexpectedCodePair)
    } else {
        match t_of(ps[i].value) {
            None => Err(DxfError::UnexpectedCodePair),
            Some(n) => if n == "EOF"@ {
                Ok((d, i))
            } else if n == "SECTION"@ {
                if i + 1 >= ps.len() || ps[i + 1].code != 2 {
                    Err(DxfError::UnexpectedCodePair)
                } else {
                    match t_of(ps[i + 1].value) {
                        None => Err(DxfError::UnexpectedCodePair),
                        Some(sn) => {
                            let body = if sn == "HEADER"@ {
                                match spec_header_vars(ps, i + 2, spec_default_header()) {
                                    Err(e) => Err(e),
                                    Ok((h, j)) => Ok((DrawingV { header: h, ..d }, j)),
                                }
                            } else if sn == "ENTITIES"@ {
                                match spec_read_entities(ps, i + 2) {
                                    Err(e) => Err(e),
                                    Ok((es, j)) => Ok((DrawingV { entities: es, ..d }, j)),
                                }
                            } else if sn == "TABLES"@ {
                                spec_read_tables(ps, i + 2, d)
                            } else {
                                Ok((d, spec_skip_section(ps, i + 2)))
                            };
                            match body {
                                Err(e) => Err(e),
                                Ok((d2, j)) => if j < ps.len() && ps[j].code == 0 && t_of(
                                    ps[j].value,
                                ) == Some("ENDSEC"@) {
                                    spec_read_sections(ps, j + 1, d2)
                                } else {
                                    Err(DxfError::UnexpectedCodePair)
                                },
                            }
                        },
                    }
                }
            } else {
                Err(DxfError::UnexpectedCodePair)
            },
        }
    }
}

#[via_fn]
proof fn spec_read_sections_decreases(ps: Seq<PairV>, i: int, d: DrawingV) {
    if 0 <= i < ps.len() && ps[i].code == 0 {
        match t_of(ps[i].value) {
            None => {},
            Some(n) => {
                if n == "SECTION"@ && i + 1 < ps.len() && ps[i + 1].code == 2 {
                    match t_of(ps[i + 1].value) {
                        None => {},
                        Some(sn) => {
                            crate::header::lemma_header_vars_bounds(
                                ps,
                                i + 2,
                                spec_default_header(),
                            );
                            lemma_read_entities_bounds(ps, i + 2);
                            lemma_read_tables_bounds(ps, i + 2, d);
                            lemma_skip_section_bounds(ps, i + 2);
                        },
                    }
                }
            },
        }
    }
}

pub proof fn lemma_read_entities_bounds(ps: Seq<PairV>, i: int)
    requires
        0 <= i <= ps.len(),
    ensures
        spec_read_entities(ps, i) matches Ok((es, j)) ==> i <= j <= ps.len(),
    decreases ps.len() - i,
{
    crate::entity::lemma_read_entity_bounds(ps, i);
    match spec_read_entity(ps, i) {
        Err(_) => {},
        Ok((None, j)) => {},
        Ok((Some(e), j)) => {
            match e.specific {
                EntityTypeV::Polyline(p) => {
                    lemma_gather_vertices_bounds(ps, j, p);
                    match spec_gather_vertices(ps, j, p) {
                        Err(_) => {},
                        Ok((p2, j2)) => {
                            lemma_read_entities_bounds(ps, j2);
                        },
                    }
                },
                _ => {
                    lemma_read_entities_bounds(ps, j);
                },
            }
        },
    }
}

pub proof fn lemma_read_tables_bounds(ps: Seq<PairV>, i: int, d: DrawingV)
    requires
        0 <= i <= ps.len(),
    ensures
        spec_read_tables(ps, i, d) matches Ok((d2, j)) ==> i <= j <= ps.len(),
    decreases ps.len() - i,
{
    if 0 <= i < ps.len() && ps[i].code == 0 {
        match t_of(ps[i].value) {
            None => {},
            Some(n) => {
                if n == "TABLE"@ && i + 1 < ps.len() && ps[i + 1].code == 2 {
                    match t_of(ps[i + 1].value) {
                        None => {},
                        Some(tn) => {
                            crate::tables::lemma_read_layers_bounds(ps, i + 2);
                            lemma_read_named_all_bounds(ps, i + 2);
                            crate::tables::lemma_swallow_table_bounds(ps, i + 2);
                            if tn == "LAYER"@ {
                                match spec_read_layers(ps, i + 2) {
                                    Err(_) => {},
                                    Ok((ls, j)) => {
                                        lemma_read_tables_bounds(
                                            ps,
                                            j,
                                            DrawingV { layers: ls, ..d },
                                        );
                                    },
                                }
                            } else if tn == "APPID"@ {
                                match spec_read_named(ps, i + 2, "APPID"@) {
                                    Err(_) => {},
                                    Ok((ns, j)) => {
                                        lemma_read_tables_bounds(
                                            ps,
                                            j,
                                            DrawingV { app_ids: ns, ..d },
                                        );
                                    },
                                }
                            } else if tn == "BLOCK_RECORD"@ {
                                match spec_read_named(ps, i + 2, "BLOCK_RECORD"@) {
                                    Err(_) => {},
                                    Ok((ns, j)) => {
                                        lemma_read_tables_bounds(
                                            ps,
                                            j,
                                            DrawingV { block_records: ns, ..d },
                                        );
                                    },
                                }
                            } else if tn == "DIMSTYLE"@ {
                                match spec_read_named(ps, i + 2, "DIMSTYLE"@) {
                                    Err(_) => {},
                                    Ok((ns, j)) => {
                                        lemma_read_tables_bounds(
                                            ps,
                                            j,
                                            DrawingV { dim_styles: ns, ..d },
                                        );
                                    },
                                }
                            } else if tn == "LTYPE"@ {
                                match spec_read_named(ps, i + 2, "LTYPE"@) {
                                    Err(_) => {},
                                    Ok((ns, j)) => {
                                        lemma_read_tables_bounds(
                                            ps,
                                            j,
                                            DrawingV { line_types: ns, ..d },
                                        );
                                    },
                                }
                            } else if tn == "STYLE"@ {
                                match spec_read_named(ps, i + 2, "STYLE"@) {
                                    Err(_) => {},
                                    Ok((ns, j)) => {
                                        lemma_read_tables_bounds(
                                            ps,
                                            j,
                                            DrawingV { styles: ns, ..d },
                                        );
                                    },
                                }
                            } else if tn == "UCS"@ {
                                match spec_read_named(ps, i + 2, "UCS"@) {
                                    Err(_) => {},
                                    Ok((ns, j)) => {
                                        lemma_read_tables_bounds(ps, j, DrawingV { ucs: ns, ..d });
                                    },
                                }
                            } else if tn == "VIEW"@ {
                                match spec_read_named(ps, i + 2, "VIEW"@) {
                                    Err(_) => {},
                                    Ok((ns, j)) => {
                                        lemma_read_tables_bounds(
                                            ps,
                                            j,
                                            DrawingV { views: ns, ..d },
                                        );
                                    },
                                }
                            } else if tn == "VPORT"@ {
                                match spec_read_named(ps, i + 2, "VPORT"@) {
                                    Err(_) => {},
                                    Ok((ns, j)) => {
                                        lemma_read_tables_bounds(
                                            ps,
                                            j,
                                            DrawingV { view_ports: ns, ..d },
                                        );
                                    },
                                }
                            } else {
                                match spec_swallow_table(ps, i + 2) {
                                    Err(_) => {},
                                    Ok(j) => {
                                        if j < ps.len() && t_of(ps[j].value) == Some("ENDTAB"@) {
                                            lemma_read_tables_bounds(ps, j + 1, d);
                                        } else {
                                            lemma_read_tables_bounds(ps, j, d);
                                        }
                                    },
                                }
                            }
                        },
                    }
                }
            },
        }
    }
}

/// What a whole byte input reads to: its pairs, its sections, and then
/// either the end-of-file pair or a clean end of the run.
pub open spec fn spec_load(input: Seq<u8>) -> Result<DrawingV, DxfError> {
    match spec_lex(input) {
        Err(e) => Err(e),
        Ok(ps) => match spec_read_sections(ps, 0, spec_default_drawing()) {
            Err(e) => Err(e),
            Ok((d, j)) => Ok(d),
        },
    }
}

/// The pairs of one layer record on write.
pub open spec fn spec_layer_record_pairs(l: LayerV) -> Seq<PairV> {
    seq![
        pt(0, "LAYER"@),
        pt(2, l.name),
        psh(62, crate::color::spec_writable_color(l.color.raw_value as int, l.is_layer_on)),
        pt(6, l.line_type_name),
        psh(70, l.flags as int),
    ]
}

/// The pairs of the layer records on write, in order.
pub open spec fn spec_layers_pairs(ls: Seq<LayerV>) -> Seq<PairV>
    decreases ls.len(),
{
    if ls.len() == 0 {
        Seq::<PairV>::empty()
    } else {
        spec_layer_record_pairs(ls[0]) + spec_layers_pairs(ls.skip(1))
    }
}

proof fn lemma_layers_pairs_push(ls: Seq<LayerV>, l: LayerV)
    ensures
        spec_layers_pairs(ls.push(l)) == spec_layers_pairs(ls) + spec_layer_record_pairs(l),
    decreases ls.len(),
{
    reveal_with_fuel(spec_layers_pairs, 2);
    if ls.len() == 0 {
        assert(ls.push(l)[0] == l);
        assert(ls.push(l).skip(1) =~= Seq::<LayerV>::empty());
        assert(spec_layers_pairs(ls.push(l)) =~= spec_layers_pairs(ls) + spec_layer_record_pairs(
            l,
        ));
    } else {
        lemma_layers_pairs_push(ls.skip(1), l);
        assert(ls.push(l).skip(1) =~= ls.skip(1).push(l));
        assert(ls.push(l)[0] == ls[0]);
        vstd::seq_lib::lemma_concat_associative(
            spec_layer_record_pairs(ls[0]),
            spec_layers_pairs(ls.skip(1)),
            spec_layer_record_pairs(l),
        );
    }
}

/// The pairs of the records of one named table on write, in order.
pub open spec fn spec_named_records_pairs(ts: Seq<char>, names: Seq<Seq<char>>) -> Seq<PairV>
    decreases names.len(),
{
    if names.len() == 0 {
        Seq::<PairV>::empty()
    } else {
        seq![pt(0, ts), pt(2, names[0])] + spec_named_records_pairs(ts, names.skip(1))
    }
}

proof fn lemma_named_records_pairs_push(ts: Seq<char>, names: Seq<Seq<char>>, n: Seq<char>)
    ensures
        spec_named_records_pairs(ts, names.push(n)) == spec_named_records_pairs(ts, names) + seq![
            pt(0, ts),
            pt(2, n),
        ],
    decreases names.len(),
{
    reveal_with_fuel(spec_named_records_pairs, 2);
    if names.len() == 0 {
        assert(names.push(n)[0] == n);
        assert(names.push(n).skip(1) =~= Seq::<Seq<char>>::empty());
        assert(spec_named_records_pairs(ts, names.push(n)) =~= spec_named_records_pairs(ts, names)
            + seq![pt(0, ts), pt(2, n)]);
    } else {
        lemma_named_records_pairs_push(ts, names.skip(1), n);
        assert(names.push(n).skip(1) =~= names.skip(1).push(n));
        assert(names.push(n)[0] == names[0]);
        vstd::seq_lib::lemma_concat_associative(
            seq![pt(0, ts), pt(2, names[0])],
            spec_named_records_pairs(ts, names.skip(1)),
            seq![pt(0, ts), pt(2, n)],
        );
    }
}

/// One whole table block on write: nothing when the table is empty.
pub open spec fn spec_table_block(ts: Seq<char>, body: Seq<PairV>, empty: bool) -> Seq<PairV> {
    if empty {
        Seq::<PairV>::empty()
    } else {
        seq![pt(0, "TABLE"@), pt(2, ts)] + body + seq![pt(0, "ENDTAB"@)]
    }
}

/// The pairs of the whole tables section on write.
pub open spec fn spec_tables_section_pairs(d: DrawingV) -> Seq<PairV> {
    seq![pt(0, "SECTION"@), pt(2, "TABLES"@)] + spec_table_block(
        "APPID"@,
        spec_named_records_pairs("APPID"@, d.app_ids),
        d.app_ids.len() == 0,
    ) + spec_table_block(
        "BLOCK_RECORD"@,
        spec_named_records_pairs("BLOCK_RECORD"@, d.block_records),
        d.block_records.len() == 0,
    ) + spec_table_block(
        "DIMSTYLE"@,
        spec_named_records_pairs("DIMSTYLE"@, d.dim_styles),
        d.dim_styles.len() == 0,
    ) + spec_table_block("LAYER"@, spec_layers_pairs(d.layers), d.layers.len() == 0)
        + spec_table_block(
        "LTYPE"@,
        spec_named_records_pairs("LTYPE"@, d.line_types),
        d.line_types.len() == 0,
    ) + spec_table_block(
        "STYLE"@,
        spec_named_records_pairs("STYLE"@, d.styles),
        d.styles.len() == 0,
    ) + spec_table_block("UCS"@, spec_named_records_pairs("UCS"@, d.ucs), d.ucs.len() == 0)
        + spec_table_block(
        "VIEW"@,
        spec_named_records_pairs("VIEW"@, d.views),
        d.views.len() == 0,
    ) + spec_table_block(
        "VPORT"@,
        spec_named_records_pairs("VPORT"@, d.view_ports),
        d.view_ports.len() == 0,
    ) + seq![pt(0, "ENDSEC"@)]
}

/// The pairs of the entity run on write, in order.
pub open spec fn spec_entities_pairs(
    es: Seq<EntityV>,
    version: AcadVersion,
    write_handles: bool,
) -> Seq<PairV>
    decreases es.len(),
{
    if es.len() == 0 {
        Seq::<PairV>::empty()
    } else {
        spec_entity_pairs(es[0], version, write_handles) + spec_entities_pairs(
            es.skip(1),
            version,
            write_handles,
        )
    }
}

proof fn lemma_entities_pairs_push(
    es: Seq<EntityV>,
    e: EntityV,
    version: AcadVersion,
    write_handles: bool,
)
    ensures
        spec_entities_pairs(es.push(e), version, write_handles) == spec_entities_pairs(
            es,
            version,
            write_handles,
        ) + spec_entity_pairs(e, version, write_handles),
    decreases es.len(),
{
    reveal_with_fuel(spec_entities_pairs, 2);
    if es.len() == 0 {
        assert(es.push(e)[0] == e);
        assert(es.push(e).skip(1) =~= Seq::<EntityV>::empty());
        assert(spec_entities_pairs(es.push(e), version, write_handles) =~= spec_entities_pairs(
            es,
            version,
            write_handles,
        ) + spec_entity_pairs(e, version, write_handles));
    } else {
        lemma_entities_pairs_push(es.skip(1), e, version, write_handles);
        assert(es.push(e).skip(1) =~= es.skip(1).push(e));
        assert(es.push(e)[0] == es[0]);
        vstd::seq_lib::lemma_concat_associative(
            spec_entity_pairs(es[0], version, write_handles),
            spec_entities_pairs(es.skip(1), version, write_handles),
            spec_entity_pairs(e, version, write_handles),
        );
    }
}

/// The pairs of the whole entities section on write.
pub open spec fn spec_entities_section_pairs(
    es: Seq<EntityV>,
    version: AcadVersion,
    write_handles: bool,
) -> Seq<PairV> {
    seq![pt(0, "SECTION"@), pt(2, "ENTITIES"@)] + spec_entities_pairs(es, version, write_handles)
        + seq![pt(0, "ENDSEC"@)]
}

/// Whether handles are written at this header: from R13 on always, and
/// earlier when the header asks for them.
pub open spec fn spec_write_handles(h: HeaderV) -> bool {
    h.version.ord() >= AcadVersion::R13.ord() || h.handles_enabled
}

/// Every pair a drawing writes: the header section, the tables section,
/// the entities section, and the end-of-file pair.
pub open spec fn spec_save_pairs(d: DrawingV) -> Seq<PairV> {
    spec_header_pairs(d.header) + spec_tables_section_pairs(d) + spec_entities_section_pairs(
        d.entities,
        d.header.version,
        spec_write_handles(d.header),
    ) + seq![pt(0, "EOF"@)]
}

/// The bytes a drawing saves to.
pub open spec fn spec_save(d: DrawingV) -> Seq<u8> {
    crate::value::emit_pairs(spec_save_pairs(d))
}

impl Drawing {
    /// Creates a new empty drawing.
    pub fn new() -> (r: Drawing)
        ensures
            r@ == spec_default_drawing(),
            drawing_wf(r),
    {
        let r = Drawing {
            header: Header::new(),
            entities: Vec::new(),
            app_ids: Vec::new(),
            block_records: Vec::new(),
            dim_styles: Vec::new(),
            layers: Vec::new(),
            line_types: Vec::new(),
            styles: Vec::new(),
            ucs: Vec::new(),
            views: Vec::new(),
            view_ports: Vec::new(),
        };
        proof {
            assert(r@.entities =~= Seq::<EntityV>::empty());
            assert(r@.app_ids =~= Seq::<Seq<char>>::empty());
            assert(r@.block_records =~= Seq::<Seq<char>>::empty());
            assert(r@.dim_styles =~= Seq::<Seq<char>>::empty());
            assert(r@.layers =~= Seq::<LayerV>::empty());
            assert(r@.line_types =~= Seq::<Seq<char>>::empty());
            assert(r@.styles =~= Seq::<Seq<char>>::empty());
            assert(r@.ucs =~= Seq::<Seq<char>>::empty());
            assert(r@.views =~= Seq::<Seq<char>>::empty());
            assert(r@.view_ports =~= Seq::<Seq<char>>::empty());
        }
        r
    }
}

/// Writes the APPID table block, or nothing when it is empty.
fn write_app_ids_table(v: &Vec<AppId>, writer: &mut CodePairAsciiWriter)
    requires
        old(writer).wf(),
        forall|i: int| 0 <= i < v@.len() ==> vstd::utf8::is_ascii_chars(#[trigger] v@[i]@),
    ensures
        final(writer).wf(),
        final(writer)@ == old(writer)@ + spec_table_block(
            "APPID"@,
            spec_named_records_pairs("APPID"@, v@.map_values(|t: AppId| t@)),
            v@.len() == 0,
        ),
{
    let ghost w0 = old(writer)@;
    let ghost ns = v@.map_values(|t: AppId| t@);
    proof {
        reveal_strlit("TABLE");
        reveal_strlit("ENDTAB");
        reveal_strlit("APPID");
    }
    if v.len() == 0 {
        proof {
            assert(w0 + Seq::<PairV>::empty() =~= w0);
        }
        return ;
    }
    writer.write_code_pair(&CodePair::new_str(0, "TABLE"));
    writer.write_code_pair(&CodePair::new_str(2, "APPID"));
    let ghost base = writer@;
    let mut k: usize = 0;
    proof {
        assert(ns.take(0) =~= Seq::<Seq<char>>::empty());
        assert(writer@ =~= base + spec_named_records_pairs("APPID"@, ns.take(0)));
    }
    while k < v.len()
        invariant
            0 <= k <= v@.len(),
            ns == v@.map_values(|t: AppId| t@),
            forall|i: int| 0 <= i < v@.len() ==> vstd::utf8::is_ascii_chars(#[trigger] v@[i]@),
            writer.wf(),
            writer@ == base + spec_named_records_pairs("APPID"@, ns.take(k as int)),
            vstd::utf8::is_ascii_chars("APPID"@),
        decreases v@.len() - k,
    {
        proof {
            assert(vstd::utf8::is_ascii_chars(v@[k as int]@));
            assert(ns[k as int] == v@[k as int]@);
        }
        writer.write_code_pair(&CodePair::new_str(0, "APPID"));
        writer.write_code_pair(&CodePair::new_string(2, &v[k].name));
        proof {
            assert(ns.take(k + 1) =~= ns.take(k as int).push(ns[k as int]));
            lemma_named_records_pairs_push("APPID"@, ns.take(k as int), ns[k as int]);
            assert(writer@ =~= base + spec_named_records_pairs("APPID"@, ns.take(k + 1)));
        }
        k = k + 1;
    }
    writer.write_code_pair(&CodePair::new_str(0, "ENDTAB"));
    proof {
        assert(ns.take(k as int) =~= ns);
        assert(writer@ =~= w0 + spec_table_block(
            "APPID"@,
            spec_named_records_pairs("APPID"@, ns),
            false,
        ));
    }
}

/// Writes the BLOCK_RECORD table block, or nothing when it is empty.
fn write_block_records_table(v: &Vec<BlockRecord>, writer: &mut CodePairAsciiWriter)
    requires
        old(writer).wf(),
        forall|i: int| 0 <= i < v@.len() ==> vstd::utf8::is_ascii_chars(#[trigger] v@[i]@),
    ensures
        final(writer).wf(),
        final(writer)@ == old(writer)@ + spec_table_block(
            "BLOCK_RECORD"@,
            spec_named_records_pairs("BLOCK_RECORD"@, v@.map_values(|t: BlockRecord| t@)),
            v@.len() == 0,
        ),
{
    let ghost w0 = old(writer)@;
    let ghost ns = v@.map_values(|t: BlockRecord| t@);
    proof {
        reveal_strlit("TABLE");
        reveal_strlit("ENDTAB");
        reveal_strlit("BLOCK_RECORD");
    }
    if v.len() == 0 {
        proof {
            assert(w0 + Seq::<PairV>::empty() =~= w0);
        }
        return ;
    }
    writer.write_code_pair(&CodePair::new_str(0, "TABLE"));
    writer.write_code_pair(&CodePair::new_str(2, "BLOCK_RECORD"));
    let ghost base = writer@;
    let mut k: usize = 0;
    proof {
        assert(ns.take(0) =~= Seq::<Seq<char>>::empty());
        assert(writer@ =~= base + spec_named_records_pairs("BLOCK_RECORD"@, ns.take(0)));
    }
    while k < v.len()
        invariant
            0 <= k <= v@.len(),
            ns == v@.map_values(|t: BlockRecord| t@),
            forall|i: int| 0 <= i < v@.len() ==> vstd::utf8::is_ascii_chars(#[trigger] v@[i]@),
            writer.wf(),
            writer@ == base + spec_named_records_pairs("BLOCK_RECORD"@, ns.take(k as int)),
            vstd::utf8::is_ascii_chars("BLOCK_RECORD"@),
        decreases v@.len() - k,
    {
        proof {
            assert(vstd::utf8::is_ascii_chars(v@[k as int]@));
            assert(ns[k as int] == v@[k as int]@);
        }
        writer.write_code_pair(&CodePair::new_str(0, "BLOCK_RECORD"));
        writer.write_code_pair(&CodePair::new_string(2, &v[k].name));
        proof {
            assert(ns.take(k + 1) =~= ns.take(k as int).push(ns[k as int]));
            lemma_named_records_pairs_push("BLOCK_RECORD"@, ns.take(k as int), ns[k as int]);
            assert(writer@ =~= base + spec_named_records_pairs("BLOCK_RECORD"@, ns.take(k + 1)));
        }
        k = k + 1;
    }
    writer.write_code_pair(&CodePair::new_str(0, "ENDTAB"));
    proof {
        assert(ns.take(k as int) =~= ns);
        assert(writer@ =~= w0 + spec_table_block(
            "BLOCK_RECORD"@,
            spec_named_records_pairs("BLOCK_RECORD"@, ns),
            false,
        ));
    }
}

/// Writes the DIMSTYLE table block, or nothing when it is empty.
fn write_dim_styles_table(v: &Vec<DimStyle>, writer: &mut CodePairAsciiWriter)
    requires
        old(writer).wf(),
        forall|i: int| 0 <= i < v@.len() ==> vstd::utf8::is_ascii_chars(#[trigger] v@[i]@),
    ensures
        final(writer).wf(),
        final(writer)@ == old(writer)@ + spec_table_block(
            "DIMSTYLE"@,
            spec_named_records_pairs("DIMSTYLE"@, v@.map_values(|t: DimStyle| t@)),
            v@.len() == 0,
        ),
{
    let ghost w0 = old(writer)@;
    let ghost ns = v@.map_values(|t: DimStyle| t@);
    proof {
        reveal_strlit("TABLE");
        reveal_strlit("ENDTAB");
        reveal_strlit("DIMSTYLE");
    }
    if v.len() == 0 {
        proof {
            assert(w0 + Seq::<PairV>::empty() =~= w0);
        }
        return ;
    }
    writer.write_code_pair(&CodePair::new_str(0, "TABLE"));
    writer.write_code_pair(&CodePair::new_str(2, "DIMSTYLE"));
    let ghost base = writer@;
    let mut k: usize = 0;
    proof {
        assert(ns.take(0) =~= Seq::<Seq<char>>::empty());
        assert(writer@ =~= base + spec_named_records_pairs("DIMSTYLE"@, ns.take(0)));
    }
    while k < v.len()
        invariant
            0 <= k <= v@.len(),
            ns == v@.map_values(|t: DimStyle| t@),
            forall|i: int| 0 <= i < v@.len() ==> vstd::utf8::is_ascii_chars(#[trigger] v@[i]@),
            writer.wf(),
            writer@ == base + spec_named_records_pairs("DIMSTYLE"@, ns.take(k as int)),
            vstd::utf8::is_ascii_chars("DIMSTYLE"@),
        decreases v@.len() - k,
    {
        proof {
            assert(vstd::utf8::is_ascii_chars(v@[k as int]@));
            assert(ns[k as int] == v@[k as int]@);
        }
        writer.write_code_pair(&CodePair::new_str(0, "DIMSTYLE"));
        writer.write_code_pair(&CodePair::new_string(2, &v[k].name));
        proof {
            assert(ns.take(k + 1) =~= ns.take(k as int).push(ns[k as int]));
            lemma_named_records_pairs_push("DIMSTYLE"@, ns.take(k as int), ns[k as int]);
            assert(writer@ =~= base + spec_named_records_pairs("DIMSTYLE"@, ns.take(k + 1)));
        }
        k = k + 1;
    }
    writer.write_code_pair(&CodePair::new_str(0, "ENDTAB"));
    proof {
        assert(ns.take(k as int) =~= ns);
        assert(writer@ =~= w0 + spec_table_block(
            "DIMSTYLE"@,
            spec_named_records_pairs("DIMSTYLE"@, ns),
            false,
        ));
    }
}

/// Writes the LTYPE table block, or nothing when it is empty.
fn write_line_types_table(v: &Vec<LineType>, writer: &mut CodePairAsciiWriter)
    requires
        old(writer).wf(),
        forall|i: int| 0 <= i < v@.len() ==> vstd::utf8::is_ascii_chars(#[trigger] v@[i]@),
    ensures
        final(writer).wf(),
        final(writer)@ == old(writer)@ + spec_table_block(
            "LTYPE"@,
            spec_named_records_pairs("LTYPE"@, v@.map_values(|t: LineType| t@)),
            v@.len() == 0,
        ),
{
    let ghost w0 = old(writer)@;
    let ghost ns = v@.map_values(|t: LineType| t@);
    proof {
        reveal_strlit("TABLE");
        reveal_strlit("ENDTAB");
        reveal_strlit("LTYPE");
    }
    if v.len() == 0 {
        proof {
            assert(w0 + Seq::<PairV>::empty() =~= w0);
        }
        return ;
    }
    writer.write_code_pair(&CodePair::new_str(0, "TABLE"));
    writer.write_code_pair(&CodePair::new_str(2, "LTYPE"));
    let ghost base = writer@;
    let mut k: usize = 0;
    proof {
        assert(ns.take(0) =~= Seq::<Seq<char>>::empty());
        assert(writer@ =~= base + spec_named_records_pairs("LTYPE"@, ns.take(0)));
    }
    while k < v.len()
        invariant
            0 <= k <= v@.len(),
            ns == v@.map_values(|t: LineType| t@),
            forall|i: int| 0 <= i < v@.len() ==> vstd::utf8::is_ascii_chars(#[trigger] v@[i]@),
            writer.wf(),
            writer@ == base + spec_named_records_pairs("LTYPE"@, ns.take(k as int)),
            vstd::utf8::is_ascii_chars("LTYPE"@),
        decreases v@.len() - k,
    {
        proof {
            assert(vstd::utf8::is_ascii_chars(v@[k as int]@));
            assert(ns[k as int] == v@[k as int]@);
        }
        writer.write_code_pair(&CodePair::new_str(0, "LTYPE"));
        writer.write_code_pair(&CodePair::new_string(2, &v[k].name));
        proof {
            assert(ns.take(k + 1) =~= ns.take(k as int).push(ns[k as int]));
            lemma_named_records_pairs_push("LTYPE"@, ns.take(k as int), ns[k as int]);
            assert(writer@ =~= base + spec_named_records_pairs("LTYPE"@, ns.take(k + 1)));
        }
        k = k + 1;
    }
    writer.write_code_pair(&CodePair::new_str(0, "ENDTAB"));
    proof {
        assert(ns.take(k as int) =~= ns);
        assert(writer@ =~= w0 + spec_table_block(
            "LTYPE"@,
            spec_named_records_pairs("LTYPE"@, ns),
            false,
        ));
    }
}

/// Writes the STYLE table block, or nothing when it is empty.
fn write_styles_table(v: &Vec<Style>, writer: &mut CodePairAsciiWriter)
    requires
        old(writer).wf(),
        forall|i: int| 0 <= i < v@.len() ==> vstd::utf8::is_ascii_chars(#[trigger] v@[i]@),
    ensures
        final(writer).wf(),
        final(writer)@ == old(writer)@ + spec_table_block(
            "STYLE"@,
            spec_named_records_pairs("STYLE"@, v@.map_values(|t: Style| t@)),
            v@.len() == 0,
        ),
{
    let ghost w0 = old(writer)@;
    let ghost ns = v@.map_values(|t: Style| t@);
    proof {
        reveal_strlit("TABLE");
        reveal_strlit("ENDTAB");
        reveal_strlit("STYLE");
    }
    if v.len() == 0 {
        proof {
            assert(w0 + Seq::<PairV>::empty() =~= w0);
        }
        return ;
    }
    writer.write_code_pair(&CodePair::new_str(0, "TABLE"));
    writer.write_code_pair(&CodePair::new_str(2, "STYLE"));
    let ghost base = writer@;
    let mut k: usize = 0;
    proof {
        assert(ns.take(0) =~= Seq::<Seq<char>>::empty());
        assert(writer@ =~= base + spec_named_records_pairs("STYLE"@, ns.take(0)));
    }
    while k < v.len()
        invariant
            0 <= k <= v@.len(),
            ns == v@.map_values(|t: Style| t@),
            forall|i: int| 0 <= i < v@.len() ==> vstd::utf8::is_ascii_chars(#[trigger] v@[i]@),
            writer.wf(),
            writer@ == base + spec_named_records_pairs("STYLE"@, ns.take(k as int)),
            vstd::utf8::is_ascii_chars("STYLE"@),
        decreases v@.len() - k,
    {
        proof {
            assert(vstd::utf8::is_ascii_chars(v@[k as int]@));
            assert(ns[k as int] == v@[k as int]@);
        }
        writer.write_code_pair(&CodePair::new_str(0, "STYLE"));
        writer.write_code_pair(&CodePair::new_string(2, &v[k].name));
        proof {
            assert(ns.take(k + 1) =~= ns.take(k as int).push(ns[k as int]));
            lemma_named_records_pairs_push("STYLE"@, ns.take(k as int), ns[k as int]);
            assert(writer@ =~= base + spec_named_records_pairs("STYLE"@, ns.take(k + 1)));
        }
        k = k + 1;
    }
    writer.write_code_pair(&CodePair::new_str(0, "ENDTAB"));
    proof {
        assert(ns.take(k as int) =~= ns);
        assert(writer@ =~= w0 + spec_table_block(
            "STYLE"@,
            spec_named_records_pairs("STYLE"@, ns),
            false,
        ));
    }
}

/// Writes the UCS table block, or nothing when it is empty.
fn write_ucs_table(v: &Vec<Ucs>, writer: &mut CodePairAsciiWriter)
    requires
        old(writer).wf(),
        forall|i: int| 0 <= i < v@.len() ==> vstd::utf8::is_ascii_chars(#[trigger] v@[i]@),
    ensures
        final(writer).wf(),
        final(writer)@ == old(writer)@ + spec_table_block(
            "UCS"@,
            spec_named_records_pairs("UCS"@, v@.map_values(|t: Ucs| t@)),
            v@.len() == 0,
        ),
{
    let ghost w0 = old(writer)@;
    let ghost ns = v@.map_values(|t: Ucs| t@);
    proof {
        reveal_strlit("TABLE");
        reveal_strlit("ENDTAB");
        reveal_strlit("UCS");
    }
    if v.len() == 0 {
        proof {
            assert(w0 + Seq::<PairV>::empty() =~= w0);
        }
        return ;
    }
    writer.write_code_pair(&CodePair::new_str(0, "TABLE"));
    writer.write_code_pair(&CodePair::new_str(2, "UCS"));
    let ghost base = writer@;
    let mut k: usize = 0;
    proof {
        assert(ns.take(0) =~= Seq::<Seq<char>>::empty());
        assert(writer@ =~= base + spec_named_records_pairs("UCS"@, ns.take(0)));
    }
    while k < v.len()
        invariant
            0 <= k <= v@.len(),
            ns == v@.map_values(|t: Ucs| t@),
            forall|i: int| 0 <= i < v@.len() ==> vstd::utf8::is_ascii_chars(#[trigger] v@[i]@),
            writer.wf(),
            writer@ == base + spec_named_records_pairs("UCS"@, ns.take(k as int)),
            vstd::utf8::is_ascii_chars("UCS"@),
        decreases v@.len() - k,
    {
        proof {
            assert(vstd::utf8::is_ascii_chars(v@[k as int]@));
            assert(ns[k as int] == v@[k as int]@);
        }
        writer.write_code_pair(&CodePair::new_str(0, "UCS"));
        writer.write_code_pair(&CodePair::new_string(2, &v[k].name));
        proof {
            assert(ns.take(k + 1) =~= ns.take(k as int).push(ns[k as int]));
            lemma_named_records_pairs_push("UCS"@, ns.take(k as int), ns[k as int]);
            assert(writer@ =~= base + spec_named_records_pairs("UCS"@, ns.take(k + 1)));
        }
        k = k + 1;
    }
    writer.write_code_pair(&CodePair::new_str(0, "ENDTAB"));
    proof {
        assert(ns.take(k as int) =~= ns);
        assert(writer@ =~= w0 + spec_table_block(
            "UCS"@,
            spec_named_records_pairs("UCS"@, ns),
            false,
        ));
    }
}

/// Writes the VIEW table block, or nothing when it is empty.
fn write_views_table(v: &Vec<ViewRecord>, writer: &mut CodePairAsciiWriter)
    requires
        old(writer).wf(),
        forall|i: int| 0 <= i < v@.len() ==> vstd::utf8::is_ascii_chars(#[trigger] v@[i]@),
    ensures
        final(writer).wf(),
        final(writer)@ == old(writer)@ + spec_table_block(
            "VIEW"@,
            spec_named_records_pairs("VIEW"@, v@.map_values(|t: ViewRecord| t@)),
            v@.len() == 0,
        ),
{
    let ghost w0 = old(writer)@;
    let ghost ns = v@.map_values(|t: ViewRecord| t@);
    proof {
        reveal_strlit("TABLE");
        reveal_strlit("ENDTAB");
        reveal_strlit("VIEW");
    }
    if v.len() == 0 {
        proof {
            assert(w0 + Seq::<PairV>::empty() =~= w0);
        }
        return ;
    }
    writer.write_code_pair(&CodePair::new_str(0, "TABLE"));
    writer.write_code_pair(&CodePair::new_str(2, "VIEW"));
    let ghost base = writer@;
    let mut k: usize = 0;
    proof {
        assert(ns.take(0) =~= Seq::<Seq<char>>::empty());
        assert(writer@ =~= base + spec_named_records_pairs("VIEW"@, ns.take(0)));
    }
    while k < v.len()
        invariant
            0 <= k <= v@.len(),
            ns == v@.map_values(|t: ViewRecord| t@),
            forall|i: int| 0 <= i < v@.len() ==> vstd::utf8::is_ascii_chars(#[trigger] v@[i]@),
            writer.wf(),
            writer@ == base + spec_named_records_pairs("VIEW"@, ns.take(k as int)),
            vstd::utf8::is_ascii_chars("VIEW"@),
        decreases v@.len() - k,
    {
        proof {
            assert(vstd::utf8::is_ascii_chars(v@[k as int]@));
            assert(ns[k as int] == v@[k as int]@);
        }
        writer.write_code_pair(&CodePair::new_str(0, "VIEW"));
        writer.write_code_pair(&CodePair::new_string(2, &v[k].name));
        proof {
            assert(ns.take(k + 1) =~= ns.take(k as int).push(ns[k as int]));
            lemma_named_records_pairs_push("VIEW"@, ns.take(k as int), ns[k as int]);
            assert(writer@ =~= base + spec_named_records_pairs("VIEW"@, ns.take(k + 1)));
        }
        k = k + 1;
    }
    writer.write_code_pair(&CodePair::new_str(0, "ENDTAB"));
    proof {
        assert(ns.take(k as int) =~= ns);
        assert(writer@ =~= w0 + spec_table_block(
            "VIEW"@,
            spec_named_records_pairs("VIEW"@, ns),
            false,
        ));
    }
}

/// Writes the VPORT table block, or nothing when it is empty.
fn write_view_ports_table(v: &Vec<ViewPort>, writer: &mut CodePairAsciiWriter)
    requires
        old(writer).wf(),
        forall|i: int| 0 <= i < v@.len() ==> vstd::utf8::is_ascii_chars(#[trigger] v@[i]@),
    ensures
        final(writer).wf(),
        final(writer)@ == old(writer)@ + spec_table_block(
            "VPORT"@,
            spec_named_records_pairs("VPORT"@, v@.map_values(|t: ViewPort| t@)),
            v@.len() == 0,
        ),
{
    let ghost w0 = old(writer)@;
    let ghost ns = v@.map_values(|t: ViewPort| t@);
    proof {
        reveal_strlit("TABLE");
        reveal_strlit("ENDTAB");
        reveal_strlit("VPORT");
    }
    if v.len() == 0 {
        proof {
            assert(w0 + Seq::<PairV>::empty() =~= w0);
        }
        return ;
    }
    writer.write_code_pair(&CodePair::new_str(0, "TABLE"));
    writer.write_code_pair(&CodePair::new_str(2, "VPORT"));
    let ghost base = writer@;
    let mut k: usize = 0;
    proof {
        assert(ns.take(0) =~= Seq::<Seq<char>>::empty());
        assert(writer@ =~= base + spec_named_records_pairs("VPORT"@, ns.take(0)));
    }
    while k < v.len()
        invariant
            0 <= k <= v@.len(),
            ns == v@.map_values(|t: ViewPort| t@),
            forall|i: int| 0 <= i < v@.len() ==> vstd::utf8::is_ascii_chars(#[trigger] v@[i]@),
            writer.wf(),
            writer@ == base + spec_named_records_pairs("VPORT"@, ns.take(k as int)),
            vstd::utf8::is_ascii_chars("VPORT"@),
        decreases v@.len() - k,
    {
        proof {
            assert(vstd::utf8::is_ascii_chars(v@[k as int]@));
            assert(ns[k as int] == v@[k as int]@);
        }
        writer.write_code_pair(&CodePair::new_str(0, "VPORT"));
        writer.write_code_pair(&CodePair::new_string(2, &v[k].name));
        proof {
            assert(ns.take(k + 1) =~= ns.take(k as int).push(ns[k as int]));
            lemma_named_records_pairs_push("VPORT"@, ns.take(k as int), ns[k as int]);
            assert(writer@ =~= base + spec_named_records_pairs("VPORT"@, ns.take(k + 1)));
        }
        k = k + 1;
    }
    writer.write_code_pair(&CodePair::new_str(0, "ENDTAB"));
    proof {
        assert(ns.take(k as int) =~= ns);
        assert(writer@ =~= w0 + spec_table_block(
            "VPORT"@,
            spec_named_records_pairs("VPORT"@, ns),
            false,
        ));
    }
}

/// Writes the LAYER table block, or nothing when it is empty.
fn write_layers_table(v: &Vec<Layer>, writer: &mut CodePairAsciiWriter)
    requires
        old(writer).wf(),
        forall|i: int| 0 <= i < v@.len() ==> layer_wf(#[trigger] v@[i]@),
    ensures
        final(writer).wf(),
        final(writer)@ == old(writer)@ + spec_table_block(
            "LAYER"@,
            spec_layers_pairs(v@.map_values(|t: Layer| t@)),
            v@.len() == 0,
        ),
{
    let ghost w0 = old(writer)@;
    let ghost ls = v@.map_values(|t: Layer| t@);
    proof {
        reveal_strlit("TABLE");
        reveal_strlit("ENDTAB");
        reveal_strlit("LAYER");
    }
    if v.len() == 0 {
        proof {
            assert(w0 + Seq::<PairV>::empty() =~= w0);
        }
        return ;
    }
    writer.write_code_pair(&CodePair::new_str(0, "TABLE"));
    writer.write_code_pair(&CodePair::new_str(2, "LAYER"));
    let ghost base = writer@;
    let mut k: usize = 0;
    proof {
        assert(ls.take(0) =~= Seq::<LayerV>::empty());
        assert(writer@ =~= base + spec_layers_pairs(ls.take(0)));
    }
    while k < v.len()
        invariant
            0 <= k <= v@.len(),
            ls == v@.map_values(|t: Layer| t@),
            forall|i: int| 0 <= i < v@.len() ==> layer_wf(#[trigger] v@[i]@),
            writer.wf(),
            writer@ == base + spec_layers_pairs(ls.take(k as int)),
            vstd::utf8::is_ascii_chars("LAYER"@),
        decreases v@.len() - k,
    {
        proof {
            assert(layer_wf(v@[k as int]@));
            assert(ls[k as int] == v@[k as int]@);
        }
        let ghost wk = writer@;
        writer.write_code_pair(&CodePair::new_str(0, "LAYER"));
        writer.write_code_pair(&CodePair::new_string(2, &v[k].name));
        writer.write_code_pair(
            &CodePair::new_short(62, v[k].color.get_writable_color_value(v[k].is_layer_on)),
        );
        writer.write_code_pair(&CodePair::new_string(6, &v[k].line_type_name));
        writer.write_code_pair(&CodePair::new_short(70, v[k].flags));
        proof {
            assert(writer@ =~= wk + spec_layer_record_pairs(ls[k as int]));
            assert(ls.take(k + 1) =~= ls.take(k as int).push(ls[k as int]));
            lemma_layers_pairs_push(ls.take(k as int), ls[k as int]);
            assert(writer@ =~= base + spec_layers_pairs(ls.take(k + 1)));
        }
        k = k + 1;
    }
    writer.write_code_pair(&CodePair::new_str(0, "ENDTAB"));
    proof {
        assert(ls.take(k as int) =~= ls);
        assert(writer@ =~= w0 + spec_table_block("LAYER"@, spec_layers_pairs(ls), false));
    }
}

/// Walks forward to the pair that ends the current section.
fn skip_section_at(pairs: &Vec<CodePair>, start: usize) -> (j: usize)
    requires
        pairs_wf(pairs@),
        start <= pairs@.len(),
    ensures
        j == spec_skip_section(pair_views(pairs@), start as int),
        start <= j <= pairs@.len(),
{
    let ghost ps = pair_views(pairs@);
    let mut j: usize = start;
    proof {
        reveal_strlit("ENDSEC");
    }
    while j < pairs.len()
        invariant
            start <= j <= pairs@.len(),
            ps == pair_views(pairs@),
            pairs_wf(pairs@),
            spec_skip_section(ps, start as int) == spec_skip_section(ps, j as int),
        decreases pairs@.len() - j,
    {
        proof {
            assert(ps[j as int] == pairs@[j as int]@);
        }
        if pairs[j].code == 0 {
            match &pairs[j].value {
                CodePairValue::Str(sv) => {
                    if crate::enums::str_eq(sv.as_str(), "ENDSEC") {
                        return j;
                    }
                },
                _ => {},
            }
        }
        j = j + 1;
    }
    j
}

/// Gathers the vertex entities after a polyline into it; one terminator
/// right after them is absorbed.
fn gather_vertices(poly: &mut crate::entities::Polyline, pairs: &Vec<CodePair>, i: &mut usize) -> (r:
    Result<(), DxfError>)
    requires
        pairs_wf(pairs@),
        *old(i) <= pairs@.len(),
    ensures
        match r {
            Ok(()) => spec_gather_vertices(pair_views(pairs@), *old(i) as int, old(poly)@) == Ok::<
                (PolylineV, int),
                DxfError,
            >((final(poly)@, *final(i) as int)) && *final(i) <= pairs@.len(),
            Err(e) => spec_gather_vertices(pair_views(pairs@), *old(i) as int, old(poly)@)
                == Err::<(PolylineV, int), DxfError>(e),
        },
        old(poly).wf() ==> final(poly).wf(),
{
    let ghost ps = pair_views(pairs@);
    loop
        invariant_except_break
            spec_gather_vertices(ps, *old(i) as int, old(poly)@) == spec_gather_vertices(
                ps,
                *i as int,
                poly@,
            ),
        invariant
            pairs_wf(pairs@),
            ps == pair_views(pairs@),
            *i <= pairs@.len(),
            old(poly).wf() ==> poly.wf(),
        ensures
            *i <= pairs@.len(),
            spec_gather_vertices(ps, *old(i) as int, old(poly)@) == Ok::<
                (PolylineV, int),
                DxfError,
            >((poly@, *i as int)),
        decreases pairs@.len() - *i,
    {
        let it0: usize = *i;
        proof {
            crate::entity::lemma_read_entity_bounds(ps, it0 as int);
        }
        match Entity::read(pairs, i) {
            Ok(Some(e2)) => {
                match e2.specific {
                    EntityType::Vertex(v) => {
                        let ghost pv = poly@;
                        poly.vertices.push(v);
                        proof {
                            assert(poly@.vertices =~= pv.vertices.push(v));
                        }
                    },
                    EntityType::Seqend(_) => {
                        break ;
                    },
                    _ => {
                        *i = it0;
                        break ;
                    },
                }
            },
            Ok(None) => {
                break ;
            },
            Err(e) => {
                return Err(e);
            },
        }
    }
    Ok(())
}

impl Drawing {
    /// Walks past an unrecognized table; the pair that ends it stays put.
    pub fn swallow_table(pairs: &Vec<CodePair>, i: &mut usize) -> (r: Result<(), DxfError>)
        requires
            pairs_wf(pairs@),
            *old(i) <= pairs@.len(),
        ensures
            match r {
                Ok(()) => spec_swallow_table(pair_views(pairs@), *old(i) as int) == Ok::<
                    int,
                    DxfError,
                >(*final(i) as int) && *final(i) <= pairs@.len(),
                Err(e) => spec_swallow_table(pair_views(pairs@), *old(i) as int) == Err::<
                    int,
                    DxfError,
                >(e),
            },
    {
        crate::tables::swallow_table(pairs, i)
    }

    /// Reads the body of the entities section.
    fn read_entities(pairs: &Vec<CodePair>, i: &mut usize) -> (r: Result<Vec<Entity>, DxfError>)
        requires
            pairs_wf(pairs@),
            *old(i) <= pairs@.len(),
        ensures
            match r {
                Ok(es) => spec_read_entities(pair_views(pairs@), *old(i) as int) == Ok::<
                    (Seq<EntityV>, int),
                    DxfError,
                >((es@.map_values(|e: Entity| e@), *final(i) as int)) && *final(i) <= pairs@.len()
                    && (forall|k: int| 0 <= k < es@.len() ==> (#[trigger] es@[k]).wf()),
                Err(e) => spec_read_entities(pair_views(pairs@), *old(i) as int) == Err::<
                    (Seq<EntityV>, int),
                    DxfError,
                >(e),
            },
    {
        let ghost ps = pair_views(pairs@);
        let mut out: Vec<Entity> = Vec::new();
        proof {
            assert(out@.map_values(|e: Entity| e@) =~= Seq::<EntityV>::empty());
        }
        loop
            invariant
                pairs_wf(pairs@),
                ps == pair_views(pairs@),
                *i <= pairs@.len(),
                forall|k: int| 0 <= k < out@.len() ==> (#[trigger] out@[k]).wf(),
                spec_read_entities(ps, *old(i) as int) == (match spec_read_entities(
                    ps,
                    *i as int,
                ) {
                    Err(e) => Err::<(Seq<EntityV>, int), DxfError>(e),
                    Ok((rest, k)) => Ok::<(Seq<EntityV>, int), DxfError>(
                        (out@.map_values(|e: Entity| e@) + rest, k),
                    ),
                }),
            decreases pairs@.len() - *i,
        {
            let ghost i0 = *i;
            proof {
                crate::entity::lemma_read_entity_bounds(ps, i0 as int);
            }
            let mut entity: Entity = match Entity::read(pairs, i) {
                Ok(Some(e)) => e,
                Ok(None) => {
                    proof {
                        assert(out@.map_values(|e: Entity| e@) + Seq::<EntityV>::empty()
                            =~= out@.map_values(|e: Entity| e@));
                    }
                    return Ok(out);
                },
                Err(e) => {
                    return Err(e);
                },
            };
            match &mut entity.specific {
                EntityType::Polyline(poly) => {
                    proof {
                        lemma_gather_vertices_bounds(ps, *i as int, poly@);
                    }
                    match gather_vertices(poly, pairs, i) {
                        Ok(()) => {},
                        Err(e) => {
                            return Err(e);
                        },
                    }
                },
                _ => {},
            }
            let ghost prev = out@;
            let ghost evf = entity@;
            out.push(entity);
            proof {
                assert(out@.map_values(|e: Entity| e@) =~= prev.map_values(|e: Entity| e@).push(
                    evf,
                ));
                match spec_read_entities(ps, *i as int) {
                    Err(_) => {},
                    Ok((rest, k)) => {
                        assert(prev.map_values(|e: Entity| e@) + (seq![evf] + rest)
                            =~= out@.map_values(|e: Entity| e@) + rest);
                    },
                }
            }
        }
    }

    /// Reads the body of the tables section.
    #[verifier::rlimit(100)]
    fn read_tables(&mut self, pairs: &Vec<CodePair>, i: &mut usize) -> (r: Result<(), DxfError>)
        requires
            pairs_wf(pairs@),
            *old(i) <= pairs@.len(),
        ensures
            match r {
                Ok(()) => spec_read_tables(pair_views(pairs@), *old(i) as int, old(self)@) == Ok::<
                    (DrawingV, int),
                    DxfError,
                >((final(self)@, *final(i) as int)) && *final(i) <= pairs@.len(),
                Err(e) => spec_read_tables(pair_views(pairs@), *old(i) as int, old(self)@) == Err::<
                    (DrawingV, int),
                    DxfError,
                >(e),
            },
            drawing_wf(*old(self)) ==> match r {
                Ok(()) => drawing_wf(*final(self)),
                Err(_) => true,
            },
            final(self)@.header == old(self)@.header,
            final(self)@.entities == old(self)@.entities,
    {
        let ghost ps = pair_views(pairs@);
        loop
            invariant
                pairs_wf(pairs@),
                ps == pair_views(pairs@),
                *i <= pairs@.len(),
                self@.header == old(self)@.header,
                self@.entities == old(self)@.entities,
                drawing_wf(*old(self)) ==> drawing_wf(*self),
                spec_read_tables(ps, *old(i) as int, old(self)@) == spec_read_tables(
                    ps,
                    *i as int,
                    self@,
                ),
            decreases pairs@.len() - *i,
        {
            if *i >= pairs.len() {
                return Err(DxfError::UnexpectedEndOfInput);
            }
            let idx: usize = *i;
            proof {
                assert(ps[idx as int] == pairs@[idx as int]@);
                assert(pairs@[idx as int].wf());
            }
            if pairs[idx].code != 0 {
                return Err(DxfError::UnexpectedCodePair);
            }
            let name: String = match &pairs[idx].value {
                CodePairValue::Str(sv) => sv.clone(),
                _ => {
                    return Err(DxfError::UnexpectedCodePair);
                },
            };
            proof {
                reveal_strlit("ENDSEC");
                reveal_strlit("TABLE");
                reveal_strlit("ENDTAB");
                reveal_strlit("LAYER");
                reveal_strlit("APPID");
                reveal_strlit("BLOCK_RECORD");
                reveal_strlit("DIMSTYLE");
                reveal_strlit("LTYPE");
                reveal_strlit("STYLE");
                reveal_strlit("UCS");
                reveal_strlit("VIEW");
                reveal_strlit("VPORT");
            }
            if crate::enums::str_eq(name.as_str(), "ENDSEC") {
                return Ok(());
            }
            if !crate::enums::str_eq(name.as_str(), "TABLE") {
                return Err(DxfError::UnexpectedCodePair);
            }
            if idx + 1 >= pairs.len() {
                return Err(DxfError::UnexpectedCodePair);
            }
            proof {
                assert(ps[idx + 1] == pairs@[idx + 1]@);
                assert(pairs@[idx + 1].wf());
            }
            if pairs[idx + 1].code != 2 {
                return Err(DxfError::UnexpectedCodePair);
            }
            let tn: String = match &pairs[idx + 1].value {
                CodePairValue::Str(sv) => sv.clone(),
                _ => {
                    return Err(DxfError::UnexpectedCodePair);
                },
            };
            if crate::enums::str_eq(tn.as_str(), "LAYER") {
                let mut j: usize = idx + 2;
                proof {
                    crate::tables::lemma_read_layers_bounds(ps, idx + 2);
                }
                match crate::tables::read_layers(pairs, &mut j) {
                    Ok(ls) => {
                        self.layers = ls;
                        proof {
                            assert(forall|k: int|
                                0 <= k < self.layers@.len() ==> layer_wf(
                                    #[trigger] self.layers@[k]@,
                                ));
                            match spec_read_layers(ps, idx + 2) {
                                Ok((ls2, j2)) => {
                                    assert(self@.layers =~= ls2);
                                },
                                Err(_) => {},
                            }
                        }
                        *i = j;
                    },
                    Err(e) => {
                        return Err(e);
                    },
                }
                continue ;
            }
                if crate::enums::str_eq(tn.as_str(), "APPID") {
                    let mut j: usize = idx + 2;
                    proof {
                        lemma_read_named_bounds(ps, idx + 2, "APPID"@);
                    }
                    match crate::tables::read_named_records(pairs, &mut j, "APPID") {
                        Ok(names) => {
                            let ghost nsv = names@;
                            self.app_ids = crate::tables::appids_from_names(names);
                            proof {
                                assert(forall|k: int|
                                    0 <= k < self.app_ids@.len()
                                        ==> vstd::utf8::is_ascii_chars(
                                        (#[trigger] self.app_ids@[k])@,
                                    ));
                                match spec_read_named(ps, idx + 2, "APPID"@) {
                                    Ok((ns2, j2)) => {
                                        assert(self@.app_ids =~= ns2);
                                    },
                                    Err(_) => {},
                                }
                            }
                            *i = j;
                        },
                        Err(e) => {
                            return Err(e);
                        },
                    }
                    continue ;
                }
                if crate::enums::str_eq(tn.as_str(), "BLOCK_RECORD") {
                    let mut j: usize = idx + 2;
                    proof {
                        lemma_read_named_bounds(ps, idx + 2, "BLOCK_RECORD"@);
                    }
                    match crate::tables::read_named_records(pairs, &mut j, "BLOCK_RECORD") {
                        Ok(names) => {
                            let ghost nsv = names@;
                            self.block_records = crate::tables::blockrecords_from_names(names);
                            proof {
                                assert(forall|k: int|
                                    0 <= k < self.block_records@.len()
                                        ==> vstd::utf8::is_ascii_chars(
                                        (#[trigger] self.block_records@[k])@,
                                    ));
                                match spec_read_named(ps, idx + 2, "BLOCK_RECORD"@) {
                                    Ok((ns2, j2)) => {
                                        assert(self@.block_records =~= ns2);
                                    },
                                    Err(_) => {},
                                }
                            }
                            *i = j;
                        },
                        Err(e) => {
                            return Err(e);
                        },
                    }
                    continue ;
                }
                if crate::enums::str_eq(tn.as_str(), "DIMSTYLE") {
                    let mut j: usize = idx + 2;
                    proof {
                        lemma_read_named_bounds(ps, idx + 2, "DIMSTYLE"@);
                    }
                    match crate::tables::read_named_records(pairs, &mut j, "DIMSTYLE") {
                        Ok(names) => {
                            let ghost nsv = names@;
                            self.dim_styles = crate::tables::dimstyles_from_names(names);
                            proof {
                                assert(forall|k: int|
                                    0 <= k < self.dim_styles@.len()
                                        ==> vstd::utf8::is_ascii_chars(
                                        (#[trigger] self.dim_styles@[k])@,
                                    ));
                                match spec_read_named(ps, idx + 2, "DIMSTYLE"@) {
                                    Ok((ns2, j2)) => {
                                        assert(self@.dim_styles =~= ns2);
                                    },
                                    Err(_) => {},
                                }
                            }
                            *i = j;
                        },
                        Err(e) => {
                            return Err(e);
                        },
                    }
                    continue ;
                }
                if crate::enums::str_eq(tn.as_str(), "LTYPE") {
                    let mut j: usize = idx + 2;
                    proof {
                        lemma_read_named_bounds(ps, idx + 2, "LTYPE"@);
                    }
                    match crate::tables::read_named_records(pairs, &mut j, "LTYPE") {
                        Ok(names) => {
                            let ghost nsv = names@;
                            self.line_types = crate::tables::linetypes_from_names(names);
                            proof {
                                assert(forall|k: int|
                                    0 <= k < self.line_types@.len()
                                        ==> vstd::utf8::is_ascii_chars(
                                        (#[trigger] self.line_types@[k])@,
                                    ));
                                match spec_read_named(ps, idx + 2, "LTYPE"@) {
                                    Ok((ns2, j2)) => {
                                        assert(self@.line_types =~= ns2);
                                    },
                                    Err(_) => {},
                                }
                            }
                            *i = j;
                        },
                        Err(e) => {
                            return Err(e);
                        },
                    }
                    continue ;
                }
                if crate::enums::str_eq(tn.as_str(), "STYLE") {
                    let mut j: usize = idx + 2;
                    proof {
                        lemma_read_named_bounds(ps, idx + 2, "STYLE"@);
                    }
                    match crate::tables::read_named_records(pairs, &mut j, "STYLE") {
                        Ok(names) => {
                            let ghost nsv = names@;
                            self.styles = crate::tables::styles_from_names(names);
                            proof {
                                assert(forall|k: int|
                                    0 <= k < self.styles@.len()
                                        ==> vstd::utf8::is_ascii_chars(
                                        (#[trigger] self.styles@[k])@,
                                    ));
                                match spec_read_named(ps, idx + 2, "STYLE"@) {
                                    Ok((ns2, j2)) => {
                                        assert(self@.styles =~= ns2);
                                    },
                                    Err(_) => {},
                                }
                            }
                            *i = j;
                        },
                        Err(e) => {
                            return Err(e);
                        },
                    }
                    continue ;
                }
                if crate::enums::str_eq(tn.as_str(), "UCS") {
                    let mut j: usize = idx + 2;
                    proof {
                        lemma_read_named_bounds(ps, idx + 2, "UCS"@);
                    }
                    match crate::tables::read_named_records(pairs, &mut j, "UCS") {
                        Ok(names) => {
                            let ghost nsv = names@;
                            self.ucs = crate::tables::ucss_from_names(names);
                            proof {
                                assert(forall|k: int|
                                    0 <= k < self.ucs@.len()
                                        ==> vstd::utf8::is_ascii_chars(
                                        (#[trigger] self.ucs@[k])@,
                                    ));
                                match spec_read_named(ps, idx + 2, "UCS"@) {
                                    Ok((ns2, j2)) => {
                                        assert(self@.ucs =~= ns2);
                                    },
                                    Err(_) => {},
                                }
                            }
                            *i = j;
                        },
                        Err(e) => {
                            return Err(e);
                        },
                    }
                    continue ;
                }
                if crate::enums::str_eq(tn.as_str(), "VIEW") {
                    let mut j: usize = idx + 2;
                    proof {
                        lemma_read_named_bounds(ps, idx + 2, "VIEW"@);
                    }
                    match crate::tables::read_named_records(pairs, &mut j, "VIEW") {
                        Ok(names) => {
                            let ghost nsv = names@;
                            self.views = crate::tables::views_from_names(names);
                            proof {
                                assert(forall|k: int|
                                    0 <= k < self.views@.len()
                                        ==> vstd::utf8::is_ascii_chars(
                                        (#[trigger] self.views@[k])@,
                                    ));
                                match spec_read_named(ps, idx + 2, "VIEW"@) {
                                    Ok((ns2, j2)) => {
                                        assert(self@.views =~= ns2);
                                    },
                                    Err(_) => {},
                                }
                            }
                            *i = j;
                        },
                        Err(e) => {
                            return Err(e);
                        },
                    }
                    continue ;
                }
                if crate::enums::str_eq(tn.as_str(), "VPORT") {
                    let mut j: usize = idx + 2;
                    proof {
                        lemma_read_named_bounds(ps, idx + 2, "VPORT"@);
                    }
                    match crate::tables::read_named_records(pairs, &mut j, "VPORT") {
                        Ok(names) => {
                            let ghost nsv = names@;
                            self.view_ports = crate::tables::viewports_from_names(names);
                            proof {
                                assert(forall|k: int|
                                    0 <= k < self.view_ports@.len()
                                        ==> vstd::utf8::is_ascii_chars(
                                        (#[trigger] self.view_ports@[k])@,
                                    ));
                                match spec_read_named(ps, idx + 2, "VPORT"@) {
                                    Ok((ns2, j2)) => {
                                        assert(self@.view_ports =~= ns2);
                                    },
                                    Err(_) => {},
                                }
                            }
                            *i = j;
                        },
                        Err(e) => {
                            return Err(e);
                        },
                    }
                    continue ;
                }
            let mut j: usize = idx + 2;
            proof {
                crate::tables::lemma_swallow_table_bounds(ps, idx + 2);
            }
            match crate::tables::swallow_table(pairs, &mut j) {
                Ok(()) => {},
                Err(e) => {
                    return Err(e);
                },
            }
            proof {
                assert(ps[j as int] == pairs@[j as int]@);
            }
            let mut consumed: bool = false;
            if j < pairs.len() {
                match &pairs[j].value {
                    CodePairValue::Str(sv) => {
                        if crate::enums::str_eq(sv.as_str(), "ENDTAB") {
                            consumed = true;
                        }
                    },
                    _ => {},
                }
            }
            if consumed {
                *i = j + 1;
            } else {
                *i = j;
            }
        }
    }

    /// Reads sections into this drawing until the end-of-file pair or the
    /// end of the run.
    #[verifier::rlimit(100)]
    fn read_sections(&mut self, pairs: &Vec<CodePair>, i: &mut usize) -> (r: Result<(), DxfError>)
        requires
            pairs_wf(pairs@),
            *old(i) <= pairs@.len(),
        ensures
            match r {
                Ok(()) => spec_read_sections(pair_views(pairs@), *old(i) as int, old(self)@)
                    == Ok::<(DrawingV, int), DxfError>((final(self)@, *final(i) as int))
                    && *final(i) <= pairs@.len(),
                Err(e) => spec_read_sections(pair_views(pairs@), *old(i) as int, old(self)@)
                    == Err::<(DrawingV, int), DxfError>(e),
            },
            drawing_wf(*old(self)) ==> match r {
                Ok(()) => drawing_wf(*final(self)),
                Err(_) => true,
            },
    {
        let ghost ps = pair_views(pairs@);
        loop
            invariant
                pairs_wf(pairs@),
                ps == pair_views(pairs@),
                *i <= pairs@.len(),
                drawing_wf(*old(self)) ==> drawing_wf(*self),
                spec_read_sections(ps, *old(i) as int, old(self)@) == spec_read_sections(
                    ps,
                    *i as int,
                    self@,
                ),
            decreases pairs@.len() - *i,
        {
            if *i >= pairs.len() {
                return Ok(());
            }
            let idx: usize = *i;
            proof {
                assert(ps[idx as int] == pairs@[idx as int]@);
                assert(pairs@[idx as int].wf());
            }
            if pairs[idx].code != 0 {
                return Err(DxfError::UnexpectedCodePair);
            }
            let name: String = match &pairs[idx].value {
                CodePairValue::Str(sv) => sv.clone(),
                _ => {
                    return Err(DxfError::UnexpectedCodePair);
                },
            };
            proof {
                reveal_strlit("EOF");
                reveal_strlit("SECTION");
                reveal_strlit("ENDSEC");
                reveal_strlit("HEADER");
                reveal_strlit("ENTITIES");
                reveal_strlit("TABLES");
            }
            if crate::enums::str_eq(name.as_str(), "EOF") {
                return Ok(());
            }
            if !crate::enums::str_eq(name.as_str(), "SECTION") {
                return Err(DxfError::UnexpectedCodePair);
            }
            if idx + 1 >= pairs.len() {
                return Err(DxfError::UnexpectedCodePair);
            }
            proof {
                assert(ps[idx + 1] == pairs@[idx + 1]@);
                assert(pairs@[idx + 1].wf());
            }
            if pairs[idx + 1].code != 2 {
                return Err(DxfError::UnexpectedCodePair);
            }
            let sn: String = match &pairs[idx + 1].value {
                CodePairValue::Str(sv) => sv.clone(),
                _ => {
                    return Err(DxfError::UnexpectedCodePair);
                },
            };
            let mut j: usize = idx + 2;
            proof {
                crate::header::lemma_header_vars_bounds(ps, idx + 2, spec_default_header());
                lemma_read_entities_bounds(ps, idx + 2);
                lemma_read_tables_bounds(ps, idx + 2, self@);
                lemma_skip_section_bounds(ps, idx + 2);
            }
            if crate::enums::str_eq(sn.as_str(), "HEADER") {
                match Header::read(pairs, &mut j) {
                    Ok(h) => {
                        self.header = h;
                    },
                    Err(e) => {
                        return Err(e);
                    },
                }
            } else if crate::enums::str_eq(sn.as_str(), "ENTITIES") {
                match Drawing::read_entities(pairs, &mut j) {
                    Ok(es) => {
                        self.entities = es;
                        proof {
                            match spec_read_entities(ps, idx + 2) {
                                Ok((es2, j2)) => {
                                    assert(self@.entities =~= es2);
                                },
                                Err(_) => {},
                            }
                        }
                    },
                    Err(e) => {
                        return Err(e);
                    },
                }
            } else if crate::enums::str_eq(sn.as_str(), "TABLES") {
                match self.read_tables(pairs, &mut j) {
                    Ok(()) => {},
                    Err(e) => {
                        return Err(e);
                    },
                }
            } else {
                j = skip_section_at(pairs, idx + 2);
            }
            if j >= pairs.len() {
                return Err(DxfError::UnexpectedCodePair);
            }
            proof {
                assert(ps[j as int] == pairs@[j as int]@);
                assert(pairs@[j as int].wf());
            }
            if pairs[j].code != 0 {
                return Err(DxfError::UnexpectedCodePair);
            }
            let ename: String = match &pairs[j].value {
                CodePairValue::Str(sv) => sv.clone(),
                _ => {
                    return Err(DxfError::UnexpectedCodePair);
                },
            };
            if !crate::enums::str_eq(ename.as_str(), "ENDSEC") {
                return Err(DxfError::UnexpectedCodePair);
            }
            *i = j + 1;
        }
    }

    /// Loads a drawing from the bytes of an ASCII DXF file.
    pub fn load(input: &[u8]) -> (r: Result<Drawing, DxfError>)
        ensures
            match r {
                Ok(d) => spec_load(input@) == Ok::<DrawingV, DxfError>(d@) && drawing_wf(d),
                Err(e) => spec_load(input@) == Err::<DrawingV, DxfError>(e),
            },
    {
        let pairs: Vec<CodePair> = match crate::lexer::lex(input) {
            Ok(ps) => ps,
            Err(e) => {
                return Err(e);
            },
        };
        let mut drawing: Drawing = Drawing::new();
        let mut i: usize = 0;
        match drawing.read_sections(&pairs, &mut i) {
            Ok(()) => Ok(drawing),
            Err(e) => Err(e),
        }
    }

    /// Writes the tables section.
    fn write_tables(&self, writer: &mut CodePairAsciiWriter)
        requires
            drawing_wf(*self),
            old(writer).wf(),
        ensures
            final(writer).wf(),
            final(writer)@ == old(writer)@ + spec_tables_section_pairs(self@),
    {
        let ghost w0 = old(writer)@;
        proof {
            reveal_strlit("SECTION");
            reveal_strlit("TABLES");
            reveal_strlit("ENDSEC");
        }
        writer.write_code_pair(&CodePair::new_str(0, "SECTION"));
        writer.write_code_pair(&CodePair::new_str(2, "TABLES"));
        write_app_ids_table(&self.app_ids, writer);
        write_block_records_table(&self.block_records, writer);
        write_dim_styles_table(&self.dim_styles, writer);
        write_layers_table(&self.layers, writer);
        write_line_types_table(&self.line_types, writer);
        write_styles_table(&self.styles, writer);
        write_ucs_table(&self.ucs, writer);
        write_views_table(&self.views, writer);
        write_view_ports_table(&self.view_ports, writer);
        writer.write_code_pair(&CodePair::new_str(0, "ENDSEC"));
        proof {
            let s0 = seq![pt(0, "SECTION"@), pt(2, "TABLES"@)];
            let t1 = spec_table_block(
                "APPID"@,
                spec_named_records_pairs("APPID"@, self@.app_ids),
                self@.app_ids.len() == 0,
            );
            let t2 = spec_table_block(
                "BLOCK_RECORD"@,
                spec_named_records_pairs("BLOCK_RECORD"@, self@.block_records),
                self@.block_records.len() == 0,
            );
            let t3 = spec_table_block(
                "DIMSTYLE"@,
                spec_named_records_pairs("DIMSTYLE"@, self@.dim_styles),
                self@.dim_styles.len() == 0,
            );
            let t4 = spec_table_block("LAYER"@, spec_layers_pairs(self@.layers), self@.layers.len() == 0);
            let t5 = spec_table_block(
                "LTYPE"@,
                spec_named_records_pairs("LTYPE"@, self@.line_types),
                self@.line_types.len() == 0,
            );
            let t6 = spec_table_block(
                "STYLE"@,
                spec_named_records_pairs("STYLE"@, self@.styles),
                self@.styles.len() == 0,
            );
            let t7 = spec_table_block("UCS"@, spec_named_records_pairs("UCS"@, self@.ucs), self@.ucs.len() == 0);
            let t8 = spec_table_block(
                "VIEW"@,
                spec_named_records_pairs("VIEW"@, self@.views),
                self@.views.len() == 0,
            );
            let t9 = spec_table_block(
                "VPORT"@,
                spec_named_records_pairs("VPORT"@, self@.view_ports),
                self@.view_ports.len() == 0,
            );
            let send = seq![pt(0, "ENDSEC"@)];
            assert(writer@ =~= w0 + s0 + t1 + t2 + t3 + t4 + t5 + t6 + t7 + t8 + t9 + send);
            vstd::seq_lib::lemma_concat_associative(w0, s0, t1);
            vstd::seq_lib::lemma_concat_associative(w0, s0 + t1, t2);
            vstd::seq_lib::lemma_concat_associative(w0, s0 + t1 + t2, t3);
            vstd::seq_lib::lemma_concat_associative(w0, s0 + t1 + t2 + t3, t4);
            vstd::seq_lib::lemma_concat_associative(w0, s0 + t1 + t2 + t3 + t4, t5);
            vstd::seq_lib::lemma_concat_associative(w0, s0 + t1 + t2 + t3 + t4 + t5, t6);
            vstd::seq_lib::lemma_concat_associative(w0, s0 + t1 + t2 + t3 + t4 + t5 + t6, t7);
            vstd::seq_lib::lemma_concat_associative(w0, s0 + t1 + t2 + t3 + t4 + t5 + t6 + t7, t8);
            vstd::seq_lib::lemma_concat_associative(
                w0,
                s0 + t1 + t2 + t3 + t4 + t5 + t6 + t7 + t8,
                t9,
            );
            vstd::seq_lib::lemma_concat_associative(
                w0,
                s0 + t1 + t2 + t3 + t4 + t5 + t6 + t7 + t8 + t9,
                send,
            );
            assert(spec_tables_section_pairs(self@) == s0 + t1 + t2 + t3 + t4 + t5 + t6 + t7 + t8
                + t9 + send);
        }
    }

    /// Writes the entities section.
    #[verifier::rlimit(100)]
    fn write_entities(&self, write_handles: bool, writer: &mut CodePairAsciiWriter)
        requires
            drawing_wf(*self),
            old(writer).wf(),
        ensures
            final(writer).wf(),
            final(writer)@ == old(writer)@ + spec_entities_section_pairs(
                self@.entities,
                self@.header.version,
                write_handles,
            ),
    {
        let ghost w0 = old(writer)@;
        let ghost es = self@.entities;
        let version: AcadVersion = self.header.version;
        proof {
            reveal_strlit("SECTION");
            reveal_strlit("ENTITIES");
            reveal_strlit("ENDSEC");
        }
        writer.write_code_pair(&CodePair::new_str(0, "SECTION"));
        writer.write_code_pair(&CodePair::new_str(2, "ENTITIES"));
        let ghost base = writer@;
        let mut k: usize = 0;
        proof {
            assert(es.take(0) =~= Seq::<EntityV>::empty());
            assert(writer@ =~= base + spec_entities_pairs(es.take(0), version, write_handles));
        }
        while k < self.entities.len()
            invariant
                0 <= k <= self.entities@.len(),
                es == self@.entities,
                version == self@.header.version,
                drawing_wf(*self),
                writer.wf(),
                writer@ == base + spec_entities_pairs(es.take(k as int), version, write_handles),
            decreases self.entities@.len() - k,
        {
            proof {
                assert((#[trigger] self.entities@[k as int]).wf());
                assert(es[k as int] == self.entities@[k as int]@);
            }
            self.entities[k].write(version, write_handles, writer);
            proof {
                assert(es.take(k + 1) =~= es.take(k as int).push(es[k as int]));
                lemma_entities_pairs_push(es.take(k as int), es[k as int], version, write_handles);
                assert(writer@ =~= base + spec_entities_pairs(
                    es.take(k + 1),
                    version,
                    write_handles,
                ));
            }
            k = k + 1;
        }
        writer.write_code_pair(&CodePair::new_str(0, "ENDSEC"));
        proof {
            assert(es.take(k as int) =~= es);
            let s0 = seq![pt(0, "SECTION"@), pt(2, "ENTITIES"@)];
            let send = seq![pt(0, "ENDSEC"@)];
            assert(writer@ =~= w0 + s0 + spec_entities_pairs(es, version, write_handles) + send);
            vstd::seq_lib::lemma_concat_associative(
                w0,
                s0,
                spec_entities_pairs(es, version, write_handles),
            );
            vstd::seq_lib::lemma_concat_associative(
                w0,
                s0 + spec_entities_pairs(es, version, write_handles),
                send,
            );
        }
    }

    /// Saves the drawing to the bytes of an ASCII DXF file.
    pub fn save(&self) -> (r: Vec<u8>)
        requires
            drawing_wf(*self),
        ensures
            r@ == spec_save(self@),
    {
        let mut writer: CodePairAsciiWriter = CodePairAsciiWriter::new();
        self.header.write(&mut writer);
        let write_handles: bool = self.header.version.at_least(AcadVersion::R13)
            || self.header.handles_enabled;
        self.write_tables(&mut writer);
        self.write_entities(write_handles, &mut writer);
        proof {
            reveal_strlit("EOF");
        }
        writer.write_code_pair(&CodePair::new_str(0, "EOF"));
        proof {
            let h = spec_header_pairs(self@.header);
            let t = spec_tables_section_pairs(self@);
            let e = spec_entities_section_pairs(
                self@.entities,
                self@.header.version,
                spec_write_handles(self@.header),
            );
            let f = seq![pt(0, "EOF"@)];
            assert(writer@ =~= Seq::<PairV>::empty() + h + t + e + f);
            assert(Seq::<PairV>::empty() + h =~= h);
            vstd::seq_lib::lemma_concat_associative(h, t, e);
            assert(writer@ =~= h + t + e + f);
        }
        writer.get_bytes()
    }
}


/// Tests one real value for well-formedness.
fn double_ok(d: &Double) -> (r: bool)
    ensures
        r == d.wf(),
{
    d.frac < crate::double::FRAC_ONE && !(d.neg && d.units == 0 && d.frac == 0)
}

/// Tests a point for well-formedness.
fn point_ok(p: &crate::point::Point) -> (r: bool)
    ensures
        r == p.wf(),
{
    double_ok(&p.x) && double_ok(&p.y) && double_ok(&p.z)
}

/// Tests a vector for well-formedness.
fn vector_ok(v: &crate::point::Vector) -> (r: bool)
    ensures
        r == v.wf(),
{
    double_ok(&v.x) && double_ok(&v.y) && double_ok(&v.z)
}

/// Tests a run of real values for well-formedness.
fn doubles_ok(v: &Vec<Double>) -> (r: bool)
    ensures
        r == (forall|i: int| 0 <= i < v@.len() ==> (#[trigger] v@[i]).wf()),
{
    let mut k: usize = 0;
    while k < v.len()
        invariant
            0 <= k <= v@.len(),
            forall|i: int| 0 <= i < k ==> (#[trigger] v@[i]).wf(),
        decreases v@.len() - k,
    {
        if !double_ok(&v[k]) {
            return false;
        }
        k = k + 1;
    }
    true
}

/// Tests an entity for storability.
#[verifier::loop_isolation(false)]
fn entity_ok(e: &Entity) -> (r: bool)
    ensures
        r == e.wf(),
{
    let common_ok: bool = e.common.layer.as_str().is_ascii()
        && e.common.line_type_name.as_str().is_ascii() && double_ok(&e.common.elevation)
        && double_ok(&e.common.line_type_scale);
    if !common_ok {
        return false;
    }
    match &e.specific {
        EntityType::Line(l) => {
            let ok: bool = point_ok(&l.p1) && point_ok(&l.p2) && double_ok(&l.thickness)
                && vector_ok(&l.extrusion_direction);
            proof {
                assert(ok == l.wf());
                assert(e.specific.wf() == l.wf());
            }
            ok
        },
        EntityType::Circle(c) => {
            let ok: bool = point_ok(&c.center) && double_ok(&c.radius) && double_ok(&c.thickness);
            proof {
                assert(ok == e.specific.wf());
            }
            ok
        },
        EntityType::ModelPoint(p) => {
            let ok: bool = point_ok(&p.location) && double_ok(&p.thickness);
            proof {
                assert(ok == e.specific.wf());
            }
            ok
        },
        EntityType::Polyline(p) => {
            if !point_ok(&p.location) {
                return false;
            }
            let mut k: usize = 0;
            while k < p.vertices.len()
                invariant
                    0 <= k <= p.vertices@.len(),
                    forall|i: int| 0 <= i < k ==> (#[trigger] p.vertices@[i]).wf(),
                decreases p.vertices@.len() - k,
            {
                let v = &p.vertices[k];
                if !(point_ok(&v.location) && double_ok(&v.bulge)) {
                    return false;
                }
                k = k + 1;
            }
            proof {
                assert(e.specific.wf());
            }
            true
        },
        EntityType::Vertex(v) => {
            let ok: bool = point_ok(&v.location) && double_ok(&v.bulge);
            proof {
                assert(ok == e.specific.wf());
            }
            ok
        },
        EntityType::Seqend(_) => true,
        EntityType::Leader(l) => {
            let mut k: usize = 0;
            while k < l.vertices.len()
                invariant
                    0 <= k <= l.vertices@.len(),
                    forall|i: int| 0 <= i < k ==> (#[trigger] l.vertices@[i]).wf(),
                decreases l.vertices@.len() - k,
            {
                if !point_ok(&l.vertices[k]) {
                    return false;
                }
                k = k + 1;
            }
            let ok: bool = doubles_ok(&l.vertices_x) && doubles_ok(&l.vertices_y) && doubles_ok(
                &l.vertices_z,
            );
            proof {
                assert(ok == e.specific.wf());
            }
            ok
        },
        EntityType::MText(m) => {
            let scalars_ok: bool = point_ok(&m.insertion_point) && double_ok(
                &m.initial_text_height,
            ) && double_ok(&m.reference_rectangle_width) && vector_ok(&m.extrusion_direction)
                && vector_ok(&m.x_axis_direction) && double_ok(&m.horizontal_width) && double_ok(
                &m.vertical_height,
            ) && double_ok(&m.rotation_angle) && double_ok(&m.line_spacing_factor) && double_ok(
                &m.fill_box_scale,
            ) && double_ok(&m.column_width) && double_ok(&m.column_gutter);
            let texts_ok: bool = m.text.as_str().is_ascii() && m.text_style_name.as_str().is_ascii()
                && m.background_color_name.as_str().is_ascii();
            if !(scalars_ok && texts_ok) {
                return false;
            }
            let mut k: usize = 0;
            while k < m.extended_text.len()
                invariant
                    0 <= k <= m.extended_text@.len(),
                    forall|i: int|
                        0 <= i < k ==> vstd::utf8::is_ascii_chars(
                            (#[trigger] m.extended_text@[i])@,
                        ),
                decreases m.extended_text@.len() - k,
            {
                if !m.extended_text[k].as_str().is_ascii() {
                    proof {
                        assert(m@.extended_text[k as int] == m.extended_text@[k as int]@);
                        assert(!crate::entities::mtext_wf(m@));
                    }
                    return false;
                }
                k = k + 1;
            }
            proof {
                assert forall|i: int|
                    0 <= i < m@.extended_text.len() implies vstd::utf8::is_ascii_chars(
                    #[trigger] m@.extended_text[i],
                ) by {
                    assert(m@.extended_text[i] == m.extended_text@[i]@);
                }
            }
            let ok: bool = doubles_ok(&m.column_heights);
            proof {
                assert(m@.column_heights == m.column_heights@);
                if ok {
                    assert(forall|i: int|
                        0 <= i < m@.column_heights.len() ==> (
                        #[trigger] m@.column_heights[i]).wf());
                    assert(crate::entities::mtext_wf(m@));
                } else {
                    assert(!crate::entities::mtext_wf(m@));
                }
                assert(ok == e.specific.wf());
            }
            ok
        },
    }
}

/// Tests a run of names for being ASCII.
fn names_ok_appid(v: &Vec<AppId>) -> (r: bool)
    ensures
        r == (forall|i: int|
            0 <= i < v@.len() ==> vstd::utf8::is_ascii_chars((#[trigger] v@[i])@)),
{
    let mut k: usize = 0;
    while k < v.len()
        invariant
            0 <= k <= v@.len(),
            forall|i: int| 0 <= i < k ==> vstd::utf8::is_ascii_chars((#[trigger] v@[i])@),
        decreases v@.len() - k,
    {
        if !v[k].name.as_str().is_ascii() {
            return false;
        }
        k = k + 1;
    }
    true
}

impl Drawing {
    /// Tests the drawing for storability: every name ASCII and every real
    /// value well formed, which is exactly what `save` asks for.
    #[verifier::rlimit(100)]
    #[verifier::loop_isolation(false)]
    pub fn is_storable(&self) -> (r: bool)
        ensures
            r == drawing_wf(*self),
    {
        let header_ok: bool = self.header.current_layer.as_str().is_ascii() && point_ok(
            &self.header.insertion_base,
        ) && double_ok(&self.header.line_type_scale);
        if !header_ok {
            return false;
        }
        let mut k: usize = 0;
        while k < self.entities.len()
            invariant
                0 <= k <= self.entities@.len(),
                forall|i: int| 0 <= i < k ==> (#[trigger] self.entities@[i]).wf(),
            decreases self.entities@.len() - k,
        {
            if !entity_ok(&self.entities[k]) {
                proof {
                    assert(!(#[trigger] self.entities@[k as int]).wf());
                    assert(!drawing_wf(*self));
                }
                return false;
            }
            k = k + 1;
        }
        let mut k2: usize = 0;
        while k2 < self.layers.len()
            invariant
                0 <= k2 <= self.layers@.len(),
                forall|i: int| 0 <= i < k2 ==> layer_wf((#[trigger] self.layers@[i])@),
            decreases self.layers@.len() - k2,
        {
            let l = &self.layers[k2];
            if !(l.name.as_str().is_ascii() && l.line_type_name.as_str().is_ascii()
                && l.color.get_raw_value() != i16::MIN) {
                proof {
                    assert(!layer_wf((#[trigger] self.layers@[k2 as int])@));
                    assert(!drawing_wf(*self));
                }
                return false;
            }
            k2 = k2 + 1;
        }
        if !names_ok_appid(&self.app_ids) {
            return false;
        }
        let others_ok: bool = names_ok_blockrecord(&self.block_records) && names_ok_dimstyle(
            &self.dim_styles,
        ) && names_ok_linetype(&self.line_types) && names_ok_style(&self.styles) && names_ok_ucs(
            &self.ucs,
        ) && names_ok_view(&self.views) && names_ok_viewport(&self.view_ports);
        others_ok
    }
}

/// Tests a run of names for being ASCII.
fn names_ok_blockrecord(v: &Vec<BlockRecord>) -> (r: bool)
    ensures
        r == (forall|i: int|
            0 <= i < v@.len() ==> vstd::utf8::is_ascii_chars((#[trigger] v@[i])@)),
{
    let mut k: usize = 0;
    while k < v.len()
        invariant
            0 <= k <= v@.len(),
            forall|i: int| 0 <= i < k ==> vstd::utf8::is_ascii_chars((#[trigger] v@[i])@),
        decreases v@.len() - k,
    {
        if !v[k].name.as_str().is_ascii() {
            return false;
        }
        k = k + 1;
    }
    true
}

/// Tests a run of names for being ASCII.
fn names_ok_dimstyle(v: &Vec<DimStyle>) -> (r: bool)
    ensures
        r == (forall|i: int|
            0 <= i < v@.len() ==> vstd::utf8::is_ascii_chars((#[trigger] v@[i])@)),
{
    let mut k: usize = 0;
    while k < v.len()
        invariant
            0 <= k <= v@.len(),
            forall|i: int| 0 <= i < k ==> vstd::utf8::is_ascii_chars((#[trigger] v@[i])@),
        decreases v@.len() - k,
    {
        if !v[k].name.as_str().is_ascii() {
            return false;
        }
        k = k + 1;
    }
    true
}

/// Tests a run of names for being ASCII.
fn names_ok_linetype(v: &Vec<LineType>) -> (r: bool)
    ensures
        r == (forall|i: int|
            0 <= i < v@.len() ==> vstd::utf8::is_ascii_chars((#[trigger] v@[i])@)),
{
    let mut k: usize = 0;
    while k < v.len()
        invariant
            0 <= k <= v@.len(),
            forall|i: int| 0 <= i < k ==> vstd::utf8::is_ascii_chars((#[trigger] v@[i])@),
        decreases v@.len() - k,
    {
        if !v[k].name.as_str().is_ascii() {
            return false;
        }
        k = k + 1;
    }
    true
}

/// Tests a run of names for being ASCII.
fn names_ok_style(v: &Vec<Style>) -> (r: bool)
    ensures
        r == (forall|i: int|
            0 <= i < v@.len() ==> vstd::utf8::is_ascii_chars((#[trigger] v@[i])@)),
{
    let mut k: usize = 0;
    while k < v.len()
        invariant
            0 <= k <= v@.len(),
            forall|i: int| 0 <= i < k ==> vstd::utf8::is_ascii_chars((#[trigger] v@[i])@),
        decreases v@.len() - k,
    {
        if !v[k].name.as_str().is_ascii() {
            return false;
        }
        k = k + 1;
    }
    true
}

/// Tests a run of names for being ASCII.
fn names_ok_ucs(v: &Vec<Ucs>) -> (r: bool)
    ensures
        r == (forall|i: int|
            0 <= i < v@.len() ==> vstd::utf8::is_ascii_chars((#[trigger] v@[i])@)),
{
    let mut k: usize = 0;
    while k < v.len()
        invariant
            0 <= k <= v@.len(),
            forall|i: int| 0 <= i < k ==> vstd::utf8::is_ascii_chars((#[trigger] v@[i])@),
        decreases v@.len() - k,
    {
        if !v[k].name.as_str().is_ascii() {
            return false;
        }
        k = k + 1;
    }
    true
}

/// Tests a run of names for being ASCII.
fn names_ok_view(v: &Vec<ViewRecord>) -> (r: bool)
    ensures
        r == (forall|i: int|
            0 <= i < v@.len() ==> vstd::utf8::is_ascii_chars((#[trigger] v@[i])@)),
{
    let mut k: usize = 0;
    while k < v.len()
        invariant
            0 <= k <= v@.len(),
            forall|i: int| 0 <= i < k ==> vstd::utf8::is_ascii_chars((#[trigger] v@[i])@),
        decreases v@.len() - k,
    {
        if !v[k].name.as_str().is_ascii() {
            return false;
        }
        k = k + 1;
    }
    true
}

/// Tests a run of names for being ASCII.
fn names_ok_viewport(v: &Vec<ViewPort>) -> (r: bool)
    ensures
        r == (forall|i: int|
            0 <= i < v@.len() ==> vstd::utf8::is_ascii_chars((#[trigger] v@[i])@)),
{
    let mut k: usize = 0;
    while k < v.len()
        invariant
            0 <= k <= v@.len(),
            forall|i: int| 0 <= i < k ==> vstd::utf8::is_ascii_chars((#[trigger] v@[i])@),
        decreases v@.len() - k,
    {
        if !v[k].name.as_str().is_ascii() {
            return false;
        }
        k = k + 1;
    }
    true
}

} // verus!
