//! The typed entity model: the fields every entity shares, one struct per
//! concrete entity, and the tag union over them.
//!
//! Every declared field carries its codes, its default, and, where the
//! schema says so, a revision gate or a write-only-when-not-default rule;
//! the decoder and encoder in this module follow those declarations
//! exactly.
use vstd::prelude::*;

use crate::color::Color;
use crate::double::Double;
use crate::enums::{
    AcadVersion, AttachmentPoint, BackgroundFillSetting, DrawingDirection, MTextLineSpacingStyle,
};
use crate::point::{spec_origin, spec_z_axis, Point, Vector};

verus! {

/// The fields every entity shares, with their codes and write rules:
/// the handle (code 5, written only when handles are on), the layer name
/// (code 8), the line type name (code 6, elided at its default), the
/// elevation (code 38, only from R11 through R12), the color (code 62,
/// elided at its default), the line type scale (code 48, from R13 on,
/// elided at its default), and the paper-space flag (code 67, from R14
/// on, elided when clear).
#[derive(Debug)]
pub struct EntityCommon {
    pub handle: u32,
    pub layer: String,
    pub line_type_name: String,
    pub elevation: Double,
    pub color: Color,
    pub line_type_scale: Double,
    pub is_in_paper_space: bool,
}

/// The mathematical shape of the shared entity fields.
pub struct CommonV {
    pub handle: u32,
    pub layer: Seq<char>,
    pub line_type_name: Seq<char>,
    pub elevation: Double,
    pub color: Color,
    pub line_type_scale: Double,
    pub is_in_paper_space: bool,
}

impl View for EntityCommon {
    type V = CommonV;

    open spec fn view(&self) -> CommonV {
        CommonV {
            handle: self.handle,
            layer: self.layer@,
            line_type_name: self.line_type_name@,
            elevation: self.elevation,
            color: self.color,
            line_type_scale: self.line_type_scale,
            is_in_paper_space: self.is_in_paper_space,
        }
    }
}

/// The default shared fields: no handle, layer `0`, line type `BYLAYER`,
/// zero elevation, color by layer, unit line type scale, model space.
pub open spec fn spec_default_common() -> CommonV {
    CommonV {
        handle: 0,
        layer: "0"@,
        line_type_name: "BYLAYER"@,
        elevation: Double { neg: false, units: 0, frac: 0 },
        color: Color { raw_value: 256 },
        line_type_scale: Double { neg: false, units: 1, frac: 0 },
        is_in_paper_space: false,
    }
}

/// The shared fields are storable: names are ASCII, reals well formed.
pub open spec fn common_wf(c: CommonV) -> bool {
    vstd::utf8::is_ascii_chars(c.layer) && vstd::utf8::is_ascii_chars(c.line_type_name)
        && c.elevation.wf() && c.line_type_scale.wf()
}

impl EntityCommon {
    /// Creates the default shared fields.
    pub fn new() -> (r: EntityCommon)
        ensures
            r@ == spec_default_common(),
            common_wf(r@),
    {
        let r = EntityCommon {
            handle: 0,
            layer: "0".to_owned(),
            line_type_name: "BYLAYER".to_owned(),
            elevation: Double::zero(),
            color: Color::by_layer(),
            line_type_scale: Double::from_units(1),
            is_in_paper_space: false,
        };
        proof {
            reveal_strlit("0");
            reveal_strlit("BYLAYER");
            assert(r.color == Color { raw_value: 256 });
        }
        r
    }

    /// Hands back equal shared fields.
    pub fn clone_common(&self) -> (r: EntityCommon)
        ensures
            r@ == self@,
    {
        EntityCommon {
            handle: self.handle,
            layer: self.layer.clone(),
            line_type_name: self.line_type_name.clone(),
            elevation: self.elevation,
            color: self.color,
            line_type_scale: self.line_type_scale,
            is_in_paper_space: self.is_in_paper_space,
        }
    }
}

impl Default for EntityCommon {
    /// The default shared fields.
    fn default() -> (r: EntityCommon)
        ensures
            r@ == spec_default_common(),
            common_wf(r@),
    {
        EntityCommon::new()
    }
}

/// A straight line segment between two points.  Fields: the endpoints
/// (codes 10/20/30 and 11/21/31), the thickness (code 39, elided at
/// zero), and the extrusion direction (codes 210/220/230, elided at the
/// Z axis).
#[derive(Clone, Copy, Debug, PartialEq, Eq, Structural)]
pub struct Line {
    pub p1: Point,
    pub p2: Point,
    pub thickness: Double,
    pub extrusion_direction: Vector,
}

/// The default line: both endpoints at the origin.
pub open spec fn spec_default_line() -> Line {
    Line {
        p1: spec_origin(),
        p2: spec_origin(),
        thickness: Double { neg: false, units: 0, frac: 0 },
        extrusion_direction: spec_z_axis(),
    }
}

impl Line {
    /// All real fields are well formed.
    pub open spec fn wf(self) -> bool {
        self.p1.wf() && self.p2.wf() && self.thickness.wf() && self.extrusion_direction.wf()
    }

    /// Creates the default line.
    pub fn new() -> (r: Line)
        ensures
            r == spec_default_line(),
            r.wf(),
    {
        Line {
            p1: Point::origin(),
            p2: Point::origin(),
            thickness: Double::zero(),
            extrusion_direction: Vector::z_axis(),
        }
    }
}

impl Default for Line {
    /// The default line.
    fn default() -> (r: Line)
        ensures
            r == spec_default_line(),
    {
        Line::new()
    }
}

/// A circle.  Fields: the center (codes 10/20/30), the radius (code 40),
/// and the thickness (code 39, elided at zero).
#[derive(Clone, Copy, Debug, PartialEq, Eq, Structural)]
pub struct Circle {
    pub center: Point,
    pub radius: Double,
    pub thickness: Double,
}

/// The default circle: centered on the origin with zero radius.
pub open spec fn spec_default_circle() -> Circle {
    Circle {
        center: spec_origin(),
        radius: Double { neg: false, units: 0, frac: 0 },
        thickness: Double { neg: false, units: 0, frac: 0 },
    }
}

impl Circle {
    /// All real fields are well formed.
    pub open spec fn wf(self) -> bool {
        self.center.wf() && self.radius.wf() && self.thickness.wf()
    }

    /// Creates the default circle.
    pub fn new() -> (r: Circle)
        ensures
            r == spec_default_circle(),
            r.wf(),
    {
        Circle { center: Point::origin(), radius: Double::zero(), thickness: Double::zero() }
    }
}

impl Default for Circle {
    /// The default circle.
    fn default() -> (r: Circle)
        ensures
            r == spec_default_circle(),
    {
        Circle::new()
    }
}

/// A point entity.  Fields: the location (codes 10/20/30) and the
/// thickness (code 39, elided at zero).
#[derive(Clone, Copy, Debug, PartialEq, Eq, Structural)]
pub struct ModelPoint {
    pub location: Point,
    pub thickness: Double,
}

/// The default point entity: at the origin.
pub open spec fn spec_default_model_point() -> ModelPoint {
    ModelPoint {
        location: spec_origin(),
        thickness: Double { neg: false, units: 0, frac: 0 },
    }
}

impl ModelPoint {
    /// All real fields are well formed.
    pub open spec fn wf(self) -> bool {
        self.location.wf() && self.thickness.wf()
    }

    /// Creates the default point entity.
    pub fn new() -> (r: ModelPoint)
        ensures
            r == spec_default_model_point(),
            r.wf(),
    {
        ModelPoint { location: Point::origin(), thickness: Double::zero() }
    }
}

impl Default for ModelPoint {
    /// The default point entity.
    fn default() -> (r: ModelPoint)
        ensures
            r == spec_default_model_point(),
    {
        ModelPoint::new()
    }
}

/// One vertex of a polyline.  Fields: the location (codes 10/20/30), the
/// bulge (code 42, elided at zero), and the vertex flags (code 70, elided
/// at zero).
#[derive(Clone, Copy, Debug, PartialEq, Eq, Structural)]
pub struct Vertex {
    pub location: Point,
    pub bulge: Double,
    pub flags: i16,
}

/// The default vertex: at the origin, no bulge, no flags.
pub open spec fn spec_default_vertex() -> Vertex {
    Vertex {
        location: spec_origin(),
        bulge: Double { neg: false, units: 0, frac: 0 },
        flags: 0,
    }
}

impl Vertex {
    /// All real fields are well formed.
    pub open spec fn wf(self) -> bool {
        self.location.wf() && self.bulge.wf()
    }

    /// Creates the default vertex.
    pub fn new() -> (r: Vertex)
        ensures
            r == spec_default_vertex(),
            r.wf(),
    {
        Vertex { location: Point::origin(), bulge: Double::zero(), flags: 0 }
    }

    /// Whether this vertex was created by curve fitting; bit 1 of the
    /// vertex flags.
    pub fn get_is_created_by_curve_fitting(&self) -> (r: bool)
        ensures
            r == ((self.flags & 1) != 0),
    {
        self.flags & 1 != 0
    }

    /// Sets or clears bit 1 of the vertex flags.
    pub fn set_is_created_by_curve_fitting(&mut self, val: bool)
        ensures
            final(self).flags == if val {
                old(self).flags | 1
            } else {
                old(self).flags & !1
            },
            final(self).location == old(self).location,
            final(self).bulge == old(self).bulge,
    {
        if val {
            self.flags = self.flags | 1;
        } else {
            self.flags = self.flags & !1;
        }
    }

    /// Whether a tangent is defined for this vertex; bit 2 of the vertex
    /// flags.
    pub fn get_is_curve_fit_tangent_defined(&self) -> (r: bool)
        ensures
            r == ((self.flags & 2) != 0),
    {
        self.flags & 2 != 0
    }

    /// Sets or clears bit 2 of the vertex flags.
    pub fn set_is_curve_fit_tangent_defined(&mut self, val: bool)
        ensures
            final(self).flags == if val {
                old(self).flags | 2
            } else {
                old(self).flags & !2
            },
            final(self).location == old(self).location,
            final(self).bulge == old(self).bulge,
    {
        if val {
            self.flags = self.flags | 2;
        } else {
            self.flags = self.flags & !2;
        }
    }
}

impl Default for Vertex {
    /// The default vertex.
    fn default() -> (r: Vertex)
        ensures
            r == spec_default_vertex(),
    {
        Vertex::new()
    }
}

/// The marker entity that ends a polyline's vertex run.  It has no fields
/// of its own.
#[derive(Clone, Copy, Debug, PartialEq, Eq, Structural)]
pub struct Seqend {
}

impl Seqend {
    /// Creates the marker.
    pub fn new() -> (r: Seqend)
        ensures
            r == (Seqend {  }),
    {
        Seqend {  }
    }
}

impl Default for Seqend {
    /// The marker.
    fn default() -> (r: Seqend)
        ensures
            r == (Seqend {  }),
    {
        Seqend::new()
    }
}

/// A polyline.  Fields: the location (codes 10/20/30) and the polyline
/// flags (code 70, elided at zero); its vertices are gathered from the
/// VERTEX entities that follow it and are written back out the same way.
#[derive(Debug)]
pub struct Polyline {
    pub location: Point,
    pub flags: i16,
    pub vertices: Vec<Vertex>,
}

/// The mathematical shape of a polyline.
pub struct PolylineV {
    pub location: Point,
    pub flags: i16,
    pub vertices: Seq<Vertex>,
}

impl View for Polyline {
    type V = PolylineV;

    open spec fn view(&self) -> PolylineV {
        PolylineV { location: self.location, flags: self.flags, vertices: self.vertices@ }
    }
}

/// The default polyline: at the origin, no flags, no vertices.
pub open spec fn spec_default_polyline() -> PolylineV {
    PolylineV {
        location: spec_origin(),
        flags: 0,
        vertices: Seq::<Vertex>::empty(),
    }
}

impl Polyline {
    /// All real fields are well formed.
    pub open spec fn wf(self) -> bool {
        self.location.wf() && forall|i: int|
            0 <= i < self.vertices@.len() ==> (#[trigger] self.vertices@[i]).wf()
    }

    /// Creates the default polyline.
    pub fn new() -> (r: Polyline)
        ensures
            r@ == spec_default_polyline(),
            r.wf(),
    {
        let r = Polyline { location: Point::origin(), flags: 0, vertices: Vec::new() };
        proof {
            assert(r@.vertices =~= Seq::<Vertex>::empty());
        }
        r
    }

    /// Hands back an equal polyline.
    pub fn clone_polyline(&self) -> (r: Polyline)
        ensures
            r@ == self@,
            r.wf() == self.wf(),
    {
        let mut vertices: Vec<Vertex> = Vec::new();
        let mut i: usize = 0;
        while i < self.vertices.len()
            invariant
                0 <= i <= self.vertices@.len(),
                vertices@ == self.vertices@.take(i as int),
            decreases self.vertices@.len() - i,
        {
            vertices.push(self.vertices[i]);
            proof {
                assert(self.vertices@.take(i + 1) =~= self.vertices@.take(i as int).push(
                    self.vertices@[i as int],
                ));
            }
            i = i + 1;
        }
        proof {
            assert(self.vertices@.take(i as int) =~= self.vertices@);
        }
        Polyline { location: self.location, flags: self.flags, vertices }
    }

    /// Whether the polyline is closed; bit 1 of the polyline flags.
    pub fn get_is_closed(&self) -> (r: bool)
        ensures
            r == ((self.flags & 1) != 0),
    {
        self.flags & 1 != 0
    }

    /// Sets or clears bit 1 of the polyline flags.
    pub fn set_is_closed(&mut self, val: bool)
        ensures
            final(self).flags == if val {
                old(self).flags | 1
            } else {
                old(self).flags & !1
            },
            final(self).location == old(self).location,
            final(self).vertices@ == old(self).vertices@,
    {
        if val {
            self.flags = self.flags | 1;
        } else {
            self.flags = self.flags & !1;
        }
    }

    /// Whether the polyline is three-dimensional; bit 8 of the polyline
    /// flags.
    pub fn get_is_3d_polyline(&self) -> (r: bool)
        ensures
            r == ((self.flags & 8) != 0),
    {
        self.flags & 8 != 0
    }

    /// Sets or clears bit 8 of the polyline flags.
    pub fn set_is_3d_polyline(&mut self, val: bool)
        ensures
            final(self).flags == if val {
                old(self).flags | 8
            } else {
                old(self).flags & !8
            },
            final(self).location == old(self).location,
            final(self).vertices@ == old(self).vertices@,
    {
        if val {
            self.flags = self.flags | 8;
        } else {
            self.flags = self.flags & !8;
        }
    }
}

impl Default for Polyline {
    /// The default polyline.
    fn default() -> (r: Polyline)
        ensures
            r@ == spec_default_polyline(),
    {
        Polyline::new()
    }
}

/// Multi-line text.  Most fields are plain; two share code 50, told apart
/// by the column marker (code 75), which only a stateful reader handles.
#[derive(Debug)]
pub struct MText {
    pub insertion_point: Point,
    pub initial_text_height: Double,
    pub reference_rectangle_width: Double,
    pub attachment_point: AttachmentPoint,
    pub drawing_direction: DrawingDirection,
    pub extended_text: Vec<String>,
    pub text: String,
    pub text_style_name: String,
    pub extrusion_direction: Vector,
    pub x_axis_direction: Vector,
    pub horizontal_width: Double,
    pub vertical_height: Double,
    pub rotation_angle: Double,
    pub line_spacing_style: MTextLineSpacingStyle,
    pub line_spacing_factor: Double,
    pub background_fill_setting: BackgroundFillSetting,
    pub background_color_rgb: i32,
    pub background_color_name: String,
    pub fill_box_scale: Double,
    pub background_fill_color: Color,
    pub background_fill_color_transparency: i32,
    pub column_type: i16,
    pub column_count: i32,
    pub is_column_flow_reversed: bool,
    pub is_column_auto_height: bool,
    pub column_width: Double,
    pub column_gutter: Double,
    pub column_heights: Vec<Double>,
}

/// The mathematical shape of multi-line text.
pub struct MTextV {
    pub insertion_point: Point,
    pub initial_text_height: Double,
    pub reference_rectangle_width: Double,
    pub attachment_point: AttachmentPoint,
    pub drawing_direction: DrawingDirection,
    pub extended_text: Seq<Seq<char>>,
    pub text: Seq<char>,
    pub text_style_name: Seq<char>,
    pub extrusion_direction: Vector,
    pub x_axis_direction: Vector,
    pub horizontal_width: Double,
    pub vertical_height: Double,
    pub rotation_angle: Double,
    pub line_spacing_style: MTextLineSpacingStyle,
    pub line_spacing_factor: Double,
    pub background_fill_setting: BackgroundFillSetting,
    pub background_color_rgb: i32,
    pub background_color_name: Seq<char>,
    pub fill_box_scale: Double,
    pub background_fill_color: Color,
    pub background_fill_color_transparency: i32,
    pub column_type: i16,
    pub column_count: i32,
    pub is_column_flow_reversed: bool,
    pub is_column_auto_height: bool,
    pub column_width: Double,
    pub column_gutter: Double,
    pub column_heights: Seq<Double>,
}

impl View for MText {
    type V = MTextV;

    open spec fn view(&self) -> MTextV {
        MTextV {
            insertion_point: self.insertion_point,
            initial_text_height: self.initial_text_height,
            reference_rectangle_width: self.reference_rectangle_width,
            attachment_point: self.attachment_point,
            drawing_direction: self.drawing_direction,
            extended_text: self.extended_text@.map_values(|s: String| s@),
            text: self.text@,
            text_style_name: self.text_style_name@,
            extrusion_direction: self.extrusion_direction,
            x_axis_direction: self.x_axis_direction,
            horizontal_width: self.horizontal_width,
            vertical_height: self.vertical_height,
            rotation_angle: self.rotation_angle,
            line_spacing_style: self.line_spacing_style,
            line_spacing_factor: self.line_spacing_factor,
            background_fill_setting: self.background_fill_setting,
            background_color_rgb: self.background_color_rgb,
            background_color_name: self.background_color_name@,
            fill_box_scale: self.fill_box_scale,
            background_fill_color: self.background_fill_color,
            background_fill_color_transparency: self.background_fill_color_transparency,
            column_type: self.column_type,
            column_count: self.column_count,
            is_column_flow_reversed: self.is_column_flow_reversed,
            is_column_auto_height: self.is_column_auto_height,
            column_width: self.column_width,
            column_gutter: self.column_gutter,
            column_heights: self.column_heights@,
        }
    }
}

/// The default multi-line text: empty text in the standard style at the
/// origin.
pub open spec fn spec_default_mtext() -> MTextV {
    MTextV {
        insertion_point: spec_origin(),
        initial_text_height: Double { neg: false, units: 1, frac: 0 },
        reference_rectangle_width: Double { neg: false, units: 0, frac: 0 },
        attachment_point: AttachmentPoint::TopLeft,
        drawing_direction: DrawingDirection::LeftToRight,
        extended_text: Seq::<Seq<char>>::empty(),
        text: Seq::<char>::empty(),
        text_style_name: "STANDARD"@,
        extrusion_direction: spec_z_axis(),
        x_axis_direction: Vector {
            x: Double { neg: false, units: 1, frac: 0 },
            y: Double { neg: false, units: 0, frac: 0 },
            z: Double { neg: false, units: 0, frac: 0 },
        },
        horizontal_width: Double { neg: false, units: 0, frac: 0 },
        vertical_height: Double { neg: false, units: 0, frac: 0 },
        rotation_angle: Double { neg: false, units: 0, frac: 0 },
        line_spacing_style: MTextLineSpacingStyle::AtLeast,
        line_spacing_factor: Double { neg: false, units: 1, frac: 0 },
        background_fill_setting: BackgroundFillSetting::Off,
        background_color_rgb: 0,
        background_color_name: Seq::<char>::empty(),
        fill_box_scale: Double { neg: false, units: 1, frac: 0 },
        background_fill_color: Color { raw_value: 256 },
        background_fill_color_transparency: 0,
        column_type: 0,
        column_count: 0,
        is_column_flow_reversed: false,
        is_column_auto_height: false,
        column_width: Double { neg: false, units: 0, frac: 0 },
        column_gutter: Double { neg: false, units: 0, frac: 0 },
        column_heights: Seq::<Double>::empty(),
    }
}

/// The multi-line text fields are storable: texts ASCII, reals well
/// formed.
pub open spec fn mtext_wf(m: MTextV) -> bool {
    &&& m.insertion_point.wf()
    &&& m.initial_text_height.wf()
    &&& m.reference_rectangle_width.wf()
    &&& (forall|i: int|
        0 <= i < m.extended_text.len() ==> vstd::utf8::is_ascii_chars(#[trigger] m.extended_text[i]))
    &&& vstd::utf8::is_ascii_chars(m.text)
    &&& vstd::utf8::is_ascii_chars(m.text_style_name)
    &&& m.extrusion_direction.wf()
    &&& m.x_axis_direction.wf()
    &&& m.horizontal_width.wf()
    &&& m.vertical_height.wf()
    &&& m.rotation_angle.wf()
    &&& m.line_spacing_factor.wf()
    &&& vstd::utf8::is_ascii_chars(m.background_color_name)
    &&& m.fill_box_scale.wf()
    &&& m.column_width.wf()
    &&& m.column_gutter.wf()
    &&& (forall|i: int| 0 <= i < m.column_heights.len() ==> (#[trigger] m.column_heights[i]).wf())
}

impl MText {
    /// Creates the default multi-line text.
    pub fn new() -> (r: MText)
        ensures
            r@ == spec_default_mtext(),
            mtext_wf(r@),
    {
        let r = MText {
            insertion_point: Point::origin(),
            initial_text_height: Double::from_units(1),
            reference_rectangle_width: Double::zero(),
            attachment_point: AttachmentPoint::TopLeft,
            drawing_direction: DrawingDirection::LeftToRight,
            extended_text: Vec::new(),
            text: String::new(),
            text_style_name: "STANDARD".to_owned(),
            extrusion_direction: Vector::z_axis(),
            x_axis_direction: Vector::x_axis(),
            horizontal_width: Double::zero(),
            vertical_height: Double::zero(),
            rotation_angle: Double::zero(),
            line_spacing_style: MTextLineSpacingStyle::AtLeast,
            line_spacing_factor: Double::from_units(1),
            background_fill_setting: BackgroundFillSetting::Off,
            background_color_rgb: 0,
            background_color_name: String::new(),
            fill_box_scale: Double::from_units(1),
            background_fill_color: Color::by_layer(),
            background_fill_color_transparency: 0,
            column_type: 0,
            column_count: 0,
            is_column_flow_reversed: false,
            is_column_auto_height: false,
            column_width: Double::zero(),
            column_gutter: Double::zero(),
            column_heights: Vec::new(),
        };
        proof {
            reveal_strlit("STANDARD");
            assert(r@.extended_text =~= Seq::<Seq<char>>::empty());
            assert(r@.column_heights =~= Seq::<Double>::empty());
            assert(r@ =~~= spec_default_mtext()) by {
                assert(r.background_fill_color == Color { raw_value: 256 });
            }
        }
        r
    }
}

impl Default for MText {
    /// The default multi-line text.
    fn default() -> (r: MText)
        ensures
            r@ == spec_default_mtext(),
            mtext_wf(r@),
    {
        MText::new()
    }
}

/// A leader line.  Its vertices arrive as three parallel runs of
/// coordinate pairs (codes 10, 20 and 30, each repeatable); after a read
/// the runs are zipped into `vertices` and cleared.
#[derive(Debug)]
pub struct Leader {
    pub vertices: Vec<Point>,
    pub vertices_x: Vec<Double>,
    pub vertices_y: Vec<Double>,
    pub vertices_z: Vec<Double>,
}

/// The mathematical shape of a leader.
pub struct LeaderV {
    pub vertices: Seq<Point>,
    pub vertices_x: Seq<Double>,
    pub vertices_y: Seq<Double>,
    pub vertices_z: Seq<Double>,
}

impl View for Leader {
    type V = LeaderV;

    open spec fn view(&self) -> LeaderV {
        LeaderV {
            vertices: self.vertices@,
            vertices_x: self.vertices_x@,
            vertices_y: self.vertices_y@,
            vertices_z: self.vertices_z@,
        }
    }
}

/// The default leader: no vertices.
pub open spec fn spec_default_leader() -> LeaderV {
    LeaderV {
        vertices: Seq::<Point>::empty(),
        vertices_x: Seq::<Double>::empty(),
        vertices_y: Seq::<Double>::empty(),
        vertices_z: Seq::<Double>::empty(),
    }
}

impl Leader {
    /// All real fields are well formed.
    pub open spec fn wf(self) -> bool {
        &&& (forall|i: int| 0 <= i < self.vertices@.len() ==> (#[trigger] self.vertices@[i]).wf())
        &&& (forall|i: int|
            0 <= i < self.vertices_x@.len() ==> (#[trigger] self.vertices_x@[i]).wf())
        &&& (forall|i: int|
            0 <= i < self.vertices_y@.len() ==> (#[trigger] self.vertices_y@[i]).wf())
        &&& (forall|i: int|
            0 <= i < self.vertices_z@.len() ==> (#[trigger] self.vertices_z@[i]).wf())
    }

    /// Creates the default leader.
    pub fn new() -> (r: Leader)
        ensures
            r@ == spec_default_leader(),
            r.wf(),
    {
        let r = Leader {
            vertices: Vec::new(),
            vertices_x: Vec::new(),
            vertices_y: Vec::new(),
            vertices_z: Vec::new(),
        };
        proof {
            assert(r@.vertices =~= Seq::<Point>::empty());
            assert(r@.vertices_x =~= Seq::<Double>::empty());
            assert(r@.vertices_y =~= Seq::<Double>::empty());
            assert(r@.vertices_z =~= Seq::<Double>::empty());
        }
        r
    }
}

impl Default for Leader {
    /// The default leader.
    fn default() -> (r: Leader)
        ensures
            r@ == spec_default_leader(),
    {
        Leader::new()
    }
}

/// Which concrete entity an `EntityType` value holds.
#[derive(Clone, Copy, Debug, PartialEq, Eq, Structural)]
pub enum TypeTag {
    Line,
    Circle,
    ModelPoint,
    Polyline,
    Vertex,
    Seqend,
    Leader,
    MText,
}

/// The tag union over the concrete entities.
#[derive(Debug)]
pub enum EntityType {
    Line(Line),
    Circle(Circle),
    ModelPoint(ModelPoint),
    Polyline(Polyline),
    Vertex(Vertex),
    Seqend(Seqend),
    Leader(Leader),
    MText(MText),
}

/// The mathematical shape of the tag union.
pub enum EntityTypeV {
    Line(Line),
    Circle(Circle),
    ModelPoint(ModelPoint),
    Polyline(PolylineV),
    Vertex(Vertex),
    Seqend(Seqend),
    Leader(LeaderV),
    MText(MTextV),
}

impl View for EntityType {
    type V = EntityTypeV;

    open spec fn view(&self) -> EntityTypeV {
        match self {
            EntityType::Line(e) => EntityTypeV::Line(*e),
            EntityType::Circle(e) => EntityTypeV::Circle(*e),
            EntityType::ModelPoint(e) => EntityTypeV::ModelPoint(*e),
            EntityType::Polyline(e) => EntityTypeV::Polyline(e@),
            EntityType::Vertex(e) => EntityTypeV::Vertex(*e),
            EntityType::Seqend(e) => EntityTypeV::Seqend(*e),
            EntityType::Leader(e) => EntityTypeV::Leader(e@),
            EntityType::MText(e) => EntityTypeV::MText(e@),
        }
    }
}

/// The tag of a concrete entity.
pub open spec fn tag_of(e: EntityTypeV) -> TypeTag {
    match e {
        EntityTypeV::Line(_) => TypeTag::Line,
        EntityTypeV::Circle(_) => TypeTag::Circle,
        EntityTypeV::ModelPoint(_) => TypeTag::ModelPoint,
        EntityTypeV::Polyline(_) => TypeTag::Polyline,
        EntityTypeV::Vertex(_) => TypeTag::Vertex,
        EntityTypeV::Seqend(_) => TypeTag::Seqend,
        EntityTypeV::Leader(_) => TypeTag::Leader,
        EntityTypeV::MText(_) => TypeTag::MText,
    }
}

/// The zero-valued entity of each tag.
pub open spec fn spec_default_specific(tag: TypeTag) -> EntityTypeV {
    match tag {
        TypeTag::Line => EntityTypeV::Line(spec_default_line()),
        TypeTag::Circle => EntityTypeV::Circle(spec_default_circle()),
        TypeTag::ModelPoint => EntityTypeV::ModelPoint(spec_default_model_point()),
        TypeTag::Polyline => EntityTypeV::Polyline(spec_default_polyline()),
        TypeTag::Vertex => EntityTypeV::Vertex(spec_default_vertex()),
        TypeTag::Seqend => EntityTypeV::Seqend(Seqend {  }),
        TypeTag::Leader => EntityTypeV::Leader(spec_default_leader()),
        TypeTag::MText => EntityTypeV::MText(spec_default_mtext()),
    }
}

/// The canonical type string of each tag: what the writer emits after
/// code 0.
pub open spec fn spec_type_string(tag: TypeTag) -> Seq<char> {
    match tag {
        TypeTag::Line => "LINE"@,
        TypeTag::Circle => "CIRCLE"@,
        TypeTag::ModelPoint => "POINT"@,
        TypeTag::Polyline => "POLYLINE"@,
        TypeTag::Vertex => "VERTEX"@,
        TypeTag::Seqend => "SEQEND"@,
        TypeTag::Leader => "LEADER"@,
        TypeTag::MText => "MTEXT"@,
    }
}

/// The tag each type string names on read; `3DLINE` is an accepted alias
/// for `LINE`.
pub open spec fn spec_from_type_string(s: Seq<char>) -> Option<TypeTag> {
    if s == "LINE"@ || s == "3DLINE"@ {
        Some(TypeTag::Line)
    } else if s == "CIRCLE"@ {
        Some(TypeTag::Circle)
    } else if s == "POINT"@ {
        Some(TypeTag::ModelPoint)
    } else if s == "POLYLINE"@ {
        Some(TypeTag::Polyline)
    } else if s == "VERTEX"@ {
        Some(TypeTag::Vertex)
    } else if s == "SEQEND"@ {
        Some(TypeTag::Seqend)
    } else if s == "LEADER"@ {
        Some(TypeTag::Leader)
    } else if s == "MTEXT"@ {
        Some(TypeTag::MText)
    } else {
        None
    }
}

impl EntityType {
    /// The tag of this entity.
    pub open spec fn tag(self) -> TypeTag {
        tag_of(self@)
    }

    /// The fields of this entity are storable.
    pub open spec fn wf(self) -> bool {
        match self {
            EntityType::Line(e) => e.wf(),
            EntityType::Circle(e) => e.wf(),
            EntityType::ModelPoint(e) => e.wf(),
            EntityType::Polyline(e) => e.wf(),
            EntityType::Vertex(e) => e.wf(),
            EntityType::Seqend(_) => true,
            EntityType::Leader(e) => e.wf(),
            EntityType::MText(e) => mtext_wf(e@),
        }
    }

    /// Builds the zero-valued entity a type string names, or nothing for
    /// an unknown string.
    pub fn from_type_string(type_string: &str) -> (r: Option<EntityType>)
        ensures
            match spec_from_type_string(type_string@) {
                Some(tag) => r matches Some(e) && e@ == spec_default_specific(tag) && e.wf(),
                None => r is None,
            },
    {
        proof {
            reveal_strlit("LINE");
            reveal_strlit("3DLINE");
            reveal_strlit("CIRCLE");
            reveal_strlit("POINT");
            reveal_strlit("POLYLINE");
            reveal_strlit("VERTEX");
            reveal_strlit("SEQEND");
            reveal_strlit("LEADER");
            reveal_strlit("MTEXT");
        }
        if crate::enums::str_eq(type_string, "LINE") || crate::enums::str_eq(
            type_string,
            "3DLINE",
        ) {
            Some(EntityType::Line(Line::new()))
        } else if crate::enums::str_eq(type_string, "CIRCLE") {
            Some(EntityType::Circle(Circle::new()))
        } else if crate::enums::str_eq(type_string, "POINT") {
            Some(EntityType::ModelPoint(ModelPoint::new()))
        } else if crate::enums::str_eq(type_string, "POLYLINE") {
            Some(EntityType::Polyline(Polyline::new()))
        } else if crate::enums::str_eq(type_string, "VERTEX") {
            Some(EntityType::Vertex(Vertex::new()))
        } else if crate::enums::str_eq(type_string, "SEQEND") {
            Some(EntityType::Seqend(Seqend::new()))
        } else if crate::enums::str_eq(type_string, "LEADER") {
            Some(EntityType::Leader(Leader::new()))
        } else if crate::enums::str_eq(type_string, "MTEXT") {
            Some(EntityType::MText(MText::new()))
        } else {
            None
        }
    }

    /// The canonical type string of this entity.
    pub fn to_type_string(&self) -> (r: &'static str)
        ensures
            r@ == spec_type_string(self.tag()),
            vstd::utf8::is_ascii_chars(r@),
    {
        proof {
            reveal_strlit("LINE");
            reveal_strlit("CIRCLE");
            reveal_strlit("POINT");
            reveal_strlit("POLYLINE");
            reveal_strlit("VERTEX");
            reveal_strlit("SEQEND");
            reveal_strlit("LEADER");
            reveal_strlit("MTEXT");
        }
        match self {
            EntityType::Line(_) => "LINE",
            EntityType::Circle(_) => "CIRCLE",
            EntityType::ModelPoint(_) => "POINT",
            EntityType::Polyline(_) => "POLYLINE",
            EntityType::Vertex(_) => "VERTEX",
            EntityType::Seqend(_) => "SEQEND",
            EntityType::Leader(_) => "LEADER",
            EntityType::MText(_) => "MTEXT",
        }
    }

    /// Whether this entity may be written at the given revision;
    /// multi-line text exists only from R13 on.
    pub fn is_supported_on_version(&self, version: AcadVersion) -> (r: bool)
        ensures
            r == spec_supported_on_version(self.tag(), version),
    {
        match self {
            EntityType::Leader(_) => version.at_least(AcadVersion::R13),
            EntityType::MText(_) => version.at_least(AcadVersion::R13),
            _ => true,
        }
    }
}

/// Which revisions each entity kind may be written at.
pub open spec fn spec_supported_on_version(tag: TypeTag, version: AcadVersion) -> bool {
    match tag {
        TypeTag::Leader => version.ord() >= AcadVersion::R13.ord(),
        TypeTag::MText => version.ord() >= AcadVersion::R13.ord(),
        _ => true,
    }
}

/// Reading back the canonical type string of any entity kind names that
/// same kind: the type-string maps are inverse on every tag.
pub proof fn lemma_type_string_bijection()
    ensures
        forall|tag: TypeTag| #[trigger] spec_from_type_string(spec_type_string(tag)) == Some(tag),
{
    reveal_strlit("LINE");
    reveal_strlit("3DLINE");
    reveal_strlit("CIRCLE");
    reveal_strlit("POINT");
    reveal_strlit("POLYLINE");
    reveal_strlit("VERTEX");
    reveal_strlit("SEQEND");
    reveal_strlit("LEADER");
    reveal_strlit("MTEXT");
    assert("CIRCLE"@ != "LINE"@) by {
        assert("CIRCLE"@.len() == 6);
        assert("LINE"@.len() == 4);
    }
    assert("CIRCLE"@ != "3DLINE"@) by {
        assert("CIRCLE"@[0] == 'C' && "3DLINE"@[0] == '3');
    }
    assert("POINT"@ != "LINE"@) by {
        assert("POINT"@.len() == 5);
        assert("LINE"@.len() == 4);
    }
    assert("POINT"@ != "3DLINE"@) by {
        assert("POINT"@.len() == 5);
        assert("3DLINE"@.len() == 6);
    }
    assert("POINT"@ != "CIRCLE"@) by {
        assert("POINT"@.len() == 5);
        assert("CIRCLE"@.len() == 6);
    }
    assert("POLYLINE"@ != "LINE"@) by {
        assert("POLYLINE"@.len() == 8);
        assert("LINE"@.len() == 4);
    }
    assert("POLYLINE"@ != "3DLINE"@) by {
        assert("POLYLINE"@.len() == 8);
        assert("3DLINE"@.len() == 6);
    }
    assert("POLYLINE"@ != "CIRCLE"@) by {
        assert("POLYLINE"@.len() == 8);
        assert("CIRCLE"@.len() == 6);
    }
    assert("POLYLINE"@ != "POINT"@) by {
        assert("POLYLINE"@.len() == 8);
        assert("POINT"@.len() == 5);
    }
    assert("VERTEX"@ != "LINE"@) by {
        assert("VERTEX"@.len() == 6);
        assert("LINE"@.len() == 4);
    }
    assert("VERTEX"@ != "3DLINE"@) by {
        assert("VERTEX"@[0] == 'V' && "3DLINE"@[0] == '3');
    }
    assert("VERTEX"@ != "CIRCLE"@) by {
        assert("VERTEX"@[0] == 'V' && "CIRCLE"@[0] == 'C');
    }
    assert("VERTEX"@ != "POINT"@) by {
        assert("VERTEX"@.len() == 6);
        assert("POINT"@.len() == 5);
    }
    assert("VERTEX"@ != "POLYLINE"@) by {
        assert("VERTEX"@.len() == 6);
        assert("POLYLINE"@.len() == 8);
    }
    assert("SEQEND"@ != "LINE"@) by {
        assert("SEQEND"@.len() == 6);
        assert("LINE"@.len() == 4);
    }
    assert("SEQEND"@ != "3DLINE"@) by {
        assert("SEQEND"@[0] == 'S' && "3DLINE"@[0] == '3');
    }
    assert("SEQEND"@ != "CIRCLE"@) by {
        assert("SEQEND"@[0] == 'S' && "CIRCLE"@[0] == 'C');
    }
    assert("SEQEND"@ != "POINT"@) by {
        assert("SEQEND"@.len() == 6);
        assert("POINT"@.len() == 5);
    }
    assert("SEQEND"@ != "POLYLINE"@) by {
        assert("SEQEND"@.len() == 6);
        assert("POLYLINE"@.len() == 8);
    }
    assert("SEQEND"@ != "VERTEX"@) by {
        assert("SEQEND"@[0] == 'S' && "VERTEX"@[0] == 'V');
    }
    assert("LEADER"@ != "LINE"@) by {
        assert("LEADER"@.len() == 6);
        assert("LINE"@.len() == 4);
    }
    assert("LEADER"@ != "3DLINE"@) by {
        assert("LEADER"@[0] == 'L' && "3DLINE"@[0] == '3');
    }
    assert("LEADER"@ != "CIRCLE"@) by {
        assert("LEADER"@[0] == 'L' && "CIRCLE"@[0] == 'C');
    }
    assert("LEADER"@ != "POINT"@) by {
        assert("LEADER"@.len() == 6);
        assert("POINT"@.len() == 5);
    }
    assert("LEADER"@ != "POLYLINE"@) by {
        assert("LEADER"@.len() == 6);
        assert("POLYLINE"@.len() == 8);
    }
    assert("LEADER"@ != "VERTEX"@) by {
        assert("LEADER"@[0] == 'L' && "VERTEX"@[0] == 'V');
    }
    assert("LEADER"@ != "SEQEND"@) by {
        assert("LEADER"@[0] == 'L' && "SEQEND"@[0] == 'S');
    }
    assert("MTEXT"@ != "LINE"@) by {
        assert("MTEXT"@.len() == 5);
        assert("LINE"@.len() == 4);
    }
    assert("MTEXT"@ != "3DLINE"@) by {
        assert("MTEXT"@.len() == 5);
        assert("3DLINE"@.len() == 6);
    }
    assert("MTEXT"@ != "CIRCLE"@) by {
        assert("MTEXT"@.len() == 5);
        assert("CIRCLE"@.len() == 6);
    }
    assert("MTEXT"@ != "POINT"@) by {
        assert("MTEXT"@[0] == 'M' && "POINT"@[0] == 'P');
    }
    assert("MTEXT"@ != "POLYLINE"@) by {
        assert("MTEXT"@.len() == 5);
        assert("POLYLINE"@.len() == 8);
    }
    assert("MTEXT"@ != "VERTEX"@) by {
        assert("MTEXT"@.len() == 5);
        assert("VERTEX"@.len() == 6);
    }
    assert("MTEXT"@ != "SEQEND"@) by {
        assert("MTEXT"@.len() == 5);
        assert("SEQEND"@.len() == 6);
    }
    assert("MTEXT"@ != "LEADER"@) by {
        assert("MTEXT"@.len() == 5);
        assert("LEADER"@.len() == 6);
    }
    assert forall|tag: TypeTag| #[trigger] spec_from_type_string(spec_type_string(tag)) == Some(
        tag,
    ) by {
        match tag {
            TypeTag::Line => {},
            TypeTag::Circle => {},
            TypeTag::ModelPoint => {},
            TypeTag::Polyline => {},
            TypeTag::Vertex => {},
            TypeTag::Seqend => {},
            TypeTag::Leader => {},
            TypeTag::MText => {},
        }
    }
}

/// Every accepted type string, alias or canonical, reads to a tag whose
/// canonical string round-trips: writing after reading an alias emits the
/// canonical form.
pub proof fn lemma_alias_canonical()
    ensures
        spec_from_type_string("3DLINE"@) == Some(TypeTag::Line),
        spec_type_string(TypeTag::Line) == "LINE"@,
        spec_from_type_string(spec_type_string(TypeTag::Line)) == Some(TypeTag::Line),
{
    reveal_strlit("LINE");
    reveal_strlit("3DLINE");
}

} // verus!
