//! Unit checks on the value model, the type-string maps, colors, flags,
//! the header, and the round trip of every supported entity kind.
use dxf::color::{Color, LineWeight};
use dxf::double::Double;
use dxf::drawing::Drawing;
use dxf::entities::{
    Circle, EntityType, Leader, Line, MText, ModelPoint, Polyline, Seqend, Vertex,
};
use dxf::entity::Entity;
use dxf::enums::AcadVersion;
use dxf::error::DxfError;
use dxf::lexer::lex;
use dxf::point::{Point, Vector};
use dxf::tables::Layer;
use dxf::value::{CodePair, CodePairValue};

#[test]
fn lexed_values_match_the_expected_type_table() {
    let pairs = lex(b"0\nLINE\n").unwrap();
    assert!(matches!(pairs[0].value, CodePairValue::Str(_)));
    let pairs = lex(b"10\n1.5\n").unwrap();
    assert!(matches!(pairs[0].value, CodePairValue::Double(_)));
    let pairs = lex(b"70\n42\n").unwrap();
    assert!(matches!(pairs[0].value, CodePairValue::Short(42)));
    let pairs = lex(b"90\n70000\n").unwrap();
    assert!(matches!(pairs[0].value, CodePairValue::Integer(70000)));
    let pairs = lex(b"160\n8589934592\n").unwrap();
    assert!(matches!(pairs[0].value, CodePairValue::Long(8589934592)));
    let pairs = lex(b"290\n1\n").unwrap();
    assert!(matches!(pairs[0].value, CodePairValue::Boolean(true)));
    let pairs = lex(b"290\n0\n").unwrap();
    assert!(matches!(pairs[0].value, CodePairValue::Boolean(false)));
}

#[test]
fn lexer_rejects_what_the_table_rejects() {
    assert!(matches!(lex(b"5000\nx\n"), Err(DxfError::UnknownCode(5000))));
    assert!(matches!(lex(b"zz\nx\n"), Err(DxfError::InvalidCode)));
    assert!(matches!(lex(b"10\nabc\n"), Err(DxfError::InvalidValue(10))));
    assert!(matches!(lex(b"290\n2\n"), Err(DxfError::InvalidValue(290))));
    assert!(matches!(lex(b"70\n99999\n"), Err(DxfError::InvalidValue(70))));
}

#[test]
fn lexer_skips_comments_and_stops_cleanly() {
    let pairs = lex(b"999\na comment\n0\nEOF\n").unwrap();
    assert_eq!(pairs.len(), 1);
    assert_eq!(pairs[0].code, 0);
    let pairs = lex(b"").unwrap();
    assert_eq!(pairs.len(), 0);
    let pairs = lex(b"\n").unwrap();
    assert_eq!(pairs.len(), 0);
    let pairs = lex(b"0\n").unwrap();
    assert_eq!(pairs.len(), 0);
    let pairs = lex(b" 10 \n2.5\n").unwrap();
    assert_eq!(pairs[0].code, 10);
}

#[test]
fn type_strings_round_trip_for_every_kind() {
    let variants = vec![
        EntityType::Line(Line::new()),
        EntityType::Circle(Circle::new()),
        EntityType::ModelPoint(ModelPoint::new()),
        EntityType::Polyline(Polyline::new()),
        EntityType::Vertex(Vertex::new()),
        EntityType::Seqend(Seqend::new()),
        EntityType::Leader(Leader::new()),
        EntityType::MText(MText::new()),
    ];
    for v in &variants {
        let s = v.to_type_string();
        let back = EntityType::from_type_string(s).unwrap();
        assert_eq!(back.to_type_string(), s);
    }
    let from_alias = EntityType::from_type_string("3DLINE").unwrap();
    assert_eq!(from_alias.to_type_string(), "LINE");
    assert!(EntityType::from_type_string("NOPE").is_none());
}

#[test]
fn color_semantics_follow_the_raw_value() {
    assert!(Color::from_raw_value(256).is_by_layer());
    assert!(Color::from_raw_value(0).is_by_block());
    assert!(Color::from_raw_value(257).is_by_entity());
    assert!(Color::from_raw_value(-1).is_turned_off());
    assert_eq!(Color::from_raw_value(7).index(), Some(7));
    assert_eq!(Color::from_raw_value(256).index(), None);
    assert_eq!(Color::by_layer().get_raw_value(), 256);
    assert_eq!(Color::by_block().get_raw_value(), 0);
    assert_eq!(Color::by_entity().get_raw_value(), 257);
    assert_eq!(Color::from_index(12).get_raw_value(), 12);
    let mut c = Color::by_layer();
    c.turn_off();
    assert!(c.is_turned_off());
    c.set_by_entity();
    assert_eq!(c.get_raw_value(), 257);
    assert_eq!(Color::from_raw_value(0).get_writable_color_value(true), 7);
    assert_eq!(Color::from_raw_value(256).get_writable_color_value(false), -7);
    assert_eq!(Color::from_raw_value(3).get_writable_color_value(false), -3);
}

#[test]
fn line_weights_carry_their_codes() {
    assert_eq!(LineWeight::new().get_raw_value(), 0);
    assert_eq!(LineWeight::by_block().get_raw_value(), -1);
    assert_eq!(LineWeight::by_layer().get_raw_value(), -2);
    assert_eq!(LineWeight::from_raw_value(40).get_raw_value(), 40);
}

#[test]
fn flag_round_trip_leaves_other_masks_alone() {
    let mut layer = Layer::new();
    assert_eq!(layer.flags, 0);
    layer.set_is_frozen(true);
    assert!(layer.get_is_frozen());
    assert!(layer.flags & 1 != 0);
    layer.set_is_locked(true);
    assert!(layer.get_is_frozen());
    assert!(layer.get_is_locked());
    layer.set_is_frozen(false);
    assert!(!layer.get_is_frozen());
    assert!(layer.get_is_locked());
    layer.set_is_locked(false);
    assert_eq!(layer.flags, 0);
    let mut poly = Polyline::new();
    poly.set_is_3d_polyline(true);
    assert!(poly.get_is_3d_polyline());
    assert!(!poly.get_is_closed());
    poly.set_is_3d_polyline(false);
    assert_eq!(poly.flags, 0);
}

#[test]
fn every_supported_kind_round_trips_with_defaults() {
    let mut drawing = Drawing::new();
    drawing.header.version = AcadVersion::R2013;
    drawing.entities.push(Entity::new(EntityType::Line(Line::new())));
    drawing.entities.push(Entity::new(EntityType::Circle(Circle::new())));
    drawing.entities.push(Entity::new(EntityType::ModelPoint(ModelPoint::new())));
    drawing.entities.push(Entity::new(EntityType::Vertex(Vertex::new())));
    drawing.entities.push(Entity::new(EntityType::Seqend(Seqend::new())));
    drawing.entities.push(Entity::new(EntityType::Leader(Leader::new())));
    drawing.entities.push(Entity::new(EntityType::MText(MText::new())));
    let out = drawing.save();
    let back = Drawing::load(&out).unwrap();
    assert_eq!(back.header.version, AcadVersion::R2013);
    assert_eq!(back.entities.len(), 7);
    assert!(matches!(&back.entities[0].specific, EntityType::Line(l) if *l == Line::new()));
    assert!(matches!(&back.entities[1].specific, EntityType::Circle(c) if *c == Circle::new()));
    assert!(
        matches!(&back.entities[2].specific, EntityType::ModelPoint(p) if *p == ModelPoint::new())
    );
    assert!(matches!(&back.entities[3].specific, EntityType::Vertex(v) if *v == Vertex::new()));
    assert!(matches!(&back.entities[4].specific, EntityType::Seqend(_)));
    match &back.entities[5].specific {
        EntityType::Leader(l) => {
            assert_eq!(l.vertices.len(), 0);
        },
        _ => panic!("expected a LEADER"),
    }
    match &back.entities[6].specific {
        EntityType::MText(m) => {
            assert_eq!(m.text, String::new());
            assert_eq!(m.text_style_name, "STANDARD".to_string());
            assert_eq!(m.insertion_point, Point::origin());
        },
        _ => panic!("expected an MTEXT"),
    }
    for e in &back.entities {
        assert_eq!(e.common.layer, "0".to_string());
        assert_eq!(e.common.line_type_name, "BYLAYER".to_string());
    }
}

#[test]
fn leader_vertices_are_zipped_from_their_parallel_runs() {
    let input = b"0\nSECTION\n2\nENTITIES\n0\nLEADER\n10\n1.0\n20\n2.0\n30\n3.0\n10\n4.0\n20\n5.0\n30\n6.0\n0\nENDSEC\n0\nEOF\n";
    let drawing = Drawing::load(input).unwrap();
    match &drawing.entities[0].specific {
        EntityType::Leader(l) => {
            assert_eq!(l.vertices.len(), 2);
            assert_eq!(
                l.vertices[0],
                Point::new(Double::from_units(1), Double::from_units(2), Double::from_units(3)),
            );
            assert_eq!(
                l.vertices[1],
                Point::new(Double::from_units(4), Double::from_units(5), Double::from_units(6)),
            );
            assert_eq!(l.vertices_x.len(), 0);
            assert_eq!(l.vertices_y.len(), 0);
            assert_eq!(l.vertices_z.len(), 0);
        },
        _ => panic!("expected a LEADER"),
    }
}

#[test]
fn header_variables_read_and_write() {
    let input = b"0\nSECTION\n2\nHEADER\n9\n$ACADVER\n1\nAC1015\n9\n$CLAYER\n8\nWALLS\n9\n$INSBASE\n10\n1.0\n20\n2.0\n30\n3.0\n9\n$LTSCALE\n40\n2.0\n9\n$UNKNOWN\n70\n9\n0\nENDSEC\n0\nEOF\n";
    let drawing = Drawing::load(input).unwrap();
    assert_eq!(drawing.header.version, AcadVersion::R2000);
    assert_eq!(drawing.header.current_layer, "WALLS".to_string());
    assert_eq!(drawing.header.insertion_base.x, Double::from_units(1));
    assert_eq!(drawing.header.line_type_scale, Double::from_units(2));
    let out = drawing.save();
    let back = Drawing::load(&out).unwrap();
    assert_eq!(back.header.version, AcadVersion::R2000);
    assert_eq!(back.header.current_layer, "WALLS".to_string());
}

#[test]
fn layer_table_round_trips_with_color_sign_for_off_layers() {
    let mut drawing = Drawing::new();
    let mut layer = Layer::new();
    layer.name = "HIDDEN".to_string();
    layer.color = Color::from_index(3);
    layer.is_layer_on = false;
    layer.set_is_frozen(true);
    drawing.layers.push(layer);
    let out = drawing.save();
    let back = Drawing::load(&out).unwrap();
    assert_eq!(back.layers.len(), 1);
    assert_eq!(back.layers[0].name, "HIDDEN".to_string());
    assert_eq!(back.layers[0].color.get_raw_value(), 3);
    assert!(!back.layers[0].is_layer_on);
    assert!(back.layers[0].get_is_frozen());
}

#[test]
fn named_tables_round_trip() {
    let mut drawing = Drawing::new();
    drawing.app_ids.push(dxf::tables::AppId { name: "ACAD".to_string() });
    drawing.styles.push(dxf::tables::Style { name: "NOTES".to_string() });
    let out = drawing.save();
    let back = Drawing::load(&out).unwrap();
    assert_eq!(back.app_ids.len(), 1);
    assert_eq!(back.app_ids[0].name, "ACAD".to_string());
    assert_eq!(back.styles.len(), 1);
    assert_eq!(back.styles[0].name, "NOTES".to_string());
}

#[test]
fn doubles_parse_and_format_exactly() {
    let pairs = lex(b"40\n-2.25\n").unwrap();
    match &pairs[0].value {
        CodePairValue::Double(d) => {
            assert_eq!(*d, Double::new(true, 2, 250_000_000_000));
        },
        _ => panic!("expected a real value"),
    }
    let pairs = lex(b"40\n.5\n").unwrap();
    match &pairs[0].value {
        CodePairValue::Double(d) => {
            assert_eq!(*d, Double::new(false, 0, 500_000_000_000));
        },
        _ => panic!("expected a real value"),
    }
    let pairs = lex(b"40\n3.\n").unwrap();
    match &pairs[0].value {
        CodePairValue::Double(d) => {
            assert_eq!(*d, Double::from_units(3));
        },
        _ => panic!("expected a real value"),
    }
}

#[test]
fn structural_errors_are_reported() {
    assert!(matches!(
        Drawing::load(b"1\nhello\n"),
        Err(DxfError::UnexpectedCodePair)
    ));
    assert!(matches!(
        Drawing::load(b"0\nSECTION\n0\nEOF\n"),
        Err(DxfError::UnexpectedCodePair)
    ));
    assert!(matches!(
        Drawing::load(b"0\nSECTION\n2\nENTITIES\n0\nLINE\n10\n1.0\n"),
        Err(DxfError::UnexpectedEndOfInput)
    ));
}

#[test]
fn unknown_sections_are_read_leniently() {
    let input = b"0\nSECTION\n2\nCLASSES\n0\nCLASS\n1\nsomething\n0\nENDSEC\n0\nSECTION\n2\nENTITIES\n0\nLINE\n0\nENDSEC\n0\nEOF\n";
    let drawing = Drawing::load(input).unwrap();
    assert_eq!(drawing.entities.len(), 1);
}

#[test]
fn code_pairs_build_and_align() {
    let p = CodePair::new_short(70, 5);
    assert_eq!(p.code, 70);
    let p = CodePair::new_str(0, "SECTION");
    assert_eq!(p.code, 0);
    let p = CodePair::new_double(10, Double::from_units(2));
    assert_eq!(p.code, 10);
    let p = CodePair::new_bool(290, true);
    assert_eq!(p.code, 290);
    let p = CodePair::new_int(90, -3);
    assert_eq!(p.code, 90);
    let p = CodePair::new_long(160, 1 << 40);
    assert_eq!(p.code, 160);
    let v = Vector::z_axis();
    assert_eq!(v.z, Double::from_units(1));
}
