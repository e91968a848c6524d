//! End-to-end scenarios over the byte form of drawings.
use dxf::double::Double;
use dxf::drawing::Drawing;
use dxf::entities::{Circle, EntityType, Line, MText, Polyline, Vertex};
use dxf::entity::Entity;
use dxf::enums::AcadVersion;
use dxf::error::DxfError;

fn find_sub(haystack: &[u8], needle: &[u8]) -> bool {
    if needle.is_empty() {
        return true;
    }
    if haystack.len() < needle.len() {
        return false;
    }
    for start in 0..=(haystack.len() - needle.len()) {
        if &haystack[start..start + needle.len()] == needle {
            return true;
        }
    }
    false
}

fn count_sub(haystack: &[u8], needle: &[u8]) -> usize {
    let mut count = 0;
    if haystack.len() < needle.len() || needle.is_empty() {
        return 0;
    }
    for start in 0..=(haystack.len() - needle.len()) {
        if &haystack[start..start + needle.len()] == needle {
            count += 1;
        }
    }
    count
}

#[test]
fn minimal_file_parses_to_empty_drawing() {
    let input = b"0\nSECTION\n2\nENTITIES\n0\nENDSEC\n0\nEOF\n";
    let drawing = Drawing::load(input).unwrap();
    assert_eq!(drawing.entities.len(), 0);
    let out = drawing.save();
    assert!(find_sub(
        &out,
        b"  0\r\nSECTION\r\n  2\r\nENTITIES\r\n  0\r\nENDSEC\r\n",
    ));
    assert!(out.ends_with(b"  0\r\nEOF\r\n"));
}

#[test]
fn one_line_entity_round_trips_through_bytes() {
    let input = b"0\nSECTION\n2\nENTITIES\n0\nLINE\n10\n1.0\n20\n2.0\n30\n3.0\n11\n4.0\n21\n5.0\n31\n6.0\n0\nENDSEC\n0\nEOF\n";
    let drawing = Drawing::load(input).unwrap();
    assert_eq!(drawing.entities.len(), 1);
    match &drawing.entities[0].specific {
        EntityType::Line(line) => {
            assert_eq!(line.p1.x, Double::from_units(1));
            assert_eq!(line.p1.y, Double::from_units(2));
            assert_eq!(line.p1.z, Double::from_units(3));
            assert_eq!(line.p2.x, Double::from_units(4));
            assert_eq!(line.p2.y, Double::from_units(5));
            assert_eq!(line.p2.z, Double::from_units(6));
        },
        _ => panic!("expected a LINE"),
    }
    let out = drawing.save();
    assert!(find_sub(&out, b" 10\r\n1.000000000000\r\n"));
    assert!(find_sub(&out, b" 20\r\n2.000000000000\r\n"));
    assert!(find_sub(&out, b" 30\r\n3.000000000000\r\n"));
    assert!(find_sub(&out, b" 11\r\n4.000000000000\r\n"));
    assert!(find_sub(&out, b" 21\r\n5.000000000000\r\n"));
    assert!(find_sub(&out, b" 31\r\n6.000000000000\r\n"));
}

#[test]
fn polyline_grouping_collects_vertices_and_absorbs_seqend() {
    let input = b"0\nSECTION\n2\nENTITIES\n0\nPOLYLINE\n0\nVERTEX\n10\n1.0\n20\n2.0\n30\n0.0\n0\nVERTEX\n10\n3.0\n20\n4.0\n30\n0.0\n0\nSEQEND\n0\nLINE\n0\nENDSEC\n0\nEOF\n";
    let drawing = Drawing::load(input).unwrap();
    assert_eq!(drawing.entities.len(), 2);
    match &drawing.entities[0].specific {
        EntityType::Polyline(poly) => {
            assert_eq!(poly.vertices.len(), 2);
            assert_eq!(poly.vertices[0].location.x, Double::from_units(1));
            assert_eq!(poly.vertices[0].location.y, Double::from_units(2));
            assert_eq!(poly.vertices[1].location.x, Double::from_units(3));
            assert_eq!(poly.vertices[1].location.y, Double::from_units(4));
        },
        _ => panic!("expected a POLYLINE"),
    }
    match &drawing.entities[1].specific {
        EntityType::Line(_) => {},
        _ => panic!("expected a LINE"),
    }
    let out = drawing.save();
    assert_eq!(count_sub(&out, b"  0\r\nPOLYLINE\r\n"), 1);
    assert_eq!(count_sub(&out, b"  0\r\nVERTEX\r\n"), 2);
    assert_eq!(count_sub(&out, b"  0\r\nSEQEND\r\n"), 1);
    assert_eq!(count_sub(&out, b"  0\r\nLINE\r\n"), 1);
}

#[test]
fn version_gating_hides_paper_space_below_its_revision() {
    let mut drawing = Drawing::new();
    let mut entity = Entity::new(EntityType::Line(Line::new()));
    entity.common.is_in_paper_space = true;
    drawing.entities.push(entity);
    drawing.header.version = AcadVersion::R13;
    let at_r13 = drawing.save();
    drawing.header.version = AcadVersion::R14;
    let at_r14 = drawing.save();
    assert!(!find_sub(&at_r13, b" 67\r\n"));
    assert_eq!(count_sub(&at_r14, b" 67\r\n1\r\n"), 1);
    assert_eq!(at_r14.len(), at_r13.len() + b" 67\r\n1\r\n".len());
}

#[test]
fn elevation_appears_only_between_its_revisions() {
    let mut drawing = Drawing::new();
    let entity = Entity::new(EntityType::Line(Line::new()));
    drawing.entities.push(entity);
    drawing.header.version = AcadVersion::R10;
    assert!(!find_sub(&drawing.save(), b" 38\r\n"));
    drawing.header.version = AcadVersion::R11;
    assert!(find_sub(&drawing.save(), b" 38\r\n0.000000000000\r\n"));
    drawing.header.version = AcadVersion::R12;
    assert!(find_sub(&drawing.save(), b" 38\r\n0.000000000000\r\n"));
    drawing.header.version = AcadVersion::R13;
    assert!(!find_sub(&drawing.save(), b" 38\r\n"));
}

#[test]
fn default_thickness_is_elided_and_nondefault_written_once() {
    let mut drawing = Drawing::new();
    let mut circle = Circle::new();
    circle.radius = Double::from_units(2);
    let entity = Entity::new(EntityType::Circle(circle));
    drawing.entities.push(entity);
    let out = drawing.save();
    assert!(!find_sub(&out, b" 39\r\n"));
    match &mut drawing.entities[0].specific {
        EntityType::Circle(c) => {
            c.thickness = Double::new(false, 1, 500_000_000_000);
        },
        _ => panic!("expected a CIRCLE"),
    }
    let out2 = drawing.save();
    assert_eq!(count_sub(&out2, b" 39\r\n1.500000000000\r\n"), 1);
}

#[test]
fn mtext_shared_code_splits_on_column_marker() {
    let input = b"0\nSECTION\n2\nENTITIES\n0\nMTEXT\n1\nhello\n50\n45.0\n75\n2\n50\n3.0\n50\n10.5\n50\n11.5\n0\nENDSEC\n0\nEOF\n";
    let drawing = Drawing::load(input).unwrap();
    assert_eq!(drawing.entities.len(), 1);
    match &drawing.entities[0].specific {
        EntityType::MText(m) => {
            assert_eq!(m.text, "hello".to_string());
            assert_eq!(m.rotation_angle, Double::from_units(45));
            assert_eq!(m.column_type, 2);
            assert_eq!(m.column_count, 3);
            assert_eq!(m.column_heights.len(), 2);
            assert_eq!(m.column_heights[0], Double::new(false, 10, 500_000_000_000));
            assert_eq!(m.column_heights[1], Double::new(false, 11, 500_000_000_000));
        },
        _ => panic!("expected an MTEXT"),
    }
}

#[test]
fn mtext_without_column_marker_keeps_rotation_on_shared_code() {
    let input =
        b"0\nSECTION\n2\nENTITIES\n0\nMTEXT\n50\n30.0\n50\n60.0\n0\nENDSEC\n0\nEOF\n";
    let drawing = Drawing::load(input).unwrap();
    match &drawing.entities[0].specific {
        EntityType::MText(m) => {
            assert_eq!(m.rotation_angle, Double::from_units(60));
            assert_eq!(m.column_count, 0);
            assert_eq!(m.column_heights.len(), 0);
        },
        _ => panic!("expected an MTEXT"),
    }
}

#[test]
fn unsupported_entity_is_skipped_not_fatal() {
    let input = b"0\nSECTION\n2\nENTITIES\n0\nSOLID\n10\n1.0\n0\nLINE\n0\nENDSEC\n0\nEOF\n";
    let drawing = Drawing::load(input).unwrap();
    assert_eq!(drawing.entities.len(), 1);
    match &drawing.entities[0].specific {
        EntityType::Line(_) => {},
        _ => panic!("expected a LINE"),
    }
}

#[test]
fn mtext_is_not_written_below_its_revision() {
    let mut drawing = Drawing::new();
    drawing.entities.push(Entity::new(EntityType::MText(MText::new())));
    drawing.header.version = AcadVersion::R12;
    assert!(!find_sub(&drawing.save(), b"MTEXT"));
    drawing.header.version = AcadVersion::R13;
    assert!(find_sub(&drawing.save(), b"  0\r\nMTEXT\r\n"));
}

#[test]
fn handles_are_written_from_r13_on() {
    let mut drawing = Drawing::new();
    let mut entity = Entity::new(EntityType::Line(Line::new()));
    entity.common.handle = 255;
    drawing.entities.push(entity);
    drawing.header.version = AcadVersion::R12;
    assert!(!find_sub(&drawing.save(), b"  5\r\nFF\r\n"));
    drawing.header.version = AcadVersion::R13;
    assert!(find_sub(&drawing.save(), b"  5\r\nFF\r\n"));
}

#[test]
fn polyline_flags_survive_the_byte_form() {
    let mut drawing = Drawing::new();
    let mut poly = Polyline::new();
    poly.set_is_closed(true);
    let mut vertex = Vertex::new();
    vertex.location.x = Double::from_units(7);
    poly.vertices.push(vertex);
    drawing.entities.push(Entity::new(EntityType::Polyline(poly)));
    let out = drawing.save();
    let back = Drawing::load(&out).unwrap();
    match &back.entities[0].specific {
        EntityType::Polyline(p) => {
            assert!(p.get_is_closed());
            assert_eq!(p.vertices.len(), 1);
            assert_eq!(p.vertices[0].location.x, Double::from_units(7));
        },
        _ => panic!("expected a POLYLINE"),
    }
}
