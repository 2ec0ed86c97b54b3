use obj_mesh::obj::{Error, Line, Scanned, Text, VertexIndices};
use obj_mesh::ONE_BITS;

fn convert(fields: &[&str]) -> Vec<Option<u32>> {
    let mut out = Vec::new();
    for f in fields.iter() {
        out.push(f.parse::<f32>().ok().map(|v| v.to_bits()));
    }
    out
}

fn parse_line(line: &str) -> Result<Line<'_>, Error> {
    match Line::process_line(line)? {
        Scanned::Ready(l) => Ok(l),
        Scanned::Floats(ff) => {
            let bits = convert(&ff.fields);
            ff.finish(&bits)
        }
    }
}

#[test]
fn vertex_line_yields_position_with_default_w() {
    let parsed = parse_line("v 1.0 2.0 3.0").unwrap();
    match parsed {
        Line::Vertex(v) => {
            assert_eq!(v.x, 1.0f32.to_bits());
            assert_eq!(v.y, 2.0f32.to_bits());
            assert_eq!(v.z, 3.0f32.to_bits());
            assert_eq!(v.w, 1.0f32.to_bits());
        }
        other => panic!("expected a vertex, got {:?}", other),
    }
}

#[test]
fn one_bits_is_the_single_precision_one() {
    assert_eq!(ONE_BITS, 1.0f32.to_bits());
}

#[test]
fn texture_coords_default_w() {
    let parsed = parse_line("vt 0.5 0.5").unwrap();
    match parsed {
        Line::TextureCoords(t) => {
            assert_eq!(t.u, 0.5f32.to_bits());
            assert_eq!(t.v, 0.5f32.to_bits());
            assert_eq!(t.w, 1.0f32.to_bits());
        }
        other => panic!("expected texture coords, got {:?}", other),
    }
}

#[test]
fn vertex_with_explicit_w_and_extra_fields() {
    let parsed = parse_line("v 1 2 3 4 5").unwrap();
    match parsed {
        Line::Vertex(v) => {
            assert_eq!(v.w, 4.0f32.to_bits());
        }
        other => panic!("expected a vertex, got {:?}", other),
    }
}

#[test]
fn normal_line_parses_like_a_vertex() {
    let parsed = parse_line("vn -1.5 0 0").unwrap();
    match parsed {
        Line::Normal(v) => {
            assert_eq!(v.x, (-1.5f32).to_bits());
            assert_eq!(v.y, 0.0f32.to_bits());
            assert_eq!(v.w, 1.0f32.to_bits());
        }
        other => panic!("expected a normal, got {:?}", other),
    }
}

#[test]
fn malformed_float_reports_the_offending_text() {
    assert_eq!(
        parse_line("v a 2 3"),
        Err(Error::ParseFloatError("a".to_string()))
    );
    assert_eq!(
        parse_line("vt 0.5 0..5"),
        Err(Error::ParseFloatError("0..5".to_string()))
    );
}

#[test]
fn missing_mandatory_component() {
    assert_eq!(parse_line("v 1.0"), Err(Error::MissingNumber));
    assert_eq!(parse_line("v 1.0 2.0"), Err(Error::MissingNumber));
    assert_eq!(parse_line("vt 0.5"), Err(Error::MissingNumber));
}

#[test]
fn float_error_on_first_field_precedes_missing_later_fields() {
    assert_eq!(
        parse_line("v nope"),
        Err(Error::ParseFloatError("nope".to_string()))
    );
}

#[test]
fn line_without_tag_separator_is_missing_tag() {
    assert_eq!(parse_line(""), Err(Error::MissingTag));
    assert_eq!(parse_line("v"), Err(Error::MissingTag));
    assert_eq!(parse_line("vertex"), Err(Error::MissingTag));
}

#[test]
fn unknown_tag_is_rejected() {
    assert_eq!(parse_line("x 1"), Err(Error::UnrecognizedTag));
    assert_eq!(parse_line("vtx 1 2"), Err(Error::UnrecognizedTag));
}

#[test]
fn text_directives_keep_their_payload() {
    match parse_line("# a comment with spaces").unwrap() {
        Line::Comment(t) => assert_eq!(t.as_str(), "a comment with spaces"),
        other => panic!("expected a comment, got {:?}", other),
    }
    match parse_line("o object name").unwrap() {
        Line::Name(t) => assert_eq!(t.as_str(), "object name"),
        other => panic!("expected a name, got {:?}", other),
    }
    match parse_line("g side").unwrap() {
        Line::Group(t) => assert_eq!(t.as_str(), "side"),
        other => panic!("expected a group, got {:?}", other),
    }
    match parse_line("usemtl shiny").unwrap() {
        Line::UseMtl(t) => assert_eq!(t.as_str(), "shiny"),
        other => panic!("expected a material use, got {:?}", other),
    }
    match parse_line("mtllib lib.mtl").unwrap() {
        Line::MtlLib(t) => assert_eq!(t.as_str(), "lib.mtl"),
        other => panic!("expected a material lib, got {:?}", other),
    }
}

#[test]
fn smoothing_group_off_zero_and_id() {
    match parse_line("s off").unwrap() {
        Line::SmoothingGroup(g) => assert_eq!(g, None),
        other => panic!("expected a smoothing group, got {:?}", other),
    }
    match parse_line("s 0").unwrap() {
        Line::SmoothingGroup(g) => assert_eq!(g, None),
        other => panic!("expected a smoothing group, got {:?}", other),
    }
    match parse_line("s 4").unwrap() {
        Line::SmoothingGroup(g) => assert_eq!(g, Some(4)),
        other => panic!("expected a smoothing group, got {:?}", other),
    }
    assert_eq!(
        parse_line("s abc"),
        Err(Error::ParseIntError("abc".to_string()))
    );
}

#[test]
fn corner_token_full_triple() {
    let vi = VertexIndices::from_str("1/2/3").unwrap();
    assert_eq!(vi.position, 1);
    assert_eq!(vi.texture_coords, Some(2));
    assert_eq!(vi.normal, Some(3));
}

#[test]
fn corner_token_absent_and_empty_fields() {
    let vi = VertexIndices::from_str("7").unwrap();
    assert_eq!((vi.position, vi.texture_coords, vi.normal), (7, None, None));
    let vi = VertexIndices::from_str("7/").unwrap();
    assert_eq!((vi.position, vi.texture_coords, vi.normal), (7, None, None));
    let vi = VertexIndices::from_str("7//9").unwrap();
    assert_eq!((vi.position, vi.texture_coords, vi.normal), (7, None, Some(9)));
    let vi = VertexIndices::from_str("/8/9").unwrap();
    assert_eq!((vi.position, vi.texture_coords, vi.normal), (0, Some(8), Some(9)));
}

#[test]
fn corner_token_zero_optional_folds_to_absent() {
    let vi = VertexIndices::from_str("1/0/0").unwrap();
    assert_eq!((vi.position, vi.texture_coords, vi.normal), (1, None, None));
}

#[test]
fn corner_token_with_plus_sign_parses_like_std() {
    let vi = VertexIndices::from_str("+12/+3").unwrap();
    assert_eq!((vi.position, vi.texture_coords), (12, Some(3)));
}

#[test]
fn corner_token_errors() {
    assert_eq!(
        VertexIndices::from_str("1/2/3/4"),
        Err(Error::ParseIntError("1/2/3/4".to_string()))
    );
    assert_eq!(
        VertexIndices::from_str("1/x/3"),
        Err(Error::ParseIntError("x".to_string()))
    );
    assert_eq!(
        VertexIndices::from_str("-1"),
        Err(Error::ParseIntError("-1".to_string()))
    );
    assert_eq!(
        VertexIndices::from_str("4294967296"),
        Err(Error::ParseIntError("4294967296".to_string()))
    );
}

#[test]
fn corner_token_accepts_the_largest_index() {
    let vi = VertexIndices::from_str("4294967295").unwrap();
    assert_eq!(vi.position, u32::MAX);
}

#[test]
fn point_and_line_segment_directives() {
    match parse_line("p 5").unwrap() {
        Line::Point(p) => assert_eq!(p.position, 5),
        other => panic!("expected a point, got {:?}", other),
    }
    match parse_line("l 1 2").unwrap() {
        Line::Line(a, b) => {
            assert_eq!(a.position, 1);
            assert_eq!(b.position, 2);
        }
        other => panic!("expected a line segment, got {:?}", other),
    }
    assert_eq!(parse_line("l 1"), Err(Error::MissingNumber));
}

#[test]
fn face_directive_and_missing_corners() {
    match parse_line("f 1/1/1 2/2/2 3/3/3").unwrap() {
        Line::Face(a, b, c) => {
            assert_eq!(a, VertexIndices { position: 1, texture_coords: Some(1), normal: Some(1) });
            assert_eq!(b.position, 2);
            assert_eq!(c.normal, Some(3));
        }
        other => panic!("expected a face, got {:?}", other),
    }
    assert_eq!(parse_line("f 1 2"), Err(Error::MissingNumber));
    assert_eq!(
        parse_line("f 1 2 z"),
        Err(Error::ParseIntError("z".to_string()))
    );
}

#[test]
fn to_static_keeps_the_payload() {
    let owned: Line<'static>;
    {
        let text = String::from("# borrowed payload");
        let parsed = parse_line(&text).unwrap();
        owned = parsed.to_static();
    }
    match owned {
        Line::Comment(t) => assert_eq!(t.as_str(), "borrowed payload"),
        other => panic!("expected a comment, got {:?}", other),
    }
}

#[test]
fn text_compares_by_content() {
    let a = Text::Borrowed("abc");
    let b = Text::Owned(String::from("abc"));
    assert!(a == b);
    let c = Text::Owned(String::from("abd"));
    assert!(a != c);
    assert_eq!(a.into_owned().as_str(), "abc");
}
