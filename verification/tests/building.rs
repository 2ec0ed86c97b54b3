use obj_mesh::builder::{Handled, MeshVertex, ObjectBuilder};
use obj_mesh::obj::{Error, Line, Scanned, VertexIndices};

fn convert(fields: &[&str]) -> Vec<Option<u32>> {
    let mut out = Vec::new();
    for f in fields.iter() {
        out.push(f.parse::<f32>().ok().map(|v| v.to_bits()));
    }
    out
}

fn parse_line(line: &str) -> Result<Line<'_>, Error> {
    match Line::process_line(line)? {
        Scanned::Ready(l) => Ok(l),
        Scanned::Floats(ff) => {
            let bits = convert(&ff.fields);
            ff.finish(&bits)
        }
    }
}

fn feed(builder: &mut ObjectBuilder, line: &str) -> Result<Handled, Error> {
    let parsed = parse_line(line)?;
    builder.process_line(&parsed)
}

fn run(lines: &[&str]) -> Result<ObjectBuilder, Error> {
    let mut builder = ObjectBuilder::new();
    for line in lines.iter() {
        feed(&mut builder, line)?;
    }
    Ok(builder)
}

fn mv(vals: [u32; 8]) -> MeshVertex {
    MeshVertex {
        px: vals[0],
        py: vals[1],
        pz: vals[2],
        nx: vals[3],
        ny: vals[4],
        nz: vals[5],
        tu: vals[6],
        tv: vals[7],
    }
}

#[test]
fn face_after_attribute_records_appends_three_indices() {
    let mut b = run(&[
        "v 0 0 0",
        "v 1 0 0",
        "v 0 1 0",
        "vt 0 0",
        "vt 1 0",
        "vt 0 1",
        "vn 0 0 1",
        "vn 0 1 0",
        "vn 1 0 0",
    ])
    .unwrap();
    assert_eq!(feed(&mut b, "f 1/1/1 2/2/2 3/3/3"), Ok(Handled::Applied));
    assert_eq!(b.mesh_indices.len(), 3);
    assert_eq!(b.mesh_indices, vec![0, 1, 2]);
    assert_eq!(b.mesh_vertices.len(), 3);
    let second = b.mesh_vertices[1];
    assert_eq!(second.px, 1.0f32.to_bits());
    assert_eq!(second.ny, 1.0f32.to_bits());
    assert_eq!(second.tu, 1.0f32.to_bits());
}

#[test]
fn face_with_texture_coords_uniformly_omitted_resolves_to_zero() {
    let mut b = run(&[
        "v 0 0 0",
        "v 1 0 0",
        "v 0 1 0",
        "vn 0 0 1",
        "vn 0 1 0",
        "vn 1 0 0",
    ])
    .unwrap();
    assert_eq!(feed(&mut b, "f 1//1 2//2 3//3"), Ok(Handled::Applied));
    for v in b.mesh_vertices.iter() {
        assert_eq!(v.tu, 0u32);
        assert_eq!(v.tv, 0u32);
        assert_eq!(v.tu, 0.0f32.to_bits());
    }
}

#[test]
fn face_with_mismatched_texture_coords_fails() {
    let mut b = run(&[
        "v 0 0 0",
        "v 1 0 0",
        "v 0 1 0",
        "vt 0 0",
        "vt 1 0",
        "vt 0 1",
        "vn 0 0 1",
        "vn 0 1 0",
        "vn 1 0 0",
    ])
    .unwrap();
    assert_eq!(
        feed(&mut b, "f 1/1/1 2//2 3/3/3"),
        Err(Error::MissingTextureCoord)
    );
    assert_eq!(b.mesh_indices.len(), 0);
    assert_eq!(b.mesh_vertices.len(), 0);
}

#[test]
fn face_with_mismatched_normals_fails() {
    let mut b = run(&["v 0 0 0", "v 1 0 0", "v 0 1 0", "vt 0 0", "vn 0 0 1"]).unwrap();
    assert_eq!(
        feed(&mut b, "f 1/1/1 2/1/ 3/1/1"),
        Err(Error::MissingNormal)
    );
}

#[test]
fn interning_the_same_vertex_reuses_its_index() {
    let mut b = ObjectBuilder::new();
    let v = mv([1, 2, 3, 4, 5, 6, 7, 8]);
    let first = b.add_vertex(v);
    let second = b.add_vertex(v);
    assert_eq!(first, second);
    assert_eq!(b.mesh_vertices.len(), 1);
    let other = b.add_vertex(mv([1, 2, 3, 4, 5, 6, 7, 9]));
    assert_eq!(other, 1);
    assert_eq!(b.mesh_vertices.len(), 2);
}

#[test]
fn resolve_with_out_of_range_position_fails_regardless_of_the_rest() {
    let mut b = ObjectBuilder::new();
    assert_eq!(feed(&mut b, "v 0 0 0"), Ok(Handled::Applied));
    assert_eq!(feed(&mut b, "vt 0 0"), Ok(Handled::Applied));
    assert_eq!(feed(&mut b, "vn 0 0 1"), Ok(Handled::Applied));
    let valid_rest = VertexIndices {
        position: 2,
        texture_coords: Some(1),
        normal: Some(1),
    };
    assert_eq!(b.get_vertex(valid_rest), None);
    let zero_position = VertexIndices {
        position: 0,
        texture_coords: Some(1),
        normal: Some(1),
    };
    assert_eq!(b.get_vertex(zero_position), None);
    let in_range = VertexIndices {
        position: 1,
        texture_coords: Some(1),
        normal: Some(1),
    };
    assert!(b.get_vertex(in_range).is_some());
}

#[test]
fn face_referencing_a_missing_record_fails_with_invalid_index() {
    let mut b = run(&["v 0 0 0", "v 1 0 0", "v 0 1 0"]).unwrap();
    assert_eq!(feed(&mut b, "f 1 2 4"), Err(Error::InvalidIndex));
    assert_eq!(feed(&mut b, "f 1/1 2/1 3/1"), Err(Error::InvalidIndex));
    assert_eq!(feed(&mut b, "f 1//1 2//1 3//1"), Err(Error::InvalidIndex));
    assert_eq!(b.mesh_indices.len(), 0);
}

#[test]
fn cube_description_dedups_shared_corners() {
    let b = run(&[
        "v 0 0 0",
        "v 1 0 0",
        "v 1 1 0",
        "v 0 1 0",
        "v 0 0 1",
        "v 1 0 1",
        "v 1 1 1",
        "v 0 1 1",
        "f 1 2 3",
        "f 3 4 1",
        "f 5 6 7",
        "f 7 8 5",
        "f 1 5 6",
        "f 6 2 1",
    ])
    .unwrap();
    assert_eq!(b.mesh_indices.len(), 18);
    assert!(b.mesh_vertices.len() <= 24);
    assert_eq!(b.mesh_vertices.len(), 8);
    for i in b.mesh_indices.iter() {
        assert!((*i as usize) < b.mesh_vertices.len());
    }
}

#[test]
fn pool_length_counts_distinct_corners_independent_of_face_order() {
    let one = run(&["v 0 0 0", "v 1 0 0", "v 0 1 0", "v 1 1 0", "f 1 2 3", "f 2 3 4"]).unwrap();
    let two = run(&["v 0 0 0", "v 1 0 0", "v 0 1 0", "v 1 1 0", "f 2 3 4", "f 1 2 3"]).unwrap();
    assert_eq!(one.mesh_vertices.len(), 4);
    assert_eq!(two.mesh_vertices.len(), 4);
    let mut sorted_one: Vec<MeshVertex> = one.mesh_vertices.clone();
    let mut sorted_two: Vec<MeshVertex> = two.mesh_vertices.clone();
    sorted_one.sort_by_key(|v| (v.px, v.py, v.pz));
    sorted_two.sort_by_key(|v| (v.px, v.py, v.pz));
    assert_eq!(sorted_one, sorted_two);
}

#[test]
fn process_lines_is_fail_fast_and_keeps_the_prefix_state() {
    let mut b = ObjectBuilder::new();
    let texts = ["v 0 0 0", "f 1 2 9", "v 1 1 1"];
    let mut parsed: Vec<Line<'_>> = Vec::new();
    for t in texts.iter() {
        parsed.push(parse_line(t).unwrap());
    }
    let r = b.process_lines(&parsed);
    assert_eq!(r, Err(Error::InvalidIndex));
    assert_eq!(b.vertices.len(), 1);
    assert_eq!(b.mesh_indices.len(), 0);
}

#[test]
fn process_lines_applies_every_directive_in_order() {
    let mut b = ObjectBuilder::new();
    let texts = ["v 0 0 0", "v 1 0 0", "v 0 1 0", "f 1 2 3"];
    let mut parsed: Vec<Line<'_>> = Vec::new();
    for t in texts.iter() {
        parsed.push(parse_line(t).unwrap());
    }
    assert_eq!(b.process_lines(&parsed), Ok(()));
    assert_eq!(b.vertices.len(), 3);
    assert_eq!(b.mesh_indices.len(), 3);
}

#[test]
fn non_geometry_directives_are_accepted_and_ignored() {
    let mut b = ObjectBuilder::new();
    for line in [
        "# comment",
        "o name",
        "g group",
        "usemtl shiny",
        "mtllib lib.mtl",
        "s off",
        "s 3",
        "p 1",
        "l 1 2",
    ] {
        assert_eq!(feed(&mut b, line), Ok(Handled::Ignored));
    }
    assert_eq!(b.vertices.len(), 0);
    assert_eq!(b.normals.len(), 0);
    assert_eq!(b.texture_coords.len(), 0);
    assert_eq!(b.indices.len(), 0);
    assert_eq!(b.mesh_vertices.len(), 0);
    assert_eq!(b.mesh_indices.len(), 0);
}

#[test]
fn into_mesh_hands_the_buffers_off() {
    let b = run(&["v 0 0 0", "v 1 0 0", "v 0 1 0", "f 1 2 3"]).unwrap();
    let pool = b.mesh_vertices.clone();
    let idx = b.mesh_indices.clone();
    let mesh = b.into_mesh();
    assert_eq!(mesh.vertex_buffer, pool);
    assert_eq!(mesh.indices_buffer, idx);
}

#[test]
fn mesh_new_wraps_the_buffers() {
    let m = obj_mesh::mesh::Mesh::new(vec![mv([0, 0, 0, 0, 0, 0, 0, 0])], vec![0, 0, 0]);
    assert_eq!(m.vertex_buffer.len(), 1);
    assert_eq!(m.indices_buffer, vec![0, 0, 0]);
}
