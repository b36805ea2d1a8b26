use raytracer::importer::parse_obj_into_mesh;
use raytracer::vec3::Vec3;

fn parse(text: &str) -> raytracer::model::Mesh {
    parse_obj_into_mesh(&text.as_bytes().to_vec())
}

#[test]
fn reads_vertices_and_one_face() {
    let m = parse("v 0 0 0\nv 1 0 0\nv 0 1 0\nf 1 2 3\n");
    assert_eq!(m.faces.len(), 1);
    let f = &m.faces[0];
    assert_eq!(f.vertices.len(), 3);
    assert_eq!(f.vertices[0].position, Vec3::new(0, 0, 0));
    assert_eq!(f.vertices[1].position, Vec3::new(1000, 0, 0));
    assert_eq!(f.vertices[2].position, Vec3::new(0, 1000, 0));
}

#[test]
fn decimals_become_thousandths() {
    let m = parse("v 1.25 -0.5 2.0001\nv 0 0 0\nv 0 0 0\nf 1 2 3\n");
    let p = m.faces[0].vertices[0].position;
    assert_eq!(p, Vec3::new(1250, -500, 2000));
}

#[test]
fn unreadable_numbers_default_to_zero() {
    let m = parse("v 1e9 nan --3\nv 0 0 0\nv 0 0 0\nf 1 2 3\n");
    assert_eq!(m.faces[0].vertices[0].position, Vec3::new(0, 0, 0));
}

#[test]
fn normals_resolve_through_slash_syntax() {
    let m = parse("v 0 0 0\nvn 0 0 1\nf 1//1 1//1 1//1\n");
    let f = &m.faces[0];
    assert_eq!(f.vertices[0].normal, Vec3::new(0, 0, 1000));
}

#[test]
fn missing_normals_default_upward() {
    let m = parse("v 0 0 0\nf 1 1 1\n");
    assert_eq!(m.faces[0].vertices[0].normal, Vec3::new(0, 1000, 0));
}

#[test]
fn out_of_range_references_fall_back() {
    let m = parse("v 5 5 5\nvn 0 0 1\nf 99 1/1/99 1\n");
    let f = &m.faces[0];
    // Position reference 99 is out of range: origin.
    assert_eq!(f.vertices[0].position, Vec3::new(0, 0, 0));
    // Normal reference 99 is out of range: upward.
    assert_eq!(f.vertices[1].normal, Vec3::new(0, 1000, 0));
    assert_eq!(f.vertices[1].position, Vec3::new(5000, 5000, 5000));
}

#[test]
fn comments_blanks_and_unknown_keywords_are_skipped() {
    let m = parse("# a comment\n\n  \nusemtl stone\nv 0 0 0\nv 1 0 0\nv 0 1 0\nf 1 2 3\n");
    assert_eq!(m.faces.len(), 1);
}

#[test]
fn quads_stay_one_face_and_fan_later() {
    let m = parse("v 0 0 0\nv 1 0 0\nv 1 1 0\nv 0 1 0\nf 1 2 3 4\n");
    assert_eq!(m.faces.len(), 1);
    assert_eq!(m.faces[0].vertices.len(), 4);
    assert_eq!(m.get_triangles().len(), 2);
}

#[test]
fn short_vertex_lines_are_ignored() {
    let m = parse("v 1 2\nv 0 0 0\nf 1 1 1\n");
    // The two-number `v` line adds nothing, so reference 1 is the origin
    // vertex that followed it.
    assert_eq!(m.faces[0].vertices[0].position, Vec3::new(0, 0, 0));
}

#[test]
fn windows_line_endings_parse_too() {
    let m = parse("v 0 0 0\r\nv 1 0 0\r\nv 0 1 0\r\nf 1 2 3\r\n");
    assert_eq!(m.faces.len(), 1);
    assert_eq!(m.faces[0].vertices[1].position, Vec3::new(1000, 0, 0));
}

#[test]
fn empty_input_is_an_empty_mesh() {
    let m = parse("");
    assert_eq!(m.faces.len(), 0);
    assert_eq!(m.scale, 1);
    assert_eq!(m.position, Vec3::new(0, 0, 0));
}
