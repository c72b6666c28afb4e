use model_pipeline::mesh::parse_obj;

#[test]
fn parses_vertex_rows_as_raw_tokens() {
    let doc = parse_obj(&b"v 1.0 2.5 -3.0\nvn 0 0 1\nvt 0.5 0.25\n".to_vec()).unwrap();
    assert_eq!(doc.positions.len(), 1);
    assert_eq!(doc.positions[0].x, b"1.0".to_vec());
    assert_eq!(doc.positions[0].y, b"2.5".to_vec());
    assert_eq!(doc.positions[0].z, b"-3.0".to_vec());
    assert_eq!(doc.normals.len(), 1);
    assert_eq!(doc.texcoords.len(), 1);
    assert_eq!(doc.texcoords[0].u, b"0.5".to_vec());
    assert_eq!(doc.texcoords[0].v, b"0.25".to_vec());
    assert_eq!(doc.groups.len(), 0);
}

#[test]
fn faces_carry_zero_based_index_triples() {
    let src = b"v 0 0 0\nv 1 0 0\nv 0 1 0\nf 1/1/1 2//3 3\n";
    let doc = parse_obj(&src.to_vec()).unwrap();
    assert_eq!(doc.groups.len(), 1);
    let face = &doc.groups[0].faces[0];
    assert_eq!(face.len(), 3);
    assert_eq!(face[0].v, 0);
    assert_eq!(face[0].vt, Some(0));
    assert_eq!(face[0].vn, Some(0));
    assert_eq!(face[1].v, 1);
    assert_eq!(face[1].vt, None);
    assert_eq!(face[1].vn, Some(2));
    assert_eq!(face[2].v, 2);
    assert_eq!(face[2].vt, None);
    assert_eq!(face[2].vn, None);
}

#[test]
fn groups_split_on_material_changes() {
    let src = b"usemtl a\nf 1 2 3\nf 2 3 4\nusemtl b\nf 3 4 5\ng part\nf 4 5 6\n";
    let doc = parse_obj(&src.to_vec()).unwrap();
    assert_eq!(doc.groups.len(), 3);
    assert_eq!(doc.groups[0].material, Some(b"a".to_vec()));
    assert_eq!(doc.groups[0].faces.len(), 2);
    assert_eq!(doc.groups[1].material, Some(b"b".to_vec()));
    assert_eq!(doc.groups[1].name, b"".to_vec());
    assert_eq!(doc.groups[2].name, b"part".to_vec());
    assert_eq!(doc.groups[2].material, Some(b"b".to_vec()));
}

#[test]
fn material_libraries_accumulate_in_order() {
    let doc = parse_obj(&b"mtllib one.mtl two.mtl\nmtllib three.mtl\n".to_vec()).unwrap();
    assert_eq!(
        doc.material_libs,
        vec![b"one.mtl".to_vec(), b"two.mtl".to_vec(), b"three.mtl".to_vec()]
    );
}

#[test]
fn comments_and_unknown_keywords_are_skipped() {
    let src = b"# a comment\ns 1\no thing\nv 1 2 3\nnot_a_keyword x y\n";
    let doc = parse_obj(&src.to_vec()).unwrap();
    assert_eq!(doc.positions.len(), 1);
    assert_eq!(doc.groups.len(), 0);
}

#[test]
fn short_vertex_row_is_a_format_error() {
    assert!(parse_obj(&b"v 1 2\n".to_vec()).is_none());
    assert!(parse_obj(&b"vt 1\n".to_vec()).is_none());
    assert!(parse_obj(&b"vn 1 2\n".to_vec()).is_none());
}

#[test]
fn degenerate_or_malformed_faces_are_format_errors() {
    assert!(parse_obj(&b"f 1 2\n".to_vec()).is_none());
    assert!(parse_obj(&b"f 0 1 2\n".to_vec()).is_none());
    assert!(parse_obj(&b"f 1 2 x\n".to_vec()).is_none());
    assert!(parse_obj(&b"f 1/2/3/4 1 2\n".to_vec()).is_none());
}

#[test]
fn bare_usemtl_is_a_format_error() {
    assert!(parse_obj(&b"usemtl\n".to_vec()).is_none());
}

#[test]
fn empty_input_parses_to_an_empty_document() {
    let doc = parse_obj(&b"".to_vec()).unwrap();
    assert_eq!(doc.positions.len(), 0);
    assert_eq!(doc.normals.len(), 0);
    assert_eq!(doc.texcoords.len(), 0);
    assert_eq!(doc.material_libs.len(), 0);
    assert_eq!(doc.groups.len(), 0);
}

#[test]
fn windows_line_endings_are_accepted() {
    let doc = parse_obj(&b"v 1 2 3\r\nv 4 5 6\r\n".to_vec()).unwrap();
    assert_eq!(doc.positions.len(), 2);
    assert_eq!(doc.positions[1].x, b"4".to_vec());
}
