use model_pipeline::material::{parse_mtl, MaterialTable};

#[test]
fn parses_materials_and_channels() {
    let src = b"newmtl skin\nKa 1 1 1\nmap_Ka amb.png\nmap_Kd diff.png\nnewmtl eyes\nmap_Ks spec.png\n";
    let defs = parse_mtl(&src.to_vec()).unwrap();
    assert_eq!(defs.len(), 2);
    assert_eq!(defs[0].name, b"skin".to_vec());
    assert_eq!(defs[0].map_ka, Some(b"amb.png".to_vec()));
    assert_eq!(defs[0].map_kd, Some(b"diff.png".to_vec()));
    assert_eq!(defs[0].map_ks, None);
    assert_eq!(defs[1].name, b"eyes".to_vec());
    assert_eq!(defs[1].map_ka, None);
    assert_eq!(defs[1].map_ks, Some(b"spec.png".to_vec()));
}

#[test]
fn channel_directive_before_any_material_is_an_error() {
    assert!(parse_mtl(&b"map_Kd lost.png\n".to_vec()).is_none());
}

#[test]
fn bare_newmtl_is_an_error() {
    assert!(parse_mtl(&b"newmtl\n".to_vec()).is_none());
}

#[test]
fn unknown_directives_are_skipped() {
    let defs = parse_mtl(&b"# comment\nnewmtl m\nNs 96\nillum 2\nd 1.0\n".to_vec()).unwrap();
    assert_eq!(defs.len(), 1);
    assert_eq!(defs[0].map_kd, None);
}

#[test]
fn material_override_order() {
    let lib_a = parse_mtl(&b"newmtl M\nmap_Kd first.png\n".to_vec()).unwrap();
    let lib_b = parse_mtl(&b"newmtl M\nmap_Kd second.png\n".to_vec()).unwrap();
    let mut table = MaterialTable::new();
    table.merge_lib(lib_a);
    table.merge_lib(lib_b);
    let m = table.lookup(&b"M".to_vec()).unwrap();
    assert_eq!(m.map_kd, Some(b"second.png".to_vec()));
}

#[test]
fn later_definition_wins_within_one_library() {
    let lib = parse_mtl(&b"newmtl M\nmap_Kd a.png\nnewmtl M\nmap_Kd b.png\n".to_vec()).unwrap();
    let mut table = MaterialTable::new();
    table.merge_lib(lib);
    let m = table.lookup(&b"M".to_vec()).unwrap();
    assert_eq!(m.map_kd, Some(b"b.png".to_vec()));
}

#[test]
fn unmerged_names_do_not_resolve() {
    let mut table = MaterialTable::new();
    table.merge_lib(parse_mtl(&b"newmtl a\n".to_vec()).unwrap());
    assert!(table.lookup(&b"b".to_vec()).is_none());
}
