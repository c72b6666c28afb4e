use model_pipeline::loader::{load_model, LoadError};

fn load_err(archive: &Vec<u8>) -> LoadError {
    match load_model(archive) {
        Err(e) => e,
        Ok(_) => panic!("expected an error"),
    }
}

fn build_zip(entries: &[(&str, &[u8])]) -> Vec<u8> {
    let mut w = zip::ZipWriter::new(std::io::Cursor::new(Vec::new()));
    let opts = zip::write::SimpleFileOptions::default();
    for (name, data) in entries {
        w.start_file(*name, opts).unwrap();
        std::io::Write::write_all(&mut w, data).unwrap();
    }
    w.finish().unwrap().into_inner()
}

fn png_bytes(width: u32, height: u32, rgba: &[u8]) -> Vec<u8> {
    let img = image::RgbaImage::from_raw(width, height, rgba.to_vec()).unwrap();
    let mut out = std::io::Cursor::new(Vec::new());
    img.write_to(&mut out, image::ImageFormat::Png).unwrap();
    out.into_inner()
}

const TRIANGLES: &[u8] = b"v 0 0 0\nv 1 0 0\nv 0 1 0\nv 1 1 0\nvt 0 0\nvn 0 0 1\n";

#[test]
fn texture_dedup() {
    let png = png_bytes(1, 1, &[10, 20, 30, 255]);
    let obj = [
        TRIANGLES,
        b"mtllib mats.mtl\nusemtl matA\nf 1 2 3\nusemtl matB\nf 1 3 2\n".as_slice(),
    ]
    .concat();
    let mtl = b"newmtl matA\nmap_Kd shared.png\nnewmtl matB\nmap_Kd shared.png\n";
    let archive = build_zip(&[
        ("model.obj", &obj),
        ("mats.mtl", mtl),
        ("shared.png", &png),
    ]);
    let model = load_model(&archive).unwrap();
    assert_eq!(model.textures.len(), 1);
    assert_eq!(model.textures[0].name, b"shared.png".to_vec());
    assert_eq!(model.groups.len(), 2);
    assert_eq!(model.groups[0].texture, model.groups[1].texture);
    assert_eq!(model.groups[0].texture, 0);
}

#[test]
fn group_skip_on_missing_material() {
    let png = png_bytes(1, 1, &[1, 2, 3, 4]);
    let obj = [
        TRIANGLES,
        b"mtllib mats.mtl\nusemtl ghost\nf 1 2 3\nusemtl no_kd\nf 2 3 4\nusemtl good\nf 1 3 4\n"
            .as_slice(),
    ]
    .concat();
    let mtl = b"newmtl no_kd\nmap_Ka amb.png\nnewmtl good\nmap_Kd tex.png\n";
    let archive = build_zip(&[
        ("model.obj", &obj),
        ("mats.mtl", mtl),
        ("tex.png", &png),
        ("amb.png", &png),
    ]);
    let model = load_model(&archive).unwrap();
    assert_eq!(model.groups.len(), 1);
    assert_eq!(model.groups[0].indices, vec![0, 2, 3]);
    assert_eq!(model.textures[model.groups[0].texture].name, b"tex.png".to_vec());
}

#[test]
fn group_without_any_material_is_skipped() {
    let obj = [TRIANGLES, b"f 1 2 3\n".as_slice()].concat();
    let archive = build_zip(&[("model.obj", &obj)]);
    let model = load_model(&archive).unwrap();
    assert_eq!(model.groups.len(), 0);
    assert_eq!(model.textures.len(), 0);
    assert_eq!(model.mesh.positions.len(), 4);
}

#[test]
fn override_order_decides_the_decoded_texture() {
    let png_a = png_bytes(1, 1, &[9, 9, 9, 9]);
    let png_b = png_bytes(1, 1, &[7, 7, 7, 7]);
    let obj = [
        TRIANGLES,
        b"mtllib one.mtl two.mtl\nusemtl M\nf 1 2 3\n".as_slice(),
    ]
    .concat();
    let archive = build_zip(&[
        ("model.obj", &obj),
        ("one.mtl", b"newmtl M\nmap_Kd a.png\n"),
        ("two.mtl", b"newmtl M\nmap_Kd b.png\n"),
        ("a.png", &png_a),
        ("b.png", &png_b),
    ]);
    let model = load_model(&archive).unwrap();
    assert_eq!(model.textures.len(), 1);
    assert_eq!(model.textures[0].name, b"b.png".to_vec());
}

#[test]
fn first_obj_entry_is_the_mesh() {
    let obj = b"v 1 2 3\n";
    let archive = build_zip(&[
        ("readme.txt", b"not a mesh"),
        ("first.obj", obj),
        ("second.obj", b"v 9 9 9\nv 8 8 8\n"),
    ]);
    let model = load_model(&archive).unwrap();
    assert_eq!(model.mesh.positions.len(), 1);
    assert_eq!(model.mesh.positions[0].x, b"1".to_vec());
}

#[test]
fn missing_mesh_entry_is_an_archive_error() {
    let archive = build_zip(&[("readme.txt", b"nothing here")]);
    assert_eq!(load_err(&archive), LoadError::Archive);
}

#[test]
fn garbage_bytes_are_an_archive_error() {
    assert_eq!(load_err(&b"not a zip at all".to_vec()), LoadError::Archive);
}

#[test]
fn malformed_mesh_text_is_a_format_error() {
    let archive = build_zip(&[("model.obj", b"v 1 2\n")]);
    assert_eq!(load_err(&archive), LoadError::Format);
}

#[test]
fn missing_material_library_is_an_archive_error() {
    let obj = [TRIANGLES, b"mtllib gone.mtl\n".as_slice()].concat();
    let archive = build_zip(&[("model.obj", &obj)]);
    assert_eq!(load_err(&archive), LoadError::Archive);
}

#[test]
fn malformed_material_text_is_a_format_error() {
    let obj = [TRIANGLES, b"mtllib bad.mtl\n".as_slice()].concat();
    let archive = build_zip(&[("model.obj", &obj), ("bad.mtl", b"map_Kd orphan.png\n")]);
    assert_eq!(load_err(&archive), LoadError::Format);
}

#[test]
fn missing_texture_file_is_an_archive_error() {
    let obj = [TRIANGLES, b"mtllib m.mtl\nusemtl M\nf 1 2 3\n".as_slice()].concat();
    let archive = build_zip(&[("model.obj", &obj), ("m.mtl", b"newmtl M\nmap_Kd gone.png\n")]);
    assert_eq!(load_err(&archive), LoadError::Archive);
}

#[test]
fn undecodable_texture_is_a_format_error() {
    let obj = [TRIANGLES, b"mtllib m.mtl\nusemtl M\nf 1 2 3\n".as_slice()].concat();
    let archive = build_zip(&[
        ("model.obj", &obj),
        ("m.mtl", b"newmtl M\nmap_Kd t.png\n"),
        ("t.png", b"these are not image bytes"),
    ]);
    assert_eq!(load_err(&archive), LoadError::Format);
}

#[test]
fn textures_decode_to_rgba_bytes() {
    let rgba: [u8; 8] = [255, 0, 0, 255, 0, 255, 0, 128];
    let png = png_bytes(2, 1, &rgba);
    let obj = [TRIANGLES, b"mtllib m.mtl\nusemtl M\nf 1 2 3\n".as_slice()].concat();
    let archive = build_zip(&[
        ("model.obj", &obj),
        ("m.mtl", b"newmtl M\nmap_Kd t.png\n"),
        ("t.png", &png),
    ]);
    let model = load_model(&archive).unwrap();
    let tex = &model.textures[0];
    assert_eq!(tex.image.width, 2);
    assert_eq!(tex.image.height, 1);
    assert_eq!(tex.image.pixels, rgba.to_vec());
    assert_ne!(tex.image.pixels, png);
}

#[test]
fn unused_materials_contribute_no_textures() {
    let png = png_bytes(1, 1, &[5, 5, 5, 5]);
    let obj = [TRIANGLES, b"mtllib m.mtl\nusemtl used\nf 1 2 3\n".as_slice()].concat();
    let mtl = b"newmtl used\nmap_Kd u.png\nnewmtl idle\nmap_Kd unused.png\n";
    let archive = build_zip(&[("model.obj", &obj), ("m.mtl", mtl), ("u.png", &png)]);
    let model = load_model(&archive).unwrap();
    assert_eq!(model.textures.len(), 1);
    assert_eq!(model.textures[0].name, b"u.png".to_vec());
}

#[test]
fn ambient_and_specular_channels_are_decoded_once_each() {
    let png = png_bytes(1, 1, &[1, 1, 1, 1]);
    let obj = [TRIANGLES, b"mtllib m.mtl\nusemtl M\nf 1 2 3\n".as_slice()].concat();
    let mtl = b"newmtl M\nmap_Ka shared.png\nmap_Kd shared.png\nmap_Ks spec.png\n";
    let archive = build_zip(&[
        ("model.obj", &obj),
        ("m.mtl", mtl),
        ("shared.png", &png),
        ("spec.png", &png),
    ]);
    let model = load_model(&archive).unwrap();
    assert_eq!(model.textures.len(), 2);
    assert_eq!(model.textures[0].name, b"shared.png".to_vec());
    assert_eq!(model.textures[1].name, b"spec.png".to_vec());
    assert_eq!(model.groups[0].texture, 0);
}

#[test]
fn face_indices_flatten_in_order() {
    let obj = [
        TRIANGLES,
        b"mtllib m.mtl\nusemtl M\nf 4/1/1 3/1/1 2/1/1\nf 1 2 4\n".as_slice(),
    ]
    .concat();
    let png = png_bytes(1, 1, &[0, 0, 0, 0]);
    let archive = build_zip(&[
        ("model.obj", &obj),
        ("m.mtl", b"newmtl M\nmap_Kd t.png\n"),
        ("t.png", &png),
    ]);
    let model = load_model(&archive).unwrap();
    assert_eq!(model.groups.len(), 1);
    assert_eq!(model.groups[0].indices, vec![3, 2, 1, 0, 1, 3]);
}
