use model_pipeline::entity::{cube_indices, Cube, Drawable, Mario, Object, ObjectData, Scene};
use model_pipeline::loader::load_model;
use model_pipeline::pipeline::{load_indices, IndexSlice, Pipeline, PipelineDraw, Vec3Fixed};

#[test]
fn new_pipeline_starts_from_the_init_record() {
    let p = Pipeline::new(7);
    assert_eq!(p.state, 7);
    assert_eq!(p.data.vbuf, 0);
    assert_eq!(p.data.mvp, 0);
    assert_eq!(p.data.camera, 0);
    assert_eq!(p.data.texture, 0);
    assert_eq!(p.data.pose.position, Vec3Fixed { x: 0, y: 0, z: 0 });
    assert_eq!(p.data.pose.angle_milli, 0);
    assert_eq!(p.data.pose.scale_milli, 1000);
    assert_eq!(p.data.light, Vec3Fixed { x: 0, y: 0, z: 0 });
}

#[test]
fn load_indices_covers_the_full_range() {
    let s = load_indices(9, 5);
    assert_eq!(s, IndexSlice { start: 0, end: 5, buffer: 9 });
}

#[test]
fn cube_index_table_is_the_six_faces() {
    let idx = cube_indices();
    assert_eq!(idx.len(), 36);
    assert_eq!(
        idx,
        vec![
            0u16, 1, 2, 2, 3, 0, 4, 6, 5, 6, 4, 7, 8, 9, 10, 10, 11, 8, 12, 14, 13, 14, 12, 15,
            16, 18, 17, 18, 16, 19, 20, 21, 22, 22, 23, 20,
        ]
    );
}

#[test]
fn draw_isolation() {
    let mut p = Pipeline::new(7);
    let mut scene = Scene::new(7);
    scene.update(11, 22);
    let a = ObjectData::new(7, 100, 101, 3, 200);
    let b = ObjectData::new(7, 300, 301, 6, 400);

    let _ = p.draw(&scene);
    let call_a = p.draw(&a);
    assert_eq!(call_a.record.vbuf, 100);
    assert_eq!(call_a.record.texture, 200);

    let call_b = p.draw(&b);
    assert_eq!(call_b.state, 7);
    assert_eq!(call_b.slice, IndexSlice { start: 0, end: 6, buffer: 301 });
    assert_eq!(call_b.record.vbuf, 300);
    assert_eq!(call_b.record.texture, 400);
    assert_eq!(call_b.record.pose, b.pose);
    assert_ne!(call_b.record.vbuf, call_a.record.vbuf);
    assert_eq!(call_b.record.mvp, 11);
    assert_eq!(call_b.record.camera, 22);
    assert_eq!(call_b.record.light, Vec3Fixed { x: 2000, y: 0, z: 2000 });
}

#[test]
fn scene_owns_the_camera_fields_only() {
    let mut p = Pipeline::new(1);
    let a = ObjectData::new(1, 50, 51, 3, 52);
    let _ = p.draw(&a);
    let mut scene = Scene::new(1);
    scene.update(33, 44);
    let call = p.draw(&scene);
    assert_eq!(call.slice.end, 0);
    assert_eq!(call.record.mvp, 33);
    assert_eq!(call.record.camera, 44);
    assert_eq!(call.record.vbuf, 50);
    assert_eq!(call.record.texture, 52);
}

#[test]
fn clone_independence() {
    let proto = Cube::new(7, 1, 2, 3);
    let mut c1 = proto.clone_to(Vec3Fixed { x: 1_000_000, y: 0, z: 0 });
    let mut c2 = proto.clone_to(Vec3Fixed { x: 2_000_000, y: 0, z: 0 });
    c1.velocity = Vec3Fixed { x: 1000, y: 0, z: 0 };
    c2.time_offset_milli = 250;

    c1.update(2000);
    c2.update(2000);

    assert_eq!(c1.model.pipeline, proto.model.pipeline);
    assert_eq!(c1.model.vertices, proto.model.vertices);
    assert_eq!(c1.model.indices, proto.model.indices);
    assert_eq!(c1.model.texture, proto.model.texture);
    assert_eq!(c2.model.vertices, proto.model.vertices);

    assert_eq!(c1.model.pose.position.x, 1_000_000 + 1000 * 2000);
    assert_eq!(c2.model.pose.position.x, 2_000_000);
    assert_ne!(c1.model.pose.position, c2.model.pose.position);
    assert_eq!(c1.model.pose.angle_milli, 2000);
    assert_eq!(c2.model.pose.angle_milli, 2250);
    assert_eq!(c1.model.pose.scale_milli, 100);
    assert_eq!(proto.model.pose.scale_milli, 1000);
}

fn tiny_model() -> model_pipeline::loader::LoadedModel {
    let mut w = zip::ZipWriter::new(std::io::Cursor::new(Vec::new()));
    let opts = zip::write::SimpleFileOptions::default();
    let img = image::RgbaImage::from_raw(1, 1, vec![1, 2, 3, 4]).unwrap();
    let mut png = std::io::Cursor::new(Vec::new());
    img.write_to(&mut png, image::ImageFormat::Png).unwrap();
    let obj = b"v 0 0 0\nv 1 0 0\nv 0 1 0\nmtllib m.mtl\nusemtl a\nf 1 2 3\nusemtl b\nf 1 3 2\n";
    let mtl = b"newmtl a\nmap_Kd t.png\nnewmtl b\nmap_Kd t.png\n";
    for (name, data) in [
        ("model.obj", obj.as_slice()),
        ("m.mtl", mtl.as_slice()),
        ("t.png", png.get_ref().as_slice()),
    ] {
        w.start_file(name, opts).unwrap();
        std::io::Write::write_all(&mut w, data).unwrap();
    }
    load_model(&w.finish().unwrap().into_inner()).unwrap()
}

#[test]
fn model_draws_every_group_in_order() {
    let model = tiny_model();
    assert_eq!(model.groups.len(), 2);
    let index_buffers = vec![10u64, 11u64];
    let texture_ids = vec![20u64];
    let m: Mario = Object::new(7, 5, &index_buffers, &texture_ids, &model);
    assert_eq!(m.groups.len(), 2);
    assert_eq!(m.groups[0].texture, 20);
    assert_eq!(m.groups[1].texture, 20);
    assert_eq!(m.groups[0].indices, IndexSlice { start: 0, end: 3, buffer: 10 });
    assert_eq!(m.groups[1].indices, IndexSlice { start: 0, end: 3, buffer: 11 });

    let mut p = Pipeline::new(7);
    let calls = m.draw(&mut p);
    assert_eq!(calls.len(), 2);
    assert_eq!(calls[0].slice.buffer, 10);
    assert_eq!(calls[1].slice.buffer, 11);
    assert_eq!(calls[0].record.vbuf, 5);
    assert_eq!(p.data, calls[1].record);
}

#[test]
fn model_update_moves_every_group() {
    let model = tiny_model();
    let index_buffers = vec![10u64, 11u64];
    let texture_ids = vec![20u64];
    let proto = Object::new(7, 5, &index_buffers, &texture_ids, &model);
    let mut a = proto.clone_to(
        Vec3Fixed { x: 500_000, y: 0, z: 0 },
        Vec3Fixed { x: 0, y: 2000, z: 0 },
        125,
    );
    a.update(1000);
    for g in &a.groups {
        assert_eq!(g.pose.position, Vec3Fixed { x: 500_000, y: 2_000_000, z: 0 });
        assert_eq!(g.pose.angle_milli, 1125);
        assert_eq!(g.pose.axis, Vec3Fixed { x: 0, y: 1000, z: 0 });
    }
    assert_eq!(a.groups[0].vertices, proto.groups[0].vertices);
}

#[test]
fn object_load_matches_load_model() {
    let mut w = zip::ZipWriter::new(std::io::Cursor::new(Vec::new()));
    let opts = zip::write::SimpleFileOptions::default();
    w.start_file("head.obj", opts).unwrap();
    std::io::Write::write_all(&mut w, b"v 1 2 3\n").unwrap();
    let bytes = w.finish().unwrap().into_inner();
    let model = Object::load(&bytes).unwrap();
    assert_eq!(model.mesh.positions.len(), 1);
    assert_eq!(model.groups.len(), 0);
}
