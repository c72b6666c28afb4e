//! The mesh-description parser. The format is line-based, OBJ-like:
//! `v x y z` position rows, `vn`/`vt` normal and texture-coordinate rows,
//! `mtllib` material-library references, `usemtl` material selection,
//! `g`/`o` group naming, and `f` faces whose vertices are 1-based
//! `v/vt/vn` index triples. Coordinates are not interpreted here: they are
//! kept as raw numeric tokens for the embedding program to convert, since
//! nothing in the loading logic reads them. Faces are gathered into geometry
//! groups: a group is a maximal run of faces under one (name, material)
//! pair, in file order.

use vstd::prelude::*;

verus! {

use crate::text::{
    bytes_eq,
    copy_bytes,
    lemma_bytes_deep_view,
    lemma_split_slash_len,
    lines_of,
    parse_u32,
    parse_u32_spec,
    slash_fields_of,
    split_lines,
    split_slash,
    split_tokens,
    tokens_of,
};

/// A coordinate row kept as raw tokens.
pub struct Vec3Text {
    pub x: Vec<u8>,
    pub y: Vec<u8>,
    pub z: Vec<u8>,
}

#[verifier::ext_equal]
pub struct Vec3TextView {
    pub x: Seq<u8>,
    pub y: Seq<u8>,
    pub z: Seq<u8>,
}

impl View for Vec3Text {
    type V = Vec3TextView;

    open spec fn view(&self) -> Vec3TextView {
        Vec3TextView { x: self.x@, y: self.y@, z: self.z@ }
    }
}

/// A texture-coordinate row kept as raw tokens.
pub struct Vec2Text {
    pub u: Vec<u8>,
    pub v: Vec<u8>,
}

#[verifier::ext_equal]
pub struct Vec2TextView {
    pub u: Seq<u8>,
    pub v: Seq<u8>,
}

impl View for Vec2Text {
    type V = Vec2TextView;

    open spec fn view(&self) -> Vec2TextView {
        Vec2TextView { u: self.u@, v: self.v@ }
    }
}

/// One face vertex: 0-based indices into the position, texture-coordinate
/// and normal lists.
#[derive(Clone, Copy, Debug)]
pub struct FaceVertex {
    pub v: u32,
    pub vt: Option<u32>,
    pub vn: Option<u32>,
}

/// A geometry group: a maximal run of faces sharing one group name and one
/// material reference.
pub struct GeomGroup {
    pub name: Vec<u8>,
    pub material: Option<Vec<u8>>,
    pub faces: Vec<Vec<FaceVertex>>,
}

#[verifier::ext_equal]
pub struct GeomGroupView {
    pub name: Seq<u8>,
    pub material: Option<Seq<u8>>,
    pub faces: Seq<Seq<FaceVertex>>,
}

impl View for GeomGroup {
    type V = GeomGroupView;

    open spec fn view(&self) -> GeomGroupView {
        GeomGroupView {
            name: self.name@,
            material: match self.material {
                Some(m) => Some(m@),
                None => None,
            },
            faces: Seq::new(self.faces@.len(), |i: int| self.faces@[i]@),
        }
    }
}

/// A parsed mesh description.
pub struct MeshDoc {
    pub positions: Vec<Vec3Text>,
    pub normals: Vec<Vec3Text>,
    pub texcoords: Vec<Vec2Text>,
    pub material_libs: Vec<Vec<u8>>,
    pub groups: Vec<GeomGroup>,
}

#[verifier::ext_equal]
pub struct MeshDocView {
    pub positions: Seq<Vec3TextView>,
    pub normals: Seq<Vec3TextView>,
    pub texcoords: Seq<Vec2TextView>,
    pub material_libs: Seq<Seq<u8>>,
    pub groups: Seq<GeomGroupView>,
}

impl View for MeshDoc {
    type V = MeshDocView;

    open spec fn view(&self) -> MeshDocView {
        MeshDocView {
            positions: Seq::new(self.positions@.len(), |i: int| self.positions@[i]@),
            normals: Seq::new(self.normals@.len(), |i: int| self.normals@[i]@),
            texcoords: Seq::new(self.texcoords@.len(), |i: int| self.texcoords@[i]@),
            material_libs: Seq::new(self.material_libs@.len(), |i: int| self.material_libs@[i]@),
            groups: Seq::new(self.groups@.len(), |i: int| self.groups@[i]@),
        }
    }
}

/// The parser state: the document built so far plus the active group name
/// and the active material.
pub struct ObjBuilder {
    pub doc: MeshDoc,
    pub cur_name: Vec<u8>,
    pub cur_mtl: Option<Vec<u8>>,
}

#[verifier::ext_equal]
pub struct ObjState {
    pub doc: MeshDocView,
    pub cur_name: Seq<u8>,
    pub cur_mtl: Option<Seq<u8>>,
}

impl View for ObjBuilder {
    type V = ObjState;

    open spec fn view(&self) -> ObjState {
        ObjState {
            doc: self.doc@,
            cur_name: self.cur_name@,
            cur_mtl: match self.cur_mtl {
                Some(m) => Some(m@),
                None => None,
            },
        }
    }
}

pub open spec fn kw_v() -> Seq<u8> {
    seq![118u8]
}

pub open spec fn kw_vn() -> Seq<u8> {
    seq![118u8, 110u8]
}

pub open spec fn kw_vt() -> Seq<u8> {
    seq![118u8, 116u8]
}

pub open spec fn kw_g() -> Seq<u8> {
    seq![103u8]
}

pub open spec fn kw_o() -> Seq<u8> {
    seq![111u8]
}

pub open spec fn kw_f() -> Seq<u8> {
    seq![102u8]
}

pub open spec fn kw_mtllib() -> Seq<u8> {
    seq![109u8, 116u8, 108u8, 108u8, 105u8, 98u8]
}

pub open spec fn kw_usemtl() -> Seq<u8> {
    seq![117u8, 115u8, 101u8, 109u8, 116u8, 108u8]
}

/// A face-vertex index field: a 1-based decimal index, made 0-based.
pub open spec fn parse_idx(t: Seq<u8>) -> Option<u32> {
    match parse_u32_spec(t) {
        None => None,
        Some(v) => if v == 0 {
            None
        } else {
            Some((v - 1) as u32)
        },
    }
}

/// An optional index field: missing or empty means absent; present means a
/// well-formed index or the whole face vertex is malformed.
pub open spec fn parse_opt_idx(fields: Seq<Seq<u8>>, i: int) -> Option<Option<u32>> {
    if fields.len() <= i || fields[i].len() == 0 {
        Some(None)
    } else {
        match parse_idx(fields[i]) {
            None => None,
            Some(v) => Some(Some(v)),
        }
    }
}

/// One face-vertex token `v`, `v/vt`, `v//vn` or `v/vt/vn`.
pub open spec fn parse_face_vertex_spec(tok: Seq<u8>) -> Option<FaceVertex> {
    let fields = split_slash(tok);
    if fields.len() > 3 {
        None
    } else {
        match parse_idx(fields[0]) {
            None => None,
            Some(v) => match parse_opt_idx(fields, 1) {
                None => None,
                Some(vt) => match parse_opt_idx(fields, 2) {
                    None => None,
                    Some(vn) => Some(FaceVertex { v, vt, vn }),
                },
            },
        }
    }
}

/// The face vertices named by tokens `i..` of an `f` line.
pub open spec fn parse_face_list(toks: Seq<Seq<u8>>, i: int) -> Option<Seq<FaceVertex>>
    decreases toks.len() - i,
{
    if i >= toks.len() {
        Some(seq![])
    } else {
        match parse_face_vertex_spec(toks[i]) {
            None => None,
            Some(fv) => match parse_face_list(toks, i + 1) {
                None => None,
                Some(r) => Some(seq![fv] + r),
            },
        }
    }
}

/// Adds one face under the active (name, material) pair: it extends the
/// last group when that group carries the same pair, else it opens a new
/// group.
pub open spec fn add_face(st: ObjState, face: Seq<FaceVertex>) -> ObjState {
    let gs = st.doc.groups;
    if gs.len() > 0 && gs.last().name == st.cur_name && gs.last().material == st.cur_mtl {
        let g = gs.last();
        ObjState {
            doc: MeshDocView {
                groups: gs.update(
                    gs.len() - 1,
                    GeomGroupView { name: g.name, material: g.material, faces: g.faces.push(face) },
                ),
                ..st.doc
            },
            ..st
        }
    } else {
        ObjState {
            doc: MeshDocView {
                groups: gs.push(
                    GeomGroupView { name: st.cur_name, material: st.cur_mtl, faces: seq![face] },
                ),
                ..st.doc
            },
            ..st
        }
    }
}

/// One line of the mesh description. Unknown keywords, comments and blank
/// lines are skipped; a recognised keyword with malformed arguments is a
/// format error (`None`).
pub open spec fn obj_step(st: ObjState, line: Seq<u8>) -> Option<ObjState> {
    let toks = split_tokens(line);
    if toks.len() == 0 {
        Some(st)
    } else if toks[0] == kw_v() {
        if toks.len() >= 4 {
            Some(
                ObjState {
                    doc: MeshDocView {
                        positions: st.doc.positions.push(
                            Vec3TextView { x: toks[1], y: toks[2], z: toks[3] },
                        ),
                        ..st.doc
                    },
                    ..st
                },
            )
        } else {
            None
        }
    } else if toks[0] == kw_vn() {
        if toks.len() >= 4 {
            Some(
                ObjState {
                    doc: MeshDocView {
                        normals: st.doc.normals.push(
                            Vec3TextView { x: toks[1], y: toks[2], z: toks[3] },
                        ),
                        ..st.doc
                    },
                    ..st
                },
            )
        } else {
            None
        }
    } else if toks[0] == kw_vt() {
        if toks.len() >= 3 {
            Some(
                ObjState {
                    doc: MeshDocView {
                        texcoords: st.doc.texcoords.push(Vec2TextView { u: toks[1], v: toks[2] }),
                        ..st.doc
                    },
                    ..st
                },
            )
        } else {
            None
        }
    } else if toks[0] == kw_mtllib() {
        Some(
            ObjState {
                doc: MeshDocView { material_libs: st.doc.material_libs + toks.skip(1), ..st.doc },
                ..st
            },
        )
    } else if toks[0] == kw_usemtl() {
        if toks.len() >= 2 {
            Some(ObjState { cur_mtl: Some(toks[1]), ..st })
        } else {
            None
        }
    } else if toks[0] == kw_g() || toks[0] == kw_o() {
        Some(
            ObjState {
                cur_name: if toks.len() >= 2 {
                    toks[1]
                } else {
                    seq![]
                },
                ..st
            },
        )
    } else if toks[0] == kw_f() {
        if toks.len() >= 4 {
            match parse_face_list(toks, 1) {
                None => None,
                Some(face) => Some(add_face(st, face)),
            }
        } else {
            None
        }
    } else {
        Some(st)
    }
}

/// The parser state after the given lines, starting from `st`.
pub open spec fn obj_fold(lines: Seq<Seq<u8>>, st: ObjState) -> Option<ObjState>
    decreases lines.len(),
{
    if lines.len() == 0 {
        Some(st)
    } else {
        match obj_step(st, lines[0]) {
            None => None,
            Some(st2) => obj_fold(lines.drop_first(), st2),
        }
    }
}

/// The initial parser state: an empty document, the unnamed group, no
/// active material.
pub open spec fn init_obj_state() -> ObjState {
    ObjState {
        doc: MeshDocView {
            positions: seq![],
            normals: seq![],
            texcoords: seq![],
            material_libs: seq![],
            groups: seq![],
        },
        cur_name: seq![],
        cur_mtl: None,
    }
}

/// What a mesh description means: the document left by folding every line,
/// or a format error.
pub open spec fn parse_obj_spec(data: Seq<u8>) -> Option<MeshDocView> {
    match obj_fold(split_lines(data), init_obj_state()) {
        None => None,
        Some(st) => Some(st.doc),
    }
}

/// Parses one face-vertex token, exactly as `parse_face_vertex_spec`.
fn parse_face_vertex(tok: &Vec<u8>) -> (r: Option<FaceVertex>)
    ensures
        r == parse_face_vertex_spec(tok@),
{
    broadcast use lemma_bytes_deep_view;

    let fields = slash_fields_of(tok);
    let ghost fv = split_slash(tok@);
    proof {
        assert(fields@.len() == fv.len());
        assert(forall|i: int| 0 <= i < fields@.len() ==> fields@[i]@ == #[trigger] fv[i]);
        lemma_split_slash_len(tok@, Seq::<u8>::empty());
        assert(Seq::<u8>::empty() =~= seq![]);
        assert(fields@.len() >= 1);
    }
    if fields.len() > 3 {
        return None;
    }
    let v0 = match parse_u32(&fields[0]) {
        None => {
            return None;
        },
        Some(v) => v,
    };
    if v0 == 0 {
        return None;
    }
    let vt: Option<u32> = if fields.len() <= 1 || fields[1].len() == 0 {
        None
    } else {
        match parse_u32(&fields[1]) {
            None => {
                return None;
            },
            Some(v) => {
                if v == 0 {
                    return None;
                }
                Some(v - 1)
            },
        }
    };
    let vn: Option<u32> = if fields.len() <= 2 || fields[2].len() == 0 {
        None
    } else {
        match parse_u32(&fields[2]) {
            None => {
                return None;
            },
            Some(v) => {
                if v == 0 {
                    return None;
                }
                Some(v - 1)
            },
        }
    };
    Some(FaceVertex { v: v0 - 1, vt, vn })
}

/// Prepending already-parsed face vertices to the rest of a face.
pub open spec fn opt_prepend(pre: Seq<FaceVertex>, o: Option<Seq<FaceVertex>>) -> Option<
    Seq<FaceVertex>,
> {
    match o {
        None => None,
        Some(r) => Some(pre + r),
    }
}

/// Parses the face vertices of an `f` line (tokens `1..`), exactly as
/// `parse_face_list` describes.
fn parse_face_tokens(toks: &Vec<Vec<u8>>) -> (r: Option<Vec<FaceVertex>>)
    requires
        toks.len() >= 1,
    ensures
        match r {
            Some(f) => parse_face_list(toks.deep_view(), 1) == Some(f@),
            None => parse_face_list(toks.deep_view(), 1) is None,
        },
{
    broadcast use lemma_bytes_deep_view;

    let ghost tv = toks.deep_view();
    proof {
        assert(tv.len() == toks@.len());
        assert(forall|i: int| 0 <= i < toks@.len() ==> toks@[i]@ == #[trigger] tv[i]);
    }
    let mut face: Vec<FaceVertex> = Vec::new();
    let mut j: usize = 1;
    proof {
        match parse_face_list(tv, 1) {
            None => {},
            Some(r) => {
                assert(face@ + r =~= r);
            },
        }
    }
    while j < toks.len()
        invariant
            1 <= j <= toks.len(),
            tv == toks.deep_view(),
            tv.len() == toks@.len(),
            forall|i: int| 0 <= i < toks@.len() ==> toks@[i]@ == #[trigger] tv[i],
            opt_prepend(face@, parse_face_list(tv, j as int)) == parse_face_list(tv, 1),
        decreases toks.len() - j,
    {
        let fv = match parse_face_vertex(&toks[j]) {
            None => {
                return None;
            },
            Some(fv) => fv,
        };
        let ghost pre = face@;
        face.push(fv);
        proof {
            match parse_face_list(tv, j + 1) {
                None => {},
                Some(r) => {
                    assert(pre + (seq![fv] + r) =~= face@ + r);
                },
            }
        }
        j = j + 1;
    }
    proof {
        assert(parse_face_list(tv, j as int) == Some(Seq::<FaceVertex>::empty()));
        assert(face@ + Seq::<FaceVertex>::empty() =~= face@);
    }
    Some(face)
}

/// Adds one parsed face to the builder, exactly as `add_face` describes.
fn apply_face(st: ObjBuilder, face: Vec<FaceVertex>) -> (r: ObjBuilder)
    ensures
        r@ == add_face(st@, face@),
{
    let ghost st0 = st@;
    let mut st = st;
    let n = st.doc.groups.len();
    let mut extend_last = false;
    if n > 0 {
        let g = &st.doc.groups[n - 1];
        let name_match = bytes_eq(&g.name, &st.cur_name);
        let mtl_match = match (&g.material, &st.cur_mtl) {
            (Some(a), Some(b)) => bytes_eq(a, b),
            (None, None) => true,
            _ => false,
        };
        extend_last = name_match && mtl_match;
        proof {
            assert(st0.doc.groups.last() == st.doc.groups@[n - 1]@);
            assert(extend_last == (st0.doc.groups.last().name == st0.cur_name
                && st0.doc.groups.last().material == st0.cur_mtl));
        }
    }
    if extend_last {
        let mut g = st.doc.groups.remove(n - 1);
        g.faces.push(face);
        st.doc.groups.push(g);
        proof {
            let spec_g = GeomGroupView {
                name: st0.doc.groups.last().name,
                material: st0.doc.groups.last().material,
                faces: st0.doc.groups.last().faces.push(face@),
            };
            assert(g@ =~~= spec_g);
            assert(st@.doc.groups =~~= st0.doc.groups.update(st0.doc.groups.len() - 1, spec_g));
            assert(st@ =~~= add_face(st0, face@));
        }
    } else {
        let material = match &st.cur_mtl {
            Some(m) => Some(copy_bytes(m)),
            None => None,
        };
        let mut faces: Vec<Vec<FaceVertex>> = Vec::new();
        faces.push(face);
        let g = GeomGroup { name: copy_bytes(&st.cur_name), material, faces };
        st.doc.groups.push(g);
        proof {
            let spec_g = GeomGroupView {
                name: st0.cur_name,
                material: st0.cur_mtl,
                faces: seq![face@],
            };
            assert(st@.doc.groups =~~= st0.doc.groups.push(spec_g));
            assert(st@ =~~= add_face(st0, face@));
        }
    }
    st
}

/// Appends the library names of an `mtllib` line (tokens `1..`).
fn extend_libs(libs: &mut Vec<Vec<u8>>, toks: &Vec<Vec<u8>>)
    requires
        toks.len() >= 1,
    ensures
        final(libs).deep_view() == old(libs).deep_view() + toks.deep_view().skip(1),
{
    broadcast use lemma_bytes_deep_view;

    let ghost l0 = libs.deep_view();
    let ghost tv = toks.deep_view();
    proof {
        assert(forall|i: int| 0 <= i < toks@.len() ==> toks@[i]@ == #[trigger] tv[i]);
    }
    let mut j: usize = 1;
    proof {
        assert(l0 + tv.subrange(1, 1) =~= l0);
    }
    while j < toks.len()
        invariant
            1 <= j <= toks.len(),
            tv == toks.deep_view(),
            tv.len() == toks@.len(),
            forall|i: int| 0 <= i < toks@.len() ==> toks@[i]@ == #[trigger] tv[i],
            libs.deep_view() == l0 + tv.subrange(1, j as int),
        decreases toks.len() - j,
    {
        let ghost pre = libs.deep_view();
        libs.push(copy_bytes(&toks[j]));
        proof {
            assert(libs.deep_view() =~~= pre.push(tv[j as int]));
            assert((l0 + tv.subrange(1, j as int)).push(tv[j as int]) =~~= l0 + tv.subrange(
                1,
                j + 1,
            ));
        }
        j = j + 1;
    }
    proof {
        assert(tv.subrange(1, j as int) =~= tv.skip(1));
    }
}

/// Runs one line through the parser, exactly as `obj_step` describes.
fn obj_step_exec(st: ObjBuilder, line: &Vec<u8>) -> (r: Option<ObjBuilder>)
    ensures
        match r {
            Some(st2) => obj_step(st@, line@) == Some(st2@),
            None => obj_step(st@, line@) is None,
        },
{
    broadcast use lemma_bytes_deep_view;

    let ghost st0 = st@;
    let toks = tokens_of(line);
    let ghost tv = split_tokens(line@);
    proof {
        assert(toks.deep_view() == tv);
        assert(tv.len() == toks@.len());
        assert(forall|i: int| 0 <= i < toks@.len() ==> toks@[i]@ == #[trigger] tv[i]);
    }
    if toks.len() == 0 {
        return Some(st);
    }
    let t0 = &toks[0];
    if t0.len() == 1 && t0[0] == 118 {
        // `v`: a position row
        proof {
            assert(t0@ =~= kw_v());
        }
        if toks.len() >= 4 {
            let mut st = st;
            st.doc.positions.push(
                Vec3Text {
                    x: copy_bytes(&toks[1]),
                    y: copy_bytes(&toks[2]),
                    z: copy_bytes(&toks[3]),
                },
            );
            proof {
                assert(st@.doc.positions =~~= st0.doc.positions.push(
                    Vec3TextView { x: tv[1], y: tv[2], z: tv[3] },
                ));
                assert(st@ =~~= ObjState {
                    doc: MeshDocView {
                        positions: st0.doc.positions.push(
                            Vec3TextView { x: tv[1], y: tv[2], z: tv[3] },
                        ),
                        ..st0.doc
                    },
                    ..st0
                });
            }
            Some(st)
        } else {
            None
        }
    } else if t0.len() == 2 && t0[0] == 118 && t0[1] == 110 {
        // `vn`: a normal row
        proof {
            assert(t0@ =~= kw_vn());
        }
        if toks.len() >= 4 {
            let mut st = st;
            st.doc.normals.push(
                Vec3Text {
                    x: copy_bytes(&toks[1]),
                    y: copy_bytes(&toks[2]),
                    z: copy_bytes(&toks[3]),
                },
            );
            proof {
                assert(st@.doc.normals =~~= st0.doc.normals.push(
                    Vec3TextView { x: tv[1], y: tv[2], z: tv[3] },
                ));
                assert(st@ =~~= ObjState {
                    doc: MeshDocView {
                        normals: st0.doc.normals.push(
                            Vec3TextView { x: tv[1], y: tv[2], z: tv[3] },
                        ),
                        ..st0.doc
                    },
                    ..st0
                });
            }
            Some(st)
        } else {
            None
        }
    } else if t0.len() == 2 && t0[0] == 118 && t0[1] == 116 {
        // `vt`: a texture-coordinate row
        proof {
            assert(t0@ =~= kw_vt());
        }
        if toks.len() >= 3 {
            let mut st = st;
            st.doc.texcoords.push(
                Vec2Text { u: copy_bytes(&toks[1]), v: copy_bytes(&toks[2]) },
            );
            proof {
                assert(st@.doc.texcoords =~~= st0.doc.texcoords.push(
                    Vec2TextView { u: tv[1], v: tv[2] },
                ));
                assert(st@ =~~= ObjState {
                    doc: MeshDocView {
                        texcoords: st0.doc.texcoords.push(Vec2TextView { u: tv[1], v: tv[2] }),
                        ..st0.doc
                    },
                    ..st0
                });
            }
            Some(st)
        } else {
            None
        }
    } else if t0.len() == 6 && t0[0] == 109 && t0[1] == 116 && t0[2] == 108 && t0[3] == 108
        && t0[4] == 105 && t0[5] == 98 {
        // `mtllib`: material-library references
        proof {
            assert(t0@ =~= kw_mtllib());
        }
        let mut st = st;
        proof {
            assert(st.doc.material_libs.deep_view() =~~= st0.doc.material_libs);
        }
        let ghost l0 = st.doc.material_libs.deep_view();
        extend_libs(&mut st.doc.material_libs, &toks);
        proof {
            assert(st.doc.material_libs.deep_view() == l0 + tv.skip(1));
            assert(st@.doc.material_libs =~~= st.doc.material_libs.deep_view());
            assert(st@.doc.material_libs == st0.doc.material_libs + tv.skip(1));
            assert(st@ =~~= ObjState {
                doc: MeshDocView { material_libs: st0.doc.material_libs + tv.skip(1), ..st0.doc },
                ..st0
            });
        }
        Some(st)
    } else if t0.len() == 6 && t0[0] == 117 && t0[1] == 115 && t0[2] == 101 && t0[3] == 109
        && t0[4] == 116 && t0[5] == 108 {
        // `usemtl`: select the active material
        proof {
            assert(t0@ =~= kw_usemtl());
        }
        if toks.len() >= 2 {
            let mut st = st;
            st.cur_mtl = Some(copy_bytes(&toks[1]));
            proof {
                assert(st@ =~~= ObjState { cur_mtl: Some(tv[1]), ..st0 });
            }
            Some(st)
        } else {
            None
        }
    } else if t0.len() == 1 && (t0[0] == 103 || t0[0] == 111) {
        // `g` / `o`: name the active group
        proof {
            assert(t0@ == kw_g() || t0@ == kw_o()) by {
                if t0@[0] == 103 {
                    assert(t0@ =~= kw_g());
                } else {
                    assert(t0@ =~= kw_o());
                }
            }
        }
        let mut st = st;
        if toks.len() >= 2 {
            st.cur_name = copy_bytes(&toks[1]);
        } else {
            st.cur_name = Vec::new();
        }
        proof {
            if tv.len() >= 2 {
                assert(st@ =~~= ObjState { cur_name: tv[1], ..st0 });
            } else {
                assert(st@.cur_name =~= seq![]);
                assert(st@ =~~= ObjState { cur_name: seq![], ..st0 });
            }
        }
        Some(st)
    } else if t0.len() == 1 && t0[0] == 102 {
        // `f`: one face
        proof {
            assert(t0@ =~= kw_f());
        }
        if toks.len() >= 4 {
            match parse_face_tokens(&toks) {
                None => None,
                Some(face) => {
                    let ghost fv = face@;
                    let st = apply_face(st, face);
                    proof {
                        assert(obj_step(st0, line@) == Some(add_face(st0, fv)));
                    }
                    Some(st)
                },
            }
        } else {
            None
        }
    } else {
        proof {
            assert(t0@ == tv[0]);
            assert(tv[0] != kw_v() && tv[0] != kw_vn() && tv[0] != kw_vt() && tv[0] != kw_mtllib()
                && tv[0] != kw_usemtl() && tv[0] != kw_g() && tv[0] != kw_o() && tv[0] != kw_f());
        }
        Some(st)
    }
}

/// Parses a whole mesh description, exactly as `parse_obj_spec` describes:
/// `None` is a format error.
pub fn parse_obj(data: &Vec<u8>) -> (r: Option<MeshDoc>)
    ensures
        match r {
            Some(doc) => parse_obj_spec(data@) == Some(doc@),
            None => parse_obj_spec(data@) is None,
        },
{
    broadcast use lemma_bytes_deep_view;

    let lines = lines_of(data);
    let ghost lv = split_lines(data@);
    let mut st = ObjBuilder {
        doc: MeshDoc {
            positions: Vec::new(),
            normals: Vec::new(),
            texcoords: Vec::new(),
            material_libs: Vec::new(),
            groups: Vec::new(),
        },
        cur_name: Vec::new(),
        cur_mtl: None,
    };
    proof {
        assert(st@ =~~= init_obj_state());
        assert(lv.skip(0) =~= lv);
    }
    let mut i: usize = 0;
    while i < lines.len()
        invariant
            0 <= i <= lines.len(),
            lv == split_lines(data@),
            lines.deep_view() == lv,
            lv.len() == lines@.len(),
            obj_fold(lv, init_obj_state()) == obj_fold(lv.skip(i as int), st@),
        decreases lines.len() - i,
    {
        proof {
            assert(lines@[i as int]@ == lv[i as int]);
            assert(lv.skip(i as int)[0] == lv[i as int]);
            assert(lv.skip(i as int).drop_first() =~= lv.skip(i + 1));
        }
        let ghost stv = st@;
        st = match obj_step_exec(st, &lines[i]) {
            Some(s) => s,
            None => {
                proof {
                    assert(obj_step(stv, lv[i as int]) is None);
                    assert(obj_fold(lv.skip(i as int), stv) is None);
                }
                return None;
            },
        };
        proof {
            assert(obj_fold(lv.skip(i as int), stv) == obj_fold(lv.skip(i + 1), st@));
        }
        i = i + 1;
    }
    proof {
        assert(lv.skip(i as int) =~= Seq::<Seq<u8>>::empty());
    }
    Some(st.doc)
}

} // verus!
