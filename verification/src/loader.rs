//! The archive model loader. Given the bytes of a compressed model
//! container it locates the single mesh-description entry (the first whose
//! name ends in `.obj`), parses it, merges every referenced material
//! library into one table (later libraries override earlier ones), decodes
//! each texture file that a used material references — exactly once per
//! distinct file name — and emits one render group per eligible geometry
//! group: the group's flattened face indices paired with the slot of its
//! material's diffuse texture. A group whose material is missing, or whose
//! material has no diffuse texture, is skipped, not an error.
//!
//! The whole result is a deterministic function `spec_load_model` of the
//! archive bytes, built over the named results of the container and image
//! collaborators.

use vstd::prelude::*;

verus! {

use crate::archive::{
    load_texture,
    image_rgba8,
    zip_count,
    zip_data,
    zip_entry_count,
    zip_entry_data,
    zip_entry_name,
    zip_name,
    RgbaTexture,
    RgbaTextureView,
};
use crate::material::{
    defs_view,
    find_last,
    parse_mtl,
    parse_mtl_spec,
    MaterialDefView,
    MaterialTable,
};
use crate::mesh::{parse_obj, parse_obj_spec, FaceVertex, GeomGroup, GeomGroupView, MeshDoc, MeshDocView};
use crate::text::{bytes_eq, copy_bytes, lemma_bytes_deep_view};

/// Why a load failed: a missing or unreadable container entry, or
/// malformed mesh or material text.
#[derive(Clone, Copy, Debug, PartialEq, Eq, Structural)]
pub enum LoadError {
    Archive,
    Format,
}

/// One decoded texture with the archive file name it came from.
pub struct TextureEntry {
    pub name: Vec<u8>,
    pub image: RgbaTexture,
}

#[verifier::ext_equal]
pub struct TextureEntryView {
    pub name: Seq<u8>,
    pub image: RgbaTextureView,
}

impl View for TextureEntry {
    type V = TextureEntryView;

    open spec fn view(&self) -> TextureEntryView {
        TextureEntryView { name: self.name@, image: self.image@ }
    }
}

/// One material-homogeneous piece of the mesh: the flattened face indices
/// into the shared vertex data, and the slot of its diffuse texture in the
/// loaded texture list.
pub struct RenderGroup {
    pub indices: Vec<u16>,
    pub texture: usize,
}

#[verifier::ext_equal]
pub struct RenderGroupView {
    pub indices: Seq<u16>,
    pub texture: int,
}

impl View for RenderGroup {
    type V = RenderGroupView;

    open spec fn view(&self) -> RenderGroupView {
        RenderGroupView { indices: self.indices@, texture: self.texture as int }
    }
}

/// A fully loaded model: the parsed mesh (whose coordinate rows the
/// embedding program turns into a vertex buffer), the distinct decoded
/// textures in first-use order, and the render groups.
pub struct LoadedModel {
    pub mesh: MeshDoc,
    pub textures: Vec<TextureEntry>,
    pub groups: Vec<RenderGroup>,
}

#[verifier::ext_equal]
pub struct LoadedModelView {
    pub mesh: MeshDocView,
    pub textures: Seq<TextureEntryView>,
    pub groups: Seq<RenderGroupView>,
}

impl View for LoadedModel {
    type V = LoadedModelView;

    open spec fn view(&self) -> LoadedModelView {
        LoadedModelView {
            mesh: self.mesh@,
            textures: Seq::new(self.textures@.len(), |i: int| self.textures@[i]@),
            groups: Seq::new(self.groups@.len(), |i: int| self.groups@[i]@),
        }
    }
}

/// The views of a geometry-group list.
pub open spec fn groups_view(s: Seq<GeomGroup>) -> Seq<GeomGroupView> {
    Seq::new(s.len(), |i: int| s[i]@)
}

/// The entry names of the archive from index `i` on; `None` when any name
/// cannot be read.
pub open spec fn zip_listing(archive: Seq<u8>, i: int, n: int) -> Option<Seq<Seq<u8>>>
    decreases n - i,
{
    if i >= n {
        Some(seq![])
    } else {
        match zip_name(archive, i) {
            None => None,
            Some(nm) => match zip_listing(archive, i + 1, n) {
                None => None,
                Some(r) => Some(seq![nm] + r),
            },
        }
    }
}

/// The full entry listing of the archive.
pub open spec fn spec_listing(archive: Seq<u8>) -> Option<Seq<Seq<u8>>> {
    match zip_count(archive) {
        None => None,
        Some(n) => zip_listing(archive, 0, n as int),
    }
}

pub open spec fn obj_suffix() -> Seq<u8> {
    seq![46u8, 111u8, 98u8, 106u8]
}

/// Whether an entry name ends in `.obj`.
pub open spec fn has_obj_suffix(name: Seq<u8>) -> bool {
    name.len() >= 4 && name.skip(name.len() - 4) == obj_suffix()
}

/// The first entry name from index `j` on that ends in `.obj`.
pub open spec fn first_obj_name(names: Seq<Seq<u8>>, j: int) -> Option<Seq<u8>>
    decreases names.len() - j,
{
    if j >= names.len() {
        None
    } else if has_obj_suffix(names[j]) {
        Some(names[j])
    } else {
        first_obj_name(names, j + 1)
    }
}

/// Reading and merging the material libraries from index `j` on into the
/// accumulated table `acc`: a missing library entry is an archive error,
/// malformed material text a format error.
pub open spec fn merge_libs(
    archive: Seq<u8>,
    libs: Seq<Seq<u8>>,
    j: int,
    acc: Seq<MaterialDefView>,
) -> Result<Seq<MaterialDefView>, LoadError>
    decreases libs.len() - j,
{
    if j >= libs.len() {
        Ok(acc)
    } else {
        match zip_data(archive, libs[j]) {
            None => Err(LoadError::Archive),
            Some(bytes) => match parse_mtl_spec(bytes) {
                None => Err(LoadError::Format),
                Some(defs) => merge_libs(archive, libs, j + 1, acc + defs),
            },
        }
    }
}

/// Appends a channel's texture-file name unless it is absent or already
/// collected.
pub open spec fn add_name(acc: Seq<Seq<u8>>, n: Option<Seq<u8>>) -> Seq<Seq<u8>> {
    match n {
        None => acc,
        Some(nm) => if acc.contains(nm) {
            acc
        } else {
            acc.push(nm)
        },
    }
}

/// The texture-file names one group contributes: those of the channels
/// present on the material its reference resolves to, if any.
pub open spec fn group_tex_names(
    table: Seq<MaterialDefView>,
    g: GeomGroupView,
    acc: Seq<Seq<u8>>,
) -> Seq<Seq<u8>> {
    match g.material {
        None => acc,
        Some(mname) => match find_last(table, mname) {
            None => acc,
            Some(m) => add_name(add_name(add_name(acc, m.map_ka), m.map_kd), m.map_ks),
        },
    }
}

/// The distinct texture-file names of every used material, in first-use
/// order, from group index `j` on.
pub open spec fn collect_tex_names(
    table: Seq<MaterialDefView>,
    groups: Seq<GeomGroupView>,
    j: int,
    acc: Seq<Seq<u8>>,
) -> Seq<Seq<u8>>
    decreases groups.len() - j,
{
    if j >= groups.len() {
        acc
    } else {
        collect_tex_names(table, groups, j + 1, group_tex_names(table, groups[j], acc))
    }
}

/// Reading and decoding the collected texture files from index `j` on:
/// each distinct name is read and decoded exactly once.
pub open spec fn decode_textures(archive: Seq<u8>, names: Seq<Seq<u8>>, j: int) -> Result<
    Seq<TextureEntryView>,
    LoadError,
>
    decreases names.len() - j,
{
    if j >= names.len() {
        Ok(seq![])
    } else {
        match zip_data(archive, names[j]) {
            None => Err(LoadError::Archive),
            Some(bytes) => match image_rgba8(bytes) {
                None => Err(LoadError::Format),
                Some((w, h, px)) => match decode_textures(archive, names, j + 1) {
                    Err(e) => Err(e),
                    Ok(r) => Ok(
                        seq![
                            TextureEntryView {
                                name: names[j],
                                image: RgbaTextureView { width: w, height: h, pixels: px },
                            }
                        ] + r,
                    ),
                },
            },
        }
    }
}

/// A face-vertex position index, truncated to the 16-bit index type of the
/// shared vertex buffer.
pub open spec fn index_u16(fv: FaceVertex) -> u16 {
    (fv.v % 0x10000) as u16
}

/// The flattened index list of a group: every face's position indices, in
/// face order, from face `j` on.
pub open spec fn flat_indices(faces: Seq<Seq<FaceVertex>>, j: int) -> Seq<u16>
    decreases faces.len() - j,
{
    if j >= faces.len() {
        seq![]
    } else {
        faces[j].map_values(|fv: FaceVertex| index_u16(fv)) + flat_indices(faces, j + 1)
    }
}

/// The first slot holding `name`, or `names.len()` when absent.
pub open spec fn tex_index_of(names: Seq<Seq<u8>>, name: Seq<u8>, j: int) -> int
    decreases names.len() - j,
{
    if j >= names.len() {
        names.len() as int
    } else if names[j] == name {
        j
    } else {
        tex_index_of(names, name, j + 1)
    }
}

/// Whether a geometry group produces a render group: its material
/// reference resolves and the material has a diffuse texture.
pub open spec fn eligible(table: Seq<MaterialDefView>, g: GeomGroupView) -> bool {
    match g.material {
        None => false,
        Some(mname) => match find_last(table, mname) {
            None => false,
            Some(m) => m.map_kd is Some,
        },
    }
}

/// The diffuse texture-file name an eligible group resolves to.
pub open spec fn kd_name(table: Seq<MaterialDefView>, g: GeomGroupView) -> Seq<u8>
    recommends
        eligible(table, g),
{
    find_last(table, g.material.unwrap()).unwrap().map_kd.unwrap()
}

/// The render groups of the geometry groups from index `j` on: one per
/// eligible group, in order; ineligible groups are skipped.
pub open spec fn build_groups(
    table: Seq<MaterialDefView>,
    names: Seq<Seq<u8>>,
    groups: Seq<GeomGroupView>,
    j: int,
) -> Seq<RenderGroupView>
    decreases groups.len() - j,
{
    if j >= groups.len() {
        seq![]
    } else if eligible(table, groups[j]) {
        seq![
            RenderGroupView {
                indices: flat_indices(groups[j].faces, 0),
                texture: tex_index_of(names, kd_name(table, groups[j]), 0),
            }
        ] + build_groups(table, names, groups, j + 1)
    } else {
        build_groups(table, names, groups, j + 1)
    }
}

/// What loading a model archive means, end to end: a deterministic
/// function of the archive bytes.
pub open spec fn spec_load_model(archive: Seq<u8>) -> Result<LoadedModelView, LoadError> {
    match spec_listing(archive) {
        None => Err(LoadError::Archive),
        Some(names) => match first_obj_name(names, 0) {
            None => Err(LoadError::Archive),
            Some(objname) => match zip_data(archive, objname) {
                None => Err(LoadError::Archive),
                Some(objbytes) => match parse_obj_spec(objbytes) {
                    None => Err(LoadError::Format),
                    Some(mesh) => match merge_libs(archive, mesh.material_libs, 0, seq![]) {
                        Err(e) => Err(e),
                        Ok(table) => {
                            let texnames = collect_tex_names(table, mesh.groups, 0, seq![]);
                            match decode_textures(archive, texnames, 0) {
                                Err(e) => Err(e),
                                Ok(texs) => Ok(
                                    LoadedModelView {
                                        mesh: mesh,
                                        textures: texs,
                                        groups: build_groups(table, texnames, mesh.groups, 0),
                                    },
                                ),
                            }
                        },
                    },
                },
            },
        },
    }
}

/// Prepending already-listed names to the rest of a listing.
pub open spec fn names_prepend(pre: Seq<Seq<u8>>, o: Option<Seq<Seq<u8>>>) -> Option<
    Seq<Seq<u8>>,
> {
    match o {
        None => None,
        Some(r) => Some(pre + r),
    }
}

/// Lists the archive's entry names, exactly as `spec_listing` describes.
fn list_entries(archive: &Vec<u8>) -> (r: Option<Vec<Vec<u8>>>)
    ensures
        match r {
            Some(v) => spec_listing(archive@) == Some(v.deep_view()),
            None => spec_listing(archive@) is None,
        },
{
    broadcast use lemma_bytes_deep_view;

    let n = match zip_entry_count(archive) {
        None => {
            return None;
        },
        Some(n) => n,
    };
    let mut out: Vec<Vec<u8>> = Vec::new();
    let mut i: usize = 0;
    proof {
        match zip_listing(archive@, 0, n as int) {
            None => {},
            Some(r) => {
                assert(out.deep_view() + r =~~= r);
            },
        }
    }
    while i < n
        invariant
            0 <= i <= n,
            zip_count(archive@) == Some(n),
            names_prepend(out.deep_view(), zip_listing(archive@, i as int, n as int))
                == zip_listing(archive@, 0, n as int),
        decreases n - i,
    {
        let nm = match zip_entry_name(archive, i) {
            None => {
                return None;
            },
            Some(nm) => nm,
        };
        let ghost pre = out.deep_view();
        let ghost nmv = nm@;
        out.push(nm);
        proof {
            assert(out.deep_view() =~~= pre.push(nmv));
            match zip_listing(archive@, i + 1, n as int) {
                None => {},
                Some(r) => {
                    assert(pre + (seq![nmv] + r) =~~= pre.push(nmv) + r);
                },
            }
        }
        i = i + 1;
    }
    proof {
        assert(zip_listing(archive@, n as int, n as int) == Some(Seq::<Seq<u8>>::empty()));
        assert(out.deep_view() + Seq::<Seq<u8>>::empty() =~~= out.deep_view());
    }
    Some(out)
}

/// Whether an entry name ends in `.obj`, exactly `has_obj_suffix`.
fn is_obj_name(n: &Vec<u8>) -> (r: bool)
    ensures
        r == has_obj_suffix(n@),
{
    let l = n.len();
    if l < 4 {
        return false;
    }
    let r = n[l - 4] == 46 && n[l - 3] == 111 && n[l - 2] == 98 && n[l - 1] == 106;
    proof {
        if r {
            assert(n@.skip(l - 4) =~= obj_suffix());
        } else {
            if has_obj_suffix(n@) {
                assert(n@.skip(l - 4)[0] == n@[l - 4]);
                assert(n@.skip(l - 4)[1] == n@[l - 3]);
                assert(n@.skip(l - 4)[2] == n@[l - 2]);
                assert(n@.skip(l - 4)[3] == n@[l - 1]);
            }
        }
    }
    r
}

/// Finds the first `.obj` entry name, exactly as `first_obj_name`
/// describes.
fn first_obj(names: &Vec<Vec<u8>>) -> (r: Option<Vec<u8>>)
    ensures
        match r {
            Some(nm) => first_obj_name(names.deep_view(), 0) == Some(nm@),
            None => first_obj_name(names.deep_view(), 0) is None,
        },
{
    broadcast use lemma_bytes_deep_view;

    let ghost nv = names.deep_view();
    proof {
        assert(forall|i: int| 0 <= i < names@.len() ==> names@[i]@ == #[trigger] nv[i]);
    }
    let mut j: usize = 0;
    while j < names.len()
        invariant
            0 <= j <= names.len(),
            nv == names.deep_view(),
            nv.len() == names@.len(),
            forall|i: int| 0 <= i < names@.len() ==> names@[i]@ == #[trigger] nv[i],
            first_obj_name(nv, 0) == first_obj_name(nv, j as int),
        decreases names.len() - j,
    {
        if is_obj_name(&names[j]) {
            return Some(copy_bytes(&names[j]));
        }
        j = j + 1;
    }
    None
}

/// Reads and merges every referenced material library, exactly as
/// `merge_libs` describes.
fn load_material_table(archive: &Vec<u8>, libs: &Vec<Vec<u8>>) -> (r: Result<
    MaterialTable,
    LoadError,
>)
    ensures
        match r {
            Ok(t) => merge_libs(archive@, libs.deep_view(), 0, seq![]) == Ok::<_, LoadError>(
                t.defs_seq(),
            ),
            Err(e) => merge_libs(archive@, libs.deep_view(), 0, seq![]) == Err::<
                Seq<MaterialDefView>,
                _,
            >(e),
        },
{
    broadcast use lemma_bytes_deep_view;

    let ghost lv = libs.deep_view();
    proof {
        assert(forall|i: int| 0 <= i < libs@.len() ==> libs@[i]@ == #[trigger] lv[i]);
    }
    let mut table = MaterialTable::new();
    let mut j: usize = 0;
    proof {
        assert(Seq::<MaterialDefView>::empty() =~= seq![]);
    }
    while j < libs.len()
        invariant
            0 <= j <= libs.len(),
            lv == libs.deep_view(),
            lv.len() == libs@.len(),
            forall|i: int| 0 <= i < libs@.len() ==> libs@[i]@ == #[trigger] lv[i],
            merge_libs(archive@, lv, j as int, table.defs_seq()) == merge_libs(
                archive@,
                lv,
                0,
                seq![],
            ),
        decreases libs.len() - j,
    {
        let bytes = match zip_entry_data(archive, &libs[j]) {
            None => {
                return Err(LoadError::Archive);
            },
            Some(b) => b,
        };
        let defs = match parse_mtl(&bytes) {
            None => {
                return Err(LoadError::Format);
            },
            Some(d) => d,
        };
        table.merge_lib(defs);
        j = j + 1;
    }
    Ok(table)
}

/// Whether a file name was already collected.
fn names_contain(names: &Vec<Vec<u8>>, n: &Vec<u8>) -> (r: bool)
    ensures
        r == names.deep_view().contains(n@),
{
    broadcast use lemma_bytes_deep_view;

    let ghost nv = names.deep_view();
    proof {
        assert(forall|i: int| 0 <= i < names@.len() ==> names@[i]@ == #[trigger] nv[i]);
    }
    let mut j: usize = 0;
    while j < names.len()
        invariant
            0 <= j <= names.len(),
            nv == names.deep_view(),
            nv.len() == names@.len(),
            forall|i: int| 0 <= i < names@.len() ==> names@[i]@ == #[trigger] nv[i],
            forall|i: int| 0 <= i < j ==> nv[i] != n@,
        decreases names.len() - j,
    {
        if bytes_eq(&names[j], n) {
            proof {
                assert(nv[j as int] == n@);
            }
            return true;
        }
        j = j + 1;
    }
    proof {
        assert(!nv.contains(n@));
    }
    false
}

/// Appends one channel's file name unless absent or already collected,
/// exactly as `add_name` describes.
fn push_channel(names: &mut Vec<Vec<u8>>, channel: &Option<Vec<u8>>)
    ensures
        final(names).deep_view() == add_name(
            old(names).deep_view(),
            match channel {
                Some(n) => Some(n@),
                None => None,
            },
        ),
{
    broadcast use lemma_bytes_deep_view;

    match channel {
        None => {},
        Some(n) => {
            if !names_contain(names, n) {
                let ghost pre = names.deep_view();
                names.push(copy_bytes(n));
                proof {
                    assert(names.deep_view() =~~= pre.push(n@));
                }
            }
        },
    }
}

/// Collects the distinct texture-file names of every used material,
/// exactly as `collect_tex_names` describes.
fn collect_textures(table: &MaterialTable, groups: &Vec<GeomGroup>) -> (r: Vec<Vec<u8>>)
    ensures
        r.deep_view() == collect_tex_names(table.defs_seq(), groups_view(groups@), 0, seq![]),
{
    broadcast use lemma_bytes_deep_view;

    let ghost ts = table.defs_seq();
    let ghost gv = groups_view(groups@);
    let mut names: Vec<Vec<u8>> = Vec::new();
    let mut j: usize = 0;
    proof {
        assert(names.deep_view() =~~= seq![]);
    }
    while j < groups.len()
        invariant
            0 <= j <= groups.len(),
            ts == table.defs_seq(),
            gv == groups_view(groups@),
            gv.len() == groups@.len(),
            collect_tex_names(ts, gv, j as int, names.deep_view()) == collect_tex_names(
                ts,
                gv,
                0,
                seq![],
            ),
        decreases groups.len() - j,
    {
        proof {
            assert(gv[j as int] == groups@[j as int]@);
        }
        let ghost pre = names.deep_view();
        match &groups[j].material {
            None => {
                proof {
                    assert(group_tex_names(ts, gv[j as int], pre) == pre);
                }
            },
            Some(mname) => {
                match table.lookup(mname) {
                    None => {
                        proof {
                            assert(group_tex_names(ts, gv[j as int], pre) == pre);
                        }
                    },
                    Some(m) => {
                        push_channel(&mut names, &m.map_ka);
                        push_channel(&mut names, &m.map_kd);
                        push_channel(&mut names, &m.map_ks);
                        proof {
                            assert(names.deep_view() == group_tex_names(ts, gv[j as int], pre));
                        }
                    },
                }
            },
        }
        j = j + 1;
    }
    names
}

/// Reads and decodes each collected texture file once, exactly as
/// `decode_textures` describes.
fn decode_texture_files(archive: &Vec<u8>, names: &Vec<Vec<u8>>) -> (r: Result<
    Vec<TextureEntry>,
    LoadError,
>)
    ensures
        match r {
            Ok(texs) => decode_textures(archive@, names.deep_view(), 0) == Ok::<_, LoadError>(
                Seq::new(texs@.len(), |i: int| texs@[i]@),
            ),
            Err(e) => decode_textures(archive@, names.deep_view(), 0) == Err::<
                Seq<TextureEntryView>,
                _,
            >(e),
        },
{
    broadcast use lemma_bytes_deep_view;

    let ghost nv = names.deep_view();
    proof {
        assert(forall|i: int| 0 <= i < names@.len() ==> names@[i]@ == #[trigger] nv[i]);
    }
    let mut out: Vec<TextureEntry> = Vec::new();
    let mut j: usize = 0;
    proof {
        match decode_textures(archive@, nv, 0) {
            Err(_) => {},
            Ok(r) => {
                assert(Seq::new(out@.len(), |i: int| out@[i]@) + r =~~= r);
            },
        }
    }
    while j < names.len()
        invariant
            0 <= j <= names.len(),
            nv == names.deep_view(),
            nv.len() == names@.len(),
            forall|i: int| 0 <= i < names@.len() ==> names@[i]@ == #[trigger] nv[i],
            match decode_textures(archive@, nv, j as int) {
                Ok(r) => decode_textures(archive@, nv, 0) == Ok::<_, LoadError>(
                    Seq::new(out@.len(), |i: int| out@[i]@) + r,
                ),
                Err(e) => decode_textures(archive@, nv, 0) == Err::<Seq<TextureEntryView>, _>(e),
            },
        decreases names.len() - j,
    {
        let bytes = match zip_entry_data(archive, &names[j]) {
            None => {
                return Err(LoadError::Archive);
            },
            Some(b) => b,
        };
        let image = match load_texture(&bytes) {
            None => {
                return Err(LoadError::Format);
            },
            Some(t) => t,
        };
        let ghost pre = Seq::new(out@.len(), |i: int| out@[i]@);
        let entry = TextureEntry { name: copy_bytes(&names[j]), image };
        let ghost ev = entry@;
        out.push(entry);
        proof {
            assert(Seq::new(out@.len(), |i: int| out@[i]@) =~~= pre.push(ev));
            match decode_textures(archive@, nv, j + 1) {
                Err(_) => {},
                Ok(r) => {
                    assert(pre + (seq![ev] + r) =~~= pre.push(ev) + r);
                },
            }
        }
        j = j + 1;
    }
    proof {
        assert(decode_textures(archive@, nv, j as int) == Ok::<_, LoadError>(
            Seq::<TextureEntryView>::empty(),
        ));
        assert(Seq::new(out@.len(), |i: int| out@[i]@) + Seq::<TextureEntryView>::empty()
            =~~= Seq::new(out@.len(), |i: int| out@[i]@));
    }
    Ok(out)
}

/// Flattens a group's faces into one index list, exactly as `flat_indices`
/// describes.
fn flatten_group(faces: &Vec<Vec<FaceVertex>>) -> (r: Vec<u16>)
    ensures
        r@ == flat_indices(Seq::new(faces@.len(), |i: int| faces@[i]@), 0),
{
    let ghost fv = Seq::new(faces@.len(), |i: int| faces@[i]@);
    let mut out: Vec<u16> = Vec::new();
    let mut j: usize = 0;
    proof {
        assert(flat_indices(fv, 0) == out@ + flat_indices(fv, 0)) by {
            assert(out@ + flat_indices(fv, 0) =~= flat_indices(fv, 0));
        }
    }
    while j < faces.len()
        invariant
            0 <= j <= faces.len(),
            fv == Seq::new(faces@.len(), |i: int| faces@[i]@),
            fv.len() == faces@.len(),
            flat_indices(fv, 0) == out@ + flat_indices(fv, j as int),
        decreases faces.len() - j,
    {
        let face = &faces[j];
        let ghost pre = out@;
        let mut k: usize = 0;
        proof {
            assert(face@.take(0).map_values(|v: FaceVertex| index_u16(v)) =~= Seq::<u16>::empty());
            assert(pre + Seq::<u16>::empty() =~= pre);
        }
        while k < face.len()
            invariant
                0 <= k <= face.len(),
                face@ == fv[j as int],
                out@ == pre + face@.take(k as int).map_values(|v: FaceVertex| index_u16(v)),
            decreases face.len() - k,
        {
            let fvx = face[k];
            out.push((fvx.v % 0x10000) as u16);
            proof {
                assert(face@.take(k + 1).map_values(|v: FaceVertex| index_u16(v)) =~= face@.take(
                    k as int,
                ).map_values(|v: FaceVertex| index_u16(v)).push(index_u16(face@[k as int])));
            }
            k = k + 1;
        }
        proof {
            assert(face@.take(k as int) =~= face@);
            assert(out@ == pre + fv[j as int].map_values(|v: FaceVertex| index_u16(v)));
            assert(pre + (fv[j as int].map_values(|v: FaceVertex| index_u16(v)) + flat_indices(
                fv,
                j + 1,
            )) =~= (pre + fv[j as int].map_values(|v: FaceVertex| index_u16(v))) + flat_indices(
                fv,
                j + 1,
            ));
        }
        j = j + 1;
    }
    proof {
        assert(flat_indices(fv, j as int) == Seq::<u16>::empty());
        assert(out@ + Seq::<u16>::empty() =~= out@);
    }
    out
}

/// The first slot of `name` in the texture list, exactly `tex_index_of`.
fn index_of_name(names: &Vec<Vec<u8>>, name: &Vec<u8>) -> (r: usize)
    ensures
        r as int == tex_index_of(names.deep_view(), name@, 0),
        r <= names.len(),
{
    broadcast use lemma_bytes_deep_view;

    let ghost nv = names.deep_view();
    proof {
        assert(forall|i: int| 0 <= i < names@.len() ==> names@[i]@ == #[trigger] nv[i]);
    }
    let mut j: usize = 0;
    while j < names.len()
        invariant
            0 <= j <= names.len(),
            nv == names.deep_view(),
            nv.len() == names@.len(),
            forall|i: int| 0 <= i < names@.len() ==> names@[i]@ == #[trigger] nv[i],
            tex_index_of(nv, name@, 0) == tex_index_of(nv, name@, j as int),
        decreases names.len() - j,
    {
        if bytes_eq(&names[j], name) {
            return j;
        }
        j = j + 1;
    }
    names.len()
}

/// Builds one render group per eligible geometry group, exactly as
/// `build_groups` describes.
fn build_render_groups(
    table: &MaterialTable,
    names: &Vec<Vec<u8>>,
    groups: &Vec<GeomGroup>,
) -> (r: Vec<RenderGroup>)
    ensures
        Seq::new(r@.len(), |i: int| r@[i]@) == build_groups(
            table.defs_seq(),
            names.deep_view(),
            groups_view(groups@),
            0,
        ),
{
    broadcast use lemma_bytes_deep_view;

    let ghost ts = table.defs_seq();
    let ghost nv = names.deep_view();
    let ghost gv = groups_view(groups@);
    let mut out: Vec<RenderGroup> = Vec::new();
    let mut j: usize = 0;
    proof {
        match build_groups(ts, nv, gv, 0) {
            r => {
                assert(Seq::new(out@.len(), |i: int| out@[i]@) + r =~~= r);
            },
        }
    }
    while j < groups.len()
        invariant
            0 <= j <= groups.len(),
            ts == table.defs_seq(),
            nv == names.deep_view(),
            gv == groups_view(groups@),
            gv.len() == groups@.len(),
            build_groups(ts, nv, gv, 0) == Seq::new(out@.len(), |i: int| out@[i]@) + build_groups(
                ts,
                nv,
                gv,
                j as int,
            ),
        decreases groups.len() - j,
    {
        proof {
            assert(gv[j as int] == groups@[j as int]@);
        }
        let ghost pre = Seq::new(out@.len(), |i: int| out@[i]@);
        let mut emitted = false;
        match &groups[j].material {
            None => {},
            Some(mname) => {
                match table.lookup(mname) {
                    None => {},
                    Some(m) => {
                        match &m.map_kd {
                            None => {},
                            Some(kd) => {
                                let indices = flatten_group(&groups[j].faces);
                                let texture = index_of_name(names, kd);
                                let rg = RenderGroup { indices, texture };
                                let ghost rgv = rg@;
                                out.push(rg);
                                emitted = true;
                                proof {
                                    assert(eligible(ts, gv[j as int]));
                                    assert(kd_name(ts, gv[j as int]) == kd@);
                                    assert(rgv =~~= RenderGroupView {
                                        indices: flat_indices(gv[j as int].faces, 0),
                                        texture: tex_index_of(nv, kd_name(ts, gv[j as int]), 0),
                                    });
                                    assert(Seq::new(out@.len(), |i: int| out@[i]@) =~~= pre.push(
                                        rgv,
                                    ));
                                    assert(pre + (seq![rgv] + build_groups(ts, nv, gv, j + 1))
                                        =~~= pre.push(rgv) + build_groups(ts, nv, gv, j + 1));
                                }
                            },
                        }
                    },
                }
            },
        }
        if !emitted {
            proof {
                assert(!eligible(ts, gv[j as int]));
            }
        }
        j = j + 1;
    }
    proof {
        assert(build_groups(ts, nv, gv, j as int) == Seq::<RenderGroupView>::empty());
        assert(Seq::new(out@.len(), |i: int| out@[i]@) + Seq::<RenderGroupView>::empty()
            =~~= Seq::new(out@.len(), |i: int| out@[i]@));
    }
    out
}

/// Loads a model archive end to end, exactly as `spec_load_model`
/// describes: `Err(Archive)` for a missing or unreadable entry (including
/// a container without any `.obj` entry), `Err(Format)` for malformed
/// mesh, material or image data, and otherwise the loaded model.
pub fn load_model(archive: &Vec<u8>) -> (r: Result<LoadedModel, LoadError>)
    ensures
        match r {
            Ok(m) => spec_load_model(archive@) == Ok::<_, LoadError>(m@),
            Err(e) => spec_load_model(archive@) == Err::<LoadedModelView, _>(e),
        },
{
    broadcast use lemma_bytes_deep_view;

    let names = match list_entries(archive) {
        None => {
            return Err(LoadError::Archive);
        },
        Some(v) => v,
    };
    let obj_name = match first_obj(&names) {
        None => {
            return Err(LoadError::Archive);
        },
        Some(nm) => nm,
    };
    let obj_bytes = match zip_entry_data(archive, &obj_name) {
        None => {
            return Err(LoadError::Archive);
        },
        Some(b) => b,
    };
    let mesh = match parse_obj(&obj_bytes) {
        None => {
            return Err(LoadError::Format);
        },
        Some(m) => m,
    };
    proof {
        assert(mesh.material_libs.deep_view() =~~= mesh@.material_libs);
        assert(groups_view(mesh.groups@) =~~= mesh@.groups);
    }
    let table = match load_material_table(archive, &mesh.material_libs) {
        Err(e) => {
            return Err(e);
        },
        Ok(t) => t,
    };
    let tex_names = collect_textures(&table, &mesh.groups);
    let textures = match decode_texture_files(archive, &tex_names) {
        Err(e) => {
            return Err(e);
        },
        Ok(t) => t,
    };
    let groups = build_render_groups(&table, &tex_names, &mesh.groups);
    let model = LoadedModel { mesh, textures, groups };
    proof {
        assert(model@ =~~= spec_load_model(archive@).unwrap());
    }
    Ok(model)
}

proof fn lemma_add_name_no_dup(acc: Seq<Seq<u8>>, o: Option<Seq<u8>>)
    requires
        acc.no_duplicates(),
    ensures
        add_name(acc, o).no_duplicates(),
{
    match o {
        None => {},
        Some(nm) => {
            if !acc.contains(nm) {
                assert forall|i: int, k: int|
                    0 <= i < add_name(acc, o).len() && 0 <= k < add_name(acc, o).len() && i
                        != k implies add_name(acc, o)[i] != add_name(acc, o)[k] by {
                    if i < acc.len() && k < acc.len() {
                    } else if i == acc.len() {
                        assert(!acc.contains(nm));
                        assert(add_name(acc, o)[k] == acc[k]);
                    } else {
                        assert(add_name(acc, o)[i] == acc[i]);
                    }
                }
            }
        },
    }
}

proof fn lemma_add_name_mono(acc: Seq<Seq<u8>>, o: Option<Seq<u8>>, x: Seq<u8>)
    requires
        acc.contains(x),
    ensures
        add_name(acc, o).contains(x),
{
    let i = choose|i: int| 0 <= i < acc.len() && acc[i] == x;
    assert(add_name(acc, o)[i] == x);
}

proof fn lemma_add_name_adds(acc: Seq<Seq<u8>>, nm: Seq<u8>)
    ensures
        add_name(acc, Some(nm)).contains(nm),
{
    if acc.contains(nm) {
    } else {
        assert(add_name(acc, Some(nm))[acc.len() as int] == nm);
    }
}

proof fn lemma_group_names_no_dup(table: Seq<MaterialDefView>, g: GeomGroupView, acc: Seq<Seq<u8>>)
    requires
        acc.no_duplicates(),
    ensures
        group_tex_names(table, g, acc).no_duplicates(),
{
    match g.material {
        None => {},
        Some(mname) => {
            match find_last(table, mname) {
                None => {},
                Some(m) => {
                    lemma_add_name_no_dup(acc, m.map_ka);
                    lemma_add_name_no_dup(add_name(acc, m.map_ka), m.map_kd);
                    lemma_add_name_no_dup(add_name(add_name(acc, m.map_ka), m.map_kd), m.map_ks);
                },
            }
        },
    }
}

proof fn lemma_group_names_mono(
    table: Seq<MaterialDefView>,
    g: GeomGroupView,
    acc: Seq<Seq<u8>>,
    x: Seq<u8>,
)
    requires
        acc.contains(x),
    ensures
        group_tex_names(table, g, acc).contains(x),
{
    match g.material {
        None => {},
        Some(mname) => {
            match find_last(table, mname) {
                None => {},
                Some(m) => {
                    lemma_add_name_mono(acc, m.map_ka, x);
                    lemma_add_name_mono(add_name(acc, m.map_ka), m.map_kd, x);
                    lemma_add_name_mono(add_name(add_name(acc, m.map_ka), m.map_kd), m.map_ks, x);
                },
            }
        },
    }
}

proof fn lemma_collect_no_dup(
    table: Seq<MaterialDefView>,
    groups: Seq<GeomGroupView>,
    j: int,
    acc: Seq<Seq<u8>>,
)
    requires
        acc.no_duplicates(),
    ensures
        collect_tex_names(table, groups, j, acc).no_duplicates(),
    decreases groups.len() - j,
{
    if j < groups.len() {
        lemma_group_names_no_dup(table, groups[j], acc);
        lemma_collect_no_dup(table, groups, j + 1, group_tex_names(table, groups[j], acc));
    }
}

proof fn lemma_collect_mono(
    table: Seq<MaterialDefView>,
    groups: Seq<GeomGroupView>,
    j: int,
    acc: Seq<Seq<u8>>,
    x: Seq<u8>,
)
    requires
        acc.contains(x),
    ensures
        collect_tex_names(table, groups, j, acc).contains(x),
    decreases groups.len() - j,
{
    if j < groups.len() {
        lemma_group_names_mono(table, groups[j], acc, x);
        lemma_collect_mono(table, groups, j + 1, group_tex_names(table, groups[j], acc), x);
    }
}

proof fn lemma_collect_covers(
    table: Seq<MaterialDefView>,
    groups: Seq<GeomGroupView>,
    j: int,
    acc: Seq<Seq<u8>>,
    i: int,
)
    requires
        j <= i < groups.len(),
        eligible(table, groups[i]),
    ensures
        collect_tex_names(table, groups, j, acc).contains(kd_name(table, groups[i])),
    decreases groups.len() - j,
{
    if i == j {
        let m = find_last(table, groups[i].material.unwrap()).unwrap();
        let acc1 = add_name(acc, m.map_ka);
        lemma_add_name_adds(acc1, m.map_kd.unwrap());
        lemma_add_name_mono(add_name(acc1, m.map_kd), m.map_ks, kd_name(table, groups[i]));
        lemma_collect_mono(
            table,
            groups,
            j + 1,
            group_tex_names(table, groups[j], acc),
            kd_name(table, groups[i]),
        );
    } else {
        lemma_collect_covers(table, groups, j + 1, group_tex_names(table, groups[j], acc), i);
    }
}

proof fn lemma_decode_len(archive: Seq<u8>, names: Seq<Seq<u8>>, j: int)
    requires
        0 <= j <= names.len(),
        decode_textures(archive, names, j) is Ok,
    ensures
        decode_textures(archive, names, j).unwrap().len() == names.len() - j,
        forall|i: int|
            0 <= i < names.len() - j ==> (#[trigger] decode_textures(archive, names, j).unwrap()[
                i
            ]).name == names[j + i],
    decreases names.len() - j,
{
    if j < names.len() {
        lemma_decode_len(archive, names, j + 1);
    }
}

proof fn lemma_tex_index_in_range(names: Seq<Seq<u8>>, n: Seq<u8>, j: int)
    requires
        0 <= j,
        exists|i: int| j <= i < names.len() && names[i] == n,
    ensures
        j <= tex_index_of(names, n, j) < names.len(),
        names[tex_index_of(names, n, j)] == n,
    decreases names.len() - j,
{
    if j < names.len() {
        if names[j] == n {
        } else {
            let i = choose|i: int| j <= i < names.len() && names[i] == n;
            assert(j + 1 <= i < names.len() && names[i] == n);
            lemma_tex_index_in_range(names, n, j + 1);
        }
    }
}

proof fn lemma_build_groups_slots(
    table: Seq<MaterialDefView>,
    names: Seq<Seq<u8>>,
    groups: Seq<GeomGroupView>,
    j: int,
)
    requires
        0 <= j,
        forall|i: int|
            0 <= i < groups.len() && eligible(table, #[trigger] groups[i]) ==> names.contains(
                kd_name(table, groups[i]),
            ),
    ensures
        forall|k: int|
            0 <= k < build_groups(table, names, groups, j).len() ==> 0 <= (
            #[trigger] build_groups(table, names, groups, j)[k]).texture < names.len(),
    decreases groups.len() - j,
{
    if j < groups.len() {
        lemma_build_groups_slots(table, names, groups, j + 1);
        if eligible(table, groups[j]) {
            assert(names.contains(kd_name(table, groups[j])));
            lemma_tex_index_in_range(names, kd_name(table, groups[j]), 0);
            assert forall|k: int| 0 <= k < build_groups(table, names, groups, j).len() implies 0
                <= (#[trigger] build_groups(table, names, groups, j)[k]).texture
                < names.len() by {
                if k == 0 {
                } else {
                    assert(build_groups(table, names, groups, j)[k] == build_groups(
                        table,
                        names,
                        groups,
                        j + 1,
                    )[k - 1]);
                }
            }
        } else {
            assert forall|k: int| 0 <= k < build_groups(table, names, groups, j).len() implies 0
                <= (#[trigger] build_groups(table, names, groups, j)[k]).texture
                < names.len() by {
                assert(build_groups(table, names, groups, j)[k] == build_groups(
                    table,
                    names,
                    groups,
                    j + 1,
                )[k]);
            }
        }
    }
}

/// Texture de-duplication. The collected texture-file list of a load holds
/// pairwise-distinct names — each distinct file is read and decoded once —
/// and two eligible geometry groups whose materials resolve to the same
/// diffuse file name are assigned the same texture slot.
pub proof fn lemma_texture_dedup(
    table: Seq<MaterialDefView>,
    groups: Seq<GeomGroupView>,
    i: int,
    j: int,
)
    requires
        0 <= i < groups.len(),
        0 <= j < groups.len(),
        eligible(table, groups[i]),
        eligible(table, groups[j]),
        kd_name(table, groups[i]) == kd_name(table, groups[j]),
    ensures
        collect_tex_names(table, groups, 0, seq![]).no_duplicates(),
        tex_index_of(collect_tex_names(table, groups, 0, seq![]), kd_name(table, groups[i]), 0)
            == tex_index_of(
            collect_tex_names(table, groups, 0, seq![]),
            kd_name(table, groups[j]),
            0,
        ),
{
    lemma_collect_no_dup(table, groups, 0, seq![]);
}

/// How many geometry groups from index `j` on are eligible.
pub open spec fn count_eligible(table: Seq<MaterialDefView>, groups: Seq<GeomGroupView>, j: int)
    -> int
    decreases groups.len() - j,
{
    if j >= groups.len() {
        0
    } else {
        (if eligible(table, groups[j]) {
            1int
        } else {
            0int
        }) + count_eligible(table, groups, j + 1)
    }
}

/// Group skip. A geometry group that is not eligible — its material
/// reference is absent from the table, or its material has no diffuse
/// texture — contributes no render group at all: appending it to the
/// group list leaves the built render groups unchanged, and exactly the
/// eligible groups are rendered, one render group each.
pub proof fn lemma_group_skip(
    table: Seq<MaterialDefView>,
    names: Seq<Seq<u8>>,
    groups: Seq<GeomGroupView>,
    g: GeomGroupView,
)
    requires
        !eligible(table, g),
    ensures
        build_groups(table, names, groups.push(g), 0) == build_groups(table, names, groups, 0),
        build_groups(table, names, groups, 0).len() == count_eligible(table, groups, 0),
{
    lemma_group_skip_rec(table, names, groups, g, 0);
    lemma_build_groups_len(table, names, groups, 0);
}

proof fn lemma_build_groups_len(
    table: Seq<MaterialDefView>,
    names: Seq<Seq<u8>>,
    groups: Seq<GeomGroupView>,
    j: int,
)
    ensures
        build_groups(table, names, groups, j).len() == count_eligible(table, groups, j),
    decreases groups.len() - j,
{
    if j < groups.len() {
        lemma_build_groups_len(table, names, groups, j + 1);
    }
}

proof fn lemma_group_skip_rec(
    table: Seq<MaterialDefView>,
    names: Seq<Seq<u8>>,
    groups: Seq<GeomGroupView>,
    g: GeomGroupView,
    j: int,
)
    requires
        !eligible(table, g),
        0 <= j <= groups.len(),
    ensures
        build_groups(table, names, groups.push(g), j) == build_groups(table, names, groups, j),
    decreases groups.len() - j,
{
    if j == groups.len() {
        assert(groups.push(g)[j] == g);
        assert(build_groups(table, names, groups.push(g), j + 1) == Seq::<
            RenderGroupView,
        >::empty());
    } else {
        assert(groups.push(g)[j] == groups[j]);
        lemma_group_skip_rec(table, names, groups, g, j + 1);
    }
}

/// Well-formedness of a successful load: the decoded texture list carries
/// pairwise-distinct file names (each file decoded and uploaded once), and
/// every render group's texture slot indexes into that list.
pub proof fn lemma_loaded_model_wf(archive: Seq<u8>)
    requires
        spec_load_model(archive) is Ok,
    ensures
        ({
            let m = spec_load_model(archive).unwrap();
            &&& Seq::new(m.textures.len(), |i: int| m.textures[i].name).no_duplicates()
            &&& forall|k: int|
                0 <= k < m.groups.len() ==> 0 <= (#[trigger] m.groups[k]).texture
                    < m.textures.len()
        }),
{
    let m = spec_load_model(archive).unwrap();
    let names = spec_listing(archive).unwrap();
    let objname = first_obj_name(names, 0).unwrap();
    let objbytes = zip_data(archive, objname).unwrap();
    let mesh = parse_obj_spec(objbytes).unwrap();
    let table = merge_libs(archive, mesh.material_libs, 0, seq![]).unwrap();
    let texnames = collect_tex_names(table, mesh.groups, 0, seq![]);
    lemma_collect_no_dup(table, mesh.groups, 0, seq![]);
    lemma_decode_len(archive, texnames, 0);
    assert(Seq::new(m.textures.len(), |i: int| m.textures[i].name) =~= texnames);
    assert forall|i: int|
        0 <= i < mesh.groups.len() && eligible(table, #[trigger] mesh.groups[i]) implies texnames
        .contains(kd_name(table, mesh.groups[i])) by {
        lemma_collect_covers(table, mesh.groups, 0, seq![], i);
    }
    lemma_build_groups_slots(table, texnames, mesh.groups, 0);
    assert(m.groups == build_groups(table, texnames, mesh.groups, 0));
    assert(m.textures.len() == texnames.len());
}

} // verus!
