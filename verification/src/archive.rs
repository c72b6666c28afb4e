//! Trusted views of the compressed model container and of the image
//! decoder. Listing an archive, extracting one entry, and decoding an image
//! are deterministic functions of the input bytes, so each result is given
//! a name (`zip_count`, `zip_name`, `zip_data`, `image_rgba8`) and the
//! wrappers promise to return exactly that name's value. Everything built
//! on top is verified against those names.

use vstd::prelude::*;

verus! {

/// How many entries the archive holds; `None` when the bytes are not a
/// well-formed archive.
pub uninterp spec fn zip_count(archive: Seq<u8>) -> Option<usize>;

/// The stored name of entry `i` of the archive, in directory order.
pub uninterp spec fn zip_name(archive: Seq<u8>, i: int) -> Option<Seq<u8>>;

/// The decompressed bytes of the entry with the given name; `None` when the
/// name is absent, not valid UTF-8, or the entry cannot be decompressed.
pub uninterp spec fn zip_data(archive: Seq<u8>, name: Seq<u8>) -> Option<Seq<u8>>;

/// Relies on `zip::ZipArchive::new` and `len`: the entry count of the
/// archive, a deterministic function of its bytes.
#[verifier::external_body]
pub(crate) fn zip_entry_count(archive: &Vec<u8>) -> (r: Option<usize>)
    ensures
        r == zip_count(archive@),
{
    let c = std::io::Cursor::new(archive.as_slice());
    match zip::ZipArchive::new(c) {
        Ok(z) => Some(z.len()),
        Err(_) => None,
    }
}

/// Relies on `zip::ZipArchive::name_for_index`: the name of entry `i`, a
/// deterministic function of the archive bytes and the index.
#[verifier::external_body]
pub(crate) fn zip_entry_name(archive: &Vec<u8>, i: usize) -> (r: Option<Vec<u8>>)
    ensures
        (r is Some) == (zip_name(archive@, i as int) is Some),
        r is Some ==> r.unwrap()@ == zip_name(archive@, i as int).unwrap(),
{
    let c = std::io::Cursor::new(archive.as_slice());
    match zip::ZipArchive::new(c) {
        Ok(z) => z.name_for_index(i).map(|n| n.as_bytes().to_vec()),
        Err(_) => None,
    }
}

/// Relies on `zip::ZipArchive::by_name` and `std::io::Read::read_to_end`:
/// the decompressed bytes of the named entry, a deterministic function of
/// the archive bytes and the name.
#[verifier::external_body]
pub(crate) fn zip_entry_data(archive: &Vec<u8>, name: &Vec<u8>) -> (r: Option<Vec<u8>>)
    ensures
        (r is Some) == (zip_data(archive@, name@) is Some),
        r is Some ==> r.unwrap()@ == zip_data(archive@, name@).unwrap(),
{
    let c = std::io::Cursor::new(archive.as_slice());
    let mut z = zip::ZipArchive::new(c).ok()?;
    let n = std::str::from_utf8(name).ok()?;
    let mut f = z.by_name(n).ok()?;
    let mut buf = Vec::new();
    std::io::Read::read_to_end(&mut f, &mut buf).ok()?;
    Some(buf)
}

/// A decoded texture: 8-bit RGBA, row-major, ready for upload.
pub struct RgbaTexture {
    pub width: u32,
    pub height: u32,
    pub pixels: Vec<u8>,
}

#[verifier::ext_equal]
pub struct RgbaTextureView {
    pub width: u32,
    pub height: u32,
    pub pixels: Seq<u8>,
}

impl View for RgbaTexture {
    type V = RgbaTextureView;

    open spec fn view(&self) -> RgbaTextureView {
        RgbaTextureView { width: self.width, height: self.height, pixels: self.pixels@ }
    }
}

/// What decoding an image to 8-bit RGBA yields — width, height and pixel
/// bytes, a deterministic function of the encoded bytes; `None` when the
/// bytes do not decode as a supported image.
pub uninterp spec fn image_rgba8(data: Seq<u8>) -> Option<(u32, u32, Seq<u8>)>;

/// Relies on `image::load_from_memory` and `DynamicImage::to_rgba8`:
/// decodes an encoded image and converts it to a fixed RGBA byte layout,
/// ready for an immutable GPU upload by the embedding program.
/// An RGBA buffer of a `width * height` image holds `4 * width * height`
/// bytes: the documented layout of `image::ImageBuffer`.
#[verifier::external_body]
pub fn load_texture(data: &Vec<u8>) -> (r: Option<RgbaTexture>)
    ensures
        (r is Some) == (image_rgba8(data@) is Some),
        r is Some ==> ({
            let (w, h, px) = image_rgba8(data@).unwrap();
            r.unwrap()@ == (RgbaTextureView { width: w, height: h, pixels: px })
        }),
        r is Some ==> r.unwrap().pixels@.len() == 4 * (r.unwrap().width as nat) * (
        r.unwrap().height as nat),
{
    let img = match image::load_from_memory(data.as_slice()) {
        Ok(i) => i,
        Err(_) => return None,
    };
    let rgba = img.to_rgba8();
    let (width, height) = rgba.dimensions();
    Some(RgbaTexture { width, height, pixels: rgba.into_raw() })
}

} // verus!
