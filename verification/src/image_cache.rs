//! Decoded images, and the cache that keeps neighbouring frames ready.
//!
//! Scrubbing through a sequence is only smooth if the next frame is already
//! in memory, so neighbours are decoded ahead of time (on threads the
//! application runs) and parked here.
use vstd::prelude::*;
use std::sync::Arc;
use crate::text_map::{TextMap, text_set};

verus! {

/// How the texels of a decoded image are laid out for the GPU texture.
#[derive(Clone, Copy, PartialEq, Eq, Debug)]
pub enum TexelFormat {
    /// 8-bit RGBA, display-encoded.
    Rgba8Unorm,
    /// 32-bit float RGBA, linear.
    Rgba32Float,
}

impl TexelFormat {
    /// Bytes per texel: 4 for 8-bit RGBA, 16 for float RGBA.
    pub fn bytes_per_pixel(self) -> (n: u32)
        ensures
            n == (match self {
                TexelFormat::Rgba8Unorm => 4u32,
                TexelFormat::Rgba32Float => 16u32,
            }),
    {
        match self {
            TexelFormat::Rgba8Unorm => 4,
            TexelFormat::Rgba32Float => 16,
        }
    }
}

/// An image decoded and laid out exactly as the GPU texture wants it.
pub struct DecodedImage {
    pub size: [u32; 2],
    /// Raw texel bytes: 8-bit RGBA, or 32-bit float RGBA for HDR sources.
    pub bytes: Vec<u8>,
    pub is_hdr: bool,
}

impl DecodedImage {
    /// Float texels for HDR sources, 8-bit ones otherwise.
    pub fn texture_format(&self) -> (f: TexelFormat)
        ensures
            f == (if self.is_hdr {
                TexelFormat::Rgba32Float
            } else {
                TexelFormat::Rgba8Unorm
            }),
    {
        if self.is_hdr {
            TexelFormat::Rgba32Float
        } else {
            TexelFormat::Rgba8Unorm
        }
    }
}

#[verifier::external_type_specification]
#[verifier::external_body]
pub struct ExDynamicImage(image::DynamicImage);

/// How a decoder laid out the samples of an image: the variants of
/// `image::DynamicImage`, told apart.
#[derive(Clone, Copy, PartialEq, Eq, Structural, Debug)]
pub enum SampleLayout {
    Luma8,
    LumaA8,
    Rgb8,
    Rgba8,
    Luma16,
    LumaA16,
    Rgb16,
    Rgba16,
    Rgb32F,
    Rgba32F,
    /// A layout added to the decoder after this list was written.
    Other,
}

/// Linear 32-bit float samples: how EXR and Radiance HDR decode.
pub open spec fn is_float_layout(layout: SampleLayout) -> bool {
    layout == SampleLayout::Rgb32F || layout == SampleLayout::Rgba32F
}

/// Bytes per texel on the GPU: float RGBA for float sources, 8-bit RGBA for
/// the rest.
pub open spec fn texel_size(float: bool) -> int {
    if float {
        16
    } else {
        4
    }
}

/// A decoded image as plain values: how the decoder laid out its samples,
/// its width and height, and its texels converted for the GPU.
pub struct RawImage {
    pub layout: SampleLayout,
    pub size: [u32; 2],
    pub texels: Vec<u8>,
}

/// `image::load_from_memory`: guesses the format from the bytes and decodes
/// them; the error is carried as its message. Nothing is claimed of the
/// outcome: format guessing and decoding also consult hooks that any code in
/// the process may register.
#[verifier::external_body]
pub fn load_from_memory(bytes: &[u8]) -> Result<image::DynamicImage, String> {
    image::load_from_memory(bytes).map_err(|e| e.to_string())
}

/// `ImageFormat::from_path` followed by `ImageReader::with_format(..).decode()`
/// on the bytes: decodes them as the format the path's extension names, as
/// `image::open` does for a file. The error of either step is carried as its
/// message. Nothing is claimed of the outcome.
#[verifier::external_body]
pub fn load_with_extension(bytes: &[u8], path: &str) -> Result<image::DynamicImage, String> {
    match image::ImageFormat::from_path(path) {
        Ok(format) => image::ImageReader::with_format(std::io::Cursor::new(bytes), format)
            .decode()
            .map_err(|e| e.to_string()),
        Err(e) => Err(e.to_string()),
    }
}

/// Which variant of `DynamicImage` the image is, one arm per variant.
#[verifier::external_body]
pub fn layout_of(img: &image::DynamicImage) -> SampleLayout {
    match img {
        image::DynamicImage::ImageLuma8(_) => SampleLayout::Luma8,
        image::DynamicImage::ImageLumaA8(_) => SampleLayout::LumaA8,
        image::DynamicImage::ImageRgb8(_) => SampleLayout::Rgb8,
        image::DynamicImage::ImageRgba8(_) => SampleLayout::Rgba8,
        image::DynamicImage::ImageLuma16(_) => SampleLayout::Luma16,
        image::DynamicImage::ImageLumaA16(_) => SampleLayout::LumaA16,
        image::DynamicImage::ImageRgb16(_) => SampleLayout::Rgb16,
        image::DynamicImage::ImageRgba16(_) => SampleLayout::Rgba16,
        image::DynamicImage::ImageRgb32F(_) => SampleLayout::Rgb32F,
        image::DynamicImage::ImageRgba32F(_) => SampleLayout::Rgba32F,
        _ => SampleLayout::Other,
    }
}

/// `DynamicImage::to_rgba8`, as its width, height and the channels of its
/// pixels in order (`ImageBuffer::pixels`, which visits exactly width times
/// height pixels of four channels).
#[verifier::external_body]
pub fn rgba8_texels(img: &image::DynamicImage) -> (r: ([u32; 2], Vec<u8>))
    ensures
        r.1.len() == 4 * (r.0[0] as int) * (r.0[1] as int),
{
    let buffer = img.to_rgba8();
    ([buffer.width(), buffer.height()], buffer.pixels().flat_map(|p| p.0).collect())
}

/// `DynamicImage::to_rgba32f`, as its width, height and the bytes of the
/// float channels of its pixels in order (`ImageBuffer::pixels`, then
/// `bytemuck::cast_slice`), keeping values above 1.0: exactly width times
/// height pixels of four channels of four bytes.
#[verifier::external_body]
pub fn rgba32f_texels(img: &image::DynamicImage) -> (r: ([u32; 2], Vec<u8>))
    ensures
        r.1.len() == 16 * (r.0[0] as int) * (r.0[1] as int),
{
    let buffer = img.to_rgba32f();
    let channels: Vec<_> = buffer.pixels().flat_map(|p| p.0).collect();
    ([buffer.width(), buffer.height()], bytemuck::cast_slice::<_, u8>(&channels).to_vec())
}

/// The plain form of a decoded image: float sources (`Rgb32F`, `Rgba32F`)
/// keep their linear float samples and full range; everything else becomes
/// 8-bit RGBA. The texels cover every pixel exactly.
pub fn raw_image(dynamic: &image::DynamicImage) -> (r: RawImage)
    ensures
        r.texels.len() == texel_size(is_float_layout(r.layout)) * (r.size[0] as int) * (r.size[1] as int),
        call_ensures(layout_of, (dynamic,), r.layout),
        is_float_layout(r.layout) ==> call_ensures(rgba32f_texels, (dynamic,), (r.size, r.texels)),
        !is_float_layout(r.layout) ==> call_ensures(rgba8_texels, (dynamic,), (r.size, r.texels)),
{
    let layout = layout_of(dynamic);
    let float = layout == SampleLayout::Rgb32F || layout == SampleLayout::Rgba32F;
    let (size, texels) = if float {
        rgba32f_texels(dynamic)
    } else {
        rgba8_texels(dynamic)
    };
    RawImage { layout, size, texels }
}

/// Lays a decoded image out for the GPU: float sources are HDR and keep
/// their texels as linear float; the size and texels are the image's own.
pub fn from_raw(img: RawImage) -> (decoded: DecodedImage)
    ensures
        decoded.is_hdr == is_float_layout(img.layout),
        decoded.size == img.size,
        decoded.bytes@ == img.texels@,
        decoded == decoded_of(img),
{
    let is_hdr = img.layout == SampleLayout::Rgb32F || img.layout == SampleLayout::Rgba32F;
    DecodedImage { size: img.size, bytes: img.texels, is_hdr }
}

/// Lays a decoded image out for the GPU: EXR and Radiance HDR decode to
/// linear float and keep their full range; everything else becomes 8-bit
/// RGBA. The bytes cover every texel exactly.
pub fn from_dynamic(dynamic: image::DynamicImage) -> (decoded: DecodedImage)
    ensures
        decoded.bytes.len() == texel_size(decoded.is_hdr) * (decoded.size[0] as int) * (decoded.size[1] as int),
        exists|raw: RawImage| call_ensures(raw_image, (&dynamic,), raw) && decoded == decoded_of(raw),
{
    let raw = raw_image(&dynamic);
    let ghost g = raw;
    let decoded = from_raw(raw);
    assert(decoded == decoded_of(g));
    decoded
}

/// What [`from_raw`] makes of `img`.
pub open spec fn decoded_of(img: RawImage) -> DecodedImage {
    DecodedImage { size: img.size, bytes: img.texels, is_hdr: is_float_layout(img.layout) }
}

/// What decoding comes to once the decoder has answered `o`: its error is
/// passed on as it is, and a decoded image is laid out by [`from_dynamic`].
pub open spec fn decoded_from(o: Result<image::DynamicImage, String>, r: Result<DecodedImage, String>) -> bool {
    match o {
        Ok(dynamic) => r matches Ok(d) && call_ensures(from_dynamic, (dynamic,), d),
        Err(e) => r == Err::<DecodedImage, String>(e),
    }
}

/// Only float sample layouts are HDR: an image the decoder laid out as
/// `Rgb32F` or `Rgba32F` (how EXR and Radiance HDR decode) becomes float
/// texels of 16 bytes; every other layout (8-bit or 16-bit colour, grey,
/// with or without alpha) becomes 8-bit RGBA texels of 4 bytes and is not
/// HDR.
pub proof fn lemma_only_float_layouts_are_hdr(img: RawImage)
    ensures
        decoded_of(img).is_hdr <==> (img.layout == SampleLayout::Rgb32F || img.layout == SampleLayout::Rgba32F),
        texel_size(is_float_layout(img.layout)) == (if img.layout == SampleLayout::Rgb32F || img.layout
            == SampleLayout::Rgba32F {
            16int
        } else {
            4int
        }),
        (img.layout == SampleLayout::Luma8 || img.layout == SampleLayout::LumaA8 || img.layout == SampleLayout::Rgb8
            || img.layout == SampleLayout::Rgba8 || img.layout == SampleLayout::Luma16 || img.layout
            == SampleLayout::LumaA16 || img.layout == SampleLayout::Rgb16 || img.layout == SampleLayout::Rgba16
            || img.layout == SampleLayout::Other) ==> !decoded_of(img).is_hdr && texel_size(
            is_float_layout(img.layout),
        ) == 4,
{
}

/// Decodes an image already in memory -- how remote files arrive, since SFTP
/// hands over bytes rather than a path to open; the format is guessed from
/// the bytes. On failure, the decoder's message. Whether decoding succeeds is
/// the decoder's to say; a decoded image covers every texel exactly.
pub fn decode_bytes(bytes: &[u8]) -> (r: Result<DecodedImage, String>)
    ensures
        r matches Ok(d) ==> d.bytes.len() == texel_size(d.is_hdr) * (d.size[0] as int) * (d.size[1] as int),
        exists|o: Result<image::DynamicImage, String>| #[trigger] call_ensures(load_from_memory, (bytes,), o) && decoded_from(o, r),
{
    let o = load_from_memory(bytes);
    let ghost g = o;
    let r = match o {
        Ok(dynamic) => Ok(from_dynamic(dynamic)),
        Err(e) => Err(e),
    };
    assert(call_ensures(load_from_memory, (bytes,), g));
    r
}

/// Decodes the bytes of the local file `path` as the format its extension
/// names (`.exr`, `.png`, in any case), as opening the file would. On
/// failure, the decoder's message. A decoded image covers every texel
/// exactly.
pub fn decode_file_bytes(bytes: &[u8], path: &str) -> (r: Result<DecodedImage, String>)
    ensures
        r matches Ok(d) ==> d.bytes.len() == texel_size(d.is_hdr) * (d.size[0] as int) * (d.size[1] as int),
        exists|o: Result<image::DynamicImage, String>| #[trigger] call_ensures(load_with_extension, (bytes, path), o) && decoded_from(o, r),
{
    let o = load_with_extension(bytes, path);
    let ghost g = o;
    let r = match o {
        Ok(dynamic) => Ok(from_dynamic(dynamic)),
        Err(e) => Err(e),
    };
    assert(call_ensures(load_with_extension, (bytes, path), g));
    r
}

/// A second handle on the same image (`Arc::clone`).
#[verifier::external_body]
pub(crate) fn share(image: &Arc<DecodedImage>) -> (r: Arc<DecodedImage>)
    ensures
        r == *image,
{
    Arc::clone(image)
}

/// Decoded images held in memory, and the set of paths being decoded.
pub struct ImageCache {
    entries: TextMap<Arc<DecodedImage>>,
    in_flight: TextMap<()>,
}

impl ImageCache {
    /// The images held, by path.
    pub closed spec fn images(&self) -> Map<Seq<char>, Arc<DecodedImage>> {
        self.entries.view()
    }

    /// The paths whose decode has been claimed and not yet completed.
    pub closed spec fn decoding(&self) -> Set<Seq<char>> {
        self.in_flight.view().dom()
    }

    /// An empty cache.
    pub fn new() -> (c: Self)
        ensures
            c.images() == Map::<Seq<char>, Arc<DecodedImage>>::empty(),
            c.decoding() == Set::<Seq<char>>::empty(),
    {
        let c = ImageCache { entries: TextMap::new(), in_flight: TextMap::new() };
        proof {
            assert(c.decoding() =~= Set::<Seq<char>>::empty());
        }
        c
    }

    /// The image held for `path`.
    pub fn get(&self, path: &str) -> (image: Option<Arc<DecodedImage>>)
        ensures
            image == (if self.images().contains_key(path@) {
                Some(self.images()[path@])
            } else {
                None
            }),
    {
        match self.entries.get(path) {
            Some(image) => Some(share(image)),
            None => None,
        }
    }

    /// Holds `image` for `path`, replacing any earlier one.
    pub fn insert(&mut self, path: String, image: Arc<DecodedImage>)
        ensures
            final(self).images() == old(self).images().insert(path@, image),
            final(self).decoding() == old(self).decoding(),
            final(self).images().dom().finite(),
            final(self).images().dom().len() == old(self).images().dom().len() + (if old(
                self,
            ).images().contains_key(path@) {
                0int
            } else {
                1int
            }),
    {
        let ghost k = path@;
        self.entries.insert(path, image);
        proof {
            assert(self.images().dom() =~= old(self).images().dom().insert(k));
        }
    }

    /// Claims the decode of `path` unless it is already held or being
    /// decoded. Returns whether the caller should now decode it (and report
    /// back with [`ImageCache::complete`]).
    pub fn request(&mut self, path: &str) -> (start: bool)
        ensures
            start == starts_decode(old(self).images(), old(self).decoding(), path@),
            final(self).images() == old(self).images(),
            final(self).decoding() == (if start {
                old(self).decoding().insert(path@)
            } else {
                old(self).decoding()
            }),
    {
        if self.entries.get(path).is_some() {
            return false;
        }
        if self.in_flight.get(path).is_some() {
            return false;
        }
        let ghost before = self.in_flight.view();
        self.in_flight.insert(path.to_string(), ());
        proof {
            assert(self.in_flight.view().dom() =~= before.dom().insert(path@));
        }
        true
    }

    /// Records the outcome of a decode claimed with [`ImageCache::request`]:
    /// a decoded image is held, and the path is no longer being decoded.
    pub fn complete(&mut self, path: &str, decoded: Option<DecodedImage>)
        ensures
            final(self).images() == (match decoded {
                Some(image) => old(self).images().insert(path@, Arc::new(image)),
                None => old(self).images(),
            }),
            final(self).decoding() == old(self).decoding().remove(path@),
    {
        if let Some(image) = decoded {
            self.entries.insert(path.to_string(), Arc::new(image));
        }
        let ghost before = self.in_flight.view();
        self.in_flight.remove(path);
        proof {
            assert(self.in_flight.view().dom() =~= before.dom().remove(path@));
        }
    }

    /// Drops every image whose path is not in `keep`. Without this, scrubbing
    /// a long sequence would hold every frame ever visited.
    pub fn retain(&mut self, keep: &Vec<String>)
        ensures
            final(self).images() == old(self).images().restrict(text_set(keep@)),
            final(self).decoding() == old(self).decoding(),
            final(self).images().dom().finite(),
            final(self).images().dom().len() <= old(self).images().dom().len(),
    {
        self.entries.retain(keep);
        proof {
            assert(self.images().dom() =~= old(self).images().dom().intersect(text_set(keep@)));
            vstd::set_lib::lemma_len_intersect(old(self).images().dom(), text_set(keep@));
        }
    }

    /// Number of images held.
    pub fn len(&self) -> (n: usize)
        ensures
            n == self.images().dom().len(),
    {
        self.entries.len()
    }

    /// Whether no image is held.
    pub fn is_empty(&self) -> (r: bool)
        ensures
            r == (self.images().dom().len() == 0),
    {
        self.len() == 0
    }
}


/// What the cache answers for `path` when it holds `images`.
pub open spec fn lookup(images: Map<Seq<char>, Arc<DecodedImage>>, path: Seq<char>) -> Option<Arc<DecodedImage>> {
    if images.contains_key(path) {
        Some(images[path])
    } else {
        None
    }
}

/// Reading back what was stored gives it back, and storing under one path
/// leaves every other path's answer alone.
pub proof fn lemma_get_after_insert(
    images: Map<Seq<char>, Arc<DecodedImage>>,
    path: Seq<char>,
    image: Arc<DecodedImage>,
    other: Seq<char>,
)
    ensures
        lookup(images.insert(path, image), path) == Some(image),
        other != path ==> lookup(images.insert(path, image), other) == lookup(images, other),
{
}

/// After `retain`, every image held is one asked to be kept, and every image
/// asked to be kept that was held is held still.
pub proof fn lemma_retain_keeps_exactly(images: Map<Seq<char>, Arc<DecodedImage>>, keep: Seq<String>, path: Seq<char>)
    ensures
        images.restrict(text_set(keep)).contains_key(path) <==> (images.contains_key(path)
            && exists|j: int| 0 <= j < keep.len() && (#[trigger] keep[j])@ == path),
        images.restrict(text_set(keep)).contains_key(path) ==> images.restrict(text_set(keep))[path]
            == images[path],
{
}

/// Whether asking for `path` starts its decode: only when it is neither
/// held nor being decoded.
pub open spec fn starts_decode(
    images: Map<Seq<char>, Arc<DecodedImage>>,
    decoding: Set<Seq<char>>,
    path: Seq<char>,
) -> bool {
    !images.contains_key(path) && !decoding.contains(path)
}

/// A decode is claimed once: right after [`ImageCache::request`] claims it,
/// asking again does not start another; once [`ImageCache::complete`] has
/// held the decoded image, asking does not start one either; and after a
/// failed decode, asking starts it afresh.
pub proof fn lemma_decode_claimed_once(
    images: Map<Seq<char>, Arc<DecodedImage>>,
    decoding: Set<Seq<char>>,
    path: Seq<char>,
    image: DecodedImage,
)
    requires
        starts_decode(images, decoding, path),
    ensures
        !starts_decode(images, decoding.insert(path), path),
        !starts_decode(images.insert(path, Arc::new(image)), decoding.insert(path).remove(path), path),
        starts_decode(images, decoding.insert(path).remove(path), path),
{
}

} // verus!
