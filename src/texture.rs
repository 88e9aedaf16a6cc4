use vstd::prelude::*;

use crate::error::AssetError;

verus! {

/// The role a texture plays on a surface.
#[derive(Debug, Clone, Copy, PartialEq, Eq, Structural)]
pub enum TextureKind {
    Diffuse,
    Specular,
    Normal,
}

/// The word that names a kind in sampler uniforms.
pub open spec fn kind_name(kind: TextureKind) -> Seq<char> {
    match kind {
        TextureKind::Diffuse => "diffuse"@,
        TextureKind::Specular => "specular"@,
        TextureKind::Normal => "normal"@,
    }
}

impl TextureKind {
    /// The word that names this kind in sampler uniforms.
    pub fn name(&self) -> (r: &'static str)
        ensures
            r@ == kind_name(*self),
    {
        match self {
            TextureKind::Diffuse => "diffuse",
            TextureKind::Specular => "specular",
            TextureKind::Normal => "normal",
        }
    }
}

/// A texture that a material asks for: where its image lives and its role.
pub struct TextureSource {
    pub path: String,
    pub kind: TextureKind,
}

impl View for TextureSource {
    type V = (Seq<char>, TextureKind);

    open spec fn view(&self) -> Self::V {
        (self.path@, self.kind)
    }
}

/// A texture uploaded to the GPU: its handle, its role and the path it was
/// read from, which is also the key that keeps it from being loaded twice.
pub struct Texture {
    pub id: u32,
    pub kind: TextureKind,
    pub path: String,
}

/// The mathematical value of a [`Texture`]: handle, kind and path.
pub struct TextureView {
    pub id: u32,
    pub kind: TextureKind,
    pub path: Seq<char>,
}

impl View for Texture {
    type V = TextureView;

    open spec fn view(&self) -> TextureView {
        TextureView { id: self.id, kind: self.kind, path: self.path@ }
    }
}

impl Texture {
    /// Another copy of the same handle, kind and path.
    pub fn share(&self) -> (r: Texture)
        ensures
            r@ == self@,
    {
        Texture { id: self.id, kind: self.kind, path: self.path.clone() }
    }
}

/// Whether some entry of `entries` was read from `path`.
pub open spec fn has_path(entries: Seq<(Seq<char>, TextureKind)>, path: Seq<char>) -> bool {
    exists|j: int| 0 <= j < entries.len() && (#[trigger] entries[j]).0 == path
}

/// No two entries share a path.
pub open spec fn paths_unique(entries: Seq<(Seq<char>, TextureKind)>) -> bool {
    forall|i: int, j: int|
        0 <= i < entries.len() && 0 <= j < entries.len() && i != j ==> (#[trigger] entries[i]).0
            != (#[trigger] entries[j]).0
}

/// The cache after a request: unchanged when the path is already there,
/// else with the request appended.
pub open spec fn cache_step(
    entries: Seq<(Seq<char>, TextureKind)>,
    request: (Seq<char>, TextureKind),
) -> Seq<(Seq<char>, TextureKind)> {
    if has_path(entries, request.0) {
        entries
    } else {
        entries.push(request)
    }
}

/// A cache step keeps paths unique.
proof fn lemma_cache_step_unique(
    entries: Seq<(Seq<char>, TextureKind)>,
    request: (Seq<char>, TextureKind),
)
    requires
        paths_unique(entries),
    ensures
        paths_unique(cache_step(entries, request)),
{
    if !has_path(entries, request.0) {
        let next = entries.push(request);
        assert forall|i: int, j: int|
            0 <= i < next.len() && 0 <= j < next.len() && i != j implies (#[trigger] next[i]).0
            != (#[trigger] next[j]).0 by {
            if i == entries.len() {
                assert(next[j] == entries[j]);
            } else if j == entries.len() {
                assert(next[i] == entries[i]);
            }
        }
    }
}

/// The cache after `requests`, made one after another from `entries`.
pub open spec fn cache_after(
    entries: Seq<(Seq<char>, TextureKind)>,
    requests: Seq<(Seq<char>, TextureKind)>,
) -> Seq<(Seq<char>, TextureKind)>
    decreases requests.len(),
{
    if requests.len() == 0 {
        entries
    } else {
        cache_step(cache_after(entries, requests.drop_last()), requests.last())
    }
}

/// The cache that a sequence of requests builds from an empty one: one entry
/// per distinct path, in order of first request, with the kind first asked for.
pub open spec fn first_requests(requests: Seq<(Seq<char>, TextureKind)>) -> Seq<
    (Seq<char>, TextureKind),
> {
    cache_after(seq![], requests)
}

/// Requests keep the paths of a cache unique, and never move or change an
/// entry that is there.
pub proof fn lemma_cache_after(
    entries: Seq<(Seq<char>, TextureKind)>,
    requests: Seq<(Seq<char>, TextureKind)>,
)
    ensures
        paths_unique(entries) ==> paths_unique(cache_after(entries, requests)),
        entries.len() <= cache_after(entries, requests).len(),
        forall|j: int|
            0 <= j < entries.len() ==> #[trigger] cache_after(entries, requests)[j] == entries[j],
    decreases requests.len(),
{
    if requests.len() > 0 {
        lemma_cache_after(entries, requests.drop_last());
        let before = cache_after(entries, requests.drop_last());
        if paths_unique(entries) {
            lemma_cache_step_unique(before, requests.last());
        }
        assert forall|j: int| 0 <= j < entries.len() implies #[trigger] cache_after(
            entries,
            requests,
        )[j] == entries[j] by {
            assert(before[j] == entries[j]);
        }
    }
}

/// Making two runs of requests one after the other is making their
/// concatenation.
pub proof fn lemma_cache_after_concat(
    entries: Seq<(Seq<char>, TextureKind)>,
    first: Seq<(Seq<char>, TextureKind)>,
    second: Seq<(Seq<char>, TextureKind)>,
)
    ensures
        cache_after(entries, first + second) == cache_after(cache_after(entries, first), second),
    decreases second.len(),
{
    if second.len() == 0 {
        assert(first + second =~= first);
    } else {
        assert((first + second).drop_last() =~= first + second.drop_last());
        lemma_cache_after_concat(entries, first, second.drop_last());
    }
}

/// The cache that any sequence of requests builds holds each path once.
pub proof fn lemma_first_requests_unique(requests: Seq<(Seq<char>, TextureKind)>)
    ensures
        paths_unique(first_requests(requests)),
{
    lemma_cache_after(seq![], requests);
}

/// The texture cache of a model while it loads: each distinct source path at
/// most once, with the kind it was first requested as. Handles are given to
/// the entries once they are uploaded, in entry order.
pub struct TextureCache {
    entries: Vec<TextureSource>,
}

impl View for TextureCache {
    type V = Seq<(Seq<char>, TextureKind)>;

    closed spec fn view(&self) -> Self::V {
        self.entries@.map_values(|t: TextureSource| t@)
    }
}

impl TextureCache {
    /// Each path is held at most once.
    pub open spec fn wf(&self) -> bool {
        paths_unique(self@)
    }

    /// An empty cache.
    pub fn new() -> (r: TextureCache)
        ensures
            r@ == Seq::<(Seq<char>, TextureKind)>::empty(),
            r.wf(),
    {
        TextureCache { entries: Vec::new() }
    }

    /// Number of distinct paths held.
    pub fn len(&self) -> (r: usize)
        ensures
            r == self@.len(),
    {
        self.entries.len()
    }

    /// The entry at `i`.
    pub fn get(&self, i: usize) -> (r: &TextureSource)
        requires
            i < self@.len(),
        ensures
            r@ == self@[i as int],
    {
        &self.entries[i]
    }

    /// Where `path` is held, if it is.
    pub fn find(&self, path: &String) -> (r: Option<usize>)
        ensures
            r is Some ==> r->Some_0 < self@.len() && self@[r->Some_0 as int].0 == path@,
            r is None <==> !has_path(self@, path@),
    {
        let mut i: usize = 0;
        while i < self.entries.len()
            invariant
                0 <= i <= self.entries@.len(),
                forall|j: int| 0 <= j < i ==> (#[trigger] self@[j]).0 != path@,
            decreases self.entries@.len() - i,
        {
            if self.entries[i].path == *path {
                assert(self@[i as int].0 == path@);
                return Some(i);
            }
            i = i + 1;
        }
        None
    }

    /// The entry for `path`, added with `kind` where no entry has that path.
    /// A path already held is returned as it is, with the kind it was first
    /// requested as, so that no image is read or uploaded twice.
    pub fn load_or_get(&mut self, path: &String, kind: TextureKind) -> (r: usize)
        requires
            old(self).wf(),
        ensures
            final(self)@ == cache_step(old(self)@, (path@, kind)),
            final(self).wf(),
            r < final(self)@.len(),
            final(self)@[r as int].0 == path@,
            has_path(old(self)@, path@) ==> final(self)@ == old(self)@,
            forall|j: int|
                0 <= j < final(self)@.len() && (#[trigger] final(self)@[j]).0 == path@ ==> j == r,
    {
        proof {
            lemma_cache_step_unique(self@, (path@, kind));
        }
        match self.find(path) {
            Some(i) => i,
            None => {
                let i = self.entries.len();
                self.entries.push(TextureSource { path: path.clone(), kind });
                assert(self@ =~= old(self)@.push((path@, kind)));
                i
            }
        }
    }
}

/// GPU pixel formats, by the number of colour channels they carry.
#[derive(Debug, Clone, Copy, PartialEq, Eq, Structural)]
pub enum PixelFormat {
    Red,
    Rg,
    Rgb,
    Rgba,
}

/// The pixel format for an image with `channels` channels, if there is one.
pub open spec fn format_for_channels(channels: nat) -> Option<PixelFormat> {
    if channels == 1 {
        Some(PixelFormat::Red)
    } else if channels == 2 {
        Some(PixelFormat::Rg)
    } else if channels == 3 {
        Some(PixelFormat::Rgb)
    } else if channels == 4 {
        Some(PixelFormat::Rgba)
    } else {
        None
    }
}

/// Chooses the pixel format from the channel layout: one channel is red only,
/// two are red-green, three RGB and four RGBA; other counts have none.
pub fn pixel_format(channels: u8) -> (r: Option<PixelFormat>)
    ensures
        r == format_for_channels(channels as nat),
{
    match channels {
        1 => Some(PixelFormat::Red),
        2 => Some(PixelFormat::Rg),
        3 => Some(PixelFormat::Rgb),
        4 => Some(PixelFormat::Rgba),
        _ => None,
    }
}

/// The GPU component type of one channel sample.
#[derive(Debug, Clone, Copy, PartialEq, Eq, Structural)]
pub enum SampleType {
    /// One unsigned byte per sample.
    UnsignedByte,
    /// One unsigned 16-bit integer per sample, in native byte order.
    UnsignedShort,
    /// One 32-bit float per sample, in native byte order.
    Float,
}

/// The sample type of pixels with `channels` channels in `bytes_per_pixel`
/// bytes: one, two or four bytes per channel.
pub open spec fn sample_type_for(channels: nat, bytes_per_pixel: nat) -> Option<SampleType> {
    if bytes_per_pixel == channels {
        Some(SampleType::UnsignedByte)
    } else if bytes_per_pixel == 2 * channels {
        Some(SampleType::UnsignedShort)
    } else if bytes_per_pixel == 4 * channels {
        Some(SampleType::Float)
    } else {
        None
    }
}

/// An image as the decoder hands it over: its size, how many channels and
/// bytes each pixel has, and the pixel bytes row by row.
pub struct DecodedImage {
    pub width: u32,
    pub height: u32,
    pub channels: u8,
    pub bytes_per_pixel: u8,
    pub pixels: Vec<u8>,
}

impl View for DecodedImage {
    type V = (u32, u32, u8, u8, Seq<u8>);

    open spec fn view(&self) -> Self::V {
        (self.width, self.height, self.channels, self.bytes_per_pixel, self.pixels@)
    }
}

/// Pixel data ready for upload into a GPU texture object.
pub struct TextureImage {
    pub width: u32,
    pub height: u32,
    pub format: PixelFormat,
    pub sample: SampleType,
    pub pixels: Vec<u8>,
}

/// The error `image::load_from_memory` reports; it is carried unopened and
/// only tells that decoding failed.
#[verifier::external_type_specification]
#[verifier::external_body]
pub struct ExImageError(image::ImageError);

/// What the image decoder makes of a byte sequence, when it recognises one:
/// width, height, channel count, bytes per pixel and pixel bytes.
pub uninterp spec fn decoded_image(bytes: Seq<u8>) -> Option<(u32, u32, u8, u8, Seq<u8>)>;

/// Relies on `image::load_from_memory`, which guesses the file format from the
/// bytes and decodes them; the outcome depends on the bytes alone. Width,
/// height, colour type and raw bytes are read off the decoded image. Every
/// colour type of the decoder (`ColorType::channel_count` and
/// `ColorType::bytes_per_pixel`) has one to four channels of one, two or
/// four bytes each.
#[verifier::external_body]
fn decode_image(bytes: &[u8]) -> (r: Result<DecodedImage, image::ImageError>)
    ensures
        r is Ok <==> decoded_image(bytes@) is Some,
        r is Ok ==> decoded_image(bytes@) == Some(r->Ok_0@),
        r is Ok ==> 1 <= r->Ok_0.channels <= 4,
        r is Ok ==> sample_type_for(
            r->Ok_0.channels as nat,
            r->Ok_0.bytes_per_pixel as nat,
        ) is Some,
{
    match image::load_from_memory(bytes) {
        Ok(img) => Ok(DecodedImage {
            width: img.width(),
            height: img.height(),
            channels: img.color().channel_count(),
            bytes_per_pixel: img.color().bytes_per_pixel(),
            pixels: img.into_bytes(),
        }),
        Err(e) => Err(e),
    }
}

/// The texture a decoded image (width, height, channels, bytes per pixel,
/// pixels) becomes: the format follows the channel count and the sample type
/// the bytes per channel.
pub open spec fn texture_for(d: (u32, u32, u8, u8, Seq<u8>)) -> Option<
    (u32, u32, PixelFormat, SampleType, Seq<u8>),
> {
    let format = format_for_channels(d.2 as nat);
    let sample = sample_type_for(d.2 as nat, d.3 as nat);
    if format is Some && sample is Some {
        Some((d.0, d.1, format->Some_0, sample->Some_0, d.4))
    } else {
        None
    }
}

/// Turns a decoded image into texture data. Images whose channel count has
/// no pixel format, or whose samples are not one, two or four bytes wide,
/// are refused.
pub fn texture_from_decoded(img: DecodedImage) -> (r: Result<TextureImage, AssetError>)
    ensures
        r is Ok <==> texture_for(img@) is Some,
        r is Ok ==> texture_for(img@) == Some(
            (r->Ok_0.width, r->Ok_0.height, r->Ok_0.format, r->Ok_0.sample, r->Ok_0.pixels@),
        ),
        r is Err ==> r->Err_0 == AssetError::TextureDecodeFailed,
{
    let format = match pixel_format(img.channels) {
        Some(format) => format,
        None => {
            return Err(AssetError::TextureDecodeFailed);
        },
    };
    let channels = img.channels as u16;
    let bytes = img.bytes_per_pixel as u16;
    let sample = if bytes == channels {
        SampleType::UnsignedByte
    } else if bytes == 2 * channels {
        SampleType::UnsignedShort
    } else if bytes == 4 * channels {
        SampleType::Float
    } else {
        return Err(AssetError::TextureDecodeFailed);
    };
    Ok(TextureImage { width: img.width, height: img.height, format, sample, pixels: img.pixels })
}

/// Decodes the bytes of an image file into texture data; fails with
/// `TextureDecodeFailed` exactly when the decoder refuses the bytes.
pub fn decode_texture(bytes: &[u8]) -> (r: Result<TextureImage, AssetError>)
    ensures
        r is Ok <==> decoded_image(bytes@) is Some,
        r is Ok ==> texture_for(decoded_image(bytes@)->Some_0) == Some(
            (r->Ok_0.width, r->Ok_0.height, r->Ok_0.format, r->Ok_0.sample, r->Ok_0.pixels@),
        ),
        r is Err ==> r->Err_0 == AssetError::TextureDecodeFailed,
{
    match decode_image(bytes) {
        Ok(img) => texture_from_decoded(img),
        Err(_) => Err(AssetError::TextureDecodeFailed),
    }
}

} // verus!
