//! From the bytes of a file to frames, metadata and an atlas.

use aseprite_loader::binary::chunks::slice::{SliceChunk as FileSlice, SliceKey as FileSliceKey};
use aseprite_loader::binary::chunks::tags::AnimationDirection as FileDirection;
use aseprite_loader::binary::scalars::Color as FileColor;
use aseprite_loader::loader::{AsepriteFile, LoadImageError, LoadSpriteError, Tag as FileTag};
use vstd::prelude::*;
use crate::anim::AsepriteAnimation;
use crate::atlas::{
    frame_views, pack, pack_outcome, AtlasLayout, AtlasRegion, AtlasView, FrameImage, FrameView,
};
use crate::error::{AsepriteLoaderError, DecodeError};
use crate::format::{
    blends_known, check_structure, durations_from, le_u16, no_properties, read_u16, structure,
    well_framed, DEPTH_AT, HEADER_LEN, HEIGHT_AT, TRANSPARENT_AT, WIDTH_AT,
};
use crate::info::{
    duration_views, palette_view, slice_views, tag_views, AnimationDirection, AsepriteInfo, Color,
    NinePatch, Palette, Pivot, Slice, SliceKey, SpriteData, Tag,
};
use crate::model::{valid, InfoView, SliceView, StateView, TagView};

verus! {

/// A parsed file as `aseprite_loader` keeps it.
#[verifier::external_type_specification]
#[verifier::external_body]
pub struct ExAsepriteFile<'a>(AsepriteFile<'a>);

/// The error of `AsepriteFile::load`.
#[verifier::external_type_specification]
#[verifier::external_body]
pub struct ExLoadSpriteError(LoadSpriteError);

/// The error of `AsepriteFile::load_image` and of rendering a frame.
#[verifier::external_type_specification]
#[verifier::external_body]
pub struct ExLoadImageError(LoadImageError);

/// The bytes that a parsed file was loaded from.
pub uninterp spec fn file_bytes(f: AsepriteFile) -> Seq<u8>;

/// Whether `AsepriteFile::load` takes the bytes.
pub uninterp spec fn parses(b: Seq<u8>) -> bool;

/// Width and height of the sprite in a file, as the header gives them: what
/// the parser takes for the size of the sprite.
pub open spec fn sprite_size(b: Seq<u8>) -> (u16, u16) {
    (le_u16(b, WIDTH_AT as int) as u16, le_u16(b, HEIGHT_AT as int) as u16)
}

/// The duration of each frame of a file, in milliseconds, as the headers of
/// the frames give them.
pub open spec fn sprite_durations(b: Seq<u8>) -> Seq<u16> {
    durations_from(b, HEADER_LEN as int)
}

/// The tags of a file as the parser reports them: the items of `tags`.
pub uninterp spec fn parsed_tags(b: Seq<u8>) -> Seq<TagView>;

/// The tags of a file: those that the parser reports, each with the direction
/// code of the file.
pub open spec fn sprite_tags(b: Seq<u8>) -> Seq<TagView> {
    restored_tags(parsed_tags(b))
}

/// The slices of a file: the items of `slices`.
pub uninterp spec fn sprite_slices(b: Seq<u8>) -> Seq<SliceView>;

/// The colours of the palette of a file, where the parsed file has one.
pub uninterp spec fn sprite_palette(b: Seq<u8>) -> Option<Seq<Color>>;

/// The palette entry that the header of a file names as transparent.
pub open spec fn sprite_transparent(b: Seq<u8>) -> u8 {
    b[TRANSPARENT_AT as int]
}

/// The colour depth of a file in bits per pixel, as the header gives it: what
/// the parser takes for the depth of every image.
pub open spec fn sprite_depth(b: Seq<u8>) -> u16 {
    le_u16(b, DEPTH_AT as int) as u16
}

/// The number of cel images of a file: what `image_count` returns.
pub uninterp spec fn sprite_images(b: Seq<u8>) -> nat;

/// The shape of cel image `i` of a file: the fields of `images[i]`.
pub uninterp spec fn sprite_image_shape(b: Seq<u8>, i: nat) -> ImageShape;

/// Why `load_image` does not decode cel image `i` of a file into a buffer of
/// the image's size; `None` where it does.
pub uninterp spec fn sprite_image_failure(b: Seq<u8>, i: nat) -> Option<ImageFailure>;

/// The variant of a `LoadImageError`.
pub uninterp spec fn failure_kind(e: LoadImageError) -> ImageFailure;

/// The pixels of frame `i` of a file, all visible layers flattened: what
/// `combined_frame_image` writes into a buffer of zeros of the sprite's size.
pub uninterp spec fn sprite_frame_pixels(b: Seq<u8>, i: nat) -> Seq<u8>;

/// What a parsed file says of one of its cel images.
#[derive(Clone, Copy, Debug, PartialEq, Eq, Structural)]
pub struct ImageShape {
    pub width: u16,
    pub height: u16,
    /// The number of bytes stored for the image.
    pub len: usize,
    /// Whether those bytes are compressed.
    pub compressed: bool,
}

impl ImageShape {
    /// The bytes that the image takes once it is decoded.
    pub open spec fn decoded_len(self) -> nat {
        (self.width * self.height * 4) as nat
    }

    /// The stored bytes can be copied as they are: unless the image is
    /// stored as plain RGBA, there is nothing to ask; if it is, it has four
    /// bytes for each pixel.
    pub open spec fn copies(self, depth: u16) -> bool {
        depth == 32 && !self.compressed ==> self.len == self.decoded_len()
    }
}

/// The ways in which decoding an image fails.
#[derive(Clone, Copy, Debug, PartialEq, Eq, Structural, Hash)]
pub enum ImageFailure {
    TargetBufferTooSmall,
    MissingPalette,
    UnsupportedColorDepth,
    DecompressError,
    InvalidImageData,
}

/// `AsepriteFile::load`. The call files each cel under the index of its
/// layer, and it reads the properties of user data by sizes that it takes
/// from the file as they are. So it is made only on bytes whose frames and
/// chunks can be followed, whose cels lie on declared layers, and whose user
/// data carries no properties. Whether the bytes are taken depends on the
/// bytes alone, and a file that comes back was loaded from them.
#[verifier::external_body]
fn load_file(bytes: &[u8]) -> (r: Result<AsepriteFile<'_>, LoadSpriteError>)
    requires
        well_framed(bytes@),
        no_properties(bytes@),
    ensures
        r is Ok <==> parses(bytes@),
        r matches Ok(f) ==> file_bytes(f) == bytes@,
{
    AsepriteFile::load(bytes)
}

/// The duration of each frame of `AsepriteFile::frames`, in their order. The
/// parser takes the frames one after the other from byte 128 to the end of
/// the file, each as long as its first four bytes say, and reads the duration
/// of each from the bytes 8 and 9 of the frame.
#[verifier::external_body]
fn frame_durations(f: &AsepriteFile) -> (r: Vec<u16>)
    ensures
        r@ == sprite_durations(file_bytes(*f)),
{
    f.frames().iter().map(|frame| frame.duration).collect()
}

/// The tags of `AsepriteFile::tags`, in their order, field by field, the
/// direction variant by variant.
#[verifier::external_body]
fn file_tags(f: &AsepriteFile) -> (r: Vec<Tag>)
    ensures
        tag_views(r@) == parsed_tags(file_bytes(*f)),
{
    let direction = |d: FileDirection| match d {
        FileDirection::Forward => AnimationDirection::Forward,
        FileDirection::Reverse => AnimationDirection::Reverse,
        FileDirection::PingPong => AnimationDirection::PingPong,
        FileDirection::PingPongReverse => AnimationDirection::PingPongReverse,
        FileDirection::Unknown(code) => AnimationDirection::Unknown(code),
    };
    let tag = |t: &FileTag| Tag {
        name: t.name.clone(), start: *t.range.start(), end: *t.range.end(),
        direction: direction(t.direction), repeat: t.repeat,
    };
    f.tags().iter().map(tag).collect()
}

/// The slices of `AsepriteFile::slices`, in their order, each with its name
/// and its keys, field by field.
#[verifier::external_body]
fn file_slices(f: &AsepriteFile) -> (r: Vec<Slice>)
    ensures
        slice_views(r@) == sprite_slices(file_bytes(*f)),
{
    let key = |k: &FileSliceKey| SliceKey {
        frame_number: k.frame_number, x: k.x, y: k.y, width: k.width, height: k.height,
        nine_patch: k.nine_patch.map(|n| NinePatch { x: n.x, y: n.y, width: n.width, height: n.height }),
        pivot: k.pivot.map(|p| Pivot { x: p.x, y: p.y }),
    };
    let slice = |s: &FileSlice| Slice {
        name: s.name.to_string(), keys: s.slice_keys.iter().map(key).collect(),
    };
    f.slices().iter().map(slice).collect()
}

/// The colours of the palette of the parsed file, where it has one.
#[verifier::external_body]
fn file_palette(f: &AsepriteFile) -> (r: Option<Palette>)
    ensures
        palette_view(r) == sprite_palette(file_bytes(*f)),
{
    let colors = &f.file.palette.as_ref()?.colors;
    let plain = |c: &FileColor| Color { red: c.red, green: c.green, blue: c.blue, alpha: c.alpha };
    Some(Palette { colors: colors.iter().map(plain).collect() })
}

/// `AsepriteFile::image_count`: the number of cel images.
#[verifier::external_body]
fn image_count(f: &AsepriteFile) -> (n: usize)
    ensures
        n == sprite_images(file_bytes(*f)),
{
    f.image_count()
}

/// The fields of cel image `i` of the parsed file.
#[verifier::external_body]
fn image_shape(f: &AsepriteFile, i: usize) -> (shape: ImageShape)
    requires
        i < sprite_images(file_bytes(*f)),
    ensures
        shape == sprite_image_shape(file_bytes(*f), i as nat),
{
    let image = &f.images[i];
    ImageShape {
        width: image.width,
        height: image.height,
        len: image.data.len(),
        compressed: image.compressed,
    }
}

/// `AsepriteFile::load_image` into a buffer of the image's decoded size. The
/// call goes by the colour depth that the parser read from the bytes 12 and
/// 13 of the file, and at 32 bits it copies plain bytes as they are, so it is
/// made only where those have the length of the buffer. The buffer keeps its length; whether the
/// image is decoded, and why not, depends on the file and the image alone.
#[verifier::external_body]
fn load_image(f: &AsepriteFile, i: usize, target: &mut Vec<u8>) -> (r: Result<(), LoadImageError>)
    requires
        i < sprite_images(file_bytes(*f)),
        old(target)@.len() == sprite_image_shape(file_bytes(*f), i as nat).decoded_len(),
        sprite_image_shape(file_bytes(*f), i as nat).copies(sprite_depth(file_bytes(*f))),
    ensures
        final(target)@.len() == old(target)@.len(),
        match r {
            Ok(_) => sprite_image_failure(file_bytes(*f), i as nat) is None,
            Err(e) => sprite_image_failure(file_bytes(*f), i as nat) == Some(failure_kind(e)),
        },
{
    f.load_image(i, target.as_mut_slice())
}

/// `AsepriteFile::combined_frame_image` for frame `i`, into a buffer of zeros
/// of the sprite's size, which the parser read from the bytes 8 to 11 of the
/// file: the visible layers of the frame, flattened. The call decodes the cel
/// images of the frame and does not expect that to fail. It blends the layers
/// by their blend modes: it knows no way out for a mode beyond the nineteen
/// that there are, and for the four modes of hue, saturation, colour and
/// luminosity it computes channels that its own checks refuse. So it is made
/// only where every image of the file is known to load and every layer has
/// one of the other fifteen modes. With a buffer of that size it does not
/// fail; the buffer keeps its length, and what it holds afterwards depends on
/// the file and the frame alone.
#[verifier::external_body]
#[allow(deprecated)]
fn render_frame(f: &AsepriteFile, i: usize, target: &mut Vec<u8>) -> (r: Result<(), LoadImageError>)
    requires
        i < sprite_durations(file_bytes(*f)).len(),
        old(target)@.len() == sprite_size(file_bytes(*f)).0 * sprite_size(file_bytes(*f)).1 * 4,
        forall|k: int| 0 <= k < old(target)@.len() ==> old(target)@[k] == 0,
        forall|j: nat|
            j < sprite_images(file_bytes(*f)) ==> sprite_image_failure(file_bytes(*f), j) is None,
        blends_known(file_bytes(*f)),
    ensures
        r is Ok,
        final(target)@ == sprite_frame_pixels(file_bytes(*f), i as nat),
        final(target)@.len() == old(target)@.len(),
{
    f.combined_frame_image(i, target.as_mut_slice()).map(|_| ())
}

/// Tells the variants of `LoadImageError` apart.
#[verifier::external_body]
fn image_failure(e: &LoadImageError) -> (kind: ImageFailure)
    ensures
        kind == failure_kind(*e),
{
    match e {
        LoadImageError::TargetBufferTooSmall => ImageFailure::TargetBufferTooSmall,
        LoadImageError::MissingPalette => ImageFailure::MissingPalette,
        LoadImageError::UnsupportedColorDepth => ImageFailure::UnsupportedColorDepth,
        LoadImageError::DecompressError => ImageFailure::DecompressError,
        LoadImageError::InvalidImageData => ImageFailure::InvalidImageData,
    }
}

/// The direction that a direction of the parser stands for. The parser hands
/// on a direction code that it does not know as it is, with one exception: in
/// place of the code 4 it reports the unknown code 0. No other code is
/// reported so, since 0 is the code of `Forward`.
pub open spec fn restored(direction: AnimationDirection) -> AnimationDirection {
    match direction {
        AnimationDirection::Unknown(0) => AnimationDirection::Unknown(4),
        _ => direction,
    }
}

/// The tags `tags` of the parser, each with the direction code of the file.
pub open spec fn restored_tags(tags: Seq<TagView>) -> Seq<TagView> {
    Seq::new(tags.len(), |i: int| TagView { direction: restored(tags[i].direction), ..tags[i] })
}

/// Gives each of the tags of the parser the direction code of the file.
pub fn restore_directions(tags: &Vec<Tag>) -> (r: Vec<Tag>)
    ensures
        tag_views(r@) == restored_tags(tag_views(tags@)),
{
    let mut r: Vec<Tag> = Vec::new();
    let mut i: usize = 0;
    while i < tags.len()
        invariant
            i <= tags@.len(),
            r@.len() == i,
            forall|j: int|
                0 <= j < i ==> (#[trigger] r@[j])@ == (TagView {
                    direction: restored(tags@[j].direction),
                    ..tags@[j]@
                }),
        decreases tags@.len() - i,
    {
        let t = &tags[i];
        let direction = match t.direction {
            AnimationDirection::Unknown(0) => AnimationDirection::Unknown(4),
            d => d,
        };
        r.push(Tag { name: t.name.clone(), start: t.start, end: t.end, direction, repeat: t.repeat });
        i += 1;
    }
    assert(tag_views(r@) =~= restored_tags(tag_views(tags@)));
    r
}

/// The error that a failure to decode an image is reported as: a colour depth
/// that is not handled as unsupported, anything else as a malformed file.
pub open spec fn failure_error(failure: ImageFailure) -> DecodeError {
    match failure {
        ImageFailure::UnsupportedColorDepth => DecodeError::Unsupported,
        _ => DecodeError::Malformed,
    }
}

/// The error that a failure to decode an image is reported as.
pub fn decode_error(failure: ImageFailure) -> (e: DecodeError)
    ensures
        e == failure_error(failure),
{
    match failure {
        ImageFailure::UnsupportedColorDepth => DecodeError::Unsupported,
        _ => DecodeError::Malformed,
    }
}

/// The metadata of the sprite in a file.
pub open spec fn sprite_view(b: Seq<u8>) -> InfoView {
    InfoView {
        width: sprite_size(b).0 as nat,
        height: sprite_size(b).1 as nat,
        durations: duration_views(sprite_durations(b)),
        tags: sprite_tags(b),
        slices: sprite_slices(b),
        palette: sprite_palette(b),
        transparent: sprite_transparent(b),
    }
}

/// Frame `i` of the sprite in a file.
pub open spec fn sprite_frame(b: Seq<u8>, i: int) -> FrameView {
    FrameView {
        width: sprite_size(b).0 as nat,
        height: sprite_size(b).1 as nat,
        data: sprite_frame_pixels(b, i as nat),
    }
}

/// The frames of the sprite in a file.
pub open spec fn sprite_frames(b: Seq<u8>) -> Seq<FrameView> {
    Seq::new(sprite_durations(b).len(), |i: int| sprite_frame(b, i))
}

/// Whether cel image `i` of a file can be decoded: a buffer can be as long as
/// the image takes, plain bytes have that length, and the decoder does not
/// fail.
pub open spec fn image_outcome(b: Seq<u8>, i: nat) -> Result<(), DecodeError> {
    let shape = sprite_image_shape(b, i);
    if shape.decoded_len() > usize::MAX || !shape.copies(sprite_depth(b)) {
        Err(DecodeError::Malformed)
    } else {
        match sprite_image_failure(b, i) {
            Some(failure) => Err(failure_error(failure)),
            None => Ok(()),
        }
    }
}

/// Whether the cel images of a file from `from` on can be decoded, and if
/// not, what is wrong with the first that cannot.
pub open spec fn images_outcome(b: Seq<u8>, from: nat) -> Result<(), DecodeError>
    decreases sprite_images(b) - from,
{
    if from >= sprite_images(b) {
        Ok(())
    } else if image_outcome(b, from) is Err {
        image_outcome(b, from)
    } else {
        images_outcome(b, from + 1)
    }
}

/// Whether a file can be decoded, and if not, why: its structure is checked,
/// then the parser is asked, then the metadata is checked, then each cel
/// image is decoded, and last a buffer of the sprite's size must be possible.
pub open spec fn decode_outcome(b: Seq<u8>) -> Result<(), DecodeError> {
    if structure(b) is Err {
        structure(b)
    } else if !parses(b) || !sprite_view(b).wf() {
        Err(DecodeError::Malformed)
    } else if images_outcome(b, 0) is Err {
        images_outcome(b, 0)
    } else if sprite_size(b).0 * sprite_size(b).1 * 4 > usize::MAX {
        Err(DecodeError::Malformed)
    } else {
        Ok(())
    }
}

/// The number of bytes of `width` by `height` pixels, if a buffer can be that
/// long.
fn buffer_len(width: u16, height: u16) -> (r: Option<usize>)
    ensures
        match r {
            Some(n) => n == width * height * 4,
            None => width * height * 4 > usize::MAX,
        },
{
    assert(width as u64 * height as u64 <= 65535 * 65535) by (nonlinear_arith)
        requires
            width <= 65535,
            height <= 65535,
    ;
    let n: u64 = width as u64 * height as u64 * 4;
    if n > usize::MAX as u64 {
        None
    } else {
        Some(n as usize)
    }
}

/// Decodes every cel image of the file once, so that it is known that each
/// can be decoded.
fn check_images(file: &AsepriteFile, depth: u16) -> (r: Result<(), DecodeError>)
    requires
        depth == sprite_depth(file_bytes(*file)),
    ensures
        r == images_outcome(file_bytes(*file), 0),
        r is Ok ==> forall|j: nat|
            j < sprite_images(file_bytes(*file)) ==> sprite_image_failure(file_bytes(*file), j)
                is None,
{
    let ghost b = file_bytes(*file);
    let count = image_count(file);
    let mut i: usize = 0;
    while i < count
        invariant
            i <= count,
            b == file_bytes(*file),
            count == sprite_images(b),
            depth == sprite_depth(b),
            images_outcome(b, i as nat) == images_outcome(b, 0),
            forall|j: nat| j < i ==> sprite_image_failure(b, j) is None,
        decreases count - i,
    {
        let shape = image_shape(file, i);
        let len = match buffer_len(shape.width, shape.height) {
            Some(n) => n,
            None => {
                return Err(DecodeError::Malformed);
            },
        };
        if depth == 32 && !shape.compressed && shape.len != len {
            return Err(DecodeError::Malformed);
        }
        let mut buffer = vec![0u8; len];
        match load_image(file, i, &mut buffer) {
            Ok(()) => {},
            Err(e) => {
                return Err(decode_error(image_failure(&e)));
            },
        }
        i += 1;
    }
    Ok(())
}

/// Renders every frame of the file into an image of the sprite's size.
fn render_frames(file: &AsepriteFile, dimensions: (u16, u16), count: usize, len: usize) -> (frames:
    Vec<FrameImage>)
    requires
        dimensions == sprite_size(file_bytes(*file)),
        dimensions.0 >= 1,
        dimensions.1 >= 1,
        len == dimensions.0 * dimensions.1 * 4,
        count == sprite_durations(file_bytes(*file)).len(),
        forall|j: nat|
            j < sprite_images(file_bytes(*file)) ==> sprite_image_failure(file_bytes(*file), j)
                is None,
        blends_known(file_bytes(*file)),
    ensures
        frame_views(frames@) == sprite_frames(file_bytes(*file)),
{
    let ghost b = file_bytes(*file);
    let mut frames: Vec<FrameImage> = Vec::new();
    let mut i: usize = 0;
    while i < count
        invariant
            i <= count,
            frames@.len() == i,
            b == file_bytes(*file),
            dimensions == sprite_size(b),
            dimensions.0 >= 1,
            dimensions.1 >= 1,
            len == dimensions.0 * dimensions.1 * 4,
            count == sprite_durations(b).len(),
            forall|j: nat| j < sprite_images(b) ==> sprite_image_failure(b, j) is None,
            blends_known(b),
            forall|k: int| 0 <= k < frames@.len() ==> (#[trigger] frames@[k])@ == sprite_frame(b, k),
        decreases count - i,
    {
        let mut buffer = vec![0u8; len];
        let _ = render_frame(file, i, &mut buffer);
        frames.push(FrameImage::filled(dimensions.0, dimensions.1, buffer));
        i += 1;
    }
    assert(frame_views(frames@) =~= sprite_frames(b));
    frames
}

/// Decodes the bytes of a file: one flattened image for each frame, in the
/// order of the frames and each of the sprite's size, and the metadata.
///
/// Bytes without the structure of a sprite file are refused as malformed, and
/// a colour depth that is not known, a blend mode that cannot be rendered, a
/// tilemap, or user data with properties, as unsupported, before anything is
/// decoded; see `decode_outcome` for what is checked after that.
pub fn decode(bytes: &[u8]) -> (r: Result<(Vec<FrameImage>, AsepriteInfo), DecodeError>)
    ensures
        match r {
            Ok((frames, info)) => {
                &&& decode_outcome(bytes@) is Ok
                &&& info@ == sprite_view(bytes@)
                &&& frame_views(frames@) == sprite_frames(bytes@)
            },
            Err(e) => decode_outcome(bytes@) == Err::<(), DecodeError>(e),
        },
{
    match check_structure(bytes) {
        Ok(()) => {},
        Err(e) => {
            return Err(e);
        },
    }
    let file = match load_file(bytes) {
        Ok(f) => f,
        Err(_) => {
            return Err(DecodeError::Malformed);
        },
    };
    let data = SpriteData {
        dimensions: (read_u16(bytes, WIDTH_AT), read_u16(bytes, HEIGHT_AT)),
        frame_durations: frame_durations(&file),
        tags: restore_directions(&file_tags(&file)),
        slices: file_slices(&file),
        palette: file_palette(&file),
        transparent_palette: bytes[TRANSPARENT_AT],
    };
    let info = match AsepriteInfo::new(data) {
        Ok(info) => info,
        Err(e) => {
            return Err(e);
        },
    };
    match check_images(&file, read_u16(bytes, DEPTH_AT)) {
        Ok(()) => {},
        Err(e) => {
            return Err(e);
        },
    }
    let dimensions = info.dimensions();
    let len = match buffer_len(dimensions.0, dimensions.1) {
        Some(n) => n,
        None => {
            return Err(DecodeError::Malformed);
        },
    };
    let frames = render_frames(&file, dimensions, info.frame_count(), len);
    Ok((frames, info))
}

/// A loaded sprite as the model sees it.
pub struct AssetView {
    pub info: InfoView,
    pub atlas: AtlasView,
}

impl AssetView {
    /// The atlas has a region for each frame of the sprite, each within the
    /// atlas and of the sprite's size.
    pub open spec fn wf(self) -> bool {
        &&& self.info.wf()
        &&& self.atlas.wf()
        &&& self.atlas.regions.len() == self.info.frame_count()
        &&& forall|i: int|
            0 <= i < self.atlas.regions.len() ==> self.holds(#[trigger] self.atlas.regions[i])
    }

    /// The region lies within the atlas and has the sprite's size.
    pub open spec fn holds(self, r: AtlasRegion) -> bool {
        &&& self.atlas.inside(r)
        &&& r.max_x - r.min_x == self.info.width
        &&& r.max_y - r.min_y == self.info.height
    }
}

/// Every frame of a loaded sprite has a region in the atlas, and that region
/// lies within the texture and has the sprite's size.
pub proof fn law_every_frame_has_a_region(asset: AssetView, frame: int)
    requires
        asset.wf(),
        0 <= frame < asset.info.frame_count(),
    ensures
        frame < asset.atlas.regions.len(),
        asset.holds(asset.atlas.regions[frame]),
{
}

/// The regions of two frames of a loaded sprite are one and the same
/// rectangle, or they have no pixel in common.
pub proof fn law_regions_same_or_apart(asset: AssetView, i: int, j: int)
    requires
        asset.wf(),
        0 <= i < asset.info.frame_count(),
        0 <= j < asset.info.frame_count(),
    ensures
        asset.atlas.regions[i].same_or_apart(asset.atlas.regions[j]),
{
    if i < j {
        assert(asset.atlas.regions[i].same_or_apart(asset.atlas.regions[j]));
    } else if j < i {
        assert(asset.atlas.regions[j].same_or_apart(asset.atlas.regions[i]));
    }
}

/// What loading the bytes of a file gives: the error of decoding, if the
/// bytes cannot be decoded; else the error of packing, if the frames cannot be
/// packed; else the metadata of the file and the atlas of its frames.
pub open spec fn load_outcome(b: Seq<u8>) -> Result<AssetView, AsepriteLoaderError> {
    match decode_outcome(b) {
        Err(e) => Err(AsepriteLoaderError::Decode(e)),
        Ok(_) => match pack_outcome(sprite_frames(b)) {
            Err(e) => Err(AsepriteLoaderError::Pack(e)),
            Ok(atlas) => Ok(AssetView { info: sprite_view(b), atlas }),
        },
    }
}

/// A file is loaded exactly if it can be decoded and its frames can be
/// packed. What is loaded then has the frame count, the durations and the
/// size that the file gives; its atlas has a region of that size for every
/// frame, within the texture, and shows each frame of the file in the region
/// of its index.
pub proof fn law_loaded_sprite_is_whole(b: Seq<u8>)
    ensures
        load_outcome(b) is Ok <==> decode_outcome(b) is Ok && pack_outcome(sprite_frames(b)) is Ok,
        load_outcome(b) matches Ok(asset) ==> {
            &&& asset.wf()
            &&& asset.info == sprite_view(b)
            &&& asset.atlas.regions.len() == sprite_durations(b).len()
            &&& asset.atlas.shows(sprite_frames(b))
        },
{
    if let Ok(asset) = load_outcome(b) {
        let frames = sprite_frames(b);
        crate::atlas::law_packed_atlas_shows_frames(frames);
        assert forall|i: int| 0 <= i < asset.atlas.regions.len() implies asset.holds(
            #[trigger] asset.atlas.regions[i],
        ) by {
            assert(asset.atlas.shows_frame(asset.atlas.regions[i], frames[i]));
        }
    }
}

/// Whatever frame an animation of a loaded sprite shows, the atlas has a
/// region for it.
pub proof fn law_visible_frame_has_a_region(asset: AssetView, s: StateView)
    requires
        asset.wf(),
        valid(asset.info, s),
    ensures
        s.frame < asset.atlas.regions.len(),
        asset.holds(asset.atlas.regions[s.frame as int]),
{
    crate::model::lemma_span_within(asset.info, s.tag);
}

/// A loaded sprite: its metadata and the atlas of its frames.
#[derive(Debug)]
pub struct AsepriteAsset {
    /// Tags, slices and the durations of the frames.
    info: AsepriteInfo,
    /// The texture that holds the frames, and where each frame lies in it.
    atlas: AtlasLayout,
}

impl View for AsepriteAsset {
    type V = AssetView;

    closed spec fn view(&self) -> AssetView {
        AssetView { info: self.info@, atlas: self.atlas@ }
    }
}

impl AsepriteAsset {
    /// What every `AsepriteAsset` satisfies, see [`AssetView::wf`].
    #[verifier::type_invariant]
    pub open spec fn well_formed(&self) -> bool {
        self@.wf()
    }

    /// Puts metadata and atlas together, if the atlas has one region of the
    /// sprite's size for each frame.
    pub fn new(info: AsepriteInfo, atlas: AtlasLayout) -> (r: Option<AsepriteAsset>)
        ensures
            r is Some <==> (AssetView { info: info@, atlas: atlas@ }).wf(),
            r matches Some(asset) ==> asset@ == (AssetView { info: info@, atlas: atlas@ }),
    {
        let ghost view = AssetView { info: info@, atlas: atlas@ };
        proof {
            use_type_invariant(&info);
            use_type_invariant(&atlas);
        }
        let (width, height) = info.dimensions();
        let regions = atlas.regions();
        if regions.len() != info.frame_count() {
            return None;
        }
        let mut i: usize = 0;
        while i < regions.len()
            invariant
                i <= regions@.len(),
                regions@ == atlas@.regions,
                view == (AssetView { info: info@, atlas: atlas@ }),
                width == info@.width,
                height == info@.height,
                forall|j: int| 0 <= j < regions@.len() ==> atlas@.inside(#[trigger] regions@[j]),
                forall|j: int| 0 <= j < i ==> view.holds(#[trigger] view.atlas.regions[j]),
            decreases regions@.len() - i,
        {
            let r = regions[i];
            if r.max_x - r.min_x != width as u32 || r.max_y - r.min_y != height as u32 {
                proof {
                    assert(!view.holds(view.atlas.regions[i as int]));
                }
                return None;
            }
            i += 1;
        }
        Some(AsepriteAsset { info, atlas })
    }

    /// Tags, slices and the durations of the frames.
    pub fn info(&self) -> (info: &AsepriteInfo)
        ensures
            info@ == self@.info,
    {
        &self.info
    }

    /// The atlas: where each frame lies in the texture.
    pub fn layout(&self) -> (atlas: &AtlasLayout)
        ensures
            atlas@ == self@.atlas,
    {
        &self.atlas
    }

    /// The bytes of the texture that holds the frames.
    pub fn texture(&self) -> (pixels: &Vec<u8>)
        ensures
            pixels@ == self@.atlas.pixels,
            pixels@.len() == self@.atlas.width * self@.atlas.height * 4,
    {
        self.atlas.pixels()
    }

    /// Where the frame `frame` lies in the texture. Every frame of the sprite
    /// has a region, within the texture and of the sprite's size.
    pub fn region(&self, frame: usize) -> (r: Option<AtlasRegion>)
        ensures
            frame < self@.info.frame_count() ==> r == Some(self@.atlas.regions[frame as int])
                && self@.holds(self@.atlas.regions[frame as int]),
            frame >= self@.info.frame_count() ==> r is None,
    {
        proof {
            use_type_invariant(self);
        }
        self.atlas.region(frame)
    }

    /// Where the frame that `animation` shows lies in the texture.
    pub fn visible_region(&self, animation: &AsepriteAnimation) -> (r: AtlasRegion)
        requires
            valid(self@.info, animation@),
        ensures
            r == self@.atlas.regions[animation@.frame as int],
            self@.holds(r),
    {
        proof {
            use_type_invariant(self);
            crate::model::lemma_span_within(self@.info, animation@.tag);
        }
        match self.atlas.region(animation.current_frame()) {
            Some(r) => r,
            None => AtlasRegion { min_x: 0, min_y: 0, max_x: 0, max_y: 0 },
        }
    }
}

/// Loads sprites from the bytes of their files.
#[derive(Debug, Default)]
pub struct AsepriteLoader;

impl AsepriteLoader {
    /// Decodes the file and packs its frames. The atlas of the sprite that
    /// comes back shows frame `i` of the file in its region `i`.
    ///
    /// Bytes that `decode` refuses are refused here with the same error;
    /// frames that `pack` refuses, with its error. Everything else is loaded,
    /// and the same bytes always give the same sprite.
    pub fn load(&self, bytes: &[u8]) -> (r: Result<AsepriteAsset, AsepriteLoaderError>)
        ensures
            match r {
                Ok(asset) => load_outcome(bytes@) == Ok::<AssetView, AsepriteLoaderError>(asset@),
                Err(e) => load_outcome(bytes@) == Err::<AssetView, AsepriteLoaderError>(e),
            },
            r is Ok <==> decode_outcome(bytes@) is Ok && pack_outcome(sprite_frames(bytes@)) is Ok,
            r matches Ok(asset) ==> {
                &&& asset@.wf()
                &&& asset@.info == sprite_view(bytes@)
                &&& asset@.atlas.shows(sprite_frames(bytes@))
            },
    {
        let (frames, info) = match decode(bytes) {
            Ok(decoded) => decoded,
            Err(e) => {
                return Err(AsepriteLoaderError::Decode(e));
            },
        };
        let atlas = match pack(&frames) {
            Ok(atlas) => atlas,
            Err(e) => {
                return Err(AsepriteLoaderError::Pack(e));
            },
        };
        proof {
            law_loaded_sprite_is_whole(bytes@);
        }
        Ok(AsepriteAsset { info, atlas })
    }

    /// The endings of the names of the files that this loader reads.
    pub fn extensions(&self) -> (r: Vec<&'static str>)
        ensures
            r@.len() == 2,
            r@[0]@ == "ase"@,
            r@[1]@ == "aseprite"@,
    {
        let mut r: Vec<&'static str> = Vec::new();
        r.push("ase");
        r.push("aseprite");
        r
    }
}

} // verus!
