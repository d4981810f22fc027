//! Frames as images, and the one atlas that they are packed into.

use bevy::asset::RenderAssetUsages;
use bevy::image::{Image, TextureAtlasBuilder, TextureAtlasBuilderError};
use bevy::math::URect;
use bevy::render::render_resource::{Extent3d, TextureDimension, TextureFormat};
use vstd::prelude::*;
use crate::error::PackError;

verus! {

/// Bytes that one pixel takes: red, green, blue, alpha.
pub const BYTES_PER_PIXEL: usize = 4;

/// A frame as the model sees it: its size in pixels and its bytes, row by row.
pub struct FrameView {
    pub width: nat,
    pub height: nat,
    pub data: Seq<u8>,
}

/// A rectangle of an atlas: from `min` up to, but not including, `max`.
#[derive(Clone, Copy, Debug, PartialEq, Eq, Structural, Hash)]
pub struct AtlasRegion {
    pub min_x: u32,
    pub min_y: u32,
    pub max_x: u32,
    pub max_y: u32,
}

/// An atlas as the model sees it: its size in pixels, its bytes row by row,
/// and the region of each frame.
pub struct AtlasView {
    pub width: nat,
    pub height: nat,
    pub regions: Seq<AtlasRegion>,
    pub pixels: Seq<u8>,
}

impl AtlasRegion {
    /// The two rectangles have no pixel in common.
    pub open spec fn apart(self, other: AtlasRegion) -> bool {
        ||| self.max_x <= other.min_x
        ||| other.max_x <= self.min_x
        ||| self.max_y <= other.min_y
        ||| other.max_y <= self.min_y
    }

    /// The two rectangles are one and the same, or have no pixel in common.
    pub open spec fn same_or_apart(self, other: AtlasRegion) -> bool {
        self == other || self.apart(other)
    }
}

/// Any two of the regions are the same rectangle or have no pixel in common.
pub open spec fn regions_separate(regions: Seq<AtlasRegion>) -> bool {
    forall|i: int, j: int|
        0 <= i < j < regions.len() ==> (#[trigger] regions[i]).same_or_apart(#[trigger] regions[j])
}

impl FrameView {
    /// The frame has a pixel, and bytes for each of its pixels.
    pub open spec fn wf(self) -> bool {
        &&& self.width >= 1
        &&& self.height >= 1
        &&& self.data.len() == self.width * self.height * 4
    }

    /// Byte `k` of row `y`.
    pub open spec fn byte(self, y: int, k: int) -> u8 {
        self.data[y * (self.width * 4) + k]
    }
}

impl AtlasView {
    /// The region lies within the atlas.
    pub open spec fn inside(self, r: AtlasRegion) -> bool {
        &&& r.min_x <= r.max_x <= self.width
        &&& r.min_y <= r.max_y <= self.height
    }

    /// The atlas has bytes for each of its pixels, every region lies within
    /// it, and no two regions overlap unless they are the same rectangle.
    pub open spec fn wf(self) -> bool {
        &&& self.pixels.len() == self.width * self.height * 4
        &&& forall|i: int| 0 <= i < self.regions.len() ==> self.inside(#[trigger] self.regions[i])
        &&& regions_separate(self.regions)
    }

    /// Byte `k` of row `y`.
    pub open spec fn byte(self, y: int, k: int) -> u8 {
        self.pixels[y * (self.width * 4) + k]
    }

    /// The region `r` lies within the atlas, has the size of the frame `f`,
    /// and the atlas holds there, byte for byte, the pixels of `f`.
    pub open spec fn shows_frame(self, r: AtlasRegion, f: FrameView) -> bool {
        &&& self.inside(r)
        &&& r.max_x - r.min_x == f.width
        &&& r.max_y - r.min_y == f.height
        &&& forall|y: int, k: int|
            0 <= y < f.height && 0 <= k < f.width * 4 ==> self.byte(r.min_y + y, r.min_x * 4 + k)
                == #[trigger] f.byte(y, k)
    }

    /// The atlas has one region for each of the frames, in their order, and
    /// shows each frame in its region; and no two regions overlap unless they
    /// are the same rectangle.
    pub open spec fn shows(self, frames: Seq<FrameView>) -> bool {
        &&& self.regions.len() == frames.len()
        &&& forall|i: int|
            0 <= i < frames.len() ==> self.shows_frame(self.regions[i], #[trigger] frames[i])
        &&& regions_separate(self.regions)
    }

    /// What a check of this atlas against the frames gives: the atlas, if its
    /// texture has bytes, four for each of its pixels, and it shows the
    /// frames; else it is rejected.
    pub open spec fn checked(self, has_pixels: bool, frames: Seq<FrameView>) -> Result<
        AtlasView,
        PackError,
    > {
        if has_pixels && self.pixels.len() == self.width * self.height * 4 && self.shows(frames) {
            Ok(self)
        } else {
            Err(PackError::Rejected)
        }
    }
}

/// Two frames share a region of an atlas only where they are the same frame:
/// an atlas that shows two frames in one region shows the same pixels for
/// both.
pub proof fn law_shared_region_means_same_frame(
    atlas: AtlasView,
    frames: Seq<FrameView>,
    i: int,
    j: int,
)
    requires
        atlas.shows(frames),
        0 <= i < frames.len(),
        0 <= j < frames.len(),
        frames[i].wf(),
        frames[j].wf(),
        atlas.regions[i] == atlas.regions[j],
    ensures
        frames[i] == frames[j],
{
    let (a, b) = (frames[i], frames[j]);
    let r = atlas.regions[i];
    assert(atlas.shows_frame(r, a) && atlas.shows_frame(r, b));
    let row = (a.width * 4) as int;
    assert(a.width * a.height * 4 == a.height * row) by (nonlinear_arith)
        requires
            row == a.width * 4,
    ;
    assert forall|n: int| 0 <= n < a.data.len() implies a.data[n] == b.data[n] by {
        let y = n / row;
        let k = n % row;
        vstd::arithmetic::div_mod::lemma_fundamental_div_mod(n, row);
        vstd::arithmetic::div_mod::lemma_mod_bound(n, row);
        assert(n == y * row + k) by (nonlinear_arith)
            requires
                n == row * y + k,
        ;
        assert(0 <= y < a.height) by (nonlinear_arith)
            requires
                n == y * row + k,
                0 <= k < row,
                0 <= n < a.height * row,
        ;
        assert(a.byte(y, k) == atlas.byte(r.min_y + y, r.min_x * 4 + k));
        assert(b.byte(y, k) == atlas.byte(r.min_y + y, r.min_x * 4 + k));
    }
    assert(a.data =~= b.data);
}

/// One decoded frame: all its layers flattened into RGBA pixels, row by row
/// from the top, each row from the left.
#[derive(Debug)]
pub struct FrameImage {
    width: u16,
    height: u16,
    data: Vec<u8>,
}

impl View for FrameImage {
    type V = FrameView;

    closed spec fn view(&self) -> FrameView {
        FrameView { width: self.width as nat, height: self.height as nat, data: self.data@ }
    }
}

/// The views of the frames `frames`.
pub open spec fn frame_views(frames: Seq<FrameImage>) -> Seq<FrameView> {
    Seq::new(frames.len(), |i: int| frames[i]@)
}

impl FrameImage {
    /// What every `FrameImage` satisfies, see [`FrameView::wf`].
    #[verifier::type_invariant]
    pub open spec fn well_formed(&self) -> bool {
        self@.wf()
    }

    /// A frame of `width` by `height` pixels with the bytes `data`, if there
    /// is a pixel and `data` has four bytes for each.
    pub fn new(width: u16, height: u16, data: Vec<u8>) -> (r: Option<FrameImage>)
        ensures
            r is Some <==> (FrameView { width: width as nat, height: height as nat, data: data@ }).wf(),
            r matches Some(f) ==> f@ == (FrameView {
                width: width as nat,
                height: height as nat,
                data: data@,
            }),
    {
        assert(width as u64 * height as u64 <= 65535 * 65535) by (nonlinear_arith)
            requires
                width <= 65535,
                height <= 65535,
        ;
        if width >= 1 && height >= 1 && data.len() as u64 == width as u64 * height as u64 * 4 {
            Some(FrameImage { width, height, data })
        } else {
            None
        }
    }

    /// A frame of `width` by `height` pixels with the bytes `data`, which are
    /// known to be four for each pixel.
    pub(crate) fn filled(width: u16, height: u16, data: Vec<u8>) -> (f: FrameImage)
        requires
            (FrameView { width: width as nat, height: height as nat, data: data@ }).wf(),
        ensures
            f@ == (FrameView { width: width as nat, height: height as nat, data: data@ }),
    {
        FrameImage { width, height, data }
    }

    pub fn width(&self) -> (w: u16)
        ensures
            w == self@.width,
            w >= 1,
    {
        proof {
            use_type_invariant(self);
        }
        self.width
    }

    pub fn height(&self) -> (h: u16)
        ensures
            h == self@.height,
            h >= 1,
    {
        proof {
            use_type_invariant(self);
        }
        self.height
    }

    /// The bytes of the frame, four for each pixel.
    pub fn data(&self) -> (d: &Vec<u8>)
        ensures
            d@ == self@.data,
            d@.len() == self@.width * self@.height * 4,
    {
        proof {
            use_type_invariant(self);
        }
        &self.data
    }
}

/// An atlas as a packer hands it back, before anything was checked.
#[derive(Debug)]
pub struct AtlasParts {
    pub width: u32,
    pub height: u32,
    pub regions: Vec<AtlasRegion>,
    /// The bytes of the atlas, if it has any.
    pub pixels: Option<Vec<u8>>,
}

impl View for AtlasParts {
    type V = AtlasView;

    open spec fn view(&self) -> AtlasView {
        AtlasView {
            width: self.width as nat,
            height: self.height as nat,
            regions: self.regions@,
            pixels: match self.pixels {
                Some(p) => p@,
                None => Seq::empty(),
            },
        }
    }
}

/// `a <= h - 1` and `b < s` put `a * s + b` below `h * s`.
proof fn lemma_row_index(a: int, b: int, h: int, s: int)
    requires
        0 <= a < h,
        0 <= b < s,
    ensures
        0 <= a * s + b < h * s,
        a * s + s <= h * s,
{
    assert(a * s + s == (a + 1) * s) by (nonlinear_arith);
    assert((a + 1) * s <= h * s) by (nonlinear_arith)
        requires
            a + 1 <= h,
            0 <= s,
    ;
    assert(0 <= a * s) by (nonlinear_arith)
        requires
            0 <= a,
            0 <= s,
    ;
}

/// Whether the bytes `pixels` of an atlas `width` pixels wide and `height`
/// high show the frame `f` in the region `r`.
fn region_shows(pixels: &Vec<u8>, width: u32, height: u32, r: &AtlasRegion, f: &FrameImage) -> (ok:
    bool)
    requires
        pixels@.len() == width * height * 4,
    ensures
        ok == (AtlasView {
            width: width as nat,
            height: height as nat,
            regions: Seq::empty(),
            pixels: pixels@,
        }).shows_frame(*r, f@),
{
    let ghost atlas = AtlasView {
        width: width as nat,
        height: height as nat,
        regions: Seq::empty(),
        pixels: pixels@,
    };
    let w = f.width();
    let h = f.height();
    let data = f.data();
    if !(r.min_x <= r.max_x && r.max_x <= width && r.min_y <= r.max_y && r.max_y <= height) {
        return false;
    }
    if r.max_x - r.min_x != w as u32 || r.max_y - r.min_y != h as u32 {
        return false;
    }
    proof {
        // The atlas is at least a row high, so a row of it fits where all of it fits.
        lemma_row_index(0, 0, height as int, width as int * 4);
        assert(width * height * 4 == height as int * (width as int * 4)) by (nonlinear_arith);
        assert(w * h * 4 == h as int * (w as int * 4)) by (nonlinear_arith);
        assert(pixels@.len() == pixels.len() && data@.len() == data.len());
    }
    let stride: usize = width as usize * 4;
    let row_bytes: usize = w as usize * 4;
    let left: usize = r.min_x as usize * 4;
    let mut y: usize = 0;
    while y < h as usize
        invariant
            y <= h,
            w >= 1,
            h >= 1,
            w == f@.width,
            h == f@.height,
            data@ == f@.data,
            data@.len() == h as int * (row_bytes as int),
            pixels@.len() == height as int * (stride as int),
            pixels@.len() <= usize::MAX,
            data@.len() <= usize::MAX,
            atlas.pixels == pixels@,
            atlas.width == width,
            atlas.height == height,
            atlas.inside(*r),
            r.max_x - r.min_x == w,
            r.max_y - r.min_y == h,
            stride == width * 4,
            row_bytes == w * 4,
            left == r.min_x * 4,
            forall|y1: int, k: int|
                0 <= y1 < y && 0 <= k < f@.width * 4 ==> atlas.byte(r.min_y + y1, r.min_x * 4 + k)
                    == #[trigger] f@.byte(y1, k),
        decreases h - y,
    {
        proof {
            lemma_row_index(r.min_y + y, left as int, height as int, stride as int);
            lemma_row_index(y as int, 0, h as int, row_bytes as int);
        }
        let from: usize = (r.min_y as usize + y) * stride + left;
        let line: usize = y * row_bytes;
        let mut k: usize = 0;
        while k < row_bytes
            invariant
                k <= row_bytes,
                y < h,
                w == f@.width,
                h == f@.height,
                data@ == f@.data,
                atlas.pixels == pixels@,
                atlas.width == width,
                stride == width * 4,
                row_bytes == w * 4,
                left == r.min_x * 4,
                left + row_bytes <= stride,
                from == (r.min_y + y) * stride + left,
                line == y * row_bytes,
                from + stride - left <= pixels@.len(),
                line + row_bytes <= data@.len(),
                pixels@.len() <= usize::MAX,
                data@.len() <= usize::MAX,
                forall|k1: int|
                    0 <= k1 < k ==> atlas.byte(r.min_y + y, r.min_x * 4 + k1) == #[trigger] f@.byte(
                        y as int,
                        k1,
                    ),
            decreases row_bytes - k,
        {
            if pixels[from + k] != data[line + k] {
                proof {
                    assert(atlas.byte(r.min_y + y, r.min_x * 4 + k) != f@.byte(y as int, k as int));
                }
                return false;
            }
            k += 1;
        }
        y += 1;
    }
    true
}

/// Whether the two rectangles are one and the same, or have no pixel in
/// common.
fn same_or_apart(a: &AtlasRegion, b: &AtlasRegion) -> (ok: bool)
    ensures
        ok == a.same_or_apart(*b),
{
    let same = a.min_x == b.min_x && a.min_y == b.min_y && a.max_x == b.max_x && a.max_y
        == b.max_y;
    same || a.max_x <= b.min_x || b.max_x <= a.min_x || a.max_y <= b.min_y || b.max_y <= a.min_y
}

/// Whether any two of the regions are the same rectangle or have no pixel in
/// common.
fn all_separate(regions: &Vec<AtlasRegion>) -> (ok: bool)
    ensures
        ok == regions_separate(regions@),
{
    let mut j: usize = 0;
    while j < regions.len()
        invariant
            j <= regions@.len(),
            forall|a: int, b: int|
                0 <= a < b < j ==> (#[trigger] regions@[a]).same_or_apart(#[trigger] regions@[b]),
        decreases regions@.len() - j,
    {
        let mut i: usize = 0;
        while i < j
            invariant
                i <= j < regions@.len(),
                forall|a: int|
                    0 <= a < i ==> (#[trigger] regions@[a]).same_or_apart(regions@[j as int]),
            decreases j - i,
        {
            if !same_or_apart(&regions[i], &regions[j]) {
                return false;
            }
            i += 1;
        }
        j += 1;
    }
    true
}

/// The atlas of a sprite: one texture that holds every frame, and the region
/// of each frame in it. The region of a frame does not change.
#[derive(Debug)]
pub struct AtlasLayout {
    width: u32,
    height: u32,
    regions: Vec<AtlasRegion>,
    pixels: Vec<u8>,
}

impl View for AtlasLayout {
    type V = AtlasView;

    closed spec fn view(&self) -> AtlasView {
        AtlasView {
            width: self.width as nat,
            height: self.height as nat,
            regions: self.regions@,
            pixels: self.pixels@,
        }
    }
}

impl AtlasLayout {
    /// What every `AtlasLayout` satisfies, see [`AtlasView::wf`].
    #[verifier::type_invariant]
    pub open spec fn well_formed(&self) -> bool {
        self@.wf()
    }

    /// Checks that `parts` is an atlas of `frames` and keeps it: it has bytes
    /// for each of its pixels, one region for each frame, shows each frame in
    /// its region, and no two of its regions overlap unless they are the same
    /// rectangle. Anything else is rejected.
    pub fn new(parts: AtlasParts, frames: &Vec<FrameImage>) -> (r: Result<AtlasLayout, PackError>)
        ensures
            r is Ok <==> parts.pixels is Some && parts@.pixels.len() == parts.width * parts.height
                * 4 && parts@.shows(frame_views(frames@)),
            r matches Ok(atlas) ==> atlas@ == parts@,
            r matches Err(e) ==> e == PackError::Rejected,
            match r {
                Ok(atlas) => parts@.checked(parts.pixels is Some, frame_views(frames@)) == Ok::<
                    AtlasView,
                    PackError,
                >(atlas@),
                Err(e) => parts@.checked(parts.pixels is Some, frame_views(frames@)) == Err::<
                    AtlasView,
                    PackError,
                >(e),
            },
    {
        let AtlasParts { width, height, regions, pixels } = parts;
        let pixels = match pixels {
            Some(p) => p,
            None => {
                return Err(PackError::Rejected);
            },
        };
        assert(width as u128 * height as u128 <= 0xffff_ffff * 0xffff_ffff) by (nonlinear_arith)
            requires
                width <= 0xffff_ffff,
                height <= 0xffff_ffff,
        ;
        if pixels.len() as u128 != width as u128 * height as u128 * 4 {
            return Err(PackError::Rejected);
        }
        if regions.len() != frames.len() {
            return Err(PackError::Rejected);
        }
        if !all_separate(&regions) {
            return Err(PackError::Rejected);
        }
        let ghost atlas = parts@;
        let mut i: usize = 0;
        while i < frames.len()
            invariant
                i <= frames@.len(),
                regions@.len() == frames@.len(),
                pixels@.len() == width * height * 4,
                atlas == parts@,
                atlas == (AtlasView {
                    width: width as nat,
                    height: height as nat,
                    regions: regions@,
                    pixels: pixels@,
                }),
                forall|j: int|
                    0 <= j < i ==> atlas.shows_frame(
                        regions@[j],
                        #[trigger] frame_views(frames@)[j],
                    ),
            decreases frames@.len() - i,
        {
            let ok = region_shows(&pixels, width, height, &regions[i], &frames[i]);
            proof {
                let bare = AtlasView {
                    width: width as nat,
                    height: height as nat,
                    regions: Seq::empty(),
                    pixels: pixels@,
                };
                let f = frame_views(frames@)[i as int];
                assert(f == frames@[i as int]@);
                assert(bare.shows_frame(regions@[i as int], f) == atlas.shows_frame(
                    regions@[i as int],
                    f,
                )) by {
                    assert(forall|y: int, k: int| bare.byte(y, k) == atlas.byte(y, k));
                }
            }
            if !ok {
                proof {
                    assert(!atlas.shows_frame(atlas.regions[i as int], frame_views(frames@)[i as int]));
                }
                return Err(PackError::Rejected);
            }
            i += 1;
        }
        proof {
            assert(atlas.shows(frame_views(frames@)));
            assert forall|j: int| 0 <= j < atlas.regions.len() implies atlas.inside(
                #[trigger] atlas.regions[j],
            ) by {
                assert(atlas.shows_frame(regions@[j], frame_views(frames@)[j]));
            }
        }
        Ok(AtlasLayout { width, height, regions, pixels })
    }

    /// Width of the texture in pixels.
    pub fn width(&self) -> (w: u32)
        ensures
            w == self@.width,
    {
        self.width
    }

    /// Height of the texture in pixels.
    pub fn height(&self) -> (h: u32)
        ensures
            h == self@.height,
    {
        self.height
    }

    /// The number of frames that the atlas holds.
    pub fn len(&self) -> (n: usize)
        ensures
            n == self@.regions.len(),
    {
        self.regions.len()
    }

    /// Where the frame `frame` lies in the texture, if the atlas has such a
    /// frame.
    pub fn region(&self, frame: usize) -> (r: Option<AtlasRegion>)
        ensures
            frame < self@.regions.len() ==> r == Some(self@.regions[frame as int]) && self@.inside(
                self@.regions[frame as int],
            ),
            frame >= self@.regions.len() ==> r is None,
    {
        proof {
            use_type_invariant(self);
        }
        if frame < self.regions.len() {
            Some(self.regions[frame])
        } else {
            None
        }
    }

    /// The regions of all frames, by frame index.
    pub fn regions(&self) -> (r: &Vec<AtlasRegion>)
        ensures
            r@ == self@.regions,
            forall|i: int| 0 <= i < r@.len() ==> self@.inside(#[trigger] r@[i]),
    {
        proof {
            use_type_invariant(self);
            assert forall|i: int| 0 <= i < self.regions@.len() implies self@.inside(
                #[trigger] self.regions@[i],
            ) by {
                assert(self@.inside(self@.regions[i]));
            }
        }
        &self.regions
    }

    /// The bytes of the texture, four for each pixel, row by row.
    pub fn pixels(&self) -> (p: &Vec<u8>)
        ensures
            p@ == self@.pixels,
            p@.len() == self@.width * self@.height * 4,
    {
        proof {
            use_type_invariant(self);
        }
        &self.pixels
    }
}

/// An image as bevy keeps it.
#[verifier::external_type_specification]
#[verifier::external_body]
pub struct ExImage(Image);

/// The error of bevy's atlas builder.
#[verifier::external_type_specification]
#[verifier::external_body]
pub struct ExTextureAtlasBuilderError(TextureAtlasBuilderError);

/// The ways in which bevy's atlas builder fails.
#[derive(Clone, Copy, Debug, PartialEq, Eq, Structural, Hash)]
pub enum BuilderFailure {
    /// The textures do not fit into the largest atlas.
    NotEnoughSpace,
    /// A texture has another format than the atlas.
    WrongFormat,
    /// The atlas has no bytes.
    UninitializedAtlas,
    /// A texture has no bytes.
    UninitializedSourceTexture,
}

/// The variant of a `TextureAtlasBuilderError`.
pub uninterp spec fn builder_failure_kind(e: TextureAtlasBuilderError) -> BuilderFailure;

/// Tells the variants of `TextureAtlasBuilderError` apart.
#[verifier::external_body]
fn builder_failure(e: &TextureAtlasBuilderError) -> (kind: BuilderFailure)
    ensures
        kind == builder_failure_kind(*e),
{
    match e {
        TextureAtlasBuilderError::NotEnoughSpace => BuilderFailure::NotEnoughSpace,
        TextureAtlasBuilderError::WrongFormat => BuilderFailure::WrongFormat,
        TextureAtlasBuilderError::UninitializedAtlas => BuilderFailure::UninitializedAtlas,
        TextureAtlasBuilderError::UninitializedSourceTexture => {
            BuilderFailure::UninitializedSourceTexture
        },
    }
}

/// The frame that an image was made of.
pub uninterp spec fn texture_frame(image: Image) -> FrameView;

/// The frames that the images were made of.
pub open spec fn texture_frames(images: Seq<Image>) -> Seq<FrameView> {
    Seq::new(images.len(), |i: int| texture_frame(images[i]))
}

/// What bevy's `TextureAtlasBuilder` with its default limits makes of the
/// textures of these frames, added in this order: the atlas, whose regions
/// stand in the order in which the textures were added, and whether its
/// texture has bytes; or the way in which the builder fails. The builder
/// tries a fixed row of atlas sizes and asks nothing but the textures.
pub uninterp spec fn built_atlas(frames: Seq<FrameView>) -> Result<(AtlasView, bool), BuilderFailure>;

/// `Image::new` for a frame: a two-dimensional RGBA texture of the frame's
/// size with the frame's bytes.
#[verifier::external_body]
fn frame_texture(frame: &FrameImage) -> (image: Image)
    ensures
        texture_frame(image) == frame@,
{
    let size = Extent3d {
        width: frame.width.into(),
        height: frame.height.into(),
        depth_or_array_layers: 1,
    };
    let format = TextureFormat::Rgba8UnormSrgb;
    Image::new(size, TextureDimension::D2, frame.data.clone(), format, RenderAssetUsages::default())
}

/// Packs images with bevy's `TextureAtlasBuilder`: a builder with its default
/// limits takes them by `add_texture` in their order; then `build`. The
/// builder copies the rows of each image by its size, so the images are to
/// have a pixel and bytes for all their pixels. What comes back is handed on
/// as it is: the size of the layout, its rectangles and the bytes of the
/// texture. All that is claimed of it is that it depends on the frames of the
/// images alone; `AtlasLayout::new` checks what it holds.
#[verifier::external_body]
fn build_atlas(images: &Vec<Image>) -> (r: Result<AtlasParts, TextureAtlasBuilderError>)
    requires
        images@.len() >= 1,
        forall|i: int| 0 <= i < images@.len() ==> texture_frame(#[trigger] images@[i]).wf(),
    ensures
        match r {
            Ok(parts) => built_atlas(texture_frames(images@)) == Ok::<
                (AtlasView, bool),
                BuilderFailure,
            >((parts@, parts.pixels is Some)),
            Err(e) => built_atlas(texture_frames(images@)) == Err::<
                (AtlasView, bool),
                BuilderFailure,
            >(builder_failure_kind(e)),
        },
{
    let region = |r: &URect| AtlasRegion { min_x: r.min.x, min_y: r.min.y, max_x: r.max.x, max_y: r.max.y };
    let mut builder = TextureAtlasBuilder::default();
    for image in images.iter() {
        builder.add_texture(None, image);
    }
    let (layout, _, texture) = builder.build()?;
    let regions = layout.textures.iter().map(region).collect();
    Ok(AtlasParts { width: layout.size.x, height: layout.size.y, regions, pixels: texture.data })
}

/// The error that a failure of the packer is reported as: too little space
/// as an atlas over capacity, anything else as a rejected atlas.
pub open spec fn pack_error_of(failure: BuilderFailure) -> PackError {
    match failure {
        BuilderFailure::NotEnoughSpace => PackError::CapacityExceeded,
        _ => PackError::Rejected,
    }
}

/// The error that a failure of the packer is reported as.
pub fn pack_error(failure: BuilderFailure) -> (e: PackError)
    ensures
        e == pack_error_of(failure),
{
    match failure {
        BuilderFailure::NotEnoughSpace => PackError::CapacityExceeded,
        _ => PackError::Rejected,
    }
}

/// What packing the frames gives. Without frames there is nothing to pack.
/// Where the builder fails, its failure is reported: frames that do not fit as
/// an atlas over capacity. Where it makes an atlas, that atlas is the result
/// if it stands the check against the frames.
pub open spec fn pack_outcome(frames: Seq<FrameView>) -> Result<AtlasView, PackError> {
    if frames.len() == 0 {
        Err(PackError::EmptyInput)
    } else {
        match built_atlas(frames) {
            Ok((atlas, has_pixels)) => atlas.checked(has_pixels, frames),
            Err(failure) => Err(pack_error_of(failure)),
        }
    }
}

/// An atlas that packing gives shows the frames that were packed, each in the
/// region of its index, and is well-formed.
pub proof fn law_packed_atlas_shows_frames(frames: Seq<FrameView>)
    requires
        pack_outcome(frames) is Ok,
    ensures
        pack_outcome(frames).unwrap().shows(frames),
        pack_outcome(frames).unwrap().wf(),
{
    let atlas = pack_outcome(frames).unwrap();
    assert forall|i: int| 0 <= i < atlas.regions.len() implies atlas.inside(
        #[trigger] atlas.regions[i],
    ) by {
        assert(atlas.shows_frame(atlas.regions[i], frames[i]));
    }
}

/// Packs the frames into one atlas. The region of frame `i` is the `i`-th
/// region of the atlas, and the atlas shows the frame there.
///
/// Without frames there is nothing to pack. Whether the frames fit is for the
/// packer to say, and it says the same of the same frames; an atlas that it
/// hands back is checked against the frames before it is given out.
pub fn pack(frames: &Vec<FrameImage>) -> (r: Result<AtlasLayout, PackError>)
    ensures
        match r {
            Ok(atlas) => pack_outcome(frame_views(frames@)) == Ok::<AtlasView, PackError>(atlas@),
            Err(e) => pack_outcome(frame_views(frames@)) == Err::<AtlasView, PackError>(e),
        },
        r matches Ok(atlas) ==> atlas@.shows(frame_views(frames@)),
{
    if frames.len() == 0 {
        return Err(PackError::EmptyInput);
    }
    let mut images: Vec<Image> = Vec::new();
    let mut i: usize = 0;
    while i < frames.len()
        invariant
            i <= frames@.len(),
            images@.len() == i,
            forall|j: int|
                0 <= j < images@.len() ==> texture_frame(#[trigger] images@[j]) == frames@[j]@,
            forall|j: int| 0 <= j < images@.len() ==> texture_frame(#[trigger] images@[j]).wf(),
        decreases frames@.len() - i,
    {
        let frame = &frames[i];
        proof {
            use_type_invariant(frame);
        }
        images.push(frame_texture(frame));
        i += 1;
    }
    assert(texture_frames(images@) =~= frame_views(frames@));
    match build_atlas(&images) {
        Ok(parts) => AtlasLayout::new(parts, frames),
        Err(e) => Err(pack_error(builder_failure(&e))),
    }
}

} // verus!
