//! The frame and chunk structure of a sprite file.
//!
//! A file is a header of 128 bytes and then frames, one after the other up to
//! the end. A frame says how long it is and how many chunks it holds; a chunk
//! says how long it is and of what kind. This module follows that structure
//! without reading what the chunks hold, but for four things: the layer that
//! a cel chunk names must be one of the layers that the file's layer chunks
//! declare, a cel must not be a tilemap, the blend mode of a layer must be
//! one that can be rendered, and user data must not carry properties. Tilemaps
//! and properties are not handled.

use vstd::prelude::*;
use crate::error::DecodeError;

verus! {

/// Length of the file header.
pub const HEADER_LEN: usize = 128;

/// The number that marks a sprite file, at byte 4 of the header.
pub const FILE_MAGIC: u16 = 0xA5E0;

/// Where the header keeps the width of the sprite, in pixels.
pub const WIDTH_AT: usize = 8;

/// Where the header keeps the height of the sprite, in pixels.
pub const HEIGHT_AT: usize = 10;

/// Where the header keeps the colour depth, in bits per pixel.
pub const DEPTH_AT: usize = 12;

/// Where the header keeps the palette entry that stands for a transparent
/// pixel.
pub const TRANSPARENT_AT: usize = 28;

/// Length of the header of a frame: its size, its mark, two chunk counts and
/// its duration.
pub const FRAME_HEADER_LEN: usize = 16;

/// The number that marks a frame, at byte 4 of its header.
pub const FRAME_MAGIC: u16 = 0xF1FA;

/// Where the header of a frame keeps the frame's duration, in milliseconds.
pub const DURATION_AT: usize = 8;

/// Length of the header of a chunk: its size and its kind.
pub const CHUNK_HEADER_LEN: usize = 6;

/// The kind of a chunk that declares a layer.
pub const LAYER_CHUNK: u16 = 0x2004;

/// Where the payload of a layer chunk keeps the blend mode of the layer.
pub const BLEND_AT: usize = 10;

/// The first of the four blend modes that work on hue, saturation, colour
/// and luminosity. They cannot be rendered.
pub const FIRST_HSL_BLEND_MODE: u16 = 12;

/// The last of the four blend modes that work on hue, saturation, colour and
/// luminosity.
pub const LAST_HSL_BLEND_MODE: u16 = 15;

/// The largest blend mode that there is.
pub const LAST_BLEND_MODE: u16 = 18;

/// The kind of a chunk that holds user data. It begins with four bytes of
/// flags.
pub const USER_DATA_CHUNK: u16 = 0x2020;

/// The kind of a chunk that holds a cel. It begins with the index of the
/// cel's layer.
pub const CEL_CHUNK: u16 = 0x2005;

/// Where the payload of a cel chunk keeps the kind of the cel.
pub const CEL_KIND_AT: usize = 7;

/// The kind of a cel that holds a tilemap in place of an image.
pub const TILEMAP_CEL: u16 = 3;

/// The two bytes at `at`, read as a little-endian number.
pub open spec fn le_u16(b: Seq<u8>, at: int) -> int {
    b[at] + 256 * b[at + 1]
}

/// The four bytes at `at`, read as a little-endian number.
pub open spec fn le_u32(b: Seq<u8>, at: int) -> int {
    b[at] + 256 * b[at + 1] + 65536 * b[at + 2] + 16777216 * b[at + 3]
}

/// What was counted while the structure of a file was followed.
pub struct Tally {
    /// Frames seen.
    pub frames: nat,
    /// Layer chunks seen.
    pub layers: nat,
    /// The number of layers that the cels seen ask for: one more than the
    /// largest layer index of a cel, 0 without cels.
    pub needed: nat,
    /// Layer chunks seen whose blend mode cannot be rendered.
    pub odd_blends: nat,
    /// User data chunks seen that carry properties.
    pub properties: nat,
    /// Cel chunks seen that hold a tilemap.
    pub tilemaps: nat,
}

impl Tally {
    /// The tally before anything was counted.
    pub open spec fn none() -> Tally {
        Tally { frames: 0, layers: 0, needed: 0, odd_blends: 0, properties: 0, tilemaps: 0 }
    }
}

/// Whether a layer with the blend mode `mode` can be rendered: the mode is
/// one that there is, and not one of the four that work on hue, saturation,
/// colour and luminosity.
pub open spec fn blend_renders(mode: int) -> bool {
    mode < FIRST_HSL_BLEND_MODE || LAST_HSL_BLEND_MODE < mode <= LAST_BLEND_MODE
}

/// Whether the flags of a user data chunk, of which `low` is the first byte,
/// say that the chunk carries properties: the third bit of the flags.
pub open spec fn has_properties(low: u8) -> bool {
    (low / 4) % 2 == 1
}

/// The chunk at `at` lies within the bytes before `end`, header and all; a
/// cel chunk has room for its layer index and its kind, a layer chunk for its
/// blend mode, and a user data chunk for its flags.
pub open spec fn chunk_fits(b: Seq<u8>, at: int, end: int) -> bool {
    &&& at + CHUNK_HEADER_LEN <= end
    &&& CHUNK_HEADER_LEN <= le_u32(b, at) <= end - at
    &&& le_u16(b, at + 4) == CEL_CHUNK ==> le_u32(b, at) >= CHUNK_HEADER_LEN + CEL_KIND_AT + 2
    &&& le_u16(b, at + 4) == LAYER_CHUNK ==> le_u32(b, at) >= CHUNK_HEADER_LEN + BLEND_AT + 2
    &&& le_u16(b, at + 4) == USER_DATA_CHUNK ==> le_u32(b, at) >= CHUNK_HEADER_LEN + 4
}

/// The tally after the chunk at `at` was counted.
pub open spec fn count_chunk(b: Seq<u8>, at: int, t: Tally) -> Tally {
    let kind = le_u16(b, at + 4);
    if kind == LAYER_CHUNK {
        if blend_renders(le_u16(b, at + CHUNK_HEADER_LEN + BLEND_AT)) {
            Tally { layers: t.layers + 1, ..t }
        } else {
            Tally { layers: t.layers + 1, odd_blends: t.odd_blends + 1, ..t }
        }
    } else if kind == CEL_CHUNK {
        let layer = le_u16(b, at + CHUNK_HEADER_LEN);
        let tilemap = le_u16(b, at + CHUNK_HEADER_LEN + CEL_KIND_AT) == TILEMAP_CEL;
        Tally {
            needed: if layer + 1 > t.needed { (layer + 1) as nat } else { t.needed },
            tilemaps: if tilemap { t.tilemaps + 1 } else { t.tilemaps },
            ..t
        }
    } else if kind == USER_DATA_CHUNK && has_properties(b[at + 6]) {
        Tally { properties: t.properties + 1, ..t }
    } else {
        t
    }
}

/// The tally after `count` chunks from `at` on were counted, if that many
/// chunks lie one after the other within the bytes before `end`.
pub open spec fn walk_chunks(b: Seq<u8>, at: int, end: int, count: nat, t: Tally) -> Option<Tally>
    decreases count,
{
    if count == 0 {
        Some(t)
    } else if !chunk_fits(b, at, end) {
        None
    } else {
        walk_chunks(b, at + le_u32(b, at), end, (count - 1) as nat, count_chunk(b, at, t))
    }
}

/// The frame at `at` lies within the bytes, header and all, and bears the
/// mark of a frame.
pub open spec fn frame_fits(b: Seq<u8>, at: int) -> bool {
    &&& at + FRAME_HEADER_LEN <= b.len()
    &&& FRAME_HEADER_LEN <= le_u32(b, at) <= b.len() - at
    &&& le_u16(b, at + 4) == FRAME_MAGIC
}

/// The number of chunks of the frame at `at`: the count of four bytes, or
/// where that is 0 the older count of two.
pub open spec fn chunk_count(b: Seq<u8>, at: int) -> nat {
    if le_u32(b, at + 12) != 0 {
        le_u32(b, at + 12) as nat
    } else {
        le_u16(b, at + 6) as nat
    }
}

/// The tally after the frames from `at` to the end of the bytes were counted,
/// if the bytes from `at` on are frames, one after the other.
pub open spec fn walk_frames(b: Seq<u8>, at: int, t: Tally) -> Option<Tally>
    decreases b.len() - at,
{
    if at >= b.len() {
        Some(t)
    } else if !frame_fits(b, at) {
        None
    } else {
        match walk_chunks(b, at + FRAME_HEADER_LEN, at + le_u32(b, at), chunk_count(b, at), t) {
            Some(t1) => walk_frames(b, at + le_u32(b, at), Tally { frames: t1.frames + 1, ..t1 }),
            None => None,
        }
    }
}

/// The durations of the frames from `at` to the end of the bytes, in
/// milliseconds, as far as the bytes from `at` on are frames.
pub open spec fn durations_from(b: Seq<u8>, at: int) -> Seq<u16>
    decreases b.len() - at,
{
    if at >= b.len() || !frame_fits(b, at) {
        Seq::empty()
    } else {
        seq![le_u16(b, at + DURATION_AT) as u16] + durations_from(b, at + le_u32(b, at))
    }
}

/// The tally of a file, if the bytes are a header with the mark of a sprite
/// file and then frames up to the end.
pub open spec fn census(b: Seq<u8>) -> Option<Tally> {
    if b.len() < HEADER_LEN || le_u16(b, 4) != FILE_MAGIC {
        None
    } else {
        walk_frames(b, HEADER_LEN as int, Tally::none())
    }
}

/// The bytes have the structure of a sprite file with at least one frame, and
/// every cel lies on a layer that the file declares.
pub open spec fn well_framed(b: Seq<u8>) -> bool {
    census(b) matches Some(t) && t.frames >= 1 && t.needed <= t.layers
}

/// The colour depth that the header of a well-framed file names is one of the
/// three that sprites are stored in: 32, 16 or 8 bits per pixel.
pub open spec fn depth_known(b: Seq<u8>) -> bool {
    le_u16(b, DEPTH_AT as int) == 32 || le_u16(b, DEPTH_AT as int) == 16 || le_u16(
        b,
        DEPTH_AT as int,
    ) == 8
}

/// Every layer of a well-framed file has a blend mode that can be rendered.
pub open spec fn blends_known(b: Seq<u8>) -> bool {
    census(b) matches Some(t) && t.odd_blends == 0
}

/// No user data of a well-framed file carries properties.
pub open spec fn no_properties(b: Seq<u8>) -> bool {
    census(b) matches Some(t) && t.properties == 0
}

/// No cel of a well-framed file holds a tilemap.
pub open spec fn no_tilemaps(b: Seq<u8>) -> bool {
    census(b) matches Some(t) && t.tilemaps == 0
}

/// What `check_structure` says of the bytes `b`.
pub open spec fn structure(b: Seq<u8>) -> Result<(), DecodeError> {
    if !well_framed(b) {
        Err(DecodeError::Malformed)
    } else if !depth_known(b) || !blends_known(b) || !no_properties(b) || !no_tilemaps(b) {
        Err(DecodeError::Unsupported)
    } else {
        Ok(())
    }
}

/// Reads the two bytes at `at` as a little-endian number.
pub fn read_u16(bytes: &[u8], at: usize) -> (r: u16)
    requires
        at + 2 <= bytes@.len(),
    ensures
        r == le_u16(bytes@, at as int),
{
    bytes[at] as u16 + 256 * (bytes[at + 1] as u16)
}

/// Reads the four bytes at `at` as a little-endian number.
pub fn read_u32(bytes: &[u8], at: usize) -> (r: u32)
    requires
        at + 4 <= bytes@.len(),
    ensures
        r == le_u32(bytes@, at as int),
{
    bytes[at] as u32 + 256 * (bytes[at + 1] as u32) + 65536 * (bytes[at + 2] as u32) + 16777216 * (
    bytes[at + 3] as u32)
}

/// What `walk_frames` counts, in machine numbers.
#[derive(Clone, Copy, Debug, PartialEq, Eq, Structural)]
pub struct Census {
    pub frames: usize,
    pub layers: usize,
    pub needed: u32,
    pub odd_blends: usize,
    pub properties: usize,
    pub tilemaps: usize,
}

impl View for Census {
    type V = Tally;

    open spec fn view(&self) -> Tally {
        Tally {
            frames: self.frames as nat,
            layers: self.layers as nat,
            needed: self.needed as nat,
            odd_blends: self.odd_blends as nat,
            properties: self.properties as nat,
            tilemaps: self.tilemaps as nat,
        }
    }
}

/// Whether a layer with the blend mode `mode` can be rendered.
pub fn renders(mode: u16) -> (ok: bool)
    ensures
        ok == blend_renders(mode as int),
{
    mode < FIRST_HSL_BLEND_MODE || (LAST_HSL_BLEND_MODE < mode && mode <= LAST_BLEND_MODE)
}

/// Counts `count` chunks from `at` on, within the bytes before `end`.
fn count_chunks(bytes: &[u8], at: usize, end: usize, count: u32, tally: Census) -> (r: Option<
    Census,
>)
    requires
        at <= end <= bytes@.len(),
        tally.layers + tally.properties + tally.tilemaps <= at,
        tally.odd_blends <= tally.layers,
        tally.needed <= 65536,
    ensures
        match r {
            Some(c) => walk_chunks(bytes@, at as int, end as int, count as nat, tally@) == Some(c@)
                && c.layers + c.properties + c.tilemaps <= end && c.odd_blends <= c.layers && c.needed <= 65536
                && c.frames == tally.frames,
            None => walk_chunks(bytes@, at as int, end as int, count as nat, tally@) is None,
        },
{
    let mut pos = at;
    let mut left = count;
    let mut acc = tally;
    while left > 0
        invariant
            pos <= end <= bytes@.len(),
            acc.layers + acc.properties + acc.tilemaps <= pos,
            acc.odd_blends <= acc.layers,
            acc.needed <= 65536,
            acc.frames == tally.frames,
            walk_chunks(bytes@, pos as int, end as int, left as nat, acc@) == walk_chunks(
                bytes@,
                at as int,
                end as int,
                count as nat,
                tally@,
            ),
        decreases left,
    {
        if end - pos < CHUNK_HEADER_LEN {
            return None;
        }
        let size = read_u32(bytes, pos) as usize;
        if size < CHUNK_HEADER_LEN || size > end - pos {
            return None;
        }
        let kind = read_u16(bytes, pos + 4);
        if kind == LAYER_CHUNK {
            if size < CHUNK_HEADER_LEN + BLEND_AT + 2 {
                return None;
            }
            if !renders(read_u16(bytes, pos + CHUNK_HEADER_LEN + BLEND_AT)) {
                acc.odd_blends = acc.odd_blends + 1;
            }
            acc.layers = acc.layers + 1;
        } else if kind == CEL_CHUNK {
            if size < CHUNK_HEADER_LEN + CEL_KIND_AT + 2 {
                return None;
            }
            let layer = read_u16(bytes, pos + CHUNK_HEADER_LEN);
            if layer as u32 + 1 > acc.needed {
                acc.needed = layer as u32 + 1;
            }
            if read_u16(bytes, pos + CHUNK_HEADER_LEN + CEL_KIND_AT) == TILEMAP_CEL {
                acc.tilemaps = acc.tilemaps + 1;
            }
        } else if kind == USER_DATA_CHUNK {
            if size < CHUNK_HEADER_LEN + 4 {
                return None;
            }
            if (bytes[pos + 6] / 4) % 2 == 1 {
                acc.properties = acc.properties + 1;
            }
        }
        pos = pos + size;
        left = left - 1;
    }
    Some(acc)
}

/// Counts the frames from `at` to the end of the bytes.
fn count_frames(bytes: &[u8], at: usize) -> (r: Option<Census>)
    requires
        at <= bytes@.len(),
    ensures
        match r {
            Some(c) => walk_frames(bytes@, at as int, Tally::none()) == Some(c@),
            None => walk_frames(bytes@, at as int, Tally::none()) is None,
        },
{
    let mut pos = at;
    let mut acc = Census {
        frames: 0,
        layers: 0,
        needed: 0,
        odd_blends: 0,
        properties: 0,
        tilemaps: 0,
    };
    while pos < bytes.len()
        invariant
            pos <= bytes@.len(),
            acc.layers + acc.properties + acc.tilemaps <= pos,
            acc.odd_blends <= acc.layers,
            acc.frames <= pos,
            acc.needed <= 65536,
            walk_frames(bytes@, pos as int, acc@) == walk_frames(bytes@, at as int, Tally::none()),
        decreases bytes@.len() - pos,
    {
        if bytes.len() - pos < FRAME_HEADER_LEN {
            return None;
        }
        let size = read_u32(bytes, pos) as usize;
        if size < FRAME_HEADER_LEN || size > bytes.len() - pos {
            return None;
        }
        if read_u16(bytes, pos + 4) != FRAME_MAGIC {
            return None;
        }
        let new_count = read_u32(bytes, pos + 12);
        let count = if new_count != 0 {
            new_count
        } else {
            read_u16(bytes, pos + 6) as u32
        };
        match count_chunks(bytes, pos + FRAME_HEADER_LEN, pos + size, count, acc) {
            Some(t) => {
                acc = Census { frames: t.frames + 1, ..t };
            },
            None => {
                return None;
            },
        }
        pos = pos + size;
    }
    Some(acc)
}

/// Follows the structure of the file and counts its frames, its layers, the
/// layers that its cels ask for, and what of it cannot be handled.
pub fn take_census(bytes: &[u8]) -> (r: Option<Census>)
    ensures
        match r {
            Some(c) => census(bytes@) == Some(c@),
            None => census(bytes@) is None,
        },
{
    if bytes.len() < HEADER_LEN || read_u16(bytes, 4) != FILE_MAGIC {
        return None;
    }
    count_frames(bytes, HEADER_LEN)
}

/// Checks the structure of a file before anything is decoded: the header and
/// its mark, the frames and chunks up to the end of the bytes, the layers of
/// the cels, the colour depth, the blend modes of the layers, that no user
/// data carries properties, and that no cel holds a tilemap.
pub fn check_structure(bytes: &[u8]) -> (r: Result<(), DecodeError>)
    ensures
        r == structure(bytes@),
{
    match take_census(bytes) {
        Some(c) => {
            if c.frames < 1 || c.needed as usize > c.layers {
                Err(DecodeError::Malformed)
            } else {
                let depth = read_u16(bytes, DEPTH_AT);
                if (depth == 32 || depth == 16 || depth == 8) && c.odd_blends == 0 && c.properties
                    == 0 && c.tilemaps == 0 {
                    Ok(())
                } else {
                    Err(DecodeError::Unsupported)
                }
            }
        },
        None => Err(DecodeError::Malformed),
    }
}

} // verus!
