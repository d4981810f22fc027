//! Playback of sprite-sheet animations exported by the Aseprite editor.
//!
//! A file is decoded into one flattened image per frame and an [`AsepriteInfo`],
//! the frames are packed into one atlas, and an [`AsepriteAnimation`] decides,
//! tick by tick, which frame of the atlas is visible.
//!
//! The contracts are written over the views and functions of [`model`], where
//! the laws of playback are proved.

pub mod anim;
pub mod atlas;
pub mod constants;
pub mod error;
pub mod format;
pub mod info;
pub mod loader;
pub mod model;
pub mod time;

pub use anim::{
    refresh_animations, update_animations, AsepriteAnimation, AsepriteTag, PlaybackDiagnostic,
};
pub use atlas::{
    pack, pack_error, AtlasLayout, AtlasParts, AtlasRegion, BuilderFailure, FrameImage,
};
pub use constants::{asset_path, slice_constants, tag_constants, NamedConstant};
pub use error::{AsepriteLoaderError, DecodeError, PackError};
pub use info::{
    AnimationDirection, AsepriteInfo, Color, NinePatch, Palette, Pivot, Slice, SliceKey,
    SpriteData, Tag,
};
pub use loader::{
    decode, decode_error, restore_directions, AsepriteAsset, AsepriteLoader, ImageFailure,
    ImageShape,
};
