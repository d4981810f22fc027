//! What can go wrong while a sprite is loaded.

use vstd::prelude::*;

verus! {

/// Why the bytes of a file could not be turned into frames.
#[derive(Clone, Copy, Debug, PartialEq, Eq, Structural, Hash)]
pub enum DecodeError {
    /// The bytes are not a sound file: a broken header, a cut-off chunk, a
    /// sprite without frames, a tag that points outside the frames.
    Malformed,
    /// The file is sound but uses something this library does not handle,
    /// such as an unknown colour depth.
    Unsupported,
}

/// Why frames could not be packed into one atlas.
#[derive(Clone, Copy, Debug, PartialEq, Eq, Structural, Hash)]
pub enum PackError {
    /// There is no frame to pack.
    EmptyInput,
    /// The frames do not fit into the largest atlas that the packer makes.
    CapacityExceeded,
    /// The packer failed in another way, or handed back an atlas that does not
    /// hold the frames it was given.
    Rejected,
}

/// Why a sprite could not be loaded.
#[derive(Clone, Copy, Debug, PartialEq, Eq, Structural, Hash)]
pub enum AsepriteLoaderError {
    Decode(DecodeError),
    Pack(PackError),
}

impl DecodeError {
    /// The sentence that `message` gives.
    pub open spec fn text(self) -> Seq<char> {
        match self {
            DecodeError::Malformed => "the file is malformed"@,
            DecodeError::Unsupported => "the file uses an unsupported feature"@,
        }
    }

    /// A sentence for a log.
    pub fn message(&self) -> (text: String)
        ensures
            text@ == self.text(),
    {
        match self {
            DecodeError::Malformed => "the file is malformed".to_owned(),
            DecodeError::Unsupported => "the file uses an unsupported feature".to_owned(),
        }
    }
}

impl PackError {
    /// The sentence that `message` gives.
    pub open spec fn text(self) -> Seq<char> {
        match self {
            PackError::EmptyInput => "there are no frames to pack"@,
            PackError::CapacityExceeded => "the frames do not fit into one atlas"@,
            PackError::Rejected => "the frames could not be packed into an atlas"@,
        }
    }

    /// A sentence for a log.
    pub fn message(&self) -> (text: String)
        ensures
            text@ == self.text(),
    {
        match self {
            PackError::EmptyInput => "there are no frames to pack".to_owned(),
            PackError::CapacityExceeded => "the frames do not fit into one atlas".to_owned(),
            PackError::Rejected => "the frames could not be packed into an atlas".to_owned(),
        }
    }
}

impl AsepriteLoaderError {
    /// The sentence that `message` gives: that of the error inside.
    pub open spec fn text(self) -> Seq<char> {
        match self {
            AsepriteLoaderError::Decode(e) => e.text(),
            AsepriteLoaderError::Pack(e) => e.text(),
        }
    }

    /// A sentence for a log.
    pub fn message(&self) -> (text: String)
        ensures
            text@ == self.text(),
    {
        match self {
            AsepriteLoaderError::Decode(e) => e.message(),
            AsepriteLoaderError::Pack(e) => e.message(),
        }
    }
}

} // verus!
