//! Names for the tags and slices of a sprite, for code that wants to refer to
//! them by a checked symbol in place of a string.

use heck::ToShoutySnekCase;
use vstd::prelude::*;
use vstd::string::StringExecFns;
use crate::info::{slice_views, AsepriteInfo};

verus! {

/// The name `name` in upper case with underscores between its words: what
/// heck's `TO_SHOUTY_SNEK_CASE` returns for it.
pub uninterp spec fn shouty_snek(name: Seq<char>) -> Seq<char>;

/// heck's `TO_SHOUTY_SNEK_CASE`, the conversion to SHOUTY_SNAKE_CASE.
#[verifier::external_body]
fn shouty_snek_case(name: &str) -> (r: String)
    ensures
        r@ == shouty_snek(name@),
{
    name.TO_SHOUTY_SNEK_CASE()
}

/// A constant to generate: the identifier that it gets, and the tag or slice
/// name that is its value.
#[derive(Debug)]
pub struct NamedConstant {
    pub ident: String,
    pub value: String,
}

impl NamedConstant {
    /// The constant for `name`: its value is `name` itself.
    pub open spec fn stands_for(self, name: Seq<char>) -> bool {
        self.ident@ == shouty_snek(name) && self.value@ == name
    }
}

/// The directory that sprite files are looked up in.
pub open spec fn asset_dir() -> Seq<char> {
    "assets/"@
}

/// Where the sprite file `file` is read from.
pub fn asset_path(file: &str) -> (path: String)
    ensures
        path@ == asset_dir() + file@,
{
    "assets/".to_owned().concat(file)
}

/// One constant for each tag of the sprite, in the order of the file.
pub fn tag_constants(info: &AsepriteInfo) -> (r: Vec<NamedConstant>)
    ensures
        r@.len() == info@.tags.len(),
        forall|i: int| 0 <= i < r@.len() ==> (#[trigger] r@[i]).stands_for(info@.tags[i].name),
{
    let tags = info.tags();
    let mut r: Vec<NamedConstant> = Vec::new();
    let mut i: usize = 0;
    while i < tags.len()
        invariant
            i <= tags@.len(),
            r@.len() == i,
            tags@.len() == info@.tags.len(),
            forall|j: int| 0 <= j < tags@.len() ==> tags@[j]@ == info@.tags[j],
            forall|j: int| 0 <= j < i ==> (#[trigger] r@[j]).stands_for(info@.tags[j].name),
        decreases tags@.len() - i,
    {
        let name = &tags[i].name;
        r.push(NamedConstant { ident: shouty_snek_case(name.as_str()), value: name.clone() });
        i += 1;
    }
    r
}

/// One constant for each slice of the sprite, in the order of the file.
pub fn slice_constants(info: &AsepriteInfo) -> (r: Vec<NamedConstant>)
    ensures
        r@.len() == info@.slices.len(),
        forall|i: int| 0 <= i < r@.len() ==> (#[trigger] r@[i]).stands_for(info@.slices[i].name),
{
    let slices = info.slices();
    let mut r: Vec<NamedConstant> = Vec::new();
    let mut i: usize = 0;
    while i < slices.len()
        invariant
            i <= slices@.len(),
            r@.len() == i,
            slice_views(slices@) == info@.slices,
            forall|j: int| 0 <= j < i ==> (#[trigger] r@[j]).stands_for(info@.slices[j].name),
        decreases slices@.len() - i,
    {
        let name = &slices[i].name;
        assert(slice_views(slices@)[i as int] == slices@[i as int]@);
        r.push(NamedConstant { ident: shouty_snek_case(name.as_str()), value: name.clone() });
        i += 1;
    }
    r
}

} // verus!
