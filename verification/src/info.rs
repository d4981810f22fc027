//! What a sprite's file says about its frames, tags and slices.

use bevy::platform::collections::HashMap;
use vstd::prelude::*;
use crate::error::DecodeError;
use crate::model::{
    is_last, last_index, lemma_slice_map_push, lemma_tag_map_push, slice_map, tag_map, tag_names,
    InfoView, SliceView, TagView,
};

verus! {

/// The order in which the frames of a tag are played.
#[derive(Clone, Copy, Debug, PartialEq, Eq, Structural, Hash)]
pub enum AnimationDirection {
    /// From the first frame of the tag to the last, then again from the first.
    Forward,
    /// From the last frame of the tag to the first, then again from the last.
    Reverse,
    /// Up to the last frame, back down to the first, and so on.
    PingPong,
    /// As `PingPong`, but the first leg runs from the last frame down.
    PingPongReverse,
    /// A direction code that this library does not know. The frame of an
    /// animation with such a tag stays where it is.
    Unknown(u8),
}

/// A named, inclusive range of frames and the direction to play it in.
#[derive(Clone, Debug)]
pub struct Tag {
    pub name: String,
    /// Index of the first frame of the tag.
    pub start: u16,
    /// Index of the last frame of the tag.
    pub end: u16,
    pub direction: AnimationDirection,
    /// How often the tag is to be played; `None` for no limit.
    pub repeat: Option<u16>,
}

impl View for Tag {
    type V = TagView;

    open spec fn view(&self) -> TagView {
        TagView {
            name: self.name@,
            start: self.start as nat,
            end: self.end as nat,
            direction: self.direction,
            repeat: self.repeat,
        }
    }
}

/// A colour of a palette.
#[derive(Clone, Copy, Debug, PartialEq, Eq, Structural, Hash)]
pub struct Color {
    pub red: u8,
    pub green: u8,
    pub blue: u8,
    pub alpha: u8,
}

/// The colours of a sprite that stores pixels as indices.
#[derive(Clone, Debug)]
pub struct Palette {
    pub colors: Vec<Color>,
}

/// The centre part of a slice that is scaled in nine parts.
#[derive(Clone, Copy, Debug, PartialEq, Eq, Structural, Hash)]
pub struct NinePatch {
    pub x: i32,
    pub y: i32,
    pub width: u32,
    pub height: u32,
}

/// The pivot of a slice, relative to its origin.
#[derive(Clone, Copy, Debug, PartialEq, Eq, Structural, Hash)]
pub struct Pivot {
    pub x: i32,
    pub y: i32,
}

/// Where a slice lies from frame `frame_number` on.
#[derive(Clone, Copy, Debug, PartialEq, Eq, Structural, Hash)]
pub struct SliceKey {
    pub frame_number: u32,
    pub x: i32,
    pub y: i32,
    pub width: u32,
    pub height: u32,
    pub nine_patch: Option<NinePatch>,
    pub pivot: Option<Pivot>,
}

/// A named region of the sprite that may move from frame to frame. Playback
/// does not read slices; they are kept for the host.
#[derive(Clone, Debug)]
pub struct Slice {
    pub name: String,
    pub keys: Vec<SliceKey>,
}

impl View for Slice {
    type V = SliceView;

    open spec fn view(&self) -> SliceView {
        SliceView { name: self.name@, keys: self.keys@ }
    }
}

/// The views of the tags `tags`.
pub open spec fn tag_views(tags: Seq<Tag>) -> Seq<TagView> {
    Seq::new(tags.len(), |i: int| tags[i]@)
}

/// The views of the slices `slices`.
pub open spec fn slice_views(slices: Seq<Slice>) -> Seq<SliceView> {
    Seq::new(slices.len(), |i: int| slices[i]@)
}

/// The colours of an optional palette.
pub open spec fn palette_view(palette: Option<Palette>) -> Option<Seq<Color>> {
    match palette {
        Some(p) => Some(p.colors@),
        None => None,
    }
}

/// The durations `durations`, as the model counts them.
pub open spec fn duration_views(durations: Seq<u16>) -> Seq<nat> {
    Seq::new(durations.len(), |i: int| durations[i] as nat)
}

/// What was read from a file, before anything was checked.
#[derive(Debug)]
pub struct SpriteData {
    /// Width and height of every frame, in pixels.
    pub dimensions: (u16, u16),
    /// Display time of each frame, in milliseconds.
    pub frame_durations: Vec<u16>,
    pub tags: Vec<Tag>,
    pub slices: Vec<Slice>,
    pub palette: Option<Palette>,
    /// The palette entry that stands for a transparent pixel.
    pub transparent_palette: u8,
}

impl View for SpriteData {
    type V = InfoView;

    open spec fn view(&self) -> InfoView {
        InfoView {
            width: self.dimensions.0 as nat,
            height: self.dimensions.1 as nat,
            durations: duration_views(self.frame_durations@),
            tags: tag_views(self.tags@),
            slices: slice_views(self.slices@),
            palette: palette_view(self.palette),
            transparent: self.transparent_palette,
        }
    }
}

/// The metadata of a loaded sprite: data that was checked once and is not
/// changed afterwards. Any number of animations may read it.
#[derive(Debug)]
pub struct AsepriteInfo {
    /// The data as it was read, in the order of the file.
    data: SpriteData,
    /// The tags by their names.
    tags: HashMap<String, Tag>,
    /// The keys of the slices by the names of the slices.
    slices: HashMap<String, Vec<SliceKey>>,
}

impl View for AsepriteInfo {
    type V = InfoView;

    closed spec fn view(&self) -> InfoView {
        self.data@
    }
}

/// The hasher of bevy's hash maps.
#[verifier::external_type_specification]
#[verifier::external_body]
pub struct ExFixedHasher(bevy::platform::hash::FixedHasher);

/// A hash map as bevy keeps it.
#[verifier::external_type_specification]
#[verifier::external_body]
#[verifier::reject_recursive_types(K)]
#[verifier::reject_recursive_types(V)]
#[verifier::reject_recursive_types(S)]
pub struct ExHashMap<K, V, S>(HashMap<K, V, S>);

/// What a map of tags holds: the tag under each name.
pub uninterp spec fn tag_entries(m: HashMap<String, Tag>) -> Map<Seq<char>, TagView>;

/// What a map of slices holds: the keys under each name.
pub uninterp spec fn slice_entries(m: HashMap<String, Vec<SliceKey>>) -> Map<
    Seq<char>,
    Seq<SliceKey>,
>;

/// `HashMap::new`: a map that holds nothing, as the mapping of no tags.
#[verifier::external_body]
fn new_tag_map() -> (m: HashMap<String, Tag>)
    ensures
        tag_entries(m) == tag_map(Seq::empty()),
{
    HashMap::new()
}

/// `HashMap::insert` of a tag under its name: the map holds the tag under
/// that name, in place of what it held there, and nothing else changes.
#[verifier::external_body]
fn insert_tag(m: &mut HashMap<String, Tag>, tag: Tag)
    ensures
        tag_entries(*final(m)) == tag_entries(*old(m)).insert(tag.name@, tag@),
{
    m.insert(tag.name.clone(), tag);
}

/// `HashMap::get`: what the map holds under the name, if anything.
#[verifier::external_body]
fn get_tag<'a>(m: &'a HashMap<String, Tag>, name: &String) -> (r: Option<&'a Tag>)
    ensures
        match r {
            Some(t) => tag_entries(*m).contains_key(name@) && tag_entries(*m)[name@] == t@,
            None => !tag_entries(*m).contains_key(name@),
        },
{
    m.get(name)
}

/// `HashMap::new`: a map that holds nothing, as the mapping of no slices.
#[verifier::external_body]
fn new_slice_map() -> (m: HashMap<String, Vec<SliceKey>>)
    ensures
        slice_entries(m) == slice_map(Seq::empty()),
{
    HashMap::new()
}

/// `HashMap::insert` of the keys of a slice under its name: the map holds the
/// keys under that name, in place of what it held there, and nothing else
/// changes.
#[verifier::external_body]
fn insert_slice(m: &mut HashMap<String, Vec<SliceKey>>, name: String, keys: Vec<SliceKey>)
    ensures
        slice_entries(*final(m)) == slice_entries(*old(m)).insert(name@, keys@),
{
    m.insert(name, keys);
}

/// `HashMap::get`: what the map holds under the name, if anything.
#[verifier::external_body]
fn get_slice<'a>(m: &'a HashMap<String, Vec<SliceKey>>, name: &String) -> (r: Option<
    &'a Vec<SliceKey>,
>)
    ensures
        match r {
            Some(keys) => slice_entries(*m).contains_key(name@) && slice_entries(*m)[name@]
                == keys@,
            None => !slice_entries(*m).contains_key(name@),
        },
{
    m.get(name)
}

/// A map of the tags by their names: each tag inserted in the order of the
/// tags, so that of several tags with one name the last stays.
fn index_tags(tags: &Vec<Tag>) -> (m: HashMap<String, Tag>)
    ensures
        tag_entries(m) == tag_map(tag_views(tags@)),
{
    let mut m = new_tag_map();
    let mut i: usize = 0;
    proof {
        assert(tag_views(tags@).take(0) =~= Seq::<TagView>::empty());
    }
    while i < tags.len()
        invariant
            i <= tags@.len(),
            tag_entries(m) == tag_map(tag_views(tags@).take(i as int)),
        decreases tags@.len() - i,
    {
        let t = &tags[i];
        let copy = Tag {
            name: t.name.clone(),
            start: t.start,
            end: t.end,
            direction: t.direction,
            repeat: t.repeat,
        };
        proof {
            let views = tag_views(tags@);
            assert(copy@ == views[i as int]);
            assert(views.take(i + 1) =~= views.take(i as int).push(views[i as int]));
            lemma_tag_map_push(views.take(i as int), views[i as int]);
        }
        insert_tag(&mut m, copy);
        i += 1;
    }
    proof {
        assert(tag_views(tags@).take(tags@.len() as int) =~= tag_views(tags@));
    }
    m
}

/// A map of the keys of the slices by the names of the slices, filled in the
/// order of the slices.
fn index_slices(slices: &Vec<Slice>) -> (m: HashMap<String, Vec<SliceKey>>)
    ensures
        slice_entries(m) == slice_map(slice_views(slices@)),
{
    let mut m = new_slice_map();
    let mut i: usize = 0;
    proof {
        assert(slice_views(slices@).take(0) =~= Seq::<SliceView>::empty());
    }
    while i < slices.len()
        invariant
            i <= slices@.len(),
            slice_entries(m) == slice_map(slice_views(slices@).take(i as int)),
        decreases slices@.len() - i,
    {
        let s = &slices[i];
        let mut keys: Vec<SliceKey> = Vec::new();
        let mut k: usize = 0;
        while k < s.keys.len()
            invariant
                k <= s.keys@.len(),
                keys@ == s.keys@.take(k as int),
            decreases s.keys@.len() - k,
        {
            keys.push(s.keys[k]);
            proof {
                assert(s.keys@.take(k + 1) =~= s.keys@.take(k as int).push(s.keys@[k as int]));
            }
            k += 1;
        }
        proof {
            let views = slice_views(slices@);
            assert(s.keys@.take(s.keys@.len() as int) =~= s.keys@);
            assert(views[i as int] == (SliceView { name: s.name@, keys: keys@ }));
            assert(views.take(i + 1) =~= views.take(i as int).push(views[i as int]));
            lemma_slice_map_push(views.take(i as int), views[i as int]);
        }
        insert_slice(&mut m, s.name.clone(), keys);
        i += 1;
    }
    proof {
        assert(slice_views(slices@).take(slices@.len() as int) =~= slice_views(slices@));
    }
    m
}

/// Whether every frame is shown for at least a millisecond.
fn durations_positive(durations: &Vec<u16>) -> (ok: bool)
    ensures
        ok <==> forall|i: int| 0 <= i < durations@.len() ==> durations@[i] >= 1,
{
    let mut i: usize = 0;
    while i < durations.len()
        invariant
            i <= durations@.len(),
            forall|j: int| 0 <= j < i ==> durations@[j] >= 1,
        decreases durations@.len() - i,
    {
        if durations[i] == 0 {
            return false;
        }
        i += 1;
    }
    true
}

/// Whether every tag is a range of frames below `frame_count`.
fn tags_within(tags: &Vec<Tag>, frame_count: usize) -> (ok: bool)
    ensures
        ok <==> forall|i: int|
            0 <= i < tags@.len() ==> (#[trigger] tags@[i]).start <= tags@[i].end
                && tags@[i].end < frame_count,
{
    let mut i: usize = 0;
    while i < tags.len()
        invariant
            i <= tags@.len(),
            forall|j: int|
                0 <= j < i ==> (#[trigger] tags@[j]).start <= tags@[j].end
                    && tags@[j].end < frame_count,
        decreases tags@.len() - i,
    {
        if tags[i].start > tags[i].end || tags[i].end as usize >= frame_count {
            return false;
        }
        i += 1;
    }
    true
}

impl AsepriteInfo {
    /// What every `AsepriteInfo` satisfies, see [`InfoView::wf`]; and its
    /// maps hold the tags and the slices of its data.
    #[verifier::type_invariant]
    pub open spec fn well_formed(&self) -> bool {
        &&& self@.wf()
        &&& self.tag_entries() == self@.tag_map()
        &&& self.slice_entries() == self@.slice_map()
    }

    /// What the map of the tags holds.
    pub closed spec fn tag_entries(&self) -> Map<Seq<char>, TagView> {
        tag_entries(self.tags)
    }

    /// What the map of the slices holds.
    pub closed spec fn slice_entries(&self) -> Map<Seq<char>, Seq<SliceKey>> {
        slice_entries(self.slices)
    }

    /// The data that this value was made of.
    pub closed spec fn data(&self) -> SpriteData {
        self.data
    }

    /// Checks `data` and keeps it. The data is refused as malformed unless the
    /// sprite has a pixel and a frame, every frame is shown for some time, and
    /// every tag is a range of its frames.
    pub fn new(data: SpriteData) -> (r: Result<AsepriteInfo, DecodeError>)
        ensures
            r is Ok <==> data@.wf(),
            r matches Ok(info) ==> info.data() == data && info@ == data@,
            r matches Err(e) ==> e == DecodeError::Malformed,
    {
        let ok = data.dimensions.0 >= 1 && data.dimensions.1 >= 1 && data.frame_durations.len() >= 1
            && durations_positive(&data.frame_durations) && tags_within(
            &data.tags,
            data.frame_durations.len(),
        );
        proof {
            let v = data@;
            if ok {
                assert forall|i: int| 0 <= i < v.durations.len() implies #[trigger] v.durations[i]
                    >= 1 by {
                    assert(data.frame_durations@[i] >= 1);
                }
                assert forall|i: int| 0 <= i < v.tags.len() implies (#[trigger] v.tags[i]).start
                    <= v.tags[i].end && v.tags[i].end < v.durations.len() by {
                    assert(v.tags[i] == data.tags@[i]@);
                }
            } else if v.wf() {
                assert forall|i: int|
                    0 <= i < data.frame_durations@.len() implies data.frame_durations@[i] >= 1 by {
                    assert(v.durations[i] >= 1);
                }
                assert forall|i: int| 0 <= i < data.tags@.len() implies (#[trigger] data.tags@[i]).start
                    <= data.tags@[i].end && data.tags@[i].end < data.frame_durations@.len() by {
                    assert(v.tags[i] == data.tags@[i]@);
                }
            }
        }
        if ok {
            let tags = index_tags(&data.tags);
            let slices = index_slices(&data.slices);
            Ok(AsepriteInfo { data, tags, slices })
        } else {
            Err(DecodeError::Malformed)
        }
    }

    /// Width and height of every frame, in pixels.
    pub fn dimensions(&self) -> (r: (u16, u16))
        ensures
            r == self.data().dimensions,
            r.0 == self@.width,
            r.1 == self@.height,
            r.0 >= 1,
            r.1 >= 1,
    {
        proof {
            use_type_invariant(self);
        }
        self.data.dimensions
    }

    /// The number of frames; there is at least one.
    pub fn frame_count(&self) -> (n: usize)
        ensures
            n == self@.frame_count(),
            n >= 1,
    {
        proof {
            use_type_invariant(self);
        }
        self.data.frame_durations.len()
    }

    /// Display time of each frame, in milliseconds.
    pub fn frame_durations(&self) -> (r: &Vec<u16>)
        ensures
            r == &self.data().frame_durations,
            r@.len() == self@.frame_count(),
            forall|i: int| 0 <= i < r@.len() ==> r@[i] == self@.durations[i] && r@[i] >= 1,
    {
        proof {
            use_type_invariant(self);
        }
        &self.data.frame_durations
    }

    /// Display time of frame `frame` in milliseconds, if there is such a frame.
    pub fn frame_duration(&self, frame: usize) -> (r: Option<u16>)
        ensures
            frame < self@.frame_count() ==> r == Some(self@.durations[frame as int] as u16)
                && self@.durations[frame as int] >= 1,
            frame >= self@.frame_count() ==> r is None,
    {
        proof {
            use_type_invariant(self);
        }
        if frame < self.data.frame_durations.len() {
            Some(self.data.frame_durations[frame])
        } else {
            None
        }
    }

    /// The tags, in the order of the file.
    pub fn tags(&self) -> (r: &Vec<Tag>)
        ensures
            r == &self.data().tags,
            r@.len() == self@.tags.len(),
            forall|i: int| 0 <= i < r@.len() ==> r@[i]@ == self@.tags[i],
    {
        &self.data.tags
    }

    /// The tag called `name`, if there is one; of several, the last.
    pub fn tag(&self, name: &String) -> (r: Option<&Tag>)
        ensures
            r matches Some(t) ==> self@.tag_named(name@) == Some(t@) && t.start <= t.end
                && t.end < self@.frame_count(),
            r is None ==> self@.tag_named(name@) is None,
    {
        proof {
            use_type_invariant(self);
            if let Some(i) = last_index(tag_names(self@.tags), name@) {
                assert(is_last(tag_names(self@.tags), name@, i));
                assert(self@.tags[i].start <= self@.tags[i].end < self@.frame_count());
            }
        }
        get_tag(&self.tags, name)
    }

    /// The keys of the slice called `name`, if there is one; of several, those
    /// of the last.
    pub fn slice(&self, name: &String) -> (r: Option<&Vec<SliceKey>>)
        ensures
            r matches Some(keys) ==> self@.slice_named(name@) == Some(keys@),
            r is None ==> self@.slice_named(name@) is None,
    {
        proof {
            use_type_invariant(self);
        }
        get_slice(&self.slices, name)
    }

    /// The slices, in the order of the file.
    pub fn slices(&self) -> (r: &Vec<Slice>)
        ensures
            r == &self.data().slices,
            slice_views(r@) == self@.slices,
    {
        &self.data.slices
    }

    /// The palette, where the file has one.
    pub fn palette(&self) -> (r: &Option<Palette>)
        ensures
            r == &self.data().palette,
            palette_view(*r) == self@.palette,
    {
        &self.data.palette
    }

    /// The palette entry that stands for a transparent pixel.
    pub fn transparent_palette(&self) -> (r: u8)
        ensures
            r == self.data().transparent_palette,
            r == self@.transparent,
    {
        self.data.transparent_palette
    }
}

} // verus!
