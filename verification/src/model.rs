//! The mathematical model of playback.
//!
//! Everything here is specification: the contracts of the executable types are
//! written over these views and functions, and the laws of playback are proved
//! about them.

use vstd::prelude::*;
use crate::info::{AnimationDirection, Color, SliceKey};

verus! {

/// Nanoseconds in one millisecond. Frame durations are kept in milliseconds,
/// elapsed time in nanoseconds.
pub const NANOS_PER_MILLI: u64 = 1_000_000;

/// A tag as the model sees it.
pub struct TagView {
    pub name: Seq<char>,
    pub start: nat,
    pub end: nat,
    pub direction: AnimationDirection,
    pub repeat: Option<u16>,
}

/// A slice as the model sees it.
pub struct SliceView {
    pub name: Seq<char>,
    pub keys: Seq<SliceKey>,
}

/// The metadata of a sprite as the model sees it. Playback depends on the
/// durations and the tags; the rest is kept for the host.
pub struct InfoView {
    pub width: nat,
    pub height: nat,
    /// Display time of each frame, in milliseconds.
    pub durations: Seq<nat>,
    pub tags: Seq<TagView>,
    pub slices: Seq<SliceView>,
    pub palette: Option<Seq<Color>>,
    /// The palette entry that stands for a transparent pixel.
    pub transparent: u8,
}

/// The frames that an animation runs over, and how.
pub struct Span {
    pub lo: nat,
    pub hi: nat,
    pub direction: AnimationDirection,
}

/// The state of one playing animation.
pub struct StateView {
    pub tag: Option<Seq<char>>,
    pub frame: nat,
    /// Time spent in the current frame, in nanoseconds.
    pub elapsed: nat,
    pub forward: bool,
    pub playing: bool,
}

/// `i` is the place of the last of `names` that is `name`.
pub open spec fn is_last(names: Seq<Seq<char>>, name: Seq<char>, i: int) -> bool {
    &&& 0 <= i < names.len()
    &&& names[i] == name
    &&& forall|j: int| i < j < names.len() ==> #[trigger] names[j] != name
}

/// The place of the last of `names` that is `name`, if there is one.
pub open spec fn last_index(names: Seq<Seq<char>>, name: Seq<char>) -> Option<int> {
    if exists|i: int| is_last(names, name, i) {
        Some(choose|i: int| is_last(names, name, i))
    } else {
        None
    }
}

/// There is one last place at most: the place named by `last_index` is the
/// only one that `is_last` holds of.
pub proof fn lemma_last_index(names: Seq<Seq<char>>, name: Seq<char>, i: int)
    requires
        is_last(names, name, i),
    ensures
        last_index(names, name) == Some(i),
{
    let k = choose|k: int| is_last(names, name, k);
    if k < i {
        assert(names[i] != name);
    } else if k > i {
        assert(names[k] != name);
    }
}

/// A name that is added at the end is the last of its kind; for every other
/// name the last place stays what it was.
pub proof fn lemma_last_index_push(names: Seq<Seq<char>>, added: Seq<char>, name: Seq<char>)
    ensures
        last_index(names.push(added), name) == if name == added {
            Some(names.len() as int)
        } else {
            last_index(names, name)
        },
{
    let longer = names.push(added);
    if name == added {
        lemma_last_index(longer, name, names.len() as int);
    } else {
        if let Some(i) = last_index(names, name) {
            assert(is_last(names, name, i));
            assert forall|j: int| i < j < longer.len() implies #[trigger] longer[j] != name by {
                if j < names.len() {
                    assert(names[j] != name);
                }
            }
            assert(longer[i] == names[i]);
            lemma_last_index(longer, name, i);
        } else {
            if let Some(i) = last_index(longer, name) {
                assert(is_last(longer, name, i));
                assert(i < names.len());
                assert(names[i] == longer[i]);
                assert forall|j: int| i < j < names.len() implies #[trigger] names[j] != name by {
                    assert(longer[j] != name);
                }
                assert(is_last(names, name, i));
            }
        }
    }
}

/// The names of the tags, in the order of the tags.
pub open spec fn tag_names(tags: Seq<TagView>) -> Seq<Seq<char>> {
    Seq::new(tags.len(), |i: int| tags[i].name)
}

/// The names of the slices, in the order of the slices.
pub open spec fn slice_names(slices: Seq<SliceView>) -> Seq<Seq<char>> {
    Seq::new(slices.len(), |i: int| slices[i].name)
}

/// The last of `tags` that is called `name`.
pub open spec fn tag_named(tags: Seq<TagView>, name: Seq<char>) -> Option<TagView> {
    match last_index(tag_names(tags), name) {
        Some(i) => Some(tags[i]),
        None => None,
    }
}

/// The keys of the last of `slices` that is called `name`.
pub open spec fn slice_named(slices: Seq<SliceView>, name: Seq<char>) -> Option<Seq<SliceKey>> {
    match last_index(slice_names(slices), name) {
        Some(i) => Some(slices[i].keys),
        None => None,
    }
}

/// The tags as a mapping from their names: what a map holds into which the
/// tags were inserted under their names, one after the other.
pub open spec fn tag_map(tags: Seq<TagView>) -> Map<Seq<char>, TagView> {
    Map::new(
        |name: Seq<char>| tag_named(tags, name) is Some,
        |name: Seq<char>| tag_named(tags, name).unwrap(),
    )
}

/// The slices as a mapping from their names to their keys.
pub open spec fn slice_map(slices: Seq<SliceView>) -> Map<Seq<char>, Seq<SliceKey>> {
    Map::new(
        |name: Seq<char>| slice_named(slices, name) is Some,
        |name: Seq<char>| slice_named(slices, name).unwrap(),
    )
}

/// One more tag at the end is one insertion into the mapping of the tags.
pub proof fn lemma_tag_map_push(tags: Seq<TagView>, tag: TagView)
    ensures
        tag_map(tags.push(tag)) == tag_map(tags).insert(tag.name, tag),
{
    let longer = tags.push(tag);
    assert(tag_names(longer) =~= tag_names(tags).push(tag.name));
    assert forall|name: Seq<char>|
        tag_named(longer, name) == if name == tag.name {
            Some(tag)
        } else {
            tag_named(tags, name)
        } by {
        lemma_last_index_push(tag_names(tags), tag.name, name);
        if name != tag.name {
            if let Some(i) = last_index(tag_names(tags), name) {
                assert(is_last(tag_names(tags), name, i));
            }
        }
    }
    assert(tag_map(longer) =~= tag_map(tags).insert(tag.name, tag));
}

/// One more slice at the end is one insertion into the mapping of the slices.
pub proof fn lemma_slice_map_push(slices: Seq<SliceView>, slice: SliceView)
    ensures
        slice_map(slices.push(slice)) == slice_map(slices).insert(slice.name, slice.keys),
{
    let longer = slices.push(slice);
    assert(slice_names(longer) =~= slice_names(slices).push(slice.name));
    assert forall|name: Seq<char>|
        slice_named(longer, name) == if name == slice.name {
            Some(slice.keys)
        } else {
            slice_named(slices, name)
        } by {
        lemma_last_index_push(slice_names(slices), slice.name, name);
        if name != slice.name {
            if let Some(i) = last_index(slice_names(slices), name) {
                assert(is_last(slice_names(slices), name, i));
            }
        }
    }
    assert(slice_map(longer) =~= slice_map(slices).insert(slice.name, slice.keys));
}

impl InfoView {
    pub open spec fn frame_count(self) -> nat {
        self.durations.len()
    }

    /// The sprite has a pixel and a frame, every frame is shown for some time,
    /// and every tag is a range of the frames.
    pub open spec fn wf(self) -> bool {
        &&& self.width >= 1
        &&& self.height >= 1
        &&& self.durations.len() >= 1
        &&& forall|i: int| 0 <= i < self.durations.len() ==> #[trigger] self.durations[i] >= 1
        &&& forall|i: int|
            0 <= i < self.tags.len() ==> {
                &&& (#[trigger] self.tags[i]).start <= self.tags[i].end
                &&& self.tags[i].end < self.durations.len()
            }
    }

    /// The tag called `name`. Where several tags share a name the last one
    /// counts, as the last insertion into a map would.
    pub open spec fn tag_named(self, name: Seq<char>) -> Option<TagView> {
        tag_named(self.tags, name)
    }

    /// The keys of the slice called `name`; of several slices with that name,
    /// those of the last.
    pub open spec fn slice_named(self, name: Seq<char>) -> Option<Seq<SliceKey>> {
        slice_named(self.slices, name)
    }

    /// The tags as a mapping from their names.
    pub open spec fn tag_map(self) -> Map<Seq<char>, TagView> {
        tag_map(self.tags)
    }

    /// The slices as a mapping from their names to their keys.
    pub open spec fn slice_map(self) -> Map<Seq<char>, Seq<SliceKey>> {
        slice_map(self.slices)
    }

    /// Display time of frame `frame`, in nanoseconds.
    pub open spec fn frame_nanos(self, frame: nat) -> nat {
        self.durations[frame as int] * (NANOS_PER_MILLI as nat)
    }

    /// All frames, played forward: what an animation without a tag runs over.
    pub open spec fn whole(self) -> Span {
        Span { lo: 0, hi: (self.durations.len() - 1) as nat, direction: AnimationDirection::Forward }
    }

    /// The frames that an animation with the tag name `tag` runs over. A name
    /// that no tag has counts as no name.
    pub open spec fn span(self, tag: Option<Seq<char>>) -> Span {
        match tag {
            Some(name) => match self.tag_named(name) {
                Some(t) => Span { lo: t.start, hi: t.end, direction: t.direction },
                None => self.whole(),
            },
            None => self.whole(),
        }
    }
}

impl Span {
    pub open spec fn contains(self, frame: int) -> bool {
        self.lo <= frame <= self.hi
    }

    /// The frame of the span that is nearest to `frame`.
    pub open spec fn clamp(self, frame: nat) -> nat {
        if frame < self.lo {
            self.lo
        } else if frame > self.hi {
            self.hi
        } else {
            frame
        }
    }

    /// The state in which an animation over this span starts: at the first
    /// frame, unless the direction begins at the last.
    pub open spec fn entry(self) -> (nat, bool) {
        match self.direction {
            AnimationDirection::Reverse | AnimationDirection::PingPongReverse => (self.hi, false),
            _ => (self.lo, true),
        }
    }

    /// The forward flag of a ping-pong animation that has just moved to
    /// `frame`: at the last frame it turns back, at the first it turns up
    /// again, and in between it keeps the way it `moved`.
    pub open spec fn turn(self, frame: nat, moved: bool) -> bool {
        if frame == self.hi {
            false
        } else if frame == self.lo {
            true
        } else {
            moved
        }
    }

    /// One step of the direction's policy from `frame`: the next frame and
    /// the next value of the forward flag.
    ///
    /// A ping-pong animation moves the way its flag says, and the other way
    /// where it cannot, so that no frame is shown twice in a row and none is
    /// left out. On a span of one frame there is nowhere to move.
    pub open spec fn next(self, frame: nat, forward: bool) -> (nat, bool) {
        let up = self.contains(frame as int + 1);
        let down = self.contains(frame as int - 1);
        match self.direction {
            AnimationDirection::Forward => (if up { frame + 1 } else { self.lo }, forward),
            AnimationDirection::Reverse => (if down { (frame - 1) as nat } else { self.hi }, forward),
            AnimationDirection::PingPong | AnimationDirection::PingPongReverse => {
                if up && (forward || !down) {
                    (frame + 1, self.turn(frame + 1, true))
                } else if down {
                    ((frame - 1) as nat, self.turn((frame - 1) as nat, false))
                } else {
                    (frame, forward)
                }
            },
            AnimationDirection::Unknown(_) => (frame, forward),
        }
    }
}

/// The state is one that playback over `info` can be in: the frame lies in
/// the span of the state's tag.
pub open spec fn valid(info: InfoView, s: StateView) -> bool {
    info.span(s.tag).contains(s.frame as int)
}

/// The time of the current frame has not run out. A fresh start and every
/// advance of a playing animation leave the state so; setting the frame by
/// hand may not, and the next advance then leaves the frame at once.
pub open spec fn settled(info: InfoView, s: StateView) -> bool {
    s.elapsed < info.frame_nanos(s.frame)
}

/// The state in which an animation with the tag name `tag` starts: playing,
/// at the entry of its span, with no time spent.
pub open spec fn seed(info: InfoView, tag: Option<Seq<char>>) -> StateView {
    let (frame, forward) = info.span(tag).entry();
    StateView { tag, frame, elapsed: 0, forward, playing: true }
}

/// Whether the state names a tag that `info` has.
pub open spec fn has_tag(info: InfoView, s: StateView) -> bool {
    s.tag matches Some(name) && info.tag_named(name) is Some
}

/// The state after the frame was set to `frame`: the animation stands at the
/// frame of its span that is nearest to `frame`. Nothing else changes; the
/// time that was spent in the frame before counts for the new one.
pub open spec fn set_frame(info: InfoView, s: StateView, frame: nat) -> StateView {
    StateView { frame: info.span(s.tag).clamp(frame), ..s }
}

/// The state after the frame was set to the `offset`-th frame of the tag.
/// Without a tag nothing changes.
pub open spec fn set_tag_frame(info: InfoView, s: StateView, offset: nat) -> StateView {
    if has_tag(info, s) {
        set_frame(info, s, info.span(s.tag).lo + offset)
    } else {
        s
    }
}

/// How far the frame is from the first frame of the tag; 0 without a tag.
pub open spec fn tag_frame(info: InfoView, s: StateView) -> nat {
    if has_tag(info, s) && s.frame >= info.span(s.tag).lo {
        (s.frame - info.span(s.tag).lo) as nat
    } else {
        0
    }
}

/// How many frames lie between the frame and the last frame of the tag, the
/// last one counted; nothing without a tag.
pub open spec fn remaining_frames(info: InfoView, s: StateView) -> Option<nat> {
    if !has_tag(info, s) {
        None
    } else if s.frame <= info.span(s.tag).hi {
        Some((info.span(s.tag).hi - s.frame) as nat)
    } else {
        Some(0)
    }
}

/// The state after the current frame has run out: one step of the direction's
/// policy, and no time spent in the frame it leads to.
pub open spec fn step(info: InfoView, s: StateView) -> StateView {
    let (frame, forward) = info.span(s.tag).next(s.frame, s.forward);
    StateView { frame, forward, elapsed: 0, ..s }
}

/// The state after `n` steps, one after the other.
pub open spec fn steps(info: InfoView, s: StateView, n: nat) -> StateView
    decreases n,
{
    if n == 0 {
        s
    } else {
        step(info, steps(info, s, (n - 1) as nat))
    }
}

/// Whether `dt` nanoseconds are enough to leave the current frame.
pub open spec fn finishes_frame(info: InfoView, s: StateView, dt: nat) -> bool {
    s.elapsed + dt >= info.frame_nanos(s.frame)
}

/// The state after `dt` nanoseconds: time is added to the current frame, and
/// as long as a frame's time has run out, the rest is carried into the next
/// frame. A paused animation stays as it is.
pub open spec fn advance(info: InfoView, s: StateView, dt: nat) -> StateView
    decreases s.elapsed + dt,
{
    if !s.playing {
        s
    } else if !finishes_frame(info, s, dt) {
        StateView { elapsed: s.elapsed + dt, ..s }
    } else if info.frame_nanos(s.frame) > 0 {
        advance(info, step(info, s), (s.elapsed + dt - info.frame_nanos(s.frame)) as nat)
    } else {
        // No frame of a well-formed sprite is shown for no time.
        s
    }
}

/// Whether `dt` nanoseconds change anything but the time spent in the frame:
/// whether at least one step is made.
pub open spec fn advances(info: InfoView, s: StateView, dt: nat) -> bool {
    s.playing && finishes_frame(info, s, dt)
}

/// The state after the time spans `dts`, one after the other.
pub open spec fn advance_each(info: InfoView, s: StateView, dts: Seq<nat>) -> StateView
    decreases dts.len(),
{
    if dts.len() == 0 {
        s
    } else {
        advance_each(info, advance(info, s, dts[0]), dts.drop_first())
    }
}

/// The time span `dt`, `n` times.
pub open spec fn repeated(dt: nat, n: nat) -> Seq<nat> {
    Seq::new(n, |i: int| dt)
}

/// Every frame that an animation with the tag name `tag` can show lasts
/// `nanos` nanoseconds.
pub open spec fn lasts_alike(info: InfoView, tag: Option<Seq<char>>, nanos: nat) -> bool {
    forall|frame: nat|
        info.span(tag).contains(frame as int) ==> #[trigger] info.frame_nanos(frame) == nanos
}

/// The frame at which a walk stands after `k` steps that goes up from `lo` to
/// `hi`, down again to `lo`, and so on, by one frame with every step.
pub open spec fn bounce(lo: nat, hi: nat, k: nat) -> nat
    recommends
        lo < hi,
{
    let width = (hi - lo) as nat;
    let m = k % (2 * width);
    if m <= width {
        lo + m
    } else {
        (lo + 2 * width - m) as nat
    }
}

/// Whether that walk is on its way up after `k` steps.
pub open spec fn bounces_up(lo: nat, hi: nat, k: nat) -> bool
    recommends
        lo < hi,
{
    k % (2 * ((hi - lo) as nat)) < hi - lo
}

/// The sum of the time spans `dts`.
pub open spec fn total(dts: Seq<nat>) -> nat
    decreases dts.len(),
{
    if dts.len() == 0 {
        0
    } else {
        dts[0] + total(dts.drop_first())
    }
}

/// The span of a tag name lies within the frames.
pub proof fn lemma_span_within(info: InfoView, tag: Option<Seq<char>>)
    requires
        info.wf(),
    ensures
        info.span(tag).lo <= info.span(tag).hi < info.frame_count(),
{
    if let Some(name) = tag {
        if let Some(i) = last_index(tag_names(info.tags), name) {
            assert(is_last(tag_names(info.tags), name, i));
            assert(info.tags[i].start <= info.tags[i].end < info.frame_count());
        }
    }
}

/// The frame of a valid state is shown for some time.
pub proof fn lemma_frame_takes_time(info: InfoView, s: StateView)
    requires
        info.wf(),
        valid(info, s),
    ensures
        s.frame < info.frame_count(),
        info.frame_nanos(s.frame) >= NANOS_PER_MILLI,
{
    lemma_span_within(info, s.tag);
    assert(info.durations[s.frame as int] >= 1);
}

/// A ping-pong animation over more than one frame moves by exactly one frame
/// with every step: at the ends it turns, without showing the end twice and
/// without leaving it out.
pub proof fn law_ping_pong_moves_by_one(span: Span, frame: nat, forward: bool)
    requires
        span.direction == AnimationDirection::PingPong || span.direction
            == AnimationDirection::PingPongReverse,
        span.lo < span.hi,
        span.contains(frame as int),
    ensures
        span.contains(span.next(frame, forward).0 as int),
        span.next(frame, forward).0 == frame + 1 || span.next(frame, forward).0 == frame - 1,
        frame < span.hi && (forward || frame == span.lo) ==> span.next(frame, forward).0 == frame
            + 1,
        frame > span.lo && (!forward || frame == span.hi) ==> span.next(frame, forward).0 == frame
            - 1,
        span.next(frame, forward).0 == span.hi ==> !span.next(frame, forward).1,
        span.next(frame, forward).0 == span.lo ==> span.next(frame, forward).1,
{
}

/// An animation starts in a valid state, at the beginning of its frame's time.
pub proof fn lemma_seed_valid(info: InfoView, tag: Option<Seq<char>>)
    requires
        info.wf(),
    ensures
        valid(info, seed(info, tag)),
        settled(info, seed(info, tag)),
{
    lemma_span_within(info, tag);
    let s = seed(info, tag);
    assert(info.durations[s.frame as int] >= 1);
}

/// A step from a frame of the span leads to a frame of the span, and to the
/// beginning of that frame's time.
pub proof fn lemma_step_valid(info: InfoView, s: StateView)
    requires
        info.wf(),
        valid(info, s),
    ensures
        valid(info, step(info, s)),
        settled(info, step(info, s)),
        step(info, s).tag == s.tag,
        step(info, s).playing == s.playing,
{
    lemma_span_within(info, s.tag);
    let t = step(info, s);
    assert(info.durations[t.frame as int] >= 1);
}

/// Setting the frame leads to a valid state, whatever frame was asked for.
pub proof fn lemma_set_frame_valid(info: InfoView, s: StateView, frame: nat)
    requires
        info.wf(),
    ensures
        valid(info, set_frame(info, s, frame)),
{
    lemma_span_within(info, s.tag);
}

/// However much time passes, a valid state stays valid: its frame stays
/// within the span of its tag, and neither the tag nor the pause flag changes.
/// Where the animation plays, no frame is left behind whose time has run out.
pub proof fn law_advance_stays_valid(info: InfoView, s: StateView, dt: nat)
    requires
        info.wf(),
        valid(info, s),
    ensures
        valid(info, advance(info, s, dt)),
        advance(info, s, dt).tag == s.tag,
        advance(info, s, dt).playing == s.playing,
        s.playing ==> settled(info, advance(info, s, dt)),
    decreases s.elapsed + dt,
{
    lemma_frame_takes_time(info, s);
    if s.playing && finishes_frame(info, s, dt) {
        lemma_step_valid(info, s);
        law_advance_stays_valid(
            info,
            step(info, s),
            (s.elapsed + dt - info.frame_nanos(s.frame)) as nat,
        );
    }
}

/// Time adds up: to let `d1` pass and then `d2` leads to the same state as to
/// let `d1 + d2` pass at once.
pub proof fn law_advance_additive(info: InfoView, s: StateView, d1: nat, d2: nat)
    requires
        info.wf(),
        valid(info, s),
    ensures
        advance(info, advance(info, s, d1), d2) == advance(info, s, d1 + d2),
    decreases s.elapsed + d1,
{
    lemma_frame_takes_time(info, s);
    if s.playing && finishes_frame(info, s, d1) {
        let rest = (s.elapsed + d1 - info.frame_nanos(s.frame)) as nat;
        lemma_step_valid(info, s);
        law_advance_additive(info, step(info, s), rest, d2);
        assert((s.elapsed + (d1 + d2) - info.frame_nanos(s.frame)) as nat == rest + d2);
    } else if s.playing {
        let mid = StateView { elapsed: s.elapsed + d1, ..s };
        assert(step(info, mid) == step(info, s));
    }
}

/// When the current frame has just begun and the time that passes is the
/// frame's whole time, exactly one step is made.
pub proof fn lemma_advance_one_frame(info: InfoView, s: StateView)
    requires
        info.wf(),
        valid(info, s),
        s.playing,
        s.elapsed == 0,
    ensures
        advance(info, s, info.frame_nanos(s.frame)) == step(info, s),
{
    lemma_step_valid(info, s);
    assert(advance(info, step(info, s), 0) == step(info, s));
}

/// Whole rounds change nothing: where the time `period` leads from a state
/// back to the same state, the time `dt` leads where its remainder after
/// whole periods leads.
pub proof fn law_advance_periodic(info: InfoView, s: StateView, period: nat, dt: nat)
    requires
        info.wf(),
        valid(info, s),
        period > 0,
        advance(info, s, period) == s,
    ensures
        advance(info, s, dt) == advance(info, s, dt % period),
    decreases dt,
{
    if dt >= period {
        let rest = (dt - period) as nat;
        law_advance_additive(info, s, period, rest);
        law_advance_periodic(info, s, period, rest);
        vstd::arithmetic::div_mod::lemma_mod_sub_multiples_vanish(dt as int, period as int);
    } else {
        vstd::arithmetic::div_mod::lemma_small_mod(dt, period);
    }
}

/// Replaying a sequence of time spans one by one leads to the same state as
/// one advance by their sum. Of no time spans at all this holds where the
/// state is at rest: while it plays, the time of its frame has not run out.
pub proof fn law_advance_each_is_total(info: InfoView, s: StateView, dts: Seq<nat>)
    requires
        info.wf(),
        valid(info, s),
        dts.len() >= 1 || !s.playing || settled(info, s),
    ensures
        advance_each(info, s, dts) == advance(info, s, total(dts)),
    decreases dts.len(),
{
    if dts.len() == 0 {
        assert(advance(info, s, 0) == s);
    } else {
        law_advance_stays_valid(info, s, dts[0]);
        law_advance_each_is_total(info, advance(info, s, dts[0]), dts.drop_first());
        law_advance_additive(info, s, dts[0], total(dts.drop_first()));
    }
}

/// Switching to a tag is a fresh start at that tag, whatever was played
/// before: after any detour over other tags the state is the seed again.
pub proof fn law_tag_switch_round_trip(
    info: InfoView,
    s: StateView,
    t1: Option<Seq<char>>,
    t2: Option<Seq<char>>,
)
    ensures
        switch_tag(info, switch_tag(info, switch_tag(info, s, t1), t2), t1) == seed(info, t1),
{
}

/// Steps keep a valid state valid, and its tag and its pause flag as they
/// are; after the first, no time is spent in the frame.
pub proof fn lemma_steps_valid(info: InfoView, s: StateView, n: nat)
    requires
        info.wf(),
        valid(info, s),
    ensures
        valid(info, steps(info, s, n)),
        steps(info, s, n).tag == s.tag,
        steps(info, s, n).playing == s.playing,
        n >= 1 ==> steps(info, s, n).elapsed == 0,
    decreases n,
{
    if n > 0 {
        lemma_steps_valid(info, s, (n - 1) as nat);
        lemma_step_valid(info, steps(info, s, (n - 1) as nat));
    }
}

/// A step and then `n` steps are `n` steps and then a step.
pub proof fn lemma_steps_shift(info: InfoView, s: StateView, n: nat)
    ensures
        steps(info, step(info, s), n) == step(info, steps(info, s, n)),
    decreases n,
{
    if n > 0 {
        lemma_steps_shift(info, s, (n - 1) as nat);
    }
}

/// The remainder of a number's successor is the successor of its remainder,
/// or 0 where that is the divisor.
pub proof fn lemma_mod_succ(k: nat, p: nat)
    requires
        p > 0,
    ensures
        k % p < p,
        (k + 1) % p == if k % p + 1 == p {
            0
        } else {
            k % p + 1
        },
{
    let (x, d) = (k as int, p as int);
    let (q, m) = (x / d, x % d);
    vstd::arithmetic::div_mod::lemma_fundamental_div_mod(x, d);
    vstd::arithmetic::div_mod::lemma_mod_bound(x, d);
    if m + 1 == d {
        assert(x + 1 == (q + 1) * d + 0) by (nonlinear_arith)
            requires
                x == d * q + m,
                m + 1 == d,
        ;
        vstd::arithmetic::div_mod::lemma_fundamental_div_mod_converse(x + 1, d, q + 1, 0);
    } else {
        assert(x + 1 == q * d + (m + 1)) by (nonlinear_arith)
            requires
                x == d * q + m,
        ;
        vstd::arithmetic::div_mod::lemma_fundamental_div_mod_converse(x + 1, d, q, m + 1);
    }
}

/// How far into the walk of `bounce` a ping-pong animation starts: at its
/// beginning, or at the top where the direction begins there.
pub open spec fn head_start(span: Span) -> nat {
    match span.direction {
        AnimationDirection::PingPongReverse => (span.hi - span.lo) as nat,
        _ => 0,
    }
}

/// After `k` steps from its start, a ping-pong animation over more than one
/// frame stands where the walk up and down its tag stands: every frame
/// between the ends is shown once on the way up and once on the way down, and
/// each end once for every turn.
pub proof fn law_ping_pong_frame_after_steps(info: InfoView, tag: Option<Seq<char>>, k: nat)
    requires
        info.wf(),
        info.span(tag).direction == AnimationDirection::PingPong || info.span(tag).direction
            == AnimationDirection::PingPongReverse,
        info.span(tag).lo < info.span(tag).hi,
    ensures
        steps(info, seed(info, tag), k).frame == bounce(
            info.span(tag).lo,
            info.span(tag).hi,
            head_start(info.span(tag)) + k,
        ),
        steps(info, seed(info, tag), k).forward == bounces_up(
            info.span(tag).lo,
            info.span(tag).hi,
            head_start(info.span(tag)) + k,
        ),
    decreases k,
{
    let span = info.span(tag);
    let width = (span.hi - span.lo) as nat;
    let head = head_start(span);
    if k == 0 {
        vstd::arithmetic::div_mod::lemma_small_mod(head, 2 * width);
    } else {
        let before = steps(info, seed(info, tag), (k - 1) as nat);
        law_ping_pong_frame_after_steps(info, tag, (k - 1) as nat);
        lemma_seed_valid(info, tag);
        lemma_steps_valid(info, seed(info, tag), (k - 1) as nat);
        lemma_mod_succ((head + k - 1) as nat, 2 * width);
        assert(info.span(before.tag) == span);
    }
}

/// Where every frame of the tag lasts `nanos` nanoseconds and the current
/// frame has just begun, `n` times that and a rest `r` below it lead where
/// `n` steps lead, with `r` spent in the frame; a step is made unless `n` is
/// 0.
pub proof fn law_advance_over_equal_frames(
    info: InfoView,
    s: StateView,
    nanos: nat,
    n: nat,
    r: nat,
)
    requires
        info.wf(),
        valid(info, s),
        s.playing,
        s.elapsed == 0,
        lasts_alike(info, s.tag, nanos),
        r < nanos,
    ensures
        advance(info, s, n * nanos + r) == (StateView { elapsed: r, ..steps(info, s, n) }),
        advances(info, s, n * nanos + r) == (n >= 1),
    decreases n,
{
    assert(info.frame_nanos(s.frame) == nanos);
    if n > 0 {
        let rest = ((n - 1) * nanos + r) as nat;
        assert(n * nanos + r == nanos + rest) by (nonlinear_arith)
            requires
                rest == (n - 1) * nanos + r,
        ;
        lemma_step_valid(info, s);
        law_advance_over_equal_frames(info, step(info, s), nanos, (n - 1) as nat, r);
        lemma_steps_shift(info, s, (n - 1) as nat);
    } else {
        assert(n * nanos + r == r) by (nonlinear_arith)
            requires
                n == 0,
        ;
    }
}

/// The sum of `n` time spans of `dt` each is `n` times `dt`.
pub proof fn lemma_total_repeated(dt: nat, n: nat)
    ensures
        total(repeated(dt, n)) == n * dt,
    decreases n,
{
    let dts = repeated(dt, n);
    assert(dts.len() == n);
    if n > 0 {
        assert(dts[0] == dt);
        assert(dts.drop_first() =~= repeated(dt, (n - 1) as nat));
        lemma_total_repeated(dt, (n - 1) as nat);
        assert(dt + (n - 1) * dt == n * dt) by (nonlinear_arith);
    } else {
        assert(n * dt == 0) by (nonlinear_arith)
            requires
                n == 0,
        ;
    }
}

/// Where every frame of the tag lasts `nanos` nanoseconds and the current
/// frame has just begun, one advance by `n` times that and a rest `r` below
/// it leads where `n` advances by `nanos` lead, one after the other, with `r`
/// spent in the frame.
pub proof fn law_one_advance_equals_many(
    info: InfoView,
    s: StateView,
    nanos: nat,
    n: nat,
    r: nat,
)
    requires
        info.wf(),
        valid(info, s),
        s.playing,
        s.elapsed == 0,
        lasts_alike(info, s.tag, nanos),
        r < nanos,
    ensures
        advance_each(info, s, repeated(nanos, n)) == steps(info, s, n),
        advance(info, s, n * nanos + r) == (StateView {
            elapsed: r,
            ..advance_each(info, s, repeated(nanos, n))
        }),
{
    assert(info.frame_nanos(s.frame) == nanos);
    law_advance_each_is_total(info, s, repeated(nanos, n));
    lemma_total_repeated(nanos, n);
    law_advance_over_equal_frames(info, s, nanos, n, 0);
    law_advance_over_equal_frames(info, s, nanos, n, r);
    lemma_steps_valid(info, s, n);
}

/// The state after a switch to the tag name `tag`: the seed of that tag.
/// Nothing of the state before survives.
pub open spec fn switch_tag(info: InfoView, s: StateView, tag: Option<Seq<char>>) -> StateView {
    seed(info, tag)
}

} // verus!
