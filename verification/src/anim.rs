//! The state of one playing animation, and what moves it.

use std::time::Duration;
use vstd::prelude::*;
use crate::info::{AnimationDirection, AsepriteInfo, Tag};
use crate::model::{
    advance, advances, finishes_frame, has_tag, remaining_frames, seed, set_frame, set_tag_frame,
    settled, step, switch_tag, tag_frame, valid, InfoView, StateView, NANOS_PER_MILLI,
};
use crate::time::duration_nanos;

verus! {

/// The name of a tag.
#[derive(Debug, Default, Clone, PartialEq, Eq, PartialOrd, Ord, Hash)]
pub struct AsepriteTag(String);

impl View for AsepriteTag {
    type V = Seq<char>;

    closed spec fn view(&self) -> Seq<char> {
        self.0@
    }
}

impl AsepriteTag {
    pub fn new(name: &str) -> (tag: AsepriteTag)
        ensures
            tag@ == name@,
    {
        AsepriteTag(name.to_owned())
    }

    pub fn as_str(&self) -> (name: &str)
        ensures
            name@ == self@,
    {
        self.0.as_str()
    }

    pub fn into_string(self) -> (name: String)
        ensures
            name@ == self@,
    {
        self.0
    }
}

impl From<String> for AsepriteTag {
    fn from(tag: String) -> (r: AsepriteTag)
        ensures
            r@ == tag@,
    {
        AsepriteTag(tag)
    }
}

impl vstd::std_specs::convert::FromSpecImpl<String> for AsepriteTag {
    open spec fn obeys_from_spec() -> bool {
        true
    }

    closed spec fn from_spec(tag: String) -> AsepriteTag {
        AsepriteTag(tag)
    }
}

impl From<&str> for AsepriteTag {
    fn from(tag: &str) -> (r: AsepriteTag)
        ensures
            r@ == tag@,
    {
        AsepriteTag(tag.to_owned())
    }
}

impl vstd::std_specs::convert::FromSpecImpl<&str> for AsepriteTag {
    /// The text decides the tag only up to its view, so `from` states that
    /// itself.
    open spec fn obeys_from_spec() -> bool {
        false
    }

    closed spec fn from_spec(tag: &str) -> AsepriteTag {
        arbitrary()
    }
}

impl std::ops::Deref for AsepriteTag {
    type Target = str;

    fn deref(&self) -> (name: &str)
        ensures
            name@ == self@,
    {
        self.0.as_str()
    }
}

/// The tag name that an optional tag stands for.
pub open spec fn tag_name(tag: Option<AsepriteTag>) -> Option<Seq<char>> {
    match tag {
        Some(t) => Some(t@),
        None => None,
    }
}

/// Something that playback works around and that the host may want to log.
#[derive(Clone, Copy, Debug, PartialEq, Eq, Structural, Hash)]
pub enum PlaybackDiagnostic {
    /// The animation names a tag that the sprite does not have. It runs over
    /// all frames instead.
    UnknownTag,
    /// The tag of the animation has a direction code that is not known. The
    /// frame stays where it is.
    UnknownDirection(u8),
}

/// One playing animation: which frame is shown, for how long it has been
/// shown, and how playback goes on from it.
#[derive(Debug)]
pub struct AsepriteAnimation {
    tag: Option<String>,
    current_frame: usize,
    /// Time spent in the current frame, in nanoseconds.
    elapsed: u64,
    forward: bool,
    playing: bool,
}

impl View for AsepriteAnimation {
    type V = StateView;

    closed spec fn view(&self) -> StateView {
        StateView {
            tag: match self.tag {
                Some(name) => Some(name@),
                None => None,
            },
            frame: self.current_frame as nat,
            elapsed: self.elapsed as nat,
            forward: self.forward,
            playing: self.playing,
        }
    }
}

impl AsepriteAnimation {
    /// The tag of `info` that this animation names, if it names one.
    fn active_tag<'a>(&self, info: &'a AsepriteInfo) -> (r: Option<&'a Tag>)
        ensures
            r is Some == has_tag(info@, self@),
            r matches Some(t) ==> t.start == info@.span(self@.tag).lo && t.end == info@.span(
                self@.tag,
            ).hi && t.direction == info@.span(self@.tag).direction && t.start <= t.end
                && t.end < info@.frame_count(),
    {
        match &self.tag {
            Some(name) => info.tag(name),
            None => None,
        }
    }

    /// The frames that this animation runs over in `info`, and the direction.
    fn span(&self, info: &AsepriteInfo) -> (r: (usize, usize, AnimationDirection))
        ensures
            r.0 == info@.span(self@.tag).lo,
            r.1 == info@.span(self@.tag).hi,
            r.2 == info@.span(self@.tag).direction,
            r.0 <= r.1 < info@.frame_count(),
            r.1 < usize::MAX,
    {
        match self.active_tag(info) {
            Some(t) => (t.start as usize, t.end as usize, t.direction),
            None => (0, info.frame_count() - 1, AnimationDirection::Forward),
        }
    }

    /// Display time of frame `frame` in nanoseconds.
    fn frame_nanos(info: &AsepriteInfo, frame: usize) -> (nanos: u64)
        requires
            frame < info@.frame_count(),
        ensures
            nanos == info@.frame_nanos(frame as nat),
            nanos >= 1,
    {
        let millis = info.frame_durations()[frame];
        millis as u64 * NANOS_PER_MILLI
    }

    /// Starts an animation of the tag `tag`, or of all frames where `tag` is
    /// `None` or names no tag of `info`. The animation plays, and stands at
    /// the first frame of the tag, or at the last where the tag's direction
    /// begins there.
    pub fn new(info: &AsepriteInfo, tag: Option<AsepriteTag>) -> (anim: AsepriteAnimation)
        ensures
            anim@ == seed(info@, tag_name(tag)),
            valid(info@, anim@),
            settled(info@, anim@),
    {
        let name = match tag {
            Some(t) => Some(t.into_string()),
            None => None,
        };
        let mut anim = AsepriteAnimation {
            tag: name,
            current_frame: 0,
            elapsed: 0,
            forward: true,
            playing: true,
        };
        let (lo, hi, direction) = anim.span(info);
        match direction {
            AnimationDirection::Reverse | AnimationDirection::PingPongReverse => {
                anim.current_frame = hi;
                anim.forward = false;
            },
            _ => {
                anim.current_frame = lo;
            },
        }
        proof {
            use_type_invariant(info);
            crate::model::lemma_seed_valid(info@, tag_name(tag));
        }
        anim
    }

    /// Whether this state is one that playback over `info` can be in. Every
    /// state is so for the `info` it was started or last moved with.
    pub fn is_valid_for(&self, info: &AsepriteInfo) -> (ok: bool)
        ensures
            ok == valid(info@, self@),
    {
        let (lo, hi, _) = self.span(info);
        lo <= self.current_frame && self.current_frame <= hi
    }

    /// Switches to the tag `tag`: a fresh start, as `new` makes it.
    pub fn set_tag(&mut self, info: &AsepriteInfo, tag: Option<AsepriteTag>)
        ensures
            final(self)@ == switch_tag(info@, old(self)@, tag_name(tag)),
            valid(info@, final(self)@),
            settled(info@, final(self)@),
    {
        *self = AsepriteAnimation::new(info, tag);
    }

    /// Makes one step of the direction's policy, and starts the time of the
    /// frame it leads to.
    pub fn next_frame(&mut self, info: &AsepriteInfo)
        requires
            valid(info@, old(self)@),
        ensures
            final(self)@ == step(info@, old(self)@),
            valid(info@, final(self)@),
            settled(info@, final(self)@),
    {
        let (lo, hi, direction) = self.span(info);
        proof {
            use_type_invariant(info);
            crate::model::lemma_step_valid(info@, self@);
        }
        self.step_within(lo, hi, direction);
    }

    /// One step within the frames `lo` to `hi`.
    fn step_within(&mut self, lo: usize, hi: usize, direction: AnimationDirection)
        requires
            lo <= old(self).current_frame <= hi,
            hi < usize::MAX,
        ensures
            final(self).tag == old(self).tag,
            final(self).playing == old(self).playing,
            final(self).elapsed == 0,
            (final(self).current_frame as nat, final(self).forward) == (crate::model::Span {
                lo: lo as nat,
                hi: hi as nat,
                direction,
            }).next(old(self).current_frame as nat, old(self).forward),
    {
        let frame = self.current_frame;
        let up = frame < hi;
        let down = frame > lo;
        match direction {
            AnimationDirection::Forward => {
                self.current_frame = if up { frame + 1 } else { lo };
            },
            AnimationDirection::Reverse => {
                self.current_frame = if down { frame - 1 } else { hi };
            },
            AnimationDirection::PingPong | AnimationDirection::PingPongReverse => {
                if up && (self.forward || !down) {
                    self.current_frame = frame + 1;
                    self.forward = frame + 1 < hi;
                } else if down {
                    self.current_frame = frame - 1;
                    self.forward = frame - 1 == lo;
                }
            },
            AnimationDirection::Unknown(_) => {},
        }
        self.elapsed = 0;
    }

    /// Lets `nanos` nanoseconds pass. Says whether at least one step was made.
    ///
    /// A frame whose time has already run out, as it may have after the frame
    /// was set by hand, is left at once, and the time spent beyond it is
    /// carried on like time that passes.
    pub fn advance(&mut self, info: &AsepriteInfo, nanos: u128) -> (stepped: bool)
        requires
            valid(info@, old(self)@),
        ensures
            final(self)@ == advance(info@, old(self)@, nanos as nat),
            stepped == advances(info@, old(self)@, nanos as nat),
            valid(info@, final(self)@),
            old(self)@.playing ==> settled(info@, final(self)@),
    {
        proof {
            use_type_invariant(info);
            crate::model::law_advance_stays_valid(info@, self@, nanos as nat);
            crate::model::lemma_frame_takes_time(info@, self@);
        }
        if !self.playing {
            return false;
        }
        let full = Self::frame_nanos(info, self.current_frame);
        if self.elapsed < full {
            return self.run(info, nanos);
        }
        let ghost start = self@;
        let surplus: u64 = self.elapsed - full;
        let (lo, hi, direction) = self.span(info);
        proof {
            crate::model::lemma_step_valid(info@, start);
            crate::model::law_advance_additive(info@, start, 0, nanos as nat);
        }
        self.step_within(lo, hi, direction);
        let _ = self.run(info, surplus as u128);
        let _ = self.run(info, nanos);
        true
    }

    /// Lets `nanos` nanoseconds pass for a playing animation whose current
    /// frame has time left. Says whether at least one step was made.
    ///
    /// Frames are left one by one, but whole rounds are not walked again and
    /// again: once the animation is back in a state that it has been in, the
    /// time that is left is cut down to what remains of it after whole rounds.
    fn run(&mut self, info: &AsepriteInfo, nanos: u128) -> (stepped: bool)
        requires
            valid(info@, old(self)@),
            settled(info@, old(self)@),
            old(self)@.playing,
        ensures
            final(self)@ == advance(info@, old(self)@, nanos as nat),
            stepped == advances(info@, old(self)@, nanos as nat),
            valid(info@, final(self)@),
            settled(info@, final(self)@),
    {
        proof {
            use_type_invariant(info);
            crate::model::law_advance_stays_valid(info@, self@, nanos as nat);
        }
        let ghost start = self@;
        let (lo, hi, direction) = self.span(info);
        let mut rest: u128 = nanos;
        let mut stepped = false;
        // The state after the first step, and the time spent since then.
        let mut mark: Option<(usize, bool)> = None;
        let ghost mut marked = self@;
        let mut since: u128 = 0;
        loop
            invariant_except_break
                valid(info@, self@),
                settled(info@, self@),
                advance(info@, self@, rest as nat) == advance(info@, start, nanos as nat),
                stepped ==> advances(info@, start, nanos as nat),
                !stepped ==> rest == nanos && self@ == start,
                since + rest <= nanos,
                mark matches Some((frame, forward)) ==> {
                    &&& marked == (StateView { frame: frame as nat, forward, ..self@ })
                    &&& valid(info@, marked)
                    &&& self@.elapsed == 0
                    &&& advance(info@, marked, since as nat) == self@
                },
            invariant
                info@.wf(),
                self.playing,
                self@.tag == start.tag,
                lo == info@.span(start.tag).lo,
                hi == info@.span(start.tag).hi,
                direction == info@.span(start.tag).direction,
                lo <= hi < info@.frame_count(),
                hi < usize::MAX,
            ensures
                self@ == advance(info@, start, nanos as nat),
                stepped == advances(info@, start, nanos as nat),
            decreases rest,
        {
            let need: u64 = Self::frame_nanos(info, self.current_frame) - self.elapsed;
            if rest < need as u128 {
                self.elapsed = self.elapsed + rest as u64;
                break;
            }
            proof {
                crate::model::lemma_step_valid(info@, self@);
                if mark is Some {
                    crate::model::lemma_advance_one_frame(info@, self@);
                    crate::model::law_advance_additive(info@, marked, since as nat, need as nat);
                }
            }
            rest = rest - need as u128;
            self.step_within(lo, hi, direction);
            stepped = true;
            match mark {
                None => {
                    mark = Some((self.current_frame, self.forward));
                    since = 0;
                    proof {
                        marked = self@;
                        assert(advance(info@, marked, 0) == marked);
                    }
                },
                Some((frame, forward)) => {
                    since = since + need as u128;
                    if self.current_frame == frame && self.forward == forward {
                        proof {
                            crate::model::law_advance_periodic(
                                info@,
                                marked,
                                since as nat,
                                rest as nat,
                            );
                            vstd::arithmetic::div_mod::lemma_mod_decreases(rest as nat, since as nat);
                        }
                        rest = rest % since;
                    }
                },
            }
        }
        stepped
    }

    /// Lets the time `dt` pass: what `advance` does with its nanoseconds.
    /// Says whether at least one step was made.
    pub fn update(&mut self, info: &AsepriteInfo, dt: Duration) -> (stepped: bool)
        requires
            valid(info@, old(self)@),
        ensures
            final(self)@ == advance(info@, old(self)@, duration_nanos(dt)),
            stepped == advances(info@, old(self)@, duration_nanos(dt)),
            valid(info@, final(self)@),
            old(self)@.playing ==> settled(info@, final(self)@),
    {
        self.advance(info, dt.as_nanos())
    }

    /// Display time of the current frame.
    pub fn current_frame_duration(&self, info: &AsepriteInfo) -> (d: Duration)
        requires
            valid(info@, self@),
        ensures
            duration_nanos(d) == info@.frame_nanos(self@.frame),
    {
        let (_, _, _) = self.span(info);
        let millis = info.frame_durations()[self.current_frame];
        Duration::from_millis(millis as u64)
    }

    /// Index of the current frame among all frames of the sprite.
    pub fn current_frame(&self) -> (frame: usize)
        ensures
            frame == self@.frame,
    {
        self.current_frame
    }

    /// Sets the current frame by its index among all frames. An index outside
    /// the frames that the animation runs over is moved to the nearest of
    /// them. Nothing else changes: the time spent in the frame before counts
    /// for the new one.
    pub fn set_current_frame(&mut self, info: &AsepriteInfo, frame: usize)
        ensures
            final(self)@ == set_frame(info@, old(self)@, frame as nat),
            valid(info@, final(self)@),
    {
        let (lo, hi, _) = self.span(info);
        proof {
            use_type_invariant(info);
            crate::model::lemma_set_frame_valid(info@, self@, frame as nat);
        }
        self.current_frame = if frame < lo {
            lo
        } else if frame > hi {
            hi
        } else {
            frame
        };
    }

    /// Index of the current frame within its tag; 0 where the animation has no
    /// tag.
    pub fn current_tag_frame(&self, info: &AsepriteInfo) -> (offset: usize)
        ensures
            offset == tag_frame(info@, self@),
    {
        match self.active_tag(info) {
            Some(t) => if self.current_frame >= t.start as usize {
                self.current_frame - t.start as usize
            } else {
                0
            },
            None => 0,
        }
    }

    /// Sets the current frame by its index within the tag; an index past the
    /// tag's last frame leads to that frame. Nothing else changes, and where
    /// the animation has no tag, nothing at all.
    pub fn set_current_tag_frame(&mut self, info: &AsepriteInfo, frame: usize)
        ensures
            final(self)@ == set_tag_frame(info@, old(self)@, frame as nat),
            valid(info@, old(self)@) ==> valid(info@, final(self)@),
    {
        let found = match self.active_tag(info) {
            Some(t) => Some((t.start as usize, t.end as usize)),
            None => None,
        };
        if let Some((lo, hi)) = found {
            proof {
                use_type_invariant(info);
                crate::model::lemma_set_frame_valid(info@, self@, (lo + frame) as nat);
            }
            self.current_frame = if frame > hi - lo {
                hi
            } else {
                lo + frame
            };
        }
    }

    /// How many frames of the tag come after the current one; `None` where
    /// the animation has no tag.
    pub fn remaining_tag_frames(&self, info: &AsepriteInfo) -> (left: Option<usize>)
        ensures
            match left {
                Some(n) => remaining_frames(info@, self@) == Some(n as nat),
                None => remaining_frames(info@, self@) is None,
            },
    {
        match self.active_tag(info) {
            Some(t) => if self.current_frame <= t.end as usize {
                Some(t.end as usize - self.current_frame)
            } else {
                Some(0)
            },
            None => None,
        }
    }

    /// Whether the time `dt` is enough to leave the current frame.
    pub fn frame_finished(&self, info: &AsepriteInfo, dt: Duration) -> (done: bool)
        requires
            valid(info@, self@),
        ensures
            done == finishes_frame(info@, self@, duration_nanos(dt)),
    {
        let (_, _, _) = self.span(info);
        let full = Self::frame_nanos(info, self.current_frame);
        self.elapsed >= full || dt.as_nanos() >= (full - self.elapsed) as u128
    }

    /// Time spent in the current frame.
    pub fn time_elapsed(&self) -> (d: Duration)
        ensures
            duration_nanos(d) == self@.elapsed,
    {
        Duration::from_nanos(self.elapsed)
    }

    /// Starts or resumes playing. The frame and its time stay.
    pub fn play(&mut self)
        ensures
            final(self)@ == (StateView { playing: true, ..old(self)@ }),
    {
        self.playing = true;
    }

    /// Pauses the animation. The frame and its time stay.
    pub fn pause(&mut self)
        ensures
            final(self)@ == (StateView { playing: false, ..old(self)@ }),
    {
        self.playing = false;
    }

    /// Whether the animation is paused.
    pub fn is_paused(&self) -> (paused: bool)
        ensures
            paused == !self@.playing,
    {
        !self.playing
    }

    /// Whether the animation is playing.
    pub fn is_playing(&self) -> (playing: bool)
        ensures
            playing == self@.playing,
    {
        self.playing
    }

    /// Pauses a playing animation and resumes a paused one.
    pub fn toggle(&mut self)
        ensures
            final(self)@ == (StateView { playing: !old(self)@.playing, ..old(self)@ }),
    {
        if self.is_paused() {
            self.play()
        } else {
            self.pause()
        }
    }

    /// Whether a ping-pong animation is on its way up.
    pub fn is_forward(&self) -> (forward: bool)
        ensures
            forward == self@.forward,
    {
        self.forward
    }

    /// The name of the tag that the animation was started with.
    pub fn tag(&self) -> (name: Option<&str>)
        ensures
            match name {
                Some(n) => self@.tag == Some(n@),
                None => self@.tag is None,
            },
    {
        match &self.tag {
            Some(n) => Some(n.as_str()),
            None => None,
        }
    }

    /// What the host may want to log about this animation, if anything: a tag
    /// name that `info` does not have, or a direction that is not known.
    pub fn diagnostic(&self, info: &AsepriteInfo) -> (r: Option<PlaybackDiagnostic>)
        ensures
            r == diagnosis(info@, self@),
    {
        match self.active_tag(info) {
            Some(t) => match t.direction {
                AnimationDirection::Unknown(code) => Some(PlaybackDiagnostic::UnknownDirection(code)),
                _ => None,
            },
            None => if self.tag.is_some() {
                Some(PlaybackDiagnostic::UnknownTag)
            } else {
                None
            },
        }
    }
}

/// What there is to report about the state `s` of an animation over `info`.
pub open spec fn diagnosis(info: InfoView, s: StateView) -> Option<PlaybackDiagnostic> {
    if s.tag is Some && !has_tag(info, s) {
        Some(PlaybackDiagnostic::UnknownTag)
    } else {
        match info.span(s.tag).direction {
            AnimationDirection::Unknown(code) => Some(PlaybackDiagnostic::UnknownDirection(code)),
            _ => None,
        }
    }
}

impl Default for AsepriteAnimation {
    /// An animation of all frames, at the first of them.
    fn default() -> (anim: AsepriteAnimation)
        ensures
            anim@ == (StateView { tag: None, frame: 0, elapsed: 0, forward: true, playing: true }),
    {
        AsepriteAnimation { tag: None, current_frame: 0, elapsed: 0, forward: true, playing: true }
    }
}

/// One tick for one animated sprite: lets the time `dt` pass for `animation`
/// and, where a step was made, shows the new frame in `index`.
pub fn update_animations(
    dt: Duration,
    info: &AsepriteInfo,
    animation: &mut AsepriteAnimation,
    index: &mut usize,
)
    requires
        valid(info@, old(animation)@),
    ensures
        final(animation)@ == advance(info@, old(animation)@, duration_nanos(dt)),
        valid(info@, final(animation)@),
        old(animation)@.playing ==> settled(info@, final(animation)@),
        *final(index) == if advances(info@, old(animation)@, duration_nanos(dt)) {
            final(animation)@.frame as usize
        } else {
            *old(index)
        },
{
    if animation.update(info, dt) {
        *index = animation.current_frame();
    }
}

/// Shows the frame of `animation` in `index`, after the animation was changed
/// from outside.
pub fn refresh_animations(animation: &AsepriteAnimation, index: &mut usize)
    ensures
        *final(index) == animation@.frame,
{
    *index = animation.current_frame();
}

} // verus!
