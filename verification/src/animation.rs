//! Timed animations and the controller that plays them.
//!
//! An animation is an ordered list of frames. Each frame lasts a number of
//! ticks and may set a velocity, a sprite and some hit channels. A controller
//! advances through one animation and says which frame is current.

use vstd::prelude::*;
use crate::geometry::{Hitbox, Position};
use crate::hitstate::HITSTATE_SIZE;

verus! {

/// What an entity is doing, as far as gameplay rules care.
#[derive(Clone, Copy, Debug, PartialEq, Eq, Structural)]
pub enum AnimationState {
    Idle,
    Walking,
    Attacking,
    Staggered,
}

/// One step of an animation. Channels left at `None` are not touched when the
/// frame is applied.
#[derive(Clone, Copy, Debug, PartialEq, Eq)]
pub struct AnimationFrame {
    pub hitboxes: [Option<Hitbox>; HITSTATE_SIZE],
    pub velocity: Option<Position>,
    pub sprite: Option<usize>,
    pub duration: u32,
}

/// A frame that lasts `duration` ticks and sets nothing but `velocity`.
pub open spec fn plain_frame(velocity: Option<Position>, duration: u32) -> AnimationFrame {
    AnimationFrame {
        hitboxes: vstd::array::spec_array_fill_for_copy_type(None),
        velocity,
        sprite: None,
        duration,
    }
}

/// `frame` with channel `channel` set to `hitbox`.
pub open spec fn with_hitbox(frame: AnimationFrame, channel: int, hitbox: Hitbox) -> AnimationFrame {
    AnimationFrame {
        hitboxes: vstd::array::spec_array_update(frame.hitboxes, channel, Some(hitbox)),
        ..frame
    }
}

/// `frame` with the sprite `sprite`.
pub open spec fn with_sprite(frame: AnimationFrame, sprite: usize) -> AnimationFrame {
    AnimationFrame { sprite: Some(sprite), ..frame }
}

/// Ticks taken by the first `count` frames.
pub open spec fn elapsed_before(frames: Seq<AnimationFrame>, count: int) -> int
    decreases count,
{
    if count <= 0 {
        0
    } else {
        elapsed_before(frames, count - 1) + frames[count - 1].duration
    }
}

/// Whether frame `index` is the one playing at `progress` ticks: `progress`
/// is at or past the frame's start and before its end.
pub open spec fn in_window(frames: Seq<AnimationFrame>, index: int, progress: int) -> bool {
    &&& 0 <= index < frames.len()
    &&& elapsed_before(frames, index) <= progress < elapsed_before(frames, index + 1)
}

/// The index of the frame playing at `progress`, if `progress` is inside the
/// animation.
pub open spec fn frame_index_at(frames: Seq<AnimationFrame>, progress: int) -> Option<int> {
    if exists|i: int| in_window(frames, i, progress) {
        Some(choose|i: int| in_window(frames, i, progress))
    } else {
        None
    }
}

/// The frame playing at `progress`, if any.
pub open spec fn frame_at(frames: Seq<AnimationFrame>, progress: int) -> Option<AnimationFrame> {
    match frame_index_at(frames, progress) {
        Some(i) => Some(frames[i]),
        None => None,
    }
}

/// The start of a frame never comes before the start of an earlier one.
pub proof fn lemma_elapsed_monotonic(frames: Seq<AnimationFrame>, i: int, j: int)
    requires
        i <= j,
    ensures
        elapsed_before(frames, i) <= elapsed_before(frames, j),
        0 <= elapsed_before(frames, i),
    decreases j - i, j,
{
    if i < j {
        lemma_elapsed_monotonic(frames, i, j - 1);
    } else if i > 0 {
        lemma_elapsed_monotonic(frames, i - 1, i - 1);
    }
}

/// At most one frame plays at a given moment.
pub proof fn lemma_window_unique(frames: Seq<AnimationFrame>, i: int, j: int, progress: int)
    requires
        in_window(frames, i, progress),
        in_window(frames, j, progress),
    ensures
        i == j,
{
    if i < j {
        lemma_elapsed_monotonic(frames, i + 1, j);
    } else if j < i {
        lemma_elapsed_monotonic(frames, j + 1, i);
    }
}

/// A frame known to play at `progress` is the one that [`frame_at`] names.
pub proof fn lemma_frame_at_window(frames: Seq<AnimationFrame>, i: int, progress: int)
    requires
        in_window(frames, i, progress),
    ensures
        frame_index_at(frames, progress) == Some(i),
        frame_at(frames, progress) == Some(frames[i]),
{
    let k = choose|k: int| in_window(frames, k, progress);
    lemma_window_unique(frames, i, k, progress);
}

/// No frame plays at or after the end of the animation, nor before its start.
pub proof fn lemma_frame_at_outside(frames: Seq<AnimationFrame>, progress: int)
    requires
        progress < 0 || elapsed_before(frames, frames.len() as int) <= progress,
    ensures
        frame_at(frames, progress) is None,
{
    assert forall|i: int| !in_window(frames, i, progress) by {
        if 0 <= i < frames.len() {
            lemma_elapsed_monotonic(frames, 0, i);
            lemma_elapsed_monotonic(frames, i + 1, frames.len() as int);
        }
    }
}

/// An ordered list of timed frames.
#[derive(Debug)]
pub struct HitboxAnimation {
    frames: Vec<AnimationFrame>,
}

impl View for HitboxAnimation {
    type V = Seq<AnimationFrame>;

    closed spec fn view(&self) -> Seq<AnimationFrame> {
        self.frames@
    }
}

impl DeepView for HitboxAnimation {
    type V = Seq<AnimationFrame>;

    open spec fn deep_view(&self) -> Seq<AnimationFrame> {
        self@
    }
}

impl Clone for HitboxAnimation {
    fn clone(&self) -> (r: Self)
        ensures
            r@ == self@,
    {
        let mut frames: Vec<AnimationFrame> = Vec::new();
        let mut i: usize = 0;
        while i < self.frames.len()
            invariant
                i <= self.frames.len(),
                frames@ == self.frames@.subrange(0, i as int),
            decreases self.frames.len() - i,
        {
            frames.push(self.frames[i]);
            i += 1;
        }
        assert(frames@ =~= self.frames@);
        HitboxAnimation { frames }
    }
}

impl HitboxAnimation {
    /// An animation without frames.
    pub fn new() -> (r: HitboxAnimation)
        ensures
            r@ == Seq::<AnimationFrame>::empty(),
    {
        HitboxAnimation { frames: Vec::new() }
    }

    /// The number of frames.
    pub fn len(&self) -> (r: usize)
        ensures
            r == self@.len(),
    {
        self.frames.len()
    }

    /// Frame `index`, if there is one.
    pub fn frame(&self, index: usize) -> (r: Option<AnimationFrame>)
        ensures
            r == (if index < self@.len() {
                Some(self@[index as int])
            } else {
                None
            }),
    {
        if index < self.frames.len() {
            Some(self.frames[index])
        } else {
            None
        }
    }

    /// Appends a frame that sets nothing, and returns its index.
    pub fn add_frame(&mut self, duration: u32) -> (index: usize)
        ensures
            final(self)@ == old(self)@.push(plain_frame(None, duration)),
            index == old(self)@.len(),
    {
        self.frames.push(
            AnimationFrame { hitboxes: [None;16], velocity: None, sprite: None, duration },
        );
        self.frames.len() - 1
    }

    /// Appends a frame that sets `velocity`, and returns its index.
    pub fn add_frame_with_velocity(&mut self, velocity: Position, duration: u32) -> (index: usize)
        ensures
            final(self)@ == old(self)@.push(plain_frame(Some(velocity), duration)),
            index == old(self)@.len(),
    {
        self.frames.push(
            AnimationFrame {
                hitboxes: [None;16],
                velocity: Some(velocity),
                sprite: None,
                duration,
            },
        );
        self.frames.len() - 1
    }

    /// Makes frame `index` set channel `hitbox_index` to `hitbox`.
    pub fn set_hitbox(&mut self, index: usize, hitbox_index: usize, hitbox: Hitbox)
        requires
            index < old(self)@.len(),
            hitbox_index < HITSTATE_SIZE,
        ensures
            final(self)@ == old(self)@.update(
                index as int,
                with_hitbox(old(self)@[index as int], hitbox_index as int, hitbox),
            ),
    {
        let mut frame = self.frames[index];
        frame.hitboxes[hitbox_index] = Some(hitbox);
        assert(frame.hitboxes =~= with_hitbox(
            old(self)@[index as int],
            hitbox_index as int,
            hitbox,
        ).hitboxes);
        self.frames[index] = frame;
    }

    /// Makes frame `index` show `sprite`.
    pub fn set_sprite(&mut self, index: usize, sprite: usize)
        requires
            index < old(self)@.len(),
        ensures
            final(self)@ == old(self)@.update(
                index as int,
                with_sprite(old(self)@[index as int], sprite),
            ),
    {
        let mut frame = self.frames[index];
        frame.sprite = Some(sprite);
        self.frames[index] = frame;
    }

    /// The frame whose window of time contains `progress`.
    pub fn get_frame_at(&self, progress: u64) -> (r: Option<AnimationFrame>)
        ensures
            r == frame_at(self@, progress as int),
    {
        let mut progress_left: u64 = progress;
        let mut i: usize = 0;
        while i < self.frames.len()
            invariant
                i <= self.frames.len(),
                progress_left == progress - elapsed_before(self.frames@, i as int),
                elapsed_before(self.frames@, i as int) <= progress,
            decreases self.frames.len() - i,
        {
            let frame = self.frames[i];
            if progress_left < frame.duration as u64 {
                proof {
                    lemma_frame_at_window(self.frames@, i as int, progress as int);
                }
                return Some(frame);
            }
            progress_left -= frame.duration as u64;
            i += 1;
        }
        proof {
            lemma_frame_at_outside(self.frames@, progress as int);
        }
        None
    }
}

/// The state of a controller: where it is in which animation.
pub struct Playback {
    pub progress: u64,
    pub animation: Option<Seq<AnimationFrame>>,
    pub state: AnimationState,
    pub looping: bool,
}

impl Playback {
    /// A controller without an animation is idle.
    pub open spec fn wf(self) -> bool {
        self.animation is None ==> self.state == AnimationState::Idle
    }

    /// The controller at rest: no animation, idle.
    pub open spec fn stopped(self, progress: u64) -> Playback {
        Playback { progress, animation: None, state: AnimationState::Idle, looping: self.looping }
    }

    /// The elapsed time after `delta` more ticks. It stops counting at the
    /// largest value it can hold.
    pub open spec fn advanced(self, delta: u32) -> u64 {
        if self.progress + delta > u64::MAX {
            u64::MAX
        } else {
            (self.progress + delta) as u64
        }
    }

    /// The controller after `delta` ticks, and the frame that is then current.
    ///
    /// Time moves on first. If a frame plays at the new time, it is current.
    /// If not and the controller loops, time goes back to 0 and the frame
    /// playing there is current. If there is still none, the animation is
    /// over: the controller drops it and is idle.
    pub open spec fn stepped(self, delta: u32) -> (Playback, Option<AnimationFrame>) {
        let progress = self.advanced(delta);
        match self.animation {
            None => (self.stopped(progress), None),
            Some(frames) => match frame_at(frames, progress as int) {
                Some(frame) => (Playback { progress, ..self }, Some(frame)),
                None => if self.looping {
                    match frame_at(frames, 0) {
                        Some(frame) => (Playback { progress: 0, ..self }, Some(frame)),
                        None => (self.stopped(0), None),
                    }
                } else {
                    (self.stopped(progress), None)
                },
            },
        }
    }
}

/// What a step does at the end of an animation. A controller that loops
/// goes back to the start: its time is 0 again and the frame that plays there
/// is current. One that does not loop drops the animation and is idle, with
/// its time left where it was.
pub proof fn lemma_step_at_the_end(playback: Playback, delta: u32)
    requires
        playback.animation matches Some(frames) && frame_at(
            frames,
            playback.advanced(delta) as int,
        ) is None,
    ensures
        playback.looping ==> playback.stepped(delta).0.progress == 0,
        playback.looping ==> playback.stepped(delta).1 == frame_at(
            playback.animation.unwrap(),
            0,
        ),
        playback.looping && playback.stepped(delta).1 is Some ==> playback.stepped(delta).0
            == (Playback { progress: 0, ..playback }),
        !playback.looping ==> playback.stepped(delta) == (
            playback.stopped(playback.advanced(delta)),
            None::<AnimationFrame>,
        ),
        playback.stepped(delta).0.wf(),
{
}

/// A controller at rest: idle, with no animation.
pub open spec fn at_rest() -> Playback {
    Playback { progress: 0, animation: None, state: AnimationState::Idle, looping: false }
}

/// A controller that has just begun to loop through `frames`, in `state`.
pub open spec fn looped(frames: Seq<AnimationFrame>, state: AnimationState) -> Playback {
    Playback { progress: 0, animation: Some(frames), state, looping: true }
}

/// A controller that has just begun `frames` in `state`.
pub open spec fn begun(frames: Seq<AnimationFrame>, state: AnimationState) -> Playback {
    Playback { progress: 0, animation: Some(frames), state, looping: false }
}

/// Whether an entity in `state` may choose what to do next: it neither
/// attacks nor staggers.
pub open spec fn free_to_move(state: AnimationState) -> bool {
    state == AnimationState::Idle || state == AnimationState::Walking
}

/// Plays one animation for one entity.
#[derive(Debug)]
pub struct AnimationController {
    progress: u64,
    animation: Option<HitboxAnimation>,
    state: AnimationState,
    looping: bool,
}

impl View for AnimationController {
    type V = Playback;

    closed spec fn view(&self) -> Playback {
        Playback {
            progress: self.progress,
            animation: match self.animation {
                Some(animation) => Some(animation@),
                None => None,
            },
            state: self.state,
            looping: self.looping,
        }
    }
}

impl DeepView for AnimationController {
    type V = Playback;

    open spec fn deep_view(&self) -> Playback {
        self@
    }
}

impl AnimationController {
    /// A controller without an animation is idle.
    #[verifier::type_invariant]
    spec fn settled(self) -> bool {
        self.animation is None ==> self.state == AnimationState::Idle
    }

    /// A controller at rest.
    pub fn new() -> (r: AnimationController)
        ensures
            r@ == at_rest(),
    {
        AnimationController {
            progress: 0,
            animation: None,
            state: AnimationState::Idle,
            looping: false,
        }
    }

    /// Plays `animation` once from its start, in `state`.
    pub fn start(&mut self, animation: HitboxAnimation, state: AnimationState)
        ensures
            final(self)@ == begun(animation@, state),
    {
        self.animation = Some(animation);
        self.progress = 0;
        self.state = state;
        self.looping = false;
    }

    /// Plays `animation` from its start, over and over. The state is left to
    /// the caller.
    pub fn start_loop(&mut self, animation: HitboxAnimation)
        ensures
            final(self)@ == looped(animation@, old(self)@.state),
    {
        self.animation = Some(animation);
        self.progress = 0;
        self.looping = true;
    }

    /// Advances by `delta` ticks and returns the frame that is then current.
    pub fn step(&mut self, delta: u32) -> (r: Option<AnimationFrame>)
        ensures
            (final(self)@, r) == old(self)@.stepped(delta),
            final(self)@.wf(),
    {
        proof {
            use_type_invariant(&*self);
        }
        self.progress = self.progress.saturating_add(delta as u64);
        let found = match &self.animation {
            Some(animation) => {
                let mut frame = animation.get_frame_at(self.progress);
                if self.looping && frame.is_none() {
                    self.progress = 0;
                    frame = animation.get_frame_at(0);
                }
                frame
            },
            None => None,
        };
        if found.is_none() {
            self.state = AnimationState::Idle;
            self.animation = None;
        }
        found
    }

    /// Ticks since the animation began, or since it began anew.
    pub fn progress(&self) -> (r: u64)
        ensures
            r == self@.progress,
    {
        self.progress
    }

    /// Whether the animation begins anew when it ends.
    pub fn looping(&self) -> (r: bool)
        ensures
            r == self@.looping,
    {
        self.looping
    }

    /// Whether an animation is playing. A controller that plays nothing is
    /// idle.
    pub fn active(&self) -> (r: bool)
        ensures
            r == (self@.animation is Some),
            self@.wf(),
    {
        proof {
            use_type_invariant(self);
        }
        self.animation.is_some()
    }

    /// The current state. It is idle whenever no animation is playing.
    pub fn state(&self) -> (r: AnimationState)
        ensures
            r == self@.state,
            self@.wf(),
    {
        proof {
            use_type_invariant(self);
        }
        self.state
    }

    /// Whether the entity may choose what to do next.
    pub fn free(&self) -> (r: bool)
        ensures
            r == free_to_move(self@.state),
    {
        match self.state {
            AnimationState::Idle | AnimationState::Walking => true,
            _ => false,
        }
    }
}

} // verus!
