//! Per-entity animation state machine.
//!
//! An entity owns a set of named clips (`AnimationData`), one active
//! clip that is advanced every simulation tick, and a queue of clip
//! names.  Time is measured in whole milliseconds; the active clip
//! accumulates elapsed time and steps its cursor through the clip's
//! frame indices, wrapping when the clip loops and clamping at the
//! last frame when it does not.

use vstd::prelude::*;

verus! {

/// Mathematical abstraction of one animation clip.
pub ghost struct ClipView {
    /// Clip name.
    pub name: Seq<char>,
    /// Sprite-sheet frame indices, in playback order.
    pub frames: Seq<usize>,
    /// Index into `frames` of the frame being shown.
    pub cursor: nat,
    /// Duration of one frame, in milliseconds.
    pub frame_ms: nat,
    /// Time accumulated toward the next frame step, in milliseconds.
    pub elapsed_ms: nat,
    /// Whether the cursor wraps to 0 after the last frame.
    pub looped: bool,
}

/// A clip as it sits registered in a clip set: non-degenerate and at
/// its starting position.
pub open spec fn clip_template_wf(c: ClipView) -> bool {
    &&& c.frames.len() > 0
    &&& c.frame_ms > 0
    &&& c.cursor == 0
    &&& c.elapsed_ms == 0
}

/// A clip acceptable as the active clip: its cursor and timer are in
/// range.  The empty clip (no frames, zero duration) is the initial
/// state of an entity before any clip is queued.
pub open spec fn active_clip_wf(c: ClipView) -> bool {
    &&& if c.frames.len() == 0 {
        c.cursor == 0
    } else {
        c.cursor < c.frames.len()
    }
    &&& if c.frame_ms == 0 {
        c.elapsed_ms == 0
    } else {
        c.elapsed_ms < c.frame_ms
    }
}

/// Where the cursor moves when the frame timer fires: one step
/// forward, wrapping to 0 for a looping clip and staying at the last
/// frame otherwise.
pub open spec fn stepped_cursor(c: ClipView) -> nat {
    if c.cursor + 1 >= c.frames.len() {
        if c.looped {
            0
        } else {
            c.cursor
        }
    } else {
        (c.cursor + 1) as nat
    }
}

/// Whether advancing `c` by `delta` milliseconds makes the frame
/// timer fire.
pub open spec fn clip_fires(c: ClipView, delta: nat) -> bool {
    c.elapsed_ms + delta >= c.frame_ms
}

/// The active clip after one `update` call with `delta` milliseconds:
/// the timer accumulates, and when it fires the cursor steps exactly
/// once and the timer keeps the remainder.
pub open spec fn ticked_clip(c: ClipView, delta: nat) -> ClipView {
    if clip_fires(c, delta) {
        (ClipView {
            cursor: stepped_cursor(c),
            elapsed_ms: if c.frame_ms == 0 {
                0
            } else {
                (c.elapsed_ms + delta) % c.frame_ms
            },
            ..c
        })
    } else {
        (ClipView { elapsed_ms: c.elapsed_ms + delta, ..c })
    }
}

/// The frame index reported after one `update` call, if any: the
/// timer fired and the clip has frames to show.
pub open spec fn ticked_frame(c: ClipView, delta: nat) -> Option<usize> {
    if clip_fires(c, delta) && c.frames.len() > 0 {
        Some(c.frames[stepped_cursor(c) as int])
    } else {
        None
    }
}

/// One named animation clip together with its playback state.
#[derive(Debug)]
pub struct AnimationData {
    /// Name of the animation, for identification.
    pub name: String,
    /// Indices in the sprite-sheet atlas for the animation.
    pub indices: Vec<usize>,
    /// The current position in `indices`.
    pub current_index: usize,
    /// Duration of one frame, in milliseconds.
    pub frame_duration_ms: u32,
    /// Time accumulated toward the next frame step, in milliseconds.
    pub elapsed_ms: u32,
    /// Whether the animation loops or stays at the last frame.
    pub looped: bool,
}

impl View for AnimationData {
    type V = ClipView;

    open spec fn view(&self) -> ClipView {
        ClipView {
            name: self.name@,
            frames: self.indices@,
            cursor: self.current_index as nat,
            frame_ms: self.frame_duration_ms as nat,
            elapsed_ms: self.elapsed_ms as nat,
            looped: self.looped,
        }
    }
}

impl Default for AnimationData {
    /// The empty clip: no frames, zero duration, not looping.
    fn default() -> (r: Self)
        ensures
            r@.name == Seq::<char>::empty(),
            r@.frames == Seq::<usize>::empty(),
            r@.cursor == 0,
            r@.frame_ms == 0,
            r@.elapsed_ms == 0,
            !r@.looped,
    {
        AnimationData {
            name: String::new(),
            indices: Vec::new(),
            current_index: 0,
            frame_duration_ms: 0,
            elapsed_ms: 0,
            looped: false,
        }
    }
}

impl AnimationData {
    /// An independent copy of the clip, equal to it in every
    /// observable respect.
    pub fn duplicate(&self) -> (r: Self)
        ensures
            r@ == self@,
    {
        let indices = self.indices.clone();
        proof {
            assert(indices@ =~= self.indices@);
        }
        AnimationData {
            name: self.name.clone(),
            indices,
            current_index: self.current_index,
            frame_duration_ms: self.frame_duration_ms,
            elapsed_ms: self.elapsed_ms,
            looped: self.looped,
        }
    }
}

/// Whether the clip set holds a clip of the given name.
pub open spec fn has_clip(clips: Seq<AnimationData>, name: Seq<char>) -> bool {
    exists|i: int| 0 <= i < clips.len() && (#[trigger] clips[i])@.name == name
}

/// Two clip sequences equal in every observable respect.
pub open spec fn same_clips(a: Seq<AnimationData>, b: Seq<AnimationData>) -> bool {
    &&& a.len() == b.len()
    &&& forall|i: int| 0 <= i < a.len() ==> (#[trigger] a[i])@ == b[i]@
}

/// Two name sequences equal in every observable respect.
pub open spec fn same_names(a: Seq<String>, b: Seq<String>) -> bool {
    &&& a.len() == b.len()
    &&& forall|i: int| 0 <= i < a.len() ==> (#[trigger] a[i])@ == b[i]@
}

/// The animation component of one live entity: its registered clips,
/// the clip currently playing, and the names queued to play next.
#[derive(Debug)]
pub struct AnimatedSprite {
    /// The registered clips, each at its starting position.
    pub animation_data: Vec<AnimationData>,
    /// The clip currently playing, an independent copy of a
    /// registered clip (or the empty clip before any is queued).
    pub current_animation: AnimationData,
    /// Names of clips pending after the active clip.
    pub animation_queue: Vec<String>,
}

impl AnimatedSprite {
    /// Structural invariant: every registered clip is a well-formed
    /// template, clip names are unique, and the active clip's cursor
    /// and timer are in range.
    pub open spec fn wf(self) -> bool {
        &&& forall|i: int|
            0 <= i < self.animation_data@.len() ==> clip_template_wf(
                (#[trigger] self.animation_data@[i])@,
            )
        &&& forall|i: int, j: int|
            0 <= i < j < self.animation_data@.len() ==> (#[trigger] self.animation_data@[i])@.name
                != (#[trigger] self.animation_data@[j])@.name
        &&& active_clip_wf(self.current_animation@)
    }

    /// Registers a clip under `name`, overwriting any clip of that
    /// name; the last write wins and no error is reported.  The new
    /// clip starts at cursor 0 with an idle timer and does not loop
    /// until it is queued with `looped = true`.
    pub fn add_animation(&mut self, name: &str, indices: Vec<usize>, frame_duration_ms: u32)
        requires
            old(self).wf(),
            indices@.len() > 0,
            frame_duration_ms > 0,
        ensures
            final(self).wf(),
            has_clip(final(self).animation_data@, name@),
            forall|i: int|
                0 <= i < final(self).animation_data@.len()
                    && (#[trigger] final(self).animation_data@[i])@.name == name@
                    ==> final(self).animation_data@[i]@ == (ClipView {
                    name: name@,
                    frames: indices@,
                    cursor: 0,
                    frame_ms: frame_duration_ms as nat,
                    elapsed_ms: 0,
                    looped: false,
                }),
            forall|j: int|
                0 <= j < final(self).animation_data@.len()
                    && (#[trigger] final(self).animation_data@[j])@.name != name@
                    ==> exists|i: int|
                        0 <= i < old(self).animation_data@.len()
                            && (#[trigger] old(self).animation_data@[i])@
                            == final(self).animation_data@[j]@,
            forall|i: int|
                0 <= i < old(self).animation_data@.len()
                    && (#[trigger] old(self).animation_data@[i])@.name != name@
                    ==> exists|j: int|
                        0 <= j < final(self).animation_data@.len()
                            && (#[trigger] final(self).animation_data@[j])@
                            == old(self).animation_data@[i]@,
            final(self).current_animation == old(self).current_animation,
            final(self).animation_queue == old(self).animation_queue,
    {
        let ghost template = ClipView {
            name: name@,
            frames: indices@,
            cursor: 0,
            frame_ms: frame_duration_ms as nat,
            elapsed_ms: 0,
            looped: false,
        };
        let data = AnimationData {
            name: name.to_owned(),
            indices,
            current_index: 0,
            frame_duration_ms,
            elapsed_ms: 0,
            looped: false,
        };
        let key = name.to_owned();
        let n = self.animation_data.len();
        let mut i: usize = 0;
        while i < n
            invariant
                old(self).wf(),
                *self == *old(self),
                n == self.animation_data@.len(),
                0 <= i <= n,
                forall|k: int| 0 <= k < i ==> (#[trigger] self.animation_data@[k])@.name != name@,
                key@ == name@,
                data@ == template,
                template == (ClipView {
                    name: name@,
                    frames: template.frames,
                    cursor: 0,
                    frame_ms: frame_duration_ms as nat,
                    elapsed_ms: 0,
                    looped: false,
                }),
                template.frames == indices@,
                template.frames.len() > 0,
                frame_duration_ms > 0,
            decreases n - i,
        {
            if self.animation_data[i].name == key {
                self.animation_data.set(i, data);
                proof {
                    let ghost fin = self.animation_data@;
                    let ghost orig = old(self).animation_data@;
                    assert(fin[i as int]@.name == name@);
                    assert(has_clip(fin, name@));
                    assert(orig[i as int]@.name == name@);
                    assert forall|j: int|
                        0 <= j < fin.len() && (#[trigger] fin[j])@.name == name@ implies fin[j]@
                        == template by {
                        if j != i as int {
                            assert(fin[j]@ == orig[j]@);
                            assert(orig[j]@.name != orig[i as int]@.name);
                        }
                    }
                    assert forall|k: int|
                        0 <= k < orig.len() && (#[trigger] orig[k])@.name != name@ implies exists|
                        j: int,
                    |
                        0 <= j < fin.len() && (#[trigger] fin[j])@ == orig[k]@ by {
                        assert(k != i as int);
                        assert(fin[k]@ == orig[k]@);
                    }
                    assert forall|j: int|
                        0 <= j < fin.len() && (#[trigger] fin[j])@.name != name@ implies exists|
                        k: int,
                    |
                        0 <= k < orig.len() && (#[trigger] orig[k])@ == fin[j]@ by {
                        assert(j != i as int);
                        assert(orig[j]@ == fin[j]@);
                    }
                }
                return ;
            }
            i += 1;
        }
        self.animation_data.push(data);
        proof {
            let ghost fin = self.animation_data@;
            let ghost orig = old(self).animation_data@;
            assert(fin[orig.len() as int]@.name == name@);
            assert(has_clip(fin, name@));
            assert forall|k: int|
                0 <= k < orig.len() && (#[trigger] orig[k])@.name != name@ implies exists|j: int|
                0 <= j < fin.len() && (#[trigger] fin[j])@ == orig[k]@ by {
                assert(fin[k]@ == orig[k]@);
            }
            assert forall|j: int|
                0 <= j < fin.len() && (#[trigger] fin[j])@.name != name@ implies exists|k: int|
                0 <= k < orig.len() && (#[trigger] orig[k])@ == fin[j]@ by {
                assert(j != orig.len() as int);
                assert(orig[j]@ == fin[j]@);
            }
        }
    }

    /// Makes the clip registered under `name` the active clip, as an
    /// independent copy starting at cursor 0, with its `looped` flag
    /// set as given.  If no clip of that name is registered the call
    /// is a silent no-op.  The follow-up list is accepted for
    /// interface compatibility and not yet consumed.
    pub fn queue_animation(&mut self, name: &str, looped: bool, _follow_up: Option<Vec<String>>)
        requires
            old(self).wf(),
        ensures
            final(self).wf(),
            final(self).animation_data == old(self).animation_data,
            final(self).animation_queue == old(self).animation_queue,
            has_clip(old(self).animation_data@, name@) ==> exists|i: int|
                0 <= i < old(self).animation_data@.len()
                    && (#[trigger] old(self).animation_data@[i])@.name == name@
                    && final(self).current_animation@ == (ClipView {
                    looped: looped,
                    ..old(self).animation_data@[i]@
                }),
            has_clip(old(self).animation_data@, name@)
                ==> final(self).current_animation@.name == name@
                    && final(self).current_animation@.cursor == 0
                    && final(self).current_animation@.elapsed_ms == 0
                    && final(self).current_animation@.looped == looped,
            !has_clip(old(self).animation_data@, name@)
                ==> final(self).current_animation == old(self).current_animation,
    {
        let key = name.to_owned();
        let n = self.animation_data.len();
        let mut i: usize = 0;
        while i < n
            invariant
                old(self).wf(),
                *self == *old(self),
                n == self.animation_data@.len(),
                0 <= i <= n,
                key@ == name@,
                forall|k: int| 0 <= k < i ==> (#[trigger] self.animation_data@[k])@.name != name@,
            decreases n - i,
        {
            if self.animation_data[i].name == key {
                let mut fresh = self.animation_data[i].duplicate();
                fresh.looped = looped;
                self.current_animation = fresh;
                return ;
            }
            i += 1;
        }
    }

    /// Advances the active clip by `delta_ms` milliseconds.  When the
    /// accumulated time reaches the clip's frame duration the cursor
    /// steps exactly once (wrapping if the clip loops, clamping at
    /// the last frame otherwise) and the renderable frame index is
    /// returned; otherwise the time only accumulates.
    pub fn update(&mut self, delta_ms: u32) -> (frame: Option<usize>)
        requires
            old(self).wf(),
        ensures
            final(self).wf(),
            final(self).animation_data == old(self).animation_data,
            final(self).animation_queue == old(self).animation_queue,
            final(self).current_animation@ == ticked_clip(
                old(self).current_animation@,
                delta_ms as nat,
            ),
            frame == ticked_frame(old(self).current_animation@, delta_ms as nat),
    {
        let ghost c0 = self.current_animation@;
        let sum: u64 = self.current_animation.elapsed_ms as u64 + delta_ms as u64;
        let dur: u64 = self.current_animation.frame_duration_ms as u64;
        if sum >= dur {
            let rem: u32 = if self.current_animation.frame_duration_ms == 0 {
                0
            } else {
                (sum % dur) as u32
            };
            self.current_animation.elapsed_ms = rem;
            let len = self.current_animation.indices.len();
            if self.current_animation.current_index + 1 >= len {
                if self.current_animation.looped {
                    self.current_animation.current_index = 0;
                }
            } else {
                self.current_animation.current_index = self.current_animation.current_index + 1;
            }
            proof {
                assert(self.current_animation@ == ticked_clip(c0, delta_ms as nat));
            }
            if len > 0 {
                Some(self.current_animation.indices[self.current_animation.current_index])
            } else {
                None
            }
        } else {
            self.current_animation.elapsed_ms = sum as u32;
            None
        }
    }

    /// An independent copy of the whole animation component: same
    /// clips, same active clip, same queue, no shared mutable state.
    pub fn duplicate(&self) -> (r: Self)
        requires
            self.wf(),
        ensures
            r.wf(),
            same_clips(r.animation_data@, self.animation_data@),
            r.current_animation@ == self.current_animation@,
            same_names(r.animation_queue@, self.animation_queue@),
    {
        let mut clip_copies: Vec<AnimationData> = Vec::new();
        let n = self.animation_data.len();
        let mut i: usize = 0;
        while i < n
            invariant
                n == self.animation_data@.len(),
                0 <= i <= n,
                clip_copies@.len() == i,
                forall|k: int|
                    0 <= k < i ==> (#[trigger] clip_copies@[k])@ == self.animation_data@[k]@,
            decreases n - i,
        {
            clip_copies.push(self.animation_data[i].duplicate());
            i += 1;
        }
        let queue_copy = self.animation_queue.clone();
        proof {
            assert forall|k: int| 0 <= k < queue_copy@.len() implies (#[trigger] queue_copy@[k])@
                == self.animation_queue@[k]@ by {
                assert(cloned::<String>(self.animation_queue@[k], queue_copy@[k]));
            }
        }
        AnimatedSprite {
            animation_data: clip_copies,
            current_animation: self.current_animation.duplicate(),
            animation_queue: queue_copy,
        }
    }
}

impl Default for AnimatedSprite {
    /// An animation component with no clips, the empty active clip
    /// and an empty queue.
    fn default() -> (r: Self)
        ensures
            r.wf(),
            r.animation_data@.len() == 0,
            r.animation_queue@.len() == 0,
            r.current_animation@.frames.len() == 0,
            r.current_animation@.cursor == 0,
            r.current_animation@.frame_ms == 0,
            r.current_animation@.elapsed_ms == 0,
    {
        AnimatedSprite {
            animation_data: Vec::new(),
            current_animation: AnimationData::default(),
            animation_queue: Vec::new(),
        }
    }
}


/// The active clip after `n` successive `update` calls, each with
/// `delta` milliseconds.
pub open spec fn ticked_clip_n(c: ClipView, delta: nat, n: nat) -> ClipView
    decreases n,
{
    if n == 0 {
        c
    } else {
        ticked_clip_n(ticked_clip(c, delta), delta, (n - 1) as nat)
    }
}

/// Ticking `a + b` times is ticking `a` times and then `b` times.
pub proof fn lemma_ticked_clip_n_add(c: ClipView, delta: nat, a: nat, b: nat)
    ensures
        ticked_clip_n(c, delta, a + b) == ticked_clip_n(ticked_clip_n(c, delta, a), delta, b),
    decreases a,
{
    if a > 0 {
        lemma_ticked_clip_n_add(ticked_clip(c, delta), delta, (a - 1) as nat, b);
    }
}

/// While the cursor stays short of the last frame, ticking by whole
/// frame durations moves it forward one frame per call and leaves
/// the timer idle.
proof fn lemma_ticked_forward(c: ClipView, k: nat)
    requires
        c.frame_ms > 0,
        c.elapsed_ms == 0,
        c.cursor + k < c.frames.len(),
    ensures
        ticked_clip_n(c, c.frame_ms, k) == (ClipView { cursor: (c.cursor + k) as nat, ..c }),
    decreases k,
{
    vstd::arithmetic::div_mod::lemma_mod_self_0(c.frame_ms as int);
    if k == 0 {
        assert(ticked_clip_n(c, c.frame_ms, 0) == c);
        assert((ClipView { cursor: c.cursor, ..c }) == c);
    } else {
        let c1 = ticked_clip(c, c.frame_ms);
        assert(c1 == (ClipView { cursor: (c.cursor + 1) as nat, ..c }));
        lemma_ticked_forward(c1, (k - 1) as nat);
    }
}

/// Periodicity of a looping clip: starting from an idle timer,
/// advancing by exactly the frame duration once per frame of the
/// clip returns the whole playback state, the cursor included, to
/// where it started.
pub proof fn lemma_looped_round_trip(c: ClipView)
    requires
        c.looped,
        c.frame_ms > 0,
        c.elapsed_ms == 0,
        c.frames.len() > 0,
        c.cursor < c.frames.len(),
    ensures
        ticked_clip_n(c, c.frame_ms, c.frames.len()) == c,
{
    vstd::arithmetic::div_mod::lemma_mod_self_0(c.frame_ms as int);
    let d = c.frame_ms;
    let len = c.frames.len();
    let k1 = (len - 1 - c.cursor) as nat;
    lemma_ticked_forward(c, k1);
    let c1 = ticked_clip_n(c, d, k1);
    assert(c1.cursor == len - 1);
    let c2 = ticked_clip(c1, d);
    assert(c2 == (ClipView { cursor: 0, ..c }));
    lemma_ticked_clip_n_add(c, d, k1, 1);
    assert(ticked_clip_n(c1, d, 1) == ticked_clip_n(c2, d, 0));
    assert(ticked_clip_n(c2, d, 0) == c2);
    assert(ticked_clip_n(c, d, k1 + 1) == c2);
    lemma_ticked_forward(c2, c.cursor);
    lemma_ticked_clip_n_add(c, d, k1 + 1, c.cursor);
    assert(k1 + 1 + c.cursor == len);
    assert(ticked_clip_n(c, d, len) == (ClipView { cursor: c.cursor, ..c }));
    assert((ClipView { cursor: c.cursor, ..c }) == c);
}

/// A non-looping clip never runs its cursor past the end of its
/// frame list, however it is advanced.
pub proof fn lemma_cursor_stays_in_bounds(c: ClipView, delta: nat)
    requires
        active_clip_wf(c),
        c.frames.len() > 0,
    ensures
        ticked_clip(c, delta).cursor < c.frames.len(),
{
}

/// Once a non-looping clip has reached its last frame, further
/// `update` calls leave the cursor unchanged.
pub proof fn lemma_nonlooping_clamp_idempotent(c: ClipView, delta: nat)
    requires
        !c.looped,
        c.frames.len() > 0,
        c.cursor == c.frames.len() - 1,
    ensures
        ticked_clip(c, delta).cursor == c.cursor,
{
}

/// The static-range animation variant: frames run through the
/// contiguous atlas range `first..=last` and wrap unconditionally.
#[derive(Clone, Copy, Debug, PartialEq, Eq, Structural)]
pub struct AnimationIndices {
    /// First atlas index of the range.
    pub first: usize,
    /// Last atlas index of the range, inclusive.
    pub last: usize,
}

impl AnimationIndices {
    /// The atlas index shown after one timer tick from `current`:
    /// one step forward, wrapping from `last` back to `first`.
    pub fn next_index(&self, current: usize) -> (r: usize)
        requires
            self.first <= current <= self.last,
        ensures
            r == if current == self.last {
                self.first as int
            } else {
                current + 1
            },
            self.first <= r <= self.last,
    {
        if current == self.last {
            self.first
        } else {
            current + 1
        }
    }
}


} // verus!
