//! Sprite-sheet animation cycles: each time the animation's timer finishes,
//! the sprite shows the next image of its cycle, and a cycle that does not
//! repeat is despawned on its last image.
use vstd::prelude::*;

verus! {

/// The part of a sprite sheet that an animation cycles through: `frames`
/// images starting at `start_index`; `repeat` tells whether the cycle loops
/// for ever or ends after its last image.
#[derive(Clone, Copy, Debug)]
pub struct AnimationFrames {
    pub frames: u32,
    pub start_index: u32,
    pub repeat: bool,
}

/// What one finished timer tick does to a sprite: the image it shows next,
/// and whether the sprite is despawned.
#[derive(Clone, Copy, Debug)]
pub struct FrameStep {
    pub index: usize,
    pub despawn: bool,
}

/// The image that follows image `index` in cycle `anim`.
pub open spec fn next_frame(anim: AnimationFrames, index: int) -> int {
    (index - anim.start_index + 1) % (anim.frames as int) + anim.start_index
}

/// Whether a sprite showing image `index` ends its non-repeating cycle: the
/// image's number, read as a `u32`, is the cycle's last.
pub open spec fn ends_cycle(anim: AnimationFrames, index: usize) -> bool {
    !anim.repeat && anim.frames == (index as u32) - anim.start_index + 1
}

/// The inputs on which a finished tick is computed without overflow or
/// division by zero.
pub open spec fn frame_step_defined(anim: AnimationFrames, index: usize) -> bool {
    &&& anim.frames > 0
    &&& anim.start_index <= index
    &&& index - anim.start_index + 1 <= usize::MAX
    &&& next_frame(anim, index as int) <= usize::MAX
    &&& !anim.repeat ==> (anim.start_index <= (index as u32) && (index as u32) - anim.start_index + 1 <= u32::MAX)
}

/// The image `k` finished ticks after image `index`.
pub open spec fn frame_after(anim: AnimationFrames, index: int, k: nat) -> int
    decreases k,
{
    if k == 0 {
        index
    } else {
        next_frame(anim, frame_after(anim, index, (k - 1) as nat))
    }
}

/// Whether image `index` lies inside cycle `anim`.
pub open spec fn in_cycle(anim: AnimationFrames, index: int) -> bool {
    anim.start_index <= index < anim.start_index + anim.frames
}

/// One tick of a sprite's animation: `finished` tells whether the
/// animation's timer finished in this tick, `index` is the image the sprite
/// shows. Nothing changes unless the timer finished; then the sprite moves
/// to the next image of its cycle and is despawned if it was showing the
/// last image of a cycle that does not repeat.
pub fn animate_frame(anim: &AnimationFrames, index: usize, finished: bool) -> (step: FrameStep)
    requires
        finished ==> frame_step_defined(*anim, index),
    ensures
        !finished ==> step.index == index && !step.despawn,
        finished ==> step.index == next_frame(*anim, index as int) && step.despawn == ends_cycle(*anim, index),
{
    if !finished {
        return FrameStep { index, despawn: false };
    }
    let despawn = !anim.repeat && anim.frames == (index as u32) - anim.start_index + 1;
    let next = ((index - anim.start_index as usize) + 1) % (anim.frames as usize) + anim.start_index as usize;
    FrameStep { index: next, despawn }
}

/// An animated sprite never leaves its cycle: the image after one inside
/// the cycle is inside it too.
pub proof fn lemma_next_frame_in_cycle(anim: AnimationFrames, index: int)
    requires
        in_cycle(anim, index),
    ensures
        in_cycle(anim, next_frame(anim, index)),
{
    vstd::arithmetic::div_mod::lemma_mod_bound(index - anim.start_index + 1, anim.frames as int);
}

/// After `k` finished ticks, a sprite that started at image `index` of its
/// cycle shows image `start + (index - start + k) mod frames`.
pub proof fn lemma_frame_after(anim: AnimationFrames, index: int, k: nat)
    requires
        in_cycle(anim, index),
    ensures
        frame_after(anim, index, k) == anim.start_index + (index - anim.start_index + k) % (anim.frames as int),
    decreases k,
{
    let f = anim.frames as int;
    let a = index - anim.start_index;
    if k == 0 {
        vstd::arithmetic::div_mod::lemma_small_mod(a as nat, f as nat);
    } else {
        lemma_frame_after(anim, index, (k - 1) as nat);
        let m = a + k - 1;
        vstd::arithmetic::div_mod::lemma_mod_bound(m, f);
        vstd::arithmetic::div_mod::lemma_add_mod_noop(m, 1, f);
        if f == 1 {
            vstd::arithmetic::div_mod::lemma_mod_bound(m % f + 1, f);
            vstd::arithmetic::div_mod::lemma_mod_bound(m + 1, f);
        } else {
            vstd::arithmetic::div_mod::lemma_small_mod(1, f as nat);
        }
    }
}

/// A repeating animation comes back to the image it started on after as
/// many finished ticks as its cycle has images.
pub proof fn lemma_cycle_returns(anim: AnimationFrames, index: int)
    requires
        in_cycle(anim, index),
    ensures
        frame_after(anim, index, anim.frames as nat) == index,
{
    let f = anim.frames as int;
    let a = index - anim.start_index;
    lemma_frame_after(anim, index, anim.frames as nat);
    vstd::arithmetic::div_mod::lemma_mod_add_multiples_vanish(a, f);
    vstd::arithmetic::div_mod::lemma_small_mod(a as nat, f as nat);
}

/// A non-repeating animation is despawned exactly when the sprite shows the
/// last image of its cycle (for images that a `u32` can number).
pub proof fn lemma_despawn_on_last_frame(anim: AnimationFrames, index: usize)
    requires
        !anim.repeat,
        in_cycle(anim, index as int),
        index <= u32::MAX,
    ensures
        ends_cycle(anim, index) <==> index == anim.start_index + anim.frames - 1,
{
    assert((index as u32) as int == index as int);
}

/// A non-repeating animation that starts on the first image of its cycle is
/// despawned on exactly the `frames`-th finished tick: the `j`-th finished
/// tick (counting from one) looks at image `frame_after(start, j - 1)`, and
/// only the last of the first `frames` ones ends the cycle.
pub proof fn lemma_despawn_on_frames_th_tick(anim: AnimationFrames)
    requires
        !anim.repeat,
        anim.frames > 0,
        anim.start_index + anim.frames - 1 <= u32::MAX,
    ensures
        forall|k: nat| #![trigger frame_after(anim, anim.start_index as int, k)]
            k < anim.frames - 1 ==> !ends_cycle(anim, frame_after(anim, anim.start_index as int, k) as usize),
        ends_cycle(anim, frame_after(anim, anim.start_index as int, (anim.frames - 1) as nat) as usize),
{
    let start = anim.start_index as int;
    assert forall|k: nat| #![trigger frame_after(anim, start, k)]
        k < anim.frames implies frame_after(anim, start, k) == start + k && (frame_after(anim, start, k) as usize) as int == start + k by {
        lemma_frame_after(anim, start, k);
        vstd::arithmetic::div_mod::lemma_small_mod(k, anim.frames as nat);
    }
    assert forall|k: nat| #![trigger frame_after(anim, start, k)]
        k < anim.frames - 1 implies !ends_cycle(anim, frame_after(anim, start, k) as usize) by {
        lemma_despawn_on_last_frame(anim, (start + k) as usize);
    }
    let last = (anim.frames - 1) as nat;
    assert(frame_after(anim, start, last) == start + last);
    lemma_despawn_on_last_frame(anim, (start + last) as usize);
}

/// A repeating animation is never despawned, whatever image it shows.
pub proof fn lemma_repeating_never_despawns(anim: AnimationFrames, index: usize)
    requires
        anim.repeat,
    ensures
        !ends_cycle(anim, index),
{
}

/// The image after one inside the cycle is the one with the next number,
/// except after the cycle's last image, which is followed by its first.
pub proof fn lemma_next_frame_steps(anim: AnimationFrames, index: int)
    requires
        in_cycle(anim, index),
    ensures
        index < anim.start_index + anim.frames - 1 ==> next_frame(anim, index) == index + 1,
        index == anim.start_index + anim.frames - 1 ==> next_frame(anim, index) == anim.start_index,
{
    let a = index - anim.start_index;
    let f = anim.frames as int;
    if a + 1 < f {
        vstd::arithmetic::div_mod::lemma_small_mod((a + 1) as nat, f as nat);
    } else {
        assert((a + 1) % f == 0) by {
            vstd::arithmetic::div_mod::lemma_mod_add_multiples_vanish(0, f);
        }
    }
}

} // verus!
