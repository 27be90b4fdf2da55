//! The classic marching formation: every alien of the formation moves one
//! unit per frame in a direction shared by the whole formation, and the
//! direction turns around when an alien reaches the side of the window.
use vstd::prelude::*;

use crate::chance::random_in_range;

verus! {

/// Half the window's width: the formation turns at `-HALF_WIDTH` and
/// `HALF_WIDTH`.
pub const HALF_WIDTH: i64 = 800;

/// Upper end of the roll that each marching alien makes every frame.
pub const LEAVE_ROLL_MAX: i32 = 10000;

/// The roll on which an alien leaves the formation to fly in circles.
pub const LEAVE_ROLL: i32 = 2;

/// Direction in which the classic formation marches.
#[derive(Clone, Copy, Debug, PartialEq, Eq, Structural)]
pub enum MarchDir {
    Left,
    Right,
}

/// The formation's shared marching state.
#[derive(Clone, Copy, Debug)]
pub struct ClassicMarch {
    pub direction: MarchDir,
}

/// Horizontal step of one frame in direction `dir`.
pub open spec fn step_of(dir: MarchDir) -> int {
    match dir {
        MarchDir::Left => -1,
        MarchDir::Right => 1,
    }
}

/// The direction after an alien at `x` has been looked at: it turns left at
/// or beyond the right side, right at or beyond the left side.
pub open spec fn turn_at(dir: MarchDir, x: int) -> MarchDir {
    if x >= HALF_WIDTH {
        MarchDir::Left
    } else if x <= -HALF_WIDTH {
        MarchDir::Right
    } else {
        dir
    }
}

/// The shared direction after the aliens at `xs` have been looked at, in
/// order, starting from `dir`.
pub open spec fn direction_after(dir: MarchDir, xs: Seq<i64>) -> MarchDir
    decreases xs.len(),
{
    if xs.len() == 0 {
        dir
    } else {
        turn_at(direction_after(dir, xs.drop_last()), xs.last() as int)
    }
}

/// Where the aliens at `xs` stand after one marching frame that starts with
/// direction `dir`: each one moves by the direction in force once it has
/// been looked at itself.
pub open spec fn marched(dir: MarchDir, xs: Seq<i64>) -> Seq<int> {
    Seq::new(xs.len(), |i: int| xs[i] + step_of(direction_after(dir, xs.take(i + 1))))
}

/// Whether an alien leaves the formation on roll `roll`.
pub open spec fn leaves_on(roll: i32) -> bool {
    roll == LEAVE_ROLL
}

impl ClassicMarch {
    /// The frame's displacement `(x, y, z)` in the current direction.
    pub fn vec3(self) -> (v: (i64, i64, i64))
        ensures
            v.0 == step_of(self.direction),
            v.1 == 0,
            v.2 == 0,
    {
        match self.direction {
            MarchDir::Left => (-1, 0, 0),
            MarchDir::Right => (1, 0, 0),
        }
    }
}

/// Whether an alien that rolled `roll` leaves the formation.
pub fn leaves_formation(roll: i32) -> (leaves: bool)
    ensures
        leaves == leaves_on(roll),
{
    roll == LEAVE_ROLL
}

proof fn lemma_direction_after_take(dir: MarchDir, xs: Seq<i64>, i: int)
    requires
        0 <= i < xs.len(),
    ensures
        direction_after(dir, xs.take(i + 1)) == turn_at(direction_after(dir, xs.take(i)), xs[i] as int),
{
    assert(xs.take(i + 1).drop_last() =~= xs.take(i));
}

/// Marches the formation by one frame with the rolls already drawn: `xs[i]`
/// is the horizontal position of the `i`-th alien, `rolls[i]` its roll.
/// The positions are moved in place, the shared direction is updated, and
/// the result tells, for each alien, whether it leaves the formation.
pub fn march_with_rolls(classic_march: &mut ClassicMarch, xs: &mut Vec<i64>, rolls: &Vec<i32>) -> (leave: Vec<bool>)
    requires
        old(xs).len() == rolls.len(),
    ensures
        final(xs)@.len() == old(xs)@.len(),
        forall|i: int| 0 <= i < old(xs)@.len() ==> final(xs)@[i] == #[trigger] marched(old(classic_march).direction, old(xs)@)[i],
        final(classic_march).direction == direction_after(old(classic_march).direction, old(xs)@),
        leave@.len() == rolls@.len(),
        forall|i: int| 0 <= i < rolls@.len() ==> leave@[i] == leaves_on(#[trigger] rolls@[i]),
{
    let ghost dir0 = classic_march.direction;
    let ghost xs0 = xs@;
    let mut leave: Vec<bool> = Vec::new();
    let n = xs.len();
    let mut i: usize = 0;
    while i < n
        invariant
            n == xs@.len(),
            n == xs0.len(),
            n == rolls@.len(),
            0 <= i <= n,
            classic_march.direction == direction_after(dir0, xs0.take(i as int)),
            forall|j: int| i <= j < n ==> xs@[j] == xs0[j],
            forall|j: int| 0 <= j < i ==> xs@[j] == #[trigger] marched(dir0, xs0)[j],
            leave@.len() == i,
            forall|j: int| 0 <= j < i ==> leave@[j] == leaves_on(#[trigger] rolls@[j]),
        decreases n - i,
    {
        let x = xs[i];
        proof {
            lemma_direction_after_take(dir0, xs0, i as int);
        }
        if x >= HALF_WIDTH {
            classic_march.direction = MarchDir::Left;
        } else if x <= -HALF_WIDTH {
            classic_march.direction = MarchDir::Right;
        }
        let new_x = match classic_march.direction {
            MarchDir::Left => x - 1,
            MarchDir::Right => x + 1,
        };
        xs.set(i, new_x);
        leave.push(leaves_formation(rolls[i]));
        i = i + 1;
    }
    proof {
        assert(xs0.take(n as int) =~= xs0);
    }
    leave
}

/// Marches the classic formation by one frame: `xs[i]` is the horizontal
/// position of the `i`-th marching alien. Each alien rolls `0..=10000`; the
/// result holds, for each alien, whether it leaves the formation, and the
/// roll it drew. The positions and the direction do not depend on the rolls.
pub fn move_alien_classic(classic_march: &mut ClassicMarch, xs: &mut Vec<i64>) -> (result: (Vec<bool>, Vec<i32>))
    ensures
        final(xs)@.len() == old(xs)@.len(),
        forall|i: int| 0 <= i < old(xs)@.len() ==> final(xs)@[i] == #[trigger] marched(old(classic_march).direction, old(xs)@)[i],
        final(classic_march).direction == direction_after(old(classic_march).direction, old(xs)@),
        result.0@.len() == old(xs)@.len(),
        result.1@.len() == old(xs)@.len(),
        forall|i: int| 0 <= i < result.1@.len() ==> 0 <= #[trigger] result.1@[i] <= LEAVE_ROLL_MAX,
        forall|i: int| 0 <= i < result.1@.len() ==> result.0@[i] == leaves_on(#[trigger] result.1@[i]),
{
    let mut rolls: Vec<i32> = Vec::new();
    let n = xs.len();
    let mut i: usize = 0;
    while i < n
        invariant
            0 <= i <= n,
            rolls@.len() == i,
            forall|j: int| 0 <= j < i ==> 0 <= #[trigger] rolls@[j] <= LEAVE_ROLL_MAX,
        decreases n - i,
    {
        rolls.push(random_in_range(0, LEAVE_ROLL_MAX));
        i = i + 1;
    }
    let leave = march_with_rolls(classic_march, xs, &rolls);
    (leave, rolls)
}

/// In one marching frame every alien of the formation moves by exactly one
/// unit, and a formation that stands inside the window (between the two
/// turning sides, both included) is still inside it afterwards.
pub proof fn lemma_march_stays_in_window(dir: MarchDir, xs: Seq<i64>)
    requires
        forall|i: int| 0 <= i < xs.len() ==> -HALF_WIDTH <= #[trigger] xs[i] <= HALF_WIDTH,
    ensures
        marched(dir, xs).len() == xs.len(),
        forall|i: int| 0 <= i < xs.len() ==> -HALF_WIDTH <= #[trigger] marched(dir, xs)[i] <= HALF_WIDTH,
{
    assert forall|i: int| 0 <= i < xs.len() implies -HALF_WIDTH <= #[trigger] marched(dir, xs)[i] <= HALF_WIDTH by {
        lemma_direction_after_take(dir, xs, i);
    }
}

/// Every alien moves by exactly one unit in each marching frame.
pub proof fn lemma_march_moves_one_unit(dir: MarchDir, xs: Seq<i64>)
    ensures
        forall|i: int| 0 <= i < xs.len() ==> #[trigger] marched(dir, xs)[i] == xs[i] + 1 || marched(dir, xs)[i] == xs[i] - 1,
{
}

/// While no alien touches either side of the window the formation keeps
/// its direction.
pub proof fn lemma_march_keeps_direction_inside(dir: MarchDir, xs: Seq<i64>)
    requires
        forall|i: int| 0 <= i < xs.len() ==> -HALF_WIDTH < #[trigger] xs[i] < HALF_WIDTH,
    ensures
        direction_after(dir, xs) == dir,
    decreases xs.len(),
{
    if xs.len() > 0 {
        lemma_march_keeps_direction_inside(dir, xs.drop_last());
    }
}

/// An alien at or beyond the right side turns the formation left, and one
/// at or beyond the left side turns it right, whatever the aliens before it
/// did; the last alien that touched a side decides the direction.
pub proof fn lemma_march_turns_at_sides(dir: MarchDir, xs: Seq<i64>)
    requires
        xs.len() > 0,
    ensures
        xs.last() >= HALF_WIDTH ==> direction_after(dir, xs) == MarchDir::Left,
        xs.last() <= -HALF_WIDTH ==> direction_after(dir, xs) == MarchDir::Right,
{
}

proof fn lemma_turned_left_stays_left(dir: MarchDir, xs: Seq<i64>, i: int, j: int)
    requires
        0 <= i <= j < xs.len(),
        xs[i] >= HALF_WIDTH,
        forall|k: int| i < k <= j ==> #[trigger] xs[k] > -HALF_WIDTH,
    ensures
        direction_after(dir, xs.take(j + 1)) == MarchDir::Left,
    decreases j - i,
{
    lemma_direction_after_take(dir, xs, j);
    if j > i {
        lemma_turned_left_stays_left(dir, xs, i, j - 1);
    }
}

proof fn lemma_turned_right_stays_right(dir: MarchDir, xs: Seq<i64>, i: int, j: int)
    requires
        0 <= i <= j < xs.len(),
        xs[i] <= -HALF_WIDTH,
        forall|k: int| i < k <= j ==> #[trigger] xs[k] < HALF_WIDTH,
    ensures
        direction_after(dir, xs.take(j + 1)) == MarchDir::Right,
    decreases j - i,
{
    lemma_direction_after_take(dir, xs, j);
    if j > i {
        lemma_turned_right_stays_right(dir, xs, i, j - 1);
    }
}

proof fn lemma_untouched_keeps_start(dir: MarchDir, xs: Seq<i64>, j: int)
    requires
        0 <= j < xs.len(),
        forall|k: int| 0 <= k <= j ==> -HALF_WIDTH < #[trigger] xs[k] < HALF_WIDTH,
    ensures
        direction_after(dir, xs.take(j + 1)) == dir,
    decreases j,
{
    lemma_direction_after_take(dir, xs, j);
    if j > 0 {
        lemma_untouched_keeps_start(dir, xs, j - 1);
    } else {
        assert(xs.take(0) =~= Seq::<i64>::empty());
    }
}

/// Once an alien at or beyond the right side has been looked at, it and
/// every later alien of the same pass move one unit left, up to the next
/// alien at or beyond the left side.
pub proof fn lemma_march_left_after_right_side(dir: MarchDir, xs: Seq<i64>, i: int, j: int)
    requires
        0 <= i <= j < xs.len(),
        xs[i] >= HALF_WIDTH,
        forall|k: int| i < k <= j ==> #[trigger] xs[k] > -HALF_WIDTH,
    ensures
        marched(dir, xs)[j] == xs[j] - 1,
{
    lemma_turned_left_stays_left(dir, xs, i, j);
}

/// Once an alien at or beyond the left side has been looked at, it and
/// every later alien of the same pass move one unit right, up to the next
/// alien at or beyond the right side.
pub proof fn lemma_march_right_after_left_side(dir: MarchDir, xs: Seq<i64>, i: int, j: int)
    requires
        0 <= i <= j < xs.len(),
        xs[i] <= -HALF_WIDTH,
        forall|k: int| i < k <= j ==> #[trigger] xs[k] < HALF_WIDTH,
    ensures
        marched(dir, xs)[j] == xs[j] + 1,
{
    lemma_turned_right_stays_right(dir, xs, i, j);
}

/// While no alien so far in the pass has touched a side, each alien moves
/// one unit in the direction the frame started with.
pub proof fn lemma_march_before_any_side(dir: MarchDir, xs: Seq<i64>, j: int)
    requires
        0 <= j < xs.len(),
        forall|k: int| 0 <= k <= j ==> -HALF_WIDTH < #[trigger] xs[k] < HALF_WIDTH,
    ensures
        dir == MarchDir::Right ==> marched(dir, xs)[j] == xs[j] + 1,
        dir == MarchDir::Left ==> marched(dir, xs)[j] == xs[j] - 1,
{
    lemma_untouched_keeps_start(dir, xs, j);
}

/// At the end of a pass the formation marches left if some alien touched the
/// right side and no later one touched the left side, and right in the
/// mirrored case.
pub proof fn lemma_march_final_direction(dir: MarchDir, xs: Seq<i64>, i: int)
    requires
        0 <= i < xs.len(),
    ensures
        (xs[i] >= HALF_WIDTH && forall|k: int| i < k < xs.len() ==> #[trigger] xs[k] > -HALF_WIDTH)
            ==> direction_after(dir, xs) == MarchDir::Left,
        (xs[i] <= -HALF_WIDTH && forall|k: int| i < k < xs.len() ==> #[trigger] xs[k] < HALF_WIDTH)
            ==> direction_after(dir, xs) == MarchDir::Right,
{
    assert(xs.take(xs.len() as int) =~= xs);
    if xs[i] >= HALF_WIDTH && forall|k: int| i < k < xs.len() ==> #[trigger] xs[k] > -HALF_WIDTH {
        lemma_turned_left_stays_left(dir, xs, i, xs.len() - 1);
    }
    if xs[i] <= -HALF_WIDTH && forall|k: int| i < k < xs.len() ==> #[trigger] xs[k] < HALF_WIDTH {
        lemma_turned_right_stays_right(dir, xs, i, xs.len() - 1);
    }
}

} // verus!
