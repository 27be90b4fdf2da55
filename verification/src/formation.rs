//! The starting grid of the alien formation: five rows of twenty aliens,
//! fifty units apart, whose animations alternate like a checkerboard.
use vstd::prelude::*;

use crate::chance::random_in_range;

verus! {

/// Rows of the starting formation.
pub const ROWS: i32 = 5;

/// Aliens in each row of the starting formation.
pub const COLUMNS: i32 = 20;

/// Distance between neighbouring aliens.
pub const SPACING: i32 = 50;

/// Images in each alien's animation cycle.
pub const ALIEN_FRAMES: u32 = 2;

/// Smallest and largest scale an alien is drawn at.
pub const MIN_SCALE: i32 = 2;
pub const MAX_SCALE: i32 = 4;

/// Half the window's height.
pub const HALF_HEIGHT: i32 = 450;

/// One alien of the starting formation: its place in the grid, its
/// animation cycle and its position.
#[derive(Clone, Copy, Debug, PartialEq, Eq, Structural)]
pub struct FormationSlot {
    pub row: i32,
    pub column: i32,
    pub frames: u32,
    pub start_index: u32,
    pub x: i32,
    pub y: i32,
}

/// An alien ready to be spawned: its slot, the scale it is drawn at and the
/// image its sprite starts on.
#[derive(Clone, Copy, Debug)]
pub struct AlienSpawn {
    pub slot: FormationSlot,
    pub scale: i32,
    pub index: usize,
}

/// First image of the animation of the alien at `row`, `column`: the two
/// alien looks alternate like the squares of a checkerboard.
pub open spec fn slot_start(row: int, column: int) -> u32 {
    if (column + row) % 2 == 0 {
        2
    } else {
        0
    }
}

/// Whether `s` is the slot of the alien at `row`, `column`.
pub open spec fn is_slot(s: FormationSlot, row: int, column: int) -> bool {
    &&& s.row == row
    &&& s.column == column
    &&& s.frames == ALIEN_FRAMES
    &&& s.start_index == slot_start(row, column)
    &&& s.x == column * SPACING - 500
    &&& s.y == -row * SPACING + 400
}

/// Whether `row`, `column` is a place of the grid.
pub open spec fn in_grid(row: int, column: int) -> bool {
    0 <= row < ROWS && 0 <= column < COLUMNS
}

/// Whether `v` lists the whole grid row by row, left to right.
pub open spec fn is_formation(v: Seq<FormationSlot>) -> bool {
    &&& v.len() == ROWS * COLUMNS
    &&& forall|k: int| 0 <= k < v.len() ==> is_slot(#[trigger] v[k], k / COLUMNS as int, k % COLUMNS as int)
}

impl FormationSlot {
    /// The image an alien of this slot shows when it is spawned: the first
    /// image of its animation cycle.
    pub fn first_image(&self) -> (index: usize)
        ensures
            index == self.start_index,
    {
        self.start_index as usize
    }
}

/// The slot of the alien at `row`, `column` of the grid.
pub fn formation_slot(row: i32, column: i32) -> (s: FormationSlot)
    requires
        in_grid(row as int, column as int),
    ensures
        is_slot(s, row as int, column as int),
{
    let start_index: u32 = if (column + row) % 2 == 0 { 2 } else { 0 };
    FormationSlot {
        row,
        column,
        frames: ALIEN_FRAMES,
        start_index,
        x: column * SPACING - 500,
        y: -row * SPACING + 400,
    }
}

proof fn lemma_grid_index(row: int, column: int)
    requires
        in_grid(row, column),
    ensures
        (row * COLUMNS + column) / (COLUMNS as int) == row,
        (row * COLUMNS + column) % (COLUMNS as int) == column,
{
    assert((row * 20 + column) / 20 == row && (row * 20 + column) % 20 == column) by (nonlinear_arith)
        requires
            0 <= row,
            0 <= column < 20,
    ;
}

/// The whole starting grid, row by row and left to right within a row.
pub fn alien_formation() -> (v: Vec<FormationSlot>)
    ensures
        is_formation(v@),
{
    let mut v: Vec<FormationSlot> = Vec::new();
    let mut row: i32 = 0;
    while row < ROWS
        invariant
            0 <= row <= ROWS,
            v@.len() == row * COLUMNS,
            forall|k: int| 0 <= k < v@.len() ==> is_slot(#[trigger] v@[k], k / COLUMNS as int, k % COLUMNS as int),
        decreases ROWS - row,
    {
        let mut column: i32 = 0;
        while column < COLUMNS
            invariant
                0 <= row < ROWS,
                0 <= column <= COLUMNS,
                v@.len() == row * COLUMNS + column,
                forall|k: int| 0 <= k < v@.len() ==> is_slot(#[trigger] v@[k], k / COLUMNS as int, k % COLUMNS as int),
            decreases COLUMNS - column,
        {
            proof {
                lemma_grid_index(row as int, column as int);
            }
            v.push(formation_slot(row, column));
            column = column + 1;
        }
        row = row + 1;
    }
    v
}

/// The alien of `slot`, with the scale it is drawn at rolled uniformly from
/// `2..=4`, starting on the first image of its animation cycle.
pub fn spawn_alien(slot: FormationSlot) -> (a: AlienSpawn)
    ensures
        a.slot == slot,
        MIN_SCALE <= a.scale <= MAX_SCALE,
        a.index == slot.start_index,
{
    let scale = random_in_range(MIN_SCALE, MAX_SCALE);
    let index = slot.first_image();
    AlienSpawn { slot, scale, index }
}

/// Every alien of the starting grid stands inside the window, at least one
/// spacing away from its sides.
pub proof fn lemma_formation_inside_window(v: Seq<FormationSlot>)
    requires
        is_formation(v),
    ensures
        forall|k: int| 0 <= k < v.len() ==> {
            &&& -crate::march::HALF_WIDTH + SPACING <= #[trigger] v[k].x <= crate::march::HALF_WIDTH - SPACING
            &&& -HALF_HEIGHT + SPACING <= v[k].y <= HALF_HEIGHT - SPACING
        },
{
    assert forall|k: int| 0 <= k < v.len() implies {
        &&& -crate::march::HALF_WIDTH + SPACING <= #[trigger] v[k].x <= crate::march::HALF_WIDTH - SPACING
        &&& -HALF_HEIGHT + SPACING <= v[k].y <= HALF_HEIGHT - SPACING
    } by {
        vstd::arithmetic::div_mod::lemma_mod_bound(k, COLUMNS as int);
        assert(0 <= k / 20 < 5) by (nonlinear_arith)
            requires
                0 <= k < 100,
        ;
    }
}

/// No two aliens of the starting grid stand at the same place.
pub proof fn lemma_formation_places_distinct(v: Seq<FormationSlot>)
    requires
        is_formation(v),
    ensures
        forall|i: int, j: int|
            0 <= i < v.len() && 0 <= j < v.len() && i != j ==> (#[trigger] v[i].x != #[trigger] v[j].x || v[i].y != v[j].y),
{
    assert forall|i: int, j: int|
        0 <= i < v.len() && 0 <= j < v.len() && i != j implies (#[trigger] v[i].x != #[trigger] v[j].x || v[i].y != v[j].y) by {
        vstd::arithmetic::div_mod::lemma_fundamental_div_mod(i, COLUMNS as int);
        vstd::arithmetic::div_mod::lemma_fundamental_div_mod(j, COLUMNS as int);
    }
}

/// Neighbours in the starting grid, in a row or in a column, start their
/// animations on different images.
pub proof fn lemma_formation_checkerboard(s: FormationSlot, t: FormationSlot, row: int, column: int)
    requires
        is_slot(s, row, column),
        is_slot(t, row, column + 1) || is_slot(t, row + 1, column),
    ensures
        s.start_index != t.start_index,
{
}

/// Every alien of the grid shows one of the two alien looks: it starts on
/// image 2 when its row and column add up to an even number, on image 0
/// when they add up to an odd one.
pub proof fn lemma_slot_look(s: FormationSlot, row: int, column: int)
    requires
        is_slot(s, row, column),
    ensures
        (row + column) % 2 == 0 ==> s.start_index == 2,
        (row + column) % 2 == 1 ==> s.start_index == 0,
        s.start_index == 0 || s.start_index == 2,
{
}

} // verus!
