//! The bolts' flight: bolts move each frame until one leaves the window,
//! which is then despawned and ends the frame's pass over the bolts.
use vstd::prelude::*;

verus! {

/// What one frame does to the bolts in flight, listed in order: the first
/// `moved` bolts move on; `despawn`, if any, is the bolt that left the
/// window and is removed; the bolts after it are left as they are.
/// `bolt_exists` is the game's flag that a bolt is in flight.
#[derive(Clone, Copy, Debug)]
pub struct BoltPass {
    pub moved: usize,
    pub despawn: Option<usize>,
    pub bolt_exists: bool,
}

/// Whether `outside[i]` is the first bolt that stands outside the window.
pub open spec fn first_outside(outside: Seq<bool>, i: int) -> bool {
    &&& 0 <= i < outside.len()
    &&& outside[i]
    &&& forall|j: int| 0 <= j < i ==> !#[trigger] outside[j]
}

/// One frame of the bolts' flight. `outside[i]` tells whether the `i`-th
/// bolt stands at or beyond a side of the window. Bolts are moved in order
/// until the first one that is outside; that one is despawned, the flag
/// that a bolt exists is cleared, and the pass ends there.
pub fn move_bolt(bolt_exists: bool, outside: &Vec<bool>) -> (pass: BoltPass)
    ensures
        match pass.despawn {
            Some(i) => {
                &&& first_outside(outside@, i as int)
                &&& pass.moved == i
                &&& !pass.bolt_exists
            },
            None => {
                &&& forall|j: int| 0 <= j < outside@.len() ==> !#[trigger] outside@[j]
                &&& pass.moved == outside@.len()
                &&& pass.bolt_exists == bolt_exists
            },
        },
{
    let n = outside.len();
    let mut i: usize = 0;
    while i < n
        invariant
            n == outside@.len(),
            0 <= i <= n,
            forall|j: int| 0 <= j < i ==> !#[trigger] outside@[j],
        decreases n - i,
    {
        if outside[i] {
            return BoltPass { moved: i, despawn: Some(i), bolt_exists: false };
        }
        i = i + 1;
    }
    BoltPass { moved: n, despawn: None, bolt_exists }
}

} // verus!
