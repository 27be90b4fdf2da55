//! Game rules of a space-invaders style arcade game: the classic marching
//! formation, the starting grid of aliens, sprite-sheet animation cycles,
//! the player's steering and firing, and the bolt's lifetime.
//!
//! Everything here works on integers; drawing, input, timers and the
//! floating-point motion of the game live in the program around it.

mod chance;

pub mod march;
pub mod animation;
pub mod formation;
pub mod player;
pub mod bolt;
