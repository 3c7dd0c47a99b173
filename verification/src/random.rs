//! The substitute direction used when two nodes sit on the same point: a
//! random compass direction, so coincident nodes still push each other apart.

use vstd::prelude::*;

use crate::geom::Vec2;
use crate::node::valid_dir;

verus! {

/// Relies on rand::random: draws a value from the thread-local generator;
/// nothing is promised of the result.
pub assume_specification<T>[ rand::random::<T> ]() -> (r: T)
    where
        rand::distributions::Standard: rand::distributions::Distribution<T>,
;

/// Sixteen compass directions: approximate unit vectors scaled by the
/// direction norm, one for each sixteenth of the full turn.
pub open spec fn dir_table_spec(i: int) -> Vec2 {
    let k = i % 16;
    if k == 0 {
        Vec2 { x: 1000, y: 0 }
    } else if k == 1 {
        Vec2 { x: 924, y: 383 }
    } else if k == 2 {
        Vec2 { x: 707, y: 707 }
    } else if k == 3 {
        Vec2 { x: 383, y: 924 }
    } else if k == 4 {
        Vec2 { x: 0, y: 1000 }
    } else if k == 5 {
        Vec2 { x: -383i64, y: 924 }
    } else if k == 6 {
        Vec2 { x: -707i64, y: 707 }
    } else if k == 7 {
        Vec2 { x: -924i64, y: 383 }
    } else if k == 8 {
        Vec2 { x: -1000i64, y: 0 }
    } else if k == 9 {
        Vec2 { x: -924i64, y: -383i64 }
    } else if k == 10 {
        Vec2 { x: -707i64, y: -707i64 }
    } else if k == 11 {
        Vec2 { x: -383i64, y: -924i64 }
    } else if k == 12 {
        Vec2 { x: 0, y: -1000i64 }
    } else if k == 13 {
        Vec2 { x: 383, y: -924i64 }
    } else if k == 14 {
        Vec2 { x: 707, y: -707i64 }
    } else {
        Vec2 { x: 924, y: -383i64 }
    }
}

/// The compass direction a draw maps to.
pub fn fallback_direction(r: u32) -> (dir: Vec2)
    ensures
        dir == dir_table_spec(r as int),
        valid_dir(dir),
{
    let k = r % 16;
    if k == 0 {
        Vec2 { x: 1000, y: 0 }
    } else if k == 1 {
        Vec2 { x: 924, y: 383 }
    } else if k == 2 {
        Vec2 { x: 707, y: 707 }
    } else if k == 3 {
        Vec2 { x: 383, y: 924 }
    } else if k == 4 {
        Vec2 { x: 0, y: 1000 }
    } else if k == 5 {
        Vec2 { x: -383, y: 924 }
    } else if k == 6 {
        Vec2 { x: -707, y: 707 }
    } else if k == 7 {
        Vec2 { x: -924, y: 383 }
    } else if k == 8 {
        Vec2 { x: -1000, y: 0 }
    } else if k == 9 {
        Vec2 { x: -924, y: -383 }
    } else if k == 10 {
        Vec2 { x: -707, y: -707 }
    } else if k == 11 {
        Vec2 { x: -383, y: -924 }
    } else if k == 12 {
        Vec2 { x: 0, y: -1000 }
    } else if k == 13 {
        Vec2 { x: 383, y: -924 }
    } else if k == 14 {
        Vec2 { x: 707, y: -707 }
    } else {
        Vec2 { x: 924, y: -383 }
    }
}

/// Draw a random compass direction for a coincident node pair.
pub fn random_direction() -> (dir: Vec2)
    ensures
        valid_dir(dir),
{
    let r: u32 = rand::random();
    fallback_direction(r)
}

} // verus!
