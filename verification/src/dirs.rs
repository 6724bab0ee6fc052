//! The eight-direction compass of the square lattice, its reversal rule, and
//! the two fixed transform tables that say how a bond direction changes when
//! one of its endpoints slides one cell.

use vstd::prelude::*;

verus! {

/// One of 8 possible directions (0..=7), or the sentinel `DIR_NO`.
pub type Dir = u8;

/// Sentinel: no direction. Distinct from all 8 compass points.
pub const DIR_NO: Dir = 255;
pub const DIR_LEFT_UP: Dir = 0;
pub const DIR_UP: Dir = 1;
pub const DIR_UP_RIGHT: Dir = 2;
pub const DIR_RIGHT: Dir = 3;
pub const DIR_RIGHT_DOWN: Dir = 4;
pub const DIR_DOWN: Dir = 5;
pub const DIR_DOWN_LEFT: Dir = 6;
pub const DIR_LEFT: Dir = 7;

/// Amount of possible directions.
pub const DIRS_LEN: usize = 8;

/// Reversal rule of the compass: the direction pointing back.
pub open spec fn spec_rev_dir(d: int) -> int {
    (d + 4) % 8
}

/// Returns the opposite direction: `(d + 4) mod 8`.
pub fn rev_dir(d: Dir) -> (r: Dir)
    requires
        d < 8,
    ensures
        r == spec_rev_dir(d as int),
        r < 8,
{
    (d + 4) % 8
}

/// Reversing a direction twice gives it back, and no direction is its own
/// reverse.
pub proof fn lemma_rev_dir_involution(d: int)
    requires
        0 <= d < 8,
    ensures
        spec_rev_dir(spec_rev_dir(d)) == d,
        spec_rev_dir(d) != d,
{
}

/// New bond direction, on the atom that slides one cell towards `dir`, of a
/// bond that pointed towards `d0` before the slide; `DIR_NO` when the bonded
/// neighbour ends up farther than one cell away.
pub open spec fn spec_dir_mov_atom(d0: int, dir: int) -> int {
    if d0 == 0 && dir == 1 { 7 }
    else if d0 == 0 && dir == 7 { 1 }
    else if d0 == 1 && dir == 0 { 3 }
    else if d0 == 1 && dir == 2 { 7 }
    else if d0 == 1 && dir == 3 { 0 }
    else if d0 == 1 && dir == 7 { 2 }
    else if d0 == 2 && dir == 1 { 3 }
    else if d0 == 2 && dir == 3 { 1 }
    else if d0 == 3 && dir == 1 { 4 }
    else if d0 == 3 && dir == 2 { 5 }
    else if d0 == 3 && dir == 4 { 1 }
    else if d0 == 3 && dir == 5 { 2 }
    else if d0 == 4 && dir == 3 { 5 }
    else if d0 == 4 && dir == 5 { 3 }
    else if d0 == 5 && dir == 3 { 6 }
    else if d0 == 5 && dir == 4 { 7 }
    else if d0 == 5 && dir == 6 { 3 }
    else if d0 == 5 && dir == 7 { 4 }
    else if d0 == 6 && dir == 5 { 7 }
    else if d0 == 6 && dir == 7 { 5 }
    else if d0 == 7 && dir == 0 { 5 }
    else if d0 == 7 && dir == 1 { 6 }
    else if d0 == 7 && dir == 5 { 0 }
    else if d0 == 7 && dir == 6 { 1 }
    else { DIR_NO as int }
}

/// New bond direction, on the stationary neighbour of an atom that slides one
/// cell towards `dir`, of a bond that pointed towards `d0` before the slide;
/// `DIR_NO` when the atoms end up farther than one cell apart.
pub open spec fn spec_dir_near_atom(d0: int, dir: int) -> int {
    if d0 == 0 && dir == 3 { 1 }
    else if d0 == 0 && dir == 5 { 7 }
    else if d0 == 1 && dir == 3 { 2 }
    else if d0 == 1 && dir == 4 { 3 }
    else if d0 == 1 && dir == 6 { 7 }
    else if d0 == 1 && dir == 7 { 0 }
    else if d0 == 2 && dir == 5 { 3 }
    else if d0 == 2 && dir == 7 { 1 }
    else if d0 == 3 && dir == 0 { 1 }
    else if d0 == 3 && dir == 1 { 2 }
    else if d0 == 3 && dir == 5 { 4 }
    else if d0 == 3 && dir == 6 { 5 }
    else if d0 == 4 && dir == 1 { 3 }
    else if d0 == 4 && dir == 7 { 5 }
    else if d0 == 5 && dir == 0 { 7 }
    else if d0 == 5 && dir == 2 { 3 }
    else if d0 == 5 && dir == 3 { 4 }
    else if d0 == 5 && dir == 7 { 6 }
    else if d0 == 6 && dir == 1 { 7 }
    else if d0 == 6 && dir == 3 { 5 }
    else if d0 == 7 && dir == 1 { 0 }
    else if d0 == 7 && dir == 2 { 1 }
    else if d0 == 7 && dir == 4 { 5 }
    else if d0 == 7 && dir == 5 { 6 }
    else { DIR_NO as int }
}

/// Looks up the moved atom's transform table.
pub fn dir_mov_atom(d0: Dir, dir: Dir) -> (r: Dir)
    requires
        d0 < 8,
        dir < 8,
    ensures
        r == spec_dir_mov_atom(d0 as int, dir as int),
        r < 8 || r == DIR_NO,
{
    if d0 == 0 && dir == 1 { 7 }
    else if d0 == 0 && dir == 7 { 1 }
    else if d0 == 1 && dir == 0 { 3 }
    else if d0 == 1 && dir == 2 { 7 }
    else if d0 == 1 && dir == 3 { 0 }
    else if d0 == 1 && dir == 7 { 2 }
    else if d0 == 2 && dir == 1 { 3 }
    else if d0 == 2 && dir == 3 { 1 }
    else if d0 == 3 && dir == 1 { 4 }
    else if d0 == 3 && dir == 2 { 5 }
    else if d0 == 3 && dir == 4 { 1 }
    else if d0 == 3 && dir == 5 { 2 }
    else if d0 == 4 && dir == 3 { 5 }
    else if d0 == 4 && dir == 5 { 3 }
    else if d0 == 5 && dir == 3 { 6 }
    else if d0 == 5 && dir == 4 { 7 }
    else if d0 == 5 && dir == 6 { 3 }
    else if d0 == 5 && dir == 7 { 4 }
    else if d0 == 6 && dir == 5 { 7 }
    else if d0 == 6 && dir == 7 { 5 }
    else if d0 == 7 && dir == 0 { 5 }
    else if d0 == 7 && dir == 1 { 6 }
    else if d0 == 7 && dir == 5 { 0 }
    else if d0 == 7 && dir == 6 { 1 }
    else { DIR_NO }
}

/// Looks up the stationary neighbour's transform table.
pub fn dir_near_atom(d0: Dir, dir: Dir) -> (r: Dir)
    requires
        d0 < 8,
        dir < 8,
    ensures
        r == spec_dir_near_atom(d0 as int, dir as int),
        r < 8 || r == DIR_NO,
{
    if d0 == 0 && dir == 3 { 1 }
    else if d0 == 0 && dir == 5 { 7 }
    else if d0 == 1 && dir == 3 { 2 }
    else if d0 == 1 && dir == 4 { 3 }
    else if d0 == 1 && dir == 6 { 7 }
    else if d0 == 1 && dir == 7 { 0 }
    else if d0 == 2 && dir == 5 { 3 }
    else if d0 == 2 && dir == 7 { 1 }
    else if d0 == 3 && dir == 0 { 1 }
    else if d0 == 3 && dir == 1 { 2 }
    else if d0 == 3 && dir == 5 { 4 }
    else if d0 == 3 && dir == 6 { 5 }
    else if d0 == 4 && dir == 1 { 3 }
    else if d0 == 4 && dir == 7 { 5 }
    else if d0 == 5 && dir == 0 { 7 }
    else if d0 == 5 && dir == 2 { 3 }
    else if d0 == 5 && dir == 3 { 4 }
    else if d0 == 5 && dir == 7 { 6 }
    else if d0 == 6 && dir == 1 { 7 }
    else if d0 == 6 && dir == 3 { 5 }
    else if d0 == 7 && dir == 1 { 0 }
    else if d0 == 7 && dir == 2 { 1 }
    else if d0 == 7 && dir == 4 { 5 }
    else if d0 == 7 && dir == 5 { 6 }
    else { DIR_NO }
}

/// Both transform tables send a bond that stays in reach to a compass point,
/// never to the sentinel's range edge: a non-`DIR_NO` entry is below 8.
pub proof fn lemma_dir_tables_range(d0: int, dir: int)
    requires
        0 <= d0 < 8,
        0 <= dir < 8,
    ensures
        spec_dir_mov_atom(d0, dir) == DIR_NO as int || 0 <= spec_dir_mov_atom(d0, dir) < 8,
        spec_dir_near_atom(d0, dir) == DIR_NO as int || 0 <= spec_dir_near_atom(d0, dir) < 8,
{
}

} // verus!
