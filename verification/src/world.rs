//! The world: an addressable 2D grid of atoms keyed by a flat offset.
//!
//! Neighbour lookup is a pure function of (offset, direction); the boundary
//! policy of this world is to wrap a flat offset that runs off either end of
//! the cell array around to the other end, so every neighbour offset is again
//! a valid offset.

use vstd::prelude::*;
use crate::atom::{Atom, ATOM_EMPTY, spec_is_atom};
use crate::dirs::Dir;

verus! {

/// Flat offset of one cell in a world.
pub type Offs = isize;

/// Upper bound on the cell count of a world: keeps every offset and every
/// neighbour computation inside `isize` on 32-bit as well as 64-bit machines.
pub const MAX_CELLS: usize = 0x4000_0000;

/// Signed step that a direction adds to a flat offset in a grid `width`
/// cells wide.
pub open spec fn spec_dir_delta(dir: int, width: int) -> int {
    if dir == 0 { -width - 1 }
    else if dir == 1 { -width }
    else if dir == 2 { -width + 1 }
    else if dir == 3 { 1 }
    else if dir == 4 { width + 1 }
    else if dir == 5 { width }
    else if dir == 6 { width - 1 }
    else { -1 }
}

/// Neighbour offset of `offs` towards `dir`, wrapped into `0..size`.
pub open spec fn spec_offs(offs: int, dir: int, width: int, size: int) -> int {
    let r = offs + spec_dir_delta(dir, width);
    if r < 0 { r + size } else if r >= size { r - size } else { r }
}

/// With at least two rows the wrap correction lands every neighbour offset
/// back inside the grid.
pub proof fn lemma_spec_offs_range(offs: int, dir: int, width: int, size: int)
    requires
        0 <= offs < size,
        0 <= dir < 8,
        2 <= width,
        2 * width <= size,
    ensures
        0 <= spec_offs(offs, dir, width, size) < size,
{
}

/// A one-cell step never stays in place: every direction's delta is nonzero
/// and smaller than the grid.
pub proof fn lemma_spec_offs_neq(offs: int, dir: int, width: int, size: int)
    requires
        0 <= offs < size,
        0 <= dir < 8,
        2 <= width,
        2 * width <= size,
    ensures
        spec_offs(offs, dir, width, size) != offs,
{
}

/// The grid. Cells hold packed atoms; value 0 is an empty cell.
pub struct World {
    width: usize,
    height: usize,
    cells: Vec<Atom>,
}

impl View for World {
    type V = Seq<Atom>;

    closed spec fn view(&self) -> Seq<Atom> {
        self.cells@
    }
}

impl World {
    pub closed spec fn spec_width(self) -> int {
        self.width as int
    }

    pub closed spec fn spec_height(self) -> int {
        self.height as int
    }

    /// Well-formed grid: at least 2x2, and the cell array covers exactly
    /// `width * height` offsets, no more than `MAX_CELLS`.
    pub closed spec fn wf(self) -> bool {
        &&& 2 <= self.width
        &&& 2 <= self.height
        &&& self.cells@.len() == self.width * self.height
        &&& self.cells@.len() <= MAX_CELLS
    }

    /// A well-formed grid has at least two full rows, so a one-cell step in
    /// any direction moves by less than the whole grid.
    pub proof fn lemma_wf_size(self)
        requires
            self.wf(),
        ensures
            2 <= self.spec_width(),
            2 * self.spec_width() <= self@.len(),
            self@.len() <= MAX_CELLS,
            4 <= self@.len(),
    {
        assert(2 * self.width <= self.width * self.height
            && 4 <= self.width * self.height) by (nonlinear_arith)
            requires
                2 <= self.width,
                2 <= self.height,
        {}
    }

    /// Creates an empty world of the given dimensions.
    pub fn new(width: usize, height: usize) -> (w: World)
        requires
            2 <= width,
            2 <= height,
            width * height <= MAX_CELLS,
        ensures
            w.wf(),
            w.spec_width() == width,
            w.spec_height() == height,
            w@.len() == width * height,
            forall|i: int| 0 <= i < w@.len() ==> w@[i] == ATOM_EMPTY,
    {
        let size = width * height;
        let mut cells: Vec<Atom> = Vec::new();
        let mut i: usize = 0;
        while i < size
            invariant
                i <= size,
                cells@.len() == i,
                forall|k: int| 0 <= k < i ==> cells@[k] == ATOM_EMPTY,
            decreases size - i,
        {
            cells.push(ATOM_EMPTY);
            i = i + 1;
        }
        World { width, height, cells }
    }

    /// Reads the atom at the given offset.
    pub fn get_atom(&self, offs: Offs) -> (a: Atom)
        requires
            self.wf(),
            0 <= offs < self@.len(),
        ensures
            a == self@[offs as int],
    {
        self.cells[offs as usize]
    }

    /// Writes the atom at the given offset.
    pub fn set_atom(&mut self, offs: Offs, a: Atom)
        requires
            old(self).wf(),
            0 <= offs < old(self)@.len(),
        ensures
            final(self)@ == old(self)@.update(offs as int, a),
            final(self).wf(),
            final(self).spec_width() == old(self).spec_width(),
            final(self).spec_height() == old(self).spec_height(),
    {
        self.cells.set(offs as usize, a);
    }

    /// Whether the cell at the given offset holds an atom.
    pub fn is_atom(&self, offs: Offs) -> (r: bool)
        requires
            self.wf(),
            0 <= offs < self@.len(),
        ensures
            r == spec_is_atom(self@[offs as int]),
    {
        crate::atom::is_atom(self.get_atom(offs))
    }

    /// Neighbour offset of `offs` one cell towards `dir`.
    pub fn get_offs(&self, offs: Offs, dir: Dir) -> (r: Offs)
        requires
            self.wf(),
            0 <= offs < self@.len(),
            dir < 8,
        ensures
            r == spec_offs(offs as int, dir as int, self.spec_width(), self@.len() as int),
            0 <= r < self@.len(),
    {
        proof {
            self.lemma_wf_size();
        }
        let w = self.width as isize;
        let size = self.cells.len() as isize;
        let delta: isize = if dir == 0 { -w - 1 }
            else if dir == 1 { -w }
            else if dir == 2 { -w + 1 }
            else if dir == 3 { 1 }
            else if dir == 4 { w + 1 }
            else if dir == 5 { w }
            else if dir == 6 { w - 1 }
            else { -1 };
        let r = offs + delta;
        if r < 0 { r + size } else if r >= size { r - size } else { r }
    }

    /// Reads the neighbour atom one cell towards `dir`.
    pub fn get_dir_atom(&self, offs: Offs, dir: Dir) -> (a: Atom)
        requires
            self.wf(),
            0 <= offs < self@.len(),
            dir < 8,
        ensures
            a == self@[spec_offs(offs as int, dir as int, self.spec_width(), self@.len() as int)],
    {
        let o = self.get_offs(offs, dir);
        self.get_atom(o)
    }

    /// Relocates the atom at `from` to the empty cell `to`: `to` takes the
    /// atom's value and `from` becomes empty.
    pub fn mov_atom(&mut self, from: Offs, to: Offs)
        requires
            old(self).wf(),
            0 <= from < old(self)@.len(),
            0 <= to < old(self)@.len(),
            from != to,
        ensures
            final(self)@ == old(self)@.update(to as int, old(self)@[from as int])
                .update(from as int, ATOM_EMPTY),
            final(self).wf(),
            final(self).spec_width() == old(self).spec_width(),
            final(self).spec_height() == old(self).spec_height(),
    {
        let a = self.cells[from as usize];
        self.cells.set(to as usize, a);
        self.cells.set(from as usize, ATOM_EMPTY);
    }
}

} // verus!
