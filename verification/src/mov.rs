//! The chain-move state machine: the mathematical model of one `mov` step.
//!
//! A `mov` slides the atom under the VM one cell towards its dir1 direction.
//! When the destination is occupied the occupant is pushed out of the way
//! first, depth first, so a whole blocked chain relocates in one step. After
//! each relocation the moved atom's bonds, and the matching bonds of its
//! stationary neighbours, are transformed by the fixed direction tables; a
//! bonded neighbour that ends up farther than one cell away is pushed onto
//! the traversal stack so that it is dragged along.
//!
//! Two policies of this model are deliberate and documented here:
//! a bond repair only touches a neighbour that is present and actually bonded
//! back towards the moved atom, and a cell is traversed at most once per
//! step: a destination that is blocked by an atom this step has already
//! handled, or that is already scheduled on the stack (a blocking cycle), is
//! marked handled and left standing instead of being chased forever.

use vstd::prelude::*;
use vstd::seq_lib::*;
use vstd::set_lib::*;
use crate::atom::{
    Atom, ATOM_EMPTY, ATOM_IF, spec_type, spec_is_atom, spec_vm_dir, spec_has_vm_bond,
    spec_dir2, spec_has_dir2_bond, spec_set_vm_dir, spec_set_vm_bond, spec_set_dir2,
    lemma_field_ranges, lemma_set_vm_dir_fields, lemma_vm_bond_fields, lemma_set_dir2_fields,
};
use crate::dirs::{DIR_NO, spec_rev_dir, spec_dir_mov_atom, spec_dir_near_atom};
use crate::world::{Offs, spec_offs, lemma_spec_offs_range, MAX_CELLS};

verus! {

/// State of the chain-move traversal: the world's cells, the stack of
/// offsets still to move, the set of offsets already handled, the running
/// VM's energy, and the value the VM's own atom ended up with.
pub struct MovState {
    pub cells: Seq<Atom>,
    pub stack: Seq<Offs>,
    pub buf: Seq<Offs>,
    pub energy: int,
    pub own: Atom,
}

/// Outcome of one bond-repair stage: the cells after it, the stack after a
/// possible drag push, and the moved atom's running value.
pub struct RepairOut {
    pub cells: Seq<Atom>,
    pub stack: Seq<Offs>,
    pub cur: Atom,
}

/// Well-formed traversal state over a world of `size` cells: every stacked
/// or handled offset is a real cell holding an atom, nothing is scheduled or
/// handled twice, and nothing is both.
pub open spec fn mov_wf(s: MovState, size: int) -> bool {
    &&& s.cells.len() == size
    &&& forall|i: int| 0 <= i < s.buf.len() ==> 0 <= #[trigger] s.buf[i] < size
    &&& forall|i: int, j: int| 0 <= i < j < s.buf.len() ==> s.buf[i] != s.buf[j]
    &&& forall|i: int| 0 <= i < s.buf.len() ==> spec_is_atom(s.cells[#[trigger] s.buf[i] as int])
    &&& forall|i: int| 0 <= i < s.stack.len() ==> 0 <= #[trigger] s.stack[i] < size
    &&& forall|i: int, j: int| 0 <= i < j < s.stack.len() ==> s.stack[i] != s.stack[j]
    &&& forall|i: int| 0 <= i < s.stack.len()
        ==> spec_is_atom(s.cells[#[trigger] s.stack[i] as int])
    &&& forall|i: int| 0 <= i < s.stack.len() ==> !s.buf.contains(#[trigger] s.stack[i])
}

/// The traversal's termination measure: handling a cell retires it for good,
/// and a cell can be scheduled only once.
pub open spec fn mov_measure(s: MovState, size: int) -> int {
    2 * (size - s.buf.len()) - s.stack.len()
}

/// Schedules a dragged neighbour: pushed only when it is a real atom that is
/// neither already handled nor already scheduled.
pub open spec fn spec_drag(cells: Seq<Atom>, stck: Seq<Offs>, bf: Seq<Offs>, o: Offs)
    -> Seq<Offs> {
    if spec_is_atom(cells[o as int]) && !bf.contains(o) && !stck.contains(o) {
        stck.push(o)
    } else {
        stck
    }
}

/// Repairs the VM-bond of an atom that moved from `t` to `to` while sliding
/// towards `dir`: the moved atom's vm-dir is transformed by the moved-atom
/// table, and the neighbour the bond pointed at, if present and bonded back,
/// by the stationary-neighbour table. A neighbour now out of reach is dragged
/// instead.
pub open spec fn spec_repair_vm(
    cells: Seq<Atom>,
    stck: Seq<Offs>,
    bf: Seq<Offs>,
    cur: Atom,
    t: Offs,
    to: Offs,
    dir: int,
    width: int,
    size: int,
) -> RepairOut {
    let d0 = spec_vm_dir(cur) as int;
    let d1 = spec_dir_mov_atom(d0, dir);
    let o = spec_offs(t as int, d0, width, size) as isize;
    if d1 == DIR_NO as int {
        RepairOut { cells, stack: spec_drag(cells, stck, bf, o), cur }
    } else {
        let cur1 = spec_set_vm_bond(spec_set_vm_dir(cur, d1 as u8));
        let cells1 = cells.update(to as int, cur1);
        let nb = cells1[o as int];
        let dr = spec_rev_dir(d0);
        if spec_is_atom(nb) && spec_has_vm_bond(nb) && spec_vm_dir(nb) as int == dr {
            let d1n = spec_dir_near_atom(dr, dir);
            if d1n == DIR_NO as int {
                RepairOut { cells: cells1, stack: stck, cur: cur1 }
            } else {
                RepairOut {
                    cells: cells1.update(
                        o as int,
                        spec_set_vm_bond(spec_set_vm_dir(nb, d1n as u8)),
                    ),
                    stack: stck,
                    cur: cur1,
                }
            }
        } else {
            RepairOut { cells: cells1, stack: stck, cur: cur1 }
        }
    }
}

/// The same repair for the secondary ("then") link of an `if` atom.
pub open spec fn spec_repair_dir2(
    cells: Seq<Atom>,
    stck: Seq<Offs>,
    bf: Seq<Offs>,
    cur: Atom,
    t: Offs,
    to: Offs,
    dir: int,
    width: int,
    size: int,
) -> RepairOut {
    let d0 = spec_dir2(cur) as int;
    let d1 = spec_dir_mov_atom(d0, dir);
    let o = spec_offs(t as int, d0, width, size) as isize;
    if d1 == DIR_NO as int {
        RepairOut { cells, stack: spec_drag(cells, stck, bf, o), cur }
    } else {
        let cur1 = spec_set_dir2(cur, d1 as u8);
        let cells1 = cells.update(to as int, cur1);
        let nb = cells1[o as int];
        let dr = spec_rev_dir(d0);
        if spec_is_atom(nb) && spec_has_dir2_bond(nb) && spec_dir2(nb) as int == dr {
            let d1n = spec_dir_near_atom(dr, dir);
            if d1n == DIR_NO as int {
                RepairOut { cells: cells1, stack: stck, cur: cur1 }
            } else {
                RepairOut {
                    cells: cells1.update(o as int, spec_set_dir2(nb, d1n as u8)),
                    stack: stck,
                    cur: cur1,
                }
            }
        } else {
            RepairOut { cells: cells1, stack: stck, cur: cur1 }
        }
    }
}

/// One relocation: the top of the stack moves one cell towards `dir` into an
/// empty destination, is marked handled, costs `me` energy, and has its
/// VM-bond, and for an `if` atom its then-bond, repaired. When the moved
/// atom is the one the VM stood on (`orig`), its final value is recorded.
pub open spec fn spec_mov_one(
    s: MovState,
    dir: int,
    orig: Offs,
    me: int,
    width: int,
    size: int,
) -> MovState {
    let t = s.stack.last();
    let to = spec_offs(t as int, dir, width, size) as isize;
    let a = s.cells[t as int];
    let stack1 = s.stack.drop_last();
    let cells1 = s.cells.update(to as int, a).update(t as int, ATOM_EMPTY);
    let buf1 = s.buf.push(to);
    let r1 = if spec_has_vm_bond(a) {
        spec_repair_vm(cells1, stack1, buf1, a, t, to, dir, width, size)
    } else {
        RepairOut { cells: cells1, stack: stack1, cur: a }
    };
    let r2 = if spec_type(r1.cur) == ATOM_IF && spec_has_dir2_bond(r1.cur) {
        spec_repair_dir2(r1.cells, r1.stack, buf1, r1.cur, t, to, dir, width, size)
    } else {
        r1
    };
    MovState {
        cells: r2.cells,
        stack: r2.stack,
        buf: buf1,
        energy: s.energy - me,
        own: if t == orig { r2.cur } else { s.own },
    }
}

/// One traversal iteration: chase a fresh blocker, retire a blocked or
/// cyclic top, or relocate the top into its empty destination.
pub open spec fn mov_next(
    s: MovState,
    dir: int,
    orig: Offs,
    me: int,
    width: int,
    size: int,
) -> MovState {
    let t = s.stack.last();
    let to = spec_offs(t as int, dir, width, size) as isize;
    if spec_is_atom(s.cells[to as int]) {
        if !s.buf.contains(to) && !s.stack.contains(to) {
            MovState {
                cells: s.cells,
                stack: s.stack.push(to),
                buf: s.buf,
                energy: s.energy,
                own: s.own,
            }
        } else {
            MovState {
                cells: s.cells,
                stack: s.stack.drop_last(),
                buf: s.buf.push(t),
                energy: s.energy,
                own: if t == orig { s.cells[t as int] } else { s.own },
            }
        }
    } else {
        spec_mov_one(s, dir, orig, me, width, size)
    }
}

/// Distinct in-range offsets, split over the stack and the handled set,
/// cannot outnumber the cells.
pub proof fn lemma_offs_bound(stck: Seq<Offs>, bf: Seq<Offs>, size: int)
    requires
        0 <= size,
        forall|i: int| 0 <= i < stck.len() ==> 0 <= #[trigger] stck[i] < size,
        forall|i: int, j: int| 0 <= i < j < stck.len() ==> stck[i] != stck[j],
        forall|i: int| 0 <= i < bf.len() ==> 0 <= #[trigger] bf[i] < size,
        forall|i: int, j: int| 0 <= i < j < bf.len() ==> bf[i] != bf[j],
        forall|i: int| 0 <= i < stck.len() ==> !bf.contains(#[trigger] stck[i]),
    ensures
        stck.len() + bf.len() <= size,
{
    let c = stck + bf;
    assert forall|i: int, j: int|
        0 <= i < c.len() && 0 <= j < c.len() && i != j implies c[i] != c[j] by {
        let sl = stck.len() as int;
        if i < sl && j < sl {
            if i < j { } else { }
        } else if i >= sl && j >= sl {
            if i < j { } else { }
        } else if i < sl && j >= sl {
            assert(c[i] == stck[i]);
            assert(c[j] == bf[j - sl]);
            if c[i] == c[j] {
                assert(bf.contains(stck[i]));
            }
        } else {
            assert(c[j] == stck[j]);
            assert(c[i] == bf[i - sl]);
            if c[i] == c[j] {
                assert(bf.contains(stck[j]));
            }
        }
    }
    assert(c.no_duplicates());
    let ci = c.map_values(|x: Offs| x as int);
    assert(ci.no_duplicates());
    ci.unique_seq_to_set();
    assert(ci.to_set().subset_of(set_int_range(0, size))) by {
        assert forall|x: int| ci.to_set().contains(x)
            implies set_int_range(0, size).contains(x) by {
            assert(ci.contains(x));
            let idx = choose|idx: int| 0 <= idx < ci.len() && ci[idx] == x;
            assert(0 <= c[idx] < size);
        }
    }
    lemma_int_range(0, size);
    lemma_len_subset(ci.to_set(), set_int_range(0, size));
}

/// The VM-bond repair keeps the board's shape: no cell changes between
/// empty and occupied, the moved atom keeps its type, and the stack gains at
/// most one fresh, distinct, unhandled offset.
pub proof fn lemma_repair_vm_props(
    cells: Seq<Atom>,
    stck: Seq<Offs>,
    bf: Seq<Offs>,
    cur: Atom,
    t: Offs,
    to: Offs,
    dir: int,
    width: int,
    size: int,
)
    requires
        cells.len() == size,
        0 <= t < size,
        0 <= to < size,
        spec_type(cells[to as int]) == spec_type(cur),
        0 <= dir < 8,
        2 <= width,
        2 * width <= size,
        size <= MAX_CELLS,
        forall|i: int| 0 <= i < stck.len() ==> 0 <= #[trigger] stck[i] < size,
        forall|i: int, j: int| 0 <= i < j < stck.len() ==> stck[i] != stck[j],
        forall|i: int| 0 <= i < stck.len() ==> spec_is_atom(cells[#[trigger] stck[i] as int]),
        forall|i: int| 0 <= i < stck.len() ==> !bf.contains(#[trigger] stck[i]),
    ensures
        spec_repair_vm(cells, stck, bf, cur, t, to, dir, width, size).cells.len() == size,
        forall|i: int| 0 <= i < size
            ==> spec_is_atom(#[trigger] spec_repair_vm(cells, stck, bf, cur, t, to, dir, width, size).cells[i]) == spec_is_atom(cells[i]),
        spec_type(spec_repair_vm(cells, stck, bf, cur, t, to, dir, width, size).cur) == spec_type(cur),
        spec_type(spec_repair_vm(cells, stck, bf, cur, t, to, dir, width, size).cells[to as int]) == spec_type(spec_repair_vm(cells, stck, bf, cur, t, to, dir, width, size).cur),
        stck.len() <= spec_repair_vm(cells, stck, bf, cur, t, to, dir, width, size).stack.len() <= stck.len() + 1,
        forall|i: int| 0 <= i < spec_repair_vm(cells, stck, bf, cur, t, to, dir, width, size).stack.len()
            ==> 0 <= #[trigger] spec_repair_vm(cells, stck, bf, cur, t, to, dir, width, size).stack[i] < size,
        forall|i: int, j: int| 0 <= i < j < spec_repair_vm(cells, stck, bf, cur, t, to, dir, width, size).stack.len()
            ==> spec_repair_vm(cells, stck, bf, cur, t, to, dir, width, size).stack[i] != spec_repair_vm(cells, stck, bf, cur, t, to, dir, width, size).stack[j],
        forall|i: int| 0 <= i < spec_repair_vm(cells, stck, bf, cur, t, to, dir, width, size).stack.len()
            ==> spec_is_atom(spec_repair_vm(cells, stck, bf, cur, t, to, dir, width, size).cells[#[trigger] spec_repair_vm(cells, stck, bf, cur, t, to, dir, width, size).stack[i] as int]),
        forall|i: int| 0 <= i < spec_repair_vm(cells, stck, bf, cur, t, to, dir, width, size).stack.len()
            ==> !bf.contains(#[trigger] spec_repair_vm(cells, stck, bf, cur, t, to, dir, width, size).stack[i]),
{
    let d0 = spec_vm_dir(cur) as int;
    lemma_field_ranges(cur);
    lemma_spec_offs_range(t as int, d0, width, size);
    let o = spec_offs(t as int, d0, width, size) as isize;
    assert(0 <= o < size);
    let d1 = spec_dir_mov_atom(d0, dir);
    if d1 == DIR_NO as int {
        let st2 = spec_drag(cells, stck, bf, o);
        if spec_is_atom(cells[o as int]) && !bf.contains(o) && !stck.contains(o) {
            assert(st2 == stck.push(o));
            assert forall|i: int, j: int| 0 <= i < j < st2.len()
                implies st2[i] != st2[j] by {
                if j == st2.len() - 1 {
                    assert(st2[j] == o);
                    assert(!stck.contains(o));
                    assert(st2[i] == stck[i]);
                }
            }
        }
    } else {
        let cur1 = spec_set_vm_bond(spec_set_vm_dir(cur, d1 as u8));
        crate::dirs::lemma_dir_tables_range(d0, dir);
            lemma_set_vm_dir_fields(cur, d1 as u8);
            lemma_vm_bond_fields(spec_set_vm_dir(cur, d1 as u8));
        assert(spec_type(cur1) == spec_type(cur));
        let cells1 = cells.update(to as int, cur1);
        let nb = cells1[o as int];
        let dr = spec_rev_dir(d0);
        let hit = spec_is_atom(nb) && spec_has_vm_bond(nb) && spec_vm_dir(nb) as int == dr;
        let d1n = spec_dir_near_atom(dr, dir);
        if hit && d1n != DIR_NO as int {
            crate::dirs::lemma_dir_tables_range(dr, dir);
            let nb2 = spec_set_vm_bond(spec_set_vm_dir(nb, d1n as u8));
                lemma_set_vm_dir_fields(nb, d1n as u8);
                lemma_vm_bond_fields(spec_set_vm_dir(nb, d1n as u8));
            assert(spec_type(nb2) == spec_type(nb));
        }
    }
}

/// The then-bond repair keeps the board's shape: no cell changes between
/// empty and occupied, the moved atom keeps its type, and the stack gains at
/// most one fresh, distinct, unhandled offset.
pub proof fn lemma_repair_dir2_props(
    cells: Seq<Atom>,
    stck: Seq<Offs>,
    bf: Seq<Offs>,
    cur: Atom,
    t: Offs,
    to: Offs,
    dir: int,
    width: int,
    size: int,
)
    requires
        cells.len() == size,
        0 <= t < size,
        0 <= to < size,
        spec_type(cells[to as int]) == spec_type(cur),
        0 <= dir < 8,
        2 <= width,
        2 * width <= size,
        size <= MAX_CELLS,
        forall|i: int| 0 <= i < stck.len() ==> 0 <= #[trigger] stck[i] < size,
        forall|i: int, j: int| 0 <= i < j < stck.len() ==> stck[i] != stck[j],
        forall|i: int| 0 <= i < stck.len() ==> spec_is_atom(cells[#[trigger] stck[i] as int]),
        forall|i: int| 0 <= i < stck.len() ==> !bf.contains(#[trigger] stck[i]),
    ensures
        spec_repair_dir2(cells, stck, bf, cur, t, to, dir, width, size).cells.len() == size,
        forall|i: int| 0 <= i < size
            ==> spec_is_atom(#[trigger] spec_repair_dir2(cells, stck, bf, cur, t, to, dir, width, size).cells[i]) == spec_is_atom(cells[i]),
        spec_type(spec_repair_dir2(cells, stck, bf, cur, t, to, dir, width, size).cur) == spec_type(cur),
        spec_type(spec_repair_dir2(cells, stck, bf, cur, t, to, dir, width, size).cells[to as int]) == spec_type(spec_repair_dir2(cells, stck, bf, cur, t, to, dir, width, size).cur),
        stck.len() <= spec_repair_dir2(cells, stck, bf, cur, t, to, dir, width, size).stack.len() <= stck.len() + 1,
        forall|i: int| 0 <= i < spec_repair_dir2(cells, stck, bf, cur, t, to, dir, width, size).stack.len()
            ==> 0 <= #[trigger] spec_repair_dir2(cells, stck, bf, cur, t, to, dir, width, size).stack[i] < size,
        forall|i: int, j: int| 0 <= i < j < spec_repair_dir2(cells, stck, bf, cur, t, to, dir, width, size).stack.len()
            ==> spec_repair_dir2(cells, stck, bf, cur, t, to, dir, width, size).stack[i] != spec_repair_dir2(cells, stck, bf, cur, t, to, dir, width, size).stack[j],
        forall|i: int| 0 <= i < spec_repair_dir2(cells, stck, bf, cur, t, to, dir, width, size).stack.len()
            ==> spec_is_atom(spec_repair_dir2(cells, stck, bf, cur, t, to, dir, width, size).cells[#[trigger] spec_repair_dir2(cells, stck, bf, cur, t, to, dir, width, size).stack[i] as int]),
        forall|i: int| 0 <= i < spec_repair_dir2(cells, stck, bf, cur, t, to, dir, width, size).stack.len()
            ==> !bf.contains(#[trigger] spec_repair_dir2(cells, stck, bf, cur, t, to, dir, width, size).stack[i]),
{
    let d0 = spec_dir2(cur) as int;
    lemma_field_ranges(cur);
    lemma_spec_offs_range(t as int, d0, width, size);
    let o = spec_offs(t as int, d0, width, size) as isize;
    assert(0 <= o < size);
    let d1 = spec_dir_mov_atom(d0, dir);
    if d1 == DIR_NO as int {
        let st2 = spec_drag(cells, stck, bf, o);
        if spec_is_atom(cells[o as int]) && !bf.contains(o) && !stck.contains(o) {
            assert(st2 == stck.push(o));
            assert forall|i: int, j: int| 0 <= i < j < st2.len()
                implies st2[i] != st2[j] by {
                if j == st2.len() - 1 {
                    assert(st2[j] == o);
                    assert(!stck.contains(o));
                    assert(st2[i] == stck[i]);
                }
            }
        }
    } else {
        let cur1 = spec_set_dir2(cur, d1 as u8);
        crate::dirs::lemma_dir_tables_range(d0, dir);
            lemma_set_dir2_fields(cur, d1 as u8);
        assert(spec_type(cur1) == spec_type(cur));
        let cells1 = cells.update(to as int, cur1);
        let nb = cells1[o as int];
        let dr = spec_rev_dir(d0);
        let hit = spec_is_atom(nb) && spec_has_dir2_bond(nb) && spec_dir2(nb) as int == dr;
        let d1n = spec_dir_near_atom(dr, dir);
        if hit && d1n != DIR_NO as int {
            crate::dirs::lemma_dir_tables_range(dr, dir);
            let nb2 = spec_set_dir2(nb, d1n as u8);
                lemma_set_dir2_fields(nb, d1n as u8);
            assert(spec_type(nb2) == spec_type(nb));
        }
    }
}

/// One traversal iteration keeps the state well formed and strictly shrinks
/// the termination measure, which stays nonnegative.
#[verifier::rlimit(80)]
pub proof fn lemma_mov_step(s: MovState, dir: int, orig: Offs, me: int, width: int, size: int)
    requires
        mov_wf(s, size),
        s.stack.len() > 0,
        0 <= dir < 8,
        2 <= width,
        2 * width <= size,
        size <= MAX_CELLS,
    ensures
        mov_wf(mov_next(s, dir, orig, me, width, size), size),
        mov_measure(mov_next(s, dir, orig, me, width, size), size) < mov_measure(s, size),
        mov_measure(mov_next(s, dir, orig, me, width, size), size) >= 0,
{
    let t = s.stack.last();
    assert(0 <= t < size && spec_is_atom(s.cells[t as int]) && !s.buf.contains(t));
    lemma_spec_offs_range(t as int, dir, width, size);
    let to = spec_offs(t as int, dir, width, size) as isize;
    assert(0 <= to < size);
    let nxt = mov_next(s, dir, orig, me, width, size);
    if spec_is_atom(s.cells[to as int]) {
        if !s.buf.contains(to) && !s.stack.contains(to) {
            // chase: one fresh offset is scheduled
            assert forall|i: int, j: int| 0 <= i < j < nxt.stack.len()
                implies nxt.stack[i] != nxt.stack[j] by {
                if j == nxt.stack.len() - 1 {
                    assert(nxt.stack[j] == to);
                    assert(nxt.stack[i] == s.stack[i]);
                    assert(!s.stack.contains(to));
                }
            }
            assert(mov_wf(nxt, size));
        } else {
            // blocked or cyclic: the top is retired unmoved
            assert forall|i: int, j: int| 0 <= i < j < nxt.buf.len()
                implies nxt.buf[i] != nxt.buf[j] by {
                if j == nxt.buf.len() - 1 {
                    assert(nxt.buf[j] == t);
                    assert(nxt.buf[i] == s.buf[i]);
                    assert(!s.buf.contains(t));
                }
            }
            assert forall|i: int| 0 <= i < nxt.stack.len()
                implies !nxt.buf.contains(#[trigger] nxt.stack[i]) by {
                assert(nxt.stack[i] == s.stack[i]);
                assert(!s.buf.contains(s.stack[i]));
                assert(s.stack[i] != t) by {
                    assert(s.stack[i] == s.stack[i]);
                    assert(t == s.stack[s.stack.len() - 1]);
                }
                assert forall|q: int| 0 <= q < nxt.buf.len()
                    implies nxt.buf[q] != s.stack[i] by {
                    if q == nxt.buf.len() - 1 {
                    } else {
                        assert(nxt.buf[q] == s.buf[q]);
                    }
                }
            }
            assert(mov_wf(nxt, size));
        }
    } else {
        // relocation
        let a = s.cells[t as int];
        let stack1 = s.stack.drop_last();
        let cells1 = s.cells.update(to as int, a).update(t as int, ATOM_EMPTY);
        let buf1 = s.buf.push(to);
        assert(t != to);
        // handled set: `to` is fresh, in range, and now occupied
        assert forall|i: int, j: int| 0 <= i < j < buf1.len()
            implies buf1[i] != buf1[j] by {
            if j == buf1.len() - 1 {
                assert(buf1[j] == to);
                assert(buf1[i] == s.buf[i]);
                assert(spec_is_atom(s.cells[s.buf[i] as int]));
            }
        }
        assert forall|i: int| 0 <= i < buf1.len()
            implies spec_is_atom(cells1[#[trigger] buf1[i] as int]) by {
            if i == buf1.len() - 1 {
                assert(cells1[to as int] == a);
            } else {
                assert(buf1[i] == s.buf[i]);
                assert(s.buf[i] != t);
                assert(s.buf[i] != to);
                assert(cells1[s.buf[i] as int] == s.cells[s.buf[i] as int]);
            }
        }
        // remaining stack: still distinct, occupied, unhandled
        assert forall|i: int| 0 <= i < stack1.len()
            implies spec_is_atom(cells1[#[trigger] stack1[i] as int]) by {
            assert(stack1[i] == s.stack[i]);
            assert(s.stack[i] != t);
            assert(s.stack[i] != to);
        }
        assert forall|i: int| 0 <= i < stack1.len()
            implies !buf1.contains(#[trigger] stack1[i]) by {
            assert(stack1[i] == s.stack[i]);
            assert(s.stack[i] != to);
            assert(!s.buf.contains(s.stack[i]));
            assert forall|q: int| 0 <= q < buf1.len()
                implies buf1[q] != s.stack[i] by {
                if q < buf1.len() - 1 {
                    assert(buf1[q] == s.buf[q]);
                }
            }
        }
        let r1 = if spec_has_vm_bond(a) {
            spec_repair_vm(cells1, stack1, buf1, a, t, to, dir, width, size)
        } else {
            RepairOut { cells: cells1, stack: stack1, cur: a }
        };
        assert(spec_type(cells1[to as int]) == spec_type(a));
        if spec_has_vm_bond(a) {
            lemma_repair_vm_props(cells1, stack1, buf1, a, t, to, dir, width, size);
        }
        assert(r1.cells.len() == size);
        assert(forall|i: int| 0 <= i < size
            ==> spec_is_atom(#[trigger] r1.cells[i]) == spec_is_atom(cells1[i]));
        assert(spec_type(r1.cells[to as int]) == spec_type(r1.cur));
        assert(stack1.len() <= r1.stack.len() <= stack1.len() + 1);
        assert(forall|i: int| 0 <= i < r1.stack.len() ==> 0 <= #[trigger] r1.stack[i] < size);
        assert(forall|i: int, j: int| 0 <= i < j < r1.stack.len()
            ==> r1.stack[i] != r1.stack[j]);
        assert(forall|i: int| 0 <= i < r1.stack.len()
            ==> spec_is_atom(r1.cells[#[trigger] r1.stack[i] as int]));
        assert(forall|i: int| 0 <= i < r1.stack.len()
            ==> !buf1.contains(#[trigger] r1.stack[i]));
        let r2 = if spec_type(r1.cur) == ATOM_IF && spec_has_dir2_bond(r1.cur) {
            spec_repair_dir2(r1.cells, r1.stack, buf1, r1.cur, t, to, dir, width, size)
        } else {
            r1
        };
        if spec_type(r1.cur) == ATOM_IF && spec_has_dir2_bond(r1.cur) {
            lemma_repair_dir2_props(r1.cells, r1.stack, buf1, r1.cur, t, to, dir, width,
                size);
        }
        assert(r2.cells.len() == size);
        assert(forall|i: int| 0 <= i < size
            ==> spec_is_atom(#[trigger] r2.cells[i]) == spec_is_atom(r1.cells[i]));
        assert(r1.stack.len() <= r2.stack.len() <= r1.stack.len() + 1);
        assert(forall|i: int| 0 <= i < r2.stack.len() ==> 0 <= #[trigger] r2.stack[i] < size);
        assert(forall|i: int, j: int| 0 <= i < j < r2.stack.len()
            ==> r2.stack[i] != r2.stack[j]);
        assert(forall|i: int| 0 <= i < r2.stack.len()
            ==> spec_is_atom(r2.cells[#[trigger] r2.stack[i] as int]));
        assert(forall|i: int| 0 <= i < r2.stack.len()
            ==> !buf1.contains(#[trigger] r2.stack[i]));
        assert(nxt.cells == r2.cells && nxt.stack == r2.stack && nxt.buf == buf1);
        assert forall|i: int| 0 <= i < buf1.len()
            implies spec_is_atom(r2.cells[#[trigger] buf1[i] as int]) by {
            assert(0 <= buf1[i] < size);
            assert(spec_is_atom(cells1[buf1[i] as int]));
        }
        assert(mov_wf(nxt, size));
    }
    lemma_offs_bound(nxt.stack, nxt.buf, size);
}

/// Runs the traversal to completion: iterates `mov_next` until the stack is
/// empty.
pub open spec fn spec_mov_run(
    s: MovState,
    dir: int,
    orig: Offs,
    me: int,
    width: int,
    size: int,
) -> MovState
    decreases mov_measure(s, size)
        when mov_wf(s, size) && 0 <= dir < 8 && 2 <= width && 2 * width <= size && size <= MAX_CELLS
{
    if s.stack.len() == 0 {
        s
    } else {
        proof {
            lemma_mov_step(s, dir, orig, me, width, size);
        }
        spec_mov_run(mov_next(s, dir, orig, me, width, size), dir, orig, me, width, size)
    }
}

} // verus!
