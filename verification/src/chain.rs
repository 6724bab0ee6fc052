//! Chain-move atomicity: a straight chain of bonded atoms, all bonded along
//! the movement direction with the path ahead clear, relocates by exactly one
//! cell in one `mov` step, every atom's value — and with it every bond
//! direction between adjacent members — carried over unchanged.

use vstd::prelude::*;
use crate::atom::{Atom, ATOM_EMPTY, ATOM_IF, spec_type, spec_is_atom, spec_vm_dir,
    spec_has_vm_bond, lemma_empty_is_no_atom};
use crate::dirs::{DIR_NO, spec_dir_mov_atom};
use crate::world::{Offs, spec_offs, MAX_CELLS};
use crate::mov::{MovState, mov_wf, mov_next, spec_mov_one, spec_mov_run, lemma_mov_step};

verus! {

/// The moved-atom transform table sends a bond that points along the very
/// direction of the move out of reach: the atom slides onto the cell its
/// bond names, so a stationary neighbour there cannot stay adjacent.
pub proof fn lemma_dir_mov_diag(d: int)
    requires
        0 <= d < 8,
    ensures
        spec_dir_mov_atom(d, d) == DIR_NO as int,
{
}

/// A straight chain: offsets `o[0], ..., o[n-1]`, each the `dir`-neighbour of
/// the one before, all distinct, each holding an atom whose VM-bond points
/// along `dir` and which owns no then-bond; the cell past the last member
/// (`dest`) is empty.
pub open spec fn chain_wf(
    c0: Seq<Atom>,
    o: Seq<Offs>,
    dest: Offs,
    dir: int,
    width: int,
    size: int,
) -> bool {
    &&& c0.len() == size
    &&& 1 <= o.len()
    &&& forall|i: int| 0 <= i < o.len() ==> 0 <= #[trigger] o[i] < size
    &&& 0 <= dest < size
    &&& forall|i: int, j: int| 0 <= i < j < o.len() ==> o[i] != o[j]
    &&& forall|i: int| 0 <= i < o.len() ==> #[trigger] o[i] != dest
    &&& forall|i: int| 0 <= i < o.len() - 1
        ==> #[trigger] o[i + 1] == spec_offs(o[i] as int, dir, width, size) as isize
    &&& dest == spec_offs(o[o.len() - 1] as int, dir, width, size) as isize
    &&& forall|i: int| 0 <= i < o.len() ==> spec_is_atom(#[trigger] c0[o[i] as int])
    &&& forall|i: int| 0 <= i < o.len()
        ==> spec_vm_dir(#[trigger] c0[o[i] as int]) as int == dir
    &&& forall|i: int| 0 <= i < o.len() ==> spec_has_vm_bond(#[trigger] c0[o[i] as int])
    &&& forall|i: int| 0 <= i < o.len() ==> spec_type(#[trigger] c0[o[i] as int]) != ATOM_IF
    &&& !spec_is_atom(c0[dest as int])
}

/// The cell a chain member moves into: the next member's cell, or `dest` for
/// the last member.
pub open spec fn chain_nxt(o: Seq<Offs>, dest: Offs, i: int) -> Offs {
    if i == o.len() - 1 { dest } else { o[i + 1] }
}

/// The cells after the members from `j` on have moved one cell forward, the
/// last one first.
pub open spec fn chain_cells(c0: Seq<Atom>, o: Seq<Offs>, dest: Offs, j: int) -> Seq<Atom>
    decreases o.len() - j,
{
    if j < 0 || j >= o.len() {
        c0
    } else {
        chain_cells(c0, o, dest, j + 1)
            .update(chain_nxt(o, dest, j) as int, c0[o[j] as int])
            .update(o[j] as int, ATOM_EMPTY)
    }
}

/// The handled set after the members from `j` on have moved: their
/// destinations, in the order they were handled.
pub open spec fn chain_buf(o: Seq<Offs>, dest: Offs, j: int) -> Seq<Offs>
    decreases o.len() - j,
{
    if j < 0 || j >= o.len() {
        Seq::empty()
    } else {
        chain_buf(o, dest, j + 1).push(chain_nxt(o, dest, j))
    }
}

/// The traversal state after the members from `j` on have moved and the
/// members before `j` are still scheduled.
pub open spec fn chain_state(
    c0: Seq<Atom>,
    o: Seq<Offs>,
    dest: Offs,
    j: int,
    e0: int,
    me: int,
    own: Atom,
) -> MovState {
    MovState {
        cells: chain_cells(c0, o, dest, j),
        stack: o.take(j),
        buf: chain_buf(o, dest, j),
        energy: e0 - (o.len() - j) * me,
        own: if j == 0 { c0[o[0] as int] } else { own },
    }
}

/// Point characterization of `chain_cells`: the suffix of the chain stands
/// one cell forward, the cell of member `j` is empty, members before `j` and
/// all uninvolved cells are untouched.
pub proof fn lemma_chain_cells_props(
    c0: Seq<Atom>,
    o: Seq<Offs>,
    dest: Offs,
    dir: int,
    width: int,
    size: int,
    j: int,
)
    requires
        chain_wf(c0, o, dest, dir, width, size),
        0 <= j <= o.len(),
    ensures
        chain_cells(c0, o, dest, j).len() == size,
        forall|i: int| 0 <= i < j
            ==> chain_cells(c0, o, dest, j)[#[trigger] o[i] as int] == c0[o[i] as int],
        j < o.len() ==> chain_cells(c0, o, dest, j)[o[j] as int] == ATOM_EMPTY,
        forall|i: int| j <= i < o.len()
            ==> chain_cells(c0, o, dest, j)[chain_nxt(o, dest, i) as int]
                == c0[#[trigger] o[i] as int],
        forall|p: int|
            0 <= p < size && p != dest
                && (forall|i: int| j <= i < o.len() ==> #[trigger] o[i] as int != p)
            ==> #[trigger] chain_cells(c0, o, dest, j)[p] == c0[p],
    decreases o.len() - j,
{
    if j < o.len() {
        lemma_chain_cells_props(c0, o, dest, dir, width, size, j + 1);
        let prev = chain_cells(c0, o, dest, j + 1);
        let nx = chain_nxt(o, dest, j);
        let cur = prev.update(nx as int, c0[o[j] as int]).update(o[j] as int, ATOM_EMPTY);
        assert(o[j] != nx);
        // member j's old cell was untouched by the later moves, so `prev`
        // still holds its atom there; the suffix facts carry over because the
        // two fresh updates hit cells no other chain fact names
        assert forall|i: int| j <= i < o.len()
            implies cur[chain_nxt(o, dest, i) as int] == c0[#[trigger] o[i] as int] by {
            if i == j {
                assert(cur[nx as int] == c0[o[j] as int]);
            } else {
                assert(chain_nxt(o, dest, i) != nx);
                assert(chain_nxt(o, dest, i) != o[j]);
                assert(prev[chain_nxt(o, dest, i) as int] == c0[o[i] as int]);
            }
        }
        assert forall|i: int| 0 <= i < j
            implies cur[#[trigger] o[i] as int] == c0[o[i] as int] by {
            assert(o[i] != nx);
            assert(o[i] != o[j]);
            assert(prev[o[i] as int] == c0[o[i] as int]);
        }
        assert forall|p: int|
            0 <= p < size && p != dest
                && (forall|i: int| j <= i < o.len() ==> #[trigger] o[i] as int != p)
            implies #[trigger] cur[p] == c0[p] by {
            assert(o[j] as int != p);
            assert(nx as int != p);
            assert(prev[p] == c0[p]);
        }
    }
}

/// Unwinding phase: from the state where the members from `j` on have moved,
/// the traversal moves the remaining members one by one, deepest first, and
/// ends in the fully shifted state.
pub proof fn lemma_chain_unwind(
    c0: Seq<Atom>,
    o: Seq<Offs>,
    dest: Offs,
    dir: int,
    width: int,
    size: int,
    e0: int,
    me: int,
    own: Atom,
    j: int,
)
    requires
        chain_wf(c0, o, dest, dir, width, size),
        0 <= j <= o.len(),
        0 <= dir < 8,
        2 <= width,
        2 * width <= size,
        size <= MAX_CELLS,
        mov_wf(chain_state(c0, o, dest, j, e0, me, own), size),
    ensures
        spec_mov_run(chain_state(c0, o, dest, j, e0, me, own), dir, o[0], me, width, size)
            == chain_state(c0, o, dest, 0, e0, me, own),
    decreases j,
{
    let n = o.len() as int;
    let s = chain_state(c0, o, dest, j, e0, me, own);
    if j == 0 {
        assert(s.stack.len() == 0);
        assert(spec_mov_run(s, dir, o[0], me, width, size) == s);
    } else {
        lemma_chain_cells_props(c0, o, dest, dir, width, size, j);
        lemma_empty_is_no_atom();
        let t = s.stack.last();
        assert(t == o[j - 1]);
        let to = spec_offs(t as int, dir, width, size) as isize;
        assert(to == chain_nxt(o, dest, j - 1));
        // the destination cell is empty: the next member already moved on,
        // or it is the clear cell past the chain
        if j < n {
            assert(s.cells[to as int] == ATOM_EMPTY);
        } else {
            assert(s.cells[to as int] == c0[dest as int]);
        }
        assert(!spec_is_atom(s.cells[to as int]));
        // one relocation turns stage j into stage j - 1
        let a = s.cells[t as int];
        assert(a == c0[o[j - 1] as int]);
        let stack1 = s.stack.drop_last();
        assert(stack1 =~= o.take(j - 1));
        let cells1 = s.cells.update(to as int, a).update(t as int, ATOM_EMPTY);
        assert(cells1 == chain_cells(c0, o, dest, j - 1));
        let buf1 = s.buf.push(to);
        assert(buf1 == chain_buf(o, dest, j - 1));
        assert(spec_has_vm_bond(a));
        assert(spec_vm_dir(a) as int == dir);
        lemma_dir_mov_diag(dir);
        assert(buf1.contains(to)) by {
            assert(buf1[buf1.len() - 1] == to);
        }
        assert((n - (j - 1)) * me == (n - j) * me + me) by (nonlinear_arith);
        let nxt = mov_next(s, dir, o[0], me, width, size);
        assert(nxt == spec_mov_one(s, dir, o[0], me, width, size));
        assert(nxt.cells == chain_cells(c0, o, dest, j - 1));
        assert(nxt.stack =~= o.take(j - 1));
        assert(nxt.buf == chain_buf(o, dest, j - 1));
        assert(nxt.energy == e0 - (n - (j - 1)) * me);
        if j == 1 {
            assert(t == o[0]);
            assert(nxt.own == c0[o[0] as int]);
        } else {
            assert(t != o[0]);
            assert(nxt.own == own);
        }
        assert(nxt == chain_state(c0, o, dest, j - 1, e0, me, own));
        lemma_mov_step(s, dir, o[0], me, width, size);
        assert(spec_mov_run(s, dir, o[0], me, width, size)
            == spec_mov_run(nxt, dir, o[0], me, width, size));
        lemma_chain_unwind(c0, o, dest, dir, width, size, e0, me, own, j - 1);
    }
}

/// Chasing phase: with the first `k` members scheduled and nothing moved yet,
/// the traversal chases the rest of the blocking chain onto the stack and
/// then unwinds it, ending in the fully shifted state.
pub proof fn lemma_chain_chase(
    c0: Seq<Atom>,
    o: Seq<Offs>,
    dest: Offs,
    dir: int,
    width: int,
    size: int,
    e0: int,
    me: int,
    own: Atom,
    k: int,
)
    requires
        chain_wf(c0, o, dest, dir, width, size),
        1 <= k <= o.len(),
        0 <= dir < 8,
        2 <= width,
        2 * width <= size,
        size <= MAX_CELLS,
        mov_wf(
            MovState { cells: c0, stack: o.take(k), buf: Seq::empty(), energy: e0, own },
            size,
        ),
    ensures
        spec_mov_run(
            MovState { cells: c0, stack: o.take(k), buf: Seq::empty(), energy: e0, own },
            dir,
            o[0],
            me,
            width,
            size,
        ) == chain_state(c0, o, dest, 0, e0, me, own),
    decreases o.len() - k,
{
    let n = o.len() as int;
    let s = MovState { cells: c0, stack: o.take(k), buf: Seq::empty(), energy: e0, own };
    if k == n {
        assert(s.buf =~= chain_buf(o, dest, n));
        assert(0 * me == 0) by (nonlinear_arith);
        assert(s == chain_state(c0, o, dest, n, e0, me, own));
        lemma_chain_unwind(c0, o, dest, dir, width, size, e0, me, own, n);
    } else {
        let t = s.stack.last();
        assert(t == o[k - 1]);
        let to = spec_offs(t as int, dir, width, size) as isize;
        assert(o[k - 1 + 1] == spec_offs(o[k - 1] as int, dir, width, size) as isize);
        assert(to == o[k]);
        assert(spec_is_atom(s.cells[to as int]));
        assert(!s.buf.contains(to));
        assert(!s.stack.contains(to)) by {
            if s.stack.contains(to) {
                let q = choose|q: int| 0 <= q < s.stack.len() && s.stack[q] == to;
                assert(o[q] == o[k]);
            }
        }
        let nxt = mov_next(s, dir, o[0], me, width, size);
        assert(nxt.stack =~= o.take(k + 1));
        assert(nxt == MovState {
            cells: c0,
            stack: o.take(k + 1),
            buf: Seq::empty(),
            energy: e0,
            own,
        });
        lemma_mov_step(s, dir, o[0], me, width, size);
        assert(spec_mov_run(s, dir, o[0], me, width, size)
            == spec_mov_run(nxt, dir, o[0], me, width, size));
        lemma_chain_chase(c0, o, dest, dir, width, size, e0, me, own, k + 1);
    }
}

/// Law: chain-move atomicity. One `mov` step over a straight chain of bonded
/// atoms, all bonded along the movement direction with the cell past the
/// chain clear, relocates every member by exactly one cell: each member's
/// value arrives unchanged at the next cell — so every bond direction between
/// adjacent members is preserved — the first cell is left empty, every other
/// cell of the world is untouched, the energy is debited once per member, and
/// the VM's own atom ends as it started.
pub proof fn lemma_mov_chain_atomic(
    c0: Seq<Atom>,
    o: Seq<Offs>,
    dest: Offs,
    dir: int,
    width: int,
    size: int,
    e0: int,
    me: int,
    own: Atom,
)
    requires
        chain_wf(c0, o, dest, dir, width, size),
        0 <= dir < 8,
        2 <= width,
        2 * width <= size,
        size <= MAX_CELLS,
    ensures
        ({
            let fin = spec_mov_run(
                MovState {
                    cells: c0,
                    stack: seq![o[0]],
                    buf: Seq::empty(),
                    energy: e0,
                    own,
                },
                dir,
                o[0],
                me,
                width,
                size,
            );
            &&& fin.cells.len() == size
            &&& fin.energy == e0 - o.len() * me
            &&& fin.own == c0[o[0] as int]
            &&& fin.cells[o[0] as int] == ATOM_EMPTY
            &&& forall|i: int| 0 <= i < o.len()
                ==> fin.cells[#[trigger] chain_nxt(o, dest, i) as int] == c0[o[i] as int]
            &&& forall|p: int|
                0 <= p < size && p != dest
                    && (forall|i: int| 0 <= i < o.len() ==> #[trigger] o[i] as int != p)
                ==> #[trigger] fin.cells[p] == c0[p]
        }),
{
    let init = MovState {
        cells: c0,
        stack: seq![o[0]],
        buf: Seq::empty(),
        energy: e0,
        own,
    };
    assert(init.stack =~= o.take(1));
    let c1 = MovState { cells: c0, stack: o.take(1), buf: Seq::empty(), energy: e0, own };
    assert(init == c1);
    assert(mov_wf(c1, size)) by {
        assert(c1.stack.len() == 1);
        assert(c1.stack[0] == o[0]);
        assert(c1.buf.len() == 0);
        assert forall|i: int| 0 <= i < c1.stack.len()
            implies !c1.buf.contains(#[trigger] c1.stack[i]) by {
            assert(c1.buf.len() == 0);
        }
    }
    lemma_chain_chase(c0, o, dest, dir, width, size, e0, me, own, 1);
    lemma_chain_cells_props(c0, o, dest, dir, width, size, 0);
}

} // verus!
