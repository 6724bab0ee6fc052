//! The virtual machine: one execution context (energy counter + current
//! offset) and the handlers of the five instruction atoms. One VM runs one
//! molecule; many VMs may exist over the same world, stepped one at a time by
//! an external driver.

use vstd::prelude::*;
use crate::atom::{
    Atom, ATOM_EMPTY, ATOM_MOV, ATOM_FIX, ATOM_SPL, ATOM_IF, ATOM_JOB,
    spec_type, spec_is_atom, spec_vm_dir, spec_has_vm_bond, spec_dir1, spec_dir2,
    spec_has_dir2_bond, spec_set_vm_dir, spec_set_vm_bond, spec_reset_vm_bond,
    spec_set_dir2, spec_set_dir2_bond, spec_reset_dir2_bond,
    get_type, is_atom, get_vm_dir, has_vm_bond, get_dir1, get_dir2, has_dir2_bond,
    set_vm_dir, set_vm_bond, reset_vm_bond, set_dir2, set_dir2_bond, reset_dir2_bond,
    lemma_field_ranges, lemma_set_vm_dir_fields, lemma_vm_bond_fields,
    lemma_set_dir2_fields, lemma_dir2_bond_fields,
};
use crate::dirs::{DIR_NO, rev_dir, dir_mov_atom, dir_near_atom};
use crate::world::{World, Offs, spec_offs, lemma_spec_offs_range, lemma_spec_offs_neq, MAX_CELLS};
use crate::cfg::Config;
use crate::pool::VMPool;
use crate::mov::{MovState, mov_wf, mov_measure, mov_next, spec_mov_run, lemma_mov_step};

verus! {

/// Mathematical value of a VM: its energy and its current offset.
pub struct VMState {
    pub energy: int,
    pub offs: int,
}

/// One virtual machine: an unbounded signed energy counter and the offset of
/// the atom it is currently running. A VM owns no atoms; it only names a
/// position in the world.
#[derive(Copy, Clone)]
pub struct VM {
    energy: isize,
    offs: Offs,
}

/// Shared engine state handed to every instruction handler: the world, the
/// pool of live VMs, the two scratch buffers of the `mov` traversal, and the
/// energy cost configuration.
///
/// The scratch buffers are engine-owned and reused across calls, so a `mov`
/// step is not reentrant: no two `mov` invocations may be in flight over the
/// same `Core` at once. Passing `Core` by exclusive mutable reference
/// enforces exactly that.
pub struct Core {
    pub world: World,
    pub vms: VMPool,
    pub stack: Vec<Offs>,
    pub buf: Vec<Offs>,
    pub cfg: Config,
}

impl Core {
    /// Assembles an engine context with empty scratch buffers.
    pub fn new(world: World, vms: VMPool, cfg: Config) -> (c: Core)
        ensures
            c.world == world,
            c.vms == vms,
            c.cfg == cfg,
            c.stack@.len() == 0,
            c.buf@.len() == 0,
    {
        Core { world, vms, stack: Vec::new(), buf: Vec::new(), cfg }
    }
}

/// The value fits a machine-sized signed integer.
pub open spec fn in_isize(x: int) -> bool {
    isize::MIN <= x <= isize::MAX
}

/// The world after a handler keeps its geometry and well-formedness.
pub open spec fn world_geo_same(pre: Core, post: Core) -> bool {
    &&& post.world.wf()
    &&& post.world.spec_width() == pre.world.spec_width()
    &&& post.world.spec_height() == pre.world.spec_height()
    &&& post.world@.len() == pre.world@.len()
}

/// The VM pool is untouched.
pub open spec fn pool_same(pre: Core, post: Core) -> bool {
    &&& post.vms.spec_vms() == pre.vms.spec_vms()
    &&& post.vms.spec_max() == pre.vms.spec_max()
}

/// The scratch buffers are untouched.
pub open spec fn scratch_same(pre: Core, post: Core) -> bool {
    &&& post.stack@ == pre.stack@
    &&& post.buf@ == pre.buf@
}

/// The cost configuration is untouched.
pub open spec fn cfg_same(pre: Core, post: Core) -> bool {
    post.cfg == pre.cfg
}

/// Outcome of a `fix`, `spl` or `if` step: the cells after it, the VM's
/// energy and offset after it, and whether useful work was done.
pub struct StepOut {
    pub cells: Seq<Atom>,
    pub energy: int,
    pub offs: int,
    pub ok: bool,
}

/// Where the VM stands after an instruction that lets it walk on: if its own
/// atom has an active VM-bond the VM follows that bond one cell, else it
/// stays.
pub open spec fn spec_vm_advance(offs: int, a: Atom, width: int, size: int) -> int {
    if spec_has_vm_bond(a) {
        spec_offs(offs, spec_vm_dir(a) as int, width, size)
    } else {
        offs
    }
}

/// The `fix` step: bond creation on the neighbour at dir1 ("first operand"),
/// towards the atom at the first operand's dir2 side ("second operand").
/// Fails without mutation when either operand atom is missing, or when both
/// bond slots of the first operand are already taken (only `if` atoms own a
/// second, "then" slot).
pub open spec fn spec_fix(
    cells: Seq<Atom>,
    energy: int,
    offs: int,
    a: Atom,
    fix_energy: int,
    width: int,
    size: int,
) -> StepOut {
    let offs0 = spec_offs(offs, spec_dir1(a) as int, width, size);
    let a0 = cells[offs0];
    let d0 = spec_dir2(a);
    let second = cells[spec_offs(offs0, d0 as int, width, size)];
    if !spec_is_atom(a0) || !spec_is_atom(second) {
        StepOut { cells, energy, offs, ok: false }
    } else if !spec_has_vm_bond(a0) {
        StepOut {
            cells: cells.update(offs0, spec_set_vm_bond(spec_set_vm_dir(a0, d0))),
            energy: energy - fix_energy,
            offs: spec_vm_advance(offs, a, width, size),
            ok: true,
        }
    } else if spec_type(a0) != ATOM_IF {
        StepOut { cells, energy, offs, ok: false }
    } else if !spec_has_dir2_bond(a0) {
        StepOut {
            cells: cells.update(offs0, spec_set_dir2_bond(spec_set_dir2(a0, d0))),
            energy: energy - fix_energy,
            offs: spec_vm_advance(offs, a, width, size),
            ok: true,
        }
    } else {
        StepOut { cells, energy, offs, ok: false }
    }
}

/// The `spl` step: the mirror of `fix`. Clears the first operand's VM-bond,
/// or failing that the then-bond of an `if` first operand, and credits
/// `spl_energy` back.
pub open spec fn spec_spl(
    cells: Seq<Atom>,
    energy: int,
    offs: int,
    a: Atom,
    spl_energy: int,
    width: int,
    size: int,
) -> StepOut {
    let offs0 = spec_offs(offs, spec_dir1(a) as int, width, size);
    let a0 = cells[offs0];
    let d0 = spec_dir2(a);
    let second = cells[spec_offs(offs0, d0 as int, width, size)];
    if !spec_is_atom(a0) || !spec_is_atom(second) {
        StepOut { cells, energy, offs, ok: false }
    } else if spec_has_vm_bond(a0) {
        StepOut {
            cells: cells.update(offs0, spec_reset_vm_bond(a0)),
            energy: energy + spl_energy,
            offs: spec_vm_advance(offs, a, width, size),
            ok: true,
        }
    } else if spec_type(a0) != ATOM_IF {
        StepOut { cells, energy, offs, ok: false }
    } else if spec_has_dir2_bond(a0) {
        StepOut {
            cells: cells.update(offs0, spec_reset_dir2_bond(a0)),
            energy: energy + spl_energy,
            offs: spec_vm_advance(offs, a, width, size),
            ok: true,
        }
    } else {
        StepOut { cells, energy, offs, ok: false }
    }
}

/// The `if` step: never writes the world. The "then" branch wins whenever the
/// atom has an active then-bond and a dir1-neighbour is present; only
/// otherwise is the VM-bond ("else") branch taken.
pub open spec fn spec_if(
    cells: Seq<Atom>,
    energy: int,
    offs: int,
    a: Atom,
    if_energy: int,
    width: int,
    size: int,
) -> StepOut {
    if spec_has_dir2_bond(a)
        && spec_is_atom(cells[spec_offs(offs, spec_dir1(a) as int, width, size)]) {
        StepOut {
            cells,
            energy: energy - if_energy,
            offs: spec_offs(offs, spec_dir2(a) as int, width, size),
            ok: true,
        }
    } else if spec_has_vm_bond(a) {
        StepOut {
            cells,
            energy: energy - if_energy,
            offs: spec_offs(offs, spec_vm_dir(a) as int, width, size),
            ok: true,
        }
    } else {
        StepOut { cells, energy, offs, ok: false }
    }
}

/// Half of the energy, rounded towards zero, as the machine's signed division
/// computes it.
pub open spec fn spec_half(e: int) -> int {
    if e >= 0 { e / 2 } else { -((-e) / 2) }
}


/// The traversal state a fresh `mov` step starts from: only the VM's own
/// offset is scheduled, nothing is handled yet.
pub open spec fn mov_init(cells: Seq<Atom>, offs: int, energy: int, a: Atom) -> MovState {
    MovState {
        cells,
        stack: seq![offs as isize],
        buf: Seq::empty(),
        energy,
        own: a,
    }
}

/// The traversal state as the engine currently holds it.
pub open spec fn mov_cur(core: Core, vm: VM, own: Atom) -> MovState {
    MovState {
        cells: core.world@,
        stack: core.stack@,
        buf: core.buf@,
        energy: vm@.energy,
        own,
    }
}

/// Debiting a per-move cost at most `size` times stays within the bounds the
/// first and the `size`-th debit set.
pub proof fn lemma_energy_bound(e0: int, me: int, kk: int, size: int)
    requires
        in_isize(e0),
        in_isize(e0 - size * me),
        0 <= kk <= size,
    ensures
        in_isize(e0 - kk * me),
{
    if me >= 0 {
        assert(0 <= kk * me <= size * me) by (nonlinear_arith)
            requires 0 <= kk <= size, me >= 0,
        {}
    } else {
        assert(size * me <= kk * me <= 0) by (nonlinear_arith)
            requires 0 <= kk <= size, me < 0,
        {}
    }
}

/// Linear scan of a scratch buffer for one offset.
fn contains_offs(v: &Vec<Offs>, x: Offs) -> (r: bool)
    ensures
        r == v@.contains(x),
{
    let mut i: usize = 0;
    while i < v.len()
        invariant
            i <= v@.len(),
            forall|k: int| 0 <= k < i ==> v@[k] != x,
        decreases v@.len() - i,
    {
        if v[i] == x {
            return true;
        }
        i = i + 1;
    }
    false
}


/// What a dispatched `mov` step promises: the post state is the run of the
/// chain-move machine, the VM followed its own atom's VM-bond if one ended
/// up active, and the step reports work done.
pub open spec fn mov_rel(
    pre_vm: VMState,
    pre: Core,
    a: Atom,
    post_vm: VMState,
    post: Core,
    r: bool,
) -> bool {
    let fin = spec_mov_run(
        mov_init(pre.world@, pre_vm.offs, pre_vm.energy, a),
        spec_dir1(a) as int,
        pre_vm.offs as isize,
        pre.cfg.mov_energy as int,
        pre.world.spec_width(),
        pre.world@.len() as int,
    );
    &&& post.world@ == fin.cells
    &&& post_vm.energy == fin.energy
    &&& post_vm.offs == spec_vm_advance(
        pre_vm.offs,
        fin.own,
        pre.world.spec_width(),
        pre.world@.len() as int,
    )
    &&& post.stack@ == fin.stack
    &&& post.buf@ == fin.buf
    &&& r
    &&& world_geo_same(pre, post)
    &&& pool_same(pre, post)
    &&& cfg_same(pre, post)
}

/// What a dispatched `fix` step promises.
pub open spec fn fix_rel(
    pre_vm: VMState,
    pre: Core,
    a: Atom,
    post_vm: VMState,
    post: Core,
    r: bool,
) -> bool {
    let so = spec_fix(
        pre.world@,
        pre_vm.energy,
        pre_vm.offs,
        a,
        pre.cfg.fix_energy as int,
        pre.world.spec_width(),
        pre.world@.len() as int,
    );
    &&& post.world@ == so.cells
    &&& post_vm.energy == so.energy
    &&& post_vm.offs == so.offs
    &&& r == so.ok
    &&& world_geo_same(pre, post)
    &&& pool_same(pre, post)
    &&& scratch_same(pre, post)
    &&& cfg_same(pre, post)
}

/// What a dispatched `spl` step promises.
pub open spec fn spl_rel(
    pre_vm: VMState,
    pre: Core,
    a: Atom,
    post_vm: VMState,
    post: Core,
    r: bool,
) -> bool {
    let so = spec_spl(
        pre.world@,
        pre_vm.energy,
        pre_vm.offs,
        a,
        pre.cfg.spl_energy as int,
        pre.world.spec_width(),
        pre.world@.len() as int,
    );
    &&& post.world@ == so.cells
    &&& post_vm.energy == so.energy
    &&& post_vm.offs == so.offs
    &&& r == so.ok
    &&& world_geo_same(pre, post)
    &&& pool_same(pre, post)
    &&& scratch_same(pre, post)
    &&& cfg_same(pre, post)
}

/// What a dispatched `if` step promises.
pub open spec fn if_rel(
    pre_vm: VMState,
    pre: Core,
    a: Atom,
    post_vm: VMState,
    post: Core,
    r: bool,
) -> bool {
    let so = spec_if(
        pre.world@,
        pre_vm.energy,
        pre_vm.offs,
        a,
        pre.cfg.if_energy as int,
        pre.world.spec_width(),
        pre.world@.len() as int,
    );
    &&& post.world@ == so.cells
    &&& post_vm.energy == so.energy
    &&& post_vm.offs == so.offs
    &&& r == so.ok
    &&& world_geo_same(pre, post)
    &&& pool_same(pre, post)
    &&& scratch_same(pre, post)
    &&& cfg_same(pre, post)
}

/// What a dispatched `job` step promises: no spawn onto an empty target; an
/// unconditional halving of the spawner's energy once the target is present;
/// a full pool admits nobody, a pool with room admits exactly one VM carrying
/// the halved energy to the target.
pub open spec fn job_rel(
    pre_vm: VMState,
    pre: Core,
    a: Atom,
    post_vm: VMState,
    post: Core,
    r: bool,
) -> bool {
    let target = spec_offs(
        pre_vm.offs,
        spec_vm_dir(a) as int,
        pre.world.spec_width(),
        pre.world@.len() as int,
    );
    let half = spec_half(pre_vm.energy);
    &&& if !spec_is_atom(pre.world@[target]) {
        &&& !r
        &&& post_vm == pre_vm
        &&& pool_same(pre, post)
    } else {
        &&& post_vm.energy == pre_vm.energy - half
        &&& post_vm.offs == pre_vm.offs
        &&& post.vms.spec_max() == pre.vms.spec_max()
        &&& if pre.vms.spec_vms().len() < pre.vms.spec_max() {
            &&& r
            &&& post.vms.spec_vms().len() == pre.vms.spec_vms().len() + 1
            &&& post.vms.spec_vms().subrange(0, pre.vms.spec_vms().len() as int)
                == pre.vms.spec_vms()
            &&& post.vms.spec_vms().last()@.energy == half
            &&& post.vms.spec_vms().last()@.offs == target
            &&& pre_vm.energy >= 0 ==> post.vms.spec_vms().last()@.energy
                == pre_vm.energy / 2
        } else {
            &&& !r
            &&& pool_same(pre, post)
        }
    }
    &&& post.world@ == pre.world@
    &&& world_geo_same(pre, post)
    &&& scratch_same(pre, post)
    &&& cfg_same(pre, post)
}

/// Energy arithmetic of one step stays inside the machine integer, whichever
/// instruction the dispatched atom turns out to be: `mov` may debit its cost
/// once per cell of the world.
pub open spec fn spec_energy_ok(e: int, cfg: Config, size: int) -> bool {
    &&& in_isize(e - cfg.fix_energy)
    &&& in_isize(e + cfg.spl_energy)
    &&& in_isize(e - cfg.if_energy)
    &&& in_isize(e - size * cfg.mov_energy)
}


/// Law: energy conservation of `fix` then `spl`. A successful `fix`, followed
/// from the same offset by a `spl` naming the same pair of operands, returns
/// the VM's energy to its pre-`fix` value exactly, whenever the two
/// instructions debit and credit one constant.
pub proof fn lemma_fix_spl_energy(
    cells: Seq<Atom>,
    energy: int,
    offs: int,
    a: Atom,
    b: Atom,
    cost: int,
    width: int,
    size: int,
)
    requires
        cells.len() == size,
        0 <= offs < size,
        2 <= width,
        2 * width <= size,
        spec_dir1(b) == spec_dir1(a),
        spec_dir2(b) == spec_dir2(a),
        spec_fix(cells, energy, offs, a, cost, width, size).ok,
    ensures
        spec_spl(
            spec_fix(cells, energy, offs, a, cost, width, size).cells,
            spec_fix(cells, energy, offs, a, cost, width, size).energy,
            offs,
            b,
            cost,
            width,
            size,
        ).ok,
        spec_spl(
            spec_fix(cells, energy, offs, a, cost, width, size).cells,
            spec_fix(cells, energy, offs, a, cost, width, size).energy,
            offs,
            b,
            cost,
            width,
            size,
        ).energy == energy,
{
    let d1a = spec_dir1(a) as int;
    lemma_field_ranges(a);
    lemma_spec_offs_range(offs, d1a, width, size);
    let offs0 = spec_offs(offs, d1a, width, size);
    let a0 = cells[offs0];
    let d0 = spec_dir2(a);
    lemma_spec_offs_range(offs0, d0 as int, width, size);
    lemma_spec_offs_neq(offs0, d0 as int, width, size);
    let second_pos = spec_offs(offs0, d0 as int, width, size);
    let f = spec_fix(cells, energy, offs, a, cost, width, size);
    if !spec_has_vm_bond(a0) {
        let a0p = spec_set_vm_bond(spec_set_vm_dir(a0, d0));
        lemma_set_vm_dir_fields(a0, d0);
        lemma_vm_bond_fields(spec_set_vm_dir(a0, d0));
        assert(f.cells == cells.update(offs0, a0p));
        assert(f.cells[second_pos] == cells[second_pos]);
        assert(spec_is_atom(f.cells[offs0]) && spec_has_vm_bond(f.cells[offs0]));
    } else {
        let a0p = spec_set_dir2_bond(spec_set_dir2(a0, d0));
        lemma_set_dir2_fields(a0, d0);
        lemma_dir2_bond_fields(spec_set_dir2(a0, d0));
        assert(f.cells == cells.update(offs0, a0p));
        assert(f.cells[second_pos] == cells[second_pos]);
        assert(spec_is_atom(f.cells[offs0]) && spec_has_vm_bond(f.cells[offs0]));
    }
}

/// Law: `if` determinism. With an active then-bond and a present
/// dir1-neighbour the `if` step always takes the then branch — the VM walks
/// along dir2 — no matter whether a VM-bond is present too.
pub proof fn lemma_if_then_deterministic(
    cells: Seq<Atom>,
    energy: int,
    offs: int,
    a: Atom,
    if_energy: int,
    width: int,
    size: int,
)
    requires
        spec_has_dir2_bond(a),
        spec_is_atom(cells[spec_offs(offs, spec_dir1(a) as int, width, size)]),
    ensures
        spec_if(cells, energy, offs, a, if_energy, width, size).ok,
        spec_if(cells, energy, offs, a, if_energy, width, size).offs
            == spec_offs(offs, spec_dir2(a) as int, width, size),
        spec_if(cells, energy, offs, a, if_energy, width, size).energy
            == energy - if_energy,
        spec_if(cells, energy, offs, a, if_energy, width, size).cells == cells,
{
}

impl View for VM {
    type V = VMState;

    closed spec fn view(&self) -> VMState {
        VMState { energy: self.energy as int, offs: self.offs as int }
    }
}

impl VM {
    /// Creates a VM with the given initial energy, standing at `offs`.
    pub fn new(energy: isize, offs: Offs) -> (vm: VM)
        ensures
            vm@.energy == energy,
            vm@.offs == offs,
    {
        VM { energy, offs }
    }

    /// Returns the energy amount of this VM.
    pub fn get_energy(&self) -> (e: isize)
        ensures
            e == self@.energy,
    {
        self.energy
    }

    /// Returns the offset this VM currently stands on.
    pub fn get_offs(&self) -> (o: Offs)
        ensures
            o == self@.offs,
    {
        self.offs
    }



    /// Runs one step: reads the atom at this VM's offset, returns false on an
    /// empty cell or an unused type code, and otherwise dispatches to the
    /// handler of the atom's type. The result says whether the step performed
    /// any useful work.
    pub fn run_atom(&mut self, core: &mut Core) -> (r: bool)
        requires
            old(core).world.wf(),
            0 <= old(self)@.offs < old(core).world@.len(),
            spec_energy_ok(old(self)@.energy, old(core).cfg, old(core).world@.len() as int),
        ensures
            ({
                let a = old(core).world@[old(self)@.offs];
                let t = spec_type(a);
                &&& (t == ATOM_EMPTY || t == 6 || t == 7) ==> !r && *final(self)
                    == *old(self) && *final(core) == *old(core)
                &&& t == ATOM_MOV ==> mov_rel(old(self)@, *old(core), a, final(self)@,
                    *final(core), r)
                &&& t == ATOM_FIX ==> fix_rel(old(self)@, *old(core), a, final(self)@,
                    *final(core), r)
                &&& t == ATOM_SPL ==> spl_rel(old(self)@, *old(core), a, final(self)@,
                    *final(core), r)
                &&& t == ATOM_IF ==> if_rel(old(self)@, *old(core), a, final(self)@,
                    *final(core), r)
                &&& t == ATOM_JOB ==> job_rel(old(self)@, *old(core), a, final(self)@,
                    *final(core), r)
            }),
    {
        let a = core.world.get_atom(self.offs);
        let t = get_type(a);
        if t == ATOM_EMPTY {
            return false;
        }
        if t == ATOM_MOV {
            return self.atom_mov(a, core);
        }
        if t == ATOM_FIX {
            return self.atom_fix(a, core);
        }
        if t == ATOM_SPL {
            return self.atom_spl(a, core);
        }
        if t == ATOM_IF {
            return self.atom_if(a, core);
        }
        if t == ATOM_JOB {
            return self.atom_job(a, core);
        }
        self.atom_empty(a, core)
    }

    /// Implements the `mov` atom: slides the atom under the VM one cell
    /// towards its dir1 direction, pushing a blocking chain out of the way
    /// first and repairing every affected VM-bond and then-bond by the
    /// direction transform tables. Afterwards, if the VM's own atom ended up
    /// with an active VM-bond, the VM follows it one cell.
    ///
    /// The whole step is the run of the chain-move state machine
    /// (`spec_mov_run`) started from this world with only the VM's offset
    /// scheduled.
    pub fn atom_mov(&mut self, a: Atom, core: &mut Core) -> (r: bool)
        requires
            old(core).world.wf(),
            0 <= old(self)@.offs < old(core).world@.len(),
            spec_is_atom(old(core).world@[old(self)@.offs]),
            in_isize(
                old(self)@.energy - old(core).world@.len() * old(core).cfg.mov_energy,
            ),
        ensures
            ({
                let fin = spec_mov_run(
                    mov_init(old(core).world@, old(self)@.offs, old(self)@.energy, a),
                    spec_dir1(a) as int,
                    old(self)@.offs as isize,
                    old(core).cfg.mov_energy as int,
                    old(core).world.spec_width(),
                    old(core).world@.len() as int,
                );
                &&& final(core).world@ == fin.cells
                &&& final(self)@.energy == fin.energy
                &&& final(self)@.offs == spec_vm_advance(
                    old(self)@.offs,
                    fin.own,
                    old(core).world.spec_width(),
                    old(core).world@.len() as int,
                )
                &&& final(core).stack@ == fin.stack
                &&& final(core).buf@ == fin.buf
            }),
            r,
            world_geo_same(*old(core), *final(core)),
            pool_same(*old(core), *final(core)),
            cfg_same(*old(core), *final(core)),
    {
        let ghost width = core.world.spec_width();
        let ghost size = core.world@.len() as int;
        let ghost me_g = core.cfg.mov_energy as int;
        let ghost e0 = self@.energy;
        let dir = get_dir1(a);
        let mov_energy = core.cfg.mov_energy;
        let orig = self.offs;
        core.stack.clear();
        core.buf.clear();
        core.stack.push(orig);
        let mut own_atom: Atom = a;
        let ghost init = mov_init(old(core).world@, old(self)@.offs, old(self)@.energy, a);
        proof {
            core.world.lemma_wf_size();
            assert(core.stack@ =~= seq![orig]);
            assert(core.buf@ =~= Seq::<Offs>::empty());
            assert(mov_cur(*core, *self, own_atom) == init);
        }
        let ghost mut k: int = 0;
        while core.stack.len() > 0
            invariant
                core.world.wf(),
                core.world.spec_width() == width,
                core.world.spec_height() == old(core).world.spec_height(),
                core.world@.len() == size,
                2 <= width && 2 * width <= size && size <= MAX_CELLS,
                self@.offs == old(self)@.offs,
                self@.offs == orig,
                0 <= orig < size,
                dir == spec_dir1(a) && dir < 8,
                me_g == core.cfg.mov_energy as int,
                mov_energy == core.cfg.mov_energy,
                self@.energy == e0 - k * me_g,
                0 <= k <= core.buf@.len(),
                in_isize(e0) && in_isize(e0 - size * me_g),
                mov_wf(mov_cur(*core, *self, own_atom), size),
                spec_mov_run(mov_cur(*core, *self, own_atom), dir as int, orig, me_g,
                    width, size)
                    == spec_mov_run(init, dir as int, orig, me_g, width, size),
                pool_same(*old(core), *core),
                cfg_same(*old(core), *core),
            decreases mov_measure(mov_cur(*core, *self, own_atom), size),
        {
            let ghost s_prev = mov_cur(*core, *self, own_atom);
            proof {
                lemma_mov_step(s_prev, dir as int, orig, me_g, width, size);
            }
            let t = core.stack[core.stack.len() - 1];
            proof {
                assert(t == s_prev.stack.last());
                assert(0 <= t < size && spec_is_atom(core.world@[t as int]));
            }
            let to = core.world.get_offs(t, dir);
            if core.world.is_atom(to) {
                if !contains_offs(&core.buf, to) && !contains_offs(&core.stack, to) {
                    core.stack.push(to);
                } else {
                    core.stack.pop();
                    core.buf.push(t);
                    if t == orig {
                        own_atom = core.world.get_atom(t);
                    }
                }
            } else {
                let a_t = core.world.get_atom(t);
                core.stack.pop();
                proof {
                    assert(t != to);
                    lemma_energy_bound(e0, me_g, k + 1, size);
                    assert((k + 1) * me_g == k * me_g + me_g) by (nonlinear_arith);
                }
                core.world.mov_atom(t, to);
                core.buf.push(to);
                self.energy = self.energy - mov_energy;
                proof {
                    k = k + 1;
                }
                let mut cur_atom = a_t;
                if has_vm_bond(a_t) {
                    let d0 = get_vm_dir(a_t);
                    let d1 = dir_mov_atom(d0, dir);
                    let o = core.world.get_offs(t, d0);
                    if d1 == DIR_NO {
                        if core.world.is_atom(o) && !contains_offs(&core.buf, o)
                            && !contains_offs(&core.stack, o) {
                            core.stack.push(o);
                        }
                    } else {
                        set_vm_dir(&mut cur_atom, d1);
                        set_vm_bond(&mut cur_atom);
                        core.world.set_atom(to, cur_atom);
                        let nb = core.world.get_atom(o);
                        let dr = rev_dir(d0);
                        if is_atom(nb) && has_vm_bond(nb) && get_vm_dir(nb) == dr {
                            let d1n = dir_near_atom(dr, dir);
                            if d1n != DIR_NO {
                                let mut nb2 = nb;
                                set_vm_dir(&mut nb2, d1n);
                                set_vm_bond(&mut nb2);
                                core.world.set_atom(o, nb2);
                            }
                        }
                    }
                }
                if get_type(cur_atom) == ATOM_IF && has_dir2_bond(cur_atom) {
                    let d0b = get_dir2(cur_atom);
                    let d1b = dir_mov_atom(d0b, dir);
                    let ob = core.world.get_offs(t, d0b);
                    if d1b == DIR_NO {
                        if core.world.is_atom(ob) && !contains_offs(&core.buf, ob)
                            && !contains_offs(&core.stack, ob) {
                            core.stack.push(ob);
                        }
                    } else {
                        set_dir2(&mut cur_atom, d1b);
                        core.world.set_atom(to, cur_atom);
                        let nb = core.world.get_atom(ob);
                        let drb = rev_dir(d0b);
                        if is_atom(nb) && has_dir2_bond(nb) && get_dir2(nb) == drb {
                            let d1nb = dir_near_atom(drb, dir);
                            if d1nb != DIR_NO {
                                let mut nb2 = nb;
                                set_dir2(&mut nb2, d1nb);
                                core.world.set_atom(ob, nb2);
                            }
                        }
                    }
                }
                if t == orig {
                    own_atom = cur_atom;
                }
            }
            proof {
                assert(mov_cur(*core, *self, own_atom)
                    == mov_next(s_prev, dir as int, orig, me_g, width, size));
                assert(spec_mov_run(s_prev, dir as int, orig, me_g, width, size)
                    == spec_mov_run(mov_next(s_prev, dir as int, orig, me_g, width, size),
                        dir as int, orig, me_g, width, size));
            }
        }
        proof {
            let cur = mov_cur(*core, *self, own_atom);
            assert(cur.stack.len() == 0);
            assert(spec_mov_run(cur, dir as int, orig, me_g, width, size) == cur);
        }
        if has_vm_bond(own_atom) {
            self.offs = core.world.get_offs(self.offs, get_vm_dir(own_atom));
        }
        true
    }

    /// Implements the `fix` atom: creates a VM-bond between two atoms, or, if
    /// the first operand already has one and is an `if` atom, its then-bond.
    /// Consumes energy on success.
    pub fn atom_fix(&mut self, a: Atom, core: &mut Core) -> (r: bool)
        requires
            old(core).world.wf(),
            0 <= old(self)@.offs < old(core).world@.len(),
            in_isize(old(self)@.energy - old(core).cfg.fix_energy),
        ensures
            ({
                let so = spec_fix(
                    old(core).world@,
                    old(self)@.energy,
                    old(self)@.offs,
                    a,
                    old(core).cfg.fix_energy as int,
                    old(core).world.spec_width(),
                    old(core).world@.len() as int,
                );
                &&& final(core).world@ == so.cells
                &&& final(self)@.energy == so.energy
                &&& final(self)@.offs == so.offs
                &&& r == so.ok
            }),
            world_geo_same(*old(core), *final(core)),
            pool_same(*old(core), *final(core)),
            scratch_same(*old(core), *final(core)),
            cfg_same(*old(core), *final(core)),
    {
        let offs0 = core.world.get_offs(self.offs, get_dir1(a));
        let mut atom0 = core.world.get_atom(offs0);
        if !is_atom(atom0) {
            return false;
        }
        let d0 = get_dir2(a);
        if !is_atom(core.world.get_dir_atom(offs0, d0)) {
            return false;
        }
        if !has_vm_bond(atom0) {
            set_vm_dir(&mut atom0, d0);
            set_vm_bond(&mut atom0);
            core.world.set_atom(offs0, atom0);
            if has_vm_bond(a) {
                self.offs = core.world.get_offs(self.offs, get_vm_dir(a));
            }
            self.energy = self.energy - core.cfg.fix_energy;
            return true;
        }
        if get_type(atom0) != ATOM_IF {
            return false;
        }
        if !has_dir2_bond(atom0) {
            set_dir2(&mut atom0, d0);
            set_dir2_bond(&mut atom0);
            core.world.set_atom(offs0, atom0);
            if has_vm_bond(a) {
                self.offs = core.world.get_offs(self.offs, get_vm_dir(a));
            }
            self.energy = self.energy - core.cfg.fix_energy;
            return true;
        }
        false
    }

    /// Implements the `spl` atom: splits the first operand's VM-bond, or, for
    /// an `if` first operand, its then-bond. Releases energy on success.
    pub fn atom_spl(&mut self, a: Atom, core: &mut Core) -> (r: bool)
        requires
            old(core).world.wf(),
            0 <= old(self)@.offs < old(core).world@.len(),
            in_isize(old(self)@.energy + old(core).cfg.spl_energy),
        ensures
            ({
                let so = spec_spl(
                    old(core).world@,
                    old(self)@.energy,
                    old(self)@.offs,
                    a,
                    old(core).cfg.spl_energy as int,
                    old(core).world.spec_width(),
                    old(core).world@.len() as int,
                );
                &&& final(core).world@ == so.cells
                &&& final(self)@.energy == so.energy
                &&& final(self)@.offs == so.offs
                &&& r == so.ok
            }),
            world_geo_same(*old(core), *final(core)),
            pool_same(*old(core), *final(core)),
            scratch_same(*old(core), *final(core)),
            cfg_same(*old(core), *final(core)),
    {
        let offs0 = core.world.get_offs(self.offs, get_dir1(a));
        let mut atom0 = core.world.get_atom(offs0);
        if !is_atom(atom0) {
            return false;
        }
        let d0 = get_dir2(a);
        if !is_atom(core.world.get_dir_atom(offs0, d0)) {
            return false;
        }
        if has_vm_bond(atom0) {
            reset_vm_bond(&mut atom0);
            core.world.set_atom(offs0, atom0);
            if has_vm_bond(a) {
                self.offs = core.world.get_offs(self.offs, get_vm_dir(a));
            }
            self.energy = self.energy + core.cfg.spl_energy;
            return true;
        }
        if get_type(atom0) != ATOM_IF {
            return false;
        }
        if has_dir2_bond(atom0) {
            reset_dir2_bond(&mut atom0);
            core.world.set_atom(offs0, atom0);
            if has_vm_bond(a) {
                self.offs = core.world.get_offs(self.offs, get_vm_dir(a));
            }
            self.energy = self.energy + core.cfg.spl_energy;
            return true;
        }
        false
    }

    /// Implements the `if` atom: takes the "then" branch (walk along dir2)
    /// when the then-bond is active and a dir1-neighbour exists, else the
    /// VM-bond branch, else does nothing.
    pub fn atom_if(&mut self, a: Atom, core: &mut Core) -> (r: bool)
        requires
            old(core).world.wf(),
            0 <= old(self)@.offs < old(core).world@.len(),
            in_isize(old(self)@.energy - old(core).cfg.if_energy),
        ensures
            ({
                let so = spec_if(
                    old(core).world@,
                    old(self)@.energy,
                    old(self)@.offs,
                    a,
                    old(core).cfg.if_energy as int,
                    old(core).world.spec_width(),
                    old(core).world@.len() as int,
                );
                &&& final(core).world@ == so.cells
                &&& final(self)@.energy == so.energy
                &&& final(self)@.offs == so.offs
                &&& r == so.ok
            }),
            world_geo_same(*old(core), *final(core)),
            pool_same(*old(core), *final(core)),
            scratch_same(*old(core), *final(core)),
            cfg_same(*old(core), *final(core)),
    {
        if has_dir2_bond(a) && is_atom(core.world.get_dir_atom(self.offs, get_dir1(a))) {
            self.offs = core.world.get_offs(self.offs, get_dir2(a));
            self.energy = self.energy - core.cfg.if_energy;
            return true;
        }
        if has_vm_bond(a) {
            self.offs = core.world.get_offs(self.offs, get_vm_dir(a));
            self.energy = self.energy - core.cfg.if_energy;
            return true;
        }
        false
    }

    /// Implements the `job` atom: spawns one new VM at the offset the atom's
    /// VM-bond direction points at, when an atom is present there. The
    /// spawner's energy is halved before the pool's capacity is consulted, so
    /// a spawn refused by a full pool still costs the energy.
    pub fn atom_job(&mut self, a: Atom, core: &mut Core) -> (r: bool)
        requires
            old(core).world.wf(),
            0 <= old(self)@.offs < old(core).world@.len(),
        ensures
            ({
                let target = spec_offs(
                    old(self)@.offs,
                    spec_vm_dir(a) as int,
                    old(core).world.spec_width(),
                    old(core).world@.len() as int,
                );
                let half = spec_half(old(self)@.energy);
                if !spec_is_atom(old(core).world@[target]) {
                    &&& !r
                    &&& final(self)@ == old(self)@
                    &&& pool_same(*old(core), *final(core))
                } else {
                    &&& final(self)@.energy == old(self)@.energy - half
                    &&& final(self)@.offs == old(self)@.offs
                    &&& final(core).vms.spec_max() == old(core).vms.spec_max()
                    &&& if old(core).vms.spec_vms().len() < old(core).vms.spec_max() {
                        &&& r
                        &&& final(core).vms.spec_vms().len()
                            == old(core).vms.spec_vms().len() + 1
                        &&& final(core).vms.spec_vms().subrange(
                            0,
                            old(core).vms.spec_vms().len() as int,
                        ) == old(core).vms.spec_vms()
                        &&& final(core).vms.spec_vms().last()@.energy == half
                        &&& final(core).vms.spec_vms().last()@.offs == target
                        &&& old(self)@.energy >= 0
                            ==> final(core).vms.spec_vms().last()@.energy
                                == old(self)@.energy / 2
                    } else {
                        &&& !r
                        &&& pool_same(*old(core), *final(core))
                    }
                }
            }),
            final(core).world@ == old(core).world@,
            world_geo_same(*old(core), *final(core)),
            scratch_same(*old(core), *final(core)),
            cfg_same(*old(core), *final(core)),
    {
        let offs = core.world.get_offs(self.offs, get_vm_dir(a));
        if !is_atom(core.world.get_atom(offs)) {
            return false;
        }
        let energy = self.energy / 2;
        self.energy = self.energy - energy;
        if !core.vms.full() {
            core.vms.add(VM::new(energy, offs));
            return true;
        }
        false
    }

    /// Stub handler of the empty cell and of the unused type codes: performs
    /// no work.
    pub fn atom_empty(&mut self, _a: Atom, _core: &mut Core) -> (r: bool)
        ensures
            !r,
            final(self)@ == old(self)@,
            *final(_core) == *old(_core),
    {
        false
    }
}


} // verus!
