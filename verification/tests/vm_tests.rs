//! Tests of the instruction handlers through `run_atom`.

use atomvm::atom::{get_vm_dir, has_vm_bond};
use atomvm::cfg::Config;
use atomvm::pool::VMPool;
use atomvm::vm::{Core, VM};
use atomvm::world::World;

fn test_cfg() -> Config {
    Config { mov_energy: 2, fix_energy: 5, spl_energy: 5, if_energy: 3 }
}

fn test_core(max_vms: usize) -> Core {
    Core::new(World::new(10, 10), VMPool::new(max_vms), test_cfg())
}

#[test]
fn test_new() {
    let mut core = test_core(1);
    let mut vm = VM::new(100, 0);
    core.world.set_atom(0, 0b0010_0000_1100_0000); // atom: mov right
    assert_eq!(core.world.get_atom(0), 0b0010_0000_1100_0000);
    vm.run_atom(&mut core);
    assert_eq!(core.world.get_atom(1), 0b0010_0000_1100_0000);
}

#[test]
fn mov_single_atom_one_cell_right() {
    // a lone mov atom with no bonds slides one cell and costs one debit
    let mut core = test_core(1);
    let mut vm = VM::new(100, 0);
    core.world.set_atom(0, 0x20C0);
    let worked = vm.run_atom(&mut core);
    assert!(worked);
    assert_eq!(core.world.get_atom(0), 0);
    assert_eq!(core.world.get_atom(1), 0x20C0);
    assert_eq!(vm.get_energy(), 100 - 2);
    assert_eq!(vm.get_offs(), 0);
}

#[test]
fn mov_two_bonded_atoms_stay_bonded() {
    // A at 0 bonded right to B at 1, B bonded left back to A; moving A right
    // drags B and keeps the pair mutually bonded
    let mut core = test_core(1);
    let mut vm = VM::new(100, 0);
    let a: u16 = 0x2EC0; // mov, dir1 right, vm-dir right + bond
    let b: u16 = 0x3E00; // mov, vm-dir left + bond
    core.world.set_atom(0, a);
    core.world.set_atom(1, b);
    let worked = vm.run_atom(&mut core);
    assert!(worked);
    assert_eq!(core.world.get_atom(0), 0);
    assert_eq!(core.world.get_atom(1), a);
    assert_eq!(core.world.get_atom(2), b);
    // bonds still point at each other
    assert!(has_vm_bond(core.world.get_atom(1)));
    assert_eq!(get_vm_dir(core.world.get_atom(1)), 3);
    assert!(has_vm_bond(core.world.get_atom(2)));
    assert_eq!(get_vm_dir(core.world.get_atom(2)), 7);
    // two atoms moved, two debits; the VM followed its atom's bond
    assert_eq!(vm.get_energy(), 100 - 2 * 2);
    assert_eq!(vm.get_offs(), 1);
}

#[test]
fn mov_chain_of_three_moves_as_one() {
    // a straight chain of three bonded atoms relocates by one cell in one
    // step, with every bond preserved
    let mut core = test_core(1);
    let mut vm = VM::new(100, 0);
    let v: u16 = 0x2EC0; // mov, dir1 right, vm-dir right + bond
    core.world.set_atom(0, v);
    core.world.set_atom(1, v);
    core.world.set_atom(2, v);
    let worked = vm.run_atom(&mut core);
    assert!(worked);
    assert_eq!(core.world.get_atom(0), 0);
    assert_eq!(core.world.get_atom(1), v);
    assert_eq!(core.world.get_atom(2), v);
    assert_eq!(core.world.get_atom(3), v);
    assert_eq!(vm.get_energy(), 100 - 3 * 2);
    assert_eq!(vm.get_offs(), 1);
}

#[test]
fn fix_creates_bond_and_spl_returns_the_energy() {
    // fix bonds the dir1-neighbour towards the second operand; an immediate
    // spl on the same operands refunds exactly the fix debit
    let mut core = test_core(1);
    let mut vm = VM::new(100, 0);
    core.world.set_atom(0, 0x40D8); // fix, dir1 right, dir2 right
    core.world.set_atom(1, 0x2000); // first operand, no bonds
    core.world.set_atom(2, 0x2000); // second operand
    let worked = vm.run_atom(&mut core);
    assert!(worked);
    assert_eq!(core.world.get_atom(1), 0x2E00); // vm-dir right + bond set
    assert_eq!(vm.get_energy(), 100 - 5);
    assert_eq!(vm.get_offs(), 0);
    core.world.set_atom(0, 0x60D8); // spl, same operands
    let worked2 = vm.run_atom(&mut core);
    assert!(worked2);
    assert_eq!(core.world.get_atom(1), 0x2C00); // bond flag cleared
    assert_eq!(vm.get_energy(), 100);
}

#[test]
fn fix_fails_without_operands() {
    let mut core = test_core(1);
    let mut vm = VM::new(100, 0);
    core.world.set_atom(0, 0x40D8); // fix, but no first operand at 1
    assert!(!vm.run_atom(&mut core));
    assert_eq!(vm.get_energy(), 100);
    core.world.set_atom(1, 0x2000); // first operand only, second missing
    assert!(!vm.run_atom(&mut core));
    assert_eq!(vm.get_energy(), 100);
}

#[test]
fn spl_fails_when_nothing_is_bonded() {
    let mut core = test_core(1);
    let mut vm = VM::new(100, 0);
    core.world.set_atom(0, 0x60D8); // spl
    core.world.set_atom(1, 0x2000); // first operand without any bond
    core.world.set_atom(2, 0x2000);
    assert!(!vm.run_atom(&mut core));
    assert_eq!(vm.get_energy(), 100);
    assert_eq!(core.world.get_atom(1), 0x2000);
}

#[test]
fn if_takes_then_branch_despite_vm_bond() {
    // then-bond active and dir1-neighbour present: the then branch wins even
    // though a VM-bond pointing elsewhere is also active
    let mut core = test_core(1);
    let mut vm = VM::new(100, 0);
    core.world.set_atom(0, 0x9EEA); // if; vm-dir left+bond; dir1 right; dir2 down+bond
    core.world.set_atom(1, 0x2000); // the dir1-neighbour
    let worked = vm.run_atom(&mut core);
    assert!(worked);
    assert_eq!(vm.get_offs(), 10); // walked down (dir2), not left
    assert_eq!(vm.get_energy(), 100 - 3);
}

#[test]
fn if_takes_else_branch_without_dir1_neighbour() {
    let mut core = test_core(1);
    let mut vm = VM::new(100, 0);
    core.world.set_atom(0, 0x9EEA); // same if atom, but cell 1 stays empty
    let worked = vm.run_atom(&mut core);
    assert!(worked);
    assert_eq!(vm.get_offs(), 99); // walked along the VM-bond (left, wrapped)
    assert_eq!(vm.get_energy(), 100 - 3);
}

#[test]
fn if_without_any_bond_does_nothing() {
    let mut core = test_core(1);
    let mut vm = VM::new(100, 0);
    core.world.set_atom(0, 0x80C0); // if with dir1 set but no bond flags
    core.world.set_atom(1, 0x2000);
    assert!(!vm.run_atom(&mut core));
    assert_eq!(vm.get_offs(), 0);
    assert_eq!(vm.get_energy(), 100);
}

#[test]
fn job_spawns_one_vm_with_half_the_energy() {
    let mut core = test_core(1);
    let mut vm = VM::new(100, 0);
    core.world.set_atom(0, 0xAC00); // job, vm-dir right
    core.world.set_atom(1, 0x2000); // something to spawn onto
    let worked = vm.run_atom(&mut core);
    assert!(worked);
    assert_eq!(core.vms.len(), 1);
    assert_eq!(core.vms.get(0).get_energy(), 50);
    assert_eq!(core.vms.get(0).get_offs(), 1);
    assert_eq!(vm.get_energy(), 50);
    assert_eq!(vm.get_offs(), 0);
}

#[test]
fn job_on_full_pool_still_costs_energy() {
    let mut core = test_core(1);
    let mut vm = VM::new(100, 0);
    core.world.set_atom(0, 0xAC00);
    core.world.set_atom(1, 0x2000);
    assert!(vm.run_atom(&mut core)); // fills the one pool slot
    let worked = vm.run_atom(&mut core); // pool now full
    assert!(!worked);
    assert_eq!(core.vms.len(), 1); // count did not grow
    assert_eq!(vm.get_energy(), 25); // but the halving already happened
}

#[test]
fn job_without_target_atom_is_free() {
    let mut core = test_core(1);
    let mut vm = VM::new(100, 0);
    core.world.set_atom(0, 0xAC00); // job, vm-dir right, but cell 1 is empty
    assert!(!vm.run_atom(&mut core));
    assert_eq!(core.vms.len(), 0);
    assert_eq!(vm.get_energy(), 100); // no debit without a target
}

#[test]
fn empty_and_unused_type_codes_do_nothing() {
    let mut core = test_core(1);
    let mut vm = VM::new(100, 5);
    assert!(!vm.run_atom(&mut core)); // empty cell
    core.world.set_atom(5, 0xC000); // unused type code 6
    assert!(!vm.run_atom(&mut core));
    core.world.set_atom(5, 0xE000); // unused type code 7
    assert!(!vm.run_atom(&mut core));
    assert_eq!(vm.get_energy(), 100);
    assert_eq!(vm.get_offs(), 5);
}

#[test]
fn mov_rewrites_a_perpendicular_vm_bond_on_both_ends() {
    // A at 20 moves right while its VM-bond points up at N (offset 10), which
    // is bonded back down: both bond directions are rewritten by the
    // transform tables so the pair stays mutually linked diagonally
    let mut core = test_core(1);
    let mut vm = VM::new(100, 20);
    core.world.set_atom(20, 0x26C0); // mov, dir1 right, vm-dir up + bond
    core.world.set_atom(10, 0x3600); // neighbour above, vm-dir down + bond
    let worked = vm.run_atom(&mut core);
    assert!(worked);
    assert_eq!(core.world.get_atom(20), 0);
    assert_eq!(core.world.get_atom(21), 0x22C0); // vm-dir now left-up
    assert_eq!(core.world.get_atom(10), 0x3200); // vm-dir now right-down
    assert_eq!(vm.get_energy(), 100 - 2);
    // the VM follows the repaired bond from its old offset
    assert_eq!(vm.get_offs(), 9);
}

#[test]
fn mov_rewrites_the_then_bond_of_a_pushed_if_atom() {
    // a mov atom pushes an if-typed blocker one cell; the blocker's then-bond
    // and its then-neighbour's matching bond are both rewritten
    let mut core = test_core(1);
    let mut vm = VM::new(100, 20);
    core.world.set_atom(20, 0x20C0); // mov right, no bonds
    core.world.set_atom(21, 0x800A); // if atom, dir2 up + then-bond
    core.world.set_atom(11, 0x202A); // then-neighbour, dir2 down + then-bond
    let worked = vm.run_atom(&mut core);
    assert!(worked);
    assert_eq!(core.world.get_atom(20), 0);
    assert_eq!(core.world.get_atom(21), 0x20C0);
    assert_eq!(core.world.get_atom(22), 0x8002); // dir2 now left-up
    assert_eq!(core.world.get_atom(11), 0x2022); // dir2 now right-down
    assert_eq!(vm.get_energy(), 100 - 2 * 2);
    assert_eq!(vm.get_offs(), 20);
}
