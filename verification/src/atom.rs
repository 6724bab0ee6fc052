//! The atom codec: pure bit-packing and unpacking over a 16-bit cell value.
//!
//! Field layout (bit 15 is the highest):
//! type: bits 15..13; vm-dir: bits 12..10; vm-bond flag: bit 9;
//! dir1: bits 8..6; dir2: bits 5..3; dir1-bond flag: bit 2;
//! dir2-bond flag: bit 1; bit 0 is spare.
//!
//! All handlers go through this codec, never through raw bit patterns, so the
//! layout stays an implementation detail of this module.

use vstd::prelude::*;
use crate::dirs::Dir;

verus! {

/// One atom: the 16-bit packed value representing one grid cell's type and
/// directional bonds. The value 0 denotes an empty cell; a cell holds an atom
/// iff its type field is nonzero.
pub type Atom = u16;

/// Empty cell: no atom.
pub const ATOM_EMPTY: Atom = 0;
/// Type code of the `mov` instruction atom.
pub const ATOM_MOV: Atom = 1;
/// Type code of the `fix` instruction atom.
pub const ATOM_FIX: Atom = 2;
/// Type code of the `spl` instruction atom.
pub const ATOM_SPL: Atom = 3;
/// Type code of the `if` instruction atom.
pub const ATOM_IF: Atom = 4;
/// Type code of the `job` instruction atom.
pub const ATOM_JOB: Atom = 5;

pub const ATOM_TYPE_MASK: Atom = 0b1110_0000_0000_0000;
pub const ATOM_TYPE_UNMASK: Atom = 0b0001_1111_1111_1111;
pub const ATOM_TYPE_SHIFT: u16 = 13;
pub const ATOM_VM_DIR_MASK: Atom = 0b0001_1100_0000_0000;
pub const ATOM_VM_DIR_UNMASK: Atom = 0b1110_0011_1111_1111;
pub const ATOM_VM_DIR_SHIFT: u16 = 10;
pub const ATOM_VM_BOND_MASK: Atom = 0b0000_0010_0000_0000;
pub const ATOM_VM_BOND_UNMASK: Atom = 0b1111_1101_1111_1111;
pub const ATOM_DIR1_MASK: Atom = 0b0000_0001_1100_0000;
pub const ATOM_DIR1_UNMASK: Atom = 0b1111_1110_0011_1111;
pub const ATOM_DIR1_SHIFT: u16 = 6;
pub const ATOM_DIR1_BOND_MASK: Atom = 0b0000_0000_0000_0100;
pub const ATOM_DIR1_BOND_UNMASK: Atom = 0b1111_1111_1111_1011;
pub const ATOM_DIR2_MASK: Atom = 0b0000_0000_0011_1000;
pub const ATOM_DIR2_UNMASK: Atom = 0b1111_1111_1100_0111;
pub const ATOM_DIR2_SHIFT: u16 = 3;
pub const ATOM_DIR2_BOND_MASK: Atom = 0b0000_0000_0000_0010;
pub const ATOM_DIR2_BOND_UNMASK: Atom = 0b1111_1111_1111_1101;

// ---------------------------------------------------------------- spec layer

pub open spec fn spec_type(a: Atom) -> u16 {
    (a & ATOM_TYPE_MASK) >> ATOM_TYPE_SHIFT
}

pub open spec fn spec_is_atom(a: Atom) -> bool {
    spec_type(a) != ATOM_EMPTY
}

pub open spec fn spec_vm_dir(a: Atom) -> u8 {
    ((a & ATOM_VM_DIR_MASK) >> ATOM_VM_DIR_SHIFT) as u8
}

pub open spec fn spec_has_vm_bond(a: Atom) -> bool {
    a & ATOM_VM_BOND_MASK != 0
}

pub open spec fn spec_dir1(a: Atom) -> u8 {
    ((a & ATOM_DIR1_MASK) >> ATOM_DIR1_SHIFT) as u8
}

pub open spec fn spec_has_dir1_bond(a: Atom) -> bool {
    a & ATOM_DIR1_BOND_MASK != 0
}

pub open spec fn spec_dir2(a: Atom) -> u8 {
    ((a & ATOM_DIR2_MASK) >> ATOM_DIR2_SHIFT) as u8
}

pub open spec fn spec_has_dir2_bond(a: Atom) -> bool {
    a & ATOM_DIR2_BOND_MASK != 0
}

pub open spec fn spec_set_type(a: Atom, t: u16) -> Atom
    recommends
        t < 8,
{
    (a & ATOM_TYPE_UNMASK) | (t << ATOM_TYPE_SHIFT)
}

pub open spec fn spec_set_vm_dir(a: Atom, d: u8) -> Atom
    recommends
        d < 8,
{
    (a & ATOM_VM_DIR_UNMASK) | ((d as u16) << ATOM_VM_DIR_SHIFT)
}

pub open spec fn spec_set_vm_bond(a: Atom) -> Atom {
    a | ATOM_VM_BOND_MASK
}

pub open spec fn spec_reset_vm_bond(a: Atom) -> Atom {
    a & ATOM_VM_BOND_UNMASK
}

pub open spec fn spec_set_dir1(a: Atom, d: u8) -> Atom
    recommends
        d < 8,
{
    (a & ATOM_DIR1_UNMASK) | ((d as u16) << ATOM_DIR1_SHIFT)
}

pub open spec fn spec_set_dir1_bond(a: Atom) -> Atom {
    a | ATOM_DIR1_BOND_MASK
}

pub open spec fn spec_reset_dir1_bond(a: Atom) -> Atom {
    a & ATOM_DIR1_BOND_UNMASK
}

pub open spec fn spec_set_dir2(a: Atom, d: u8) -> Atom
    recommends
        d < 8,
{
    (a & ATOM_DIR2_UNMASK) | ((d as u16) << ATOM_DIR2_SHIFT)
}

pub open spec fn spec_set_dir2_bond(a: Atom) -> Atom {
    a | ATOM_DIR2_BOND_MASK
}

pub open spec fn spec_reset_dir2_bond(a: Atom) -> Atom {
    a & ATOM_DIR2_BOND_UNMASK
}

/// The empty cell value holds no atom.
pub proof fn lemma_empty_is_no_atom()
    ensures
        !spec_is_atom(ATOM_EMPTY),
{
    assert((0u16 & 0b1110_0000_0000_0000u16) >> 13u16 == 0u16) by (bit_vector);
}

/// Every 3-bit field decodes to a compass direction or type code below 8.
pub proof fn lemma_field_ranges(a: Atom)
    ensures
        spec_type(a) < 8,
        spec_vm_dir(a) < 8,
        spec_dir1(a) < 8,
        spec_dir2(a) < 8,
{
    assert((a & 0b1110_0000_0000_0000u16) >> 13u16 < 8
        && (((a & 0b0001_1100_0000_0000u16) >> 10u16) as u8) < 8
        && (((a & 0b0000_0001_1100_0000u16) >> 6u16) as u8) < 8
        && (((a & 0b0000_0000_0011_1000u16) >> 3u16) as u8) < 8) by (bit_vector);
}

// ---------------------------------------------------------------- exec layer

/// Extracts the 3-bit type code.
pub fn get_type(a: Atom) -> (t: Atom)
    ensures
        t == spec_type(a),
        t < 8,
{
    proof { lemma_field_ranges(a); }
    (a & ATOM_TYPE_MASK) >> ATOM_TYPE_SHIFT
}

/// An atom is present iff its type field is nonzero.
pub fn is_atom(a: Atom) -> (r: bool)
    ensures
        r == spec_is_atom(a),
{
    get_type(a) != ATOM_EMPTY
}

/// Extracts the VM-bond direction field.
pub fn get_vm_dir(a: Atom) -> (d: Dir)
    ensures
        d == spec_vm_dir(a),
        d < 8,
{
    proof { lemma_field_ranges(a); }
    ((a & ATOM_VM_DIR_MASK) >> ATOM_VM_DIR_SHIFT) as Dir
}

/// Whether the VM-bond flag is set.
pub fn has_vm_bond(a: Atom) -> (r: bool)
    ensures
        r == spec_has_vm_bond(a),
{
    a & ATOM_VM_BOND_MASK != 0
}

/// Extracts the primary link (dir1) direction field.
pub fn get_dir1(a: Atom) -> (d: Dir)
    ensures
        d == spec_dir1(a),
        d < 8,
{
    proof { lemma_field_ranges(a); }
    ((a & ATOM_DIR1_MASK) >> ATOM_DIR1_SHIFT) as Dir
}

/// Whether the dir1-bond flag is set.
pub fn has_dir1_bond(a: Atom) -> (r: bool)
    ensures
        r == spec_has_dir1_bond(a),
{
    a & ATOM_DIR1_BOND_MASK != 0
}

/// Extracts the secondary ("then") link (dir2) direction field.
pub fn get_dir2(a: Atom) -> (d: Dir)
    ensures
        d == spec_dir2(a),
        d < 8,
{
    proof { lemma_field_ranges(a); }
    ((a & ATOM_DIR2_MASK) >> ATOM_DIR2_SHIFT) as Dir
}

/// Whether the dir2-bond flag is set.
pub fn has_dir2_bond(a: Atom) -> (r: bool)
    ensures
        r == spec_has_dir2_bond(a),
{
    a & ATOM_DIR2_BOND_MASK != 0
}

/// Replaces the type field.
pub fn set_type(a: &mut Atom, t: Atom)
    requires
        t < 8,
    ensures
        *final(a) == spec_set_type(*old(a), t),
{
    *a = (*a & ATOM_TYPE_UNMASK) | (t << ATOM_TYPE_SHIFT);
}

/// Replaces the VM-bond direction field.
pub fn set_vm_dir(a: &mut Atom, d: Dir)
    requires
        d < 8,
    ensures
        *final(a) == spec_set_vm_dir(*old(a), d),
{
    *a = (*a & ATOM_VM_DIR_UNMASK) | ((d as u16) << ATOM_VM_DIR_SHIFT);
}

/// Sets the VM-bond flag.
pub fn set_vm_bond(a: &mut Atom)
    ensures
        *final(a) == spec_set_vm_bond(*old(a)),
{
    *a = *a | ATOM_VM_BOND_MASK;
}

/// Clears the VM-bond flag.
pub fn reset_vm_bond(a: &mut Atom)
    ensures
        *final(a) == spec_reset_vm_bond(*old(a)),
{
    *a = *a & ATOM_VM_BOND_UNMASK;
}

/// Replaces the dir1 direction field.
pub fn set_dir1(a: &mut Atom, d: Dir)
    requires
        d < 8,
    ensures
        *final(a) == spec_set_dir1(*old(a), d),
{
    *a = (*a & ATOM_DIR1_UNMASK) | ((d as u16) << ATOM_DIR1_SHIFT);
}

/// Sets the dir1-bond flag.
pub fn set_dir1_bond(a: &mut Atom)
    ensures
        *final(a) == spec_set_dir1_bond(*old(a)),
{
    *a = *a | ATOM_DIR1_BOND_MASK;
}

/// Clears the dir1-bond flag.
pub fn reset_dir1_bond(a: &mut Atom)
    ensures
        *final(a) == spec_reset_dir1_bond(*old(a)),
{
    *a = *a & ATOM_DIR1_BOND_UNMASK;
}

/// Replaces the dir2 direction field.
pub fn set_dir2(a: &mut Atom, d: Dir)
    requires
        d < 8,
    ensures
        *final(a) == spec_set_dir2(*old(a), d),
{
    *a = (*a & ATOM_DIR2_UNMASK) | ((d as u16) << ATOM_DIR2_SHIFT);
}

/// Sets the dir2-bond flag.
pub fn set_dir2_bond(a: &mut Atom)
    ensures
        *final(a) == spec_set_dir2_bond(*old(a)),
{
    *a = *a | ATOM_DIR2_BOND_MASK;
}

/// Clears the dir2-bond flag.
pub fn reset_dir2_bond(a: &mut Atom)
    ensures
        *final(a) == spec_reset_dir2_bond(*old(a)),
{
    *a = *a & ATOM_DIR2_BOND_UNMASK;
}

// --------------------------------------------------------------------- laws

/// Writing the type field sets exactly that field: the new value decodes to
/// the written code and every other field keeps its bits.
pub proof fn lemma_set_type_fields(a: Atom, t: u16)
    requires
        t < 8,
    ensures
        spec_type(spec_set_type(a, t)) == t,
        spec_vm_dir(spec_set_type(a, t)) == spec_vm_dir(a),
        spec_has_vm_bond(spec_set_type(a, t)) == spec_has_vm_bond(a),
        spec_dir1(spec_set_type(a, t)) == spec_dir1(a),
        spec_has_dir1_bond(spec_set_type(a, t)) == spec_has_dir1_bond(a),
        spec_dir2(spec_set_type(a, t)) == spec_dir2(a),
        spec_has_dir2_bond(spec_set_type(a, t)) == spec_has_dir2_bond(a),
{
    assert(t < 8 ==> (((a & 0b0001_1111_1111_1111u16) | (t << 13u16)) & 0b1110_0000_0000_0000u16) >> 13u16 == t
        && ((((a & 0b0001_1111_1111_1111u16) | (t << 13u16)) & 0b0001_1100_0000_0000u16) >> 10u16) as u8 == ((a & 0b0001_1100_0000_0000u16) >> 10u16) as u8
        && (((a & 0b0001_1111_1111_1111u16) | (t << 13u16)) & 0b0000_0010_0000_0000u16 != 0) == (a & 0b0000_0010_0000_0000u16 != 0)
        && ((((a & 0b0001_1111_1111_1111u16) | (t << 13u16)) & 0b0000_0001_1100_0000u16) >> 6u16) as u8 == ((a & 0b0000_0001_1100_0000u16) >> 6u16) as u8
        && (((a & 0b0001_1111_1111_1111u16) | (t << 13u16)) & 0b0000_0000_0000_0100u16 != 0) == (a & 0b0000_0000_0000_0100u16 != 0)
        && ((((a & 0b0001_1111_1111_1111u16) | (t << 13u16)) & 0b0000_0000_0011_1000u16) >> 3u16) as u8 == ((a & 0b0000_0000_0011_1000u16) >> 3u16) as u8
        && (((a & 0b0001_1111_1111_1111u16) | (t << 13u16)) & 0b0000_0000_0000_0010u16 != 0) == (a & 0b0000_0000_0000_0010u16 != 0)) by (bit_vector);
}

/// Writing the vm-dir field sets exactly that field.
pub proof fn lemma_set_vm_dir_fields(a: Atom, d: u8)
    requires
        d < 8,
    ensures
        spec_vm_dir(spec_set_vm_dir(a, d)) == d,
        spec_type(spec_set_vm_dir(a, d)) == spec_type(a),
        spec_has_vm_bond(spec_set_vm_dir(a, d)) == spec_has_vm_bond(a),
        spec_dir1(spec_set_vm_dir(a, d)) == spec_dir1(a),
        spec_has_dir1_bond(spec_set_vm_dir(a, d)) == spec_has_dir1_bond(a),
        spec_dir2(spec_set_vm_dir(a, d)) == spec_dir2(a),
        spec_has_dir2_bond(spec_set_vm_dir(a, d)) == spec_has_dir2_bond(a),
{
    assert(d < 8 ==> ((((a & 0b1110_0011_1111_1111u16) | ((d as u16) << 10u16)) & 0b0001_1100_0000_0000u16) >> 10u16) as u8 == d
        && (((a & 0b1110_0011_1111_1111u16) | ((d as u16) << 10u16)) & 0b1110_0000_0000_0000u16) >> 13u16 == (a & 0b1110_0000_0000_0000u16) >> 13u16
        && (((a & 0b1110_0011_1111_1111u16) | ((d as u16) << 10u16)) & 0b0000_0010_0000_0000u16 != 0) == (a & 0b0000_0010_0000_0000u16 != 0)
        && ((((a & 0b1110_0011_1111_1111u16) | ((d as u16) << 10u16)) & 0b0000_0001_1100_0000u16) >> 6u16) as u8 == ((a & 0b0000_0001_1100_0000u16) >> 6u16) as u8
        && (((a & 0b1110_0011_1111_1111u16) | ((d as u16) << 10u16)) & 0b0000_0000_0000_0100u16 != 0) == (a & 0b0000_0000_0000_0100u16 != 0)
        && ((((a & 0b1110_0011_1111_1111u16) | ((d as u16) << 10u16)) & 0b0000_0000_0011_1000u16) >> 3u16) as u8 == ((a & 0b0000_0000_0011_1000u16) >> 3u16) as u8
        && (((a & 0b1110_0011_1111_1111u16) | ((d as u16) << 10u16)) & 0b0000_0000_0000_0010u16 != 0) == (a & 0b0000_0000_0000_0010u16 != 0)) by (bit_vector);
}

/// Setting or clearing the vm-bond flag touches exactly that flag.
pub proof fn lemma_vm_bond_fields(a: Atom)
    ensures
        spec_has_vm_bond(spec_set_vm_bond(a)),
        !spec_has_vm_bond(spec_reset_vm_bond(a)),
        spec_type(spec_set_vm_bond(a)) == spec_type(a),
        spec_type(spec_reset_vm_bond(a)) == spec_type(a),
        spec_vm_dir(spec_set_vm_bond(a)) == spec_vm_dir(a),
        spec_vm_dir(spec_reset_vm_bond(a)) == spec_vm_dir(a),
        spec_dir1(spec_set_vm_bond(a)) == spec_dir1(a),
        spec_dir1(spec_reset_vm_bond(a)) == spec_dir1(a),
        spec_has_dir1_bond(spec_set_vm_bond(a)) == spec_has_dir1_bond(a),
        spec_has_dir1_bond(spec_reset_vm_bond(a)) == spec_has_dir1_bond(a),
        spec_dir2(spec_set_vm_bond(a)) == spec_dir2(a),
        spec_dir2(spec_reset_vm_bond(a)) == spec_dir2(a),
        spec_has_dir2_bond(spec_set_vm_bond(a)) == spec_has_dir2_bond(a),
        spec_has_dir2_bond(spec_reset_vm_bond(a)) == spec_has_dir2_bond(a),
{
    assert((a | 0b0000_0010_0000_0000u16) & 0b0000_0010_0000_0000u16 != 0
        && (a & 0b1111_1101_1111_1111u16) & 0b0000_0010_0000_0000u16 == 0
        && ((a | 0b0000_0010_0000_0000u16) & 0b1110_0000_0000_0000u16) >> 13u16 == (a & 0b1110_0000_0000_0000u16) >> 13u16
        && (((a | 0b0000_0010_0000_0000u16) & 0b0001_1100_0000_0000u16) >> 10u16) as u8 == ((a & 0b0001_1100_0000_0000u16) >> 10u16) as u8
        && (((a | 0b0000_0010_0000_0000u16) & 0b0000_0001_1100_0000u16) >> 6u16) as u8 == ((a & 0b0000_0001_1100_0000u16) >> 6u16) as u8
        && ((a | 0b0000_0010_0000_0000u16) & 0b0000_0000_0000_0100u16 != 0) == (a & 0b0000_0000_0000_0100u16 != 0)
        && (((a | 0b0000_0010_0000_0000u16) & 0b0000_0000_0011_1000u16) >> 3u16) as u8 == ((a & 0b0000_0000_0011_1000u16) >> 3u16) as u8
        && ((a | 0b0000_0010_0000_0000u16) & 0b0000_0000_0000_0010u16 != 0) == (a & 0b0000_0000_0000_0010u16 != 0)
        && ((a & 0b1111_1101_1111_1111u16) & 0b1110_0000_0000_0000u16) >> 13u16 == (a & 0b1110_0000_0000_0000u16) >> 13u16
        && (((a & 0b1111_1101_1111_1111u16) & 0b0001_1100_0000_0000u16) >> 10u16) as u8 == ((a & 0b0001_1100_0000_0000u16) >> 10u16) as u8
        && (((a & 0b1111_1101_1111_1111u16) & 0b0000_0001_1100_0000u16) >> 6u16) as u8 == ((a & 0b0000_0001_1100_0000u16) >> 6u16) as u8
        && ((a & 0b1111_1101_1111_1111u16) & 0b0000_0000_0000_0100u16 != 0) == (a & 0b0000_0000_0000_0100u16 != 0)
        && (((a & 0b1111_1101_1111_1111u16) & 0b0000_0000_0011_1000u16) >> 3u16) as u8 == ((a & 0b0000_0000_0011_1000u16) >> 3u16) as u8
        && ((a & 0b1111_1101_1111_1111u16) & 0b0000_0000_0000_0010u16 != 0) == (a & 0b0000_0000_0000_0010u16 != 0)) by (bit_vector);
}

/// Writing the dir1 field sets exactly that field.
pub proof fn lemma_set_dir1_fields(a: Atom, d: u8)
    requires
        d < 8,
    ensures
        spec_dir1(spec_set_dir1(a, d)) == d,
        spec_type(spec_set_dir1(a, d)) == spec_type(a),
        spec_vm_dir(spec_set_dir1(a, d)) == spec_vm_dir(a),
        spec_has_vm_bond(spec_set_dir1(a, d)) == spec_has_vm_bond(a),
        spec_has_dir1_bond(spec_set_dir1(a, d)) == spec_has_dir1_bond(a),
        spec_dir2(spec_set_dir1(a, d)) == spec_dir2(a),
        spec_has_dir2_bond(spec_set_dir1(a, d)) == spec_has_dir2_bond(a),
{
    assert(d < 8 ==> ((((a & 0b1111_1110_0011_1111u16) | ((d as u16) << 6u16)) & 0b0000_0001_1100_0000u16) >> 6u16) as u8 == d
        && (((a & 0b1111_1110_0011_1111u16) | ((d as u16) << 6u16)) & 0b1110_0000_0000_0000u16) >> 13u16 == (a & 0b1110_0000_0000_0000u16) >> 13u16
        && ((((a & 0b1111_1110_0011_1111u16) | ((d as u16) << 6u16)) & 0b0001_1100_0000_0000u16) >> 10u16) as u8 == ((a & 0b0001_1100_0000_0000u16) >> 10u16) as u8
        && (((a & 0b1111_1110_0011_1111u16) | ((d as u16) << 6u16)) & 0b0000_0010_0000_0000u16 != 0) == (a & 0b0000_0010_0000_0000u16 != 0)
        && (((a & 0b1111_1110_0011_1111u16) | ((d as u16) << 6u16)) & 0b0000_0000_0000_0100u16 != 0) == (a & 0b0000_0000_0000_0100u16 != 0)
        && ((((a & 0b1111_1110_0011_1111u16) | ((d as u16) << 6u16)) & 0b0000_0000_0011_1000u16) >> 3u16) as u8 == ((a & 0b0000_0000_0011_1000u16) >> 3u16) as u8
        && (((a & 0b1111_1110_0011_1111u16) | ((d as u16) << 6u16)) & 0b0000_0000_0000_0010u16 != 0) == (a & 0b0000_0000_0000_0010u16 != 0)) by (bit_vector);
}

/// Setting or clearing the dir1-bond flag touches exactly that flag.
pub proof fn lemma_dir1_bond_fields(a: Atom)
    ensures
        spec_has_dir1_bond(spec_set_dir1_bond(a)),
        !spec_has_dir1_bond(spec_reset_dir1_bond(a)),
        spec_type(spec_set_dir1_bond(a)) == spec_type(a),
        spec_type(spec_reset_dir1_bond(a)) == spec_type(a),
        spec_vm_dir(spec_set_dir1_bond(a)) == spec_vm_dir(a),
        spec_vm_dir(spec_reset_dir1_bond(a)) == spec_vm_dir(a),
        spec_has_vm_bond(spec_set_dir1_bond(a)) == spec_has_vm_bond(a),
        spec_has_vm_bond(spec_reset_dir1_bond(a)) == spec_has_vm_bond(a),
        spec_dir1(spec_set_dir1_bond(a)) == spec_dir1(a),
        spec_dir1(spec_reset_dir1_bond(a)) == spec_dir1(a),
        spec_dir2(spec_set_dir1_bond(a)) == spec_dir2(a),
        spec_dir2(spec_reset_dir1_bond(a)) == spec_dir2(a),
        spec_has_dir2_bond(spec_set_dir1_bond(a)) == spec_has_dir2_bond(a),
        spec_has_dir2_bond(spec_reset_dir1_bond(a)) == spec_has_dir2_bond(a),
{
    assert((a | 0b0000_0000_0000_0100u16) & 0b0000_0000_0000_0100u16 != 0
        && (a & 0b1111_1111_1111_1011u16) & 0b0000_0000_0000_0100u16 == 0
        && ((a | 0b0000_0000_0000_0100u16) & 0b1110_0000_0000_0000u16) >> 13u16 == (a & 0b1110_0000_0000_0000u16) >> 13u16
        && (((a | 0b0000_0000_0000_0100u16) & 0b0001_1100_0000_0000u16) >> 10u16) as u8 == ((a & 0b0001_1100_0000_0000u16) >> 10u16) as u8
        && ((a | 0b0000_0000_0000_0100u16) & 0b0000_0010_0000_0000u16 != 0) == (a & 0b0000_0010_0000_0000u16 != 0)
        && (((a | 0b0000_0000_0000_0100u16) & 0b0000_0001_1100_0000u16) >> 6u16) as u8 == ((a & 0b0000_0001_1100_0000u16) >> 6u16) as u8
        && (((a | 0b0000_0000_0000_0100u16) & 0b0000_0000_0011_1000u16) >> 3u16) as u8 == ((a & 0b0000_0000_0011_1000u16) >> 3u16) as u8
        && ((a | 0b0000_0000_0000_0100u16) & 0b0000_0000_0000_0010u16 != 0) == (a & 0b0000_0000_0000_0010u16 != 0)
        && ((a & 0b1111_1111_1111_1011u16) & 0b1110_0000_0000_0000u16) >> 13u16 == (a & 0b1110_0000_0000_0000u16) >> 13u16
        && (((a & 0b1111_1111_1111_1011u16) & 0b0001_1100_0000_0000u16) >> 10u16) as u8 == ((a & 0b0001_1100_0000_0000u16) >> 10u16) as u8
        && ((a & 0b1111_1111_1111_1011u16) & 0b0000_0010_0000_0000u16 != 0) == (a & 0b0000_0010_0000_0000u16 != 0)
        && (((a & 0b1111_1111_1111_1011u16) & 0b0000_0001_1100_0000u16) >> 6u16) as u8 == ((a & 0b0000_0001_1100_0000u16) >> 6u16) as u8
        && (((a & 0b1111_1111_1111_1011u16) & 0b0000_0000_0011_1000u16) >> 3u16) as u8 == ((a & 0b0000_0000_0011_1000u16) >> 3u16) as u8
        && ((a & 0b1111_1111_1111_1011u16) & 0b0000_0000_0000_0010u16 != 0) == (a & 0b0000_0000_0000_0010u16 != 0)) by (bit_vector);
}

/// Writing the dir2 field sets exactly that field.
pub proof fn lemma_set_dir2_fields(a: Atom, d: u8)
    requires
        d < 8,
    ensures
        spec_dir2(spec_set_dir2(a, d)) == d,
        spec_type(spec_set_dir2(a, d)) == spec_type(a),
        spec_vm_dir(spec_set_dir2(a, d)) == spec_vm_dir(a),
        spec_has_vm_bond(spec_set_dir2(a, d)) == spec_has_vm_bond(a),
        spec_dir1(spec_set_dir2(a, d)) == spec_dir1(a),
        spec_has_dir1_bond(spec_set_dir2(a, d)) == spec_has_dir1_bond(a),
        spec_has_dir2_bond(spec_set_dir2(a, d)) == spec_has_dir2_bond(a),
{
    assert(d < 8 ==> ((((a & 0b1111_1111_1100_0111u16) | ((d as u16) << 3u16)) & 0b0000_0000_0011_1000u16) >> 3u16) as u8 == d
        && (((a & 0b1111_1111_1100_0111u16) | ((d as u16) << 3u16)) & 0b1110_0000_0000_0000u16) >> 13u16 == (a & 0b1110_0000_0000_0000u16) >> 13u16
        && ((((a & 0b1111_1111_1100_0111u16) | ((d as u16) << 3u16)) & 0b0001_1100_0000_0000u16) >> 10u16) as u8 == ((a & 0b0001_1100_0000_0000u16) >> 10u16) as u8
        && (((a & 0b1111_1111_1100_0111u16) | ((d as u16) << 3u16)) & 0b0000_0010_0000_0000u16 != 0) == (a & 0b0000_0010_0000_0000u16 != 0)
        && ((((a & 0b1111_1111_1100_0111u16) | ((d as u16) << 3u16)) & 0b0000_0001_1100_0000u16) >> 6u16) as u8 == ((a & 0b0000_0001_1100_0000u16) >> 6u16) as u8
        && (((a & 0b1111_1111_1100_0111u16) | ((d as u16) << 3u16)) & 0b0000_0000_0000_0100u16 != 0) == (a & 0b0000_0000_0000_0100u16 != 0)
        && (((a & 0b1111_1111_1100_0111u16) | ((d as u16) << 3u16)) & 0b0000_0000_0000_0010u16 != 0) == (a & 0b0000_0000_0000_0010u16 != 0)) by (bit_vector);
}

/// Setting or clearing the dir2-bond flag touches exactly that flag.
pub proof fn lemma_dir2_bond_fields(a: Atom)
    ensures
        spec_has_dir2_bond(spec_set_dir2_bond(a)),
        !spec_has_dir2_bond(spec_reset_dir2_bond(a)),
        spec_type(spec_set_dir2_bond(a)) == spec_type(a),
        spec_type(spec_reset_dir2_bond(a)) == spec_type(a),
        spec_vm_dir(spec_set_dir2_bond(a)) == spec_vm_dir(a),
        spec_vm_dir(spec_reset_dir2_bond(a)) == spec_vm_dir(a),
        spec_has_vm_bond(spec_set_dir2_bond(a)) == spec_has_vm_bond(a),
        spec_has_vm_bond(spec_reset_dir2_bond(a)) == spec_has_vm_bond(a),
        spec_dir1(spec_set_dir2_bond(a)) == spec_dir1(a),
        spec_dir1(spec_reset_dir2_bond(a)) == spec_dir1(a),
        spec_has_dir1_bond(spec_set_dir2_bond(a)) == spec_has_dir1_bond(a),
        spec_has_dir1_bond(spec_reset_dir2_bond(a)) == spec_has_dir1_bond(a),
        spec_dir2(spec_set_dir2_bond(a)) == spec_dir2(a),
        spec_dir2(spec_reset_dir2_bond(a)) == spec_dir2(a),
{
    assert((a | 0b0000_0000_0000_0010u16) & 0b0000_0000_0000_0010u16 != 0
        && (a & 0b1111_1111_1111_1101u16) & 0b0000_0000_0000_0010u16 == 0
        && ((a | 0b0000_0000_0000_0010u16) & 0b1110_0000_0000_0000u16) >> 13u16 == (a & 0b1110_0000_0000_0000u16) >> 13u16
        && (((a | 0b0000_0000_0000_0010u16) & 0b0001_1100_0000_0000u16) >> 10u16) as u8 == ((a & 0b0001_1100_0000_0000u16) >> 10u16) as u8
        && ((a | 0b0000_0000_0000_0010u16) & 0b0000_0010_0000_0000u16 != 0) == (a & 0b0000_0010_0000_0000u16 != 0)
        && (((a | 0b0000_0000_0000_0010u16) & 0b0000_0001_1100_0000u16) >> 6u16) as u8 == ((a & 0b0000_0001_1100_0000u16) >> 6u16) as u8
        && ((a | 0b0000_0000_0000_0010u16) & 0b0000_0000_0000_0100u16 != 0) == (a & 0b0000_0000_0000_0100u16 != 0)
        && (((a | 0b0000_0000_0000_0010u16) & 0b0000_0000_0011_1000u16) >> 3u16) as u8 == ((a & 0b0000_0000_0011_1000u16) >> 3u16) as u8
        && ((a & 0b1111_1111_1111_1101u16) & 0b1110_0000_0000_0000u16) >> 13u16 == (a & 0b1110_0000_0000_0000u16) >> 13u16
        && (((a & 0b1111_1111_1111_1101u16) & 0b0001_1100_0000_0000u16) >> 10u16) as u8 == ((a & 0b0001_1100_0000_0000u16) >> 10u16) as u8
        && ((a & 0b1111_1111_1111_1101u16) & 0b0000_0010_0000_0000u16 != 0) == (a & 0b0000_0010_0000_0000u16 != 0)
        && (((a & 0b1111_1111_1111_1101u16) & 0b0000_0001_1100_0000u16) >> 6u16) as u8 == ((a & 0b0000_0001_1100_0000u16) >> 6u16) as u8
        && ((a & 0b1111_1111_1111_1101u16) & 0b0000_0000_0000_0100u16 != 0) == (a & 0b0000_0000_0000_0100u16 != 0)
        && (((a & 0b1111_1111_1111_1101u16) & 0b0000_0000_0011_1000u16) >> 3u16) as u8 == ((a & 0b0000_0000_0011_1000u16) >> 3u16) as u8) by (bit_vector);
}

/// Codec round trip: writing back the value a field currently decodes to
/// reproduces the original atom bit for bit, for every field.
pub proof fn lemma_codec_roundtrip(a: Atom)
    ensures
        spec_set_type(a, spec_type(a)) == a,
        spec_set_vm_dir(a, spec_vm_dir(a)) == a,
        spec_has_vm_bond(a) ==> spec_set_vm_bond(a) == a,
        !spec_has_vm_bond(a) ==> spec_reset_vm_bond(a) == a,
        spec_set_dir1(a, spec_dir1(a)) == a,
        spec_has_dir1_bond(a) ==> spec_set_dir1_bond(a) == a,
        !spec_has_dir1_bond(a) ==> spec_reset_dir1_bond(a) == a,
        spec_set_dir2(a, spec_dir2(a)) == a,
        spec_has_dir2_bond(a) ==> spec_set_dir2_bond(a) == a,
        !spec_has_dir2_bond(a) ==> spec_reset_dir2_bond(a) == a,
{
    assert((a & 0b0001_1111_1111_1111u16) | (((a & 0b1110_0000_0000_0000u16) >> 13u16) << 13u16)
            == a
        && (a & 0b1110_0011_1111_1111u16)
            | ((((a & 0b0001_1100_0000_0000u16) >> 10u16) as u8 as u16) << 10u16) == a
        && (a & 0b0000_0010_0000_0000u16 != 0 ==> a | 0b0000_0010_0000_0000u16 == a)
        && (a & 0b0000_0010_0000_0000u16 == 0 ==> a & 0b1111_1101_1111_1111u16 == a)
        && (a & 0b1111_1110_0011_1111u16)
            | ((((a & 0b0000_0001_1100_0000u16) >> 6u16) as u8 as u16) << 6u16) == a
        && (a & 0b0000_0000_0000_0100u16 != 0 ==> a | 0b0000_0000_0000_0100u16 == a)
        && (a & 0b0000_0000_0000_0100u16 == 0 ==> a & 0b1111_1111_1111_1011u16 == a)
        && (a & 0b1111_1111_1100_0111u16)
            | ((((a & 0b0000_0000_0011_1000u16) >> 3u16) as u8 as u16) << 3u16) == a
        && (a & 0b0000_0000_0000_0010u16 != 0 ==> a | 0b0000_0000_0000_0010u16 == a)
        && (a & 0b0000_0000_0000_0010u16 == 0 ==> a & 0b1111_1111_1111_1101u16 == a))
        by (bit_vector);
}

} // verus!
