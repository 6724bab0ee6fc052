//! Tests of the atom codec and the direction geometry.

use atomvm::atom::{
    get_type, is_atom, get_vm_dir, has_vm_bond, get_dir1, has_dir1_bond, get_dir2,
    has_dir2_bond, set_type, set_vm_dir, set_vm_bond, reset_vm_bond, set_dir1,
    set_dir1_bond, reset_dir1_bond, set_dir2, set_dir2_bond, reset_dir2_bond,
};
use atomvm::dirs::{rev_dir, dir_mov_atom, dir_near_atom, DIR_NO};

#[test]
fn get_fields_of_known_value() {
    // type=mov(1), vm-dir=3 with bond, dir1=3, dir2=5 with bond
    let a: u16 = 0b0010_1111_0010_1010;
    assert_eq!(get_type(a), 1);
    assert!(is_atom(a));
    assert_eq!(get_vm_dir(a), 3);
    assert!(has_vm_bond(a));
    assert_eq!(get_dir1(a), 4);
    assert!(!has_dir1_bond(a));
    assert_eq!(get_dir2(a), 5);
    assert!(has_dir2_bond(a));
    assert!(!is_atom(0));
    assert!(!is_atom(0b0001_1111_1111_1111));
}

#[test]
fn set_then_get_every_field() {
    let mut a: u16 = 0;
    set_type(&mut a, 4);
    set_vm_dir(&mut a, 6);
    set_vm_bond(&mut a);
    set_dir1(&mut a, 2);
    set_dir1_bond(&mut a);
    set_dir2(&mut a, 7);
    set_dir2_bond(&mut a);
    assert_eq!(get_type(a), 4);
    assert_eq!(get_vm_dir(a), 6);
    assert!(has_vm_bond(a));
    assert_eq!(get_dir1(a), 2);
    assert!(has_dir1_bond(a));
    assert_eq!(get_dir2(a), 7);
    assert!(has_dir2_bond(a));
    reset_vm_bond(&mut a);
    reset_dir1_bond(&mut a);
    reset_dir2_bond(&mut a);
    assert!(!has_vm_bond(a));
    assert!(!has_dir1_bond(a));
    assert!(!has_dir2_bond(a));
    // the other fields kept their values through the flag edits
    assert_eq!(get_type(a), 4);
    assert_eq!(get_vm_dir(a), 6);
    assert_eq!(get_dir1(a), 2);
    assert_eq!(get_dir2(a), 7);
}

#[test]
fn codec_roundtrip_reproduces_atom() {
    // writing back what a field reads leaves the atom bit for bit unchanged
    let samples: [u16; 5] = [0, 0x2EC0, 0xFFFF, 0x9EEA, 0x40D8];
    for &v in samples.iter() {
        let mut a = v;
        let t = get_type(a);
        set_type(&mut a, t);
        assert_eq!(a, v);
        let d = get_vm_dir(a);
        set_vm_dir(&mut a, d);
        assert_eq!(a, v);
        let d1 = get_dir1(a);
        set_dir1(&mut a, d1);
        assert_eq!(a, v);
        let d2 = get_dir2(a);
        set_dir2(&mut a, d2);
        assert_eq!(a, v);
        if has_vm_bond(a) { set_vm_bond(&mut a); } else { reset_vm_bond(&mut a); }
        assert_eq!(a, v);
        if has_dir1_bond(a) { set_dir1_bond(&mut a); } else { reset_dir1_bond(&mut a); }
        assert_eq!(a, v);
        if has_dir2_bond(a) { set_dir2_bond(&mut a); } else { reset_dir2_bond(&mut a); }
        assert_eq!(a, v);
    }
}

#[test]
fn setting_one_field_keeps_the_others() {
    let v: u16 = 0b1011_0110_1101_0110;
    let mut a = v;
    set_vm_dir(&mut a, 0);
    assert_eq!(get_type(a), get_type(v));
    assert_eq!(has_vm_bond(a), has_vm_bond(v));
    assert_eq!(get_dir1(a), get_dir1(v));
    assert_eq!(has_dir1_bond(a), has_dir1_bond(v));
    assert_eq!(get_dir2(a), get_dir2(v));
    assert_eq!(has_dir2_bond(a), has_dir2_bond(v));
    let mut b = v;
    set_type(&mut b, 0);
    assert_eq!(get_vm_dir(b), get_vm_dir(v));
    assert_eq!(get_dir1(b), get_dir1(v));
    assert_eq!(get_dir2(b), get_dir2(v));
    let mut c = v;
    set_dir2(&mut c, 1);
    assert_eq!(get_type(c), get_type(v));
    assert_eq!(get_vm_dir(c), get_vm_dir(v));
    assert_eq!(get_dir1(c), get_dir1(v));
    assert_eq!(has_dir2_bond(c), has_dir2_bond(v));
}

#[test]
fn reverse_is_an_involution_without_fixpoints() {
    for d in 0u8..8u8 {
        assert_eq!(rev_dir(rev_dir(d)), d);
        assert_ne!(rev_dir(d), d);
    }
    assert_eq!(rev_dir(0), 4);
    assert_eq!(rev_dir(3), 7);
    assert_eq!(rev_dir(7), 3);
}

#[test]
fn transform_tables_hold_their_fixed_values() {
    // spot checks against the published tables
    assert_eq!(dir_mov_atom(0, 1), 7);
    assert_eq!(dir_mov_atom(0, 7), 1);
    assert_eq!(dir_mov_atom(3, 3), DIR_NO);
    assert_eq!(dir_mov_atom(7, 3), DIR_NO);
    assert_eq!(dir_mov_atom(5, 6), 3);
    assert_eq!(dir_near_atom(0, 3), 1);
    assert_eq!(dir_near_atom(4, 1), 3);
    assert_eq!(dir_near_atom(7, 5), 6);
    assert_eq!(dir_near_atom(3, 3), DIR_NO);
    // the diagonal of the moved-atom table is all "no direction"
    for d in 0u8..8u8 {
        assert_eq!(dir_mov_atom(d, d), DIR_NO);
    }
}
