use std::cell::Cell;

use sivec::{SIVec, SIVecError};

#[test]
fn write_then_read_single_slot() {
    let mut v = SIVec::new(1);
    v.set(0, 42u64);
    assert_eq!(*v.get(0), 42);
}

#[test]
fn write_then_read_last_slot() {
    let mut v = SIVec::new(1000);
    v.set(999, -7i32);
    v.set(0, 5);
    assert_eq!(*v.get(999), -7);
    assert_eq!(*v.get(0), 5);
}

#[test]
fn default_on_miss_constant() {
    let mut v = SIVec::with_init(8, String::from("d"));
    v.set(2, String::from("x"));
    assert_eq!(v.get(5).as_str(), "d");
    assert_eq!(v.get(6).as_str(), "d");
    assert_eq!(v.get(2).as_str(), "x");
}

#[test]
fn overwrite_in_place_keeps_neighbours() {
    let mut v = SIVec::with_init(6, 0u8);
    v.set(4, 1);
    v.set(4, 2);
    assert_eq!(*v.get(4), 2);
    assert_eq!(*v.get(3), 0);
    assert_eq!(*v.get(5), 0);
}

#[test]
fn bounds_enforcement() {
    let mut v = SIVec::with_init(5, 'x');
    assert_eq!(v.try_get(5), Err(SIVecError::OutOfBounds));
    assert_eq!(v.try_get(4), Ok(&'x'));
    assert_eq!(v.try_set(5, 'y'), Err(SIVecError::OutOfBounds));
    assert_eq!(v.try_set(4, 'y'), Ok(()));
    assert_eq!(v.try_get(4), Ok(&'y'));
}

#[test]
fn no_policy_failure() {
    let mut v = SIVec::new(12);
    assert_eq!(v.try_get(5), Err(SIVecError::Uninitialized));
    v.set(5, 'z');
    assert_eq!(v.try_get(5), Ok(&'z'));
    assert_eq!(v.try_get(6), Err(SIVecError::Uninitialized));
    assert_eq!(v.try_get(12), Err(SIVecError::OutOfBounds));
}

#[test]
fn literal_scenario() {
    let mut v = SIVec::with_init(10, 'b');
    v.set(3, 'a');
    assert_eq!(*v.get(3), 'a');
    assert_eq!(*v.get(4), 'b');
    v.set(4, 'c');
    assert_eq!(*v.get(3), 'a');
    assert_eq!(*v.get(4), 'c');
    assert_eq!(*v.get(5), 'b');
    v.set(3, 'b');
    assert_eq!(*v.get(3), 'b');
    assert_eq!(*v.get(4), 'c');
    assert_eq!(*v.get(5), 'b');
    assert_eq!(*v.get(6), 'b');
}

#[test]
fn constructor_default_depends_on_index() {
    let mut v = SIVec::with_init_fn(10, |i| i * i);
    assert_eq!(*v.get(7), 49);
    assert_eq!(*v.get(3), 9);
    v.set(7, 1);
    assert_eq!(*v.get(7), 1);
}

#[test]
fn set_never_asks_for_a_default() {
    let calls = Cell::new(0u32);
    let mut v = SIVec::with_init_fn(10, |i| {
        calls.set(calls.get() + 1);
        i as u32
    });
    v.set(2, 100);
    v.set(2, 200);
    assert_eq!(calls.get(), 0);
    assert_eq!(*v.get(2), 200);
    assert_eq!(calls.get(), 0);
    assert_eq!(*v.get(6), 6);
    assert_eq!(calls.get(), 1);
    assert_eq!(*v.get(6), 6);
    assert_eq!(calls.get(), 1);
}

#[test]
fn indexed_write_materializes_default() {
    let calls = Cell::new(0u32);
    let mut v = SIVec::with_init_fn(10, |i| {
        calls.set(calls.get() + 1);
        i as u32
    });
    *v.get_mut(8) = 80;
    assert_eq!(calls.get(), 1);
    assert_eq!(*v.get(8), 80);
    *v.get_mut(8) = 81;
    assert_eq!(calls.get(), 1);
    assert_eq!(*v.get(8), 81);
}

#[test]
fn get_mut_returns_held_value() {
    let mut v = SIVec::new(4);
    v.set(1, 10u16);
    *v.get_mut(1) += 5;
    assert_eq!(*v.get(1), 15);
}

#[test]
fn capacity_is_fixed() {
    let mut v = SIVec::with_init(10, 0u8);
    assert_eq!(v.cap(), 10);
    v.set(9, 1);
    assert_eq!(v.cap(), 10);
    let w: SIVec<u8, _> = SIVec::new(0);
    assert_eq!(w.cap(), 0);
}

#[test]
fn empty_vector_rejects_every_index() {
    let mut v: SIVec<u8, _> = SIVec::new(0);
    assert_eq!(v.try_get(0), Err(SIVecError::OutOfBounds));
    assert_eq!(v.try_set(0, 1), Err(SIVecError::OutOfBounds));
}

#[test]
fn garbage_table_entries_are_rejected() {
    // Every table entry starts at position 0; only the index whose value
    // sits there may claim it.
    let mut v = SIVec::new(100);
    v.set(50, 'q');
    assert_eq!(v.try_get(0), Err(SIVecError::Uninitialized));
    assert_eq!(v.try_get(99), Err(SIVecError::Uninitialized));
    assert_eq!(v.try_get(50), Ok(&'q'));
}

#[test]
fn many_indices_mirror_a_map() {
    let mut v = SIVec::new(1 << 20);
    let mut expected = std::collections::BTreeMap::new();
    let mut x: usize = 12345;
    for k in 0..2000usize {
        x = (x.wrapping_mul(6364136223846793005).wrapping_add(1442695040888963407)) % (1 << 20);
        v.set(x, k);
        expected.insert(x, k);
    }
    for (i, k) in expected {
        assert_eq!(*v.get(i), k);
    }
}
