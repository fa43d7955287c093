//! The growth policy: doubling to powers of two, with overflow refused.

use dst::util::{can_try_alloc, new_capacity_at_least_double};

#[test]
fn doubles_to_powers_of_two() {
    assert_eq!(new_capacity_at_least_double(1), Some(2));
    assert_eq!(new_capacity_at_least_double(2), Some(4));
    assert_eq!(new_capacity_at_least_double(3), Some(8));
    assert_eq!(new_capacity_at_least_double(5), Some(16));
    assert_eq!(new_capacity_at_least_double(8), Some(16));
    assert_eq!(new_capacity_at_least_double(1000), Some(2048));
}

#[test]
fn doubling_near_the_ceiling() {
    let quarter = usize::MAX / 4 + 1;
    assert_eq!(new_capacity_at_least_double(quarter), Some(quarter * 2));
    assert_eq!(new_capacity_at_least_double(quarter + 1), None);
    assert_eq!(new_capacity_at_least_double(usize::MAX / 2), None);
}

#[test]
fn allocation_limit_is_half_the_address_space() {
    assert!(can_try_alloc(0));
    assert!(can_try_alloc(isize::MAX as usize));
    assert!(!can_try_alloc(isize::MAX as usize + 1));
    assert!(!can_try_alloc(usize::MAX));
}

#[test]
fn default_iter_never_runs_dry() {
    let mut it = dst::DefaultIter::<u32>::new();
    assert_eq!(it.next(), Some(0));
    assert_eq!(it.next(), Some(0));
    let mut words = dst::DefaultIter::<String>::new();
    assert_eq!(words.next(), Some(String::new()));
}
