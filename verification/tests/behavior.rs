use std::cell::Cell;

use iter_fixed::FromIteratorFixed;
use iter_fixed::IntoIteratorFixed;
use iter_fixed::IteratorFixed;

#[test]
fn round_trip_array() {
    let out: [i32; 3] = [5, 6, 7].into_iter_fixed().collect();
    assert_eq!(out, [5, 6, 7]);
}

#[test]
fn round_trip_vec() {
    let it = IteratorFixed::from_iter(vec![8, 9]);
    assert_eq!(it.into_inner(), vec![8, 9]);
}

#[test]
fn round_trip_borrowed() {
    let a = [4, 5, 6];
    let out: [i32; 3] = (&a).into_iter_fixed().copied().collect();
    assert_eq!(out, [4, 5, 6]);
}

#[test]
fn vec_source_and_target() {
    let v = vec![1, 2, 3];
    let it = IntoIteratorFixed::<3>::into_iter_fixed(v);
    let out: Vec<i32> = it.collect::<Vec<i32>, 3>();
    assert_eq!(out, vec![1, 2, 3]);
}

#[test]
fn from_iter_fixed_direct() {
    let doubled = [1, 2, 3].into_iter_fixed().map(|x| 2 * x);
    let a = <[i32; 3]>::from_iter_fixed(doubled);
    assert_eq!(a, [2, 4, 6]);
}

#[test]
fn rev_scenario() {
    let rev_array: [i32; 4] = [1, 3, 2, 7].into_iter_fixed().rev().collect();
    assert_eq!(rev_array, [7, 2, 3, 1]);
}

#[test]
fn zip_map_scenario() {
    let rev_array: [i32; 4] = [1, 3, 2, 7].into_iter_fixed().rev().collect();
    let sum_array: [i32; 4] = rev_array
        .into_iter_fixed()
        .zip([4, 1, 3, 7])
        .map(|(a, b)| a + (b * 10))
        .collect();
    assert_eq!(sum_array, [47, 12, 33, 71]);
}

#[test]
fn generate_scenario() {
    let zero_two_four: [usize; 3] = iter_fixed::from_fn::<3, _, _>(|i| 2 * i).collect();
    assert_eq!(zero_two_four, [0, 2, 4]);
}

#[test]
fn step_by_scenario() {
    let res: [i32; 4] = [1, 2, 3, 4, 5, 6, 7].into_iter_fixed().step_by::<2>().collect();
    assert_eq!(res, [1, 3, 5, 7]);
}

#[test]
fn step_by_stride_one_and_large() {
    let res: [i32; 3] = [1, 2, 3].into_iter_fixed().step_by::<1>().collect();
    assert_eq!(res, [1, 2, 3]);

    let res: [i32; 1] = [1, 2, 3].into_iter_fixed().step_by::<5>().collect();
    assert_eq!(res, [1]);
}

#[test]
fn flatten_scenario() {
    let res: [i32; 4] = [[1, 2], [3, 4]].into_iter_fixed().flatten::<2>().collect();
    assert_eq!(res, [1, 2, 3, 4]);

    let res: [i32; 6] = [[1, 2, 3], [4, 5, 6]].into_iter_fixed().flatten::<3>().collect();
    assert_eq!(res, [1, 2, 3, 4, 5, 6]);
}

#[test]
fn flat_map_each_element_twice() {
    let res: [i32; 6] = [1, 2, 3].into_iter_fixed().flat_map(|x| [x, 10 * x]).collect();
    assert_eq!(res, [1, 10, 2, 20, 3, 30]);
}

#[test]
fn skip_take_composition() {
    let res: [i32; 2] = [1, 2, 3, 4, 5, 6].into_iter_fixed().skip::<2>().take::<2>().collect();
    assert_eq!(res, [3, 4]);
}

#[test]
fn skip_past_the_end() {
    let res: Vec<i32> = [1, 2].into_iter_fixed().skip::<5>().collect::<Vec<i32>, 0>();
    assert_eq!(res, vec![]);
}

#[test]
fn take_past_the_end() {
    let res: [i32; 2] = [1, 2].into_iter_fixed().take::<7>().collect();
    assert_eq!(res, [1, 2]);
}

#[test]
fn chain_with_empty() {
    let empty: [i32; 0] = [];
    let res: [i32; 2] = [1, 2].into_iter_fixed().chain(empty).collect();
    assert_eq!(res, [1, 2]);
}

#[test]
fn enumerate_positions() {
    let res: [(usize, i32); 2] = [10, 20].into_iter_fixed().enumerate().collect();
    assert_eq!(res, [(0, 10), (1, 20)]);
}

#[test]
fn inspect_sees_every_element() {
    let seen = Cell::new(0i32);
    let res: [i32; 3] = [7, 8, 9]
        .into_iter_fixed()
        .inspect(|x| seen.set(seen.get() + *x))
        .collect();
    assert_eq!(res, [7, 8, 9]);
    assert_eq!(seen.get(), 24);
}

#[test]
fn cloned_elements() {
    let words = [String::from("one"), String::from("two")];
    let out: Vec<String> = (&words).into_iter_fixed().cloned().collect::<Vec<String>, 2>();
    assert_eq!(out, vec![String::from("one"), String::from("two")]);
}

#[test]
fn repeat_fills_every_slot() {
    let it = IntoIteratorFixed::<4>::into_iter_fixed(iter_fixed::repeat(9));
    let out: [i32; 4] = it.collect();
    assert_eq!(out, [9, 9, 9, 9]);
}
