use iter_fixed::IntoIteratorFixed;

#[test]
fn test() {
    let res: [u32; 2] = [1u32, 2, 3, 4]
        .into_iter_fixed()
        .zip([4u32, 3, 2, 1])
        .map(|(a, b)| a + b)
        .skip::<1>()
        .take::<2>()
        .collect();

    assert_eq!(res, [5, 5]);

    let foo: [(i32, i32); 3] = [1, 2, 3]
        .into_iter_fixed()
        .zip::<_, 3>(iter_fixed::repeat(42))
        .collect();
    assert_eq!(foo, [(1, 42), (2, 42), (3, 42)]);
}

#[test]
fn test_changing_length() {
    let res: [i32; 3] = [1, 2, 3, 4].into_iter_fixed().skip::<1>().collect();

    assert_eq!(res, [2, 3, 4]);

    let res: [i32; 3] = [1, 2, 3, 4, 5].into_iter_fixed().step_by::<2>().collect();

    assert_eq!(res, [1, 3, 5]);

    let res: [i32; 3] = [1, 2, 3, 4, 5, 6]
        .into_iter_fixed()
        .step_by::<2>()
        .collect();

    assert_eq!(res, [1, 3, 5]);

    let res: [i32; 4] = [1, 2, 3, 4, 5, 6, 7]
        .into_iter_fixed()
        .step_by::<2>()
        .collect();

    assert_eq!(res, [1, 3, 5, 7]);

    let res: [i32; 4] = [1, 2].into_iter_fixed().chain([3, 4]).collect();

    assert_eq!(res, [1, 2, 3, 4]);

    let res: [i32; 2] = [1, 2, 3, 4].into_iter_fixed().take::<2>().collect();

    assert_eq!(res, [1, 2]);

    let res: [i32; 4] = [[1, 2].into_iter_fixed(), [3, 4].into_iter_fixed()]
        .into_iter_fixed()
        .flatten::<2>()
        .collect();

    assert_eq!(res, [1, 2, 3, 4]);
}
