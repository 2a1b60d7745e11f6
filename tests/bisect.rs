use std::cell::Cell;
use rust_sysroot::bisect::least_satisfying;

fn threshold_of(n: usize, k: usize) -> usize {
    let v: Vec<usize> = (0..n).collect();
    least_satisfying(&v, |x: &usize| *x >= k)
}

#[test]
fn finds_every_threshold() {
    for n in 1..40usize {
        for k in 0..=n {
            assert_eq!(threshold_of(n, k), k);
        }
    }
}

#[test]
fn all_false_gives_length() {
    let v = vec![1, 2, 3, 4, 5, 6, 7];
    assert_eq!(least_satisfying(&v, |_x: &i32| false), 7);
}

#[test]
fn all_true_gives_zero() {
    let v = vec![1, 2, 3, 4, 5, 6, 7];
    assert_eq!(least_satisfying(&v, |_x: &i32| true), 0);
}

#[test]
fn single_element() {
    let v = vec![10];
    assert_eq!(least_satisfying(&v, |x: &i32| *x > 5), 0);
    assert_eq!(least_satisfying(&v, |x: &i32| *x > 50), 1);
}

#[test]
fn empty_slice_gives_zero() {
    let v: Vec<i32> = Vec::new();
    assert_eq!(least_satisfying(&v, |_x: &i32| true), 0);
}

#[test]
fn evaluations_stay_within_log_bound() {
    for n in 1..200usize {
        let bound = (n as f64).log2().ceil() as usize + 1;
        for k in [0, n / 3, n / 2, n] {
            let calls = Cell::new(0usize);
            let v: Vec<usize> = (0..n).collect();
            let r = least_satisfying(&v, |x: &usize| {
                calls.set(calls.get() + 1);
                *x >= k
            });
            assert_eq!(r, k);
            assert!(calls.get() <= bound, "n={} k={} calls={}", n, k, calls.get());
        }
    }
}
