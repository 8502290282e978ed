use fib_matrix::sequence::MAX_EXACT_INDEX;
use fib_matrix::{_fib_linear, _fib_naive, fib};

#[test]
fn fib_0() {
    assert_eq!(0, fib(0));
}

#[test]
fn fib_1() {
    assert_eq!(1, fib(1));
}

#[test]
fn fib_2() {
    assert_eq!(1, fib(2));
}

#[test]
fn fib_3() {
    assert_eq!(2, fib(3));
}

#[test]
fn fib_4() {
    assert_eq!(3, fib(4));
}

#[test]
fn fib_5() {
    assert_eq!(5, fib(5));
}

#[test]
fn fib_6() {
    assert_eq!(8, fib(6));
}

#[test]
fn fib_7() {
    assert_eq!(13, fib(7));
}

#[test]
fn fib_8() {
    assert_eq!(21, fib(8));
}

#[test]
fn fib_9() {
    assert_eq!(34, fib(9));
}

#[test]
fn fib_50() {
    assert_eq!(12_586_269_025, fib(50));
}

#[test]
fn fib_100() {
    assert_eq!(354_224_848_179_261_915_075, fib(100));
}

#[test]
fn fib_at_largest_exact_index() {
    assert_eq!(186, MAX_EXACT_INDEX);
    assert_eq!(332_825_110_087_067_562_321_196_029_789_634_457_848, fib(186));
    assert_eq!(fib(184) + fib(185), fib(186));
}

#[test]
fn fib_wraps_past_largest_exact_index() {
    // fibonacci(187) = 538522340430300790495419781092981030533, less 2^128
    assert_eq!(198_239_973_509_362_327_032_045_173_661_212_819_077, fib(187));
    assert_eq!(fib(185).wrapping_add(fib(186)), fib(187));
    assert!(fib(185).checked_add(fib(186)).is_none());
}

#[test]
fn fib_at_largest_index() {
    assert_eq!(3_626_004_788_919_850_014_309_842_039_971_741_410, fib(255));
    assert_eq!(178_502_649_656_846_143_791_255_889_261_670_949_781, fib(200));
}

#[test]
fn fib_obeys_recurrence_at_every_index() {
    for n in 2..=255u8 {
        assert_eq!(fib(n - 1).wrapping_add(fib(n - 2)), fib(n), "n = {}", n);
    }
}

#[test]
fn fib_is_exact_up_to_largest_exact_index() {
    // computed without any wrap: every sum is checked
    let mut before: u128 = 0;
    let mut last: u128 = 1;
    assert_eq!(before, fib(0));
    assert_eq!(last, fib(1));
    for n in 2..=MAX_EXACT_INDEX {
        let next = before.checked_add(last).unwrap();
        assert_eq!(next, fib(n), "n = {}", n);
        before = last;
        last = next;
    }
    assert!(before.checked_add(last).is_none());
}

#[test]
fn fib_linear_first_ten() {
    let expected: [u128; 10] = [0, 1, 1, 2, 3, 5, 8, 13, 21, 34];
    for n in 0..10u8 {
        assert_eq!(expected[n as usize], _fib_linear(n));
    }
}

#[test]
fn fib_linear_50() {
    assert_eq!(12_586_269_025, _fib_linear(50));
}

#[test]
fn fib_linear_at_boundary() {
    assert_eq!(332_825_110_087_067_562_321_196_029_789_634_457_848, _fib_linear(186));
    assert_eq!(198_239_973_509_362_327_032_045_173_661_212_819_077, _fib_linear(187));
    assert_eq!(3_626_004_788_919_850_014_309_842_039_971_741_410, _fib_linear(255));
}

#[test]
fn fib_agrees_with_linear_recurrence_at_every_index() {
    for n in 0..=255u8 {
        assert_eq!(_fib_linear(n), fib(n), "n = {}", n);
    }
}

#[test]
fn fib_naive_first_ten() {
    let expected: [u128; 10] = [0, 1, 1, 2, 3, 5, 8, 13, 21, 34];
    for n in 0..10u8 {
        assert_eq!(expected[n as usize], _fib_naive(n));
    }
}

#[test]
fn fib_naive_20() {
    assert_eq!(6765, _fib_naive(20));
}

#[test]
fn fib_agrees_with_naive_recursion() {
    for n in 0..=22u8 {
        assert_eq!(_fib_naive(n), fib(n), "n = {}", n);
    }
}
