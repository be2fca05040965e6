use sitecheck::analyzer::{classify, largest, sum, Kind};
use sitecheck::guess::check_guess;
use sitecheck::parity::is_even;
use sitecheck::stepsum::sum_with_step;

#[test]
fn guess_is_compared_with_secret() {
    assert_eq!(check_guess(7, 7), 0);
    assert_eq!(check_guess(8, 7), 1);
    assert_eq!(check_guess(3, 7), -1);
    assert_eq!(check_guess(i32::MIN, i32::MAX), -1);
    assert_eq!(check_guess(i32::MAX, i32::MIN), 1);
}

#[test]
fn parity_of_numbers() {
    assert!(is_even(0));
    assert!(is_even(4));
    assert!(!is_even(15));
    assert!(is_even(-2));
    assert!(!is_even(-3));
    assert!(is_even(i32::MIN));
    assert!(!is_even(i32::MAX));
}

#[test]
fn sums_in_steps() {
    let mut r = -1;
    sum_with_step(&mut r, 0, 100, 1);
    assert_eq!(r, 5050);
    sum_with_step(&mut r, 0, 10, 2);
    assert_eq!(r, 30);
    sum_with_step(&mut r, 5, 15, 3);
    assert_eq!(r, 38);
}

#[test]
fn negative_step_counts_as_its_magnitude() {
    let mut r = 0;
    sum_with_step(&mut r, 0, 10, -2);
    assert_eq!(r, 30);
}

#[test]
fn empty_range_sums_to_zero() {
    let mut r = 99;
    sum_with_step(&mut r, 5, 4, 1);
    assert_eq!(r, 0);
    sum_with_step(&mut r, 5, 4, 0);
    assert_eq!(r, 0);
}

#[test]
fn sum_near_the_top_of_the_range() {
    let mut r = 0;
    sum_with_step(&mut r, i32::MAX, i32::MAX, i32::MAX);
    assert_eq!(r, i32::MAX);
    sum_with_step(&mut r, -5, 5, 5);
    assert_eq!(r, 0);
}

#[test]
fn numbers_are_classified() {
    assert_eq!(classify(4), Kind::Even);
    assert_eq!(classify(15), Kind::FizzBuzz);
    assert_eq!(classify(6), Kind::Fizz);
    assert_eq!(classify(9), Kind::Fizz);
    assert_eq!(classify(20), Kind::Buzz);
    assert_eq!(classify(13), Kind::Odd);
    assert_eq!(classify(30), Kind::FizzBuzz);
    assert_eq!(classify(0), Kind::FizzBuzz);
    assert_eq!(classify(-10), Kind::Buzz);
    assert_eq!(classify(-7), Kind::Odd);
}

#[test]
fn list_is_summed_and_its_largest_found() {
    let numbers = vec![4, 15, 6, 9, 20, 13, 30, 11, 3, 10];
    assert_eq!(sum(&numbers), 121);
    assert_eq!(largest(&numbers), 30);
    assert_eq!(sum(&vec![]), 0);
    assert_eq!(sum(&vec![i32::MAX, -1, i32::MIN, 2]), 0);
    assert_eq!(largest(&vec![-5, -2, -9]), -2);
    assert_eq!(largest(&vec![7]), 7);
}
