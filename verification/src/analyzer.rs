//! Looking at a list of numbers: what kind each one is, what they add up
//! to, and which is the largest.

use crate::parity::is_even;
use vstd::prelude::*;

verus! {

/// The kind of a number: the first of these that applies.
#[derive(Debug, Clone, Copy, PartialEq, Eq)]
pub enum Kind {
    /// A multiple of three and of five.
    FizzBuzz,
    /// A multiple of three.
    Fizz,
    /// A multiple of five.
    Buzz,
    /// A multiple of two.
    Even,
    /// None of these.
    Odd,
}

/// The kind of `n`.
pub open spec fn kind_of(n: int) -> Kind {
    if n % 3 == 0 && n % 5 == 0 {
        Kind::FizzBuzz
    } else if n % 3 == 0 {
        Kind::Fizz
    } else if n % 5 == 0 {
        Kind::Buzz
    } else if n % 2 == 0 {
        Kind::Even
    } else {
        Kind::Odd
    }
}

/// The sum of the numbers in `s`.
pub open spec fn sum_of(s: Seq<i32>) -> int
    decreases s.len(),
{
    if s.len() == 0 {
        0
    } else {
        sum_of(s.drop_last()) + s.last()
    }
}

/// Tells the kind of `n`.
pub fn classify(n: i32) -> (r: Kind)
    ensures
        r == kind_of(n as int),
{
    if n % 3 == 0 && n % 5 == 0 {
        Kind::FizzBuzz
    } else if n % 3 == 0 {
        Kind::Fizz
    } else if n % 5 == 0 {
        Kind::Buzz
    } else if is_even(n) {
        Kind::Even
    } else {
        Kind::Odd
    }
}

/// A sum of `n` numbers lies within `n` times the range of one number.
pub proof fn lemma_sum_bounds(s: Seq<i32>)
    ensures
        -0x8000_0000 * s.len() <= sum_of(s) <= 0x8000_0000 * s.len(),
    decreases s.len(),
{
    if s.len() > 0 {
        lemma_sum_bounds(s.drop_last());
    }
}

/// Adds up `numbers`.
pub fn sum(numbers: &Vec<i32>) -> (r: i32)
    requires
        i32::MIN <= sum_of(numbers@) <= i32::MAX,
    ensures
        r as int == sum_of(numbers@),
{
    let mut acc: i128 = 0;
    let mut i: usize = 0;
    assert(numbers@.subrange(0, 0) =~= Seq::<i32>::empty());
    while i < numbers.len()
        invariant
            i <= numbers.len(),
            acc == sum_of(numbers@.subrange(0, i as int)),
        decreases numbers.len() - i,
    {
        proof {
            lemma_sum_bounds(numbers@.subrange(0, i as int));
            assert(numbers@.subrange(0, i as int + 1).drop_last() =~= numbers@.subrange(
                0,
                i as int,
            ));
        }
        acc = acc + numbers[i] as i128;
        i = i + 1;
    }
    assert(numbers@.subrange(0, numbers.len() as int) =~= numbers@);
    acc as i32
}

/// The largest of `numbers`.
pub fn largest(numbers: &Vec<i32>) -> (r: i32)
    requires
        numbers.len() > 0,
    ensures
        numbers@.contains(r),
        forall|k: int| 0 <= k < numbers.len() ==> numbers[k] <= r,
{
    let mut max: i32 = numbers[0];
    let mut i: usize = 1;
    while i < numbers.len()
        invariant
            1 <= i <= numbers.len(),
            numbers@.contains(max),
            forall|k: int| 0 <= k < i ==> numbers[k] <= max,
        decreases numbers.len() - i,
    {
        if numbers[i] > max {
            max = numbers[i];
        }
        i = i + 1;
    }
    max
}

} // verus!
