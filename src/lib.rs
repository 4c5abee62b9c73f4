//! Numeric operations of a calculator service, with the decision logic of its
//! streaming calls: a prime-factor producer, a running-maximum emitter and the
//! bookkeeping of a streamed average.
use vstd::prelude::*;

pub mod arith;
pub mod average;
pub mod factor;
pub mod running_max;

use crate::arith::{seq_sum, wrap_i32};
use crate::factor::complete_emission;
use crate::running_max::running_maxima;

verus! {

/// The calculator service. It holds no state: every call owns its own.
#[derive(Debug, Default)]
pub struct MyCalculator {}

impl MyCalculator {
    /// A calculator.
    pub fn new() -> (r: MyCalculator) {
        MyCalculator {}
    }

    /// The sum of `data`, wrapping around as 32-bit arithmetic does.
    pub fn sum(&self, data: &Vec<i32>) -> (r: i32)
        ensures
            r as int == wrap_i32(seq_sum(data@)),
    {
        crate::arith::sum(data)
    }

    /// Every factor the prime-factor stream emits for `n`, in order.
    pub fn prime_factors(&self, n: u64) -> (r: Vec<u64>)
        ensures
            complete_emission(r@, n),
    {
        crate::factor::prime_factors(n)
    }

    /// Every value the running-maximum stream emits for `data`, in order.
    pub fn find_max(&self, data: &Vec<i32>) -> (r: Vec<i32>)
        ensures
            r@ == running_maxima(data@),
    {
        crate::running_max::find_max(data)
    }
}

} // verus!
