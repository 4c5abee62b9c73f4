//! Unary arithmetic: the wrapping sum of 32-bit integers and the wrapping
//! product of 64-bit factors.
use vstd::prelude::*;
use vstd::arithmetic::div_mod::{lemma_add_mod_noop, lemma_mul_mod_noop_left};

verus! {

/// The arithmetic sum of a sequence of integers, taken over the integers.
pub open spec fn seq_sum(s: Seq<i32>) -> int
    decreases s.len(),
{
    if s.len() == 0 {
        0
    } else {
        seq_sum(s.drop_last()) + s.last() as int
    }
}

/// The product of a sequence of integers, taken over the integers.
pub open spec fn seq_product(s: Seq<u64>) -> int
    decreases s.len(),
{
    if s.len() == 0 {
        1
    } else {
        seq_product(s.drop_last()) * s.last() as int
    }
}

/// The 32-bit two's complement value congruent to `x` modulo 2^32.
pub open spec fn wrap_i32(x: int) -> int {
    (x + 0x8000_0000) % 0x1_0000_0000 - 0x8000_0000
}

proof fn lemma_wrap_add(a: int, x: i32)
    ensures
        i32::MIN <= wrap_i32(a) <= i32::MAX,
        vstd::wrapping::i32_specs::wrapping_add(wrap_i32(a) as i32, x) as int
            == wrap_i32(a + x),
{
    let w = wrap_i32(a);
    lemma_add_mod_noop(a + 0x8000_0000, x as int, 0x1_0000_0000);
    assert((a + 0x8000_0000) % 0x1_0000_0000 == w + 0x8000_0000);
    assert(((w + 0x8000_0000) + x) % 0x1_0000_0000 == (a + x + 0x8000_0000) % 0x1_0000_0000) by {
        vstd::arithmetic::div_mod::lemma_mod_twice(a + 0x8000_0000, 0x1_0000_0000);
        lemma_add_mod_noop(w + 0x8000_0000, x as int, 0x1_0000_0000);
    }
    let s = w + x;
    if s > i32::MAX {
        vstd::arithmetic::div_mod::lemma_mod_sub_multiples_vanish(s + 0x8000_0000, 0x1_0000_0000);
    } else if s < i32::MIN {
        vstd::arithmetic::div_mod::lemma_mod_add_multiples_vanish(s + 0x8000_0000, 0x1_0000_0000);
    } else {
        vstd::arithmetic::div_mod::lemma_small_mod((s + 0x8000_0000) as nat, 0x1_0000_0000);
    }
}

/// Sums `data`, wrapping around on overflow as 32-bit two's complement
/// arithmetic does; the empty sequence sums to 0.
pub fn sum(data: &Vec<i32>) -> (r: i32)
    ensures
        r as int == wrap_i32(seq_sum(data@)),
{
    let mut acc: i32 = 0;
    let mut i: usize = 0;
    proof {
        vstd::arithmetic::div_mod::lemma_small_mod(0x8000_0000nat, 0x1_0000_0000);
    }
    while i < data.len()
        invariant
            i <= data.len(),
            acc as int == wrap_i32(seq_sum(data@.take(i as int))),
        decreases data.len() - i,
    {
        proof {
            lemma_wrap_add(seq_sum(data@.take(i as int)), data@[i as int]);
            assert(data@.take(i as int + 1).drop_last() == data@.take(i as int));
        }
        acc = acc.wrapping_add(data[i]);
        i = i + 1;
    }
    assert(data@.take(i as int) == data@);
    acc
}

/// Multiplies `factors` together, wrapping around modulo 2^64; the empty
/// sequence has product 1.
pub fn product(factors: &Vec<u64>) -> (r: u64)
    ensures
        r as int == seq_product(factors@) % 0x1_0000_0000_0000_0000,
{
    let mut prod: u64 = 1;
    let mut i: usize = 0;
    while i < factors.len()
        invariant
            i <= factors.len(),
            prod as int == seq_product(factors@.take(i as int)) % 0x1_0000_0000_0000_0000,
        decreases factors.len() - i,
    {
        proof {
            let p = seq_product(factors@.take(i as int));
            assert(factors@.take(i as int + 1).drop_last() == factors@.take(i as int));
            lemma_mul_mod_noop_left(p, factors@[i as int] as int, 0x1_0000_0000_0000_0000);
        }
        prod = prod.wrapping_mul(factors[i]);
        i = i + 1;
    }
    assert(factors@.take(i as int) == factors@);
    prod
}

} // verus!
