//! Trial-division prime factorisation, as a producer that yields one factor
//! per step so that a caller can hand each factor on before computing the
//! next, and stop at any point.
use vstd::prelude::*;
use vstd::arithmetic::div_mod::{lemma_fundamental_div_mod, lemma_mod_multiples_basic, lemma_mod_self_0};
use crate::arith::seq_product;

verus! {

/// `p` is a prime number.
pub open spec fn is_prime(p: int) -> bool {
    &&& p >= 2
    &&& forall|d: int| 2 <= d < p ==> #[trigger] (p % d) != 0
}

/// Every element of `s` is at most every element after it.
pub open spec fn non_decreasing(s: Seq<u64>) -> bool {
    forall|i: int, j: int| 0 <= i <= j < s.len() ==> s[i] <= s[j]
}

/// `s` lists the prime factors of `n`, with multiplicity, smallest first.
pub open spec fn is_prime_factorization(s: Seq<u64>, n: int) -> bool {
    &&& seq_product(s) == n
    &&& forall|i: int| 0 <= i < s.len() ==> is_prime(#[trigger] s[i] as int)
    &&& non_decreasing(s)
}

/// What the producer emits in full for `n`: `0` and `1` are emitted as
/// themselves, every other number as its prime factorisation.
pub open spec fn complete_emission(s: Seq<u64>, n: u64) -> bool {
    if n < 2 {
        s == seq![n]
    } else {
        is_prime_factorization(s, n as int)
    }
}

proof fn lemma_divides_trans(a: int, k: int, d: int)
    requires
        d > 0,
        k > 0,
        a % k == 0,
        k % d == 0,
    ensures
        a % d == 0,
{
    lemma_fundamental_div_mod(a, k);
    lemma_fundamental_div_mod(k, d);
    let q = a / k;
    let p = k / d;
    assert(a == d * (p * q)) by (nonlinear_arith)
        requires
            a == k * q + 0,
            k == d * p + 0,
    ;
    lemma_mod_multiples_basic(p * q, d);
    assert(d * (p * q) == (p * q) * d) by (nonlinear_arith);
}

/// The state of one factorisation in progress.
pub struct FactorState {
    remaining: u64,
    divisor: u64,
    identity_pending: bool,
    original: Ghost<u64>,
    emitted: Ghost<Seq<u64>>,
}

impl FactorState {
    /// The number being factored.
    pub closed spec fn original(&self) -> u64 {
        self.original@
    }

    /// The factors emitted so far, in order.
    pub closed spec fn emitted(&self) -> Seq<u64> {
        self.emitted@
    }

    /// No factor is left to emit.
    pub closed spec fn is_done(&self) -> bool {
        !self.identity_pending && self.remaining < self.divisor
    }

    /// A bound on the number of factors still to come.
    pub closed spec fn work_left(&self) -> nat {
        if self.identity_pending {
            2
        } else {
            self.remaining as nat
        }
    }

    /// The state is consistent: the factors emitted so far times what
    /// remains give the original number, and no divisor below the current
    /// one divides what remains.
    pub closed spec fn wf(&self) -> bool {
        let n = self.original@;
        let s = self.emitted@;
        &&& self.divisor >= 2
        &&& if n < 2 {
            &&& self.remaining == n
            &&& self.divisor == 2
            &&& s == if self.identity_pending { Seq::<u64>::empty() } else { seq![n] }
        } else {
            &&& !self.identity_pending
            &&& self.remaining >= 1
            &&& seq_product(s) * self.remaining == n
            &&& forall|d: int| 2 <= d < self.divisor ==> #[trigger] (self.remaining as int % d) != 0
            &&& forall|i: int| 0 <= i < s.len() ==> is_prime(#[trigger] s[i] as int)
            &&& forall|i: int| 0 <= i < s.len() ==> #[trigger] s[i] <= self.divisor
            &&& non_decreasing(s)
        }
    }

    /// Starts the factorisation of `n`, with nothing emitted yet.
    pub fn new(n: u64) -> (r: FactorState)
        ensures
            r.wf(),
            r.original() == n,
            r.emitted() == Seq::<u64>::empty(),
    {
        FactorState {
            remaining: n,
            divisor: 2,
            identity_pending: n < 2,
            original: Ghost(n),
            emitted: Ghost(Seq::empty()),
        }
    }

    /// Computes the next factor, or `None` once every factor was emitted.
    /// Divisors are tried from 2 upward; a divisor that divides is tried
    /// again before the next one.
    pub fn next_factor(&mut self) -> (r: Option<u64>)
        requires
            old(self).wf(),
        ensures
            final(self).wf(),
            final(self).original() == old(self).original(),
            old(self).is_done() <==> r is None,
            r is None ==> final(self).is_done() && final(self).emitted() == old(self).emitted(),
            r matches Some(f) ==> final(self).emitted() == old(self).emitted().push(f),
            r is Some ==> final(self).work_left() < old(self).work_left(),
            final(self).is_done() ==> complete_emission(final(self).emitted(), final(self).original()),
    {
        if self.identity_pending {
            self.identity_pending = false;
            self.emitted = Ghost(Seq::empty().push(self.remaining));
            return Some(self.remaining);
        }
        while self.remaining >= self.divisor
            invariant
                self.wf(),
                self.original() == old(self).original(),
                self.emitted() == old(self).emitted(),
                !self.identity_pending,
                !old(self).identity_pending,
                self.remaining == old(self).remaining,
                self.divisor >= old(self).divisor,
            decreases self.remaining - self.divisor,
        {
            let k = self.divisor;
            let m = self.remaining;
            if m % k == 0 {
                let q = m / k;
                proof {
                    let n = self.original@;
                    let s = self.emitted@;
                    assert(n >= 2);
                    lemma_fundamental_div_mod(m as int, k as int);
                    assert(m == k * q);
                    assert(q >= 1 && q < m) by (nonlinear_arith)
                        requires m == k * q, m >= k, k >= 2;
                    assert forall|d: int| 2 <= d < k implies #[trigger] (k as int % d) != 0 by {
                        if k as int % d == 0 {
                            lemma_divides_trans(m as int, k as int, d);
                        }
                    }
                    lemma_mod_multiples_basic(k as int, q as int);
                    assert((k * q) as int == k as int * q as int);
                    assert forall|d: int| 2 <= d < k implies #[trigger] (q as int % d) != 0 by {
                        if q as int % d == 0 {
                            lemma_divides_trans(m as int, q as int, d);
                        }
                    }
                    let s2 = s.push(k);
                    assert(s2.drop_last() == s);
                    assert(seq_product(s2) * q == n) by (nonlinear_arith)
                        requires
                            seq_product(s2) == seq_product(s) * k,
                            seq_product(s) * m == n,
                            m == k * q,
                    ;
                    assert forall|i: int| 0 <= i < s2.len() implies is_prime(#[trigger] s2[i] as int) by {
                        if i < s.len() {
                            assert(s2[i] == s[i]);
                        }
                    }
                }
                self.remaining = q;
                self.emitted = Ghost(self.emitted@.push(k));
                return Some(k);
            } else {
                proof {
                    lemma_mod_self_0(k as int);
                }
                self.divisor = k + 1;
            }
        }
        proof {
            let n = self.original@;
            if n >= 2 {
                let m = self.remaining as int;
                if m >= 2 {
                    lemma_mod_self_0(m);
                    assert(m % m != 0);
                }
                assert(m == 1);
                assert(seq_product(self.emitted@) * 1 == n);
            } else {
                assert(self.emitted@ == seq![n]);
            }
        }
        None
    }
}

/// The factors of `n`, as the producer emits them one by one: for `n >= 2`
/// its prime factorisation, smallest factor first; for `0` and `1`, the
/// number itself.
pub fn prime_factors(n: u64) -> (r: Vec<u64>)
    ensures
        complete_emission(r@, n),
{
    let mut state = FactorState::new(n);
    let mut out: Vec<u64> = Vec::new();
    loop
        invariant
            state.wf(),
            state.original() == n,
            out@ == state.emitted(),
        ensures
            complete_emission(out@, n),
        decreases state.work_left(),
    {
        match state.next_factor() {
            Some(f) => out.push(f),
            None => break,
        }
    }
    out
}

} // verus!
