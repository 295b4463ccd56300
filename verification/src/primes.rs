//! Prime numbers by trial division.

use std::ops::Range;
use vstd::prelude::*;

verus! {

/// Whether `d` divides `n` without a remainder.
pub open spec fn divides(d: int, n: int) -> bool {
    n % d == 0
}

/// Whether `n` is a prime number: at least 2, and divided by no number
/// between 1 and itself.
pub open spec fn is_prime_number(n: int) -> bool {
    n >= 2 && forall|d: int| 2 <= d < n ==> !#[trigger] divides(d, n)
}

/// The prime numbers from `lo` up to, but not including, `hi`, in rising
/// order.
pub open spec fn primes_in(lo: int, hi: int) -> Seq<u32>
    decreases hi - lo,
{
    if hi <= lo {
        Seq::empty()
    } else if is_prime_number(hi - 1) {
        primes_in(lo, hi - 1).push((hi - 1) as u32)
    } else {
        primes_in(lo, hi - 1)
    }
}

/// A number with no divisor below `bound`, where `bound` squared exceeds the
/// number, has no divisor at all: it is prime.
pub proof fn lemma_trial_division_suffices(n: int, bound: int)
    requires
        n >= 2,
        2 <= bound,
        bound * bound > n,
        forall|d: int| 2 <= d < bound ==> !#[trigger] divides(d, n),
    ensures
        is_prime_number(n),
{
    assert forall|d: int| 2 <= d < n implies !#[trigger] divides(d, n) by {
        if d >= bound && divides(d, n) {
            let q = n / d;
            assert(n == d * q) by (nonlinear_arith)
                requires
                    d > 0,
                    n % d == 0,
                    q == n / d,
            ;
            assert(2 <= q < bound) by (nonlinear_arith)
                requires
                    n == d * q,
                    2 <= bound <= d < n,
                    bound * bound > n,
            ;
            assert(divides(q, n)) by (nonlinear_arith)
                requires
                    n == d * q,
                    q > 0,
            ;
        }
    }
}

/// Whether `n` is a prime number.
pub fn is_prime(n: u32) -> (prime: bool)
    ensures
        prime == is_prime_number(n as int),
{
    if n == 0 || n == 1 {
        return false;
    }
    let mut d: u32 = 2;
    while d <= n / d
        invariant
            n >= 2,
            2 <= d <= n,
            forall|k: int| 2 <= k < d ==> !#[trigger] divides(k, n as int),
        decreases n - d,
    {
        assert(d < n) by (nonlinear_arith)
            requires
                2 <= d <= n / d,
        ;
        if n % d == 0 {
            assert(divides(d as int, n as int));
            return false;
        }
        d += 1;
    }
    proof {
        assert(d * d > n) by (nonlinear_arith)
            requires
                d > n / d,
                d >= 2,
                n >= 0,
        ;
        lemma_trial_division_suffices(n as int, d as int);
    }
    true
}

/// Every entry of `primes_in(lo, hi)` lies in the range, and the list is no
/// longer than the range is wide.
pub proof fn lemma_primes_in_bounds(lo: int, hi: int)
    requires
        0 <= lo,
        hi <= u32::MAX + 1,
    ensures
        primes_in(lo, hi).len() <= if hi <= lo { 0 } else { hi - lo },
        forall|i: int|
            0 <= i < primes_in(lo, hi).len() ==> lo <= #[trigger] primes_in(lo, hi)[i] < hi,
    decreases hi - lo,
{
    if lo < hi {
        lemma_primes_in_bounds(lo, hi - 1);
    }
}

/// `primes_in(lo, hi)` holds prime numbers only, each larger than the one
/// before it, and misses no prime number of the range.
pub proof fn lemma_primes_in_lists_primes(lo: int, hi: int)
    requires
        0 <= lo,
        hi <= u32::MAX + 1,
    ensures
        forall|i: int|
            0 <= i < primes_in(lo, hi).len() ==> is_prime_number(
                #[trigger] primes_in(lo, hi)[i] as int,
            ),
        forall|i: int, j: int|
            0 <= i < j < primes_in(lo, hi).len() ==> #[trigger] primes_in(lo, hi)[i]
                < #[trigger] primes_in(lo, hi)[j],
        forall|p: int|
            lo <= p < hi && is_prime_number(p) ==> #[trigger] primes_in(lo, hi).contains(p as u32),
    decreases hi - lo,
{
    if lo < hi {
        let shorter = primes_in(lo, hi - 1);
        lemma_primes_in_lists_primes(lo, hi - 1);
        lemma_primes_in_bounds(lo, hi - 1);
        assert forall|p: int| lo <= p < hi && is_prime_number(p) implies #[trigger] primes_in(
            lo,
            hi,
        ).contains(p as u32) by {
            if p < hi - 1 {
                assert(shorter.contains(p as u32));
                let i = choose|i: int| 0 <= i < shorter.len() && shorter[i] == p as u32;
                assert(primes_in(lo, hi)[i] == p as u32);
            } else {
                assert(primes_in(lo, hi).last() == p as u32);
            }
        }
    }
}

/// A wider range holds at least as many prime numbers.
pub proof fn lemma_primes_in_grows(lo: int, mid: int, hi: int)
    requires
        mid <= hi,
    ensures
        primes_in(lo, mid).len() <= primes_in(lo, hi).len(),
    decreases hi - mid,
{
    if mid < hi {
        lemma_primes_in_grows(lo, mid, hi - 1);
        if hi <= lo {
            assert(primes_in(lo, mid).len() == 0);
        }
    }
}

/// Whether `k` is 2, 3, 5 or 7, or at least 2 and divided by none of them:
/// below 121 these are the prime numbers.
spec fn is_small_prime(k: int) -> bool {
    k == 2 || k == 3 || k == 5 || k == 7 || (k >= 2 && k % 2 != 0 && k % 3 != 0 && k % 5 != 0 && k
        % 7 != 0)
}

proof fn lemma_small_primes(k: int)
    requires
        0 <= k < 121,
    ensures
        is_prime_number(k) == is_small_prime(k),
{
    if k <= 2 {
    } else if k == 3 || k == 5 || k == 7 {
        assert forall|d: int| 2 <= d < 3 implies !#[trigger] divides(d, k) by {
            assert(d == 2);
        }
        lemma_trial_division_suffices(k, 3);
    } else if k % 2 == 0 {
        assert(divides(2, k));
    } else if k % 3 == 0 {
        assert(divides(3, k));
    } else if k % 5 == 0 {
        assert(divides(5, k));
    } else if k % 7 == 0 {
        assert(divides(7, k));
    } else {
        assert forall|d: int| 2 <= d < 11 implies !#[trigger] divides(d, k) by {
            if d == 4 || d == 6 || d == 8 || d == 10 {
                assert(k % d == 0 ==> k % 2 == 0);
            } else if d == 9 {
                assert(k % 9 == 0 ==> k % 3 == 0);
            }
        }
        lemma_trial_division_suffices(k, 11);
    }
}

/// The prime numbers below 100 are the 25 listed here. A `u32` therefore
/// holds at least 25 prime numbers, which lets `n_primes` be asked for up to
/// that many.
pub proof fn lemma_primes_below_hundred()
    ensures
        primes_in(0, 100) == seq![
            2u32,
            3,
            5,
            7,
            11,
            13,
            17,
            19,
            23,
            29,
            31,
            37,
            41,
            43,
            47,
            53,
            59,
            61,
            67,
            71,
            73,
            79,
            83,
            89,
            97,
        ],
        primes_in(0, u32::MAX as int).len() >= 25,
{
    assert forall|k: int| 0 <= k < 100 implies #[trigger] is_prime_number(k) == is_small_prime(
        k,
    ) by {
        lemma_small_primes(k);
    }
    reveal_with_fuel(primes_in, 11);
    assert(primes_in(0, 10) == seq![2u32, 3, 5, 7]);
    assert(primes_in(0, 20) == primes_in(0, 10) + seq![11u32, 13, 17, 19]);
    assert(primes_in(0, 30) == primes_in(0, 20) + seq![23u32, 29]);
    assert(primes_in(0, 40) == primes_in(0, 30) + seq![31u32, 37]);
    assert(primes_in(0, 50) == primes_in(0, 40) + seq![41u32, 43, 47]);
    assert(primes_in(0, 60) == primes_in(0, 50) + seq![53u32, 59]);
    assert(primes_in(0, 70) == primes_in(0, 60) + seq![61u32, 67]);
    assert(primes_in(0, 80) == primes_in(0, 70) + seq![71u32, 73, 79]);
    assert(primes_in(0, 90) == primes_in(0, 80) + seq![83u32, 89]);
    assert(primes_in(0, 100) == primes_in(0, 90) + seq![97u32]);
    lemma_primes_in_grows(0, 100, u32::MAX as int);
}

/// The prime numbers of `range`, in rising order.
pub fn primes_in_range(range: Range<u32>) -> (primes: Vec<u32>)
    ensures
        primes@ == primes_in(range.start as int, range.end as int),
{
    let mut primes = Vec::new();
    let mut i: u32 = range.start;
    while i < range.end
        invariant
            i == range.start || range.start <= i <= range.end,
            primes@ == primes_in(range.start as int, i as int),
        decreases range.end - i,
    {
        if is_prime(i) {
            primes.push(i);
        }
        i += 1;
    }
    proof {
        if range.end < range.start {
            assert(primes_in(range.start as int, range.end as int).len() == 0);
        }
    }
    primes
}

/// The first `n` prime numbers, in rising order.
///
/// The candidates are `u32` values, so `n` may not exceed the number of
/// prime numbers that a `u32` holds.
pub fn n_primes(n: u32) -> (primes: Vec<u32>)
    requires
        n <= primes_in(0, u32::MAX as int).len(),
    ensures
        primes.len() == n,
        n > 0 ==> primes@ == primes_in(0, primes[n - 1] + 1),
{
    let mut primes: Vec<u32> = Vec::with_capacity(n as usize);
    let mut i: u32 = 2;
    proof {
        reveal_with_fuel(primes_in, 3);
        assert(!is_prime_number(0) && !is_prime_number(1));
    }
    while primes.len() < n as usize
        invariant
            2 <= i,
            n <= primes_in(0, u32::MAX as int).len(),
            primes.len() <= n,
            primes@ == primes_in(0, i as int),
            primes.len() > 0 ==> primes@ == primes_in(0, primes[primes.len() - 1] + 1),
        decreases u32::MAX - i,
    {
        proof {
            if i == u32::MAX {
                assert(primes@.len() < primes_in(0, u32::MAX as int).len());
            }
        }
        if is_prime(i) {
            primes.push(i);
        }
        i += 1;
    }
    primes
}

} // verus!
