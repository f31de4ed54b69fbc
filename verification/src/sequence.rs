//! The Fibonacci sequence over the naturals, and where it leaves 128 bits.

use vstd::prelude::*;

verus! {

/// The Fibonacci sequence: F(0) = 0, F(1) = 1, F(n) = F(n-1) + F(n-2).
pub open spec fn fib(n: nat) -> nat
    decreases n,
{
    if n == 0 {
        0
    } else if n == 1 {
        1
    } else {
        fib((n - 1) as nat) + fib((n - 2) as nat)
    }
}

/// The largest index whose term an unsigned 128-bit integer can hold.
pub const LAST_EXACT_INDEX: usize = 186;

/// Whether F(n) can be held exactly.
pub open spec fn fits(n: nat) -> bool {
    fib(n) <= u128::MAX
}

/// The sequence never decreases.
pub proof fn lemma_fib_monotonic(i: nat, j: nat)
    requires
        i <= j,
    ensures
        fib(i) <= fib(j),
    decreases j - i,
{
    if j < 2 || i == j {
    } else if i == j - 1 {
    } else {
        lemma_fib_monotonic(i, (j - 1) as nat);
        lemma_fib_monotonic(i, (j - 2) as nat);
    }
}

/// The addition law: F(m + n) = F(m) F(n + 1) + F(m - 1) F(n).
pub proof fn lemma_fib_sum(m: nat, n: nat)
    requires
        m >= 1,
    ensures
        fib(m + n) == fib(m) * fib(n + 1) + fib((m - 1) as nat) * fib(n),
    decreases n,
{
    let a = fib(m);
    let b = fib((m - 1) as nat);
    if n == 0 {
        assert(a * 1 + b * 0 == a) by (nonlinear_arith);
    } else if n == 1 {
        assert(fib(0) == 0 && fib(1) == 1);
        assert(fib(2) == 1);
        assert(a * 1 + b * 1 == a + b) by (nonlinear_arith);
    } else {
        let n1 = (n - 1) as nat;
        let n2 = (n - 2) as nat;
        lemma_fib_sum(m, n1);
        lemma_fib_sum(m, n2);
        assert(fib(m + n) == fib(m + n1) + fib(m + n2));
        assert(fib(n + 1) == fib(n) + fib(n1));
        assert(fib(n) == fib(n1) + fib(n2));
        let x = fib(n);
        let y = fib(n1);
        let z = fib(n2);
        assert((a * x + b * y) + (a * y + b * z) == a * (x + y) + b * (y + z))
            by (nonlinear_arith);
    }
}

/// The doubling laws: with a = F(k) and b = F(k + 1),
/// F(2k) = a (2b - a) and F(2k + 1) = a^2 + b^2.
pub proof fn lemma_fib_double(k: nat, a: nat, b: nat)
    requires
        k >= 1,
        fib(k) == a,
        fib(k + 1) == b,
    ensures
        fib(2 * k) == a * (2 * b - a),
        fib(2 * k + 1) == a * a + b * b,
{
    let c = fib((k - 1) as nat);
    lemma_fib_sum(k, k);
    lemma_fib_sum(k + 1, k);
    assert(b == a + c);
    assert(a * b + c * a == a * (2 * b - a)) by (nonlinear_arith)
        requires
            b == a + c,
    ;
    assert(b * b + a * a == a * a + b * b);
}

/// F(186) is the last term below 2^128: the values of F(186) and F(187),
/// reached from F(2) by doubling the index seven times.
pub proof fn lemma_last_exact_terms()
    ensures
        fib(186) == 332825110087067562321196029789634457848,
        fib(187) == 538522340430300790495419781092981030533,
        fib(186) <= u128::MAX < fib(187),
{
    assert(fib(0) == 0 && fib(1) == 1);
    assert(fib(2) == 1);
    assert(fib(3) == 2);
    lemma_fib_double(2, 1, 2);
    assert(fib(4) == 3 && fib(5) == 5);
    assert(fib(6) == 8);
    lemma_fib_double(5, 5, 8);
    assert(fib(10) == 55 && fib(11) == 89);
    assert(fib(12) == 144);
    lemma_fib_double(11, 89, 144);
    assert(fib(22) == 17711 && fib(23) == 28657);
    assert(fib(24) == 46368);
    lemma_fib_double(23, 28657, 46368);
    assert(fib(46) == 1836311903 && fib(47) == 2971215073);
    lemma_fib_double(46, 1836311903, 2971215073);
    assert(fib(92) == 7540113804746346429 && fib(93) == 12200160415121876738);
    assert(fib(94) == 19740274219868223167);
    lemma_fib_double(93, 12200160415121876738, 19740274219868223167);
    assert(fib(186) == 332825110087067562321196029789634457848);
    assert(fib(187) == 538522340430300790495419781092981030533);
}

/// An index has an exact term if and only if it is at most
/// `LAST_EXACT_INDEX`.
pub proof fn lemma_fits_through_last_exact_index(n: nat)
    ensures
        fits(n) <==> n <= LAST_EXACT_INDEX,
{
    lemma_last_exact_terms();
    if n <= 186 {
        lemma_fib_monotonic(n, 186);
    } else {
        lemma_fib_monotonic(187, n);
    }
}

} // verus!
