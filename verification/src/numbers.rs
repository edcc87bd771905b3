//! Arithmetic facts that the generators and the paths rest on.

use vstd::prelude::*;
use vstd::arithmetic::div_mod::lemma_fundamental_div_mod;
use vstd::arithmetic::div_mod::lemma_mod_multiples_basic;

verus! {

/// Whether `d` divides `n`.
pub open spec fn divides(d: nat, n: nat) -> bool {
    d > 0 && n % d == 0
}

/// Whether `n` is prime: at least 2, and divided by no number strictly
/// between 1 and itself.
pub open spec fn is_prime(n: nat) -> bool {
    n >= 2 && forall|d: nat| 1 < d < n ==> !divides(d, n)
}

/// The Fibonacci numbers 0, 1, 1, 2, 3, 5, 8, ...
pub open spec fn fib(k: nat) -> nat
    decreases k,
{
    if k == 0 {
        0
    } else if k == 1 {
        1
    } else {
        fib((k - 1) as nat) + fib((k - 2) as nat)
    }
}

/// Whether `n` is a Fibonacci number.
pub open spec fn is_fibonacci(n: nat) -> bool {
    exists|k: nat| fib(k) == n
}

/// Whether `n` is the square of an integer.
pub open spec fn is_square(n: nat) -> bool {
    exists|r: nat| #[trigger] (r * r) == n
}

/// Whether one of the numbers from `from` up to `n - 1` divides `n`, for
/// `from >= 1`.
pub open spec fn has_divisor_from(n: nat, from: nat) -> bool
    decreases n - from,
{
    if from >= n {
        false
    } else {
        n % from == 0 || has_divisor_from(n, from + 1)
    }
}

/// Trying the numbers from `from` on finds a divisor exactly if there is
/// one among them.
pub proof fn lemma_has_divisor_from(n: nat, from: nat)
    requires
        from >= 1,
    ensures
        has_divisor_from(n, from) <==> exists|d: nat| from <= d < n && divides(d, n),
    decreases n - from,
{
    if from < n {
        lemma_has_divisor_from(n, from + 1);
        if has_divisor_from(n, from) {
            if n % from == 0 {
                assert(from <= from < n && divides(from, n));
            } else {
                let d = choose|d: nat| from + 1 <= d < n && divides(d, n);
                assert(from <= d < n && divides(d, n));
            }
        }
        if exists|d: nat| from <= d < n && divides(d, n) {
            let d = choose|d: nat| from <= d < n && divides(d, n);
            if d != from {
                assert(from + 1 <= d < n && divides(d, n));
            }
        }
    }
}

/// A number is prime exactly if it is at least 2 and trying the numbers
/// from 2 on finds no divisor.
pub proof fn lemma_prime_by_trial(n: nat)
    ensures
        is_prime(n) <==> n >= 2 && !has_divisor_from(n, 2),
{
    lemma_has_divisor_from(n, 2);
    if n >= 2 && !has_divisor_from(n, 2) {
        assert forall|d: nat| 1 < d < n implies !divides(d, n) by {
            if divides(d, n) {
                assert(2 <= d < n && divides(d, n));
            }
        }
    }
    if is_prime(n) && has_divisor_from(n, 2) {
        let d = choose|d: nat| 2 <= d < n && divides(d, n);
        assert(1 < d < n);
    }
}

/// No square lies strictly between the squares of two numbers that follow
/// each other.
pub proof fn lemma_square_gap(r: nat, n: nat)
    requires
        r * r < n < (r + 1) * (r + 1),
    ensures
        !is_square(n),
{
    assert forall|q: nat| #[trigger] (q * q) != n by {
        if q <= r {
            lemma_square_monotonic(q, r);
        } else {
            lemma_square_monotonic(r + 1, q);
        }
    }
}

/// A number divides its multiples.
pub proof fn lemma_divides_multiple(d: nat, k: nat)
    requires
        d > 0,
    ensures
        divides(d, d * k),
        divides(d, k * d),
{
    lemma_mod_multiples_basic(k as int, d as int);
    assert(d * k == k * d) by (nonlinear_arith);
}

/// A number is the product of a divisor and the quotient, and neither is
/// larger than the number unless the number is zero.
pub proof fn lemma_divides_quotient(d: nat, n: nat)
    requires
        divides(d, n),
    ensures
        n == d * (n / d),
        n > 0 ==> 1 <= n / d <= n && d <= n,
{
    lemma_fundamental_div_mod(n as int, d as int);
    let q = n / d;
    if n > 0 {
        assert(q >= 1 && q <= n && d <= n) by (nonlinear_arith)
            requires
                n == d * q,
                n > 0,
                d > 0,
                q >= 0,
        ;
    }
}

/// A divisor of a divisor is a divisor.
pub proof fn lemma_divides_transitive(a: nat, b: nat, c: nat)
    requires
        divides(a, b),
        divides(b, c),
    ensures
        divides(a, c),
{
    lemma_divides_quotient(a, b);
    lemma_divides_quotient(b, c);
    let k = (b / a) * (c / b);
    assert(c == a * k) by (nonlinear_arith)
        requires
            b == a * (b / a),
            c == b * (c / b),
            k == (b / a) * (c / b),
    ;
    lemma_divides_multiple(a, k);
}

/// Every number from 2 on has a prime among its divisors.
pub proof fn lemma_prime_factor(n: nat) -> (q: nat)
    requires
        n >= 2,
    ensures
        is_prime(q),
        divides(q, n),
    decreases n,
{
    if is_prime(n) {
        assert(n % n == 0) by (nonlinear_arith)
            requires
                n > 0,
        ;
        n
    } else {
        let d = choose|d: nat| 1 < d < n && divides(d, n);
        let q = lemma_prime_factor(d);
        lemma_divides_transitive(q, d, n);
        q
    }
}

/// From the third on, each Fibonacci number is larger than the one before.
pub proof fn lemma_fib_increasing(k: nat)
    requires
        k >= 2,
    ensures
        fib(k) < fib(k + 1),
        fib(k) >= 1,
    decreases k,
{
    if k == 2 {
        assert(fib(2) == 1) by {
            reveal_with_fuel(fib, 3);
        }
        assert(fib(3) == 2) by {
            reveal_with_fuel(fib, 4);
        }
    } else {
        lemma_fib_increasing((k - 1) as nat);
    }
}

/// The Fibonacci numbers never fall.
pub proof fn lemma_fib_monotonic(a: nat, b: nat)
    requires
        a <= b,
    ensures
        fib(a) <= fib(b),
    decreases b,
{
    if a < b {
        lemma_fib_monotonic(a, (b - 1) as nat);
        if b >= 3 {
            lemma_fib_increasing((b - 1) as nat);
        } else {
            reveal_with_fuel(fib, 3);
        }
    }
}

/// No Fibonacci number lies strictly between two that follow each other.
pub proof fn lemma_fib_gap(k: nat, n: nat)
    requires
        fib(k) < n < fib(k + 1),
    ensures
        !is_fibonacci(n),
{
    assert forall|j: nat| fib(j) != n by {
        if j <= k {
            lemma_fib_monotonic(j, k);
        } else {
            lemma_fib_monotonic(k + 1, j);
        }
    }
}

/// A number is no smaller than its root.
pub proof fn lemma_root_below_square(r: nat)
    ensures
        r <= r * r,
{
    assert(r <= r * r) by (nonlinear_arith);
}

/// The integer square root: the largest `s` with `s * s <= n`.
pub open spec fn isqrt(n: nat) -> nat
    decreases n,
{
    if n == 0 {
        0
    } else {
        let s = isqrt((n - 1) as nat);
        if (s + 1) * (s + 1) <= n {
            s + 1
        } else {
            s
        }
    }
}

/// `isqrt(n)` is a root from below, and the next integer is one from above.
pub proof fn lemma_isqrt_bounds(n: nat)
    ensures
        isqrt(n) * isqrt(n) <= n < (isqrt(n) + 1) * (isqrt(n) + 1),
    decreases n,
{
    if n > 0 {
        lemma_isqrt_bounds((n - 1) as nat);
        let s = isqrt((n - 1) as nat);
        if (s + 1) * (s + 1) <= n {
            assert(isqrt(n) == s + 1);
            assert((s + 1 + 1) * (s + 1 + 1) > (s + 1) * (s + 1)) by (nonlinear_arith);
        } else {
            assert(isqrt(n) == s);
        }
    } else {
        assert(isqrt(n) == 0);
        assert(0 * 0 == 0nat && (0 + 1) * (0 + 1) == 1nat) by (nonlinear_arith);
    }
}

/// Squares grow with their roots.
pub proof fn lemma_square_monotonic(a: nat, b: nat)
    requires
        a <= b,
    ensures
        a * a <= b * b,
{
    assert(a * a <= b * b) by (nonlinear_arith)
        requires
            a <= b,
    ;
}

/// Only one integer lies between the roots of `n` from below and from above.
pub proof fn lemma_isqrt_unique(n: nat, s: nat)
    requires
        s * s <= n < (s + 1) * (s + 1),
    ensures
        isqrt(n) == s,
{
    lemma_isqrt_bounds(n);
    let r = isqrt(n);
    if r < s {
        lemma_square_monotonic(r + 1, s);
    } else if r > s {
        lemma_square_monotonic(s + 1, r);
    }
}

/// A number whose square is an index of the machine stays far below the
/// largest signed word.
pub proof fn lemma_root_of_word(s: nat, n: nat)
    requires
        s * s <= n,
        n <= usize::MAX + 1,
    ensures
        8 * s + 16 <= isize::MAX,
{
    if usize::MAX == 0xffff_ffff {
        if s > 0x1_0000 {
            lemma_square_monotonic(0x1_0001, s);
        }
    } else {
        if s > 0x1_0000_0000 {
            lemma_square_monotonic(0x1_0000_0001, s);
        }
    }
}

} // verus!
