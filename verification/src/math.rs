//! Integer square root, used where the contract needs a geometric mean or a
//! dampened weight without floating point.

use vstd::prelude::*;

verus! {

/// `r` is the integer square root of `n`: the largest `r` with `r * r <= n`.
pub open spec fn is_floor_sqrt(n: int, r: int) -> bool {
    0 <= r && r * r <= n && n < (r + 1) * (r + 1)
}

/// The integer square root of `n`.
pub open spec fn floor_sqrt(n: int) -> int {
    choose|r: int| is_floor_sqrt(n, r)
}

/// An integer square root is the integer square root.
pub proof fn lemma_floor_sqrt_is(n: int, r: int)
    requires
        is_floor_sqrt(n, r),
    ensures
        floor_sqrt(n) == r,
{
    let c = floor_sqrt(n);
    assert(is_floor_sqrt(n, c));
    if c < r {
        assert((c + 1) * (c + 1) <= r * r) by (nonlinear_arith)
            requires
                0 <= c + 1 <= r,
        ;
    } else if r < c {
        assert((r + 1) * (r + 1) <= c * c) by (nonlinear_arith)
            requires
                0 <= r + 1 <= c,
        ;
    }
}

proof fn lemma_next_upper(n: int, x: int, q: int, y: int)
    requires
        x >= 1,
        n >= 0,
        q == n / x,
        y == (x + q) / 2,
    ensures
        (y + 1) * (y + 1) > n,
{
    assert(n < (q + 1) * x) by (nonlinear_arith)
        requires
            x >= 1,
            n >= 0,
            q == n / x,
    ;
    assert(2 * (y + 1) >= x + q + 1);
    assert((x + q + 1) * (x + q + 1) >= 4 * x * (q + 1)) by (nonlinear_arith);
    assert(4 * (y + 1) * (y + 1) >= (x + q + 1) * (x + q + 1)) by (nonlinear_arith)
        requires
            2 * (y + 1) >= x + q + 1,
            x + q + 1 >= 0,
    ;
    assert(4 * x * (q + 1) > 4 * n) by (nonlinear_arith)
        requires
            n < (q + 1) * x,
    ;
    assert((y + 1) * (y + 1) > n) by (nonlinear_arith)
        requires
            4 * (y + 1) * (y + 1) >= (x + q + 1) * (x + q + 1),
            (x + q + 1) * (x + q + 1) >= 4 * x * (q + 1),
            4 * x * (q + 1) > 4 * n,
    ;
}

proof fn lemma_step_decreases(n: int, x: int)
    requires
        x >= 1,
        n >= 0,
        x * x > n,
    ensures
        (x + n / x) / 2 < x,
{
    assert(n / x < x) by (nonlinear_arith)
        requires
            x >= 1,
            n >= 0,
            x * x > n,
    ;
}

proof fn lemma_sum_bounded(n: int, x: int)
    requires
        1 <= x,
        2 * x <= n + 1,
    ensures
        x + n / x <= n + 1,
{
    if x >= 2 {
        assert(n / x <= n / 2) by (nonlinear_arith)
            requires
                x >= 2,
                n >= 0,
        ;
    } else {
        assert(n / x == n);
    }
}

/// The integer square root of `n` by Newton's iteration; zero for `n <= 0`.
pub fn isqrt(n: i128) -> (r: i128)
    requires
        n < i128::MAX,
    ensures
        n <= 0 ==> r == 0,
        n > 0 ==> is_floor_sqrt(n as int, r as int),
{
    if n <= 0 {
        return 0;
    }
    let mut x = n;
    let mut y = (x + 1) / 2;
    proof {
        assert((n + 1) * (n + 1) > n) by (nonlinear_arith)
            requires
                n >= 1,
        ;
        assert(n / n == 1) by (nonlinear_arith)
            requires
                n >= 1,
        ;
    }
    while y < x
        invariant
            1 <= x <= n,
            n < i128::MAX,
            (x + 1) * (x + 1) > n,
            y == (x + n / x) / 2,
            x < n ==> 2 * x <= n + 1,
        decreases x,
    {
        proof {
            lemma_next_upper(n as int, x as int, n as int / x as int, y as int);
            assert(y >= 1) by (nonlinear_arith)
                requires
                    (y + 1) * (y + 1) > n,
                    n >= 1,
                    y >= 0,
            ;
            if x < n {
                assert(2 * y <= x + n / x);
                lemma_sum_bounded(n as int, y as int);
            } else {
                assert(n / n == 1) by (nonlinear_arith)
                    requires
                        n >= 1,
                ;
                assert(2 * y <= n + 1);
                lemma_sum_bounded(n as int, y as int);
            }
        }
        x = y;
        y = (x + n / x) / 2;
    }
    proof {
        if x * x > n {
            lemma_step_decreases(n as int, x as int);
        }
    }
    x
}

} // verus!
