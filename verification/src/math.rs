use vstd::arithmetic::div_mod::{lemma_div_is_ordered, lemma_div_multiples_vanish, lemma_div_pos_is_pos};
use vstd::prelude::*;

verus! {

/// Absolute value of a mathematical integer.
pub open spec fn abs_val(x: int) -> int {
    if x < 0 {
        -x
    } else {
        x
    }
}

/// The integer square root: the largest `r` with `r * r <= n`.
pub open spec fn sqrt_floor(n: nat) -> nat
    decreases n,
{
    if n == 0 {
        0
    } else {
        let r = sqrt_floor((n - 1) as nat);
        if (r + 1) * (r + 1) <= n {
            r + 1
        } else {
            r
        }
    }
}

/// `sqrt_floor(n)` is indeed the floor of the square root of `n`.
pub proof fn lemma_sqrt_floor_bounds(n: nat)
    ensures
        sqrt_floor(n) * sqrt_floor(n) <= n,
        n < (sqrt_floor(n) + 1) * (sqrt_floor(n) + 1),
    decreases n,
{
    let s = sqrt_floor(n);
    if n == 0 {
        assert(s * s <= n && n < (s + 1) * (s + 1)) by (nonlinear_arith)
            requires
                n == 0,
                s == 0,
        ;
    } else {
        lemma_sqrt_floor_bounds((n - 1) as nat);
        let r = sqrt_floor((n - 1) as nat);
        if (r + 1) * (r + 1) <= n {
            assert(n <= (r + 1) * (r + 1));
            assert(s * s <= n && n < (s + 1) * (s + 1)) by (nonlinear_arith)
                requires
                    s == r + 1,
                    (r + 1) * (r + 1) <= n,
                    n <= (r + 1) * (r + 1),
            ;
        } else {
            assert(s * s <= n && n < (s + 1) * (s + 1)) by (nonlinear_arith)
                requires
                    s == r,
                    r * r <= n,
                    n < (r + 1) * (r + 1),
            ;
        }
    }
}

/// Any `r` with `r * r <= n < (r + 1) * (r + 1)` is the integer square
/// root of `n`.
pub proof fn lemma_sqrt_floor_is_unique(n: nat, r: nat)
    requires
        r * r <= n,
        n < (r + 1) * (r + 1),
    ensures
        r == sqrt_floor(n),
{
    let s = sqrt_floor(n);
    lemma_sqrt_floor_bounds(n);
    if r < s {
        assert((r + 1) * (r + 1) <= s * s) by (nonlinear_arith)
            requires
                r + 1 <= s,
        ;
    }
    if s < r {
        assert((s + 1) * (s + 1) <= r * r) by (nonlinear_arith)
            requires
                s + 1 <= r,
        ;
    }
}

/// Squaring is monotone, so a square below `n` has its root at or below
/// `sqrt_floor(n)`.
pub proof fn lemma_root_le_sqrt_floor(n: nat, x: nat)
    requires
        x * x <= n,
    ensures
        x <= sqrt_floor(n),
{
    lemma_sqrt_floor_bounds(n);
    let s = sqrt_floor(n);
    if s < x {
        assert((s + 1) * (s + 1) <= x * x) by (nonlinear_arith)
            requires
                s + 1 <= x,
        ;
    }
}

/// A quotient of non-negative integers is bounded by any `c` whose
/// product with the divisor dominates the dividend.
pub proof fn lemma_div_le(num: int, den: int, c: int)
    requires
        1 <= den,
        0 <= num,
        num <= c * den,
    ensures
        0 <= num / den <= c,
{
    lemma_div_pos_is_pos(num, den);
    lemma_div_is_ordered(num, c * den, den);
    assert(c * den == den * c) by (nonlinear_arith);
    lemma_div_multiples_vanish(c, den);
}

/// Integer square root of a machine word, by bisection.
pub fn isqrt(n: u64) -> (r: u64)
    ensures
        r == sqrt_floor(n as nat),
{
    let mut lo: u64 = 0;
    let mut hi: u64 = 4_294_967_296;
    while lo + 1 < hi
        invariant
            lo < hi <= 4_294_967_296,
            (lo as int) * (lo as int) <= n as int,
            (n as int) < (hi as int) * (hi as int),
        decreases hi - lo,
    {
        let mid = lo + (hi - lo) / 2;
        proof {
            assert((mid as int) * (mid as int) <= 0x1_0000_0000_0000_0000) by (nonlinear_arith)
                requires
                    0 <= mid as int <= 0x1_0000_0000,
            ;
        }
        let sq: u128 = (mid as u128) * (mid as u128);
        proof {
            assert(sq == (mid as int) * (mid as int));
        }
        if sq <= n as u128 {
            lo = mid;
        } else {
            hi = mid;
        }
    }
    proof {
        assert((n as int) < ((lo as int) + 1) * ((lo as int) + 1)) by (nonlinear_arith)
            requires
                (n as int) < (hi as int) * (hi as int),
                hi as int == lo as int + 1,
        ;
        lemma_sqrt_floor_is_unique(n as nat, lo as nat);
    }
    lo
}

/// Absolute value of a machine integer.
pub fn abs_i64(x: i64) -> (r: i64)
    requires
        i64::MIN < x,
    ensures
        r == abs_val(x as int),
{
    if x < 0 {
        -x
    } else {
        x
    }
}

} // verus!
