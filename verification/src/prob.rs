//! Exact rational probabilities.
//!
//! Belief values are probabilities of the form `num / den` with small
//! numerators and denominators, so they are kept as exact fractions rather
//! than approximated.  Strategy cutoffs are kept in fixed-point
//! millionths; comparisons against them cross-multiply, so no rounding ever
//! occurs.

use vstd::prelude::*;

verus! {

/// Fixed-point scale for strategy cutoffs: one unit is a millionth.
pub const MICRO: u64 = 1_000_000;

/// A non-negative rational number `num / den`.
///
/// Probabilities produced by the belief estimator always lie in `[0, 1]`
/// (`num <= den`), but the type itself only demands a positive denominator.
#[derive(PartialEq, Eq, Structural, Copy, Clone, Debug)]
pub struct Prob {
    pub num: u64,
    pub den: u64,
}

impl Prob {
    /// A positive denominator makes the fraction meaningful.
    pub open spec fn wf(self) -> bool {
        self.den >= 1
    }

    /// The value lies in the unit interval.
    pub open spec fn in_unit(self) -> bool {
        self.num <= self.den
    }

    /// `self < c` where `c` is a cutoff in millionths: compare
    /// `num / den < c / MICRO` by cross-multiplication.
    pub open spec fn lt_cutoff(self, cutoff: i64) -> bool {
        self.num * MICRO < cutoff * self.den
    }

    /// `self > c` where `c` is a cutoff in millionths.
    pub open spec fn gt_cutoff(self, cutoff: i64) -> bool {
        self.num * MICRO > cutoff * self.den
    }

    /// `self > other` as rationals, by cross-multiplication.
    pub open spec fn gt_frac(self, other: Prob) -> bool {
        self.num * other.den > other.num * self.den
    }

    /// The zero probability.
    pub fn zero() -> (p: Prob)
        ensures
            p == (Prob { num: 0, den: 1 }),
    {
        Prob { num: 0, den: 1 }
    }

    /// Decides `self < cutoff` (cutoff in millionths), exactly.
    pub fn is_lt_cutoff(&self, cutoff: i64) -> (r: bool)
        ensures
            r == self.lt_cutoff(cutoff),
    {
        proof {
            lemma_i128_products_fit(self.num as int, cutoff as int, self.den as int);
        }
        let lhs: i128 = (self.num as i128) * (MICRO as i128);
        let rhs: i128 = (cutoff as i128) * (self.den as i128);
        lhs < rhs
    }

    /// Decides `self > cutoff` (cutoff in millionths), exactly.
    pub fn is_gt_cutoff(&self, cutoff: i64) -> (r: bool)
        ensures
            r == self.gt_cutoff(cutoff),
    {
        proof {
            lemma_i128_products_fit(self.num as int, cutoff as int, self.den as int);
        }
        let lhs: i128 = (self.num as i128) * (MICRO as i128);
        let rhs: i128 = (cutoff as i128) * (self.den as i128);
        lhs > rhs
    }

    /// Decides `self > other` as rationals, exactly.
    pub fn is_gt_frac(&self, other: &Prob) -> (r: bool)
        ensures
            r == self.gt_frac(*other),
    {
        proof {
            lemma_u128_product_fits(self.num as int, other.den as int);
            lemma_u128_product_fits(other.num as int, self.den as int);
        }
        let lhs: u128 = (self.num as u128) * (other.den as u128);
        let rhs: u128 = (other.num as u128) * (self.den as u128);
        lhs > rhs
    }
}

/// The cross-multiplied comparison operands stay inside `i128`.
proof fn lemma_i128_products_fit(num: int, cutoff: int, den: int)
    requires
        0 <= num <= u64::MAX,
        i64::MIN <= cutoff <= i64::MAX,
        0 <= den <= u64::MAX,
    ensures
        i128::MIN <= num * MICRO <= i128::MAX,
        i128::MIN <= cutoff * den <= i128::MAX,
{
    assert(num * MICRO <= u64::MAX * MICRO) by (nonlinear_arith)
        requires 0 <= num <= u64::MAX,
    ;
    assert(cutoff * den <= i64::MAX * u64::MAX) by (nonlinear_arith)
        requires cutoff <= i64::MAX, 0 <= den <= u64::MAX,
    ;
    assert(cutoff * den >= i64::MIN * u64::MAX) by (nonlinear_arith)
        requires i64::MIN <= cutoff, 0 <= den <= u64::MAX,
    ;
}

/// A product of two `u64` values stays inside `u128`.
proof fn lemma_u128_product_fits(a: int, b: int)
    requires
        0 <= a <= u64::MAX,
        0 <= b <= u64::MAX,
    ensures
        0 <= a * b <= u128::MAX,
{
    assert(a * b <= u64::MAX * u64::MAX) by (nonlinear_arith)
        requires 0 <= a <= u64::MAX, 0 <= b <= u64::MAX,
    ;
    assert(a * b >= 0) by (nonlinear_arith)
        requires 0 <= a, 0 <= b,
    ;
}

/// Numerator of the belief that a specific unseen two-card hand holds at
/// least one of `k` remaining copies in a pool of `n` unseen cards:
/// `1 - ((n-k)/n) * ((n-1-k)/(n-1))`, the complement of drawing zero copies
/// in two draws without replacement.  Pools smaller than two cards cannot
/// fill a hand; there the belief degenerates to certainty one way or the
/// other.
pub open spec fn belief_num(n: int, k: int) -> int {
    if n >= 2 {
        n * (n - 1) - (n - k) * (n - k - 1)
    } else if k > 0 {
        1
    } else {
        0
    }
}

/// Denominator of the belief fraction: `n * (n - 1)` for a real pool.
pub open spec fn belief_den(n: int) -> int {
    if n >= 2 {
        n * (n - 1)
    } else {
        1
    }
}

/// Belief probabilities always lie in `[0, 1]`: for any pool of `n` unseen
/// cards holding `0 <= k <= n` copies, `0 <= belief_num <= belief_den`.
pub proof fn lemma_belief_range(n: int, k: int)
    requires
        0 <= k <= n,
    ensures
        0 <= belief_num(n, k) <= belief_den(n),
        belief_den(n) >= 1,
{
    if n >= 2 {
        assert((n - k) * (n - k - 1) <= n * (n - 1)) by (nonlinear_arith)
            requires 0 <= k <= n,
        ;
        assert((n - k) * (n - k - 1) >= 0) by (nonlinear_arith)
            requires 0 <= k <= n,
        ;
        assert(n * (n - 1) >= 1) by (nonlinear_arith)
            requires n >= 2,
        ;
    }
}

/// Computes the belief fraction for a pool of `n` unseen cards holding `k`
/// copies of the card in question.
pub fn belief(n: u64, k: u64) -> (p: Prob)
    requires
        k <= n,
        n <= 15,
    ensures
        p.num == belief_num(n as int, k as int),
        p.den == belief_den(n as int),
        p.wf(),
        p.in_unit(),
{
    proof {
        lemma_belief_range(n as int, k as int);
    }
    if n >= 2 {
        let a: u64 = n - k;
        proof {
            assert(a * (a - 1) <= 210) by (nonlinear_arith)
                requires a <= 15,
            ;
            assert(n * (n - 1) <= 210) by (nonlinear_arith)
                requires 2 <= n <= 15,
            ;
        }
        let miss: u64 = if a == 0 {
            0
        } else {
            a * (a - 1)
        };
        proof {
            assert(miss == ((n as int) - (k as int)) * ((n as int) - (k as int) - 1))
                by (nonlinear_arith)
                requires
                    k <= n,
                    (a as int) == (n as int) - (k as int),
                    miss == (if a == 0 { 0int } else { (a as int) * ((a as int) - 1) }),
            ;
        }
        Prob { num: n * (n - 1) - miss, den: n * (n - 1) }
    } else if k > 0 {
        Prob { num: 1, den: 1 }
    } else {
        Prob { num: 0, den: 1 }
    }
}

} // verus!
