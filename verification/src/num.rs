//! Fixed-point arithmetic kernel.
//!
//! Quantities are carried as integers in thousandths of a unit ("milli"
//! units): the value `1500` stands for `1.5`. The helpers here keep every
//! formula of the simulation inside `u64`/`u128` integer arithmetic:
//! saturating sums, a combined multiply-divide that widens through `u128`,
//! integer square and cube roots, and a fixed-point binary logarithm used by
//! the combat resolver.

use vstd::arithmetic::power2::{
    lemma2_to64, lemma2_to64_rest, lemma_pow2_adds, lemma_pow2_strictly_increases, pow2,
};
use vstd::prelude::*;

verus! {

/// Number of fixed-point steps per whole unit.
pub const SCALE: u64 = 1000;

/// An integer clipped to the `u64` range from above.
pub open spec fn sat64(x: int) -> int {
    if x <= u64::MAX {
        x
    } else {
        u64::MAX as int
    }
}

/// `a + b`, stopping at `u64::MAX` instead of wrapping.
pub fn sat_add(a: u64, b: u64) -> (r: u64)
    ensures
        r == if a + b <= u64::MAX { a + b } else { u64::MAX as int },
{
    if a <= u64::MAX - b {
        a + b
    } else {
        u64::MAX
    }
}

/// `a - b`, stopping at zero instead of wrapping.
pub fn sat_sub(a: u64, b: u64) -> (r: u64)
    ensures
        r == if a >= b { a - b } else { 0 },
{
    if a >= b {
        a - b
    } else {
        0
    }
}

/// `a * b / d` computed without intermediate overflow, saturated to `u64::MAX`.
pub fn mul_div_sat(a: u64, b: u64, d: u64) -> (r: u64)
    requires
        d > 0,
    ensures
        r == if a * b / (d as int) <= u64::MAX { a * b / (d as int) } else { u64::MAX as int },
{
    proof {
        assert((a as int) * (b as int) <= 0xFFFFFFFFFFFFFFFF * 0xFFFFFFFFFFFFFFFF)
            by (nonlinear_arith)
            requires
                a <= 0xFFFFFFFFFFFFFFFFu64,
                b <= 0xFFFFFFFFFFFFFFFFu64,
        ;
    }
    let p: u128 = (a as u128) * (b as u128) / (d as u128);
    if p > u64::MAX as u128 {
        u64::MAX
    } else {
        p as u64
    }
}

/// The integer square root, rounded down.
pub open spec fn sqrt_floor(x: int) -> int {
    choose|r: int| 0 <= r && #[trigger] (r * r) <= x && x < (r + 1) * (r + 1)
}

/// Only one integer can be the rounded-down square root of `x`.
proof fn lemma_sqrt_floor_unique(x: int, r: int)
    requires
        0 <= r,
        r * r <= x,
        x < (r + 1) * (r + 1),
    ensures
        sqrt_floor(x) == r,
{
    assert(0 <= r && r * r <= x && x < (r + 1) * (r + 1));
    let q = sqrt_floor(x);
    assert(0 <= q && q * q <= x && x < (q + 1) * (q + 1));
    if q < r {
        assert((q + 1) * (q + 1) <= r * r) by (nonlinear_arith)
            requires
                0 <= q,
                q < r,
        ;
    }
    if r < q {
        assert((r + 1) * (r + 1) <= q * q) by (nonlinear_arith)
            requires
                0 <= r,
                r < q,
        ;
    }
}

/// Integer square root of a `u128`, rounded down.
pub fn isqrt(x: u128) -> (r: u64)
    ensures
        r == sqrt_floor(x as int),
        (r as int) * (r as int) <= x as int,
        (x as int) < ((r as int) + 1) * ((r as int) + 1),
{
    let mut lo: u64 = 0;
    let mut hi: u64 = u64::MAX;
    proof {
        assert((x as int) < 0x10000000000000000 * 0x10000000000000000);
    }
    while lo < hi
        invariant
            lo <= hi,
            (lo as int) * (lo as int) <= x as int,
            (x as int) < ((hi as int) + 1) * ((hi as int) + 1),
        decreases hi - lo,
    {
        let mid: u64 = lo + (hi - lo) / 2 + 1;
        proof {
            assert((mid as int) * (mid as int) <= 0xFFFFFFFFFFFFFFFF * 0xFFFFFFFFFFFFFFFF)
                by (nonlinear_arith)
                requires
                    mid <= 0xFFFFFFFFFFFFFFFFu64,
            ;
        }
        let sq: u128 = (mid as u128) * (mid as u128);
        if sq <= x {
            lo = mid;
        } else {
            hi = mid - 1;
        }
    }
    proof {
        lemma_sqrt_floor_unique(x as int, lo as int);
    }
    lo
}

/// The integer cube root, rounded down.
pub open spec fn cbrt_floor(x: int) -> int {
    choose|r: int| 0 <= r && #[trigger] (r * r * r) <= x && x < (r + 1) * (r + 1) * (r + 1)
}

/// Only one integer can be the rounded-down cube root of `x`.
proof fn lemma_cbrt_floor_unique(x: int, r: int)
    requires
        0 <= r,
        r * r * r <= x,
        x < (r + 1) * (r + 1) * (r + 1),
    ensures
        cbrt_floor(x) == r,
{
    assert(0 <= r && r * r * r <= x && x < (r + 1) * (r + 1) * (r + 1));
    let q = cbrt_floor(x);
    assert(0 <= q && q * q * q <= x && x < (q + 1) * (q + 1) * (q + 1));
    if q < r {
        assert((q + 1) * (q + 1) * (q + 1) <= r * r * r) by (nonlinear_arith)
            requires
                0 <= q,
                q < r,
        ;
    }
    if r < q {
        assert((r + 1) * (r + 1) * (r + 1) <= q * q * q) by (nonlinear_arith)
            requires
                0 <= r,
                r < q,
        ;
    }
}

/// Integer cube root of a `u64`, rounded down.
pub fn icbrt(x: u64) -> (r: u64)
    ensures
        r == cbrt_floor(x as int),
        (r as int) * (r as int) * (r as int) <= x as int,
        (x as int) < ((r as int) + 1) * ((r as int) + 1) * ((r as int) + 1),
{
    // 2642245 is the largest integer whose cube fits in a u64.
    let mut lo: u64 = 0;
    let mut hi: u64 = 2642245;
    proof {
        assert(2642246 * 2642246 == 6981463924516int) by (nonlinear_arith);
        assert(6981463924516 * 2642246 == 18446745128696702936int) by (nonlinear_arith);
        assert((x as int) < (2642245 + 1) * (2642245 + 1) * (2642245 + 1));
    }
    while lo < hi
        invariant
            lo <= hi,
            hi <= 2642245,
            (lo as int) * (lo as int) * (lo as int) <= x as int,
            (x as int) < ((hi as int) + 1) * ((hi as int) + 1) * ((hi as int) + 1),
        decreases hi - lo,
    {
        let mid: u64 = lo + (hi - lo) / 2 + 1;
        proof {
            assert((mid as int) * (mid as int) * (mid as int) <= 2642245 * 2642245 * 2642245)
                by (nonlinear_arith)
                requires
                    mid <= 2642245u64,
            ;
            assert(2642245 * 2642245 == 6981458640025int) by (nonlinear_arith);
            assert((mid as int) * (mid as int) <= 6981458640025) by (nonlinear_arith)
                requires
                    mid <= 2642245u64,
            ;
            assert(6981458640025 * 2642245 == 18446724184312856125int) by (nonlinear_arith);
        }
        let cube: u128 = (mid as u128) * (mid as u128) * (mid as u128);
        if cube <= x as u128 {
            lo = mid;
        } else {
            hi = mid - 1;
        }
    }
    proof {
        lemma_cbrt_floor_unique(x as int, lo as int);
    }
    lo
}

/// Fixed-point binary logarithm of the ratio `hi / lo`, in milli units.
///
/// The result approximates `1000 * log2(hi / lo)`. It is exact whenever the
/// ratio is a power of two, which is what the combat formula's clamping
/// points rely on: a ratio of 1 gives 0, a ratio of 2 gives 1000 and a ratio
/// of 4 gives 2000; ratios of at least 4 always give at least 2000, ratios
/// under 4 always stay under 2000.
pub fn log2_milli(hi: u64, lo: u64) -> (r: u64)
    requires
        1 <= lo <= hi,
    ensures
        hi == lo ==> r == 0,
        hi == 2 * lo ==> r == 1000,
        hi == 4 * lo ==> r == 2000,
        hi >= 4 * lo ==> r >= 2000,
        hi < 4 * lo ==> r < 2000,
        r < 64000,
{
    // Integer part: double l while the double still fits under hi;
    // e counts the doublings, so l == lo * 2^e <= hi < 2 * l afterwards.
    let mut l: u128 = lo as u128;
    let mut e: u64 = 0;
    proof {
        lemma2_to64();
    }
    while l * 2 <= hi as u128
        invariant
            1 <= lo <= hi,
            1 <= l,
            l == (lo as nat) * pow2(e as nat),
            l <= hi as nat,
            e <= 63,
        decreases (hi as int) - (l as int),
    {
        proof {
            lemma2_to64();
            lemma2_to64_rest();
            if e == 63 {
                assert((lo as nat) * pow2(63) >= pow2(63)) by (nonlinear_arith)
                    requires
                        lo >= 1,
                ;
                assert(l * 2 > hi as nat);
                assert(false);
            }
            assert((lo as nat) * pow2((e + 1) as nat) == ((lo as nat) * pow2(e as nat)) * 2) by {
                lemma_pow2_adds(e as nat, 1);
                assert((lo as nat) * (pow2(e as nat) * 2) == ((lo as nat) * pow2(e as nat)) * 2)
                    by (nonlinear_arith);
            }
        }
        l = l * 2;
        e = e + 1;
    }
    // Fractional part: ten binary digits of log2 of the mantissa hi / l,
    // carried as m in [1000, 2000). When hi is exactly l the mantissa is 1
    // and the fraction stays zero, which keeps the power-of-two cases exact.
    let mut m: u128 = (hi as u128) * 1000 / l;
    proof {
        assert(1000 <= (hi as nat) * 1000 / (l as nat) < 2000) by (nonlinear_arith)
            requires
                (l as nat) >= 1,
                (l as nat) <= hi as nat,
                (hi as nat) < 2 * (l as nat),
        ;
        if hi as nat == l as nat {
            assert((hi as nat) * 1000 / (l as nat) == 1000) by (nonlinear_arith)
                requires
                    (l as nat) >= 1,
                    hi as nat == l as nat,
            ;
        }
    }
    let mut f: u64 = 0;
    let mut i: u64 = 0;
    while i < 10
        invariant
            i <= 10,
            1000 <= m < 2000,
            f < pow2(i as nat),
            hi as nat == l ==> m == 1000 && f == 0,
        decreases 10 - i,
    {
        proof {
            lemma2_to64();
            assert(1000 * 1000 <= m * m && m * m < 2000 * 2000) by (nonlinear_arith)
                requires
                    1000 <= m < 2000,
            ;
            if m == 1000 {
                assert(m * m == 1000000) by (nonlinear_arith)
                    requires
                        m == 1000u128,
                ;
            }
            lemma_pow2_adds(i as nat, 1);
        }
        let m2: u128 = m * m / 1000;
        f = f * 2;
        if m2 >= 2000 {
            m = m2 / 2;
            f = f + 1;
        } else {
            m = m2;
        }
        i = i + 1;
    }
    proof {
        lemma2_to64();
        assert(f < 1024);
    }
    let frac: u64 = f * 1000 / 1024;
    let r: u64 = e * 1000 + frac;
    proof {
        lemma2_to64();
        // Pin down the doubling count at the clamping ratios.
        if hi == lo {
            assert(pow2(e as nat) <= 1) by (nonlinear_arith)
                requires
                    (lo as nat) * pow2(e as nat) <= hi as nat,
                    hi == lo,
                    lo >= 1,
            ;
            if e != 0 {
                lemma_pow2_strictly_increases(0, e as nat);
            }
            assert(e == 0 && l == lo as nat);
        }
        if hi == 2 * lo {
            assert(pow2(e as nat) <= 2 && 2 < 2 * pow2(e as nat)) by (nonlinear_arith)
                requires
                    (lo as nat) * pow2(e as nat) <= hi as nat,
                    (hi as nat) < 2 * ((lo as nat) * pow2(e as nat)),
                    hi == 2 * lo,
                    lo >= 1,
            ;
            if e > 1 {
                lemma_pow2_strictly_increases(1, e as nat);
            }
            assert(e == 1);
            assert(l == 2 * (lo as nat)) by (nonlinear_arith)
                requires
                    l == (lo as nat) * pow2(e as nat),
                    pow2(e as nat) == 2,
            ;
        }
        if hi == 4 * lo {
            assert(pow2(e as nat) <= 4 && 4 < 2 * pow2(e as nat)) by (nonlinear_arith)
                requires
                    (lo as nat) * pow2(e as nat) <= hi as nat,
                    (hi as nat) < 2 * ((lo as nat) * pow2(e as nat)),
                    hi == 4 * lo,
                    lo >= 1,
            ;
            if e < 2 {
                assert(pow2(e as nat) <= 2);
            } else if e > 2 {
                lemma_pow2_strictly_increases(2, e as nat);
            }
            assert(e == 2);
            assert(l == 4 * (lo as nat)) by (nonlinear_arith)
                requires
                    l == (lo as nat) * pow2(e as nat),
                    pow2(e as nat) == 4,
            ;
        }
        if hi >= 4 * lo {
            assert(2 * pow2(e as nat) > 4) by (nonlinear_arith)
                requires
                    (hi as nat) < 2 * ((lo as nat) * pow2(e as nat)),
                    (hi as nat) >= 4 * (lo as nat),
                    lo >= 1,
            ;
            if e < 2 {
                assert(pow2(e as nat) <= 2);
            }
            assert(e >= 2);
        }
        if hi < 4 * lo {
            assert(pow2(e as nat) < 4) by (nonlinear_arith)
                requires
                    (lo as nat) * pow2(e as nat) <= hi as nat,
                    (hi as nat) < 4 * (lo as nat),
                    lo >= 1,
            ;
            if e >= 2 {
                lemma_pow2_strictly_increases(2, e as nat);
            }
            assert(e <= 1);
        }
    }
    r
}

} // verus!
