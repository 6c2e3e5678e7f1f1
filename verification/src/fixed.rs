//! A fixed-point scalar.
use vstd::prelude::*;
use crate::grid::rectangular;
use crate::operators::constant;
use crate::operators::gradient_of;
use crate::operators::lemma_gradient_of_constant;
use crate::scalar::Scalar;

verus! {

/// The raw value of one: two to the power 32.
pub const SCALE: i64 = 4294967296;

/// A signed number with 32 fractional bits, held in 64 bits: `raw / 2^32`.
///
/// Sums, differences and negations are exact and saturate at the ends of the
/// range. Products and quotients are rounded towards zero and saturate too;
/// a quotient by zero is the end of the range on the side of the dividend,
/// and zero for zero by zero. The square root is rounded down, and is zero
/// for every argument that is not positive.
#[derive(Clone, Copy, Debug, PartialEq, Eq)]
pub struct Fixed {
    pub raw: i64,
}

/// The 64-bit value nearest to `x`.
pub open spec fn clamp(x: int) -> i64 {
    if x < i64::MIN {
        i64::MIN
    } else if x > i64::MAX {
        i64::MAX
    } else {
        x as i64
    }
}

/// `n / d` rounded towards zero, for a positive `d`.
pub open spec fn toward_zero(n: int, d: int) -> int {
    if n >= 0 {
        n / d
    } else {
        -((-n) / d)
    }
}

/// The absolute value of `x`.
pub open spec fn magnitude(x: int) -> int {
    if x >= 0 {
        x
    } else {
        -x
    }
}

/// The raw quotient of the raw values `a` and `b`.
pub open spec fn raw_quotient(a: int, b: int) -> int {
    if b == 0 {
        if a > 0 {
            i64::MAX as int
        } else if a < 0 {
            i64::MIN as int
        } else {
            0
        }
    } else {
        let m = (magnitude(a) * SCALE) / magnitude(b);
        if (a < 0) != (b < 0) {
            -m
        } else {
            m
        }
    }
}

/// Whether `r` is the square root of `n` rounded down.
pub open spec fn is_floor_sqrt(n: int, r: int) -> bool {
    0 <= r && r * r <= n < (r + 1) * (r + 1)
}

/// The square root of `n` rounded down.
pub open spec fn floor_sqrt(n: int) -> int {
    choose|r: int| is_floor_sqrt(n, r)
}

/// A number has at most one rounded-down square root.
pub proof fn lemma_floor_sqrt_unique(n: int, r: int)
    requires
        is_floor_sqrt(n, r),
    ensures
        floor_sqrt(n) == r,
{
    let s = floor_sqrt(n);
    assert(is_floor_sqrt(n, s));
    assert(s == r) by (nonlinear_arith)
        requires
            0 <= r,
            r * r <= n < (r + 1) * (r + 1),
            0 <= s,
            s * s <= n < (s + 1) * (s + 1),
    ;
}

fn saturate(x: i128) -> (r: i64)
    ensures
        r == clamp(x as int),
{
    if x < i64::MIN as i128 {
        i64::MIN
    } else if x > i64::MAX as i128 {
        i64::MAX
    } else {
        x as i64
    }
}

fn widen(x: i64) -> (r: u128)
    ensures
        r == magnitude(x as int),
        r <= 0x8000_0000_0000_0000,
{
    if x >= 0 {
        x as u128
    } else {
        (-(x as i128)) as u128
    }
}

fn isqrt(n: u128) -> (r: u64)
    requires
        n < 0x1_0000_0000_0000_0000_0000_0000,
    ensures
        is_floor_sqrt(n as int, r as int),
        r < 0x1_0000_0000_0000,
{
    let mut lo: u64 = 0;
    let mut hi: u64 = 0x1_0000_0000_0000;
    assert(0x1_0000_0000_0000 * 0x1_0000_0000_0000 == 0x1_0000_0000_0000_0000_0000_0000int)
        by (nonlinear_arith);
    while hi - lo > 1
        invariant
            lo < hi <= 0x1_0000_0000_0000,
            lo * lo <= n < hi * hi,
        decreases hi - lo,
    {
        let mid: u64 = lo + (hi - lo) / 2;
        assert(mid * mid < 0x1_0000_0000_0000_0000_0000_0000) by (nonlinear_arith)
            requires
                0 <= mid < 0x1_0000_0000_0000,
        ;
        let square: u128 = (mid as u128) * (mid as u128);
        if square <= n {
            lo = mid;
        } else {
            hi = mid;
        }
    }
    lo
}

impl Fixed {
    /// The number with the given raw value, `raw / 2^32`.
    pub fn from_raw(raw: i64) -> (r: Fixed)
        ensures
            r.raw == raw,
    {
        Fixed { raw }
    }

    /// The whole number `v`.
    pub fn from_int(v: i32) -> (r: Fixed)
        ensures
            r.raw == v * SCALE,
    {
        assert(i64::MIN <= v * SCALE <= i64::MAX) by (nonlinear_arith)
            requires
                -0x8000_0000 <= v < 0x8000_0000,
                SCALE == 0x1_0000_0000,
        ;
        Fixed { raw: (v as i64) * SCALE }
    }

    /// The raw value, `2^32` times the number.
    pub fn raw(self) -> (r: i64)
        ensures
            r == self.raw,
    {
        self.raw
    }
}

impl Scalar for Fixed {
    open spec fn zero_value() -> Self {
        Fixed { raw: 0 }
    }

    open spec fn one_value() -> Self {
        Fixed { raw: SCALE }
    }

    open spec fn sum(self, rhs: Self) -> Self {
        Fixed { raw: clamp(self.raw + rhs.raw) }
    }

    open spec fn difference(self, rhs: Self) -> Self {
        Fixed { raw: clamp(self.raw - rhs.raw) }
    }

    open spec fn product(self, rhs: Self) -> Self {
        Fixed { raw: clamp(toward_zero(self.raw * rhs.raw, SCALE as int)) }
    }

    open spec fn quotient(self, rhs: Self) -> Self {
        Fixed { raw: clamp(raw_quotient(self.raw as int, rhs.raw as int)) }
    }

    open spec fn negation(self) -> Self {
        Fixed { raw: clamp(-self.raw) }
    }

    open spec fn square_root(self) -> Self {
        if self.raw <= 0 {
            Fixed { raw: 0 }
        } else {
            Fixed { raw: floor_sqrt(self.raw * SCALE) as i64 }
        }
    }

    open spec fn exceeds(self, rhs: Self) -> bool {
        self.raw > rhs.raw
    }

    fn zero() -> (r: Self) {
        Fixed { raw: 0 }
    }

    fn one() -> (r: Self) {
        Fixed { raw: SCALE }
    }

    fn add(self, rhs: Self) -> (r: Self) {
        Fixed { raw: saturate(self.raw as i128 + rhs.raw as i128) }
    }

    fn sub(self, rhs: Self) -> (r: Self) {
        Fixed { raw: saturate(self.raw as i128 - rhs.raw as i128) }
    }

    fn mul(self, rhs: Self) -> (r: Self) {
        let a = widen(self.raw);
        let b = widen(rhs.raw);
        assert(a * b <= 0x8000_0000_0000_0000 * 0x8000_0000_0000_0000) by (nonlinear_arith)
            requires
                0 <= a <= 0x8000_0000_0000_0000,
                0 <= b <= 0x8000_0000_0000_0000,
        ;
        let m: u128 = (a * b) / (SCALE as u128);
        let negative = (self.raw < 0) != (rhs.raw < 0);
        proof {
            let p = self.raw as int * rhs.raw as int;
            assert(magnitude(p) == a * b && (p < 0 ==> negative) && (p > 0 ==> !negative))
                by (nonlinear_arith)
                requires
                    a == magnitude(self.raw as int),
                    b == magnitude(rhs.raw as int),
                    p == self.raw as int * rhs.raw as int,
                    negative == ((self.raw < 0) != (rhs.raw < 0)),
            ;
        }
        if negative {
            Fixed { raw: saturate(-(m as i128)) }
        } else {
            Fixed { raw: saturate(m as i128) }
        }
    }

    fn div(self, rhs: Self) -> (r: Self) {
        if rhs.raw == 0 {
            if self.raw > 0 {
                Fixed { raw: i64::MAX }
            } else if self.raw < 0 {
                Fixed { raw: i64::MIN }
            } else {
                Fixed { raw: 0 }
            }
        } else {
            let a = widen(self.raw);
            let b = widen(rhs.raw);
            assert(a * SCALE <= 0x8000_0000_0000_0000 * 0x1_0000_0000) by (nonlinear_arith)
                requires
                    0 <= a <= 0x8000_0000_0000_0000,
                    SCALE == 0x1_0000_0000,
            ;
            let n: u128 = a * (SCALE as u128);
            let m: u128 = n / b;
            assert(m <= n) by (nonlinear_arith)
                requires
                    m == n / b,
                    0 < b,
                    0 <= n,
            ;
            if (self.raw < 0) != (rhs.raw < 0) {
                Fixed { raw: saturate(-(m as i128)) }
            } else {
                Fixed { raw: saturate(m as i128) }
            }
        }
    }

    fn neg(self) -> (r: Self) {
        Fixed { raw: saturate(-(self.raw as i128)) }
    }

    fn sqrt(self) -> (r: Self) {
        if self.raw <= 0 {
            Fixed { raw: 0 }
        } else {
            assert(self.raw * SCALE < 0x1_0000_0000_0000_0000_0000_0000) by (nonlinear_arith)
                requires
                    0 < self.raw <= 0x7fff_ffff_ffff_ffff,
                    SCALE == 0x1_0000_0000,
            ;
            let n: u128 = (self.raw as u128) * (SCALE as u128);
            let root = isqrt(n);
            proof {
                lemma_floor_sqrt_unique(n as int, root as int);
            }
            Fixed { raw: root as i64 }
        }
    }

    fn gt(self, rhs: Self) -> (r: bool) {
        self.raw > rhs.raw
    }
}

/// The gradient of a constant fixed-point image is zero at every cell.
pub proof fn lemma_fixed_gradient_of_constant(u: Seq<Seq<Fixed>>, width: nat, c: Fixed)
    requires
        rectangular(u, width),
        constant(u, c),
    ensures
        constant(gradient_of(u), (Fixed::zero_value(), Fixed::zero_value())),
{
    assert(c.difference(c) == Fixed::zero_value());
    lemma_gradient_of_constant(u, width, c);
}

} // verus!
