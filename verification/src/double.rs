//! The order of floating-point numbers and their nearness, by their bit patterns.
use vstd::arithmetic::power2::{
    lemma2_to64, lemma2_to64_rest, lemma_pow2_adds, lemma_pow2_pos,
    lemma_pow2_strictly_increases, pow2,
};
use vstd::prelude::*;

use crate::float::{
    Parts, excess_bits, exponent, is_finite, is_negative, mantissa, parts_of, rounded,
};

verus! {

// ---------------------------------------------------------------------
// Order
// ---------------------------------------------------------------------
/// Whether a bit pattern is no number at all.
pub open spec fn is_nan(bits: u64) -> bool {
    !is_finite(bits) && bits as int % 0x10_0000_0000_0000 != 0
}

/// The place of a number in the order of numbers: that of its bit pattern, counted
/// down from zero where it is negative. Both zeros have one place.
pub open spec fn place(bits: u64) -> int {
    if is_negative(bits) {
        0x8000_0000_0000_0000 - bits
    } else {
        bits as int
    }
}

/// Whether one number is less than another. Nothing is less than what is no
/// number, nor greater.
pub open spec fn less(a: u64, b: u64) -> bool {
    !is_nan(a) && !is_nan(b) && place(a) < place(b)
}

/// Whether one number is less than another or equal to it.
pub open spec fn at_most_double(a: u64, b: u64) -> bool {
    !is_nan(a) && !is_nan(b) && place(a) <= place(b)
}

fn nan(bits: u64) -> (r: bool)
    ensures
        r == is_nan(bits),
{
    (bits / 0x10_0000_0000_0000) % 2048 == 2047 && bits % 0x10_0000_0000_0000 != 0
}

fn place_of(bits: u64) -> (r: i128)
    ensures
        r == place(bits),
{
    if bits >= 0x8000_0000_0000_0000 {
        0x8000_0000_0000_0000 - bits as i128
    } else {
        bits as i128
    }
}

/// Whether one number is less than another.
pub fn is_less(a: u64, b: u64) -> (r: bool)
    ensures
        r == less(a, b),
{
    !nan(a) && !nan(b) && place_of(a) < place_of(b)
}

/// Whether one number is less than another or equal to it.
pub fn is_at_most(a: u64, b: u64) -> (r: bool)
    ensures
        r == at_most_double(a, b),
{
    !nan(a) && !nan(b) && place_of(a) <= place_of(b)
}

// ---------------------------------------------------------------------
// Nearness
// ---------------------------------------------------------------------
/// A finite number, counted in the smallest positive one.
pub open spec fn units(bits: u64) -> int {
    let n = mantissa(bits) * pow2((exponent(bits) + 1074) as nat);
    if is_negative(bits) {
        -n
    } else {
        n as int
    }
}

/// The distance of two numbers.
pub open spec fn distance(a: int, b: int) -> nat {
    if a >= b {
        (a - b) as nat
    } else {
        (b - a) as nat
    }
}

/// The number nearest to a billionth, in units.
pub open spec fn billionth() -> nat {
    0x11_2E0B_E826_D695 * pow2(992)
}

/// Whether the difference of two numbers, rounded as floating-point subtraction
/// rounds it, is less than a billionth.
pub open spec fn near(a: u64, b: u64) -> bool {
    is_finite(a) && is_finite(b) && rounded(distance(units(a), units(b))) < billionth()
}

proof fn lemma_excess_range(p: nat)
    ensures
        ({
            let k = excess_bits(p);
            &&& p < 0x20_0000_0000_0000 * pow2(k)
            &&& k > 0 ==> 0x10_0000_0000_0000 * pow2(k) <= p
        }),
    decreases p,
{
    lemma2_to64();
    if p >= 0x20_0000_0000_0000 {
        lemma_excess_range(p / 2);
        let j = excess_bits(p / 2);
        lemma_pow2_adds(1, j);
        assert(pow2(j + 1) == 2 * pow2(j));
        assert(p < 2 * (0x20_0000_0000_0000 * pow2(j)));
        assert(2 * (0x20_0000_0000_0000 * pow2(j)) == 0x20_0000_0000_0000 * (2 * pow2(j)))
            by (nonlinear_arith);
        if j > 0 {
            assert(2 * (0x10_0000_0000_0000 * pow2(j)) <= p);
            assert(2 * (0x10_0000_0000_0000 * pow2(j)) == 0x10_0000_0000_0000 * (2 * pow2(j)))
                by (nonlinear_arith);
        }
    }
}

/// Rounding stays below a billionth exactly up to the middle between it and the
/// number before it, which is even.
proof fn lemma_near(d: nat)
    ensures
        rounded(d) < billionth() <==> d <= 0x22_5C17_D04D_AD29 * pow2(991),
{
    lemma2_to64();
    lemma_pow2_adds(1, 991);
    lemma_pow2_pos(991);
    let u = pow2(991);
    assert(pow2(992) == 2 * u);
    let m: nat = 0x11_2E0B_E826_D695;
    let k = excess_bits(d);
    let unit = pow2(k);
    lemma_pow2_pos(k);
    lemma_excess_range(d);
    let q = d / unit;
    let r = d % unit;
    vstd::arithmetic::div_mod::lemma_fundamental_div_mod(d as int, unit as int);
    assert(d == q * unit + r) by (nonlinear_arith)
        requires
            d == unit * q + r,
    ;
    assert((q + 1) * unit == q * unit + unit) by (nonlinear_arith);
    if k > 992 {
        lemma_pow2_strictly_increases(992, k);
        assert(unit >= 2 * u);
        if k > 993 {
            lemma_pow2_strictly_increases(993, k);
        }
        lemma_pow2_adds(1, 992);
        assert(unit >= 4 * u);
        assert(d >= 0x10_0000_0000_0000 * (4 * u)) by (nonlinear_arith)
            requires
                d >= 0x10_0000_0000_0000 * unit,
                unit >= 4 * u,
        ;
        assert(q >= 0x10_0000_0000_0000) by (nonlinear_arith)
            requires
                0x10_0000_0000_0000 * unit <= d,
                d == q * unit + r,
                r < unit,
                unit > 0,
        ;
        assert(q * unit >= 0x10_0000_0000_0000 * (4 * u)) by (nonlinear_arith)
            requires
                q >= 0x10_0000_0000_0000,
                unit >= 4 * u,
                u > 0,
        ;
    } else if k == 992 {
        assert(unit == 2 * u);
        if d <= 0x22_5C17_D04D_AD29 * u {
            assert(q <= m - 1) by (nonlinear_arith)
                requires
                    d <= 0x22_5C17_D04D_AD29 * u,
                    d == q * unit + r,
                    unit == 2 * u,
                    m == 0x11_2E0B_E826_D695,
                    u > 0,
            ;
            if q == m - 1 {
                assert(2 * r <= unit) by (nonlinear_arith)
                    requires
                        d <= 0x22_5C17_D04D_AD29 * u,
                        d == q * unit + r,
                        unit == 2 * u,
                        q == 0x11_2E0B_E826_D694,
                ;
                assert(q % 2 == 0);
                assert(q * unit < m * unit) by (nonlinear_arith)
                    requires
                        q == m - 1,
                        unit > 0,
                ;
            } else {
                assert((q + 1) * unit <= (m - 1) * unit) by (nonlinear_arith)
                    requires
                        q + 1 <= m - 1,
                        unit > 0,
                ;
                assert((m - 1) * unit < m * unit) by (nonlinear_arith)
                    requires
                        unit > 0,
                ;
            }
        } else {
            assert(q >= m - 1) by (nonlinear_arith)
                requires
                    d > 0x22_5C17_D04D_AD29 * u,
                    d == q * unit + r,
                    r < unit,
                    unit == 2 * u,
                    m == 0x11_2E0B_E826_D695,
            ;
            if q == m - 1 {
                assert(2 * r > unit) by (nonlinear_arith)
                    requires
                        d > 0x22_5C17_D04D_AD29 * u,
                        d == q * unit + r,
                        unit == 2 * u,
                        q == 0x11_2E0B_E826_D694,
                ;
            } else {
                assert(q * unit >= m * unit) by (nonlinear_arith)
                    requires
                        q >= m,
                        unit > 0,
                ;
            }
        }
    } else {
        // The unit is at most the half of that of a billionth.
        if k < 991 {
            lemma_pow2_strictly_increases(k, 991);
        }
        assert(unit <= u);
        assert(d < 0x20_0000_0000_0000 * u) by (nonlinear_arith)
            requires
                d < 0x20_0000_0000_0000 * unit,
                unit <= u,
        ;
        assert(rounded(d) <= d + unit);
        assert(0x20_0000_0000_0000 * u + u < m * (2 * u)) by (nonlinear_arith)
            requires
                m == 0x11_2E0B_E826_D695,
                u > 0,
        ;
        assert(d <= 0x22_5C17_D04D_AD29 * u) by (nonlinear_arith)
            requires
                d < 0x20_0000_0000_0000 * u,
                u > 0,
        ;
    }
}

/// A number times a power of two.
fn times_pow2(x: u128, k: u32) -> (r: u128)
    requires
        x * pow2(k as nat) <= u128::MAX,
    ensures
        r == x * pow2(k as nat),
{
    let mut r: u128 = x;
    let mut i: u32 = 0;
    proof {
        lemma2_to64();
    }
    while i < k
        invariant
            i <= k,
            r == x * pow2(i as nat),
            x * pow2(k as nat) <= u128::MAX,
        decreases k - i,
    {
        proof {
            lemma2_to64();
            lemma_pow2_adds(1, i as nat);
            assert(x * pow2((i + 1) as nat) == 2 * (x * pow2(i as nat))) by (nonlinear_arith)
                requires
                    pow2((i + 1) as nat) == 2 * pow2(i as nat),
            ;
            if i + 1 < k {
                lemma_pow2_strictly_increases((i + 1) as nat, k as nat);
            }
            assert(x * pow2((i + 1) as nat) <= x * pow2(k as nat)) by (nonlinear_arith)
                requires
                    pow2((i + 1) as nat) <= pow2(k as nat),
            ;
        }
        r = r * 2;
        i = i + 1;
    }
    r
}

/// Whether a number of units, times a power of two, is at most the bound of
/// nearness.
fn within_bound(n: u128, j: u32) -> (r: bool)
    requires
        n < 0x40_0000_0000_0000_0000_0000_0000_0000,
        j <= 3000,
    ensures
        r == (n * pow2(j as nat) <= 0x22_5C17_D04D_AD29 * pow2(991)),
{
    let m: u128 = 0x22_5C17_D04D_AD29;
    proof {
        lemma2_to64();
        lemma2_to64_rest();
        lemma_pow2_pos(991);
    }
    let ghost u = pow2(991);
    if j >= 991 {
        let s: u32 = j - 991;
        let ghost v = pow2(s as nat);
        proof {
            lemma_pow2_adds(s as nat, 991);
            lemma_pow2_pos(s as nat);
            assert(n * (v * u) == (n * v) * u) by (nonlinear_arith);
            assert((n * v) * u <= m * u <==> n * v <= m) by (nonlinear_arith)
                requires
                    u > 0,
            ;
            assert(n * v >= n) by (nonlinear_arith)
                requires
                    v >= 1,
            ;
        }
        if n > m {
            return false;
        }
        if s >= 54 {
            proof {
                if s > 54 {
                    lemma_pow2_strictly_increases(54, s as nat);
                }
                assert(n >= 1 ==> n * v > m) by (nonlinear_arith)
                    requires
                        v >= pow2(54),
                        pow2(54) == 0x40_0000_0000_0000,
                        m == 0x22_5C17_D04D_AD29,
                ;
                assert(n == 0 ==> n * v == 0) by (nonlinear_arith);
            }
            return n == 0;
        }
        proof {
            lemma_pow2_strictly_increases(s as nat, 54);
            assert(n * v <= 0x40_0000_0000_0000 * 0x40_0000_0000_0000) by (nonlinear_arith)
                requires
                    n <= m,
                    m <= 0x40_0000_0000_0000,
                    v <= 0x40_0000_0000_0000,
            ;
        }
        times_pow2(n, s) <= m
    } else {
        let t: u32 = 991 - j;
        let ghost v = pow2(t as nat);
        let ghost w = pow2(j as nat);
        proof {
            lemma_pow2_adds(t as nat, j as nat);
            lemma_pow2_pos(j as nat);
            lemma_pow2_pos(t as nat);
            assert(m * (v * w) == (m * v) * w) by (nonlinear_arith);
            assert(n * w <= (m * v) * w <==> n <= m * v) by (nonlinear_arith)
                requires
                    w > 0,
            ;
        }
        if t >= 65 {
            proof {
                if t > 65 {
                    lemma_pow2_strictly_increases(65, t as nat);
                }
                lemma_pow2_adds(1, 64);
                assert(m * v >= m * pow2(65)) by (nonlinear_arith)
                    requires
                        v >= pow2(65),
                ;
            }
            return true;
        }
        proof {
            if t < 64 {
                lemma_pow2_strictly_increases(t as nat, 64);
            }
            assert(m * v <= m * pow2(64)) by (nonlinear_arith)
                requires
                    v <= pow2(64),
            ;
        }
        n <= times_pow2(m, t)
    }
}

/// A number by its parts, in units.
spec fn signed_units(p: Parts) -> int {
    let n = p.mantissa * pow2((p.exponent + 1074) as nat);
    if p.negative {
        -n
    } else {
        n
    }
}

/// Whether parts are those of a finite number.
spec fn sound(p: Parts) -> bool {
    &&& -1074 <= p.exponent <= 971
    &&& p.mantissa < 0x20_0000_0000_0000
    &&& p.exponent > -1074 ==> p.mantissa >= 0x10_0000_0000_0000
}

/// Where one number is far larger than another, it alone decides.
proof fn lemma_far(x: Parts, y: Parts)
    requires
        sound(x),
        sound(y),
        x.exponent - y.exponent > 64,
    ensures
        ({
            let i = x.exponent + 1074;
            distance(signed_units(x), signed_units(y)) <= 0x22_5C17_D04D_AD29 * pow2(991) <==> (i
                <= 991 || (i == 992 && 2 * x.mantissa <= 0x22_5C17_D04D_AD29) || (i == 993 && 4
                * x.mantissa <= 0x22_5C17_D04D_AD29))
        }),
{
    lemma2_to64();
    lemma2_to64_rest();
    let i = (x.exponent + 1074) as nat;
    let j = (y.exponent + 1074) as nat;
    let g = pow2((i - 12) as nat);
    let a = x.mantissa * pow2(i);
    let b = y.mantissa * pow2(j);
    let h = 0x22_5C17_D04D_AD29 * pow2(991);
    lemma_pow2_pos((i - 12) as nat);
    // The smaller number is below `g`.
    lemma_pow2_adds(53, j);
    if 53 + j < i - 12 {
        lemma_pow2_strictly_increases(53 + j, (i - 12) as nat);
    }
    assert(b < g) by (nonlinear_arith)
        requires
            b == y.mantissa * pow2(j),
            y.mantissa < 0x20_0000_0000_0000,
            0x20_0000_0000_0000 * pow2(j) <= g,
            pow2(j) > 0 || y.mantissa * pow2(j) == 0,
            g > 0,
    ;
    assert(b >= 0) by (nonlinear_arith)
        requires
            b == y.mantissa * pow2(j),
    ;
    lemma_pow2_adds(12, (i - 12) as nat);
    assert(pow2(i) == 4096 * g);
    assert(a == (4096 * x.mantissa) * g) by (nonlinear_arith)
        requires
            a == x.mantissa * pow2(i),
            pow2(i) == 4096 * g,
    ;
    let d = distance(signed_units(x), signed_units(y));
    assert(d == a + b || d == a - b || (d == b - a && b > a));
    assert(a > b) by (nonlinear_arith)
        requires
            a == (4096 * x.mantissa) * g,
            x.mantissa >= 1,
            b < g,
    ;
    let w: nat = if i <= 991 {
        (991 - i) as nat
    } else {
        0
    };
    if i <= 991 {
        lemma_pow2_adds(w, i);
        lemma_pow2_pos(w);
        assert(a + g < h) by (nonlinear_arith)
            requires
                a == x.mantissa * pow2(i),
                x.mantissa < 0x20_0000_0000_0000,
                h == 0x22_5C17_D04D_AD29 * pow2(991),
                pow2(991) == pow2(w) * pow2(i),
                pow2(w) >= 1,
                pow2(i) == 4096 * g,
                g > 0,
        ;
    } else if i <= 993 {
        let c: nat = if i == 992 {
            2
        } else {
            4
        };
        lemma_pow2_adds(1, 991);
        lemma_pow2_adds(2, 991);
        let u = pow2(991);
        lemma_pow2_pos(991);
        assert(pow2(i) == c * u);
        assert(a == (c * x.mantissa) * u) by (nonlinear_arith)
            requires
                a == x.mantissa * pow2(i),
                pow2(i) == c * u,
        ;
        assert(g < u) by (nonlinear_arith)
            requires
                4096 * g == c * u,
                c <= 4,
                u > 0,
        ;
        let e = c * x.mantissa;
        assert(e % 2 == 0) by (nonlinear_arith)
            requires
                e == c * x.mantissa,
                c == 2 || c == 4,
        ;
        if e <= 0x22_5C17_D04D_AD29 {
            assert(e + 1 <= 0x22_5C17_D04D_AD29);
            assert(a + u <= h) by (nonlinear_arith)
                requires
                    a == e * u,
                    e + 1 <= 0x22_5C17_D04D_AD29,
                    h == 0x22_5C17_D04D_AD29 * u,
            ;
        } else {
            assert(a >= h + u) by (nonlinear_arith)
                requires
                    a == e * u,
                    e >= 0x22_5C17_D04D_AD29 + 1,
                    h == 0x22_5C17_D04D_AD29 * u,
            ;
        }
    } else {
        let u = pow2(991);
        lemma_pow2_pos(991);
        lemma_pow2_adds(3, 991);
        if i > 994 {
            lemma_pow2_strictly_increases(994, i);
        }
        assert(pow2(i) >= 8 * u);
        assert(a - g > h) by (nonlinear_arith)
            requires
                a == (4096 * x.mantissa) * g,
                x.mantissa >= 0x10_0000_0000_0000,
                4096 * g >= 8 * u,
                h == 0x22_5C17_D04D_AD29 * u,
                g > 0,
                u > 0,
        {
            assert(4096 * x.mantissa * g >= 0x10_0000_0000_0000 * (4096 * g)) by (nonlinear_arith)
                requires
                    x.mantissa >= 0x10_0000_0000_0000,
                    g > 0,
            ;
            assert(0x10_0000_0000_0000 * (4096 * g) - g >= 0xF_FFFF_FFFF_FFFF * (4096 * g))
                by (nonlinear_arith)
                requires
                    g > 0,
            ;
            assert(0xF_FFFF_FFFF_FFFF * (4096 * g) >= 0xF_FFFF_FFFF_FFFF * (8 * u))
                by (nonlinear_arith)
                requires
                    4096 * g >= 8 * u,
            ;
        }
    }
}

fn near_parts(x: Parts, y: Parts) -> (r: bool)
    requires
        sound(x),
        sound(y),
        x.exponent >= y.exponent,
    ensures
        r == (distance(signed_units(x), signed_units(y)) <= 0x22_5C17_D04D_AD29 * pow2(991)),
{
    let k: u32 = (x.exponent - y.exponent) as u32;
    let j: u32 = (y.exponent + 1074) as u32;
    proof {
        lemma2_to64();
    }
    if k <= 64 {
        let ghost v = pow2(k as nat);
        let ghost w = pow2(j as nat);
        proof {
            lemma_pow2_adds(k as nat, j as nat);
            lemma_pow2_pos(k as nat);
            lemma_pow2_pos(j as nat);
            if k < 64 {
                lemma_pow2_strictly_increases(k as nat, 64);
            }
            assert(x.mantissa * v <= 0x20_0000_0000_0000 * 0x1_0000_0000_0000_0000)
                by (nonlinear_arith)
                requires
                    x.mantissa < 0x20_0000_0000_0000,
                    v <= 0x1_0000_0000_0000_0000,
            ;
            assert(x.mantissa * (v * w) == (x.mantissa * v) * w) by (nonlinear_arith);
        }
        let big: u128 = times_pow2(x.mantissa as u128, k);
        let small: u128 = y.mantissa as u128;
        let n: u128 = if x.negative == y.negative {
            if big >= small {
                big - small
            } else {
                small - big
            }
        } else {
            big + small
        };
        proof {
            let d = distance(signed_units(x), signed_units(y));
            assert(signed_units(x) == if x.negative {
                -(big * w)
            } else {
                big * w
            });
            assert(signed_units(y) == if y.negative {
                -(small * w)
            } else {
                small * w
            });
            assert((big - small) * w == big * w - small * w) by (nonlinear_arith);
            assert((small - big) * w == small * w - big * w) by (nonlinear_arith);
            assert((big + small) * w == big * w + small * w) by (nonlinear_arith);
            assert(big >= small ==> big * w >= small * w) by (nonlinear_arith)
                requires
                    w > 0,
            ;
            assert(big < small ==> big * w <= small * w) by (nonlinear_arith)
                requires
                    w > 0,
            ;
            assert(big * w >= 0 && small * w >= 0) by (nonlinear_arith)
                requires
                    w > 0,
                    big >= 0,
                    small >= 0,
            ;
            assert(d == n * w);
        }
        return within_bound(n, j);
    }
    proof {
        lemma_far(x, y);
    }
    let i: u32 = j + k;
    i <= 991 || (i == 992 && 2 * x.mantissa <= 0x22_5C17_D04D_AD29) || (i == 993 && 4 * x.mantissa
        <= 0x22_5C17_D04D_AD29)
}

/// Whether two numbers differ by less than a billionth.
pub fn is_near(a: u64, b: u64) -> (r: bool)
    ensures
        r == near(a, b),
{
    let x = match parts_of(a) {
        Some(p) => p,
        None => return false,
    };
    let y = match parts_of(b) {
        Some(p) => p,
        None => return false,
    };
    proof {
        lemma_near(distance(units(a), units(b)));
        assert(signed_units(x) == units(a));
        assert(signed_units(y) == units(b));
    }
    if x.exponent >= y.exponent {
        near_parts(x, y)
    } else {
        near_parts(y, x)
    }
}

} // verus!
