//! Double-precision numbers by their bit patterns: what the crate needs of their
//! arithmetic, in integers. A finite number is its mantissa times a power of two.
use vstd::arithmetic::div_mod::{
    lemma_div_denominator, lemma_fundamental_div_mod, lemma_mod_bound, lemma_small_mod,
};
use vstd::arithmetic::mul::lemma_mul_inequality;
use vstd::arithmetic::power2::{
    lemma2_to64, lemma2_to64_rest, lemma_pow2_pos, lemma_pow2_strictly_increases,
    lemma_pow2_unfold, pow2,
};
use vstd::prelude::*;
use vstd::string::*;

use crate::text::{is_float_text, opt_text};

verus! {

/// The exponent field of a bit pattern.
pub open spec fn exponent_field(bits: u64) -> int {
    (bits as int / 0x10_0000_0000_0000) % 2048
}

/// Whether a bit pattern is a number: neither infinite nor undefined.
pub open spec fn is_finite(bits: u64) -> bool {
    exponent_field(bits) != 2047
}

/// Whether the sign is negative.
pub open spec fn is_negative(bits: u64) -> bool {
    bits >= 0x8000_0000_0000_0000
}

/// The mantissa, below two to the 53rd.
pub open spec fn mantissa(bits: u64) -> nat {
    let fraction = bits as int % 0x10_0000_0000_0000;
    if exponent_field(bits) == 0 {
        fraction as nat
    } else {
        (fraction + 0x10_0000_0000_0000) as nat
    }
}

/// The exponent of two that the mantissa is multiplied by.
pub open spec fn exponent(bits: u64) -> int {
    if exponent_field(bits) == 0 {
        -1074
    } else {
        exponent_field(bits) - 1075
    }
}

/// By how many bits a number exceeds a mantissa.
pub open spec fn excess_bits(p: nat) -> nat
    decreases p,
{
    if p < 0x20_0000_0000_0000 {
        0
    } else {
        1 + excess_bits(p / 2)
    }
}

/// The number rounded to 53 significant bits, to the even one of two that are
/// equally near.
pub open spec fn rounded(p: nat) -> nat {
    let k = excess_bits(p);
    let unit = pow2(k);
    let q = p / unit;
    let r = p % unit;
    if 2 * r > unit || (2 * r == unit && q % 2 == 1) {
        (q + 1) * unit
    } else {
        q * unit
    }
}

/// The whole part of a number times a power of two.
pub open spec fn scaled(p: nat, e: int) -> nat {
    if e >= 0 {
        p * pow2(e as nat)
    } else {
        p / pow2((-e) as nat)
    }
}

/// A number, or the largest one of its type.
pub open spec fn saturated(n: nat) -> u64 {
    if n <= u64::MAX {
        n as u64
    } else {
        u64::MAX
    }
}

/// The parts of a bit pattern.
#[derive(Debug, Clone, Copy)]
pub struct Parts {
    pub negative: bool,
    pub mantissa: u64,
    pub exponent: i32,
}

/// Takes a bit pattern apart, where it is a number.
pub fn parts_of(bits: u64) -> (r: Option<Parts>)
    ensures
        match r {
            Some(p) => is_finite(bits) && p.negative == is_negative(bits) && p.mantissa == mantissa(
                bits,
            ) && p.exponent == exponent(bits) && p.mantissa < 0x20_0000_0000_0000,
            None => !is_finite(bits),
        },
{
    let field: u64 = (bits / 0x10_0000_0000_0000) % 2048;
    let fraction: u64 = bits % 0x10_0000_0000_0000;
    if field == 2047 {
        return None;
    }
    let negative = bits >= 0x8000_0000_0000_0000;
    if field == 0 {
        Some(Parts { negative, mantissa: fraction, exponent: -1074 })
    } else {
        Some(
            Parts {
                negative,
                mantissa: fraction + 0x10_0000_0000_0000,
                exponent: field as i32 - 1075,
            },
        )
    }
}

/// Rounds to 53 significant bits.
pub fn round_to_double(p: u128) -> (r: u128)
    requires
        p < 0x8000_0000_0000_0000_0000_0000_0000_0000,
    ensures
        r == rounded(p as nat),
{
    let mut q: u128 = p;
    let mut unit: u128 = 1;
    let ghost mut k: nat = 0;
    proof {
        lemma2_to64();
        assert(p as int / 1 == p);
        assert(unit * q <= p) by (nonlinear_arith)
            requires
                unit == 1,
                q == p,
        ;
    }
    while q >= 0x20_0000_0000_0000
        invariant
            p < 0x8000_0000_0000_0000_0000_0000_0000_0000,
            unit == pow2(k),
            unit >= 1,
            q == p as nat / pow2(k),
            unit * q <= p,
            excess_bits(p as nat) == k + excess_bits(q as nat),
        decreases q,
    {
        proof {
            lemma_pow2_unfold(k + 1);
            lemma_pow2_pos(k);
            lemma_div_denominator(p as int, pow2(k) as int, 2);
            assert(unit * 2 <= p) by (nonlinear_arith)
                requires
                    unit * q <= p,
                    q >= 2,
                    unit >= 1,
            ;
            let half = q / 2;
            assert((unit * 2) * half <= p) by (nonlinear_arith)
                requires
                    unit * q <= p,
                    2 * half <= q,
                    unit >= 1,
                    half >= 0,
            ;
        }
        q = q / 2;
        unit = unit * 2;
        proof {
            k = k + 1;
        }
    }
    proof {
        lemma_pow2_pos(k);
        lemma_fundamental_div_mod(p as int, unit as int);
        assert(unit * q == q * unit) by (nonlinear_arith);
    }
    let whole: u128 = q * unit;
    let rest: u128 = p - whole;
    assert(rest == p as nat % pow2(k));
    if rest > unit - rest || (rest == unit - rest && q % 2 == 1) {
        assert((q + 1) * unit == whole + unit) by (nonlinear_arith)
            requires
                whole == q * unit,
        ;
        whole + unit
    } else {
        whole
    }
}

proof fn lemma_scaled_grows(p: nat, i: nat, e: nat)
    requires
        i <= e,
    ensures
        p * pow2(i) <= p * pow2(e),
{
    if i < e {
        lemma_pow2_strictly_increases(i, e);
        lemma_mul_inequality(pow2(i) as int, pow2(e) as int, p as int);
        assert(pow2(i) * p == p * pow2(i)) by (nonlinear_arith);
        assert(pow2(e) * p == p * pow2(e)) by (nonlinear_arith);
    }
}

/// The whole part of a number times a power of two, or the largest number.
pub fn scale(p: u128, e: i32) -> (r: u64)
    requires
        -2000 <= e <= 2000,
    ensures
        r == saturated(scaled(p as nat, e as int)),
{
    let mut acc: u128 = p;
    let mut i: i32 = 0;
    proof {
        lemma2_to64();
        assert(p as nat * 1 == p);
        assert(p as nat / 1 == p);
    }
    if e >= 0 {
        while i < e
            invariant
                0 <= i <= e <= 2000,
                acc == p as nat * pow2(i as nat),
            decreases e - i,
        {
            if acc > 0xffff_ffff_ffff_ffff {
                proof {
                    lemma_scaled_grows(p as nat, i as nat, e as nat);
                }
                return u64::MAX;
            }
            proof {
                lemma_pow2_unfold((i + 1) as nat);
                assert(p as nat * (2 * pow2(i as nat)) == 2 * (p as nat * pow2(i as nat)))
                    by (nonlinear_arith);
            }
            acc = acc * 2;
            i += 1;
        }
    } else {
        let n: i32 = -e;
        while i < n
            invariant
                0 <= i <= n <= 2000,
                acc == p as nat / pow2(i as nat),
            decreases n - i,
        {
            proof {
                lemma_pow2_unfold((i + 1) as nat);
                lemma_pow2_pos(i as nat);
                lemma_div_denominator(p as int, pow2(i as nat) as int, 2);
                assert(pow2(i as nat) * 2 == 2 * pow2(i as nat)) by (nonlinear_arith);
            }
            acc = acc / 2;
            i += 1;
        }
    }
    if acc > 0xffff_ffff_ffff_ffff {
        u64::MAX
    } else {
        acc as u64
    }
}

/// The whole part of the magnitude of a number.
pub open spec fn whole_part(bits: u64) -> nat {
    scaled(mantissa(bits), exponent(bits))
}

/// A number as `i64`: rounded towards zero, and held within the range. What is
/// not a number is zero; the infinities are the ends of the range.
pub open spec fn to_i64(bits: u64) -> i64 {
    if !is_finite(bits) {
        if bits as int % 0x10_0000_0000_0000 != 0 {
            0
        } else if is_negative(bits) {
            i64::MIN
        } else {
            i64::MAX
        }
    } else if is_negative(bits) {
        if whole_part(bits) <= 0x8000_0000_0000_0000 {
            (-(whole_part(bits) as int)) as i64
        } else {
            i64::MIN
        }
    } else {
        if whole_part(bits) <= i64::MAX {
            whole_part(bits) as i64
        } else {
            i64::MAX
        }
    }
}

/// The cast of a number to `i64`.
pub fn cast_to_i64(bits: u64) -> (r: i64)
    ensures
        r == to_i64(bits),
{
    match parts_of(bits) {
        None => {
            if bits % 0x10_0000_0000_0000 != 0 {
                0
            } else if bits >= 0x8000_0000_0000_0000 {
                i64::MIN
            } else {
                i64::MAX
            }
        },
        Some(p) => {
            let whole: u64 = scale(p.mantissa as u128, p.exponent);
            if p.negative {
                if whole < 0x8000_0000_0000_0000 {
                    -(whole as i64)
                } else {
                    i64::MIN
                }
            } else {
                if whole <= 0x7fff_ffff_ffff_ffff {
                    whole as i64
                } else {
                    i64::MAX
                }
            }
        },
    }
}

/// The part of the mantissa that stands behind the point.
pub open spec fn fraction_mantissa(bits: u64) -> nat {
    if exponent(bits) >= 0 {
        0
    } else {
        mantissa(bits) % pow2((-exponent(bits)) as nat)
    }
}

/// The nanoseconds in what stands behind the point of a number of seconds.
pub open spec fn nanos_part(bits: u64) -> nat {
    scaled(rounded(fraction_mantissa(bits) * 1_000_000_000), exponent(bits))
}

pub proof fn lemma_rounded_bound(p: nat)
    ensures
        rounded(p) <= 2 * p,
        p == 0 ==> rounded(p) == 0,
    decreases p,
{
    let k = excess_bits(p);
    let unit = pow2(k);
    lemma_pow2_pos(k);
    lemma_fundamental_div_mod(p as int, unit as int);
    let q = p / unit;
    let r = p % unit;
    assert(unit * q == q * unit) by (nonlinear_arith);
    assert((q + 1) * unit == q * unit + unit) by (nonlinear_arith);
    if 2 * r > unit || (2 * r == unit && q % 2 == 1) {
        assert(unit <= p + r) by {
            assert(2 * r >= unit);
            assert(q * unit >= 0) by (nonlinear_arith)
                requires
                    q >= 0,
                    unit >= 0,
            ;
        }
    }
}

/// Whether a bit pattern is a whole number.
pub fn is_whole(bits: u64) -> (r: bool)
    ensures
        r == (is_finite(bits) && fraction_mantissa(bits) == 0),
{
    match parts_of(bits) {
        None => false,
        Some(p) => if p.exponent >= 0 {
            true
        } else {
            fraction_of(p.mantissa, (-p.exponent) as u32) == 0
        },
    }
}

/// The remainder of a mantissa by a power of two.
fn fraction_of(m: u64, n: u32) -> (r: u64)
    requires
        m < 0x20_0000_0000_0000,
    ensures
        r == m as nat % pow2(n as nat),
        r < pow2(n as nat),
{
    proof {
        lemma2_to64();
        lemma2_to64_rest();
    }
    if n >= 53 {
        proof {
            if n > 53 {
                lemma_pow2_strictly_increases(53, n as nat);
            }
            lemma_small_mod(m as nat, pow2(n as nat));
        }
        return m;
    }
    let mut unit: u64 = 1;
    let mut i: u32 = 0;
    while i < n
        invariant
            i <= n < 53,
            unit == pow2(i as nat),
            pow2(53) == 0x20_0000_0000_0000,
        decreases n - i,
    {
        proof {
            lemma_pow2_unfold((i + 1) as nat);
            lemma_pow2_strictly_increases(i as nat, 53);
        }
        unit = unit * 2;
        i += 1;
    }
    proof {
        lemma_pow2_pos(n as nat);
        lemma_mod_bound(m as int, unit as int);
    }
    m % unit
}

proof fn lemma_scaled_bound(p: nat, n: nat, f: nat)
    requires
        f < pow2(n),
        p <= 2 * (f * 1_000_000_000),
    ensures
        p / pow2(n) <= 2_000_000_000,
{
    lemma_pow2_pos(n);
    lemma_fundamental_div_mod(p as int, pow2(n) as int);
    let u = pow2(n);
    let q = p / u;
    assert(u * q <= p);
    if q > 2_000_000_000 {
        assert(u * q > u * 2_000_000_000) by (nonlinear_arith)
            requires
                q > 2_000_000_000,
                u > 0,
        ;
    }
}

/// The nanoseconds in what stands behind the point of a number of seconds.
pub fn nanos_of(bits: u64) -> (r: u32)
    requires
        is_finite(bits),
    ensures
        r == nanos_part(bits),
{
    let p = parts_of(bits).unwrap();
    if p.exponent >= 0 {
        proof {
            lemma_rounded_bound(0);
            assert(0 * pow2(exponent(bits) as nat) == 0) by (nonlinear_arith);
        }
        return 0;
    }
    let n: u32 = (-p.exponent) as u32;
    let fraction: u64 = fraction_of(p.mantissa, n);
    let product: u128 = fraction as u128 * 1_000_000_000;
    proof {
        lemma_rounded_bound(product as nat);
        lemma_scaled_bound(rounded(product as nat), n as nat, fraction as nat);
    }
    let r: u64 = scale(round_to_double(product), p.exponent);
    r as u32
}

/// The bit pattern of the number that a text spells, where it is a finite one.
pub uninterp spec fn float_bits(text: Seq<char>) -> Option<u64>;

/// `str::parse` into a double-precision number, and the number's bit pattern. The
/// result depends on the text alone; there is one only where the text is that of a
/// number, and only a finite number is given.
#[verifier::external_body]
pub(crate) fn read_float(text: &str) -> (r: Option<u64>)
    ensures
        r == float_bits(text@),
        r matches Some(b) ==> is_finite(b) && is_float_text(text@),
{
    let n = text.parse().ok().and_then(serde_json::Number::from_f64)?;
    n.as_f64().map(|x| x.to_bits())
}

/// The bit pattern of the double-precision number nearest to a JSON number, by
/// the number's text.
pub uninterp spec fn number_bits(text: Seq<char>) -> Option<u64>;

/// `serde_json::Number::as_f64` and the bit pattern of what it gives. The result
/// depends on the number's text alone, and is a finite number.
#[verifier::external_body]
pub(crate) fn read_number(text: &str) -> (r: Option<u64>)
    ensures
        r == number_bits(text@),
        r matches Some(b) ==> is_finite(b),
{
    let n: serde_json::Number = text.parse().ok()?;
    n.as_f64().map(|x| x.to_bits())
}

// ---------------------------------------------------------------------
// Other ways to write and read a bit pattern
// ---------------------------------------------------------------------
/// The text of a number in plain decimal digits, by its bit pattern.
pub uninterp spec fn double_text(bits: u64) -> Seq<char>;

/// The text of a number in JSON, by its bit pattern; none where it is not finite.
pub uninterp spec fn double_json(bits: u64) -> Option<Seq<char>>;

/// The number of a bit pattern, read from its bytes by `bytes::Buf::get_f64`, and
/// `ToString` on it. The text depends on the bit pattern alone.
#[verifier::external_body]
pub(crate) fn write_double(bits: u64) -> (r: String)
    ensures
        r@ == double_text(bits),
{
    bytes::Buf::get_f64(&mut &bits.to_be_bytes()[..]).to_string()
}

/// The text of a number with a fixed count of decimals, by its bit pattern.
pub uninterp spec fn fixed_text(bits: u64, decimals: usize) -> Seq<char>;

/// The number of a bit pattern, read from its bytes by `bytes::Buf::get_f64`, and
/// `format!` on it with a precision, which takes at most sixteen bits. The text
/// depends on the two arguments alone.
#[verifier::external_body]
pub(crate) fn write_fixed(bits: u64, decimals: usize) -> (r: String)
    requires
        decimals <= 0xffff,
    ensures
        r@ == fixed_text(bits, decimals),
{
    format!("{:.*}", decimals, bytes::Buf::get_f64(&mut &bits.to_be_bytes()[..]))
}

/// The number of a bit pattern, read from its bytes by `bytes::Buf::get_f64`, as
/// a `serde_json::Number`, and that number's text. It depends on the bit pattern
/// alone.
#[verifier::external_body]
pub(crate) fn write_double_json(bits: u64) -> (r: Option<String>)
    ensures
        opt_text(r) == double_json(bits),
{
    let x = bytes::Buf::get_f64(&mut &bits.to_be_bytes()[..]);
    serde_json::Number::from_f64(x).map(|n| n.to_string())
}

/// How often a mantissa is doubled until its first bit is in place.
pub open spec fn normal_shift(m: nat) -> nat
    decreases 0x20_0000_0000_0000 - m,
{
    if m == 0 || m >= 0x10_0000_0000_0000 {
        0
    } else {
        1 + normal_shift(2 * m)
    }
}

/// The bit pattern of a single-precision number in double precision.
pub open spec fn widened(b: u32) -> u64 {
    let sign: nat = if b >= 0x8000_0000 {
        0x8000_0000_0000_0000
    } else {
        0
    };
    let field = (b as nat / 0x80_0000) % 256;
    let fraction = b as nat % 0x80_0000;
    if field == 255 {
        (sign + 2047 * 0x10_0000_0000_0000 + fraction * 0x2000_0000) as u64
    } else if field > 0 {
        (sign + (field + 896) * 0x10_0000_0000_0000 + fraction * 0x2000_0000) as u64
    } else if fraction == 0 {
        sign as u64
    } else {
        let k = normal_shift(fraction);
        (sign + (926 - k) * 0x10_0000_0000_0000 + (fraction * pow2(k) - 0x10_0000_0000_0000)) as u64
    }
}

/// Widens a single-precision number.
pub fn widen(b: u32) -> (r: u64)
    ensures
        r == widened(b),
{
    let sign: u64 = if b >= 0x8000_0000 {
        0x8000_0000_0000_0000
    } else {
        0
    };
    let field: u64 = ((b / 0x80_0000) % 256) as u64;
    let fraction: u64 = (b % 0x80_0000) as u64;
    if field == 255 {
        return sign + 2047 * 0x10_0000_0000_0000 + fraction * 0x2000_0000;
    }
    if field > 0 {
        return sign + (field + 896) * 0x10_0000_0000_0000 + fraction * 0x2000_0000;
    }
    if fraction == 0 {
        return sign;
    }
    let mut m: u64 = fraction;
    let mut k: u64 = 0;
    proof {
        lemma2_to64();
        assert(fraction as nat * 1 == fraction);
    }
    while m < 0x10_0000_0000_0000
        invariant
            0 < m < 0x20_0000_0000_0000,
            k <= 53,
            m == fraction as nat * pow2(k as nat),
            normal_shift(fraction as nat) == k + normal_shift(m as nat),
            fraction > 0,
        decreases 0x20_0000_0000_0000 - m,
    {
        proof {
            lemma2_to64_rest();
            if k >= 52 {
                if k > 52 {
                    lemma_pow2_strictly_increases(52, k as nat);
                }
                lemma_pow2_pos(k as nat);
                assert(fraction as nat * pow2(k as nat) >= pow2(k as nat)) by (nonlinear_arith)
                    requires
                        fraction >= 1,
                ;
            }
            lemma_pow2_unfold((k + 1) as nat);
            assert(fraction as nat * (2 * pow2(k as nat)) == 2 * (fraction as nat * pow2(
                k as nat,
            ))) by (nonlinear_arith);
        }
        m = m * 2;
        k = k + 1;
    }
    sign + (926 - k) * 0x10_0000_0000_0000 + (m - 0x10_0000_0000_0000)
}

} // verus!
