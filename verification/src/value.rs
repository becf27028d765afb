//! Numeric value model.
//!
//! A [`Real`] is an IEEE-754 double-precision number, held as its 64-bit
//! pattern. The engine never computes with the number itself — callers do the
//! floating-point arithmetic and hand results back — but every question the
//! engine asks of a value (is it zero, is it an integer, what does it truncate
//! to, what is its negation) is answered here by verified bit-level code.
//!
//! Pattern layout: bit 63 is the sign, bits 62..52 the biased exponent, bits
//! 51..0 the fraction. Zero means both zero patterns (`+0.0` and `-0.0`);
//! NaN means exponent all ones with a non-zero fraction.

use vstd::prelude::*;

verus! {

/// Sign bit of a double's pattern.
pub const SIGN_MASK: u64 = 0x8000_0000_0000_0000;

/// All bits but the sign: the pattern of the absolute value.
pub const ABS_MASK: u64 = 0x7FFF_FFFF_FFFF_FFFF;

/// Exponent field, all ones: the pattern of positive infinity.
pub const EXP_MASK: u64 = 0x7FF0_0000_0000_0000;

/// Fraction field.
pub const FRAC_MASK: u64 = 0x000F_FFFF_FFFF_FFFF;

/// Pattern of 1.0 (biased exponent 1023, empty fraction).
pub const ONE_BITS: u64 = 0x3FF0_0000_0000_0000;

/// Pattern of 1.0e6, the threshold of abbreviated display.
pub const MILLION_BITS: u64 = 0x412E_8480_0000_0000;

/// Pattern of 2^63, which is also `i64::MAX` rounded to a double.
pub const TWO_POW_63_BITS: u64 = 0x43E0_0000_0000_0000;

/// A real number: an IEEE-754 double held as its bit pattern.
#[derive(Debug, Clone, Copy, PartialEq, Eq, Structural)]
pub struct Real {
    pub bits: u64,
}

/// A complex number with double-precision components.
#[derive(Debug, Clone, Copy, PartialEq, Eq, Structural)]
pub struct ComplexNumber {
    pub real: Real,
    pub imag: Real,
}

/// A value on the calculator stack: real, or (rudimentary) complex.
#[derive(Debug, Clone, Copy, PartialEq, Eq, Structural)]
pub enum StackValue {
    Real(Real),
    Complex(ComplexNumber),
}

/// The pattern of the absolute value.
pub open spec fn abs_bits(b: u64) -> u64 {
    b & ABS_MASK
}

/// The double is a NaN: exponent all ones, fraction non-zero.
pub open spec fn spec_is_nan(b: u64) -> bool {
    abs_bits(b) > EXP_MASK
}

/// The double compares equal to 0.0 (so both zero patterns).
pub open spec fn spec_is_zero(b: u64) -> bool {
    abs_bits(b) == 0
}

/// The pattern with the sign bit flipped: IEEE negation.
pub open spec fn spec_negate(b: u64) -> u64 {
    b ^ SIGN_MASK
}

/// The double's sign bit is set.
pub open spec fn spec_is_sign_neg(b: u64) -> bool {
    b & SIGN_MASK != 0
}

/// The double satisfies `v >= 0.0`. False for NaN; true for both zeros.
pub open spec fn spec_ge_zero(b: u64) -> bool {
    !spec_is_nan(b) && (!spec_is_sign_neg(b) || spec_is_zero(b))
}

/// `|v| >= 1.0e6`. For patterns of equal sign the ordering of finite doubles
/// is the ordering of their patterns, so on absolute values it is a plain
/// comparison; NaN compares false.
pub open spec fn spec_abs_ge_million(b: u64) -> bool {
    !spec_is_nan(b) && abs_bits(b) >= MILLION_BITS
}

/// The biased exponent field.
pub open spec fn exp_field(b: u64) -> u64 {
    (b & ABS_MASK) >> 52u64
}

/// The fraction field.
pub open spec fn frac_field(b: u64) -> u64 {
    b & FRAC_MASK
}

/// The double has zero fractional part (`v.fract() == 0.0`).
///
/// A finite value with biased exponent `e` is `±2^(e-1075) * (2^52 + frac)`;
/// it is an integer when `e >= 1075`, or when the low `1075 - e` fraction
/// bits are zero. Values below 1.0 are integers only when zero; infinities
/// and NaN have no zero fractional part.
pub open spec fn spec_is_integral(b: u64) -> bool {
    if spec_is_zero(b) {
        true
    } else if abs_bits(b) >= EXP_MASK {
        false
    } else if exp_field(b) < 1023 {
        false
    } else if exp_field(b) >= 1075 {
        true
    } else {
        frac_field(b) & (((1u64 << ((1075 - exp_field(b)) as u64)) - 1) as u64) == 0
    }
}

/// `|v| <= i64::MAX as f64`, i.e. `|v| <= 2^63`. NaN patterns exceed
/// [`TWO_POW_63_BITS`], so they are excluded by the comparison itself.
pub open spec fn spec_abs_le_i64_max(b: u64) -> bool {
    abs_bits(b) <= TWO_POW_63_BITS
}

/// The value truncates toward zero to an integer whose magnitude is below
/// 2^63. Holds exactly when `|v| < 2^63 + 1`, but on patterns the usable
/// bound is `|v| <= 2^63`, plus the negative pattern of 2^63 itself.
pub open spec fn spec_as_i64(b: u64) -> int {
    if spec_is_nan(b) {
        0int
    } else if abs_bits(b) >= TWO_POW_63_BITS {
        if spec_is_sign_neg(b) {
            i64::MIN as int
        } else {
            i64::MAX as int
        }
    } else if abs_bits(b) < ONE_BITS {
        0int
    } else {
        let m = frac_field(b) | (1u64 << 52u64);
        let t = if exp_field(b) >= 1075 {
            m << ((exp_field(b) - 1075) as u64)
        } else {
            m >> ((1075 - exp_field(b)) as u64)
        };
        if spec_is_sign_neg(b) {
            -(t as int)
        } else {
            t as int
        }
    }
}

impl Real {
    /// The double with the given bit pattern.
    pub fn from_bits(bits: u64) -> (r: Real)
        ensures
            r.bits == bits,
    {
        Real { bits: bits }
    }

    /// This double's bit pattern.
    pub fn to_bits(&self) -> (r: u64)
        ensures
            r == self.bits,
    {
        self.bits
    }

    /// The value compares equal to 0.0.
    pub fn is_zero(&self) -> (r: bool)
        ensures
            r == spec_is_zero(self.bits),
    {
        self.bits & ABS_MASK == 0
    }

    /// The negated value: IEEE negation flips exactly the sign bit.
    pub fn negated(&self) -> (r: Real)
        ensures
            r.bits == self.bits ^ SIGN_MASK,
    {
        Real { bits: self.bits ^ SIGN_MASK }
    }

    /// The value satisfies `v >= 0.0`.
    pub fn ge_zero(&self) -> (r: bool)
        ensures
            r == spec_ge_zero(self.bits),
    {
        let a = self.bits & ABS_MASK;
        a <= EXP_MASK && (self.bits & SIGN_MASK == 0 || a == 0)
    }

    /// The value has zero fractional part.
    pub fn is_integral(&self) -> (r: bool)
        ensures
            r == spec_is_integral(self.bits),
    {
        let a = self.bits & ABS_MASK;
        if a == 0 {
            true
        } else if a >= EXP_MASK {
            false
        } else {
            let e = a >> 52;
            if e < 1023 {
                false
            } else if e >= 1075 {
                true
            } else {
                let sh = 1075 - e;
                assert(1u64 << sh >= 1) by (bit_vector)
                    requires
                        1 <= sh <= 52,
                ;
                self.bits & FRAC_MASK & ((1u64 << sh) - 1) == 0
            }
        }
    }

    /// `|v| <= i64::MAX as f64`.
    pub fn abs_le_i64_max(&self) -> (r: bool)
        ensures
            r == spec_abs_le_i64_max(self.bits),
    {
        self.bits & ABS_MASK <= TWO_POW_63_BITS
    }

    /// `|v| >= 1.0e6`.
    pub fn abs_ge_million(&self) -> (r: bool)
        ensures
            r == spec_abs_ge_million(self.bits),
    {
        let a = self.bits & ABS_MASK;
        a <= EXP_MASK && a >= MILLION_BITS
    }

    /// The value converted with Rust's saturating, truncating `as i64` cast:
    /// NaN to 0, out-of-range values to the nearest bound, others truncated
    /// toward zero.
    pub fn as_i64(&self) -> (r: i64)
        ensures
            r == spec_as_i64(self.bits),
    {
        let b = self.bits;
        let a = b & ABS_MASK;
        let neg = b & SIGN_MASK != 0;
        if a > EXP_MASK {
            0
        } else if a >= TWO_POW_63_BITS {
            if neg {
                i64::MIN
            } else {
                i64::MAX
            }
        } else if a < ONE_BITS {
            0
        } else {
            let e = a >> 52;
            let m = (b & FRAC_MASK) | (1u64 << 52);
            assert(1023 <= e < 1086 && m < (1u64 << 53)) by (bit_vector)
                requires
                    0x3FF0_0000_0000_0000 <= a < 0x43E0_0000_0000_0000,
                    e == a >> 52,
                    m == (b & 0x000F_FFFF_FFFF_FFFF) | (1u64 << 52),
            ;
            let t: u64 = if e >= 1075 {
                let sh = e - 1075;
                assert(m << sh < 0x8000_0000_0000_0000) by (bit_vector)
                    requires
                        sh <= 10,
                        m < (1u64 << 53),
                ;
                m << sh
            } else {
                let sh = 1075 - e;
                assert(m >> sh < 0x8000_0000_0000_0000) by (bit_vector)
                    requires
                        sh < 64,
                        m < (1u64 << 53),
                ;
                m >> sh
            };
            if neg {
                -(t as i64)
            } else {
                t as i64
            }
        }
    }
}

/// Index of the highest set bit (0 for values below 2).
pub open spec fn spec_msb(m: u64) -> nat
    decreases m,
{
    if m < 2 {
        0nat
    } else {
        1 + spec_msb(m / 2)
    }
}

/// The bit pattern of the double nearest to the magnitude `m` (with ties to
/// even), negative when `neg`. For magnitudes up to 2^53 the conversion is
/// exact; above that the 53-bit significand is rounded.
pub open spec fn spec_f64_from_mag(m: u64, neg: bool) -> u64 {
    let k = spec_msb(m);
    let s = if neg {
        SIGN_MASK
    } else {
        0u64
    };
    if k <= 52 {
        s | (((1023 + k) as u64) << 52u64) | ((m << ((52 - k) as u64)) & FRAC_MASK)
    } else {
        let sh = (k - 52) as u64;
        let low = m & (((1u64 << sh) - 1) as u64);
        let half = 1u64 << ((sh - 1) as u64);
        let mh = m >> sh;
        let up = low > half || (low == half && mh & 1 == 1);
        let mh2 = if up {
            (mh + 1) as u64
        } else {
            mh
        };
        if mh2 == 1u64 << 53u64 {
            s | (((1024 + k) as u64) << 52u64)
        } else {
            s | (((1023 + k) as u64) << 52u64) | (mh2 & FRAC_MASK)
        }
    }
}

/// The bit pattern of `n as f64`.
pub open spec fn spec_f64_bits_of_i64(n: i64) -> u64 {
    if n == 0 {
        0u64
    } else if n > 0 {
        spec_f64_from_mag(n as u64, false)
    } else {
        spec_f64_from_mag((-(n as int)) as u64, true)
    }
}

/// The bit pattern of the double nearest to `n` — the value of `n as f64`,
/// with the rounding that cast performs on magnitudes above 2^53.
pub fn f64_bits_of_i64(n: i64) -> (r: u64)
    ensures
        r == spec_f64_bits_of_i64(n),
{
    if n == 0 {
        return 0;
    }
    let neg = n < 0;
    let m: u64 = if n == i64::MIN {
        0x8000_0000_0000_0000u64
    } else if n < 0 {
        (-n) as u64
    } else {
        n as u64
    };
    assert(m >= 1);
    assert(m >> 0u64 == m) by (bit_vector);
    let mut t: u64 = m;
    let mut k: u64 = 0;
    while t >= 2
        invariant
            t >= 1,
            t == m >> k,
            k <= 63,
            k + spec_msb(t) == spec_msb(m),
        decreases t,
    {
        proof {
            assert(spec_msb(t) == 1 + spec_msb(t / 2));
            assert(k <= 62 && (m >> k) / 2 == m >> ((k + 1) as u64)) by (bit_vector)
                requires
                    t == m >> k,
                    k <= 63,
                    t >= 2,
            ;
        }
        t = t / 2;
        k = k + 1;
    }
    assert(t == 1 && spec_msb(t) == 0 && k == spec_msb(m));
    let s: u64 = if neg {
        SIGN_MASK
    } else {
        0
    };
    if k <= 52 {
        s | ((1023 + k) << 52) | ((m << (52 - k)) & FRAC_MASK)
    } else {
        let sh = k - 52;
        assert((1u64 << sh) >= 1 && m >> sh < 0x8000_0000_0000_0000) by (bit_vector)
            requires
                1 <= sh <= 11,
        ;
        let low = m & ((1u64 << sh) - 1);
        let half = 1u64 << (sh - 1);
        let mh = m >> sh;
        let up = low > half || (low == half && mh & 1 == 1);
        let mh2: u64 = if up {
            mh + 1
        } else {
            mh
        };
        if mh2 == 1u64 << 53 {
            s | ((1024 + k) << 52)
        } else {
            s | ((1023 + k) << 52) | (mh2 & FRAC_MASK)
        }
    }
}

impl ComplexNumber {
    /// The complex number with the given components.
    pub fn new(re: Real, im: Real) -> (r: ComplexNumber)
        ensures
            r.real == re && r.imag == im,
    {
        ComplexNumber { real: re, imag: im }
    }

    /// Both components negated (the IEEE negation of each pattern).
    pub fn negated(&self) -> (r: ComplexNumber)
        ensures
            r.real.bits == spec_negate(self.real.bits),
            r.imag.bits == spec_negate(self.imag.bits),
    {
        ComplexNumber { real: self.real.negated(), imag: self.imag.negated() }
    }
}

/// The real number a stack value stands for, if any: a `Real`, or a
/// `Complex` whose imaginary part compares equal to zero.
pub open spec fn spec_as_real(v: StackValue) -> Option<Real> {
    match v {
        StackValue::Real(r) => Some(r),
        StackValue::Complex(c) => if spec_is_zero(c.imag.bits) {
            Some(c.real)
        } else {
            None
        },
    }
}

impl StackValue {
    /// The value as a real number, when it is one.
    pub fn as_real(&self) -> (r: Option<Real>)
        ensures
            r == spec_as_real(*self),
    {
        match self {
            StackValue::Real(r) => Some(*r),
            StackValue::Complex(c) => if c.imag.bits & ABS_MASK == 0 {
                Some(c.real)
            } else {
                None
            },
        }
    }

    /// The value as a complex number; a real gets a positive zero imaginary
    /// part.
    pub fn as_complex(&self) -> (r: ComplexNumber)
        ensures
            match *self {
                StackValue::Real(v) => r.real == v && r.imag.bits == 0,
                StackValue::Complex(c) => r == c,
            },
    {
        match self {
            StackValue::Real(r) => ComplexNumber { real: *r, imag: Real { bits: 0 } },
            StackValue::Complex(c) => *c,
        }
    }

    /// The negated value: sign flips on the real, or on both components.
    pub fn negated(&self) -> (r: StackValue)
        ensures
            match *self {
                StackValue::Real(v) => r matches StackValue::Real(w) && w.bits == spec_negate(v.bits),
                StackValue::Complex(c) => r matches StackValue::Complex(d)
                    && d.real.bits == spec_negate(c.real.bits)
                    && d.imag.bits == spec_negate(c.imag.bits),
            },
    {
        match self {
            StackValue::Real(v) => StackValue::Real(v.negated()),
            StackValue::Complex(c) => StackValue::Complex(c.negated()),
        }
    }
}

} // verus!
