//! Display of values under the active modes.
//!
//! Decimal text for a double (plain and scientific) is floating-point work
//! the engine cannot do, so the caller supplies both renderings in a
//! [`RealText`]; everything the engine decides — which rendering a mode
//! picks, whether a value displays as a hex/binary integer, and the digit
//! runs themselves — is verified here.

use vstd::prelude::*;
use crate::calculator::{AngleMode, BaseMode};
use crate::radix::{
    i64_to_u64_twos, radix_digits, spec_radix_digits, spec_to_u64_twos,
};
use crate::text::{chars_of, clone_chars};
use crate::value::{
    spec_abs_ge_million, spec_abs_le_i64_max, spec_as_i64, spec_ge_zero, spec_is_integral,
    spec_negate, ComplexNumber, Real,
};

verus! {

/// The caller-supplied decimal renderings of one double: `plain` as `{}`
/// would print it, `sci` as `{:.3e}` would.
pub struct RealText {
    pub plain: Vec<char>,
    pub sci: Vec<char>,
}

/// The digit run `{:X}` or `{:b}` prints for the value `b` casts to.
pub open spec fn spec_cast_digits(b: u64, radix: u64) -> Seq<char> {
    spec_radix_digits(spec_to_u64_twos(spec_as_i64(b)), radix)
}

/// How a real with pattern `b` displays.
///
/// Decimal: the plain rendering, or the scientific one when abbreviation is
/// on and the magnitude reaches a million. Hexadecimal and binary: the
/// prefixed digits of the 64-bit integer the value casts to when it is
/// integral and within `i64` display range; otherwise the plain decimal
/// rendering annotated with those digits in parentheses.
pub open spec fn spec_format_real(
    base: BaseMode,
    abbrev: bool,
    b: u64,
    plain: Seq<char>,
    sci: Seq<char>,
) -> Seq<char> {
    match base {
        BaseMode::Decimal => {
            if abbrev && spec_abs_ge_million(b) {
                sci
            } else {
                plain
            }
        },
        BaseMode::Hexadecimal => {
            if spec_is_integral(b) && spec_abs_le_i64_max(b) {
                "0x"@ + spec_cast_digits(b, 16)
            } else {
                plain + " (hex: 0x"@ + spec_cast_digits(b, 16) + ")"@
            }
        },
        BaseMode::Binary => {
            if spec_is_integral(b) && spec_abs_le_i64_max(b) {
                "0b"@ + spec_cast_digits(b, 2)
            } else {
                plain + " (bin: 0b"@ + spec_cast_digits(b, 2) + ")"@
            }
        },
    }
}

/// Renders a real value under the given base and abbreviation modes.
pub fn format_real_with(base: BaseMode, abbrev: bool, v: Real, text: &RealText) -> (r: Vec<char>)
    ensures
        r@ == spec_format_real(base, abbrev, v.bits, text.plain@, text.sci@),
{
    match base {
        BaseMode::Decimal => {
            if abbrev && v.abs_ge_million() {
                clone_chars(&text.sci)
            } else {
                clone_chars(&text.plain)
            }
        },
        BaseMode::Hexadecimal => {
            let u = i64_to_u64_twos(v.as_i64());
            let mut digits = radix_digits(u, 16);
            if v.is_integral() && v.abs_le_i64_max() {
                let mut out = chars_of("0x");
                let ghost pre = out@;
                out.append(&mut digits);
                proof {
                    assert(out@ =~= "0x"@ + spec_cast_digits(v.bits, 16));
                }
                out
            } else {
                let mut out = clone_chars(&text.plain);
                let mut mid = chars_of(" (hex: 0x");
                out.append(&mut mid);
                out.append(&mut digits);
                let mut close = chars_of(")");
                out.append(&mut close);
                proof {
                    assert(out@ =~= text.plain@ + " (hex: 0x"@ + spec_cast_digits(v.bits, 16)
                        + ")"@);
                }
                out
            }
        },
        BaseMode::Binary => {
            let u = i64_to_u64_twos(v.as_i64());
            let mut digits = radix_digits(u, 2);
            if v.is_integral() && v.abs_le_i64_max() {
                let mut out = chars_of("0b");
                out.append(&mut digits);
                proof {
                    assert(out@ =~= "0b"@ + spec_cast_digits(v.bits, 2));
                }
                out
            } else {
                let mut out = clone_chars(&text.plain);
                let mut mid = chars_of(" (bin: 0b");
                out.append(&mut mid);
                out.append(&mut digits);
                let mut close = chars_of(")");
                out.append(&mut close);
                proof {
                    assert(out@ =~= text.plain@ + " (bin: 0b"@ + spec_cast_digits(v.bits, 2)
                        + ")"@);
                }
                out
            }
        },
    }
}

/// How a complex value displays in rectangular form: real part, a sign from
/// the imaginary part, then the displayed (non-negative form) imaginary
/// part and `i`, each component rendered as a real. `im_text` must render
/// the displayed imaginary component.
pub open spec fn spec_format_complex_rect(
    base: BaseMode,
    abbrev: bool,
    c: ComplexNumber,
    re_plain: Seq<char>,
    re_sci: Seq<char>,
    im_plain: Seq<char>,
    im_sci: Seq<char>,
) -> Seq<char> {
    let shown_im = if spec_ge_zero(c.imag.bits) {
        c.imag.bits
    } else {
        spec_negate(c.imag.bits)
    };
    let sign = if spec_ge_zero(c.imag.bits) {
        " + "@
    } else {
        " - "@
    };
    spec_format_real(base, abbrev, c.real.bits, re_plain, re_sci) + sign + spec_format_real(
        base,
        abbrev,
        shown_im,
        im_plain,
        im_sci,
    ) + "i"@
}

/// Renders a complex value in rectangular form.
pub fn format_complex_rect_with(
    base: BaseMode,
    abbrev: bool,
    c: &ComplexNumber,
    re_text: &RealText,
    im_text: &RealText,
) -> (r: Vec<char>)
    ensures
        r@ == spec_format_complex_rect(
            base,
            abbrev,
            *c,
            re_text.plain@,
            re_text.sci@,
            im_text.plain@,
            im_text.sci@,
        ),
{
    let mut out = format_real_with(base, abbrev, c.real, re_text);
    let mut sign = if c.imag.ge_zero() {
        chars_of(" + ")
    } else {
        chars_of(" - ")
    };
    let shown_im = if c.imag.ge_zero() {
        c.imag
    } else {
        c.imag.negated()
    };
    out.append(&mut sign);
    let mut im_part = format_real_with(base, abbrev, shown_im, im_text);
    out.append(&mut im_part);
    let mut tail = chars_of("i");
    out.append(&mut tail);
    proof {
        assert(out@ =~= spec_format_complex_rect(
            base,
            abbrev,
            *c,
            re_text.plain@,
            re_text.sci@,
            im_text.plain@,
            im_text.sci@,
        ));
    }
    out
}

/// How a complex value displays in polar form: magnitude, the angle sign,
/// the displayed phase, and the angle unit. The magnitude and displayed
/// phase (already converted to degrees under `AngleMode::Degrees`) are
/// computed by the caller.
pub open spec fn spec_format_complex_polar(
    base: BaseMode,
    abbrev: bool,
    angle: AngleMode,
    mag: u64,
    mag_plain: Seq<char>,
    mag_sci: Seq<char>,
    phase: u64,
    phase_plain: Seq<char>,
    phase_sci: Seq<char>,
) -> Seq<char> {
    let unit = if angle is Degrees {
        "°"@
    } else {
        "rad"@
    };
    spec_format_real(base, abbrev, mag, mag_plain, mag_sci) + " ∠ "@ + spec_format_real(
        base,
        abbrev,
        phase,
        phase_plain,
        phase_sci,
    ) + unit
}

/// Renders a complex value in polar form from its caller-computed magnitude
/// and displayed phase.
pub fn format_complex_polar_with(
    base: BaseMode,
    abbrev: bool,
    angle: AngleMode,
    mag: Real,
    mag_text: &RealText,
    phase: Real,
    phase_text: &RealText,
) -> (r: Vec<char>)
    ensures
        r@ == spec_format_complex_polar(
            base,
            abbrev,
            angle,
            mag.bits,
            mag_text.plain@,
            mag_text.sci@,
            phase.bits,
            phase_text.plain@,
            phase_text.sci@,
        ),
{
    let mut out = format_real_with(base, abbrev, mag, mag_text);
    let mut mid = chars_of(" ∠ ");
    out.append(&mut mid);
    let mut ph = format_real_with(base, abbrev, phase, phase_text);
    out.append(&mut ph);
    let mut unit = match angle {
        AngleMode::Degrees => chars_of("°"),
        AngleMode::Radians => chars_of("rad"),
    };
    out.append(&mut unit);
    proof {
        assert(out@ =~= spec_format_complex_polar(
            base,
            abbrev,
            angle,
            mag.bits,
            mag_text.plain@,
            mag_text.sci@,
            phase.bits,
            phase_text.plain@,
            phase_text.sci@,
        ));
    }
    out
}

} // verus!
