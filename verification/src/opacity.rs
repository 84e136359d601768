//! Layer opacity as a fixed-point fraction of one.
//!
//! Callers state an opacity as a single-precision number. It is taken in by
//! its bit pattern, clamped to the unit interval and rounded to a whole
//! count of parts; from there on all arithmetic is on integers.

use vstd::prelude::*;

verus! {

/// The number of parts that make an opacity of exactly one.
pub const OPACITY_ONE: u32 = 16_777_216;

/// An opacity in the closed unit interval, counted in parts of `OPACITY_ONE`.
#[derive(Clone, Copy, Debug)]
pub struct Opacity {
    parts: u32,
}

/// The exponent field of a single-precision bit pattern.
pub open spec fn f32_exponent(bits: u32) -> u32 {
    (bits >> 23) & 0xff
}

/// The fraction field of a single-precision bit pattern.
pub open spec fn f32_fraction(bits: u32) -> u32 {
    bits & 0x7f_ffff
}

/// `significand / 2^shift` rounded to the nearest integer, halves upwards.
pub open spec fn scaled_down(significand: u64, shift: u64) -> int {
    let unit = (1u64 << shift) as int;
    (2 * significand as int + unit) / (2 * unit)
}

/// The parts of the opacity that a single-precision number stands for,
/// given by its bit pattern. A number below zero counts as zero, one above
/// one as one, and one that is not a number as zero. A number `x` between
/// is `(2^23 + fraction) * 2^(exponent - 150)`, and its parts are
/// `x * 2^24` rounded to the nearest integer; below an exponent of 102
/// that is less than half a part.
pub open spec fn parts_of_f32_bits(bits: u32) -> int {
    let exponent = f32_exponent(bits);
    let fraction = f32_fraction(bits);
    if exponent == 255 && fraction != 0 {
        0
    } else if bits >= 0x8000_0000 {
        0
    } else if exponent >= 127 {
        OPACITY_ONE as int
    } else if exponent < 102 {
        0
    } else {
        scaled_down((0x80_0000 + fraction) as u64, (126 - exponent) as u64)
    }
}

impl Opacity {
    #[verifier::type_invariant]
    spec fn within_unit(self) -> bool {
        self.parts <= OPACITY_ONE
    }

    /// The opacity as a numerator over `OPACITY_ONE`.
    pub closed spec fn parts(self) -> int {
        self.parts as int
    }

    /// The nearest value of the unit interval to `raw`, in parts.
    pub open spec fn clamped(raw: int) -> int {
        if raw < 0 {
            0
        } else if raw > OPACITY_ONE as int {
            OPACITY_ONE as int
        } else {
            raw
        }
    }

    /// Builds an opacity from a signed count of parts. Counts below zero
    /// become zero and counts above `OPACITY_ONE` become one.
    pub fn from_parts(raw: i64) -> (o: Opacity)
        ensures
            o.parts() == Self::clamped(raw as int),
    {
        if raw < 0 {
            Opacity { parts: 0 }
        } else if raw > OPACITY_ONE as i64 {
            Opacity { parts: OPACITY_ONE }
        } else {
            Opacity { parts: raw as u32 }
        }
    }

    /// Builds an opacity from the bit pattern of a single-precision number,
    /// clamped to the unit interval.
    pub fn from_f32_bits(bits: u32) -> (o: Opacity)
        ensures
            o.parts() == parts_of_f32_bits(bits),
            0 <= o.parts() <= OPACITY_ONE,
    {
        let exponent: u32 = (bits >> 23) & 0xff;
        let fraction: u32 = bits & 0x7f_ffff;
        assert(exponent <= 255 && fraction <= 0x7f_ffff) by (bit_vector)
            requires
                exponent == (bits >> 23) & 0xff,
                fraction == bits & 0x7f_ffff,
        ;
        if exponent == 255 && fraction != 0 {
            return Opacity { parts: 0 };
        }
        if bits >= 0x8000_0000 {
            return Opacity { parts: 0 };
        }
        if exponent >= 127 {
            return Opacity { parts: OPACITY_ONE };
        }
        if exponent < 102 {
            return Opacity { parts: 0 };
        }
        let shift: u64 = (126 - exponent) as u64;
        let unit: u64 = 1u64 << shift;
        assert(0 < unit <= 0x100_0000) by (bit_vector)
            requires
                unit == 1u64 << shift,
                shift <= 24,
        ;
        let significand: u64 = 0x80_0000 + fraction as u64;
        let parts: u64 = (2 * significand + unit) / (2 * unit);
        assert(parts <= significand) by (nonlinear_arith)
            requires
                parts == (2 * significand + unit) / (2 * unit),
                0 < unit,
                0 < significand,
        ;
        Opacity { parts: parts as u32 }
    }

    /// Full opacity.
    pub fn full() -> (o: Opacity)
        ensures
            o.parts() == OPACITY_ONE as int,
    {
        Opacity { parts: OPACITY_ONE }
    }

    /// The count of parts, which never exceeds `OPACITY_ONE`.
    pub fn get(self) -> (p: u32)
        ensures
            p as int == self.parts(),
            p <= OPACITY_ONE,
    {
        proof {
            use_type_invariant(self);
        }
        self.parts
    }
}

/// The opacity of a layer that names none: fully opaque.
pub fn default_opacity() -> (o: Opacity)
    ensures
        o.parts() == OPACITY_ONE as int,
{
    Opacity::full()
}

} // verus!
