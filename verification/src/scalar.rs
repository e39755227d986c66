//! The scalar capability: the numeric type that genes, weights and fitness
//! values are made of.
//!
//! The engine never computes on gene values itself; everything it needs from
//! the number type is gathered here, so callers choose the representation
//! (the crate ships a fixed-point representation on `i64`, and a binding to a
//! machine float type can be written outside the crate in the same way).
//! Each operation has a spec-level counterpart, so the engine's contracts
//! can say which value comes out of a weighted sum, a quantization, or a
//! rectifier, not only how many.

use vstd::prelude::*;

verus! {

/// What the engine asks of a gene value: a zero, a sum, a product, the
/// rectifier, and the quantization that the DNA codec uses.
///
/// Each executable operation returns exactly its spec-level counterpart, so
/// contracts over the engine pin the values that flow through it. Which
/// number the counterparts denote is the representation's business.
pub trait Scalar: Copy + Sized {
    /// What the additive unit denotes. The default leaves it unspecified;
    /// a verified implementation gives it a definition.
    open spec fn zero_spec() -> Self {
        arbitrary()
    }

    /// What the sum of two scalars denotes. The default leaves it
    /// unspecified; a verified implementation gives it a definition.
    open spec fn plus_spec(self, other: Self) -> Self {
        arbitrary()
    }

    /// What the product of two scalars denotes. The default leaves it
    /// unspecified; a verified implementation gives it a definition.
    open spec fn times_spec(self, other: Self) -> Self {
        arbitrary()
    }

    /// What the rectifier denotes. The default leaves it unspecified; a
    /// verified implementation gives it a definition.
    open spec fn relu_spec(self) -> Self {
        arbitrary()
    }

    /// What the quantized form of a gene denotes. The default leaves it
    /// unspecified; a verified implementation gives it a definition.
    open spec fn quantize_spec(self) -> u32 {
        arbitrary()
    }

    /// What gene a quantized value stands for. The default leaves it
    /// unspecified; a verified implementation gives it a definition.
    open spec fn dequantize_spec(value: u32) -> Self {
        arbitrary()
    }

    /// The additive unit, the seed of every weighted sum.
    fn zero() -> (r: Self)
        ensures
            r == Self::zero_spec(),
    ;

    /// The sum of two scalars.
    fn plus(self, other: Self) -> (r: Self)
        ensures
            r == self.plus_spec(other),
    ;

    /// The product of two scalars.
    fn times(self, other: Self) -> (r: Self)
        ensures
            r == self.times_spec(other),
    ;

    /// The rectifier: zero for a negative value, the value itself otherwise.
    fn relu(self) -> (r: Self)
        ensures
            r == self.relu_spec(),
    ;

    /// The quantized form of a gene, as the DNA codec stores it: the gene
    /// shifted up by one thousand and scaled to a resolution of one
    /// thousandth.
    fn quantize(self) -> (r: u32)
        ensures
            r == self.quantize_spec(),
    ;

    /// The gene that a quantized value stands for; the inverse of
    /// [`Scalar::quantize`] up to the quantization resolution.
    fn dequantize(value: u32) -> (r: Self)
        ensures
            r == Self::dequantize_spec(value),
    ;
}

/// The amount a quantized gene is shifted by: one thousand, scaled by the
/// thousandth-resolution.
pub const QUANT_SHIFT: i64 = 1_000_000;

/// `x` pulled to the nearest `i64`.
pub open spec fn clamp_i64_spec(x: int) -> i64 {
    if x > i64::MAX {
        i64::MAX
    } else if x < i64::MIN {
        i64::MIN
    } else {
        x as i64
    }
}

/// `x` pulled into the billion-thousandth window that keeps fixed-point
/// products inside `i64`.
pub open spec fn window_spec(x: i64) -> i64 {
    if x > 1_000_000_000 {
        1_000_000_000
    } else if x < -1_000_000_000 {
        (-1_000_000_000) as i64
    } else {
        x
    }
}

/// A fixed-point scalar: an `i64` counting thousandths. One unit of the
/// represented quantity is `1000`; the quantization used by the DNA codec is
/// exact on this type, so the whole engine can run on it without rounding.
impl Scalar for i64 {
    open spec fn zero_spec() -> i64 {
        0
    }

    open spec fn plus_spec(self, other: i64) -> i64 {
        clamp_i64_spec(self + other)
    }

    open spec fn times_spec(self, other: i64) -> i64 {
        let a = window_spec(self) as int;
        let b = window_spec(other) as int;
        let mag_a = if a < 0 { -a } else { a };
        let mag_b = if b < 0 { -b } else { b };
        let mag = (mag_a * mag_b) / 1000;
        if (a < 0) != (b < 0) {
            (-mag) as i64
        } else {
            mag as i64
        }
    }

    open spec fn relu_spec(self) -> i64 {
        if self < 0 {
            0
        } else {
            self
        }
    }

    open spec fn quantize_spec(self) -> u32 {
        if self < -QUANT_SHIFT {
            0
        } else if self > u32::MAX as i64 - QUANT_SHIFT {
            u32::MAX
        } else {
            (self + QUANT_SHIFT) as u32
        }
    }

    open spec fn dequantize_spec(value: u32) -> i64 {
        (value as i64 - QUANT_SHIFT) as i64
    }

    fn zero() -> i64 {
        0
    }

    fn plus(self, other: i64) -> i64 {
        let wide: i128 = self as i128 + other as i128;
        if wide > i64::MAX as i128 {
            i64::MAX
        } else if wide < i64::MIN as i128 {
            i64::MIN
        } else {
            wide as i64
        }
    }

    fn times(self, other: i64) -> (r: i64) {
        // Work inside a window where the product provably fits; magnitudes
        // beyond a billion thousandths saturate at the window's edge.
        let a = clamp_window(self);
        let b = clamp_window(other);
        let negative = (a < 0) != (b < 0);
        let mag_a = if a < 0 {
            -a
        } else {
            a
        };
        let mag_b = if b < 0 {
            -b
        } else {
            b
        };
        proof {
            assert(0 <= (mag_a as int) * (mag_b as int)
                <= 1_000_000_000_000_000_000) by (nonlinear_arith)
                requires
                    0 <= mag_a <= 1_000_000_000,
                    0 <= mag_b <= 1_000_000_000,
            ;
        }
        // thousandths times thousandths gives millionths; rescale once.
        let mag = (mag_a * mag_b) / 1000;
        if negative {
            -mag
        } else {
            mag
        }
    }

    fn relu(self) -> i64 {
        if self < 0 {
            0
        } else {
            self
        }
    }

    fn quantize(self) -> u32 {
        if self < -QUANT_SHIFT {
            0
        } else if self > u32::MAX as i64 - QUANT_SHIFT {
            u32::MAX
        } else {
            (self + QUANT_SHIFT) as u32
        }
    }

    fn dequantize(value: u32) -> i64 {
        value as i64 - QUANT_SHIFT
    }
}

/// On the fixed-point scalar the quantization loses nothing: dequantizing a
/// quantized gene gives the gene back, for every gene inside the codec's
/// window.
pub proof fn lemma_i64_quantization_exact(g: i64)
    requires
        -QUANT_SHIFT <= g <= u32::MAX as i64 - QUANT_SHIFT,
    ensures
        <i64 as Scalar>::dequantize_spec(g.quantize_spec()) == g,
{
}

/// `x` pulled into the billion-thousandth window that keeps fixed-point
/// products inside `i64`.
fn clamp_window(x: i64) -> (r: i64)
    ensures
        r == window_spec(x),
{
    if x > 1_000_000_000 {
        1_000_000_000
    } else if x < -1_000_000_000 {
        -1_000_000_000
    } else {
        x
    }
}

} // verus!
