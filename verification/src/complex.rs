//! A minimal complex-number value type over double-precision components held
//! as bit patterns.  Every operation returns a new value whose components are
//! pinned exactly, as the corresponding rounded scalar operations on the
//! operands' components.

use vstd::prelude::*;

use crate::scalar::add_bits;
use crate::scalar::div_bits;
use crate::scalar::lt_bits;
use crate::scalar::mul_bits;
use crate::scalar::neg_bits;
use crate::scalar::sqrt_bits;
use crate::scalar::sub_bits;
use crate::scalar::fx_add;
use crate::scalar::fx_div;
use crate::scalar::fx_mul;
use crate::scalar::fx_sqrt;
use crate::scalar::fx_sub;
use crate::scalar::flt_neg;
use crate::scalar::ONE_BITS;
use crate::scalar::ZERO_BITS;

verus! {

/// A complex number: real and imaginary double-precision components, each
/// carried as its 64-bit pattern.  Equality is equality of the bit patterns,
/// so 0.0 and -0.0 differ; the convergence logic never compares values this
/// way, it uses explicit tolerance comparisons.
#[derive(Clone, Copy, Debug, PartialEq, Eq, Structural)]
pub struct Complex {
    pub re: u64,
    pub im: u64,
}

/// The additive identity (0, 0).
pub open spec fn c_zero() -> Complex {
    Complex { re: ZERO_BITS, im: ZERO_BITS }
}

/// The multiplicative identity (1, 0).
pub open spec fn c_one() -> Complex {
    Complex { re: ONE_BITS, im: ZERO_BITS }
}

/// Componentwise rounded sum.
pub open spec fn c_add(a: Complex, b: Complex) -> Complex {
    Complex { re: add_bits(a.re, b.re), im: add_bits(a.im, b.im) }
}

/// Componentwise rounded difference.
pub open spec fn c_sub(a: Complex, b: Complex) -> Complex {
    Complex { re: sub_bits(a.re, b.re), im: sub_bits(a.im, b.im) }
}

/// Componentwise negation.
pub open spec fn c_neg(a: Complex) -> Complex {
    Complex { re: neg_bits(a.re), im: neg_bits(a.im) }
}

/// The rounded complex product:
/// (a.re * b.re - a.im * b.im, a.re * b.im + a.im * b.re).
pub open spec fn c_mul(a: Complex, b: Complex) -> Complex {
    Complex {
        re: sub_bits(mul_bits(a.re, b.re), mul_bits(a.im, b.im)),
        im: add_bits(mul_bits(a.re, b.im), mul_bits(a.im, b.re)),
    }
}

/// The rounded complex quotient, computed as a * conjugate(b) / |b|^2; when b
/// is (0, 0) the components become NaN or infinities per IEEE-754 division.
pub open spec fn c_div(a: Complex, b: Complex) -> Complex {
    let den = add_bits(mul_bits(b.re, b.re), mul_bits(b.im, b.im));
    Complex {
        re: div_bits(add_bits(mul_bits(a.re, b.re), mul_bits(a.im, b.im)), den),
        im: div_bits(sub_bits(mul_bits(a.im, b.re), mul_bits(a.re, b.im)), den),
    }
}

/// The rounded Euclidean magnitude, sqrt(re^2 + im^2), as a bit pattern.
pub open spec fn c_abs(a: Complex) -> u64 {
    sqrt_bits(add_bits(mul_bits(a.re, a.re), mul_bits(a.im, a.im)))
}

/// Repeated complex multiplication starting from the identity (1, 0), so that
/// an exponent of 0 yields (1, 0) for every base, including (0, 0).
pub open spec fn c_pow(a: Complex, e: nat) -> Complex
    decreases e,
{
    if e == 0 {
        c_one()
    } else {
        c_mul(c_pow(a, (e - 1) as nat), a)
    }
}

/// An exponent of 0 yields the multiplicative identity (1, 0) for every
/// base, including (0, 0): the convention 0^0 = 1 used by this algorithm.
pub proof fn lemma_pow_zero(a: Complex)
    ensures
        c_pow(a, 0) == c_one(),
{
}

impl Complex {
    /// Wrap two component bit patterns; always succeeds, no validation.
    pub fn new(re: u64, im: u64) -> (r: Complex)
        ensures
            r == (Complex { re: re, im: im }),
    {
        Complex { re: re, im: im }
    }

    /// Euclidean magnitude as a bit pattern.
    pub fn abs(&self) -> (r: u64)
        ensures
            r == c_abs(*self),
    {
        fx_sqrt(fx_add(fx_mul(self.re, self.re), fx_mul(self.im, self.im)))
    }

    /// Sum of two complex values.
    pub fn add(self, other: Complex) -> (r: Complex)
        ensures
            r == c_add(self, other),
    {
        Complex {
            re: fx_add(self.re, other.re),
            im: fx_add(self.im, other.im),
        }
    }

    /// Difference of two complex values.
    pub fn sub(self, other: Complex) -> (r: Complex)
        ensures
            r == c_sub(self, other),
    {
        Complex {
            re: fx_sub(self.re, other.re),
            im: fx_sub(self.im, other.im),
        }
    }

    /// Negation of a complex value.
    pub fn neg(self) -> (r: Complex)
        ensures
            r == c_neg(self),
    {
        Complex { re: flt_neg(self.re), im: flt_neg(self.im) }
    }

    /// Product of two complex values.
    pub fn mul(self, other: Complex) -> (r: Complex)
        ensures
            r == c_mul(self, other),
    {
        Complex {
            re: fx_sub(fx_mul(self.re, other.re), fx_mul(self.im, other.im)),
            im: fx_add(fx_mul(self.re, other.im), fx_mul(self.im, other.re)),
        }
    }

    /// Quotient of two complex values, a * conjugate(b) / |b|^2.
    pub fn div(self, other: Complex) -> (r: Complex)
        ensures
            r == c_div(self, other),
    {
        let den = fx_add(
            fx_mul(other.re, other.re),
            fx_mul(other.im, other.im),
        );
        Complex {
            re: fx_div(
                fx_add(fx_mul(self.re, other.re), fx_mul(self.im, other.im)),
                den,
            ),
            im: fx_div(
                fx_sub(fx_mul(self.im, other.re), fx_mul(self.re, other.im)),
                den,
            ),
        }
    }

    /// Non-negative integer exponentiation by repeated multiplication.
    pub fn pow(&self, e: usize) -> (r: Complex)
        ensures
            r == c_pow(*self, e as nat),
    {
        let mut res = Complex { re: ONE_BITS, im: ZERO_BITS };
        for i in 0..e
            invariant
                res == c_pow(*self, i as nat),
        {
            res = res.mul(*self);
        }
        res
    }

    /// The magnitude of the difference is below the given tolerance
    /// (a quiet `<`, so false when the magnitude is NaN).
    pub fn within(self, other: Complex, tol: u64) -> (r: bool)
        ensures
            r == lt_bits(c_abs(c_sub(self, other)), tol),
    {
        crate::scalar::flt_lt(self.sub(other).abs(), tol)
    }
}

} // verus!
