//! A Newton-fractal engine: for each pixel of a viewport mapped onto the
//! complex plane, run Newton's root-finding method on the monic polynomial
//! built from a user-supplied root set, and record which root the iteration
//! converged to (or the sentinel equal to the root count if none) and how many
//! steps it took.  The whole computation is pinned exactly, bit for bit, as a
//! function of its inputs.

use vstd::prelude::*;

use vstd::arithmetic::div_mod::lemma_fundamental_div_mod;
use vstd::arithmetic::div_mod::lemma_mod_bound;

use crate::complex::c_abs;
use crate::complex::c_div;
use crate::complex::c_sub;
use crate::complex::Complex;
use crate::polynomial::poly_derivative;
use crate::polynomial::poly_eval;
use crate::polynomial::poly_from_roots;
use crate::polynomial::Poly;
use crate::scalar::add_bits;
use crate::scalar::div_bits;
use crate::scalar::from_uint_bits;
use crate::scalar::fx_add;
use crate::scalar::fx_div;
use crate::scalar::fx_from_uint;
use crate::scalar::fx_mul;
use crate::scalar::fx_sub;
use crate::scalar::gt_bits;
use crate::scalar::lt_bits;
use crate::scalar::mul_bits;
use crate::scalar::sub_bits;
use crate::scalar::EPS_BITS;

pub mod complex;
pub mod polynomial;
pub mod scalar;

verus! {

/// The classification of one pixel: the index of the root the iteration
/// converged to (or the root count as a sentinel for no convergence), and the
/// number of Newton steps performed.
#[derive(Clone, Copy, Debug, PartialEq, Eq, Structural)]
pub struct ColorInfo {
    pub color_id: u8,
    pub iterations: u8,
}

/// The least index at or after `k` whose root lies within the tolerance of
/// `c`, if any: the scan order of the classifier.
pub open spec fn first_root_from(c: Complex, roots: Seq<Complex>, k: int) -> Option<int>
    decreases roots.len() - k,
{
    if k < 0 || k >= roots.len() {
        None
    } else if lt_bits(c_abs(c_sub(c, roots[k])), EPS_BITS) {
        Some(k)
    } else {
        first_root_from(c, roots, k + 1)
    }
}

/// The least root index whose root lies within the tolerance of `c`, if any.
pub open spec fn first_root(c: Complex, roots: Seq<Complex>) -> Option<int> {
    first_root_from(c, roots, 0)
}

/// One Newton step: c - P(c) / P'(c).
pub open spec fn newton_next(c: Complex, p: Seq<Complex>, d: Seq<Complex>) -> Complex {
    c_sub(c, c_div(poly_eval(p, c), poly_eval(d, c)))
}

/// The classification reached from state `c` after `iter` steps already
/// taken: while the magnitude of `c` exceeds the tolerance and the budget is
/// not exhausted, stop at the first root within the tolerance, else take a
/// Newton step; leaving the loop without a match yields the sentinel
/// `roots.len()`.  The result is (root id, steps taken).
pub open spec fn newton_steps(c: Complex, roots: Seq<Complex>, p: Seq<Complex>, d: Seq<Complex>, iter: nat, max: nat) -> (int, int)
    decreases max - iter,
{
    if !gt_bits(c_abs(c), EPS_BITS) || iter >= max {
        (roots.len() as int, iter as int)
    } else {
        match first_root(c, roots) {
            Some(i) => (i, iter as int),
            None => newton_steps(newton_next(c, p, d), roots, p, d, iter + 1, max),
        }
    }
}

/// A match found by the scan lies at or after its starting index and within
/// the root sequence.
proof fn lemma_first_root_from_bounds(c: Complex, roots: Seq<Complex>, k: int)
    requires
        0 <= k,
    ensures
        match first_root_from(c, roots, k) {
            Some(i) => k <= i < roots.len(),
            None => true,
        },
    decreases roots.len() - k,
{
    if k < roots.len() && !lt_bits(c_abs(c_sub(c, roots[k])), EPS_BITS) {
        lemma_first_root_from_bounds(c, roots, k + 1);
    }
}

/// Every classification lies in range: the root id is at most the root count
/// (that value being the sentinel for no convergence), and the number of
/// steps taken lies between the steps already taken and the budget.
pub proof fn lemma_newton_steps_bounds(c: Complex, roots: Seq<Complex>, p: Seq<Complex>, d: Seq<Complex>, iter: nat, max: nat)
    requires
        iter <= max,
    ensures
        ({
            let r = newton_steps(c, roots, p, d, iter, max);
            0 <= r.0 <= roots.len() && iter <= r.1 <= max
        }),
    decreases max - iter,
{
    if gt_bits(c_abs(c), EPS_BITS) && iter < max {
        match first_root(c, roots) {
            Some(i) => {
                lemma_first_root_from_bounds(c, roots, 0);
            },
            None => {
                lemma_newton_steps_bounds(newton_next(c, p, d), roots, p, d, iter + 1, max);
            },
        }
    }
}

/// The sample point of pixel (px, py): the linear map of the grid coordinates
/// onto the viewport rectangle, each coordinate computed as
/// low + (index / extent) * (high - low) in rounded double precision.
pub open spec fn pixel_point(px: int, py: int, x1: u64, x2: u64, y1: u64, y2: u64, width: int, height: int) -> Complex {
    Complex {
        re: add_bits(x1, mul_bits(div_bits(from_uint_bits(px as u64), from_uint_bits(width as u64)), sub_bits(x2, x1))),
        im: add_bits(y1, mul_bits(div_bits(from_uint_bits(py as u64), from_uint_bits(height as u64)), sub_bits(y2, y1))),
    }
}

/// The classification of pixel (px, py): the Newton iteration started at the
/// pixel's sample point, against the polynomial built from the root set and
/// its derivative, with a fresh step count.
pub open spec fn pixel_class(px: int, py: int, roots: Seq<Complex>, x1: u64, x2: u64, y1: u64, y2: u64, width: int, height: int, max: nat) -> ColorInfo {
    let p = poly_from_roots(roots);
    let d = poly_derivative(p);
    let r = newton_steps(pixel_point(px, py, x1, x2, y1, y2, width, height), roots, p, d, 0, max);
    ColorInfo { color_id: r.0 as u8, iterations: r.1 as u8 }
}

/// The whole image: a flat row-major buffer of length height * width whose
/// entry at row * width + column is that pixel's classification.
pub open spec fn fractal_spec(roots: Seq<Complex>, x1: u64, x2: u64, y1: u64, y2: u64, width: nat, height: nat, max: nat) -> Seq<ColorInfo> {
    Seq::new(
        height * width,
        |idx: int| pixel_class(idx % (width as int), idx / (width as int), roots, x1, x2, y1, y2, width as int, height as int, max),
    )
}

/// The classification buffer is a function of the inputs alone: two buffers
/// computed from the same root set, viewport, resolution and budget are
/// identical, bit for bit.
pub proof fn lemma_fractal_deterministic(b1: Seq<ColorInfo>, b2: Seq<ColorInfo>, roots: Seq<Complex>, x1: u64, x2: u64, y1: u64, y2: u64, width: nat, height: nat, max: nat)
    requires
        b1 == fractal_spec(roots, x1, x2, y1, y2, width, height, max),
        b2 == fractal_spec(roots, x1, x2, y1, y2, width, height, max),
    ensures
        b1 == b2,
{
}

/// A computed Newton fractal: the per-pixel classification buffer, row-major,
/// origin at the top-left pixel.
pub struct NewtonFractal {
    colors: Vec<ColorInfo>,
}

impl View for NewtonFractal {
    type V = Seq<ColorInfo>;

    closed spec fn view(&self) -> Seq<ColorInfo> {
        self.colors@
    }
}

impl NewtonFractal {
    /// Classify one sample point: scan the roots in order for one within the
    /// tolerance, else take a Newton step, while the point's magnitude
    /// exceeds the tolerance and steps remain in the budget.
    fn newton_iteration(x: u64, y: u64, roots: &Vec<Complex>, p: &Poly, d: &Poly, max_iterations: u8) -> (r: ColorInfo)
        requires
            roots@.len() <= u8::MAX,
        ensures
            ({
                let res = newton_steps(Complex { re: x, im: y }, roots@, p@, d@, 0, max_iterations as nat);
                r.color_id as int == res.0 && r.iterations as int == res.1
            }),
    {
        let mut c = Complex::new(x, y);
        let mut iter: u8 = 0;
        let nroots: u8 = roots.len() as u8;
        loop
            invariant
                roots@.len() <= u8::MAX,
                nroots as int == roots@.len(),
                iter <= max_iterations,
                newton_steps(Complex { re: x, im: y }, roots@, p@, d@, 0, max_iterations as nat)
                    == newton_steps(c, roots@, p@, d@, iter as nat, max_iterations as nat),
            decreases max_iterations - iter,
        {
            let a = c.abs();
            if !crate::scalar::flt_gt(a, EPS_BITS) || iter >= max_iterations {
                return ColorInfo { color_id: nroots, iterations: iter };
            }
            for k in 0..roots.len()
                invariant
                    roots@.len() <= u8::MAX,
                    nroots as int == roots@.len(),
                    iter < max_iterations,
                    gt_bits(c_abs(c), EPS_BITS),
                    newton_steps(Complex { re: x, im: y }, roots@, p@, d@, 0, max_iterations as nat)
                        == newton_steps(c, roots@, p@, d@, iter as nat, max_iterations as nat),
                    first_root(c, roots@) == first_root_from(c, roots@, k as int),
            {
                if c.within(roots[k], EPS_BITS) {
                    return ColorInfo { color_id: k as u8, iterations: iter };
                }
            }
            c = c.sub(p.evaluate(c).div(d.evaluate(c)));
            iter = iter + 1;
        }
    }

    /// Compute the fractal: build the polynomial from the root set and its
    /// derivative once, then classify every pixel of the height * width grid
    /// independently, row-major.  The root count must fit the `u8` root-id
    /// range, and the buffer length must fit `usize`.
    #[verifier::loop_isolation(false)]
    pub fn new(roots: Vec<Complex>, x1: u64, x2: u64, y1: u64, y2: u64, height: usize, width: usize, iterations: u8) -> (r: NewtonFractal)
        requires
            roots@.len() <= u8::MAX,
            height * width <= usize::MAX,
        ensures
            r@.len() == height * width,
            forall|px: int, py: int| 0 <= px < width && 0 <= py < height ==>
                r@[py * width + px] == pixel_class(px, py, roots@, x1, x2, y1, y2, width as int, height as int, iterations as nat),
            r@ == fractal_spec(roots@, x1, x2, y1, y2, width as nat, height as nat, iterations as nat),
    {
        let cloned = roots.clone();
        proof {
            assert(cloned@ =~= roots@);
        }
        let p = Poly::from_roots(cloned);
        let d = p.derivative();
        let mut colors: Vec<ColorInfo> = Vec::new();
        let mut py: usize = 0;
        while py < height
            invariant
                roots@.len() <= u8::MAX,
                height * width <= usize::MAX,
                p@ == poly_from_roots(roots@),
                d@ == poly_derivative(p@),
                py <= height,
                colors@.len() == py * width,
                forall|qx: int, qy: int| 0 <= qx < width && 0 <= qy < py ==>
                    colors@[qy * width + qx] == pixel_class(qx, qy, roots@, x1, x2, y1, y2, width as int, height as int, iterations as nat),
            decreases height - py,
        {
            proof {
                assert(py * width + width == (py + 1) * width) by (nonlinear_arith);
                assert((py + 1) * width <= height * width) by (nonlinear_arith)
                    requires
                        py + 1 <= height,
                        0 <= width,
                ;
            }
            let mut px: usize = 0;
            while px < width
                invariant
                    roots@.len() <= u8::MAX,
                    height * width <= usize::MAX,
                    p@ == poly_from_roots(roots@),
                    d@ == poly_derivative(p@),
                    0 <= py < height,
                    px <= width,
                    colors@.len() == py * width + px,
                    py * width + width <= height * width,
                    forall|qx: int, qy: int| 0 <= qx < width && 0 <= qy < py ==>
                        colors@[qy * width + qx] == pixel_class(qx, qy, roots@, x1, x2, y1, y2, width as int, height as int, iterations as nat),
                    forall|qx: int| 0 <= qx < px ==>
                        colors@[py * width + qx] == pixel_class(qx, py as int, roots@, x1, x2, y1, y2, width as int, height as int, iterations as nat),
                decreases width - px,
            {
                let xb = fx_add(x1, fx_mul(fx_div(fx_from_uint(px as u64), fx_from_uint(width as u64)), fx_sub(x2, x1)));
                let yb = fx_add(y1, fx_mul(fx_div(fx_from_uint(py as u64), fx_from_uint(height as u64)), fx_sub(y2, y1)));
                let ci = Self::newton_iteration(xb, yb, &roots, &p, &d, iterations);
                proof {
                    lemma_newton_steps_bounds(
                        pixel_point(px as int, py as int, x1, x2, y1, y2, width as int, height as int),
                        roots@, p@, d@, 0, iterations as nat,
                    );
                }
                colors.push(ci);
                proof {
                    assert forall|qx: int, qy: int| 0 <= qx < width && 0 <= qy < py implies
                        #[trigger] (qy * width + qx) < py * width by {
                        assert(qy * width + qx < (qy + 1) * width) by (nonlinear_arith)
                            requires
                                0 <= qx < width,
                                0 <= qy,
                        ;
                        assert((qy + 1) * width <= py * width) by (nonlinear_arith)
                            requires
                                qy + 1 <= py,
                                0 <= width,
                        ;
                    };
                }
                px = px + 1;
            }
            proof {
                assert forall|qx: int, qy: int| 0 <= qx < width && 0 <= qy < py + 1 implies
                    colors@[qy * width + qx] == pixel_class(qx, qy, roots@, x1, x2, y1, y2, width as int, height as int, iterations as nat) by {
                    if qy == py as int {
                        assert(colors@[py * width + qx] == pixel_class(qx, py as int, roots@, x1, x2, y1, y2, width as int, height as int, iterations as nat));
                    }
                };
            }
            py = py + 1;
        }
        proof {
            let w = width as int;
            let h = height as int;
            let img = fractal_spec(roots@, x1, x2, y1, y2, width as nat, height as nat, iterations as nat);
            assert(colors@.len() == img.len());
            assert forall|idx: int| 0 <= idx < colors@.len() implies colors@[idx] == img[idx] by {
                assert(w > 0) by (nonlinear_arith)
                    requires
                        0 <= w,
                        0 <= h,
                        h * w > 0,
                ;
                lemma_fundamental_div_mod(idx, w);
                lemma_mod_bound(idx, w);
                let qy = idx / w;
                let qx = idx % w;
                assert(0 <= qy < h) by (nonlinear_arith)
                    requires
                        w > 0,
                        0 <= idx < h * w,
                        idx == w * qy + qx,
                        0 <= qx < w,
                ;
                assert(idx == qy * w + qx);
                assert(colors@[qy * w + qx] == pixel_class(qx, qy, roots@, x1, x2, y1, y2, w, h, iterations as nat));
            };
            assert(colors@ =~= img);
        }
        NewtonFractal { colors }
    }

    /// The classification buffer, row-major, entry at row * width + column.
    pub fn colors(&self) -> (r: &Vec<ColorInfo>)
        ensures
            r@ == self@,
    {
        &self.colors
    }
}

} // verus!

