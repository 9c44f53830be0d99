//! Polynomials over the complex type: an ordered coefficient sequence, index
//! equal to the power of the variable.  Construction from a root set expands
//! the product of monic linear factors; evaluation, differentiation and
//! multiplication are pinned exactly, operation by operation, in the rounded
//! complex arithmetic of the coefficient type.

use vstd::prelude::*;

use crate::complex::c_add;
use crate::complex::c_mul;
use crate::complex::c_neg;
use crate::complex::c_one;
use crate::complex::c_pow;
use crate::complex::c_zero;
use crate::complex::Complex;
use crate::scalar::from_uint_bits;
use crate::scalar::fx_from_uint;
use crate::scalar::ONE_BITS;
use crate::scalar::ZERO_BITS;

verus! {

/// The complex value of the unsigned integer `n`: its nearest double as the
/// real component, zero as the imaginary one.
pub open spec fn c_from_uint(n: u64) -> Complex {
    Complex { re: from_uint_bits(n), im: ZERO_BITS }
}

/// The sum of the first `n` terms coefficient * x^power, accumulated in
/// ascending power order starting from (0, 0), exactly as evaluation performs
/// it.
pub open spec fn eval_prefix(s: Seq<Complex>, x: Complex, n: nat) -> Complex
    decreases n,
{
    if n == 0 {
        c_zero()
    } else {
        c_add(eval_prefix(s, x, (n - 1) as nat), c_mul(s[n - 1], c_pow(x, (n - 1) as nat)))
    }
}

/// The value of the polynomial with coefficients `s` at the point `x`.
pub open spec fn poly_eval(s: Seq<Complex>, x: Complex) -> Complex {
    eval_prefix(s, x, s.len())
}

/// The coefficient sequence of the derivative: entry `j` is
/// coefficient `j + 1` times the complex value of `j + 1`; differentiating a
/// constant or empty polynomial yields the empty polynomial.
pub open spec fn poly_derivative(s: Seq<Complex>) -> Seq<Complex> {
    Seq::new(
        if s.len() == 0 { 0 } else { (s.len() - 1) as nat },
        |j: int| c_mul(s[j + 1], c_from_uint((j + 1) as u64)),
    )
}

/// An all-zero coefficient buffer of the given length.
pub open spec fn mul_init(n: nat) -> Seq<Complex> {
    Seq::new(n, |j: int| c_zero())
}

/// The product buffer after row `i` has accumulated its first `j` terms: for
/// each one, entry `i + j` becomes its old value plus `p[i] * q[j]`, in
/// ascending `j` order.
pub open spec fn mul_row(acc: Seq<Complex>, p: Seq<Complex>, q: Seq<Complex>, i: int, j: nat) -> Seq<Complex>
    decreases j,
{
    if j == 0 {
        acc
    } else {
        let prev = mul_row(acc, p, q, i, (j - 1) as nat);
        prev.update(i + j - 1, c_add(prev[i + j - 1], c_mul(p[i], q[j - 1])))
    }
}

/// The product buffer after the first `i` rows have fully accumulated, row by
/// row in ascending `i` order, starting from the all-zero buffer.
pub open spec fn mul_rows(p: Seq<Complex>, q: Seq<Complex>, i: nat) -> Seq<Complex>
    decreases i,
{
    if i == 0 {
        mul_init((p.len() + q.len() - 1) as nat)
    } else {
        mul_row(mul_rows(p, q, (i - 1) as nat), p, q, i - 1, q.len())
    }
}

/// The convolution of the two coefficient sequences, accumulated in exactly
/// the order multiplication performs it.
pub open spec fn poly_mul(p: Seq<Complex>, q: Seq<Complex>) -> Seq<Complex> {
    mul_rows(p, q, p.len())
}

/// The monic product of the first `n` linear factors (x - root): the constant
/// polynomial [1] multiplied by [-root, 1] for each root in order.
pub open spec fn roots_prefix(roots: Seq<Complex>, n: nat) -> Seq<Complex>
    decreases n,
{
    if n == 0 {
        seq![c_one()]
    } else {
        poly_mul(roots_prefix(roots, (n - 1) as nat), seq![c_neg(roots[n - 1]), c_one()])
    }
}

/// The coefficient sequence of the monic polynomial whose roots are `roots`.
pub open spec fn poly_from_roots(roots: Seq<Complex>) -> Seq<Complex> {
    roots_prefix(roots, roots.len())
}

/// Accumulating a row term by term never changes the buffer's length.
pub proof fn lemma_mul_row_len(acc: Seq<Complex>, p: Seq<Complex>, q: Seq<Complex>, i: int, j: nat)
    requires
        0 <= i,
        i + j <= acc.len(),
    ensures
        mul_row(acc, p, q, i, j).len() == acc.len(),
    decreases j,
{
    if j > 0 {
        lemma_mul_row_len(acc, p, q, i, (j - 1) as nat);
    }
}

/// The product of sequences of lengths m and n (not both empty) has length
/// m + n - 1.
pub proof fn lemma_mul_rows_len(p: Seq<Complex>, q: Seq<Complex>, i: nat)
    requires
        p.len() + q.len() >= 1,
        i <= p.len(),
    ensures
        mul_rows(p, q, i).len() == p.len() + q.len() - 1,
    decreases i,
{
    if i > 0 {
        lemma_mul_rows_len(p, q, (i - 1) as nat);
        lemma_mul_row_len(mul_rows(p, q, (i - 1) as nat), p, q, i - 1, q.len());
    }
}

/// A polynomial built from n roots has exactly n + 1 coefficients.
pub proof fn lemma_roots_prefix_len(roots: Seq<Complex>, n: nat)
    ensures
        roots_prefix(roots, n).len() == n + 1,
    decreases n,
{
    if n > 0 {
        lemma_roots_prefix_len(roots, (n - 1) as nat);
        lemma_mul_rows_len(roots_prefix(roots, (n - 1) as nat), seq![c_neg(roots[n - 1]), c_one()], (n) as nat);
        assert(roots_prefix(roots, (n - 1) as nat).len() == n);
    }
}

/// A polynomial of degree d (d + 1 coefficients, d >= 1) has a derivative of
/// degree d - 1 (d coefficients); a constant or empty polynomial has the
/// empty polynomial as derivative.
pub proof fn lemma_derivative_degree(s: Seq<Complex>)
    ensures
        s.len() >= 1 ==> poly_derivative(s).len() == s.len() - 1,
        s.len() == 0 ==> poly_derivative(s).len() == 0,
{
}

/// The derivative of a degree-0 (constant) or empty polynomial evaluates to
/// (0, 0) at every point.
pub proof fn lemma_constant_derivative_is_zero(s: Seq<Complex>, x: Complex)
    requires
        s.len() <= 1,
    ensures
        poly_eval(poly_derivative(s), x) == c_zero(),
{
}

/// A polynomial: an ordered sequence of complex coefficients, index `i` being
/// the coefficient of the variable raised to power `i`.
pub struct Poly {
    a: Vec<Complex>,
}

impl View for Poly {
    type V = Seq<Complex>;

    closed spec fn view(&self) -> Seq<Complex> {
        self.a@
    }
}

impl Poly {
    /// Wrap a coefficient sequence as-is.
    pub fn from_coef(a: Vec<Complex>) -> (r: Poly)
        ensures
            r@ == a@,
    {
        Poly { a }
    }

    /// Build the monic polynomial whose roots are `roots`, by multiplying the
    /// accumulator, starting at the constant polynomial [1], by the monic
    /// linear factor [-root, 1] for each root in order.
    pub fn from_roots(roots: Vec<Complex>) -> (r: Poly)
        requires
            roots@.len() + 2 <= usize::MAX,
        ensures
            r@ == poly_from_roots(roots@),
    {
        let mut p = Poly::from_coef(vec![Complex::new(ONE_BITS, ZERO_BITS)]);
        for k in 0..roots.len()
            invariant
                p@ == roots_prefix(roots@, k as nat),
                roots@.len() + 2 <= usize::MAX,
        {
            proof {
                lemma_roots_prefix_len(roots@, k as nat);
            }
            let factor = Poly::from_coef(vec![roots[k].neg(), Complex::new(ONE_BITS, ZERO_BITS)]);
            p = p.mul(factor);
        }
        p
    }

    /// The coefficient sequence, index equal to power.
    pub fn coefficients(&self) -> (r: &Vec<Complex>)
        ensures
            r@ == self@,
    {
        &self.a
    }

    /// The value of the polynomial at `x`: the sum of coefficient * x^power
    /// over all coefficients, in ascending power order.
    pub fn evaluate(&self, x: Complex) -> (r: Complex)
        ensures
            r == poly_eval(self@, x),
    {
        let mut y = Complex::new(ZERO_BITS, ZERO_BITS);
        for i in 0..self.a.len()
            invariant
                y == eval_prefix(self@, x, i as nat),
        {
            y = y.add(self.a[i].mul(x.pow(i)));
        }
        y
    }

    /// The derivative: coefficient `i + 1` times the complex value of `i + 1`,
    /// at index `i`; a constant polynomial yields the empty polynomial, whose
    /// evaluation is (0, 0) everywhere.
    pub fn derivative(&self) -> (r: Poly)
        ensures
            r@ == poly_derivative(self@),
    {
        let mut b: Vec<Complex> = Vec::new();
        let len = self.a.len();
        if len >= 1 {
            for i in 1..len
                invariant
                    len == self@.len(),
                    b@.len() == i - 1,
                    forall|j: int| 0 <= j < i - 1 ==> b@[j] == c_mul(self@[j + 1], c_from_uint((j + 1) as u64)),
            {
                let factor = Complex::new(fx_from_uint(i as u64), ZERO_BITS);
                b.push(self.a[i].mul(factor));
            }
        }
        proof {
            assert(b@ =~= poly_derivative(self@));
        }
        Poly { a: b }
    }

    /// The convolution of the two coefficient sequences: a buffer of length
    /// m + n - 1 starts at zero, and entry `i + j` accumulates `p[i] * q[j]`
    /// for every pair, rows in order, each row in ascending order.
    pub fn mul(self, o: Poly) -> (r: Poly)
        requires
            self@.len() + o@.len() >= 1,
            self@.len() + o@.len() - 1 <= usize::MAX,
        ensures
            r@ == poly_mul(self@, o@),
    {
        let n: usize = if o.a.len() == 0 {
            self.a.len() - 1
        } else {
            self.a.len() + (o.a.len() - 1)
        };
        let mut b: Vec<Complex> = Vec::new();
        for k in 0..n
            invariant
                b@.len() == k,
                forall|t: int| 0 <= t < k ==> b@[t] == c_zero(),
        {
            b.push(Complex::new(ZERO_BITS, ZERO_BITS));
        }
        proof {
            assert(b@ =~= mul_init(n as nat));
        }
        for i in 0..self.a.len()
            invariant
                self@.len() + o@.len() - 1 == n,
                b@.len() == n,
                b@ == mul_rows(self@, o@, i as nat),
        {
            for j in 0..o.a.len()
                invariant
                    self@.len() + o@.len() - 1 == n,
                    b@.len() == n,
                    0 <= i < self@.len(),
                    b@ == mul_row(mul_rows(self@, o@, i as nat), self@, o@, i as int, j as nat),
            {
                let idx = i + j;
                let v = b[idx].add(self.a[i].mul(o.a[j]));
                b.set(idx, v);
                proof {
                    lemma_mul_rows_len(self@, o@, i as nat);
                    lemma_mul_row_len(mul_rows(self@, o@, i as nat), self@, o@, i as int, j as nat);
                    lemma_mul_row_len(mul_rows(self@, o@, i as nat), self@, o@, i as int, (j + 1) as nat);
                }
            }
            proof {
                lemma_mul_rows_len(self@, o@, i as nat);
                lemma_mul_row_len(mul_rows(self@, o@, i as nat), self@, o@, i as int, o@.len());
            }
        }
        Poly { a: b }
    }
}

} // verus!
