//! Tests of the complex arithmetic, the polynomial algebra and the fractal
//! engine, with expected values computed in hardware double precision and
//! compared bit for bit against the library's software arithmetic.

use newton_fractal::complex::Complex;
use newton_fractal::polynomial::Poly;
use newton_fractal::scalar::EPS_BITS;
use newton_fractal::ColorInfo;
use newton_fractal::NewtonFractal;

fn c(re: f64, im: f64) -> Complex {
    Complex::new(re.to_bits(), im.to_bits())
}

#[test]
fn test_add() {
    let c1 = c(3.0, 4.0); // 3 + 4i
    let c2 = c(1.0, 2.0); // 1 + 2i
    assert_eq!(c1.add(c2), c(4.0, 6.0));
}

#[test]
fn test_sub() {
    let c1 = c(3.0, 4.0); // 3 + 4i
    let c2 = c(1.0, 2.0); // 1 + 2i
    assert_eq!(c1.sub(c2), c(2.0, 2.0));
}

#[test]
fn test_mul() {
    let c1 = c(3.0, 4.0); // 3 + 4i
    let c2 = c(1.0, 2.0); // 1 + 2i
    assert_eq!(c1.mul(c2), c(-5.0, 10.0));
}

#[test]
fn test_abs() {
    let c1 = c(3.0, 4.0); // 3 + 4i
    let magnitude = c1.abs();
    assert_eq!(magnitude, 5.0f64.to_bits());
}

#[test]
fn test_from_coef() {
    let p = Poly::from_coef(vec![c(0.0, 0.0), c(0.0, 0.0), c(1.0, 0.0)]);
    assert_eq!(p.evaluate(c(2.0, 0.0)), c(4.0, 0.0));
}

#[test]
fn test_from_roots() {
    let p = Poly::from_roots(vec![c(-1.0, 0.0), c(1.0, 0.0)]);
    assert_eq!(p.evaluate(c(2.0, 0.0)), c(3.0, 0.0));
}

#[test]
fn test_neg() {
    assert_eq!(c(3.0, 4.0).neg(), c(-3.0, -4.0));
    assert_eq!(c(-0.5, 0.0).neg(), c(0.5, -0.0));
}

#[test]
fn test_div() {
    // (3 + 4i) / (1 + 2i) = (11 + (-2)i) / 5 = 2.2 - 0.4i
    let q = c(3.0, 4.0).div(c(1.0, 2.0));
    assert_eq!(q, c(11.0 / 5.0, -2.0 / 5.0));
}

#[test]
fn test_div_by_zero_is_nan() {
    let q = c(1.0, 0.0).div(c(0.0, 0.0));
    assert!(f64::from_bits(q.re).is_nan());
    assert!(f64::from_bits(q.im).is_nan());
}

#[test]
fn test_pow() {
    assert_eq!(c(2.0, 0.0).pow(10), c(1024.0, 0.0));
    // exponent 0 yields the identity for every base, including (0, 0)
    assert_eq!(c(0.0, 0.0).pow(0), c(1.0, 0.0));
    // (0, 1)^2 = -1
    assert_eq!(c(0.0, 1.0).pow(2), c(-1.0, 0.0));
}

#[test]
fn test_commutativity_concrete() {
    let pairs = [
        (c(3.0, 4.0), c(1.0, 2.0)),
        (c(0.1, -2.25), c(-7.5, 0.3)),
        (c(1e-300, 5.5), c(2.75, -1e300)),
    ];
    for &(a, b) in pairs.iter() {
        assert_eq!(a.add(b), b.add(a));
        assert_eq!(a.mul(b), b.mul(a));
        assert_eq!(a.sub(b), a.add(b.neg()));
    }
}

#[test]
fn test_matches_hardware_arithmetic() {
    // inexact values force rounding in every operation
    let (ar, ai) = (0.1f64, 0.2f64);
    let (br, bi) = (0.3f64, -0.7f64);
    let a = c(ar, ai);
    let b = c(br, bi);
    assert_eq!(a.add(b), c(ar + br, ai + bi));
    assert_eq!(a.sub(b), c(ar - br, ai - bi));
    assert_eq!(a.mul(b), c(ar * br - ai * bi, ar * bi + ai * br));
    let den = br * br + bi * bi;
    assert_eq!(
        a.div(b),
        c((ar * br + ai * bi) / den, (ai * br - ar * bi) / den)
    );
    assert_eq!(a.abs(), (ar * ar + ai * ai).sqrt().to_bits());
}

#[test]
fn test_eps_is_one_thousandth() {
    assert_eq!(EPS_BITS, 0.001f64.to_bits());
}

#[test]
fn test_derivative_degree() {
    // x^2 + 3x + 5 has 3 coefficients; its derivative 2x + 3 has 2
    let p = Poly::from_coef(vec![c(5.0, 0.0), c(3.0, 0.0), c(1.0, 0.0)]);
    let d = p.derivative();
    assert_eq!(d.coefficients().len(), 2);
    assert_eq!(d.coefficients()[0], c(3.0, 0.0));
    assert_eq!(d.coefficients()[1], c(2.0, 0.0));
    assert_eq!(d.evaluate(c(2.0, 0.0)), c(7.0, 0.0));
}

#[test]
fn test_constant_derivative_is_zero() {
    let p = Poly::from_coef(vec![c(7.0, 0.0)]);
    let d = p.derivative();
    assert_eq!(d.coefficients().len(), 0);
    assert_eq!(d.evaluate(c(123.25, -4.5)), c(0.0, 0.0));
}

#[test]
fn test_from_roots_coefficients() {
    // (x + 1)(x - 1) = x^2 - 1
    let p = Poly::from_roots(vec![c(-1.0, 0.0), c(1.0, 0.0)]);
    assert_eq!(p.coefficients().len(), 3);
    assert_eq!(p.coefficients()[0], c(-1.0, 0.0));
    assert_eq!(p.coefficients()[1], c(0.0, 0.0));
    assert_eq!(p.coefficients()[2], c(1.0, 0.0));
}

#[test]
fn test_empty_polynomial_evaluates_to_zero() {
    let p = Poly::from_coef(vec![]);
    assert_eq!(p.evaluate(c(2.0, 3.0)), c(0.0, 0.0));
}

#[test]
fn test_fractal_classification() {
    // a 4x4 grid over [-2, 2) x [-2, 2): pixel (px, py) samples (px - 2, py - 2)
    let roots = vec![c(1.0, 0.0), c(-1.0, 0.0)];
    let f = NewtonFractal::new(roots, (-2.0f64).to_bits(), 2.0f64.to_bits(), (-2.0f64).to_bits(), 2.0f64.to_bits(), 4, 4, 20);
    let buf = f.colors();
    assert_eq!(buf.len(), 16);
    // pixel (3, 2) samples (1, 0), exactly at root 0: converges with 0 steps
    assert_eq!(buf[2 * 4 + 3], ColorInfo { color_id: 0, iterations: 0 });
    // pixel (1, 2) samples (-1, 0), exactly at root 1
    assert_eq!(buf[2 * 4 + 1], ColorInfo { color_id: 1, iterations: 0 });
    // pixel (2, 2) samples the origin: within the tolerance of the origin, so
    // it leaves immediately as unclassified (sentinel = root count)
    assert_eq!(buf[2 * 4 + 2], ColorInfo { color_id: 2, iterations: 0 });
    // a pixel away from every root takes at least one step
    let far = buf[0];
    assert!(far.iterations >= 1);
    assert!(far.color_id <= 2);
}

fn add2(a: (f64, f64), b: (f64, f64)) -> (f64, f64) {
    (a.0 + b.0, a.1 + b.1)
}

fn sub2(a: (f64, f64), b: (f64, f64)) -> (f64, f64) {
    (a.0 - b.0, a.1 - b.1)
}

fn mul2(a: (f64, f64), b: (f64, f64)) -> (f64, f64) {
    (a.0 * b.0 - a.1 * b.1, a.0 * b.1 + a.1 * b.0)
}

fn div2(a: (f64, f64), b: (f64, f64)) -> (f64, f64) {
    let den = b.0 * b.0 + b.1 * b.1;
    ((a.0 * b.0 + a.1 * b.1) / den, (a.1 * b.0 - a.0 * b.1) / den)
}

fn abs2(a: (f64, f64)) -> f64 {
    (a.0 * a.0 + a.1 * a.1).sqrt()
}

fn pow2(a: (f64, f64), e: usize) -> (f64, f64) {
    let mut r = (1.0f64, 0.0f64);
    for _ in 0..e {
        r = mul2(r, a);
    }
    r
}

fn eval2(p: &[(f64, f64)], x: (f64, f64)) -> (f64, f64) {
    let mut y = (0.0f64, 0.0f64);
    for (i, &a) in p.iter().enumerate() {
        y = add2(y, mul2(a, pow2(x, i)));
    }
    y
}

#[test]
fn test_fractal_matches_reference_iteration() {
    // classify one pixel by hand, in hardware floats, step for step in the
    // library's operation order: start at (-2, -2), P(x) = x^2 - 1
    let roots = [(1.0f64, 0.0f64), (-1.0f64, 0.0f64)];
    let p = [(-1.0f64, 0.0f64), (0.0f64, 0.0f64), (1.0f64, 0.0f64)];
    let d = [(0.0f64, 0.0f64), (2.0f64, 0.0f64)];
    let eps = 0.001f64;
    let mut cur = (-2.0f64, -2.0f64);
    let mut iter: u8 = 0;
    let max: u8 = 20;
    let mut root_id: u8 = 2;
    while abs2(cur) > eps && iter < max {
        let mut hit: Option<u8> = None;
        for (k, &r) in roots.iter().enumerate() {
            if abs2(sub2(cur, r)) < eps {
                hit = Some(k as u8);
                break;
            }
        }
        if let Some(k) = hit {
            root_id = k;
            break;
        }
        cur = sub2(cur, div2(eval2(&p, cur), eval2(&d, cur)));
        iter += 1;
    }
    let f = NewtonFractal::new(
        vec![c(1.0, 0.0), c(-1.0, 0.0)],
        (-2.0f64).to_bits(), 2.0f64.to_bits(), (-2.0f64).to_bits(), 2.0f64.to_bits(),
        4, 4, 20,
    );
    assert_eq!(f.colors()[0], ColorInfo { color_id: root_id, iterations: iter });
}

#[test]
fn test_fractal_idempotent() {
    let args = |v: f64| v.to_bits();
    let f1 = NewtonFractal::new(
        vec![c(1.0, 0.5), c(-1.0, 0.25), c(0.0, -1.5)],
        args(-1.5), args(1.25), args(-2.0), args(1.75),
        8, 5, 30,
    );
    let f2 = NewtonFractal::new(
        vec![c(1.0, 0.5), c(-1.0, 0.25), c(0.0, -1.5)],
        args(-1.5), args(1.25), args(-2.0), args(1.75),
        8, 5, 30,
    );
    assert_eq!(f1.colors().len(), 40);
    for i in 0..40 {
        assert_eq!(f1.colors()[i], f2.colors()[i]);
    }
}

#[test]
fn test_fractal_empty_roots_all_unclassified() {
    // with no roots, the sentinel is 0 and nothing ever matches
    let f = NewtonFractal::new(
        vec![],
        (-1.0f64).to_bits(), 1.0f64.to_bits(), (-1.0f64).to_bits(), 1.0f64.to_bits(),
        2, 2, 3,
    );
    for i in 0..4 {
        assert_eq!(f.colors()[i].color_id, 0);
    }
}

#[test]
fn test_fractal_zero_size_grid() {
    let f = NewtonFractal::new(
        vec![c(1.0, 0.0)],
        (-1.0f64).to_bits(), 1.0f64.to_bits(), (-1.0f64).to_bits(), 1.0f64.to_bits(),
        0, 7, 5,
    );
    assert_eq!(f.colors().len(), 0);
}
