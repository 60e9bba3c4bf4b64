use feedforward::fx::{Fx, fx_add, fx_div, fx_mul, fx_sub, ONE_RAW};
use feedforward::activation::{Activation, LeakyReLU, Linear, ReLU, Sigmoid, SoftPlus};
use feedforward::dense::Dense;
use feedforward::layer::{Layer, NetError};

fn fx(v: f64) -> Fx {
    Fx::from_raw((v * 4294967296.0).round() as i64)
}

fn f(x: Fx) -> f64 {
    x.raw() as f64 / 4294967296.0
}

fn assert_approx(a: f64, b: f64, precision: f64) {
    assert!((a - b).abs() < precision, "{} != {}", a, b);
}

#[test]
fn test_sigmoid() {
    let mut y = Sigmoid.activate(fx(0.0));
    assert_eq!(y, fx(0.5));
    y = Sigmoid.activate(fx(2.0));
    assert_approx(f(y), 0.8807970779778823, 0.0001);
}

#[test]
fn test_forward() {
    let l_weights = vec![fx(1.74481176), fx(-0.7612069), fx(0.3190391), fx(-0.24937038)];
    let mut l = Dense::new(3, 1, Sigmoid, Some(l_weights)).unwrap();

    let x1 = vec![fx(1.62434536), fx(-0.52817175), fx(0.86540763)];
    let y1 = 0.96313579;
    let z1 = l.forward(&x1);
    assert_approx(y1, f(z1[0]), 0.001);

    let x2 = vec![fx(-0.61175641), fx(-1.07296862), fx(-2.3015387)];
    let y2 = 0.22542973;
    let z2 = l.forward(&x2);
    assert_approx(y2, f(z2[0]), 0.001);
}

#[test]
fn sigmoid_stays_strictly_inside_unit_interval() {
    for v in [-100.0, -30.0, -5.0, -0.3, 0.0, 0.3, 5.0, 30.0, 100.0] {
        let y = Sigmoid.activate(fx(v));
        assert!(y.raw() > 0, "sigmoid({}) reached 0", v);
        assert!(y.raw() < ONE_RAW, "sigmoid({}) reached 1", v);
    }
}

#[test]
fn sigmoid_derivative_of_half_is_quarter() {
    // y * (1 - y) at y = 0.5 is exactly representable.
    assert_eq!(Sigmoid.derivative(fx(0.5)), fx(0.25));
}

#[test]
fn relu_values_and_derivative() {
    assert_eq!(ReLU.activate(fx(1.5)), fx(1.5));
    assert_eq!(ReLU.activate(fx(-2.0)), fx(0.0));
    assert_eq!(ReLU.derivative(fx(2.0)), fx(1.0));
    assert_eq!(ReLU.derivative(fx(-2.0)), fx(0.0));
}

#[test]
fn leaky_relu_values_and_derivative() {
    assert_eq!(LeakyReLU.activate(fx(1.5)), fx(1.5));
    assert_approx(f(LeakyReLU.activate(fx(-2.0))), -0.02, 1e-6);
    assert_eq!(LeakyReLU.derivative(fx(3.0)), fx(1.0));
    assert_approx(f(LeakyReLU.derivative(fx(-3.0))), 0.01, 1e-6);
}

#[test]
fn softplus_values_and_derivative() {
    // ln(1 + e^-x): ln 2 at zero, about 1.3132616875 at -1.
    assert_approx(f(SoftPlus.activate(fx(0.0))), 0.6931471805599453, 1e-4);
    assert_approx(f(SoftPlus.activate(fx(-1.0))), 1.3132616875182228, 1e-4);
    assert_approx(f(SoftPlus.activate(fx(1.0))), 0.31326168751822286, 1e-4);
    // The derivative formula is the sigmoid of the argument.
    assert_eq!(SoftPlus.derivative(fx(0.0)), fx(0.5));
}

#[test]
fn linear_is_identity_with_unit_derivative() {
    assert_eq!(Linear.activate(fx(-3.25)), fx(-3.25));
    assert_eq!(Linear.derivative(fx(-3.25)), fx(1.0));
}

#[test]
fn fx_arithmetic_saturates_and_rounds_toward_zero() {
    assert_eq!(fx_add(Fx::from_raw(i64::MAX), Fx::from_raw(1)).raw(), i64::MAX);
    assert_eq!(fx_sub(Fx::from_raw(i64::MIN), Fx::from_raw(1)).raw(), i64::MIN);
    assert_eq!(fx_mul(fx(1.5), fx(2.0)), fx(3.0));
    assert_eq!(fx_mul(fx(-1.5), fx(2.0)), fx(-3.0));
    assert_eq!(fx_div(fx(1.0), fx(2.0)), fx(0.5));
    assert_eq!(fx_div(fx(-1.0), fx(2.0)), fx(-0.5));
}

#[test]
fn dense_shape_invariant_holds_for_explicit_and_random_weights() {
    let d = Dense::new(3, 2, Sigmoid, Some(vec![fx(0.0); 8])).unwrap();
    assert_eq!(d.get_weights().len(), 2 * (3 + 1));
    let d2 = Dense::new(5, 4, Sigmoid, None).unwrap();
    assert_eq!(d2.get_weights().len(), 4 * (5 + 1));
}

#[test]
fn dense_rejects_mismatched_weight_vector() {
    let r = Dense::new(3, 2, Sigmoid, Some(vec![fx(0.0); 7]));
    assert!(matches!(r, Err(NetError::InvalidWeights)));
}

#[test]
fn default_weights_are_uniform_in_unit_range() {
    // Exercises the rand-backed initializer: every drawn weight must lie in
    // [-1, 1), which fails if the wrapper returns anything out of range.
    let d = Dense::new(10, 10, Sigmoid, None).unwrap();
    let w = d.get_weights();
    assert_eq!(w.len(), 10 * 11);
    for v in &w {
        assert!(v.raw() >= -ONE_RAW && v.raw() < ONE_RAW);
    }
    // With 110 draws from [-1, 1), all-zero output would mean the wrapper is
    // not sampling at all.
    assert!(w.iter().any(|v| v.raw() != 0));
}

#[test]
fn forward_is_deterministic_for_fixed_weights() {
    let w = vec![fx(0.3), fx(-0.2), fx(0.1), fx(-0.5), fx(0.25), fx(0.75)];
    let mut l = Dense::new(2, 2, Sigmoid, Some(w)).unwrap();
    let x = vec![fx(0.4), fx(-0.6)];
    let z1 = l.forward(&x);
    let z2 = l.forward(&x);
    let z3 = l.forward(&x);
    assert_eq!(z1, z2);
    assert_eq!(z2, z3);
}

#[test]
fn dense_linear_forward_is_exact_on_dyadic_values() {
    // With the identity activation and dyadic inputs, the weighted sum is
    // exact: 0.5*0.5 + (-0.25)*2.0 + 0.125 = -0.125.
    let w = vec![fx(0.5), fx(-0.25), fx(0.125)];
    let mut l = Dense::new(2, 1, Linear, Some(w)).unwrap();
    let z = l.forward(&vec![fx(0.5), fx(2.0)]);
    assert_eq!(z, vec![fx(-0.125)]);
}
