use feedforward::fx::{fx_sub, Fx};
use feedforward::activation::Sigmoid;
use feedforward::dense::Dense;
use feedforward::layer::{Layer, NetError};
use feedforward::network::Network;

fn fx(v: f64) -> Fx {
    Fx::from_raw((v * 4294967296.0).round() as i64)
}

fn f(x: Fx) -> f64 {
    x.raw() as f64 / 4294967296.0
}

fn assert_approx(a: f64, b: f64, precision: f64) {
    assert!((a - b).abs() < precision, "{} != {}", a, b);
}

fn assert_vec_approx(a: &[f64], b: &[Fx], precision: f64) {
    assert!(
        a.iter().zip(b.iter()).all(|(a, b)| (a - f(*b)).abs() < precision),
        "a: {:?}, b: {:?}",
        a,
        b.iter().map(|v| f(*v)).collect::<Vec<f64>>()
    );
}

#[test]
fn test_weights() {
    let l1_weights = vec![fx(0.15), fx(0.2), fx(0.35), fx(0.25), fx(0.3), fx(0.35)];
    let l2_weights = vec![fx(0.4), fx(0.45), fx(0.6), fx(0.5), fx(0.55), fx(0.6)];

    let l1 = Dense::new(2, 2, Sigmoid, Some(l1_weights)).unwrap();
    let l2 = Dense::new(2, 2, Sigmoid, Some(l2_weights)).unwrap();

    let mut n = Network::new(vec![l1, l2]).unwrap();

    // Ensure forward propagation works for both layers
    let z = n.predict(&vec![fx(0.05), fx(0.1)]).unwrap();
    assert_approx(0.75136507, f(z[0]), 0.0001);
    assert_approx(0.772928465, f(z[1]), 0.0001);

    // Ensure that squared error is calculated correctly (use rate=0 to avoid training)
    let e = n.train(&vec![fx(0.05), fx(0.1)], &vec![fx(0.01), fx(0.99)], fx(0.0)).unwrap();
    assert_approx(0.298371109, f(e), 0.0001);

    // Backpropagation with rate 0.5
    n.train(&vec![fx(0.05), fx(0.1)], &vec![fx(0.01), fx(0.99)], fx(0.5)).unwrap();

    // Check weights
    let l2_weights_expected = vec![
        0.35891648,
        0.408666186,
        0.530751,
        0.511301270,
        0.561370121,
        0.619049,
    ];
    let l1_weights_expected = vec![
        0.149780716,
        0.19956143,
        0.345614,
        0.24975114,
        0.29950229,
        0.345023,
    ];

    assert_vec_approx(&l2_weights_expected, &n.layer_weights(1), 0.001);
    assert_vec_approx(&l1_weights_expected, &n.layer_weights(0), 0.001);
}

#[test]
fn test_layer_or() {
    let x = [[0.0, 0.0], [0.0, 1.0], [1.0, 0.0], [1.0, 1.0]];
    let y = [[0.0], [1.0], [1.0], [1.0]];
    let mut l = Dense::new(2, 1, Sigmoid, None).unwrap();
    for _ in 0..1000 {
        for (i, xi) in x.iter().enumerate() {
            let xv = vec![fx(xi[0]), fx(xi[1])];
            let z = l.forward(&xv);
            let e = vec![fx_sub(fx(y[i][0]), z[0])];
            l.backward(&xv, &e, fx(1.0));
        }
    }
    for (i, xi) in x.iter().enumerate() {
        let xv = vec![fx(xi[0]), fx(xi[1])];
        let z = l.forward(&xv);
        assert_approx(y[i][0], f(z[0]), 0.1);
    }
}

#[test]
fn test_network_xor() {
    let x = [[0.0, 0.0], [0.0, 1.0], [1.0, 0.0], [1.0, 1.0]];
    let y = [[0.0], [1.0], [1.0], [0.0]];

    let one_attempt = || {
        let mut n = Network::new(vec![
            Dense::new(2, 4, Sigmoid, None).unwrap(),
            Dense::new(4, 1, Sigmoid, None).unwrap(),
        ])
        .unwrap();
        for _ in 0..10000 {
            let mut e = 0.0;
            for (xi, yi) in x.iter().zip(y.iter()) {
                let xv = vec![fx(xi[0]), fx(xi[1])];
                let yv = vec![fx(yi[0])];
                e += f(n.train(&xv, &yv, fx(1.0)).unwrap());
            }
            if e < 0.02 {
                return true;
            }
        }
        false
    };
    // Training starts from random weights; allow a bounded number of fresh
    // restarts so a rare bad draw cannot make the test flaky.
    let mut successful_train = false;
    for _ in 0..3 {
        if one_attempt() {
            successful_train = true;
            break;
        }
    }
    assert!(successful_train, "Failed to train the model");
}

#[test]
fn network_rejects_empty_layer_sequence() {
    let layers: Vec<Dense<Sigmoid>> = Vec::new();
    assert!(matches!(Network::new(layers), Err(NetError::EmptyNetwork)));
}

#[test]
fn network_rejects_incompatible_adjacent_layers() {
    let l1 = Dense::new(2, 3, Sigmoid, None).unwrap();
    let l2 = Dense::new(4, 1, Sigmoid, None).unwrap();
    assert!(matches!(Network::new(vec![l1, l2]), Err(NetError::ShapeMismatch)));
}

#[test]
fn predict_rejects_wrongly_sized_input() {
    let l = Dense::new(2, 1, Sigmoid, None).unwrap();
    let mut n = Network::new(vec![l]).unwrap();
    let r = n.predict(&vec![fx(0.1), fx(0.2), fx(0.3)]);
    assert!(matches!(r, Err(NetError::InvalidInput)));
}

#[test]
fn train_rejects_wrongly_sized_vectors() {
    let l = Dense::new(2, 1, Sigmoid, None).unwrap();
    let mut n = Network::new(vec![l]).unwrap();
    let r = n.train(&vec![fx(0.1)], &vec![fx(0.5)], fx(1.0));
    assert!(matches!(r, Err(NetError::InvalidInput)));
    let r2 = n.train(&vec![fx(0.1), fx(0.2)], &vec![fx(0.5), fx(0.6)], fx(1.0));
    assert!(matches!(r2, Err(NetError::InvalidExpected)));
}

#[test]
fn predict_is_repeatable_and_widths_are_derived() {
    let w1 = vec![fx(0.2), fx(-0.4), fx(0.1), fx(0.3), fx(0.7), fx(-0.2)];
    let w2 = vec![fx(0.5), fx(-0.5), fx(0.25)];
    let l1 = Dense::new(2, 2, Sigmoid, Some(w1)).unwrap();
    let l2 = Dense::new(2, 1, Sigmoid, Some(w2)).unwrap();
    let mut n = Network::new(vec![l1, l2]).unwrap();
    assert_eq!(n.input_count(), 2);
    assert_eq!(n.output_count(), 1);
    assert_eq!(n.layer_count(), 2);
    let x = vec![fx(0.3), fx(-0.8)];
    let z1 = n.predict(&x).unwrap();
    let z2 = n.predict(&x).unwrap();
    assert_eq!(z1, z2);
}

#[test]
fn zero_rate_training_leaves_weights_unchanged() {
    let w1 = vec![fx(0.2), fx(-0.4), fx(0.1), fx(0.3), fx(0.7), fx(-0.2)];
    let l1 = Dense::new(2, 2, Sigmoid, Some(w1.clone())).unwrap();
    let mut n = Network::new(vec![l1]).unwrap();
    n.train(&vec![fx(0.3), fx(-0.8)], &vec![fx(1.0), fx(0.0)], fx(0.0)).unwrap();
    assert_eq!(n.layer_weights(0), w1);
}
