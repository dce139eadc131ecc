use deep_thought::activation::Activation;
use deep_thought::error::Error;
use deep_thought::jacobian::{array3_from_diags, array3_from_pairs, map_entries};
use deep_thought::loss::Loss;
use deep_thought::shape::Shape;

#[test]
fn default_activation_is_linear() {
    let a: Activation<f64> = Activation::default();
    assert!(matches!(a, Activation::Linear));
}

#[test]
fn only_softmax_couples_entries() {
    assert!(Activation::<f64>::ReLU.is_elementwise());
    assert!(Activation::<f64>::Linear.is_elementwise());
    assert!(Activation::<f64>::Sigmoid.is_elementwise());
    assert!(Activation::LeakyReLU(0.01).is_elementwise());
    assert!(Activation::<f64>::Tanh.is_elementwise());
    assert!(!Activation::<f64>::Softmax.is_elementwise());
}

#[test]
fn array3_from_diags_places_each_sample_on_a_diagonal() {
    let d = vec![vec![1, 2, 3], vec![4, 5, 6]];
    let t = array3_from_diags(&d, 3, 0);
    assert_eq!(t.len(), 2);
    assert_eq!(t[0], vec![vec![1, 0, 0], vec![0, 2, 0], vec![0, 0, 3]]);
    assert_eq!(t[1], vec![vec![4, 0, 0], vec![0, 5, 0], vec![0, 0, 6]]);
}

#[test]
fn array3_from_diags_of_an_empty_batch_is_empty() {
    let d: Vec<Vec<i32>> = Vec::new();
    assert!(array3_from_diags(&d, 4, 0).is_empty());
}

#[test]
fn array3_from_pairs_applies_the_formula_to_each_pair() {
    let s = vec![vec![1, 2]];
    let t = array3_from_pairs(&s, 2, |x: i32, y: i32, d: bool| if d { 100 + x * 10 + y } else { x * 10 + y });
    assert_eq!(t[0], vec![vec![111, 12], vec![21, 122]]);
}

#[test]
fn map_entries_maps_every_entry() {
    let s = vec![vec![1, -2], vec![3, -4]];
    assert_eq!(map_entries(&s, 2, |x: i32| x * x), vec![vec![1, 4], vec![9, 16]]);
}

#[test]
fn relu_jacobian_is_diagonal() {
    let z = vec![vec![-1.0, 0.0, 2.5], vec![3.0, -0.5, 0.0]];
    let relu = Activation::<f64>::ReLU;
    let j = relu.jacobian(&z, 3, 0.0, |x: f64| if x > 0.0 { 1.0 } else { 0.0 }, |_x: f64, _y: f64, _d: bool| 9.0);
    assert_eq!(j[0], vec![vec![0.0, 0.0, 0.0], vec![0.0, 0.0, 0.0], vec![0.0, 0.0, 1.0]]);
    assert_eq!(j[1], vec![vec![1.0, 0.0, 0.0], vec![0.0, 0.0, 0.0], vec![0.0, 0.0, 0.0]]);
}

#[test]
fn elementwise_jacobians_have_no_entry_off_the_diagonal() {
    let z = vec![vec![0.3, -1.2, 2.0, 0.0]];
    let slope = 0.2;
    for act in [
        Activation::ReLU,
        Activation::Linear,
        Activation::Sigmoid,
        Activation::LeakyReLU(slope),
        Activation::Tanh,
    ] {
        let j = act.jacobian(&z, 4, 0.0, |x: f64| x + 7.0, |_x: f64, _y: f64, _d: bool| 9.0);
        for i in 0..4 {
            for k in 0..4 {
                if i == k {
                    assert_eq!(j[0][i][k], z[0][i] + 7.0);
                } else {
                    assert_eq!(j[0][i][k], 0.0);
                }
            }
        }
    }
}

#[test]
fn softmax_jacobian_is_diag_s_minus_s_s_transposed() {
    let s = vec![vec![0.5, 0.5], vec![0.25, 0.75]];
    let j = Activation::<f64>::Softmax.jacobian(
        &s,
        2,
        0.0,
        |x: f64| x,
        |si: f64, sj: f64, d: bool| if d { si - si * sj } else { -(si * sj) },
    );
    assert_eq!(j[0], vec![vec![0.25, -0.25], vec![-0.25, 0.25]]);
    assert_eq!(j[1], vec![vec![0.1875, -0.1875], vec![-0.1875, 0.1875]]);
}

#[test]
fn loss_operands_must_have_the_same_shape() {
    assert_eq!(Loss::MSE.check_operands(Shape::new(3, 1), Shape::new(3, 1)), Ok(()));
    assert_eq!(
        Loss::MSE.check_operands(Shape::new(3, 1), Shape::new(2, 1)),
        Err(Error::DimensionMismatch { layer: None, expected: Shape::new(3, 1), found: Shape::new(2, 1) })
    );
}
