use deep_thought::activation::Activation;
use deep_thought::error::Error;
use deep_thought::neural_network::Layer;
use deep_thought::shape::Shape;

type Mat = Vec<Vec<f64>>;

fn layer_2x3() -> Layer<Mat, f64> {
    let w = vec![vec![1.0, 2.0, 3.0], vec![4.0, 5.0, 6.0]];
    let b = vec![vec![0.5], vec![-0.5]];
    Layer::from_parameters((w, b), (Shape::new(2, 3), Shape::new(2, 1))).unwrap()
}

#[test]
fn from_parameters_reads_dimensions_off_the_weights() {
    let l = layer_2x3();
    assert_eq!(l.get_weight_shape(), Shape::new(2, 3));
    assert_eq!(l.get_bias_shape(), Shape::new(2, 1));
    assert!(matches!(l.get_activation(), Activation::Linear));
    assert!(l.get_cache().is_none());
    let (w, b) = l.get_parameters();
    assert_eq!(w[1][2], 6.0);
    assert_eq!(b[1][0], -0.5);
}

#[test]
fn from_parameters_refuses_a_bias_of_the_wrong_height() {
    let w: Mat = vec![vec![1.0, 2.0], vec![3.0, 4.0]];
    let b: Mat = vec![vec![0.0], vec![0.0], vec![0.0]];
    let r = Layer::<Mat, f64>::from_parameters((w, b), (Shape::new(2, 2), Shape::new(3, 1)));
    match r {
        Err(e) => assert_eq!(
            e,
            Error::DimensionMismatch { layer: None, expected: Shape::new(2, 1), found: Shape::new(3, 1) }
        ),
        Ok(_) => panic!("a bias of three rows was accepted for two outputs"),
    }
}

#[test]
fn set_parameters_with_other_weight_shape_fails_and_keeps_the_layer() {
    let mut l = layer_2x3();
    let w: Mat = vec![vec![9.0, 9.0], vec![9.0, 9.0]];
    let b: Mat = vec![vec![9.0], vec![9.0]];
    let r = l.set_parameters((w, b), (Shape::new(2, 2), Shape::new(2, 1)));
    assert_eq!(
        r,
        Err(Error::MismatchedDimensions { expected: Shape::new(2, 3), found: Shape::new(2, 2) })
    );
    let (w, b) = l.get_parameters();
    assert_eq!(*w, vec![vec![1.0, 2.0, 3.0], vec![4.0, 5.0, 6.0]]);
    assert_eq!(*b, vec![vec![0.5], vec![-0.5]]);
}

#[test]
fn set_parameters_with_other_bias_shape_fails_and_keeps_the_layer() {
    let mut l = layer_2x3();
    let w: Mat = vec![vec![0.0; 3]; 2];
    let b: Mat = vec![vec![0.0]];
    let r = l.set_parameters((w, b), (Shape::new(2, 3), Shape::new(1, 1)));
    assert_eq!(
        r,
        Err(Error::MismatchedDimensions { expected: Shape::new(2, 1), found: Shape::new(1, 1) })
    );
    assert_eq!(l.get_parameters().0[0][0], 1.0);
}

#[test]
fn set_parameters_with_same_shapes_replaces_them() {
    let mut l = layer_2x3().activation(Activation::Tanh);
    let w: Mat = vec![vec![0.0; 3]; 2];
    let b: Mat = vec![vec![7.0], vec![8.0]];
    assert_eq!(l.set_parameters((w, b), (Shape::new(2, 3), Shape::new(2, 1))), Ok(()));
    let (w, b) = l.get_parameters();
    assert_eq!(*w, vec![vec![0.0; 3]; 2]);
    assert_eq!(*b, vec![vec![7.0], vec![8.0]]);
    assert!(matches!(l.get_activation(), Activation::Tanh));
}

#[test]
fn activation_builder_replaces_the_default() {
    let l = layer_2x3().activation(Activation::LeakyReLU(0.1));
    match l.get_activation() {
        Activation::LeakyReLU(s) => assert_eq!(*s, 0.1),
        _ => panic!("activation not replaced"),
    }
}

#[test]
fn layer_forward_refuses_a_batch_of_the_wrong_feature_count() {
    let mut l = layer_2x3();
    let kernel = |_w: &Mat, _b: &Mat, _a: &Activation<f64>, x: &Mat| (x.clone(), x.clone());
    let x: Mat = vec![vec![1.0], vec![2.0]];
    let r = l.forward(&x, Shape::new(2, 1), &kernel);
    assert_eq!(
        r,
        Err(Error::DimensionMismatch { layer: None, expected: Shape::new(3, 1), found: Shape::new(2, 1) })
    );
    assert!(l.get_cache().is_none());
}

#[test]
fn layer_forward_caches_what_the_kernel_computes() {
    let mut l = layer_2x3();
    let kernel = |w: &Mat, b: &Mat, _a: &Activation<f64>, x: &Mat| {
        let mut z = vec![vec![0.0; x[0].len()]; w.len()];
        for i in 0..w.len() {
            for c in 0..x[0].len() {
                let mut s = b[i][0];
                for k in 0..x.len() {
                    s += w[i][k] * x[k][c];
                }
                z[i][c] = s;
            }
        }
        (z.clone(), z)
    };
    let x: Mat = vec![vec![1.0], vec![1.0], vec![1.0]];
    assert_eq!(l.forward(&x, Shape::new(3, 1), &kernel), Ok(()));
    let c = l.get_cache().unwrap();
    assert_eq!(c.batch, 1);
    assert_eq!(c.z, vec![vec![6.5], vec![14.5]]);
}

#[test]
fn shape_helpers() {
    assert_eq!(Shape::column(4), Shape::new(4, 1));
    assert_eq!(Shape::new(2, 5).transposed(), Shape::new(5, 2));
}
