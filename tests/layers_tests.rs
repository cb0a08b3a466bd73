use neural_network::layers::{check_layers, check_samples, check_shapes, parameter_count};
use neural_network::matrix::Matrix;

fn zeros(rows: usize, cols: usize) -> Matrix<f64> {
    Matrix::new(rows, cols, vec![0.0; rows * cols]).unwrap()
}

#[test]
fn layer_lists() {
    assert!(check_layers(&vec![2, 3, 1]));
    assert!(check_layers(&vec![4, 8]));
    assert!(!check_layers(&vec![2]));
    assert!(!check_layers(&vec![]));
    assert!(!check_layers(&vec![2, 0, 1]));
}

#[test]
fn shapes_of_a_network() {
    let layers = vec![2, 3, 1];
    let weights = vec![zeros(3, 2), zeros(1, 3)];
    let biases = vec![zeros(3, 1), zeros(1, 1)];
    assert!(check_shapes(&layers, &weights, &biases));

    let swapped = vec![zeros(2, 3), zeros(1, 3)];
    assert!(!check_shapes(&layers, &swapped, &biases));

    let short = vec![zeros(3, 2)];
    assert!(!check_shapes(&layers, &short, &biases));

    let broken = Matrix { rows: 3, cols: 1, data: vec![0.0; 2] };
    let bad_bias = vec![broken, zeros(1, 1)];
    assert!(!check_shapes(&layers, &weights, &bad_bias));
}

#[test]
fn parameter_counts() {
    assert_eq!(parameter_count(&vec![2, 3, 1]), Some(13));
    assert_eq!(parameter_count(&vec![4, 8, 3]), Some(67));
    assert_eq!(parameter_count(&vec![5]), Some(0));
    assert_eq!(parameter_count(&vec![usize::MAX, 2]), None);
}

#[test]
fn training_samples_must_fit() {
    let layers = vec![2, 3, 1];
    let inputs = vec![vec![0.0, 0.0], vec![1.0, 1.0]];
    let targets = vec![vec![0.0], vec![1.0]];
    assert!(check_samples(&layers, &inputs, &targets));
    assert!(!check_samples(&layers, &inputs, &vec![vec![0.0]]));
    assert!(!check_samples(&layers, &vec![vec![0.0], vec![1.0, 1.0]], &targets));
    assert!(!check_samples(&layers, &inputs, &vec![vec![0.0, 1.0], vec![1.0]]));
    let none: Vec<Vec<f64>> = Vec::new();
    assert!(check_samples(&layers, &none, &none));
}
