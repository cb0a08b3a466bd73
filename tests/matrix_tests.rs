use neural_network::activations::SIGMOID;
use neural_network::matrix::{Matrix, MatrixError};
use neural_network::scalar::ScalarOp;

fn m(rows: usize, cols: usize, data: Vec<f64>) -> Matrix<f64> {
    Matrix::new(rows, cols, data).unwrap()
}

#[test]
fn new_checks_the_cell_count() {
    let a = m(2, 3, vec![1.0, 2.0, 3.0, 4.0, 5.0, 6.0]);
    assert_eq!((a.rows, a.cols), (2, 3));
    assert_eq!(a.data, vec![1.0, 2.0, 3.0, 4.0, 5.0, 6.0]);

    let err = Matrix::new(2, 3, vec![1.0, 2.0]).unwrap_err();
    assert_eq!(err, MatrixError::DimensionMismatch { rows: 2, cols: 3, found: 2 });

    let huge = Matrix::new(usize::MAX, 2, vec![1.0]).unwrap_err();
    assert_eq!(huge, MatrixError::DimensionMismatch { rows: usize::MAX, cols: 2, found: 1 });

    let empty: Matrix<f64> = Matrix::new(0, 4, vec![]).unwrap();
    assert_eq!((empty.rows, empty.cols), (0, 4));
}

#[test]
fn column_of_a_vector() {
    let c = Matrix::column_of(vec![0.5, 1.5, 2.5]);
    assert_eq!((c.rows, c.cols), (3, 1));
    assert_eq!(c.data, vec![0.5, 1.5, 2.5]);
}

#[test]
fn transpose_reindexes() {
    let a = m(2, 3, vec![1.0, 2.0, 3.0, 4.0, 5.0, 6.0]);
    let t = a.transpose();
    assert_eq!((t.rows, t.cols), (3, 2));
    assert_eq!(t.data, vec![1.0, 4.0, 2.0, 5.0, 3.0, 6.0]);
    assert_eq!(t.transpose().data, a.data);
}

#[test]
fn map_applies_to_every_cell() {
    let a = m(2, 2, vec![1.0, -2.0, 3.0, -4.0]);
    let doubled = a.map(|x| x * 2.0);
    assert_eq!((doubled.rows, doubled.cols), (2, 2));
    assert_eq!(doubled.data, vec![2.0, -4.0, 6.0, -8.0]);
}

fn scalar(op: ScalarOp, a: f64, b: f64) -> f64 {
    match op {
        ScalarOp::Add => a + b,
        ScalarOp::Subtract => a - b,
        ScalarOp::Multiply => a * b,
        ScalarOp::Activate(_) => 1.0 / (1.0 + (-a).exp()),
        ScalarOp::Derivative(_) => a * (1.0 - a),
    }
}

#[test]
fn combine_needs_one_shape() {
    let a = m(2, 2, vec![1.0, 2.0, 3.0, 4.0]);
    let b = m(2, 2, vec![10.0, 20.0, 30.0, 40.0]);
    let sum = a.combine(&b, &scalar, ScalarOp::Add).unwrap();
    assert_eq!(sum.data, vec![11.0, 22.0, 33.0, 44.0]);
    let diff = b.combine(&a, &scalar, ScalarOp::Subtract).unwrap();
    assert_eq!(diff.data, vec![9.0, 18.0, 27.0, 36.0]);
    let prod = a.combine(&b, &scalar, ScalarOp::Multiply).unwrap();
    assert_eq!(prod.data, vec![10.0, 40.0, 90.0, 160.0]);

    let c = m(1, 4, vec![1.0, 2.0, 3.0, 4.0]);
    assert_eq!(
        a.combine(&c, &scalar, ScalarOp::Add).unwrap_err(),
        MatrixError::ShapeMismatch { left_rows: 2, left_cols: 2, right_rows: 1, right_cols: 4 }
    );
}

#[test]
fn apply_op_and_scale() {
    let a = m(1, 3, vec![0.5, 0.25, 1.0]);
    let d = a.apply_op(&scalar, ScalarOp::Derivative(SIGMOID));
    assert_eq!(d.data, vec![0.25, 0.1875, 0.0]);
    let s = a.apply_op(&scalar, ScalarOp::Activate(SIGMOID));
    assert_eq!((s.rows, s.cols), (1, 3));
    assert!((s.data[0] - 0.6224593312018546).abs() < 1e-15);
    let twice = a.scale(&scalar, 2.0);
    assert_eq!(twice.data, vec![1.0, 0.5, 2.0]);
}

#[test]
fn product_multiplies_rows_by_columns() {
    let a = m(2, 3, vec![1.0, 2.0, 3.0, 4.0, 5.0, 6.0]);
    let b = m(3, 2, vec![7.0, 8.0, 9.0, 10.0, 11.0, 12.0]);
    let p = a.product(&b, &scalar, 0.0).unwrap();
    assert_eq!((p.rows, p.cols), (2, 2));
    assert_eq!(p.data, vec![58.0, 64.0, 139.0, 154.0]);

    let outer = m(2, 1, vec![1.0, 2.0]).product(&m(1, 3, vec![3.0, 4.0, 5.0]), &scalar, 0.0).unwrap();
    assert_eq!((outer.rows, outer.cols), (2, 3));
    assert_eq!(outer.data, vec![3.0, 4.0, 5.0, 6.0, 8.0, 10.0]);

    assert_eq!(
        a.product(&a, &scalar, 0.0).unwrap_err(),
        MatrixError::ShapeMismatch { left_rows: 2, left_cols: 3, right_rows: 2, right_cols: 3 }
    );
}

#[test]
fn from_vector_is_a_column() {
    let c: Matrix<f64> = Matrix::from(vec![1.0, 0.0]);
    assert_eq!((c.rows, c.cols), (2, 1));
    assert_eq!(c.data, vec![1.0, 0.0]);
}

#[test]
fn generate_fills_row_by_row() {
    let counter = std::cell::Cell::new(0.0);
    let g = Matrix::generate(2, 3, &|| {
        counter.set(counter.get() + 1.0);
        counter.get()
    });
    assert_eq!((g.rows, g.cols), (2, 3));
    assert_eq!(g.data, vec![1.0, 2.0, 3.0, 4.0, 5.0, 6.0]);
}

#[test]
fn deep_copy_keeps_cells() {
    let a = m(2, 2, vec![1.0, 2.0, 3.0, 4.0]);
    let b = a.deep_copy();
    assert_eq!((b.rows, b.cols, b.data), (2, 2, vec![1.0, 2.0, 3.0, 4.0]));
}
