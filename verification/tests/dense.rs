use genestore::dense::{
    dense_from_parts, dense_to_flat, is_addressable, numpy_to_dense, NumpyArray,
};
use genestore::error::Error;
use smartcore::linalg::basic::arrays::Array;

fn bits(values: &[f64]) -> Vec<u64> {
    values.iter().map(|v| v.to_bits()).collect()
}

fn array(rows: usize, cols: usize, values: &[f64]) -> NumpyArray {
    NumpyArray {
        rows,
        cols,
        cells: bits(values),
    }
}

fn value_error<T>(result: Result<T, Error>) -> String {
    match result {
        Err(Error::Value(text)) => text,
        Err(_) => panic!("another error"),
        Ok(_) => panic!("no error"),
    }
}

#[test]
fn finite_array_is_accepted_unchanged() {
    let values = [1.0, -2.5, 0.0, -0.0, f64::MAX, f64::MIN_POSITIVE / 4.0];
    let (rows, cols, cells) = numpy_to_dense(array(2, 3, &values)).unwrap();
    assert_eq!((rows, cols), (2, 3));
    assert_eq!(cells, bits(&values));
}

#[test]
fn empty_arrays_are_refused() {
    let message = "Cannot store empty array. Array must have non-zero dimensions.";
    assert_eq!(value_error(numpy_to_dense(array(0, 3, &[]))), message);
    assert_eq!(value_error(numpy_to_dense(array(3, 0, &[]))), message);
    assert_eq!(value_error(numpy_to_dense(array(0, 0, &[]))), message);
}

#[test]
fn non_finite_cells_are_counted() {
    let values = [f64::NAN, f64::INFINITY, 1.0, f64::NEG_INFINITY, -f64::NAN, 2.0];
    assert_eq!(
        value_error(numpy_to_dense(array(2, 3, &values))),
        "Array contains non-finite values (2 NaN, 2 Inf/-Inf). Only arrays with finite values can be stored as embeddings. Please clean your data before storing."
    );
    assert_eq!(
        value_error(numpy_to_dense(array(1, 1, &[f64::INFINITY]))),
        "Array contains non-finite values (0 NaN, 1 Inf/-Inf). Only arrays with finite values can be stored as embeddings. Please clean your data before storing."
    );
}

#[test]
fn matrix_holds_its_cells_row_by_row() {
    let m = dense_from_parts(2, 3, vec![1, 2, 3, 4, 5, 6]).unwrap();
    assert_eq!(m.shape(), (2, 3));
    assert_eq!(*m.get((0, 0)), 1);
    assert_eq!(*m.get((0, 2)), 3);
    assert_eq!(*m.get((1, 0)), 4);
    assert_eq!(*m.get((1, 2)), 6);
}

#[test]
fn wrong_number_of_cells_is_refused() {
    assert_eq!(
        value_error(dense_from_parts(2, 3, vec![1, 2, 3, 4, 5])),
        "invalid matrix: Error in input, check parameters: The specified shape: (cols: 3, rows: 2) does not align with data len: 5"
    );
}

#[test]
fn dense_round_trip_keeps_every_bit() {
    let cells = bits(&[1.5, -0.0, 3.25, f64::MIN, 5e-324, 6.0]);
    let m = dense_from_parts(3, 2, cells.clone()).unwrap();
    assert!(is_addressable(&m));
    assert_eq!(dense_to_flat(&m), (3, 2, cells));
}

#[test]
fn column_major_matrix_is_flattened_by_rows() {
    let m = smartcore::linalg::basic::matrix::DenseMatrix::new(2, 2, vec![1u64, 2, 3, 4], true)
        .unwrap();
    assert_eq!(dense_to_flat(&m), (2, 2, vec![1, 3, 2, 4]));
}
