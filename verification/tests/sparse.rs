use genestore::error::Error;
use genestore::sparse::{csr_from_parts, sparse_to_py, SparseRows};
use sprs::TriMat;

fn entries(m: &TriMat<u64>) -> Vec<(usize, usize, u64)> {
    m.triplet_iter().map(|(v, (r, c))| (r, c, *v)).collect()
}

fn message(result: Result<TriMat<u64>, Error>) -> String {
    match result {
        Err(Error::Value(text)) => text,
        Err(_) => panic!("another error"),
        Ok(_) => panic!("no error"),
    }
}

#[test]
fn entries_are_collected_row_by_row() {
    let m = csr_from_parts(vec![0, 2, 2, 3], vec![0, 2, 1], vec![10, 20, 30], (3, 4)).unwrap();
    assert_eq!((m.rows(), m.cols()), (3, 4));
    assert_eq!(entries(&m), vec![(0, 0, 10), (0, 2, 20), (2, 1, 30)]);
}

#[test]
fn matrix_without_rows_is_empty() {
    let m = csr_from_parts(vec![0], vec![], vec![], (0, 5)).unwrap();
    assert_eq!((m.rows(), m.cols(), m.nnz()), (0, 5, 0));
}

#[test]
fn indices_and_data_must_agree() {
    assert_eq!(
        message(csr_from_parts(vec![0, 1], vec![0, 1], vec![5], (7, 2))),
        "indices length 2 does not match data length 1"
    );
}

#[test]
fn indptr_must_have_one_entry_more_than_rows() {
    assert_eq!(
        message(csr_from_parts(vec![0, 1], vec![9], vec![5], (2, 2))),
        "indptr length 2 does not match nrows 2 + 1"
    );
}

#[test]
fn indptr_must_not_decrease_or_overrun() {
    let order = "indptr is not monotonically increasing";
    assert_eq!(
        message(csr_from_parts(vec![0, 2, 1], vec![0, 1], vec![5, 6], (2, 2))),
        order
    );
    assert_eq!(
        message(csr_from_parts(vec![0, 3], vec![0, 1], vec![5, 6], (1, 2))),
        order
    );
}

#[test]
fn stray_column_is_named() {
    assert_eq!(
        message(csr_from_parts(vec![0, 2, 3], vec![0, 4, 7], vec![5, 6, 7], (2, 4))),
        "column index 4 out of bounds for 4 columns"
    );
}

#[test]
fn first_unsound_row_counts() {
    assert_eq!(
        message(csr_from_parts(vec![0, 1, 0], vec![9], vec![5], (2, 3))),
        "column index 9 out of bounds for 3 columns"
    );
    assert_eq!(
        message(csr_from_parts(vec![1, 0, 1], vec![9], vec![5], (2, 3))),
        "indptr is not monotonically increasing"
    );
}

#[test]
fn rows_are_written_out_as_arrays() {
    let matrix = SparseRows {
        rows: vec![vec![(1, 11), (3, 13)], vec![], vec![(0, 30)]],
        shape: (3, 4),
    };
    let parts = sparse_to_py(&matrix);
    assert_eq!(parts.indptr, vec![0, 2, 2, 3]);
    assert_eq!(parts.indices, vec![1, 3, 0]);
    assert_eq!(parts.data, vec![11, 13, 30]);
    assert_eq!(parts.shape, (3, 4));
}

#[test]
fn sparse_round_trip_restores_the_arrays() {
    let (indptr, indices, data) = (vec![0, 1, 3], vec![2, 0, 1], vec![7, 8, 9]);
    let m = csr_from_parts(indptr, indices, data.clone(), (2, 3)).unwrap();
    let csr = m.to_csr::<usize>();
    let rows = csr
        .outer_iterator()
        .map(|row| row.iter().map(|(c, v)| (c, *v)).collect())
        .collect();
    let parts = sparse_to_py(&SparseRows {
        rows,
        shape: (csr.rows(), csr.cols()),
    });
    assert_eq!(parts.indptr, vec![0, 1, 3]);
    assert_eq!(parts.indices, vec![2, 0, 1]);
    assert_eq!(parts.data, data);
    assert_eq!(parts.shape, (2, 3));
}

#[test]
fn indptr_can_never_match_too_many_rows() {
    assert_eq!(
        message(csr_from_parts(vec![0], vec![], vec![], (usize::MAX, 2))),
        format!("indptr length 1 does not match nrows {} + 1", usize::MAX)
    );
    assert_eq!(
        message(csr_from_parts(vec![], vec![], vec![], (usize::MAX, 2))),
        format!("indptr length 0 does not match nrows {} + 1", usize::MAX)
    );
    assert_eq!(
        message(csr_from_parts(vec![], vec![], vec![], (0, 2))),
        "indptr length 0 does not match nrows 0 + 1"
    );
    assert_eq!(
        message(csr_from_parts(vec![0], vec![1], vec![], (usize::MAX, 2))),
        "indices length 1 does not match data length 0"
    );
}

#[test]
fn canonical_form_is_handed_out() {
    let m = csr_from_parts(vec![0, 3, 3, 4], vec![2, 0, 1, 0], vec![7, 8, 9, 6], (3, 3)).unwrap();
    let csr = m.to_csr::<usize>();
    let rows = csr
        .outer_iterator()
        .map(|row| row.iter().map(|(c, v)| (c, *v)).collect())
        .collect();
    let parts = sparse_to_py(&SparseRows {
        rows,
        shape: (3, 3),
    });
    assert_eq!(parts.indptr, vec![0, 3, 3, 4]);
    assert_eq!(parts.indices, vec![0, 1, 2, 0]);
    assert_eq!(parts.data, vec![8, 9, 7, 6]);
    assert_eq!(parts.indptr.len(), parts.shape.0 + 1);
}
