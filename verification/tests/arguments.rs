use genestore::error::Error;
use genestore::integers::{
    index_kinds, index_list, node_id_kinds, node_ids, IntArray, IntKind,
};
use genestore::tables::{first_batch, table_source, TableSource};

fn value(result: Result<Vec<usize>, Error>) -> String {
    match result {
        Err(Error::Value(text)) => text,
        Err(_) => panic!("another error"),
        Ok(_) => panic!("no error"),
    }
}

#[test]
fn element_types_are_tried_in_order() {
    assert_eq!(node_id_kinds(), vec![IntKind::U64, IntKind::I64]);
    assert_eq!(
        index_kinds(),
        vec![IntKind::I64, IntKind::I32, IntKind::U32, IntKind::U64]
    );
}

#[test]
fn node_ids_are_read_from_both_kinds() {
    assert_eq!(
        node_ids(IntArray::U64(vec![0, u64::MAX]), "src").unwrap(),
        vec![0, u64::MAX]
    );
    assert_eq!(
        node_ids(IntArray::I64(vec![0, 5, i64::MAX]), "src").unwrap(),
        vec![0, 5, i64::MAX as u64]
    );
}

#[test]
fn first_negative_node_id_is_a_storage_error() {
    match node_ids(IntArray::I64(vec![3, -4, -5]), "dst") {
        Err(Error::Storage(text)) => assert_eq!(
            text,
            "dst contains a negative node id (-4); node ids are unsigned"
        ),
        _ => panic!("no storage error"),
    }
}

#[test]
fn other_arrays_hold_no_node_ids() {
    for array in [
        IntArray::Other,
        IntArray::I32(vec![1]),
        IntArray::U32(vec![1]),
    ] {
        match node_ids(array, "src") {
            Err(Error::Value(text)) => assert_eq!(text, "src must be an integer numpy array"),
            _ => panic!("no value error"),
        }
    }
}

#[test]
fn indices_are_read_from_all_kinds() {
    assert_eq!(index_list(IntArray::I64(vec![0, 7]), "p").unwrap(), vec![0, 7]);
    assert_eq!(index_list(IntArray::I32(vec![0, 7]), "p").unwrap(), vec![0, 7]);
    assert_eq!(index_list(IntArray::U32(vec![0, 7]), "p").unwrap(), vec![0, 7]);
    assert_eq!(index_list(IntArray::U64(vec![0, 7]), "p").unwrap(), vec![0, 7]);
    assert_eq!(index_list(IntArray::U64(vec![]), "p").unwrap(), Vec::<usize>::new());
}

#[test]
fn negative_index_is_a_value_error() {
    assert_eq!(
        value(index_list(IntArray::I64(vec![1, -2, -3]), "indptr")),
        "indptr has a negative value (-2)"
    );
    assert_eq!(
        value(index_list(IntArray::I32(vec![i32::MIN]), "indices")),
        "indices has a negative value (-2147483648)"
    );
    assert_eq!(
        value(index_list(IntArray::Other, "indices")),
        "indices must be an integer numpy array"
    );
}

#[test]
fn table_sources_are_told_apart() {
    assert_eq!(table_source(true, false, false).unwrap(), TableSource::Batch);
    assert_eq!(table_source(true, true, true).unwrap(), TableSource::Batch);
    assert_eq!(table_source(false, true, true).unwrap(), TableSource::Chunks);
    for (combines, splits) in [(false, false), (true, false), (false, true)] {
        match table_source(false, combines, splits) {
            Err(Error::Value(text)) => {
                assert_eq!(text, "expected a pyarrow Table or RecordBatch")
            }
            _ => panic!("no value error"),
        }
    }
}

#[test]
fn first_batch_is_taken() {
    assert_eq!(first_batch(vec!["a", "b"]).unwrap(), "a");
    match first_batch(Vec::<u8>::new()) {
        Err(Error::Value(text)) => assert_eq!(text, "table has no batches"),
        _ => panic!("no value error"),
    }
}
