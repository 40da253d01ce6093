use genestore::error::Error;
use genestore::graph::{
    build_graph, graph_to_py, Edge, GraphOptions, NodeIdWidth, StoredGraph,
};
use genestore::integers::IntArray;

fn refusal(result: Result<(Vec<Edge>, GraphOptions), Error>) -> Error {
    match result {
        Err(e) => e,
        Ok(_) => panic!("no error"),
    }
}

fn value_text(e: Error) -> String {
    match e {
        Error::Value(text) => text,
        _ => panic!("no value error"),
    }
}

#[test]
fn weighted_edges_are_built_in_order() {
    let (edges, options) = build_graph(
        IntArray::U64(vec![0, 1]),
        IntArray::I64(vec![1, 2]),
        Some(vec![0.5f64.to_bits(), 2.0f64.to_bits()]),
        Some(4),
        None,
    )
    .unwrap();
    assert_eq!(
        edges,
        vec![
            Edge { src: 0, dst: 1, weight: Some(0.5f64.to_bits()) },
            Edge { src: 1, dst: 2, weight: Some(2.0f64.to_bits()) },
        ]
    );
    assert_eq!(options.node_id_width, NodeIdWidth::U32);
    assert_eq!(options.num_nodes, Some(4));
}

#[test]
fn unweighted_edges_have_no_weight() {
    let (edges, options) = build_graph(
        IntArray::U64(vec![9]),
        IntArray::U64(vec![8]),
        None,
        None,
        Some("u64".to_string()),
    )
    .unwrap();
    assert_eq!(edges, vec![Edge { src: 9, dst: 8, weight: None }]);
    assert_eq!(options, GraphOptions { node_id_width: NodeIdWidth::U64, num_nodes: None });
}

#[test]
fn width_can_be_named() {
    let (_, options) = build_graph(
        IntArray::U64(vec![]),
        IntArray::U64(vec![]),
        None,
        None,
        Some("u32".to_string()),
    )
    .unwrap();
    assert_eq!(options.node_id_width, NodeIdWidth::U32);
    assert_eq!(NodeIdWidth::U32.as_str(), "u32");
    assert_eq!(NodeIdWidth::U64.as_str(), "u64");
}

#[test]
fn graph_arguments_are_refused_in_order() {
    let bad = || IntArray::I64(vec![-1]);
    match refusal(build_graph(bad(), bad(), None, None, None)) {
        Error::Storage(text) => assert_eq!(
            text,
            "src contains a negative node id (-1); node ids are unsigned"
        ),
        _ => panic!("no storage error"),
    }
    match refusal(build_graph(IntArray::U64(vec![1, 2]), bad(), None, None, None)) {
        Error::Storage(text) => assert_eq!(
            text,
            "dst contains a negative node id (-1); node ids are unsigned"
        ),
        _ => panic!("no storage error"),
    }
    assert_eq!(
        value_text(refusal(build_graph(
            IntArray::U64(vec![1, 2]),
            IntArray::U64(vec![1]),
            Some(vec![]),
            None,
            Some("u8".to_string()),
        ))),
        "src length 2 does not match dst length 1"
    );
    assert_eq!(
        value_text(refusal(build_graph(
            IntArray::U64(vec![1, 2]),
            IntArray::U64(vec![3, 4]),
            Some(vec![0]),
            None,
            Some("u8".to_string()),
        ))),
        "weights length 1 does not match edge count 2"
    );
    assert_eq!(
        value_text(refusal(build_graph(
            IntArray::U64(vec![1, 2]),
            IntArray::U64(vec![3, 4]),
            Some(vec![0, 0]),
            None,
            Some("u8".to_string()),
        ))),
        "unknown node_id_width 'u8': expected 'u32' or 'u64'"
    );
}

#[test]
fn graph_round_trip_restores_the_arrays() {
    let weights = vec![1.5f64.to_bits(), 2.5f64.to_bits()];
    let (edges, options) = build_graph(
        IntArray::U64(vec![3, 4]),
        IntArray::U64(vec![5, 6]),
        Some(weights.clone()),
        Some(7),
        Some("u64".to_string()),
    )
    .unwrap();
    let arrays = graph_to_py(StoredGraph {
        edges,
        node_id_width: options.node_id_width,
        num_nodes: 7,
        weighted: true,
    });
    assert_eq!(arrays.src, vec![3, 4]);
    assert_eq!(arrays.dst, vec![5, 6]);
    assert_eq!(arrays.weight, Some(weights));
    assert_eq!(arrays.num_nodes, 7);
    assert!(arrays.weighted);
    assert_eq!(arrays.node_id_width, "u64");
}

#[test]
fn missing_weights_are_zero_or_left_out() {
    let edges = vec![Edge { src: 1, dst: 2, weight: None }];
    let stored = |weighted| StoredGraph {
        edges: edges.clone(),
        node_id_width: NodeIdWidth::U32,
        num_nodes: 3,
        weighted,
    };
    assert_eq!(graph_to_py(stored(true)).weight, Some(vec![0.0f64.to_bits()]));
    let arrays = graph_to_py(stored(false));
    assert_eq!(arrays.weight, None);
    assert!(!arrays.weighted);
    assert_eq!(arrays.node_id_width, "u32");
}
