use std::collections::BTreeMap;
use std::path::PathBuf;

use genegraph_storage::lance_storage_graph::LanceStorageGraph;
use genegraph_storage::StorageError;
use genestore::builder::{Resolution, StorageBuilder};
use genestore::dense::{dense_to_flat, NumpyArray};
use genestore::error::Error;
use genestore::graph::{Edge, NodeIdWidth, StoredGraph};
use genestore::integers::IntArray;
use genestore::run::{Action, Event, Outcome, RowUpdate, Run};
use genestore::sparse::SparseRows;
use genestore::storage::Storage;
use genestore::summary::{DatasetSummary, NodeKind};

type Batch = &'static str;
type Start = (Run<Batch>, Action<Batch>);

fn build(backend: &str) -> Storage {
    let builder = StorageBuilder::new(
        "data".to_string(),
        Some(backend.to_string()),
        None,
        None,
        None,
        None,
    )
    .unwrap();
    builder
        .build(Resolution::Resolved {
            root: PathBuf::from("/tmp/data"),
        })
        .unwrap()
}

fn array() -> NumpyArray {
    NumpyArray {
        rows: 2,
        cols: 1,
        cells: vec![1.5f64.to_bits(), 2.5f64.to_bits()],
    }
}

fn failure(action: Action<Batch>) -> String {
    match action {
        Action::Fail(Error::Storage(text)) => text,
        _ => panic!("no storage error"),
    }
}

fn answer(action: Action<Batch>) -> String {
    match action {
        Action::Finish(Outcome::Text(text)) => text,
        _ => panic!("no answer"),
    }
}

#[test]
fn new_lance_store_is_seeded_and_answers_with_its_metadata() {
    let (run, action): Start = build("lance").store(array(), "x".to_string()).unwrap();
    assert!(matches!(&action, Action::ProbeLance { base } if base == "/tmp/data"));
    assert!(run.lance().is_none());
    let (run, action) = run.step(Event::Exists(false));
    assert!(
        matches!(&action, Action::Seed { name, rows, cols } if name == "x" && *rows == 2 && *cols == 1)
    );
    assert!(run.lance().is_some());
    let (run, action) = run.step(Event::Done);
    match &action {
        Action::SaveDense { key, matrix } => {
            assert_eq!(key, "x");
            assert_eq!(
                dense_to_flat(matrix),
                (2, 1, vec![1.5f64.to_bits(), 2.5f64.to_bits()])
            );
        }
        _ => panic!("no save"),
    }
    let (run, action) = run.step(Event::Done);
    assert!(matches!(run, Run::Over));
    assert_eq!(answer(action), "/tmp/data/x_metadata.json");
}

#[test]
fn existing_lance_store_is_opened_and_not_seeded() {
    let (run, _): Start = build("lance").store(array(), "x".to_string()).unwrap();
    let (run, action) = run.step(Event::Exists(true));
    assert!(matches!(&action, Action::OpenLance { base } if base == "/tmp/data"));
    let opened = LanceStorageGraph::new("/tmp/data".to_string(), "first".to_string()).unwrap();
    let (run, action) = run.step(Event::Opened(opened));
    assert!(matches!(&action, Action::SaveDense { key, .. } if key == "x"));
    let (_, action) = run.step(Event::Done);
    assert_eq!(answer(action), "/tmp/data/first_metadata.json");
}

#[test]
fn reserved_name_cannot_found_a_store() {
    let (run, _): Start = build("lance").store(array(), "x__g12".to_string()).unwrap();
    let (run, action) = run.step(Event::Exists(false));
    assert!(matches!(run, Run::Over));
    assert_eq!(
        failure(action),
        "Invalid data: instance name `x__g12` carries the reserved generation suffix `__g<n>`; generation handles are minted only via scoped_generation"
    );
    for name in ["x__g", "x__g1a", "__g18446744073709551616", "x_g1"] {
        let (run, _): Start = build("lance").store(array(), name.to_string()).unwrap();
        let (_, action) = run.step(Event::Exists(false));
        assert!(matches!(action, Action::Seed { .. }));
    }
    let (run, _): Start = build("lance")
        .store(array(), "__g18446744073709551615".to_string())
        .unwrap();
    let (_, action) = run.step(Event::Exists(false));
    assert!(matches!(action, Action::Fail(_)));
}

#[test]
fn reading_a_missing_lance_store_is_refused() {
    let storage = build("lance");
    let starts: Vec<Start> = vec![
        storage.load("x".to_string()).unwrap(),
        storage.load_table("x".to_string()).unwrap(),
        storage.load_sparse("x".to_string()).unwrap(),
        storage.load_graph("x".to_string()).unwrap(),
    ];
    for (run, _) in starts {
        let (run, action) = run.step(Event::Exists(false));
        assert!(matches!(run, Run::Over));
        assert_eq!(
            failure(action),
            "storage at /tmp/data is not initialized; store an array first"
        );
    }
}

#[test]
fn loaded_array_is_handed_out_as_it_was_saved() {
    let storage = build("lance");
    let (run, _): Start = storage.store(array(), "x".to_string()).unwrap();
    let (run, _) = run.step(Event::Exists(false));
    let (_, action) = run.step(Event::Done);
    let (saved_key, matrix) = match action {
        Action::SaveDense { key, matrix } => (key, matrix),
        _ => panic!("no save"),
    };
    let (run, _): Start = storage.load("x".to_string()).unwrap();
    let (run, _) = run.step(Event::Exists(true));
    let opened = LanceStorageGraph::new("/tmp/data".to_string(), "x".to_string()).unwrap();
    let (run, action) = run.step(Event::Opened(opened));
    assert!(matches!(&action, Action::LoadDense { key } if *key == saved_key));
    let (_, action) = run.step(Event::LoadedDense(matrix));
    match action {
        Action::Finish(Outcome::Array { rows, cols, cells }) => {
            assert_eq!((rows, cols), (2, 1));
            assert_eq!(cells, array().cells);
        }
        _ => panic!("no array"),
    }
}

#[test]
fn kernel_failures_end_a_run_with_their_message() {
    let storage = build("lance");
    let (run, _): Start = storage.load("x".to_string()).unwrap();
    let (run, _) = run.step(Event::Exists(true));
    let (run, action) = run.step(Event::Failed(StorageError::Invalid("gone".to_string())));
    assert!(matches!(run, Run::Over));
    assert_eq!(failure(action), "Invalid data: gone");

    let (run, _): Start = build("zarr").store(array(), "x".to_string()).unwrap();
    let (run, _) = run.step(Event::Exists(false));
    let (_, action) = run.step(Event::Failed(StorageError::Invalid("seed".to_string())));
    assert_eq!(failure(action), "Invalid data: seed");
}

#[test]
fn zarr_registry_is_seeded_with_the_label() {
    let (run, action): Start = build("zarr").store(array(), "a/b".to_string()).unwrap();
    assert!(matches!(action, Action::ProbeRegistry));
    assert!(run.zarr().is_some());
    let (run, action) = run.step(Event::Exists(false));
    assert!(
        matches!(&action, Action::Seed { name, rows, cols } if name == "data" && *rows == 2 && *cols == 1)
    );
    let (run, action) = run.step(Event::Done);
    assert!(matches!(&action, Action::SaveDense { key, .. } if key == "a/b"));
    let (_, action) = run.step(Event::Done);
    assert_eq!(answer(action), "/tmp/data/data--a--b");
}

#[test]
fn zarr_registry_that_exists_is_kept() {
    let (run, _): Start = build("zarr")
        .store(array(), "data--a--b".to_string())
        .unwrap();
    let (run, action) = run.step(Event::Exists(true));
    assert!(matches!(&action, Action::SaveDense { key, .. } if key == "a/b"));
    let (_, action) = run.step(Event::Done);
    assert_eq!(answer(action), "/tmp/data/data--a/b");
}

#[test]
fn zarr_rows_are_changed_by_identifier() {
    let storage = build("zarr");
    let (run, action): Start = storage.append("a/b".to_string(), array()).unwrap();
    match &action {
        Action::Append { id, matrix } => {
            assert_eq!(id, "data--a--b");
            assert_eq!(dense_to_flat(matrix).2, array().cells);
        }
        _ => panic!("no append"),
    }
    let (_, action) = run.step(Event::Appended { start: 7, rows: 2 });
    assert!(matches!(
        action,
        Action::Finish(Outcome::Appended { start: 7, rows: 2 })
    ));

    let updates = vec![RowUpdate {
        row_index: 5,
        vector: vec![1],
    }];
    let (run, action): Start = storage.overwrite("x".to_string(), updates).unwrap();
    match &action {
        Action::Overwrite { id, updates } => {
            assert_eq!(id, "data--x");
            assert_eq!(updates.len(), 1);
            assert_eq!(updates[0].row_index, 5);
            assert_eq!(updates[0].vector, vec![1]);
        }
        _ => panic!("no overwrite"),
    }
    let (_, action) = run.step(Event::Overwritten { rows: 1 });
    assert!(matches!(
        action,
        Action::Finish(Outcome::Overwritten { rows: 1 })
    ));
}

fn summary(id: &str) -> DatasetSummary {
    DatasetSummary {
        dataset_id: id.to_string(),
        root: "data".to_string(),
        path: "x".to_string(),
        shape: vec![2, 1],
        dtype: "float64".to_string(),
        chunks: None,
        fill_value: None,
        kind: NodeKind::Array,
    }
}

#[test]
fn zarr_datasets_are_listed_and_summarized() {
    let storage = build("zarr");
    let (run, action): Start = storage.list_datasets().unwrap();
    assert!(matches!(action, Action::List));
    let (_, action) = run.step(Event::Listed(vec![summary("data--x"), summary("data--y")]));
    match action {
        Action::Finish(Outcome::Datasets(dicts)) => assert_eq!(dicts.len(), 2),
        _ => panic!("no list"),
    }
    let (run, action): Start = storage.summary("x".to_string()).unwrap();
    assert!(matches!(&action, Action::Summarize { id } if id == "data--x"));
    let (_, action) = run.step(Event::Summarized(summary("data--x")));
    match action {
        Action::Finish(Outcome::Dataset(dict)) => {
            assert_eq!(dict.len(), 8);
            assert_eq!(dict[0].0, "dataset_id");
        }
        _ => panic!("no summary"),
    }
}

#[test]
fn tables_carry_their_properties_to_lance_only() {
    let mut properties = BTreeMap::new();
    properties.insert("origin".to_string(), "ingest".to_string());
    let (run, _): Start = build("lance")
        .store_table("batch", 9, "v".to_string(), Some(properties.clone()))
        .unwrap();
    let (run, action) = run.step(Event::Exists(false));
    assert!(
        matches!(&action, Action::Seed { name, rows, cols } if name == "v" && *rows == 9 && *cols == 0)
    );
    let (run, action) = run.step(Event::Done);
    match &action {
        Action::SaveTable {
            key,
            batch,
            properties: written,
        } => {
            assert_eq!(key, "v");
            assert_eq!(*batch, "batch");
            assert_eq!(*written, properties);
        }
        _ => panic!("no save"),
    }
    let (_, action) = run.step(Event::Done);
    assert_eq!(answer(action), "/tmp/data/v_v.lance");

    let (run, action): Start = build("zarr")
        .store_table("batch", 9, "data--v".to_string(), Some(properties))
        .unwrap();
    match &action {
        Action::SaveTable {
            key,
            properties: written,
            ..
        } => {
            assert_eq!(key, "v");
            assert!(written.is_empty());
        }
        _ => panic!("no save"),
    }
    let (_, action) = run.step(Event::Done);
    assert_eq!(answer(action), "v");
}

#[test]
fn loaded_table_is_handed_out() {
    let (run, _): Start = build("lance").load_table("v".to_string()).unwrap();
    let (run, _) = run.step(Event::Exists(true));
    let opened = LanceStorageGraph::new("/tmp/data".to_string(), "x".to_string()).unwrap();
    let (run, action) = run.step(Event::Opened(opened));
    assert!(matches!(&action, Action::LoadTable { key } if key == "v"));
    let (_, action) = run.step(Event::LoadedTable("batch"));
    assert!(matches!(action, Action::Finish(Outcome::Table("batch"))));
}

#[test]
fn sparse_matrices_are_saved_and_loaded() {
    let storage = build("lance");
    let (run, _): Start = storage
        .store_sparse(
            IntArray::I32(vec![0, 1, 2]),
            IntArray::I64(vec![1, 0]),
            vec![10, 20],
            (2, 3),
            "adjacency".to_string(),
        )
        .unwrap();
    let (run, action) = run.step(Event::Exists(false));
    assert!(matches!(&action, Action::Seed { rows: 2, cols: 3, .. }));
    let (run, action) = run.step(Event::Done);
    match &action {
        Action::SaveSparse { key, triplets } => {
            assert_eq!(key, "adjacency");
            let entries: Vec<(usize, usize, u64)> = triplets
                .triplet_iter()
                .map(|(v, (r, c))| (r, c, *v))
                .collect();
            assert_eq!(entries, vec![(0, 1, 10), (1, 0, 20)]);
        }
        _ => panic!("no save"),
    }
    let (_, action) = run.step(Event::Done);
    assert_eq!(answer(action), "/tmp/data/adjacency_adjacency.lance");

    let (run, _): Start = storage.load_sparse("adjacency".to_string()).unwrap();
    let (run, _) = run.step(Event::Exists(true));
    let opened = LanceStorageGraph::new("/tmp/data".to_string(), "x".to_string()).unwrap();
    let (run, action) = run.step(Event::Opened(opened));
    assert!(matches!(&action, Action::LoadSparse { key } if key == "adjacency"));
    let (_, action) = run.step(Event::LoadedSparse(SparseRows {
        rows: vec![vec![(1, 10)], vec![(0, 20)]],
        shape: (2, 3),
    }));
    match action {
        Action::Finish(Outcome::Sparse(parts)) => {
            assert_eq!(parts.indptr, vec![0, 1, 2]);
            assert_eq!(parts.indices, vec![1, 0]);
            assert_eq!(parts.data, vec![10, 20]);
        }
        _ => panic!("no matrix"),
    }
}

#[test]
fn graphs_are_saved_and_loaded() {
    let storage = build("lance");
    let (run, _): Start = storage
        .store_graph(
            "g".to_string(),
            IntArray::U64(vec![0]),
            IntArray::U64(vec![1]),
            None,
            Some(4),
            None,
        )
        .unwrap();
    let (run, action) = run.step(Event::Exists(false));
    assert!(matches!(&action, Action::Seed { rows: 4, cols: 0, .. }));
    let (run, action) = run.step(Event::Done);
    match &action {
        Action::SaveGraph {
            key,
            edges,
            options,
        } => {
            assert_eq!(key, "g");
            assert_eq!(*edges, vec![Edge { src: 0, dst: 1, weight: None }]);
            assert_eq!(options.num_nodes, Some(4));
        }
        _ => panic!("no save"),
    }
    let (_, action) = run.step(Event::Done);
    assert_eq!(answer(action), "/tmp/data/g_g.lance");

    let (run, _): Start = storage.load_graph("g".to_string()).unwrap();
    let (run, _) = run.step(Event::Exists(true));
    let opened = LanceStorageGraph::new("/tmp/data".to_string(), "x".to_string()).unwrap();
    let (run, _) = run.step(Event::Opened(opened));
    let (_, action) = run.step(Event::LoadedGraph(StoredGraph {
        edges: vec![Edge { src: 0, dst: 1, weight: None }],
        node_id_width: NodeIdWidth::U32,
        num_nodes: 4,
        weighted: false,
    }));
    match action {
        Action::Finish(Outcome::Graph(arrays)) => {
            assert_eq!(arrays.src, vec![0]);
            assert_eq!(arrays.dst, vec![1]);
            assert_eq!(arrays.weight, None);
            assert_eq!(arrays.num_nodes, 4);
        }
        _ => panic!("no graph"),
    }
}

#[test]
fn zarr_collections_are_saved_at_once() {
    let storage = build("zarr");
    let (run, action): Start = storage
        .store_sparse(
            IntArray::U32(vec![0, 1]),
            IntArray::U64(vec![0]),
            vec![10],
            (1, 1),
            "data--m".to_string(),
        )
        .unwrap();
    assert!(matches!(&action, Action::SaveSparse { key, .. } if key == "m"));
    let (_, action) = run.step(Event::Done);
    assert_eq!(answer(action), "m");

    let (run, action): Start = storage
        .store_graph(
            "g".to_string(),
            IntArray::U64(vec![]),
            IntArray::U64(vec![]),
            None,
            None,
            None,
        )
        .unwrap();
    assert!(matches!(&action, Action::SaveGraph { key, .. } if key == "g"));
    let (_, action) = run.step(Event::Done);
    assert_eq!(answer(action), "g");
}

#[test]
fn refused_store_leaves_the_dataset() {
    let storage = build("zarr");
    let (run, _): Start = storage.store(array(), "x".to_string()).unwrap();
    let (_, action) = run.step(Event::Exists(true));
    let (first_key, matrix) = match action {
        Action::SaveDense { key, matrix } => (key, matrix),
        _ => panic!("no save"),
    };
    let second = NumpyArray {
        rows: 1,
        cols: 1,
        cells: vec![9.0f64.to_bits()],
    };
    let (run, _): Start = storage.store(second, "x".to_string()).unwrap();
    let (run, action) = run.step(Event::Exists(true));
    assert!(matches!(&action, Action::SaveDense { key, .. } if *key == first_key));
    let (run, action) = run.step(Event::Failed(StorageError::Invalid("exists".to_string())));
    assert!(matches!(run, Run::Over));
    assert_eq!(failure(action), "Invalid data: exists");
    let (run, action): Start = storage.load("x".to_string()).unwrap();
    assert!(matches!(&action, Action::LoadDense { key } if *key == first_key));
    let (_, action) = run.step(Event::LoadedDense(matrix));
    match action {
        Action::Finish(Outcome::Array { rows, cols, cells }) => {
            assert_eq!((rows, cols), (2, 1));
            assert_eq!(cells, array().cells);
        }
        _ => panic!("no array"),
    }
}

#[test]
fn second_storage_of_a_directory_loads_what_the_first_stored() {
    for backend in ["lance", "zarr"] {
        let (one, two) = (build(backend), build(backend));
        let (run, probed): Start = one.store(array(), "a/b".to_string()).unwrap();
        let (run, action) = run.step(Event::Exists(false));
        assert!(matches!(action, Action::Seed { .. }));
        let (_, action) = run.step(Event::Done);
        let (saved, matrix) = match action {
            Action::SaveDense { key, matrix } => (key, matrix),
            _ => panic!("no save"),
        };
        let (run, asked): Start = two.load("a/b".to_string()).unwrap();
        let (run, asked) = match (probed, asked) {
            (Action::ProbeLance { base: p }, Action::ProbeLance { base: q }) => {
                assert_eq!(p, q);
                let (run, action) = run.step(Event::Exists(true));
                assert!(matches!(&action, Action::OpenLance { base } if *base == p));
                let opened = LanceStorageGraph::new(p, "a".to_string()).unwrap();
                run.step(Event::Opened(opened))
            }
            (_, asked) => (run, asked),
        };
        assert!(matches!(&asked, Action::LoadDense { key } if *key == saved));
        let (_, action) = run.step(Event::LoadedDense(matrix));
        match action {
            Action::Finish(Outcome::Array { cells, .. }) => assert_eq!(cells, array().cells),
            _ => panic!("no array"),
        }
    }
}

fn store_to_the_end(start: Start) -> (Vec<String>, String) {
    let mut log = Vec::new();
    let (mut run, mut action) = start;
    loop {
        let event = match action {
            Action::ProbeLance { base } => {
                log.push(format!("probe {base}"));
                Event::Exists(false)
            }
            Action::ProbeRegistry => {
                log.push("probe registry".to_string());
                Event::Exists(false)
            }
            Action::Seed { name, rows, cols } => {
                log.push(format!("seed {name} {rows} {cols}"));
                Event::Done
            }
            Action::SaveDense { key, matrix } => {
                log.push(format!("save {key} {:?}", dense_to_flat(&matrix)));
                Event::Done
            }
            other => return (log, answer(other)),
        };
        let next = run.step(event);
        run = next.0;
        action = next.1;
    }
}

#[test]
fn awaited_store_is_the_same_to_the_end() {
    for backend in ["lance", "zarr"] {
        let storage = build(backend);
        let now = store_to_the_end(storage.store(array(), "x".to_string()).unwrap());
        let awaited = store_to_the_end(storage.aio().store(array(), "x".to_string()).unwrap());
        assert_eq!(now, awaited);
        assert_eq!(now.0.len(), 3);
    }
}

#[test]
fn settings_change_nothing_to_the_end() {
    let mut tuned = StorageBuilder::new(
        "data".to_string(),
        None,
        None,
        Some(1),
        Some(2),
        Some("none".to_string()),
    )
    .unwrap();
    tuned.with_max_rows_per_group(3).unwrap();
    let tuned = tuned
        .build(Resolution::Resolved {
            root: PathBuf::from("/tmp/data"),
        })
        .unwrap();
    let plain = build("lance");
    assert_ne!(plain.get_config(), tuned.get_config());
    assert_eq!(
        store_to_the_end(plain.store(array(), "x".to_string()).unwrap()),
        store_to_the_end(tuned.store(array(), "x".to_string()).unwrap())
    );
}
