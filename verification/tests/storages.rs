use std::path::PathBuf;

use genestore::builder::{create_storage, store_array, Resolution, StorageBuilder};
use genestore::dense::NumpyArray;
use genestore::error::Error;
use genestore::integers::IntArray;
use genestore::run::{Action, Run};
use genestore::storage::{Backend, Storage};

type Start = (Run<u8>, Action<u8>);

fn resolved(dir: &str) -> Resolution {
    Resolution::Resolved {
        root: PathBuf::from(dir),
    }
}

fn build(backend: &str) -> Storage {
    store_array("d".to_string(), Some(backend.to_string()), None)
        .unwrap()
        .build(resolved("/srv/d"))
        .unwrap()
}

fn array(value: f64) -> NumpyArray {
    NumpyArray {
        rows: 1,
        cols: 1,
        cells: vec![value.to_bits()],
    }
}

fn storage_error<T>(result: Result<T, Error>) -> String {
    match result {
        Err(Error::Storage(text)) => text,
        Err(_) => panic!("another error"),
        Ok(_) => panic!("no error"),
    }
}

fn value_error<T>(result: Result<T, Error>) -> String {
    match result {
        Err(Error::Value(text)) => text,
        Err(_) => panic!("another error"),
        Ok(_) => panic!("no error"),
    }
}

#[test]
fn lance_refuses_what_only_zarr_supports() {
    let s = build("lance");
    let name = || "x".to_string();
    assert_eq!(
        storage_error::<Start>(s.append(name(), array(1.0))),
        "append_vectors is not supported on the lance backend; use the zarr backend"
    );
    assert_eq!(
        storage_error::<Start>(s.overwrite(name(), vec![])),
        "overwrite_vectors is not supported on the lance backend; use the zarr backend"
    );
    assert_eq!(
        storage_error::<Start>(s.list_datasets()),
        "list_datasets is not supported on the lance backend; use the zarr backend"
    );
    assert_eq!(
        storage_error::<Start>(s.summary(name())),
        "summary is not supported on the lance backend; use the zarr backend"
    );
}

#[test]
fn zarr_refuses_to_load_collections() {
    let s = build("zarr");
    let name = || "x".to_string();
    assert_eq!(
        storage_error::<Start>(s.load_table(name())),
        "vector collections are not supported on the zarr backend"
    );
    assert_eq!(
        storage_error::<Start>(s.load_sparse(name())),
        "sparse collections are not supported on the zarr backend"
    );
    assert_eq!(
        storage_error::<Start>(s.load_graph(name())),
        "graph collections are not supported on the zarr backend"
    );
}

#[test]
fn arguments_are_checked_before_the_backend() {
    for backend in ["lance", "zarr"] {
        let s = build(backend);
        let text = "Array contains non-finite values (1 NaN, 0 Inf/-Inf). Only arrays with finite values can be stored as embeddings. Please clean your data before storing.";
        assert_eq!(
            value_error::<Start>(s.append("x".to_string(), array(f64::NAN))),
            text
        );
        assert_eq!(
            value_error::<Start>(s.store(array(f64::NAN), "x".to_string())),
            text
        );
        assert_eq!(
            value_error::<Start>(s.store_sparse(
                IntArray::Other,
                IntArray::Other,
                vec![],
                (0, 0),
                "x".to_string()
            )),
            "indptr must be an integer numpy array"
        );
        assert_eq!(
            value_error::<Start>(s.store_sparse(
                IntArray::I64(vec![0]),
                IntArray::I64(vec![-1]),
                vec![],
                (0, 0),
                "x".to_string()
            )),
            "indices has a negative value (-1)"
        );
        assert_eq!(
            value_error::<Start>(s.store_sparse(
                IntArray::I64(vec![0]),
                IntArray::I64(vec![1]),
                vec![],
                (0, 0),
                "x".to_string()
            )),
            "indices length 1 does not match data length 0"
        );
        assert_eq!(
            value_error::<Start>(s.store_graph(
                "g".to_string(),
                IntArray::U64(vec![1]),
                IntArray::U64(vec![]),
                None,
                None,
                None
            )),
            "src length 1 does not match dst length 0"
        );
    }
}

#[test]
fn awaited_operations_start_like_the_others() {
    for backend in ["lance", "zarr"] {
        let s = build(backend);
        let aio = s.aio();
        assert_eq!(aio.repr(), "StorageAsync()");
        let now: Start = s.store(array(1.0), "x".to_string()).unwrap();
        let awaited: Start = aio.store(array(1.0), "x".to_string()).unwrap();
        match (now.1, awaited.1) {
            (Action::ProbeLance { base: a }, Action::ProbeLance { base: b }) => assert_eq!(a, b),
            (Action::ProbeRegistry, Action::ProbeRegistry) => {}
            _ => panic!("different actions"),
        }
        let now: Start = s.load("x".to_string()).unwrap();
        let awaited: Start = aio.load("x".to_string()).unwrap();
        match (now.1, awaited.1) {
            (Action::ProbeLance { base: a }, Action::ProbeLance { base: b }) => assert_eq!(a, b),
            (Action::LoadDense { key: a }, Action::LoadDense { key: b }) => assert_eq!(a, b),
            _ => panic!("different actions"),
        }
    }
    let aio = build("lance").aio();
    assert_eq!(
        storage_error::<Start>(aio.append("x".to_string(), array(1.0))),
        "append_vectors is not supported on the lance backend; use the zarr backend"
    );
    assert_eq!(
        storage_error::<Start>(aio.overwrite("x".to_string(), vec![])),
        "overwrite_vectors is not supported on the lance backend; use the zarr backend"
    );
    let aio = build("zarr").aio();
    let (_, action): Start = aio.append("x".to_string(), array(1.0)).unwrap();
    assert!(matches!(&action, Action::Append { id, .. } if id == "d--x"));
    let (_, action): Start = aio.overwrite("x".to_string(), vec![]).unwrap();
    assert!(matches!(&action, Action::Overwrite { id, .. } if id == "d--x"));
}

#[test]
fn names_are_resolved_by_the_backend() {
    let lance = build("lance");
    assert_eq!(lance.make_dataset_id("d--a"), "d--a");
    assert_eq!(lance.dataset_key("d--a"), "d--a");
    assert_eq!(lance.backend.zarr_label(), "");
    let zarr = build("zarr");
    assert_eq!(zarr.make_dataset_id("a/b"), "d--a--b");
    assert_eq!(zarr.dataset_key("a/b"), "a/b");
    assert_eq!(zarr.dataset_key("d--a--b"), "a/b");
    assert_eq!(zarr.backend.zarr_label(), "d");
}

#[test]
fn storages_describe_themselves() {
    let lance = build("lance");
    assert_eq!(
        lance.get_config(),
        "LanceStorage(output_dir='/srv/d', max_rows_per_file=1000000, max_rows_per_group=10000, compression='zstd')"
    );
    assert_eq!(lance.repr(), "LanceStorage(output_dir='/srv/d')");
    assert_eq!(lance.get_output_dir(), "/srv/d");
    let zarr = build("zarr");
    assert_eq!(zarr.get_config(), "ZarrStorage(root='/srv/d', label='d')");
    assert_eq!(zarr.repr(), "ZarrStorage(root='/srv/d', label='d')");
    assert_eq!(zarr.get_output_dir(), "/srv/d");
}

#[test]
fn builder_settings_reach_the_storage() {
    let mut b = StorageBuilder::new(
        "a".to_string(),
        None,
        None,
        Some(1),
        Some(2),
        Some("none".to_string()),
    )
    .unwrap();
    assert_eq!(b.repr(), "StorageBuilder(output_dir='a', backend='lance')");
    b.with_output_dir("e".to_string()).unwrap();
    b.with_max_rows_per_file(500_000).unwrap();
    b.with_max_rows_per_group(77).unwrap();
    b.with_compression("lz4".to_string()).unwrap();
    assert_eq!(b.output_dir, "e");
    assert_eq!(b.repr(), "StorageBuilder(output_dir='e', backend='lance')");
    assert_eq!(
        b.build(resolved("/srv/e")).unwrap().get_config(),
        "LanceStorage(output_dir='/srv/e', max_rows_per_file=500000, max_rows_per_group=77, compression='lz4')"
    );
}

#[test]
fn label_is_chosen_then_taken_from_the_directory() {
    let mut b = store_array("d".to_string(), Some("zarr".to_string()), None).unwrap();
    assert_eq!(b.build(resolved("/srv/d")).unwrap().backend.zarr_label(), "d");
    assert_eq!(b.build(resolved("/")).unwrap().backend.zarr_label(), "genestore");
    b.with_label("mine".to_string()).unwrap();
    assert_eq!(b.build(resolved("/srv/d")).unwrap().backend.zarr_label(), "mine");
    let c = store_array(
        "d".to_string(),
        Some("zarr".to_string()),
        Some("yours".to_string()),
    )
    .unwrap();
    assert_eq!(c.build(resolved("/srv/d")).unwrap().backend.zarr_label(), "yours");
}

#[test]
fn labels_that_cannot_head_an_identifier_are_refused() {
    for label in ["", "a--b", "a/b", "a\\b"] {
        let b = store_array(
            "d".to_string(),
            Some("zarr".to_string()),
            Some(label.to_string()),
        )
        .unwrap();
        assert_eq!(
            storage_error(b.build(resolved("/srv/d"))),
            format!(
                "Invalid data: invalid root label '{label}': must be non-empty and free of '--', '/' and '\\'"
            )
        );
    }
}

#[test]
fn unknown_backends_are_refused() {
    for name in ["", "Lance", "parquet"] {
        assert_eq!(
            value_error(store_array("d".to_string(), Some(name.to_string()), None)),
            format!("unknown backend '{name}': expected 'lance' or 'zarr'")
        );
        assert_eq!(
            value_error(create_storage("d".to_string(), Some(name.to_string()), None)),
            format!("unknown backend '{name}': expected 'lance' or 'zarr'")
        );
    }
}

#[test]
fn directories_that_cannot_be_prepared_are_reported() {
    let b = create_storage("d".to_string(), None, None).unwrap();
    match b.build(Resolution::NotCreated("denied".to_string())) {
        Err(Error::Storage(text)) => assert_eq!(text, "Failed to create directory: denied"),
        _ => panic!("no storage error"),
    }
    match b.build(Resolution::NotResolved("gone".to_string())) {
        Err(Error::Storage(text)) => assert_eq!(text, "Failed to resolve directory: gone"),
        _ => panic!("no storage error"),
    }
}

#[test]
fn default_backend_is_lance() {
    let b = create_storage("d".to_string(), None, None).unwrap();
    assert_eq!(b.backend, "lance");
    assert!(matches!(
        b.build(resolved("/srv/d")).unwrap().backend,
        Backend::Lance(_)
    ));
}

#[test]
fn each_directory_is_its_own_storage() {
    let one = store_array("d".to_string(), None, None).unwrap();
    let two = create_storage("d".to_string(), None, None).unwrap();
    let first = one.build(resolved("/srv/d")).unwrap();
    let second = two.build(resolved("/srv/d")).unwrap();
    let third = two.build(resolved("/srv/e")).unwrap();
    assert_eq!(first.get_output_dir(), second.get_output_dir());
    assert_ne!(first.get_output_dir(), third.get_output_dir());
}

#[test]
fn settings_do_not_change_how_an_operation_starts() {
    let plain = store_array("d".to_string(), None, None).unwrap();
    let mut tuned = store_array("d".to_string(), None, None).unwrap();
    tuned.with_max_rows_per_file(3).unwrap();
    tuned.with_compression("none".to_string()).unwrap();
    for builder in [plain, tuned] {
        let (run, action): Start = builder
            .build(resolved("/srv/d"))
            .unwrap()
            .store(array(1.0), "x".to_string())
            .unwrap();
        assert!(matches!(&action, Action::ProbeLance { base } if base == "/srv/d"));
        assert!(
            matches!(&run, Run::LanceProbe { base, name, .. } if base == "/srv/d" && name == "x")
        );
    }
}
