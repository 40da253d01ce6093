use genestore::datasets::{zarr_dataset_id, zarr_dataset_key};
use genestore::summary::{summary_dict, summary_dicts, DatasetSummary, Field, NodeKind};

#[test]
fn plain_names_are_put_under_the_label() {
    assert_eq!(zarr_dataset_id("root", "dataset"), "root--dataset");
    assert_eq!(zarr_dataset_id("root", "a/b/c"), "root--a--b--c");
    assert_eq!(zarr_dataset_key("root", "dataset"), "dataset");
    assert_eq!(zarr_dataset_key("root", "a/b/c"), "a/b/c");
}

#[test]
fn fringes_and_empty_parts_are_dropped() {
    assert_eq!(zarr_dataset_id("root", "./a//b/"), "root--a--b");
    assert_eq!(zarr_dataset_id("root", "a\\b"), "root--a--b");
    assert_eq!(zarr_dataset_id("root", ""), "root");
    assert_eq!(zarr_dataset_id("root", "."), "root");
    assert_eq!(zarr_dataset_id("root", ".hidden"), "root--hidden");
    assert_eq!(zarr_dataset_key("root", ".hidden"), ".hidden");
}

#[test]
fn identifiers_of_the_root_keep_their_path() {
    assert_eq!(zarr_dataset_id("root", "root--a--b"), "root--a/b");
    assert_eq!(zarr_dataset_key("root", "root--a--b"), "a/b");
    assert_eq!(zarr_dataset_id("root", "root"), "root--.");
    assert_eq!(zarr_dataset_key("root", "root"), ".");
}

#[test]
fn identifiers_of_other_roots_are_plain_names() {
    assert_eq!(zarr_dataset_key("root", "other--a"), "other--a");
    assert_eq!(zarr_dataset_id("root", "other--a"), "root--other--a");
}

#[test]
fn name_and_identifier_lead_to_the_same_dataset() {
    for name in ["dataset", "a/b", "root--a--b", "root", "."] {
        let id = zarr_dataset_id("root", name);
        assert_eq!(zarr_dataset_key("root", &id), zarr_dataset_key("root", name));
        let (label, path) = genegraph_storage::zarr_storage::decode_dataset_id(&id);
        assert_eq!(label, "root");
        assert_eq!(path, zarr_dataset_key("root", name));
    }
}

fn dataset(kind: NodeKind) -> DatasetSummary {
    DatasetSummary {
        dataset_id: "root--a".to_string(),
        root: "root".to_string(),
        path: "a".to_string(),
        shape: vec![3, 4],
        dtype: "float64".to_string(),
        chunks: Some(vec![1, 4]),
        fill_value: Some("0.0".to_string()),
        kind,
    }
}

fn text(field: &Field) -> &str {
    match field {
        Field::Text(text) => text,
        _ => panic!("no text"),
    }
}

#[test]
fn summaries_list_their_entries_in_order() {
    let dict = summary_dict(dataset(NodeKind::Array));
    let keys: Vec<&str> = dict.iter().map(|(key, _)| *key).collect();
    assert_eq!(
        keys,
        vec!["dataset_id", "root", "path", "shape", "dtype", "chunks", "fill_value", "kind"]
    );
    assert_eq!(text(&dict[0].1), "root--a");
    assert_eq!(text(&dict[1].1), "root");
    assert_eq!(text(&dict[2].1), "a");
    assert!(matches!(&dict[3].1, Field::Numbers(n) if *n == vec![3, 4]));
    assert_eq!(text(&dict[4].1), "float64");
    assert!(matches!(&dict[5].1, Field::OptionalNumbers(Some(n)) if *n == vec![1, 4]));
    assert!(matches!(&dict[6].1, Field::OptionalText(Some(t)) if t == "0.0"));
    assert_eq!(text(&dict[7].1), "array");
}

#[test]
fn summaries_keep_their_order() {
    let mut group = dataset(NodeKind::Group);
    group.chunks = None;
    group.fill_value = None;
    let dicts = summary_dicts(vec![dataset(NodeKind::Array), group]);
    assert_eq!(dicts.len(), 2);
    assert_eq!(text(&dicts[0][7].1), "array");
    assert_eq!(text(&dicts[1][7].1), "group");
    assert!(matches!(&dicts[1][5].1, Field::OptionalNumbers(None)));
    assert!(matches!(&dicts[1][6].1, Field::OptionalText(None)));
}
