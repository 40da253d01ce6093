//! Summaries of the datasets of a Zarr root.

use vstd::prelude::*;

verus! {

/// The kind of a node in a Zarr tree.
#[derive(Debug, Clone, Copy, PartialEq, Eq, Structural)]
pub enum NodeKind {
    Array,
    Group,
}

impl NodeKind {
    /// The name of the kind.
    pub open spec fn name(self) -> Seq<char> {
        match self {
            NodeKind::Array => "array"@,
            NodeKind::Group => "group"@,
        }
    }

    /// The name of the kind.
    pub fn as_str(&self) -> (name: &'static str)
        ensures
            name@ == self.name(),
    {
        match self {
            NodeKind::Array => "array",
            NodeKind::Group => "group",
        }
    }
}

/// What is known of one dataset.
pub struct DatasetSummary {
    pub dataset_id: String,
    pub root: String,
    pub path: String,
    pub shape: Vec<u64>,
    pub dtype: String,
    pub chunks: Option<Vec<u64>>,
    /// The fill value as it is written in the metadata.
    pub fill_value: Option<String>,
    pub kind: NodeKind,
}

/// The value of a summary's entry.
pub enum Field {
    Text(String),
    OptionalText(Option<String>),
    Numbers(Vec<u64>),
    OptionalNumbers(Option<Vec<u64>>),
}

/// The entry at `i` is `value` under the name `key`.
pub open spec fn entry_is(dict: Seq<(&'static str, Field)>, i: int, key: Seq<char>, value: Field) -> bool {
    dict[i].0@ == key && dict[i].1 == value
}

/// Whether `dict` holds what is known of a dataset, entry by entry.
pub open spec fn summarizes(dict: Seq<(&'static str, Field)>, summary: DatasetSummary) -> bool {
    &&& dict.len() == 8
    &&& entry_is(dict, 0, "dataset_id"@, Field::Text(summary.dataset_id))
    &&& entry_is(dict, 1, "root"@, Field::Text(summary.root))
    &&& entry_is(dict, 2, "path"@, Field::Text(summary.path))
    &&& entry_is(dict, 3, "shape"@, Field::Numbers(summary.shape))
    &&& entry_is(dict, 4, "dtype"@, Field::Text(summary.dtype))
    &&& entry_is(dict, 5, "chunks"@, Field::OptionalNumbers(summary.chunks))
    &&& entry_is(dict, 6, "fill_value"@, Field::OptionalText(summary.fill_value))
    &&& dict[7].0@ == "kind"@
    &&& dict[7].1 matches Field::Text(text) && text@ == summary.kind.name()
}

/// Lists what is known of a dataset under the names of its entries.
pub fn summary_dict(summary: DatasetSummary) -> (dict: Vec<(&'static str, Field)>)
    ensures
        summarizes(dict@, summary),
{
    let mut dict: Vec<(&'static str, Field)> = Vec::new();
    dict.push(("dataset_id", Field::Text(summary.dataset_id)));
    dict.push(("root", Field::Text(summary.root)));
    dict.push(("path", Field::Text(summary.path)));
    dict.push(("shape", Field::Numbers(summary.shape)));
    dict.push(("dtype", Field::Text(summary.dtype)));
    dict.push(("chunks", Field::OptionalNumbers(summary.chunks)));
    dict.push(("fill_value", Field::OptionalText(summary.fill_value)));
    dict.push(("kind", Field::Text(summary.kind.as_str().to_owned())));
    dict
}

/// Lists what is known of each dataset, in their order.
pub fn summary_dicts(summaries: Vec<DatasetSummary>) -> (dicts: Vec<Vec<(&'static str, Field)>>)
    ensures
        dicts@.len() == summaries@.len(),
        forall|i: int|
            0 <= i < summaries@.len() ==> summarizes((#[trigger] dicts@[i])@, summaries@[i]),
{
    let ghost all = summaries@;
    let mut rest = summaries;
    let mut dicts: Vec<Vec<(&'static str, Field)>> = Vec::new();
    while rest.len() > 0
        invariant
            dicts@.len() + rest@.len() == all.len(),
            rest@ == all.skip(dicts@.len() as int),
            forall|i: int|
                0 <= i < dicts@.len() ==> summarizes((#[trigger] dicts@[i])@, all[i]),
        decreases rest@.len(),
    {
        let summary = rest.remove(0);
        dicts.push(summary_dict(summary));
        assert(rest@ =~= all.skip(dicts@.len() as int));
    }
    dicts
}

/// A summary reports every fact of its dataset under the name of that fact.
pub proof fn law_every_fact_is_reported(dict: Seq<(&'static str, Field)>, summary: DatasetSummary)
    requires
        summarizes(dict, summary),
    ensures
        dict.len() == 8,
        dict[0].0@ == "dataset_id"@ && dict[0].1 == Field::Text(summary.dataset_id),
        dict[1].0@ == "root"@ && dict[1].1 == Field::Text(summary.root),
        dict[2].0@ == "path"@ && dict[2].1 == Field::Text(summary.path),
        dict[3].0@ == "shape"@ && dict[3].1 == Field::Numbers(summary.shape),
        dict[4].0@ == "dtype"@ && dict[4].1 == Field::Text(summary.dtype),
        dict[5].0@ == "chunks"@ && dict[5].1 == Field::OptionalNumbers(summary.chunks),
        dict[6].0@ == "fill_value"@ && dict[6].1 == Field::OptionalText(summary.fill_value),
        dict[7].0@ == "kind"@,
        dict[7].1 matches Field::Text(text) && (summary.kind is Array ==> text@ == "array"@) && (
        summary.kind is Group ==> text@ == "group"@),
{
}

/// Summaries of different datasets differ: two datasets that are reported alike have the same
/// facts.
pub proof fn law_different_datasets_are_reported_differently(
    a_dict: Seq<(&'static str, Field)>,
    a: DatasetSummary,
    b_dict: Seq<(&'static str, Field)>,
    b: DatasetSummary,
)
    requires
        summarizes(a_dict, a),
        summarizes(b_dict, b),
        forall|i: int| 0 <= i < 8 ==> (#[trigger] a_dict[i]).1 == b_dict[i].1,
    ensures
        a.dataset_id == b.dataset_id,
        a.root == b.root,
        a.path == b.path,
        a.shape == b.shape,
        a.dtype == b.dtype,
        a.chunks == b.chunks,
        a.fill_value == b.fill_value,
        a.kind == b.kind,
{
    reveal_strlit("array");
    reveal_strlit("group");
    assert("array"@[0] != "group"@[0]);
    assert(a_dict[0].1 == b_dict[0].1);
    assert(a_dict[1].1 == b_dict[1].1);
    assert(a_dict[2].1 == b_dict[2].1);
    assert(a_dict[3].1 == b_dict[3].1);
    assert(a_dict[4].1 == b_dict[4].1);
    assert(a_dict[5].1 == b_dict[5].1);
    assert(a_dict[6].1 == b_dict[6].1);
    assert(a_dict[7].1 == b_dict[7].1);
}

} // verus!
