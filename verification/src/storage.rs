//! Storages: a backend, and the operations that it supports.
//!
//! An operation checks its arguments, and then either refuses or starts a run.

use genegraph_storage::zarr_storage::ZarrStorage;
use smartcore::linalg::basic::matrix::DenseMatrix;
use sprs::TriMat;
use std::collections::BTreeMap;
use std::sync::Arc;
use vstd::prelude::*;

use crate::datasets::{
    dataset_id, dataset_key, id_label, id_path, law_a_name_is_its_own_key, law_same_dataset, plain_path,
    valid_label, zarr_dataset_id, zarr_dataset_key,
};
use crate::dense::{
    array_refusal, law_dense_round_trip, matrix_cells, matrix_shape, numpy_to_dense, NumpyArray,
};
use crate::error::Error;
use crate::graph::{
    build_graph, describes_graph, edge_list, graph_refusal, law_accepted_graphs,
    law_edges_are_written_in_place, law_edges_join_the_arrays, law_graph_round_trip,
    law_width_is_the_one_named, text_view, weights_view, width_named, Edge, GraphOptions, NodeIdWidth,
    StoredGraph,
};
use crate::integers::{
    count, index_list, index_refusal, index_view, law_indices_are_the_numbers,
    law_node_ids_are_the_numbers, node_id_view, number_at, IntArray,
};
use crate::kernel::{kernel_error_text, lance_base, share};
use crate::run::{
    begin, does, is_history, law_everything_is_handed_out, law_nothing_is_lost_on_the_way,
    law_same_events_same_actions, same_action, same_error, same_run, Action, Event, Job, Kind, Outcome,
    RowUpdate, Run,
};
use crate::sparse::{
    canonical_parts, collected, csr_from_parts, csr_refusal, describes, distinct, entries_of_row,
    increasing, joined, law_accepted_arrays, law_canonical_form_is_kept,
    law_entries_are_collected_in_place, law_sparse_entries_come_back, law_sparse_round_trip, parts_of,
    parts_row, row_entries, rows_view, same_entries, triplet_shape, triplets, SparseRows,
};
use crate::summary::{law_every_fact_is_reported, summarizes, DatasetSummary, Field};
use crate::text::{decimal, size_text};

verus! {

/// A directory in Lance format, with the settings under which it is written.
pub struct LanceInner {
    pub base: String,
    pub max_rows_per_file: usize,
    pub max_rows_per_group: usize,
    pub compression: String,
}

impl Clone for LanceInner {
    fn clone(&self) -> (other: Self)
        ensures
            other == *self,
    {
        LanceInner {
            base: self.base.clone(),
            max_rows_per_file: self.max_rows_per_file,
            max_rows_per_group: self.max_rows_per_group,
            compression: self.compression.clone(),
        }
    }
}

/// Where a storage keeps its data.
pub enum Backend {
    Lance(LanceInner),
    Zarr { storage: Arc<ZarrStorage>, label: String, root: String },
}

impl Clone for Backend {
    fn clone(&self) -> (other: Self)
        ensures
            other == *self,
    {
        match self {
            Backend::Lance(inner) => Backend::Lance(inner.clone()),
            Backend::Zarr { storage, label, root } => Backend::Zarr {
                storage: share(storage),
                label: label.clone(),
                root: root.clone(),
            },
        }
    }
}

impl Backend {
    /// The label of a Zarr root can head an identifier.
    pub open spec fn wf(self) -> bool {
        self matches Backend::Zarr { label, .. } ==> valid_label(label@)
    }

    /// The identifier of a dataset.
    pub open spec fn id_view(self, name: Seq<char>) -> Seq<char> {
        match self {
            Backend::Lance(_) => name,
            Backend::Zarr { label, .. } => dataset_id(label@, name),
        }
    }

    /// The key of a dataset.
    pub open spec fn key_view(self, name: Seq<char>) -> Seq<char> {
        match self {
            Backend::Lance(_) => name,
            Backend::Zarr { label, .. } => dataset_key(label@, name),
        }
    }

    /// What a kind of job is refused with, if the backend does not support it.
    pub open spec fn unsupported(self, kind: Kind) -> Option<Seq<char>> {
        match (self, kind) {
            (Backend::Lance(_), Kind::Append) => Some(
                "append_vectors is not supported on the lance backend; use the zarr backend"@,
            ),
            (Backend::Lance(_), Kind::Overwrite) => Some(
                "overwrite_vectors is not supported on the lance backend; use the zarr backend"@,
            ),
            (Backend::Lance(_), Kind::List) => Some(
                "list_datasets is not supported on the lance backend; use the zarr backend"@,
            ),
            (Backend::Lance(_), Kind::Summarize) => Some(
                "summary is not supported on the lance backend; use the zarr backend"@,
            ),
            (Backend::Zarr { .. }, Kind::LoadTable) => Some(
                "vector collections are not supported on the zarr backend"@,
            ),
            (Backend::Zarr { .. }, Kind::LoadSparse) => Some(
                "sparse collections are not supported on the zarr backend"@,
            ),
            (Backend::Zarr { .. }, Kind::LoadGraph) => Some(
                "graph collections are not supported on the zarr backend"@,
            ),
            _ => None,
        }
    }

    /// The text by which a Zarr root addresses a dataset for a job: what changes rows in place or
    /// reports on a dataset goes by its identifier, everything else by its key.
    pub open spec fn address(self, name: Seq<char>, kind: Kind) -> Seq<char> {
        if kind == Kind::Append || kind == Kind::Overwrite || kind == Kind::Summarize {
            self.id_view(name)
        } else {
            self.key_view(name)
        }
    }

    /// The text with which a Zarr root answers that a job has stored something: where the dataset
    /// is for a dense array, and the key for anything else.
    pub open spec fn answer_view(self, name: Seq<char>, kind: Kind) -> Seq<char> {
        if kind == Kind::StoreDense {
            self.dir_view() + "/"@ + self.id_view(name)
        } else {
            self.key_view(name)
        }
    }

    /// The directory of the backend.
    pub open spec fn dir_view(self) -> Seq<char> {
        match self {
            Backend::Lance(inner) => inner.base@,
            Backend::Zarr { root, .. } => root@,
        }
    }

    /// Whether a job on the dataset `name` starts as the run `start.0` with the action `start.1`.
    /// On Lance a run first asks for the store. On Zarr a dense array first asks for the registry,
    /// and every other job is begun at once.
    pub open spec fn starts<B>(self, name: String, job: Job<B>, start: (Run<B>, Action<B>)) -> bool {
        let kind = job.kind_view();
        match self {
            Backend::Lance(inner) => {
                &&& start.0 == (Run::LanceProbe { base: inner.base, name, job })
                &&& start.1 == (Action::<B>::ProbeLance { base: inner.base })
            },
            Backend::Zarr { storage, label, .. } => if kind == Kind::StoreDense {
                &&& start.0 matches Run::ZarrProbe { zarr, label: l, key, answer, job: j }
                &&& zarr == storage
                &&& l == label
                &&& key@ == self.key_view(name@)
                &&& answer@ == self.answer_view(name@, kind)
                &&& j == job
                &&& start.1 is ProbeRegistry
            } else {
                &&& start.0 matches Run::ZarrWork { zarr, answer, kind: k }
                &&& zarr == storage
                &&& kind.stores() ==> answer@ == self.answer_view(name@, kind)
                &&& k == kind
                &&& does(job, self.address(name@, kind), start.1)
            },
        }
    }

    /// Whether an operation comes to the job on the dataset `name`: the job is refused where the
    /// backend does not support it, and is started everywhere else.
    pub open spec fn attempts<B>(
        self,
        name: String,
        job: Job<B>,
        result: Result<(Run<B>, Action<B>), Error>,
    ) -> bool {
        match self.unsupported(job.kind_view()) {
            Some(message) => result matches Err(Error::Storage(text)) && text@ == message,
            None => result matches Ok(start) && start.0.wf() && self.starts(name, job, start),
        }
    }

    /// The label of a Zarr root; nothing on Lance.
    pub fn zarr_label(&self) -> (label: String)
        ensures
            match *self {
                Backend::Zarr { label: l, .. } => label == l,
                Backend::Lance(_) => label@ == Seq::<char>::empty(),
            },
    {
        match self {
            Backend::Zarr { label, .. } => label.clone(),
            Backend::Lance(_) => String::new(),
        }
    }

    /// The refusal of a kind of job, if the backend does not support it.
    fn refusal(&self, kind: Kind) -> (error: Option<Error>)
        ensures
            match self.unsupported(kind) {
                Some(message) => error matches Some(Error::Storage(text)) && text@ == message,
                None => error is None,
            },
    {
        let message = match (self, kind) {
            (
                Backend::Lance(_),
                Kind::Append,
            ) => "append_vectors is not supported on the lance backend; use the zarr backend",
            (
                Backend::Lance(_),
                Kind::Overwrite,
            ) => "overwrite_vectors is not supported on the lance backend; use the zarr backend",
            (
                Backend::Lance(_),
                Kind::List,
            ) => "list_datasets is not supported on the lance backend; use the zarr backend",
            (
                Backend::Lance(_),
                Kind::Summarize,
            ) => "summary is not supported on the lance backend; use the zarr backend",
            (
                Backend::Zarr { .. },
                Kind::LoadTable,
            ) => "vector collections are not supported on the zarr backend",
            (
                Backend::Zarr { .. },
                Kind::LoadSparse,
            ) => "sparse collections are not supported on the zarr backend",
            (
                Backend::Zarr { .. },
                Kind::LoadGraph,
            ) => "graph collections are not supported on the zarr backend",
            _ => {
                return None;
            },
        };
        Some(Error::Storage(message.to_owned()))
    }

    /// Starts a job on the dataset `name`, or refuses it.
    fn start<B>(&self, name: String, job: Job<B>) -> (result: Result<(Run<B>, Action<B>), Error>)
        requires
            job.wf(),
        ensures
            self.attempts(name, job, result),
    {
        let kind = job.kind();
        if let Some(error) = self.refusal(kind) {
            return Err(error);
        }
        match self {
            Backend::Lance(inner) => Ok(
                (
                    Run::LanceProbe { base: inner.base.clone(), name, job },
                    Action::ProbeLance { base: inner.base.clone() },
                ),
            ),
            Backend::Zarr { storage, label, root } => {
                let zarr = share(storage);
                let key = zarr_dataset_key(label.as_str(), name.as_str());
                match kind {
                    Kind::StoreDense => {
                        let mut answer = root.clone();
                        answer.append("/");
                        answer.append(zarr_dataset_id(label.as_str(), name.as_str()).as_str());
                        Ok(
                            (
                                Run::ZarrProbe { zarr, label: self.zarr_label(), key, answer, job },
                                Action::ProbeRegistry,
                            ),
                        )
                    },
                    Kind::Append | Kind::Overwrite | Kind::Summarize => {
                        let id = zarr_dataset_id(label.as_str(), name.as_str());
                        Ok((Run::ZarrWork { zarr, answer: key, kind }, begin(job, id)))
                    },
                    _ => {
                        let answer = key.clone();
                        Ok((Run::ZarrWork { zarr, answer, kind }, begin(job, key)))
                    },
                }
            },
        }
    }
}

/// Whether a dense array is stored: an array that may not be stored is refused for what is wrong
/// with it, before anything else.
pub open spec fn stores_array<B>(
    backend: Backend,
    array: NumpyArray,
    name: String,
    result: Result<(Run<B>, Action<B>), Error>,
) -> bool {
    if array.storable() {
        backend.attempts(
            name,
            Job::StoreDense { rows: array.rows, cols: array.cols, cells: array.cells },
            result,
        )
    } else {
        result matches Err(e) && array_refusal(array, e)
    }
}

/// Whether the rows of an array are appended: an array that may not be stored is refused for what
/// is wrong with it, before anything else.
pub open spec fn appends_array<B>(
    backend: Backend,
    name: String,
    array: NumpyArray,
    result: Result<(Run<B>, Action<B>), Error>,
) -> bool {
    if array.storable() {
        backend.attempts(
            name,
            Job::Append { rows: array.rows, cols: array.cols, cells: array.cells },
            result,
        )
    } else {
        result matches Err(e) && array_refusal(array, e)
    }
}

impl Backend {
    /// Stores a dense array.
    fn store<B>(&self, array: NumpyArray, name: String) -> (result: Result<
        (Run<B>, Action<B>),
        Error,
    >)
        requires
            array.wf(),
        ensures
            stores_array(*self, array, name, result),
    {
        match numpy_to_dense(array) {
            Ok((rows, cols, cells)) => self.start(name, Job::StoreDense { rows, cols, cells }),
            Err(e) => Err(e),
        }
    }

    /// Appends the rows of a dense array.
    fn append<B>(&self, name: String, array: NumpyArray) -> (result: Result<
        (Run<B>, Action<B>),
        Error,
    >)
        requires
            array.wf(),
        ensures
            appends_array(*self, name, array, result),
    {
        match numpy_to_dense(array) {
            Ok((rows, cols, cells)) => self.start(name, Job::Append { rows, cols, cells }),
            Err(e) => Err(e),
        }
    }

    /// Whether `written` are the properties that a table is stored with: those that are given on
    /// Lance, and none where none are given or on Zarr.
    pub open spec fn writes(
        self,
        given: Option<BTreeMap<String, String>>,
        written: BTreeMap<String, String>,
    ) -> bool {
        match (self, given) {
            (Backend::Lance(_), Some(properties)) => written == properties,
            _ => written@ == Map::<String, String>::empty(),
        }
    }
}

/// Whether a record batch is stored, with the properties that the backend writes.
pub open spec fn stores_table<B>(
    backend: Backend,
    batch: B,
    rows: usize,
    name: String,
    properties: Option<BTreeMap<String, String>>,
    result: Result<(Run<B>, Action<B>), Error>,
) -> bool {
    exists|written: BTreeMap<String, String>| #[trigger]
        backend.writes(properties, written) && backend.attempts(
            name,
            Job::StoreTable { batch, rows, properties: written },
            result,
        )
}

/// Whether a sparse matrix is stored: the offsets, the columns, and then the three arrays together
/// are refused for what is wrong with them, before anything else.
pub open spec fn stores_sparse<B>(
    backend: Backend,
    indptr: IntArray,
    indices: IntArray,
    data: Seq<u64>,
    shape: (usize, usize),
    name: String,
    result: Result<(Run<B>, Action<B>), Error>,
) -> bool {
    match (index_view(indptr), index_view(indices)) {
        (None, _) => result matches Err(e) && index_refusal(indptr, "indptr"@, e),
        (Some(_), None) => result matches Err(e) && index_refusal(indices, "indices"@, e),
        (Some(ptr), Some(cols)) => if describes(ptr, cols, data, shape) {
            exists|m: TriMat<u64>| #[trigger]
                collected(ptr, cols, data, shape, m) && backend.attempts(
                    name,
                    Job::StoreSparse { triplets: m, shape },
                    result,
                )
        } else {
            result matches Err(Error::Value(text)) && csr_refusal(ptr, cols, data, shape, text@)
        },
    }
}

/// Whether a graph is stored: arguments that describe none are refused for what is wrong with them,
/// before anything else.
pub open spec fn stores_graph<B>(
    backend: Backend,
    name: String,
    src: IntArray,
    dst: IntArray,
    weights: Option<Vec<u64>>,
    num_nodes: Option<u64>,
    node_id_width: Option<String>,
    result: Result<(Run<B>, Action<B>), Error>,
) -> bool {
    let w = weights_view(weights);
    let width = text_view(node_id_width);
    if describes_graph(src, dst, w, width) {
        exists|edges: Vec<Edge>|
            {
                &&& #[trigger] edges@ == edge_list(node_id_view(src)->0, node_id_view(dst)->0, w)
                &&& backend.attempts(
                    name,
                    Job::StoreGraph {
                        edges,
                        options: GraphOptions {
                            node_id_width: width_named(width)->0,
                            num_nodes,
                        },
                        rows_hint: rows_hint(num_nodes),
                    },
                    result,
                )
            }
    } else {
        result matches Err(e) && graph_refusal(src, dst, w, width, e)
    }
}

/// The number of rows with which a store is seeded for a graph.
pub open spec fn rows_hint(num_nodes: Option<u64>) -> usize {
    match num_nodes {
        Some(n) => n as usize,
        None => 0,
    }
}

/// A storage: a backend that is ready for use.
pub struct Storage {
    pub backend: Backend,
}

impl Storage {
    /// The identifier of a dataset: the name itself on Lance.
    pub fn make_dataset_id(&self, name: &str) -> (id: String)
        ensures
            id@ == self.backend.id_view(name@),
    {
        match &self.backend {
            Backend::Lance(_) => name.to_owned(),
            Backend::Zarr { label, .. } => zarr_dataset_id(label.as_str(), name),
        }
    }

    /// The key of a dataset: the name itself on Lance.
    pub fn dataset_key(&self, name: &str) -> (key: String)
        ensures
            key@ == self.backend.key_view(name@),
    {
        match &self.backend {
            Backend::Lance(_) => name.to_owned(),
            Backend::Zarr { label, .. } => zarr_dataset_key(label.as_str(), name),
        }
    }

    /// Stores a dense array under a name.
    pub fn store<B>(&self, array: NumpyArray, name: String) -> (result: Result<
        (Run<B>, Action<B>),
        Error,
    >)
        requires
            array.wf(),
        ensures
            stores_array(self.backend, array, name, result),
    {
        self.backend.store(array, name)
    }

    /// Loads a dense array.
    pub fn load<B>(&self, name: String) -> (result: Result<(Run<B>, Action<B>), Error>)
        ensures
            self.backend.attempts(name, Job::LoadDense, result),
    {
        self.backend.start(name, Job::LoadDense)
    }

    /// Appends rows to a dense array.
    pub fn append<B>(&self, name: String, array: NumpyArray) -> (result: Result<
        (Run<B>, Action<B>),
        Error,
    >)
        requires
            array.wf(),
        ensures
            appends_array(self.backend, name, array, result),
    {
        self.backend.append(name, array)
    }

    /// Replaces rows of a dense array.
    pub fn overwrite<B>(&self, name: String, updates: Vec<RowUpdate>) -> (result: Result<
        (Run<B>, Action<B>),
        Error,
    >)
        ensures
            self.backend.attempts(name, Job::Overwrite { updates }, result),
    {
        self.backend.start(name, Job::Overwrite { updates })
    }

    /// Lists the datasets of the store.
    pub fn list_datasets<B>(&self) -> (result: Result<(Run<B>, Action<B>), Error>)
        ensures
            forall|name: String| #[trigger] self.backend.attempts(name, Job::List, result),
    {
        self.backend.start(String::new(), Job::List)
    }

    /// Reports on one dataset.
    pub fn summary<B>(&self, name: String) -> (result: Result<(Run<B>, Action<B>), Error>)
        ensures
            self.backend.attempts(name, Job::Summarize, result),
    {
        self.backend.start(name, Job::Summarize)
    }

    /// Stores a record batch with the given number of rows.
    pub fn store_table<B>(
        &self,
        batch: B,
        rows: usize,
        name: String,
        properties: Option<BTreeMap<String, String>>,
    ) -> (result: Result<(Run<B>, Action<B>), Error>)
        ensures
            stores_table(self.backend, batch, rows, name, properties, result),
    {
        let written = match (&self.backend, properties) {
            (Backend::Lance(_), Some(given)) => given,
            _ => BTreeMap::new(),
        };
        assert(self.backend.writes(properties, written));
        self.backend.start(name, Job::StoreTable { batch, rows, properties: written })
    }

    /// Loads a table.
    pub fn load_table<B>(&self, name: String) -> (result: Result<(Run<B>, Action<B>), Error>)
        ensures
            self.backend.attempts(name, Job::LoadTable, result),
    {
        self.backend.start(name, Job::LoadTable)
    }

    /// Stores the matrix that the three arrays of a compressed row matrix describe.
    pub fn store_sparse<B>(
        &self,
        indptr: IntArray,
        indices: IntArray,
        data: Vec<u64>,
        shape: (usize, usize),
        name: String,
    ) -> (result: Result<(Run<B>, Action<B>), Error>)
        ensures
            stores_sparse(self.backend, indptr, indices, data@, shape, name, result),
    {
        let ptr = match index_list(indptr, "indptr") {
            Ok(list) => list,
            Err(e) => {
                return Err(e);
            },
        };
        let cols = match index_list(indices, "indices") {
            Ok(list) => list,
            Err(e) => {
                return Err(e);
            },
        };
        match csr_from_parts(ptr, cols, data, shape) {
            Ok(triplets) => self.backend.start(name, Job::StoreSparse { triplets, shape }),
            Err(e) => Err(e),
        }
    }

    /// Loads a sparse matrix.
    pub fn load_sparse<B>(&self, name: String) -> (result: Result<(Run<B>, Action<B>), Error>)
        ensures
            self.backend.attempts(name, Job::LoadSparse, result),
    {
        self.backend.start(name, Job::LoadSparse)
    }

    /// Stores a graph.
    pub fn store_graph<B>(
        &self,
        name: String,
        src: IntArray,
        dst: IntArray,
        weights: Option<Vec<u64>>,
        num_nodes: Option<u64>,
        node_id_width: Option<String>,
    ) -> (result: Result<(Run<B>, Action<B>), Error>)
        ensures
            stores_graph(
                self.backend,
                name,
                src,
                dst,
                weights,
                num_nodes,
                node_id_width,
                result,
            ),
    {
        match build_graph(src, dst, weights, num_nodes, node_id_width) {
            Ok((edges, options)) => {
                let rows_hint: usize = match num_nodes {
                    Some(n) => n as usize,
                    None => 0,
                };
                self.backend.start(name, Job::StoreGraph { edges, options, rows_hint })
            },
            Err(e) => Err(e),
        }
    }

    /// Loads a graph.
    pub fn load_graph<B>(&self, name: String) -> (result: Result<(Run<B>, Action<B>), Error>)
        ensures
            self.backend.attempts(name, Job::LoadGraph, result),
    {
        self.backend.start(name, Job::LoadGraph)
    }

    /// The same storage for operations that are awaited.
    pub fn aio(&self) -> (aio: StorageAsync)
        ensures
            aio.backend == self.backend,
    {
        StorageAsync { backend: self.backend.clone() }
    }

    /// Describes the storage with its settings.
    pub fn get_config(&self) -> (text: String)
        ensures
            text@ == match self.backend {
                Backend::Lance(inner) => "LanceStorage(output_dir='"@ + inner.base@
                    + "', max_rows_per_file="@ + decimal(inner.max_rows_per_file as nat)
                    + ", max_rows_per_group="@ + decimal(inner.max_rows_per_group as nat)
                    + ", compression='"@ + inner.compression@ + "')"@,
                Backend::Zarr { label, root, .. } => zarr_text(root@, label@),
            },
    {
        match &self.backend {
            Backend::Lance(inner) => {
                let mut text = "LanceStorage(output_dir='".to_owned();
                text.append(inner.base.as_str());
                text.append("', max_rows_per_file=");
                text.append(size_text(inner.max_rows_per_file).as_str());
                text.append(", max_rows_per_group=");
                text.append(size_text(inner.max_rows_per_group).as_str());
                text.append(", compression='");
                text.append(inner.compression.as_str());
                text.append("')");
                text
            },
            Backend::Zarr { label, root, .. } => describe_zarr(root.as_str(), label.as_str()),
        }
    }

    /// The directory of the storage.
    pub fn get_output_dir(&self) -> (dir: String)
        ensures
            dir@ == self.backend.dir_view(),
    {
        match &self.backend {
            Backend::Lance(inner) => inner.base.clone(),
            Backend::Zarr { root, .. } => root.clone(),
        }
    }

    /// Describes the storage.
    pub fn repr(&self) -> (text: String)
        ensures
            text@ == match self.backend {
                Backend::Lance(inner) => "LanceStorage(output_dir='"@ + inner.base@ + "')"@,
                Backend::Zarr { label, root, .. } => zarr_text(root@, label@),
            },
    {
        match &self.backend {
            Backend::Lance(inner) => {
                let mut text = "LanceStorage(output_dir='".to_owned();
                text.append(inner.base.as_str());
                text.append("')");
                text
            },
            Backend::Zarr { label, root, .. } => describe_zarr(root.as_str(), label.as_str()),
        }
    }
}

/// How a storage in Zarr format is described.
pub open spec fn zarr_text(root: Seq<char>, label: Seq<char>) -> Seq<char> {
    "ZarrStorage(root='"@ + root + "', label='"@ + label + "')"@
}

fn describe_zarr(root: &str, label: &str) -> (text: String)
    ensures
        text@ == zarr_text(root@, label@),
{
    let mut text = "ZarrStorage(root='".to_owned();
    text.append(root);
    text.append("', label='");
    text.append(label);
    text.append("')");
    text
}

/// A storage whose operations are awaited.
pub struct StorageAsync {
    pub backend: Backend,
}

impl StorageAsync {
    /// Stores a dense array under a name.
    pub fn store<B>(&self, array: NumpyArray, name: String) -> (result: Result<
        (Run<B>, Action<B>),
        Error,
    >)
        requires
            array.wf(),
        ensures
            stores_array(self.backend, array, name, result),
    {
        self.backend.store(array, name)
    }

    /// Loads a dense array.
    pub fn load<B>(&self, name: String) -> (result: Result<(Run<B>, Action<B>), Error>)
        ensures
            self.backend.attempts(name, Job::LoadDense, result),
    {
        self.backend.start(name, Job::LoadDense)
    }

    /// Appends rows to a dense array.
    pub fn append<B>(&self, name: String, array: NumpyArray) -> (result: Result<
        (Run<B>, Action<B>),
        Error,
    >)
        requires
            array.wf(),
        ensures
            appends_array(self.backend, name, array, result),
    {
        self.backend.append(name, array)
    }

    /// Replaces rows of a dense array.
    pub fn overwrite<B>(&self, name: String, updates: Vec<RowUpdate>) -> (result: Result<
        (Run<B>, Action<B>),
        Error,
    >)
        ensures
            self.backend.attempts(name, Job::Overwrite { updates }, result),
    {
        self.backend.start(name, Job::Overwrite { updates })
    }

    /// Describes the facade.
    pub fn repr(&self) -> (text: String)
        ensures
            text@ == "StorageAsync()"@,
    {
        "StorageAsync()".to_owned()
    }
}

/// Whether a run goes on from `start`: at each step it is told an event that it expects.
pub open spec fn follows<B>(
    start: (Run<B>, Action<B>),
    runs: Seq<Run<B>>,
    events: Seq<Event<B>>,
    actions: Seq<Action<B>>,
) -> bool {
    is_history(runs, events, actions) && runs[0] == start.0
}

/// Everything that a run asks for, from its start on: the action at `i` is the one that the event
/// at `i` answers.
pub open spec fn asked<B>(start: (Run<B>, Action<B>), actions: Seq<Action<B>>) -> Seq<Action<B>> {
    seq![start.1] + actions
}

/// Whether a run that has not begun its job yet carries `job` for the text `key`.
spec fn carries<B>(run: Run<B>, key: Seq<char>, job: Job<B>) -> bool {
    match run {
        Run::LanceProbe { name, job: j, .. } => name@ == key && j == job,
        Run::LanceOpen { name, job: j } => name@ == key && j == job,
        Run::LanceSeed { name, job: j, .. } => name@ == key && j == job,
        Run::LanceWork { kind, .. } => kind == job.kind_view(),
        Run::ZarrProbe { key: k, job: j, .. } => k@ == key && j == job,
        Run::ZarrSeed { key: k, job: j, .. } => k@ == key && j == job,
        Run::ZarrWork { kind, .. } => kind == job.kind_view(),
        Run::Over => true,
    }
}

proof fn lemma_carries<B>(
    backend: Backend,
    name: String,
    job: Job<B>,
    start: (Run<B>, Action<B>),
    runs: Seq<Run<B>>,
    events: Seq<Event<B>>,
    actions: Seq<Action<B>>,
    i: int,
)
    requires
        backend.starts(name, job, start),
        follows(start, runs, events, actions),
        0 <= i <= events.len(),
    ensures
        carries(runs[i], backend.address(name@, job.kind_view()), job),
        runs[i] is LanceWork || runs[i] is ZarrWork ==> does(
            job,
            backend.address(name@, job.kind_view()),
            asked(start, actions)[i],
        ),
    decreases i,
{
    if i > 0 {
        lemma_carries(backend, name, job, start, runs, events, actions, i - 1);
        assert(runs[i - 1].expects(events[i - 1]));
    }
}

/// A run does in a store what it was started for, and nothing else: whatever it works on is the
/// job with all that it carries, under the text by which the backend addresses the dataset.
pub proof fn law_job_is_done_as_given<B>(
    backend: Backend,
    name: String,
    job: Job<B>,
    start: (Run<B>, Action<B>),
    runs: Seq<Run<B>>,
    events: Seq<Event<B>>,
    actions: Seq<Action<B>>,
    i: int,
)
    requires
        backend.starts(name, job, start),
        follows(start, runs, events, actions),
        0 <= i <= events.len(),
        asked(start, actions)[i].works(),
    ensures
        does(job, backend.address(name@, job.kind_view()), asked(start, actions)[i]),
{
    lemma_carries(backend, name, job, start, runs, events, actions, i);
    if i > 0 {
        lemma_carries(backend, name, job, start, runs, events, actions, i - 1);
        assert(runs[i - 1].expects(events[i - 1]));
    }
}

/// Whether two backends keep their data in the same store.
pub open spec fn same_store(a: Backend, b: Backend) -> bool {
    match (a, b) {
        (Backend::Lance(i), Backend::Lance(j)) => i.base@ == j.base@,
        (
            Backend::Zarr { storage: s, label: l, root: r },
            Backend::Zarr { storage, label, root },
        ) => s == storage && l@ == label@ && r@ == root@,
        _ => false,
    }
}

/// A run stays in the store of its backend. On Lance it probes and opens no other directory, and
/// what it works on was made over that directory or came of opening it. On Zarr it works on the
/// store of the backend all along.
pub proof fn law_run_stays_in_its_store<B>(
    backend: Backend,
    name: String,
    job: Job<B>,
    start: (Run<B>, Action<B>),
    runs: Seq<Run<B>>,
    events: Seq<Event<B>>,
    actions: Seq<Action<B>>,
    i: int,
)
    requires
        backend.starts(name, job, start),
        follows(start, runs, events, actions),
        0 <= i <= events.len(),
    ensures
        asked(start, actions)[i] matches Action::ProbeLance { base } ==> base@
            == backend.dir_view(),
        asked(start, actions)[i] matches Action::OpenLance { base } ==> base@
            == backend.dir_view(),
        runs[i] matches Run::LanceSeed { lance, .. } ==> lance_base(lance) == backend.dir_view(),
        runs[i] matches Run::LanceWork { lance, .. } ==> {
            ||| lance_base(lance) == backend.dir_view()
            ||| i > 0 && events[i - 1] == Event::<B>::Opened(lance) && asked(
                start,
                actions,
            )[i - 1] is OpenLance
        },
        match (backend, runs[i]) {
            (_, Run::Over) => true,
            (Backend::Zarr { storage, .. }, Run::ZarrProbe { zarr, .. }) => zarr == storage,
            (Backend::Zarr { storage, .. }, Run::ZarrSeed { zarr, .. }) => zarr == storage,
            (Backend::Zarr { storage, .. }, Run::ZarrWork { zarr, .. }) => zarr == storage,
            (Backend::Zarr { .. }, _) => false,
            (Backend::Lance(_), Run::LanceProbe { base, .. }) => base@ == backend.dir_view(),
            (Backend::Lance(_), Run::LanceOpen { .. }) => asked(start, actions)[i] is OpenLance,
            (Backend::Lance(_), Run::LanceSeed { .. }) => true,
            (Backend::Lance(_), Run::LanceWork { .. }) => true,
            (Backend::Lance(_), _) => false,
        },
    decreases i,
{
    if i > 0 {
        law_run_stays_in_its_store(backend, name, job, start, runs, events, actions, i - 1);
        assert(runs[i - 1].expects(events[i - 1]));
    }
}

/// What is stored is what is loaded: a load asks for the very key under which the array of that
/// name was saved, and once it is brought the matrix that was saved it hands out the array, cell
/// by cell. It makes no difference whether the load goes through the same backend or through
/// another one on the same store.
pub proof fn law_store_then_load<B>(
    backend: Backend,
    other: Backend,
    name: String,
    array: NumpyArray,
    put: (Run<B>, Action<B>),
    put_runs: Seq<Run<B>>,
    put_events: Seq<Event<B>>,
    put_actions: Seq<Action<B>>,
    i: int,
    got: (Run<B>, Action<B>),
    got_runs: Seq<Run<B>>,
    got_events: Seq<Event<B>>,
    got_actions: Seq<Action<B>>,
    j: int,
)
    requires
        same_store(backend, other),
        array.wf(),
        backend.starts(
            name,
            Job::StoreDense { rows: array.rows, cols: array.cols, cells: array.cells },
            put,
        ),
        follows(put, put_runs, put_events, put_actions),
        0 <= i <= put_events.len(),
        asked(put, put_actions)[i] is SaveDense,
        other.starts(name, Job::LoadDense, got),
        follows(got, got_runs, got_events, got_actions),
        0 <= j < got_events.len(),
        got_events[j] matches Event::LoadedDense(m) && matrix_shape(m) == matrix_shape(
            asked(put, put_actions)[i]->SaveDense_matrix,
        ) && matrix_cells(m) == matrix_cells(asked(put, put_actions)[i]->SaveDense_matrix),
    ensures
        asked(got, got_actions)[j] matches Action::LoadDense { key } && key@ == asked(
            put,
            put_actions,
        )[i]->SaveDense_key@,
        got_actions[j] matches Action::Finish(Outcome::Array { rows, cols, cells }) && rows
            == array.rows && cols == array.cols && cells@ == array.cells@,
{
    let job = Job::<B>::StoreDense { rows: array.rows, cols: array.cols, cells: array.cells };
    law_job_is_done_as_given(backend, name, job, put, put_runs, put_events, put_actions, i);
    lemma_carries(other, name, Job::LoadDense, got, got_runs, got_events, got_actions, j);
    assert(got_runs[j].expects(got_events[j]));
    law_dense_round_trip(array.rows, array.cols, array.cells@, got_events[j]->LoadedDense_0);
}

/// Storing asks for one save and no more: a run that stores a dense array appends nothing and
/// overwrites no rows, asks for one save at most, and where the kernel refuses that save, as it
/// does on Zarr for a dataset that is there, it ends with a storage error that carries the kernel's
/// message. Whether a save replaces a dataset that is there is up to the kernel.
pub proof fn law_store_saves_once<B>(
    backend: Backend,
    name: String,
    array: NumpyArray,
    start: (Run<B>, Action<B>),
    runs: Seq<Run<B>>,
    events: Seq<Event<B>>,
    actions: Seq<Action<B>>,
    i: int,
)
    requires
        array.wf(),
        backend.starts(
            name,
            Job::StoreDense { rows: array.rows, cols: array.cols, cells: array.cells },
            start,
        ),
        follows(start, runs, events, actions),
        0 <= i <= events.len(),
        asked(start, actions)[i].works(),
    ensures
        asked(start, actions)[i] is SaveDense,
        events.len() <= i + 1,
        events.len() == i + 1 ==> !actions[i].works() && runs[i + 1] is Over,
        events.len() == i + 1 && events[i] is Failed ==> {
            &&& actions[i] matches Action::Fail(Error::Storage(text))
            &&& text@ == kernel_error_text(events[i]->Failed_0)
        },
        forall|j: int| 0 <= j < i ==> !(#[trigger] asked(start, actions)[j]).works(),
{
    let job = Job::<B>::StoreDense { rows: array.rows, cols: array.cols, cells: array.cells };
    law_job_is_done_as_given(backend, name, job, start, runs, events, actions, i);
    lemma_works_in_work(backend, name, job, start, runs, events, actions, i);
    if i < events.len() {
        assert(runs[i].expects(events[i]));
        if i + 1 < events.len() {
            assert(runs[i + 1].expects(events[i + 1]));
        }
    }
    assert forall|j: int| 0 <= j < i implies !(#[trigger] asked(start, actions)[j]).works() by {
        if asked(start, actions)[j].works() {
            lemma_works_in_work(backend, name, job, start, runs, events, actions, j);
            assert(runs[j].expects(events[j]));
            if j + 1 < i {
                assert(runs[j + 1].expects(events[j + 1]));
            }
        }
    }
}

/// A run asks for work exactly when it has come to do its job.
proof fn lemma_works_in_work<B>(
    backend: Backend,
    name: String,
    job: Job<B>,
    start: (Run<B>, Action<B>),
    runs: Seq<Run<B>>,
    events: Seq<Event<B>>,
    actions: Seq<Action<B>>,
    i: int,
)
    requires
        backend.starts(name, job, start),
        follows(start, runs, events, actions),
        0 <= i <= events.len(),
    ensures
        asked(start, actions)[i].works() <==> runs[i] is LanceWork || runs[i] is ZarrWork,
{
    lemma_carries(backend, name, job, start, runs, events, actions, i);
    if i > 0 {
        lemma_carries(backend, name, job, start, runs, events, actions, i - 1);
        assert(runs[i - 1].expects(events[i - 1]));
    }
}

/// A dataset outlives a refused store: after an array was saved under a name, a second store under
/// that name whose save the kernel refuses ends with a storage error, and a load that is brought
/// the matrix that was saved first hands out the first array.
pub proof fn law_refused_store_leaves_the_dataset<B>(
    backend: Backend,
    name: String,
    first: NumpyArray,
    put: (Run<B>, Action<B>),
    put_runs: Seq<Run<B>>,
    put_events: Seq<Event<B>>,
    put_actions: Seq<Action<B>>,
    i: int,
    second: NumpyArray,
    again: (Run<B>, Action<B>),
    again_runs: Seq<Run<B>>,
    again_events: Seq<Event<B>>,
    again_actions: Seq<Action<B>>,
    k: int,
    got: (Run<B>, Action<B>),
    got_runs: Seq<Run<B>>,
    got_events: Seq<Event<B>>,
    got_actions: Seq<Action<B>>,
    j: int,
)
    requires
        first.wf(),
        backend.starts(
            name,
            Job::StoreDense { rows: first.rows, cols: first.cols, cells: first.cells },
            put,
        ),
        follows(put, put_runs, put_events, put_actions),
        0 <= i <= put_events.len(),
        asked(put, put_actions)[i] is SaveDense,
        second.wf(),
        backend.starts(
            name,
            Job::StoreDense { rows: second.rows, cols: second.cols, cells: second.cells },
            again,
        ),
        follows(again, again_runs, again_events, again_actions),
        0 <= k < again_events.len(),
        asked(again, again_actions)[k] is SaveDense,
        again_events[k] is Failed,
        backend.starts(name, Job::LoadDense, got),
        follows(got, got_runs, got_events, got_actions),
        0 <= j < got_events.len(),
        got_events[j] matches Event::LoadedDense(m) && matrix_shape(m) == matrix_shape(
            asked(put, put_actions)[i]->SaveDense_matrix,
        ) && matrix_cells(m) == matrix_cells(asked(put, put_actions)[i]->SaveDense_matrix),
    ensures
        asked(again, again_actions)[k]->SaveDense_key@ == asked(
            put,
            put_actions,
        )[i]->SaveDense_key@,
        again_actions[k] matches Action::Fail(Error::Storage(text)) && text@ == kernel_error_text(
            again_events[k]->Failed_0,
        ),
        again_events.len() == k + 1,
        got_actions[j] matches Action::Finish(Outcome::Array { rows, cols, cells }) && rows
            == first.rows && cols == first.cols && cells@ == first.cells@,
{
    let job = Job::<B>::StoreDense { rows: first.rows, cols: first.cols, cells: first.cells };
    let redo = Job::<B>::StoreDense { rows: second.rows, cols: second.cols, cells: second.cells };
    law_job_is_done_as_given(backend, name, job, put, put_runs, put_events, put_actions, i);
    law_job_is_done_as_given(
        backend,
        name,
        redo,
        again,
        again_runs,
        again_events,
        again_actions,
        k,
    );
    law_store_saves_once(
        backend,
        name,
        second,
        again,
        again_runs,
        again_events,
        again_actions,
        k,
    );
    law_store_then_load(
        backend,
        backend,
        name,
        first,
        put,
        put_runs,
        put_events,
        put_actions,
        i,
        got,
        got_runs,
        got_events,
        got_actions,
        j,
    );
}

/// The key under which an action saves or loads.
pub open spec fn key_of<B>(action: Action<B>) -> Option<Seq<char>> {
    match action {
        Action::SaveDense { key, .. } => Some(key@),
        Action::SaveTable { key, .. } => Some(key@),
        Action::SaveSparse { key, .. } => Some(key@),
        Action::SaveGraph { key, .. } => Some(key@),
        Action::LoadDense { key } => Some(key@),
        Action::LoadTable { key } => Some(key@),
        Action::LoadSparse { key } => Some(key@),
        Action::LoadGraph { key } => Some(key@),
        _ => None,
    }
}

/// Whatever is saved or loaded under a name is saved or loaded under the one key of that name, so
/// that a load asks for what a store has saved. Backends on the same store have the same key.
pub proof fn law_one_key_for_a_name<B>(
    backend: Backend,
    other: Backend,
    name: String,
    job: Job<B>,
    start: (Run<B>, Action<B>),
    runs: Seq<Run<B>>,
    events: Seq<Event<B>>,
    actions: Seq<Action<B>>,
    i: int,
)
    requires
        same_store(backend, other),
        backend.starts(name, job, start),
        follows(start, runs, events, actions),
        0 <= i <= events.len(),
        key_of(asked(start, actions)[i]) is Some,
    ensures
        key_of(asked(start, actions)[i]) == Some(backend.key_view(name@)),
        backend.key_view(name@) == other.key_view(name@),
{
    law_job_is_done_as_given(backend, name, job, start, runs, events, actions, i);
}

/// What is stored is what is loaded: a load asks for the key under which the table of that name was
/// saved, and once it is brought the record batch that was saved it hands out the one that was
/// stored.
pub proof fn law_store_table_then_load<B>(
    backend: Backend,
    other: Backend,
    name: String,
    batch: B,
    rows: usize,
    properties: BTreeMap<String, String>,
    put: (Run<B>, Action<B>),
    put_runs: Seq<Run<B>>,
    put_events: Seq<Event<B>>,
    put_actions: Seq<Action<B>>,
    i: int,
    got: (Run<B>, Action<B>),
    got_runs: Seq<Run<B>>,
    got_events: Seq<Event<B>>,
    got_actions: Seq<Action<B>>,
    j: int,
)
    requires
        same_store(backend, other),
        backend.starts(name, Job::StoreTable { batch, rows, properties }, put),
        follows(put, put_runs, put_events, put_actions),
        0 <= i <= put_events.len(),
        asked(put, put_actions)[i] is SaveTable,
        other.starts(name, Job::LoadTable, got),
        follows(got, got_runs, got_events, got_actions),
        0 <= j < got_events.len(),
        got_events[j] == Event::LoadedTable(asked(put, put_actions)[i]->SaveTable_batch),
    ensures
        asked(put, put_actions)[i]->SaveTable_properties == properties,
        asked(got, got_actions)[j] matches Action::LoadTable { key } && key@ == asked(
            put,
            put_actions,
        )[i]->SaveTable_key@,
        got_actions[j] == Action::Finish(Outcome::Table(batch)),
{
    let job = Job::<B>::StoreTable { batch, rows, properties };
    law_job_is_done_as_given(backend, name, job, put, put_runs, put_events, put_actions, i);
    lemma_carries(other, name, Job::LoadTable, got, got_runs, got_events, got_actions, j);
    assert(got_runs[j].expects(got_events[j]));
}

/// What is stored is what is loaded: a load asks for the key under which the sparse matrix of that
/// name was saved. If it is brought a matrix with increasing columns that holds the entries that
/// were saved, it hands out the same matrix in canonical form: the offsets that were stored and, in
/// each row, the entries that were stored. Arrays whose columns increase in each row come back as
/// they are. No column occurs twice in a row of the arrays, which begin at the first entry, end
/// behind the last one, and are small enough for signed offsets.
pub proof fn law_store_sparse_then_load<B>(
    backend: Backend,
    other: Backend,
    name: String,
    indptr: Seq<usize>,
    indices: Seq<usize>,
    data: Seq<u64>,
    shape: (usize, usize),
    m: TriMat<u64>,
    put: (Run<B>, Action<B>),
    put_runs: Seq<Run<B>>,
    put_events: Seq<Event<B>>,
    put_actions: Seq<Action<B>>,
    i: int,
    matrix: SparseRows,
    got: (Run<B>, Action<B>),
    got_runs: Seq<Run<B>>,
    got_events: Seq<Event<B>>,
    got_actions: Seq<Action<B>>,
    j: int,
)
    requires
        same_store(backend, other),
        describes(indptr, indices, data, shape),
        forall|r: int|
            0 <= r < shape.0 ==> distinct(#[trigger] row_entries(indptr, indices, data, r)),
        indptr[0] == 0,
        indptr[shape.0 as int] == data.len(),
        data.len() <= i64::MAX,
        shape.1 <= i64::MAX,
        collected(indptr, indices, data, shape, m),
        backend.starts(name, Job::StoreSparse { triplets: m, shape }, put),
        follows(put, put_runs, put_events, put_actions),
        0 <= i <= put_events.len(),
        asked(put, put_actions)[i] is SaveSparse,
        matrix.canonical(),
        matrix.shape == shape,
        forall|r: int|
            0 <= r < shape.0 ==> same_entries(
                (#[trigger] matrix.rows@[r])@,
                entries_of_row(triplets(asked(put, put_actions)[i]->SaveSparse_triplets), r),
            ),
        other.starts(name, Job::LoadSparse, got),
        follows(got, got_runs, got_events, got_actions),
        0 <= j < got_events.len(),
        got_events[j] == Event::<B>::LoadedSparse(matrix),
    ensures
        asked(got, got_actions)[j] matches Action::LoadSparse { key } && key@ == asked(
            put,
            put_actions,
        )[i]->SaveSparse_key@,
        got_actions[j] matches Action::Finish(Outcome::Sparse(parts)) && {
            &&& parts.indptr@.map_values(|n: i64| n as int) == indptr.map_values(
                |n: usize| n as int,
            )
            &&& parts.shape == shape
            &&& canonical_parts(parts)
            &&& forall|r: int|
                0 <= r < shape.0 ==> same_entries(
                    #[trigger] parts_row(parts, r),
                    row_entries(indptr, indices, data, r),
                )
            &&& (forall|r: int|
                0 <= r < shape.0 ==> increasing(#[trigger] row_entries(indptr, indices, data, r)))
                ==> {
                &&& parts.indices@.map_values(|n: i64| n as int) == indices.map_values(
                    |n: usize| n as int,
                )
                &&& parts.data@ == data
            }
        },
{
    let job = Job::<B>::StoreSparse { triplets: m, shape };
    law_job_is_done_as_given(backend, name, job, put, put_runs, put_events, put_actions, i);
    lemma_carries(other, name, Job::LoadSparse, got, got_runs, got_events, got_actions, j);
    assert(got_runs[j].expects(got_events[j]));
    let rows = rows_view(matrix.rows@);
    assert forall|r: int| 0 <= r < shape.0 implies {
        &&& increasing(#[trigger] rows[r])
        &&& same_entries(rows[r], entries_of_row(triplets(m), r))
    } by {
        assert(rows[r] == matrix.rows@[r]@);
    }
    let parts = got_actions[j]->Finish_0->Sparse_0;
    assert(parts_of(matrix, parts));
    law_sparse_entries_come_back(indptr, indices, data, shape, m, matrix, parts);
    if forall|r: int|
        0 <= r < shape.0 ==> increasing(#[trigger] row_entries(indptr, indices, data, r)) {
        law_sparse_round_trip(indptr, indices, data, shape, m, rows);
    }
}

/// A sparse matrix that is loaded is handed out in canonical form whenever it is brought in that
/// form, whatever it was stored from.
pub proof fn law_loaded_sparse_is_canonical<B>(
    backend: Backend,
    name: String,
    matrix: SparseRows,
    start: (Run<B>, Action<B>),
    runs: Seq<Run<B>>,
    events: Seq<Event<B>>,
    actions: Seq<Action<B>>,
    i: int,
)
    requires
        matrix.canonical(),
        matrix.shape.1 <= i64::MAX,
        joined(rows_view(matrix.rows@)).len() <= i64::MAX,
        backend.starts(name, Job::LoadSparse, start),
        follows(start, runs, events, actions),
        0 <= i < events.len(),
        events[i] == Event::<B>::LoadedSparse(matrix),
    ensures
        actions[i] matches Action::Finish(Outcome::Sparse(parts)) && parts_of(matrix, parts)
            && canonical_parts(parts),
{
    lemma_carries(backend, name, Job::LoadSparse, start, runs, events, actions, i);
    assert(runs[i].expects(events[i]));
    law_canonical_form_is_kept(matrix, actions[i]->Finish_0->Sparse_0);
}

/// What is stored is what is loaded: a load asks for the key under which the graph of that name was
/// saved. If it is brought the edges that were saved, with the width and the number of nodes that
/// were given, it hands out the end points and weights that the edges were built from, and these.
pub proof fn law_store_graph_then_load<B>(
    backend: Backend,
    other: Backend,
    name: String,
    src: Seq<u64>,
    dst: Seq<u64>,
    weights: Option<Seq<u64>>,
    edges: Vec<Edge>,
    options: GraphOptions,
    rows: usize,
    put: (Run<B>, Action<B>),
    put_runs: Seq<Run<B>>,
    put_events: Seq<Event<B>>,
    put_actions: Seq<Action<B>>,
    i: int,
    graph: StoredGraph,
    got: (Run<B>, Action<B>),
    got_runs: Seq<Run<B>>,
    got_events: Seq<Event<B>>,
    got_actions: Seq<Action<B>>,
    j: int,
)
    requires
        same_store(backend, other),
        src.len() == dst.len(),
        weights is Some ==> weights->0.len() == src.len(),
        edges@ == edge_list(src, dst, weights),
        backend.starts(name, Job::StoreGraph { edges, options, rows_hint: rows }, put),
        follows(put, put_runs, put_events, put_actions),
        0 <= i <= put_events.len(),
        asked(put, put_actions)[i] is SaveGraph,
        graph.edges@ == asked(put, put_actions)[i]->SaveGraph_edges@,
        graph.weighted == weights is Some,
        graph.node_id_width == asked(put, put_actions)[i]->SaveGraph_options.node_id_width,
        asked(put, put_actions)[i]->SaveGraph_options.num_nodes matches Some(n) ==> graph.num_nodes
            == n,
        other.starts(name, Job::LoadGraph, got),
        follows(got, got_runs, got_events, got_actions),
        0 <= j < got_events.len(),
        got_events[j] == Event::<B>::LoadedGraph(graph),
    ensures
        asked(got, got_actions)[j] matches Action::LoadGraph { key } && key@ == asked(
            put,
            put_actions,
        )[i]->SaveGraph_key@,
        got_actions[j] matches Action::Finish(Outcome::Graph(arrays)) && {
            &&& arrays.src@ == src
            &&& arrays.dst@ == dst
            &&& weights_view(arrays.weight) == weights
            &&& arrays.weighted == weights is Some
            &&& arrays.num_nodes == graph.num_nodes
            &&& options.num_nodes matches Some(n) ==> arrays.num_nodes == n
            &&& arrays.node_id_width@ == options.node_id_width.name()
        },
{
    let job = Job::<B>::StoreGraph { edges, options, rows_hint: rows };
    law_job_is_done_as_given(backend, name, job, put, put_runs, put_events, put_actions, i);
    lemma_carries(other, name, Job::LoadGraph, got, got_runs, got_events, got_actions, j);
    assert(got_runs[j].expects(got_events[j]));
    law_graph_round_trip(src, dst, weights);
}

/// Whether two operations that are told the same are the same: both are refused with the same
/// error, or at every step both stand at the same point and ask for the same, up to the outcome or
/// error at the end.
pub open spec fn same_operation<B>(
    result: Result<(Run<B>, Action<B>), Error>,
    other_result: Result<(Run<B>, Action<B>), Error>,
    runs: Seq<Run<B>>,
    other_runs: Seq<Run<B>>,
    events: Seq<Event<B>>,
    actions: Seq<Action<B>>,
    other_actions: Seq<Action<B>>,
) -> bool {
    match (result, other_result) {
        (Ok(start), Ok(other_start)) => forall|i: int|
            0 <= i <= events.len() ==> same_run(runs[i], other_runs[i]) && same_action(
                #[trigger] asked(start, actions)[i],
                asked(other_start, other_actions)[i],
            ),
        (Err(e), Err(f)) => same_error(e, f),
        _ => false,
    }
}

/// Operations on one store are the same operation: a job on a dataset is refused alike or starts
/// alike, and two runs that are told the same go through the same states, ask for the same at
/// every step, and end with the same outcome or error.
pub proof fn law_same_store_same_operation<B>(
    backend: Backend,
    other: Backend,
    name: String,
    job: Job<B>,
    result: Result<(Run<B>, Action<B>), Error>,
    other_result: Result<(Run<B>, Action<B>), Error>,
    runs: Seq<Run<B>>,
    other_runs: Seq<Run<B>>,
    events: Seq<Event<B>>,
    actions: Seq<Action<B>>,
    other_actions: Seq<Action<B>>,
)
    requires
        same_store(backend, other),
        backend.attempts(name, job, result),
        other.attempts(name, job, other_result),
        result matches Ok(start) ==> follows(start, runs, events, actions),
        other_result matches Ok(start) ==> follows(start, other_runs, events, other_actions),
    ensures
        same_operation(
            result,
            other_result,
            runs,
            other_runs,
            events,
            actions,
            other_actions,
        ),
{
    if let (Ok(start), Ok(other_start)) = (result, other_result) {
        assert(same_run(start.0, other_start.0));
        assert(same_action(start.1, other_start.1));
        law_same_events_same_actions(runs, other_runs, events, actions, other_actions);
        assert forall|i: int| 0 <= i <= events.len() implies same_run(runs[i], other_runs[i])
            && same_action(
            #[trigger] asked(start, actions)[i],
            asked(other_start, other_actions)[i],
        ) by {
            if i > 0 {
                assert(asked(start, actions)[i] == actions[i - 1]);
                assert(asked(other_start, other_actions)[i] == other_actions[i - 1]);
            }
        }
    }
}

/// Awaiting changes nothing: an operation that is awaited is refused like one that is not, or
/// starts like it, and if both are told the same they ask for the same at every step and end with
/// the same outcome or error.
pub proof fn law_awaiting_changes_nothing<B>(
    storage: Storage,
    aio: StorageAsync,
    name: String,
    job: Job<B>,
    now: Result<(Run<B>, Action<B>), Error>,
    awaited: Result<(Run<B>, Action<B>), Error>,
    now_runs: Seq<Run<B>>,
    awaited_runs: Seq<Run<B>>,
    events: Seq<Event<B>>,
    now_actions: Seq<Action<B>>,
    awaited_actions: Seq<Action<B>>,
)
    requires
        aio.backend == storage.backend,
        storage.backend.attempts(name, job, now),
        aio.backend.attempts(name, job, awaited),
        now matches Ok(start) ==> follows(start, now_runs, events, now_actions),
        awaited matches Ok(start) ==> follows(start, awaited_runs, events, awaited_actions),
    ensures
        same_operation(
            now,
            awaited,
            now_runs,
            awaited_runs,
            events,
            now_actions,
            awaited_actions,
        ),
{
    law_same_store_same_operation(
        storage.backend,
        aio.backend,
        name,
        job,
        now,
        awaited,
        now_runs,
        awaited_runs,
        events,
        now_actions,
        awaited_actions,
    );
}

/// An array that may not be stored is refused by the call itself, with the same message whether it
/// is stored or appended and whether the operation is awaited or not.
pub proof fn law_awaiting_refuses_alike<B>(
    storage: Storage,
    aio: StorageAsync,
    array: NumpyArray,
    name: String,
    stored: Result<(Run<B>, Action<B>), Error>,
    awaited_store: Result<(Run<B>, Action<B>), Error>,
    appended: Result<(Run<B>, Action<B>), Error>,
    awaited_append: Result<(Run<B>, Action<B>), Error>,
)
    requires
        !array.storable(),
        stores_array(storage.backend, array, name, stored),
        stores_array(aio.backend, array, name, awaited_store),
        appends_array(storage.backend, name, array, appended),
        appends_array(aio.backend, name, array, awaited_append),
    ensures
        stored matches Err(e) && e is Value && (awaited_store matches Err(f) && same_error(e, f))
            && (appended matches Err(f) && same_error(e, f)) && (awaited_append matches Err(f)
            && same_error(e, f)),
{
}

/// A directory in Lance format is the store: how many rows go to a file or a group and how they
/// are compressed changes nothing about an operation, from its start to its end.
pub proof fn law_directory_is_the_store<B>(
    a: LanceInner,
    b: LanceInner,
    name: String,
    job: Job<B>,
    result: Result<(Run<B>, Action<B>), Error>,
    other_result: Result<(Run<B>, Action<B>), Error>,
    runs: Seq<Run<B>>,
    other_runs: Seq<Run<B>>,
    events: Seq<Event<B>>,
    actions: Seq<Action<B>>,
    other_actions: Seq<Action<B>>,
)
    requires
        a.base@ == b.base@,
        Backend::Lance(a).attempts(name, job, result),
        Backend::Lance(b).attempts(name, job, other_result),
        result matches Ok(start) ==> follows(start, runs, events, actions),
        other_result matches Ok(start) ==> follows(start, other_runs, events, other_actions),
    ensures
        same_operation(
            result,
            other_result,
            runs,
            other_runs,
            events,
            actions,
            other_actions,
        ),
{
    law_same_store_same_operation(
        Backend::Lance(a),
        Backend::Lance(b),
        name,
        job,
        result,
        other_result,
        runs,
        other_runs,
        events,
        actions,
        other_actions,
    );
}

/// A dataset is one dataset under its name and under its identifier: both lead to the same key,
/// and on Zarr the identifier, by which rows are changed and reports are made, leads to the label
/// of the root and to that key. The name is one that an identifier of the root can carry.
pub proof fn law_name_or_identifier(backend: Backend, name: Seq<char>)
    requires
        backend.wf(),
        backend matches Backend::Zarr { label, .. } ==> {
            &&& label@.last() != '-' || name == "."@
            &&& id_label(name) == label@ || plain_path(name) || name == "."@
        },
    ensures
        backend.key_view(backend.id_view(name)) == backend.key_view(name),
        backend matches Backend::Zarr { label, .. } ==> {
            &&& id_label(backend.id_view(name)) == label@
            &&& id_path(backend.id_view(name)) == backend.key_view(name)
        },
{
    if let Backend::Zarr { label, .. } = backend {
        law_same_dataset(label@, name);
    }
}

/// What a backend makes of a name: on Lance a name is its own key and identifier, on Zarr they are
/// those of the root with the given label.
pub proof fn law_names_on_a_backend(backend: Backend, name: Seq<char>)
    ensures
        match backend {
            Backend::Lance(inner) => {
                &&& backend.key_view(name) == name
                &&& backend.id_view(name) == name
                &&& backend.dir_view() == inner.base@
            },
            Backend::Zarr { label, root, .. } => {
                &&& backend.key_view(name) == dataset_key(label@, name)
                &&& backend.id_view(name) == dataset_id(label@, name)
                &&& backend.dir_view() == root@
            },
        },
{
}

/// Different names are different datasets: whatever two names there are on Lance, and two names
/// without two dashes in a row on Zarr, what is saved or loaded under the one is never saved or
/// loaded under the other.
pub proof fn law_different_names_do_not_meet<B>(
    backend: Backend,
    a: String,
    a_job: Job<B>,
    a_start: (Run<B>, Action<B>),
    a_runs: Seq<Run<B>>,
    a_events: Seq<Event<B>>,
    a_actions: Seq<Action<B>>,
    i: int,
    b: String,
    b_job: Job<B>,
    b_start: (Run<B>, Action<B>),
    b_runs: Seq<Run<B>>,
    b_events: Seq<Event<B>>,
    b_actions: Seq<Action<B>>,
    j: int,
)
    requires
        a@ != b@,
        a@ != "."@,
        b@ != "."@,
        backend is Zarr ==> (forall|k: int|
            0 <= k < a@.len() - 1 && #[trigger] a@[k] == '-' ==> a@[k + 1] != '-') && (forall|k: int|
            0 <= k < b@.len() - 1 && #[trigger] b@[k] == '-' ==> b@[k + 1] != '-'),
        backend.starts(a, a_job, a_start),
        follows(a_start, a_runs, a_events, a_actions),
        0 <= i <= a_events.len(),
        key_of(asked(a_start, a_actions)[i]) is Some,
        backend.starts(b, b_job, b_start),
        follows(b_start, b_runs, b_events, b_actions),
        0 <= j <= b_events.len(),
        key_of(asked(b_start, b_actions)[j]) is Some,
    ensures
        key_of(asked(a_start, a_actions)[i]) != key_of(asked(b_start, b_actions)[j]),
{
    law_one_key_for_a_name(
        backend,
        backend,
        a,
        a_job,
        a_start,
        a_runs,
        a_events,
        a_actions,
        i,
    );
    law_one_key_for_a_name(
        backend,
        backend,
        b,
        b_job,
        b_start,
        b_runs,
        b_events,
        b_actions,
        j,
    );
    if let Backend::Zarr { label, .. } = backend {
        law_a_name_is_its_own_key(label@, a@);
        law_a_name_is_its_own_key(label@, b@);
    }
}

/// What an action saves or loads under is its key.
pub proof fn law_keys_of_actions<B>(action: Action<B>)
    ensures
        match action {
            Action::SaveDense { key, .. } => key_of(action) == Some(key@),
            Action::SaveTable { key, .. } => key_of(action) == Some(key@),
            Action::SaveSparse { key, .. } => key_of(action) == Some(key@),
            Action::SaveGraph { key, .. } => key_of(action) == Some(key@),
            Action::LoadDense { key } => key_of(action) == Some(key@),
            Action::LoadTable { key } => key_of(action) == Some(key@),
            Action::LoadSparse { key } => key_of(action) == Some(key@),
            Action::LoadGraph { key } => key_of(action) == Some(key@),
            _ => key_of(action) is None,
        },
{
}

/// What can be done on Lance: four operations are refused with their names, and every other one
/// asks for the store in the directory first, with the job as it is.
pub proof fn law_operations_on_lance<B>(
    inner: LanceInner,
    name: String,
    job: Job<B>,
    result: Result<(Run<B>, Action<B>), Error>,
)
    requires
        Backend::Lance(inner).attempts(name, job, result),
    ensures
        job is Append ==> (result matches Err(Error::Storage(text)) && text@
            == "append_vectors is not supported on the lance backend; use the zarr backend"@),
        job is Overwrite ==> (result matches Err(Error::Storage(text)) && text@
            == "overwrite_vectors is not supported on the lance backend; use the zarr backend"@),
        job is List ==> (result matches Err(Error::Storage(text)) && text@
            == "list_datasets is not supported on the lance backend; use the zarr backend"@),
        job is Summarize ==> (result matches Err(Error::Storage(text)) && text@
            == "summary is not supported on the lance backend; use the zarr backend"@),
        !(job is Append || job is Overwrite || job is List || job is Summarize) ==> {
            &&& result matches Ok(start)
            &&& start.0 matches Run::LanceProbe { base, name: n, job: j }
            &&& base@ == inner.base@
            &&& n@ == name@
            &&& j == job
            &&& start.1 matches Action::ProbeLance { base: b }
            &&& b@ == inner.base@
        },
{
}

/// What can be done on Zarr: loading a table, a sparse matrix or a graph is refused, a dense array
/// asks for the registry first, and every other operation is begun at once, with the job as it is.
/// What changes rows in place or reports on a dataset goes by its identifier, the rest by its key. A
/// dense array answers with the root, a slash and the identifier, everything else that is stored
/// with the key.
pub proof fn law_operations_on_zarr<B>(
    storage: Arc<ZarrStorage>,
    label: String,
    root: String,
    name: String,
    job: Job<B>,
    result: Result<(Run<B>, Action<B>), Error>,
)
    requires
        (Backend::Zarr { storage, label, root }).attempts(name, job, result),
    ensures
        job is LoadTable ==> (result matches Err(Error::Storage(text)) && text@
            == "vector collections are not supported on the zarr backend"@),
        job is LoadSparse ==> (result matches Err(Error::Storage(text)) && text@
            == "sparse collections are not supported on the zarr backend"@),
        job is LoadGraph ==> (result matches Err(Error::Storage(text)) && text@
            == "graph collections are not supported on the zarr backend"@),
        job is StoreDense ==> {
            &&& result matches Ok(start)
            &&& start.1 is ProbeRegistry
            &&& start.0 matches Run::ZarrProbe { zarr, label: l, key, answer, job: j }
            &&& zarr == storage
            &&& l@ == label@
            &&& key@ == dataset_key(label@, name@)
            &&& answer@ == root@ + "/"@ + dataset_id(label@, name@)
            &&& j == job
        },
        job is StoreTable || job is StoreSparse || job is StoreGraph ==> {
            &&& result matches Ok(start)
            &&& start.0 matches Run::ZarrWork { zarr, answer, kind }
            &&& zarr == storage
            &&& answer@ == dataset_key(label@, name@)
            &&& kind == job.kind_view()
            &&& does(job, dataset_key(label@, name@), start.1)
        },
        job is LoadDense ==> {
            &&& result matches Ok(start)
            &&& start.0 matches Run::ZarrWork { zarr, kind, .. }
            &&& zarr == storage
            &&& kind == Kind::LoadDense
            &&& start.1 matches Action::LoadDense { key }
            &&& key@ == dataset_key(label@, name@)
        },
        job is Append || job is Overwrite || job is Summarize ==> {
            &&& result matches Ok(start)
            &&& start.0 matches Run::ZarrWork { zarr, kind, .. }
            &&& zarr == storage
            &&& kind == job.kind_view()
            &&& does(job, dataset_id(label@, name@), start.1)
        },
        job is List ==> {
            &&& result matches Ok(start)
            &&& start.0 matches Run::ZarrWork { zarr, kind, .. }
            &&& zarr == storage
            &&& kind == Kind::List
            &&& start.1 is List
        },
{
}

/// An array that may be stored is stored, or its rows are appended, with its own shape and cells,
/// and every other array is refused.
pub proof fn law_arrays_go_in_unchanged<B>(
    backend: Backend,
    array: NumpyArray,
    name: String,
    stored: Result<(Run<B>, Action<B>), Error>,
    appended: Result<(Run<B>, Action<B>), Error>,
)
    requires
        stores_array(backend, array, name, stored),
        appends_array(backend, name, array, appended),
    ensures
        array.storable() ==> {
            &&& backend.attempts(
                name,
                Job::StoreDense { rows: array.rows, cols: array.cols, cells: array.cells },
                stored,
            )
            &&& backend.attempts(
                name,
                Job::Append { rows: array.rows, cols: array.cols, cells: array.cells },
                appended,
            )
        },
        !array.storable() ==> {
            &&& stored matches Err(e)
            &&& array_refusal(array, e)
            &&& appended matches Err(f)
            &&& array_refusal(array, f)
        },
{
}

/// A table is stored with its own rows and, on Lance, with the properties that were given. Without
/// any, and on Zarr, it is stored without properties.
pub proof fn law_tables_go_in_unchanged<B>(
    backend: Backend,
    batch: B,
    rows: usize,
    name: String,
    properties: Option<BTreeMap<String, String>>,
    result: Result<(Run<B>, Action<B>), Error>,
)
    requires
        stores_table(backend, batch, rows, name, properties, result),
    ensures
        result matches Ok(start) && match backend {
            Backend::Lance(inner) => {
                &&& start.0 matches Run::LanceProbe { name: n, job, .. }
                &&& n@ == name@
                &&& job matches Job::StoreTable { batch: b, rows: r, properties: p }
                &&& b == batch
                &&& r == rows
                &&& properties is Some ==> p == properties->0
                &&& properties is None ==> forall|k: String| !#[trigger] p@.contains_key(k)
            },
            Backend::Zarr { label, .. } => {
                &&& start.1 matches Action::SaveTable { key, batch: b, properties: p }
                &&& key@ == dataset_key(label@, name@)
                &&& b == batch
                &&& forall|k: String| !#[trigger] p@.contains_key(k)
            },
        },
{
    let written = choose|written: BTreeMap<String, String>| #[trigger]
        backend.writes(properties, written) && backend.attempts(
            name,
            Job::StoreTable { batch, rows, properties: written },
            result,
        );
    assert(backend.writes(properties, written));
}

/// A graph is seeded with as many rows as nodes are given, and with none if that is left open.
pub proof fn law_rows_of_a_graph(n: u64)
    ensures
        rows_hint(None) == 0,
        n <= usize::MAX ==> rows_hint(Some(n)) == n,
{
}

/// What is refused of a sparse matrix: the offsets, then the columns, then the three arrays
/// together, each for what is wrong with it.
pub proof fn law_refused_sparse_matrix<B>(
    backend: Backend,
    indptr: IntArray,
    indices: IntArray,
    data: Seq<u64>,
    shape: (usize, usize),
    name: String,
    result: Result<(Run<B>, Action<B>), Error>,
)
    requires
        stores_sparse(backend, indptr, indices, data, shape, name, result),
    ensures
        index_view(indptr) is None ==> (result matches Err(e) && index_refusal(
            indptr,
            "indptr"@,
            e,
        )),
        index_view(indptr) is Some && index_view(indices) is None ==> (result matches Err(e)
            && index_refusal(indices, "indices"@, e)),
        index_view(indptr) is Some && index_view(indices) is Some && !describes(
            index_view(indptr)->0,
            index_view(indices)->0,
            data,
            shape,
        ) ==> (result matches Err(Error::Value(text)) && csr_refusal(
            index_view(indptr)->0,
            index_view(indices)->0,
            data,
            shape,
            text@,
        )),
        index_view(indptr) is Some && index_view(indices) is Some && describes(
            index_view(indptr)->0,
            index_view(indices)->0,
            data,
            shape,
        ) ==> result is Ok,
{
}

/// The matrix that is saved has exactly the entries of the arrays that were given: in row `r`, for
/// each place between its two offsets, the column and the value in that place. The numbers are those
/// of the integer arrays, whatever their element types, as far as an index can hold them.
pub proof fn law_saved_entries_are_those_given<B>(
    backend: Backend,
    indptr: IntArray,
    indices: IntArray,
    data: Seq<u64>,
    shape: (usize, usize),
    name: String,
    start: (Run<B>, Action<B>),
    runs: Seq<Run<B>>,
    events: Seq<Event<B>>,
    actions: Seq<Action<B>>,
    i: int,
    r: int,
    k: int,
)
    requires
        stores_sparse(backend, indptr, indices, data, shape, name, Ok(start)),
        forall|k: int| 0 <= k < count(indptr) ==> #[trigger] number_at(indptr, k) <= usize::MAX,
        forall|k: int| 0 <= k < count(indices) ==> #[trigger] number_at(indices, k) <= usize::MAX,
        follows(start, runs, events, actions),
        0 <= i <= events.len(),
        asked(start, actions)[i] is SaveSparse,
    ensures
        count(indptr) == shape.0 + 1,
        count(indices) == data.len(),
        asked(start, actions)[i]->SaveSparse_key@ == backend.key_view(name@),
        triplet_shape(asked(start, actions)[i]->SaveSparse_triplets) == shape,
        triplets(asked(start, actions)[i]->SaveSparse_triplets).len() == number_at(
            indptr,
            shape.0 as int,
        ) - number_at(indptr, 0),
        0 <= r < shape.0 && number_at(indptr, r) <= k < number_at(indptr, r + 1) ==> {
            let entry = triplets(asked(start, actions)[i]->SaveSparse_triplets)[k - number_at(
                indptr,
                0,
            )];
            &&& entry.0 == r
            &&& entry.1 == number_at(indices, k)
            &&& entry.2 == data[k]
        },
{
    law_indices_are_the_numbers(indptr);
    law_indices_are_the_numbers(indices);
    let ptr = index_view(indptr)->0;
    let cols = index_view(indices)->0;
    let m = choose|m: TriMat<u64>| #[trigger]
        collected(ptr, cols, data, shape, m) && backend.attempts(
            name,
            Job::StoreSparse { triplets: m, shape },
            Ok(start),
        );
    let job = Job::<B>::StoreSparse { triplets: m, shape };
    law_job_is_done_as_given(backend, name, job, start, runs, events, actions, i);
    law_entries_are_collected_in_place(ptr, cols, data, shape, m);
    law_accepted_arrays(ptr, cols, data, shape);
    assert forall|k: int| 0 <= k < ptr.len() implies ptr[k] == #[trigger] number_at(indptr, k) by {}
    assert forall|k: int| 0 <= k < cols.len() implies cols[k] == #[trigger] number_at(
        indices,
        k,
    ) by {}
    assert(number_at(indptr, 0) == ptr[0]);
    assert(number_at(indptr, shape.0 as int) == ptr[shape.0 as int]);
    if 0 <= r < shape.0 && number_at(indptr, r) <= k < number_at(indptr, r + 1) {
        assert(ptr[r] == number_at(indptr, r));
        assert(ptr[r + 1] == number_at(indptr, r + 1));
        assert(ptr[r] <= ptr[r + 1] && ptr[r + 1] <= data.len());
        assert(cols[k] == number_at(indices, k));
        assert(triplets(m)[k - ptr[0]] == (r as usize, cols[k], data[k]));
    }
}

/// A sparse matrix comes back as the arrays that were given: their numbers in their places and
/// their values, if what is brought holds the entries that were saved, with increasing columns. The
/// columns increase in each row of the arrays, which begin at the first entry and end behind the
/// last one, and no number is larger than a signed number of 64 bits or an index can hold.
pub proof fn law_given_sparse_arrays_come_back<B>(
    backend: Backend,
    indptr: IntArray,
    indices: IntArray,
    data: Seq<u64>,
    shape: (usize, usize),
    name: String,
    put: (Run<B>, Action<B>),
    put_runs: Seq<Run<B>>,
    put_events: Seq<Event<B>>,
    put_actions: Seq<Action<B>>,
    i: int,
    matrix: SparseRows,
    got: (Run<B>, Action<B>),
    got_runs: Seq<Run<B>>,
    got_events: Seq<Event<B>>,
    got_actions: Seq<Action<B>>,
    j: int,
)
    requires
        stores_sparse(backend, indptr, indices, data, shape, name, Ok(put)),
        forall|k: int| 0 <= k < count(indptr) ==> #[trigger] number_at(indptr, k) <= usize::MAX,
        forall|k: int| 0 <= k < count(indices) ==> #[trigger] number_at(indices, k) <= usize::MAX,
        number_at(indptr, 0) == 0,
        number_at(indptr, shape.0 as int) == data.len(),
        data.len() <= i64::MAX,
        shape.1 <= i64::MAX,
        forall|r: int, k: int, l: int|
            0 <= r < shape.0 && #[trigger] number_at(indptr, r) <= k < l < number_at(indptr, r + 1)
                ==> #[trigger] number_at(indices, k) < #[trigger] number_at(indices, l),
        follows(put, put_runs, put_events, put_actions),
        0 <= i <= put_events.len(),
        asked(put, put_actions)[i] is SaveSparse,
        matrix.canonical(),
        matrix.shape == shape,
        forall|r: int|
            0 <= r < shape.0 ==> same_entries(
                (#[trigger] matrix.rows@[r])@,
                entries_of_row(triplets(asked(put, put_actions)[i]->SaveSparse_triplets), r),
            ),
        backend.attempts(name, Job::LoadSparse, Ok(got)),
        follows(got, got_runs, got_events, got_actions),
        0 <= j < got_events.len(),
        got_events[j] == Event::<B>::LoadedSparse(matrix),
    ensures
        asked(got, got_actions)[j] matches Action::LoadSparse { key } && key@ == asked(
            put,
            put_actions,
        )[i]->SaveSparse_key@,
        got_actions[j] matches Action::Finish(Outcome::Sparse(parts)) && {
            &&& parts.indptr@.len() == count(indptr)
            &&& forall|k: int|
                0 <= k < count(indptr) ==> #[trigger] parts.indptr@[k] == number_at(indptr, k)
            &&& parts.indices@.len() == count(indices)
            &&& forall|k: int|
                0 <= k < count(indices) ==> #[trigger] parts.indices@[k] == number_at(indices, k)
            &&& parts.data@ == data
            &&& parts.shape == shape
        },
{
    law_indices_are_the_numbers(indptr);
    law_indices_are_the_numbers(indices);
    let ptr = index_view(indptr)->0;
    let cols = index_view(indices)->0;
    assert forall|k: int| 0 <= k < ptr.len() implies ptr[k] == #[trigger] number_at(indptr, k) by {}
    assert forall|k: int| 0 <= k < cols.len() implies cols[k] == #[trigger] number_at(
        indices,
        k,
    ) by {}
    let m = choose|m: TriMat<u64>| #[trigger]
        collected(ptr, cols, data, shape, m) && backend.attempts(
            name,
            Job::StoreSparse { triplets: m, shape },
            Ok(put),
        );
    law_accepted_arrays(ptr, cols, data, shape);
    assert forall|r: int| 0 <= r < shape.0 implies increasing(
        #[trigger] row_entries(ptr, cols, data, r),
    ) && distinct(row_entries(ptr, cols, data, r)) by {
        let entries = row_entries(ptr, cols, data, r);
        assert(ptr[r] <= ptr[r + 1] && ptr[r + 1] <= data.len());
        assert(ptr[r] == number_at(indptr, r));
        assert(ptr[r + 1] == number_at(indptr, r + 1));
        assert forall|x: int, y: int| 0 <= x < y < entries.len() implies (
        #[trigger] entries[x]).0 < (#[trigger] entries[y]).0 by {
            assert(cols[ptr[r] + x] == number_at(indices, ptr[r] + x));
            assert(cols[ptr[r] + y] == number_at(indices, ptr[r] + y));
        }
    }
    assert(number_at(indptr, 0) == ptr[0]);
    assert(number_at(indptr, shape.0 as int) == ptr[shape.0 as int]);
    law_store_sparse_then_load(
        backend,
        backend,
        name,
        ptr,
        cols,
        data,
        shape,
        m,
        put,
        put_runs,
        put_events,
        put_actions,
        i,
        matrix,
        got,
        got_runs,
        got_events,
        got_actions,
        j,
    );
    let parts = got_actions[j]->Finish_0->Sparse_0;
    let p = parts.indptr@.map_values(|n: i64| n as int);
    let c = parts.indices@.map_values(|n: i64| n as int);
    assert(p.len() == ptr.len());
    assert(c.len() == cols.len());
    assert forall|k: int| 0 <= k < count(indptr) implies #[trigger] parts.indptr@[k] == number_at(
        indptr,
        k,
    ) by {
        assert(p[k] == ptr.map_values(|n: usize| n as int)[k]);
        assert(ptr[k] == number_at(indptr, k));
    }
    assert forall|k: int| 0 <= k < count(indices) implies #[trigger] parts.indices@[k] == number_at(
        indices,
        k,
    ) by {
        assert(c[k] == cols.map_values(|n: usize| n as int)[k]);
        assert(cols[k] == number_at(indices, k));
    }
}

/// The graph that is saved has exactly the edges that were given: in each place the numbers of the
/// two integer arrays, and the weight if there are weights. It is saved with the width and the
/// number of nodes that were given.
pub proof fn law_saved_edges_are_those_given<B>(
    backend: Backend,
    name: String,
    src: IntArray,
    dst: IntArray,
    weights: Option<Vec<u64>>,
    num_nodes: Option<u64>,
    node_id_width: Option<String>,
    start: (Run<B>, Action<B>),
    runs: Seq<Run<B>>,
    events: Seq<Event<B>>,
    actions: Seq<Action<B>>,
    i: int,
    k: int,
)
    requires
        stores_graph(backend, name, src, dst, weights, num_nodes, node_id_width, Ok(start)),
        follows(start, runs, events, actions),
        0 <= i <= events.len(),
        asked(start, actions)[i] is SaveGraph,
    ensures
        asked(start, actions)[i]->SaveGraph_key@ == backend.key_view(name@),
        asked(start, actions)[i]->SaveGraph_edges@.len() == count(src),
        count(dst) == count(src),
        weights is Some ==> weights->0@.len() == count(src),
        0 <= k < count(src) ==> {
            let edge = asked(start, actions)[i]->SaveGraph_edges@[k];
            &&& edge.src == number_at(src, k)
            &&& edge.dst == number_at(dst, k)
            &&& weights is Some ==> edge.weight == Some(weights->0@[k])
            &&& weights is None ==> edge.weight is None
        },
        asked(start, actions)[i]->SaveGraph_options.num_nodes == num_nodes,
        node_id_width is None ==> asked(start, actions)[i]->SaveGraph_options.node_id_width
            == NodeIdWidth::U32,
        node_id_width is Some ==> node_id_width->0@ == asked(
            start,
            actions,
        )[i]->SaveGraph_options.node_id_width.name(),
{
    law_node_ids_are_the_numbers(src);
    law_node_ids_are_the_numbers(dst);
    law_accepted_graphs(src, dst, weights, node_id_width);
    law_width_is_the_one_named(node_id_width);
    let w = weights_view(weights);
    let width = text_view(node_id_width);
    let options = GraphOptions { node_id_width: width_named(width)->0, num_nodes };
    let edges = choose|edges: Vec<Edge>|
        {
            &&& #[trigger] edges@ == edge_list(node_id_view(src)->0, node_id_view(dst)->0, w)
            &&& backend.attempts(
                name,
                Job::StoreGraph { edges, options, rows_hint: rows_hint(num_nodes) },
                Ok(start),
            )
        };
    let job = Job::<B>::StoreGraph { edges, options, rows_hint: rows_hint(num_nodes) };
    law_job_is_done_as_given(backend, name, job, start, runs, events, actions, i);
    law_edges_join_the_arrays(node_id_view(src)->0, node_id_view(dst)->0, w, k);
    if 0 <= k < count(src) {
        assert(node_id_view(src)->0[k] == number_at(src, k));
        assert(node_id_view(dst)->0[k] == number_at(dst, k));
    }
}

/// A graph comes back as the arrays that were given: in each place the numbers of the two integer
/// arrays and the weight, and the facts of the graph, if what is brought are the edges that were
/// saved.
pub proof fn law_given_graph_comes_back<B>(
    backend: Backend,
    name: String,
    src: IntArray,
    dst: IntArray,
    weights: Option<Vec<u64>>,
    num_nodes: Option<u64>,
    node_id_width: Option<String>,
    put: (Run<B>, Action<B>),
    put_runs: Seq<Run<B>>,
    put_events: Seq<Event<B>>,
    put_actions: Seq<Action<B>>,
    i: int,
    graph: StoredGraph,
    got: (Run<B>, Action<B>),
    got_runs: Seq<Run<B>>,
    got_events: Seq<Event<B>>,
    got_actions: Seq<Action<B>>,
    j: int,
    k: int,
)
    requires
        stores_graph(backend, name, src, dst, weights, num_nodes, node_id_width, Ok(put)),
        follows(put, put_runs, put_events, put_actions),
        0 <= i <= put_events.len(),
        asked(put, put_actions)[i] is SaveGraph,
        graph.edges@ == asked(put, put_actions)[i]->SaveGraph_edges@,
        graph.weighted == weights is Some,
        graph.node_id_width == asked(put, put_actions)[i]->SaveGraph_options.node_id_width,
        backend.attempts(name, Job::LoadGraph, Ok(got)),
        follows(got, got_runs, got_events, got_actions),
        0 <= j < got_events.len(),
        got_events[j] == Event::<B>::LoadedGraph(graph),
    ensures
        asked(got, got_actions)[j] matches Action::LoadGraph { key } && key@ == asked(
            put,
            put_actions,
        )[i]->SaveGraph_key@,
        got_actions[j] matches Action::Finish(Outcome::Graph(arrays)) && {
            &&& arrays.src@.len() == count(src)
            &&& arrays.dst@.len() == count(src)
            &&& 0 <= k < count(src) ==> arrays.src@[k] == number_at(src, k) && arrays.dst@[k]
                == number_at(dst, k)
            &&& weights is Some ==> arrays.weight is Some && arrays.weight->0@ == weights->0@
            &&& weights is None ==> arrays.weight is None
            &&& arrays.weighted == weights is Some
            &&& arrays.num_nodes == graph.num_nodes
            &&& node_id_width is None ==> arrays.node_id_width@ == "u32"@
            &&& node_id_width is Some ==> arrays.node_id_width@ == node_id_width->0@
        },
{
    law_saved_edges_are_those_given(
        backend,
        name,
        src,
        dst,
        weights,
        num_nodes,
        node_id_width,
        put,
        put_runs,
        put_events,
        put_actions,
        i,
        k,
    );
    lemma_carries(backend, name, Job::LoadGraph, got, got_runs, got_events, got_actions, j);
    assert(got_runs[j].expects(got_events[j]));
    let arrays = got_actions[j]->Finish_0->Graph_0;
    law_edges_are_written_in_place(graph, arrays, k);
    if weights is Some {
        assert forall|n: int| 0 <= n < weights->0@.len() implies arrays.weight->0@[n]
            == #[trigger] weights->0@[n] by {
            law_saved_edges_are_those_given(
                backend,
                name,
                src,
                dst,
                weights,
                num_nodes,
                node_id_width,
                put,
                put_runs,
                put_events,
                put_actions,
                i,
                n,
            );
            law_edges_are_written_in_place(graph, arrays, n);
        }
        assert(arrays.weight->0@ =~= weights->0@);
    }
}

/// What is refused of a graph is refused for what is wrong with it, and everything else is taken.
pub proof fn law_refused_graph<B>(
    backend: Backend,
    name: String,
    src: IntArray,
    dst: IntArray,
    weights: Option<Vec<u64>>,
    num_nodes: Option<u64>,
    node_id_width: Option<String>,
    result: Result<(Run<B>, Action<B>), Error>,
)
    requires
        stores_graph(backend, name, src, dst, weights, num_nodes, node_id_width, result),
    ensures
        !describes_graph(src, dst, weights_view(weights), text_view(node_id_width)) ==> (
        result matches Err(e) && graph_refusal(
            src,
            dst,
            weights_view(weights),
            text_view(node_id_width),
            e,
        )),
        describes_graph(src, dst, weights_view(weights), text_view(node_id_width)) ==> result is Ok,
        result matches Ok(start) ==> (start.0 matches Run::LanceProbe { job, .. } ==> (
        job matches Job::StoreGraph { rows_hint: rows, .. } && rows == match num_nodes {
            Some(n) => n as usize,
            None => 0,
        })),
{
}

/// An array comes back as it was given: the load asks for the key under which it was saved, and
/// hands out its rows, columns and cells once it is brought a matrix with the cells that were saved.
pub proof fn law_given_array_comes_back<B>(
    backend: Backend,
    name: String,
    array: NumpyArray,
    put: (Run<B>, Action<B>),
    put_runs: Seq<Run<B>>,
    put_events: Seq<Event<B>>,
    put_actions: Seq<Action<B>>,
    i: int,
    m: DenseMatrix<u64>,
    got: (Run<B>, Action<B>),
    got_runs: Seq<Run<B>>,
    got_events: Seq<Event<B>>,
    got_actions: Seq<Action<B>>,
    j: int,
)
    requires
        array.cells@.len() == array.rows * array.cols,
        stores_array(backend, array, name, Ok(put)),
        follows(put, put_runs, put_events, put_actions),
        0 <= i <= put_events.len(),
        asked(put, put_actions)[i] is SaveDense,
        matrix_shape(m) == matrix_shape(asked(put, put_actions)[i]->SaveDense_matrix),
        matrix_cells(m) == matrix_cells(asked(put, put_actions)[i]->SaveDense_matrix),
        backend.attempts(name, Job::LoadDense, Ok(got)),
        follows(got, got_runs, got_events, got_actions),
        0 <= j < got_events.len(),
        got_events[j] == Event::<B>::LoadedDense(m),
    ensures
        asked(put, put_actions)[i]->SaveDense_key@ == backend.key_view(name@),
        asked(got, got_actions)[j] matches Action::LoadDense { key } && key@ == backend.key_view(
            name@,
        ),
        got_actions[j] matches Action::Finish(Outcome::Array { rows, cols, cells }) && rows
            == array.rows && cols == array.cols && cells@ == array.cells@,
{
    let job = Job::<B>::StoreDense { rows: array.rows, cols: array.cols, cells: array.cells };
    law_one_key_for_a_name(
        backend,
        backend,
        name,
        job,
        put,
        put_runs,
        put_events,
        put_actions,
        i,
    );
    law_store_then_load(
        backend,
        backend,
        name,
        array,
        put,
        put_runs,
        put_events,
        put_actions,
        i,
        got,
        got_runs,
        got_events,
        got_actions,
        j,
    );
}

/// A listing is complete: once it is told a list of summaries, a run that lists the datasets hands
/// out exactly one report for each of them, in its place, and each report holds every fact of its
/// dataset under the name of that fact.
pub proof fn law_listing_is_complete<B>(
    backend: Backend,
    name: String,
    start: (Run<B>, Action<B>),
    runs: Seq<Run<B>>,
    events: Seq<Event<B>>,
    actions: Seq<Action<B>>,
    summaries: Vec<DatasetSummary>,
    i: int,
    k: int,
)
    requires
        backend.attempts(name, Job::List, Ok(start)),
        follows(start, runs, events, actions),
        0 <= i < events.len(),
        events[i] == Event::<B>::Listed(summaries),
    ensures
        asked(start, actions)[i] is List,
        actions[i] matches Action::Finish(Outcome::Datasets(dicts)) && {
            &&& dicts@.len() == summaries@.len()
            &&& 0 <= k < summaries@.len() ==> {
                let dict = dicts@[k]@;
                let summary = summaries@[k];
                &&& dict.len() == 8
                &&& dict[0].0@ == "dataset_id"@ && dict[0].1 == Field::Text(summary.dataset_id)
                &&& dict[1].0@ == "root"@ && dict[1].1 == Field::Text(summary.root)
                &&& dict[2].0@ == "path"@ && dict[2].1 == Field::Text(summary.path)
                &&& dict[3].0@ == "shape"@ && dict[3].1 == Field::Numbers(summary.shape)
                &&& dict[4].0@ == "dtype"@ && dict[4].1 == Field::Text(summary.dtype)
                &&& dict[5].0@ == "chunks"@ && dict[5].1 == Field::OptionalNumbers(summary.chunks)
                &&& dict[6].0@ == "fill_value"@ && dict[6].1 == Field::OptionalText(
                    summary.fill_value,
                )
                &&& dict[7].0@ == "kind"@
                &&& dict[7].1 matches Field::Text(text)
                &&& summary.kind is Array ==> text@ == "array"@
                &&& summary.kind is Group ==> text@ == "group"@
            }
        },
{
    lemma_carries(backend, name, Job::List, start, runs, events, actions, i);
    assert(runs[i].expects(events[i]));
    law_everything_is_handed_out(runs[i], events[i], runs[i + 1], actions[i]);
    if 0 <= k < summaries@.len() {
        let dicts = actions[i]->Finish_0->Datasets_0;
        assert(summarizes(dicts@[k]@, summaries@[k]));
        law_every_fact_is_reported(dicts@[k]@, summaries@[k]);
    }
}

/// A report on one dataset is asked for under the identifier of its name, and holds every fact of
/// the dataset that is brought.
pub proof fn law_report_is_complete<B>(
    backend: Backend,
    name: String,
    start: (Run<B>, Action<B>),
    runs: Seq<Run<B>>,
    events: Seq<Event<B>>,
    actions: Seq<Action<B>>,
    summary: DatasetSummary,
    i: int,
)
    requires
        backend.attempts(name, Job::Summarize, Ok(start)),
        follows(start, runs, events, actions),
        0 <= i < events.len(),
        events[i] == Event::<B>::Summarized(summary),
    ensures
        asked(start, actions)[i] matches Action::Summarize { id } && id@ == backend.id_view(name@),
        actions[i] matches Action::Finish(Outcome::Dataset(dict)) && {
            &&& dict@.len() == 8
            &&& dict@[0].0@ == "dataset_id"@ && dict@[0].1 == Field::Text(summary.dataset_id)
            &&& dict@[1].0@ == "root"@ && dict@[1].1 == Field::Text(summary.root)
            &&& dict@[2].0@ == "path"@ && dict@[2].1 == Field::Text(summary.path)
            &&& dict@[3].0@ == "shape"@ && dict@[3].1 == Field::Numbers(summary.shape)
            &&& dict@[4].0@ == "dtype"@ && dict@[4].1 == Field::Text(summary.dtype)
            &&& dict@[5].0@ == "chunks"@ && dict@[5].1 == Field::OptionalNumbers(summary.chunks)
            &&& dict@[6].0@ == "fill_value"@ && dict@[6].1 == Field::OptionalText(
                summary.fill_value,
            )
            &&& dict@[7].0@ == "kind"@
            &&& dict@[7].1 matches Field::Text(text)
            &&& summary.kind is Array ==> text@ == "array"@
            &&& summary.kind is Group ==> text@ == "group"@
        },
{
    lemma_carries(backend, name, Job::Summarize, start, runs, events, actions, i);
    assert(runs[i].expects(events[i]));
    law_everything_is_handed_out(runs[i], events[i], runs[i + 1], actions[i]);
    law_every_fact_is_reported(actions[i]->Finish_0->Dataset_0@, summary);
}

/// Rows that are appended are those of the array that was given, cell by cell, under the identifier
/// of the name, and what the append brings is handed out.
pub proof fn law_given_rows_are_appended<B>(
    backend: Backend,
    name: String,
    array: NumpyArray,
    start: (Run<B>, Action<B>),
    runs: Seq<Run<B>>,
    events: Seq<Event<B>>,
    actions: Seq<Action<B>>,
    i: int,
    first: usize,
    rows: usize,
    r: int,
    c: int,
)
    requires
        appends_array(backend, name, array, Ok(start)),
        follows(start, runs, events, actions),
        0 <= i < events.len(),
        events[i] == (Event::<B>::Appended { start: first, rows }),
    ensures
        asked(start, actions)[i] matches Action::Append { id, matrix } && {
            &&& id@ == backend.id_view(name@)
            &&& matrix_shape(matrix) == (array.rows, array.cols)
            &&& 0 <= r < array.rows && 0 <= c < array.cols ==> matrix_cells(matrix)[r][c]
                == array.cells@[r * array.cols + c]
        },
        actions[i] == Action::Finish(Outcome::<B>::Appended { start: first, rows }),
{
    let job = Job::<B>::Append { rows: array.rows, cols: array.cols, cells: array.cells };
    lemma_carries(backend, name, job, start, runs, events, actions, i);
    assert(runs[i].expects(events[i]));
    law_nothing_is_lost_on_the_way(job, backend.id_view(name@), asked(start, actions)[i]);
}

/// The updates that overwrite rows are those that were given, under the identifier of the name, and
/// the number that the overwrite brings is handed out.
pub proof fn law_given_updates_are_written<B>(
    backend: Backend,
    name: String,
    updates: Vec<RowUpdate>,
    start: (Run<B>, Action<B>),
    runs: Seq<Run<B>>,
    events: Seq<Event<B>>,
    actions: Seq<Action<B>>,
    i: int,
    rows: usize,
)
    requires
        backend.attempts(name, Job::Overwrite { updates }, Ok(start)),
        follows(start, runs, events, actions),
        0 <= i < events.len(),
        events[i] == (Event::<B>::Overwritten { rows }),
    ensures
        asked(start, actions)[i] matches Action::Overwrite { id, updates: u } && id@
            == backend.id_view(name@) && u == updates,
        actions[i] == Action::Finish(Outcome::<B>::Overwritten { rows }),
{
    lemma_carries(backend, name, Job::Overwrite { updates }, start, runs, events, actions, i);
    assert(runs[i].expects(events[i]));
}

/// The answer to a stored array on Zarr is where the dataset is: the root, a slash and the
/// identifier of the name, once the array has been saved under the key of the name.
pub proof fn law_zarr_answers_with_the_dataset<B>(
    storage: Arc<ZarrStorage>,
    label: String,
    root: String,
    name: String,
    array: NumpyArray,
    start: (Run<B>, Action<B>),
    runs: Seq<Run<B>>,
    events: Seq<Event<B>>,
    actions: Seq<Action<B>>,
    i: int,
)
    requires
        stores_array(Backend::Zarr { storage, label, root }, array, name, Ok(start)),
        follows(start, runs, events, actions),
        0 <= i < events.len(),
        asked(start, actions)[i] is SaveDense,
        events[i] is Done,
    ensures
        asked(start, actions)[i]->SaveDense_key@ == dataset_key(label@, name@),
        actions[i] matches Action::Finish(Outcome::Text(text)) && text@ == root@ + "/"@
            + dataset_id(label@, name@),
{
    let backend = Backend::Zarr { storage, label, root };
    let job = Job::<B>::StoreDense { rows: array.rows, cols: array.cols, cells: array.cells };
    law_operations_on_zarr(storage, label, root, name, job, Ok(start));
    law_job_is_done_as_given(backend, name, job, start, runs, events, actions, i);
    lemma_works_in_work(backend, name, job, start, runs, events, actions, i);
    lemma_answer_is_kept(start, runs, events, actions, i);
    assert(runs[i].expects(events[i]));
}

/// A run on Zarr keeps the answer with which it started.
proof fn lemma_answer_is_kept<B>(
    start: (Run<B>, Action<B>),
    runs: Seq<Run<B>>,
    events: Seq<Event<B>>,
    actions: Seq<Action<B>>,
    i: int,
)
    requires
        start.0 is ZarrProbe,
        follows(start, runs, events, actions),
        0 <= i <= events.len(),
    ensures
        match runs[i] {
            Run::ZarrProbe { answer, .. } => answer@ == start.0->ZarrProbe_answer@,
            Run::ZarrSeed { answer, .. } => answer@ == start.0->ZarrProbe_answer@,
            Run::ZarrWork { answer, .. } => answer@ == start.0->ZarrProbe_answer@,
            Run::Over => true,
            _ => false,
        },
    decreases i,
{
    if i > 0 {
        lemma_answer_is_kept(start, runs, events, actions, i - 1);
        assert(runs[i - 1].expects(events[i - 1]));
    }
}

/// How a storage in Zarr format is described: by its root and its label.
pub proof fn law_zarr_is_described_by_root_and_label(root: Seq<char>, label: Seq<char>)
    ensures
        zarr_text(root, label) == "ZarrStorage(root='"@ + root + "', label='"@ + label + "')"@,
{
}

/// A run begins with the action of its start and goes on with the action of each step.
pub proof fn law_what_a_run_asks_for<B>(
    start: (Run<B>, Action<B>),
    runs: Seq<Run<B>>,
    events: Seq<Event<B>>,
    actions: Seq<Action<B>>,
    i: int,
)
    ensures
        asked(start, actions).len() == actions.len() + 1,
        asked(start, actions)[0] == start.1,
        0 <= i < actions.len() ==> asked(start, actions)[i + 1] == actions[i],
        follows(start, runs, events, actions) <==> is_history(runs, events, actions) && runs[0]
            == start.0,
{
}

} // verus!
