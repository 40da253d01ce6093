//! Runs: the order in which an operation works on a store.
//!
//! An operation that reaches a store is a run. A run says what is to be done next, is told what
//! came of it, and goes on until it finishes or fails. What it says depends only on what it was
//! told, so that the order of the steps can be stated here, apart from the store.

use genegraph_storage::lance_storage_graph::LanceStorageGraph;
use genegraph_storage::zarr_storage::ZarrStorage;
use smartcore::linalg::basic::matrix::DenseMatrix;
use sprs::TriMat;
use std::collections::BTreeMap;
use std::sync::Arc;
use vstd::prelude::*;

use crate::dense::{
    addressable, dense_from_parts, dense_to_flat, flat_cells, grid, law_cells_stand_row_after_row,
    matrix_cells, matrix_shape,
};
use crate::error::{pyerr, Error};
use crate::graph::{
    arrays_of, graph_to_py, weights_view, Edge, GraphArrays, GraphOptions, StoredGraph,
};
use crate::kernel::{
    collection_file, collection_location, collection_text, kernel_error_text, lance_base,
    lance_handle, lance_name, lance_store, leads_to, metadata_file, metadata_location, metadata_text,
    reserved_message, reserved_name,
};
use crate::sparse::{parts_of, sparse_to_py, SparseParts, SparseRows};
use crate::summary::{summarizes, summary_dict, summary_dicts, DatasetSummary, Field};

verus! {

/// The replacement of one row. The vector holds bit patterns of doubles.
pub struct RowUpdate {
    pub row_index: usize,
    pub vector: Vec<u64>,
}

/// What is done in a store once it is open. `B` is the type of a record batch.
pub enum Job<B> {
    StoreDense { rows: usize, cols: usize, cells: Vec<u64> },
    StoreTable { batch: B, rows: usize, properties: BTreeMap<String, String> },
    StoreSparse { triplets: TriMat<u64>, shape: (usize, usize) },
    StoreGraph { edges: Vec<Edge>, options: GraphOptions, rows_hint: usize },
    LoadDense,
    LoadTable,
    LoadSparse,
    LoadGraph,
    Append { rows: usize, cols: usize, cells: Vec<u64> },
    Overwrite { updates: Vec<RowUpdate> },
    List,
    Summarize,
}

/// The kind of a job.
#[derive(Debug, Clone, Copy, PartialEq, Eq, Structural)]
pub enum Kind {
    StoreDense,
    StoreTable,
    StoreSparse,
    StoreGraph,
    LoadDense,
    LoadTable,
    LoadSparse,
    LoadGraph,
    Append,
    Overwrite,
    List,
    Summarize,
}

impl Kind {
    /// Whether the job writes a new collection.
    pub open spec fn stores(self) -> bool {
        self == Kind::StoreDense || self == Kind::StoreTable || self == Kind::StoreSparse || self
            == Kind::StoreGraph
    }
}

impl<B> Job<B> {
    /// A dense array holds one cell for each row and column.
    pub open spec fn wf(self) -> bool {
        match self {
            Job::StoreDense { rows, cols, cells } => cells@.len() == rows * cols,
            Job::Append { rows, cols, cells } => cells@.len() == rows * cols,
            _ => true,
        }
    }

    /// The kind of the job.
    pub open spec fn kind_view(self) -> Kind {
        match self {
            Job::StoreDense { .. } => Kind::StoreDense,
            Job::StoreTable { .. } => Kind::StoreTable,
            Job::StoreSparse { .. } => Kind::StoreSparse,
            Job::StoreGraph { .. } => Kind::StoreGraph,
            Job::LoadDense => Kind::LoadDense,
            Job::LoadTable => Kind::LoadTable,
            Job::LoadSparse => Kind::LoadSparse,
            Job::LoadGraph => Kind::LoadGraph,
            Job::Append { .. } => Kind::Append,
            Job::Overwrite { .. } => Kind::Overwrite,
            Job::List => Kind::List,
            Job::Summarize => Kind::Summarize,
        }
    }

    /// The rows and columns with which a store is seeded for the job.
    pub open spec fn size_view(self) -> (usize, usize) {
        match self {
            Job::StoreDense { rows, cols, .. } => (rows, cols),
            Job::StoreTable { rows, .. } => (rows, 0),
            Job::StoreSparse { shape, .. } => shape,
            Job::StoreGraph { rows_hint, .. } => (rows_hint, 0),
            _ => (0, 0),
        }
    }

    /// The kind of the job.
    pub fn kind(&self) -> (kind: Kind)
        ensures
            kind == self.kind_view(),
    {
        match self {
            Job::StoreDense { .. } => Kind::StoreDense,
            Job::StoreTable { .. } => Kind::StoreTable,
            Job::StoreSparse { .. } => Kind::StoreSparse,
            Job::StoreGraph { .. } => Kind::StoreGraph,
            Job::LoadDense => Kind::LoadDense,
            Job::LoadTable => Kind::LoadTable,
            Job::LoadSparse => Kind::LoadSparse,
            Job::LoadGraph => Kind::LoadGraph,
            Job::Append { .. } => Kind::Append,
            Job::Overwrite { .. } => Kind::Overwrite,
            Job::List => Kind::List,
            Job::Summarize => Kind::Summarize,
        }
    }

    /// The rows and columns with which a store is seeded for the job.
    pub fn size(&self) -> (size: (usize, usize))
        ensures
            size == self.size_view(),
    {
        match self {
            Job::StoreDense { rows, cols, .. } => (*rows, *cols),
            Job::StoreTable { rows, .. } => (*rows, 0),
            Job::StoreSparse { shape, .. } => *shape,
            Job::StoreGraph { rows_hint, .. } => (*rows_hint, 0),
            _ => (0, 0),
        }
    }
}

/// What is to be done next.
pub enum Action<B> {
    /// Ask whether a Lance store exists in the directory.
    ProbeLance { base: String },
    /// Open the Lance store in the directory.
    OpenLance { base: String },
    /// Ask whether the Zarr root has a registry.
    ProbeRegistry,
    /// Seed the metadata of the store of the run.
    Seed { name: String, rows: usize, cols: usize },
    SaveDense { key: String, matrix: DenseMatrix<u64> },
    SaveTable { key: String, batch: B, properties: BTreeMap<String, String> },
    SaveSparse { key: String, triplets: TriMat<u64> },
    SaveGraph { key: String, edges: Vec<Edge>, options: GraphOptions },
    LoadDense { key: String },
    LoadTable { key: String },
    LoadSparse { key: String },
    LoadGraph { key: String },
    Append { id: String, matrix: DenseMatrix<u64> },
    Overwrite { id: String, updates: Vec<RowUpdate> },
    List,
    Summarize { id: String },
    /// The run is over: hand out the outcome.
    Finish(Outcome<B>),
    /// The run is over: report the error.
    Fail(Error),
}

impl<B> Action<B> {
    /// Whether the action writes a collection to the store.
    pub open spec fn saves(self) -> bool {
        self is SaveDense || self is SaveTable || self is SaveSparse || self is SaveGraph
    }

    /// Whether the action works on a collection of a store.
    pub open spec fn works(self) -> bool {
        self.saves() || self is LoadDense || self is LoadTable || self is LoadSparse
            || self is LoadGraph || self is Append || self is Overwrite || self is List
            || self is Summarize
    }

    /// Whether the action ends the run.
    pub open spec fn ends(self) -> bool {
        self is Finish || self is Fail
    }
}

/// What came of an action.
pub enum Event<B> {
    Exists(bool),
    Opened(LanceStorageGraph),
    Done,
    LoadedDense(DenseMatrix<u64>),
    LoadedTable(B),
    LoadedSparse(SparseRows),
    LoadedGraph(StoredGraph),
    /// The first appended row, and the number of rows afterwards.
    Appended { start: usize, rows: usize },
    Overwritten { rows: usize },
    Listed(Vec<DatasetSummary>),
    Summarized(DatasetSummary),
    /// The kernel refused or failed.
    Failed(genegraph_storage::StorageError),
}

/// What an operation hands out.
pub enum Outcome<B> {
    Text(String),
    Array { rows: usize, cols: usize, cells: Vec<u64> },
    Table(B),
    Sparse(SparseParts),
    Graph(GraphArrays),
    Appended { start: usize, rows: usize },
    Overwritten { rows: usize },
    Datasets(Vec<Vec<(&'static str, Field)>>),
    Dataset(Vec<(&'static str, Field)>),
}

/// An operation under way.
pub enum Run<B> {
    /// Lance: whether the store exists is not known yet.
    LanceProbe { base: String, name: String, job: Job<B> },
    /// Lance: an existing store is being opened.
    LanceOpen { name: String, job: Job<B> },
    /// Lance: a new store is being seeded.
    LanceSeed { lance: LanceStorageGraph, name: String, job: Job<B> },
    /// Lance: the job is being done.
    LanceWork { lance: LanceStorageGraph, name: String, kind: Kind },
    /// Zarr: whether the root has a registry is not known yet.
    ZarrProbe { zarr: Arc<ZarrStorage>, label: String, key: String, answer: String, job: Job<B> },
    /// Zarr: a new registry is being seeded.
    ZarrSeed { zarr: Arc<ZarrStorage>, key: String, answer: String, job: Job<B> },
    /// Zarr: the job is being done.
    ZarrWork { zarr: Arc<ZarrStorage>, answer: String, kind: Kind },
    /// The operation has finished or failed.
    Over,
}

/// What a read from a directory without a store is refused with.
pub open spec fn missing_store_message(base: Seq<char>) -> Seq<char> {
    "storage at "@ + base + " is not initialized; store an array first"@
}

/// Whether a dense matrix holds the cells of an array.
pub open spec fn holds(matrix: DenseMatrix<u64>, rows: usize, cols: usize, cells: Seq<u64>) -> bool {
    &&& matrix_shape(matrix) == (rows, cols)
    &&& matrix_cells(matrix) == grid(rows as nat, cols as nat, cells)
}

/// Whether `action` does the job under the given key, with all that the job carries.
pub open spec fn does<B>(job: Job<B>, key: Seq<char>, action: Action<B>) -> bool {
    match job {
        Job::StoreDense { rows, cols, cells } => action matches Action::SaveDense { key: k, matrix }
            && k@ == key && holds(matrix, rows, cols, cells@),
        Job::StoreTable { batch, properties, .. } => action matches Action::SaveTable {
            key: k,
            batch: b,
            properties: p,
        } && k@ == key && b == batch && p == properties,
        Job::StoreSparse { triplets, .. } => action matches Action::SaveSparse {
            key: k,
            triplets: t,
        } && k@ == key && t == triplets,
        Job::StoreGraph { edges, options, .. } => action matches Action::SaveGraph {
            key: k,
            edges: e,
            options: o,
        } && k@ == key && e == edges && o == options,
        Job::LoadDense => action matches Action::LoadDense { key: k } && k@ == key,
        Job::LoadTable => action matches Action::LoadTable { key: k } && k@ == key,
        Job::LoadSparse => action matches Action::LoadSparse { key: k } && k@ == key,
        Job::LoadGraph => action matches Action::LoadGraph { key: k } && k@ == key,
        Job::Append { rows, cols, cells } => action matches Action::Append { id, matrix } && id@
            == key && holds(matrix, rows, cols, cells@),
        Job::Overwrite { updates } => action matches Action::Overwrite { id, updates: u } && id@
            == key && u == updates,
        Job::List => action is List,
        Job::Summarize => action matches Action::Summarize { id } && id@ == key,
    }
}

/// Whether an event can come of a job of the given kind that succeeds.
pub open spec fn fits<B>(kind: Kind, event: Event<B>) -> bool {
    match kind {
        Kind::StoreDense | Kind::StoreTable | Kind::StoreSparse | Kind::StoreGraph => event is Done,
        Kind::LoadDense => event matches Event::LoadedDense(m) && addressable(m),
        Kind::LoadTable => event is LoadedTable,
        Kind::LoadSparse => event is LoadedSparse,
        Kind::LoadGraph => event is LoadedGraph,
        Kind::Append => event is Appended,
        Kind::Overwrite => event is Overwritten,
        Kind::List => event is Listed,
        Kind::Summarize => event is Summarized,
    }
}

/// Whether `outcome` is what a job hands out after the event: a job that stores answers with
/// `answer`, any other with what the event brought.
pub open spec fn hands_out<B>(answer: Seq<char>, event: Event<B>, outcome: Outcome<B>) -> bool {
    match event {
        Event::Done => outcome matches Outcome::Text(text) && text@ == answer,
        Event::LoadedDense(m) => outcome matches Outcome::Array { rows, cols, cells } && (rows, cols)
            == matrix_shape(m) && cells@ == flat_cells(m),
        Event::LoadedTable(batch) => outcome == Outcome::Table(batch),
        Event::LoadedSparse(matrix) => outcome matches Outcome::Sparse(parts) && parts_of(
            matrix,
            parts,
        ),
        Event::LoadedGraph(graph) => outcome matches Outcome::Graph(arrays) && arrays_of(
            graph,
            arrays,
        ),
        Event::Appended { start, rows } => outcome == (Outcome::<B>::Appended { start, rows }),
        Event::Overwritten { rows } => outcome == (Outcome::<B>::Overwritten { rows }),
        Event::Listed(summaries) => {
            &&& outcome matches Outcome::Datasets(dicts)
            &&& dicts@.len() == summaries@.len()
            &&& forall|i: int|
                0 <= i < summaries@.len() ==> summarizes((#[trigger] dicts@[i])@, summaries@[i])
        },
        Event::Summarized(summary) => outcome matches Outcome::Dataset(dict) && summarizes(
            dict@,
            summary,
        ),
        _ => false,
    }
}

/// The matrix that holds the cells of an array.
fn matrix_of(rows: usize, cols: usize, cells: Vec<u64>) -> (matrix: DenseMatrix<u64>)
    requires
        cells@.len() == rows * cols,
    ensures
        holds(matrix, rows, cols, cells@),
{
    let len: usize = cells.len();
    assert(rows * cols == len);
    match dense_from_parts(rows, cols, cells) {
        Ok(matrix) => matrix,
        Err(_) => vstd::pervasive::unreached(),
    }
}

/// Begins the job under the given key.
pub(crate) fn begin<B>(job: Job<B>, key: String) -> (action: Action<B>)
    requires
        job.wf(),
    ensures
        does(job, key@, action),
{
    match job {
        Job::StoreDense { rows, cols, cells } => Action::SaveDense {
            key,
            matrix: matrix_of(rows, cols, cells),
        },
        Job::StoreTable { batch, properties, .. } => Action::SaveTable { key, batch, properties },
        Job::StoreSparse { triplets, .. } => Action::SaveSparse { key, triplets },
        Job::StoreGraph { edges, options, .. } => Action::SaveGraph { key, edges, options },
        Job::LoadDense => Action::LoadDense { key },
        Job::LoadTable => Action::LoadTable { key },
        Job::LoadSparse => Action::LoadSparse { key },
        Job::LoadGraph => Action::LoadGraph { key },
        Job::Append { rows, cols, cells } => Action::Append {
            id: key,
            matrix: matrix_of(rows, cols, cells),
        },
        Job::Overwrite { updates } => Action::Overwrite { id: key, updates },
        Job::List => Action::List,
        Job::Summarize => Action::Summarize { id: key },
    }
}

/// Turns what came of a job into what is handed out.
fn hand_out<B>(kind: Kind, answer: String, event: Event<B>) -> (outcome: Outcome<B>)
    requires
        fits(kind, event),
    ensures
        hands_out(answer@, event, outcome),
{
    match event {
        Event::Done => Outcome::Text(answer),
        Event::LoadedDense(m) => {
            let (rows, cols, cells) = dense_to_flat(&m);
            Outcome::Array { rows, cols, cells }
        },
        Event::LoadedTable(batch) => Outcome::Table(batch),
        Event::LoadedSparse(matrix) => Outcome::Sparse(sparse_to_py(&matrix)),
        Event::LoadedGraph(graph) => Outcome::Graph(graph_to_py(graph)),
        Event::Appended { start, rows } => Outcome::Appended { start, rows },
        Event::Overwritten { rows } => Outcome::Overwritten { rows },
        Event::Listed(summaries) => Outcome::Datasets(summary_dicts(summaries)),
        Event::Summarized(summary) => Outcome::Dataset(summary_dict(summary)),
        _ => vstd::pervasive::unreached(),
    }
}

/// The text with which a job on a Lance store answers: where the metadata is after a dense array
/// was stored, and where the collection is after anything else.
pub open spec fn lance_answer(lance: LanceStorageGraph, name: Seq<char>, kind: Kind) -> Seq<char> {
    if kind == Kind::StoreDense {
        metadata_location(lance)
    } else {
        collection_location(lance, name)
    }
}

/// The file in the directory of a Lance store to which the answer leads.
pub open spec fn lance_file(lance: LanceStorageGraph, name: Seq<char>, kind: Kind) -> Seq<char> {
    if kind == Kind::StoreDense {
        metadata_file(lance_name(lance))
    } else {
        collection_file(lance_name(lance), name)
    }
}

/// Whether the run is over and reports the error of the kernel with the kernel's message.
pub open spec fn surfaces<B>(e: genegraph_storage::StorageError, post: Run<B>, action: Action<B>) -> bool {
    &&& post is Over
    &&& action matches Action::Fail(Error::Storage(text))
    &&& text@ == kernel_error_text(e)
}

impl<B> Run<B> {
    /// The job of the run carries as many cells as it says.
    pub open spec fn wf(self) -> bool {
        match self {
            Run::LanceProbe { job, .. } => job.wf(),
            Run::LanceOpen { job, .. } => job.wf(),
            Run::LanceSeed { job, .. } => job.wf(),
            Run::ZarrProbe { job, .. } => job.wf(),
            Run::ZarrSeed { job, .. } => job.wf(),
            _ => true,
        }
    }

    /// Whether the event can be the answer to what the run asked for.
    pub open spec fn expects(self, event: Event<B>) -> bool {
        match self {
            Run::LanceProbe { .. } => event is Exists,
            Run::LanceOpen { .. } => event is Opened || event is Failed,
            Run::LanceSeed { .. } => event is Done || event is Failed,
            Run::LanceWork { kind, .. } => fits(kind, event) || event is Failed,
            Run::ZarrProbe { .. } => event is Exists,
            Run::ZarrSeed { .. } => event is Done || event is Failed,
            Run::ZarrWork { kind, .. } => fits(kind, event) || event is Failed,
            Run::Over => false,
        }
    }

    /// The steps that are left at most.
    pub open spec fn rank(self) -> nat {
        match self {
            Run::LanceProbe { .. } => 3,
            Run::LanceOpen { .. } => 2,
            Run::LanceSeed { .. } => 2,
            Run::LanceWork { .. } => 1,
            Run::ZarrProbe { .. } => 3,
            Run::ZarrSeed { .. } => 2,
            Run::ZarrWork { .. } => 1,
            Run::Over => 0,
        }
    }

    /// Whether the run, told the event, goes on as `post` and asks for `action`.
    pub open spec fn steps_to(self, event: Event<B>, post: Run<B>, action: Action<B>) -> bool {
        match (self, event) {
            (Run::LanceProbe { base, name, job }, Event::Exists(exists)) => if exists {
                &&& post == (Run::LanceOpen { name, job })
                &&& action == (Action::<B>::OpenLance { base })
            } else if !job.kind_view().stores() {
                &&& post is Over
                &&& action matches Action::Fail(Error::Storage(text))
                &&& text@ == missing_store_message(base@)
            } else if reserved_name(name@) {
                &&& post is Over
                &&& action matches Action::Fail(Error::Storage(text))
                &&& text@ == reserved_message(name@)
            } else {
                let (rows, cols) = job.size_view();
                let lance = lance_handle(base@, name@);
                &&& post == (Run::LanceSeed { lance, name, job })
                &&& lance_base(lance) == base@
                &&& lance_name(lance) == name@
                &&& action == (Action::<B>::Seed { name, rows, cols })
            },
            (Run::LanceOpen { name, job }, Event::Opened(lance)) => {
                &&& post == (Run::<B>::LanceWork { lance, name, kind: job.kind_view() })
                &&& does(job, name@, action)
            },
            (Run::LanceSeed { lance, name, job }, Event::Done) => {
                &&& post == (Run::<B>::LanceWork { lance, name, kind: job.kind_view() })
                &&& does(job, name@, action)
            },
            (Run::ZarrProbe { zarr, label, key, answer, job }, Event::Exists(exists)) => if exists {
                &&& post == (Run::<B>::ZarrWork { zarr, answer, kind: job.kind_view() })
                &&& does(job, key@, action)
            } else {
                let (rows, cols) = job.size_view();
                &&& post == (Run::ZarrSeed { zarr, key, answer, job })
                &&& action == (Action::<B>::Seed { name: label, rows, cols })
            },
            (Run::ZarrSeed { zarr, key, answer, job }, Event::Done) => {
                &&& post == (Run::<B>::ZarrWork { zarr, answer, kind: job.kind_view() })
                &&& does(job, key@, action)
            },
            (_, Event::Failed(e)) => surfaces(e, post, action),
            (Run::LanceWork { lance, name, kind }, _) => {
                &&& post is Over
                &&& action matches Action::Finish(outcome)
                &&& hands_out(lance_answer(lance, name@, kind), event, outcome)
                &&& kind.stores() ==> leads_to(
                    lance_base(lance),
                    lance_file(lance, name@, kind),
                    lance_answer(lance, name@, kind),
                )
            },
            (Run::ZarrWork { answer, kind, .. }, _) => {
                &&& post is Over
                &&& action matches Action::Finish(outcome)
                &&& hands_out(answer@, event, outcome)
            },
            _ => false,
        }
    }

    /// The Lance store that the run works on, once there is one.
    pub fn lance(&self) -> (lance: Option<&LanceStorageGraph>)
        ensures
            match *self {
                Run::LanceSeed { lance: l, .. } => lance == Some(&l),
                Run::LanceWork { lance: l, .. } => lance == Some(&l),
                _ => lance is None,
            },
    {
        match self {
            Run::LanceSeed { lance, .. } => Some(lance),
            Run::LanceWork { lance, .. } => Some(lance),
            _ => None,
        }
    }

    /// The Zarr store that the run works on.
    pub fn zarr(&self) -> (zarr: Option<&Arc<ZarrStorage>>)
        ensures
            match *self {
                Run::ZarrProbe { zarr: z, .. } => zarr == Some(&z),
                Run::ZarrSeed { zarr: z, .. } => zarr == Some(&z),
                Run::ZarrWork { zarr: z, .. } => zarr == Some(&z),
                _ => zarr is None,
            },
    {
        match self {
            Run::ZarrProbe { zarr, .. } => Some(zarr),
            Run::ZarrSeed { zarr, .. } => Some(zarr),
            Run::ZarrWork { zarr, .. } => Some(zarr),
            _ => None,
        }
    }

    /// Tells the run what came of its last action.
    pub fn step(self, event: Event<B>) -> (next: (Run<B>, Action<B>))
        requires
            self.wf(),
            self.expects(event),
        ensures
            next.0.wf(),
            self.steps_to(event, next.0, next.1),
    {
        if let Event::Failed(e) = event {
            return (Run::Over, Action::Fail(pyerr(&e)));
        }
        match self {
            Run::LanceProbe { base, name, job } => match event {
                Event::Exists(true) => (Run::LanceOpen { name, job }, Action::OpenLance { base }),
                _ => if !stores(job.kind()) {
                    let mut text = "storage at ".to_owned();
                    text.append(base.as_str());
                    text.append(" is not initialized; store an array first");
                    (Run::Over, Action::Fail(Error::Storage(text)))
                } else {
                    match lance_store(base, name.clone()) {
                        Ok(lance) => {
                            let (rows, cols) = job.size();
                            let seed = Action::Seed { name: name.clone(), rows, cols };
                            (Run::LanceSeed { lance, name, job }, seed)
                        },
                        Err(e) => (Run::Over, Action::Fail(pyerr(&e))),
                    }
                },
            },
            Run::LanceOpen { name, job } => match event {
                Event::Opened(lance) => {
                    let kind = job.kind();
                    let action = begin(job, name.clone());
                    (Run::LanceWork { lance, name, kind }, action)
                },
                _ => vstd::pervasive::unreached(),
            },
            Run::LanceSeed { lance, name, job } => {
                let kind = job.kind();
                let action = begin(job, name.clone());
                (Run::LanceWork { lance, name, kind }, action)
            },
            Run::LanceWork { lance, name, kind } => {
                let answer = match kind {
                    Kind::StoreDense => metadata_text(&lance),
                    Kind::StoreTable | Kind::StoreSparse | Kind::StoreGraph => collection_text(
                        &lance,
                        name.as_str(),
                    ),
                    _ => String::new(),
                };
                (Run::Over, Action::Finish(hand_out(kind, answer, event)))
            },
            Run::ZarrProbe { zarr, label, key, answer, job } => match event {
                Event::Exists(true) => {
                    let kind = job.kind();
                    let action = begin(job, key);
                    (Run::ZarrWork { zarr, answer, kind }, action)
                },
                _ => {
                    let (rows, cols) = job.size();
                    let seed = Action::Seed { name: label, rows, cols };
                    (Run::ZarrSeed { zarr, key, answer, job }, seed)
                },
            },
            Run::ZarrSeed { zarr, key, answer, job } => {
                let kind = job.kind();
                let action = begin(job, key);
                (Run::ZarrWork { zarr, answer, kind }, action)
            },
            Run::ZarrWork { answer, kind, .. } => (
                Run::Over,
                Action::Finish(hand_out(kind, answer, event)),
            ),
            Run::Over => vstd::pervasive::unreached(),
        }
    }
}

/// Whether jobs of the kind write a new collection.
fn stores(kind: Kind) -> (yes: bool)
    ensures
        yes == kind.stores(),
{
    match kind {
        Kind::StoreDense | Kind::StoreTable | Kind::StoreSparse | Kind::StoreGraph => true,
        _ => false,
    }
}

/// A run from its first state on: at each step it is told an event that it expects, and goes on
/// to the next state with an action.
pub open spec fn is_history<B>(
    runs: Seq<Run<B>>,
    events: Seq<Event<B>>,
    actions: Seq<Action<B>>,
) -> bool {
    &&& runs.len() == events.len() + 1
    &&& actions.len() == events.len()
    &&& forall|i: int|
        0 <= i < events.len() ==> #[trigger] runs[i].expects(events[i]) && runs[i].steps_to(
            events[i],
            runs[i + 1],
            actions[i],
        )
}

proof fn lemma_rank<B>(
    runs: Seq<Run<B>>,
    events: Seq<Event<B>>,
    actions: Seq<Action<B>>,
    i: int,
)
    requires
        is_history(runs, events, actions),
        0 <= i <= events.len(),
    ensures
        runs[i].rank() + i <= runs[0].rank(),
    decreases i,
{
    if i > 0 {
        lemma_rank(runs, events, actions, i - 1);
        assert(runs[i - 1].expects(events[i - 1]));
    }
}

/// Every run comes to its end: after three steps at the latest it is over, and it is over exactly
/// when it finishes or fails.
pub proof fn law_run_ends<B>(
    runs: Seq<Run<B>>,
    events: Seq<Event<B>>,
    actions: Seq<Action<B>>,
)
    requires
        is_history(runs, events, actions),
    ensures
        events.len() <= 3,
        forall|i: int|
            0 <= i < events.len() ==> (#[trigger] actions[i].ends() <==> runs[i + 1] is Over),
{
    lemma_rank(runs, events, actions, events.len() as int);
    assert forall|i: int| 0 <= i < events.len() implies (#[trigger] actions[i].ends() <==> runs[i
        + 1] is Over) by {
        assert(runs[i].expects(events[i]));
    }
}

/// All failures of a store are storage errors, and a failure of the kernel ends the run with the
/// kernel's own message.
pub proof fn law_failures_are_storage_errors<B>(
    runs: Seq<Run<B>>,
    events: Seq<Event<B>>,
    actions: Seq<Action<B>>,
    i: int,
)
    requires
        is_history(runs, events, actions),
        0 <= i < events.len(),
    ensures
        actions[i] matches Action::Fail(e) ==> e is Storage,
        events[i] matches Event::Failed(e) ==> {
            &&& runs[i + 1] is Over
            &&& actions[i] matches Action::Fail(Error::Storage(text))
            &&& text@ == kernel_error_text(e)
        },
{
    assert(runs[i].expects(events[i]));
}

/// A store that exists is never seeded anew.
pub proof fn law_existing_store_is_kept<B>(
    runs: Seq<Run<B>>,
    events: Seq<Event<B>>,
    actions: Seq<Action<B>>,
)
    requires
        is_history(runs, events, actions),
        events.len() > 0,
        events[0] == Event::<B>::Exists(true),
    ensures
        forall|i: int| 0 <= i < events.len() ==> !(#[trigger] actions[i] is Seed),
{
    assert forall|i: int| 0 <= i < events.len() implies !(#[trigger] actions[i] is Seed) by {
        lemma_rank(runs, events, actions, i);
        assert(runs[0].expects(events[0]));
        assert(runs[i].expects(events[i]));
        if i > 0 {
            lemma_past_probe(runs, events, actions, i);
        }
    }
}

/// A run that has left its first state is never asked about existence again.
proof fn lemma_past_probe<B>(
    runs: Seq<Run<B>>,
    events: Seq<Event<B>>,
    actions: Seq<Action<B>>,
    i: int,
)
    requires
        is_history(runs, events, actions),
        0 < i <= events.len(),
    ensures
        !(runs[i] is LanceProbe),
        !(runs[i] is ZarrProbe),
    decreases i,
{
    assert(runs[i - 1].expects(events[i - 1]));
}

/// Reading creates nothing: a run on a Lance store whose job does not store seeds nothing and
/// saves nothing, and where no store exists it reports just that.
pub proof fn law_reading_creates_nothing<B>(
    runs: Seq<Run<B>>,
    events: Seq<Event<B>>,
    actions: Seq<Action<B>>,
)
    requires
        is_history(runs, events, actions),
        runs[0] matches Run::LanceProbe { job, .. } && !job.kind_view().stores(),
    ensures
        forall|i: int|
            0 <= i < events.len() ==> !(#[trigger] actions[i] is Seed) && !actions[i].saves(),
        events.len() > 0 && events[0] == Event::<B>::Exists(false) ==> {
            &&& events.len() == 1
            &&& actions[0] matches Action::Fail(Error::Storage(text))
            &&& text@ == missing_store_message(runs[0]->LanceProbe_base@)
        },
{
    assert forall|i: int| 0 <= i < events.len() implies !(#[trigger] actions[i] is Seed)
        && !actions[i].saves() by {
        lemma_reading(runs, events, actions, i);
        assert(runs[i].expects(events[i]));
    }
    if events.len() > 0 && events[0] == Event::<B>::Exists(false) {
        assert(runs[0].expects(events[0]));
        if events.len() > 1 {
            assert(runs[1].expects(events[1]));
        }
    }
}

/// A run that reads stays a run that reads.
proof fn lemma_reading<B>(
    runs: Seq<Run<B>>,
    events: Seq<Event<B>>,
    actions: Seq<Action<B>>,
    i: int,
)
    requires
        is_history(runs, events, actions),
        runs[0] matches Run::LanceProbe { job, .. } && !job.kind_view().stores(),
        0 <= i <= events.len(),
    ensures
        match runs[i] {
            Run::LanceProbe { job, .. } => !job.kind_view().stores(),
            Run::LanceOpen { job, .. } => !job.kind_view().stores(),
            Run::LanceWork { .. } => true,
            Run::Over => true,
            _ => false,
        },
    decreases i,
{
    if i > 0 {
        lemma_reading(runs, events, actions, i - 1);
        assert(runs[i - 1].expects(events[i - 1]));
    }
}

/// A store is worked on only once it is ready: right after it was opened, right after it was
/// seeded, or right after its registry was found.
pub proof fn law_work_needs_a_ready_store<B>(
    runs: Seq<Run<B>>,
    events: Seq<Event<B>>,
    actions: Seq<Action<B>>,
    i: int,
)
    requires
        is_history(runs, events, actions),
        runs[0] is LanceProbe || runs[0] is ZarrProbe,
        0 <= i < events.len(),
        actions[i].works(),
    ensures
        ({
            ||| i > 0 && actions[i - 1] is OpenLance && events[i] is Opened
            ||| i > 0 && actions[i - 1] is Seed && events[i] is Done
            ||| i == 0 && runs[0] is ZarrProbe && events[0] == Event::<B>::Exists(true)
        }),
{
    assert(runs[i].expects(events[i]));
    if i > 0 {
        assert(runs[i - 1].expects(events[i - 1]));
        lemma_past_probe(runs, events, actions, i);
    }
}

/// Where no store exists, a run that stores makes one under the name of what it stores, and
/// answers with the file of that name in the directory: the metadata of a dense array, and the
/// collection of anything else.
pub proof fn law_new_store_answers_with_its_file<B>(
    base: String,
    name: String,
    job: Job<B>,
    runs: Seq<Run<B>>,
    events: Seq<Event<B>>,
    actions: Seq<Action<B>>,
)
    requires
        is_history(runs, events, actions),
        runs[0] == (Run::LanceProbe { base, name, job }),
        job.kind_view().stores(),
        !reserved_name(name@),
        events.len() == 3,
        events[0] == Event::<B>::Exists(false),
        events[1] is Done,
        events[2] is Done,
    ensures
        actions[0] == (Action::<B>::Seed {
            name,
            rows: job.size_view().0,
            cols: job.size_view().1,
        }),
        does(job, name@, actions[1]),
        actions[2] matches Action::Finish(Outcome::Text(text)) && leads_to(
            base@,
            if job.kind_view() == Kind::StoreDense {
                metadata_file(name@)
            } else {
                collection_file(name@, name@)
            },
            text@,
        ),
{
    assert(runs[0].expects(events[0]));
    assert(runs[1].expects(events[1]));
    assert(runs[2].expects(events[2]));
}

/// Whether two errors are of the same sort and report the same message.
pub open spec fn same_error(a: Error, b: Error) -> bool {
    match (a, b) {
        (Error::Value(s), Error::Value(t)) => s@ == t@,
        (Error::Storage(s), Error::Storage(t)) => s@ == t@,
        _ => false,
    }
}

/// Whether two entries of a summary say the same.
pub open spec fn same_entry(a: (&'static str, Field), b: (&'static str, Field)) -> bool {
    &&& a.0@ == b.0@
    &&& match (a.1, b.1) {
        (Field::Text(s), Field::Text(t)) => s@ == t@,
        _ => a.1 == b.1,
    }
}

/// Whether two summaries say the same, entry by entry.
pub open spec fn same_dict(
    a: Seq<(&'static str, Field)>,
    b: Seq<(&'static str, Field)>,
) -> bool {
    &&& a.len() == b.len()
    &&& forall|i: int| 0 <= i < a.len() ==> same_entry(#[trigger] a[i], b[i])
}

/// Whether two outcomes hand out the same.
pub open spec fn same_outcome<B>(a: Outcome<B>, b: Outcome<B>) -> bool {
    match (a, b) {
        (Outcome::Text(s), Outcome::Text(t)) => s@ == t@,
        (
            Outcome::Array { rows: r, cols: c, cells: s },
            Outcome::Array { rows, cols, cells },
        ) => r == rows && c == cols && s@ == cells@,
        (Outcome::Sparse(p), Outcome::Sparse(q)) => {
            &&& p.indptr@ == q.indptr@
            &&& p.indices@ == q.indices@
            &&& p.data@ == q.data@
            &&& p.shape == q.shape
        },
        (Outcome::Graph(g), Outcome::Graph(h)) => {
            &&& g.src@ == h.src@
            &&& g.dst@ == h.dst@
            &&& weights_view(g.weight) == weights_view(h.weight)
            &&& g.num_nodes == h.num_nodes
            &&& g.weighted == h.weighted
            &&& g.node_id_width@ == h.node_id_width@
        },
        (Outcome::Datasets(d), Outcome::Datasets(e)) => {
            &&& d@.len() == e@.len()
            &&& forall|i: int| 0 <= i < d@.len() ==> same_dict((#[trigger] d@[i])@, e@[i]@)
        },
        (Outcome::Dataset(d), Outcome::Dataset(e)) => same_dict(d@, e@),
        _ => a == b,
    }
}

/// Whether two actions ask for the same: the same step, the same key, and the same data.
pub open spec fn same_action<B>(a: Action<B>, b: Action<B>) -> bool {
    match (a, b) {
        (Action::ProbeLance { base: s }, Action::ProbeLance { base: t }) => s@ == t@,
        (Action::OpenLance { base: s }, Action::OpenLance { base: t }) => s@ == t@,
        (
            Action::Seed { name: s, rows: r, cols: c },
            Action::Seed { name: t, rows, cols },
        ) => s@ == t@ && r == rows && c == cols,
        (
            Action::SaveDense { key: s, matrix: m },
            Action::SaveDense { key: t, matrix: n },
        ) => s@ == t@ && matrix_shape(m) == matrix_shape(n) && matrix_cells(m) == matrix_cells(n),
        (
            Action::SaveTable { key: s, batch: c, properties: p },
            Action::SaveTable { key: t, batch: d, properties: q },
        ) => s@ == t@ && c == d && p == q,
        (
            Action::SaveSparse { key: s, triplets: m },
            Action::SaveSparse { key: t, triplets: n },
        ) => s@ == t@ && m == n,
        (
            Action::SaveGraph { key: s, edges: d, options: o },
            Action::SaveGraph { key: t, edges: e, options: p },
        ) => s@ == t@ && d == e && o == p,
        (Action::LoadDense { key: s }, Action::LoadDense { key: t }) => s@ == t@,
        (Action::LoadTable { key: s }, Action::LoadTable { key: t }) => s@ == t@,
        (Action::LoadSparse { key: s }, Action::LoadSparse { key: t }) => s@ == t@,
        (Action::LoadGraph { key: s }, Action::LoadGraph { key: t }) => s@ == t@,
        (
            Action::Append { id: s, matrix: m },
            Action::Append { id: t, matrix: n },
        ) => s@ == t@ && matrix_shape(m) == matrix_shape(n) && matrix_cells(m) == matrix_cells(n),
        (
            Action::Overwrite { id: s, updates: u },
            Action::Overwrite { id: t, updates: v },
        ) => s@ == t@ && u == v,
        (Action::Summarize { id: s }, Action::Summarize { id: t }) => s@ == t@,
        (Action::Finish(x), Action::Finish(y)) => same_outcome(x, y),
        (Action::Fail(e), Action::Fail(f)) => same_error(e, f),
        _ => a == b,
    }
}

/// Whether two runs stand at the same point of the same operation.
pub open spec fn same_run<B>(a: Run<B>, b: Run<B>) -> bool {
    match (a, b) {
        (
            Run::LanceProbe { base: s, name: n, job: j },
            Run::LanceProbe { base, name, job },
        ) => s@ == base@ && n == name && j == job,
        (
            Run::ZarrProbe { zarr: z, label: l, key: k, answer: r, job: j },
            Run::ZarrProbe { zarr, label, key, answer, job },
        ) => z == zarr && l@ == label@ && k@ == key@ && r@ == answer@ && j == job,
        (
            Run::ZarrSeed { zarr: z, key: k, answer: r, job: j },
            Run::ZarrSeed { zarr, key, answer, job },
        ) => z == zarr && k@ == key@ && r@ == answer@ && j == job,
        (
            Run::ZarrWork { zarr: z, answer: r, kind: k },
            Run::ZarrWork { zarr, answer, kind },
        ) => z == zarr && k == kind && (kind.stores() ==> r@ == answer@),
        _ => a == b,
    }
}

/// One step of two runs that stand at the same point and are told the same.
proof fn lemma_same_step<B>(
    a: Run<B>,
    b: Run<B>,
    event: Event<B>,
    a_post: Run<B>,
    b_post: Run<B>,
    a_action: Action<B>,
    b_action: Action<B>,
)
    requires
        same_run(a, b),
        a.expects(event),
        a.steps_to(event, a_post, a_action),
        b.steps_to(event, b_post, b_action),
    ensures
        same_run(a_post, b_post),
        same_action(a_action, b_action),
{
}

/// What a run does depends on nothing but what it is told: two runs that begin at the same point
/// and are told the same stay together, ask for the same at every step, and end with the same
/// outcome or error.
pub proof fn law_same_events_same_actions<B>(
    runs: Seq<Run<B>>,
    other_runs: Seq<Run<B>>,
    events: Seq<Event<B>>,
    actions: Seq<Action<B>>,
    other_actions: Seq<Action<B>>,
)
    requires
        is_history(runs, events, actions),
        is_history(other_runs, events, other_actions),
        same_run(runs[0], other_runs[0]),
    ensures
        forall|i: int| 0 <= i <= events.len() ==> same_run(#[trigger] runs[i], other_runs[i]),
        forall|i: int|
            0 <= i < events.len() ==> same_action(#[trigger] actions[i], other_actions[i]),
{
    assert forall|i: int| 0 <= i <= events.len() implies same_run(
        #[trigger] runs[i],
        other_runs[i],
    ) by {
        lemma_same_run(runs, other_runs, events, actions, other_actions, i);
    }
    assert forall|i: int| 0 <= i < events.len() implies same_action(
        #[trigger] actions[i],
        other_actions[i],
    ) by {
        lemma_same_run(runs, other_runs, events, actions, other_actions, i);
        assert(runs[i].expects(events[i]));
        assert(other_runs[i].expects(events[i]));
        lemma_same_step(
            runs[i],
            other_runs[i],
            events[i],
            runs[i + 1],
            other_runs[i + 1],
            actions[i],
            other_actions[i],
        );
    }
}

proof fn lemma_same_run<B>(
    runs: Seq<Run<B>>,
    other_runs: Seq<Run<B>>,
    events: Seq<Event<B>>,
    actions: Seq<Action<B>>,
    other_actions: Seq<Action<B>>,
    i: int,
)
    requires
        is_history(runs, events, actions),
        is_history(other_runs, events, other_actions),
        same_run(runs[0], other_runs[0]),
        0 <= i <= events.len(),
    ensures
        same_run(runs[i], other_runs[i]),
    decreases i,
{
    if i > 0 {
        lemma_same_run(runs, other_runs, events, actions, other_actions, i - 1);
        assert(runs[i - 1].expects(events[i - 1]));
        assert(other_runs[i - 1].expects(events[i - 1]));
        lemma_same_step(
            runs[i - 1],
            other_runs[i - 1],
            events[i - 1],
            runs[i],
            other_runs[i],
            actions[i - 1],
            other_actions[i - 1],
        );
    }
}

/// What there is to know of a job: whether it stores, and the rows and columns with which a new
/// store is seeded for it. All that is asked of it is one cell for each row and column.
pub proof fn law_jobs<B>(job: Job<B>)
    ensures
        job.kind_view().stores() <==> job is StoreDense || job is StoreTable || job is StoreSparse
            || job is StoreGraph,
        match job {
            Job::StoreDense { rows, cols, cells } => {
                &&& job.kind_view() == Kind::StoreDense
                &&& job.size_view() == (rows, cols)
                &&& job.wf() <==> cells@.len() == rows * cols
            },
            Job::StoreTable { rows, .. } => {
                &&& job.kind_view() == Kind::StoreTable
                &&& job.size_view() == (rows, 0usize)
                &&& job.wf()
            },
            Job::StoreSparse { shape, .. } => {
                &&& job.kind_view() == Kind::StoreSparse
                &&& job.size_view() == shape
                &&& job.wf()
            },
            Job::StoreGraph { rows_hint, .. } => {
                &&& job.kind_view() == Kind::StoreGraph
                &&& job.size_view() == (rows_hint, 0usize)
                &&& job.wf()
            },
            Job::Append { rows, cols, cells } => {
                &&& job.kind_view() == Kind::Append
                &&& job.wf() <==> cells@.len() == rows * cols
            },
            Job::LoadDense => job.kind_view() == Kind::LoadDense && job.wf(),
            Job::LoadTable => job.kind_view() == Kind::LoadTable && job.wf(),
            Job::LoadSparse => job.kind_view() == Kind::LoadSparse && job.wf(),
            Job::LoadGraph => job.kind_view() == Kind::LoadGraph && job.wf(),
            Job::Overwrite { .. } => job.kind_view() == Kind::Overwrite && job.wf(),
            Job::List => job.kind_view() == Kind::List && job.wf(),
            Job::Summarize => job.kind_view() == Kind::Summarize && job.wf(),
        },
{
}

/// The action that does a job hands the kernel all that the job carries, unchanged: every cell of
/// an array in its row and column, the batch and its properties, the entries, the edges and their
/// options, or the updates.
pub proof fn law_nothing_is_lost_on_the_way<B>(job: Job<B>, key: Seq<char>, action: Action<B>)
    requires
        does(job, key, action),
    ensures
        match job {
            Job::StoreDense { rows, cols, cells } => {
                &&& action matches Action::SaveDense { key: k, matrix }
                &&& k@ == key
                &&& matrix_shape(matrix) == (rows, cols)
                &&& forall|r: int, c: int|
                    0 <= r < rows && 0 <= c < cols ==> #[trigger] matrix_cells(matrix)[r][c]
                        == cells@[r * cols + c]
            },
            Job::StoreTable { batch, properties, .. } => {
                &&& action matches Action::SaveTable { key: k, batch: b, properties: p }
                &&& k@ == key
                &&& b == batch
                &&& p == properties
            },
            Job::StoreSparse { triplets, .. } => {
                &&& action matches Action::SaveSparse { key: k, triplets: t }
                &&& k@ == key
                &&& t == triplets
            },
            Job::StoreGraph { edges, options, .. } => {
                &&& action matches Action::SaveGraph { key: k, edges: e, options: o }
                &&& k@ == key
                &&& e == edges
                &&& o == options
            },
            Job::LoadDense => action matches Action::LoadDense { key: k } && k@ == key,
            Job::LoadTable => action matches Action::LoadTable { key: k } && k@ == key,
            Job::LoadSparse => action matches Action::LoadSparse { key: k } && k@ == key,
            Job::LoadGraph => action matches Action::LoadGraph { key: k } && k@ == key,
            Job::Append { rows, cols, cells } => {
                &&& action matches Action::Append { id, matrix }
                &&& id@ == key
                &&& matrix_shape(matrix) == (rows, cols)
                &&& forall|r: int, c: int|
                    0 <= r < rows && 0 <= c < cols ==> #[trigger] matrix_cells(matrix)[r][c]
                        == cells@[r * cols + c]
            },
            Job::Overwrite { updates } => {
                &&& action matches Action::Overwrite { id, updates: u }
                &&& id@ == key
                &&& u == updates
            },
            Job::List => action is List,
            Job::Summarize => action matches Action::Summarize { id } && id@ == key,
        },
{
}

/// The course of a run on a Lance store. A store that exists is opened. Where there is none, a read
/// is refused, a store under a reserved name is refused, and any other store seeds a new one under
/// its name, with the size of what is stored. Once the store is open or seeded the job is done in
/// it, under its name, and the answer to a store is where the metadata or the collection is.
pub proof fn law_course_on_lance<B>(run: Run<B>, event: Event<B>, post: Run<B>, action: Action<B>)
    requires
        run.steps_to(event, post, action),
    ensures
        run matches Run::LanceProbe { base, name, job } ==> {
            &&& event == Event::<B>::Exists(true) ==> {
                &&& action matches Action::OpenLance { base: b }
                &&& b@ == base@
                &&& post == (Run::LanceOpen { name, job })
            }
            &&& event == Event::<B>::Exists(false) && !(job is StoreDense || job is StoreTable
                || job is StoreSparse || job is StoreGraph) ==> {
                &&& post is Over
                &&& action matches Action::Fail(Error::Storage(text))
                &&& text@ == "storage at "@ + base@ + " is not initialized; store an array first"@
            }
            &&& event == Event::<B>::Exists(false) && (job is StoreDense || job is StoreTable
                || job is StoreSparse || job is StoreGraph) && reserved_name(name@) ==> {
                &&& post is Over
                &&& action matches Action::Fail(Error::Storage(text))
                &&& text@ == "Invalid data: instance name `"@ + name@
                    + "` carries the reserved generation suffix `__g<n>`; generation handles are minted only via scoped_generation"@
            }
            &&& event == Event::<B>::Exists(false) && !reserved_name(name@) ==> {
                &&& job matches Job::StoreDense { rows, cols, .. } ==> action == (Action::<
                    B,
                >::Seed { name, rows, cols })
                &&& job matches Job::StoreTable { rows, .. } ==> action == (Action::<B>::Seed {
                    name,
                    rows,
                    cols: 0,
                })
                &&& job matches Job::StoreSparse { shape, .. } ==> action == (Action::<B>::Seed {
                    name,
                    rows: shape.0,
                    cols: shape.1,
                })
                &&& job matches Job::StoreGraph { rows_hint, .. } ==> action == (Action::<
                    B,
                >::Seed { name, rows: rows_hint, cols: 0 })
                &&& job is StoreDense || job is StoreTable || job is StoreSparse || job is StoreGraph
                    ==> post == (Run::LanceSeed { lance: lance_handle(base@, name@), name, job })
            }
        },
        run matches Run::LanceOpen { name, job } ==> (event matches Event::Opened(l) ==> {
            &&& post matches Run::LanceWork { lance, name: n, kind }
            &&& lance == l
            &&& n == name
            &&& kind == job.kind_view()
            &&& does(job, name@, action)
        }),
        run matches Run::LanceSeed { lance: l, name, job } ==> (event is Done ==> {
            &&& post matches Run::LanceWork { lance, name: n, kind }
            &&& lance == l
            &&& n == name
            &&& kind == job.kind_view()
            &&& does(job, name@, action)
        }),
        run matches Run::LanceWork { lance, name, kind } ==> (event is Done ==> {
            &&& post is Over
            &&& action matches Action::Finish(Outcome::Text(text))
            &&& kind == Kind::StoreDense ==> text@ == metadata_location(lance)
            &&& kind == Kind::StoreTable || kind == Kind::StoreSparse || kind == Kind::StoreGraph
                ==> text@ == collection_location(lance, name@)
        }),
{
}

/// The course of a run on a Zarr store. A registry that exists is kept, and where there is none it
/// is seeded under the label with the size of the array. Then the array is saved, and the answer is
/// the one that was set when the run started.
pub proof fn law_course_on_zarr<B>(run: Run<B>, event: Event<B>, post: Run<B>, action: Action<B>)
    requires
        run.steps_to(event, post, action),
    ensures
        run matches Run::ZarrProbe { zarr: z, label, key, answer: a, job } ==> {
            &&& event == Event::<B>::Exists(true) ==> {
                &&& post matches Run::ZarrWork { zarr, answer, kind }
                &&& zarr == z
                &&& answer@ == a@
                &&& kind == job.kind_view()
                &&& does(job, key@, action)
            }
            &&& event == Event::<B>::Exists(false) ==> {
                &&& post matches Run::ZarrSeed { zarr, key: k, answer, job: j }
                &&& zarr == z
                &&& k@ == key@
                &&& answer@ == a@
                &&& j == job
                &&& job matches Job::StoreDense { rows, cols, .. } ==> (action matches Action::Seed {
                    name,
                    rows: r,
                    cols: c,
                } && name@ == label@ && r == rows && c == cols)
            }
        },
        run matches Run::ZarrSeed { zarr: z, key, answer: a, job } ==> (event is Done ==> {
            &&& post matches Run::ZarrWork { zarr, answer, kind }
            &&& zarr == z
            &&& answer@ == a@
            &&& kind == job.kind_view()
            &&& does(job, key@, action)
        }),
        run matches Run::ZarrWork { answer, .. } ==> (event is Done ==> {
            &&& post is Over
            &&& action matches Action::Finish(Outcome::Text(text))
            &&& text@ == answer@
        }),
{
}

/// What comes of a job is handed out in full: every cell of a matrix, the batch, every row of a
/// sparse matrix, every edge of a graph, the numbers of an append or overwrite, and a summary for
/// each dataset that is listed, in its place.
pub proof fn law_everything_is_handed_out<B>(
    run: Run<B>,
    event: Event<B>,
    post: Run<B>,
    action: Action<B>,
)
    requires
        run is LanceWork || run is ZarrWork,
        run.steps_to(event, post, action),
    ensures
        post is Over,
        event matches Event::LoadedDense(m) ==> {
            &&& action matches Action::Finish(Outcome::Array { rows, cols, cells })
            &&& (rows, cols) == matrix_shape(m)
            &&& cells@.len() == rows * cols
            &&& forall|r: int, c: int|
                0 <= r < rows && 0 <= c < cols ==> #[trigger] matrix_cells(m)[r][c] == cells@[r
                    * cols + c]
        },
        event matches Event::LoadedTable(batch) ==> action == Action::Finish(Outcome::Table(batch)),
        event matches Event::LoadedSparse(matrix) ==> (action matches Action::Finish(
            Outcome::Sparse(parts),
        ) && parts_of(matrix, parts)),
        event matches Event::LoadedGraph(graph) ==> (action matches Action::Finish(
            Outcome::Graph(arrays),
        ) && arrays_of(graph, arrays)),
        event matches Event::Appended { start, rows } ==> (action matches Action::Finish(
            Outcome::Appended { start: s, rows: n },
        ) && s == start && n == rows),
        event matches Event::Overwritten { rows } ==> (action matches Action::Finish(
            Outcome::Overwritten { rows: n },
        ) && n == rows),
        event matches Event::Listed(summaries) ==> {
            &&& action matches Action::Finish(Outcome::Datasets(reports))
            &&& summaries@.len() == reports@.len()
            &&& forall|k: int|
                0 <= k < reports@.len() ==> summarizes((#[trigger] reports@[k])@, summaries@[k])
        },
        event matches Event::Summarized(summary) ==> (action matches Action::Finish(
            Outcome::Dataset(dict),
        ) && summarizes(dict@, summary)),
        event matches Event::Failed(e) ==> (action matches Action::Fail(Error::Storage(text))
            && text@ == kernel_error_text(e)),
{
    if let Event::LoadedDense(m) = event {
        let (rows, cols) = matrix_shape(m);
        assert forall|r: int, c: int| 0 <= r < rows && 0 <= c < cols implies #[trigger] matrix_cells(
            m,
        )[r][c] == flat_cells(m)[r * cols + c] by {
            law_cells_stand_row_after_row(rows, cols, flat_cells(m), m, r, c);
        }
    }
}

/// Every answer of the kernel is taken: whether a store exists, the store that was opened, that a
/// seed or a save is done, whatever a load, append, overwrite, listing or summary brings, and any
/// failure.
pub proof fn law_every_answer_is_taken<B>(run: Run<B>, event: Event<B>)
    ensures
        run is LanceProbe || run is ZarrProbe ==> (run.expects(event) <==> event is Exists),
        run is LanceOpen ==> (run.expects(event) <==> event is Opened || event is Failed),
        run is LanceSeed || run is ZarrSeed ==> (run.expects(event) <==> event is Done
            || event is Failed),
        run matches Run::LanceWork { kind, .. } ==> (run.expects(event) <==> event is Failed
            || fits(kind, event)),
        run matches Run::ZarrWork { kind, .. } ==> (run.expects(event) <==> event is Failed
            || fits(kind, event)),
        match run {
            Run::LanceProbe { job, .. } => run.wf() <==> job.wf(),
            Run::LanceOpen { job, .. } => run.wf() <==> job.wf(),
            Run::LanceSeed { job, .. } => run.wf() <==> job.wf(),
            Run::ZarrProbe { job, .. } => run.wf() <==> job.wf(),
            Run::ZarrSeed { job, .. } => run.wf() <==> job.wf(),
            _ => run.wf(),
        },
        fits(Kind::StoreDense, event) <==> event is Done,
        fits(Kind::StoreTable, event) <==> event is Done,
        fits(Kind::StoreSparse, event) <==> event is Done,
        fits(Kind::StoreGraph, event) <==> event is Done,
        fits(Kind::LoadDense, event) <==> (event matches Event::LoadedDense(m) && matrix_shape(
            m,
        ).0 * matrix_shape(m).1 <= usize::MAX),
        fits(Kind::LoadTable, event) <==> event is LoadedTable,
        fits(Kind::LoadSparse, event) <==> event is LoadedSparse,
        fits(Kind::LoadGraph, event) <==> event is LoadedGraph,
        fits(Kind::Append, event) <==> event is Appended,
        fits(Kind::Overwrite, event) <==> event is Overwritten,
        fits(Kind::List, event) <==> event is Listed,
        fits(Kind::Summarize, event) <==> event is Summarized,
{
}

/// A history goes on with every step: a run that was told nothing has a history, and what a run
/// that has one is told next, and does then, makes a history again.
pub proof fn law_histories_go_on<B>(
    run: Run<B>,
    runs: Seq<Run<B>>,
    events: Seq<Event<B>>,
    actions: Seq<Action<B>>,
    event: Event<B>,
    post: Run<B>,
    action: Action<B>,
)
    ensures
        is_history(seq![run], Seq::<Event<B>>::empty(), Seq::<Action<B>>::empty()),
        is_history(runs, events, actions) && runs.last().expects(event) && runs.last().steps_to(
            event,
            post,
            action,
        ) ==> is_history(runs.push(post), events.push(event), actions.push(action)),
{
    if is_history(runs, events, actions) && runs.last().expects(event) && runs.last().steps_to(
        event,
        post,
        action,
    ) {
        let n = events.len() as int;
        let all = runs.push(post);
        let told = events.push(event);
        let asked = actions.push(action);
        assert forall|i: int| 0 <= i < told.len() implies #[trigger] all[i].expects(told[i])
            && all[i].steps_to(told[i], all[i + 1], asked[i]) by {
            if i < n {
                assert(runs[i].expects(events[i]));
            }
        }
    }
}

} // verus!
