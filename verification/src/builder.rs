//! Builders: the choice of a backend and its settings, step by step.

use std::path::PathBuf;
use std::sync::Arc;
use vstd::prelude::*;

use crate::datasets::{law_labels, valid_label};
use crate::dense::{matrix_cells, matrix_shape, NumpyArray};
use crate::error::{pyerr, Error};
use crate::graph::text_view;
use crate::kernel::{
    file_name_of_path, label_message, lance_base, path_file_name, path_text, text_of_path, zarr_handle,
    zarr_root, zarr_store,
};
use crate::run::{Action, Event, Job, Outcome, Run};
use crate::storage::{
    asked, follows, law_run_stays_in_its_store, law_same_store_same_operation, law_store_then_load,
    same_operation, same_store, Backend, LanceInner, Storage,
};
use crate::text::same_text;

verus! {

/// What came of preparing the output directory.
pub enum Resolution {
    /// The directory could not be created, for the reason given.
    NotCreated(String),
    /// The directory could not be resolved to an absolute path, for the reason given.
    NotResolved(String),
    /// The directory is there, under the given absolute path.
    Resolved { root: PathBuf },
}

/// Configures a storage.
pub struct StorageBuilder {
    pub output_dir: String,
    pub backend: String,
    pub label: Option<String>,
    pub max_rows_per_file: Option<usize>,
    pub max_rows_per_group: Option<usize>,
    pub compression: Option<String>,
}

/// The name of the backend that is asked for: Lance unless told otherwise.
pub open spec fn backend_named(backend: Option<Seq<char>>) -> Seq<char> {
    match backend {
        Some(name) => name,
        None => "lance"@,
    }
}

/// Whether a backend has the name.
pub open spec fn known_backend(name: Seq<char>) -> bool {
    name == "lance"@ || name == "zarr"@
}

/// What an unknown backend is refused with.
pub open spec fn backend_message(name: Seq<char>) -> Seq<char> {
    "unknown backend '"@ + name + "': expected 'lance' or 'zarr'"@
}

/// The value, or the default if there is none.
pub open spec fn or_default(value: Option<usize>, default: usize) -> usize {
    match value {
        Some(v) => v,
        None => default,
    }
}

/// Whether `result` is a new builder with the given choices, or the refusal of the backend.
pub open spec fn configures(
    output_dir: String,
    backend: Option<Seq<char>>,
    label: Option<String>,
    max_rows_per_file: Option<usize>,
    max_rows_per_group: Option<usize>,
    compression: Option<String>,
    result: Result<StorageBuilder, Error>,
) -> bool {
    let name = backend_named(backend);
    match result {
        Ok(builder) => {
            &&& known_backend(name)
            &&& builder.output_dir == output_dir
            &&& builder.backend@ == name
            &&& builder.label == label
            &&& builder.max_rows_per_file == max_rows_per_file
            &&& builder.max_rows_per_group == max_rows_per_group
            &&& builder.compression == compression
        },
        Err(e) => {
            &&& !known_backend(name)
            &&& e matches Error::Value(text)
            &&& text@ == backend_message(name)
        },
    }
}

impl StorageBuilder {
    /// The backend is one of the two.
    pub open spec fn wf(self) -> bool {
        known_backend(self.backend@)
    }

    /// The label of a Zarr root: the one that was chosen, else the name of the directory, else a
    /// fixed one.
    pub open spec fn label_view(self, root: PathBuf) -> Seq<char> {
        match (self.label, path_file_name(root)) {
            (Some(label), _) => label@,
            (None, Some(name)) => name,
            (None, None) => "genestore"@,
        }
    }

    /// Whether `backend` is what the builder makes of a directory.
    pub open spec fn makes(self, root: PathBuf, backend: Backend) -> bool {
        match backend {
            Backend::Zarr { storage, label, root: r } => {
                &&& self.backend@ == "zarr"@
                &&& label@ == self.label_view(root)
                &&& *storage == zarr_handle(root, label@)
                &&& zarr_root(*storage) == root
                &&& r@ == path_text(root)
            },
            Backend::Lance(inner) => {
                &&& self.backend@ != "zarr"@
                &&& inner.base@ == path_text(root)
                &&& inner.max_rows_per_file == or_default(self.max_rows_per_file, 1_000_000)
                &&& inner.max_rows_per_group == or_default(self.max_rows_per_group, 10_000)
                &&& inner.compression@ == match self.compression {
                    Some(name) => name@,
                    None => "zstd"@,
                }
            },
        }
    }

    /// Whether `result` is what comes of building: a failure to prepare the directory, a label
    /// that cannot be used, or else a storage.
    pub open spec fn builds(self, resolution: Resolution, result: Result<Storage, Error>) -> bool {
        match resolution {
            Resolution::NotCreated(reason) => {
                &&& result matches Err(Error::Storage(text))
                &&& text@ == "Failed to create directory: "@ + reason@
            },
            Resolution::NotResolved(reason) => {
                &&& result matches Err(Error::Storage(text))
                &&& text@ == "Failed to resolve directory: "@ + reason@
            },
            Resolution::Resolved { root } => {
                let label = self.label_view(root);
                if self.backend@ == "zarr"@ && !valid_label(label) {
                    &&& result matches Err(Error::Storage(text))
                    &&& text@ == label_message(label)
                } else {
                    &&& result matches Ok(storage)
                    &&& self.makes(root, storage.backend)
                }
            },
        }
    }

    /// A builder with the given choices. What is left out takes its default when building.
    pub fn new(
        output_dir: String,
        backend: Option<String>,
        label: Option<String>,
        max_rows_per_file: Option<usize>,
        max_rows_per_group: Option<usize>,
        compression: Option<String>,
    ) -> (result: Result<Self, Error>)
        ensures
            configures(
                output_dir,
                text_view(backend),
                label,
                max_rows_per_file,
                max_rows_per_group,
                compression,
                result,
            ),
    {
        let backend = match backend {
            Some(name) => name,
            None => "lance".to_owned(),
        };
        if !same_text(backend.as_str(), "lance") && !same_text(backend.as_str(), "zarr") {
            let mut text = "unknown backend '".to_owned();
            text.append(backend.as_str());
            text.append("': expected 'lance' or 'zarr'");
            return Err(Error::Value(text));
        }
        Ok(
            StorageBuilder {
                output_dir,
                backend,
                label,
                max_rows_per_file,
                max_rows_per_group,
                compression,
            },
        )
    }

    /// Chooses another output directory.
    pub fn with_output_dir(&mut self, output_dir: String) -> (result: Result<(), Error>)
        ensures
            result is Ok,
            *final(self) == (StorageBuilder { output_dir, ..*old(self) }),
    {
        self.output_dir = output_dir;
        Ok(())
    }

    /// Sets the number of rows in a file.
    pub fn with_max_rows_per_file(&mut self, max_rows: usize) -> (result: Result<(), Error>)
        ensures
            result is Ok,
            *final(self) == (StorageBuilder { max_rows_per_file: Some(max_rows), ..*old(self) }),
    {
        self.max_rows_per_file = Some(max_rows);
        Ok(())
    }

    /// Sets the number of rows in a group.
    pub fn with_max_rows_per_group(&mut self, max_rows: usize) -> (result: Result<(), Error>)
        ensures
            result is Ok,
            *final(self) == (StorageBuilder { max_rows_per_group: Some(max_rows), ..*old(self) }),
    {
        self.max_rows_per_group = Some(max_rows);
        Ok(())
    }

    /// Sets the compression.
    pub fn with_compression(&mut self, compression: String) -> (result: Result<(), Error>)
        ensures
            result is Ok,
            *final(self) == (StorageBuilder { compression: Some(compression), ..*old(self) }),
    {
        self.compression = Some(compression);
        Ok(())
    }

    /// Sets the label of a Zarr root.
    pub fn with_label(&mut self, label: String) -> (result: Result<(), Error>)
        ensures
            result is Ok,
            *final(self) == (StorageBuilder { label: Some(label), ..*old(self) }),
    {
        self.label = Some(label);
        Ok(())
    }

    /// Builds the storage over the output directory, once that has been prepared.
    pub fn build(&self, resolution: Resolution) -> (result: Result<Storage, Error>)
        ensures
            self.builds(resolution, result),
            result matches Ok(storage) ==> storage.backend.wf(),
    {
        match resolution {
            Resolution::NotCreated(reason) => {
                let mut text = "Failed to create directory: ".to_owned();
                text.append(reason.as_str());
                Err(Error::Storage(text))
            },
            Resolution::NotResolved(reason) => {
                let mut text = "Failed to resolve directory: ".to_owned();
                text.append(reason.as_str());
                Err(Error::Storage(text))
            },
            Resolution::Resolved { root } => {
                let text = text_of_path(&root);
                if same_text(self.backend.as_str(), "zarr") {
                    let label = match (&self.label, file_name_of_path(&root)) {
                        (Some(label), _) => label.clone(),
                        (None, Some(name)) => name,
                        (None, None) => "genestore".to_owned(),
                    };
                    match zarr_store(&root, label.as_str()) {
                        Ok(storage) => Ok(
                            Storage {
                                backend: Backend::Zarr {
                                    storage: Arc::new(storage),
                                    label,
                                    root: text,
                                },
                            },
                        ),
                        Err(e) => Err(pyerr(&e)),
                    }
                } else {
                    let max_rows_per_file: usize = match self.max_rows_per_file {
                        Some(n) => n,
                        None => 1_000_000,
                    };
                    let max_rows_per_group: usize = match self.max_rows_per_group {
                        Some(n) => n,
                        None => 10_000,
                    };
                    let compression = match &self.compression {
                        Some(name) => name.clone(),
                        None => "zstd".to_owned(),
                    };
                    Ok(
                        Storage {
                            backend: Backend::Lance(
                                LanceInner {
                                    base: text,
                                    max_rows_per_file,
                                    max_rows_per_group,
                                    compression,
                                },
                            ),
                        },
                    )
                }
            },
        }
    }

    /// Describes the builder.
    pub fn repr(&self) -> (text: String)
        ensures
            text@ == "StorageBuilder(output_dir='"@ + self.output_dir@ + "', backend='"@
                + self.backend@ + "')"@,
    {
        let mut text = "StorageBuilder(output_dir='".to_owned();
        text.append(self.output_dir.as_str());
        text.append("', backend='");
        text.append(self.backend.as_str());
        text.append("')");
        text
    }
}

/// A builder for a directory. Each directory is a separate storage: the same directory is the
/// same storage.
pub fn store_array(output_dir: String, backend: Option<String>, label: Option<String>) -> (result:
    Result<StorageBuilder, Error>)
    ensures
        configures(output_dir, text_view(backend), label, None, None, None, result),
{
    StorageBuilder::new(output_dir, backend, label, None, None, None)
}

/// Another name of `store_array`.
pub fn create_storage(
    output_dir: String,
    backend: Option<String>,
    label: Option<String>,
) -> (result: Result<StorageBuilder, Error>)
    ensures
        configures(output_dir, text_view(backend), label, None, None, None, result),
{
    store_array(output_dir, backend, label)
}

/// All failures to build are storage errors: a directory that cannot be created or resolved, and
/// a label that the kernel refuses.
pub proof fn law_building_failures_are_storage_errors(
    builder: StorageBuilder,
    resolution: Resolution,
    result: Result<Storage, Error>,
)
    requires
        builder.builds(resolution, result),
    ensures
        result matches Err(e) ==> e is Storage,
        resolution is NotCreated || resolution is NotResolved ==> result is Err,
{
}

/// Without a choice of backend there is always a builder, it is kept to the two backends, and
/// what it builds is in Lance format.
pub proof fn law_default_is_lance(
    output_dir: String,
    label: Option<String>,
    max_rows_per_file: Option<usize>,
    max_rows_per_group: Option<usize>,
    compression: Option<String>,
    result: Result<StorageBuilder, Error>,
    resolution: Resolution,
    built: Result<Storage, Error>,
)
    requires
        configures(
            output_dir,
            None,
            label,
            max_rows_per_file,
            max_rows_per_group,
            compression,
            result,
        ),
        result matches Ok(builder) ==> builder.builds(resolution, built),
    ensures
        result matches Ok(builder) && builder.wf(),
        resolution is Resolved ==> (built matches Ok(storage) && storage.backend is Lance),
{
    reveal_strlit("lance");
    reveal_strlit("zarr");
    assert("lance"@.len() != "zarr"@.len());
}

/// Each directory is a separate storage, and the same directory is the same storage: two builders
/// of one backend, with one label if it is Zarr, make the same store of the same directory, and
/// stores of different directories are kept in different ones.
pub proof fn law_each_directory_is_a_storage(
    a: StorageBuilder,
    b: StorageBuilder,
    root: PathBuf,
    other_root: PathBuf,
    x: Backend,
    y: Backend,
    z: Backend,
)
    requires
        a.backend@ == b.backend@,
        a.backend@ == "zarr"@ ==> a.label_view(root) == b.label_view(root),
        a.makes(root, x),
        b.makes(root, y),
        b.makes(other_root, z),
        path_text(root) != path_text(other_root),
    ensures
        same_store(x, y),
        x.dir_view() == path_text(root),
        x.dir_view() != z.dir_view(),
        !same_store(x, z),
{
}

/// An array that is stored through one storage is loaded through any other one of the same
/// directory: two builders of one backend, with one label if it is Zarr, make storages of which
/// the second asks for the key under which the first has saved, in the same store, and hands out
/// the array once it is brought the matrix that was saved.
pub proof fn law_same_directory_loads_what_was_stored<B>(
    a: StorageBuilder,
    b: StorageBuilder,
    root: PathBuf,
    x: Backend,
    y: Backend,
    name: String,
    array: NumpyArray,
    put: (Run<B>, Action<B>),
    put_runs: Seq<Run<B>>,
    put_events: Seq<Event<B>>,
    put_actions: Seq<Action<B>>,
    i: int,
    got: (Run<B>, Action<B>),
    got_runs: Seq<Run<B>>,
    got_events: Seq<Event<B>>,
    got_actions: Seq<Action<B>>,
    j: int,
)
    requires
        a.backend@ == b.backend@,
        a.backend@ == "zarr"@ ==> a.label_view(root) == b.label_view(root),
        a.makes(root, x),
        b.makes(root, y),
        array.wf(),
        x.starts(
            name,
            Job::StoreDense { rows: array.rows, cols: array.cols, cells: array.cells },
            put,
        ),
        follows(put, put_runs, put_events, put_actions),
        0 <= i <= put_events.len(),
        asked(put, put_actions)[i] is SaveDense,
        y.starts(name, Job::LoadDense, got),
        follows(got, got_runs, got_events, got_actions),
        0 <= j < got_events.len(),
        got_events[j] matches Event::LoadedDense(m) && matrix_shape(m) == matrix_shape(
            asked(put, put_actions)[i]->SaveDense_matrix,
        ) && matrix_cells(m) == matrix_cells(asked(put, put_actions)[i]->SaveDense_matrix),
    ensures
        same_store(x, y),
        asked(got, got_actions)[j] matches Action::LoadDense { key } && key@ == asked(
            put,
            put_actions,
        )[i]->SaveDense_key@,
        got_actions[j] matches Action::Finish(Outcome::Array { rows, cols, cells }) && rows
            == array.rows && cols == array.cols && cells@ == array.cells@,
{
    law_store_then_load(
        x,
        y,
        name,
        array,
        put,
        put_runs,
        put_events,
        put_actions,
        i,
        got,
        got_runs,
        got_events,
        got_actions,
        j,
    );
}

/// The settings are reserved: two builders of one backend, with one label if it is Zarr, make
/// storages of one directory on which every operation is the same, whatever rows per file, rows
/// per group and compression were chosen.
pub proof fn law_settings_change_no_operation<B>(
    a: StorageBuilder,
    b: StorageBuilder,
    root: PathBuf,
    x: Backend,
    y: Backend,
    name: String,
    job: Job<B>,
    result: Result<(Run<B>, Action<B>), Error>,
    other_result: Result<(Run<B>, Action<B>), Error>,
    runs: Seq<Run<B>>,
    other_runs: Seq<Run<B>>,
    events: Seq<Event<B>>,
    actions: Seq<Action<B>>,
    other_actions: Seq<Action<B>>,
)
    requires
        a.backend@ == b.backend@,
        a.backend@ == "zarr"@ ==> a.label_view(root) == b.label_view(root),
        a.makes(root, x),
        b.makes(root, y),
        x.attempts(name, job, result),
        y.attempts(name, job, other_result),
        result matches Ok(start) ==> follows(start, runs, events, actions),
        other_result matches Ok(start) ==> follows(start, other_runs, events, other_actions),
    ensures
        same_operation(
            result,
            other_result,
            runs,
            other_runs,
            events,
            actions,
            other_actions,
        ),
{
    law_same_store_same_operation(
        x,
        y,
        name,
        job,
        result,
        other_result,
        runs,
        other_runs,
        events,
        actions,
        other_actions,
    );
}

/// A storage leaves other directories alone: a run of it probes and opens its own directory in
/// Lance format and works on the store of its own root in Zarr format, and a storage of another
/// directory has neither.
pub proof fn law_other_directories_are_left_alone<B>(
    a: StorageBuilder,
    b: StorageBuilder,
    root: PathBuf,
    other_root: PathBuf,
    x: Backend,
    z: Backend,
    name: String,
    job: Job<B>,
    start: (Run<B>, Action<B>),
    runs: Seq<Run<B>>,
    events: Seq<Event<B>>,
    actions: Seq<Action<B>>,
    i: int,
)
    requires
        a.makes(root, x),
        b.makes(other_root, z),
        path_text(root) != path_text(other_root),
        x.starts(name, job, start),
        follows(start, runs, events, actions),
        0 <= i <= events.len(),
    ensures
        !same_store(x, z),
        asked(start, actions)[i] matches Action::ProbeLance { base } ==> base@ == path_text(root) && base@
            != z.dir_view(),
        asked(start, actions)[i] matches Action::OpenLance { base } ==> base@ == path_text(root) && base@
            != z.dir_view(),
        runs[i] matches Run::LanceSeed { lance, .. } ==> lance_base(lance) == path_text(root),
        runs[i] matches Run::ZarrWork { zarr, .. } ==> zarr_root(*zarr) == root && (
        z matches Backend::Zarr { storage, .. } ==> *storage != *zarr),
{
    law_run_stays_in_its_store(x, name, job, start, runs, events, actions, i);
}

/// `create_storage` and `store_array` make the same builder of the same arguments, or refuse them
/// with the same message.
pub proof fn law_create_storage_is_store_array(
    output_dir: String,
    backend: Option<Seq<char>>,
    label: Option<String>,
    created: Result<StorageBuilder, Error>,
    stored: Result<StorageBuilder, Error>,
)
    requires
        configures(output_dir, backend, label, None, None, None, created),
        configures(output_dir, backend, label, None, None, None, stored),
    ensures
        match (created, stored) {
            (Ok(a), Ok(b)) => {
                &&& a.output_dir == b.output_dir
                &&& a.backend@ == b.backend@
                &&& a.label == b.label
                &&& a.max_rows_per_file == b.max_rows_per_file
                &&& a.max_rows_per_group == b.max_rows_per_group
                &&& a.compression == b.compression
            },
            (Err(Error::Value(s)), Err(Error::Value(t))) => s@ == t@,
            _ => false,
        },
{
}

/// A builder keeps every choice as it was made. There is a builder exactly for the two backends,
/// and for Lance if none is named.
pub proof fn law_builder_keeps_its_choices(
    output_dir: String,
    backend: Option<String>,
    label: Option<String>,
    max_rows_per_file: Option<usize>,
    max_rows_per_group: Option<usize>,
    compression: Option<String>,
    result: Result<StorageBuilder, Error>,
)
    requires
        configures(
            output_dir,
            text_view(backend),
            label,
            max_rows_per_file,
            max_rows_per_group,
            compression,
            result,
        ),
    ensures
        result is Ok <==> backend is None || backend->0@ == "lance"@ || backend->0@ == "zarr"@,
        result matches Ok(builder) ==> {
            &&& builder.output_dir@ == output_dir@
            &&& backend is None ==> builder.backend@ == "lance"@
            &&& backend is Some ==> builder.backend@ == backend->0@
            &&& builder.label == label
            &&& builder.max_rows_per_file == max_rows_per_file
            &&& builder.max_rows_per_group == max_rows_per_group
            &&& builder.compression == compression
            &&& builder.wf()
        },
        result matches Err(e) ==> (e matches Error::Value(text) && text@ == "unknown backend '"@
            + backend->0@ + "': expected 'lance' or 'zarr'"@),
{
}

/// What is built in Lance format is over the directory that was prepared, with the settings that
/// were chosen or else with one million rows in a file, ten thousand in a group, and zstd.
pub proof fn law_lance_storage_has_the_settings(
    builder: StorageBuilder,
    root: PathBuf,
    result: Result<Storage, Error>,
)
    requires
        builder.backend@ == "lance"@,
        builder.builds(Resolution::Resolved { root }, result),
    ensures
        result matches Ok(storage) && {
            &&& storage.backend matches Backend::Lance(inner)
            &&& inner.base@ == path_text(root)
            &&& builder.max_rows_per_file is Some ==> inner.max_rows_per_file
                == builder.max_rows_per_file->0
            &&& builder.max_rows_per_file is None ==> inner.max_rows_per_file == 1_000_000
            &&& builder.max_rows_per_group is Some ==> inner.max_rows_per_group
                == builder.max_rows_per_group->0
            &&& builder.max_rows_per_group is None ==> inner.max_rows_per_group == 10_000
            &&& builder.compression is Some ==> inner.compression@ == builder.compression->0@
            &&& builder.compression is None ==> inner.compression@ == "zstd"@
        },
{
    reveal_strlit("lance");
    reveal_strlit("zarr");
    assert("lance"@.len() != "zarr"@.len());
}

/// What is built in Zarr format is over the directory that was prepared, under the label that was
/// chosen, else under the name of the directory, else under a fixed one. It is refused exactly when
/// that label is empty or holds two dashes in a row, a slash or a backslash.
pub proof fn law_zarr_storage_has_the_label(
    builder: StorageBuilder,
    root: PathBuf,
    label: Seq<char>,
    result: Result<Storage, Error>,
)
    requires
        builder.backend@ == "zarr"@,
        builder.label is Some ==> label == builder.label->0@,
        builder.label is None && path_file_name(root) is Some ==> label == path_file_name(root)->0,
        builder.label is None && path_file_name(root) is None ==> label == "genestore"@,
        builder.builds(Resolution::Resolved { root }, result),
    ensures
        result is Ok <==> {
            &&& label.len() > 0
            &&& forall|i: int|
                0 <= i < label.len() - 1 && #[trigger] label[i] == '-' ==> label[i + 1] != '-'
            &&& forall|i: int|
                0 <= i < label.len() ==> #[trigger] label[i] != '/' && label[i] != '\\'
        },
        result matches Ok(storage) ==> {
            &&& storage.backend matches Backend::Zarr { storage: s, label: l, root: r }
            &&& l@ == label
            &&& r@ == path_text(root)
            &&& *s == zarr_handle(root, label)
        },
        result matches Err(e) ==> (e matches Error::Storage(text) && text@
            == "Invalid data: invalid root label '"@ + label
            + "': must be non-empty and free of '--', '/' and '\\'"@),
{
    law_labels(label);
}

/// A directory that cannot be created or resolved is reported with the reason.
pub proof fn law_directory_failures_give_the_reason(
    builder: StorageBuilder,
    reason: String,
    not_created: Result<Storage, Error>,
    not_resolved: Result<Storage, Error>,
)
    requires
        builder.builds(Resolution::NotCreated(reason), not_created),
        builder.builds(Resolution::NotResolved(reason), not_resolved),
    ensures
        not_created matches Err(Error::Storage(text)) && text@ == "Failed to create directory: "@
            + reason@,
        not_resolved matches Err(Error::Storage(text)) && text@ == "Failed to resolve directory: "@
            + reason@,
{
}

} // verus!
