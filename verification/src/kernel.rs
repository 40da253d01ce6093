//! What the front end takes from the storage kernel: its errors, its two stores and their names.

use genegraph_storage::lance_storage_graph::LanceStorageGraph;
use genegraph_storage::traits::backend::StorageBackend;
use genegraph_storage::zarr_storage::ZarrStorage;
use std::path::PathBuf;
use std::sync::Arc;
use vstd::prelude::*;

use crate::datasets::valid_label;
use crate::text::{decimal, law_decimal_denotes_the_number};

verus! {

/// The error type of the storage kernel.
#[verifier::external_type_specification]
#[verifier::external_body]
pub struct ExStorageError(genegraph_storage::StorageError);

/// A store in Lance format.
#[verifier::external_type_specification]
#[verifier::external_body]
pub struct ExLanceStorageGraph(LanceStorageGraph);

/// A store in Zarr format.
#[verifier::external_type_specification]
#[verifier::external_body]
pub struct ExZarrStorage(ZarrStorage);

/// A path of the file system.
#[verifier::external_type_specification]
#[verifier::external_body]
pub struct ExPathBuf(PathBuf);

/// The text of a path, with what is no Unicode replaced.
pub uninterp spec fn path_text(path: PathBuf) -> Seq<char>;

/// `Path::to_string_lossy`, as a text of its own.
#[verifier::external_body]
pub(crate) fn text_of_path(path: &PathBuf) -> (text: String)
    ensures
        text@ == path_text(*path),
{
    path.to_string_lossy().to_string()
}

/// The text of the last component of a path, if the path ends with a normal one.
pub uninterp spec fn path_file_name(path: PathBuf) -> Option<Seq<char>>;

/// `Path::file_name`, as a text with what is no Unicode replaced.
#[verifier::external_body]
pub(crate) fn file_name_of_path(path: &PathBuf) -> (name: Option<String>)
    ensures
        match name {
            Some(text) => path_file_name(*path) == Some(text@),
            None => path_file_name(*path) is None,
        },
{
    match path.file_name() {
        Some(name) => Some(name.to_string_lossy().to_string()),
        None => None,
    }
}

/// The message that a kernel error displays.
pub uninterp spec fn kernel_error_text(e: genegraph_storage::StorageError) -> Seq<char>;

/// The `Display` text of `genegraph_storage::StorageError`.
#[verifier::external_body]
pub(crate) fn kernel_text(e: &genegraph_storage::StorageError) -> (text: String)
    ensures
        text@ == kernel_error_text(*e),
{
    format!("{e}")
}

/// The Zarr store over a root directory, under a label.
pub uninterp spec fn zarr_handle(root: PathBuf, label: Seq<char>) -> ZarrStorage;

/// The root directory of a Zarr store.
pub uninterp spec fn zarr_root(z: ZarrStorage) -> PathBuf;

/// What the kernel says of a label that cannot head an identifier.
pub open spec fn label_message(label: Seq<char>) -> Seq<char> {
    "Invalid data: invalid root label '"@ + label
        + "': must be non-empty and free of '--', '/' and '\\'"@
}

/// `ZarrStorage::new`: a handle over the root under the label. It is refused exactly when the
/// label is empty or holds two dashes, a slash or a backslash.
#[verifier::external_body]
pub(crate) fn zarr_store(root: &PathBuf, label: &str) -> (result: Result<
    ZarrStorage,
    genegraph_storage::StorageError,
>)
    ensures
        match result {
            Ok(z) => valid_label(label@) && z == zarr_handle(*root, label@) && zarr_root(z)
                == *root,
            Err(e) => !valid_label(label@) && kernel_error_text(e) == label_message(label@),
        },
{
    ZarrStorage::new(root, label)
}

/// `Arc::clone`: another pointer to the same store.
#[verifier::external_body]
pub(crate) fn share(z: &Arc<ZarrStorage>) -> (other: Arc<ZarrStorage>)
    ensures
        other == *z,
{
    Arc::clone(z)
}

/// The number that a text of decimal digits denotes.
pub open spec fn digits_value(s: Seq<char>) -> nat
    decreases s.len(),
{
    if s.len() == 0 {
        0
    } else {
        digits_value(s.drop_last()) * 10 + (s.last() as nat - '0' as nat) as nat
    }
}

/// Whether a name ends, from `p` on, with `__g` and the number of a generation.
pub open spec fn generation_suffix(name: Seq<char>, p: int) -> bool {
    &&& 0 <= p && p + 3 < name.len()
    &&& name[p] == '_' && name[p + 1] == '_' && name[p + 2] == 'g'
    &&& forall|i: int| p + 3 <= i < name.len() ==> '0' <= #[trigger] name[i] <= '9'
    &&& digits_value(name.skip(p + 3)) <= u64::MAX
}

/// Whether a name is reserved for generations.
pub open spec fn reserved_name(name: Seq<char>) -> bool {
    exists|p: int| generation_suffix(name, p)
}

/// The Lance store in a directory, under an instance name.
pub uninterp spec fn lance_handle(base: Seq<char>, name: Seq<char>) -> LanceStorageGraph;

/// The directory of a Lance store.
pub uninterp spec fn lance_base(s: LanceStorageGraph) -> Seq<char>;

/// The instance name of a Lance store.
pub uninterp spec fn lance_name(s: LanceStorageGraph) -> Seq<char>;

/// What the kernel says of a reserved name.
pub open spec fn reserved_message(name: Seq<char>) -> Seq<char> {
    "Invalid data: instance name `"@ + name
        + "` carries the reserved generation suffix `__g<n>`; generation handles are minted only via scoped_generation"@
}

/// `LanceStorageGraph::new`: a handle over the directory under the instance name. It is refused
/// exactly when the name ends with `__g` and a number of 64 bits.
#[verifier::external_body]
pub(crate) fn lance_store(base: String, name: String) -> (result: Result<
    LanceStorageGraph,
    genegraph_storage::StorageError,
>)
    ensures
        match result {
            Ok(s) => {
                &&& !reserved_name(name@)
                &&& s == lance_handle(base@, name@)
                &&& lance_base(s) == base@
                &&& lance_name(s) == name@
            },
            Err(e) => reserved_name(name@) && kernel_error_text(e) == reserved_message(name@),
        },
{
    LanceStorageGraph::new(base, name)
}

/// Whether a character can separate or mark parts of a path.
pub open spec fn path_mark(c: char) -> bool {
    c == '/' || c == '\\' || c == ':'
}

/// Whether a directory begins with two backslashes. Such a path can be normalized when it is
/// extended.
pub open spec fn verbatim(dir: Seq<char>) -> bool {
    dir.len() > 1 && dir[0] == '\\' && dir[1] == '\\'
}

/// Whether `path` leads to the file in the directory: one separator stands between them. Nothing
/// is said where the directory is empty, begins with two backslashes or ends with a mark of paths,
/// or the file holds such a mark.
pub open spec fn leads_to(dir: Seq<char>, file: Seq<char>, path: Seq<char>) -> bool {
    dir.len() > 0 && !verbatim(dir) && !path_mark(dir.last()) && (forall|i: int|
        0 <= i < file.len() ==> !path_mark(#[trigger] file[i])) ==> {
        &&& path.len() == dir.len() + 1 + file.len()
        &&& path.take(dir.len() as int) == dir
        &&& path_mark(path[dir.len() as int])
        &&& path.skip(dir.len() as int + 1) == file
    }
}

/// The text of the path of a Lance store's metadata.
pub uninterp spec fn metadata_location(s: LanceStorageGraph) -> Seq<char>;

/// The file that holds the metadata of an instance.
pub open spec fn metadata_file(name: Seq<char>) -> Seq<char> {
    name + "_metadata.json"@
}

/// `StorageBackend::metadata_path` of a Lance store, as text: the file named after the instance
/// in the directory of the store.
#[verifier::external_body]
pub(crate) fn metadata_text(s: &LanceStorageGraph) -> (text: String)
    ensures
        text@ == metadata_location(*s),
        leads_to(lance_base(*s), metadata_file(lance_name(*s)), text@),
{
    s.metadata_path().to_string_lossy().to_string()
}

/// The text of the path of a collection in a Lance store.
pub uninterp spec fn collection_location(s: LanceStorageGraph, key: Seq<char>) -> Seq<char>;

/// The file that holds a collection of an instance.
pub open spec fn collection_file(name: Seq<char>, key: Seq<char>) -> Seq<char> {
    name + "_"@ + key + ".lance"@
}

/// `StorageBackend::file_path` of a Lance store, as text: the file named after the instance and
/// the key in the directory of the store.
#[verifier::external_body]
pub(crate) fn collection_text(s: &LanceStorageGraph, key: &str) -> (text: String)
    ensures
        text@ == collection_location(*s, key@),
        leads_to(lance_base(*s), collection_file(lance_name(*s), key@), text@),
{
    s.file_path(key).to_string_lossy().to_string()
}

/// A further digit multiplies the value of the digits before it by ten and adds its own.
pub proof fn law_value_of_digits(s: Seq<char>, d: nat)
    requires
        d < 10,
    ensures
        digits_value(Seq::empty()) == 0,
        digits_value(s.push(('0' as nat + d) as char)) == 10 * digits_value(s) + d,
{
    let t = s.push(('0' as nat + d) as char);
    assert(t.drop_last() =~= s);
}

/// Every name that ends with `__g` and the notation of a number of 64 bits is reserved.
pub proof fn law_generations_are_reserved(stem: Seq<char>, n: nat)
    requires
        n <= u64::MAX,
    ensures
        reserved_name(stem + seq!['_', '_', 'g'] + decimal(n)),
{
    let name = stem + seq!['_', '_', 'g'] + decimal(n);
    let p = stem.len() as int;
    law_decimal_denotes_the_number(n);
    assert(name.skip(p + 3) =~= decimal(n));
    assert forall|i: int| p + 3 <= i < name.len() implies '0' <= #[trigger] name[i] <= '9' by {
        assert(name[i] == decimal(n)[i - p - 3]);
    }
    assert(generation_suffix(name, p));
}

/// No other name is reserved: one that does not end with a digit, or holds no `__g`, is free.
pub proof fn law_other_names_are_free(name: Seq<char>)
    requires
        name.len() == 0 || !('0' <= name.last() <= '9') || (forall|p: int|
            0 <= p < name.len() - 2 ==> !(#[trigger] name[p] == '_' && name[p + 1] == '_' && name[p
                + 2] == 'g')),
    ensures
        !reserved_name(name),
{
    if reserved_name(name) {
        let p = choose|p: int| generation_suffix(name, p);
        assert('0' <= name[name.len() - 1] <= '9');
        assert(name[p] == '_');
    }
}

} // verus!
