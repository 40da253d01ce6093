//! Dataset names: the identifier and the key under which a Zarr root holds a dataset.

use vstd::prelude::*;

use crate::text::same_text;

verus! {

/// Whether the two dashes that separate the parts of an identifier stand at `i`.
pub open spec fn dashes_at(s: Seq<char>, i: int) -> bool {
    0 <= i && i + 1 < s.len() && s[i] == '-' && s[i + 1] == '-'
}

/// The first place, from `from` on, where two dashes stand; the length if there is none.
pub open spec fn dashes_from(s: Seq<char>, from: int) -> int
    decreases s.len() - from,
{
    if from >= s.len() {
        s.len() as int
    } else if dashes_at(s, from) {
        from
    } else {
        dashes_from(s, from + 1)
    }
}

/// The text with each pair of dashes, from left to right, turned into a slash.
pub open spec fn slashed(s: Seq<char>) -> Seq<char>
    decreases s.len(),
{
    if s.len() == 0 {
        Seq::empty()
    } else if dashes_at(s, 0) {
        seq!['/'] + slashed(s.skip(2))
    } else {
        seq![s[0]] + slashed(s.skip(1))
    }
}

/// The label of an identifier: what stands before the first two dashes.
pub open spec fn id_label(id: Seq<char>) -> Seq<char> {
    id.take(dashes_from(id, 0))
}

/// The path of an identifier: what stands behind the first two dashes, with slashes between its
/// parts; a dot if there are no dashes.
pub open spec fn id_path(id: Seq<char>) -> Seq<char> {
    let i = dashes_from(id, 0);
    if i == id.len() {
        "."@
    } else {
        slashed(id.skip(i + 2))
    }
}

/// Whether a character is dropped from both ends of a path.
pub open spec fn fringe(c: char) -> bool {
    c == '.' || c == '/'
}

/// The path without the dots and slashes at its ends.
pub open spec fn trimmed(path: Seq<char>) -> Seq<char>
    decreases path.len(),
{
    if path.len() > 0 && fringe(path[0]) {
        trimmed(path.skip(1))
    } else if path.len() > 0 && fringe(path.last()) {
        trimmed(path.drop_last())
    } else {
        path
    }
}

/// The parts of a path, each led by two dashes; slashes and backslashes end a part, and empty
/// parts are dropped. `fresh` says whether a new part begins.
pub open spec fn dashed(path: Seq<char>, fresh: bool) -> Seq<char>
    decreases path.len(),
{
    if path.len() == 0 {
        Seq::empty()
    } else if path[0] == '/' || path[0] == '\\' {
        dashed(path.skip(1), true)
    } else if fresh {
        seq!['-', '-', path[0]] + dashed(path.skip(1), false)
    } else {
        seq![path[0]] + dashed(path.skip(1), false)
    }
}

/// `decode_dataset_id` of the storage kernel: the label and the path of an identifier. The
/// identifier is cut at its first two dashes; the parts behind them are joined by slashes, and an
/// identifier without dashes has the path `.`.
pub assume_specification[ genegraph_storage::zarr_storage::decode_dataset_id ](id: &str) -> (parts:
    (String, String))
    ensures
        parts.0@ == id_label(id@),
        parts.1@ == id_path(id@),
;

/// `make_dataset_id` of the storage kernel: the label, then each part of the path behind two
/// dashes. Dots and slashes at the ends of the path are dropped, backslashes count as slashes, and
/// empty parts are left out.
pub assume_specification[ genegraph_storage::zarr_storage::make_dataset_id ](
    label: &str,
    path: &str,
) -> (id: String)
    ensures
        id@ == label@ + dashed(trimmed(path@), true),
;

/// The identifier of the dataset `name` under a root with the given label. A name that is itself
/// an identifier of this root keeps its path.
pub open spec fn dataset_id(label: Seq<char>, name: Seq<char>) -> Seq<char> {
    if id_label(name) == label {
        label + "--"@ + id_path(name)
    } else {
        label + dashed(trimmed(name), true)
    }
}

/// The key of the dataset `name` under a root with the given label: the path of a name that is an
/// identifier of this root, any other name as it is.
pub open spec fn dataset_key(label: Seq<char>, name: Seq<char>) -> Seq<char> {
    if id_label(name) == label {
        id_path(name)
    } else {
        name
    }
}

/// The identifier of the dataset `name` under a root labelled `label`.
pub fn zarr_dataset_id(label: &str, name: &str) -> (id: String)
    ensures
        id@ == dataset_id(label@, name@),
{
    let (l, rel) = genegraph_storage::zarr_storage::decode_dataset_id(name);
    if same_text(l.as_str(), label) {
        let mut id = label.to_owned();
        id.append("--");
        id.append(rel.as_str());
        id
    } else {
        genegraph_storage::zarr_storage::make_dataset_id(label, name)
    }
}

/// The key of the dataset `name` under a root labelled `label`.
pub fn zarr_dataset_key(label: &str, name: &str) -> (key: String)
    ensures
        key@ == dataset_key(label@, name@),
{
    let (l, rel) = genegraph_storage::zarr_storage::decode_dataset_id(name);
    if same_text(l.as_str(), label) {
        rel
    } else {
        name.to_owned()
    }
}

/// A label that can head an identifier: not empty, and free of two dashes, slashes and
/// backslashes.
pub open spec fn valid_label(label: Seq<char>) -> bool {
    &&& label.len() > 0
    &&& forall|i: int| 0 <= i < label.len() ==> !#[trigger] dashes_at(label, i)
    &&& forall|i: int|
        0 <= i < label.len() ==> #[trigger] label[i] != '/' && label[i] != '\\'
}

/// A relative path that an identifier can carry: it neither begins nor ends with a dot or a
/// slash, holds no backslash, no empty part and no two dashes, and no part but the last ends with
/// a dash.
pub open spec fn plain_path(name: Seq<char>) -> bool {
    &&& name.len() > 0
    &&& !fringe(name[0])
    &&& !fringe(name.last())
    &&& forall|i: int| 0 <= i < name.len() ==> #[trigger] name[i] != '\\'
    &&& forall|i: int|
        0 <= i < name.len() - 1 && #[trigger] name[i] == '/' ==> name[i + 1] != '/'
    &&& forall|i: int|
        0 <= i < name.len() - 1 && #[trigger] name[i] == '-' ==> name[i + 1] != '-' && name[i + 1]
            != '/'
}

proof fn lemma_dashes_from(s: Seq<char>, from: int, k: int)
    requires
        0 <= from <= k <= s.len(),
        forall|i: int| from <= i < k ==> !#[trigger] dashes_at(s, i),
        k < s.len() ==> dashes_at(s, k),
    ensures
        dashes_from(s, from) == k,
    decreases k - from,
{
    if from < k {
        lemma_dashes_from(s, from + 1, k);
    }
}

proof fn lemma_dashes_from_bounds(s: Seq<char>, from: int)
    requires
        0 <= from <= s.len(),
    ensures
        from <= dashes_from(s, from) <= s.len(),
        dashes_from(s, from) < s.len() ==> dashes_at(s, dashes_from(s, from)),
        forall|i: int| from <= i < dashes_from(s, from) ==> !#[trigger] dashes_at(s, i),
    decreases s.len() - from,
{
    if from < s.len() && !dashes_at(s, from) {
        lemma_dashes_from_bounds(s, from + 1);
    }
}

/// A text without two dashes is not changed by turning dashes into slashes.
proof fn lemma_slashed_identity(s: Seq<char>)
    requires
        forall|i: int| 0 <= i < s.len() ==> !#[trigger] dashes_at(s, i),
    ensures
        slashed(s) == s,
    decreases s.len(),
{
    if s.len() > 0 {
        let rest = s.skip(1);
        assert forall|i: int| 0 <= i < rest.len() implies !#[trigger] dashes_at(rest, i) by {
            assert(!dashes_at(s, i + 1));
        }
        lemma_slashed_identity(rest);
        assert(!dashes_at(s, 0));
        assert(slashed(s) =~= s);
    }
}

/// No two dashes are left once they are turned into slashes.
proof fn lemma_slashed_clean(s: Seq<char>)
    ensures
        forall|i: int| 0 <= i < slashed(s).len() ==> !#[trigger] dashes_at(slashed(s), i),
        slashed(s).len() > 0 && slashed(s)[0] == '-' ==> s.len() > 0 && s[0] == '-' && !dashes_at(
            s,
            0,
        ),
    decreases s.len(),
{
    if s.len() > 0 {
        let rest = if dashes_at(s, 0) {
            s.skip(2)
        } else {
            s.skip(1)
        };
        lemma_slashed_clean(rest);
        let t = slashed(s);
        assert forall|i: int| 0 <= i < t.len() implies !#[trigger] dashes_at(t, i) by {
            if i > 0 {
                assert(!dashes_at(slashed(rest), i - 1));
            }
        }
    }
}

/// An identifier made of a label, two dashes and a text is taken apart again.
proof fn lemma_decode(label: Seq<char>, text: Seq<char>)
    requires
        valid_label(label),
        label.last() != '-',
    ensures
        id_label(label + "--"@ + text) == label,
        id_path(label + "--"@ + text) == slashed(text),
{
    reveal_strlit("--");
    let id = label + "--"@ + text;
    let k = label.len() as int;
    assert(dashes_at(id, k));
    assert forall|i: int| 0 <= i < k implies !#[trigger] dashes_at(id, i) by {
        assert(!dashes_at(label, i));
    }
    lemma_dashes_from(id, 0, k);
    assert(id.take(k) =~= label);
    assert(id.skip(k + 2) =~= text);
}

/// A plain path has nothing to trim.
proof fn lemma_trimmed_plain(name: Seq<char>)
    requires
        plain_path(name),
    ensures
        trimmed(name) == name,
{
}

/// What a part of a plain path looks like from any place in it on: turning its slashes into
/// dashes and those back into slashes restores it.
proof fn lemma_dashed_slashed(path: Seq<char>)
    requires
        path.len() > 0,
        path[0] != '/',
        path.last() != '/',
        forall|i: int| 0 <= i < path.len() ==> #[trigger] path[i] != '\\',
        forall|i: int|
            0 <= i < path.len() - 1 && #[trigger] path[i] == '/' ==> path[i + 1] != '/',
        forall|i: int|
            0 <= i < path.len() - 1 && #[trigger] path[i] == '-' ==> path[i + 1] != '-' && path[i
                + 1] != '/',
    ensures
        dashed(path, true) == seq!['-', '-'] + dashed(path, false),
        slashed(dashed(path, false)) == path,
        dashed(path, false).len() > 0,
        dashed(path, false)[0] == path[0],
    decreases path.len(),
{
    let c = path[0];
    let rest = path.skip(1);
    assert(dashed(path, true) =~= seq!['-', '-'] + dashed(path, false));
    if path.len() == 1 {
        assert(dashed(rest, false) =~= Seq::empty());
        assert(dashed(path, false) =~= seq![c]);
        assert(seq![c].skip(1) =~= Seq::empty());
        assert(slashed(seq![c].skip(1)) =~= Seq::empty());
        assert(slashed(dashed(path, false)) =~= path);
    } else {
        assert(rest.last() == path.last());
        assert forall|i: int| 0 <= i < rest.len() implies #[trigger] rest[i] != '\\' by {
            assert(rest[i] == path[i + 1]);
        }
        if rest[0] == '/' {
            let tail = path.skip(2);
            assert(path[1] == '/');
            assert(tail.len() > 0) by {
                if path.len() == 2 {
                    assert(path.last() == path[1]);
                }
            }
            assert(tail.last() == path.last());
            assert(tail[0] == path[2]);
            assert forall|i: int| 0 <= i < tail.len() implies #[trigger] tail[i] != '\\' by {
                assert(tail[i] == path[i + 2]);
            }
            assert forall|i: int|
                0 <= i < tail.len() - 1 && #[trigger] tail[i] == '/' implies tail[i + 1]
                != '/' by {
                assert(path[i + 2] == '/');
            }
            assert forall|i: int|
                0 <= i < tail.len() - 1 && #[trigger] tail[i] == '-' implies tail[i + 1] != '-'
                && tail[i + 1] != '/' by {
                assert(path[i + 2] == '-');
            }
            lemma_dashed_slashed(tail);
            assert(rest.skip(1) =~= tail);
            let inner = seq!['-', '-'] + dashed(tail, false);
            assert(dashed(rest, false) == inner);
            let out = dashed(path, false);
            assert(out =~= seq![c] + inner);
            assert(c != '-');
            assert(!dashes_at(out, 0));
            assert(out.skip(1) =~= inner);
            assert(dashes_at(inner, 0));
            assert(inner.skip(2) =~= dashed(tail, false));
            assert(slashed(inner) == seq!['/'] + tail);
            assert(slashed(out) == seq![c] + (seq!['/'] + tail));
            assert(slashed(out) =~= path);
        } else {
            assert forall|i: int|
                0 <= i < rest.len() - 1 && #[trigger] rest[i] == '/' implies rest[i + 1]
                != '/' by {
                assert(path[i + 1] == '/');
            }
            assert forall|i: int|
                0 <= i < rest.len() - 1 && #[trigger] rest[i] == '-' implies rest[i + 1] != '-'
                && rest[i + 1] != '/' by {
                assert(path[i + 1] == '-');
            }
            lemma_dashed_slashed(rest);
            let inner = dashed(rest, false);
            let out = dashed(path, false);
            assert(out =~= seq![c] + inner);
            assert(inner[0] == path[1]);
            assert(!dashes_at(out, 0));
            assert(out.skip(1) =~= inner);
            assert(slashed(out) =~= path);
        }
    }
}

/// A dataset is found again under its name: the identifier of a name leads to the label of the
/// root and to the very key under which the dataset is stored, and the identifier can be used in
/// place of the name. The name is an identifier of the root, a plain path, or the dot of the root
/// itself; a label that ends with a dash serves the dot only.
pub proof fn law_same_dataset(label: Seq<char>, name: Seq<char>)
    requires
        valid_label(label),
        label.last() != '-' || name == "."@,
        id_label(name) == label || plain_path(name) || name == "."@,
    ensures
        id_label(dataset_id(label, name)) == label,
        id_path(dataset_id(label, name)) == dataset_key(label, name),
        dataset_key(label, dataset_id(label, name)) == dataset_key(label, name),
{
    reveal_strlit("--");
    reveal_strlit(".");
    let id = dataset_id(label, name);
    if id_label(name) == label {
        let path = id_path(name);
        lemma_dashes_from_bounds(name, 0);
        let i = dashes_from(name, 0);
        if i == name.len() {
            assert(path == "."@);
        } else {
            lemma_slashed_clean(name.skip(i + 2));
        }
        lemma_slashed_identity(path);
        lemma_decode(label, path);
    } else if plain_path(name) {
        lemma_trimmed_plain(name);
        lemma_dashed_slashed(name);
        assert(id =~= label + "--"@ + dashed(name, false));
        lemma_decode(label, dashed(name, false));
    } else {
        assert(name.skip(1) =~= Seq::empty());
        assert(trimmed(name.skip(1)) =~= Seq::empty());
        assert(trimmed(name) =~= Seq::empty());
        assert(id =~= label);
        lemma_dashes_from(label, 0, label.len() as int);
        assert(label.take(label.len() as int) =~= label);
    }
}

/// A text without two dashes in a row is its own label.
proof fn lemma_label_of_plain(name: Seq<char>)
    requires
        forall|i: int| 0 <= i < name.len() - 1 && #[trigger] name[i] == '-' ==> name[i + 1] != '-',
    ensures
        id_label(name) == name,
        id_path(name) == "."@,
{
    assert forall|i: int| 0 <= i < name.len() implies !#[trigger] dashes_at(name, i) by {
        if dashes_at(name, i) {
            assert(name[i] == '-');
        }
    }
    lemma_dashes_from(name, 0, name.len() as int);
    assert(name.take(name.len() as int) =~= name);
}

/// A name without two dashes in a row is its own key, whatever its length, unless it is the label
/// itself, which stands for the root. If it has only one part that neither begins nor ends with a
/// dot, its identifier is the label, two dashes and the name.
pub proof fn law_a_name_is_its_own_key(label: Seq<char>, name: Seq<char>)
    requires
        forall|i: int| 0 <= i < name.len() - 1 && #[trigger] name[i] == '-' ==> name[i + 1] != '-',
    ensures
        name != label ==> dataset_key(label, name) == name,
        name != label ==> dataset_id(label, name) == label + dashed(trimmed(name), true),
        name == label ==> dataset_key(label, name) == "."@ && dataset_id(label, name) == label
            + "--."@,
        name != label && name.len() > 0 && name[0] != '.' && name.last() != '.' && (forall|i: int|
            0 <= i < name.len() ==> #[trigger] name[i] != '/' && name[i] != '\\') ==> dataset_id(
            label,
            name,
        ) == label + "--"@ + name,
{
    lemma_label_of_plain(name);
    reveal_strlit("--");
    reveal_strlit(".");
    reveal_strlit("--.");
    if name == label {
        assert(dataset_id(label, name) =~= label + "--."@);
    } else if name.len() > 0 && name[0] != '.' && name.last() != '.' && (forall|i: int|
        0 <= i < name.len() ==> #[trigger] name[i] != '/' && name[i] != '\\') {
        assert(name[0] != '/');
        assert(name[name.len() - 1] != '/');
        assert(trimmed(name) == name);
        lemma_one_part(name);
        assert(dataset_id(label, name) =~= label + "--"@ + name);
    }
}

/// A text without slashes is one part.
proof fn lemma_one_part(name: Seq<char>)
    requires
        forall|i: int| 0 <= i < name.len() ==> #[trigger] name[i] != '/' && name[i] != '\\',
    ensures
        dashed(name, false) == name,
        name.len() > 0 ==> dashed(name, true) == seq!['-', '-'] + name,
    decreases name.len(),
{
    if name.len() > 0 {
        let rest = name.skip(1);
        assert forall|i: int| 0 <= i < rest.len() implies #[trigger] rest[i] != '/' && rest[i]
            != '\\' by {
            assert(rest[i] == name[i + 1]);
        }
        lemma_one_part(rest);
        assert(name[0] != '/');
        assert(dashed(name, false) =~= name);
        assert(dashed(name, true) =~= seq!['-', '-'] + name);
    }
}

/// A name that begins with something else than the label before its first two dashes is its own
/// key, and its identifier is the one that the kernel makes of the label and the name.
pub proof fn law_foreign_names_are_kept(label: Seq<char>, name: Seq<char>, p: int)
    requires
        0 <= p < name.len() - 1,
        name[p] == '-',
        name[p + 1] == '-',
        forall|i: int| 0 <= i < p && #[trigger] name[i] == '-' ==> name[i + 1] != '-',
        name.take(p) != label,
    ensures
        dataset_key(label, name) == name,
        dataset_id(label, name) == label + dashed(trimmed(name), true),
{
    assert forall|i: int| 0 <= i < p implies !#[trigger] dashes_at(name, i) by {
        if dashes_at(name, i) {
            assert(name[i] == '-');
        }
    }
    lemma_dashes_from(name, 0, p);
}

/// An identifier of the root, made of the label, two dashes and a path in one part, has that path as
/// its key and is its own identifier.
pub proof fn law_identifiers_lead_to_their_path(label: Seq<char>, path: Seq<char>)
    requires
        label.len() > 0,
        label.last() != '-',
        forall|i: int| 0 <= i < label.len() - 1 && #[trigger] label[i] == '-' ==> label[i + 1] != '-',
        forall|i: int| 0 <= i < label.len() ==> #[trigger] label[i] != '/' && label[i] != '\\',
        forall|i: int| 0 <= i < path.len() - 1 && #[trigger] path[i] == '-' ==> path[i + 1] != '-',
    ensures
        dataset_key(label, label + "--"@ + path) == path,
        dataset_id(label, label + "--"@ + path) == label + "--"@ + path,
{
    assert forall|i: int| 0 <= i < label.len() implies !#[trigger] dashes_at(label, i) by {
        if dashes_at(label, i) {
            assert(label[i] == '-');
        }
    }
    assert forall|i: int| 0 <= i < path.len() implies !#[trigger] dashes_at(path, i) by {
        if dashes_at(path, i) {
            assert(path[i] == '-');
        }
    }
    lemma_decode(label, path);
    lemma_slashed_identity(path);
}

/// Two dashes in the path of an identifier are a slash in its key: the part before them, a slash,
/// and the key of what follows.
pub proof fn law_dashes_separate_the_parts(label: Seq<char>, part: Seq<char>, rest: Seq<char>)
    requires
        label.len() > 0,
        label.last() != '-',
        forall|i: int| 0 <= i < label.len() - 1 && #[trigger] label[i] == '-' ==> label[i + 1] != '-',
        forall|i: int| 0 <= i < label.len() ==> #[trigger] label[i] != '/' && label[i] != '\\',
        part.len() > 0 ==> part.last() != '-',
        forall|i: int| 0 <= i < part.len() - 1 && #[trigger] part[i] == '-' ==> part[i + 1] != '-',
    ensures
        dataset_key(label, label + "--"@ + (part + "--"@ + rest)) == part + "/"@ + dataset_key(
            label,
            label + "--"@ + rest,
        ),
{
    assert forall|i: int| 0 <= i < label.len() implies !#[trigger] dashes_at(label, i) by {
        if dashes_at(label, i) {
            assert(label[i] == '-');
        }
    }
    lemma_decode(label, part + "--"@ + rest);
    lemma_decode(label, rest);
    lemma_slashed_part(part, rest);
}

proof fn lemma_slashed_part(part: Seq<char>, rest: Seq<char>)
    requires
        part.len() > 0 ==> part.last() != '-',
        forall|i: int| 0 <= i < part.len() - 1 && #[trigger] part[i] == '-' ==> part[i + 1] != '-',
    ensures
        slashed(part + "--"@ + rest) == part + "/"@ + slashed(rest),
    decreases part.len(),
{
    reveal_strlit("--");
    reveal_strlit("/");
    let s = part + "--"@ + rest;
    if part.len() == 0 {
        assert(dashes_at(s, 0));
        assert(s.skip(2) =~= rest);
        assert(slashed(s) =~= part + "/"@ + slashed(rest));
    } else {
        let tail = part.skip(1);
        if tail.len() > 0 {
            assert(tail.last() == part.last());
        }
        assert forall|i: int|
            0 <= i < tail.len() - 1 && #[trigger] tail[i] == '-' implies tail[i + 1] != '-' by {
            assert(part[i + 1] == '-');
        }
        lemma_slashed_part(tail, rest);
        assert(s.skip(1) =~= tail + "--"@ + rest);
        assert(!dashes_at(s, 0)) by {
            if dashes_at(s, 0) {
                if part.len() == 1 {
                    assert(part.last() == part[0]);
                } else {
                    assert(part[0] == '-');
                }
            }
        }
        assert(slashed(s) =~= part + "/"@ + slashed(rest));
    }
}

/// A label can head an identifier exactly when it is not empty and holds no two dashes in a row, no
/// slash and no backslash.
pub proof fn law_labels(label: Seq<char>)
    ensures
        valid_label(label) <==> {
            &&& label.len() > 0
            &&& forall|i: int|
                0 <= i < label.len() - 1 && #[trigger] label[i] == '-' ==> label[i + 1] != '-'
            &&& forall|i: int|
                0 <= i < label.len() ==> #[trigger] label[i] != '/' && label[i] != '\\'
        },
{
    if valid_label(label) {
        assert forall|i: int| 0 <= i < label.len() - 1 && #[trigger] label[i] == '-' implies label[i
            + 1] != '-' by {
            assert(!dashes_at(label, i));
        }
    }
    if label.len() > 0 && (forall|i: int|
        0 <= i < label.len() - 1 && #[trigger] label[i] == '-' ==> label[i + 1] != '-') {
        assert forall|i: int| 0 <= i < label.len() implies !#[trigger] dashes_at(label, i) by {
            if dashes_at(label, i) {
                assert(label[i] == '-');
            }
        }
    }
}

/// Different names are different datasets: two different relative paths, without two dashes in a
/// row, without empty parts, dots or slashes at their ends and backslashes, and without a dash
/// before a slash, have different keys and different identifiers. The identifier of a path leads
/// back to the label and to the key, and holds no slash.
pub proof fn law_different_names_are_different_datasets(
    label: Seq<char>,
    a: Seq<char>,
    b: Seq<char>,
)
    requires
        label.len() > 0,
        label.last() != '-',
        forall|i: int| 0 <= i < label.len() - 1 && #[trigger] label[i] == '-' ==> label[i + 1] != '-',
        forall|i: int| 0 <= i < label.len() ==> #[trigger] label[i] != '/' && label[i] != '\\',
        a.len() > 0,
        a[0] != '.' && a[0] != '/' && a.last() != '.' && a.last() != '/',
        forall|i: int| 0 <= i < a.len() ==> #[trigger] a[i] != '\\',
        forall|i: int| 0 <= i < a.len() - 1 && #[trigger] a[i] == '/' ==> a[i + 1] != '/',
        forall|i: int|
            0 <= i < a.len() - 1 && #[trigger] a[i] == '-' ==> a[i + 1] != '-' && a[i + 1] != '/',
        b.len() > 0,
        b[0] != '.' && b[0] != '/' && b.last() != '.' && b.last() != '/',
        forall|i: int| 0 <= i < b.len() ==> #[trigger] b[i] != '\\',
        forall|i: int| 0 <= i < b.len() - 1 && #[trigger] b[i] == '/' ==> b[i + 1] != '/',
        forall|i: int|
            0 <= i < b.len() - 1 && #[trigger] b[i] == '-' ==> b[i + 1] != '-' && b[i + 1] != '/',
        a != b,
    ensures
        dataset_key(label, a) != dataset_key(label, b),
        dataset_id(label, a) != dataset_id(label, b),
        a != label ==> dataset_key(label, a) == a,
        id_label(dataset_id(label, a)) == label,
        id_path(dataset_id(label, a)) == dataset_key(label, a),
        forall|i: int|
            0 <= i < dataset_id(label, a).len() ==> #[trigger] dataset_id(label, a)[i] != '/',
{
    law_labels(label);
    lemma_label_of_plain(a);
    lemma_label_of_plain(b);
    assert(plain_path(a));
    assert(plain_path(b));
    law_same_dataset(label, a);
    law_same_dataset(label, b);
    reveal_strlit(".");
    reveal_strlit("--");
    if a == label {
        assert("."@[0] == '.');
        assert(dataset_key(label, a) != dataset_key(label, b));
        assert forall|i: int|
            0 <= i < dataset_id(label, a).len() implies #[trigger] dataset_id(label, a)[i]
            != '/' by {
            if i < label.len() {
                assert(dataset_id(label, a)[i] == label[i]);
            }
        }
    } else {
        if b == label {
            assert("."@[0] == '.');
        }
        lemma_no_slash(trimmed(a), true);
        assert forall|i: int|
            0 <= i < dataset_id(label, a).len() implies #[trigger] dataset_id(label, a)[i]
            != '/' by {
            if i < label.len() {
                assert(dataset_id(label, a)[i] == label[i]);
            } else {
                assert(dataset_id(label, a)[i] == dashed(trimmed(a), true)[i - label.len()]);
            }
        }
    }
}

proof fn lemma_no_slash(path: Seq<char>, fresh: bool)
    ensures
        forall|i: int| 0 <= i < dashed(path, fresh).len() ==> #[trigger] dashed(path, fresh)[i] != '/',
    decreases path.len(),
{
    if path.len() > 0 {
        let rest = path.skip(1);
        lemma_no_slash(rest, true);
        lemma_no_slash(rest, false);
        let out = dashed(path, fresh);
        assert forall|i: int| 0 <= i < out.len() implies #[trigger] out[i] != '/' by {
            if path[0] == '/' || path[0] == '\\' {
                assert(out == dashed(rest, true));
            } else if fresh {
                if i >= 3 {
                    assert(out[i] == dashed(rest, false)[i - 3]);
                }
            } else if i >= 1 {
                assert(out[i] == dashed(rest, false)[i - 1]);
            }
        }
    }
}

} // verus!
