//! Sparse matrices: the arrays of a compressed row matrix on the way in, and on the way out.

use sprs::TriMat;
use vstd::prelude::*;

use crate::error::Error;
use crate::text::{decimal, size_text};

verus! {

/// The triplet matrix of `sprs`.
#[verifier::external_type_specification]
#[verifier::external_body]
#[verifier::reject_recursive_types(IStorage)]
#[verifier::reject_recursive_types(DStorage)]
pub struct ExTriMatBase<IStorage, DStorage>(sprs::TriMatBase<IStorage, DStorage>);

/// The entries of a triplet matrix as `(row, column, value)`, in the order in which they were
/// added.
pub uninterp spec fn triplets(m: TriMat<u64>) -> Seq<(usize, usize, u64)>;

/// The rows and columns of a triplet matrix.
pub uninterp spec fn triplet_shape(m: TriMat<u64>) -> (usize, usize);

/// `TriMat::with_capacity`: a triplet matrix of the given shape, without entries.
#[verifier::external_body]
fn empty_triplets(shape: (usize, usize), capacity: usize) -> (m: TriMat<u64>)
    ensures
        triplets(m) == Seq::<(usize, usize, u64)>::empty(),
        triplet_shape(m) == shape,
{
    TriMat::with_capacity(shape, capacity)
}

/// `TriMat::add_triplet`: one more entry behind those that are there. It panics outside the
/// shape.
#[verifier::external_body]
fn add_triplet(m: &mut TriMat<u64>, row: usize, col: usize, value: u64)
    requires
        row < triplet_shape(*old(m)).0,
        col < triplet_shape(*old(m)).1,
    ensures
        triplets(*final(m)) == triplets(*old(m)).push((row, col, value)),
        triplet_shape(*final(m)) == triplet_shape(*old(m)),
{
    m.add_triplet(row, col, value)
}

/// Whether the bounds of row `r` are in order and stay within `len` entries.
pub open spec fn bounded_row(indptr: Seq<usize>, len: nat, r: int) -> bool {
    indptr[r] <= indptr[r + 1] <= len
}

/// Whether row `r` is bounded and all its columns lie below `ncols`.
pub open spec fn sound_row(indptr: Seq<usize>, indices: Seq<usize>, ncols: usize, r: int) -> bool {
    &&& bounded_row(indptr, indices.len(), r)
    &&& forall|k: int| indptr[r] <= k < indptr[r + 1] ==> #[trigger] indices[k] < ncols
}

/// Whether `r` is the first row that is not sound.
pub open spec fn first_unsound_row(
    indptr: Seq<usize>,
    indices: Seq<usize>,
    shape: (usize, usize),
    r: int,
) -> bool {
    &&& 0 <= r < shape.0
    &&& !sound_row(indptr, indices, shape.1, r)
    &&& forall|q: int| 0 <= q < r ==> #[trigger] sound_row(indptr, indices, shape.1, q)
}

/// Whether entry `k` is the first one of row `r` whose column is not below `ncols`.
pub open spec fn first_stray_column(
    indptr: Seq<usize>,
    indices: Seq<usize>,
    ncols: usize,
    r: int,
    k: int,
) -> bool {
    &&& indptr[r] <= k < indptr[r + 1]
    &&& indices[k] >= ncols
    &&& forall|j: int| indptr[r] <= j < k ==> #[trigger] indices[j] < ncols
}

/// The lengths of the three arrays of a compressed row matrix agree with each other and with its
/// number of rows.
pub open spec fn aligned(indptr: Seq<usize>, indices: Seq<usize>, data: Seq<u64>, nrows: usize) -> bool {
    &&& indices.len() == data.len()
    &&& indptr.len() == nrows + 1
}

/// The three arrays describe a matrix of the given shape.
pub open spec fn describes(
    indptr: Seq<usize>,
    indices: Seq<usize>,
    data: Seq<u64>,
    shape: (usize, usize),
) -> bool {
    &&& aligned(indptr, indices, data, shape.0)
    &&& forall|r: int| 0 <= r < shape.0 ==> #[trigger] sound_row(indptr, indices, shape.1, r)
}

/// The entries of row `r`, as `(column, value)`.
pub open spec fn row_entries(
    indptr: Seq<usize>,
    indices: Seq<usize>,
    data: Seq<u64>,
    r: int,
) -> Seq<(usize, u64)> {
    Seq::new(
        (indptr[r + 1] - indptr[r]) as nat,
        |j: int| (indices[indptr[r] + j], data[indptr[r] + j]),
    )
}

/// The entries of the first `n` rows, row after row, as `(row, column, value)`.
pub open spec fn row_triplets(
    indptr: Seq<usize>,
    indices: Seq<usize>,
    data: Seq<u64>,
    n: nat,
) -> Seq<(usize, usize, u64)>
    decreases n,
{
    if n == 0 {
        Seq::empty()
    } else {
        row_triplets(indptr, indices, data, (n - 1) as nat) + row_entries(
            indptr,
            indices,
            data,
            n - 1,
        ).map_values(|e: (usize, u64)| ((n - 1) as usize, e.0, e.1))
    }
}

/// Whether `m` holds the entries of all rows, row after row.
pub open spec fn collected(
    indptr: Seq<usize>,
    indices: Seq<usize>,
    data: Seq<u64>,
    shape: (usize, usize),
    m: TriMat<u64>,
) -> bool {
    &&& triplet_shape(m) == shape
    &&& triplets(m) == row_triplets(indptr, indices, data, shape.0 as nat)
}

/// What arrays of different lengths are refused with.
pub open spec fn data_length_message(indices: nat, data: nat) -> Seq<char> {
    "indices length "@ + decimal(indices) + " does not match data length "@ + decimal(data)
}

/// What an offset array of the wrong length is refused with.
pub open spec fn indptr_length_message(indptr: nat, nrows: nat) -> Seq<char> {
    "indptr length "@ + decimal(indptr) + " does not match nrows "@ + decimal(nrows) + " + 1"@
}

/// What a row whose bounds are out of order is refused with.
pub open spec fn indptr_order_message() -> Seq<char> {
    "indptr is not monotonically increasing"@
}

/// What a column outside the matrix is refused with.
pub open spec fn column_message(col: nat, ncols: nat) -> Seq<char> {
    "column index "@ + decimal(col) + " out of bounds for "@ + decimal(ncols) + " columns"@
}

/// Whether `text` is what the three arrays are refused with: the lengths come first, then the
/// first row that is not sound, and in it the bounds before the first stray column.
pub open spec fn csr_refusal(
    indptr: Seq<usize>,
    indices: Seq<usize>,
    data: Seq<u64>,
    shape: (usize, usize),
    text: Seq<char>,
) -> bool {
    if indices.len() != data.len() {
        text == data_length_message(indices.len(), data.len())
    } else if indptr.len() != shape.0 + 1 {
        text == indptr_length_message(indptr.len(), shape.0 as nat)
    } else {
        exists|r: int|
            {
                &&& #[trigger] first_unsound_row(indptr, indices, shape, r)
                &&& if !bounded_row(indptr, indices.len(), r) {
                    text == indptr_order_message()
                } else {
                    exists|k: int|
                        {
                            &&& #[trigger] first_stray_column(indptr, indices, shape.1, r, k)
                            &&& text == column_message(indices[k] as nat, shape.1 as nat)
                        }
                }
            }
    }
}

/// Collects the entries of a compressed row matrix, or says what is wrong with its arrays.
pub fn csr_from_parts(
    indptr: Vec<usize>,
    indices: Vec<usize>,
    data: Vec<u64>,
    shape: (usize, usize),
) -> (result: Result<TriMat<u64>, Error>)
    ensures
        result is Ok <==> describes(indptr@, indices@, data@, shape),
        result matches Ok(m) ==> collected(indptr@, indices@, data@, shape, m),
        result matches Err(e) ==> (e matches Error::Value(text) && csr_refusal(
            indptr@,
            indices@,
            data@,
            shape,
            text@,
        )),
{
    if indices.len() != data.len() {
        let mut text = "indices length ".to_owned();
        text.append(size_text(indices.len()).as_str());
        text.append(" does not match data length ");
        text.append(size_text(data.len()).as_str());
        return Err(Error::Value(text));
    }
    let (nrows, ncols) = shape;
    if indptr.len() == 0 || indptr.len() - 1 != nrows {
        let mut text = "indptr length ".to_owned();
        text.append(size_text(indptr.len()).as_str());
        text.append(" does not match nrows ");
        text.append(size_text(nrows).as_str());
        text.append(" + 1");
        return Err(Error::Value(text));
    }
    let mut trimat = empty_triplets((nrows, ncols), data.len());
    let mut row: usize = 0;
    while row < nrows
        invariant
            shape == (nrows, ncols),
            row <= nrows,
            aligned(indptr@, indices@, data@, nrows),
            triplet_shape(trimat) == shape,
            triplets(trimat) == row_triplets(indptr@, indices@, data@, row as nat),
            forall|q: int| 0 <= q < row ==> #[trigger] sound_row(indptr@, indices@, ncols, q),
        decreases nrows - row,
    {
        let start: usize = indptr[row];
        let end: usize = indptr[row + 1];
        if start > end || end > data.len() {
            assert(first_unsound_row(indptr@, indices@, shape, row as int));
            return Err(Error::Value("indptr is not monotonically increasing".to_owned()));
        }
        let ghost before = triplets(trimat);
        let ghost entries = row_entries(indptr@, indices@, data@, row as int).map_values(
            |e: (usize, u64)| (row, e.0, e.1),
        );
        let mut k: usize = start;
        assert(entries.take(0) =~= Seq::empty());
        while k < end
            invariant
                shape == (nrows, ncols),
                row < nrows,
                aligned(indptr@, indices@, data@, nrows),
                start == indptr@[row as int],
                end == indptr@[row + 1],
                start <= k <= end <= data@.len(),
                entries == row_entries(indptr@, indices@, data@, row as int).map_values(
                    |e: (usize, u64)| (row, e.0, e.1),
                ),
                triplet_shape(trimat) == shape,
                triplets(trimat) == before + entries.take(k - start),
                forall|q: int| 0 <= q < row ==> #[trigger] sound_row(indptr@, indices@, ncols, q),
                forall|j: int| start <= j < k ==> #[trigger] indices@[j] < ncols,
            decreases end - k,
        {
            let col: usize = indices[k];
            if col >= ncols {
                assert(first_stray_column(indptr@, indices@, ncols, row as int, k as int));
                assert(first_unsound_row(indptr@, indices@, shape, row as int));
                let mut text = "column index ".to_owned();
                text.append(size_text(col).as_str());
                text.append(" out of bounds for ");
                text.append(size_text(ncols).as_str());
                text.append(" columns");
                return Err(Error::Value(text));
            }
            add_triplet(&mut trimat, row, col, data[k]);
            proof {
                let n = k - start;
                assert(entries[n] == (row, col, data@[k as int]));
                assert(entries.take(n + 1) =~= entries.take(n).push(entries[n]));
                assert(before + entries.take(n + 1) =~= (before + entries.take(n)).push(
                    entries[n],
                ));
            }
            k = k + 1;
        }
        assert(entries.take(end - start) =~= entries);
        row = row + 1;
    }
    Ok(trimat)
}

/// A compressed row matrix as it is read back: its rows, each with its `(column, value)` entries,
/// and its shape.
pub struct SparseRows {
    pub rows: Vec<Vec<(usize, u64)>>,
    pub shape: (usize, usize),
}

/// Whether the columns of a row's entries increase, so that no column occurs twice.
pub open spec fn increasing(entries: Seq<(usize, u64)>) -> bool {
    forall|i: int, j: int|
        0 <= i < j < entries.len() ==> (#[trigger] entries[i]).0 < (#[trigger] entries[j]).0
}

/// Whether no column occurs twice among a row's entries.
pub open spec fn distinct(entries: Seq<(usize, u64)>) -> bool {
    forall|i: int, j: int|
        0 <= i < j < entries.len() ==> (#[trigger] entries[i]).0 != (#[trigger] entries[j]).0
}

/// Whether two rows hold the same entries, in whatever order.
pub open spec fn same_entries(a: Seq<(usize, u64)>, b: Seq<(usize, u64)>) -> bool {
    forall|e: (usize, u64)| #[trigger] a.contains(e) <==> b.contains(e)
}

impl SparseRows {
    /// The matrix has as many rows as its shape says, and no column outside it.
    pub open spec fn wf(self) -> bool {
        &&& self.rows@.len() == self.shape.0
        &&& forall|r: int, j: int|
            0 <= r < self.rows@.len() && 0 <= j < self.rows@[r]@.len() ==> (
            #[trigger] self.rows@[r]@[j]).0 < self.shape.1
    }

    /// The columns increase in every row.
    pub open spec fn canonical(self) -> bool {
        &&& self.wf()
        &&& forall|r: int| 0 <= r < self.rows@.len() ==> increasing((#[trigger] self.rows@[r])@)
    }
}

/// The arrays of a compressed row matrix as they are handed out.
pub struct SparseParts {
    pub indptr: Vec<i64>,
    pub indices: Vec<i64>,
    pub data: Vec<u64>,
    pub shape: (usize, usize),
}

/// The entries of each row.
pub open spec fn rows_view(rows: Seq<Vec<(usize, u64)>>) -> Seq<Seq<(usize, u64)>> {
    rows.map_values(|row: Vec<(usize, u64)>| row@)
}

/// The entries of all rows, row after row.
pub open spec fn joined(rows: Seq<Seq<(usize, u64)>>) -> Seq<(usize, u64)>
    decreases rows.len(),
{
    if rows.len() == 0 {
        Seq::empty()
    } else {
        joined(rows.drop_last()) + rows.last()
    }
}

/// The offset of each row among all entries, and the number of entries at the end.
pub open spec fn offsets(rows: Seq<Seq<(usize, u64)>>) -> Seq<i64> {
    Seq::new((rows.len() + 1) as nat, |i: int| joined(rows.take(i)).len() as i64)
}

/// The columns of all entries, row after row.
pub open spec fn columns(rows: Seq<Seq<(usize, u64)>>) -> Seq<i64> {
    joined(rows).map_values(|e: (usize, u64)| e.0 as i64)
}

/// The values of all entries, row after row.
pub open spec fn values(rows: Seq<Seq<(usize, u64)>>) -> Seq<u64> {
    joined(rows).map_values(|e: (usize, u64)| e.1)
}

/// Whether `parts` are the arrays of a compressed row matrix.
pub open spec fn parts_of(matrix: SparseRows, parts: SparseParts) -> bool {
    &&& parts.indptr@ == offsets(rows_view(matrix.rows@))
    &&& parts.indices@ == columns(rows_view(matrix.rows@))
    &&& parts.data@ == values(rows_view(matrix.rows@))
    &&& parts.shape == matrix.shape
}

/// Writes a compressed row matrix out as its arrays.
pub fn sparse_to_py(matrix: &SparseRows) -> (parts: SparseParts)
    ensures
        parts_of(*matrix, parts),
        parts.indices@.len() == parts.data@.len(),
        matrix.wf() ==> parts.indptr@.len() == matrix.shape.0 + 1,
        matrix.wf() && matrix.shape.1 <= i64::MAX ==> forall|k: int|
            0 <= k < parts.indices@.len() ==> 0 <= #[trigger] parts.indices@[k] < matrix.shape.1,
{
    let ghost rows = rows_view(matrix.rows@);
    let mut indptr: Vec<i64> = Vec::new();
    let mut indices: Vec<i64> = Vec::new();
    let mut data: Vec<u64> = Vec::new();
    indptr.push(0);
    let mut r: usize = 0;
    proof {
        assert(joined(rows.take(0)) =~= Seq::empty());
        assert(indptr@ =~= offsets(rows).take(1));
    }
    while r < matrix.rows.len()
        invariant
            rows == rows_view(matrix.rows@),
            r <= matrix.rows@.len(),
            indptr@ == offsets(rows).take(r + 1),
            indices@ == columns(rows.take(r as int)),
            data@ == values(rows.take(r as int)),
        decreases matrix.rows@.len() - r,
    {
        let row = &matrix.rows[r];
        let ghost done = joined(rows.take(r as int));
        proof {
            assert(row@ == rows[r as int]);
            assert(row@.take(0) =~= Seq::empty());
            assert(done + row@.take(0) =~= done);
        }
        let mut j: usize = 0;
        while j < row.len()
            invariant
                j <= row@.len(),
                indices@ == (done + row@.take(j as int)).map_values(|e: (usize, u64)| e.0 as i64),
                data@ == (done + row@.take(j as int)).map_values(|e: (usize, u64)| e.1),
            decreases row@.len() - j,
        {
            proof {
                assert(done + row@.take(j + 1) =~= (done + row@.take(j as int)).push(
                    row@[j as int],
                ));
            }
            let (col, value) = row[j];
            indices.push(col as i64);
            data.push(value);
            j = j + 1;
        }
        proof {
            let next = rows.take(r + 1);
            assert(row@.take(row@.len() as int) =~= row@);
            assert(next.drop_last() =~= rows.take(r as int));
            assert(joined(next) == done + row@);
        }
        indptr.push(indices.len() as i64);
        proof {
            assert(indptr@ =~= offsets(rows).take(r + 2));
        }
        r = r + 1;
    }
    proof {
        assert(rows.take(rows.len() as int) =~= rows);
        assert(offsets(rows).take((rows.len() + 1) as int) =~= offsets(rows));
        assert forall|k: int|
            matrix.wf() && matrix.shape.1 <= i64::MAX && 0 <= k < indices@.len() implies 0
            <= #[trigger] indices@[k] < matrix.shape.1 by {
            let (r, j) = lemma_joined_from(rows, k);
            assert(matrix.rows@[r]@[j].0 < matrix.shape.1);
        }
    }
    SparseParts { indptr, indices, data, shape: matrix.shape }
}

/// Every entry of all rows comes from a place in one of them.
proof fn lemma_joined_from(rows: Seq<Seq<(usize, u64)>>, k: int) -> (place: (int, int))
    requires
        0 <= k < joined(rows).len(),
    ensures
        0 <= place.0 < rows.len(),
        0 <= place.1 < rows[place.0].len(),
        joined(rows)[k] == rows[place.0][place.1],
    decreases rows.len(),
{
    let before = joined(rows.drop_last());
    if k < before.len() {
        lemma_joined_from(rows.drop_last(), k)
    } else {
        (rows.len() - 1, k - before.len())
    }
}

/// The entries of row `r` stand behind those of the rows before it.
proof fn lemma_joined_at(rows: Seq<Seq<(usize, u64)>>, r: int)
    requires
        0 <= r < rows.len(),
    ensures
        joined(rows.take(r + 1)).len() == joined(rows.take(r)).len() + rows[r].len(),
        joined(rows.take(r + 1)).len() <= joined(rows).len(),
        forall|j: int|
            0 <= j < rows[r].len() ==> joined(rows)[joined(rows.take(r)).len() + j]
                == #[trigger] rows[r][j],
    decreases rows.len(),
{
    let rest = rows.drop_last();
    assert(rows.take(r + 1).drop_last() =~= rows.take(r));
    assert(rows.take(r + 1).last() == rows[r]);
    if r == rows.len() - 1 {
        assert(rows.take(r) =~= rest);
        assert(rows.take(r + 1) =~= rows);
    } else {
        lemma_joined_at(rest, r);
        assert(rest.take(r) =~= rows.take(r));
        assert(rest.take(r + 1) =~= rows.take(r + 1));
        assert(rest[r] == rows[r]);
        assert forall|j: int| 0 <= j < rows[r].len() implies joined(rows)[joined(
            rows.take(r),
        ).len() + j] == #[trigger] rows[r][j] by {
            assert(rest[r][j] == rows[r][j]);
        }
    }
}

/// The first rows have no more entries than all of them.
proof fn lemma_prefix_length(rows: Seq<Seq<(usize, u64)>>, n: int)
    requires
        0 <= n <= rows.len(),
    ensures
        joined(rows.take(n)).len() <= joined(rows).len(),
{
    if n < rows.len() {
        lemma_joined_at(rows, n);
    } else {
        assert(rows.take(n) =~= rows);
    }
}

/// Whether the offsets of row `r` are in order and its columns increase.
pub open spec fn canonical_row(parts: SparseParts, r: int) -> bool {
    &&& 0 <= parts.indptr@[r] <= parts.indptr@[r + 1] <= parts.indices@.len()
    &&& forall|j: int, k: int|
        parts.indptr@[r] <= j < k < parts.indptr@[r + 1] ==> (#[trigger] parts.indices@[j]) < (
        #[trigger] parts.indices@[k])
}

/// Whether three arrays are those of a compressed row matrix in canonical form: the offsets run
/// from zero to the number of entries without decreasing, and in every row the columns increase
/// and lie within the shape.
pub open spec fn canonical_parts(parts: SparseParts) -> bool {
    &&& parts.indptr@.len() == parts.shape.0 + 1
    &&& parts.indptr@[0] == 0
    &&& parts.indptr@[parts.shape.0 as int] == parts.indices@.len()
    &&& parts.indices@.len() == parts.data@.len()
    &&& forall|k: int|
        0 <= k < parts.indices@.len() ==> 0 <= #[trigger] parts.indices@[k] < parts.shape.1
    &&& forall|r: int| 0 <= r < parts.shape.0 ==> #[trigger] canonical_row(parts, r)
}

/// Row `r` of a matrix with increasing columns is written out in canonical form, between its
/// offsets.
proof fn lemma_canonical_row(matrix: SparseRows, parts: SparseParts, r: int)
    requires
        matrix.canonical(),
        parts_of(matrix, parts),
        parts.data@.len() <= i64::MAX,
        matrix.shape.1 <= i64::MAX,
        0 <= r < matrix.shape.0,
    ensures
        canonical_row(parts, r),
        parts.indptr@[r + 1] - parts.indptr@[r] == matrix.rows@[r]@.len(),
        forall|j: int|
            0 <= j < matrix.rows@[r]@.len() ==> {
                &&& parts.indices@[parts.indptr@[r] + j] == (#[trigger] matrix.rows@[r]@[j]).0
                &&& parts.data@[parts.indptr@[r] + j] == matrix.rows@[r]@[j].1
            },
{
    let rows = rows_view(matrix.rows@);
    let all = joined(rows);
    let row = matrix.rows@[r]@;
    let start = joined(rows.take(r)).len() as int;
    lemma_joined_at(rows, r);
    assert(rows[r] == row);
    assert(parts.indptr@[r] == start);
    assert(parts.indptr@[r + 1] == start + row.len());
    assert forall|j: int| 0 <= j < row.len() implies {
        &&& parts.indices@[start + j] == (#[trigger] row[j]).0
        &&& parts.data@[start + j] == row[j].1
    } by {
        assert(all[start + j] == rows[r][j]);
        assert(matrix.rows@[r]@[j].0 < matrix.shape.1);
    }
    assert(increasing(row));
    assert forall|j: int, k: int| start <= j < k < start + row.len() implies (
    #[trigger] parts.indices@[j]) < (#[trigger] parts.indices@[k]) by {
        assert(parts.indices@[start + (j - start)] == row[j - start].0);
        assert(parts.indices@[start + (k - start)] == row[k - start].0);
    }
}

/// A matrix whose rows have increasing columns is written out in canonical form, with the entries
/// of each row between its offsets. It must be small enough for signed offsets and columns.
pub proof fn law_canonical_form_is_kept(matrix: SparseRows, parts: SparseParts)
    requires
        matrix.canonical(),
        parts_of(matrix, parts),
        parts.data@.len() <= i64::MAX,
        matrix.shape.1 <= i64::MAX,
    ensures
        canonical_parts(parts),
        forall|r: int, j: int|
            0 <= r < matrix.shape.0 && 0 <= j < matrix.rows@[r]@.len() ==> {
                &&& parts.indices@[parts.indptr@[r] + j] == (#[trigger] matrix.rows@[r]@[j]).0
                &&& parts.data@[parts.indptr@[r] + j] == matrix.rows@[r]@[j].1
            },
        forall|r: int|
            0 <= r < matrix.shape.0 ==> parts.indptr@[r + 1] - parts.indptr@[r] == (
            #[trigger] matrix.rows@[r])@.len(),
{
    let rows = rows_view(matrix.rows@);
    assert(rows.take(rows.len() as int) =~= rows);
    assert(joined(rows.take(0)) =~= Seq::empty());
    assert forall|r: int| 0 <= r < parts.shape.0 implies #[trigger] canonical_row(parts, r) by {
        lemma_canonical_row(matrix, parts, r);
    }
    assert forall|k: int| 0 <= k < parts.indices@.len() implies 0 <= #[trigger] parts.indices@[k]
        < matrix.shape.1 by {
        let (r, j) = lemma_joined_from(rows, k);
        assert(matrix.rows@[r]@[j].0 < matrix.shape.1);
    }
    assert forall|r: int, j: int|
        0 <= r < matrix.shape.0 && 0 <= j < matrix.rows@[r]@.len() implies {
        &&& parts.indices@[parts.indptr@[r] + j] == (#[trigger] matrix.rows@[r]@[j]).0
        &&& parts.data@[parts.indptr@[r] + j] == matrix.rows@[r]@[j].1
    } by {
        lemma_canonical_row(matrix, parts, r);
    }
    assert forall|r: int|
        0 <= r < matrix.shape.0 implies parts.indptr@[r + 1] - parts.indptr@[r] == (
    #[trigger] matrix.rows@[r])@.len() by {
        lemma_canonical_row(matrix, parts, r);
    }
}

/// Two rows with increasing columns and the same entries are the same, entry by entry.
proof fn lemma_increasing_unique(a: Seq<(usize, u64)>, b: Seq<(usize, u64)>)
    requires
        increasing(a),
        increasing(b),
        same_entries(a, b),
    ensures
        a == b,
    decreases a.len(),
{
    if a.len() == 0 {
        if b.len() > 0 {
            assert(b.contains(b[0]));
            assert(a.contains(b[0]));
        }
        assert(a =~= b);
    } else {
        assert(a.contains(a.last()));
        assert(b.contains(a.last()));
        let j = choose|j: int| 0 <= j < b.len() && b[j] == a.last();
        assert(b.contains(b.last()));
        assert(a.contains(b.last()));
        let k = choose|k: int| 0 <= k < a.len() && a[k] == b.last();
        assert(a.last() == b.last()) by {
            if j < b.len() - 1 && k < a.len() - 1 {
                assert(b[j].0 < b[b.len() - 1].0);
                assert(a[k].0 < a[a.len() - 1].0);
            }
        }
        let x = a.drop_last();
        let y = b.drop_last();
        assert forall|e: (usize, u64)| #[trigger] x.contains(e) <==> y.contains(e) by {
            if x.contains(e) {
                let i = choose|i: int| 0 <= i < x.len() && x[i] == e;
                assert(a[i] == e);
                assert(a[i].0 < a[a.len() - 1].0);
                assert(a.contains(e));
                let n = choose|n: int| 0 <= n < b.len() && b[n] == e;
                assert(y[n] == e);
            }
            if y.contains(e) {
                let i = choose|i: int| 0 <= i < y.len() && y[i] == e;
                assert(b[i] == e);
                assert(b[i].0 < b[b.len() - 1].0);
                assert(b.contains(e));
                assert(a.contains(e));
                let n = choose|n: int| 0 <= n < a.len() && a[n] == e;
                assert(x[n] == e);
            }
        }
        lemma_increasing_unique(x, y);
        assert(a =~= x.push(a.last()));
        assert(b =~= y.push(b.last()));
    }
}

/// Two rows without repeated columns and with the same entries have the same length.
proof fn lemma_same_length(a: Seq<(usize, u64)>, b: Seq<(usize, u64)>)
    requires
        distinct(a),
        distinct(b),
        same_entries(a, b),
    ensures
        a.len() == b.len(),
    decreases a.len(),
{
    if a.len() == 0 {
        if b.len() > 0 {
            assert(b.contains(b[0]));
            assert(a.contains(b[0]));
        }
    } else {
        let e = a.last();
        assert(a.contains(e));
        let j = choose|j: int| 0 <= j < b.len() && b[j] == e;
        let x = a.drop_last();
        let y = b.remove(j);
        assert forall|i: int, k: int| 0 <= i < k < y.len() implies (#[trigger] y[i]).0 != (
        #[trigger] y[k]).0 by {
            assert(y[i] == b[if i < j { i } else { i + 1 }]);
            assert(y[k] == b[if k < j { k } else { k + 1 }]);
        }
        assert forall|f: (usize, u64)| #[trigger] x.contains(f) <==> y.contains(f) by {
            if x.contains(f) {
                let i = choose|i: int| 0 <= i < x.len() && x[i] == f;
                assert(a[i] == f);
                assert(a[i].0 != a[a.len() - 1].0);
                assert(a.contains(f));
                let n = choose|n: int| 0 <= n < b.len() && b[n] == f;
                assert(y[if n < j { n } else { n - 1 }] == f);
            }
            if y.contains(f) {
                let i = choose|i: int| 0 <= i < y.len() && y[i] == f;
                let n = if i < j { i } else { i + 1 };
                assert(b[n] == f);
                assert(b.contains(f));
                assert(a.contains(f));
                let k = choose|k: int| 0 <= k < a.len() && a[k] == f;
                assert(f.0 != e.0) by {
                    if n < j {
                        assert(b[n].0 != b[j].0);
                    } else {
                        assert(b[j].0 != b[n].0);
                    }
                }
                assert(x[k] == f);
            }
        }
        lemma_same_length(x, y);
    }
}

/// The entries of row `r` among the arrays that are handed out, as `(column, value)`.
pub open spec fn parts_row(parts: SparseParts, r: int) -> Seq<(usize, u64)> {
    Seq::new(
        (parts.indptr@[r + 1] - parts.indptr@[r]) as nat,
        |j: int|
            (parts.indices@[parts.indptr@[r] + j] as usize, parts.data@[parts.indptr@[r] + j]),
    )
}

/// Rows that are as long as the offsets say stand at these offsets.
proof fn lemma_offsets(rows: Seq<Seq<(usize, u64)>>, indptr: Seq<usize>, n: int)
    requires
        0 <= n <= rows.len(),
        indptr.len() == rows.len() + 1,
        indptr[0] == 0,
        forall|r: int|
            0 <= r < rows.len() ==> (#[trigger] rows[r]).len() == indptr[r + 1] - indptr[r],
    ensures
        joined(rows.take(n)).len() == indptr[n],
    decreases n,
{
    if n > 0 {
        lemma_offsets(rows, indptr, n - 1);
        assert(rows.take(n).drop_last() =~= rows.take(n - 1));
        assert(rows.take(n).last() == rows[n - 1]);
    } else {
        assert(joined(rows.take(0)) =~= Seq::empty());
    }
}

/// The rows that the three arrays describe.
pub open spec fn described_rows(
    indptr: Seq<usize>,
    indices: Seq<usize>,
    data: Seq<u64>,
    nrows: nat,
) -> Seq<Seq<(usize, u64)>> {
    Seq::new(nrows, |r: int| row_entries(indptr, indices, data, r))
}

/// The entries of the first `n` rows are the entries before the offset of row `n`.
proof fn lemma_joined_prefix(
    indptr: Seq<usize>,
    indices: Seq<usize>,
    data: Seq<u64>,
    shape: (usize, usize),
    n: nat,
)
    requires
        describes(indptr, indices, data, shape),
        indptr[0] == 0,
        n <= shape.0,
    ensures
        indptr[n as int] <= data.len(),
        joined(described_rows(indptr, indices, data, shape.0 as nat).take(n as int)) == Seq::new(
            indptr[n as int] as nat,
            |k: int| (indices[k], data[k]),
        ),
    decreases n,
{
    let rows = described_rows(indptr, indices, data, shape.0 as nat);
    let prefix = rows.take(n as int);
    if n > 0 {
        lemma_joined_prefix(indptr, indices, data, shape, (n - 1) as nat);
        assert(sound_row(indptr, indices, shape.1, n - 1));
        assert(prefix.drop_last() =~= rows.take(n - 1));
        assert(prefix.last() == row_entries(indptr, indices, data, n - 1));
    }
    assert(joined(prefix) =~= Seq::new(indptr[n as int] as nat, |k: int| (indices[k], data[k])));
}

/// Every entry before the offset of row `n` belongs to a sound row, so its column is in range.
proof fn lemma_column_bound(
    indptr: Seq<usize>,
    indices: Seq<usize>,
    data: Seq<u64>,
    shape: (usize, usize),
    n: nat,
    k: int,
)
    requires
        describes(indptr, indices, data, shape),
        indptr[0] == 0,
        n <= shape.0,
        0 <= k < indptr[n as int],
    ensures
        indices[k] < shape.1,
    decreases n,
{
    assert(sound_row(indptr, indices, shape.1, n - 1));
    if k < indptr[n - 1] {
        lemma_column_bound(indptr, indices, data, shape, (n - 1) as nat, k);
    }
}

/// The test whether a triplet belongs to row `r`.
pub open spec fn in_row(r: int) -> spec_fn((usize, usize, u64)) -> bool {
    |e: (usize, usize, u64)| e.0 == r
}

/// The entries of row `r` among the given triplets, in their order, as `(column, value)`.
pub open spec fn entries_of_row(entries: Seq<(usize, usize, u64)>, r: int) -> Seq<(usize, u64)> {
    entries.filter(in_row(r)).map_values(|e: (usize, usize, u64)| (e.1, e.2))
}

/// A filter that every entry passes keeps the sequence, one that no entry passes empties it.
proof fn lemma_uniform_filter<A>(s: Seq<A>, pred: spec_fn(A) -> bool)
    ensures
        (forall|i: int| 0 <= i < s.len() ==> pred(#[trigger] s[i])) ==> s.filter(pred) == s,
        (forall|i: int| 0 <= i < s.len() ==> !pred(#[trigger] s[i])) ==> s.filter(pred)
            == Seq::<A>::empty(),
    decreases s.len(),
{
    reveal(Seq::filter);
    if s.len() > 0 {
        let rest = s.drop_last();
        lemma_uniform_filter(rest, pred);
        if forall|i: int| 0 <= i < s.len() ==> pred(#[trigger] s[i]) {
            assert forall|i: int| 0 <= i < rest.len() implies pred(#[trigger] rest[i]) by {
                assert(rest[i] == s[i]);
            }
            assert(pred(s[s.len() - 1]));
            assert(s.filter(pred) =~= s);
        }
        if forall|i: int| 0 <= i < s.len() ==> !pred(#[trigger] s[i]) {
            assert forall|i: int| 0 <= i < rest.len() implies !pred(#[trigger] rest[i]) by {
                assert(rest[i] == s[i]);
            }
            assert(!pred(s[s.len() - 1]));
        }
    }
}

/// Among the triplets of the first `n` rows, the entries of a row are those that the arrays
/// describe, and there are none of any other row.
proof fn lemma_entries_of_row(
    indptr: Seq<usize>,
    indices: Seq<usize>,
    data: Seq<u64>,
    n: nat,
    r: int,
)
    requires
        n <= usize::MAX,
    ensures
        0 <= r < n ==> entries_of_row(row_triplets(indptr, indices, data, n), r) == row_entries(
            indptr,
            indices,
            data,
            r,
        ),
        r >= n ==> row_triplets(indptr, indices, data, n).filter(in_row(r)).len() == 0,
    decreases n,
{
    let pred = in_row(r);
    if n == 0 {
        lemma_uniform_filter(Seq::<(usize, usize, u64)>::empty(), pred);
    } else {
        let rest = row_triplets(indptr, indices, data, (n - 1) as nat);
        let entries = row_entries(indptr, indices, data, n - 1);
        let last = entries.map_values(|e: (usize, u64)| ((n - 1) as usize, e.0, e.1));
        lemma_entries_of_row(indptr, indices, data, (n - 1) as nat, r);
        Seq::filter_distributes_over_add(rest, last, pred);
        lemma_uniform_filter(last, pred);
        if r == n - 1 {
            assert(last.filter(pred) == last);
            assert(entries_of_row(rest + last, r) =~= entries);
        } else {
            assert(last.filter(pred) == Seq::<(usize, usize, u64)>::empty());
            assert(rest.filter(pred) + last.filter(pred) =~= rest.filter(pred));
        }
    }
}

/// What is stored is what is loaded: a matrix with increasing columns that holds, row by row, the
/// entries collected from three accepted arrays is written out as these arrays, whatever became of
/// the order of the entries in between. The columns increase in each row of the arrays, which begin
/// at the first entry, end behind the last one, and are small enough for signed offsets.
pub proof fn law_sparse_round_trip(
    indptr: Seq<usize>,
    indices: Seq<usize>,
    data: Seq<u64>,
    shape: (usize, usize),
    m: TriMat<u64>,
    rows: Seq<Seq<(usize, u64)>>,
)
    requires
        describes(indptr, indices, data, shape),
        indptr[0] == 0,
        indptr[shape.0 as int] == data.len(),
        data.len() <= i64::MAX,
        shape.1 <= i64::MAX,
        collected(indptr, indices, data, shape, m),
        rows.len() == shape.0,
        forall|r: int|
            0 <= r < shape.0 ==> increasing(#[trigger] row_entries(indptr, indices, data, r)),
        forall|r: int|
            0 <= r < shape.0 ==> {
                &&& increasing(#[trigger] rows[r])
                &&& same_entries(rows[r], entries_of_row(triplets(m), r))
            },
    ensures
        offsets(rows).map_values(|n: i64| n as int) == indptr.map_values(|n: usize| n as int),
        columns(rows).map_values(|n: i64| n as int) == indices.map_values(|n: usize| n as int),
        values(rows) == data,
{
    assert forall|r: int| 0 <= r < shape.0 implies #[trigger] rows[r] == row_entries(
        indptr,
        indices,
        data,
        r,
    ) by {
        lemma_entries_of_row(indptr, indices, data, shape.0 as nat, r);
        lemma_increasing_unique(rows[r], row_entries(indptr, indices, data, r));
    }
    assert(rows =~= described_rows(indptr, indices, data, shape.0 as nat));
    lemma_joined_prefix(indptr, indices, data, shape, shape.0 as nat);
    assert(rows.take(shape.0 as int) =~= rows);
    assert forall|i: int| 0 <= i < indptr.len() implies offsets(rows).map_values(
        |n: i64| n as int,
    )[i] == #[trigger] indptr[i] by {
        lemma_joined_prefix(indptr, indices, data, shape, i as nat);
    }
    assert forall|k: int| 0 <= k < indices.len() implies columns(rows).map_values(
        |n: i64| n as int,
    )[k] == #[trigger] indices[k] by {
        lemma_column_bound(indptr, indices, data, shape, shape.0 as nat, k);
    }
    assert(offsets(rows).map_values(|n: i64| n as int) =~= indptr.map_values(
        |n: usize| n as int,
    ));
    assert(columns(rows).map_values(|n: i64| n as int) =~= indices.map_values(
        |n: usize| n as int,
    ));
    assert(values(rows) =~= data);
}

/// What is stored is what is loaded, also where the columns of the arrays are not in order: a
/// matrix with increasing columns that holds, row by row, the entries collected from three accepted
/// arrays is written out in canonical form, with the offsets of these arrays and, in each row, their
/// entries. No column occurs twice in a row of the arrays, which begin at the first entry, end
/// behind the last one, and are small enough for signed offsets.
pub proof fn law_sparse_entries_come_back(
    indptr: Seq<usize>,
    indices: Seq<usize>,
    data: Seq<u64>,
    shape: (usize, usize),
    m: TriMat<u64>,
    matrix: SparseRows,
    parts: SparseParts,
)
    requires
        describes(indptr, indices, data, shape),
        indptr[0] == 0,
        indptr[shape.0 as int] == data.len(),
        data.len() <= i64::MAX,
        shape.1 <= i64::MAX,
        forall|r: int|
            0 <= r < shape.0 ==> distinct(#[trigger] row_entries(indptr, indices, data, r)),
        collected(indptr, indices, data, shape, m),
        matrix.canonical(),
        matrix.shape == shape,
        forall|r: int|
            0 <= r < shape.0 ==> same_entries(
                (#[trigger] matrix.rows@[r])@,
                entries_of_row(triplets(m), r),
            ),
        parts_of(matrix, parts),
    ensures
        canonical_parts(parts),
        parts.shape == shape,
        parts.indptr@.map_values(|n: i64| n as int) == indptr.map_values(|n: usize| n as int),
        forall|r: int|
            0 <= r < shape.0 ==> same_entries(
                #[trigger] parts_row(parts, r),
                row_entries(indptr, indices, data, r),
            ),
{
    let rows = rows_view(matrix.rows@);
    assert forall|r: int| 0 <= r < shape.0 implies {
        &&& (#[trigger] rows[r]).len() == indptr[r + 1] - indptr[r]
        &&& same_entries(rows[r], row_entries(indptr, indices, data, r))
    } by {
        assert(rows[r] == matrix.rows@[r]@);
        assert(increasing(rows[r]));
        lemma_entries_of_row(indptr, indices, data, shape.0 as nat, r);
        lemma_same_length(rows[r], row_entries(indptr, indices, data, r));
        assert(sound_row(indptr, indices, shape.1, r));
    }
    lemma_offsets(rows, indptr, shape.0 as int);
    assert(rows.take(shape.0 as int) =~= rows);
    assert forall|n: int| 0 <= n < indptr.len() implies parts.indptr@.map_values(
        |n: i64| n as int,
    )[n] == #[trigger] indptr[n] by {
        lemma_offsets(rows, indptr, n);
        lemma_prefix_length(rows, n);
    }
    assert(parts.indptr@.map_values(|n: i64| n as int) =~= indptr.map_values(
        |n: usize| n as int,
    ));
    law_canonical_form_is_kept(matrix, parts);
    assert forall|r: int| 0 <= r < shape.0 implies same_entries(
        #[trigger] parts_row(parts, r),
        row_entries(indptr, indices, data, r),
    ) by {
        let row = matrix.rows@[r]@;
        assert(row.len() == parts.indptr@[r + 1] - parts.indptr@[r]);
        assert forall|j: int| 0 <= j < row.len() implies parts_row(parts, r)[j]
            == #[trigger] row[j] by {
            assert(parts.indices@[parts.indptr@[r] + j] == matrix.rows@[r]@[j].0);
        }
        assert(parts_row(parts, r) =~= rows[r]);
    }
}

/// Three arrays are accepted exactly when their lengths agree with each other and with the number
/// of rows, no row ends before it begins or behind the last entry, and no column of an entry of a
/// row lies outside the matrix.
pub proof fn law_accepted_arrays(
    indptr: Seq<usize>,
    indices: Seq<usize>,
    data: Seq<u64>,
    shape: (usize, usize),
)
    ensures
        describes(indptr, indices, data, shape) <==> {
            &&& indices.len() == data.len()
            &&& indptr.len() == shape.0 + 1
            &&& forall|r: int|
                0 <= r < shape.0 ==> #[trigger] indptr[r] <= indptr[r + 1] && indptr[r + 1]
                    <= data.len()
            &&& forall|r: int, k: int|
                0 <= r < shape.0 && #[trigger] indptr[r] <= k < indptr[r + 1]
                    ==> #[trigger] indices[k] < shape.1
        },
{
    if describes(indptr, indices, data, shape) {
        assert forall|r: int| 0 <= r < shape.0 implies #[trigger] indptr[r] <= indptr[r + 1]
            && indptr[r + 1] <= data.len() by {
            assert(sound_row(indptr, indices, shape.1, r));
        }
        assert forall|r: int, k: int|
            0 <= r < shape.0 && #[trigger] indptr[r] <= k < indptr[r
                + 1] implies #[trigger] indices[k] < shape.1 by {
            assert(sound_row(indptr, indices, shape.1, r));
        }
    }
    if indices.len() == data.len() && indptr.len() == shape.0 + 1 && (forall|r: int|
        0 <= r < shape.0 ==> #[trigger] indptr[r] <= indptr[r + 1] && indptr[r + 1] <= data.len())
        && (forall|r: int, k: int|
        0 <= r < shape.0 && #[trigger] indptr[r] <= k < indptr[r + 1] ==> #[trigger] indices[k]
            < shape.1) {
        assert forall|r: int| 0 <= r < shape.0 implies #[trigger] sound_row(
            indptr,
            indices,
            shape.1,
            r,
        ) by {
            assert(indptr[r] <= indptr[r + 1]);
        }
    }
}

/// The triplets of the first `n` rows are as many as the offsets say, and entry `k` of row `r`
/// stands in its place among them.
proof fn lemma_triplet_at(
    indptr: Seq<usize>,
    indices: Seq<usize>,
    data: Seq<u64>,
    shape: (usize, usize),
    n: nat,
    r: int,
    k: int,
)
    requires
        describes(indptr, indices, data, shape),
        n <= shape.0,
    ensures
        indptr[0] <= indptr[n as int],
        row_triplets(indptr, indices, data, n).len() == indptr[n as int] - indptr[0],
        0 <= r < n && indptr[r] <= k < indptr[r + 1] ==> {
            &&& 0 <= k - indptr[0] < row_triplets(indptr, indices, data, n).len()
            &&& row_triplets(indptr, indices, data, n)[k - indptr[0]] == (
                r as usize,
                indices[k],
                data[k],
            )
        },
    decreases n,
{
    if n > 0 {
        lemma_triplet_at(indptr, indices, data, shape, (n - 1) as nat, r, k);
        assert(sound_row(indptr, indices, shape.1, n - 1));
    }
}

/// The entries that are collected from accepted arrays are the entries of the arrays, each in its
/// place and in its row, and there are no others.
pub proof fn law_entries_are_collected_in_place(
    indptr: Seq<usize>,
    indices: Seq<usize>,
    data: Seq<u64>,
    shape: (usize, usize),
    m: TriMat<u64>,
)
    requires
        describes(indptr, indices, data, shape),
        collected(indptr, indices, data, shape, m),
    ensures
        triplet_shape(m) == shape,
        triplets(m).len() == indptr[shape.0 as int] - indptr[0],
        forall|r: int, k: int|
            0 <= r < shape.0 && #[trigger] indptr[r] <= k < indptr[r + 1] ==> triplets(m)[k
                - indptr[0]] == (r as usize, indices[k], #[trigger] data[k]),
{
    lemma_triplet_at(indptr, indices, data, shape, shape.0 as nat, 0, 0);
    assert forall|r: int, k: int|
        0 <= r < shape.0 && #[trigger] indptr[r] <= k < indptr[r + 1] implies triplets(m)[k
        - indptr[0]] == (r as usize, indices[k], #[trigger] data[k]) by {
        lemma_triplet_at(indptr, indices, data, shape, shape.0 as nat, r, k);
    }
}

/// What arrays are refused with says what is wrong first: the lengths of the entries, the length of
/// the offsets, the first row whose bounds are out of order, or the first column in the first row
/// that lies outside the matrix.
pub proof fn law_refused_arrays_are_told_why(
    indptr: Seq<usize>,
    indices: Seq<usize>,
    data: Seq<u64>,
    shape: (usize, usize),
    text: Seq<char>,
    r: int,
    k: int,
)
    requires
        csr_refusal(indptr, indices, data, shape, text),
    ensures
        indices.len() != data.len() ==> text == "indices length "@ + decimal(indices.len())
            + " does not match data length "@ + decimal(data.len()),
        indices.len() == data.len() && indptr.len() != shape.0 + 1 ==> text == "indptr length "@
            + decimal(indptr.len()) + " does not match nrows "@ + decimal(shape.0 as nat)
            + " + 1"@,
        indices.len() == data.len() && indptr.len() == shape.0 + 1 && 0 <= r < shape.0 && (forall|
            q: int,
            j: int,
        |
            0 <= q < r && #[trigger] indptr[q] <= j < indptr[q + 1] ==> #[trigger] indices[j]
                < shape.1) && (forall|q: int|
            0 <= q < r ==> #[trigger] indptr[q] <= indptr[q + 1] <= data.len()) ==> {
            &&& !(indptr[r] <= indptr[r + 1] <= data.len()) ==> text
                == "indptr is not monotonically increasing"@
            &&& indptr[r] <= indptr[r + 1] <= data.len() && indptr[r] <= k < indptr[r + 1]
                && indices[k] >= shape.1 && (forall|j: int|
                indptr[r] <= j < k ==> #[trigger] indices[j] < shape.1) ==> text
                == "column index "@ + decimal(indices[k] as nat) + " out of bounds for "@ + decimal(
                shape.1 as nat,
            ) + " columns"@
        },
{
    if indices.len() == data.len() && indptr.len() == shape.0 + 1 && 0 <= r < shape.0 && (forall|
        q: int,
        j: int,
    |
        0 <= q < r && #[trigger] indptr[q] <= j < indptr[q + 1] ==> #[trigger] indices[j]
            < shape.1) && (forall|q: int|
        0 <= q < r ==> #[trigger] indptr[q] <= indptr[q + 1] <= data.len()) {
        assert forall|q: int| 0 <= q < r implies #[trigger] sound_row(
            indptr,
            indices,
            shape.1,
            q,
        ) by {
            assert(indptr[q] <= indptr[q + 1] <= data.len());
        }
        let bad = choose|bad: int|
            {
                &&& #[trigger] first_unsound_row(indptr, indices, shape, bad)
                &&& if !bounded_row(indptr, indices.len(), bad) {
                    text == indptr_order_message()
                } else {
                    exists|k: int|
                        {
                            &&& #[trigger] first_stray_column(indptr, indices, shape.1, bad, k)
                            &&& text == column_message(indices[k] as nat, shape.1 as nat)
                        }
                }
            };
        assert(!sound_row(indptr, indices, shape.1, bad));
        if bad < r {
            assert(sound_row(indptr, indices, shape.1, bad));
        }
        if !(indptr[r] <= indptr[r + 1] <= data.len()) {
            assert(!sound_row(indptr, indices, shape.1, r));
            if r < bad {
                assert(sound_row(indptr, indices, shape.1, r));
            }
        } else if indptr[r] <= k < indptr[r + 1] && indices[k] >= shape.1 && (forall|j: int|
            indptr[r] <= j < k ==> #[trigger] indices[j] < shape.1) {
            assert(!sound_row(indptr, indices, shape.1, r));
            if r < bad {
                assert(sound_row(indptr, indices, shape.1, r));
            }
            let col = choose|col: int|
                {
                    &&& #[trigger] first_stray_column(indptr, indices, shape.1, bad, col)
                    &&& text == column_message(indices[col] as nat, shape.1 as nat)
                };
            assert(first_stray_column(indptr, indices, shape.1, bad, col));
            if col < k {
                assert(indices[col] < shape.1);
            } else if k < col {
                assert(indices[k] < shape.1);
            }
        }
    }
}

/// The rows of a matrix are written out one behind the other: the offset of a row is the number of
/// entries before it, and each entry stands in its place behind that offset, with its column and
/// its value. There must be no more entries than a signed offset can count.
pub proof fn law_rows_are_written_in_place(
    matrix: SparseRows,
    parts: SparseParts,
    r: int,
    j: int,
)
    requires
        parts_of(matrix, parts),
        parts.data@.len() <= i64::MAX,
    ensures
        parts.shape == matrix.shape,
        parts.indptr@.len() == matrix.rows@.len() + 1,
        parts.indptr@[0] == 0,
        parts.indptr@[matrix.rows@.len() as int] == parts.data@.len(),
        parts.indices@.len() == parts.data@.len(),
        0 <= r < matrix.rows@.len() ==> parts.indptr@[r + 1] - parts.indptr@[r]
            == matrix.rows@[r]@.len(),
        0 <= r < matrix.rows@.len() && 0 <= j < matrix.rows@[r]@.len() ==> {
            &&& 0 <= parts.indptr@[r] + j < parts.data@.len()
            &&& matrix.rows@[r]@[j].0 <= i64::MAX ==> parts.indices@[parts.indptr@[r] + j]
                == matrix.rows@[r]@[j].0
            &&& parts.data@[parts.indptr@[r] + j] == matrix.rows@[r]@[j].1
        },
{
    let rows = rows_view(matrix.rows@);
    assert(rows.take(rows.len() as int) =~= rows);
    assert(joined(rows.take(0)) =~= Seq::empty());
    if 0 <= r < matrix.rows@.len() {
        lemma_row_in_place(matrix, parts, r, j);
    }
}

/// Row `r` is written out behind the rows before it, and its entry `j` in its place there.
proof fn lemma_row_in_place(matrix: SparseRows, parts: SparseParts, r: int, j: int)
    requires
        parts_of(matrix, parts),
        parts.data@.len() <= i64::MAX,
        0 <= r < matrix.rows@.len(),
    ensures
        parts.indptr@[r + 1] - parts.indptr@[r] == matrix.rows@[r]@.len(),
        0 <= j < matrix.rows@[r]@.len() ==> {
            &&& 0 <= parts.indptr@[r] + j < parts.data@.len()
            &&& matrix.rows@[r]@[j].0 <= i64::MAX ==> parts.indices@[parts.indptr@[r] + j]
                == matrix.rows@[r]@[j].0
            &&& parts.data@[parts.indptr@[r] + j] == matrix.rows@[r]@[j].1
        },
{
    let rows = rows_view(matrix.rows@);
    let start = joined(rows.take(r)).len() as int;
    lemma_joined_at(rows, r);
    assert(rows[r] == matrix.rows@[r]@);
    assert(parts.indptr@[r] == start);
    assert(parts.indptr@[r + 1] == start + rows[r].len());
    if 0 <= j < rows[r].len() {
        assert(joined(rows)[start + j] == rows[r][j]);
    }
}

} // verus!
