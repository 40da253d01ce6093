//! Dense arrays: validation on the way in, row-major flattening on the way out.
//!
//! A double is carried as its IEEE 754 bit pattern, so that a value that is stored is the value
//! that is read back, bit for bit.

use smartcore::linalg::basic::arrays::Array;
use smartcore::linalg::basic::matrix::DenseMatrix;
use vstd::prelude::*;

use crate::error::Error;
use crate::text::{decimal, size_text};

verus! {

/// The weight of the sign bit of a double.
pub const SIGN: u64 = 0x8000_0000_0000_0000;

/// The bit pattern of positive infinity.
pub const INFINITY: u64 = 0x7ff0_0000_0000_0000;

/// Whether the bit pattern is a NaN: above infinity once the sign is dropped.
pub open spec fn is_nan(bits: u64) -> bool {
    bits % SIGN > INFINITY
}

/// Whether the bit pattern is positive or negative infinity.
pub open spec fn is_infinite(bits: u64) -> bool {
    bits % SIGN == INFINITY
}

/// Whether the bit pattern is a finite double.
pub open spec fn is_finite(bits: u64) -> bool {
    !is_nan(bits) && !is_infinite(bits)
}

/// How many of the cells are NaN.
pub open spec fn nan_count(cells: Seq<u64>) -> nat {
    cells.filter(|b: u64| is_nan(b)).len()
}

/// How many of the cells are infinite.
pub open spec fn inf_count(cells: Seq<u64>) -> nat {
    cells.filter(|b: u64| is_infinite(b)).len()
}

/// A two-dimensional array of doubles, as bit patterns in row-major order.
pub struct NumpyArray {
    pub rows: usize,
    pub cols: usize,
    pub cells: Vec<u64>,
}

impl NumpyArray {
    /// The array holds one cell for each row and column.
    pub open spec fn wf(self) -> bool {
        self.cells@.len() == self.rows * self.cols
    }

    /// Whether the array may be stored: it has cells, and all of them are finite.
    pub open spec fn storable(self) -> bool {
        &&& self.rows != 0
        &&& self.cols != 0
        &&& forall|i: int| 0 <= i < self.cells@.len() ==> is_finite(#[trigger] self.cells@[i])
    }
}

/// What an array without cells is refused with.
pub open spec fn empty_message() -> Seq<char> {
    "Cannot store empty array. Array must have non-zero dimensions."@
}

/// What an array with `nan` NaN and `inf` infinite cells is refused with.
pub open spec fn non_finite_message(nan: nat, inf: nat) -> Seq<char> {
    "Array contains non-finite values ("@ + decimal(nan) + " NaN, "@ + decimal(inf)
        + " Inf/-Inf). Only arrays with finite values can be stored as embeddings. Please clean your data before storing."@
}

/// Whether `error` is what an array is refused with: the lack of cells comes first.
pub open spec fn array_refusal(array: NumpyArray, error: Error) -> bool {
    error matches Error::Value(text) && text@ == if array.rows == 0 || array.cols == 0 {
        empty_message()
    } else {
        non_finite_message(nan_count(array.cells@), inf_count(array.cells@))
    }
}

/// The counts of non-finite cells are zero exactly when every cell is finite.
proof fn lemma_counts(cells: Seq<u64>)
    ensures
        nan_count(cells) <= cells.len(),
        inf_count(cells) <= cells.len(),
        nan_count(cells) + inf_count(cells) <= cells.len(),
        nan_count(cells) + inf_count(cells) == 0 <==> (forall|i: int|
            0 <= i < cells.len() ==> is_finite(#[trigger] cells[i])),
    decreases cells.len(),
{
    reveal(Seq::filter);
    if cells.len() > 0 {
        let rest = cells.drop_last();
        lemma_counts(rest);
        if forall|i: int| 0 <= i < rest.len() ==> is_finite(#[trigger] rest[i]) {
            if is_finite(cells.last()) {
                assert forall|i: int| 0 <= i < cells.len() implies is_finite(
                    #[trigger] cells[i],
                ) by {
                    if i < rest.len() {
                        assert(cells[i] == rest[i]);
                    }
                }
            }
        } else {
            let i = choose|i: int| 0 <= i < rest.len() && !is_finite(#[trigger] rest[i]);
            assert(!is_finite(cells[i]));
        }
    }
}

/// Accepts an array for storage, or says what is wrong with it.
pub fn numpy_to_dense(array: NumpyArray) -> (result: Result<(usize, usize, Vec<u64>), Error>)
    ensures
        result is Ok <==> array.storable(),
        result matches Ok(parts) ==> parts == (array.rows, array.cols, array.cells),
        result matches Err(e) ==> array_refusal(array, e),
{
    if array.rows == 0 || array.cols == 0 {
        return Err(
            Error::Value(
                "Cannot store empty array. Array must have non-zero dimensions.".to_owned(),
            ),
        );
    }
    let ghost cells = array.cells@;
    let mut nan: usize = 0;
    let mut inf: usize = 0;
    let mut i: usize = 0;
    while i < array.cells.len()
        invariant
            i <= array.cells@.len(),
            nan == nan_count(array.cells@.take(i as int)),
            inf == inf_count(array.cells@.take(i as int)),
            nan <= i,
            inf <= i,
            nan + inf <= i,
        decreases array.cells@.len() - i,
    {
        proof {
            reveal(Seq::filter);
            let next = array.cells@.take(i + 1);
            assert(next.drop_last() =~= array.cells@.take(i as int));
            assert(next.last() == array.cells@[i as int]);
        }
        let magnitude: u64 = array.cells[i] % SIGN;
        if magnitude > INFINITY {
            nan = nan + 1;
        } else if magnitude == INFINITY {
            inf = inf + 1;
        }
        i = i + 1;
    }
    proof {
        assert(cells.take(cells.len() as int) =~= cells);
        lemma_counts(cells);
    }
    if nan + inf > 0 {
        let mut text = "Array contains non-finite values (".to_owned();
        text.append(size_text(nan).as_str());
        text.append(" NaN, ");
        text.append(size_text(inf).as_str());
        text.append(
            " Inf/-Inf). Only arrays with finite values can be stored as embeddings. Please clean your data before storing.",
        );
        return Err(Error::Value(text));
    }
    Ok((array.rows, array.cols, array.cells))
}

/// The dense matrix of `smartcore`.
#[verifier::external_type_specification]
#[verifier::external_body]
#[verifier::reject_recursive_types(T)]
pub struct ExDenseMatrix<T>(DenseMatrix<T>);

/// The error type of `smartcore`.
#[verifier::external_type_specification]
#[verifier::external_body]
pub struct ExFailed(smartcore::error::Failed);

/// The rows and columns of a matrix.
pub uninterp spec fn matrix_shape(m: DenseMatrix<u64>) -> (usize, usize);

/// The cells of a matrix, row by row.
pub uninterp spec fn matrix_cells(m: DenseMatrix<u64>) -> Seq<Seq<u64>>;

/// The message that an error of `smartcore` displays.
pub uninterp spec fn failed_text(e: smartcore::error::Failed) -> Seq<char>;

/// The rows of an array whose cells stand in row-major order.
pub open spec fn grid(rows: nat, cols: nat, cells: Seq<u64>) -> Seq<Seq<u64>> {
    Seq::new(rows, |r: int| Seq::new(cols, |c: int| cells[r * cols + c]))
}

/// What `smartcore` says of a shape that does not fit the number of cells.
pub open spec fn shape_message(rows: nat, cols: nat, len: nat) -> Seq<char> {
    "Error in input, check parameters: The specified shape: (cols: "@ + decimal(cols) + ", rows: "@
        + decimal(rows) + ") does not align with data len: "@ + decimal(len)
}

/// `DenseMatrix::new` for cells in row-major order. It refuses a number of cells that is not the
/// product of rows and columns, and otherwise holds the cells row by row. The product itself must
/// be representable, since the constructor multiplies without a check.
#[verifier::external_body]
fn row_major_matrix(rows: usize, cols: usize, cells: Vec<u64>) -> (result: Result<
    DenseMatrix<u64>,
    smartcore::error::Failed,
>)
    requires
        rows * cols <= usize::MAX,
    ensures
        match result {
            Ok(m) => {
                &&& cells@.len() == rows * cols
                &&& matrix_shape(m) == (rows, cols)
                &&& matrix_cells(m) == grid(rows as nat, cols as nat, cells@)
            },
            Err(e) => {
                &&& cells@.len() != rows * cols
                &&& failed_text(e) == shape_message(rows as nat, cols as nat, cells@.len())
            },
        },
{
    DenseMatrix::new(rows, cols, cells, false)
}

/// The `Display` text of `smartcore::error::Failed`.
#[verifier::external_body]
fn failed_message(e: &smartcore::error::Failed) -> (text: String)
    ensures
        text@ == failed_text(*e),
{
    format!("{e}")
}

/// `Array::shape` of a dense matrix: its rows and columns.
#[verifier::external_body]
fn shape_of(m: &DenseMatrix<u64>) -> (shape: (usize, usize))
    ensures
        shape == matrix_shape(*m),
{
    m.shape()
}

/// `Array::get` of a dense matrix: the cell at row `r` and column `c`. It panics outside the
/// shape, and on a matrix whose shape has more cells than can be addressed.
#[verifier::external_body]
fn cell_of(m: &DenseMatrix<u64>, r: usize, c: usize) -> (cell: u64)
    requires
        r < matrix_shape(*m).0,
        c < matrix_shape(*m).1,
        matrix_shape(*m).0 * matrix_shape(*m).1 <= usize::MAX,
    ensures
        cell == matrix_cells(*m)[r as int][c as int],
{
    *m.get((r, c))
}

/// Builds a matrix from its shape and its cells in row-major order.
pub fn dense_from_parts(rows: usize, cols: usize, data: Vec<u64>) -> (result: Result<
    DenseMatrix<u64>,
    Error,
>)
    requires
        rows * cols <= usize::MAX,
    ensures
        result is Ok <==> data@.len() == rows * cols,
        result matches Ok(m) ==> {
            &&& matrix_shape(m) == (rows, cols)
            &&& matrix_cells(m) == grid(rows as nat, cols as nat, data@)
            &&& forall|r: int, c: int|
                0 <= r < rows && 0 <= c < cols ==> #[trigger] matrix_cells(m)[r][c] == data@[r
                    * cols + c]
        },
        result matches Err(e) ==> (e matches Error::Value(text) && text@ == "invalid matrix: "@
            + shape_message(rows as nat, cols as nat, data@.len())),
{
    match row_major_matrix(rows, cols, data) {
        Ok(m) => Ok(m),
        Err(e) => {
            let mut text = "invalid matrix: ".to_owned();
            text.append(failed_message(&e).as_str());
            Err(Error::Value(text))
        },
    }
}

/// Whether the cells of a matrix can be addressed as one flat array.
pub open spec fn addressable(m: DenseMatrix<u64>) -> bool {
    matrix_shape(m).0 * matrix_shape(m).1 <= usize::MAX
}

/// The cells of a matrix in row-major order.
pub open spec fn flat_cells(m: DenseMatrix<u64>) -> Seq<u64> {
    let (rows, cols) = matrix_shape(m);
    Seq::new(
        (rows * cols) as nat,
        |k: int| matrix_cells(m)[k / cols as int][k % cols as int],
    )
}

/// Tests whether the cells of a matrix can be addressed as one flat array.
pub fn is_addressable(matrix: &DenseMatrix<u64>) -> (yes: bool)
    ensures
        yes == addressable(*matrix),
{
    let (rows, cols) = shape_of(matrix);
    rows.checked_mul(cols).is_some()
}

/// Flattens a matrix to its shape and its cells in row-major order.
pub fn dense_to_flat(matrix: &DenseMatrix<u64>) -> (flat: (usize, usize, Vec<u64>))
    requires
        addressable(*matrix),
    ensures
        (flat.0, flat.1) == matrix_shape(*matrix),
        flat.2@ == flat_cells(*matrix),
{
    let (rows, cols) = shape_of(matrix);
    let ghost expected = flat_cells(*matrix);
    let mut row_major: Vec<u64> = Vec::new();
    let mut r: usize = 0;
    while r < rows
        invariant
            (rows, cols) == matrix_shape(*matrix),
            addressable(*matrix),
            expected == flat_cells(*matrix),
            r <= rows,
            row_major@.len() == r * cols,
            r * cols <= rows * cols,
            row_major@ == expected.take(r * cols),
        decreases rows - r,
    {
        proof {
            assert((r + 1) * cols == r * cols + cols) by (nonlinear_arith);
            assert((r + 1) * cols <= rows * cols) by (nonlinear_arith)
                requires
                    r < rows,
            ;
        }
        let mut c: usize = 0;
        while c < cols
            invariant
                (rows, cols) == matrix_shape(*matrix),
                addressable(*matrix),
                expected == flat_cells(*matrix),
                r < rows,
                c <= cols,
                r * cols + cols <= rows * cols,
                row_major@.len() == r * cols + c,
                row_major@ == expected.take(r * cols + c),
            decreases cols - c,
        {
            let cell: u64 = cell_of(matrix, r, c);
            proof {
                let k = r * cols + c;
                vstd::arithmetic::div_mod::lemma_fundamental_div_mod_converse(
                    k,
                    cols as int,
                    r as int,
                    c as int,
                );
                assert(expected[k] == cell);
                assert(expected.take(k + 1) =~= expected.take(k).push(cell));
            }
            row_major.push(cell);
            c = c + 1;
        }
        r = r + 1;
    }
    proof {
        assert(expected.take(rows * cols) =~= expected);
    }
    (rows, cols, row_major)
}

/// What is stored is what is loaded: the matrix that is built from an array flattens to the
/// cells of that array, in their order.
pub proof fn law_dense_round_trip(rows: usize, cols: usize, data: Seq<u64>, m: DenseMatrix<u64>)
    requires
        data.len() == rows * cols,
        matrix_shape(m) == (rows, cols),
        matrix_cells(m) == grid(rows as nat, cols as nat, data),
    ensures
        flat_cells(m) == data,
{
    assert forall|k: int| 0 <= k < data.len() implies #[trigger] flat_cells(m)[k] == data[k] by {
        if cols == 0 {
            assert(rows * cols == 0) by (nonlinear_arith)
                requires
                    cols == 0,
            ;
        }
        let r = k / cols as int;
        let c = k % cols as int;
        vstd::arithmetic::div_mod::lemma_fundamental_div_mod(k, cols as int);
        assert(cols * r == r * cols) by (nonlinear_arith);
        assert(0 <= r < rows) by (nonlinear_arith)
            requires
                k == r * cols + c,
                0 <= c < cols,
                0 <= k < rows * cols,
        ;
    }
    assert(flat_cells(m) =~= data);
}

/// Doubles are told apart by their fields: one whose exponent field has all eleven bits set is
/// infinite if its fraction is zero and NaN if not, and every other one is finite. The sign does
/// not matter.
pub proof fn law_doubles_by_their_fields(bits: u64)
    ensures
        is_finite(bits) <==> bits as int / 0x10_0000_0000_0000 % 0x800 != 0x7ff,
        is_infinite(bits) <==> bits as int / 0x10_0000_0000_0000 % 0x800 == 0x7ff && bits as int
            % 0x10_0000_0000_0000 == 0,
        is_nan(bits) <==> bits as int / 0x10_0000_0000_0000 % 0x800 == 0x7ff && bits as int
            % 0x10_0000_0000_0000 != 0,
{
    let b = bits as int;
    let unit = 0x10_0000_0000_0000int;
    let q = b / unit;
    let f = b % unit;
    let s = q / 0x800;
    let e = q % 0x800;
    assert(b == q * unit + f);
    assert(q == s * 0x800 + e);
    assert(b == s * 0x8000_0000_0000_0000int + (e * unit + f));
    assert(0 <= e * unit + f < 0x8000_0000_0000_0000int);
    vstd::arithmetic::div_mod::lemma_fundamental_div_mod_converse(
        b,
        0x8000_0000_0000_0000int,
        s,
        e * unit + f,
    );
    assert(b % 0x8000_0000_0000_0000int == e * unit + f);
}

/// An array may be stored exactly when it has rows and columns and every cell is finite.
pub proof fn law_finite_arrays_may_be_stored(array: NumpyArray)
    ensures
        array.storable() <==> {
            &&& array.rows > 0
            &&& array.cols > 0
            &&& forall|i: int|
                0 <= i < array.cells@.len() ==> (#[trigger] array.cells@[i]) as int
                    / 0x10_0000_0000_0000 % 0x800 != 0x7ff
        },
{
    assert forall|i: int| 0 <= i < array.cells@.len() implies (is_finite(
        #[trigger] array.cells@[i],
    ) <==> array.cells@[i] as int / 0x10_0000_0000_0000 % 0x800 != 0x7ff) by {
        law_doubles_by_their_fields(array.cells@[i]);
    }
}

/// Non-finite cells are counted one by one: a further cell counts as NaN or as infinite if it is
/// that, and nothing else changes a count.
pub proof fn law_non_finite_cells_are_counted(cells: Seq<u64>, bits: u64)
    ensures
        nan_count(Seq::empty()) == 0,
        inf_count(Seq::empty()) == 0,
        nan_count(cells.push(bits)) == nan_count(cells) + if bits as int / 0x10_0000_0000_0000
            % 0x800 == 0x7ff && bits as int % 0x10_0000_0000_0000 != 0 {
            1nat
        } else {
            0nat
        },
        inf_count(cells.push(bits)) == inf_count(cells) + if bits as int / 0x10_0000_0000_0000
            % 0x800 == 0x7ff && bits as int % 0x10_0000_0000_0000 == 0 {
            1nat
        } else {
            0nat
        },
{
    reveal(Seq::filter);
    law_doubles_by_their_fields(bits);
    assert(cells.push(bits).drop_last() =~= cells);
    assert(cells.push(bits).last() == bits);
}

/// A refused array is told why: it has no cells, or so many of them are NaN and so many infinite.
pub proof fn law_refused_array_is_told_why(array: NumpyArray, error: Error)
    requires
        array_refusal(array, error),
    ensures
        array.rows == 0 || array.cols == 0 ==> (error matches Error::Value(text) && text@
            == "Cannot store empty array. Array must have non-zero dimensions."@),
        array.rows != 0 && array.cols != 0 ==> (error matches Error::Value(text) && text@
            == "Array contains non-finite values ("@ + decimal(nan_count(array.cells@))
            + " NaN, "@ + decimal(inf_count(array.cells@))
            + " Inf/-Inf). Only arrays with finite values can be stored as embeddings. Please clean your data before storing."@),
{
}

/// The cells of an array stand row after row: the cell in row `r` and column `c` is the one behind
/// `r` full rows and `c` more cells, in a matrix that is built from an array and in an array that is
/// read off a matrix.
pub proof fn law_cells_stand_row_after_row(
    rows: usize,
    cols: usize,
    cells: Seq<u64>,
    m: DenseMatrix<u64>,
    r: int,
    c: int,
)
    requires
        0 <= r < rows,
        0 <= c < cols,
    ensures
        grid(rows as nat, cols as nat, cells).len() == rows,
        grid(rows as nat, cols as nat, cells)[r].len() == cols,
        grid(rows as nat, cols as nat, cells)[r][c] == cells[r * cols + c],
        matrix_shape(m) == (rows, cols) ==> {
            &&& flat_cells(m).len() == rows * cols
            &&& 0 <= r * cols + c < rows * cols
            &&& flat_cells(m)[r * cols + c] == matrix_cells(m)[r][c]
        },
{
    assert(0 <= r * cols + c < rows * cols) by (nonlinear_arith)
        requires
            0 <= r < rows,
            0 <= c < cols,
    ;
    vstd::arithmetic::div_mod::lemma_fundamental_div_mod_converse(
        r * cols + c,
        cols as int,
        r,
        c,
    );
}

/// What is asked of an array and of a matrix is no more than that the numbers of cells are right:
/// one cell for each row and column, and no more of them than can be addressed.
pub proof fn law_any_size_is_taken(array: NumpyArray, m: DenseMatrix<u64>)
    ensures
        array.wf() <==> array.cells@.len() == array.rows * array.cols,
        addressable(m) <==> matrix_shape(m).0 * matrix_shape(m).1 <= usize::MAX,
{
}

} // verus!
