//! Integer arrays as node identifiers and as indices.

use vstd::prelude::*;

use crate::error::Error;
use crate::text::{signed_decimal, signed_text};

verus! {

/// The element type of an integer array.
#[derive(Debug, Clone, Copy, PartialEq, Eq, Structural)]
pub enum IntKind {
    I64,
    I32,
    U32,
    U64,
}

/// An argument that should be an integer array, under the element type as which it was read.
pub enum IntArray {
    I64(Vec<i64>),
    I32(Vec<i32>),
    U32(Vec<u32>),
    U64(Vec<u64>),
    /// It could not be read as an array of any element type that was tried.
    Other,
}

/// The element types as which node identifiers are read: the first one that applies counts.
pub fn node_id_kinds() -> (kinds: Vec<IntKind>)
    ensures
        kinds@ == seq![IntKind::U64, IntKind::I64],
{
    let mut kinds: Vec<IntKind> = Vec::new();
    kinds.push(IntKind::U64);
    kinds.push(IntKind::I64);
    kinds
}

/// The element types as which indices are read: the first one that applies counts.
pub fn index_kinds() -> (kinds: Vec<IntKind>)
    ensures
        kinds@ == seq![IntKind::I64, IntKind::I32, IntKind::U32, IntKind::U64],
{
    let mut kinds: Vec<IntKind> = Vec::new();
    kinds.push(IntKind::I64);
    kinds.push(IntKind::I32);
    kinds.push(IntKind::U32);
    kinds.push(IntKind::U64);
    kinds
}

/// The numbers of a sequence of signed values.
pub open spec fn widened(values: Seq<i32>) -> Seq<i64> {
    values.map_values(|v: i32| v as i64)
}

/// Whether none of the values is negative.
pub open spec fn unsigned(values: Seq<i64>) -> bool {
    forall|i: int| 0 <= i < values.len() ==> #[trigger] values[i] >= 0
}

/// Whether the value at `i` is the first negative one.
pub open spec fn first_negative(values: Seq<i64>, i: int) -> bool {
    &&& 0 <= i < values.len()
    &&& values[i] < 0
    &&& forall|j: int| 0 <= j < i ==> #[trigger] values[j] >= 0
}

/// What an argument that is no integer array is refused with.
pub open spec fn not_integer_message(field: Seq<char>) -> Seq<char> {
    field + " must be an integer numpy array"@
}

/// What a negative node identifier is refused with.
pub open spec fn negative_id_message(field: Seq<char>, v: int) -> Seq<char> {
    field + " contains a negative node id ("@ + signed_decimal(v) + "); node ids are unsigned"@
}

/// What a negative index is refused with.
pub open spec fn negative_index_message(field: Seq<char>, v: int) -> Seq<char> {
    field + " has a negative value ("@ + signed_decimal(v) + ")"@
}

/// Whether `error` is what the first negative node identifier is refused with.
pub open spec fn negative_id_refusal(values: Seq<i64>, field: Seq<char>, error: Error) -> bool {
    error matches Error::Storage(text) && exists|i: int| #[trigger]
        first_negative(values, i) && text@ == negative_id_message(field, values[i] as int)
}

/// Whether `error` is what the first negative index is refused with.
pub open spec fn negative_index_refusal(values: Seq<i64>, field: Seq<char>, error: Error) -> bool {
    error matches Error::Value(text) && exists|i: int| #[trigger]
        first_negative(values, i) && text@ == negative_index_message(field, values[i] as int)
}

/// Whether `error` says that the argument is no integer array.
pub open spec fn not_integer_refusal(field: Seq<char>, error: Error) -> bool {
    error matches Error::Value(text) && text@ == not_integer_message(field)
}

/// The node identifiers that an array holds, if it is accepted.
pub open spec fn node_id_view(array: IntArray) -> Option<Seq<u64>> {
    match array {
        IntArray::U64(values) => Some(values@),
        IntArray::I64(values) => if unsigned(values@) {
            Some(values@.map_values(|v: i64| v as u64))
        } else {
            None
        },
        _ => None,
    }
}

/// Whether `error` is what an array is refused with as node identifiers.
pub open spec fn node_id_refusal(array: IntArray, field: Seq<char>, error: Error) -> bool {
    match array {
        IntArray::I64(values) => negative_id_refusal(values@, field, error),
        _ => not_integer_refusal(field, error),
    }
}

/// The indices that an array holds, if it is accepted.
pub open spec fn index_view(array: IntArray) -> Option<Seq<usize>> {
    match array {
        IntArray::I64(values) => if unsigned(values@) {
            Some(values@.map_values(|v: i64| v as usize))
        } else {
            None
        },
        IntArray::I32(values) => if unsigned(widened(values@)) {
            Some(values@.map_values(|v: i32| v as usize))
        } else {
            None
        },
        IntArray::U32(values) => Some(values@.map_values(|v: u32| v as usize)),
        IntArray::U64(values) => Some(values@.map_values(|v: u64| v as usize)),
        IntArray::Other => None,
    }
}

/// Whether `error` is what an array is refused with as indices.
pub open spec fn index_refusal(array: IntArray, field: Seq<char>, error: Error) -> bool {
    match array {
        IntArray::I64(values) => negative_index_refusal(values@, field, error),
        IntArray::I32(values) => negative_index_refusal(widened(values@), field, error),
        _ => not_integer_refusal(field, error),
    }
}

fn not_integer(field: &str) -> (error: Error)
    ensures
        not_integer_refusal(field@, error),
{
    let mut text = field.to_owned();
    text.append(" must be an integer numpy array");
    Error::Value(text)
}

/// Reads node identifiers: unsigned values as they are, signed values if none is negative.
pub fn node_ids(array: IntArray, field: &str) -> (result: Result<Vec<u64>, Error>)
    ensures
        match result {
            Ok(ids) => node_id_view(array) == Some(ids@) && ids@.len() == count(array) && forall|i:
                int|
                0 <= i < ids@.len() ==> #[trigger] ids@[i] == number_at(array, i),
            Err(e) => node_id_view(array) is None && node_id_refusal(array, field@, e),
        },
{
    match array {
        IntArray::U64(values) => Ok(values),
        IntArray::I64(values) => {
            let mut ids: Vec<u64> = Vec::new();
            let mut i: usize = 0;
            while i < values.len()
                invariant
                    array == IntArray::I64(values),
                    i <= values@.len(),
                    ids@ == values@.take(i as int).map_values(|v: i64| v as u64),
                    forall|j: int| 0 <= j < i ==> #[trigger] values@[j] >= 0,
                decreases values@.len() - i,
            {
                let v: i64 = values[i];
                if v < 0 {
                    let mut text = field.to_owned();
                    text.append(" contains a negative node id (");
                    text.append(signed_text(v).as_str());
                    text.append("); node ids are unsigned");
                    assert(first_negative(values@, i as int));
                    return Err(Error::Storage(text));
                }
                assert(values@.take(i + 1) =~= values@.take(i as int).push(v));
                ids.push(v as u64);
                i = i + 1;
            }
            assert(values@.take(i as int) =~= values@);
            Ok(ids)
        },
        _ => Err(not_integer(field)),
    }
}

/// Reads signed values as indices if none is negative.
fn signed_indices(values: &Vec<i64>, field: &str) -> (result: Result<Vec<usize>, Error>)
    ensures
        match result {
            Ok(list) => {
                &&& unsigned(values@)
                &&& list@ == values@.map_values(|v: i64| v as usize)
            },
            Err(e) => negative_index_refusal(values@, field@, e),
        },
{
    let mut list: Vec<usize> = Vec::new();
    let mut i: usize = 0;
    while i < values.len()
        invariant
            i <= values@.len(),
            list@ == values@.take(i as int).map_values(|v: i64| v as usize),
            forall|j: int| 0 <= j < i ==> #[trigger] values@[j] >= 0,
        decreases values@.len() - i,
    {
        let v: i64 = values[i];
        if v < 0 {
            let mut text = field.to_owned();
            text.append(" has a negative value (");
            text.append(signed_text(v).as_str());
            text.append(")");
            assert(first_negative(values@, i as int));
            return Err(Error::Value(text));
        }
        assert(values@.take(i + 1) =~= values@.take(i as int).push(v));
        list.push(v as usize);
        i = i + 1;
    }
    assert(values@.take(i as int) =~= values@);
    Ok(list)
}

/// Reads indices: unsigned values as they are, signed values if none is negative.
pub fn index_list(array: IntArray, field: &str) -> (result: Result<Vec<usize>, Error>)
    ensures
        match result {
            Ok(list) => index_view(array) == Some(list@) && list@.len() == count(array)
                && forall|i: int|
                0 <= i < list@.len() && number_at(array, i) <= usize::MAX ==> #[trigger] list@[i]
                    == number_at(array, i),
            Err(e) => index_view(array) is None && index_refusal(array, field@, e),
        },
{
    match array {
        IntArray::I64(values) => signed_indices(&values, field),
        IntArray::I32(values) => {
            let mut wide: Vec<i64> = Vec::new();
            let mut i: usize = 0;
            while i < values.len()
                invariant
                    i <= values@.len(),
                    wide@ == widened(values@.take(i as int)),
                decreases values@.len() - i,
            {
                assert(values@.take(i + 1) =~= values@.take(i as int).push(values@[i as int]));
                wide.push(values[i] as i64);
                i = i + 1;
            }
            assert(values@.take(i as int) =~= values@);
            assert(wide@.map_values(|v: i64| v as usize) =~= values@.map_values(
                |v: i32| v as usize,
            ));
            signed_indices(&wide, field)
        },
        IntArray::U32(values) => {
            let mut list: Vec<usize> = Vec::new();
            let mut i: usize = 0;
            while i < values.len()
                invariant
                    i <= values@.len(),
                    list@ == values@.take(i as int).map_values(|v: u32| v as usize),
                decreases values@.len() - i,
            {
                assert(values@.take(i + 1) =~= values@.take(i as int).push(values@[i as int]));
                list.push(values[i] as usize);
                i = i + 1;
            }
            assert(values@.take(i as int) =~= values@);
            Ok(list)
        },
        IntArray::U64(values) => {
            let mut list: Vec<usize> = Vec::new();
            let mut i: usize = 0;
            while i < values.len()
                invariant
                    i <= values@.len(),
                    list@ == values@.take(i as int).map_values(|v: u64| v as usize),
                decreases values@.len() - i,
            {
                assert(values@.take(i + 1) =~= values@.take(i as int).push(values@[i as int]));
                list.push(values[i] as usize);
                i = i + 1;
            }
            assert(values@.take(i as int) =~= values@);
            Ok(list)
        },
        IntArray::Other => Err(not_integer(field)),
    }
}

/// How many numbers an array holds.
pub open spec fn count(array: IntArray) -> nat {
    match array {
        IntArray::I64(values) => values@.len(),
        IntArray::I32(values) => values@.len(),
        IntArray::U32(values) => values@.len(),
        IntArray::U64(values) => values@.len(),
        IntArray::Other => 0,
    }
}

/// The number that an array holds at `i`.
pub open spec fn number_at(array: IntArray, i: int) -> int {
    match array {
        IntArray::I64(values) => values@[i] as int,
        IntArray::I32(values) => values@[i] as int,
        IntArray::U32(values) => values@[i] as int,
        IntArray::U64(values) => values@[i] as int,
        IntArray::Other => 0,
    }
}

/// The node identifiers read from an array are the numbers of that array, in their places, so that
/// different identifiers stay different. An array is accepted exactly when its elements are signed
/// or unsigned numbers of 64 bits and none of them is negative.
pub proof fn law_node_ids_are_the_numbers(array: IntArray)
    ensures
        node_id_view(array) is Some <==> match array {
            IntArray::I64(values) => forall|i: int|
                0 <= i < values@.len() ==> #[trigger] values@[i] >= 0,
            IntArray::U64(_) => true,
            _ => false,
        },
        node_id_view(array) matches Some(ids) ==> {
            &&& ids.len() == count(array)
            &&& forall|i: int| 0 <= i < ids.len() ==> #[trigger] ids[i] == number_at(array, i)
            &&& match array {
                IntArray::I64(values) => ids.len() == values@.len() && forall|i: int|
                    0 <= i < ids.len() ==> #[trigger] ids[i] == values@[i],
                IntArray::U64(values) => ids == values@,
                _ => false,
            }
            &&& forall|i: int, j: int|
                0 <= i < ids.len() && 0 <= j < ids.len() ==> ((#[trigger] ids[i]) == (
                #[trigger] ids[j]) <==> number_at(array, i) == number_at(array, j))
        },
{
}

/// The indices read from an array are the numbers of that array, in their places, as far as an
/// index can hold them. An array is accepted exactly when its elements are numbers of 32 or 64
/// bits and none of them is negative.
pub proof fn law_indices_are_the_numbers(array: IntArray)
    ensures
        index_view(array) is Some <==> match array {
            IntArray::I64(values) => forall|i: int|
                0 <= i < values@.len() ==> #[trigger] values@[i] >= 0,
            IntArray::I32(values) => forall|i: int|
                0 <= i < values@.len() ==> #[trigger] values@[i] >= 0,
            IntArray::U32(_) => true,
            IntArray::U64(_) => true,
            IntArray::Other => false,
        },
        index_view(array) matches Some(list) ==> {
            &&& list.len() == count(array)
            &&& forall|i: int|
                0 <= i < list.len() && number_at(array, i) <= usize::MAX ==> #[trigger] list[i]
                    == number_at(array, i)
            &&& match array {
                IntArray::I64(values) => list.len() == values@.len() && forall|i: int|
                    0 <= i < list.len() && values@[i] <= usize::MAX ==> #[trigger] list[i]
                        == values@[i],
                IntArray::I32(values) => list.len() == values@.len() && forall|i: int|
                    0 <= i < list.len() ==> #[trigger] list[i] == values@[i],
                IntArray::U32(values) => list.len() == values@.len() && forall|i: int|
                    0 <= i < list.len() ==> #[trigger] list[i] == values@[i],
                IntArray::U64(values) => list.len() == values@.len() && forall|i: int|
                    0 <= i < list.len() && values@[i] <= usize::MAX ==> #[trigger] list[i]
                        == values@[i],
                IntArray::Other => false,
            }
        },
{
    if let IntArray::I32(values) = array {
        let wide = widened(values@);
        assert(forall|i: int| 0 <= i < wide.len() ==> #[trigger] wide[i] == values@[i]);
        if unsigned(wide) {
            assert forall|i: int| 0 <= i < values@.len() implies #[trigger] values@[i] >= 0 by {
                assert(wide[i] >= 0);
            }
        }
    }
}

/// Two arrays with the same numbers are read as the same indices, and as the same node identifiers
/// where both are accepted as such, whatever their element types.
pub proof fn law_element_types_do_not_matter(a: IntArray, b: IntArray)
    requires
        count(a) == count(b),
        forall|i: int| 0 <= i < count(a) ==> #[trigger] number_at(a, i) == number_at(b, i),
        forall|i: int| 0 <= i < count(a) ==> #[trigger] number_at(a, i) <= usize::MAX,
    ensures
        index_view(a) is Some && index_view(b) is Some ==> index_view(a) == index_view(b),
        node_id_view(a) is Some && node_id_view(b) is Some ==> node_id_view(a) == node_id_view(b),
{
    law_indices_are_the_numbers(a);
    law_indices_are_the_numbers(b);
    law_node_ids_are_the_numbers(a);
    law_node_ids_are_the_numbers(b);
    if index_view(a) is Some && index_view(b) is Some {
        let s = index_view(a)->0;
        let t = index_view(b)->0;
        assert forall|i: int| 0 <= i < s.len() implies s[i] == t[i] by {
            assert(number_at(a, i) == number_at(b, i));
            assert(number_at(a, i) <= usize::MAX);
        }
        assert(s =~= t);
    }
    if node_id_view(a) is Some && node_id_view(b) is Some {
        let s = node_id_view(a)->0;
        let t = node_id_view(b)->0;
        assert forall|i: int| 0 <= i < s.len() implies s[i] == t[i] by {
            assert(number_at(a, i) == number_at(b, i));
        }
        assert(s =~= t);
    }
}

/// The message that refuses an array names the first number that is negative, and an argument that
/// holds no numbers is refused as such.
pub proof fn law_first_negative_number_is_named(
    array: IntArray,
    field: Seq<char>,
    error: Error,
    i: int,
)
    requires
        0 <= i < count(array),
        number_at(array, i) < 0,
        forall|j: int| 0 <= j < i ==> #[trigger] number_at(array, j) >= 0,
    ensures
        array is I64 && node_id_refusal(array, field, error) ==> (error matches Error::Storage(text)
            && text@ == field + " contains a negative node id ("@ + signed_decimal(
            number_at(array, i),
        ) + "); node ids are unsigned"@),
        index_refusal(array, field, error) ==> (error matches Error::Value(text) && text@ == field
            + " has a negative value ("@ + signed_decimal(number_at(array, i)) + ")"@),
{
    let values = match array {
        IntArray::I64(v) => v@,
        IntArray::I32(v) => widened(v@),
        _ => Seq::empty(),
    };
    assert forall|j: int| 0 <= j < values.len() implies values[j] == #[trigger] number_at(
        array,
        j,
    ) by {}
    assert forall|k: int| #[trigger] first_negative(values, k) implies k == i by {
        if i < k {
            assert(values[i] == number_at(array, i));
        } else if k < i {
            assert(values[k] == number_at(array, k));
        }
    }
}

/// An argument that is no integer array is refused as such.
pub proof fn law_other_arguments_are_refused(array: IntArray, field: Seq<char>, error: Error)
    ensures
        !(array is I64) && node_id_refusal(array, field, error) ==> (error matches Error::Value(
            text,
        ) && text@ == field + " must be an integer numpy array"@),
        array is Other && index_refusal(array, field, error) ==> (error matches Error::Value(text)
            && text@ == field + " must be an integer numpy array"@),
{
}

} // verus!
