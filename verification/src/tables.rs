//! Tables: which record batch is stored for an argument.

use vstd::prelude::*;

use crate::error::Error;

verus! {

/// Where the record batch of an argument comes from.
#[derive(Debug, Clone, Copy, PartialEq, Eq, Structural)]
pub enum TableSource {
    /// The argument is a record batch.
    Batch,
    /// The argument is a table: its chunks are combined and split into batches.
    Chunks,
}

/// Decides how an argument is read as a table, from whether it is a record batch and whether it
/// can combine its chunks and split into batches.
pub fn table_source(is_batch: bool, combines: bool, splits: bool) -> (result: Result<
    TableSource,
    Error,
>)
    ensures
        match result {
            Ok(TableSource::Batch) => is_batch,
            Ok(TableSource::Chunks) => !is_batch && combines && splits,
            Err(e) => {
                &&& !is_batch
                &&& !(combines && splits)
                &&& e matches Error::Value(text)
                &&& text@ == "expected a pyarrow Table or RecordBatch"@
            },
        },
{
    if is_batch {
        Ok(TableSource::Batch)
    } else if combines && splits {
        Ok(TableSource::Chunks)
    } else {
        Err(Error::Value("expected a pyarrow Table or RecordBatch".to_owned()))
    }
}

/// The batch of a table that is stored: the first one.
pub fn first_batch<B>(batches: Vec<B>) -> (result: Result<B, Error>)
    ensures
        match result {
            Ok(batch) => batches@.len() > 0 && batch == batches@[0],
            Err(e) => {
                &&& batches@.len() == 0
                &&& e matches Error::Value(text)
                &&& text@ == "table has no batches"@
            },
        },
{
    let mut batches = batches;
    if batches.len() == 0 {
        Err(Error::Value("table has no batches".to_owned()))
    } else {
        Ok(batches.remove(0))
    }
}

} // verus!
