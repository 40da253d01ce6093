//! The errors of the front end.

use vstd::prelude::*;

use crate::kernel::{kernel_error_text, kernel_text};

verus! {

/// What went wrong, with the message that is reported.
#[derive(Debug)]
pub enum Error {
    /// An argument is not acceptable.
    Value(String),
    /// The store refused or failed, or its directory could not be prepared.
    Storage(String),
}

/// Reports a failure of the storage kernel with the kernel's own message.
pub fn pyerr(e: &genegraph_storage::StorageError) -> (error: Error)
    ensures
        error matches Error::Storage(text) && text@ == kernel_error_text(*e),
{
    Error::Storage(kernel_text(e))
}

} // verus!
