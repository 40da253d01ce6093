//! A front end over stores of numerical data in Lance or Zarr format.
//!
//! Dense arrays, tables, sparse matrices and graphs are checked, put into the form in which the
//! storage kernel takes them, and put back into the form in which they were given. A storage is
//! made by a builder ([`builder`]) and offers operations ([`storage`]). An operation is a run
//! ([`run`]): it says what is to be done next on the kernel and is told what came of it, so that
//! everything the front end decides is decided here, without any input or output.
//!
//! Doubles are carried as their bit patterns.

pub mod builder;
pub mod datasets;
pub mod dense;
pub mod error;
pub mod graph;
pub mod integers;
pub mod kernel;
pub mod run;
pub mod sparse;
pub mod storage;
pub mod summary;
pub mod tables;
pub mod text;
