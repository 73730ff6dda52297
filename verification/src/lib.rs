//! Builds a read-optimised snapshot of a relational metadata schema: one
//! flattened document per file, with its organising group, its format, data
//! type and assay type, and its collections with their biosamples and
//! anatomy terms joined in, so that a reader of the output needs no joins.
//!
//! A run has three parts, and a module for each:
//!
//! * [`builder`] turns the loaded reference records into lookup tables
//!   ([`tables`], on top of the string-pair index in [`slots`]); [`schema`]
//!   says which fields key which table;
//! * [`enrich`] joins one file against the tables, and [`pipeline`] does so
//!   for all files of a run at once;
//! * [`writer`] plans how the output collection is cleared and refilled, and
//!   [`schema`] lists the secondary indexes to declare on it.
//!
//! Reading from and writing to the document store is left to the caller:
//! the library takes loaded records and hands back documents, queries and
//! steps to perform.
//!
//! Every function is verified against a contract over the mathematical model
//! of a document given in [`document`].  That module also holds the calls
//! into the `bson` crate, and [`pipeline`] the one call into `rayon`; their
//! contracts are stated, not proved.

pub mod builder;
pub mod document;
pub mod enrich;
pub mod pipeline;
pub mod schema;
pub mod slots;
pub mod tables;
pub mod writer;
