//! A verified core for a batch exporter that turns rows of a relational
//! store into a single columnar (parquet) file.
//!
//! The library models timestamps and export windows, decodes raw rows into
//! records while enforcing the REQUIRED-field rule, groups records into
//! bounded row groups, projects each group into column chunks, and drives
//! parquet's serialized writer through a small trusted boundary. All I/O
//! (the store connection, the output file, the clock) stays with the caller,
//! which hands in plain values.

pub mod time_model;
pub mod window;
pub mod schema_decl;
pub mod record;
pub mod columns;
pub mod sink;
pub mod export;

use vstd::prelude::*;

verus! {

/// Why an export run failed. Every failure of the pipeline is one of these;
/// no error is swallowed.
#[derive(Debug, Clone)]
pub enum ExportError {
    /// The requested window has start >= end.
    InvalidWindow,
    /// The store could not be reached or queried (raised by the caller
    /// that owns the connection).
    ConnectionError(String),
    /// A row violated the schema: a REQUIRED field was null or empty, or the
    /// indexing timestamp did not parse. Carries the row's ordinal position.
    RowDecodeError(usize),
    /// The output destination already exists; never overwrite a prior export.
    DestinationExists,
    /// The columnar writer failed; the caller must not keep a partial file.
    WriteError(String),
}

/// What a completed export did: how many rows were written, in how many
/// row groups, and how long the run took. The clock is ambient, so the
/// library returns the duration as zero and the caller that owns the clock
/// fills it in.
#[derive(Debug, Clone, Copy, PartialEq, Eq, Structural)]
pub struct ExportReport {
    pub rows: usize,
    pub groups: usize,
    pub elapsed_millis: u64,
}

} // verus!
