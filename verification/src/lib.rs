//! Normalization and batch-delivery pipeline for tabular data extraction.
//!
//! Heterogeneous source values are modelled as a tagged union ([`raw::RawValue`]),
//! decoded cell by cell into a canonical string table ([`table::ExtractedData`]),
//! and shipped in size-bounded batches with partial-failure accounting
//! ([`delivery`]).

pub mod delivery;
pub mod json;
pub mod normalize;
pub mod order;
pub mod raw;
pub mod table;
pub mod text;
