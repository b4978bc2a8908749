//! Extraction of the measurements of a time-series database into one JSON
//! document each: the listing of the measurements is read, the rows of each
//! measurement are counted, its pages are fetched at the offset of the records
//! held so far, and each row becomes a record keyed by column name.
//!
//! The library decides and computes; running queries and writing files is the
//! caller's part. [`exporter::Exporter`] says what to do next and takes the
//! caller's report of it.

pub mod count;
pub mod error;
pub mod exporter;
pub mod json;
pub mod lister;
pub mod paginator;
pub mod record;
pub mod reshape;
pub mod text;
