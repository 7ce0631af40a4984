//! An incremental read-query execution and buffer-attachment protocol for a
//! columnar storage engine.
//!
//! Result sets can exceed the memory a caller offers, so a query is executed
//! in bounded steps: before every step each projected field re-registers its
//! destination buffers with the engine, the engine fills as much as fits, and
//! every field layer then reclassifies the step's outcome from its own record
//! and byte counters.

pub mod attribute;
pub mod buffers;
pub mod context;
pub mod datatype;
pub mod engine;
pub mod error;
pub mod filter;
pub mod filter_list;
pub mod outcome;
pub mod raw;
pub mod sequence;
pub mod uri;
