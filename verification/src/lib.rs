//! Extraction of structured build results from the HTML task-info pages of a
//! koji build farm.
//!
//! Instead of the farm's RPC API, a task page is fetched as HTML, parsed into
//! a concrete syntax tree, and interrogated with a small fixed set of
//! structural queries (a labeled two-cell table row, and a labeled row whose
//! data cell is captured as a whole subtree).  Field extractors built on the
//! query layer recover the task's method, its parameters (target architecture
//! and source-package filename), its state, and the log-file links of its
//! output, and a classifier assembles them into a failed or successful build
//! record.

pub mod errors;
pub mod nvr;
pub mod page;
pub mod query;
pub mod strutil;
