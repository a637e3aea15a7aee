//! Verified core of a mod-count reporting tool.
//!
//! The library holds everything the tool decides and computes: input
//! normalization, modloader token parsing and the fixed catalog of loader
//! names, the query-parameter builder, interpretation of HTTP responses,
//! insertion-ordered count tables, and the state machine that drives one
//! counting run. The surrounding binary only performs the console and
//! network I/O and feeds plain values in and out.

pub mod fetch;
pub mod input;
pub mod modloader;
pub mod numeric;
pub mod query;
pub mod session;
pub mod strutil;
pub mod table;
