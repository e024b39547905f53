//! Compiles a schema of records and tagged unions into the rule tree of a
//! grammar for an incremental parsing engine, and into that grammar's JSON.
//!
//! - `rule`: the rule tree and its mathematical model.
//! - `table`: the insertion-ordered table of named rules.
//! - `schema`: the input definitions, and how a declared type resolves.
//! - `compile`: the compiler, proved against a spec function per component.
//! - `laws`: properties that relate the compiler's parts.
//! - `json`: the grammar's JSON text.
pub mod rule;
pub mod table;
pub mod schema;
pub mod compile;
pub mod laws;
pub mod json;
