//! Front-end intermediate representation of the H-hat language.
//!
//! - `ids`: module paths, identifiers, backend kinds and scheduling modes.
//! - `hir`: the high-level IR: symbols, definitions, expressions, statements.
//! - `parser`: the grammar of bracketed identifier lists.
//! - `project`: source scanning results, file-content segregation, and the
//!   project containers of each stage.
//! - `bodies`: the uses (calls, identifiers, member paths, values and
//!   declarations) of bodies, with the demand each context makes.
//! - `resolver`: declaration collection, import binding, use binding and
//!   scheduling, producing the mapped project.
//! - `members`: enum and struct member paths.
//! - `planner`: strict or staged scheduling of expressions.

pub mod bodies;
pub mod errors;
pub mod hir;
pub mod ids;
pub mod members;
pub mod modules;
pub mod parser;
pub mod planner;
pub mod project;
pub mod resolver;
pub mod text;
