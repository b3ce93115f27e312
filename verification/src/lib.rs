//! A verified compiler core that translates a declarative description of a
//! hierarchical UI widget tree into coordinated imperative artifacts: a
//! one-time construction routine, an incremental update routine driven by
//! change tracking, and a record of named widget handles.

pub mod ast;
pub mod assign_gen;
pub mod connect_gen;
pub mod diag;
pub mod emit;
pub mod init_gen;
pub mod init_laws;
pub mod order_laws;
pub mod parse;
pub mod runtime;
pub mod update_gen;
pub mod update_laws;
pub mod validate;
