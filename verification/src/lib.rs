//! RookDB: the statement logic of an interactive SQL shell.

pub mod alter;
pub mod ast;
pub mod bench;
pub mod catalog;
pub mod constraints;
pub mod copy;
pub mod create;
pub mod datatype;
pub mod directory;
pub mod dml;
pub mod effects;
pub mod errors;
pub mod files;
pub mod handlers;
pub mod indexes;
pub mod lines;
pub mod logical;
pub mod logline;
pub mod references;
pub mod render;
pub mod row;
pub mod session;
pub mod shell;
pub mod statements;
pub mod tables;
pub mod text;
pub mod vetting;
