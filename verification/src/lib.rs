//! chrisql: the durable record store underneath an embedded SQL database.
//!
//! The store owns a root directory and maps each logical record name to a
//! single file under that root. This crate verifies the store's logic: which
//! record names are safe to turn into paths, how the store's contents change
//! under create, write and read, and how an interactive input line is
//! interpreted. The filesystem itself is driven by a thin unverified shell
//! that mirrors every operation the store decides on.

pub mod error;
pub mod file_manager;
pub mod names;
pub mod repl;
