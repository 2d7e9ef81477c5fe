//! Generators that turn storage definitions into output files.

pub mod migration_laws;
pub mod statement_laws;
pub mod sql;
