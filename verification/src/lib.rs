//! Storage code generation for DSL specs: the model of storage definitions,
//! the type mappings between domain, database and SQL types, the parser of
//! storage specs and the SQL migration generator.

pub mod config;
pub mod generator;
pub mod parser;
pub mod text;
pub mod types;
pub mod utils;
pub mod yaml;
