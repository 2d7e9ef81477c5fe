//! Parsers of DSL spec files.

pub mod storage;
