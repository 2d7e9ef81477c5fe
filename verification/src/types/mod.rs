//! The model of storage definitions that the parser builds and the
//! generators read.

pub mod storage;
