//! Synchronisation primitives for cooperative tasks.

pub mod mutex;
