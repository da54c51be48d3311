//! The catalog: buckets and objects over the blob store.
pub mod engine;
pub mod fresh;
pub mod model;
pub mod tags;
