//! A content-addressed object store with buckets, cache policy and a chain of
//! request filters, with every rule stated as a contract and proved.
pub mod blob;
pub mod catalog;
pub mod config;
pub mod digest;
pub mod entries;
pub mod error;
pub mod gate;
pub mod laws;
pub mod models;
pub mod net;
pub mod outside;
pub mod partial;
pub mod period;
pub mod pipeline;
pub mod text;
pub mod validate;
