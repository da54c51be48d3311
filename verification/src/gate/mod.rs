//! The policy gate: the chain of filters that every request passes before
//! it reaches the catalog.
pub mod chain;
pub mod filters;
pub mod limiter;
pub mod request;
