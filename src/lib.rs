//! A URL shortener: stored URLs are named by a storage-assigned identifier,
//! and clients see that identifier as a base-62 short code.
pub mod address;
pub mod codec;
pub mod engine;
pub mod liveness;
pub mod service;
