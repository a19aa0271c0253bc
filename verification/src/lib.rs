//! Planning and bookkeeping for chunked, concurrency-bounded transfers against
//! an object store, together with the credential lifecycle that keeps the
//! store connection valid.
//!
//! Everything in this crate is pure: it decides what has to be fetched,
//! written, listed or refreshed, and a driver performs the I/O.

pub mod chunk;
pub mod config;
pub mod credentials;
pub mod error;
pub mod listing;
pub mod metadata;
pub mod options;
pub mod path;
pub mod reassembly;
pub mod session;
pub mod text;
pub mod time;
pub mod transfer;
