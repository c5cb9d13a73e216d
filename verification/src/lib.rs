//! The decisions of an in-memory key-value cache service, with contracts that Verus proves.
//!
//! The service answers HTTP requests out of a shared cache whose entries may carry a deadline, and
//! writes the cache to a snapshot when it stops. This crate says what each request does to the
//! cache and what it is answered, how long an entry lives, what goes into a snapshot and what
//! comes back out of one, and which of several concurrent lookups of one key does the work.
pub mod timestamp;
pub mod msgpack;
pub mod codec;
pub mod text;
pub mod cache;
pub mod error;
pub mod expiry;
pub mod store;
pub mod snapshot;
pub mod singleflight;
pub mod handlers;
pub mod routes;
pub mod settings;
pub mod laws;
pub mod guarantees;
