//! Edge-node image cache: content addressing, the cache-entry model and its
//! on-disk codec, a disk-resident storage backend, and the TLS server
//! lifecycle manager.

pub mod cache;
pub mod codec;
pub mod http;
pub mod rocks;
pub mod store;
