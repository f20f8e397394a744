//! Batched account access for a blockchain node: a connection pool, an
//! address-keyed cache, and the planning and completion of batch fetches.

pub mod address;
pub mod address_map;
pub mod batch;
pub mod cache;
pub mod client;
pub mod decode;
pub mod laws;
pub mod pool;

pub use address::Address;
pub use address_map::AddressMap;
pub use batch::{BatchError, BatchStep, PendingFetch, PendingProbe};
pub use cache::AccountCache;
pub use client::{create_batch_client, BatchRpcClient};
pub use decode::{Decoded, Mint, TokenAccount};
pub use pool::ConnectionPool;
