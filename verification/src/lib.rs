//! Client-side transport core for querying on-chain account state.
//!
//! The crate models canonical account state, its byte-level codec, the
//! consistency tracking shared by every backend, endpoint failover, and
//! transaction-history pagination. Network I/O itself stays outside; the
//! decision logic it feeds is verified here.

pub mod models;
pub mod errors;
pub mod bytes;
pub mod codec;
pub mod reply;
pub mod consistency;
pub mod endpoints;
pub mod pagination;
pub mod contract_state;
pub mod backend;
pub mod adnl;
pub mod subscription;
pub mod facade;
