//! Authenticated, chunked file transfer between peers: chunking and
//! per-chunk verification, the transfer registry, message framing, the
//! per-connection stream state machine and the peer-level message router.
pub mod behaviour;
pub mod cache;
pub mod codec;
pub mod digest;
pub mod error;
pub mod file;
pub mod handler;
pub mod identity;
pub mod manager;
pub mod message;
pub mod network;
pub mod peer;
pub mod registry;
pub mod storage;
pub mod transfer;
