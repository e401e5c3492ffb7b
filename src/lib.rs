//! Dezap: a peer-to-peer LAN messenger core.
//!
//! The verified library holds the wire codec, the per-connection key
//! agreement and text sealing, the transfer bookkeeping, the saved-peers and
//! history record formats, discovery parsing, and the service actor's
//! decision logic. Sockets, files and the async runtime live in `app/`.
pub mod addr;
pub mod bytes;
pub mod config;
pub mod crypto;
pub mod discovery;
pub mod fields;
pub mod history;
pub mod peers;
pub mod protocol;
pub mod service;
pub mod transfer;
pub mod ui;
