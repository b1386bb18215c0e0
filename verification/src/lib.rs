//! A content-addressed object store: objects are named by the SHA-256 of their
//! bytes, stored once however often they are uploaded, counted in running
//! statistics, and reachable through human-readable name links.

pub mod content;
pub mod storage;
pub mod records;
pub mod metadata;
pub mod api;
pub mod client;

