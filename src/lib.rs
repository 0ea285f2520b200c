//! Password authentication and session gating for a multi-user service:
//! salted memory-hard password digests, a credential store, a session
//! table and the access decision taken on every protected request.
pub mod hashing;
pub mod database;
pub mod sessions;
pub mod gate;
pub mod service;
