//! Replay engine for batches of declarative HTTP requests: request
//! descriptors, multipart body planning, retry and authentication state
//! machines, and an index-ordered batch runner.

pub mod auth;
pub mod batch;
pub mod body;
pub mod interfaces;
pub mod outcome;
pub mod retry;
pub mod summary;
pub mod text;
pub mod token_store;
pub mod transport;
