pub mod bytes;
pub mod offset;
pub mod record;
pub mod log;
pub mod storage;
pub mod replication;
pub mod hmac;
pub mod api;
pub mod node;
pub mod app_state;
pub mod cli;
pub mod error;
