pub mod client;
pub mod config;
pub mod retry;
pub mod sftp;
pub mod stream;
pub mod throttle;
