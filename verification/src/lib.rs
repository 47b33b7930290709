//! Verified core of a dual-pane FTP/SFTP client: entry filtering and
//! ordering, name validation, transfer queue bookkeeping, selection,
//! synchronisation planning and the small text utilities they rest on.

pub mod app;
pub mod error;
pub mod ftp;
pub mod ids;
pub mod text;
pub mod models;
pub mod ui;
pub mod update;
