pub mod connection;
pub mod connection_form;
pub mod context_menu;
pub mod ftp_entry;
pub mod ftp_log;
pub mod ftp_task;
pub mod names;
pub mod panel;
pub mod prompt;
pub mod quickconnect;
pub mod remote_edit;
pub mod settings;
pub mod sort;
pub mod state;
pub mod sync;
pub mod toast;
pub mod transfer;
