[package]
name = "miel_ftp"
version = "0.1.0"
edition = "2021"
publish = false

[dependencies]
uuid = { version = "1", features = ["v4"] }
suppaftp = { version = "6", features = ["async-native-tls"] }
chrono = "0.4"
serde = { version = "1", features = ["derive"] }
serde_json = "1"
secrecy = "0.10"
keyring = "3"
dirs = "6"
tokio = { version = "1", features = ["full"] }
futures = "0.3"
tracing = "0.1"
thiserror = "2"
open = "5"
russh = "0.44"
russh-keys = "0.44"
russh-sftp = "2"
async-trait = "0.1"
