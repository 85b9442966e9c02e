[package]
name = "mailsearch"
version = "0.1.0"
edition = "2021"
publish = false

[dependencies]
chrono = "0.4"
clap = { version = "3", features = ["derive"] }
crossterm = "0.25"
dirs = "4"
imap = "2"
imap-proto = "0.10"
mailparse = "*"
native-tls = "0.2"
regex = "1"
serde = { version = "1", features = ["derive"] }
serde_json = "1"
tui = "0.19"
utf7-imap = "*"
