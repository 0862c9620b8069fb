[package]
name = "mpq_cli"
version = "0.1.0"
edition = "2021"
publish = false

[dependencies]
wow-mpq = "=0.7.0"
anyhow = "=1.0.104"
clap = { version = "=4.6.7", features = ["derive"] }
log = "=0.4.35"
crc32fast = "=1.5.4"
md-5 = "=0.10.6"
