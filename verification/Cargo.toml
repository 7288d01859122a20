[package]
name = "algosul"
version = "0.1.0"
edition = "2021"
publish = false

[dependencies]
unicode-xid = "0.2"
glob = "0.3"
regex = "1"
syn = { version = "2", features = ["full"] }
quote = "1"
proc-macro2 = "1"
serde = { version = "1", features = ["derive"] }
thiserror = "1"
clap = { version = "4", features = ["derive"] }
clap_complete = "4"
tokio = { version = "1", features = ["process", "io-util", "rt", "macros", "sync"] }
reqwest = { version = "0.12", default-features = false, features = ["rustls-tls"] }
bytes = "1"
num-traits = "0.2"
toml = "0.8"
strfmt = "0.2"
strum = { version = "0.26", features = ["derive"] }
itertools = "0.13"
log = "0.4"
env_logger = "0.11"
