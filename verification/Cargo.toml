[package]
name = "tronctl"
version = "0.1.0"
edition = "2021"
publish = false

[dependencies]
nix = { version = "0.26", features = ["signal", "fs", "user", "process"] }
md5 = "*"
serde_json = "*"
sysinfo = "*"
num_cpus = "*"
reqwest = { version = "*", default-features = false, features = ["json", "stream"] }
tokio = { version = "*", features = ["full"] }
tokio-util = { version = "*", features = ["io", "io-util"] }
futures = "*"
async-compression = { version = "*", features = ["tokio", "gzip"] }
flate2 = "*"
tar = "*"
clap = { version = "*", features = ["derive"] }
serde = { version = "*", features = ["derive"] }
toml = "*"
anyhow = "*"
thiserror = "*"
tracing = "*"
tracing-subscriber = { version = "*", features = ["env-filter"] }
indicatif = "*"
dialoguer = "*"
indoc = "*"
chrono = "*"
fs2 = "*"

[dev-dependencies]
tempfile = "*"
