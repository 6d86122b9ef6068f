[package]
name = "nimbus"
version = "0.1.0"
edition = "2021"
publish = false

[dependencies]
chrono = "0.4"
ctrlc = "3"
env_logger = "0.10"
fuser = { version = "0.14", default-features = false }
libc = "0.2"
log = "0.4"
nix = "0.26"
procfs = "0.15"
rustc-hash = "1.1"
serde = { version = "1", features = ["derive"] }
structopt = "0.3"
tokio = { version = "1", features = ["full"] }
toml = "0.5"
warp = "0.3"
