[package]
name = "imbuia"
version = "0.1.0"
edition = "2021"
publish = false

[dependencies]
anyhow = "=1.0.104"
arboard = { version = "=3.7.0", default-features = false, features = ["image-data"] }
arc-swap = "=1.9.3"
bincode = { version = "=2.0.1", features = ["serde"] }
crossterm = "=0.29.0"
image = { version = "=0.25.10", default-features = false, features = ["png"] }
libc = "=0.2.191"
nix = { version = "=0.31.3", features = ["process", "signal"] }
portable-pty = "=0.9.0"
ratatui = "=0.30.2"
ratatui-textarea = "=0.9.4"
rcgen = { version = "=0.14.10", default-features = false, features = ["pem", "ring"] }
rustls = { version = "=0.23.46", default-features = false, features = ["ring", "std", "tls12"] }
semver = "=1.0.28"
serde = { version = "=1.0.229", features = ["derive"] }
serde_json = "=1.0.154"
sha2 = "=0.10.9"
smallvec = "=1.16.4"
sysinfo = "=0.40.1"
tokio = { version = "=1.54.1", features = ["io-util", "macros", "net", "rt-multi-thread", "sync", "time"] }
tokio-rustls = { version = "=0.26.6", default-features = false, features = ["ring", "tls12"] }
toml = "=1.1.8"
tracing = "=0.1.44"
tracing-subscriber = { version = "=0.3.23", features = ["env-filter"] }
unicode-width = "=0.2.3"
ureq = { version = "=3.5.1", default-features = false, features = ["rustls", "json"] }
vt100 = "=0.16.2"
x509-parser = "=0.18.1"
