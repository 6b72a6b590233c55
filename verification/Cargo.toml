[package]
name = "maestro"
version = "0.1.0"
edition = "2021"
publish = false

[dependencies]
dirs = "=7.0.0"
uuid = { version = "=1.29.1", features = ["v4"] }
serde = { version = "=1.0.229", features = ["derive"] }
serde_json = "=1.0.154"
thiserror = "=2.0.21"
sysinfo = { version = "=0.40.1", default-features = false, features = ["system"] }
tokio = { version = "=1.54.1", features = ["process", "time", "rt", "macros"] }
arboard = { version = "=3.7.0", default-features = false }
wayland-client = "=0.31.15"
wayland-protocols = { version = "=0.32.13", features = ["client", "staging"] }
cosmic-protocols = { version = "=0.2.0", default-features = false, features = ["client"] }

[dev-dependencies]
tempfile = "3"
