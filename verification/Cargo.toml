[package]
name = "podsync"
version = "0.1.0"
edition = "2021"
publish = false

[dependencies]
sha256 = "=1.6.0"
uuid = { version = "=1.27.0", features = ["v4"] }
base64_light = "=0.1.6"
clap = { version = "=4.6.7", features = ["derive"] }
cookie = "=0.18.2"
log = "=0.4.34"
pretty_env_logger = "=0.5.0"
serde = { version = "=1.0.229", features = ["derive"] }
time = { version = "=0.3.55", features = ["formatting", "parsing", "macros", "serde"] }
tokio = { version = "=1.53.2", features = ["macros", "rt-multi-thread"] }
warp = { version = "=0.4.3", features = ["server"] }
