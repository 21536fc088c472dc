[package]
name = "net_profiling"
version = "0.1.0"
edition = "2021"
publish = false

[dependencies]
anyhow = "*"
aya = "*"
aya-log = "*"
clap = { version = "*", features = ["derive"] }
clap-verbosity-flag = "*"
getifaddrs = "*"
libc = "*"
log = "*"
once_cell = "*"
pretty_env_logger = "*"
serde = { version = "*", features = ["derive"] }
serde_json = "*"
tokio = { version = "*", features = ["macros", "rt-multi-thread", "signal"] }
