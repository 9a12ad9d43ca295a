[package]
name = "bash_shell"
version = "0.1.0"
edition = "2021"
publish = false

[dependencies]
chrono = "=0.4.45"
clap = { version = "=4.6.7", features = ["derive"] }
futures = "=0.3.34"
nix = { version = "=0.31.3", features = ["signal", "user"] }
thiserror = "*"
tokio = { version = "=1.53.2", features = ["rt", "macros", "process", "signal", "sync", "time", "io-util"] }
tokio-util = "=0.7.19"
tracing = "*"
