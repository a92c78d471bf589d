[package]
name = "nono_cli"
version = "0.1.0"
edition = "2021"
publish = false

[dependencies]
clap = { version = "4", features = ["derive", "env"] }
colored = "*"
landlock = "0.4"
nix = { version = "*", features = ["signal", "socket", "uio", "process", "fs", "term"] }
serde = { version = "1", features = ["derive"] }
serde_json = "1"
sha2 = "0.10"
tempfile = "3"
tokio = { version = "1", features = ["rt-multi-thread", "time", "signal", "macros"] }
tracing = "0.1"
zeroize = "1"
