[package]
name = "safe-authd"
version = "0.1.0"
edition = "2021"
publish = false

[dependencies]
daemonize = "0.4"
directories = "2"
failure = "=0.1.8"
futures = "0.3"
log = "0.4"
quinn = "=0.5.4"
rcgen = "=0.6.0"
slog = "2"
slog-term = "2"
structopt = "0.2"
tokio = { version = "0.2", features = ["io-driver", "rt-core", "rt-util", "time"] }
