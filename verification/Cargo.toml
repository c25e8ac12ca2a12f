[package]
name = "cargo-watch"
version = "0.1.0"
edition = "2021"
publish = false

[dependencies]
argfile = "=0.1.6"
camino = "=1.2.6"
cargo_metadata = "0.18"
clap = { version = "=4.6.7", default-features = false, features = ["std", "derive", "help", "usage", "error-context"] }
dotenvy = "=0.15.7"
duct = "=0.13.7"
dunce = "=1.0.5"
ignore = "=0.4.33"
log = "=0.4.34"
miette = { version = "=5.10.0", default-features = false }
regex = "=1.13.1"
shell-escape = "=0.1.5"
shlex = "=1.3.0"
time = "=0.1.45"
tokio = { version = "=1.54.1", default-features = false, features = ["rt-multi-thread", "macros"] }
tracing = { version = "=0.1.44", default-features = false, features = ["std"] }
walkdir = "=2.5.0"
watchexec = "=2.3.2"
wild = "=2.2.1"
