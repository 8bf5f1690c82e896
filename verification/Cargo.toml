[package]
name = "afltriage"
version = "0.1.0"
edition = "2021"
publish = false

[dependencies]
serde = { version = "=1.0.229", features = ["derive"] }
serde_json = "=1.0.151"
tempfile = "=3.27.0"
which = "=4.4.2"
is_executable = "=1.0.6"
num_cpus = "=1.17.0"
rayon = "=1.12.0"
clap = "=2.34.0"
env_logger = "=0.9.3"
log = "=0.4.34"

[dev-dependencies]
regex = "=1.13.1"
