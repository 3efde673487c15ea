[package]
name = "drt-tools"
version = "0.1.0"
edition = "2021"
publish = false

[dependencies]
hex = "=0.4.3"
voca_rs = "=1.15.2"
regex = "=1.13.1"
anyhow = "=1.0.104"
async-trait = "=0.1.92"
chrono = { version = "=0.4.45", default-features = false, features = ["std", "clock"] }
clap = { version = "=4.6.7", features = ["derive"] }
clap-verbosity-flag = "=2.2.3"
flate2 = "=1.1.10"
futures-util = "=0.3.34"
httpdate = "=1.0.3"
indicatif = "=0.17.11"
log = "=0.4.35"
openssh = "=0.11.6"
reqwest = { version = "=0.12.28", default-features = false, features = ["rustls-tls", "stream"] }
rfc822-like = "=0.2.3"
serde = { version = "=1.0.229", features = ["derive"] }
serde_yaml = "=0.9.34"
stderrlog = "=0.6.0"
tokio = { version = "=1.54.1", features = ["macros", "rt-multi-thread", "io-util"] }
xdg = "=2.5.2"
xz2 = "=0.1.7"
