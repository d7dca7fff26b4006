[package]
name = "cfcli"
version = "0.1.0"
edition = "2021"
publish = false

[dependencies]
anyhow = "1"
clap = { version = "4", features = ["derive"] }
clap_complete = "4"
clap-num = "1"
confy = "*"
crazyflie-lib = "*"
crazyflie-link = "*"
futures = "0.3"
inquire = "*"
probe-rs = "*"
rustls = "0.23"
serde = { version = "1", features = ["derive"] }
serde_json = "1"
tokio = { version = "1", features = ["macros", "rt-multi-thread", "signal", "sync", "time"] }
