[package]
name = "tari_scenario"
version = "0.1.0"
edition = "2021"
publish = false

[dependencies]
anyhow = "=1.0.104"
async-trait = "=0.1.92"
clap = { version = "=3.2.25", features = ["derive"] }
gherkin = "*"
humantime = "=2.4.0"
indexmap = "=1.9.3"
qrcode = { version = "=0.12.0", default-features = false }
thiserror = "=1.0.69"
tokio = { version = "=1.54.1", features = ["macros", "net", "process", "rt-multi-thread", "sync", "time"] }
