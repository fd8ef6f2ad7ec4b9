[package]
name = "millipede-core"
version = "0.1.0"
edition = "2021"
publish = false

[dependencies]
anyhow = "1"
async-trait = "0.1"
bytes = "1"
cookie_store = "0.21"
flate2 = "1"
futures-util = "0.3"
globset = "0.4"
http = "1"
psl = "2"
quick-xml = "0.37"
regex = "1"
serde = { version = "1", features = ["derive"] }
serde_json = "1"
sysinfo = "0.33"
thiserror = "2"
time = { version = "0.3", features = ["serde", "formatting", "parsing", "macros"] }
tokio = { version = "1", features = ["full"] }
tokio-util = "0.7"
tracing = "0.1"
url = "2"
